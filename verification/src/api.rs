//! The external collaborator capabilities: a content-safety checker and a
//! generative text service, each a trait the engine depends on, with the
//! in-tree variants (a mock that always passes, a keyword stub, and an
//! echoing sample backend).

use vstd::prelude::*;

use crate::config::Hyperparameters;
use crate::strings::{contains_ci, contains_ci_str};

verus! {

/// The opaque sampling configuration a backend may carry.
/// Relies on serde_json::Value only as a value held and passed through;
/// nothing of its contents is read or assumed.
#[verifier::external_type_specification]
#[verifier::external_body]
pub struct ExValue(serde_json::Value);

/// A transport or backend failure reported by a language service.
#[derive(Debug)]
pub struct ApiError {
    pub message: String,
}

impl Clone for ApiError {
    /// A field-for-field copy.
    fn clone(&self) -> (r: Self)
        ensures
            r == *self,
    {
        ApiError { message: self.message.clone() }
    }
}

/// One sample returned by a language service.
#[derive(Debug)]
pub struct LanguageResponse {
    pub prompt: String,
    pub prompt_length: usize,
    pub text: String,
    pub text_length: usize,
}

/// The content-safety checker capability: a judgement on raw text.
pub trait FilterApi {
    /// Which texts this filter lets through.
    spec fn spec_filter(&self, text: Seq<char>) -> bool;

    /// Whether `text` passes the filter.
    fn filter(&self, text: &str) -> (r: bool)
        ensures
            r == self.spec_filter(text@),
    ;
}

/// A filter that lets every text through.
#[derive(Debug)]
pub struct MockFilterApi;

impl FilterApi for MockFilterApi {
    open spec fn spec_filter(&self, text: Seq<char>) -> bool {
        true
    }

    fn filter(&self, text: &str) -> (r: bool) {
        true
    }
}

/// A keyword stub standing in for a real moderation backend: it rejects
/// any text containing one of a fixed small set of toxic words, compared
/// ASCII-case-insensitively.
#[derive(Debug)]
pub struct PerspectiveFilterApi;

impl FilterApi for PerspectiveFilterApi {
    open spec fn spec_filter(&self, text: Seq<char>) -> bool {
        !(contains_ci(text, "hate"@) || contains_ci(text, "insult"@) || contains_ci(
            text,
            "offensive"@,
        ))
    }

    fn filter(&self, text: &str) -> (r: bool) {
        !(contains_ci_str(text, "hate") || contains_ci_str(text, "insult") || contains_ci_str(
            text,
            "offensive",
        ))
    }
}

/// Dispatch over the known filter backends.
#[derive(Debug)]
pub enum FilterApiEnum {
    Mock(MockFilterApi),
    Perspective(PerspectiveFilterApi),
}

impl FilterApi for FilterApiEnum {
    open spec fn spec_filter(&self, text: Seq<char>) -> bool {
        match self {
            FilterApiEnum::Mock(api) => api.spec_filter(text),
            FilterApiEnum::Perspective(api) => api.spec_filter(text),
        }
    }

    fn filter(&self, text: &str) -> (r: bool) {
        match self {
            FilterApiEnum::Mock(api) => api.filter(text),
            FilterApiEnum::Perspective(api) => api.filter(text),
        }
    }
}

/// The generative text service capability: draw `num_samples` samples
/// continuing `prompt`. Nothing is assumed of what comes back — a
/// backend may fail, return no samples, or return anything at all.
pub trait LanguageApi {
    /// Draw samples from the backend.
    fn sample(
        &self,
        prompt: &str,
        sample_length: Option<usize>,
        seed: Option<u64>,
        num_samples: usize,
    ) -> (r: Result<Vec<LanguageResponse>, ApiError>);
}

/// The text the echoing sample backend produces for one call, before
/// truncation to the sample length.
pub open spec fn spec_mock_sample_text(prompt: Seq<char>, sample_length: int) -> Seq<char> {
    let full = "Generated text for prompt: "@ + prompt + " **END**"@;
    if full.len() <= sample_length {
        full
    } else {
        full.subrange(0, sample_length)
    }
}

/// A language backend that echoes its prompt: each sample is the prompt
/// wrapped in a fixed frame, truncated to the sample length. Deterministic
/// and local, it stands in for a remote generative service.
#[derive(Debug)]
pub struct CustomLanguageApi {
    pub hyperparameters: Hyperparameters,
    pub model: Option<String>,
    pub model_param: Option<String>,
    pub config_sampling: Option<serde_json::Value>,
}

impl CustomLanguageApi {
    /// A backend with the given configuration.
    pub fn new(
        hyperparameters: Hyperparameters,
        model: Option<String>,
        model_param: Option<String>,
        config_sampling: Option<serde_json::Value>,
    ) -> (r: Self)
        ensures
            r.hyperparameters == hyperparameters,
            r.model == model,
            r.model_param == model_param,
            r.config_sampling == config_sampling,
    {
        CustomLanguageApi { hyperparameters, model, model_param, config_sampling }
    }
}

impl LanguageApi for CustomLanguageApi {
    /// Echo the prompt in a fixed frame, truncated to the sample length;
    /// one response per requested sample, never an error.
    fn sample(
        &self,
        prompt: &str,
        sample_length: Option<usize>,
        seed: Option<u64>,
        num_samples: usize,
    ) -> (r: Result<Vec<LanguageResponse>, ApiError>)
        ensures
            r is Ok,
            r matches Ok(v) ==> {
                let resolved = match sample_length {
                    Some(n) => n as int,
                    None => self.hyperparameters.sample_length as int,
                };
                &&& v@.len() == num_samples
                &&& forall|i: int|
                    #![trigger v@[i]]
                    0 <= i < num_samples ==> v@[i].text@ == spec_mock_sample_text(
                        prompt@,
                        resolved,
                    ) && v@[i].prompt@ == prompt@
            },
    {
        let resolved = match sample_length {
            Some(n) => n,
            None => self.hyperparameters.sample_length,
        };
        let mut full = String::from_str("Generated text for prompt: ");
        full.append(prompt);
        full.append(" **END**");
        let full_len = full.as_str().unicode_len();
        let text: String = if full_len <= resolved {
            full
        } else {
            String::from_str(full.as_str().substring_char(0, resolved))
        };
        let prompt_length = prompt.len();
        let text_length = text.as_str().len();
        let mut responses: Vec<LanguageResponse> = Vec::new();
        let mut k: usize = 0;
        while k < num_samples
            invariant
                k <= num_samples,
                responses@.len() == k,
                text@ == spec_mock_sample_text(
                    prompt@,
                    match sample_length {
                        Some(n) => n as int,
                        None => self.hyperparameters.sample_length as int,
                    },
                ),
                forall|i: int|
                    #![trigger responses@[i]]
                    0 <= i < k ==> responses@[i].text@ == text@ && responses@[i].prompt@
                        == prompt@,
            decreases num_samples - k,
        {
            responses.push(
                LanguageResponse {
                    prompt: String::from_str(prompt),
                    prompt_length,
                    text: text.clone(),
                    text_length,
                },
            );
            k += 1;
        }
        Ok(responses)
    }
}

/// Dispatch over the known language backends.
#[derive(Debug)]
pub enum LanguageApiEnum {
    Custom(CustomLanguageApi),
}

impl LanguageApi for LanguageApiEnum {
    fn sample(
        &self,
        prompt: &str,
        sample_length: Option<usize>,
        seed: Option<u64>,
        num_samples: usize,
    ) -> (r: Result<Vec<LanguageResponse>, ApiError>) {
        match self {
            LanguageApiEnum::Custom(api) => api.sample(prompt, sample_length, seed, num_samples),
        }
    }
}

} // verus!
