//! The text generation engine: the bounded sampling control loop that
//! turns one prompt into a finished, sentinel-terminated text block
//! despite a non-deterministic, possibly repetitive or unsafe generator.

use vstd::prelude::*;

use crate::api::{ApiError, FilterApi, LanguageApi};
use crate::config::Hyperparameters;
use crate::extract::{end_marker, lemma_end_marker};
use crate::strings::{
    contains_seq, count_eq_in, find_in, lemma_append_confines, lemma_prefix_free,
    lemma_truncate_unique, occurs_at, split_seq, split_str, str_eq,
};

verus! {

/// Why text generation failed.
#[derive(Debug)]
pub enum TextGenerationError {
    /// The safety filter rejected the content.
    Filtered,
    /// Repetition could not be escaped.
    LoopDetected,
    /// The language backend failed or returned nothing.
    ApiError(ApiError),
}

/// The fixed text returned when the safety filter rejects a sample.
pub open spec fn filtered_placeholder() -> Seq<char> {
    "Content was filtered out. **END**"@
}

/// A finished text block: it ends with the end sentinel, and any other
/// occurrence of the sentinel overlaps that terminal one — so a left-to-
/// right scan for the sentinel finds exactly one.
pub open spec fn sentinel_terminated(s: Seq<char>) -> bool {
    let e = end_marker();
    &&& s.len() >= e.len()
    &&& occurs_at(s, e, s.len() - e.len())
    &&& forall|i: int| occurs_at(s, e, i) ==> i + 2 * e.len() > s.len()
}

/// Whether some paragraph block (split on blank lines) recurs more than
/// `max` times in `text`.
pub open spec fn spec_detect_loop(text: Seq<char>, max: int) -> bool {
    let blocks = split_seq(text, "\n\n"@);
    exists|i: int| 0 <= i < blocks.len() && count_eq_in(blocks, blocks[i]) > max
}

/// Law: a finished block ends with the end sentinel and holds it exactly
/// once up to overlap — any two occurrences overlap each other, so a
/// left-to-right, non-overlapping scan for the sentinel finds exactly one.
pub proof fn lemma_sentinel_occurs_once(s: Seq<char>)
    requires
        sentinel_terminated(s),
    ensures
        occurs_at(s, end_marker(), s.len() - end_marker().len()),
        forall|i: int, j: int|
            occurs_at(s, end_marker(), i) && occurs_at(s, end_marker(), j) && i < j ==> j < i
                + end_marker().len(),
{
    let e = end_marker();
    assert forall|i: int, j: int|
        occurs_at(s, e, i) && occurs_at(s, e, j) && i < j implies j < i + e.len() by {
        assert(i + 2 * e.len() > s.len());
        assert(j + e.len() <= s.len());
    }
}

/// The filtered placeholder is itself a finished block.
proof fn lemma_filtered_placeholder()
    ensures
        sentinel_terminated(filtered_placeholder()),
{
    reveal_strlit("Content was filtered out. **END**");
    reveal_strlit("**END**");
    let s = filtered_placeholder();
    let e = end_marker();
    assert(s.len() == 33);
    assert(e.len() == 7);
    assert(s.subrange(26, 33) =~= e);
    assert(occurs_at(s, e, 26));
    assert forall|i: int| occurs_at(s, e, i) implies i + 14 > 33 by {
        if i < 26 {
            assert(s.subrange(i, i + 7)[0] == s[i]);
            assert(s[i] == '*');
            assert(false);
        }
    }
}

/// The engine: a configuration and the control loop around a backend.
#[derive(Debug, Clone)]
pub struct TextGenerator {
    hyperparameters: Hyperparameters,
}

impl TextGenerator {
    /// The configuration the engine runs with.
    pub closed spec fn spec_hyperparameters(&self) -> Hyperparameters {
        self.hyperparameters
    }

    /// The engine's invariant: its configuration is within bounds.
    pub open spec fn wf(&self) -> bool {
        self.spec_hyperparameters().valid()
    }

    /// An engine with the given configuration.
    pub fn new(hyperparameters: Hyperparameters) -> (r: Self)
        ensures
            r.spec_hyperparameters() == hyperparameters,
    {
        TextGenerator { hyperparameters }
    }

    /// Whether `text` repeats some blank-line-delimited block more than
    /// `max_num_repetitions` times — the purely local repetition check.
    pub fn detect_loop(&self, text: &str, max_num_repetitions: usize) -> (r: bool)
        ensures
            r == spec_detect_loop(text@, max_num_repetitions as int),
    {
        proof {
            reveal_strlit("\n\n");
        }
        let blocks = split_str(text, "\n\n");
        let ghost bv = blocks.deep_view();
        let n = blocks.len();
        let mut i: usize = 0;
        while i < n
            invariant
                bv == blocks.deep_view(),
                bv == split_seq(text@, "\n\n"@),
                n == bv.len(),
                n == blocks@.len(),
                i <= n,
                forall|j: int| 0 <= j < i ==> count_eq_in(bv, bv[j]) <= max_num_repetitions,
            decreases n - i,
        {
            let mut count: usize = 0;
            let mut k: usize = 0;
            proof {
                assert(bv.take(0) =~= Seq::<Seq<char>>::empty());
            }
            while k < n
                invariant
                    bv == blocks.deep_view(),
                    n == bv.len(),
                    n == blocks@.len(),
                    i < n,
                    k <= n,
                    count <= k,
                    count as int == count_eq_in(bv.take(k as int), bv[i as int]),
                decreases n - k,
            {
                proof {
                    assert(bv.take(k + 1).drop_last() =~= bv.take(k as int));
                    assert(bv.take(k + 1).last() == bv[k as int]);
                    assert(bv[k as int] == blocks@[k as int]@);
                    assert(bv[i as int] == blocks@[i as int]@);
                }
                if str_eq(blocks[k].as_str(), blocks[i].as_str()) {
                    count += 1;
                }
                k += 1;
            }
            proof {
                assert(bv.take(n as int) =~= bv);
            }
            if count > max_num_repetitions {
                proof {
                    reveal_strlit("\n\n");
                    let sb = split_seq(text@, "\n\n"@);
                    assert(sb == bv);
                    assert(count_eq_in(sb, sb[i as int]) > max_num_repetitions as int);
                }
                return true;
            }
            i += 1;
        }
        proof {
            if spec_detect_loop(text@, max_num_repetitions as int) {
                let w = choose|w: int|
                    0 <= w < bv.len() && count_eq_in(bv, bv[w]) > max_num_repetitions;
                assert(count_eq_in(bv, bv[w]) <= max_num_repetitions);
            }
        }
        false
    }

    /// Produce one finished text block from `generation_prompt`: sample
    /// repeatedly, retrying with perturbed seeds on detected repetition,
    /// truncating at the first end sentinel, cutting drift at an
    /// `"Example "` marker, and capping at `max_paragraph_length` — the
    /// result always ends with the end sentinel. A sample the filter
    /// rejects short-circuits to the fixed filtered placeholder. The only
    /// failures are backend failures.
    pub fn generate_text<L: LanguageApi, F: FilterApi>(
        &self,
        generation_prompt: &str,
        client: &L,
        filter: Option<&F>,
        sample_length: Option<usize>,
        max_paragraph_length: usize,
        seed: Option<u64>,
        num_samples: usize,
        max_num_repetitions: Option<usize>,
    ) -> (r: Result<String, TextGenerationError>)
        requires
            self.wf(),
            max_paragraph_length < usize::MAX,
            sample_length matches Some(n) ==> n >= 1,
            seed matches Some(s) ==> s + self.spec_hyperparameters().max_num_attempts_get_out_of_loop
                <= u64::MAX,
        ensures
            r matches Ok(text) ==> sentinel_terminated(text@),
            r matches Ok(text) ==> ((filter matches Some(f) && forall|t: Seq<char>|
                !f.spec_filter(t)) ==> text@ == filtered_placeholder()),
            r matches Err(e) ==> e is ApiError,
    {
        proof {
            lemma_end_marker();
        }
        let sample_length_resolved = match sample_length {
            Some(n) => n,
            None => self.hyperparameters.sample_length,
        };
        let max_num_calls = max_paragraph_length / sample_length_resolved + 1;
        let max_attempts = self.hyperparameters.max_num_attempts_get_out_of_loop;
        let ghost initial_seed: u64 = match seed {
            Some(s) => s,
            None => self.spec_hyperparameters().default_seed,
        };
        let mut num_calls: usize = 0;
        let mut result = String::new();
        while num_calls < max_num_calls
            invariant
                self.wf(),
                max_attempts == self.spec_hyperparameters().max_num_attempts_get_out_of_loop,
                initial_seed == (match seed {
                    Some(s) => s,
                    None => self.spec_hyperparameters().default_seed,
                }),
                initial_seed + max_attempts <= u64::MAX,
                num_calls <= max_num_calls,
                !contains_seq(result@, end_marker()),
                end_marker().len() == 7,
                num_calls >= 1 ==> (filter matches Some(f) ==> exists|t: Seq<char>|
                    f.spec_filter(t)),
            decreases max_num_calls - num_calls,
        {
            proof {
                lemma_end_marker();
            }
            let mut prompt = String::from_str(generation_prompt);
            prompt.append(result.as_str());
            let mut current_seed: u64 = match seed {
                Some(s) => s,
                None => self.hyperparameters.default_seed,
            };
            let mut attempts: usize = 0;
            let mut appended = false;
            while attempts < max_attempts && !appended
                invariant
                    self.wf(),
                    max_attempts
                        == self.spec_hyperparameters().max_num_attempts_get_out_of_loop,
                    attempts <= max_attempts,
                    !appended ==> attempts < max_attempts,
                    current_seed + (max_attempts - attempts) <= u64::MAX,
                    !appended ==> !contains_seq(result@, end_marker()),
                    appended ==> (filter matches Some(f) ==> exists|t: Seq<char>|
                        f.spec_filter(t)),
                decreases max_attempts - attempts,
            {
                let responses = match client.sample(
                    prompt.as_str(),
                    Some(sample_length_resolved),
                    Some(current_seed),
                    num_samples,
                ) {
                    Ok(v) => v,
                    Err(e) => {
                        return Err(TextGenerationError::ApiError(e));
                    },
                };
                if responses.len() == 0 {
                    return Err(
                        TextGenerationError::ApiError(
                            ApiError {
                                message: String::from_str("No response from language API"),
                            },
                        ),
                    );
                }
                let response_text = &responses[0].text;
                match filter {
                    Some(f) => {
                        if !f.filter(response_text.as_str()) {
                            let placeholder = String::from_str("Content was filtered out. **END**");
                            proof {
                                lemma_filtered_placeholder();
                            }
                            return Ok(placeholder);
                        }
                        proof {
                            assert(f.spec_filter(response_text@));
                        }
                    },
                    None => {},
                }
                let is_loop = match max_num_repetitions {
                    Some(m) => self.detect_loop(response_text.as_str(), m),
                    None => false,
                };
                if !is_loop || attempts + 1 == max_attempts {
                    result.append(response_text.as_str());
                    appended = true;
                } else {
                    current_seed = current_seed + 1;
                }
                attempts += 1;
            }
            match find_in(result.as_str(), "**END**") {
                Some(idx) => {
                    proof {
                        lemma_truncate_unique(result@, end_marker(), idx as int);
                    }
                    let truncated = String::from_str(
                        result.as_str().substring_char(0, idx + 7),
                    );
                    proof {
                        let t = truncated@;
                        assert(t =~= result@.subrange(0, idx + 7));
                        assert(occurs_at(t, end_marker(), t.len() - 7));
                        assert forall|i: int| occurs_at(t, end_marker(), i) implies i + 14
                            > t.len() by {
                            assert(i == idx);
                        }
                    }
                    return Ok(truncated);
                },
                None => {},
            }
            match find_in(result.as_str(), "Example ") {
                Some(idx) => {
                    let mut out = String::from_str(result.as_str().substring_char(0, idx));
                    let ghost prefix = out@;
                    out.append("**END**");
                    proof {
                        lemma_prefix_free(result@, end_marker(), idx as int);
                        lemma_append_confines(prefix, end_marker());
                        assert(out@ =~= prefix + end_marker());
                        assert(occurs_at(out@, end_marker(), out@.len() - 7));
                    }
                    return Ok(out);
                },
                None => {},
            }
            if result.as_str().unicode_len() > max_paragraph_length {
                let ghost body = result@;
                let mut out = result;
                out.append("**END**");
                proof {
                    lemma_append_confines(body, end_marker());
                    assert(out@ =~= body + end_marker());
                    assert(occurs_at(out@, end_marker(), out@.len() - 7));
                }
                return Ok(out);
            }
            num_calls += 1;
        }
        let ghost body = result@;
        let mut out = result;
        out.append("**END**");
        proof {
            lemma_append_confines(body, end_marker());
            assert(out@ =~= body + end_marker());
            assert(occurs_at(out@, end_marker(), out@.len() - 7));
        }
        Ok(out)
    }

    /// The single-shot convenience variant: the same engine with
    /// repetition detection disabled and the paragraph ceiling equal to
    /// the sample length.
    pub fn generate_text_no_loop<L: LanguageApi, F: FilterApi>(
        &self,
        generation_prompt: &str,
        client: &L,
        filter: Option<&F>,
        sample_length: Option<usize>,
        seed: Option<u64>,
        num_samples: usize,
    ) -> (r: Result<String, TextGenerationError>)
        requires
            self.wf(),
            sample_length matches Some(n) ==> n >= 1 && n < usize::MAX,
            seed matches Some(s) ==> s + self.spec_hyperparameters().max_num_attempts_get_out_of_loop
                <= u64::MAX,
        ensures
            r matches Ok(text) ==> sentinel_terminated(text@),
            r matches Ok(text) ==> ((filter matches Some(f) && forall|t: Seq<char>|
                !f.spec_filter(t)) ==> text@ == filtered_placeholder()),
            r matches Err(e) ==> e is ApiError,
    {
        let ceiling = match sample_length {
            Some(n) => n,
            None => self.hyperparameters.sample_length,
        };
        self.generate_text(
            generation_prompt,
            client,
            filter,
            sample_length,
            ceiling,
            seed,
            num_samples,
            None,
        )
    }
}

} // verus!
