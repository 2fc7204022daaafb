use dramatron::api::{CustomLanguageApi, FilterApi, LanguageApi, MockFilterApi, PerspectiveFilterApi};
use dramatron::config::Hyperparameters;
use dramatron::text_generator::{TextGenerationError, TextGenerator};

fn engine() -> TextGenerator {
    TextGenerator::new(Hyperparameters::default())
}

fn backend() -> CustomLanguageApi {
    CustomLanguageApi::new(Hyperparameters::default(), None, None, None)
}

#[test]
fn generated_text_ends_with_single_sentinel() {
    let engine = engine();
    let backend = backend();
    let filter = MockFilterApi;
    let text = engine
        .generate_text(
            "Once upon a time",
            &backend,
            Some(&filter),
            Some(64),
            256,
            None,
            1,
            Some(3),
        )
        .unwrap();
    assert!(text.ends_with("**END**"));
    assert_eq!(text.matches("**END**").count(), 1);
}

#[test]
fn short_generation_ends_with_single_sentinel() {
    let engine = engine();
    let backend = backend();
    let filter = MockFilterApi;
    let text = engine
        .generate_text_no_loop("A tale", &backend, Some(&filter), Some(64), None, 1)
        .unwrap();
    assert!(text.ends_with("**END**"));
    assert_eq!(text.matches("**END**").count(), 1);
}

#[test]
fn rejecting_filter_yields_placeholder() {
    let engine = engine();
    let backend = backend();
    // the echoed prompt contains a toxic keyword, so every sample is rejected
    let filter = PerspectiveFilterApi;
    let text = engine
        .generate_text(
            "I hate rainy mornings",
            &backend,
            Some(&filter),
            Some(64),
            64,
            None,
            1,
            None,
        )
        .unwrap();
    assert_eq!(text, "Content was filtered out. **END**");
}

#[test]
fn keyword_filter_is_case_insensitive() {
    let filter = PerspectiveFilterApi;
    assert!(!filter.filter("this is OFFENSIVE text"));
    assert!(!filter.filter("an Insult hides here"));
    assert!(filter.filter("a perfectly pleasant line"));
}

#[test]
fn detect_loop_flags_repeated_blocks() {
    let engine = engine();
    assert!(engine.detect_loop("A\n\nA\n\nA", 2));
    assert!(!engine.detect_loop("A\n\nB\n\nC", 2));
}

#[test]
fn empty_response_is_an_api_error() {
    let engine = engine();
    let backend = backend();
    let filter = MockFilterApi;
    // asking for zero samples leaves the engine with no response to use
    let result = engine.generate_text(
        "Prompt",
        &backend,
        Some(&filter),
        Some(64),
        64,
        None,
        0,
        None,
    );
    assert!(matches!(result, Err(TextGenerationError::ApiError(_))));
}

#[test]
fn mock_backend_echoes_prompt() {
    let backend = backend();
    let responses = backend.sample("hi", Some(64), None, 2).unwrap();
    assert_eq!(responses.len(), 2);
    assert_eq!(responses[0].text, "Generated text for prompt: hi **END**");
    assert_eq!(responses[0].prompt, "hi");
    let truncated = backend.sample("hi", Some(10), None, 1).unwrap();
    assert_eq!(truncated[0].text, "Generated ");
}
