use dramatron::history::{GenerationAction, GenerationHistory};

#[test]
fn consecutive_rewrites_coalesce_into_one_slot() {
    let mut history: GenerationHistory<String> = GenerationHistory::new();
    history.add(String::from("x"), GenerationAction::New);
    history.add(String::from("y"), GenerationAction::Rewrite);
    // the second rewrite overwrites the slot the first one filled
    let cursor = history.add(String::from("z"), GenerationAction::Rewrite);
    assert_eq!(cursor, 1);
    assert_eq!(history.next(), Some(&String::from("z")));
    assert_eq!(history.previous(), Some(&String::from("x")));
    // stepping past the start stays clamped at the first entry
    assert_eq!(history.previous(), Some(&String::from("x")));
}

#[test]
fn distinct_adds_both_append() {
    let mut history: GenerationHistory<String> = GenerationHistory::new();
    history.add(String::from("x"), GenerationAction::New);
    let cursor = history.add(String::from("y"), GenerationAction::New);
    assert_eq!(cursor, 1);
    assert_eq!(history.previous(), Some(&String::from("x")));
    assert_eq!(history.next(), Some(&String::from("y")));
    // stepping past the end stays clamped at the last entry
    assert_eq!(history.next(), Some(&String::from("y")));
}

#[test]
fn rewrite_after_continue_appends() {
    let mut history: GenerationHistory<String> = GenerationHistory::new();
    history.add(String::from("first"), GenerationAction::New);
    history.add(String::from("second"), GenerationAction::Continue);
    let cursor = history.add(String::from("third"), GenerationAction::Rewrite);
    assert_eq!(cursor, 2);
    assert_eq!(history.previous(), Some(&String::from("second")));
}

#[test]
fn cursor_moves_on_empty_history_return_nothing() {
    let mut history: GenerationHistory<u64> = GenerationHistory::new();
    assert_eq!(history.previous(), None);
    assert_eq!(history.next(), None);
}
