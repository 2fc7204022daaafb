use dramatron::character::Characters;
use dramatron::diff::{
    diff_prompt_change_dict, diff_prompt_change_list, diff_prompt_change_scenes,
    diff_prompt_change_str,
};
use dramatron::scene::Scenes;

#[test]
fn string_diff_marks_removed_and_added_lines() {
    assert_eq!(diff_prompt_change_str("alpha", "beta"), "-alpha\n+beta");
    assert_eq!(diff_prompt_change_str("same", "same"), "");
    assert_eq!(
        diff_prompt_change_str("keep\nold", "keep\nnew"),
        "-old\n+new"
    );
}

#[test]
fn string_diff_follows_common_subsequence() {
    // the shared middle line is kept, the surrounding lines change
    assert_eq!(
        diff_prompt_change_str("a\nmid\nb", "c\nmid\nd"),
        "-a\n+c\n-b\n+d"
    );
}

#[test]
fn list_diff_flags_shorter_lists() {
    let before = vec![String::from("a"), String::from("b")];
    let after = vec![String::from("a")];
    assert_eq!(diff_prompt_change_list(&before, &after), "Deleted element");
}

#[test]
fn list_diff_flags_longer_lists() {
    let before = vec![String::from("a")];
    let after = vec![String::from("a"), String::from("b")];
    assert_eq!(diff_prompt_change_list(&before, &after), "Added new element");
}

#[test]
fn list_diff_reports_only_the_changed_element() {
    let before = vec![String::from("a"), String::from("b"), String::from("c")];
    let after = vec![String::from("a"), String::from("x"), String::from("c")];
    assert_eq!(diff_prompt_change_list(&before, &after), "-b\n+x");
}

#[test]
fn list_diff_of_equal_lists_is_empty() {
    let before = vec![String::from("a"), String::from("b")];
    let after = vec![String::from("a"), String::from("b")];
    assert_eq!(diff_prompt_change_list(&before, &after), "");
}

#[test]
fn scene_diff_uses_length_sentinels() {
    let before = Scenes::from_string("**Scene:** A\n**Description:** one\n**Scene:** B\n**Description:** two\n");
    let after = Scenes::from_string("**Scene:** A\n**Description:** one\n");
    assert_eq!(
        diff_prompt_change_scenes(&before.scenes, &after.scenes),
        "Deleted element"
    );
    assert_eq!(
        diff_prompt_change_scenes(&after.scenes, &before.scenes),
        "Added new element"
    );
}

#[test]
fn scene_diff_reports_changed_fields() {
    let a = Scenes::from_string("**Scene:** A\n**Description:** one\n");
    let b = Scenes::from_string("**Scene:** A\n**Description:** two\n");
    assert_eq!(diff_prompt_change_scenes(&a.scenes, &b.scenes), "-one\n+two");
    assert_eq!(diff_prompt_change_scenes(&a.scenes, &a.scenes), "");
}

#[test]
fn dict_diff_compares_keys_and_values_in_order() {
    let before = Characters::from_string("**Character:** Alice **Description:** Brave \n");
    let after = Characters::from_string("**Character:** Alice **Description:** Timid \n");
    assert_eq!(
        diff_prompt_change_dict(
            &before.character_descriptions,
            &after.character_descriptions
        ),
        "-Brave\n+Timid"
    );
}
