use dramatron::title::{Title, Titles};

#[test]
fn test_title_from_string() {
    let text = "Title: My First Title **END**";
    let title = Title::from_string(text);
    assert_eq!(title.title, "My First Title");
}

#[test]
fn test_titles_from_string() {
    let text = "Title: First Title **END**Title: Second Title **END**";
    let titles = Titles::from_string(text);
    assert_eq!(titles.titles.len(), 2);
    assert_eq!(titles.titles[0].title, "First Title");
    assert_eq!(titles.titles[1].title, "Second Title");
}

#[test]
fn title_display_round_trip() {
    let title = Title::new(String::from("A Voyage Home"));
    let rendered = title.display();
    assert_eq!(rendered, "Title: A Voyage Home**END**");
    let parsed = Title::from_string(rendered.as_str());
    assert_eq!(parsed.title, "A Voyage Home");
}

#[test]
fn title_parse_of_unmatched_text_is_empty() {
    let title = Title::from_string("no markers here at all");
    assert_eq!(title.title, "");
}

#[test]
fn title_parse_without_end_marker_is_empty() {
    let title = Title::from_string("Title: left open forever");
    assert_eq!(title.title, "");
}
