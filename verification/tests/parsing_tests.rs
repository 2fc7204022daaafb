use dramatron::character::{Character, Characters};
use dramatron::extract::{extract_elements, strip_remove_end, ExtractedElements};
use dramatron::place::{Place, Places};
use dramatron::scene::{Scene, Scenes};
use dramatron::strings::usize_to_string;
use dramatron::templates::PromptTemplates;

#[test]
fn extract_elements_finds_each_delimited_piece() {
    let found = extract_elements("Title: Foo**END**Title: Bar**END**", "Title: ", "**END**");
    assert_eq!(found, vec![String::from("Foo"), String::from("Bar")]);
}

#[test]
fn extract_elements_without_closing_marker_finds_nothing() {
    let found = extract_elements("Title: Foo", "Title: ", "**END**");
    assert_eq!(found.len(), 0);
}

#[test]
fn extracted_elements_record_matches_plain_extraction() {
    let record = ExtractedElements::from_string("a[x]b[y]", "[", "]");
    assert_eq!(record.elements, vec![String::from("x"), String::from("y")]);
}

#[test]
fn strip_remove_end_trims_and_strips() {
    assert_eq!(strip_remove_end("  Foo **END**  "), "Foo");
    assert_eq!(strip_remove_end("Bare text"), "Bare text");
    assert_eq!(strip_remove_end("**END**"), "");
}

#[test]
fn character_parses_one_block() {
    let c = Character::from_string("Alice **Description:** A brave explorer").unwrap();
    assert_eq!(c.name, "Alice");
    assert_eq!(c.description, "A brave explorer");
    assert!(Character::from_string("no marker here").is_none());
}

#[test]
fn characters_parse_repeated_blocks() {
    let text = "**Character:** Alice **Description:** Brave \n\n**Character:** Bob **Description:** Wise \n";
    let characters = Characters::from_string(text);
    let map = &characters.character_descriptions;
    assert_eq!(map.len(), 2);
    assert_eq!(map.get("Alice").unwrap(), "Brave");
    assert_eq!(map.get("Bob").unwrap(), "Wise");
    assert!(map.get("Carol").is_none());
}

#[test]
fn characters_display_parses_back() {
    let text = "**Character:** Alice **Description:** Brave \n";
    let characters = Characters::from_string(text);
    let rendered = characters.display();
    let reparsed = Characters::from_string(rendered.as_str());
    assert_eq!(reparsed.character_descriptions.get("Alice").unwrap(), "Brave");
}

#[test]
fn scene_parses_one_block() {
    let s = Scene::from_string(" The Tower\n**Description:** An old tower **END**").unwrap();
    assert_eq!(s.name, "The Tower");
    assert_eq!(s.description, "An old tower");
    assert_eq!(s.place, "");
}

#[test]
fn scenes_parse_marker_split_blocks() {
    let text = "**Scene:** Castle\n**Description:** Big walls\n**Scene:** Moat\n**Description:** Deep water **END**";
    let scenes = Scenes::from_string(text);
    assert_eq!(scenes.scenes.len(), 2);
    assert_eq!(scenes.scenes[0].name, "Castle");
    assert_eq!(scenes.scenes[0].description, "Big walls");
    assert_eq!(scenes.scenes[1].name, "Moat");
    assert_eq!(scenes.scenes[1].description, "Deep water");
    assert_eq!(scenes.scene_descriptions.get("Castle").unwrap(), "Big walls");
}

#[test]
fn place_parses_first_line_as_name() {
    let p = Place::from_string("The Fort\nOld walls and towers", "");
    assert_eq!(p.name, "The Fort");
    assert_eq!(p.description, "Old walls and towers");
    assert_eq!(p.get_coordinates(), (0, 0));
    let single = Place::from_string("Lonely Hill", "");
    assert_eq!(single.name, "Lonely Hill");
    assert_eq!(single.description, "No description");
}

#[test]
fn places_keep_unique_names() {
    let mut places = Places::new();
    places.add_place(Place::new(String::from("A"), String::from("first"), (0, 0)));
    places.add_place(Place::new(String::from("A"), String::from("second"), (0, 0)));
    places.add_place(Place::new(String::from("B"), String::from("other"), (0, 0)));
    assert_eq!(places.len(), 2);
    assert_eq!(places.get_place("A").unwrap().description, "first");
    places.remove_place("A");
    assert_eq!(places.len(), 1);
    assert!(places.get_place("A").is_none());
}

#[test]
fn place_display_includes_coordinates() {
    let p = Place::new(String::from("Spire"), String::from("Tall"), (3, -4));
    assert_eq!(p.display(), "Place: Spire\nDescription: Tall\nCoordinates: (3, -4)");
}

#[test]
fn templates_hold_every_stage() {
    let templates = PromptTemplates::new();
    assert_eq!(
        templates.get("TITLES_PROMPT").unwrap(),
        "Generate a title for the following storyline:\n"
    );
    assert_eq!(
        templates.get("DIALOG_PROMPT").unwrap(),
        "Generate dialog for the following scene:\n"
    );
    assert!(templates.get("UNKNOWN_PROMPT").is_none());
}

#[test]
fn decimal_rendering_is_exact() {
    assert_eq!(usize_to_string(0), "0");
    assert_eq!(usize_to_string(12345), "12345");
}
