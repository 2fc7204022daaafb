use dramatron::api::{CustomLanguageApi, MockFilterApi};
use dramatron::config::Hyperparameters;
use dramatron::place::{Place, Places};
use dramatron::story_generator::{StoryGenerationError, StoryGenerator};
use dramatron::templates::PromptTemplates;
use dramatron::text_generator::TextGenerator;
use dramatron::title::Title;
use dramatron::world::WorldBuilder;

fn generator(storyline: &str) -> StoryGenerator {
    let hyperparameters = Hyperparameters::default();
    let text_generator = TextGenerator::new(hyperparameters.clone());
    let prefixes = PromptTemplates::new();
    StoryGenerator::new(
        String::from(storyline),
        prefixes,
        hyperparameters,
        text_generator,
    )
}

#[test]
fn test_generate_title() {
    let hyperparameters = Hyperparameters::default();
    let text_generator = TextGenerator::new(hyperparameters.clone());
    let prefixes = PromptTemplates::new();
    let generator = StoryGenerator::new(
        "Test storyline.".to_string(),
        prefixes,
        hyperparameters.clone(),
        text_generator,
    );
    let language_api = CustomLanguageApi::new(hyperparameters, None, None, None);
    let filter_api = MockFilterApi;

    let (title, _) = generator
        .generate_title(&language_api, Some(&filter_api), None, 1)
        .unwrap();
    assert!(!title.title.is_empty());
}

#[test]
fn test_step() {
    let hyperparameters = Hyperparameters::default();
    let text_generator = TextGenerator::new(hyperparameters.clone());
    let prefixes = PromptTemplates::new();
    let mut generator = StoryGenerator::new(
        "Test storyline.".to_string(),
        prefixes,
        hyperparameters.clone(),
        text_generator,
    );
    let language_api = CustomLanguageApi::new(hyperparameters, None, None, None);
    let filter_api = MockFilterApi;

    let success = generator
        .step(None, None, None, &language_api, Some(&filter_api))
        .unwrap();
    assert!(success);
    assert_eq!(generator.level(), 1);
}

#[test]
fn default_step_advances_one_level_at_a_time() {
    let mut g = generator("A quiet village faces a storm.");
    let api = CustomLanguageApi::new(Hyperparameters::default(), None, None, None);
    let filter = MockFilterApi;
    assert_eq!(g.level(), 0);
    g.step(None, None, None, &api, Some(&filter)).unwrap();
    assert_eq!(g.level(), 1);
    g.step(None, None, None, &api, Some(&filter)).unwrap();
    assert_eq!(g.level(), 2);
}

#[test]
fn step_rejects_out_of_range_levels() {
    let mut g = generator("A storyline.");
    let api = CustomLanguageApi::new(Hyperparameters::default(), None, None, None);
    let filter = MockFilterApi;
    let r = g.step(Some(0), None, None, &api, Some(&filter));
    assert!(matches!(r, Err(StoryGenerationError::InvalidLevel(0))));
    let r = g.step(Some(6), None, None, &api, Some(&filter));
    assert!(matches!(r, Err(StoryGenerationError::InvalidLevel(6))));
}

#[test]
fn step_rejects_dialog_index_without_scene() {
    let mut g = generator("A storyline.");
    let api = CustomLanguageApi::new(Hyperparameters::default(), None, None, None);
    let filter = MockFilterApi;
    let r = g.step(Some(5), None, Some(0), &api, Some(&filter));
    assert!(matches!(r, Err(StoryGenerationError::InvalidSceneIndex(0))));
}

#[test]
fn new_generator_normalises_storyline_and_logs_it() {
    let g = generator("A hero saves the world");
    assert_eq!(g.storyline, "A hero saves the world.");
    assert_eq!(g.interventions.len(), 1);
    assert_eq!(g.interventions[0], "STORYLINE\nA hero saves the world.");
    let already = generator("Done already.");
    assert_eq!(already.storyline, "Done already.");
}

#[test]
fn rewrite_of_missing_place_fails_and_keeps_the_log() {
    let mut g = generator("A storyline.");
    let before = g.interventions.len();
    let r = g.rewrite("new place text", 4, Some(9));
    assert!(matches!(r, Err(StoryGenerationError::PlaceNotFound(_))));
    assert_eq!(g.interventions.len(), before);
}

#[test]
fn rewrite_of_known_place_replaces_its_description() {
    let mut g = generator("A storyline.");
    g.places.add_place(Place::new(String::from("7"), String::from("old"), (0, 0)));
    g.rewrite("a new description", 4, Some(7)).unwrap();
    assert_eq!(g.places.get_place("7").unwrap().description, "a new description");
    let last = g.interventions.last().unwrap();
    assert!(last.starts_with("REWRITE places 7\n"));
}

#[test]
fn rewrite_updates_each_stage_and_logs_diffs() {
    let mut g = generator("A storyline.");
    g.rewrite("Title: Brand New**END**", 1, None).unwrap();
    assert_eq!(g.title.title, "Brand New");
    assert!(g.interventions.last().unwrap().starts_with("REWRITE title \n"));

    g.rewrite("**Character:** Ada **Description:** Sharp \n", 2, None)
        .unwrap();
    assert_eq!(
        g.characters.character_descriptions.get("Ada").unwrap(),
        "Sharp"
    );

    g.rewrite("**Scene:** Yard\n**Description:** Wide **END**", 3, None)
        .unwrap();
    assert_eq!(g.num_scenes(), 1);
    assert_eq!(g.scenes.scenes[0].name, "Yard");

    let r = g.rewrite("words", 7, None);
    assert!(matches!(r, Err(StoryGenerationError::InvalidLevel(7))));

    let r = g.rewrite("dialog text", 5, Some(4));
    assert!(matches!(r, Err(StoryGenerationError::InvalidSceneIndex(4))));

    g.rewrite("dialog text", 5, Some(0)).unwrap();
    assert_eq!(g.dialogs[0], "dialog text");
}

#[test]
fn rewrite_of_storyline_resets_the_machine() {
    let mut g = generator("First idea.");
    let api = CustomLanguageApi::new(Hyperparameters::default(), None, None, None);
    let filter = MockFilterApi;
    g.step(None, None, None, &api, Some(&filter)).unwrap();
    assert_eq!(g.level(), 1);
    g.rewrite("Second idea", 0, None).unwrap();
    assert_eq!(g.level(), 0);
    assert_eq!(g.storyline, "Second idea.");
}

#[test]
fn complete_rejects_unsupported_levels() {
    let mut g = generator("A storyline.");
    let api = CustomLanguageApi::new(Hyperparameters::default(), None, None, None);
    let filter: Option<&MockFilterApi> = None;
    let r = g.complete(1, None, None, &api, filter);
    assert!(matches!(r, Err(StoryGenerationError::InvalidLevel(1))));
    let r = g.complete(5, None, Some(2), &api, filter);
    assert!(matches!(r, Err(StoryGenerationError::InvalidSceneIndex(2))));
}

#[test]
fn complete_extends_a_dialog() {
    let mut g = generator("A storyline.");
    g.rewrite("**Scene:** Yard\n**Description:** Wide **END**", 3, None)
        .unwrap();
    g.rewrite("Hello there.", 5, Some(0)).unwrap();
    let api = CustomLanguageApi::new(Hyperparameters::default(), None, None, None);
    let filter: Option<&MockFilterApi> = None;
    g.complete(5, None, Some(0), &api, filter).unwrap();
    assert!(g.dialogs[0].starts_with("Hello there."));
    assert!(g.dialogs[0].len() > "Hello there.".len());
    assert!(g
        .interventions
        .last()
        .unwrap()
        .starts_with("COMPLETE dialogs 0\n"));
}

#[test]
fn get_story_snapshots_current_state() {
    let mut g = generator("A storyline.");
    g.rewrite("Title: Snap**END**", 1, None).unwrap();
    let story = g.get_story();
    assert_eq!(story.storyline, "A storyline.");
    assert_eq!(story.title, "Snap");
    assert_eq!(story.dialogs.len(), 0);
}

#[test]
fn getters_reflect_configuration() {
    let g = generator("A storyline.");
    assert_eq!(g.seed(), 1);
    assert_eq!(g.title_str(), "");
    assert_eq!(g.num_scenes(), 0);
    assert_eq!(g.dialogs().len(), 0);
    assert_eq!(g.places().len(), 0);
    assert_eq!(g.title().title, "");
    assert_eq!(g.characters().character_descriptions.len(), 0);
    assert_eq!(g.scenes().scenes.len(), 0);
}

#[test]
fn world_builder_assembles_its_parts() {
    let mut builder = WorldBuilder::new();
    builder.title(Title::new(String::from("The Build")));
    let world = builder.build();
    assert_eq!(world.title.title, "The Build");
    assert_eq!(world.places.len(), 0);
}

#[test]
fn hyperparameters_default_values() {
    let h = Hyperparameters::default();
    assert_eq!(h.default_seed, 1);
    assert_eq!(h.sample_length_title, 64);
    assert_eq!(h.sample_length, 511);
    assert_eq!(h.max_paragraph_length, 1024);
    assert_eq!(h.max_num_attempts_get_out_of_loop, 3);
    assert_eq!(h.num_samples, 1);
}
