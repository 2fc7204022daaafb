//! Staged generation of a dramatic narrative: a level-based state machine
//! drives an external text generator through storyline, title, characters,
//! scenes, places and dialogs, parsing marker-delimited output back into
//! structured entities and recording every change in an intervention log.

pub mod api;
pub mod character;
pub mod config;
pub mod dict;
pub mod diff;
pub mod extract;
pub mod history;
pub mod place;
pub mod scene;
pub mod story;
pub mod story_generator;
pub mod strings;
pub mod templates;
pub mod text_generator;
pub mod title;
pub mod world;
