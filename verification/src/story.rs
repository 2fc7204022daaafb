//! The story snapshot: a read-only projection of everything generated so
//! far, assembled on demand and never mutated independently.

use vstd::prelude::*;

use crate::dict::Dict;
use crate::place::Places;
use crate::scene::Scenes;

verus! {

/// One narrative's complete state, as a value.
#[derive(Debug)]
pub struct Story {
    pub storyline: String,
    pub title: String,
    pub character_descriptions: Dict,
    pub place_descriptions: Places,
    pub scenes: Scenes,
    pub dialogs: Vec<String>,
}

impl Story {
    /// An empty story around the given storyline.
    pub fn new(storyline: String) -> (r: Self)
        ensures
            r.storyline == storyline,
            r.title@ == Seq::<char>::empty(),
            r.character_descriptions.keys_view() == Seq::<Seq<char>>::empty(),
            r.place_descriptions.places@.len() == 0,
            r.scenes.scenes@.len() == 0,
            r.dialogs@.len() == 0,
    {
        Story {
            storyline,
            title: String::new(),
            character_descriptions: Dict::new(),
            place_descriptions: Places::new(),
            scenes: Scenes::new(),
            dialogs: Vec::new(),
        }
    }
}

} // verus!
