//! A bundled narrative world — title, story, characters, places and
//! scenes — and a step-by-step builder for one.

use vstd::prelude::*;

use crate::character::Characters;
use crate::place::Places;
use crate::scene::Scenes;
use crate::story::Story;
use crate::title::Title;

verus! {

/// A complete narrative world.
#[derive(Debug)]
pub struct World {
    pub title: Title,
    pub story: Story,
    pub characters: Characters,
    pub places: Places,
    pub scenes: Scenes,
}

impl World {
    /// A world holding exactly the given parts.
    pub fn new(title: Title, story: Story, characters: Characters, places: Places, scenes: Scenes)
        -> (r: World)
        ensures
            r.title == title,
            r.story == story,
            r.characters == characters,
            r.places == places,
            r.scenes == scenes,
    {
        World { title, story, characters, places, scenes }
    }
}

/// A builder that assembles a world part by part.
#[derive(Debug)]
pub struct WorldBuilder {
    pub title: Title,
    pub story: Story,
    pub characters: Characters,
    pub places: Places,
    pub scenes: Scenes,
}

impl WorldBuilder {
    /// A builder with every part empty, around a stock storyline.
    pub fn new() -> (r: WorldBuilder)
        ensures
            r.title.title@ == Seq::<char>::empty(),
            r.characters.character_descriptions.keys_view() == Seq::<Seq<char>>::empty(),
            r.places.places@.len() == 0,
            r.scenes.scenes@.len() == 0,
    {
        WorldBuilder {
            title: Title::new(String::new()),
            story: Story::new(String::from_str("A tale of adventure and discovery")),
            characters: Characters::new(),
            places: Places::new(),
            scenes: Scenes::new(),
        }
    }

    /// The world assembled so far.
    pub fn build(self) -> (r: World)
        ensures
            r.title == self.title,
            r.story == self.story,
            r.characters == self.characters,
            r.places == self.places,
            r.scenes == self.scenes,
    {
        World {
            title: self.title,
            story: self.story,
            characters: self.characters,
            places: self.places,
            scenes: self.scenes,
        }
    }

    /// Replace the builder's title.
    pub fn title(&mut self, title: Title)
        ensures
            final(self).title == title,
            final(self).story == old(self).story,
            final(self).characters == old(self).characters,
            final(self).places == old(self).places,
            final(self).scenes == old(self).scenes,
    {
        self.title = title;
    }

    /// Replace the builder's story.
    pub fn story(&mut self, story: Story)
        ensures
            final(self).story == story,
            final(self).title == old(self).title,
            final(self).characters == old(self).characters,
            final(self).places == old(self).places,
            final(self).scenes == old(self).scenes,
    {
        self.story = story;
    }

    /// Replace the builder's characters.
    pub fn characters(&mut self, characters: Characters)
        ensures
            final(self).characters == characters,
            final(self).title == old(self).title,
            final(self).story == old(self).story,
            final(self).places == old(self).places,
            final(self).scenes == old(self).scenes,
    {
        self.characters = characters;
    }

    /// Replace the builder's places.
    pub fn places(&mut self, places: Places)
        ensures
            final(self).places == places,
            final(self).title == old(self).title,
            final(self).story == old(self).story,
            final(self).characters == old(self).characters,
            final(self).scenes == old(self).scenes,
    {
        self.places = places;
    }

    /// Replace the builder's scenes.
    pub fn scenes(&mut self, scenes: Scenes)
        ensures
            final(self).scenes == scenes,
            final(self).title == old(self).title,
            final(self).story == old(self).story,
            final(self).characters == old(self).characters,
            final(self).places == old(self).places,
    {
        self.scenes = scenes;
    }
}

} // verus!
