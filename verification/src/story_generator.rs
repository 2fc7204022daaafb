//! The story generator: the level-based state machine that sequences the
//! narrative stages, builds stage prompts from prior stage outputs, drives
//! the text generation engine, parses results back into entities, and
//! records every change in an append-only intervention log.

use vstd::prelude::*;

use crate::api::{FilterApi, LanguageApi};
use crate::character::{
    characters_match_text, spec_character_blocks, spec_characters_entries, Characters,
};
use crate::config::Hyperparameters;
use crate::dict::Dict;
use crate::diff::{
    diff_prompt_change_dict, diff_prompt_change_scenes, diff_prompt_change_str, spec_diff_dict,
    spec_diff_scenes, spec_diff_str,
};
use crate::dict::spec_distinct;
use crate::place::{place_names, Place, Places};
use crate::scene::{
    scenes_match_text, spec_scene_blocks, spec_scene_entries, spec_scene_pairs, Scene, Scenes,
};
use crate::strings::{contains_seq, dec_seq, push_decimal};
use crate::story::Story;
use crate::templates::PromptTemplates;
use crate::text_generator::{sentinel_terminated, TextGenerationError, TextGenerator};
use crate::title::{spec_title_parse, Title};

verus! {

/// Why a story-generation operation failed.
#[derive(Debug)]
pub enum StoryGenerationError {
    /// The engine failed underneath.
    TextGeneration(TextGenerationError),
    /// The requested level is outside the state machine.
    InvalidLevel(usize),
    /// The requested dialog index names no scene.
    InvalidSceneIndex(usize),
    /// The requested place key names no place.
    PlaceNotFound(String),
    /// A required template is absent from the template store.
    MissingPrompt(String),
}

/// The per-stage histories of the literal prompts used, kept so that a
/// continuation can resume generation with the exact same prefix.
#[derive(Debug)]
pub struct StagePrompts {
    pub title: Vec<String>,
    pub characters: Vec<String>,
    pub scenes: Vec<String>,
    pub places: Vec<String>,
    pub dialogs: Vec<String>,
}

impl StagePrompts {
    /// Empty histories for every stage.
    pub fn new() -> (r: Self)
        ensures
            r.title.deep_view() == Seq::<Seq<char>>::empty(),
            r.characters.deep_view() == Seq::<Seq<char>>::empty(),
            r.scenes.deep_view() == Seq::<Seq<char>>::empty(),
            r.places.deep_view() == Seq::<Seq<char>>::empty(),
            r.dialogs.deep_view() == Seq::<Seq<char>>::empty(),
    {
        let r = StagePrompts {
            title: Vec::new(),
            characters: Vec::new(),
            scenes: Vec::new(),
            places: Vec::new(),
            dialogs: Vec::new(),
        };
        proof {
            assert(r.title.deep_view() =~= Seq::<Seq<char>>::empty());
            assert(r.characters.deep_view() =~= Seq::<Seq<char>>::empty());
            assert(r.scenes.deep_view() =~= Seq::<Seq<char>>::empty());
            assert(r.places.deep_view() =~= Seq::<Seq<char>>::empty());
            assert(r.dialogs.deep_view() =~= Seq::<Seq<char>>::empty());
        }
        r
    }
}

/// The storyline normalised to end with a period.
pub open spec fn spec_normalized(s: Seq<char>) -> Seq<char> {
    if s.len() == 0 || s[s.len() - 1] != '.' {
        s + seq!['.']
    } else {
        s
    }
}

/// The human-readable name of one level.
pub open spec fn spec_level_name(l: int) -> Seq<char> {
    if l == 0 {
        "storyline"@
    } else if l == 1 {
        "title"@
    } else if l == 2 {
        "characters"@
    } else if l == 3 {
        "scenes"@
    } else if l == 4 {
        "places"@
    } else {
        "dialogs"@
    }
}

/// The intervention entry recording a manual rewrite.
pub open spec fn spec_rewrite_entry(level: int, entity: Option<usize>, diff: Seq<char>) -> Seq<
    char,
> {
    "REWRITE "@ + spec_level_name(level) + " "@ + (match entity {
        Some(e) => dec_seq(e as int),
        None => Seq::<char>::empty(),
    }) + "\n"@ + diff
}

/// The intervention entry recording a continuation.
pub open spec fn spec_complete_entry(level: int, entity: Option<usize>, diff: Seq<char>) -> Seq<
    char,
> {
    "COMPLETE "@ + spec_level_name(level) + " "@ + (match entity {
        Some(e) => dec_seq(e as int),
        None => Seq::<char>::empty(),
    }) + "\n"@ + diff
}

/// The intervention entry recording a new storyline.
pub open spec fn spec_storyline_entry(storyline: Seq<char>) -> Seq<char> {
    "STORYLINE\n"@ + storyline
}

fn level_name(l: usize) -> (r: &'static str)
    requires
        l < 6,
    ensures
        r@ == spec_level_name(l as int),
{
    if l == 0 {
        "storyline"
    } else if l == 1 {
        "title"
    } else if l == 2 {
        "characters"
    } else if l == 3 {
        "scenes"
    } else if l == 4 {
        "places"
    } else {
        "dialogs"
    }
}

/// Build the intervention text for a manual rewrite.
fn rewrite_entry(level: usize, entity: Option<usize>, diff: &str) -> (r: String)
    requires
        level < 6,
    ensures
        r@ == spec_rewrite_entry(level as int, entity, diff@),
{
    let mut out = String::from_str("REWRITE ");
    out.append(level_name(level));
    out.append(" ");
    match entity {
        Some(e) => {
            push_decimal(&mut out, e as u64);
            proof {
                assert(e as u64 as int == e as int);
            }
        },
        None => {},
    }
    out.append("\n");
    out.append(diff);
    out
}

/// Build the intervention text for a continuation.
fn complete_entry(level: usize, entity: Option<usize>, diff: &str) -> (r: String)
    requires
        level < 6,
    ensures
        r@ == spec_complete_entry(level as int, entity, diff@),
{
    let mut out = String::from_str("COMPLETE ");
    out.append(level_name(level));
    out.append(" ");
    match entity {
        Some(e) => {
            push_decimal(&mut out, e as u64);
            proof {
                assert(e as u64 as int == e as int);
            }
        },
        None => {},
    }
    out.append("\n");
    out.append(diff);
    out
}

/// The narrative state machine. Level 0 is the storyline; levels 1 to 5
/// generate the title, characters, scenes, places and dialogs in turn.
#[derive(Debug)]
pub struct StoryGenerator {
    pub storyline: String,
    pub prefixes: PromptTemplates,
    pub hyperparameters: Hyperparameters,
    pub text_generator: TextGenerator,
    pub prompts: StagePrompts,
    pub title: Title,
    pub characters: Characters,
    pub scenes: Scenes,
    pub places: Places,
    pub dialogs: Vec<String>,
    pub interventions: Vec<String>,
    pub level: usize,
}

impl StoryGenerator {
    /// The state machine's invariant: the configuration is in bounds, the
    /// stores are well formed, the level is one of the six stages, and
    /// there is never a dialog without a scene.
    pub open spec fn wf(&self) -> bool {
        &&& self.hyperparameters.valid()
        &&& self.text_generator.wf()
        &&& self.prefixes.wf()
        &&& self.characters.character_descriptions.wf()
        &&& self.scenes.wf()
        &&& self.places.wf()
        &&& self.level < 6
        &&& self.dialogs@.len() <= self.scenes.scenes@.len()
    }

    /// A fresh generator at level 0: the storyline is normalised to end
    /// with a period and logged as the first intervention; every other
    /// store starts empty.
    pub fn new(
        storyline: String,
        prefixes: PromptTemplates,
        hyperparameters: Hyperparameters,
        text_generator: TextGenerator,
    ) -> (r: Self)
        requires
            hyperparameters.valid(),
            text_generator.wf(),
            prefixes.wf(),
        ensures
            r.wf(),
            r.level == 0,
            r.storyline@ == spec_normalized(storyline@),
            r.prefixes == prefixes,
            r.hyperparameters == hyperparameters,
            r.text_generator == text_generator,
            r.title.title@ == Seq::<char>::empty(),
            r.characters.character_descriptions.keys_view() == Seq::<Seq<char>>::empty(),
            r.scenes.scenes@.len() == 0,
            r.places.places@.len() == 0,
            r.dialogs.deep_view() == Seq::<Seq<char>>::empty(),
            r.interventions.deep_view() == seq![spec_storyline_entry(spec_normalized(storyline@))],
            r.prompts.title.deep_view() == Seq::<Seq<char>>::empty(),
            r.prompts.characters.deep_view() == Seq::<Seq<char>>::empty(),
            r.prompts.scenes.deep_view() == Seq::<Seq<char>>::empty(),
            r.prompts.places.deep_view() == Seq::<Seq<char>>::empty(),
            r.prompts.dialogs.deep_view() == Seq::<Seq<char>>::empty(),
    {
        let mut generator = StoryGenerator {
            storyline: String::new(),
            prefixes,
            hyperparameters,
            text_generator,
            prompts: StagePrompts::new(),
            title: Title::new(String::new()),
            characters: Characters::new(),
            scenes: Scenes::new(),
            places: Places::new(),
            dialogs: Vec::new(),
            interventions: Vec::new(),
            level: 0,
        };
        proof {
            assert(generator.dialogs.deep_view() =~= Seq::<Seq<char>>::empty());
            assert(generator.interventions.deep_view() =~= Seq::<Seq<char>>::empty());
        }
        generator.set_storyline(storyline);
        proof {
            assert(Seq::<Seq<char>>::empty().push(
                spec_storyline_entry(spec_normalized(storyline@)),
            ) =~= seq![spec_storyline_entry(spec_normalized(storyline@))]);
        }
        generator
    }

    /// Reset to level 0 around a new storyline, normalising it to end
    /// with a period and logging it in the intervention log.
    fn set_storyline(&mut self, storyline: String)
        ensures
            final(self).storyline@ == spec_normalized(storyline@),
            final(self).level == 0,
            final(self).interventions.deep_view() == old(self).interventions.deep_view().push(
                spec_storyline_entry(spec_normalized(storyline@)),
            ),
            final(self).prefixes == old(self).prefixes,
            final(self).hyperparameters == old(self).hyperparameters,
            final(self).text_generator == old(self).text_generator,
            final(self).prompts == old(self).prompts,
            final(self).title == old(self).title,
            final(self).characters == old(self).characters,
            final(self).scenes == old(self).scenes,
            final(self).places == old(self).places,
            final(self).dialogs == old(self).dialogs,
    {
        self.level = 0;
        let mut normalized = storyline;
        let n = normalized.as_str().unicode_len();
        let needs_period = n == 0 || normalized.as_str().get_char(n - 1) != '.';
        if needs_period {
            normalized.append(".");
            proof {
                reveal_strlit(".");
                assert("."@ =~= seq!['.']);
            }
        }
        let mut entry = String::from_str("STORYLINE\n");
        entry.append(normalized.as_str());
        let ghost old_entries = self.interventions.deep_view();
        self.interventions.push(entry);
        self.storyline = normalized;
        proof {
            assert(self.interventions.deep_view() =~= old_entries.push(
                spec_storyline_entry(spec_normalized(storyline@)),
            ));
        }
    }

    /// The configured default seed.
    pub fn seed(&self) -> (r: u64)
        ensures
            r == self.hyperparameters.default_seed,
    {
        self.hyperparameters.default_seed
    }

    /// The current title.
    pub fn title(&self) -> (r: &Title)
        ensures
            r == &self.title,
    {
        &self.title
    }

    /// The current characters.
    pub fn characters(&self) -> (r: &Characters)
        ensures
            r == &self.characters,
    {
        &self.characters
    }

    /// The current scenes.
    pub fn scenes(&self) -> (r: &Scenes)
        ensures
            r == &self.scenes,
    {
        &self.scenes
    }

    /// The current places.
    pub fn places(&self) -> (r: &Places)
        ensures
            r == &self.places,
    {
        &self.places
    }

    /// The current dialogs, one per scene generated so far.
    pub fn dialogs(&self) -> (r: &Vec<String>)
        ensures
            r == &self.dialogs,
    {
        &self.dialogs
    }

    /// The current title as an owned string.
    pub fn title_str(&self) -> (r: String)
        ensures
            r@ == self.title.title@,
    {
        self.title.title.clone()
    }

    /// How many scenes have been parsed.
    pub fn num_scenes(&self) -> (r: usize)
        ensures
            r == self.scenes.scenes@.len(),
    {
        self.scenes.scenes.len()
    }

    /// The stage the machine last completed.
    pub fn level(&self) -> (r: usize)
        ensures
            r == self.level,
    {
        self.level
    }

    /// A read-only snapshot of everything generated so far.
    pub fn get_story(&self) -> (r: Story)
        requires
            self.wf(),
        ensures
            r.storyline@ == self.storyline@,
            r.title@ == self.title.title@,
            r.character_descriptions.keys_view()
                == self.characters.character_descriptions.keys_view(),
            r.character_descriptions.vals_view()
                == self.characters.character_descriptions.vals_view(),
            r.place_descriptions.places@ == self.places.places@,
            r.scenes.scenes@ == self.scenes.scenes@,
            r.dialogs.deep_view() == self.dialogs.deep_view(),
    {
        Story {
            storyline: self.storyline.clone(),
            title: self.title.title.clone(),
            character_descriptions: self.characters.character_descriptions.clone(),
            place_descriptions: self.places.clone(),
            scenes: self.scenes.clone(),
            dialogs: clone_strings(&self.dialogs),
        }
    }

    /// Generate a title for the storyline. On success, returns the parsed
    /// title together with the exact prompt used.
    pub fn generate_title<L: LanguageApi, F: FilterApi>(
        &self,
        client: &L,
        filter: Option<&F>,
        seed: Option<u64>,
        num_samples: usize,
    ) -> (r: Result<(Title, String), StoryGenerationError>)
        requires
            self.wf(),
            seed matches Some(s) ==> s
                + self.text_generator.spec_hyperparameters().max_num_attempts_get_out_of_loop
                <= u64::MAX,
        ensures
            self.prefixes.spec_get("TITLES_PROMPT"@) is None ==> (r matches Err(e) && e
                matches StoryGenerationError::MissingPrompt(k) && k@ == "TITLES_PROMPT"@),
            r matches Err(e) ==> (e is MissingPrompt && self.prefixes.spec_get(
                "TITLES_PROMPT"@,
            ) is None) || e is TextGeneration,
            r matches Ok(p) ==> (self.prefixes.spec_get("TITLES_PROMPT"@) matches Some(tpl)
                && p.1@ == tpl + self.storyline@ + " Title: "@ && exists|raw: Seq<char>|
                #[trigger] sentinel_terminated(raw) && p.0.title@ == spec_title_parse(
                "Title: "@ + raw,
            )),
    {
        let template = match self.prefixes.get("TITLES_PROMPT") {
            Some(t) => t,
            None => {
                return Err(
                    StoryGenerationError::MissingPrompt(String::from_str("TITLES_PROMPT")),
                );
            },
        };
        let mut titles_prefix = template.clone();
        titles_prefix.append(self.storyline.as_str());
        titles_prefix.append(" Title: ");
        let title_text = match self.text_generator.generate_text_no_loop(
            titles_prefix.as_str(),
            client,
            filter,
            Some(self.hyperparameters.sample_length_title),
            seed,
            num_samples,
        ) {
            Ok(t) => t,
            Err(e) => {
                return Err(StoryGenerationError::TextGeneration(e));
            },
        };
        let mut framed = String::from_str("Title: ");
        framed.append(title_text.as_str());
        let title = Title::from_string(framed.as_str());
        proof {
            assert(framed@ =~= "Title: "@ + title_text@);
            assert(sentinel_terminated(title_text@) && title.title@ == spec_title_parse(
                "Title: "@ + title_text@,
            ));
        }
        Ok((title, titles_prefix))
    }

    /// Generate the characters for the storyline. On success, returns the
    /// parsed mapping together with the exact prompt used.
    pub fn generate_characters<L: LanguageApi, F: FilterApi>(
        &self,
        client: &L,
        filter: Option<&F>,
        seed: Option<u64>,
        num_samples: usize,
    ) -> (r: Result<(Characters, String), StoryGenerationError>)
        requires
            self.wf(),
            seed matches Some(s) ==> s
                + self.text_generator.spec_hyperparameters().max_num_attempts_get_out_of_loop
                <= u64::MAX,
        ensures
            self.prefixes.spec_get("CHARACTERS_PROMPT"@) is None ==> (r matches Err(e) && e
                matches StoryGenerationError::MissingPrompt(k) && k@ == "CHARACTERS_PROMPT"@),
            r matches Err(e) ==> (e is MissingPrompt && self.prefixes.spec_get(
                "CHARACTERS_PROMPT"@,
            ) is None) || e is TextGeneration,
            r matches Ok(p) ==> (self.prefixes.spec_get("CHARACTERS_PROMPT"@) matches Some(tpl)
                && p.1@ == tpl + self.storyline@ && exists|raw: Seq<char>|
                #[trigger] sentinel_terminated(raw) && characters_match_text(p.0, raw)),
    {
        let template = match self.prefixes.get("CHARACTERS_PROMPT") {
            Some(t) => t,
            None => {
                return Err(
                    StoryGenerationError::MissingPrompt(String::from_str("CHARACTERS_PROMPT")),
                );
            },
        };
        let mut characters_prefix = template.clone();
        characters_prefix.append(self.storyline.as_str());
        let characters_text = match self.text_generator.generate_text(
            characters_prefix.as_str(),
            client,
            filter,
            Some(self.hyperparameters.sample_length),
            self.hyperparameters.max_paragraph_length_characters,
            seed,
            num_samples,
            Some(self.hyperparameters.max_num_repetitions),
        ) {
            Ok(t) => t,
            Err(e) => {
                return Err(StoryGenerationError::TextGeneration(e));
            },
        };
        let characters = Characters::from_string(characters_text.as_str());
        proof {
            assert(sentinel_terminated(characters_text@) && characters_match_text(
                characters,
                characters_text@,
            ));
        }
        Ok((characters, characters_prefix))
    }

    /// Generate the scenes for the storyline and characters. On success,
    /// returns the parsed scenes together with the exact prompt used.
    pub fn generate_scenes<L: LanguageApi, F: FilterApi>(
        &self,
        character_descriptions: &Dict,
        client: &L,
        filter: Option<&F>,
        seed: Option<u64>,
        num_samples: usize,
    ) -> (r: Result<(Scenes, String), StoryGenerationError>)
        requires
            self.wf(),
            character_descriptions.wf(),
            seed matches Some(s) ==> s
                + self.text_generator.spec_hyperparameters().max_num_attempts_get_out_of_loop
                <= u64::MAX,
        ensures
            self.prefixes.spec_get("SCENE_PROMPT"@) is None ==> (r matches Err(e) && e
                matches StoryGenerationError::MissingPrompt(k) && k@ == "SCENE_PROMPT"@),
            r matches Err(e) ==> (e is MissingPrompt && self.prefixes.spec_get(
                "SCENE_PROMPT"@,
            ) is None) || e is TextGeneration,
            r matches Ok(p) ==> (self.prefixes.spec_get("SCENE_PROMPT"@) matches Some(tpl)
                && p.1@ == tpl + self.storyline@ + "\n"@ + spec_lines_concat(
                character_descriptions.vals_view(),
            ) + "\n**Scenes:**"@ && exists|raw: Seq<char>|
                #[trigger] sentinel_terminated(raw) && scenes_match_text(p.0, raw)),
    {
        let template = match self.prefixes.get("SCENE_PROMPT") {
            Some(t) => t,
            None => {
                return Err(StoryGenerationError::MissingPrompt(String::from_str("SCENE_PROMPT")));
            },
        };
        let ghost vals = character_descriptions.vals_view();
        let mut scenes_prefix = template.clone();
        scenes_prefix.append(self.storyline.as_str());
        scenes_prefix.append("\n");
        let ghost head = scenes_prefix@;
        let n = character_descriptions.len();
        let mut i: usize = 0;
        proof {
            assert(vals.take(0) =~= Seq::<Seq<char>>::empty());
            assert(scenes_prefix@ =~= head + spec_lines_concat(vals.take(0)));
        }
        while i < n
            invariant
                self.wf(),
                character_descriptions.wf(),
                vals == character_descriptions.vals_view(),
                n == vals.len(),
                i <= n,
                scenes_prefix@ == head + spec_lines_concat(vals.take(i as int)),
            decreases n - i,
        {
            scenes_prefix.append(character_descriptions.value_at(i).as_str());
            scenes_prefix.append("\n");
            proof {
                reveal_strlit("\n");
                assert(vals.take(i + 1).drop_last() =~= vals.take(i as int));
                assert(vals.take(i + 1).last() == vals[i as int]);
                assert(scenes_prefix@ =~= head + spec_lines_concat(vals.take(i + 1)));
            }
            i += 1;
        }
        proof {
            assert(vals.take(n as int) =~= vals);
        }
        scenes_prefix.append("\n**Scenes:**");
        let scenes_text = match self.text_generator.generate_text(
            scenes_prefix.as_str(),
            client,
            filter,
            Some(self.hyperparameters.sample_length),
            self.hyperparameters.max_paragraph_length_scenes,
            seed,
            num_samples,
            Some(self.hyperparameters.max_num_repetitions),
        ) {
            Ok(t) => t,
            Err(e) => {
                return Err(StoryGenerationError::TextGeneration(e));
            },
        };
        let scenes = Scenes::from_string(scenes_text.as_str());
        proof {
            assert(sentinel_terminated(scenes_text@) && scenes_match_text(scenes, scenes_text@));
        }
        Ok((scenes, scenes_prefix))
    }

    /// Generate a description for every distinct place the scenes
    /// reference, one engine call per place, in first-reference order.
    /// On success, returns the places together with the exact prompts.
    #[verifier::rlimit(50)]
    pub fn generate_place_descriptions<L: LanguageApi, F: FilterApi>(
        &self,
        scenes: &Scenes,
        client: &L,
        filter: Option<&F>,
        seed: Option<u64>,
        num_samples: usize,
    ) -> (r: Result<(Places, Vec<String>), StoryGenerationError>)
        requires
            self.wf(),
            seed matches Some(s) ==> s
                + self.text_generator.spec_hyperparameters().max_num_attempts_get_out_of_loop
                <= u64::MAX,
        ensures
            self.prefixes.spec_get("SETTING_PROMPT"@) is None ==> (r matches Err(e) && e
                matches StoryGenerationError::MissingPrompt(k) && k@ == "SETTING_PROMPT"@),
            r matches Err(e) ==> (e is MissingPrompt && self.prefixes.spec_get(
                "SETTING_PROMPT"@,
            ) is None) || e is TextGeneration,
            r matches Ok(p) ==> (self.prefixes.spec_get("SETTING_PROMPT"@) matches Some(tpl)
                && places_from_generation(
                p.0,
                spec_distinct(scenes.scenes@.map_values(|s: Scene| s.place@)),
            ) && place_prompts_built(
                p.1.deep_view(),
                tpl + self.storyline@ + "\n"@,
                spec_distinct(scenes.scenes@.map_values(|s: Scene| s.place@)),
            )),
    {
        let template = match self.prefixes.get("SETTING_PROMPT") {
            Some(t) => t,
            None => {
                return Err(
                    StoryGenerationError::MissingPrompt(String::from_str("SETTING_PROMPT")),
                );
            },
        };
        let ghost all_names = scenes.scenes@.map_values(|s: Scene| s.place@);
        let ghost names = spec_distinct(all_names);
        // gather the distinct place names in first-reference order
        let mut unique: Vec<String> = Vec::new();
        let scene_count = scenes.scenes.len();
        let mut i: usize = 0;
        proof {
            assert(all_names.take(0) =~= Seq::<Seq<char>>::empty());
            assert(unique.deep_view() =~= spec_distinct(all_names.take(0)));
        }
        while i < scene_count
            invariant
                all_names == scenes.scenes@.map_values(|s: Scene| s.place@),
                scene_count == all_names.len(),
                scene_count == scenes.scenes@.len(),
                i <= scene_count,
                unique.deep_view() == spec_distinct(all_names.take(i as int)),
            decreases scene_count - i,
        {
            proof {
                assert(all_names.take(i + 1).drop_last() =~= all_names.take(i as int));
                assert(all_names.take(i + 1).last() == all_names[i as int]);
                assert(all_names[i as int] == scenes.scenes@[i as int].place@);
            }
            if !contains_string(&unique, scenes.scenes[i].place.as_str()) {
                let ghost before = unique.deep_view();
                unique.push(scenes.scenes[i].place.clone());
                proof {
                    crate::dict::lemma_key_index(before, all_names[i as int]);
                    assert(crate::dict::key_index(before, all_names[i as int]) == -1);
                    assert(unique.deep_view() =~= before.push(all_names[i as int]));
                    assert(unique.deep_view() == spec_distinct(all_names.take(i + 1)));
                }
            } else {
                proof {
                    assert(crate::dict::key_index(unique.deep_view(), all_names[i as int]) >= 0);
                    assert(unique.deep_view() == spec_distinct(all_names.take(i + 1)));
                }
            }
            i += 1;
        }
        proof {
            assert(all_names.take(scene_count as int) =~= all_names);
            crate::dict::lemma_distinct_unique(all_names);
        }
        // one engine call per distinct place
        let mut base = template.clone();
        base.append(self.storyline.as_str());
        base.append("\n");
        let mut place_descriptions = Places::new();
        let mut place_prefixes: Vec<String> = Vec::new();
        let count = unique.len();
        let mut k: usize = 0;
        proof {
            assert(place_descriptions.places@ =~= Seq::<Place>::empty());
            assert(place_prefixes.deep_view() =~= Seq::<Seq<char>>::empty());
        }
        while k < count
            invariant
                self.wf(),
                seed matches Some(s) ==> s
                    + self.text_generator.spec_hyperparameters().max_num_attempts_get_out_of_loop
                    <= u64::MAX,
                names == unique.deep_view(),
                count == names.len(),
                count == unique@.len(),
                k <= count,
                forall|a: int, b: int| 0 <= a < b < count ==> names[a] != names[b],
                base@ == (match self.prefixes.spec_get("SETTING_PROMPT"@) {
                    Some(tpl) => tpl + self.storyline@ + "\n"@,
                    None => Seq::<char>::empty(),
                }),
                self.prefixes.spec_get("SETTING_PROMPT"@) is Some,
                place_descriptions.wf(),
                place_descriptions.places@.len() == k,
                forall|j: int|
                    #![trigger place_descriptions.places@[j]]
                    0 <= j < k ==> place_descriptions.places@[j].name@ == names[j] && exists|
                        raw: Seq<char>,
                    |
                        #![trigger sentinel_terminated(raw)]
                        sentinel_terminated(raw) && place_descriptions.places@[j].description@
                            == crate::extract::spec_strip_end(raw),
                place_prefixes.deep_view().len() == k,
                forall|j: int|
                    #![trigger place_prefixes.deep_view()[j]]
                    0 <= j < k ==> place_prefixes.deep_view()[j] == base@ + "Place: "@ + names[j]
                        + "\nDescription:"@,
            decreases count - k,
        {
            proof {
                assert(names[k as int] == unique@[k as int]@);
            }
            let mut place_prompt = base.clone();
            place_prompt.append("Place: ");
            place_prompt.append(unique[k].as_str());
            place_prompt.append("\nDescription:");
            proof {
                assert(place_prompt@ =~= base@ + "Place: "@ + names[k as int]
                    + "\nDescription:"@);
            }
            let place_text = match self.text_generator.generate_text(
                place_prompt.as_str(),
                client,
                filter,
                Some(self.hyperparameters.sample_length_place),
                self.hyperparameters.max_paragraph_length,
                seed,
                num_samples,
                Some(self.hyperparameters.max_num_repetitions),
            ) {
                Ok(t) => t,
                Err(e) => {
                    return Err(StoryGenerationError::TextGeneration(e));
                },
            };
            let description = crate::extract::strip_remove_end(place_text.as_str());
            let place = Place::new(unique[k].clone(), description, (0, 0));
            let ghost new_place = place;
            proof {
                crate::dict::lemma_key_index(
                    place_names(place_descriptions.places@),
                    new_place.name@,
                );
                let idx = crate::dict::key_index(
                    place_names(place_descriptions.places@),
                    new_place.name@,
                );
                if idx >= 0 {
                    assert(place_names(place_descriptions.places@)[idx]
                        == place_descriptions.places@[idx].name@);
                    assert(place_descriptions.places@[idx].name@ == names[idx]);
                    assert(names[idx] != names[k as int]);
                    assert(false);
                }
            }
            let ghost old_list = place_descriptions.places@;
            place_descriptions.add_place(place);
            proof {
                assert(place_descriptions.places@ =~= old_list.push(new_place));
                assert(sentinel_terminated(place_text@) && new_place.description@
                    == crate::extract::spec_strip_end(place_text@));
            }
            let ghost old_prefixes = place_prefixes.deep_view();
            place_prefixes.push(place_prompt);
            proof {
                assert(place_prefixes.deep_view() =~= old_prefixes.push(
                    base@ + "Place: "@ + names[k as int] + "\nDescription:"@,
                ));
            }
            k += 1;
        }
        proof {
            assert(names == spec_distinct(scenes.scenes@.map_values(|s: Scene| s.place@)));
            assert(places_from_generation(place_descriptions, names));
            assert(place_prompts_built(place_prefixes.deep_view(), base@, names));
        }
        Ok((place_descriptions, place_prefixes))
    }

    /// Generate the dialog for the last scene of `scenes` (the scenes up
    /// to and including the target). On success, returns the raw dialog
    /// text together with the exact prompt used.
    pub fn generate_dialog<L: LanguageApi, F: FilterApi>(
        &self,
        scenes: &Vec<Scene>,
        character_descriptions: &Dict,
        place_descriptions: &Places,
        client: &L,
        filter: Option<&F>,
        seed: Option<u64>,
        num_samples: usize,
    ) -> (r: Result<(String, String), StoryGenerationError>)
        requires
            self.wf(),
            character_descriptions.wf(),
            place_descriptions.wf(),
            seed matches Some(s) ==> s
                + self.text_generator.spec_hyperparameters().max_num_attempts_get_out_of_loop
                <= u64::MAX,
        ensures
            scenes@.len() == 0 ==> (r matches Err(e) && e
                matches StoryGenerationError::InvalidSceneIndex(i) && i == 0),
            scenes@.len() > 0 && self.prefixes.spec_get("DIALOG_PROMPT"@) is None ==> (r
                matches Err(e) && e matches StoryGenerationError::MissingPrompt(k) && k@
                == "DIALOG_PROMPT"@),
            r matches Err(e) ==> (e is InvalidSceneIndex && scenes@.len() == 0) || (e
                is MissingPrompt && self.prefixes.spec_get("DIALOG_PROMPT"@) is None) || e
                is TextGeneration,
            r matches Ok(p) ==> (scenes@.len() > 0 && (self.prefixes.spec_get(
                "DIALOG_PROMPT"@,
            ) matches Some(tpl) && sentinel_terminated(p.0@) && p.1@ == spec_dialog_prompt(
                tpl,
                scenes@,
                character_descriptions.keys_view(),
                character_descriptions.vals_view(),
                place_descriptions.places@,
                self.storyline@,
            ))),
    {
        if scenes.len() == 0 {
            return Err(StoryGenerationError::InvalidSceneIndex(0));
        }
        let template = match self.prefixes.get("DIALOG_PROMPT") {
            Some(t) => t,
            None => {
                return Err(StoryGenerationError::MissingPrompt(String::from_str("DIALOG_PROMPT")));
            },
        };
        let scene = &scenes[scenes.len() - 1];
        let mut dialog_prefix = template.clone();
        dialog_prefix.append("Place: ");
        dialog_prefix.append(scene.place.as_str());
        dialog_prefix.append("\n");
        match place_descriptions.get_place(scene.place.as_str()) {
            Some(place) => {
                dialog_prefix.append("Description: ");
                dialog_prefix.append(place.description.as_str());
                dialog_prefix.append("\n");
            },
            None => {},
        }
        proof {
            crate::dict::lemma_key_index(
                place_names(place_descriptions.places@),
                scene.place@,
            );
        }
        dialog_prefix.append("Characters: ");
        let ghost head = dialog_prefix@;
        let ghost keys = character_descriptions.keys_view();
        let ghost vals = character_descriptions.vals_view();
        let n = character_descriptions.len();
        let mut i: usize = 0;
        proof {
            assert(keys.take(0) =~= Seq::<Seq<char>>::empty());
            assert(vals.take(0) =~= Seq::<Seq<char>>::empty());
            assert(dialog_prefix@ =~= head + spec_characters_in_beat(
                keys.take(0),
                vals.take(0),
                scene.beat@,
            ));
        }
        while i < n
            invariant
                character_descriptions.wf(),
                keys == character_descriptions.keys_view(),
                vals == character_descriptions.vals_view(),
                n == keys.len(),
                i <= n,
                dialog_prefix@ == head + spec_characters_in_beat(
                    keys.take(i as int),
                    vals.take(i as int),
                    scene.beat@,
                ),
            decreases n - i,
        {
            proof {
                reveal_strlit("\n");
                assert(keys.take(i + 1).drop_last() =~= keys.take(i as int));
                assert(vals.take(i + 1).drop_last() =~= vals.take(i as int));
                assert(keys.take(i + 1).last() == keys[i as int]);
                assert(vals.take(i + 1).last() == vals[i as int]);
            }
            if crate::strings::contains_str(
                scene.beat.as_str(),
                character_descriptions.key_at(i).as_str(),
            ) {
                dialog_prefix.append(character_descriptions.value_at(i).as_str());
                dialog_prefix.append("\n");
            }
            proof {
                assert(dialog_prefix@ =~= head + spec_characters_in_beat(
                    keys.take(i + 1),
                    vals.take(i + 1),
                    scene.beat@,
                ));
            }
            i += 1;
        }
        proof {
            assert(keys.take(n as int) =~= keys);
            assert(vals.take(n as int) =~= vals);
        }
        dialog_prefix.append("Plot element: ");
        dialog_prefix.append(scene.plot_element.as_str());
        dialog_prefix.append("\n");
        dialog_prefix.append("Summary: ");
        if scenes.len() > 1 {
            dialog_prefix.append("Previous beat: ");
            dialog_prefix.append(scenes[scenes.len() - 2].beat.as_str());
            dialog_prefix.append("\n");
        } else {
            dialog_prefix.append(self.storyline.as_str());
        }
        dialog_prefix.append("\n");
        dialog_prefix.append("Beat: ");
        dialog_prefix.append(scene.beat.as_str());
        dialog_prefix.append("\n");
        dialog_prefix.append("**Dialog:**\n");
        proof {
            assert(dialog_prefix@ =~= spec_dialog_prompt(
                self.prefixes.spec_get("DIALOG_PROMPT"@).unwrap(),
                scenes@,
                character_descriptions.keys_view(),
                character_descriptions.vals_view(),
                place_descriptions.places@,
                self.storyline@,
            ));
        }
        let dialog = match self.text_generator.generate_text(
            dialog_prefix.as_str(),
            client,
            filter,
            Some(self.hyperparameters.sample_length),
            self.hyperparameters.max_paragraph_length,
            seed,
            num_samples,
            Some(self.hyperparameters.max_num_repetitions),
        ) {
            Ok(t) => t,
            Err(e) => {
                return Err(StoryGenerationError::TextGeneration(e));
            },
        };
        Ok((dialog, dialog_prefix))
    }

    /// Advance the state machine: generate the stage named by `level`
    /// (default: the stage after the current one), replace that stage's
    /// entity with the parsed result, record the prompt used and a step
    /// intervention, and return whether the new entity is non-empty.
    /// Stage 5 generates the dialog of scene `idx` alone when `idx` is
    /// given, else one dialog per scene in order. Errors leave the state
    /// untouched.
    pub fn step<L: LanguageApi, F: FilterApi>(
        &mut self,
        level: Option<usize>,
        seed: Option<u64>,
        idx: Option<usize>,
        client: &L,
        filter: Option<&F>,
    ) -> (r: Result<bool, StoryGenerationError>)
        requires
            old(self).wf(),
            seed matches Some(s) ==> s + old(self).text_generator.spec_hyperparameters().max_num_attempts_get_out_of_loop <= u64::MAX,
        ensures
            final(self).wf(),
            r is Err ==> *final(self) == *old(self),
            ({
                let target = match level {
                    Some(l) => l as int,
                    None => old(self).level + 1,
                };
                &&& (target == 0 || target >= 6) ==> (r matches Err(e) && e
                    matches StoryGenerationError::InvalidLevel(l) && l as int == target)
                &&& (r matches Err(e) && e is InvalidLevel) ==> (target == 0 || target >= 6)
                &&& (r matches Err(e) && e is InvalidSceneIndex) ==> (target == 5 && (idx
                    matches Some(i) && i >= old(self).scenes.scenes@.len()))
                &&& r matches Err(e) ==> (e is InvalidLevel || e is InvalidSceneIndex || e
                    is MissingPrompt || e is TextGeneration)
                &&& r is Ok ==> final(self).level == target
                &&& r is Ok ==> final(self).storyline == old(self).storyline && final(self).hyperparameters == old(self).hyperparameters && final(self).prefixes == old(self).prefixes && final(self).text_generator == old(self).text_generator
                &&& r is Ok ==> final(self).interventions.deep_view().len() == old(self).interventions.deep_view().len() + 1
                &&& (r is Ok && target == 1) ==> ({
                    &&& exists|raw: Seq<char>|
                        #![trigger sentinel_terminated(raw)]
                        sentinel_terminated(raw) && final(self).title.title@ == spec_title_parse(
                            "Title: "@ + raw,
                        )
                    &&& (old(self).prefixes.spec_get("TITLES_PROMPT"@) matches Some(tpl) && final(self).prompts.title.deep_view() == old(self).prompts.title.deep_view().push(
                        tpl + old(self).storyline@ + " Title: "@,
                    ))
                    &&& final(self).characters == old(self).characters
                    &&& final(self).scenes == old(self).scenes
                    &&& final(self).places == old(self).places
                    &&& final(self).dialogs == old(self).dialogs
                    &&& final(self).interventions.deep_view() == old(self).interventions.deep_view().push(
                        spec_step_entry(1, crate::title::spec_title_display(
                            final(self).title.title@,
                        )),
                    )
                    &&& r == Ok::<bool, StoryGenerationError>(final(self).title.title@.len() > 0)
                })
                &&& (r is Ok && target == 2) ==> ({
                    &&& exists|raw: Seq<char>|
                        #![trigger sentinel_terminated(raw)]
                        sentinel_terminated(raw) && characters_match_text(
                            final(self).characters,
                            raw,
                        )
                    &&& (old(self).prefixes.spec_get("CHARACTERS_PROMPT"@) matches Some(tpl)
                        && final(self).prompts.characters.deep_view() == old(self).prompts.characters.deep_view().push(tpl + old(self).storyline@))
                    &&& final(self).title == old(self).title
                    &&& final(self).scenes == old(self).scenes
                    &&& final(self).places == old(self).places
                    &&& final(self).dialogs == old(self).dialogs
                    &&& r == Ok::<bool, StoryGenerationError>(
                        final(self).characters.character_descriptions.keys_view().len() > 0,
                    )
                })
                &&& (r is Ok && target == 3) ==> ({
                    &&& exists|raw: Seq<char>|
                        #![trigger sentinel_terminated(raw)]
                        sentinel_terminated(raw) && scenes_match_text(final(self).scenes, raw)
                    &&& final(self).title == old(self).title
                    &&& final(self).characters == old(self).characters
                    &&& final(self).places == old(self).places
                    &&& final(self).dialogs.deep_view() == (if old(self).dialogs.deep_view().len() <= final(self).scenes.scenes@.len() {
                        old(self).dialogs.deep_view()
                    } else {
                        old(self).dialogs.deep_view().take(final(self).scenes.scenes@.len() as int)
                    })
                    &&& r == Ok::<bool, StoryGenerationError>(final(self).scenes.scenes@.len() > 0)
                })
                &&& (r is Ok && target == 4) ==> ({
                    &&& places_from_generation(
                        final(self).places,
                        spec_distinct(old(self).scenes.scenes@.map_values(|s: Scene| s.place@)),
                    )
                    &&& final(self).title == old(self).title
                    &&& final(self).characters == old(self).characters
                    &&& final(self).scenes == old(self).scenes
                    &&& final(self).dialogs == old(self).dialogs
                    &&& r == Ok::<bool, StoryGenerationError>(final(self).places.places@.len() > 0)
                })
                &&& (r is Ok && target == 5) ==> ({
                    &&& final(self).title == old(self).title
                    &&& final(self).characters == old(self).characters
                    &&& final(self).scenes == old(self).scenes
                    &&& final(self).places == old(self).places
                    &&& (idx matches Some(i) ==> i < old(self).scenes.scenes@.len() && exists|
                        d: Seq<char>,
                    |
                        #![trigger sentinel_terminated(d)]
                        sentinel_terminated(d) && final(self).dialogs.deep_view() == spec_padded(
                            old(self).dialogs.deep_view(),
                            i + 1,
                        ).update(i as int, d) && final(self).interventions.deep_view() == old(
                            self,
                        ).interventions.deep_view().push(spec_step_entry(5, d)))
                    &&& (idx is None ==> final(self).dialogs.deep_view().len() == old(
                        self,
                    ).scenes.scenes@.len() && final(self).interventions.deep_view() == old(
                        self,
                    ).interventions.deep_view().push(
                        spec_step_entry(5, spec_concat_texts(final(self).dialogs.deep_view())),
                    ) && forall|k: int|
                        0 <= k < final(self).dialogs.deep_view().len()
                            ==> sentinel_terminated(#[trigger] final(self).dialogs.deep_view()[k]))
                    &&& r == Ok::<bool, StoryGenerationError>(true)
                })
            }),
            level is None && r is Ok ==> final(self).level == old(self).level + 1,
    {
        let target = match level {
            Some(l) => l,
            None => self.level + 1,
        };
        if target == 0 || target >= 6 {
            return Err(StoryGenerationError::InvalidLevel(target));
        }
        if target == 1 {
            let (title, titles_prefix) = match self.generate_title(
                client,
                filter,
                seed,
                self.hyperparameters.num_samples,
            ) {
                Ok(p) => p,
                Err(e) => {
                    return Err(e);
                },
            };
            let non_empty = !title.title.as_str().is_empty();
            let mut entry = step_entry(target);
            let display = title.display();
            entry.append(display.as_str());
            let ghost old_prompts = self.prompts.title.deep_view();
            let ghost old_entries = self.interventions.deep_view();
            self.prompts.title.push(titles_prefix);
            self.interventions.push(entry);
            self.title = title;
            self.level = target;
            proof {
                assert(self.prompts.title.deep_view() =~= old_prompts.push(
                    self.prefixes.spec_get("TITLES_PROMPT"@).unwrap() + self.storyline@
                        + " Title: "@,
                ));
                assert(self.interventions.deep_view() =~= old_entries.push(
                    spec_step_entry(1, crate::title::spec_title_display(self.title.title@)),
                ));
            }
            Ok(non_empty)
        } else if target == 2 {
            let (characters, characters_prefix) = match self.generate_characters(
                client,
                filter,
                seed,
                self.hyperparameters.num_samples,
            ) {
                Ok(p) => p,
                Err(e) => {
                    return Err(e);
                },
            };
            let non_empty = characters.character_descriptions.len() > 0;
            let mut entry = step_entry(target);
            let display = characters.display();
            entry.append(display.as_str());
            let ghost old_prompts = self.prompts.characters.deep_view();
            let ghost old_entries = self.interventions.deep_view();
            self.prompts.characters.push(characters_prefix);
            self.interventions.push(entry);
            self.characters = characters;
            self.level = target;
            proof {
                assert(self.prompts.characters.deep_view() =~= old_prompts.push(
                    self.prefixes.spec_get("CHARACTERS_PROMPT"@).unwrap() + self.storyline@,
                ));
                assert(self.interventions.deep_view() =~= old_entries.push(
                    "STEP "@ + dec_seq(2) + "\n"@ + display@,
                ));
            }
            Ok(non_empty)
        } else if target == 3 {
            let (scenes, scenes_prefix) = match self.generate_scenes(
                &self.characters.character_descriptions,
                client,
                filter,
                seed,
                self.hyperparameters.num_samples,
            ) {
                Ok(p) => p,
                Err(e) => {
                    return Err(e);
                },
            };
            let non_empty = scenes.scenes.len() > 0;
            let mut entry = step_entry(target);
            let display = scenes.display();
            entry.append(display.as_str());
            let ghost old_entries = self.interventions.deep_view();
            self.prompts.scenes.push(scenes_prefix);
            self.interventions.push(entry);
            self.scenes = scenes;
            if self.dialogs.len() > self.scenes.scenes.len() {
                let keep = self.scenes.scenes.len();
                let ghost old_dv = self.dialogs.deep_view();
                self.dialogs.truncate(keep);
                proof {
                    assert(self.dialogs.deep_view() =~= old_dv.take(keep as int));
                }
            }
            self.level = target;
            proof {
                assert(self.interventions.deep_view() =~= old_entries.push(
                    "STEP "@ + dec_seq(3) + "\n"@ + display@,
                ));
            }
            Ok(non_empty)
        } else if target == 4 {
            let (place_descriptions, place_prefixes) = match self.generate_place_descriptions(
                &self.scenes,
                client,
                filter,
                seed,
                self.hyperparameters.num_samples,
            ) {
                Ok(p) => p,
                Err(e) => {
                    return Err(e);
                },
            };
            let non_empty = place_descriptions.len() > 0;
            let mut entry = step_entry(target);
            let display = places_display(&place_descriptions);
            entry.append(display.as_str());
            let ghost old_entries = self.interventions.deep_view();
            let mut place_prefixes_moved = place_prefixes;
            self.prompts.places.append(&mut place_prefixes_moved);
            self.interventions.push(entry);
            self.places = place_descriptions;
            self.level = target;
            proof {
                assert(self.interventions.deep_view() =~= old_entries.push(
                    "STEP "@ + dec_seq(4) + "\n"@ + display@,
                ));
            }
            Ok(non_empty)
        } else {
            match idx {
                Some(i) => {
                    if i >= self.scenes.scenes.len() {
                        return Err(StoryGenerationError::InvalidSceneIndex(i));
                    }
                    let prefix_scenes = scenes_prefix_vec(&self.scenes.scenes, i);
                    let (dialog, dialog_prompt) = match self.generate_dialog(
                        &prefix_scenes,
                        &self.characters.character_descriptions,
                        &self.places,
                        client,
                        filter,
                        seed,
                        self.hyperparameters.num_samples,
                    ) {
                        Ok(p) => p,
                        Err(e) => {
                            return Err(e);
                        },
                    };
                    let mut entry = step_entry(target);
                    entry.append(dialog.as_str());
                    let ghost old_entries = self.interventions.deep_view();
                    let ghost old_dv = self.dialogs.deep_view();
                    while self.dialogs.len() <= i
                        invariant
                            old_dv == old(self).dialogs.deep_view(),
                            old_dv.len() <= self.dialogs.deep_view().len(),
                            self.dialogs.deep_view().len() <= i + 1 || self.dialogs.deep_view()
                                == old_dv,
                            self.dialogs.deep_view() == spec_padded(
                                old_dv,
                                self.dialogs@.len() as int,
                            ),
                            self.storyline == old(self).storyline,
                            self.prefixes == old(self).prefixes,
                            self.hyperparameters == old(self).hyperparameters,
                            self.text_generator == old(self).text_generator,
                            self.prompts == old(self).prompts,
                            self.title == old(self).title,
                            self.characters == old(self).characters,
                            self.scenes == old(self).scenes,
                            self.places == old(self).places,
                            self.interventions == old(self).interventions,
                            self.level == old(self).level,
                        decreases i + 1 - self.dialogs@.len(),
                    {
                        let ghost before = self.dialogs.deep_view();
                        self.dialogs.push(String::new());
                        proof {
                            assert(self.dialogs.deep_view() =~= before.push(Seq::<char>::empty()));
                            assert(self.dialogs.deep_view() =~= spec_padded(
                                old_dv,
                                self.dialogs@.len() as int,
                            ));
                        }
                    }
                    proof {
                        assert(self.dialogs.deep_view() =~= spec_padded(old_dv, i + 1));
                    }
                    let ghost grown_dv = self.dialogs.deep_view();
                    let mut prompt_store: Vec<String> = Vec::new();
                    core::mem::swap(&mut prompt_store, &mut self.prompts.dialogs);
                    let ghost old_prompt_dv = prompt_store.deep_view();
                    while prompt_store.len() <= i
                        invariant
                            old_prompt_dv.len() <= prompt_store.deep_view().len(),
                            prompt_store.deep_view().len() <= i + 1 || prompt_store.deep_view()
                                == old_prompt_dv,
                        decreases i + 1 - prompt_store@.len(),
                    {
                        prompt_store.push(String::new());
                    }
                    prompt_store[i] = dialog_prompt;
                    self.prompts.dialogs = prompt_store;
                    self.interventions.push(entry);
                    let ghost d = dialog@;
                    self.dialogs[i] = dialog;
                    self.level = target;
                    proof {
                        assert(self.dialogs.deep_view() =~= grown_dv.update(i as int, d));
                        assert(self.interventions.deep_view() =~= old_entries.push(
                            "STEP "@ + dec_seq(5) + "\n"@ + d,
                        ));
                    }
                    Ok(true)
                },
                None => {
                    let scene_count = self.scenes.scenes.len();
                    let mut dialogs: Vec<String> = Vec::new();
                    let mut dialog_prompts: Vec<String> = Vec::new();
                    let mut k: usize = 0;
                    while k < scene_count
                        invariant
                            *self == *old(self),
                            self.wf(),
                            target == 5,
                            (match level {
                                Some(l) => l as int,
                                None => old(self).level + 1,
                            }) == 5,
                            seed matches Some(s) ==> s
                                + self.text_generator.spec_hyperparameters().max_num_attempts_get_out_of_loop
                                <= u64::MAX,
                            scene_count == self.scenes.scenes@.len(),
                            k <= scene_count,
                            dialogs@.len() == k,
                            dialog_prompts@.len() == k,
                            forall|j: int|
                                0 <= j < k ==> sentinel_terminated(
                                    #[trigger] dialogs.deep_view()[j],
                                ),
                        decreases scene_count - k,
                    {
                        let prefix_scenes = scenes_prefix_vec(&self.scenes.scenes, k);
                        let (dialog, dialog_prompt) = match self.generate_dialog(
                            &prefix_scenes,
                            &self.characters.character_descriptions,
                            &self.places,
                            client,
                            filter,
                            seed,
                            self.hyperparameters.num_samples,
                        ) {
                            Ok(p) => p,
                            Err(e) => {
                                return Err(e);
                            },
                        };
                        let ghost before = dialogs.deep_view();
                        let ghost fresh = dialog@;
                        dialogs.push(dialog);
                        dialog_prompts.push(dialog_prompt);
                        proof {
                            assert(dialogs.deep_view() =~= before.push(fresh));
                        }
                        k += 1;
                    }
                    let mut entry = step_entry(target);
                    let joined = concat_strings(&dialogs);
                    entry.append(joined.as_str());
                    let ghost old_entries = self.interventions.deep_view();
                    let mut dialog_prompts_moved = dialog_prompts;
                    self.prompts.dialogs.append(&mut dialog_prompts_moved);
                    self.interventions.push(entry);
                    self.dialogs = dialogs;
                    self.level = target;
                    proof {
                        assert(self.interventions.deep_view() =~= old_entries.push(
                            "STEP "@ + dec_seq(5) + "\n"@ + joined@,
                        ));
                    }
                    Ok(true)
                },
            }
        }
    }

    /// Manually override one stage with `text`, bypassing generation: the
    /// storyline resets the machine, levels 1 to 3 re-parse their entity
    /// from `text`, level 4 replaces the description of the place whose
    /// key (the decimal form of `entity`) must exist, and level 5
    /// replaces the dialog at scene index `entity`. Every change is
    /// diffed against the old value and, when the diff is non-empty,
    /// logged as a rewrite intervention. Errors leave the state untouched.
    pub fn rewrite(&mut self, text: &str, level: usize, entity: Option<usize>) -> (r: Result<
        (),
        StoryGenerationError,
    >)
        requires
            old(self).wf(),
        ensures
            final(self).wf(),
            r is Err ==> *final(self) == *old(self),
            r matches Err(e) ==> ((e matches StoryGenerationError::InvalidLevel(l) && l == level
                && level >= 6) || (e is PlaceNotFound && level == 4) || (e
                matches StoryGenerationError::InvalidSceneIndex(i) && level == 5 && entity == Some(
                i,
            ) && i >= old(self).scenes.scenes@.len())),
            level >= 6 ==> r is Err,
            level == 4 && (entity is None || (entity matches Some(en) && !old(self).places.spec_contains(dec_seq(en as int)))) ==> r is Err,
            level == 5 && (entity matches Some(i) && i >= old(self).scenes.scenes@.len()) ==> r
                is Err,
            level < 6 && !(level == 4 && (entity is None || (entity matches Some(en) && !old(self).places.spec_contains(dec_seq(en as int))))) && !(level == 5 && (entity matches Some(
                i,
            ) && i >= old(self).scenes.scenes@.len())) ==> r is Ok,
            r is Ok && level == 0 ==> ({
                let d = spec_diff_str(old(self).storyline@, text@);
                let base = old(self).interventions.deep_view().push(
                    spec_storyline_entry(spec_normalized(text@)),
                );
                &&& final(self).storyline@ == spec_normalized(text@)
                &&& final(self).level == 0
                &&& final(self).title == old(self).title
                &&& final(self).characters == old(self).characters
                &&& final(self).scenes == old(self).scenes
                &&& final(self).places == old(self).places
                &&& final(self).dialogs == old(self).dialogs
                &&& final(self).prompts == old(self).prompts
                &&& final(self).interventions.deep_view() == (if d.len() > 0 {
                    base.push(spec_rewrite_entry(0, entity, d))
                } else {
                    base
                })
            }),
            r is Ok && level == 1 ==> ({
                let d = spec_diff_str(old(self).title.title@, spec_title_parse(text@));
                &&& final(self).title.title@ == spec_title_parse(text@)
                &&& final(self).storyline == old(self).storyline
                &&& final(self).level == old(self).level
                &&& final(self).characters == old(self).characters
                &&& final(self).scenes == old(self).scenes
                &&& final(self).places == old(self).places
                &&& final(self).dialogs == old(self).dialogs
                &&& final(self).prompts == old(self).prompts
                &&& final(self).interventions.deep_view() == (if d.len() > 0 {
                    old(self).interventions.deep_view().push(spec_rewrite_entry(1, entity, d))
                } else {
                    old(self).interventions.deep_view()
                })
            }),
            r is Ok && level == 2 ==> ({
                let entries = spec_characters_entries(spec_character_blocks(text@));
                let d = spec_diff_dict(
                    old(self).characters.character_descriptions.keys_view(),
                    old(self).characters.character_descriptions.vals_view(),
                    entries.0,
                    entries.1,
                );
                &&& (
                final(self).characters.character_descriptions.keys_view(),
                final(self).characters.character_descriptions.vals_view(),
                ) == entries
                &&& final(self).storyline == old(self).storyline
                &&& final(self).level == old(self).level
                &&& final(self).title == old(self).title
                &&& final(self).scenes == old(self).scenes
                &&& final(self).places == old(self).places
                &&& final(self).dialogs == old(self).dialogs
                &&& final(self).prompts == old(self).prompts
                &&& final(self).interventions.deep_view() == (if d.len() > 0 {
                    old(self).interventions.deep_view().push(spec_rewrite_entry(2, entity, d))
                } else {
                    old(self).interventions.deep_view()
                })
            }),
            r is Ok && level == 3 ==> ({
                let pairs = spec_scene_pairs(spec_scene_blocks(text@));
                let d = spec_diff_scenes(old(self).scenes.scenes@, final(self).scenes.scenes@);
                &&& final(self).scenes.scenes@.len() == pairs.len()
                &&& forall|i: int|
                    0 <= i < pairs.len() ==> final(self).scenes.scenes@[i].name@ == pairs[i].0
                        && final(self).scenes.scenes@[i].description@ == pairs[i].1
                &&& (
                final(self).scenes.scene_descriptions.keys_view(),
                final(self).scenes.scene_descriptions.vals_view(),
                ) == spec_scene_entries(pairs)
                &&& final(self).dialogs.deep_view() == (if old(self).dialogs.deep_view().len()
                    <= pairs.len() {
                    old(self).dialogs.deep_view()
                } else {
                    old(self).dialogs.deep_view().take(pairs.len() as int)
                })
                &&& final(self).storyline == old(self).storyline
                &&& final(self).level == old(self).level
                &&& final(self).title == old(self).title
                &&& final(self).characters == old(self).characters
                &&& final(self).places == old(self).places
                &&& final(self).prompts == old(self).prompts
                &&& final(self).interventions.deep_view() == (if d.len() > 0 {
                    old(self).interventions.deep_view().push(spec_rewrite_entry(3, entity, d))
                } else {
                    old(self).interventions.deep_view()
                })
            }),
            r is Ok && level == 4 ==> (entity matches Some(en) && {
                let key = dec_seq(en as int);
                let i = crate::dict::key_index(place_names(old(self).places.places@), key);
                let old_place = old(self).places.places@[i];
                let d = spec_diff_str(old_place.name@, key) + "\n"@ + spec_diff_str(
                    old_place.description@,
                    text@,
                );
                &&& i >= 0
                &&& final(self).places.places@.len() == old(self).places.places@.len()
                &&& final(self).places.places@[i].name@ == key
                &&& final(self).places.places@[i].description@ == text@
                &&& forall|j: int|
                    0 <= j < old(self).places.places@.len() && j != i
                        ==> final(self).places.places@[j] == old(self).places.places@[j]
                &&& final(self).storyline == old(self).storyline
                &&& final(self).level == old(self).level
                &&& final(self).title == old(self).title
                &&& final(self).characters == old(self).characters
                &&& final(self).scenes == old(self).scenes
                &&& final(self).dialogs == old(self).dialogs
                &&& final(self).prompts == old(self).prompts
                &&& final(self).interventions.deep_view() == (if d.len() > 0 {
                    old(self).interventions.deep_view().push(spec_rewrite_entry(4, entity, d))
                } else {
                    old(self).interventions.deep_view()
                })
            }),
            r is Ok && level == 5 && entity is None ==> *final(self) == *old(self),
            r is Ok && level == 5 ==> (entity matches Some(idx) ==> ({
                let old_dv = old(self).dialogs.deep_view();
                let grown = spec_padded(old_dv, idx + 1);
                let previous = if idx < old_dv.len() {
                    old_dv[idx as int]
                } else {
                    Seq::<char>::empty()
                };
                let d = spec_diff_str(previous, text@);
                &&& idx < old(self).scenes.scenes@.len()
                &&& final(self).dialogs.deep_view() == grown.update(idx as int, text@)
                &&& final(self).storyline == old(self).storyline
                &&& final(self).level == old(self).level
                &&& final(self).title == old(self).title
                &&& final(self).characters == old(self).characters
                &&& final(self).scenes == old(self).scenes
                &&& final(self).places == old(self).places
                &&& final(self).prompts == old(self).prompts
                &&& final(self).interventions.deep_view() == (if d.len() > 0 {
                    old(self).interventions.deep_view().push(spec_rewrite_entry(5, entity, d))
                } else {
                    old(self).interventions.deep_view()
                })
            })),
    {
        if level >= 6 {
            return Err(StoryGenerationError::InvalidLevel(level));
        }
        if level == 0 {
            let diff = diff_prompt_change_str(self.storyline.as_str(), text);
            self.set_storyline(String::from_str(text));
            self.log_rewrite(level, entity, diff);
            Ok(())
        } else if level == 1 {
            let title = Title::from_string(text);
            let diff = diff_prompt_change_str(self.title.title.as_str(), title.title.as_str());
            self.title = title;
            self.log_rewrite(level, entity, diff);
            Ok(())
        } else if level == 2 {
            let characters = Characters::from_string(text);
            let diff = diff_prompt_change_dict(
                &self.characters.character_descriptions,
                &characters.character_descriptions,
            );
            self.characters = characters;
            self.log_rewrite(level, entity, diff);
            Ok(())
        } else if level == 3 {
            let scenes = Scenes::from_string(text);
            let diff = diff_prompt_change_scenes(&self.scenes.scenes, &scenes.scenes);
            self.scenes = scenes;
            if self.dialogs.len() > self.scenes.scenes.len() {
                let keep = self.scenes.scenes.len();
                let ghost old_dv = self.dialogs.deep_view();
                self.dialogs.truncate(keep);
                proof {
                    assert(self.dialogs.deep_view() =~= old_dv.take(keep as int));
                }
            }
            self.log_rewrite(level, entity, diff);
            Ok(())
        } else if level == 4 {
            match entity {
                None => Err(StoryGenerationError::PlaceNotFound(String::new())),
                Some(en) => {
                    let mut key = String::new();
                    push_decimal(&mut key, en as u64);
                    proof {
                        assert(en as u64 as int == en as int);
                        assert(key@ =~= dec_seq(en as int));
                    }
                    match self.places.get_place(key.as_str()) {
                        None => Err(StoryGenerationError::PlaceNotFound(key)),
                        Some(old_place) => {
                            let mut diff = diff_prompt_change_str(
                                old_place.name.as_str(),
                                key.as_str(),
                            );
                            let description_diff = diff_prompt_change_str(
                                old_place.description.as_str(),
                                text,
                            );
                            let ghost name_diff = diff@;
                            diff.append("\n");
                            diff.append(description_diff.as_str());
                            proof {
                                reveal_strlit("\n");
                                assert(diff@ =~= name_diff + "\n"@ + description_diff@);
                                assert(diff@.len() > 0);
                            }
                            let replacement = Place::new(
                                key,
                                String::from_str(text),
                                (0, 0),
                            );
                            let ghost repl = replacement;
                            let ghost old_places = self.places.places@;
                            self.places.set_place(replacement);
                            proof {
                                crate::dict::lemma_key_index(
                                    place_names(old_places),
                                    dec_seq(en as int),
                                );
                                let i = crate::dict::key_index(
                                    place_names(old_places),
                                    dec_seq(en as int),
                                );
                                assert(repl.name@ == dec_seq(en as int));
                                assert(i >= 0);
                                assert(i < old_places.len());
                                assert(self.places.places@ == old_places.update(i, repl));
                                assert(self.places.places@[i].name@ == dec_seq(en as int));
                                assert(self.places.places@[i].description@ == text@);
                            }
                            self.log_rewrite(level, entity, diff);
                            Ok(())
                        },
                    }
                },
            }
        } else {
            match entity {
                None => Ok(()),
                Some(idx) => {
                    if idx >= self.scenes.scenes.len() {
                        return Err(StoryGenerationError::InvalidSceneIndex(idx));
                    }
                    let ghost old_dv = self.dialogs.deep_view();
                    while self.dialogs.len() <= idx
                        invariant
                            old_dv == old(self).dialogs.deep_view(),
                            old_dv.len() <= self.dialogs.deep_view().len(),
                            self.dialogs.deep_view().len() <= idx + 1 || self.dialogs.deep_view()
                                == old_dv,
                            self.dialogs.deep_view() == spec_padded(
                                old_dv,
                                self.dialogs@.len() as int,
                            ),
                            self.storyline == old(self).storyline,
                            self.prefixes == old(self).prefixes,
                            self.hyperparameters == old(self).hyperparameters,
                            self.text_generator == old(self).text_generator,
                            self.prompts == old(self).prompts,
                            self.title == old(self).title,
                            self.characters == old(self).characters,
                            self.scenes == old(self).scenes,
                            self.places == old(self).places,
                            self.interventions == old(self).interventions,
                            self.level == old(self).level,
                        decreases idx + 1 - self.dialogs@.len(),
                    {
                        let ghost before = self.dialogs.deep_view();
                        self.dialogs.push(String::new());
                        proof {
                            assert(self.dialogs.deep_view() =~= before.push(Seq::<char>::empty()));
                            assert(self.dialogs.deep_view() =~= spec_padded(
                                old_dv,
                                self.dialogs@.len() as int,
                            ));
                        }
                    }
                    proof {
                        assert(self.dialogs.deep_view() =~= spec_padded(old_dv, idx + 1));
                    }
                    let previous_diff = diff_prompt_change_str(self.dialogs[idx].as_str(), text);
                    proof {
                        let grown = spec_padded(old_dv, idx + 1);
                        if idx < old_dv.len() {
                            assert(grown[idx as int] == old_dv[idx as int]);
                        } else {
                            assert(grown[idx as int] == Seq::<char>::empty());
                        }
                        assert(self.dialogs.deep_view()[idx as int] == self.dialogs@[
                            idx as int
                        ]@);
                    }
                    let ghost grown_dv = self.dialogs.deep_view();
                    self.dialogs[idx] = String::from_str(text);
                    proof {
                        assert(self.dialogs.deep_view() =~= grown_dv.update(idx as int, text@));
                    }
                    self.log_rewrite(level, entity, previous_diff);
                    Ok(())
                },
            }
        }
    }

    /// Continuation mode: take a stage's current canonical text with its
    /// trailing end sentinel stripped, re-issue it appended to the last
    /// prompt recorded for that stage, and merge the extra generated text
    /// back into the entity. Supported for characters, scenes and single
    /// dialogs; the change is diffed and, when non-trivial, logged as a
    /// complete intervention. Errors leave the state untouched.
    pub fn complete<L: LanguageApi, F: FilterApi>(
        &mut self,
        level: usize,
        seed: Option<u64>,
        entity: Option<usize>,
        client: &L,
        filter: Option<&F>,
    ) -> (r: Result<(), StoryGenerationError>)
        requires
            old(self).wf(),
            seed matches Some(s) ==> s + old(
                self,
            ).text_generator.spec_hyperparameters().max_num_attempts_get_out_of_loop <= u64::MAX,
        ensures
            final(self).wf(),
            r is Err ==> *final(self) == *old(self),
            (level != 2 && level != 3 && level != 5) ==> (r matches Err(e) && e
                matches StoryGenerationError::InvalidLevel(l) && l == level),
            r matches Err(e) ==> (e is InvalidLevel || e is InvalidSceneIndex || e
                is TextGeneration),
            (r matches Err(e) && e is InvalidLevel) ==> (level != 2 && level != 3 && level != 5),
            (r matches Err(e) && e is InvalidSceneIndex) ==> (level == 5 && (entity matches Some(
                i,
            ) && i >= old(self).scenes.scenes@.len())),
            (r is Ok && level == 2) ==> ({
                let d = spec_diff_dict(
                    old(self).characters.character_descriptions.keys_view(),
                    old(self).characters.character_descriptions.vals_view(),
                    final(self).characters.character_descriptions.keys_view(),
                    final(self).characters.character_descriptions.vals_view(),
                );
                &&& exists|raw: Seq<char>|
                    #![trigger sentinel_terminated(raw)]
                    sentinel_terminated(raw) && characters_match_text(
                        final(self).characters,
                        crate::extract::spec_strip_end(
                            "\n"@ + crate::character::spec_characters_blocks_text(
                                old(self).characters.character_descriptions.keys_view(),
                                old(self).characters.character_descriptions.vals_view(),
                            ) + "**END**"@,
                        ) + raw,
                    )
                &&& final(self).title == old(self).title
                &&& final(self).scenes == old(self).scenes
                &&& final(self).places == old(self).places
                &&& final(self).dialogs == old(self).dialogs
                &&& final(self).level == old(self).level
                &&& final(self).storyline == old(self).storyline
                &&& final(self).interventions.deep_view() == (if d.len() > 0 {
                    old(self).interventions.deep_view().push(spec_complete_entry(2, entity, d))
                } else {
                    old(self).interventions.deep_view()
                })
            }),
            (r is Ok && level == 3) ==> ({
                let d = spec_diff_scenes(old(self).scenes.scenes@, final(self).scenes.scenes@);
                &&& exists|raw: Seq<char>|
                    #![trigger sentinel_terminated(raw)]
                    sentinel_terminated(raw) && scenes_match_text(
                        final(self).scenes,
                        crate::extract::spec_strip_end(
                            crate::scene::spec_scenes_display(old(self).scenes.scenes@),
                        ) + raw,
                    )
                &&& final(self).title == old(self).title
                &&& final(self).characters == old(self).characters
                &&& final(self).places == old(self).places
                &&& final(self).level == old(self).level
                &&& final(self).storyline == old(self).storyline
                &&& final(self).dialogs.deep_view() == (if old(self).dialogs.deep_view().len()
                    <= final(self).scenes.scenes@.len() {
                    old(self).dialogs.deep_view()
                } else {
                    old(self).dialogs.deep_view().take(final(self).scenes.scenes@.len() as int)
                })
                &&& final(self).interventions.deep_view() == (if d.len() > 0 {
                    old(self).interventions.deep_view().push(spec_complete_entry(3, entity, d))
                } else {
                    old(self).interventions.deep_view()
                })
            }),
            (r is Ok && level == 5 && entity is None) ==> *final(self) == *old(self),
            (r is Ok && level == 5) ==> (entity matches Some(i) ==> ({
                let old_dv = old(self).dialogs.deep_view();
                let previous = if i < old_dv.len() {
                    old_dv[i as int]
                } else {
                    Seq::<char>::empty()
                };
                &&& i < old(self).scenes.scenes@.len()
                &&& exists|raw: Seq<char>|
                    #![trigger sentinel_terminated(raw)]
                    sentinel_terminated(raw) && final(self).dialogs.deep_view() == spec_padded(
                        old_dv,
                        i + 1,
                    ).update(i as int, previous + raw) && final(self).interventions.deep_view()
                        == (if spec_diff_str(previous, previous + raw).len() > 0 {
                        old(self).interventions.deep_view().push(
                            spec_complete_entry(
                                5,
                                entity,
                                spec_diff_str(previous, previous + raw),
                            ),
                        )
                    } else {
                        old(self).interventions.deep_view()
                    })
                &&& final(self).title == old(self).title
                &&& final(self).characters == old(self).characters
                &&& final(self).scenes == old(self).scenes
                &&& final(self).places == old(self).places
                &&& final(self).level == old(self).level
                &&& final(self).storyline == old(self).storyline
            })),
    {
        if level == 2 {
            let display = self.characters.display();
            let stripped = crate::extract::strip_remove_end(display.as_str());
            let mut prompt = if self.prompts.characters.len() > 0 {
                self.prompts.characters[self.prompts.characters.len() - 1].clone()
            } else {
                String::new()
            };
            prompt.append(stripped.as_str());
            let text = match self.text_generator.generate_text(
                prompt.as_str(),
                client,
                filter,
                Some(self.hyperparameters.sample_length),
                self.hyperparameters.sample_length,
                seed,
                1,
                Some(self.hyperparameters.max_num_repetitions),
            ) {
                Ok(t) => t,
                Err(e) => {
                    return Err(StoryGenerationError::TextGeneration(e));
                },
            };
            let mut combined = stripped;
            combined.append(text.as_str());
            let new_characters = Characters::from_string(combined.as_str());
            let diff = diff_prompt_change_dict(
                &self.characters.character_descriptions,
                &new_characters.character_descriptions,
            );
            self.characters = new_characters;
            self.log_complete(level, entity, diff);
            proof {
                assert(sentinel_terminated(text@) && characters_match_text(
                    self.characters,
                    crate::extract::spec_strip_end(
                        "\n"@ + crate::character::spec_characters_blocks_text(
                            old(self).characters.character_descriptions.keys_view(),
                            old(self).characters.character_descriptions.vals_view(),
                        ) + "**END**"@,
                    ) + text@,
                ));
            }
            Ok(())
        } else if level == 3 {
            let display = self.scenes.display();
            let stripped = crate::extract::strip_remove_end(display.as_str());
            let mut prompt = if self.prompts.scenes.len() > 0 {
                self.prompts.scenes[self.prompts.scenes.len() - 1].clone()
            } else {
                String::new()
            };
            prompt.append(stripped.as_str());
            let text = match self.text_generator.generate_text(
                prompt.as_str(),
                client,
                filter,
                Some(self.hyperparameters.sample_length),
                self.hyperparameters.sample_length,
                seed,
                1,
                Some(self.hyperparameters.max_num_repetitions),
            ) {
                Ok(t) => t,
                Err(e) => {
                    return Err(StoryGenerationError::TextGeneration(e));
                },
            };
            let mut combined = stripped;
            combined.append(text.as_str());
            let new_scenes = Scenes::from_string(combined.as_str());
            let diff = diff_prompt_change_scenes(&self.scenes.scenes, &new_scenes.scenes);
            self.scenes = new_scenes;
            if self.dialogs.len() > self.scenes.scenes.len() {
                let keep = self.scenes.scenes.len();
                let ghost old_dv = self.dialogs.deep_view();
                self.dialogs.truncate(keep);
                proof {
                    assert(self.dialogs.deep_view() =~= old_dv.take(keep as int));
                }
            }
            self.log_complete(level, entity, diff);
            proof {
                assert(sentinel_terminated(text@) && scenes_match_text(
                    self.scenes,
                    crate::extract::spec_strip_end(
                        crate::scene::spec_scenes_display(old(self).scenes.scenes@),
                    ) + text@,
                ));
            }
            Ok(())
        } else if level == 5 {
            match entity {
                None => Ok(()),
                Some(i) => {
                    if i >= self.scenes.scenes.len() {
                        return Err(StoryGenerationError::InvalidSceneIndex(i));
                    }
                    let current: String = if i < self.dialogs.len() {
                        self.dialogs[i].clone()
                    } else {
                        String::new()
                    };
                    let mut prompt: String = if i < self.prompts.dialogs.len() {
                        self.prompts.dialogs[i].clone()
                    } else {
                        String::new()
                    };
                    prompt.append(current.as_str());
                    let text = match self.text_generator.generate_text(
                        prompt.as_str(),
                        client,
                        filter,
                        Some(self.hyperparameters.sample_length),
                        self.hyperparameters.sample_length,
                        seed,
                        1,
                        Some(self.hyperparameters.max_num_repetitions),
                    ) {
                        Ok(t) => t,
                        Err(e) => {
                            return Err(StoryGenerationError::TextGeneration(e));
                        },
                    };
                    let ghost old_dv = self.dialogs.deep_view();
                    while self.dialogs.len() <= i
                        invariant
                            old_dv == old(self).dialogs.deep_view(),
                            old_dv.len() <= self.dialogs.deep_view().len(),
                            self.dialogs.deep_view().len() <= i + 1 || self.dialogs.deep_view()
                                == old_dv,
                            self.dialogs.deep_view() == spec_padded(
                                old_dv,
                                self.dialogs@.len() as int,
                            ),
                            self.storyline == old(self).storyline,
                            self.prefixes == old(self).prefixes,
                            self.hyperparameters == old(self).hyperparameters,
                            self.text_generator == old(self).text_generator,
                            self.prompts == old(self).prompts,
                            self.title == old(self).title,
                            self.characters == old(self).characters,
                            self.scenes == old(self).scenes,
                            self.places == old(self).places,
                            self.interventions == old(self).interventions,
                            self.level == old(self).level,
                        decreases i + 1 - self.dialogs@.len(),
                    {
                        let ghost before = self.dialogs.deep_view();
                        self.dialogs.push(String::new());
                        proof {
                            assert(self.dialogs.deep_view() =~= before.push(Seq::<char>::empty()));
                            assert(self.dialogs.deep_view() =~= spec_padded(
                                old_dv,
                                self.dialogs@.len() as int,
                            ));
                        }
                    }
                    proof {
                        assert(self.dialogs.deep_view() =~= spec_padded(old_dv, i + 1));
                        let grown = spec_padded(old_dv, i + 1);
                        if i < old_dv.len() {
                            assert(grown[i as int] == old_dv[i as int]);
                        } else {
                            assert(grown[i as int] == Seq::<char>::empty());
                        }
                    }
                    let mut prompt_store: Vec<String> = Vec::new();
                    core::mem::swap(&mut prompt_store, &mut self.prompts.dialogs);
                    while prompt_store.len() <= i
                        decreases i + 1 - prompt_store@.len(),
                    {
                        prompt_store.push(String::new());
                    }
                    self.prompts.dialogs = prompt_store;
                    let mut new_dialog = current;
                    new_dialog.append(text.as_str());
                    let diff = diff_prompt_change_str(
                        self.dialogs[i].as_str(),
                        new_dialog.as_str(),
                    );
                    let ghost grown_dv = self.dialogs.deep_view();
                    let ghost nd = new_dialog@;
                    self.dialogs[i] = new_dialog;
                    proof {
                        assert(self.dialogs.deep_view() =~= grown_dv.update(i as int, nd));
                    }
                    self.log_complete(level, entity, diff);
                    proof {
                        assert(sentinel_terminated(text@));
                    }
                    Ok(())
                },
            }
        } else {
            Err(StoryGenerationError::InvalidLevel(level))
        }
    }

    /// Append a complete intervention, unless the diff is empty.
    fn log_complete(&mut self, level: usize, entity: Option<usize>, diff: String)
        requires
            level < 6,
        ensures
            final(self).interventions.deep_view() == (if diff@.len() > 0 {
                old(self).interventions.deep_view().push(
                    spec_complete_entry(level as int, entity, diff@),
                )
            } else {
                old(self).interventions.deep_view()
            }),
            final(self).storyline == old(self).storyline,
            final(self).prefixes == old(self).prefixes,
            final(self).hyperparameters == old(self).hyperparameters,
            final(self).text_generator == old(self).text_generator,
            final(self).prompts == old(self).prompts,
            final(self).title == old(self).title,
            final(self).characters == old(self).characters,
            final(self).scenes == old(self).scenes,
            final(self).places == old(self).places,
            final(self).dialogs == old(self).dialogs,
            final(self).level == old(self).level,
    {
        if !diff.as_str().is_empty() {
            let entry = complete_entry(level, entity, diff.as_str());
            let ghost old_entries = self.interventions.deep_view();
            self.interventions.push(entry);
            proof {
                assert(self.interventions.deep_view() =~= old_entries.push(
                    spec_complete_entry(level as int, entity, diff@),
                ));
            }
        }
    }

    /// Append a rewrite intervention, unless the diff is empty.
    fn log_rewrite(&mut self, level: usize, entity: Option<usize>, diff: String)
        requires
            level < 6,
        ensures
            final(self).interventions.deep_view() == (if diff@.len() > 0 {
                old(self).interventions.deep_view().push(
                    spec_rewrite_entry(level as int, entity, diff@),
                )
            } else {
                old(self).interventions.deep_view()
            }),
            final(self).storyline == old(self).storyline,
            final(self).prefixes == old(self).prefixes,
            final(self).hyperparameters == old(self).hyperparameters,
            final(self).text_generator == old(self).text_generator,
            final(self).prompts == old(self).prompts,
            final(self).title == old(self).title,
            final(self).characters == old(self).characters,
            final(self).scenes == old(self).scenes,
            final(self).places == old(self).places,
            final(self).dialogs == old(self).dialogs,
            final(self).level == old(self).level,
    {
        if !diff.as_str().is_empty() {
            let entry = rewrite_entry(level, entity, diff.as_str());
            let ghost old_entries = self.interventions.deep_view();
            self.interventions.push(entry);
            proof {
                assert(self.interventions.deep_view() =~= old_entries.push(
                    spec_rewrite_entry(level as int, entity, diff@),
                ));
            }
        }
    }
}

/// The intervention header recording one generation step.
pub open spec fn spec_step_entry(target: int, body: Seq<char>) -> Seq<char> {
    "STEP "@ + dec_seq(target) + "\n"@ + body
}

/// Build the header of a step intervention.
fn step_entry(target: usize) -> (r: String)
    ensures
        r@ == "STEP "@ + dec_seq(target as int) + "\n"@,
{
    let mut out = String::from_str("STEP ");
    push_decimal(&mut out, target as u64);
    proof {
        assert(target as u64 as int == target as int);
    }
    out.append("\n");
    out
}

/// The display text of the given places, one per line block.
pub open spec fn spec_places_display(places: Seq<Place>) -> Seq<char>
    decreases places.len(),
{
    if places.len() == 0 {
        Seq::empty()
    } else {
        spec_places_display(places.drop_last()) + "Place: "@ + places.last().name@
            + "\nDescription: "@ + places.last().description@ + "\nCoordinates: ("@
            + crate::strings::dec_seq_signed(places.last().coordinates.0 as int) + ", "@
            + crate::strings::dec_seq_signed(places.last().coordinates.1 as int) + ")"@ + "\n"@
    }
}

/// Render every place, one display block per line.
fn places_display(places: &Places) -> (r: String)
    ensures
        r@ == spec_places_display(places.places@),
{
    let ghost pv = places.places@;
    let n = places.places.len();
    let mut out = String::new();
    let mut i: usize = 0;
    proof {
        assert(pv.take(0) =~= Seq::<Place>::empty());
        assert(out@ =~= spec_places_display(pv.take(0)));
    }
    while i < n
        invariant
            pv == places.places@,
            n == pv.len(),
            i <= n,
            out@ == spec_places_display(pv.take(i as int)),
        decreases n - i,
    {
        let block = places.places[i].display();
        out.append(block.as_str());
        out.append("\n");
        proof {
            assert(pv.take(i + 1).drop_last() =~= pv.take(i as int));
            assert(pv.take(i + 1).last() == pv[i as int]);
            assert(out@ =~= spec_places_display(pv.take(i + 1)));
        }
        i += 1;
    }
    proof {
        assert(pv.take(n as int) =~= pv);
    }
    out
}

/// The scenes up to and including index `upto`, as an owned list.
fn scenes_prefix_vec(v: &Vec<Scene>, upto: usize) -> (r: Vec<Scene>)
    requires
        upto < v@.len(),
    ensures
        r@ == v@.subrange(0, upto + 1),
{
    let n = v.len();
    let mut out: Vec<Scene> = Vec::new();
    let mut i: usize = 0;
    while i <= upto
        invariant
            upto < v@.len(),
            v@.len() == n,
            i <= upto + 1,
            out@ =~= v@.subrange(0, i as int),
        decreases upto + 1 - i,
    {
        out.push(v[i].clone());
        proof {
            assert(out@ =~= v@.subrange(0, i + 1));
        }
        i += 1;
    }
    out
}

/// The given texts concatenated in order.
pub open spec fn spec_concat_texts(texts: Seq<Seq<char>>) -> Seq<char>
    decreases texts.len(),
{
    if texts.len() == 0 {
        Seq::empty()
    } else {
        spec_concat_texts(texts.drop_last()) + texts.last()
    }
}

/// Concatenate the given strings in order.
fn concat_strings(v: &Vec<String>) -> (r: String)
    ensures
        r@ == spec_concat_texts(v.deep_view()),
{
    let ghost dv = v.deep_view();
    let n = v.len();
    let mut out = String::new();
    let mut i: usize = 0;
    proof {
        assert(dv.take(0) =~= Seq::<Seq<char>>::empty());
        assert(out@ =~= spec_concat_texts(dv.take(0)));
    }
    while i < n
        invariant
            dv == v.deep_view(),
            n == dv.len(),
            n == v@.len(),
            i <= n,
            out@ == spec_concat_texts(dv.take(i as int)),
        decreases n - i,
    {
        out.append(v[i].as_str());
        proof {
            assert(dv.take(i + 1).drop_last() =~= dv.take(i as int));
            assert(dv.take(i + 1).last() == dv[i as int]);
            assert(dv[i as int] == v@[i as int]@);
            assert(out@ =~= spec_concat_texts(dv.take(i + 1)));
        }
        i += 1;
    }
    proof {
        assert(dv.take(n as int) =~= dv);
    }
    out
}

/// `p` holds one generated place per distinct name, in order: each named
/// after its scene reference, each described by some finished text block
/// with the end sentinel stripped.
pub open spec fn places_from_generation(p: Places, names: Seq<Seq<char>>) -> bool {
    &&& p.wf()
    &&& p.places@.len() == names.len()
    &&& forall|i: int|
        #![trigger p.places@[i]]
        0 <= i < names.len() ==> p.places@[i].name@ == names[i] && exists|raw: Seq<char>|
            #![trigger sentinel_terminated(raw)]
            sentinel_terminated(raw) && p.places@[i].description@
                == crate::extract::spec_strip_end(raw)
}

/// One recorded prompt per distinct place name, each the base prompt plus
/// the place-and-description suffix for its name.
pub open spec fn place_prompts_built(
    prompts: Seq<Seq<char>>,
    base: Seq<char>,
    names: Seq<Seq<char>>,
) -> bool {
    &&& prompts.len() == names.len()
    &&& forall|i: int|
        #![trigger prompts[i]]
        0 <= i < names.len() ==> prompts[i] == base + "Place: "@ + names[i] + "\nDescription:"@
}

/// The descriptions of the characters whose name occurs in `beat`, each
/// followed by a newline, concatenated in entry order.
pub open spec fn spec_characters_in_beat(
    keys: Seq<Seq<char>>,
    vals: Seq<Seq<char>>,
    beat: Seq<char>,
) -> Seq<char>
    decreases keys.len(),
{
    if keys.len() == 0 {
        Seq::empty()
    } else {
        spec_characters_in_beat(keys.drop_last(), vals.drop_last(), beat) + (if contains_seq(
            beat,
            keys.last(),
        ) {
            vals.last() + "\n"@
        } else {
            Seq::<char>::empty()
        })
    }
}

/// The dialog prompt for the last of `scenes`: the dialog template, the
/// scene's place (described when known), the descriptions of characters
/// named in the beat, the plot element, a running summary (the previous
/// beat when one exists, else the storyline), and the beat, closed by the
/// dialog anchor.
pub open spec fn spec_dialog_prompt(
    tpl: Seq<char>,
    scenes: Seq<Scene>,
    keys: Seq<Seq<char>>,
    vals: Seq<Seq<char>>,
    places: Seq<Place>,
    storyline: Seq<char>,
) -> Seq<char> {
    let scene = scenes.last();
    let place_i = crate::dict::key_index(place_names(places), scene.place@);
    let place_part = if place_i == -1 {
        Seq::<char>::empty()
    } else {
        "Description: "@ + places[place_i].description@ + "\n"@
    };
    let summary = if scenes.len() > 1 {
        "Previous beat: "@ + scenes[scenes.len() - 2].beat@ + "\n"@
    } else {
        storyline
    };
    tpl + "Place: "@ + scene.place@ + "\n"@ + place_part + "Characters: "@
        + spec_characters_in_beat(keys, vals, scene.beat@) + "Plot element: "@
        + scene.plot_element@ + "\n"@ + "Summary: "@ + summary + "\n"@ + "Beat: "@ + scene.beat@
        + "\n"@ + "**Dialog:**\n"@
}

/// The given values, each followed by a newline, concatenated in order.
pub open spec fn spec_lines_concat(vals: Seq<Seq<char>>) -> Seq<char>
    decreases vals.len(),
{
    if vals.len() == 0 {
        Seq::empty()
    } else {
        spec_lines_concat(vals.drop_last()) + vals.last() + "\n"@
    }
}

/// Whether `name` occurs among the given strings.
fn contains_string(v: &Vec<String>, name: &str) -> (r: bool)
    ensures
        r == (crate::dict::key_index(v.deep_view(), name@) >= 0),
{
    let ghost dv = v.deep_view();
    let n = v.len();
    let mut i: usize = 0;
    while i < n
        invariant
            dv == v.deep_view(),
            n == dv.len(),
            n == v@.len(),
            i <= n,
            forall|j: int| 0 <= j < i ==> dv[j] != name@,
        decreases n - i,
    {
        if crate::strings::str_eq(v[i].as_str(), name) {
            proof {
                assert(dv[i as int] == v@[i as int]@);
                crate::dict::lemma_key_index(dv, name@);
                let r = crate::dict::key_index(dv, name@);
                if r == -1 {
                    assert(false);
                }
            }
            return true;
        }
        proof {
            assert(dv[i as int] == v@[i as int]@);
        }
        i += 1;
    }
    proof {
        crate::dict::lemma_key_index_absent(dv, name@);
    }
    false
}

/// The given dialogs padded with empty entries up to length `n`.
pub open spec fn spec_padded(s: Seq<Seq<char>>, n: int) -> Seq<Seq<char>> {
    if s.len() >= n {
        s
    } else {
        s + Seq::new((n - s.len()) as nat, |k: int| Seq::<char>::empty())
    }
}

/// An element-for-element copy of a string vector.
fn clone_strings(v: &Vec<String>) -> (r: Vec<String>)
    ensures
        r@ == v@,
        r.deep_view() == v.deep_view(),
{
    let mut out: Vec<String> = Vec::new();
    let n = v.len();
    let mut i: usize = 0;
    while i < n
        invariant
            n == v@.len(),
            i <= n,
            out@ =~= v@.take(i as int),
        decreases n - i,
    {
        out.push(v[i].clone());
        proof {
            assert(out@ =~= v@.take(i + 1));
        }
        i += 1;
    }
    proof {
        assert(out@ =~= v@);
    }
    out
}

} // verus!
