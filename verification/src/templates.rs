//! The static prompt-template store: a fixed mapping from stage keys to
//! the literal prefix each stage's prompt starts from.

use vstd::prelude::*;

use crate::dict::Dict;

verus! {

/// The stage-keyed store of prompt prefixes.
#[derive(Debug, Clone)]
pub struct PromptTemplates {
    templates: Dict,
}

impl PromptTemplates {
    /// The template stored under `key`, when one is.
    pub closed spec fn spec_get(&self, key: Seq<char>) -> Option<Seq<char>> {
        self.templates.spec_get(key)
    }

    /// The store's invariant.
    pub closed spec fn wf(&self) -> bool {
        self.templates.wf()
    }

    /// The stock store, holding one template per stage.
    pub fn new() -> (r: Self)
        ensures
            r.wf(),
            r.spec_get("TITLES_PROMPT"@) == Some(
                "Generate a title for the following storyline:\n"@,
            ),
            r.spec_get("CHARACTERS_PROMPT"@) == Some(
                "Generate characters for the following storyline:\n"@,
            ),
            r.spec_get("SCENE_PROMPT"@) == Some(
                "Generate scenes for the following storyline and characters:\n"@,
            ),
            r.spec_get("SETTING_PROMPT"@) == Some(
                "Generate place descriptions for the following storyline:\n"@,
            ),
            r.spec_get("DIALOG_PROMPT"@) == Some(
                "Generate dialog for the following scene:\n"@,
            ),
    {
        let mut templates = Dict::new();
        templates.insert(
            String::from_str("TITLES_PROMPT"),
            String::from_str("Generate a title for the following storyline:\n"),
        );
        let ghost kv1 = templates.keys_view();
        templates.insert(
            String::from_str("CHARACTERS_PROMPT"),
            String::from_str("Generate characters for the following storyline:\n"),
        );
        let ghost kv2 = templates.keys_view();
        templates.insert(
            String::from_str("SCENE_PROMPT"),
            String::from_str("Generate scenes for the following storyline and characters:\n"),
        );
        let ghost kv3 = templates.keys_view();
        templates.insert(
            String::from_str("SETTING_PROMPT"),
            String::from_str("Generate place descriptions for the following storyline:\n"),
        );
        let ghost kv4 = templates.keys_view();
        templates.insert(
            String::from_str("DIALOG_PROMPT"),
            String::from_str("Generate dialog for the following scene:\n"),
        );
        proof {
            reveal_strlit("TITLES_PROMPT");
            reveal_strlit("CHARACTERS_PROMPT");
            reveal_strlit("SCENE_PROMPT");
            reveal_strlit("SETTING_PROMPT");
            reveal_strlit("DIALOG_PROMPT");
            assert("TITLES_PROMPT"@.len() == 13);
            assert("CHARACTERS_PROMPT"@.len() == 17);
            assert("SCENE_PROMPT"@.len() == 12);
            assert("SETTING_PROMPT"@.len() == 14);
            assert("DIALOG_PROMPT"@.len() == 13);
            assert("TITLES_PROMPT"@[0] == 'T');
            assert("DIALOG_PROMPT"@[0] == 'D');
            crate::dict::lemma_key_index_absent(Seq::<Seq<char>>::empty(), "TITLES_PROMPT"@);
            assert(kv1 =~= Seq::<Seq<char>>::empty().push("TITLES_PROMPT"@));
            crate::dict::lemma_key_index_absent(kv1, "CHARACTERS_PROMPT"@);
            assert(kv2 =~= kv1.push("CHARACTERS_PROMPT"@));
            crate::dict::lemma_key_index_absent(kv2, "SCENE_PROMPT"@);
            assert(kv3 =~= kv2.push("SCENE_PROMPT"@));
            crate::dict::lemma_key_index_absent(kv3, "SETTING_PROMPT"@);
            assert(kv4 =~= kv3.push("SETTING_PROMPT"@));
            crate::dict::lemma_key_index_absent(kv4, "DIALOG_PROMPT"@);
            let kv5 = templates.keys_view();
            assert(kv5 =~= kv4.push("DIALOG_PROMPT"@));
            crate::dict::lemma_key_index_is(kv5, "TITLES_PROMPT"@, 0);
            crate::dict::lemma_key_index_is(kv5, "CHARACTERS_PROMPT"@, 1);
            crate::dict::lemma_key_index_is(kv5, "SCENE_PROMPT"@, 2);
            crate::dict::lemma_key_index_is(kv5, "SETTING_PROMPT"@, 3);
            crate::dict::lemma_key_index_is(kv5, "DIALOG_PROMPT"@, 4);
        }
        PromptTemplates { templates }
    }

    /// The template stored under `key`, when one is.
    pub fn get(&self, key: &str) -> (r: Option<&String>)
        requires
            self.wf(),
        ensures
            r matches Some(v) ==> self.spec_get(key@) == Some(v@),
            r is None ==> self.spec_get(key@) is None,
    {
        self.templates.get(key)
    }
}

} // verus!
