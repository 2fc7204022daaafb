//! The character entities: a name and a description parsed out of one
//! marker-delimited block, and the name-keyed mapping built by scanning
//! generated text for repeated character blocks.

use vstd::prelude::*;

use crate::dict::{key_index, Dict};
use crate::extract::{extract_elements, spec_extract};
use crate::strings::{split_seq, split_str, trim_seq, trim_str};

verus! {

/// The marker that opens one character block.
pub open spec fn character_marker() -> Seq<char> {
    "**Character:** "@
}

/// The marker that separates a name from its description.
pub open spec fn description_marker() -> Seq<char> {
    "**Description:** "@
}

/// The name and description of one character block: the text split on the
/// description marker, both halves trimmed — provided the split gives
/// exactly two halves.
pub open spec fn spec_character_parse(t: Seq<char>) -> Option<(Seq<char>, Seq<char>)> {
    let parts = split_seq(t, description_marker());
    if parts.len() == 2 {
        Some((trim_seq(parts[0]), trim_seq(parts[1])))
    } else {
        None
    }
}

/// One character: a name and a description.
#[derive(Debug)]
pub struct Character {
    pub name: String,
    pub description: String,
}

impl Character {
    /// Parse one character block; `None` unless the description marker
    /// occurs exactly once.
    pub fn from_string(text: &str) -> (r: Option<Self>)
        ensures
            r matches Some(c) ==> spec_character_parse(text@) == Some((c.name@, c.description@)),
            r is None ==> spec_character_parse(text@) is None,
    {
        proof {
            reveal_strlit("**Description:** ");
        }
        let parts = split_str(text, "**Description:** ");
        if parts.len() == 2 {
            proof {
                assert(parts.deep_view()[0] == parts@[0]@);
                assert(parts.deep_view()[1] == parts@[1]@);
            }
            let name = trim_str(parts[0].as_str());
            let description = trim_str(parts[1].as_str());
            Some(Character { name, description })
        } else {
            None
        }
    }
}

impl Clone for Character {
    /// A field-for-field copy.
    fn clone(&self) -> (r: Self)
        ensures
            r == *self,
    {
        Character { name: self.name.clone(), description: self.description.clone() }
    }
}

/// The mapping that scanning `elems` block by block builds: each block
/// that parses contributes its name and description, a repeated name
/// keeping its place and taking the latest description.
pub open spec fn spec_characters_entries(elems: Seq<Seq<char>>) -> (Seq<Seq<char>>, Seq<Seq<char>>)
    decreases elems.len(),
{
    if elems.len() == 0 {
        (Seq::empty(), Seq::empty())
    } else {
        let prev = spec_characters_entries(elems.drop_last());
        match spec_character_parse(elems.last()) {
            Some(pair) => {
                let i = key_index(prev.0, pair.0);
                if i == -1 {
                    (prev.0.push(pair.0), prev.1.push(pair.1))
                } else {
                    (prev.0, prev.1.update(i, pair.1))
                }
            },
            None => prev,
        }
    }
}

/// The blocks that one characters scan of `text` visits.
pub open spec fn spec_character_blocks(text: Seq<char>) -> Seq<Seq<char>> {
    spec_extract(text, character_marker(), "\n"@)
}

/// Every character of a narrative, keyed by name in insertion order.
#[derive(Debug, Clone)]
pub struct Characters {
    pub character_descriptions: Dict,
}

impl Characters {
    /// No characters yet.
    pub fn new() -> (r: Self)
        ensures
            r.character_descriptions.wf(),
            r.character_descriptions.keys_view() == Seq::<Seq<char>>::empty(),
            r.character_descriptions.vals_view() == Seq::<Seq<char>>::empty(),
    {
        Characters { character_descriptions: Dict::new() }
    }

    /// Scan `text` for character blocks and build the name-keyed mapping;
    /// tolerant, blocks that do not parse are skipped.
    pub fn from_string(text: &str) -> (r: Self)
        ensures
            r.character_descriptions.wf(),
            (r.character_descriptions.keys_view(), r.character_descriptions.vals_view())
                == spec_characters_entries(spec_character_blocks(text@)),
    {
        proof {
            reveal_strlit("\n");
        }
        let elements = extract_elements(text, "**Character:** ", "\n");
        let ghost elems = elements.deep_view();
        let n = elements.len();
        let mut character_descriptions = Dict::new();
        let mut i: usize = 0;
        proof {
            assert(elems.take(0) =~= Seq::<Seq<char>>::empty());
        }
        while i < n
            invariant
                elems == elements.deep_view(),
                n == elems.len(),
                n == elements@.len(),
                i <= n,
                character_descriptions.wf(),
                (character_descriptions.keys_view(), character_descriptions.vals_view())
                    == spec_characters_entries(elems.take(i as int)),
            decreases n - i,
        {
            proof {
                assert(elems[i as int] == elements@[i as int]@);
                assert(elems.take(i + 1).drop_last() =~= elems.take(i as int));
                assert(elems.take(i + 1).last() == elems[i as int]);
            }
            match Character::from_string(elements[i].as_str()) {
                Some(character) => {
                    character_descriptions.insert(character.name, character.description);
                },
                None => {},
            }
            i += 1;
        }
        proof {
            assert(elems.take(n as int) =~= elems);
        }
        Characters { character_descriptions }
    }

    /// The rendering each block of which parses back: a blank line, then
    /// one block per character, then the end sentinel.
    pub fn display(&self) -> (r: String)
        requires
            self.character_descriptions.wf(),
        ensures
            r@ == "\n"@ + spec_characters_blocks_text(
                self.character_descriptions.keys_view(),
                self.character_descriptions.vals_view(),
            ) + "**END**"@,
    {
        let ghost keys = self.character_descriptions.keys_view();
        let ghost vals = self.character_descriptions.vals_view();
        let mut out = String::from_str("\n");
        let n = self.character_descriptions.len();
        let mut i: usize = 0;
        proof {
            assert(keys.take(0) =~= Seq::<Seq<char>>::empty());
            assert(vals.take(0) =~= Seq::<Seq<char>>::empty());
        }
        while i < n
            invariant
                self.character_descriptions.wf(),
                keys == self.character_descriptions.keys_view(),
                vals == self.character_descriptions.vals_view(),
                n == keys.len(),
                n == vals.len(),
                i <= n,
                out@ == "\n"@ + spec_characters_blocks_text(
                    keys.take(i as int),
                    vals.take(i as int),
                ),
            decreases n - i,
        {
            out.append("\n**Character:** ");
            out.append(self.character_descriptions.key_at(i).as_str());
            out.append(" **Description:** ");
            out.append(self.character_descriptions.value_at(i).as_str());
            out.append(" \n\n");
            proof {
                assert(keys.take(i + 1).drop_last() =~= keys.take(i as int));
                assert(vals.take(i + 1).drop_last() =~= vals.take(i as int));
                assert(keys.take(i + 1).last() == keys[i as int]);
                assert(vals.take(i + 1).last() == vals[i as int]);
            }
            i += 1;
        }
        proof {
            assert(keys.take(n as int) =~= keys);
            assert(vals.take(n as int) =~= vals);
        }
        out.append("**END**");
        out
    }
}

/// `c` is exactly what scanning `raw` for character blocks builds.
pub open spec fn characters_match_text(c: Characters, raw: Seq<char>) -> bool {
    &&& c.character_descriptions.wf()
    &&& (c.character_descriptions.keys_view(), c.character_descriptions.vals_view())
        == spec_characters_entries(spec_character_blocks(raw))
}

/// The block text of the given characters, one block per entry.
pub open spec fn spec_characters_blocks_text(keys: Seq<Seq<char>>, vals: Seq<Seq<char>>) -> Seq<
    char,
>
    decreases keys.len(),
{
    if keys.len() == 0 {
        Seq::empty()
    } else {
        spec_characters_blocks_text(keys.drop_last(), vals.drop_last()) + "\n**Character:** "@
            + keys.last() + " **Description:** "@ + vals.last() + " \n\n"@
    }
}

} // verus!
