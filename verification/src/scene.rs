//! The scene entities: a scene's name and description parsed out of one
//! block, plus the place, beat and plot-element fields that dialog prompt
//! construction reads; and the ordered scene list built by splitting
//! generated text on the scene marker.

use vstd::prelude::*;

use crate::character::{description_marker, spec_character_parse};
use crate::dict::{key_index, Dict};
use crate::extract::{spec_strip_end, strip_remove_end};
use crate::strings::{split_seq, split_str, trim_seq, trim_str};

verus! {

/// The marker that opens one scene block.
pub open spec fn scene_marker() -> Seq<char> {
    "**Scene:**"@
}

/// The name and description of one scene block: the text split on the
/// description marker, the name trimmed and the description stripped of a
/// trailing end sentinel — provided the split gives exactly two halves.
pub open spec fn spec_scene_parse(t: Seq<char>) -> Option<(Seq<char>, Seq<char>)> {
    let parts = split_seq(t, description_marker());
    if parts.len() == 2 {
        Some((trim_seq(parts[0]), spec_strip_end(parts[1])))
    } else {
        None
    }
}

/// One scene. The name and description come from parsed text; the place,
/// beat and plot element are filled in by richer workflows and feed
/// dialog prompt construction.
#[derive(Debug)]
pub struct Scene {
    pub name: String,
    pub description: String,
    pub place: String,
    pub beat: String,
    pub plot_element: String,
}

impl Scene {
    /// Parse one scene block; `None` unless the description marker occurs
    /// exactly once. The place, beat and plot element start empty.
    pub fn from_string(text: &str) -> (r: Option<Self>)
        ensures
            r matches Some(s) ==> spec_scene_parse(text@) == Some((s.name@, s.description@))
                && s.place@.len() == 0 && s.beat@.len() == 0 && s.plot_element@.len() == 0,
            r is None ==> spec_scene_parse(text@) is None,
    {
        proof {
            reveal_strlit("**Description:** ");
        }
        let parts = split_str(text, "**Description:** ");
        if parts.len() == 2 {
            proof {
                assert(parts.deep_view()[0] == parts@[0]@);
                assert(parts.deep_view()[1] == parts@[1]@);
            }
            let name = trim_str(parts[0].as_str());
            let description = strip_remove_end(parts[1].as_str());
            Some(
                Scene {
                    name,
                    description,
                    place: String::new(),
                    beat: String::new(),
                    plot_element: String::new(),
                },
            )
        } else {
            None
        }
    }
}

impl Clone for Scene {
    /// A field-for-field copy.
    fn clone(&self) -> (r: Self)
        ensures
            r == *self,
    {
        Scene {
            name: self.name.clone(),
            description: self.description.clone(),
            place: self.place.clone(),
            beat: self.beat.clone(),
            plot_element: self.plot_element.clone(),
        }
    }
}

/// The name and description pairs that parsing the given blocks yields,
/// skipping blocks that do not parse.
pub open spec fn spec_scene_pairs(blocks: Seq<Seq<char>>) -> Seq<(Seq<char>, Seq<char>)>
    decreases blocks.len(),
{
    if blocks.len() == 0 {
        Seq::empty()
    } else {
        let prev = spec_scene_pairs(blocks.drop_last());
        match spec_scene_parse(blocks.last()) {
            Some(pair) => prev.push(pair),
            None => prev,
        }
    }
}

/// The name-keyed description mapping that the given pairs build.
pub open spec fn spec_scene_entries(pairs: Seq<(Seq<char>, Seq<char>)>) -> (
    Seq<Seq<char>>,
    Seq<Seq<char>>,
)
    decreases pairs.len(),
{
    if pairs.len() == 0 {
        (Seq::empty(), Seq::empty())
    } else {
        let prev = spec_scene_entries(pairs.drop_last());
        let pair = pairs.last();
        let i = key_index(prev.0, pair.0);
        if i == -1 {
            (prev.0.push(pair.0), prev.1.push(pair.1))
        } else {
            (prev.0, prev.1.update(i, pair.1))
        }
    }
}

/// The scene blocks of `text`: everything after each scene marker, the
/// leading text before the first marker discarded.
pub open spec fn spec_scene_blocks(text: Seq<char>) -> Seq<Seq<char>> {
    split_seq(text, scene_marker()).drop_first()
}

/// The ordered scenes of a narrative, plus a name-keyed description
/// mapping over the same scenes.
#[derive(Debug)]
pub struct Scenes {
    pub scene_descriptions: Dict,
    pub scenes: Vec<Scene>,
}

impl Scenes {
    /// What every construction path guarantees.
    pub open spec fn wf(&self) -> bool {
        self.scene_descriptions.wf()
    }

    /// No scenes yet.
    pub fn new() -> (r: Self)
        ensures
            r.wf(),
            r.scenes@.len() == 0,
            r.scene_descriptions.keys_view() == Seq::<Seq<char>>::empty(),
            r.scene_descriptions.vals_view() == Seq::<Seq<char>>::empty(),
    {
        Scenes { scene_descriptions: Dict::new(), scenes: Vec::new() }
    }

    /// Split `text` on the scene marker and parse each block after the
    /// first; tolerant, blocks that do not parse are skipped.
    pub fn from_string(text: &str) -> (r: Self)
        ensures
            r.wf(),
            ({
                let pairs = spec_scene_pairs(spec_scene_blocks(text@));
                &&& r.scenes@.len() == pairs.len()
                &&& forall|i: int|
                    0 <= i < pairs.len() ==> r.scenes@[i].name@ == pairs[i].0
                        && r.scenes@[i].description@ == pairs[i].1 && r.scenes@[i].place@.len()
                        == 0 && r.scenes@[i].beat@.len() == 0 && r.scenes@[i].plot_element@.len()
                        == 0
                &&& (r.scene_descriptions.keys_view(), r.scene_descriptions.vals_view())
                    == spec_scene_entries(pairs)
            }),
    {
        proof {
            reveal_strlit("**Scene:**");
        }
        let blocks = split_str(text, "**Scene:**");
        let ghost all_blocks = blocks.deep_view();
        let ghost body_blocks = spec_scene_blocks(text@);
        let n = blocks.len();
        proof {
            assert(body_blocks =~= all_blocks.drop_first());
        }
        let mut scenes: Vec<Scene> = Vec::new();
        let mut scene_descriptions = Dict::new();
        let mut i: usize = 1;
        proof {
            assert(body_blocks.take(0) =~= Seq::<Seq<char>>::empty());
            assert(spec_scene_pairs(body_blocks.take(0)) =~= Seq::<(Seq<char>, Seq<char>)>::empty());
        }
        while i < n
            invariant
                all_blocks == blocks.deep_view(),
                body_blocks == all_blocks.drop_first(),
                n == all_blocks.len(),
                n == blocks@.len(),
                n >= 1,
                1 <= i <= n,
                scene_descriptions.wf(),
                ({
                    let pairs = spec_scene_pairs(body_blocks.take(i - 1));
                    &&& scenes@.len() == pairs.len()
                    &&& forall|k: int|
                        0 <= k < pairs.len() ==> scenes@[k].name@ == pairs[k].0
                            && scenes@[k].description@ == pairs[k].1 && scenes@[k].place@.len()
                            == 0 && scenes@[k].beat@.len() == 0
                            && scenes@[k].plot_element@.len() == 0
                    &&& (scene_descriptions.keys_view(), scene_descriptions.vals_view())
                        == spec_scene_entries(pairs)
                }),
            decreases n - i,
        {
            proof {
                assert(all_blocks[i as int] == blocks@[i as int]@);
                assert(body_blocks[i - 1] == all_blocks[i as int]);
                assert(body_blocks.take(i as int).drop_last() =~= body_blocks.take(i - 1));
                assert(body_blocks.take(i as int).last() == body_blocks[i - 1]);
            }
            let ghost old_pairs = spec_scene_pairs(body_blocks.take(i - 1));
            match Scene::from_string(blocks[i].as_str()) {
                Some(scene) => {
                    proof {
                        assert(spec_scene_pairs(body_blocks.take(i as int)) =~= old_pairs.push(
                            (scene.name@, scene.description@),
                        ));
                        assert(spec_scene_pairs(body_blocks.take(i as int)).drop_last()
                            =~= old_pairs);
                    }
                    let name_copy = scene.name.clone();
                    let description_copy = scene.description.clone();
                    scenes.push(scene);
                    scene_descriptions.insert(name_copy, description_copy);
                },
                None => {
                    proof {
                        assert(spec_scene_pairs(body_blocks.take(i as int)) == old_pairs);
                    }
                },
            }
            i += 1;
        }
        proof {
            if n >= 1 {
                assert(body_blocks.take(n - 1) =~= body_blocks);
            }
        }
        Scenes { scene_descriptions, scenes }
    }

    /// The canonical display text: one block per scene, each closed by a
    /// newline.
    pub fn display(&self) -> (r: String)
        ensures
            r@ == spec_scenes_display(self.scenes@),
    {
        let ghost sv = self.scenes@;
        let n = self.scenes.len();
        let mut out = String::new();
        let mut i: usize = 0;
        proof {
            assert(sv.take(0) =~= Seq::<Scene>::empty());
            assert(out@ =~= spec_scenes_display(sv.take(0)));
        }
        while i < n
            invariant
                sv == self.scenes@,
                n == sv.len(),
                i <= n,
                out@ == spec_scenes_display(sv.take(i as int)),
            decreases n - i,
        {
            out.append("**Scene:** ");
            out.append(self.scenes[i].name.as_str());
            out.append("\n**Description:** ");
            out.append(self.scenes[i].description.as_str());
            out.append("\n");
            proof {
                assert(sv.take(i + 1).drop_last() =~= sv.take(i as int));
                assert(sv.take(i + 1).last() == sv[i as int]);
            }
            i += 1;
        }
        proof {
            assert(sv.take(n as int) =~= sv);
        }
        out
    }
}

impl Clone for Scenes {
    /// An entry-for-entry copy.
    fn clone(&self) -> (r: Self)
        ensures
            r.scene_descriptions.keys_view() == self.scene_descriptions.keys_view(),
            r.scene_descriptions.vals_view() == self.scene_descriptions.vals_view(),
            r.scenes@ == self.scenes@,
            self.wf() ==> r.wf(),
    {
        let mut scenes: Vec<Scene> = Vec::new();
        let n = self.scenes.len();
        let mut i: usize = 0;
        while i < n
            invariant
                n == self.scenes@.len(),
                i <= n,
                scenes@ =~= self.scenes@.take(i as int),
            decreases n - i,
        {
            scenes.push(self.scenes[i].clone());
            proof {
                assert(scenes@ =~= self.scenes@.take(i + 1));
            }
            i += 1;
        }
        proof {
            assert(scenes@ =~= self.scenes@);
        }
        Scenes { scene_descriptions: self.scene_descriptions.clone(), scenes }
    }
}

/// `s` is exactly what parsing the scene blocks of `raw` builds.
pub open spec fn scenes_match_text(s: Scenes, raw: Seq<char>) -> bool {
    let pairs = spec_scene_pairs(spec_scene_blocks(raw));
    &&& s.wf()
    &&& s.scenes@.len() == pairs.len()
    &&& forall|i: int|
        0 <= i < pairs.len() ==> s.scenes@[i].name@ == pairs[i].0 && s.scenes@[i].description@
            == pairs[i].1 && s.scenes@[i].place@.len() == 0 && s.scenes@[i].beat@.len() == 0
            && s.scenes@[i].plot_element@.len() == 0
    &&& (s.scene_descriptions.keys_view(), s.scene_descriptions.vals_view())
        == spec_scene_entries(pairs)
}

/// The display text of the given scenes.
pub open spec fn spec_scenes_display(scenes: Seq<Scene>) -> Seq<char>
    decreases scenes.len(),
{
    if scenes.len() == 0 {
        Seq::empty()
    } else {
        spec_scenes_display(scenes.drop_last()) + "**Scene:** "@ + scenes.last().name@
            + "\n**Description:** "@ + scenes.last().description@ + "\n"@
    }
}

} // verus!
