//! The place entities: a named location with a description and integer
//! coordinates, parsed from "first line is the name, the rest is the
//! description" text; and a name-keyed, insertion-ordered collection.

use vstd::prelude::*;

use crate::dict::{key_index, lemma_key_index, lemma_key_index_absent};
use crate::strings::{
    dec_seq_signed, find_in, first_occurrence, lemma_first_occurrence, push_decimal_signed,
    str_eq, trim_seq, trim_str,
};

verus! {

/// The name parsed from place text: the first line of the trimmed text.
pub open spec fn spec_place_name(text: Seq<char>) -> Seq<char> {
    let t = trim_seq(text);
    let i = first_occurrence(t, "\n"@);
    if i == -1 {
        t
    } else {
        t.subrange(0, i)
    }
}

/// The description parsed from place text: everything after the first
/// line, or a fixed placeholder when there is only one line.
pub open spec fn spec_place_description(text: Seq<char>) -> Seq<char> {
    let t = trim_seq(text);
    let i = first_occurrence(t, "\n"@);
    if i == -1 {
        "No description"@
    } else {
        t.skip(i + 1)
    }
}

/// One place: a name, a description, and latitude/longitude coordinates.
#[derive(Debug)]
pub struct Place {
    pub name: String,
    pub description: String,
    pub coordinates: (i64, i64),
}

impl Place {
    /// A place holding exactly the given fields.
    pub fn new(name: String, description: String, coordinates: (i64, i64)) -> (r: Self)
        ensures
            r.name == name,
            r.description == description,
            r.coordinates == coordinates,
    {
        Place { name, description, coordinates }
    }

    /// The place's name.
    pub fn get_name(&self) -> (r: &String)
        ensures
            r == &self.name,
    {
        &self.name
    }

    /// The place's description.
    pub fn get_description(&self) -> (r: &String)
        ensures
            r == &self.description,
    {
        &self.description
    }

    /// The place's coordinates.
    pub fn get_coordinates(&self) -> (r: (i64, i64))
        ensures
            r == self.coordinates,
    {
        (self.coordinates.0, self.coordinates.1)
    }

    /// Parse place text: the trimmed text's first line is the name, the
    /// remainder the description; coordinates default to the origin.
    pub fn from_string(text: &str, _prefix: &str) -> (r: Self)
        ensures
            r.name@ == spec_place_name(text@),
            r.description@ == spec_place_description(text@),
            r.coordinates == (0i64, 0i64),
    {
        proof {
            reveal_strlit("\n");
        }
        let t = trim_str(text);
        let t_len = t.as_str().unicode_len();
        match find_in(t.as_str(), "\n") {
            Some(i) => {
                let name = String::from_str(t.as_str().substring_char(0, i));
                let description = String::from_str(t.as_str().substring_char(i + 1, t_len));
                proof {
                    assert(description@ =~= trim_seq(text@).skip(i + 1));
                }
                Place { name, description, coordinates: (0, 0) }
            },
            None => {
                proof {
                    lemma_first_occurrence(t@, "\n"@);
                }
                Place {
                    name: t,
                    description: String::from_str("No description"),
                    coordinates: (0, 0),
                }
            },
        }
    }

    /// The canonical display text, coordinates included.
    pub fn display(&self) -> (r: String)
        ensures
            r@ == "Place: "@ + self.name@ + "\nDescription: "@ + self.description@
                + "\nCoordinates: ("@ + dec_seq_signed(self.coordinates.0 as int) + ", "@
                + dec_seq_signed(self.coordinates.1 as int) + ")"@,
    {
        let mut out = String::from_str("Place: ");
        out.append(self.name.as_str());
        out.append("\nDescription: ");
        out.append(self.description.as_str());
        out.append("\nCoordinates: (");
        push_decimal_signed(&mut out, self.coordinates.0);
        out.append(", ");
        push_decimal_signed(&mut out, self.coordinates.1);
        out.append(")");
        out
    }
}

impl Clone for Place {
    /// A field-for-field copy.
    fn clone(&self) -> (r: Self)
        ensures
            r == *self,
    {
        Place {
            name: self.name.clone(),
            description: self.description.clone(),
            coordinates: (self.coordinates.0, self.coordinates.1),
        }
    }
}

/// The names of the given places, in order.
pub open spec fn place_names(places: Seq<Place>) -> Seq<Seq<char>> {
    places.map_values(|p: Place| p.name@)
}

/// A name-keyed collection of places in insertion order. Adding a place
/// under an existing name is a no-op; names stay unique.
#[derive(Debug)]
pub struct Places {
    pub places: Vec<Place>,
}

impl Places {
    /// The collection's invariant: place names are unique.
    pub open spec fn wf(&self) -> bool {
        forall|i: int, j: int|
            0 <= i < j < self.places@.len() ==> self.places@[i].name@ != self.places@[j].name@
    }

    /// Whether `name` names a place here.
    pub open spec fn spec_contains(&self, name: Seq<char>) -> bool {
        key_index(place_names(self.places@), name) >= 0
    }

    /// No places yet.
    pub fn new() -> (r: Self)
        ensures
            r.wf(),
            r.places@.len() == 0,
    {
        Places { places: Vec::new() }
    }

    /// How many places the collection holds.
    pub fn len(&self) -> (r: usize)
        ensures
            r == self.places@.len(),
    {
        self.places.len()
    }

    /// Index of the place named `name`, scanning in insertion order.
    fn index_of(&self, name: &str) -> (r: Option<usize>)
        ensures
            r matches Some(i) ==> i as int == key_index(place_names(self.places@), name@),
            r is None ==> key_index(place_names(self.places@), name@) == -1,
    {
        let ghost names = place_names(self.places@);
        let n = self.places.len();
        let mut i: usize = 0;
        while i < n
            invariant
                names == place_names(self.places@),
                n == names.len(),
                n == self.places@.len(),
                i <= n,
                forall|j: int| 0 <= j < i ==> names[j] != name@,
            decreases n - i,
        {
            if str_eq(self.places[i].name.as_str(), name) {
                proof {
                    assert(names[i as int] == self.places@[i as int].name@);
                    lemma_key_index(names, name@);
                    let r = key_index(names, name@);
                    if r == -1 || r < i as int || r > i as int {
                        assert(false);
                    }
                }
                return Some(i);
            }
            proof {
                assert(names[i as int] == self.places@[i as int].name@);
            }
            i += 1;
        }
        proof {
            lemma_key_index_absent(names, name@);
        }
        None
    }

    /// Add `place` unless its name is already taken; a duplicate name is
    /// a no-op.
    pub fn add_place(&mut self, place: Place)
        requires
            old(self).wf(),
        ensures
            final(self).wf(),
            old(self).spec_contains(place.name@) ==> final(self).places@ == old(self).places@,
            !old(self).spec_contains(place.name@) ==> final(self).places@ == old(
                self,
            ).places@.push(place),
    {
        proof {
            lemma_key_index(place_names(self.places@), place.name@);
        }
        match self.index_of(place.name.as_str()) {
            Some(_) => {},
            None => {
                let ghost old_places = self.places@;
                self.places.push(place);
                proof {
                    assert forall|a: int, b: int|
                        0 <= a < b < self.places@.len() implies self.places@[a].name@
                        != self.places@[b].name@ by {
                        if b == self.places@.len() - 1 {
                            assert(place_names(old_places)[a] == old_places[a].name@);
                            assert(place_names(old_places)[a] != place.name@);
                        }
                    }
                }
            },
        }
    }

    /// Store `place` under its name: an existing entry of that name is
    /// replaced in position, else the place is appended.
    pub fn set_place(&mut self, place: Place)
        requires
            old(self).wf(),
        ensures
            final(self).wf(),
            ({
                let i = key_index(place_names(old(self).places@), place.name@);
                if i == -1 {
                    final(self).places@ == old(self).places@.push(place)
                } else {
                    final(self).places@ == old(self).places@.update(i, place)
                }
            }),
    {
        proof {
            lemma_key_index(place_names(self.places@), place.name@);
        }
        match self.index_of(place.name.as_str()) {
            Some(i) => {
                let ghost old_places = self.places@;
                let ghost pname = place.name@;
                proof {
                    assert(place_names(old_places)[i as int] == old_places[i as int].name@);
                }
                self.places[i] = place;
                proof {
                    assert forall|a: int, b: int|
                        0 <= a < b < self.places@.len() implies self.places@[a].name@
                        != self.places@[b].name@ by {
                        assert(self.places@[a].name@ == old_places[a].name@);
                        assert(self.places@[b].name@ == old_places[b].name@);
                    }
                }
            },
            None => {
                let ghost old_places = self.places@;
                self.places.push(place);
                proof {
                    assert forall|a: int, b: int|
                        0 <= a < b < self.places@.len() implies self.places@[a].name@
                        != self.places@[b].name@ by {
                        if b == self.places@.len() - 1 {
                            assert(place_names(old_places)[a] == old_places[a].name@);
                            assert(place_names(old_places)[a] != place.name@);
                        }
                    }
                }
            },
        }
    }

    /// Remove every place named `name`.
    pub fn remove_place(&mut self, name: &str)
        requires
            old(self).wf(),
        ensures
            final(self).wf(),
            final(self).places@ == spec_retain_others(old(self).places@, name@),
    {
        let ghost pv = self.places@;
        let n = self.places.len();
        let mut kept: Vec<Place> = Vec::new();
        let mut i: usize = 0;
        proof {
            assert(pv.take(0) =~= Seq::<Place>::empty());
        }
        while i < n
            invariant
                pv == self.places@,
                n == pv.len(),
                i <= n,
                kept@ == spec_retain_others(pv.take(i as int), name@),
                forall|a: int, b: int|
                    0 <= a < b < kept@.len() ==> kept@[a].name@ != kept@[b].name@,
                forall|a: int|
                    #![trigger kept@[a]]
                    0 <= a < kept@.len() ==> exists|b: int|
                        #![trigger pv[b]]
                        0 <= b < i && kept@[a] == pv[b],
                forall|a: int, b: int| 0 <= a < b < pv.len() ==> pv[a].name@ != pv[b].name@,
            decreases n - i,
        {
            proof {
                assert(pv.take(i + 1).drop_last() =~= pv.take(i as int));
                assert(pv.take(i + 1).last() == pv[i as int]);
            }
            if !str_eq(self.places[i].name.as_str(), name) {
                let ghost old_kept = kept@;
                kept.push(self.places[i].clone());
                proof {
                    assert(kept@[kept@.len() - 1].name@ == pv[i as int].name@);
                    assert forall|a: int, b: int|
                        0 <= a < b < kept@.len() implies kept@[a].name@ != kept@[b].name@ by {
                        if b == kept@.len() - 1 {
                            let w = choose|w: int| 0 <= w < i && old_kept[a] == pv[w];
                            assert(pv[w].name@ != pv[i as int].name@);
                        }
                    }
                    assert forall|a: int| #![trigger kept@[a]] 0 <= a < kept@.len() implies exists|
                        b: int,
                    |
                        #![trigger pv[b]]
                        0 <= b < i + 1 && kept@[a] == pv[b] by {
                        if a < old_kept.len() {
                            let w = choose|w: int| 0 <= w < i && #[trigger] pv[w] == old_kept[a];
                            assert(0 <= w < i + 1 && kept@[a] == pv[w]);
                        } else {
                            assert(0 <= i < i + 1 && kept@[a] == pv[i as int]);
                        }
                    }
                }
            }
            i += 1;
        }
        proof {
            assert(pv.take(n as int) =~= pv);
        }
        self.places = kept;
    }

    /// The place named `name`, when there is one.
    pub fn get_place(&self, name: &str) -> (r: Option<&Place>)
        ensures
            ({
                let i = key_index(place_names(self.places@), name@);
                &&& r matches Some(p) ==> i >= 0 && *p == self.places@[i]
                &&& r is None ==> i == -1
            }),
    {
        proof {
            lemma_key_index(place_names(self.places@), name@);
        }
        match self.index_of(name) {
            Some(i) => Some(&self.places[i]),
            None => None,
        }
    }

    /// All places, in insertion order.
    pub fn get_places(&self) -> (r: &Vec<Place>)
        ensures
            r == &self.places,
    {
        &self.places
    }

    /// Whether `name` names a place here.
    pub fn contains_name(&self, name: &str) -> (r: bool)
        ensures
            r == self.spec_contains(name@),
    {
        proof {
            lemma_key_index(place_names(self.places@), name@);
        }
        match self.index_of(name) {
            Some(_) => true,
            None => false,
        }
    }
}

impl Clone for Places {
    /// An entry-for-entry copy.
    fn clone(&self) -> (r: Self)
        ensures
            r.places@ == self.places@,
            self.wf() ==> r.wf(),
    {
        let mut places: Vec<Place> = Vec::new();
        let n = self.places.len();
        let mut i: usize = 0;
        while i < n
            invariant
                n == self.places@.len(),
                i <= n,
                places@ =~= self.places@.take(i as int),
            decreases n - i,
        {
            places.push(self.places[i].clone());
            proof {
                assert(places@ =~= self.places@.take(i + 1));
            }
            i += 1;
        }
        proof {
            assert(places@ =~= self.places@);
        }
        Places { places }
    }
}

/// The places whose name differs from `name`, in order.
pub open spec fn spec_retain_others(places: Seq<Place>, name: Seq<char>) -> Seq<Place>
    decreases places.len(),
{
    if places.len() == 0 {
        Seq::empty()
    } else {
        let prev = spec_retain_others(places.drop_last(), name);
        if places.last().name@ != name {
            prev.push(places.last())
        } else {
            prev
        }
    }
}

} // verus!
