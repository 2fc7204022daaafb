//! The title entity: one string, parsed from text between a `"Title: "`
//! marker and the end sentinel, and rendered back to that same form.

use vstd::prelude::*;

use crate::extract::{end_marker, extract_elements, spec_extract};
use crate::strings::{occurs_at, trim_seq};

verus! {

/// The marker that opens a title in generated text.
pub open spec fn title_marker() -> Seq<char> {
    "Title: "@
}

/// The first element between a title marker and an end sentinel, or the
/// empty string when there is none.
pub open spec fn spec_title_parse(text: Seq<char>) -> Seq<char> {
    let elems = spec_extract(text, title_marker(), end_marker());
    if elems.len() > 0 {
        elems[0]
    } else {
        Seq::empty()
    }
}

/// The canonical display text of a title.
pub open spec fn spec_title_display(title: Seq<char>) -> Seq<char> {
    title_marker() + title + end_marker()
}

/// A narrative's title.
#[derive(Debug)]
pub struct Title {
    pub title: String,
}

impl Title {
    /// A title holding exactly the given string.
    pub fn new(title: String) -> (r: Self)
        ensures
            r.title == title,
    {
        Title { title }
    }

    /// Parse the first marker-delimited title out of `text`; tolerant,
    /// an unmatched text gives the empty title.
    pub fn from_string(text: &str) -> (r: Self)
        ensures
            r.title@ == spec_title_parse(text@),
    {
        proof {
            reveal_strlit("**END**");
        }
        let titles = extract_elements(text, "Title: ", "**END**");
        if titles.len() > 0 {
            let t = titles[0].clone();
            proof {
                assert(titles.deep_view()[0] == titles@[0]@);
            }
            Title { title: t }
        } else {
            Title { title: String::new() }
        }
    }

    /// The canonical display text: `"Title: <title>**END**"`.
    pub fn display(&self) -> (r: String)
        ensures
            r@ == spec_title_display(self.title@),
    {
        let mut out = String::from_str("Title: ");
        out.append(self.title.as_str());
        out.append("**END**");
        out
    }
}

impl Clone for Title {
    /// A field-for-field copy.
    fn clone(&self) -> (r: Self)
        ensures
            r == *self,
    {
        Title { title: self.title.clone() }
    }
}

/// A list of titles, as one extraction pass yields them.
#[derive(Debug)]
pub struct Titles {
    pub titles: Vec<Title>,
}

impl Titles {
    /// Parse every marker-delimited title out of `text`, in order.
    pub fn from_string(text: &str) -> (r: Self)
        ensures
            ({
                let elems = spec_extract(text@, title_marker(), end_marker());
                &&& r.titles@.len() == elems.len()
                &&& forall|i: int| 0 <= i < elems.len() ==> r.titles@[i].title@ == elems[i]
            }),
    {
        proof {
            reveal_strlit("**END**");
        }
        let elements = extract_elements(text, "Title: ", "**END**");
        let ghost elems = elements.deep_view();
        let n = elements.len();
        let mut titles: Vec<Title> = Vec::new();
        let mut i: usize = 0;
        while i < n
            invariant
                elems == elements.deep_view(),
                n == elems.len(),
                n == elements@.len(),
                i <= n,
                titles@.len() == i,
                forall|k: int| 0 <= k < i ==> titles@[k].title@ == elems[k],
            decreases n - i,
        {
            proof {
                assert(elems[i as int] == elements@[i as int]@);
            }
            titles.push(Title { title: elements[i].clone() });
            i += 1;
        }
        Titles { titles }
    }
}

/// Law: parsing a title's canonical display text reproduces the title.
/// This holds for every title that is already trimmed and whose display
/// text does not form a premature end sentinel: the sentinel appended by
/// the display form must be the first one its text contains.
pub proof fn lemma_title_round_trip(t: Seq<char>)
    requires
        trim_seq(t) == t,
        forall|i: int| 0 <= i < t.len() ==> !occurs_at(t + end_marker(), end_marker(), i),
    ensures
        spec_title_parse(spec_title_display(t)) == t,
{
    reveal_strlit("Title: ");
    reveal_strlit("**END**");
    let b = title_marker();
    let e = end_marker();
    let s = spec_title_display(t);
    assert(b.len() == 7);
    assert(e.len() == 7);
    // the begin marker occurs first at index 0
    assert(s.subrange(0, 7) =~= b);
    assert(occurs_at(s, b, 0));
    crate::strings::lemma_first_occurrence_from_is(s, b, 0, 0);
    // the end sentinel occurs first (at or after 7) at index 7 + |t|
    assert(s.subrange(7 + t.len() as int, s.len() as int) =~= e);
    assert(occurs_at(s, e, 7 + t.len() as int));
    assert forall|p: int| 7 <= p < 7 + t.len() as int implies !occurs_at(s, e, p) by {
        if occurs_at(s, e, p) {
            assert(s.subrange(p, p + 7) =~= (t + e).subrange(p - 7, p));
            assert(occurs_at(t + e, e, p - 7));
        }
    }
    crate::strings::lemma_first_occurrence_from_is(s, e, 7, 7 + t.len() as int);
    // so exactly the title is captured, and trimming keeps it intact
    assert(s.subrange(7, 7 + t.len() as int) =~= t);
    let elems = spec_extract(s, b, e);
    assert(elems[0] == trim_seq(t));
}

} // verus!
