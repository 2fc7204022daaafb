//! Marker-delimited extraction: the shared primitive behind every entity
//! parser. Scanning is tolerant — text that never matches simply yields
//! fewer (or no) elements, never an error.

use vstd::prelude::*;

use crate::strings::{
    ends_with_seq, ends_with_str, find_from, first_occurrence_from, lemma_first_occurrence_from,
    trim_seq, trim_str,
};

verus! {

/// The universal end sentinel that closes a generated text block.
pub open spec fn end_marker() -> Seq<char> {
    "**END**"@
}

/// The elements that a left-to-right scan of `s` from index `start` yields:
/// each substring strictly between an occurrence of `b` and the next
/// occurrence of `e` after it, trimmed; the scan resumes past that `e`.
pub open spec fn spec_extract_from(s: Seq<char>, b: Seq<char>, e: Seq<char>, start: int) -> Seq<
    Seq<char>,
>
    decreases s.len() - start,
        when e.len() >= 1 && 0 <= start
{
    let i = first_occurrence_from(s, b, start);
    if i == -1 {
        Seq::empty()
    } else {
        let j = first_occurrence_from(s, e, i + b.len());
        if j == -1 {
            Seq::empty()
        } else {
            proof {
                lemma_first_occurrence_from(s, b, start);
                lemma_first_occurrence_from(s, e, i + b.len());
            }
            seq![trim_seq(s.subrange(i + b.len(), j))] + spec_extract_from(s, b, e, j + e.len())
        }
    }
}

/// The elements that a whole-string scan yields.
pub open spec fn spec_extract(s: Seq<char>, b: Seq<char>, e: Seq<char>) -> Seq<Seq<char>> {
    spec_extract_from(s, b, e, 0)
}

/// What is knowable of the end sentinel's characters.
pub proof fn lemma_end_marker()
    ensures
        end_marker().len() == 7,
        end_marker()[0] == '*',
        end_marker() == "**END**"@,
{
    reveal_strlit("**END**");
}

/// Every substring of `text` lying strictly between an occurrence of
/// `begin` and the next occurrence of `end` after it, trimmed, scanning
/// left to right without overlap.
pub fn extract_elements(text: &str, begin: &str, end: &str) -> (r: Vec<String>)
    requires
        end@.len() >= 1,
    ensures
        r.deep_view() == spec_extract(text@, begin@, end@),
{
    let text_len = text.unicode_len();
    let begin_len = begin.unicode_len();
    let end_len = end.unicode_len();
    let mut results: Vec<String> = Vec::new();
    let mut start: usize = 0;
    proof {
        assert(results.deep_view() =~= Seq::<Seq<char>>::empty());
        assert(results.deep_view() + spec_extract_from(text@, begin@, end@, 0) =~= spec_extract(
            text@,
            begin@,
            end@,
        ));
    }
    loop
        invariant
            text_len == text@.len(),
            begin_len == begin@.len(),
            end_len == end@.len(),
            end_len >= 1,
            start <= text_len,
            spec_extract(text@, begin@, end@) =~= results.deep_view() + spec_extract_from(
                text@,
                begin@,
                end@,
                start as int,
            ),
        decreases text_len - start,
    {
        match find_from(text, begin, start) {
            None => {
                proof {
                    assert(spec_extract_from(text@, begin@, end@, start as int)
                        =~= Seq::<Seq<char>>::empty());
                    assert(results.deep_view() + Seq::<Seq<char>>::empty() =~= results.deep_view());
                }
                return results;
            },
            Some(i) => {
                match find_from(text, end, i + begin_len) {
                    None => {
                        proof {
                            assert(spec_extract_from(text@, begin@, end@, start as int)
                                =~= Seq::<Seq<char>>::empty());
                            assert(results.deep_view() + Seq::<Seq<char>>::empty()
                                =~= results.deep_view());
                        }
                        return results;
                    },
                    Some(j) => {
                        let raw = text.substring_char(i + begin_len, j);
                        let element = trim_str(raw);
                        proof {
                            assert(raw@ == text@.subrange(i + begin_len as int, j as int));
                            assert(spec_extract_from(text@, begin@, end@, start as int)
                                =~= seq![element@] + spec_extract_from(
                                text@,
                                begin@,
                                end@,
                                j + end_len as int,
                            ));
                        }
                        let ghost old_results = results.deep_view();
                        results.push(element);
                        proof {
                            assert(results.deep_view() =~= old_results.push(element@));
                            assert(old_results.push(element@) + spec_extract_from(
                                text@,
                                begin@,
                                end@,
                                j + end_len as int,
                            ) =~= old_results + (seq![element@] + spec_extract_from(
                                text@,
                                begin@,
                                end@,
                                j + end_len as int,
                            )));
                        }
                        start = j + end_len;
                    },
                }
            },
        }
    }
}

/// `text` trimmed, with one trailing end sentinel removed (and the result
/// trimmed again) when one is present.
pub open spec fn spec_strip_end(s: Seq<char>) -> Seq<char> {
    let t = trim_seq(s);
    if ends_with_seq(t, end_marker()) {
        trim_seq(t.subrange(0, t.len() - end_marker().len()))
    } else {
        t
    }
}

/// Remove a trailing end sentinel from `text`, trimming whitespace.
pub fn strip_remove_end(text: &str) -> (r: String)
    ensures
        r@ == spec_strip_end(text@),
{
    proof {
        lemma_end_marker();
    }
    let t = trim_str(text);
    if ends_with_str(t.as_str(), "**END**") {
        let t_len = t.as_str().unicode_len();
        let inner = t.as_str().substring_char(0, t_len - 7);
        trim_str(inner)
    } else {
        t
    }
}

/// The elements that one extraction pass found, as an owned record.
pub struct ExtractedElements {
    pub elements: Vec<String>,
}

impl ExtractedElements {
    /// Extract every element of `text` between `begin` and `end` markers.
    pub fn from_string(text: &str, begin: &str, end: &str) -> (r: Self)
        requires
            end@.len() >= 1,
        ensures
            r.elements.deep_view() == spec_extract(text@, begin@, end@),
    {
        let elements = extract_elements(text, begin, end);
        ExtractedElements { elements }
    }
}

} // verus!
