//! Verified utilities over character sequences: substring search, splitting,
//! trimming, case-insensitive matching and decimal rendering. Every entity
//! parser and the generation engine build on these.

use vstd::prelude::*;

verus! {

/// The pattern `pat` occurs in `s` starting at index `i`.
pub open spec fn occurs_at(s: Seq<char>, pat: Seq<char>, i: int) -> bool {
    0 <= i && i + pat.len() <= s.len() && s.subrange(i, i + pat.len() as int) == pat
}

/// The pattern `pat` occurs somewhere in `s`.
pub open spec fn contains_seq(s: Seq<char>, pat: Seq<char>) -> bool {
    exists|i: int| occurs_at(s, pat, i)
}

/// Index of the first occurrence of `pat` in `s` at or after `from`,
/// or -1 when there is none.
pub open spec fn first_occurrence_from(s: Seq<char>, pat: Seq<char>, from: int) -> int
    decreases s.len() + 1 - from,
{
    if from < 0 || from + pat.len() > s.len() {
        -1
    } else if occurs_at(s, pat, from) {
        from
    } else {
        first_occurrence_from(s, pat, from + 1)
    }
}

/// Index of the first occurrence of `pat` in `s`, or -1 when there is none.
pub open spec fn first_occurrence(s: Seq<char>, pat: Seq<char>) -> int {
    first_occurrence_from(s, pat, 0)
}

pub proof fn lemma_first_occurrence_from(s: Seq<char>, pat: Seq<char>, from: int)
    requires
        0 <= from,
    ensures
        ({
            let r = first_occurrence_from(s, pat, from);
            &&& r == -1 || r >= from
            &&& r == -1 ==> forall|j: int| from <= j ==> !occurs_at(s, pat, j)
            &&& r >= 0 ==> from <= r && occurs_at(s, pat, r) && forall|j: int|
                from <= j < r ==> !occurs_at(s, pat, j)
        }),
    decreases s.len() + 1 - from,
{
    if from + pat.len() > s.len() {
        assert forall|j: int| from <= j implies !occurs_at(s, pat, j) by {
            assert(j + pat.len() > s.len());
        }
    } else if occurs_at(s, pat, from) {
    } else {
        lemma_first_occurrence_from(s, pat, from + 1);
    }
}

pub proof fn lemma_first_occurrence(s: Seq<char>, pat: Seq<char>)
    ensures
        ({
            let r = first_occurrence(s, pat);
            &&& r == -1 || r >= 0
            &&& r == -1 <==> !contains_seq(s, pat)
            &&& r >= 0 ==> occurs_at(s, pat, r) && forall|j: int| 0 <= j < r ==> !occurs_at(
                s,
                pat,
                j,
            )
        }),
{
    lemma_first_occurrence_from(s, pat, 0);
    let r = first_occurrence_from(s, pat, 0);
    if r == -1 {
        assert forall|i: int| !occurs_at(s, pat, i) by {
            if 0 <= i {
                assert(!occurs_at(s, pat, i));
            }
        }
        assert(!contains_seq(s, pat));
    } else {
        assert(occurs_at(s, pat, r));
        assert(contains_seq(s, pat));
    }
}

/// Whether `pat` occurs in `s` at exactly position `i`, checked executably.
fn match_at(s: &str, pat: &str, i: usize, s_len: usize, pat_len: usize) -> (r: bool)
    requires
        s_len == s@.len(),
        pat_len == pat@.len(),
        i + pat_len <= s_len,
    ensures
        r == occurs_at(s@, pat@, i as int),
{
    let mut k: usize = 0;
    while k < pat_len
        invariant
            s_len == s@.len(),
            pat_len == pat@.len(),
            i + pat_len <= s_len,
            0 <= k <= pat_len,
            forall|m: int| 0 <= m < k ==> s@[i + m] == pat@[m],
        decreases pat_len - k,
    {
        if s.get_char(i + k) != pat.get_char(k) {
            assert(s@.subrange(i as int, i + pat_len as int)[k as int] != pat@[k as int]);
            return false;
        }
        k += 1;
    }
    assert(s@.subrange(i as int, i + pat_len as int) =~= pat@);
    true
}

/// Find the first occurrence of `pat` in `s` at or after index `from`
/// (indices count characters).
pub fn find_from(s: &str, pat: &str, from: usize) -> (r: Option<usize>)
    ensures
        r matches Some(i) ==> i == first_occurrence_from(s@, pat@, from as int) && from <= i
            && occurs_at(s@, pat@, i as int) && i + pat@.len() <= usize::MAX && forall|j: int|
            from <= j < i ==> !occurs_at(s@, pat@, j),
        r is None ==> first_occurrence_from(s@, pat@, from as int) == -1 && forall|j: int|
            from <= j ==> !occurs_at(s@, pat@, j),
{
    let s_len = s.unicode_len();
    let pat_len = pat.unicode_len();
    proof {
        lemma_first_occurrence_from(s@, pat@, from as int);
    }
    if from > s_len || pat_len > s_len - from {
        proof {
            assert forall|j: int| from <= j implies !occurs_at(s@, pat@, j) by {
                assert(j + pat@.len() > s@.len());
            }
            let r = first_occurrence_from(s@, pat@, from as int);
            if r >= 0 {
                assert(!occurs_at(s@, pat@, r));
            }
        }
        return None;
    }
    let last = s_len - pat_len;
    let mut i: usize = from;
    while i <= last
        invariant
            s_len == s@.len(),
            pat_len == pat@.len(),
            last == s_len - pat_len,
            from <= i,
            i <= last + 1,
            forall|j: int| from <= j < i ==> !occurs_at(s@, pat@, j),
        decreases last + 1 - i,
    {
        if match_at(s, pat, i, s_len, pat_len) {
            proof {
                lemma_first_occurrence_from(s@, pat@, from as int);
                let r = first_occurrence_from(s@, pat@, from as int);
                assert(occurs_at(s@, pat@, i as int));
                if r == -1 {
                    // the lemma's forall contradicts the match at i
                    assert(false);
                } else if r < i as int {
                    // the loop invariant contradicts the occurrence at r
                    assert(false);
                } else if r > i as int {
                    // the lemma's forall below r contradicts the match at i
                    assert(false);
                }
            }
            return Some(i);
        }
        proof {
            if pat@.len() == 0 {
                assert(s@.subrange(i as int, i as int) =~= pat@);
            }
        }
        i += 1;
    }
    proof {
        lemma_first_occurrence_from(s@, pat@, from as int);
        assert forall|j: int| from <= j implies !occurs_at(s@, pat@, j) by {
            if j >= i {
                assert(j + pat@.len() > s@.len());
            }
        }
        let r = first_occurrence_from(s@, pat@, from as int);
        if r >= 0 {
            assert(!occurs_at(s@, pat@, r));
        }
    }
    None
}

/// Find the first occurrence of `pat` in `s`.
pub fn find_in(s: &str, pat: &str) -> (r: Option<usize>)
    ensures
        r matches Some(i) ==> i == first_occurrence(s@, pat@) && occurs_at(s@, pat@, i as int)
            && i + pat@.len() <= usize::MAX && forall|j: int|
            0 <= j < i ==> !occurs_at(s@, pat@, j),
        r is None ==> !contains_seq(s@, pat@),
{
    proof {
        lemma_first_occurrence(s@, pat@);
    }
    find_from(s, pat, 0)
}

/// Whether `pat` occurs anywhere in `s`.
pub fn contains_str(s: &str, pat: &str) -> (r: bool)
    ensures
        r == contains_seq(s@, pat@),
{
    proof {
        lemma_first_occurrence(s@, pat@);
    }
    match find_in(s, pat) {
        Some(_) => true,
        None => false,
    }
}

/// Whether two string slices hold the same characters.
pub fn str_eq(a: &str, b: &str) -> (r: bool)
    ensures
        r == (a@ == b@),
{
    let a_len = a.unicode_len();
    let b_len = b.unicode_len();
    if a_len != b_len {
        return false;
    }
    let r = match_at(a, b, 0, a_len, b_len);
    proof {
        assert(a@.subrange(0, b@.len() as int) =~= a@);
    }
    r
}

/// An occurrence known to be first pins down `first_occurrence`.
pub proof fn lemma_first_occurrence_is(s: Seq<char>, pat: Seq<char>, o: int)
    requires
        occurs_at(s, pat, o),
        forall|j: int| 0 <= j < o ==> !occurs_at(s, pat, j),
    ensures
        first_occurrence(s, pat) == o,
{
    lemma_first_occurrence(s, pat);
    let r = first_occurrence(s, pat);
    if r == -1 {
        assert(false);
    } else if r < o {
        assert(!occurs_at(s, pat, r));
        assert(false);
    } else if r > o {
        assert(!occurs_at(s, pat, o));
        assert(false);
    }
}

/// An occurrence known to be first at or after `from` pins down
/// `first_occurrence_from`.
pub proof fn lemma_first_occurrence_from_is(s: Seq<char>, pat: Seq<char>, from: int, o: int)
    requires
        0 <= from <= o,
        occurs_at(s, pat, o),
        forall|j: int| from <= j < o ==> !occurs_at(s, pat, j),
    ensures
        first_occurrence_from(s, pat, from) == o,
{
    lemma_first_occurrence_from(s, pat, from);
    let r = first_occurrence_from(s, pat, from);
    if r == -1 {
        assert(false);
    } else if r < o {
        assert(!occurs_at(s, pat, r));
        assert(false);
    } else if r > o {
        assert(!occurs_at(s, pat, o));
        assert(false);
    }
}

/// Occurrences in a suffix correspond to shifted occurrences in the whole.
pub proof fn lemma_occurs_in_suffix(s: Seq<char>, pat: Seq<char>, k: int, j: int)
    requires
        0 <= k <= s.len(),
        0 <= j,
    ensures
        occurs_at(s.skip(k), pat, j) <==> occurs_at(s, pat, k + j),
{
    if j + pat.len() <= s.len() - k {
        assert(s.skip(k).subrange(j, j + pat.len() as int) =~= s.subrange(
            k + j,
            k + j + pat.len() as int,
        ));
    }
}

/// `s` ends with `pat`.
pub open spec fn ends_with_seq(s: Seq<char>, pat: Seq<char>) -> bool {
    pat.len() <= s.len() && s.subrange(s.len() - pat.len(), s.len() as int) == pat
}

/// Whether `s` ends with `pat`, checked executably.
pub fn ends_with_str(s: &str, pat: &str) -> (r: bool)
    ensures
        r == ends_with_seq(s@, pat@),
{
    let s_len = s.unicode_len();
    let pat_len = pat.unicode_len();
    if pat_len > s_len {
        return false;
    }
    let r = match_at(s, pat, s_len - pat_len, s_len, pat_len);
    proof {
        assert(occurs_at(s@, pat@, s_len - pat_len) <==> ends_with_seq(s@, pat@));
    }
    r
}

// ----------------------------------------------------------------------
// Splitting on a separator
// ----------------------------------------------------------------------

/// `s` split on every occurrence of `sep`, scanning from the left.
/// The result always holds at least one piece; separators are not kept.
pub open spec fn split_seq(s: Seq<char>, sep: Seq<char>) -> Seq<Seq<char>>
    decreases s.len(),
        when sep.len() >= 1
{
    let i = first_occurrence(s, sep);
    if i == -1 {
        seq![s]
    } else {
        proof {
            lemma_first_occurrence(s, sep);
        }
        seq![s.subrange(0, i)] + split_seq(s.skip(i + sep.len()), sep)
    }
}

/// `s` split on every occurrence of `sep`, as owned strings.
pub fn split_str(s: &str, sep: &str) -> (r: Vec<String>)
    requires
        sep@.len() >= 1,
    ensures
        r.deep_view() == split_seq(s@, sep@),
{
    let s_len = s.unicode_len();
    let sep_len = sep.unicode_len();
    let mut parts: Vec<String> = Vec::new();
    let mut start: usize = 0;
    proof {
        assert(s@.skip(0) =~= s@);
        assert(parts.deep_view() =~= Seq::<Seq<char>>::empty());
        assert(parts.deep_view() + split_seq(s@, sep@) =~= split_seq(s@, sep@));
    }
    loop
        invariant
            s_len == s@.len(),
            sep_len == sep@.len(),
            sep_len >= 1,
            start <= s_len,
            split_seq(s@, sep@) =~= parts.deep_view() + split_seq(s@.skip(start as int), sep@),
        decreases s_len - start,
    {
        let ghost suffix = s@.skip(start as int);
        match find_from(s, sep, start) {
            Some(i) => {
                proof {
                    assert forall|j: int| 0 <= j < i - start implies !occurs_at(
                        suffix,
                        sep@,
                        j,
                    ) by {
                        lemma_occurs_in_suffix(s@, sep@, start as int, j);
                    }
                    lemma_occurs_in_suffix(s@, sep@, start as int, i - start);
                    lemma_first_occurrence_is(suffix, sep@, i - start);
                }
                let part = s.substring_char(start, i);
                let part_string = String::from_str(part);
                proof {
                    let rest = suffix.skip(i - start + sep@.len());
                    assert(suffix.subrange(0, i - start) =~= s@.subrange(start as int, i as int));
                    assert(rest =~= s@.skip(i + sep@.len()));
                    assert(split_seq(suffix, sep@) =~= seq![part_string@] + split_seq(rest, sep@));
                    assert(parts.deep_view().push(part_string@) =~= parts.deep_view() + seq![
                        part_string@,
                    ]);
                    assert((parts.deep_view() + seq![part_string@]) + split_seq(rest, sep@)
                        =~= parts.deep_view() + (seq![part_string@] + split_seq(rest, sep@)));
                }
                let ghost old_parts = parts.deep_view();
                parts.push(part_string);
                proof {
                    assert(parts.deep_view() =~= old_parts.push(part_string@));
                }
                start = i + sep_len;
            },
            None => {
                proof {
                    assert forall|j: int| 0 <= j implies !occurs_at(suffix, sep@, j) by {
                        lemma_occurs_in_suffix(s@, sep@, start as int, j);
                        assert(!occurs_at(s@, sep@, start + j));
                    }
                    lemma_first_occurrence(suffix, sep@);
                    let r = first_occurrence(suffix, sep@);
                    if r >= 0 {
                        assert(!occurs_at(suffix, sep@, r));
                    }
                    assert(split_seq(suffix, sep@) =~= seq![suffix]);
                }
                let part = s.substring_char(start, s_len);
                let part_string = String::from_str(part);
                let ghost old_parts = parts.deep_view();
                parts.push(part_string);
                proof {
                    assert(part_string@ =~= suffix);
                    assert(parts.deep_view() =~= old_parts.push(part_string@));
                    assert(parts.deep_view() + Seq::<Seq<char>>::empty() =~= parts.deep_view());
                    assert(split_seq(s@, sep@) =~= parts.deep_view());
                }
                return parts;
            },
        }
    }
}

/// How many entries of `s` equal `v`.
pub open spec fn count_eq_in(s: Seq<Seq<char>>, v: Seq<char>) -> nat
    decreases s.len(),
{
    if s.len() == 0 {
        0
    } else {
        count_eq_in(s.drop_last(), v) + (if s.last() == v {
            1nat
        } else {
            0nat
        })
    }
}

// ----------------------------------------------------------------------
// Trimming
// ----------------------------------------------------------------------

/// The whitespace characters that trimming removes.
pub open spec fn is_space_char(c: char) -> bool {
    c == ' ' || c == '\t' || c == '\n' || c == '\r'
}

/// `s` without leading whitespace.
pub open spec fn trim_start_seq(s: Seq<char>) -> Seq<char>
    decreases s.len(),
{
    if s.len() > 0 && is_space_char(s[0]) {
        trim_start_seq(s.drop_first())
    } else {
        s
    }
}

/// `s` without trailing whitespace.
pub open spec fn trim_end_seq(s: Seq<char>) -> Seq<char>
    decreases s.len(),
{
    if s.len() > 0 && is_space_char(s[s.len() - 1]) {
        trim_end_seq(s.drop_last())
    } else {
        s
    }
}

/// `s` without leading or trailing whitespace.
pub open spec fn trim_seq(s: Seq<char>) -> Seq<char> {
    trim_end_seq(trim_start_seq(s))
}

fn is_space(c: char) -> (r: bool)
    ensures
        r == is_space_char(c),
{
    c == ' ' || c == '\t' || c == '\n' || c == '\r'
}

/// `s` with leading and trailing whitespace removed.
pub fn trim_str(s: &str) -> (r: String)
    ensures
        r@ == trim_seq(s@),
{
    let s_len = s.unicode_len();
    let mut a: usize = 0;
    proof {
        assert(s@.skip(0) =~= s@);
    }
    while a < s_len && is_space(s.get_char(a))
        invariant
            s_len == s@.len(),
            a <= s_len,
            trim_start_seq(s@) == trim_start_seq(s@.skip(a as int)),
        decreases s_len - a,
    {
        proof {
            assert(s@.skip(a as int).drop_first() =~= s@.skip(a as int + 1));
        }
        a += 1;
    }
    proof {
        if a < s_len {
            assert(trim_start_seq(s@.skip(a as int)) == s@.skip(a as int));
        } else {
            assert(s@.skip(a as int) =~= Seq::<char>::empty());
        }
    }
    let mut b: usize = s_len;
    proof {
        assert(s@.skip(a as int) =~= s@.subrange(a as int, s_len as int));
    }
    while b > a && is_space(s.get_char(b - 1))
        invariant
            s_len == s@.len(),
            a <= b <= s_len,
            trim_start_seq(s@) == trim_start_seq(s@.skip(a as int)),
            trim_start_seq(s@.skip(a as int)) == s@.skip(a as int),
            trim_end_seq(s@.skip(a as int)) == trim_end_seq(s@.subrange(a as int, b as int)),
        decreases b,
    {
        proof {
            assert(s@.subrange(a as int, b as int).drop_last() =~= s@.subrange(
                a as int,
                b as int - 1,
            ));
        }
        b -= 1;
    }
    proof {
        assert(s@.skip(a as int) =~= s@.subrange(a as int, s_len as int));
        let piece = s@.subrange(a as int, b as int);
        if b > a {
            assert(trim_end_seq(piece) == piece);
        } else {
            assert(piece =~= Seq::<char>::empty());
        }
    }
    String::from_str(s.substring_char(a, b))
}

/// `s` with only trailing whitespace removed.
pub fn trim_end_str(s: &str) -> (r: String)
    ensures
        r@ == trim_end_seq(s@),
{
    let s_len = s.unicode_len();
    let mut b: usize = s_len;
    proof {
        assert(s@.subrange(0, s_len as int) =~= s@);
    }
    while b > 0 && is_space(s.get_char(b - 1))
        invariant
            s_len == s@.len(),
            b <= s_len,
            trim_end_seq(s@) == trim_end_seq(s@.subrange(0, b as int)),
        decreases b,
    {
        proof {
            assert(s@.subrange(0, b as int).drop_last() =~= s@.subrange(0, b as int - 1));
        }
        b -= 1;
    }
    proof {
        let piece = s@.subrange(0, b as int);
        if b > 0 {
            assert(trim_end_seq(piece) == piece);
        } else {
            assert(piece =~= Seq::<char>::empty());
        }
    }
    String::from_str(s.substring_char(0, b))
}

// ----------------------------------------------------------------------
// ASCII-case-insensitive matching
// ----------------------------------------------------------------------

/// The character's code point with ASCII upper case folded to lower case.
pub open spec fn fold_char(c: char) -> int {
    if 'A' <= c && c <= 'Z' {
        c as int + 32
    } else {
        c as int
    }
}

/// Two characters are equal up to ASCII case.
pub open spec fn eq_ci(a: char, b: char) -> bool {
    fold_char(a) == fold_char(b)
}

/// `pat` occurs in `s` at index `i`, up to ASCII case.
pub open spec fn occurs_ci_at(s: Seq<char>, pat: Seq<char>, i: int) -> bool {
    0 <= i && i + pat.len() <= s.len() && forall|k: int|
        0 <= k < pat.len() ==> eq_ci(s[i + k], pat[k])
}

/// `pat` occurs somewhere in `s`, up to ASCII case.
pub open spec fn contains_ci(s: Seq<char>, pat: Seq<char>) -> bool {
    exists|i: int| occurs_ci_at(s, pat, i)
}

fn eq_ci_char(a: char, b: char) -> (r: bool)
    ensures
        r == eq_ci(a, b),
{
    let av: u32 = if 'A' <= a && a <= 'Z' {
        a as u32 + 32
    } else {
        a as u32
    };
    let bv: u32 = if 'A' <= b && b <= 'Z' {
        b as u32 + 32
    } else {
        b as u32
    };
    av == bv
}

fn match_ci_at(s: &str, pat: &str, i: usize, s_len: usize, pat_len: usize) -> (r: bool)
    requires
        s_len == s@.len(),
        pat_len == pat@.len(),
        i + pat_len <= s_len,
    ensures
        r == occurs_ci_at(s@, pat@, i as int),
{
    let mut k: usize = 0;
    while k < pat_len
        invariant
            s_len == s@.len(),
            pat_len == pat@.len(),
            i + pat_len <= s_len,
            0 <= k <= pat_len,
            forall|m: int| 0 <= m < k ==> eq_ci(s@[i + m], pat@[m]),
        decreases pat_len - k,
    {
        if !eq_ci_char(s.get_char(i + k), pat.get_char(k)) {
            return false;
        }
        k += 1;
    }
    true
}

/// Whether `pat` occurs anywhere in `s`, comparing ASCII-case-insensitively.
pub fn contains_ci_str(s: &str, pat: &str) -> (r: bool)
    ensures
        r == contains_ci(s@, pat@),
{
    let s_len = s.unicode_len();
    let pat_len = pat.unicode_len();
    if pat_len > s_len {
        proof {
            if contains_ci(s@, pat@) {
                let i = choose|i: int| occurs_ci_at(s@, pat@, i);
                assert(i + pat@.len() > s@.len());
            }
        }
        return false;
    }
    let last = s_len - pat_len;
    let mut i: usize = 0;
    while i <= last
        invariant
            s_len == s@.len(),
            pat_len == pat@.len(),
            last == s_len - pat_len,
            i <= last + 1,
            forall|j: int| 0 <= j < i ==> !occurs_ci_at(s@, pat@, j),
        decreases last + 1 - i,
    {
        if match_ci_at(s, pat, i, s_len, pat_len) {
            proof {
                assert(occurs_ci_at(s@, pat@, i as int));
            }
            return true;
        }
        i += 1;
    }
    proof {
        if contains_ci(s@, pat@) {
            let j = choose|j: int| occurs_ci_at(s@, pat@, j);
            if j >= i {
                assert(j + pat@.len() > s@.len());
            }
        }
    }
    false
}

// ----------------------------------------------------------------------
// Decimal rendering
// ----------------------------------------------------------------------

/// The character for one decimal digit.
pub open spec fn dec_digit(d: int) -> char {
    if d == 0 {
        '0'
    } else if d == 1 {
        '1'
    } else if d == 2 {
        '2'
    } else if d == 3 {
        '3'
    } else if d == 4 {
        '4'
    } else if d == 5 {
        '5'
    } else if d == 6 {
        '6'
    } else if d == 7 {
        '7'
    } else if d == 8 {
        '8'
    } else {
        '9'
    }
}

/// The decimal rendering of a non-negative number.
pub open spec fn dec_seq(n: int) -> Seq<char>
    decreases n,
{
    if n < 10 {
        seq![dec_digit(n)]
    } else {
        dec_seq(n / 10).push(dec_digit(n % 10))
    }
}

/// The decimal rendering of a possibly negative number.
pub open spec fn dec_seq_signed(n: int) -> Seq<char> {
    if n < 0 {
        seq!['-'] + dec_seq(-n)
    } else {
        dec_seq(n)
    }
}

fn append_digit(out: &mut String, d: u64)
    requires
        d < 10,
    ensures
        final(out)@ == old(out)@ + seq![dec_digit(d as int)],
{
    proof {
        reveal_strlit("0");
        reveal_strlit("1");
        reveal_strlit("2");
        reveal_strlit("3");
        reveal_strlit("4");
        reveal_strlit("5");
        reveal_strlit("6");
        reveal_strlit("7");
        reveal_strlit("8");
        reveal_strlit("9");
    }
    if d == 0 {
        out.append("0");
        proof {
            assert("0"@ =~= seq![dec_digit(0)]);
        }
    } else if d == 1 {
        out.append("1");
        proof {
            assert("1"@ =~= seq![dec_digit(1)]);
        }
    } else if d == 2 {
        out.append("2");
        proof {
            assert("2"@ =~= seq![dec_digit(2)]);
        }
    } else if d == 3 {
        out.append("3");
        proof {
            assert("3"@ =~= seq![dec_digit(3)]);
        }
    } else if d == 4 {
        out.append("4");
        proof {
            assert("4"@ =~= seq![dec_digit(4)]);
        }
    } else if d == 5 {
        out.append("5");
        proof {
            assert("5"@ =~= seq![dec_digit(5)]);
        }
    } else if d == 6 {
        out.append("6");
        proof {
            assert("6"@ =~= seq![dec_digit(6)]);
        }
    } else if d == 7 {
        out.append("7");
        proof {
            assert("7"@ =~= seq![dec_digit(7)]);
        }
    } else if d == 8 {
        out.append("8");
        proof {
            assert("8"@ =~= seq![dec_digit(8)]);
        }
    } else {
        out.append("9");
        proof {
            assert("9"@ =~= seq![dec_digit(9)]);
        }
    }
}

/// Append the decimal rendering of `n` to `out`.
pub fn push_decimal(out: &mut String, n: u64)
    ensures
        final(out)@ == old(out)@ + dec_seq(n as int),
    decreases n,
{
    if n >= 10 {
        push_decimal(out, n / 10);
    }
    let ghost mid = out@;
    append_digit(out, n % 10);
    proof {
        if n >= 10 {
            assert(out@ =~= old(out)@ + dec_seq(n as int / 10).push(dec_digit(n as int % 10)));
            assert(dec_seq(n as int) == dec_seq(n as int / 10).push(dec_digit(n as int % 10)));
        } else {
            assert(out@ =~= old(out)@ + seq![dec_digit(n as int)]);
        }
    }
}

/// Append the decimal rendering of a signed number to `out`.
pub fn push_decimal_signed(out: &mut String, n: i64)
    ensures
        final(out)@ == old(out)@ + dec_seq_signed(n as int),
{
    if n < 0 {
        out.append("-");
        let m: u64 = ((-(n + 1)) as u64) + 1;
        let ghost mid = out@;
        push_decimal(out, m);
        proof {
            reveal_strlit("-");
            assert("-"@ =~= seq!['-']);
            assert(m as int == -(n as int));
            assert(out@ =~= old(out)@ + (seq!['-'] + dec_seq(-(n as int))));
        }
    } else {
        push_decimal(out, n as u64);
    }
}

/// The decimal rendering of a machine word, as an owned string.
pub fn usize_to_string(n: usize) -> (r: String)
    ensures
        r@ == dec_seq(n as int),
{
    let mut out = String::new();
    push_decimal(&mut out, n as u64);
    proof {
        assert(Seq::<char>::empty() + dec_seq(n as int) =~= dec_seq(n as int));
    }
    out
}

// ----------------------------------------------------------------------
// Occurrences around concatenation and truncation
// ----------------------------------------------------------------------

/// Appending `pat` to a string free of `pat` leaves every occurrence
/// overlapping the appended tail.
pub proof fn lemma_append_confines(s: Seq<char>, pat: Seq<char>)
    requires
        !contains_seq(s, pat),
    ensures
        occurs_at(s + pat, pat, s.len() as int),
        forall|i: int| occurs_at(s + pat, pat, i) ==> i + pat.len() > s.len(),
{
    let t = s + pat;
    assert(t.subrange(s.len() as int, (s.len() + pat.len()) as int) =~= pat);
    assert forall|i: int| occurs_at(t, pat, i) implies i + pat.len() > s.len() by {
        if i + pat.len() <= s.len() {
            assert(s.subrange(i, i + pat.len() as int) =~= t.subrange(i, i + pat.len() as int));
            assert(occurs_at(s, pat, i));
        }
    }
}

/// A prefix of a string free of `pat` is itself free of `pat`.
pub proof fn lemma_prefix_free(s: Seq<char>, pat: Seq<char>, k: int)
    requires
        0 <= k <= s.len(),
        !contains_seq(s, pat),
    ensures
        !contains_seq(s.subrange(0, k), pat),
{
    let t = s.subrange(0, k);
    assert forall|i: int| !occurs_at(t, pat, i) by {
        if 0 <= i && i + pat.len() <= t.len() {
            assert(t.subrange(i, i + pat.len() as int) =~= s.subrange(i, i + pat.len() as int));
            if occurs_at(t, pat, i) {
                assert(occurs_at(s, pat, i));
            }
        }
    }
    if contains_seq(t, pat) {
        let w = choose|w: int| occurs_at(t, pat, w);
        assert(!occurs_at(t, pat, w));
    }
}

/// Truncating just after the first occurrence of `pat` leaves exactly one
/// occurrence, at the very end.
pub proof fn lemma_truncate_unique(s: Seq<char>, pat: Seq<char>, o: int)
    requires
        occurs_at(s, pat, o),
        forall|j: int| 0 <= j < o ==> !occurs_at(s, pat, j),
    ensures
        ({
            let t = s.subrange(0, o + pat.len());
            &&& occurs_at(t, pat, o)
            &&& forall|i: int| occurs_at(t, pat, i) ==> i == o
        }),
{
    let t = s.subrange(0, o + pat.len());
    assert(t.subrange(o, o + pat.len() as int) =~= s.subrange(o, o + pat.len() as int));
    assert forall|i: int| occurs_at(t, pat, i) implies i == o by {
        if i < o {
            assert(s.subrange(i, i + pat.len() as int) =~= t.subrange(i, i + pat.len() as int));
            assert(occurs_at(s, pat, i));
        }
    }
}

} // verus!
