//! Human-readable change descriptions between two values of the same
//! entity shape: a longest-common-subsequence line diff for strings, a
//! length-sentinel rule for lists, and field-wise diffs for scenes and
//! string mappings.

use vstd::prelude::*;

use crate::dict::Dict;
use crate::scene::Scene;
use crate::strings::{split_seq, split_str, str_eq, trim_end_seq, trim_end_str, trim_seq, trim_str};

verus! {

/// The lines of a text, split on every newline.
pub open spec fn lines_of(s: Seq<char>) -> Seq<Seq<char>> {
    split_seq(s, "\n"@)
}

/// The length of a longest common subsequence of two line sequences.
pub open spec fn lcs_len(a: Seq<Seq<char>>, b: Seq<Seq<char>>) -> nat
    decreases a.len(), b.len(),
{
    if a.len() == 0 || b.len() == 0 {
        0
    } else if a[0] == b[0] {
        1 + lcs_len(a.drop_first(), b.drop_first())
    } else {
        let x = lcs_len(a.drop_first(), b);
        let y = lcs_len(a, b.drop_first());
        if x >= y {
            x
        } else {
            y
        }
    }
}

pub proof fn lemma_lcs_len_bound(a: Seq<Seq<char>>, b: Seq<Seq<char>>)
    ensures
        lcs_len(a, b) <= a.len(),
        lcs_len(a, b) <= b.len(),
    decreases a.len(), b.len(),
{
    if a.len() == 0 || b.len() == 0 {
    } else if a[0] == b[0] {
        lemma_lcs_len_bound(a.drop_first(), b.drop_first());
    } else {
        lemma_lcs_len_bound(a.drop_first(), b);
        lemma_lcs_len_bound(a, b.drop_first());
    }
}

/// The line diff: unchanged lines are omitted, removed lines are prefixed
/// `-` and added lines `+`, each followed by a newline, in the order a
/// longest-common-subsequence walk visits them (deletions first on ties).
pub open spec fn spec_line_diff(a: Seq<Seq<char>>, b: Seq<Seq<char>>) -> Seq<char>
    decreases a.len() + b.len(),
{
    if a.len() == 0 && b.len() == 0 {
        Seq::empty()
    } else if a.len() > 0 && b.len() > 0 && a[0] == b[0] {
        spec_line_diff(a.drop_first(), b.drop_first())
    } else if a.len() > 0 && (b.len() == 0 || lcs_len(a.drop_first(), b) >= lcs_len(
        a,
        b.drop_first(),
    )) {
        seq!['-'] + a[0] + seq!['\n'] + spec_line_diff(a.drop_first(), b)
    } else {
        seq!['+'] + b[0] + seq!['\n'] + spec_line_diff(a, b.drop_first())
    }
}

/// The change description between two texts: the line diff, trimmed of
/// trailing whitespace.
pub open spec fn spec_diff_str(before: Seq<char>, after: Seq<char>) -> Seq<char> {
    trim_end_seq(spec_line_diff(lines_of(before), lines_of(after)))
}

/// A text diffed against itself is empty.
pub proof fn lemma_line_diff_refl(a: Seq<Seq<char>>)
    ensures
        spec_line_diff(a, a) == Seq::<char>::empty(),
    decreases a.len(),
{
    if a.len() > 0 {
        lemma_line_diff_refl(a.drop_first());
    }
}

/// Law: diffing any text against itself reports no change.
pub proof fn lemma_diff_str_refl(s: Seq<char>)
    ensures
        spec_diff_str(s, s) == Seq::<char>::empty(),
{
    lemma_line_diff_refl(lines_of(s));
}

/// One row of longest-common-subsequence lengths: `row[j]` is the length
/// for `a.skip(i)` against `b.skip(j)`.
spec fn row_correct(row: Seq<usize>, a: Seq<Seq<char>>, b: Seq<Seq<char>>, i: int) -> bool {
    &&& row.len() == b.len() + 1
    &&& forall|j: int| 0 <= j <= b.len() ==> row[j] as nat == lcs_len(a.skip(i), b.skip(j))
}

/// One row of the table, for suffixes of `a` starting at `i`, given the
/// row for suffixes starting at `i + 1` (absent only when `i == a.len()`).
fn lcs_row(a: &Vec<String>, b: &Vec<String>, i: usize, next: Option<&Vec<usize>>) -> (row: Vec<
    usize,
>)
    requires
        i <= a.deep_view().len(),
        a.deep_view().len() == a@.len(),
        i < a.deep_view().len() ==> (next matches Some(nr) && row_correct(
            nr@,
            a.deep_view(),
            b.deep_view(),
            i + 1,
        )),
        i == a.deep_view().len() ==> next is None,
    ensures
        row_correct(row@, a.deep_view(), b.deep_view(), i as int),
{
    let ghost av = a.deep_view();
    let ghost bv = b.deep_view();
    let n = a.len();
    let m = b.len();
    proof {
        assert(bv.len() == m);
    }
    // build the row right to left, then flip it
    let mut rev: Vec<usize> = Vec::new();
    while rev.len() <= m
        invariant
            av == a.deep_view(),
            bv == b.deep_view(),
            n == av.len(),
            n == a@.len(),
            m == bv.len(),
            m == b@.len(),
            i <= n,
            i < n ==> (next matches Some(nr) && row_correct(nr@, av, bv, i + 1)),
            rev@.len() <= m + 1,
            forall|t: int| 0 <= t < rev@.len() ==> rev@[t] as nat == lcs_len(
                av.skip(i as int),
                bv.skip(m - t),
            ),
        decreases m + 1 - rev@.len(),
    {
        let u = rev.len();
        let j = m - u;
        let ghost sa = av.skip(i as int);
        let ghost sb = bv.skip(j as int);
        proof {
            lemma_lcs_len_bound(sa, sb);
            if i < n && j < m {
                assert(sa[0] == av[i as int]);
                assert(sb[0] == bv[j as int]);
                assert(sa.drop_first() =~= av.skip(i + 1));
                assert(sb.drop_first() =~= bv.skip(j + 1));
                assert(av[i as int] == a@[i as int]@);
                assert(bv[j as int] == b@[j as int]@);
            }
        }
        let value: usize = if i == n || j == m {
            proof {
                if i == n {
                    assert(sa.len() == 0);
                } else {
                    assert(sb.len() == 0);
                }
            }
            0
        } else if str_eq(a[i].as_str(), b[j].as_str()) {
            let next_row = next.unwrap();
            proof {
                assert(next_row@[j + 1] as nat == lcs_len(av.skip(i + 1), bv.skip(j + 1)));
                lemma_lcs_len_bound(av.skip(i + 1), bv.skip(j + 1));
                assert(lcs_len(av.skip(i + 1), bv.skip(j + 1)) <= m - j - 1);
            }
            1 + next_row[j + 1]
        } else {
            let next_row = next.unwrap();
            let x = next_row[j];
            let y = rev[u - 1];
            proof {
                assert(x as nat == lcs_len(av.skip(i + 1), bv.skip(j as int)));
                assert(y as nat == lcs_len(av.skip(i as int), bv.skip(j + 1)));
            }
            if x >= y {
                x
            } else {
                y
            }
        };
        rev.push(value);
    }
    // flip
    let mut row: Vec<usize> = Vec::new();
    while row.len() <= m
        invariant
            m == bv.len(),
            rev@.len() == m + 1,
            forall|t: int| 0 <= t <= m ==> rev@[t] as nat == lcs_len(av.skip(i as int), bv.skip(m - t)),
            row@.len() <= m + 1,
            forall|j: int| 0 <= j < row@.len() ==> row@[j] as nat == lcs_len(
                av.skip(i as int),
                bv.skip(j),
            ),
        decreases m + 1 - row@.len(),
    {
        let k = row.len();
        row.push(rev[m - k]);
    }
    row
}

/// The line-oriented diff between two texts. Unchanged lines are omitted;
/// removed lines are prefixed `-`, added lines `+`; the result is trimmed
/// of trailing whitespace.
pub fn diff_prompt_change_str(before: &str, after: &str) -> (r: String)
    ensures
        r@ == spec_diff_str(before@, after@),
{
    proof {
        reveal_strlit("\n");
    }
    let a = split_str(before, "\n");
    let b = split_str(after, "\n");
    let ghost av = a.deep_view();
    let ghost bv = b.deep_view();
    let n = a.len();
    let m = b.len();
    proof {
        assert(av.len() == n);
        assert(bv.len() == m);
    }
    // rows[t] holds the lengths for a-suffixes starting at n - t
    let mut rows: Vec<Vec<usize>> = Vec::new();
    while rows.len() <= n
        invariant
            av == a.deep_view(),
            bv == b.deep_view(),
            n == av.len(),
            n == a@.len(),
            m == bv.len(),
            m == b@.len(),
            rows@.len() <= n + 1,
            forall|s: int| 0 <= s < rows@.len() ==> row_correct(rows@[s]@, av, bv, n - s),
        decreases n + 1 - rows@.len(),
    {
        let t = rows.len();
        let i = n - t;
        let row = if t == 0 {
            lcs_row(&a, &b, i, None)
        } else {
            lcs_row(&a, &b, i, Some(&rows[t - 1]))
        };
        rows.push(row);
    }
    // walk the table from the front, emitting diff lines
    let mut out = String::new();
    let mut i: usize = 0;
    let mut j: usize = 0;
    proof {
        assert(av.skip(0) =~= av);
        assert(bv.skip(0) =~= bv);
        assert(Seq::<char>::empty() + spec_line_diff(av, bv) =~= spec_line_diff(av, bv));
    }
    while i < n || j < m
        invariant
            av == a.deep_view(),
            bv == b.deep_view(),
            n == av.len(),
            n == a@.len(),
            m == bv.len(),
            m == b@.len(),
            i <= n,
            j <= m,
            rows@.len() == n + 1,
            forall|s: int| 0 <= s < n + 1 ==> row_correct(rows@[s]@, av, bv, n - s),
            spec_line_diff(av, bv) =~= out@ + spec_line_diff(av.skip(i as int), bv.skip(j as int)),
        decreases n - i + m - j,
    {
        let ghost sa = av.skip(i as int);
        let ghost sb = bv.skip(j as int);
        proof {
            reveal_strlit("-");
            reveal_strlit("+");
            reveal_strlit("\n");
            if i < n {
                assert(sa[0] == av[i as int]);
                assert(sa.drop_first() =~= av.skip(i + 1));
                assert(av[i as int] == a@[i as int]@);
            }
            if j < m {
                assert(sb[0] == bv[j as int]);
                assert(sb.drop_first() =~= bv.skip(j + 1));
                assert(bv[j as int] == b@[j as int]@);
            }
        }
        if i < n && j < m && str_eq(a[i].as_str(), b[j].as_str()) {
            proof {
                assert(spec_line_diff(sa, sb) == spec_line_diff(av.skip(i + 1), bv.skip(j + 1)));
            }
            i += 1;
            j += 1;
        } else {
            let take_a = if i < n && j == m {
                true
            } else if i < n {
                let x = rows[n - i - 1][j];
                let y = rows[n - i][j + 1];
                proof {
                    assert(row_correct(rows@[n - i - 1]@, av, bv, i + 1));
                    assert(row_correct(rows@[n - i]@, av, bv, i as int));
                    assert(x as nat == lcs_len(av.skip(i + 1), bv.skip(j as int)));
                    assert(y as nat == lcs_len(av.skip(i as int), bv.skip(j + 1)));
                    assert(sa.drop_first() == av.skip(i + 1));
                    assert(sb.drop_first() == bv.skip(j + 1));
                }
                x >= y
            } else {
                false
            };
            if take_a {
                let ghost before_out = out@;
                out.append("-");
                out.append(a[i].as_str());
                out.append("\n");
                proof {
                    assert(out@ =~= before_out + (seq!['-'] + sa[0] + seq!['\n']));
                    assert(spec_line_diff(sa, sb) == seq!['-'] + sa[0] + seq!['\n']
                        + spec_line_diff(av.skip(i + 1), bv.skip(j as int)));
                    assert(before_out + spec_line_diff(sa, sb) =~= out@ + spec_line_diff(
                        av.skip(i + 1),
                        bv.skip(j as int),
                    ));
                }
                i += 1;
            } else {
                proof {
                    if i < n {
                        assert(lcs_len(sa.drop_first(), sb) < lcs_len(sa, sb.drop_first()));
                    }
                }
                let ghost before_out = out@;
                out.append("+");
                out.append(b[j].as_str());
                out.append("\n");
                proof {
                    assert(out@ =~= before_out + (seq!['+'] + sb[0] + seq!['\n']));
                    assert(spec_line_diff(sa, sb) == seq!['+'] + sb[0] + seq!['\n']
                        + spec_line_diff(av.skip(i as int), bv.skip(j + 1)));
                    assert(before_out + spec_line_diff(sa, sb) =~= out@ + spec_line_diff(
                        av.skip(i as int),
                        bv.skip(j + 1),
                    ));
                }
                j += 1;
            }
        }
    }
    proof {
        assert(av.skip(n as int).len() == 0);
        assert(bv.skip(m as int).len() == 0);
        assert(spec_line_diff(av.skip(n as int), bv.skip(m as int)) == Seq::<char>::empty());
        assert(out@ + Seq::<char>::empty() =~= out@);
        assert(out@ == spec_line_diff(av, bv));
        assert(av == lines_of(before@));
        assert(bv == lines_of(after@));
    }
    trim_end_str(out.as_str())
}

/// The non-empty diff blocks joined by single newlines.
pub open spec fn join_nl(s: Seq<Seq<char>>) -> Seq<char>
    decreases s.len(),
{
    if s.len() == 0 {
        Seq::empty()
    } else if s.len() == 1 {
        s[0]
    } else {
        join_nl(s.drop_last()) + seq!['\n'] + s.last()
    }
}

/// Only the non-empty entries of `s`, in order.
pub open spec fn nonempty_of(s: Seq<Seq<char>>) -> Seq<Seq<char>>
    decreases s.len(),
{
    if s.len() == 0 {
        Seq::empty()
    } else if s.last().len() > 0 {
        nonempty_of(s.drop_last()).push(s.last())
    } else {
        nonempty_of(s.drop_last())
    }
}

/// The element-wise string diffs of two equally long lists.
pub open spec fn pair_diffs(a: Seq<Seq<char>>, b: Seq<Seq<char>>) -> Seq<Seq<char>> {
    Seq::new(a.len(), |i: int| spec_diff_str(a[i], b[i]))
}

/// The change description between two lists: a fixed sentinel when the
/// lengths differ, else the non-empty element-wise diffs joined by
/// newlines.
pub open spec fn spec_diff_list(a: Seq<Seq<char>>, b: Seq<Seq<char>>) -> Seq<char> {
    if a.len() > b.len() {
        "Deleted element"@
    } else if a.len() < b.len() {
        "Added new element"@
    } else {
        join_nl(nonempty_of(pair_diffs(a, b)))
    }
}

/// Join the given diff blocks with newlines.
fn join_diffs(diffs: &Vec<String>) -> (r: String)
    ensures
        r@ == join_nl(diffs.deep_view()),
{
    let ghost dv = diffs.deep_view();
    let n = diffs.len();
    let mut out = String::new();
    let mut k: usize = 0;
    proof {
        assert(dv.take(0) =~= Seq::<Seq<char>>::empty());
    }
    while k < n
        invariant
            dv == diffs.deep_view(),
            n == dv.len(),
            n == diffs@.len(),
            k <= n,
            out@ == join_nl(dv.take(k as int)),
        decreases n - k,
    {
        proof {
            reveal_strlit("\n");
            assert(dv.take(k + 1).drop_last() =~= dv.take(k as int));
            assert(dv.take(k + 1).last() == dv[k as int]);
            assert(dv[k as int] == diffs@[k as int]@);
        }
        if k == 0 {
            out.append(diffs[k].as_str());
            proof {
                assert(out@ =~= dv.take(1)[0]);
            }
        } else {
            out.append("\n");
            out.append(diffs[k].as_str());
            proof {
                assert(out@ =~= join_nl(dv.take(k as int)) + seq!['\n'] + dv[k as int]);
            }
        }
        k += 1;
    }
    proof {
        assert(dv.take(n as int) =~= dv);
    }
    out
}

/// Collect the non-empty element-wise diffs of two equally long lists.
fn collect_pair_diffs(before: &Vec<String>, after: &Vec<String>) -> (r: Vec<String>)
    requires
        before.deep_view().len() == after.deep_view().len(),
    ensures
        r.deep_view() == nonempty_of(pair_diffs(before.deep_view(), after.deep_view())),
{
    let ghost av = before.deep_view();
    let ghost bv = after.deep_view();
    let ghost pairs = pair_diffs(av, bv);
    let n = before.len();
    let mut diffs: Vec<String> = Vec::new();
    let mut i: usize = 0;
    proof {
        assert(pairs.take(0) =~= Seq::<Seq<char>>::empty());
        assert(nonempty_of(pairs.take(0)) =~= Seq::<Seq<char>>::empty());
        assert(diffs.deep_view() =~= Seq::<Seq<char>>::empty());
    }
    while i < n
        invariant
            av == before.deep_view(),
            bv == after.deep_view(),
            pairs == pair_diffs(av, bv),
            n == av.len(),
            n == before@.len(),
            av.len() == bv.len(),
            bv.len() == after@.len(),
            i <= n,
            diffs.deep_view() == nonempty_of(pairs.take(i as int)),
        decreases n - i,
    {
        proof {
            assert(av[i as int] == before@[i as int]@);
            assert(bv[i as int] == after@[i as int]@);
        }
        let d = diff_prompt_change_str(before[i].as_str(), after[i].as_str());
        proof {
            assert(pairs.take(i + 1).drop_last() =~= pairs.take(i as int));
            assert(pairs.take(i + 1).last() == pairs[i as int]);
            assert(d@ == pairs[i as int]);
        }
        if !d.as_str().is_empty() {
            let ghost old_diffs = diffs.deep_view();
            diffs.push(d);
            proof {
                assert(diffs.deep_view() =~= old_diffs.push(pairs[i as int]));
            }
        }
        i += 1;
    }
    proof {
        assert(pairs.take(n as int) =~= pairs);
    }
    diffs
}

/// The change description between two lists. Lists of unequal length are
/// flagged with a fixed sentinel — `"Deleted element"` when the new list
/// is shorter, `"Added new element"` when it is longer — and never diffed
/// element-wise; equal lengths give the joined non-empty element diffs.
pub fn diff_prompt_change_list(before: &Vec<String>, after: &Vec<String>) -> (r: String)
    ensures
        r@ == spec_diff_list(before.deep_view(), after.deep_view()),
{
    if before.len() > after.len() {
        return String::from_str("Deleted element");
    }
    if before.len() < after.len() {
        return String::from_str("Added new element");
    }
    let diffs = collect_pair_diffs(before, after);
    join_diffs(&diffs)
}

/// The structured fields of one scene, in the order diffs visit them.
pub open spec fn spec_scene_fields(s: Scene) -> Seq<Seq<char>> {
    seq![s.name@, s.description@, s.place@, s.plot_element@, s.beat@]
}

/// The field-wise diffs of two equally long scene lists.
pub open spec fn spec_scene_pair_diffs(a: Seq<Scene>, b: Seq<Scene>) -> Seq<Seq<char>> {
    Seq::new(a.len(), |i: int| spec_diff_list(spec_scene_fields(a[i]), spec_scene_fields(b[i])))
}

/// The change description between two scene lists: the same length
/// sentinels as lists, else the non-empty field-wise diffs joined by
/// newlines.
pub open spec fn spec_diff_scenes(a: Seq<Scene>, b: Seq<Scene>) -> Seq<char> {
    if a.len() > b.len() {
        "Deleted element"@
    } else if a.len() < b.len() {
        "Added new element"@
    } else {
        join_nl(nonempty_of(spec_scene_pair_diffs(a, b)))
    }
}

/// The structured fields of one scene, as owned strings.
fn scene_fields(s: &Scene) -> (r: Vec<String>)
    ensures
        r.deep_view() == spec_scene_fields(*s),
{
    let mut fields: Vec<String> = Vec::new();
    fields.push(s.name.clone());
    fields.push(s.description.clone());
    fields.push(s.place.clone());
    fields.push(s.plot_element.clone());
    fields.push(s.beat.clone());
    proof {
        assert(fields.deep_view() =~= spec_scene_fields(*s));
    }
    fields
}

/// The change description between two scene lists.
pub fn diff_prompt_change_scenes(before: &Vec<Scene>, after: &Vec<Scene>) -> (r: String)
    ensures
        r@ == spec_diff_scenes(before@, after@),
{
    if before.len() > after.len() {
        return String::from_str("Deleted element");
    }
    if before.len() < after.len() {
        return String::from_str("Added new element");
    }
    let ghost av = before@;
    let ghost bv = after@;
    let ghost pairs = spec_scene_pair_diffs(av, bv);
    let n = before.len();
    let mut diffs: Vec<String> = Vec::new();
    let mut i: usize = 0;
    proof {
        assert(pairs.take(0) =~= Seq::<Seq<char>>::empty());
        assert(nonempty_of(pairs.take(0)) =~= Seq::<Seq<char>>::empty());
        assert(diffs.deep_view() =~= Seq::<Seq<char>>::empty());
    }
    while i < n
        invariant
            av == before@,
            bv == after@,
            pairs == spec_scene_pair_diffs(av, bv),
            n == av.len(),
            av.len() == bv.len(),
            i <= n,
            diffs.deep_view() == nonempty_of(pairs.take(i as int)),
        decreases n - i,
    {
        let fa = scene_fields(&before[i]);
        let fb = scene_fields(&after[i]);
        let d = diff_prompt_change_list(&fa, &fb);
        proof {
            assert(pairs.take(i + 1).drop_last() =~= pairs.take(i as int));
            assert(pairs.take(i + 1).last() == pairs[i as int]);
            assert(d@ == pairs[i as int]);
        }
        if !d.as_str().is_empty() {
            let ghost old_diffs = diffs.deep_view();
            diffs.push(d);
            proof {
                assert(diffs.deep_view() =~= old_diffs.push(pairs[i as int]));
            }
        }
        i += 1;
    }
    proof {
        assert(pairs.take(n as int) =~= pairs);
    }
    join_diffs(&diffs)
}

/// The change description between two string mappings: the key-sequence
/// diff and the value-sequence diff, in iteration order, joined by a
/// newline and trimmed.
pub open spec fn spec_diff_dict(
    bk: Seq<Seq<char>>,
    bv: Seq<Seq<char>>,
    ak: Seq<Seq<char>>,
    av: Seq<Seq<char>>,
) -> Seq<char> {
    trim_seq(spec_diff_list(bk, ak) + seq!['\n'] + spec_diff_list(bv, av))
}

/// The change description between two string mappings.
pub fn diff_prompt_change_dict(before: &Dict, after: &Dict) -> (r: String)
    requires
        before.wf(),
        after.wf(),
    ensures
        r@ == spec_diff_dict(
            before.keys_view(),
            before.vals_view(),
            after.keys_view(),
            after.vals_view(),
        ),
{
    let mut out = diff_prompt_change_list(before.keys(), after.keys());
    out.append("\n");
    let values_diff = diff_prompt_change_list(before.values(), after.values());
    out.append(values_diff.as_str());
    proof {
        reveal_strlit("\n");
        assert(out@ =~= spec_diff_list(before.keys_view(), after.keys_view()) + seq!['\n']
            + spec_diff_list(before.vals_view(), after.vals_view()));
    }
    trim_str(out.as_str())
}

/// Every entry empty gives an empty selection.
proof fn lemma_nonempty_of_all_empty(s: Seq<Seq<char>>)
    requires
        forall|i: int| 0 <= i < s.len() ==> s[i].len() == 0,
    ensures
        nonempty_of(s) == Seq::<Seq<char>>::empty(),
    decreases s.len(),
{
    if s.len() > 0 {
        lemma_nonempty_of_all_empty(s.drop_last());
    }
}

/// With exactly one non-empty entry, only that entry is selected.
proof fn lemma_nonempty_of_single(s: Seq<Seq<char>>, k: int)
    requires
        0 <= k < s.len(),
        s[k].len() > 0,
        forall|i: int| 0 <= i < s.len() && i != k ==> s[i].len() == 0,
    ensures
        nonempty_of(s) == seq![s[k]],
    decreases s.len(),
{
    if s.len() - 1 == k {
        lemma_nonempty_of_all_empty(s.drop_last());
        assert(nonempty_of(s) =~= seq![s[k]]);
    } else {
        lemma_nonempty_of_single(s.drop_last(), k);
        assert(s.drop_last()[k] == s[k]);
        assert(nonempty_of(s) =~= seq![s[k]]);
    }
}

/// Law: on equally long lists differing in exactly one element, the list
/// diff is exactly that element's (non-empty) string diff.
pub proof fn lemma_diff_list_single_change(a: Seq<Seq<char>>, b: Seq<Seq<char>>, k: int)
    requires
        a.len() == b.len(),
        0 <= k < a.len(),
        forall|i: int| 0 <= i < a.len() && i != k ==> a[i] == b[i],
        spec_diff_str(a[k], b[k]).len() > 0,
    ensures
        spec_diff_list(a, b) == spec_diff_str(a[k], b[k]),
{
    let pairs = pair_diffs(a, b);
    assert forall|i: int| 0 <= i < pairs.len() && i != k implies pairs[i].len() == 0 by {
        lemma_diff_str_refl(a[i]);
    }
    lemma_nonempty_of_single(pairs, k);
    assert(join_nl(seq![pairs[k]]) == pairs[k]);
}

} // verus!
