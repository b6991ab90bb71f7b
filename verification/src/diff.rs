//! The diff model: lines, hunks and files, the split-view pairing of deleted
//! and added runs, and the word-diff partner of each changed line.

use vstd::prelude::*;
use crate::word_diff::{changed_span, span_end, span_start};

verus! {

/// What a diff line does.
#[derive(Clone, Copy, Debug, PartialEq, Eq, Structural)]
pub enum LineKind {
    Context,
    Deleted,
    Added,
}

/// One line of a hunk, with its old and new line numbers where it has them.
#[derive(Clone, Debug, PartialEq, Eq)]
pub struct Line {
    pub old: Option<u32>,
    pub new: Option<u32>,
    pub kind: LineKind,
    pub text: String,
}

/// A hunk: its `@@ -a,b +c,d @@` header and its lines.
#[derive(Clone, Debug, PartialEq, Eq)]
pub struct Hunk {
    pub header: String,
    pub patch: String,
    pub lines: Vec<Line>,
}

/// One changed file of a diff.
#[derive(Clone, Debug, PartialEq, Eq)]
pub struct FileDiff {
    pub path: String,
    pub old_path: Option<String>,
    /// `A`dded, `D`eleted, `M`odified, `R`enamed.
    pub status: char,
    pub binary: bool,
    /// The file's part of the patch, which tells two versions of its changes
    /// apart.
    pub patch: String,
    pub additions: usize,
    pub deletions: usize,
    pub old_text: Option<String>,
    pub new_text: Option<String>,
    pub hunks: Vec<Hunk>,
}

/// The kinds of a run of lines.
pub open spec fn kinds_of(lines: Seq<Line>) -> Seq<LineKind> {
    lines.map_values(|l: Line| l.kind)
}

/// First index at or after `i` whose kind is not `k` (or the end).
pub open spec fn run_end(kinds: Seq<LineKind>, i: int, k: LineKind) -> int
    decreases kinds.len() - i,
{
    if 0 <= i < kinds.len() && kinds[i] == k {
        run_end(kinds, i + 1, k)
    } else {
        i
    }
}

/// One side of a split row: the `o`-th line of `[from, to)`, if there is one.
pub open spec fn side(from: int, to: int, o: int) -> Option<usize> {
    if from + o < to {
        Some((from + o) as usize)
    } else {
        None
    }
}

/// Rows for a deleted run `[s, a)` followed by an added run `[a, e)`:
/// the `o`-th deleted line beside the `o`-th added line.
pub open spec fn block_rows(s: int, a: int, e: int) -> Seq<(Option<usize>, Option<usize>)> {
    let n = if a - s >= e - a { a - s } else { e - a };
    Seq::new(n as nat, |o: int| (side(s, a, o), side(a, e, o)))
}

/// Split-view rows of `kinds[i..]`: a context line sits on both sides; a run
/// of deletions is paired, in order, with the run of additions after it.
pub open spec fn pairs_from(kinds: Seq<LineKind>, i: int) -> Seq<(Option<usize>, Option<usize>)>
    decreases kinds.len() - i,
{
    if i < 0 || i >= kinds.len() {
        Seq::empty()
    } else if kinds[i] == LineKind::Context {
        seq![(Some(i as usize), Some(i as usize))] + pairs_from(kinds, i + 1)
    } else {
        let a = run_end(kinds, i, LineKind::Deleted);
        let e = run_end(kinds, a, LineKind::Added);
        proof {
            lemma_run_end_bounds(kinds, i, LineKind::Deleted);
            lemma_run_end_bounds(kinds, a, LineKind::Added);
        }
        if e <= i {
            Seq::empty()
        } else {
            block_rows(i, a, e) + pairs_from(kinds, e)
        }
    }
}

/// Split-view rows of a whole hunk.
pub open spec fn split_rows(kinds: Seq<LineKind>) -> Seq<(Option<usize>, Option<usize>)> {
    pairs_from(kinds, 0)
}

pub proof fn lemma_run_end_bounds(kinds: Seq<LineKind>, i: int, k: LineKind)
    requires
        0 <= i <= kinds.len(),
    ensures
        i <= run_end(kinds, i, k) <= kinds.len(),
        forall|j: int| i <= j < run_end(kinds, i, k) ==> kinds[j] == k,
        run_end(kinds, i, k) < kinds.len() ==> kinds[run_end(kinds, i, k)] != k,
    decreases kinds.len() - i,
{
    if i < kinds.len() && kinds[i] == k {
        lemma_run_end_bounds(kinds, i + 1, k);
    }
}

/// A split row whose lines lie at or after `i`: at least one side holds a
/// line, a left line is never an added line and a right line never a
/// deleted one, and a context line sits on both sides of its own row.
pub open spec fn good_pair(kinds: Seq<LineKind>, i: int, p: (Option<usize>, Option<usize>)) -> bool {
    &&& p.0 is Some || p.1 is Some
    &&& p.0 matches Some(x) ==> i <= x < kinds.len() && kinds[x as int] != LineKind::Added
    &&& p.1 matches Some(y) ==> i <= y < kinds.len() && kinds[y as int] != LineKind::Deleted
    &&& (p.0 matches Some(x) && kinds[x as int] == LineKind::Context) ==> p.1 == p.0
    &&& (p.1 matches Some(y) && kinds[y as int] == LineKind::Context) ==> p.1 == p.0
}

/// Every split row built from `kinds[i..]` is a good pair.
pub proof fn lemma_pairs_from_sides(kinds: Seq<LineKind>, i: int)
    requires
        0 <= i,
        kinds.len() <= usize::MAX,
    ensures
        forall|k: int|
            0 <= k < pairs_from(kinds, i).len() ==> good_pair(kinds, i, #[trigger] pairs_from(kinds, i)[k]),
    decreases kinds.len() - i,
{
    if i < kinds.len() {
        if kinds[i] == LineKind::Context {
            lemma_pairs_from_sides(kinds, i + 1);
            let rest = pairs_from(kinds, i + 1);
            assert forall|k: int| 0 <= k < pairs_from(kinds, i).len() implies good_pair(
                kinds,
                i,
                #[trigger] pairs_from(kinds, i)[k],
            ) by {
                if k > 0 {
                    assert(pairs_from(kinds, i)[k] == rest[k - 1]);
                    assert(good_pair(kinds, i + 1, rest[k - 1]));
                }
            }
        } else {
            let a = run_end(kinds, i, LineKind::Deleted);
            let e = run_end(kinds, a, LineKind::Added);
            lemma_run_end_bounds(kinds, i, LineKind::Deleted);
            lemma_run_end_bounds(kinds, a, LineKind::Added);
            if e > i {
                lemma_pairs_from_sides(kinds, e);
                let block = block_rows(i, a, e);
                let rest = pairs_from(kinds, e);
                assert forall|k: int| 0 <= k < pairs_from(kinds, i).len() implies good_pair(
                    kinds,
                    i,
                    #[trigger] pairs_from(kinds, i)[k],
                ) by {
                    if k < block.len() {
                        assert(pairs_from(kinds, i)[k] == block[k]);
                        if i + k < a {
                            assert(kinds[i + k] == LineKind::Deleted);
                        }
                        if a + k < e {
                            assert(kinds[a + k] == LineKind::Added);
                        }
                    } else {
                        assert(pairs_from(kinds, i)[k] == rest[k - block.len()]);
                        assert(good_pair(kinds, e, rest[k - block.len()]));
                    }
                }
            }
        }
    }
}

/// Advances past the run of `k` starting at `i`.
pub(crate) fn skip_run(lines: &[Line], i: usize, k: LineKind) -> (j: usize)
    requires
        i <= lines.len(),
    ensures
        j == run_end(kinds_of(lines@), i as int, k),
        i <= j <= lines.len(),
{
    let ghost kinds = kinds_of(lines@);
    let mut j = i;
    while j < lines.len() && lines[j].kind == k
        invariant
            i <= j <= lines.len(),
            kinds == kinds_of(lines@),
            run_end(kinds, i as int, k) == run_end(kinds, j as int, k),
        decreases lines.len() - j,
    {
        j = j + 1;
    }
    j
}

/// Rows of the split view: `(left, right)` indices into `lines`.
pub fn split_pairs(lines: &[Line]) -> (rows: Vec<(Option<usize>, Option<usize>)>)
    ensures
        rows@ == split_rows(kinds_of(lines@)),
{
    let ghost kinds = kinds_of(lines@);
    let mut rows: Vec<(Option<usize>, Option<usize>)> = Vec::new();
    let mut i: usize = 0;
    while i < lines.len()
        invariant
            i <= lines.len(),
            kinds == kinds_of(lines@),
            rows@ + pairs_from(kinds, i as int) == split_rows(kinds),
        decreases lines.len() - i,
    {
        if lines[i].kind == LineKind::Context {
            proof {
                assert(rows@.push((Some(i), Some(i))) + pairs_from(kinds, i + 1) =~= rows@
                    + pairs_from(kinds, i as int));
            }
            rows.push((Some(i), Some(i)));
            i = i + 1;
        } else {
            let start = i;
            let added = skip_run(lines, i, LineKind::Deleted);
            proof {
                lemma_run_end_bounds(kinds, start as int, LineKind::Deleted);
            }
            let end = skip_run(lines, added, LineKind::Added);
            proof {
                lemma_run_end_bounds(kinds, added as int, LineKind::Added);
                assert(end > start);
            }
            let n = if added - start >= end - added { added - start } else { end - added };
            let ghost before = rows@;
            let ghost block = block_rows(start as int, added as int, end as int);
            let mut o: usize = 0;
            while o < n
                invariant
                    start < end <= lines.len(),
                    start <= added <= end,
                    n == block.len(),
                    block == block_rows(start as int, added as int, end as int),
                    o <= n,
                    rows@ == before + block.take(o as int),
                decreases n - o,
            {
                let left = if o < added - start { Some(start + o) } else { None };
                let right = if o < end - added { Some(added + o) } else { None };
                proof {
                    assert(block.take(o + 1) =~= block.take(o as int).push((left, right)));
                }
                rows.push((left, right));
                o = o + 1;
            }
            proof {
                assert(block.take(n as int) =~= block);
                assert(before + block + pairs_from(kinds, end as int) =~= before + (block
                    + pairs_from(kinds, end as int)));
            }
            i = end;
        }
    }
    proof {
        assert(rows@ + pairs_from(kinds, i as int) =~= rows@);
    }
    rows
}

/// The line paired with line `j`, looking from `kinds[i..]` on: a deleted
/// line's partner is the added line in the same position of the following
/// added run, and the other way round; context lines have none.
pub open spec fn partner_from(kinds: Seq<LineKind>, i: int, j: int) -> Option<usize>
    decreases kinds.len() - i,
{
    if i < 0 || i >= kinds.len() {
        None
    } else if kinds[i] == LineKind::Context {
        if j == i {
            None
        } else {
            partner_from(kinds, i + 1, j)
        }
    } else {
        let a = run_end(kinds, i, LineKind::Deleted);
        let e = run_end(kinds, a, LineKind::Added);
        proof {
            lemma_run_end_bounds(kinds, i, LineKind::Deleted);
            lemma_run_end_bounds(kinds, a, LineKind::Added);
        }
        if e <= i {
            None
        } else if i <= j < a {
            side(a, e, j - i)
        } else if a <= j < e {
            side(i, a, j - a)
        } else {
            partner_from(kinds, e, j)
        }
    }
}

/// The word-diff partner of line `j` of a hunk.
pub open spec fn partner(kinds: Seq<LineKind>, j: int) -> Option<usize> {
    partner_from(kinds, 0, j)
}

proof fn lemma_partner_before(kinds: Seq<LineKind>, i: int, j: int)
    requires
        0 <= j < i,
        kinds.len() <= usize::MAX,
    ensures
        partner_from(kinds, i, j) is None,
    decreases kinds.len() - i,
{
    if 0 <= i < kinds.len() {
        if kinds[i] == LineKind::Context {
            lemma_partner_before(kinds, i + 1, j);
        } else {
            let a = run_end(kinds, i, LineKind::Deleted);
            let e = run_end(kinds, a, LineKind::Added);
            lemma_run_end_bounds(kinds, i, LineKind::Deleted);
            lemma_run_end_bounds(kinds, a, LineKind::Added);
            if e > i {
                lemma_partner_before(kinds, e, j);
            }
        }
    }
}

proof fn lemma_partner_from_involution(kinds: Seq<LineKind>, i: int, j: int)
    requires
        0 <= i,
        kinds.len() <= usize::MAX,
        partner_from(kinds, i, j) is Some,
    ensures
        ({
            let x = partner_from(kinds, i, j)->0 as int;
            &&& i <= j < kinds.len()
            &&& i <= x < kinds.len()
            &&& x != j
            &&& partner_from(kinds, i, x) == Some(j as usize)
            &&& kinds[j] != LineKind::Context
            &&& kinds[x] != LineKind::Context
            &&& kinds[j] != kinds[x]
        }),
    decreases kinds.len() - i,
{
    if 0 <= i < kinds.len() {
        let a = run_end(kinds, i, LineKind::Deleted);
        let e = run_end(kinds, a, LineKind::Added);
        lemma_run_end_bounds(kinds, i, LineKind::Deleted);
        lemma_run_end_bounds(kinds, a, LineKind::Added);
        if kinds[i] == LineKind::Context {
            if j != i {
                lemma_partner_from_involution(kinds, i + 1, j);
                if j < i {
                    lemma_partner_before(kinds, i + 1, j);
                }
            }
        } else if e > i {
            if i <= j < a || a <= j < e {
            } else {
                lemma_partner_from_involution(kinds, e, j);
                let x = partner_from(kinds, i, j)->0 as int;
                if j < i {
                    lemma_partner_before(kinds, e, j);
                }
            }
        }
    }
}

/// Partners are mutual: if line `j` is paired with `x`, then `x` is a
/// different line paired with `j`, one of them deleted and the other added.
pub proof fn lemma_partner_involution(kinds: Seq<LineKind>, j: int)
    requires
        kinds.len() <= usize::MAX,
        partner(kinds, j) is Some,
    ensures
        ({
            let x = partner(kinds, j)->0 as int;
            &&& 0 <= j < kinds.len()
            &&& 0 <= x < kinds.len()
            &&& x != j
            &&& partner(kinds, x) == Some(j as usize)
            &&& kinds[j] != LineKind::Context
            &&& kinds[x] != LineKind::Context
            &&& kinds[j] != kinds[x]
        }),
{
    lemma_partner_from_involution(kinds, 0, j);
}

/// Where the run of kind `k` holding index `j` starts: `j`, moved back
/// while the line before it is of kind `k` too.
pub open spec fn run_start(kinds: Seq<LineKind>, j: int, k: LineKind) -> int
    decreases j,
{
    if 0 < j <= kinds.len() && kinds[j - 1] == k {
        run_start(kinds, j - 1, k)
    } else {
        j
    }
}

/// A run of `k` that starts at `s` and reaches `x` starts at `s`.
proof fn lemma_run_start_at(kinds: Seq<LineKind>, s: int, x: int, k: LineKind)
    requires
        0 <= s <= x <= kinds.len(),
        forall|j: int| s <= j < x ==> kinds[j] == k,
        s == 0 || kinds[s - 1] != k,
    ensures
        run_start(kinds, x, k) == s,
    decreases x - s,
{
    if x > s {
        lemma_run_start_at(kinds, s, x - 1, k);
    }
}

/// Index `i` begins a block: the line before it neither continues its run
/// nor is a deletion that a following addition would pair with.
pub open spec fn block_boundary(kinds: Seq<LineKind>, i: int) -> bool {
    i == 0 || (0 < i <= kinds.len() && (i < kinds.len() ==> {
        &&& !(kinds[i - 1] == LineKind::Deleted && (kinds[i] == LineKind::Deleted || kinds[i]
            == LineKind::Added))
        &&& !(kinds[i - 1] == LineKind::Added && kinds[i] == LineKind::Added)
    }))
}

/// A split row beside a deleted line holds, on the right, the added line
/// at the same offset of its run as the deleted line has in its own.
pub open spec fn paired_in_order(kinds: Seq<LineKind>, p: (Option<usize>, Option<usize>)) -> bool {
    match (p.0, p.1) {
        (Some(x), Some(y)) => (0 <= x < kinds.len() && kinds[x as int] == LineKind::Deleted) ==> x
            - run_start(kinds, x as int, LineKind::Deleted) == y - run_start(
            kinds,
            y as int,
            LineKind::Added,
        ),
        _ => true,
    }
}

proof fn lemma_pairs_from_in_order(kinds: Seq<LineKind>, i: int)
    requires
        0 <= i,
        kinds.len() <= usize::MAX,
        block_boundary(kinds, i),
    ensures
        forall|k: int|
            0 <= k < pairs_from(kinds, i).len() ==> paired_in_order(kinds, #[trigger] pairs_from(kinds, i)[k]),
    decreases kinds.len() - i,
{
    if i < kinds.len() {
        if kinds[i] == LineKind::Context {
            lemma_pairs_from_in_order(kinds, i + 1);
            let rest = pairs_from(kinds, i + 1);
            assert forall|k: int| 0 <= k < pairs_from(kinds, i).len() implies paired_in_order(
                kinds,
                #[trigger] pairs_from(kinds, i)[k],
            ) by {
                if k > 0 {
                    assert(pairs_from(kinds, i)[k] == rest[k - 1]);
                }
            }
        } else {
            let a = run_end(kinds, i, LineKind::Deleted);
            let e = run_end(kinds, a, LineKind::Added);
            lemma_run_end_bounds(kinds, i, LineKind::Deleted);
            lemma_run_end_bounds(kinds, a, LineKind::Added);
            if e > i {
                lemma_pairs_from_in_order(kinds, e);
                let block = block_rows(i, a, e);
                let rest = pairs_from(kinds, e);
                assert forall|k: int| 0 <= k < pairs_from(kinds, i).len() implies paired_in_order(
                    kinds,
                    #[trigger] pairs_from(kinds, i)[k],
                ) by {
                    if k < block.len() {
                        assert(pairs_from(kinds, i)[k] == block[k]);
                        if i + k < a && a + k < e {
                            lemma_run_start_at(kinds, i, i + k, LineKind::Deleted);
                            lemma_run_start_at(kinds, a, a + k, LineKind::Added);
                        }
                    } else {
                        assert(pairs_from(kinds, i)[k] == rest[k - block.len()]);
                    }
                }
            }
        }
    }
}

/// In the split view, a deleted line sits beside the added line at the
/// same offset of the run of additions: the n-th deleted line of a run
/// faces the n-th added line.
pub proof fn lemma_split_rows_pair_in_order(kinds: Seq<LineKind>)
    requires
        kinds.len() <= usize::MAX,
    ensures
        forall|k: int|
            0 <= k < split_rows(kinds).len() ==> paired_in_order(kinds, #[trigger] split_rows(kinds)[k]),
{
    lemma_pairs_from_in_order(kinds, 0);
}

proof fn lemma_partner_from_in_order(kinds: Seq<LineKind>, i: int, j: int)
    requires
        0 <= i,
        kinds.len() <= usize::MAX,
        block_boundary(kinds, i),
        partner_from(kinds, i, j) is Some,
        0 <= j < kinds.len(),
        kinds[j] != LineKind::Context,
    ensures
        ({
            let x = partner_from(kinds, i, j)->0 as int;
            &&& 0 <= x < kinds.len()
            &&& kinds[j] == LineKind::Deleted ==> kinds[x] == LineKind::Added && j - run_start(
                kinds,
                j,
                LineKind::Deleted,
            ) == x - run_start(kinds, x, LineKind::Added)
            &&& kinds[j] == LineKind::Added ==> kinds[x] == LineKind::Deleted && j - run_start(
                kinds,
                j,
                LineKind::Added,
            ) == x - run_start(kinds, x, LineKind::Deleted)
        }),
    decreases kinds.len() - i,
{
    if 0 <= i < kinds.len() {
        let a = run_end(kinds, i, LineKind::Deleted);
        let e = run_end(kinds, a, LineKind::Added);
        lemma_run_end_bounds(kinds, i, LineKind::Deleted);
        lemma_run_end_bounds(kinds, a, LineKind::Added);
        if kinds[i] == LineKind::Context {
            lemma_partner_from_in_order(kinds, i + 1, j);
        } else if e > i {
            if i <= j < a {
                let x = a + (j - i);
                lemma_run_start_at(kinds, i, j, LineKind::Deleted);
                lemma_run_start_at(kinds, a, x, LineKind::Added);
            } else if a <= j < e {
                let x = i + (j - a);
                lemma_run_start_at(kinds, a, j, LineKind::Added);
                lemma_run_start_at(kinds, i, x, LineKind::Deleted);
            } else {
                lemma_partner_from_in_order(kinds, e, j);
            }
        }
    }
}

/// A changed line is word-diffed against the line at the same offset of
/// the facing run: the n-th deleted line of a run against the n-th added
/// line of the additions that follow it, and the other way round.
pub proof fn lemma_partner_same_offset(kinds: Seq<LineKind>, j: int)
    requires
        kinds.len() <= usize::MAX,
        partner(kinds, j) is Some,
    ensures
        ({
            let x = partner(kinds, j)->0 as int;
            &&& 0 <= j < kinds.len()
            &&& 0 <= x < kinds.len()
            &&& kinds[j] == LineKind::Deleted ==> kinds[x] == LineKind::Added && j - run_start(
                kinds,
                j,
                LineKind::Deleted,
            ) == x - run_start(kinds, x, LineKind::Added)
            &&& kinds[j] == LineKind::Added ==> kinds[x] == LineKind::Deleted && j - run_start(
                kinds,
                j,
                LineKind::Added,
            ) == x - run_start(kinds, x, LineKind::Deleted)
        }),
{
    lemma_partner_involution(kinds, j);
    lemma_partner_from_in_order(kinds, 0, j);
}

/// The word-diff partner of every line of a hunk.
pub fn line_partners(lines: &[Line]) -> (partners: Vec<Option<usize>>)
    ensures
        partners@.len() == lines@.len(),
        forall|j: int| 0 <= j < lines@.len() ==> partners@[j] == partner(kinds_of(lines@), j),
{
    let ghost kinds = kinds_of(lines@);
    let mut partners: Vec<Option<usize>> = Vec::new();
    let mut k: usize = 0;
    while k < lines.len()
        invariant
            k <= lines.len(),
            partners@.len() == k,
            forall|j: int| 0 <= j < k ==> partners@[j] is None,
        decreases lines.len() - k,
    {
        partners.push(None);
        k = k + 1;
    }
    let mut i: usize = 0;
    while i < lines.len()
        invariant
            i <= lines.len(),
            kinds == kinds_of(lines@),
            partners@.len() == lines@.len(),
            forall|j: int| 0 <= j < i ==> partners@[j] == partner(kinds, j),
            forall|j: int| i <= j < lines@.len() ==> partners@[j] is None,
            forall|j: int| i <= j < lines@.len() ==> partner(kinds, j) == partner_from(kinds, i as int, j),
        decreases lines.len() - i,
    {
        if lines[i].kind == LineKind::Context {
            i = i + 1;
        } else {
            let start = i;
            let added = skip_run(lines, i, LineKind::Deleted);
            proof {
                lemma_run_end_bounds(kinds, start as int, LineKind::Deleted);
            }
            let end = skip_run(lines, added, LineKind::Added);
            proof {
                lemma_run_end_bounds(kinds, added as int, LineKind::Added);
            }
            let ghost snapshot = partners@;
            let mut j = start;
            while j < end
                invariant
                    start < end <= lines.len(),
                    start <= added <= end,
                    start <= j <= end,
                    kinds == kinds_of(lines@),
                    added == run_end(kinds, start as int, LineKind::Deleted),
                    end == run_end(kinds, added as int, LineKind::Added),
                    partners@.len() == lines@.len(),
                    forall|x: int| 0 <= x < start ==> partners@[x] == snapshot[x],
                    forall|x: int| j <= x < lines@.len() ==> partners@[x] == snapshot[x],
                    snapshot.len() == lines@.len(),
                    forall|x: int| #![trigger snapshot[x]] start <= x < lines@.len() ==> snapshot[x] is None,
                    forall|x: int| start <= x < j ==> partners@[x] == partner_from(kinds, start as int, x),
                decreases end - j,
            {
                let p = if j < added {
                    let o = j - start;
                    if o < end - added { Some(added + o) } else { None }
                } else {
                    let o = j - added;
                    if o < added - start { Some(start + o) } else { None }
                };
                partners.set(j, p);
                j = j + 1;
            }
            assert forall|x: int| end <= x < lines@.len() implies partners@[x] is None by {
                assert(partners@[x] == snapshot[x]);
                assert(start <= x);
            }
            i = end;
        }
    }
    partners
}

/// The word-diff span of every line of a hunk: the changed bytes of a line
/// against its partner, or `None` for a line without one.
pub fn word_spans(lines: &[Line]) -> (spans: Vec<Option<std::ops::Range<usize>>>)
    ensures
        spans@.len() == lines@.len(),
        forall|j: int| 0 <= j < lines@.len() ==> (spans@[j] is None <==> partner(kinds_of(lines@), j) is None),
        forall|j: int| #![trigger spans@[j]] 0 <= j < lines@.len() && spans@[j] is Some ==> {
            let p = partner(kinds_of(lines@), j)->0 as int;
            &&& spans@[j]->0.start == span_start(lines@[j].text@, lines@[p].text@)
            &&& spans@[j]->0.end == span_end(lines@[j].text@, lines@[p].text@)
        },
{
    let partners = line_partners(lines);
    let mut spans: Vec<Option<std::ops::Range<usize>>> = Vec::new();
    let mut j: usize = 0;
    while j < lines.len()
        invariant
            j <= lines.len(),
            partners@.len() == lines@.len(),
            forall|x: int| 0 <= x < lines@.len() ==> partners@[x] == partner(kinds_of(lines@), x),
            spans@.len() == j,
            forall|x: int| 0 <= x < j ==> (spans@[x] is None <==> partner(kinds_of(lines@), x) is None),
            forall|x: int| #![trigger spans@[x]] 0 <= x < j && spans@[x] is Some ==> {
                let p = partner(kinds_of(lines@), x)->0 as int;
                &&& spans@[x]->0.start == span_start(lines@[x].text@, lines@[p].text@)
                &&& spans@[x]->0.end == span_end(lines@[x].text@, lines@[p].text@)
            },
        decreases lines.len() - j,
    {
        match partners[j] {
            Some(p) => {
                proof {
                    lemma_partner_involution(kinds_of(lines@), j as int);
                }
                let r = changed_span(lines[j].text.as_str(), lines[p].text.as_str());
                spans.push(Some(r));
            },
            None => {
                spans.push(None);
            },
        }
        j = j + 1;
    }
    spans
}

} // verus!
