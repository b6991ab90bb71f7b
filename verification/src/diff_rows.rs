//! The row index of the virtual diff list: one row per file header, preview,
//! hidden-context gap, revealed context line and code line, and the anchor
//! that keeps the scroll position across a rebuild.

use vstd::prelude::*;
use crate::diff::{kinds_of, split_pairs, split_rows, FileDiff, Hunk, LineKind};
use crate::hunk_header::{hunk_new_end, hunk_new_start, old_end_of, old_start_of};
use crate::text::{
    chars_of, contains_chars, ends_with, ends_with_str, has_name, is_infix, list_has_name,
    lowercase, same_str, to_lower,
};

verus! {

/// What a row of the diff list shows.
#[derive(Clone, Copy, Debug, PartialEq, Eq, Structural)]
pub enum RowKind {
    Header,
    Preview,
    Binary,
    /// `count` unchanged lines hidden before hunk `hunk`.
    Gap { hunk: usize, count: u32 },
    /// Line `number` of the new file, revealed above hunk `hunk`.
    Context { hunk: usize, number: u32 },
    /// Lines of hunk `hunk`: the old side and the new side, by line index.
    Code { hunk: usize, left: Option<usize>, right: Option<usize> },
}

/// A row of the diff list: the file it belongs to and what it shows.
#[derive(Clone, Copy, Debug, PartialEq, Eq, Structural)]
pub struct Row {
    pub file: usize,
    pub kind: RowKind,
}

/// Two rows stand for the same place: the same file, and either the same
/// code line (the right side, else the left side, of `a` found on either
/// side of `b`) or the same kind of row.
pub open spec fn anchors(a: Row, b: Row) -> bool {
    a.file == b.file && match (a.kind, b.kind) {
        (
            RowKind::Code { hunk, left, right },
            RowKind::Code { hunk: other_hunk, left: other_left, right: other_right },
        ) => {
            let line = if right is Some { right } else { left };
            hunk == other_hunk && line is Some && (line == other_left || line == other_right)
        },
        _ => a.kind == b.kind,
    }
}

impl Row {
    /// Whether `other` stands for the same place as `self`.
    pub fn same_anchor(self, other: Self) -> (r: bool)
        ensures
            r == anchors(self, other),
    {
        if self.file != other.file {
            return false;
        }
        match (self.kind, other.kind) {
            (
                RowKind::Code { hunk, left, right },
                RowKind::Code { hunk: other_hunk, left: other_left, right: other_right },
            ) => {
                let line = match right {
                    Some(r) => Some(r),
                    None => left,
                };
                hunk == other_hunk && line.is_some() && (line == other_left || line
                    == other_right)
            },
            _ => self.kind == other.kind,
        }
    }
}

/// The comment being written under a code line: the file, the line number
/// and whether it is an old-side (deleted) line.
#[derive(Clone, Debug, PartialEq, Eq)]
pub struct InlineComment {
    pub path: String,
    pub line: u32,
    pub old: bool,
}

/// What the diff rows are built from, besides the files: the lowercase file
/// filter, the collapsed files, the hunks whose hidden context is revealed
/// (by path and hunk index), and the view options.
#[derive(Clone, Debug)]
pub struct RowsKey {
    pub generation: u64,
    pub count: usize,
    pub loading: bool,
    pub filter: String,
    pub collapsed: Vec<String>,
    pub expanded: Vec<(String, usize)>,
    pub split: bool,
    pub rich: bool,
}

/// The state of the pull-request view that its decisions read: the files
/// of the diff, the lines loaded for some of them (by path), the comment
/// being written, and the write in flight with the notice it shows.
#[derive(Clone, Debug)]
pub struct PullRequestsView {
    pub diff: Vec<FileDiff>,
    pub file_lines: Vec<(String, Vec<String>)>,
    pub inline_comment: Option<InlineComment>,
    /// Counts the selections; a write's result applies to the selection it
    /// started under only.
    pub detail_generation: u64,
    pub mutation_pending: bool,
    pub notice: Option<String>,
}

/// `list` holds the pair `(path, index)`.
pub open spec fn has_pair(list: Seq<(String, usize)>, path: Seq<char>, index: usize) -> bool {
    exists|i: int| 0 <= i < list.len() && #[trigger] list[i].0@ == path && list[i].1 == index
}

/// How many lines are loaded for `path`: those of the first entry for it.
pub open spec fn loaded_lines(list: Seq<(String, Vec<String>)>, path: Seq<char>) -> Option<nat>
    decreases list.len(),
{
    if list.len() == 0 {
        None
    } else if list[0].0@ == path {
        Some(list[0].1@.len())
    } else {
        loaded_lines(list.skip(1), path)
    }
}

/// A file passes the filter when the filter is empty or occurs in its
/// lowercase path.
pub open spec fn file_shown(path: Seq<char>, filter: Seq<char>) -> bool {
    filter.len() == 0 || is_infix(filter, lowercase(path))
}

/// A Markdown file that is not deleted shows a rendered preview in rich
/// mode.
pub open spec fn shows_preview(file: FileDiff, rich: bool) -> bool {
    rich && ends_with(file.path@, seq!['.', 'm', 'd']) && file.status != 'D'
}

/// The file's hunks are listed: it is shown, not collapsed, not previewed
/// and not binary.
pub open spec fn lists_hunks(file: FileDiff, key: RowsKey) -> bool {
    &&& file_shown(file.path@, key.filter@)
    &&& !has_name(key.collapsed@, file.path@)
    &&& !shows_preview(file, key.rich)
    &&& !file.binary
}

/// Every hunk but the last ends at a line that fits in a `u32`.
pub open spec fn ends_fit(hunks: Seq<Hunk>) -> bool {
    forall|h: int|
        0 <= h < hunks.len() - 1 ==> (#[trigger] old_end_of(hunks[h].header@) matches Some(e)
            ==> e <= u32::MAX)
}

/// The first line after the previous hunk (by the headers' old-file field,
/// see `hunk_new_start`): 1 for the first hunk,
/// else one past the previous hunk's end (at most `u32::MAX`), or 1 when
/// that header does not parse.
pub open spec fn hunk_first(hunks: Seq<Hunk>, h: int) -> int {
    if h == 0 {
        1
    } else {
        match old_end_of(hunks[h - 1].header@) {
            Some(end) => if end + 1 > u32::MAX {
                u32::MAX as int
            } else {
                end + 1
            },
            None => 1,
        }
    }
}

/// The number of unchanged lines hidden between the previous hunk and hunk
/// `h` (a header that does not parse starts at line 1).
pub open spec fn hunk_gap(hunks: Seq<Hunk>, h: int) -> int {
    let start = match old_start_of(hunks[h].header@) {
        Some(s) => s as int,
        None => 1,
    };
    if start > hunk_first(hunks, h) {
        start - hunk_first(hunks, h)
    } else {
        0
    }
}

/// How many revealed lines a gap shows: the gap, but no more than the loaded
/// lines from `first` on.
pub open spec fn context_count(gap: int, first: int, loaded: nat) -> int {
    let available = if loaded > first - 1 {
        loaded - (first - 1)
    } else {
        0
    };
    if gap < available {
        gap
    } else {
        available
    }
}

/// The rows before the code of hunk `h` of file `i`: the revealed lines when
/// the hunk is expanded and the file's lines are loaded, else one gap row
/// when lines are hidden.
pub open spec fn gap_rows(view: PullRequestsView, key: RowsKey, i: int, h: int) -> Seq<Row> {
    let file = view.diff@[i];
    let hunks = file.hunks@;
    let first = hunk_first(hunks, h);
    let gap = hunk_gap(hunks, h);
    if has_pair(key.expanded@, file.path@, h as usize) {
        match loaded_lines(view.file_lines@, file.path@) {
            Some(n) => Seq::new(
                context_count(gap, first, n) as nat,
                |o: int|
                    Row {
                        file: i as usize,
                        kind: RowKind::Context { hunk: h as usize, number: (first + o) as u32 },
                    },
            ),
            None => Seq::empty(),
        }
    } else if gap > 0 {
        seq![Row { file: i as usize, kind: RowKind::Gap { hunk: h as usize, count: gap as u32 } }]
    } else {
        Seq::empty()
    }
}

/// The code rows of hunk `h` of file `i`: the split pairs side by side, or
/// one row per line, deleted lines on the left and the others on the right.
pub open spec fn code_rows(view: PullRequestsView, key: RowsKey, i: int, h: int) -> Seq<Row> {
    let lines = view.diff@[i].hunks@[h].lines@;
    if key.split {
        split_rows(kinds_of(lines)).map_values(
            |p: (Option<usize>, Option<usize>)|
                Row { file: i as usize, kind: RowKind::Code { hunk: h as usize, left: p.0, right: p.1 } },
        )
    } else {
        Seq::new(
            lines.len(),
            |k: int|
                Row {
                    file: i as usize,
                    kind: RowKind::Code {
                        hunk: h as usize,
                        left: if lines[k].kind == LineKind::Deleted {
                            Some(k as usize)
                        } else {
                            None
                        },
                        right: if lines[k].kind == LineKind::Deleted {
                            None
                        } else {
                            Some(k as usize)
                        },
                    },
                },
        )
    }
}

/// The rows of the first `n` hunks of file `i`.
pub open spec fn hunks_rows(view: PullRequestsView, key: RowsKey, i: int, n: int) -> Seq<Row>
    decreases n,
{
    if n <= 0 {
        Seq::empty()
    } else {
        hunks_rows(view, key, i, n - 1) + gap_rows(view, key, i, n - 1) + code_rows(
            view,
            key,
            i,
            n - 1,
        )
    }
}

/// The rows of file `i`: nothing when the filter hides it, else its header,
/// then nothing when collapsed, a preview, a binary notice, or its hunks.
pub open spec fn file_rows(view: PullRequestsView, key: RowsKey, i: int) -> Seq<Row> {
    let file = view.diff@[i];
    let header = seq![Row { file: i as usize, kind: RowKind::Header }];
    if !file_shown(file.path@, key.filter@) {
        Seq::empty()
    } else if has_name(key.collapsed@, file.path@) {
        header
    } else if shows_preview(file, key.rich) {
        header.push(Row { file: i as usize, kind: RowKind::Preview })
    } else if file.binary {
        header.push(Row { file: i as usize, kind: RowKind::Binary })
    } else {
        header + hunks_rows(view, key, i, file.hunks@.len() as int)
    }
}

/// The rows of the first `n` files.
pub open spec fn diff_rows(view: PullRequestsView, key: RowsKey, n: int) -> Seq<Row>
    decreases n,
{
    if n <= 0 {
        Seq::empty()
    } else {
        diff_rows(view, key, n - 1) + file_rows(view, key, n - 1)
    }
}

/// The hunk ends that the rows are computed from fit in a `u32`.
pub open spec fn rows_computable(view: PullRequestsView, key: RowsKey) -> bool {
    forall|i: int|
        0 <= i < view.diff@.len() && #[trigger] lists_hunks(view.diff@[i], key) ==> ends_fit(
            view.diff@[i].hunks@,
        )
}

/// Whether `list` holds the pair `(path, index)`.
fn list_has_pair(list: &Vec<(String, usize)>, path: &str, index: usize) -> (r: bool)
    ensures
        r == has_pair(list@, path@, index),
{
    let mut i: usize = 0;
    while i < list.len()
        invariant
            i <= list.len(),
            forall|j: int| 0 <= j < i ==> !(list@[j].0@ == path@ && list@[j].1 == index),
        decreases list.len() - i,
    {
        if list[i].1 == index && same_str(list[i].0.as_str(), path) {
            assert(list@[i as int].0@ == path@);
            return true;
        }
        i = i + 1;
    }
    false
}

/// The number of lines loaded for `path`, if any.
fn lines_loaded(list: &Vec<(String, Vec<String>)>, path: &str) -> (r: Option<usize>)
    ensures
        r matches Some(n) ==> loaded_lines(list@, path@) == Some(n as nat),
        r is None ==> loaded_lines(list@, path@) is None,
{
    let mut i: usize = 0;
    assert(list@.skip(0) =~= list@);
    while i < list.len()
        invariant
            i <= list.len(),
            loaded_lines(list@, path@) == loaded_lines(list@.skip(i as int), path@),
        decreases list.len() - i,
    {
        assert(list@.skip(i as int)[0] == list@[i as int]);
        assert(list@.skip(i as int).skip(1) =~= list@.skip(i + 1));
        if same_str(list[i].0.as_str(), path) {
            return Some(list[i].1.len());
        }
        i = i + 1;
    }
    None
}

impl PullRequestsView {
    /// The rows before the code of hunk `h` of file `i`.
    fn push_gap_rows(&self, key: &RowsKey, i: usize, h: usize, rows: &mut Vec<Row>)
        requires
            i < self.diff@.len(),
            h < self.diff@[i as int].hunks@.len(),
            lists_hunks(self.diff@[i as int], *key),
            ends_fit(self.diff@[i as int].hunks@),
        ensures
            final(rows)@ == old(rows)@ + gap_rows(*self, *key, i as int, h as int),
    {
        let file = &self.diff[i];
        let ghost hunks = file.hunks@;
        let start: u32 = if h == 0 {
            1
        } else {
            match hunk_new_end(file.hunks[h - 1].header.as_str()) {
                Some(end) => end.saturating_add(1),
                None => 1,
            }
        };
        assert(start == hunk_first(hunks, h as int));
        let gap: u32 = match hunk_new_start(file.hunks[h].header.as_str()) {
            Some(s) => s,
            None => 1,
        }.saturating_sub(start);
        assert(gap == hunk_gap(hunks, h as int));
        if list_has_pair(&key.expanded, file.path.as_str(), h) {
            match lines_loaded(&self.file_lines, file.path.as_str()) {
                Some(n) => {
                    let available = n.saturating_sub((start - 1) as usize);
                    let count = if (gap as usize) < available {
                        gap as usize
                    } else {
                        available
                    };
                    assert(count == context_count(gap as int, start as int, n as nat));
                    let ghost before = rows@;
                    let ghost added = gap_rows(*self, *key, i as int, h as int);
                    let mut o: usize = 0;
                    while o < count
                        invariant
                            o <= count,
                            count <= gap,
                            start as int + gap as int <= u32::MAX,
                            added.len() == count,
                            forall|k: int|
                                0 <= k < count ==> #[trigger] added[k] == (Row {
                                    file: i,
                                    kind: RowKind::Context { hunk: h, number: (start + k) as u32 },
                                }),
                            rows@ == before + added.take(o as int),
                        decreases count - o,
                    {
                        rows.push(Row { file: i, kind: RowKind::Context { hunk: h, number: start + o as u32 } });
                        o = o + 1;
                        assert(added.take(o as int) =~= added.take(o - 1).push(added[o - 1]));
                    }
                    assert(added.take(count as int) =~= added);
                },
                None => {
                    assert(rows@ + gap_rows(*self, *key, i as int, h as int) =~= rows@);
                },
            }
        } else if gap > 0 {
            rows.push(Row { file: i, kind: RowKind::Gap { hunk: h, count: gap } });
        } else {
            assert(rows@ + gap_rows(*self, *key, i as int, h as int) =~= rows@);
        }
    }

    /// The code rows of hunk `h` of file `i`.
    fn push_code_rows(&self, key: &RowsKey, i: usize, h: usize, rows: &mut Vec<Row>)
        requires
            i < self.diff@.len(),
            h < self.diff@[i as int].hunks@.len(),
        ensures
            final(rows)@ == old(rows)@ + code_rows(*self, *key, i as int, h as int),
    {
        let lines = &self.diff[i].hunks[h].lines;
        let ghost before = rows@;
        let ghost added = code_rows(*self, *key, i as int, h as int);
        if key.split {
            let pairs = split_pairs(lines.as_slice());
            let mut k: usize = 0;
            while k < pairs.len()
                invariant
                    k <= pairs@.len(),
                    added.len() == pairs@.len(),
                    forall|x: int|
                        0 <= x < pairs@.len() ==> #[trigger] added[x] == (Row {
                            file: i,
                            kind: RowKind::Code { hunk: h, left: pairs@[x].0, right: pairs@[x].1 },
                        }),
                    rows@ == before + added.take(k as int),
                decreases pairs.len() - k,
            {
                let (left, right) = pairs[k];
                rows.push(Row { file: i, kind: RowKind::Code { hunk: h, left, right } });
                k = k + 1;
                assert(added.take(k as int) =~= added.take(k - 1).push(added[k - 1]));
            }
            assert(added.take(pairs@.len() as int) =~= added);
        } else {
            let mut k: usize = 0;
            while k < lines.len()
                invariant
                    k <= lines@.len(),
                    *lines == self.diff@[i as int].hunks@[h as int].lines,
                    added.len() == lines@.len(),
                    forall|x: int|
                        0 <= x < lines@.len() ==> #[trigger] added[x] == (Row {
                            file: i,
                            kind: RowKind::Code {
                                hunk: h,
                                left: if lines@[x].kind == LineKind::Deleted {
                                    Some(x as usize)
                                } else {
                                    None
                                },
                                right: if lines@[x].kind == LineKind::Deleted {
                                    None
                                } else {
                                    Some(x as usize)
                                },
                            },
                        }),
                    rows@ == before + added.take(k as int),
                decreases lines.len() - k,
            {
                let old = lines[k].kind == LineKind::Deleted;
                let left = if old {
                    Some(k)
                } else {
                    None
                };
                let right = if old {
                    None
                } else {
                    Some(k)
                };
                rows.push(Row { file: i, kind: RowKind::Code { hunk: h, left, right } });
                k = k + 1;
                assert(added.take(k as int) =~= added.take(k - 1).push(added[k - 1]));
            }
            assert(added.take(lines@.len() as int) =~= added);
        }
    }

    /// The rows of file `i`.
    fn push_file_rows(&self, key: &RowsKey, filter: &Vec<char>, i: usize, rows: &mut Vec<Row>)
        requires
            i < self.diff@.len(),
            filter@ == key.filter@,
            rows_computable(*self, *key),
        ensures
            final(rows)@ == old(rows)@ + file_rows(*self, *key, i as int),
    {
        let file = &self.diff[i];
        let shown = if filter.len() > 0 {
            let lower = to_lower(file.path.as_str());
            let lower_chars = chars_of(lower.as_str());
            contains_chars(&lower_chars, filter)
        } else {
            true
        };
        if !shown {
            assert(rows@ + file_rows(*self, *key, i as int) =~= rows@);
            return;
        }
        assert(file_shown(file.path@, key.filter@));
        rows.push(Row { file: i, kind: RowKind::Header });
        if list_has_name(key.collapsed.as_slice(), file.path.as_str()) {
            return;
        }
        let markdown = ends_with_str(file.path.as_str(), ".md");
        proof {
            reveal_strlit(".md");
            assert(".md"@ =~= seq!['.', 'm', 'd']);
        }
        if key.rich && markdown && file.status != 'D' {
            rows.push(Row { file: i, kind: RowKind::Preview });
            return;
        }
        if file.binary {
            rows.push(Row { file: i, kind: RowKind::Binary });
            return;
        }
        assert(lists_hunks(self.diff@[i as int], *key));
        let ghost base = rows@;
        let mut h: usize = 0;
        while h < file.hunks.len()
            invariant
                i < self.diff@.len(),
                *file == self.diff@[i as int],
                h <= file.hunks@.len(),
                lists_hunks(self.diff@[i as int], *key),
                ends_fit(self.diff@[i as int].hunks@),
                rows@ == base + hunks_rows(*self, *key, i as int, h as int),
            decreases file.hunks.len() - h,
        {
            self.push_gap_rows(key, i, h, rows);
            self.push_code_rows(key, i, h, rows);
            h = h + 1;
        }
    }

    /// The rows of the diff list: for each file that passes the filter, its
    /// header, then its preview, binary notice or hunks unless it is
    /// collapsed; before each hunk, the revealed context lines or a gap row
    /// for the hidden ones.
    pub fn build_diff_rows(&self, key: &RowsKey) -> (rows: Vec<Row>)
        requires
            rows_computable(*self, *key),
        ensures
            rows@ == diff_rows(*self, *key, self.diff@.len() as int),
    {
        let filter = chars_of(key.filter.as_str());
        let mut rows: Vec<Row> = Vec::new();
        let mut i: usize = 0;
        while i < self.diff.len()
            invariant
                i <= self.diff@.len(),
                filter@ == key.filter@,
                rows_computable(*self, *key),
                rows@ == diff_rows(*self, *key, i as int),
            decreases self.diff.len() - i,
        {
            self.push_file_rows(key, &filter, i, &mut rows);
            i = i + 1;
        }
        rows
    }
}

/// The comment's line is read from `row`: the inline comment names the
/// row's file and the row is a code row with a line on the comment's side.
pub open spec fn reads_inline_line(view: PullRequestsView, row: Row) -> bool {
    match view.inline_comment {
        Some(c) => view.diff@[row.file as int].path@ == c.path@ && match row.kind {
            RowKind::Code { hunk, left, right } => (if c.old {
                left
            } else {
                right
            }) is Some,
            _ => false,
        },
        None => false,
    }
}

/// The inline comment sits under `row`: the row shows, on the comment's
/// side, the line of the comment's file with the comment's line number.
pub open spec fn has_inline(view: PullRequestsView, row: Row) -> bool {
    reads_inline_line(view, row) && {
        let c = view.inline_comment->0;
        let (hunk, index) = match row.kind {
            RowKind::Code { hunk, left, right } => (hunk, if c.old {
                left->0
            } else {
                right->0
            }),
            _ => (0, 0),
        };
        let line = view.diff@[row.file as int].hunks@[hunk as int].lines@[index as int];
        (if c.old {
            line.old
        } else {
            line.new
        }) == Some(c.line)
    }
}

/// A row points at a file of the view and, where it names them, at a hunk
/// and lines of that file; a code row has a line on one side at least.
pub open spec fn row_valid(view: PullRequestsView, row: Row) -> bool {
    row.file < view.diff@.len() && {
        let hunks = view.diff@[row.file as int].hunks@;
        match row.kind {
            RowKind::Gap { hunk, .. } => hunk < hunks.len(),
            RowKind::Context { hunk, .. } => hunk < hunks.len(),
            RowKind::Code { hunk, left, right } => hunk < hunks.len() && {
                let n = hunks[hunk as int].lines@.len();
                &&& left matches Some(x) ==> x < n
                &&& right matches Some(y) ==> y < n
                &&& left is Some || right is Some
            },
            _ => true,
        }
    }
}

proof fn lemma_all_concat(a: Seq<Row>, b: Seq<Row>, p: spec_fn(Row) -> bool)
    requires
        forall|k: int| 0 <= k < a.len() ==> p(#[trigger] a[k]),
        forall|k: int| 0 <= k < b.len() ==> p(#[trigger] b[k]),
    ensures
        forall|k: int| 0 <= k < (a + b).len() ==> p(#[trigger] (a + b)[k]),
{
    assert forall|k: int| 0 <= k < (a + b).len() implies p(#[trigger] (a + b)[k]) by {
        if k < a.len() {
            assert((a + b)[k] == a[k]);
        } else {
            assert((a + b)[k] == b[k - a.len()]);
        }
    }
}

proof fn lemma_hunk_rows_valid(view: PullRequestsView, key: RowsKey, i: int, h: int)
    requires
        0 <= i < view.diff@.len(),
        0 <= h < view.diff@[i].hunks@.len(),
    ensures
        forall|k: int|
            0 <= k < gap_rows(view, key, i, h).len() ==> row_valid(
                view,
                #[trigger] gap_rows(view, key, i, h)[k],
            ),
        forall|k: int|
            0 <= k < code_rows(view, key, i, h).len() ==> row_valid(
                view,
                #[trigger] code_rows(view, key, i, h)[k],
            ),
{
    let lines = view.diff@[i].hunks@[h].lines;
    assert(lines@.len() == lines.len());
    assert(view.diff@.len() == view.diff.len());
    assert(view.diff@[i].hunks@.len() == view.diff@[i].hunks.len());
    let kinds = kinds_of(lines@);
    assert(kinds.len() == lines@.len());
    if key.split {
        crate::diff::lemma_pairs_from_sides(kinds, 0);
        assert forall|k: int| 0 <= k < code_rows(view, key, i, h).len() implies row_valid(
            view,
            #[trigger] code_rows(view, key, i, h)[k],
        ) by {
            assert(crate::diff::good_pair(kinds, 0, split_rows(kinds)[k]));
        }
    } else {
        assert forall|k: int| 0 <= k < code_rows(view, key, i, h).len() implies row_valid(
            view,
            #[trigger] code_rows(view, key, i, h)[k],
        ) by {
            assert(k < lines@.len());
        }
    }
}

proof fn lemma_hunks_rows_valid(view: PullRequestsView, key: RowsKey, i: int, n: int)
    requires
        0 <= i < view.diff@.len(),
        n <= view.diff@[i].hunks@.len(),
    ensures
        forall|k: int|
            0 <= k < hunks_rows(view, key, i, n).len() ==> row_valid(
                view,
                #[trigger] hunks_rows(view, key, i, n)[k],
            ),
    decreases n,
{
    if n > 0 {
        lemma_hunks_rows_valid(view, key, i, n - 1);
        lemma_hunk_rows_valid(view, key, i, n - 1);
        let p = |r: Row| row_valid(view, r);
        lemma_all_concat(hunks_rows(view, key, i, n - 1), gap_rows(view, key, i, n - 1), p);
        lemma_all_concat(
            hunks_rows(view, key, i, n - 1) + gap_rows(view, key, i, n - 1),
            code_rows(view, key, i, n - 1),
            p,
        );
    }
}

proof fn lemma_file_rows_valid(view: PullRequestsView, key: RowsKey, i: int)
    requires
        0 <= i < view.diff@.len(),
    ensures
        forall|k: int|
            0 <= k < file_rows(view, key, i).len() ==> row_valid(
                view,
                #[trigger] file_rows(view, key, i)[k],
            ),
{
    assert(view.diff@.len() == view.diff.len());
    let header = seq![Row { file: i as usize, kind: RowKind::Header }];
    lemma_hunks_rows_valid(view, key, i, view.diff@[i].hunks@.len() as int);
    lemma_all_concat(
        header,
        hunks_rows(view, key, i, view.diff@[i].hunks@.len() as int),
        |r: Row| row_valid(view, r),
    );
}

/// Every row of the diff list points at a file of the view and, where it
/// names them, at a hunk and lines of that file, and every code row shows a
/// line on one side at least.
pub proof fn lemma_diff_rows_valid(view: PullRequestsView, key: RowsKey, n: int)
    requires
        n <= view.diff@.len(),
    ensures
        forall|k: int|
            0 <= k < diff_rows(view, key, n).len() ==> row_valid(
                view,
                #[trigger] diff_rows(view, key, n)[k],
            ),
    decreases n,
{
    if n > 0 {
        lemma_diff_rows_valid(view, key, n - 1);
        lemma_file_rows_valid(view, key, n - 1);
        lemma_all_concat(
            diff_rows(view, key, n - 1),
            file_rows(view, key, n - 1),
            |r: Row| row_valid(view, r),
        );
    }
}

/// A valid row stands for its own place, so a list that still holds the
/// anchor row scrolls back to it exactly.
pub proof fn lemma_valid_row_anchors_itself(view: PullRequestsView, row: Row)
    requires
        row_valid(view, row),
    ensures
        anchors(row, row),
{
}

impl PullRequestsView {
    /// Whether the inline comment sits under `row`.
    pub fn row_has_inline(&self, row: Row) -> (r: bool)
        requires
            self.inline_comment is Some ==> row.file < self.diff@.len(),
            reads_inline_line(*self, row) ==> row_valid(*self, row),
        ensures
            r == has_inline(*self, row),
    {
        let inline = match &self.inline_comment {
            None => return false,
            Some(c) => c,
        };
        if !same_str(self.diff[row.file].path.as_str(), inline.path.as_str()) {
            return false;
        }
        let (hunk, left, right) = match row.kind {
            RowKind::Code { hunk, left, right } => (hunk, left, right),
            _ => return false,
        };
        let index = if inline.old {
            left
        } else {
            right
        };
        match index {
            None => false,
            Some(k) => {
                let line = &self.diff[row.file].hunks[hunk].lines[k];
                let number = if inline.old {
                    line.old
                } else {
                    line.new
                };
                number == Some(inline.line)
            },
        }
    }
}

/// The rows of the diff list and, per file, hunk and line, the line's
/// word-diff partner.
pub struct DiffViewport {
    pub rows: Vec<Row>,
    pub partners: Vec<Vec<Vec<Option<usize>>>>,
}

/// The partner table's entry for a line, or `None` outside the table.
pub open spec fn partner_at(
    partners: Seq<Vec<Vec<Option<usize>>>>,
    file: int,
    hunk: int,
    line: int,
) -> Option<usize> {
    if 0 <= file < partners.len() && 0 <= hunk < partners[file]@.len() && 0 <= line
        < partners[file]@[hunk]@.len() {
        partners[file]@[hunk]@[line]
    } else {
        None
    }
}

/// The first row at or after `from` that `anchor` stands for.
pub open spec fn anchor_index(rows: Seq<Row>, anchor: Row, from: int) -> Option<int>
    decreases rows.len() - from,
{
    if from < 0 || from >= rows.len() {
        None
    } else if anchors(anchor, rows[from]) {
        Some(from)
    } else {
        anchor_index(rows, anchor, from + 1)
    }
}

/// The first header row of `file` at or after `from`.
pub open spec fn header_index(rows: Seq<Row>, file: usize, from: int) -> Option<int>
    decreases rows.len() - from,
{
    if from < 0 || from >= rows.len() {
        None
    } else if rows[from] == (Row { file, kind: RowKind::Header }) {
        Some(from)
    } else {
        header_index(rows, file, from + 1)
    }
}

/// Where the list scrolls after a rebuild: the first row the anchor stands
/// for, keeping the offset into it; else the anchor file's header, or the
/// top, from their start.
pub open spec fn restore_target(rows: Seq<Row>, anchor: Option<Row>) -> (int, bool) {
    match anchor {
        None => (0, false),
        Some(a) => match anchor_index(rows, a, 0) {
            Some(k) => (k, true),
            None => match header_index(rows, a.file, 0) {
                Some(k) => (k, false),
                None => (0, false),
            },
        },
    }
}

proof fn lemma_anchor_index_finds(rows: Seq<Row>, anchor: Row, from: int, k: int)
    requires
        0 <= from <= k < rows.len(),
        anchors(anchor, rows[k]),
    ensures
        anchor_index(rows, anchor, from) matches Some(j) && from <= j <= k && anchors(anchor, rows[j]),
    decreases k - from,
{
    if !anchors(anchor, rows[from]) {
        lemma_anchor_index_finds(rows, anchor, from + 1, k);
    }
}

/// After a rebuild that keeps a row the anchor stands for, the list scrolls
/// to such a row, at or before it, and keeps the offset.
pub proof fn lemma_restore_keeps_anchor(rows: Seq<Row>, anchor: Row, k: int)
    requires
        0 <= k < rows.len(),
        anchors(anchor, rows[k]),
    ensures
        restore_target(rows, Some(anchor)).1,
        restore_target(rows, Some(anchor)).0 <= k,
        anchors(anchor, rows[restore_target(rows, Some(anchor)).0]),
{
    lemma_anchor_index_finds(rows, anchor, 0, k);
}

/// The word-diff partners of every line of every hunk of every file.
pub fn diff_partners(diff: &Vec<FileDiff>) -> (r: Vec<Vec<Vec<Option<usize>>>>)
    ensures
        r@.len() == diff@.len(),
        forall|f: int|
            #![trigger r@[f]]
            0 <= f < diff@.len() ==> r@[f]@.len() == diff@[f].hunks@.len() && forall|h: int|
                #![trigger r@[f]@[h]]
                0 <= h < diff@[f].hunks@.len() ==> {
                    let lines = diff@[f].hunks@[h].lines@;
                    &&& r@[f]@[h]@.len() == lines.len()
                    &&& forall|l: int|
                        0 <= l < lines.len() ==> #[trigger] r@[f]@[h]@[l]
                            == crate::diff::partner(kinds_of(lines), l)
                },
{
    let mut r: Vec<Vec<Vec<Option<usize>>>> = Vec::new();
    let mut f: usize = 0;
    while f < diff.len()
        invariant
            f <= diff@.len(),
            r@.len() == f,
            forall|g: int|
                #![trigger r@[g]]
                0 <= g < f ==> r@[g]@.len() == diff@[g].hunks@.len() && forall|h: int|
                    #![trigger r@[g]@[h]]
                    0 <= h < diff@[g].hunks@.len() ==> {
                        let lines = diff@[g].hunks@[h].lines@;
                        &&& r@[g]@[h]@.len() == lines.len()
                        &&& forall|l: int|
                            0 <= l < lines.len() ==> #[trigger] r@[g]@[h]@[l]
                                == crate::diff::partner(kinds_of(lines), l)
                    },
        decreases diff.len() - f,
    {
        let hunks = &diff[f].hunks;
        let mut per_file: Vec<Vec<Option<usize>>> = Vec::new();
        let mut h: usize = 0;
        while h < hunks.len()
            invariant
                h <= hunks@.len(),
                per_file@.len() == h,
                forall|x: int|
                    #![trigger per_file@[x]]
                    0 <= x < h ==> {
                        let lines = hunks@[x].lines@;
                        &&& per_file@[x]@.len() == lines.len()
                        &&& forall|l: int|
                            0 <= l < lines.len() ==> #[trigger] per_file@[x]@[l]
                                == crate::diff::partner(kinds_of(lines), l)
                    },
            decreases hunks.len() - h,
        {
            per_file.push(crate::diff::line_partners(hunks[h].lines.as_slice()));
            h = h + 1;
        }
        r.push(per_file);
        f = f + 1;
    }
    r
}

impl DiffViewport {
    /// The word-diff partner of line `line` of hunk `hunk` of file `file`.
    pub fn partner(&self, file: usize, hunk: usize, line: usize) -> (r: Option<usize>)
        ensures
            r == partner_at(self.partners@, file as int, hunk as int, line as int),
    {
        if file >= self.partners.len() {
            return None;
        }
        let hunks = &self.partners[file];
        if hunk >= hunks.len() {
            return None;
        }
        let lines = &hunks[hunk];
        if line >= lines.len() {
            return None;
        }
        lines[line]
    }

    /// The index of the header row of `file`.
    pub fn file_row(&self, file: usize) -> (r: Option<usize>)
        ensures
            r matches Some(k) ==> header_index(self.rows@, file, 0) == Some(k as int),
            r is None ==> header_index(self.rows@, file, 0) is None,
    {
        let mut k: usize = 0;
        while k < self.rows.len()
            invariant
                k <= self.rows@.len(),
                header_index(self.rows@, file, 0) == header_index(self.rows@, file, k as int),
            decreases self.rows.len() - k,
        {
            if self.rows[k] == (Row { file, kind: RowKind::Header }) {
                return Some(k);
            }
            k = k + 1;
        }
        None
    }

    /// The index of the first row that `anchor` stands for.
    fn anchor_row(&self, anchor: Row) -> (r: Option<usize>)
        ensures
            r matches Some(k) ==> anchor_index(self.rows@, anchor, 0) == Some(k as int),
            r is None ==> anchor_index(self.rows@, anchor, 0) is None,
    {
        let mut k: usize = 0;
        while k < self.rows.len()
            invariant
                k <= self.rows@.len(),
                anchor_index(self.rows@, anchor, 0) == anchor_index(self.rows@, anchor, k as int),
            decreases self.rows.len() - k,
        {
            if anchor.same_anchor(self.rows[k]) {
                return Some(k);
            }
            k = k + 1;
        }
        None
    }

    /// Where the list scrolls after a rebuild, and whether the offset into
    /// that row is kept (see `restore_target`).
    pub fn restore(&self, anchor: Option<Row>) -> (r: (usize, bool))
        ensures
            r.0 == restore_target(self.rows@, anchor).0,
            r.1 == restore_target(self.rows@, anchor).1,
    {
        match anchor {
            None => (0, false),
            Some(a) => match self.anchor_row(a) {
                Some(k) => (k, true),
                None => match self.file_row(a.file) {
                    Some(k) => (k, false),
                    None => (0, false),
                },
            },
        }
    }

    /// Rebuilds the rows for `key`, taking the partner table anew when the
    /// diff's data changed, and answers where the list scrolls: back to the
    /// row that was at the top (`top`) when the data is the same, else to the
    /// start.
    pub fn rebuild(
        &mut self,
        view: &PullRequestsView,
        key: &RowsKey,
        data_changed: bool,
        same_data: bool,
        top: usize,
    ) -> (r: (usize, bool))
        requires
            rows_computable(*view, *key),
        ensures
            final(self).rows@ == diff_rows(*view, *key, view.diff@.len() as int),
            data_changed ==> final(self).partners@.len() == view.diff@.len(),
            data_changed ==> forall|f: int, h: int, l: int|
                0 <= f < view.diff@.len() && 0 <= h < view.diff@[f].hunks@.len() && 0 <= l
                    < view.diff@[f].hunks@[h].lines@.len() ==> #[trigger] partner_at(
                    final(self).partners@,
                    f,
                    h,
                    l,
                ) == crate::diff::partner(kinds_of(view.diff@[f].hunks@[h].lines@), l),
            !data_changed ==> final(self).partners == old(self).partners,
            ({
                let anchor = if same_data && top < old(self).rows@.len() {
                    Some(old(self).rows@[top as int])
                } else {
                    None
                };
                r.0 == restore_target(final(self).rows@, anchor).0 && r.1 == restore_target(
                    final(self).rows@,
                    anchor,
                ).1
            }),
    {
        if data_changed {
            self.partners = diff_partners(&view.diff);
        }
        let anchor = if same_data && top < self.rows.len() {
            Some(self.rows[top])
        } else {
            None
        };
        self.rows = view.build_diff_rows(key);
        self.restore(anchor)
    }
}

} // verus!
