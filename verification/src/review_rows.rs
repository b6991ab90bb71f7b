//! The rows of the workspace review panel: file headers, hunk headers, code
//! lines (side by side or unified), and the comment cards and the draft
//! under the lines they belong to, with comments whose line is not shown
//! kept at the end.

use vstd::prelude::*;
use crate::diff::{kinds_of, split_pairs, split_rows, FileDiff, Line, LineKind};
use crate::text::{
    chars_of, contains_chars, ends_with, ends_with_str, has_name, is_infix, list_has_name,
    lowercase, same_str, to_lower,
};

verus! {

/// A review comment on lines `start..=end` of a file, on the old side or
/// the new side.
#[derive(Clone, Debug, PartialEq, Eq)]
pub struct ReviewComment {
    pub id: u64,
    pub path: String,
    pub start: u32,
    pub end: u32,
    pub old: bool,
    pub text: String,
}

/// The comment being written, on lines `start..=end` of file `file`.
#[derive(Clone, Copy, Debug, PartialEq, Eq, Structural)]
pub struct Draft {
    pub file: usize,
    pub start: u32,
    pub end: u32,
    pub old: bool,
}

/// A row of the review panel.
#[derive(Clone, Debug, PartialEq, Eq)]
pub enum ReviewRow {
    Header(usize),
    Hunk(usize, usize),
    Code { file: usize, left: Option<Line>, right: Option<Line> },
    Comment(u64),
    Draft,
    Binary(usize),
    Empty(usize),
    Preview(usize),
}

/// What the review rows are built from.
#[derive(Clone, Debug)]
pub struct ReviewRowsSource {
    pub files: Vec<FileDiff>,
    pub query: String,
    pub collapsed: Vec<String>,
    pub split: bool,
    pub rich: bool,
    pub comments: Vec<ReviewComment>,
    pub draft: Option<Draft>,
}

/// The query occurs in the lowercase path (an empty query in every path).
pub open spec fn path_shown(path: Seq<char>, query: Seq<char>) -> bool {
    is_infix(lowercase(query), lowercase(path))
}

/// A note on line `end` of a side sits under a code row: an old-side note
/// under the row whose left line (else right line) has that old number, a
/// new-side note under the row whose right line has that new number.
pub open spec fn note_under(left: Option<Line>, right: Option<Line>, old: bool, end: u32) -> bool {
    if old {
        match (if left is Some {
            left
        } else {
            right
        }) {
            Some(l) => l.old == Some(end),
            None => false,
        }
    } else {
        match right {
            Some(l) => l.new == Some(end),
            None => false,
        }
    }
}

/// The comment cards under a code row, for the first `n` comments.
pub open spec fn comment_cards(
    comments: Seq<ReviewComment>,
    path: Seq<char>,
    left: Option<Line>,
    right: Option<Line>,
    n: int,
) -> Seq<ReviewRow>
    decreases n,
{
    if n <= 0 {
        Seq::empty()
    } else {
        let c = comments[n - 1];
        let before = comment_cards(comments, path, left, right, n - 1);
        if c.path@ == path && note_under(left, right, c.old, c.end) {
            before.push(ReviewRow::Comment(c.id))
        } else {
            before
        }
    }
}

/// The line of a code row on one side: for the old side its left line, or
/// its right line when it has no left one; for the new side its right line.
pub open spec fn line_on_side(left: Option<Line>, right: Option<Line>, old: bool) -> Option<Line> {
    if old {
        if left is Some {
            left
        } else {
            right
        }
    } else {
        right
    }
}

/// The row's line on `c`'s side has `c`'s last line number on that side.
pub open spec fn ends_here(c: ReviewComment, left: Option<Line>, right: Option<Line>) -> bool {
    match line_on_side(left, right, c.old) {
        Some(l) => if c.old {
            l.old == Some(c.end)
        } else {
            l.new == Some(c.end)
        },
        None => false,
    }
}

/// A comment's card sits under the code row of the last line of its range:
/// every card under a row of file `path` is that of a comment on `path`
/// whose end line is the row's line on the comment's side, and every such
/// comment among the first `n` has its card there.
pub proof fn lemma_cards_under_end_line(
    comments: Seq<ReviewComment>,
    path: Seq<char>,
    left: Option<Line>,
    right: Option<Line>,
    n: int,
)
    requires
        0 <= n <= comments.len(),
    ensures
        forall|k: int|
            0 <= k < comment_cards(comments, path, left, right, n).len() ==> exists|m: int|
                0 <= m < n && #[trigger] comment_cards(comments, path, left, right, n)[k]
                    == ReviewRow::Comment(comments[m].id) && comments[m].path@ == path && ends_here(
                    comments[m],
                    left,
                    right,
                ),
        forall|m: int|
            0 <= m < n && comments[m].path@ == path && #[trigger] ends_here(comments[m], left, right)
                ==> comment_cards(comments, path, left, right, n).contains(ReviewRow::Comment(comments[m].id)),
    decreases n,
{
    if n > 0 {
        lemma_cards_under_end_line(comments, path, left, right, n - 1);
        let before = comment_cards(comments, path, left, right, n - 1);
        let now = comment_cards(comments, path, left, right, n);
        let c = comments[n - 1];
        assert forall|k: int| 0 <= k < now.len() implies exists|m: int|
            0 <= m < n && #[trigger] now[k] == ReviewRow::Comment(comments[m].id) && comments[m].path@
                == path && ends_here(comments[m], left, right) by {
            if k < before.len() {
                assert(now[k] == before[k]);
                let m = choose|m: int|
                    0 <= m < n - 1 && #[trigger] before[k] == ReviewRow::Comment(comments[m].id)
                        && comments[m].path@ == path && ends_here(comments[m], left, right);
                assert(now[k] == ReviewRow::Comment(comments[m].id));
            } else {
                assert(now[k] == ReviewRow::Comment(c.id));
            }
        }
        assert forall|m: int|
            0 <= m < n && comments[m].path@ == path && #[trigger] ends_here(comments[m], left, right)
                implies now.contains(ReviewRow::Comment(comments[m].id)) by {
            if m < n - 1 {
                let k = choose|k: int| 0 <= k < before.len() && before[k] == ReviewRow::Comment(comments[m].id);
                assert(now[k] == before[k]);
            } else {
                assert(now[now.len() - 1] == ReviewRow::Comment(c.id));
            }
        }
    }
}

/// The rows under a code row of file `f`: its comments, then the draft.
pub open spec fn note_rows(src: ReviewRowsSource, f: int, left: Option<Line>, right: Option<Line>) -> Seq<
    ReviewRow,
> {
    let cards = comment_cards(
        src.comments@,
        src.files@[f].path@,
        left,
        right,
        src.comments@.len() as int,
    );
    match src.draft {
        Some(d) => if d.file == f && note_under(left, right, d.old, d.end) {
            cards.push(ReviewRow::Draft)
        } else {
            cards
        },
        None => cards,
    }
}

/// The line on one side of a split pair.
pub open spec fn side_line(lines: Seq<Line>, side: Option<usize>) -> Option<Line> {
    match side {
        Some(i) => Some(lines[i as int]),
        None => None,
    }
}

/// The code rows of a hunk, as (left, right) lines: the split pairs side by
/// side, or each line on the right.
pub open spec fn code_units(lines: Seq<Line>, split: bool) -> Seq<(Option<Line>, Option<Line>)> {
    if split {
        split_rows(kinds_of(lines)).map_values(
            |p: (Option<usize>, Option<usize>)| (side_line(lines, p.0), side_line(lines, p.1)),
        )
    } else {
        lines.map_values(|l: Line| (None, Some(l)))
    }
}

/// The rows of the first `n` code units of file `f`: each code row, then
/// the notes under it.
pub open spec fn unit_rows(
    src: ReviewRowsSource,
    f: int,
    units: Seq<(Option<Line>, Option<Line>)>,
    n: int,
) -> Seq<ReviewRow>
    decreases n,
{
    if n <= 0 {
        Seq::empty()
    } else {
        let u = units[n - 1];
        unit_rows(src, f, units, n - 1).push(
            ReviewRow::Code { file: f as usize, left: u.0, right: u.1 },
        ) + note_rows(src, f, u.0, u.1)
    }
}

/// The rows of hunk `h` of file `f`: its header row when it has a header,
/// then its code rows.
pub open spec fn hunk_rows(src: ReviewRowsSource, f: int, h: int) -> Seq<ReviewRow> {
    let hunk = src.files@[f].hunks@[h];
    let units = code_units(hunk.lines@, src.split);
    let head = if hunk.header@.len() > 0 {
        seq![ReviewRow::Hunk(f as usize, h as usize)]
    } else {
        Seq::empty()
    };
    head + unit_rows(src, f, units, units.len() as int)
}

/// The rows of the first `n` hunks of file `f`.
pub open spec fn hunks_rows(src: ReviewRowsSource, f: int, n: int) -> Seq<ReviewRow>
    decreases n,
{
    if n <= 0 {
        Seq::empty()
    } else {
        hunks_rows(src, f, n - 1) + hunk_rows(src, f, n - 1)
    }
}

/// A Markdown file with its new text shows a rendered preview in rich mode.
pub open spec fn previews(file: FileDiff, rich: bool) -> bool {
    rich && ends_with(file.path@, seq!['.', 'm', 'd']) && file.new_text is Some
}

/// The rows of file `f`: nothing when the query hides it; else its header,
/// then nothing when collapsed, a binary notice, a preview, or its hunks
/// (with an empty notice when it has none).
pub open spec fn file_rows(src: ReviewRowsSource, f: int) -> Seq<ReviewRow> {
    let file = src.files@[f];
    let header = seq![ReviewRow::Header(f as usize)];
    if !path_shown(file.path@, src.query@) {
        Seq::empty()
    } else if has_name(src.collapsed@, file.path@) {
        header
    } else if file.binary {
        header.push(ReviewRow::Binary(f as usize))
    } else if previews(file, src.rich) {
        header.push(ReviewRow::Preview(f as usize))
    } else {
        let empty = if file.hunks@.len() == 0 {
            seq![ReviewRow::Empty(f as usize)]
        } else {
            Seq::empty()
        };
        header + empty + hunks_rows(src, f, file.hunks@.len() as int)
    }
}

/// The rows of the first `n` files.
pub open spec fn files_rows(src: ReviewRowsSource, n: int) -> Seq<ReviewRow>
    decreases n,
{
    if n <= 0 {
        Seq::empty()
    } else {
        files_rows(src, n - 1) + file_rows(src, n - 1)
    }
}

/// `rows` holds the card of comment `id`.
pub open spec fn has_card(rows: Seq<ReviewRow>, id: u64) -> bool {
    exists|k: int| 0 <= k < rows.len() && #[trigger] rows[k] == ReviewRow::Comment(id)
}

/// `rows`, then a card for each of the first `n` comments that has none
/// yet.
pub open spec fn with_orphans(rows: Seq<ReviewRow>, comments: Seq<ReviewComment>, n: int) -> Seq<
    ReviewRow,
>
    decreases n,
{
    if n <= 0 {
        rows
    } else {
        let before = with_orphans(rows, comments, n - 1);
        if has_card(before, comments[n - 1].id) {
            before
        } else {
            before.push(ReviewRow::Comment(comments[n - 1].id))
        }
    }
}

/// All rows of the review panel.
pub closed spec fn review_rows(src: ReviewRowsSource) -> Seq<ReviewRow> {
    with_orphans(
        files_rows(src, src.files@.len() as int),
        src.comments@,
        src.comments@.len() as int,
    )
}

/// Every file that the query shows has its header row among the rows.
pub proof fn lemma_shown_file_has_header(src: ReviewRowsSource, i: int)
    requires
        0 <= i < src.files@.len(),
        path_shown(src.files@[i].path@, src.query@),
    ensures
        exists|k: int| 0 <= k < review_rows(src).len() && #[trigger] review_rows(src)[k] == ReviewRow::Header(
            i as usize,
        ),
{
    let n = src.files@.len() as int;
    let before = files_rows(src, i);
    assert(file_rows(src, i)[0] == ReviewRow::Header(i as usize));
    assert(files_rows(src, i + 1)[before.len() as int] == ReviewRow::Header(i as usize));
    lemma_rows_keep(src, i + 1, n, before.len() as int);
    lemma_orphans_keep(files_rows(src, n), src.comments@, src.comments@.len() as int, before.len() as int);
    assert(review_rows(src)[before.len() as int] == ReviewRow::Header(i as usize));
}

/// Rows of later files come after those of earlier ones.
proof fn lemma_rows_keep(src: ReviewRowsSource, m: int, n: int, k: int)
    requires
        0 <= m <= n,
        0 <= k < files_rows(src, m).len(),
    ensures
        k < files_rows(src, n).len(),
        files_rows(src, n)[k] == files_rows(src, m)[k],
    decreases n - m,
{
    if m < n {
        lemma_rows_keep(src, m, n - 1, k);
    }
}

/// Orphan cards are only appended.
proof fn lemma_orphans_keep(rows: Seq<ReviewRow>, comments: Seq<ReviewComment>, n: int, k: int)
    requires
        0 <= k < rows.len(),
    ensures
        k < with_orphans(rows, comments, n).len(),
        with_orphans(rows, comments, n)[k] == rows[k],
    decreases n,
{
    if n > 0 {
        lemma_orphans_keep(rows, comments, n - 1, k);
    }
}

/// A copy of a line.
fn copy_line(line: &Line) -> (r: Line)
    ensures
        r == *line,
{
    Line { old: line.old, new: line.new, kind: line.kind, text: line.text.clone() }
}

/// A copy of the line on one side of a split pair.
fn side_copy(lines: &Vec<Line>, side: Option<usize>) -> (r: Option<Line>)
    requires
        side matches Some(i) ==> i < lines@.len(),
    ensures
        r == side_line(lines@, side),
{
    match side {
        Some(i) => Some(copy_line(&lines[i])),
        None => None,
    }
}

impl ReviewRowsSource {
    /// Appends the notes under a code row of file `f`.
    fn push_notes(&self, f: usize, left: &Option<Line>, right: &Option<Line>, rows: &mut Vec<ReviewRow>)
        requires
            f < self.files@.len(),
        ensures
            final(rows)@ == old(rows)@ + note_rows(*self, f as int, *left, *right),
    {
        let ghost before = rows@;
        let path = self.files[f].path.as_str();
        let mut k: usize = 0;
        while k < self.comments.len()
            invariant
                f < self.files@.len(),
                path@ == self.files@[f as int].path@,
                k <= self.comments@.len(),
                rows@ == before + comment_cards(
                    self.comments@,
                    self.files@[f as int].path@,
                    *left,
                    *right,
                    k as int,
                ),
            decreases self.comments.len() - k,
        {
            let c = &self.comments[k];
            if same_str(c.path.as_str(), path) && self.note_here(left, right, c.old, c.end) {
                rows.push(ReviewRow::Comment(c.id));
            }
            k = k + 1;
        }
        match self.draft {
            Some(d) => {
                if d.file == f && self.note_here(left, right, d.old, d.end) {
                    rows.push(ReviewRow::Draft);
                }
            },
            None => {},
        }
    }

    /// Whether a note on line `end` of a side sits under a code row.
    fn note_here(&self, left: &Option<Line>, right: &Option<Line>, old: bool, end: u32) -> (r: bool)
        ensures
            r == note_under(*left, *right, old, end),
    {
        if old {
            let line = match left {
                Some(l) => Some(l),
                None => right.as_ref(),
            };
            match line {
                Some(l) => l.old == Some(end),
                None => false,
            }
        } else {
            match right {
                Some(l) => l.new == Some(end),
                None => false,
            }
        }
    }

    /// Appends the rows of hunk `h` of file `f`.
    fn push_hunk(&self, f: usize, h: usize, rows: &mut Vec<ReviewRow>)
        requires
            f < self.files@.len(),
            h < self.files@[f as int].hunks@.len(),
        ensures
            final(rows)@ == old(rows)@ + hunk_rows(*self, f as int, h as int),
    {
        let hunk = &self.files[f].hunks[h];
        let ghost start = rows@;
        if !hunk.header.as_str().is_empty() {
            rows.push(ReviewRow::Hunk(f, h));
        }
        let ghost base = rows@;
        let ghost units = code_units(hunk.lines@, self.split);
        if self.split {
            let pairs = split_pairs(hunk.lines.as_slice());
            proof {
                assert(kinds_of(hunk.lines@).len() == hunk.lines.len());
                crate::diff::lemma_pairs_from_sides(kinds_of(hunk.lines@), 0);
            }
            let mut k: usize = 0;
            while k < pairs.len()
                invariant
                    f < self.files@.len(),
                    h < self.files@[f as int].hunks@.len(),
                    *hunk == self.files@[f as int].hunks@[h as int],
                    pairs@ == split_rows(kinds_of(hunk.lines@)),
                    units == code_units(hunk.lines@, self.split),
                    self.split,
                    kinds_of(hunk.lines@).len() == hunk.lines@.len(),
                    forall|x: int|
                        0 <= x < pairs@.len() ==> crate::diff::good_pair(
                            kinds_of(hunk.lines@),
                            0,
                            #[trigger] pairs@[x],
                        ),
                    k <= pairs@.len(),
                    rows@ == base + unit_rows(*self, f as int, units, k as int),
                decreases pairs.len() - k,
            {
                assert(crate::diff::good_pair(kinds_of(hunk.lines@), 0, pairs@[k as int]));
                let (l, r) = pairs[k];
                let left = side_copy(&hunk.lines, l);
                let right = side_copy(&hunk.lines, r);
                assert(units[k as int] == (left, right));
                rows.push(ReviewRow::Code { file: f, left: side_copy(&hunk.lines, l), right: side_copy(&hunk.lines, r) });
                self.push_notes(f, &left, &right, rows);
                k = k + 1;
            }
        } else {
            let mut k: usize = 0;
            while k < hunk.lines.len()
                invariant
                    f < self.files@.len(),
                    h < self.files@[f as int].hunks@.len(),
                    *hunk == self.files@[f as int].hunks@[h as int],
                    units == code_units(hunk.lines@, self.split),
                    !self.split,
                    k <= hunk.lines@.len(),
                    rows@ == base + unit_rows(*self, f as int, units, k as int),
                decreases hunk.lines.len() - k,
            {
                let left: Option<Line> = None;
                let right = Some(copy_line(&hunk.lines[k]));
                assert(units[k as int] == (left, right));
                rows.push(ReviewRow::Code { file: f, left: None, right: Some(copy_line(&hunk.lines[k])) });
                self.push_notes(f, &left, &right, rows);
                k = k + 1;
            }
        }
    }

    /// Appends the rows of file `f`; `query` is the lowercase query.
    fn push_file(&self, f: usize, query: &Vec<char>, rows: &mut Vec<ReviewRow>)
        requires
            f < self.files@.len(),
            query@ == lowercase(self.query@),
        ensures
            final(rows)@ == old(rows)@ + file_rows(*self, f as int),
    {
        let file = &self.files[f];
        let lower = to_lower(file.path.as_str());
        let lower_chars = chars_of(lower.as_str());
        if !contains_chars(&lower_chars, query) {
            assert(rows@ + file_rows(*self, f as int) =~= rows@);
            return;
        }
        rows.push(ReviewRow::Header(f));
        if list_has_name(self.collapsed.as_slice(), file.path.as_str()) {
            return;
        }
        if file.binary {
            rows.push(ReviewRow::Binary(f));
            return;
        }
        let markdown = ends_with_str(file.path.as_str(), ".md");
        proof {
            reveal_strlit(".md");
            assert(".md"@ =~= seq!['.', 'm', 'd']);
        }
        if self.rich && markdown && file.new_text.is_some() {
            rows.push(ReviewRow::Preview(f));
            return;
        }
        if file.hunks.len() == 0 {
            rows.push(ReviewRow::Empty(f));
        }
        let ghost base = rows@;
        let mut h: usize = 0;
        while h < file.hunks.len()
            invariant
                f < self.files@.len(),
                *file == self.files@[f as int],
                h <= file.hunks@.len(),
                rows@ == base + hunks_rows(*self, f as int, h as int),
            decreases file.hunks.len() - h,
        {
            self.push_hunk(f, h, rows);
            h = h + 1;
        }
    }

    /// The rows of the review panel: for each file the query shows, its
    /// header, then (unless collapsed) a binary notice, a preview, or its
    /// hunks with each code line followed by the comments and the draft on
    /// it; then a card for each comment not shown under a line.
    pub fn build_rows(&self) -> (rows: Vec<ReviewRow>)
        ensures
            rows@ == review_rows(*self),
            self.query@.len() == 0 ==> lowercase(self.query@).len() == 0,
    {
        let query_lower = to_lower(self.query.as_str());
        let query = chars_of(query_lower.as_str());
        let mut rows: Vec<ReviewRow> = Vec::new();
        let mut f: usize = 0;
        while f < self.files.len()
            invariant
                f <= self.files@.len(),
                query@ == lowercase(self.query@),
                rows@ == files_rows(*self, f as int),
            decreases self.files.len() - f,
        {
            self.push_file(f, &query, &mut rows);
            f = f + 1;
        }
        let ghost shown = rows@;
        let mut k: usize = 0;
        while k < self.comments.len()
            invariant
                k <= self.comments@.len(),
                rows@ == with_orphans(shown, self.comments@, k as int),
            decreases self.comments.len() - k,
        {
            let id = self.comments[k].id;
            if !has_card_exec(&rows, id) {
                rows.push(ReviewRow::Comment(id));
            }
            k = k + 1;
        }
        rows
    }
}

/// Whether `rows` holds the card of comment `id`.
fn has_card_exec(rows: &Vec<ReviewRow>, id: u64) -> (r: bool)
    ensures
        r == has_card(rows@, id),
{
    let mut k: usize = 0;
    while k < rows.len()
        invariant
            k <= rows@.len(),
            forall|j: int| 0 <= j < k ==> rows@[j] != ReviewRow::Comment(id),
        decreases rows.len() - k,
    {
        match &rows[k] {
            ReviewRow::Comment(c) => {
                if *c == id {
                    return true;
                }
            },
            _ => {},
        }
        k = k + 1;
    }
    false
}

/// Every comment has a card among the rows: its line's comments sit under
/// it, and the others are kept at the end.
pub proof fn lemma_every_comment_has_a_card(src: ReviewRowsSource)
    ensures
        forall|k: int|
            0 <= k < src.comments@.len() ==> has_card(review_rows(src), #[trigger] src.comments@[k].id),
{
    lemma_orphans_cover(files_rows(src, src.files@.len() as int), src.comments@, src.comments@.len() as int);
}

proof fn lemma_orphans_cover(rows: Seq<ReviewRow>, comments: Seq<ReviewComment>, n: int)
    requires
        n <= comments.len(),
    ensures
        forall|k: int| 0 <= k < n ==> has_card(with_orphans(rows, comments, n), #[trigger] comments[k].id),
        forall|j: int|
            0 <= j < rows.len() ==> with_orphans(rows, comments, n).len() >= rows.len() && #[trigger] with_orphans(
                rows,
                comments,
                n,
            )[j] == rows[j],
    decreases n,
{
    if n > 0 {
        lemma_orphans_cover(rows, comments, n - 1);
        let before = with_orphans(rows, comments, n - 1);
        if !has_card(before, comments[n - 1].id) {
            let after = before.push(ReviewRow::Comment(comments[n - 1].id));
            assert(after[before.len() as int] == ReviewRow::Comment(comments[n - 1].id));
            assert forall|k: int| 0 <= k < n implies has_card(after, #[trigger] comments[k].id) by {
                if k < n - 1 {
                    let j = choose|j: int| 0 <= j < before.len() && #[trigger] before[j]
                        == ReviewRow::Comment(comments[k].id);
                    assert(after[j] == before[j]);
                }
            }
            assert forall|j: int| 0 <= j < rows.len() implies #[trigger] after[j] == rows[j] by {
                assert(before[j] == rows[j]);
            }
        }
    }
}

} // verus!
