//! Snapshot-derived metrics of the review panel's virtual diff: the word-diff
//! span of each paired line, each file's extension, the widest line number,
//! and bounded syntax runs by source line.

use vstd::prelude::*;
use std::rc::Rc;
use crate::cache::{evicted, holds_key, key_index, share, CacheKey, FifoCache, SYNTAX_BYTES, SYNTAX_LINES};
use crate::diff::{kinds_of, lemma_run_end_bounds, run_end, skip_run, FileDiff, Hunk, Line, LineKind};
use crate::text::{byte_len_of, same_str, utf8_len};
use crate::tree::TreeCache;
use crate::word_diff::{changed_span, span_end, span_start};

verus! {

/// A source line of a file: the file's index and the line's old and new
/// numbers.
#[derive(Clone, Copy, Debug, Hash, PartialEq, Eq, Structural)]
pub struct LineKey {
    pub file: usize,
    pub old: Option<u32>,
    pub new: Option<u32>,
}

impl LineKey {
    /// The key of `line` in file `file`.
    pub fn new(file: usize, line: &Line) -> (r: Self)
        ensures
            r == (LineKey { file, old: line.old, new: line.new }),
    {
        LineKey { file, old: line.old, new: line.new }
    }
}

impl CacheKey for LineKey {
    type Id = LineKey;

    open spec fn id(&self) -> LineKey {
        *self
    }

    fn same_key(&self, other: &Self) -> (r: bool) {
        *self == *other
    }
}

/// The colour scheme the syntax runs were made for.
#[derive(Clone, Copy, Debug, PartialEq, Eq, Structural)]
pub enum ThemeMode {
    Light,
    Dark,
}

/// The key of line `j` of a hunk of file `file`.
pub open spec fn key_of(file: usize, line: Line) -> LineKey {
    LineKey { file, old: line.old, new: line.new }
}

/// The word entry of line `j` against line `p`: its key and the changed
/// bytes of its text against `p`'s.
pub open spec fn word_entry(file: usize, lines: Seq<Line>, j: int, p: int) -> (LineKey, usize, usize) {
    (
        key_of(file, lines[j]),
        span_start(lines[j].text@, lines[p].text@) as usize,
        span_end(lines[j].text@, lines[p].text@) as usize,
    )
}

/// The word entries of a deleted run `[s, a)` and the added run `[a, e)`
/// after it: for each paired position, the deleted line, then the added
/// line.
pub open spec fn block_words(file: usize, lines: Seq<Line>, s: int, a: int, e: int) -> Seq<
    (LineKey, usize, usize),
> {
    let m = if a - s <= e - a {
        a - s
    } else {
        e - a
    };
    Seq::new(
        (2 * m) as nat,
        |k: int|
            if k % 2 == 0 {
                word_entry(file, lines, s + k / 2, a + k / 2)
            } else {
                word_entry(file, lines, a + k / 2, s + k / 2)
            },
    )
}

/// The word entries of `lines[i..]`: each run of deleted lines is paired
/// with the run of added lines after it.
pub open spec fn words_from(file: usize, lines: Seq<Line>, i: int) -> Seq<(LineKey, usize, usize)>
    decreases lines.len() - i,
{
    let kinds = kinds_of(lines);
    if i < 0 || i >= lines.len() {
        Seq::empty()
    } else if kinds[i] != LineKind::Deleted {
        words_from(file, lines, i + 1)
    } else {
        let a = run_end(kinds, i, LineKind::Deleted);
        let e = run_end(kinds, a, LineKind::Added);
        proof {
            lemma_run_end_bounds(kinds, i + 1, LineKind::Deleted);
            lemma_run_end_bounds(kinds, a, LineKind::Added);
        }
        block_words(file, lines, i, a, e) + words_from(file, lines, e)
    }
}

/// The word entries of the first `n` hunks of file `file`.
pub open spec fn hunks_words(file: usize, hunks: Seq<Hunk>, n: int) -> Seq<(LineKey, usize, usize)>
    decreases n,
{
    if n <= 0 {
        Seq::empty()
    } else {
        hunks_words(file, hunks, n - 1) + words_from(file, hunks[n - 1].lines@, 0)
    }
}

/// The word entries of the first `n` files.
pub open spec fn files_words(files: Seq<FileDiff>, n: int) -> Seq<(LineKey, usize, usize)>
    decreases n,
{
    if n <= 0 {
        Seq::empty()
    } else {
        files_words(files, n - 1) + hunks_words((n - 1) as usize, files[n - 1].hunks@, files[n
            - 1].hunks@.len() as int)
    }
}

/// The span of the last entry for `key` among the first `n` entries: a
/// later entry for the same line replaces an earlier one.
pub open spec fn last_word(words: Seq<(LineKey, usize, usize)>, key: LineKey, n: int) -> Option<
    (usize, usize),
>
    decreases n,
{
    if n <= 0 || n > words.len() {
        None
    } else if words[n - 1].0 == key {
        Some((words[n - 1].1, words[n - 1].2))
    } else {
        last_word(words, key, n - 1)
    }
}

/// The number of decimal digits of `n` (one for zero).
pub open spec fn decimal_digits(n: nat) -> nat
    decreases n,
{
    if n < 10 {
        1
    } else {
        1 + decimal_digits(n / 10)
    }
}

/// The largest line number among `files`' lines, and at least 1.
pub open spec fn is_largest_line(files: Seq<FileDiff>, m: u32) -> bool {
    &&& m >= 1
    &&& forall|f: int, h: int, l: int|
        0 <= f < files.len() && 0 <= h < files[f].hunks@.len() && 0 <= l
            < files[f].hunks@[h].lines@.len() ==> {
            let line = #[trigger] files[f].hunks@[h].lines@[l];
            &&& (line.old matches Some(o) ==> o <= m)
            &&& (line.new matches Some(n) ==> n <= m)
        }
    &&& m == 1 || exists|f: int, h: int, l: int|
        0 <= f < files.len() && 0 <= h < files[f].hunks@.len() && 0 <= l
            < files[f].hunks@[h].lines@.len() && {
            let line = #[trigger] files[f].hunks@[h].lines@[l];
            line.old == Some(m) || line.new == Some(m)
        }
}

/// `Path::extension` of a path: the part of its file name after the last
/// `.`, where there is one. It depends on the path alone.
pub uninterp spec fn path_extension(path: Seq<char>) -> Option<Seq<char>>;

/// Calls `Path::extension` on `path` and converts the result to a `String`;
/// the contract names the result, it does not spell out the rules for file
/// names.
#[verifier::external_body]
fn extension_of(path: &str) -> (r: Option<String>)
    ensures
        r matches Some(e) ==> path_extension(path@) == Some(e@),
        r is None ==> path_extension(path@) is None,
{
    std::path::Path::new(path).extension().and_then(|s| s.to_str()).map(str::to_owned)
}

/// `10` to the power `k`.
pub open spec fn pow10(k: nat) -> nat
    decreases k,
{
    if k == 0 {
        1
    } else {
        10 * pow10((k - 1) as nat)
    }
}

proof fn lemma_digits_bound(x: nat, k: nat)
    requires
        k >= 1,
        x < pow10(k),
    ensures
        1 <= decimal_digits(x) <= k,
    decreases k,
{
    if x >= 10 {
        if k == 1 {
            assert(pow10(1) == 10) by {
                reveal_with_fuel(pow10, 2);
            }
        }
        lemma_digits_bound(x / 10, (k - 1) as nat);
    }
}

/// The number of decimal digits of `n`, as `n.ilog10() + 1` counts them for
/// a positive `n`.
pub fn digits_of(n: u32) -> (r: u32)
    ensures
        r == decimal_digits(n as nat),
{
    proof {
        assert(pow10(10) == 10000000000) by {
            reveal_with_fuel(pow10, 11);
        }
        lemma_digits_bound(n as nat, 10);
    }
    let mut v = n;
    let mut d: u32 = 1;
    while v >= 10
        invariant
            d + decimal_digits(v as nat) == 1 + decimal_digits(n as nat),
            decimal_digits(n as nat) <= 10,
            decimal_digits(v as nat) >= 1,
        decreases v,
    {
        assert(decimal_digits(v as nat) == 1 + decimal_digits((v / 10) as nat));
        v = v / 10;
        d = d + 1;
    }
    d
}

/// Appends the word entries of the lines of one hunk of file `file`.
fn push_hunk_words(file: usize, lines: &[Line], words: &mut Vec<(LineKey, usize, usize)>)
    ensures
        final(words)@ == old(words)@ + words_from(file, lines@, 0),
{
    let ghost kinds = kinds_of(lines@);
    let ghost before = words@;
    let mut i: usize = 0;
    while i < lines.len()
        invariant
            i <= lines@.len(),
            kinds == kinds_of(lines@),
            words@ + words_from(file, lines@, i as int) == before + words_from(file, lines@, 0),
        decreases lines.len() - i,
    {
        if lines[i].kind != LineKind::Deleted {
            i = i + 1;
        } else {
            let start = i;
            let added = skip_run(lines, i, LineKind::Deleted);
            proof {
                lemma_run_end_bounds(kinds, start + 1, LineKind::Deleted);
            }
            let end = skip_run(lines, added, LineKind::Added);
            let m = if added - start <= end - added {
                added - start
            } else {
                end - added
            };
            let ghost mid = words@;
            let ghost block = block_words(file, lines@, start as int, added as int, end as int);
            let mut o: usize = 0;
            while o < m
                invariant
                    start < added <= end <= lines@.len(),
                    m <= added - start,
                    m <= end - added,
                    block == block_words(file, lines@, start as int, added as int, end as int),
                    block.len() == 2 * m,
                    o <= m,
                    words@ == mid + block.take(2 * o),
                decreases m - o,
            {
                let old_line = &lines[start + o];
                let new_line = &lines[added + o];
                let span_old = changed_span(old_line.text.as_str(), new_line.text.as_str());
                let span_new = changed_span(new_line.text.as_str(), old_line.text.as_str());
                proof {
                    assert((2 * o) / 2 == o);
                    assert((2 * o + 1) / 2 == o);
                    assert((2 * o) % 2 == 0);
                    assert((2 * o + 1) % 2 == 1);
                }
                words.push((LineKey::new(file, old_line), span_old.start, span_old.end));
                words.push((LineKey::new(file, new_line), span_new.start, span_new.end));
                proof {
                    assert(block.take(2 * o + 2) =~= block.take(2 * o).push(block[2 * o]).push(
                        block[2 * o + 1],
                    ));
                }
                o = o + 1;
            }
            proof {
                assert(block.take(2 * m) =~= block);
                assert(mid + block + words_from(file, lines@, end as int) =~= mid + (block
                    + words_from(file, lines@, end as int)));
            }
            i = end;
        }
    }
    proof {
        assert(words@ + words_from(file, lines@, i as int) =~= words@);
    }
}

/// The word entries of every paired line of every hunk of every file, in
/// order.
fn files_word_entries(files: &[FileDiff]) -> (r: Vec<(LineKey, usize, usize)>)
    ensures
        r@ == files_words(files@, files@.len() as int),
{
    let mut words: Vec<(LineKey, usize, usize)> = Vec::new();
    let mut f: usize = 0;
    while f < files.len()
        invariant
            f <= files@.len(),
            words@ == files_words(files@, f as int),
        decreases files.len() - f,
    {
        let hunks = &files[f].hunks;
        let ghost base = words@;
        let mut h: usize = 0;
        while h < hunks.len()
            invariant
                f < files@.len(),
                *hunks == files@[f as int].hunks,
                h <= hunks@.len(),
                words@ == base + hunks_words(f, hunks@, h as int),
            decreases hunks.len() - h,
        {
            push_hunk_words(f, hunks[h].lines.as_slice(), &mut words);
            proof {
                assert(base + hunks_words(f, hunks@, h as int) + words_from(f, hunks@[h as int].lines@, 0)
                    =~= base + hunks_words(f, hunks@, h + 1));
            }
            h = h + 1;
        }
        f = f + 1;
    }
    words
}

/// The largest line number of `files`, and at least 1.
fn largest_line_of(files: &[FileDiff]) -> (r: u32)
    ensures
        is_largest_line(files@, r),
{
    let mut largest: u32 = 1;
    let mut f: usize = 0;
    while f < files.len()
        invariant
            f <= files@.len(),
            largest >= 1,
            forall|g: int, h: int, l: int|
                0 <= g < f && 0 <= h < files@[g].hunks@.len() && 0 <= l
                    < files@[g].hunks@[h].lines@.len() ==> {
                    let line = #[trigger] files@[g].hunks@[h].lines@[l];
                    &&& (line.old matches Some(o) ==> o <= largest)
                    &&& (line.new matches Some(n) ==> n <= largest)
                },
            largest == 1 || exists|g: int, h: int, l: int|
                0 <= g < files@.len() && 0 <= h < files@[g].hunks@.len() && 0 <= l
                    < files@[g].hunks@[h].lines@.len() && {
                    let line = #[trigger] files@[g].hunks@[h].lines@[l];
                    line.old == Some(largest) || line.new == Some(largest)
                },
        decreases files.len() - f,
    {
        let hunks = &files[f].hunks;
        let mut h: usize = 0;
        while h < hunks.len()
            invariant
                f < files@.len(),
                *hunks == files@[f as int].hunks,
                h <= hunks@.len(),
                largest >= 1,
                forall|g: int, x: int, l: int|
                    0 <= g < files@.len() && 0 <= x < files@[g].hunks@.len() && 0 <= l
                        < files@[g].hunks@[x].lines@.len() && (g < f || (g == f && x < h)) ==> {
                        let line = #[trigger] files@[g].hunks@[x].lines@[l];
                        &&& (line.old matches Some(o) ==> o <= largest)
                        &&& (line.new matches Some(n) ==> n <= largest)
                    },
                largest == 1 || exists|g: int, x: int, l: int|
                    0 <= g < files@.len() && 0 <= x < files@[g].hunks@.len() && 0 <= l
                        < files@[g].hunks@[x].lines@.len() && {
                        let line = #[trigger] files@[g].hunks@[x].lines@[l];
                        line.old == Some(largest) || line.new == Some(largest)
                    },
            decreases hunks.len() - h,
        {
            let lines = &hunks[h].lines;
            let mut l: usize = 0;
            while l < lines.len()
                invariant
                    f < files@.len(),
                    h < files@[f as int].hunks@.len(),
                    *lines == files@[f as int].hunks@[h as int].lines,
                    l <= lines@.len(),
                    largest >= 1,
                    forall|g: int, x: int, k: int|
                        0 <= g < files@.len() && 0 <= x < files@[g].hunks@.len() && 0 <= k
                            < files@[g].hunks@[x].lines@.len() && (g < f || (g == f && x < h) || (
                        g == f && x == h && k < l)) ==> {
                            let line = #[trigger] files@[g].hunks@[x].lines@[k];
                            &&& (line.old matches Some(o) ==> o <= largest)
                            &&& (line.new matches Some(n) ==> n <= largest)
                        },
                    largest == 1 || exists|g: int, x: int, k: int|
                        0 <= g < files@.len() && 0 <= x < files@[g].hunks@.len() && 0 <= k
                            < files@[g].hunks@[x].lines@.len() && {
                            let line = #[trigger] files@[g].hunks@[x].lines@[k];
                            line.old == Some(largest) || line.new == Some(largest)
                        },
                decreases lines.len() - l,
            {
                let line = &lines[l];
                let o = match line.old {
                    Some(v) => v,
                    None => 0,
                };
                let n = match line.new {
                    Some(v) => v,
                    None => 0,
                };
                if o > largest {
                    largest = o;
                    assert(files@[f as int].hunks@[h as int].lines@[l as int].old == Some(largest));
                }
                if n > largest {
                    largest = n;
                    assert(files@[f as int].hunks@[h as int].lines@[l as int].new == Some(largest));
                }
                l = l + 1;
            }
            h = h + 1;
        }
        f = f + 1;
    }
    largest
}

/// The extensions of the files' paths, in order.
pub open spec fn extensions_of(files: Seq<FileDiff>) -> Seq<Option<Seq<char>>> {
    Seq::new(files.len(), |f: int| path_extension(files[f].path@))
}

/// The view of an optional string.
pub open spec fn opt_view(s: Option<String>) -> Option<Seq<char>> {
    match s {
        Some(x) => Some(x@),
        None => None,
    }
}

/// The bytes a syntax run of `items` entries is charged for a line: its
/// text and the runs.
pub open spec fn line_charge<R>(text: Seq<char>, items: int) -> int {
    utf8_len(text) + items * vstd::layout::size_of::<R>()
}

/// The bytes charged for a line's runs, or `None` when they do not fit in a
/// `usize`.
fn runs_charge(text_bytes: usize, items: usize, item_size: usize) -> (r: Option<usize>)
    ensures
        r matches Some(n) ==> n == text_bytes + items * item_size,
        r is None ==> text_bytes + items * item_size > usize::MAX,
{
    match items.checked_mul(item_size) {
        Some(z) => text_bytes.checked_add(z),
        None => {
            assert(items * item_size >= 0) by (nonlinear_arith);
            None
        },
    }
}

/// Snapshot-derived metrics and bounded syntax runs of the review panel's
/// diff, with the file-tree rows.
pub struct RenderCache<R> {
    snapshot: Option<u64>,
    pub tree: TreeCache,
    mode: Option<ThemeMode>,
    languages: Vec<Option<String>>,
    words: Vec<(LineKey, usize, usize)>,
    syntax: FifoCache<LineKey, (String, Rc<Vec<R>>)>,
    largest_line: u32,
    gutter_digits: u32,
}

impl<R> RenderCache<R> {
    /// The snapshot the metrics were taken from.
    pub closed spec fn snapshot(&self) -> Option<u64> {
        self.snapshot
    }

    /// The file-tree cache.
    pub closed spec fn tree_state(&self) -> TreeCache {
        self.tree
    }

    /// The colour scheme the syntax runs were made for.
    pub closed spec fn mode(&self) -> Option<ThemeMode> {
        self.mode
    }

    /// Each file's extension.
    pub closed spec fn languages(&self) -> Seq<Option<Seq<char>>> {
        self.languages@.map_values(|l: Option<String>| opt_view(l))
    }

    /// The word entries, in the order they were recorded.
    pub closed spec fn words(&self) -> Seq<(LineKey, usize, usize)> {
        self.words@
    }

    /// The cached syntax runs, oldest first: key, text and runs, bytes.
    pub closed spec fn syntax_entries(&self) -> Seq<(LineKey, (String, Rc<Vec<R>>), usize)> {
        self.syntax.entries()
    }

    /// The largest line number of the snapshot.
    pub closed spec fn largest(&self) -> u32 {
        self.largest_line
    }

    /// The digits of the largest line number.
    pub closed spec fn digits(&self) -> u32 {
        self.gutter_digits
    }

    /// The syntax cache keeps its budgets and unique keys.
    pub closed spec fn wf(&self) -> bool {
        self.syntax.wf()
    }

    /// An empty cache, for no snapshot yet.
    pub fn new() -> (r: Self)
        ensures
            r.wf(),
            r.snapshot() is None,
            r.mode() is None,
            r.words() == Seq::<(LineKey, usize, usize)>::empty(),
            r.syntax_entries() == Seq::<(LineKey, (String, Rc<Vec<R>>), usize)>::empty(),
            r.largest() == 1,
            r.digits() == 1,
    {
        RenderCache {
            snapshot: None,
            tree: TreeCache::default(),
            mode: None,
            languages: Vec::new(),
            words: Vec::new(),
            syntax: FifoCache::new(),
            largest_line: 1,
            gutter_digits: 1,
        }
    }

    /// Takes the metrics of a new snapshot (`snapshot` identifies it): the
    /// tree rows are invalidated, each file's extension, the word spans of
    /// paired lines and the largest line number are taken anew, and the
    /// syntax runs are dropped. Syntax runs are also dropped when the colour
    /// scheme changes.
    pub fn prepare(&mut self, snapshot: u64, files: &[FileDiff], mode: ThemeMode)
        requires
            old(self).wf(),
        ensures
            final(self).wf(),
            final(self).snapshot() == Some(snapshot),
            final(self).mode() == Some(mode),
            old(self).snapshot() != Some(snapshot) ==> {
                &&& !final(self).tree_state().valid()
                &&& final(self).languages() == extensions_of(files@)
                &&& final(self).words() == files_words(files@, files@.len() as int)
                &&& is_largest_line(files@, final(self).largest())
                &&& final(self).digits() == decimal_digits(final(self).largest() as nat)
                &&& final(self).syntax_entries().len() == 0
            },
            old(self).snapshot() == Some(snapshot) ==> {
                &&& final(self).tree_state() == old(self).tree_state()
                &&& final(self).languages() == old(self).languages()
                &&& final(self).words() == old(self).words()
                &&& final(self).largest() == old(self).largest()
                &&& final(self).digits() == old(self).digits()
            },
            old(self).mode() != Some(mode) ==> final(self).syntax_entries().len() == 0,
            old(self).snapshot() == Some(snapshot) && old(self).mode() == Some(mode)
                ==> final(self).syntax_entries() == old(self).syntax_entries(),
    {
        if self.snapshot != Some(snapshot) {
            self.snapshot = Some(snapshot);
            self.tree.invalidate();
            let mut languages: Vec<Option<String>> = Vec::new();
            let mut f: usize = 0;
            while f < files.len()
                invariant
                    f <= files@.len(),
                    languages@.len() == f,
                    forall|g: int|
                        0 <= g < f ==> opt_view(#[trigger] languages@[g]) == path_extension(
                            files@[g].path@,
                        ),
                decreases files.len() - f,
            {
                languages.push(extension_of(files[f].path.as_str()));
                f = f + 1;
            }
            self.languages = languages;
            assert(self.languages@.map_values(|l: Option<String>| opt_view(l)) =~= extensions_of(
                files@,
            ));
            self.words = files_word_entries(files);
            self.syntax.clear();
            self.largest_line = largest_line_of(files);
            self.gutter_digits = digits_of(self.largest_line);
        }
        if self.mode != Some(mode) {
            self.mode = Some(mode);
            self.syntax.clear();
        }
    }

    /// The language recorded for file `file`: its extension, or `None` past
    /// the files of the snapshot.
    pub closed spec fn file_language(&self, file: usize) -> Option<String> {
        if file < self.languages@.len() {
            self.languages@[file as int]
        } else {
            None
        }
    }

    /// The extension of file `file`'s path.
    pub fn language(&self, file: usize) -> (r: Option<String>)
        ensures
            r == self.file_language(file),
            file < self.languages().len() ==> opt_view(r) == self.languages()[file as int],
            file >= self.languages().len() ==> r is None,
    {
        if file < self.languages.len() {
            match &self.languages[file] {
                Some(l) => Some(l.clone()),
                None => None,
            }
        } else {
            None
        }
    }

    /// Whatever calls a well-formed cache went through, its syntax runs keep
    /// both budgets: at most `SYNTAX_LINES` entries and `SYNTAX_BYTES`
    /// charged bytes.
    pub proof fn lemma_syntax_budget(&self)
        requires
            self.wf(),
        ensures
            self.syntax_entries().len() <= SYNTAX_LINES,
            crate::cache::total(self.syntax_entries()) <= SYNTAX_BYTES,
    {
    }

    /// The number of cached syntax runs.
    pub fn syntax_len(&self) -> (r: usize)
        ensures
            r == self.syntax_entries().len(),
    {
        self.syntax.len()
    }

    /// The bytes charged for the cached syntax runs.
    pub fn syntax_bytes(&self) -> (r: usize)
        requires
            self.wf(),
        ensures
            r == crate::cache::total(self.syntax_entries()),
            r <= SYNTAX_BYTES,
    {
        self.syntax.bytes()
    }

    /// The largest line number of the snapshot, and at least 1.
    pub fn largest_line(&self) -> (r: u32)
        ensures
            r == self.largest(),
    {
        self.largest_line
    }

    /// The number of digits the line-number gutter must hold.
    pub fn gutter_digits(&self) -> (r: u32)
        ensures
            r == self.digits(),
    {
        self.gutter_digits
    }

    /// The changed bytes of `line` of file `file` against its partner line:
    /// the span recorded last for that source line.
    pub fn word_span(&self, file: usize, line: &Line) -> (r: Option<std::ops::Range<usize>>)
        ensures
            r is None <==> last_word(self.words(), key_of(file, *line), self.words().len() as int)
                is None,
            r matches Some(span) ==> last_word(
                self.words(),
                key_of(file, *line),
                self.words().len() as int,
            ) == Some((span.start, span.end)),
    {
        let key = LineKey::new(file, line);
        let mut n = self.words.len();
        while n > 0
            invariant
                n <= self.words@.len(),
                key == key_of(file, *line),
                last_word(self.words@, key, self.words@.len() as int) == last_word(
                    self.words@,
                    key,
                    n as int,
                ),
            decreases n,
        {
            let entry = self.words[n - 1];
            if entry.0 == key {
                return Some(std::ops::Range { start: entry.1, end: entry.2 });
            }
            n = n - 1;
        }
        None
    }

    /// Whether the cache holds runs of `line` of file `file` made for the
    /// same text.
    pub open spec fn syntax_hit(&self, file: usize, line: Line) -> bool {
        let entries = self.syntax_entries();
        key_index(entries, key_of(file, line), 0) matches Some(i) && entries[i].1.0@ == line.text@
    }

    /// The syntax runs of `line` of file `file`: the cached runs when they
    /// were made for the same text (`build` is then not called, and need not
    /// be callable); else `build` makes them for the file's language (see
    /// `file_language`), and they are kept (replacing a stale entry for the line,
    /// evicting the oldest entries until they fit) unless they alone exceed
    /// the byte budget.
    pub fn syntax_runs<F: FnOnce(Option<String>) -> Vec<R>>(
        &mut self,
        file: usize,
        line: &Line,
        build: F,
    ) -> (r: Rc<Vec<R>>)
        requires
            old(self).wf(),
            !old(self).syntax_hit(file, *line) ==> build.requires((old(self).file_language(file),)),
        ensures
            final(self).wf(),
            final(self).snapshot() == old(self).snapshot(),
            final(self).mode() == old(self).mode(),
            final(self).words() == old(self).words(),
            final(self).languages() == old(self).languages(),
            ({
                let key = key_of(file, *line);
                let entries = old(self).syntax_entries();
                match key_index(entries, key, 0) {
                    Some(i) if entries[i].1.0@ == line.text@ => {
                        r == entries[i].1.1 && final(self).syntax_entries() == entries
                    },
                    found => {
                        let kept = match found {
                            Some(i) => entries.remove(i),
                            None => entries,
                        };
                        let charge = line_charge::<R>(line.text@, r@.len() as int);
                        &&& build.ensures((old(self).file_language(file),), *r)
                        &&& charge > SYNTAX_BYTES ==> final(self).syntax_entries() == kept
                        &&& charge <= SYNTAX_BYTES ==> final(self).syntax_entries() == evicted(
                            kept,
                            charge,
                        ).push((key, (line.text, r), charge as usize))
                    },
                }
            }),
    {
        let key = LineKey::new(file, line);
        match self.syntax.position(&key) {
            Some(i) => {
                let cached = self.syntax.value(i);
                if same_str(cached.0.as_str(), line.text.as_str()) {
                    return share(&cached.1);
                }
                self.syntax.remove_at(i);
            },
            None => {},
        }
        let ghost kept = self.syntax.entries();
        proof {
            assert(!holds_key(kept, key)) by {
                if holds_key(kept, key) {
                    let j = choose|j: int| 0 <= j < kept.len() && #[trigger] kept[j].0.id() == key.id();
                    let i = key_index(old(self).syntax.entries(), key, 0)->0;
                    let jj = if j < i { j } else { j + 1 };
                    assert(old(self).syntax.entries()[jj].0.id() == key.id());
                }
            }
        }
        let language = self.language(file);
        let runs = Rc::new(build(language));
        let text_bytes = byte_len_of(line.text.as_str());
        let bytes = match runs_charge(text_bytes, runs.len(), core::mem::size_of::<R>()) {
            Some(n) => n,
            None => return runs,
        };
        if bytes > SYNTAX_BYTES {
            return runs;
        }
        self.syntax.insert(key, (line.text.clone(), share(&runs)), bytes);
        runs
    }
}

} // verus!
