//! Text selection in the review panel's code rows: byte offsets that fall
//! on character boundaries, the word under a click, the text a selection
//! copies, and where highlights cut a styled run.

use vstd::prelude::*;
use vstd::string::{StrSliceExecFns, StringExecFns};
use crate::review_rows::ReviewRow;
use crate::text::{
    byte_len_of, char_utf8_len, char_width, chars_of, lemma_utf8_len_push, lemma_utf8_len_take,
    utf8_len,
};

verus! {

/// A position in the rows: a row and a byte offset into its text.
#[derive(Clone, Copy, Debug, PartialEq, Eq, Structural)]
pub struct TextCursor {
    pub row: usize,
    pub byte: usize,
}

/// A selection between two cursors, on the old side or the new side.
#[derive(Clone, Copy, Debug, PartialEq, Eq, Structural)]
pub struct Selection {
    pub anchor: TextCursor,
    pub head: TextCursor,
    pub old: bool,
}

/// `a` comes before `b`: by row, then by byte.
pub open spec fn cursor_before(a: TextCursor, b: TextCursor) -> bool {
    a.row < b.row || (a.row == b.row && a.byte < b.byte)
}

/// The character index at or after `i` whose prefix is exactly `k` bytes
/// long: byte `k` is a character boundary.
pub open spec fn char_at_byte_from(t: Seq<char>, k: int, i: int) -> Option<int>
    decreases t.len() - i,
{
    if i < 0 || i > t.len() {
        None
    } else if utf8_len(t.take(i)) == k {
        Some(i)
    } else if i == t.len() || utf8_len(t.take(i)) > k {
        None
    } else {
        char_at_byte_from(t, k, i + 1)
    }
}

/// The character that byte `k` of `t` starts (or `t.len()` at the end),
/// when `k` is a character boundary.
pub open spec fn char_at_byte(t: Seq<char>, k: int) -> Option<int> {
    char_at_byte_from(t, k, 0)
}

/// The number of characters whose encoding ends at or before byte `k`.
pub open spec fn floor_char(t: Seq<char>, k: int, i: int) -> int
    decreases t.len() - i,
{
    if 0 <= i < t.len() && utf8_len(t.take(i + 1)) <= k {
        floor_char(t, k, i + 1)
    } else {
        i
    }
}

/// `char::is_alphanumeric`: the Unicode `Alphabetic` or `Numeric`
/// characters. It depends on the character alone.
pub uninterp spec fn alphanumeric(c: char) -> bool;

/// Calls `char::is_alphanumeric`; the contract names its result.
#[verifier::external_body]
fn is_alphanumeric(c: char) -> (r: bool)
    ensures
        r == alphanumeric(c),
{
    c.is_alphanumeric()
}

/// A character of a word: alphanumeric or `_`.
pub open spec fn word_char(c: char) -> bool {
    alphanumeric(c) || c == '_'
}

/// Where the word that ends at character `c` starts.
pub open spec fn word_start(t: Seq<char>, c: int) -> int
    decreases c,
{
    if 0 < c <= t.len() && word_char(t[c - 1]) {
        word_start(t, c - 1)
    } else {
        c
    }
}

/// Where the word that starts at character `c` ends.
pub open spec fn word_end(t: Seq<char>, c: int) -> int
    decreases t.len() - c,
{
    if 0 <= c < t.len() && word_char(t[c]) {
        word_end(t, c + 1)
    } else {
        c
    }
}

/// The byte range of the word around byte `byte` of `t`: from the last
/// character boundary at or before it (at most the end), extended over
/// word characters both ways.
pub open spec fn word_span(t: Seq<char>, byte: int) -> (int, int) {
    let c = floor_char(t, byte, 0);
    (utf8_len(t.take(word_start(t, c))) as int, utf8_len(t.take(word_end(t, c))) as int)
}

/// The character index of byte `k` of `t`, when it is a boundary.
fn char_index(t: &Vec<char>, k: usize) -> (r: Option<usize>)
    requires
        utf8_len(t@) <= usize::MAX,
    ensures
        (match r {
            Some(c) => char_at_byte(t@, k as int) == Some(c as int),
            None => char_at_byte(t@, k as int) is None,
        }),
{
    let mut i: usize = 0;
    let mut acc: usize = 0;
    assert(t@.take(0) =~= Seq::<char>::empty());
    while i < t.len() && acc < k
        invariant
            i <= t@.len(),
            acc == utf8_len(t@.take(i as int)),
            utf8_len(t@) <= usize::MAX,
            char_at_byte(t@, k as int) == char_at_byte_from(t@, k as int, i as int),
        decreases t.len() - i,
    {
        proof {
            assert(t@.take(i + 1) =~= t@.take(i as int).push(t@[i as int]));
            lemma_utf8_len_push(t@.take(i as int), t@[i as int]);
            lemma_utf8_len_take(t@, i + 1);
        }
        acc = acc + char_width(t[i]);
        i = i + 1;
    }
    if acc == k {
        Some(i)
    } else {
        None
    }
}

/// The number of characters that fit in the first `k` bytes of `t`.
fn char_floor(t: &Vec<char>, k: usize) -> (r: usize)
    requires
        utf8_len(t@) <= usize::MAX,
    ensures
        r == floor_char(t@, k as int, 0),
        r <= t@.len(),
{
    let mut i: usize = 0;
    let mut acc: usize = 0;
    assert(t@.take(0) =~= Seq::<char>::empty());
    loop
        invariant
            i <= t@.len(),
            acc == utf8_len(t@.take(i as int)),
            utf8_len(t@) <= usize::MAX,
            floor_char(t@, k as int, 0) == floor_char(t@, k as int, i as int),
        decreases t.len() - i,
    {
        if i >= t.len() {
            return i;
        }
        proof {
            assert(t@.take(i + 1) =~= t@.take(i as int).push(t@[i as int]));
            lemma_utf8_len_push(t@.take(i as int), t@[i as int]);
            lemma_utf8_len_take(t@, i + 1);
        }
        let next = acc + char_width(t[i]);
        if next > k {
            return i;
        }
        acc = next;
        i = i + 1;
    }
}

/// The byte offset of character `c` of `t`.
fn byte_offset(t: &Vec<char>, c: usize) -> (r: usize)
    requires
        c <= t@.len(),
        utf8_len(t@) <= usize::MAX,
    ensures
        r == utf8_len(t@.take(c as int)),
{
    let mut i: usize = 0;
    let mut acc: usize = 0;
    assert(t@.take(0) =~= Seq::<char>::empty());
    while i < c
        invariant
            i <= c <= t@.len(),
            acc == utf8_len(t@.take(i as int)),
            utf8_len(t@) <= usize::MAX,
        decreases c - i,
    {
        proof {
            assert(t@.take(i + 1) =~= t@.take(i as int).push(t@[i as int]));
            lemma_utf8_len_push(t@.take(i as int), t@[i as int]);
            lemma_utf8_len_take(t@, i + 1);
        }
        acc = acc + char_width(t[i]);
        i = i + 1;
    }
    acc
}

/// The byte range of the word around byte `byte` of `text`, as a
/// double-click selects it (see `word_span`).
pub fn word_at(text: &str, byte: usize) -> (r: std::ops::Range<usize>)
    ensures
        r.start == word_span(text@, byte as int).0,
        r.end == word_span(text@, byte as int).1,
{
    let t = chars_of(text);
    let n = byte_len_of(text);
    let c = char_floor(&t, byte);
    let mut a = c;
    while a > 0 && (is_alphanumeric(t[a - 1]) || t[a - 1] == '_')
        invariant
            a <= c <= t@.len(),
            word_start(t@, c as int) == word_start(t@, a as int),
        decreases a,
    {
        a = a - 1;
    }
    let mut b = c;
    while b < t.len() && (is_alphanumeric(t[b]) || t[b] == '_')
        invariant
            c <= b <= t@.len(),
            word_end(t@, c as int) == word_end(t@, b as int),
        decreases t.len() - b,
    {
        b = b + 1;
    }
    std::ops::Range { start: byte_offset(&t, a), end: byte_offset(&t, b) }
}

/// The text row `i` contributes to a copy of the selection from `a` to
/// `b`: the selected bytes of the code line on the selection's side, when
/// they fall on character boundaries.
pub open spec fn row_part(row: ReviewRow, i: int, a: TextCursor, b: TextCursor, old: bool) -> Option<
    Seq<char>,
> {
    match row {
        ReviewRow::Code { left, right, .. } => match (if old {
            left
        } else {
            right
        }) {
            Some(l) => {
                let t = l.text@;
                let len = utf8_len(t) as int;
                let start = if i == a.row {
                    if a.byte < len {
                        a.byte as int
                    } else {
                        len
                    }
                } else {
                    0
                };
                let end = if i == b.row {
                    if b.byte < len {
                        b.byte as int
                    } else {
                        len
                    }
                } else {
                    len
                };
                match (char_at_byte(t, start), char_at_byte(t, end)) {
                    (Some(c1), Some(c2)) => if c1 <= c2 {
                        Some(t.subrange(c1, c2))
                    } else {
                        None
                    },
                    _ => None,
                }
            },
            None => None,
        },
        _ => None,
    }
}

/// The parts of rows `a.row..n` (for `n` up to `b.row + 1`) that a copy
/// takes.
pub open spec fn copy_parts(rows: Seq<ReviewRow>, a: TextCursor, b: TextCursor, old: bool, n: int) -> Seq<
    Seq<char>,
>
    decreases n,
{
    if n <= a.row || n > rows.len() {
        Seq::empty()
    } else {
        let before = copy_parts(rows, a, b, old, n - 1);
        match row_part(rows[n - 1], n - 1, a, b, old) {
            Some(p) => before.push(p),
            None => before,
        }
    }
}

/// Lines joined with `\n`.
pub open spec fn joined(parts: Seq<Seq<char>>) -> Seq<char>
    decreases parts.len(),
{
    if parts.len() == 0 {
        Seq::empty()
    } else if parts.len() == 1 {
        parts[0]
    } else {
        joined(parts.drop_last()) + seq!['\n'] + parts.last()
    }
}

/// The text a copy of `selection` takes from `rows`: the selected part of
/// each code line from the first cursor's row to the second's, joined by
/// line breaks.
pub open spec fn selection_text(rows: Seq<ReviewRow>, selection: Selection) -> Seq<char> {
    let a = if cursor_before(selection.head, selection.anchor) {
        selection.head
    } else {
        selection.anchor
    };
    let b = if cursor_before(selection.head, selection.anchor) {
        selection.anchor
    } else {
        selection.head
    };
    let last = if b.row + 1 < rows.len() {
        b.row + 1
    } else {
        rows.len() as int
    };
    joined(copy_parts(rows, a, b, selection.old, last))
}

/// The selection with its anchor and head swapped.
pub open spec fn reversed(selection: Selection) -> Selection {
    Selection { anchor: selection.head, head: selection.anchor, old: selection.old }
}

/// Copying a selection does not depend on the direction it was dragged in:
/// with anchor and head swapped it copies the same text.
pub proof fn lemma_copy_ignores_direction(rows: Seq<ReviewRow>, selection: Selection)
    ensures
        selection_text(rows, reversed(selection)) == selection_text(rows, selection),
{
}

/// The selected part of row `i`.
fn row_part_exec(row: &ReviewRow, i: usize, a: TextCursor, b: TextCursor, old: bool) -> (r: Option<String>)
    ensures
        (match r {
            Some(s) => row_part(*row, i as int, a, b, old) == Some(s@),
            None => row_part(*row, i as int, a, b, old) is None,
        }),
{
    let line = match row {
        ReviewRow::Code { left, right, .. } => {
            let side = if old {
                left
            } else {
                right
            };
            match side {
                Some(l) => l,
                None => return None,
            }
        },
        _ => return None,
    };
    let text = line.text.as_str();
    let t = chars_of(text);
    let len = byte_len_of(text);
    let start = if i == a.row {
        if a.byte < len {
            a.byte
        } else {
            len
        }
    } else {
        0
    };
    let end = if i == b.row {
        if b.byte < len {
            b.byte
        } else {
            len
        }
    } else {
        len
    };
    let c1 = match char_index(&t, start) {
        Some(c) => c,
        None => return None,
    };
    let c2 = match char_index(&t, end) {
        Some(c) => c,
        None => return None,
    };
    if c1 > c2 {
        return None;
    }
    proof {
        lemma_char_at_byte_bound(t@, start as int, 0);
        lemma_char_at_byte_bound(t@, end as int, 0);
    }
    Some(text.substring_char(c1, c2).to_owned())
}

proof fn lemma_char_at_byte_bound(t: Seq<char>, k: int, i: int)
    requires
        0 <= i,
    ensures
        char_at_byte_from(t, k, i) matches Some(c) ==> i <= c <= t.len(),
    decreases t.len() - i,
{
    if i <= t.len() && utf8_len(t.take(i)) != k && !(i == t.len() || utf8_len(t.take(i)) > k) {
        lemma_char_at_byte_bound(t, k, i + 1);
    }
}

/// The text that copying `selection` takes from `rows` (see
/// `selection_text`).
pub fn copy_text(rows: &Vec<ReviewRow>, selection: Selection) -> (r: String)
    ensures
        r@ == selection_text(rows@, selection),
{
    let swap = selection.head.row < selection.anchor.row || (selection.head.row
        == selection.anchor.row && selection.head.byte < selection.anchor.byte);
    let a = if swap {
        selection.head
    } else {
        selection.anchor
    };
    let b = if swap {
        selection.anchor
    } else {
        selection.head
    };
    let last = if b.row < rows.len() && b.row + 1 < rows.len() {
        b.row + 1
    } else {
        rows.len()
    };
    let mut out = String::new();
    let mut any = false;
    let ghost mut parts: Seq<Seq<char>> = Seq::empty();
    let mut i = a.row;
    if i > last {
        i = last;
    }
    proof {
        assert(copy_parts(rows@, a, b, selection.old, i as int) =~= Seq::<Seq<char>>::empty()) by {
            reveal_with_fuel(copy_parts, 2);
        }
    }
    while i < last
        invariant
            a.row <= i || i == last,
            i <= last <= rows@.len(),
            last == (if b.row + 1 < rows@.len() {
                b.row + 1
            } else {
                rows@.len() as int
            }),
            parts == copy_parts(rows@, a, b, selection.old, i as int),
            out@ == joined(parts),
            any == (parts.len() > 0),
        decreases last - i,
    {
        match row_part_exec(&rows[i], i, a, b, selection.old) {
            Some(p) => {
                if any {
                    out = out.concat("\n");
                }
                out = out.concat(p.as_str());
                proof {
                    reveal_strlit("\n");
                    let next = parts.push(p@);
                    assert(next.drop_last() =~= parts);
                    parts = next;
                }
                any = true;
            },
            None => {},
        }
        i = i + 1;
    }
    out
}

/// Which highlight paints a piece of a styled run.
#[derive(Clone, Copy, Debug, PartialEq, Eq, Structural)]
pub enum Highlight {
    Plain,
    Word,
    Selection,
}

/// A piece of a styled run: the run it comes from, its length in bytes and
/// its highlight.
#[derive(Clone, Copy, Debug, PartialEq, Eq, Structural)]
pub struct Piece {
    pub span: usize,
    pub len: usize,
    pub highlight: Highlight,
}

/// `s` with `x` inserted in order, unless it is there already; `s` is in
/// increasing order.
pub open spec fn insert_sorted(s: Seq<usize>, x: usize) -> Seq<usize>
    decreases s.len(),
{
    if s.len() == 0 {
        seq![x]
    } else if x < s[0] {
        seq![x] + s
    } else if x == s[0] {
        s
    } else {
        seq![s[0]] + insert_sorted(s.skip(1), x)
    }
}

/// The point `x` cuts the run `[start, end)`: it lies strictly inside.
pub open spec fn cuts_inside(start: usize, end: usize, x: usize) -> bool {
    start < x && x < end
}

/// The cut points of a run: its ends and every highlight edge strictly
/// inside it, in increasing order without repeats.
pub open spec fn run_cuts(
    span: std::ops::Range<usize>,
    word: Option<std::ops::Range<usize>>,
    selection: Option<std::ops::Range<usize>>,
) -> Seq<usize> {
    let base = insert_sorted(seq![span.start], span.end);
    let with_word = match word {
        Some(w) => {
            let a = if cuts_inside(span.start, span.end, w.start) {
                insert_sorted(base, w.start)
            } else {
                base
            };
            if cuts_inside(span.start, span.end, w.end) {
                insert_sorted(a, w.end)
            } else {
                a
            }
        },
        None => base,
    };
    match selection {
        Some(r) => {
            let a = if cuts_inside(span.start, span.end, r.start) {
                insert_sorted(with_word, r.start)
            } else {
                with_word
            };
            if cuts_inside(span.start, span.end, r.end) {
                insert_sorted(a, r.end)
            } else {
                a
            }
        },
        None => with_word,
    }
}

/// The highlight of the piece starting at `p`: the selection's when it
/// holds `p`, else the word's, else none.
pub open spec fn highlight_at(
    p: usize,
    word: Option<std::ops::Range<usize>>,
    selection: Option<std::ops::Range<usize>>,
) -> Highlight {
    if selection matches Some(r) && r.start <= p < r.end {
        Highlight::Selection
    } else if word matches Some(w) && w.start <= p < w.end {
        Highlight::Word
    } else {
        Highlight::Plain
    }
}

/// The pieces of run `i`: one between each two consecutive cut points.
pub open spec fn run_pieces(
    i: int,
    cuts: Seq<usize>,
    word: Option<std::ops::Range<usize>>,
    selection: Option<std::ops::Range<usize>>,
) -> Seq<Piece> {
    Seq::new(
        if cuts.len() > 0 {
            (cuts.len() - 1) as nat
        } else {
            0
        },
        |k: int|
            Piece {
                span: i as usize,
                len: (cuts[k + 1] - cuts[k]) as usize,
                highlight: highlight_at(cuts[k], word, selection),
            },
    )
}

/// The pieces of the first `n` runs.
pub open spec fn all_pieces(
    spans: Seq<std::ops::Range<usize>>,
    word: Option<std::ops::Range<usize>>,
    selection: Option<std::ops::Range<usize>>,
    n: int,
) -> Seq<Piece>
    decreases n,
{
    if n <= 0 {
        Seq::empty()
    } else {
        all_pieces(spans, word, selection, n - 1) + run_pieces(
            n - 1,
            run_cuts(spans[n - 1], word, selection),
            word,
            selection,
        )
    }
}

/// Increasing, without repeats.
pub open spec fn increasing(s: Seq<usize>) -> bool {
    forall|a: int, b: int| 0 <= a < b < s.len() ==> s[a] < s[b]
}

proof fn lemma_insert_sorted(s: Seq<usize>, x: usize, lo: int)
    requires
        increasing(s),
        forall|k: int| 0 <= k < s.len() ==> s[k] > lo,
        x > lo,
    ensures
        increasing(insert_sorted(s, x)),
        forall|k: int| 0 <= k < insert_sorted(s, x).len() ==> insert_sorted(s, x)[k] > lo,
        insert_sorted(s, x).len() >= 1,
    decreases s.len(),
{
    if s.len() > 0 && x > s[0] {
        let tail = s.skip(1);
        assert forall|k: int| 0 <= k < tail.len() implies tail[k] > s[0] by {
            assert(tail[k] == s[k + 1]);
        }
        assert(increasing(tail)) by {
            assert forall|a: int, b: int| 0 <= a < b < tail.len() implies tail[a] < tail[b] by {
                assert(tail[a] == s[a + 1]);
                assert(tail[b] == s[b + 1]);
            }
        }
        lemma_insert_sorted(tail, x, s[0] as int);
        let rest = insert_sorted(tail, x);
        let r = seq![s[0]] + rest;
        assert forall|a: int, b: int| 0 <= a < b < r.len() implies r[a] < r[b] by {
            assert(r[b] == rest[b - 1]);
            if a > 0 {
                assert(r[a] == rest[a - 1]);
            }
        }
        assert forall|k: int| 0 <= k < r.len() implies r[k] > lo by {
            if k > 0 {
                assert(r[k] == rest[k - 1]);
            }
        }
    } else if s.len() > 0 && x < s[0] {
        let r = seq![x] + s;
        assert forall|a: int, b: int| 0 <= a < b < r.len() implies r[a] < r[b] by {
            assert(r[b] == s[b - 1]);
            if a > 0 {
                assert(r[a] == s[a - 1]);
            }
        }
        assert forall|k: int| 0 <= k < r.len() implies r[k] > lo by {
            if k > 0 {
                assert(r[k] == s[k - 1]);
            }
        }
    }
}

/// The cut points of a run are in increasing order, without repeats.
pub proof fn lemma_run_cuts(
    span: std::ops::Range<usize>,
    word: Option<std::ops::Range<usize>>,
    selection: Option<std::ops::Range<usize>>,
)
    ensures
        increasing(run_cuts(span, word, selection)),
        run_cuts(span, word, selection).len() >= 1,
{
    let one = seq![span.start];
    lemma_insert_sorted(one, span.end, -1);
    let mut cur = insert_sorted(one, span.end);
    match word {
        Some(w) => {
            if cuts_inside(span.start, span.end, w.start) {
                lemma_insert_sorted(cur, w.start, -1);
                cur = insert_sorted(cur, w.start);
            }
            if cuts_inside(span.start, span.end, w.end) {
                lemma_insert_sorted(cur, w.end, -1);
                cur = insert_sorted(cur, w.end);
            }
        },
        None => {},
    }
    match selection {
        Some(r) => {
            if cuts_inside(span.start, span.end, r.start) {
                lemma_insert_sorted(cur, r.start, -1);
                cur = insert_sorted(cur, r.start);
            }
            if cuts_inside(span.start, span.end, r.end) {
                lemma_insert_sorted(cur, r.end, -1);
                cur = insert_sorted(cur, r.end);
            }
        },
        None => {},
    }
    assert(cur == run_cuts(span, word, selection));
}

/// `s` with `x` inserted in order (see `insert_sorted`).
fn insert_cut(s: &mut Vec<usize>, x: usize)
    ensures
        final(s)@ == insert_sorted(old(s)@, x),
{
    let mut k: usize = 0;
    let ghost start = s@;
    proof {
        assert(start.take(0) + start.skip(0) =~= start);
        assert(start.skip(0) =~= start);
        assert(start.take(0) + insert_sorted(start, x) =~= insert_sorted(start, x));
    }
    while k < s.len() && s[k] < x
        invariant
            s@ == start,
            k <= s@.len(),
            insert_sorted(start, x) == start.take(k as int) + insert_sorted(start.skip(k as int), x),
        decreases s.len() - k,
    {
        proof {
            let rest = start.skip(k as int);
            assert(rest[0] == start[k as int]);
            assert(rest.skip(1) =~= start.skip(k + 1));
            assert(start.take(k as int) + (seq![rest[0]] + insert_sorted(rest.skip(1), x)) =~= start.take(k + 1)
                + insert_sorted(start.skip(k + 1), x));
        }
        k = k + 1;
    }
    if k < s.len() && s[k] == x {
        proof {
            assert(start.take(k as int) + start.skip(k as int) =~= start);
        }
        return;
    }
    s.insert(k, x);
    proof {
        if k < start.len() {
            assert(start.skip(k as int)[0] == start[k as int]);
        }
        assert(s@ =~= start.take(k as int) + insert_sorted(start.skip(k as int), x));
    }
}

/// The pieces a run of styled text is cut into by the word highlight and
/// the selection: each run is cut at every highlight edge inside it, and
/// each piece is painted by the selection, else the word, that holds its
/// first byte.
pub fn decorate_pieces(
    spans: &[std::ops::Range<usize>],
    word: &Option<std::ops::Range<usize>>,
    selection: &Option<std::ops::Range<usize>>,
) -> (r: Vec<Piece>)
    ensures
        r@ == all_pieces(spans@, *word, *selection, spans@.len() as int),
{
    let mut out: Vec<Piece> = Vec::new();
    let mut i: usize = 0;
    while i < spans.len()
        invariant
            i <= spans@.len(),
            out@ == all_pieces(spans@, *word, *selection, i as int),
        decreases spans.len() - i,
    {
        let span = &spans[i];
        let mut cuts: Vec<usize> = Vec::new();
        cuts.push(span.start);
        insert_cut(&mut cuts, span.end);
        match word {
            Some(w) => {
                if span.start < w.start && w.start < span.end {
                    insert_cut(&mut cuts, w.start);
                }
                if span.start < w.end && w.end < span.end {
                    insert_cut(&mut cuts, w.end);
                }
            },
            None => {},
        }
        match selection {
            Some(r) => {
                if span.start < r.start && r.start < span.end {
                    insert_cut(&mut cuts, r.start);
                }
                if span.start < r.end && r.end < span.end {
                    insert_cut(&mut cuts, r.end);
                }
            },
            None => {},
        }
        assert(cuts@ == run_cuts(spans@[i as int], *word, *selection)) by {
            assert(seq![span.start] =~= Seq::<usize>::empty().push(span.start));
        }
        proof {
            lemma_run_cuts(spans@[i as int], *word, *selection);
        }
        let ghost before = out@;
        let ghost pieces = run_pieces(i as int, cuts@, *word, *selection);
        let mut k: usize = 0;
        while k < cuts.len() - 1
            invariant
                cuts@.len() >= 1,
                increasing(cuts@),
                k + 1 <= cuts@.len(),
                pieces == run_pieces(i as int, cuts@, *word, *selection),
                out@ == before + pieces.take(k as int),
            decreases cuts.len() - k,
        {
            let p0 = cuts[k];
            let p1 = cuts[k + 1];
            let highlight = match selection {
                Some(r) if r.start <= p0 && p0 < r.end => Highlight::Selection,
                _ => match word {
                    Some(w) if w.start <= p0 && p0 < w.end => Highlight::Word,
                    _ => Highlight::Plain,
                },
            };
            out.push(Piece { span: i, len: p1 - p0, highlight });
            proof {
                assert(pieces.take(k + 1) =~= pieces.take(k as int).push(pieces[k as int]));
            }
            k = k + 1;
        }
        proof {
            assert(pieces.take(k as int) =~= pieces);
        }
        i = i + 1;
    }
    out
}

} // verus!
