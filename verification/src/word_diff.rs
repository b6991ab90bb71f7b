//! The changed span of a line against its replacement: everything between the
//! longest common prefix and the longest common suffix, in UTF-8 byte offsets
//! that always fall on character boundaries.

use vstd::prelude::*;
use crate::text::{byte_len_of, char_width, chars_of, lemma_utf8_len_push, lemma_utf8_len_take, utf8_len};

verus! {

/// Length, in characters, of the longest common prefix of `a` and `b`.
pub open spec fn common_prefix_len(a: Seq<char>, b: Seq<char>) -> nat
    decreases a.len(),
{
    if a.len() == 0 || b.len() == 0 || a[0] != b[0] {
        0
    } else {
        1 + common_prefix_len(a.drop_first(), b.drop_first())
    }
}

/// Length, in characters, of the longest common suffix of `a` and `b`.
pub open spec fn common_suffix_len(a: Seq<char>, b: Seq<char>) -> nat {
    common_prefix_len(a.reverse(), b.reverse())
}

/// The characters of `a` that precede the changed span.
pub open spec fn span_prefix_chars(a: Seq<char>, b: Seq<char>) -> nat {
    common_prefix_len(a, b)
}

/// The characters of `a` that follow the changed span.
pub open spec fn span_suffix_chars(a: Seq<char>, b: Seq<char>) -> nat {
    let p = common_prefix_len(a, b) as int;
    common_suffix_len(a.skip(p), b.skip(p))
}

/// Byte offset where the changed span of `a` (against `b`) starts.
pub open spec fn span_start(a: Seq<char>, b: Seq<char>) -> nat {
    utf8_len(a.take(span_prefix_chars(a, b) as int))
}

/// Byte offset where the changed span of `a` (against `b`) ends.
pub open spec fn span_end(a: Seq<char>, b: Seq<char>) -> nat {
    utf8_len(a.take(a.len() - span_suffix_chars(a, b)))
}

proof fn lemma_common_prefix_step(a: Seq<char>, b: Seq<char>, i: int)
    requires
        0 <= i <= a.len(),
        i <= b.len(),
        forall|j: int| 0 <= j < i ==> a[j] == b[j],
    ensures
        common_prefix_len(a, b) == i + common_prefix_len(a.skip(i), b.skip(i)),
    decreases i,
{
    if i > 0 {
        assert(a.drop_first().skip(i - 1) =~= a.skip(i));
        assert(b.drop_first().skip(i - 1) =~= b.skip(i));
        lemma_common_prefix_step(a.drop_first(), b.drop_first(), i - 1);
    } else {
        assert(a.skip(0) =~= a);
        assert(b.skip(0) =~= b);
    }
}

/// The common prefix is at most as long as either sequence, and it is common.
pub proof fn lemma_common_prefix_bounds(a: Seq<char>, b: Seq<char>)
    ensures
        common_prefix_len(a, b) <= a.len(),
        common_prefix_len(a, b) <= b.len(),
        forall|j: int| 0 <= j < common_prefix_len(a, b) ==> a[j] == b[j],
    decreases a.len(),
{
    if !(a.len() == 0 || b.len() == 0 || a[0] != b[0]) {
        lemma_common_prefix_bounds(a.drop_first(), b.drop_first());
        assert forall|j: int| 0 <= j < common_prefix_len(a, b) implies a[j] == b[j] by {
            if j > 0 {
                assert(a[j] == a.drop_first()[j - 1]);
                assert(b[j] == b.drop_first()[j - 1]);
            }
        }
    }
}

/// The common prefix does not depend on the order of the two lines.
pub proof fn lemma_common_prefix_symmetric(a: Seq<char>, b: Seq<char>)
    ensures
        common_prefix_len(a, b) == common_prefix_len(b, a),
    decreases a.len(),
{
    if !(a.len() == 0 || b.len() == 0 || a[0] != b[0]) {
        lemma_common_prefix_symmetric(a.drop_first(), b.drop_first());
    }
}

/// A line compared with itself keeps everything in its prefix.
pub proof fn lemma_common_prefix_self(a: Seq<char>)
    ensures
        common_prefix_len(a, a) == a.len(),
    decreases a.len(),
{
    if a.len() > 0 {
        lemma_common_prefix_self(a.drop_first());
    }
}

/// A line and its replacement split the same way: the same number of
/// characters precede and follow the changed span in both, and those
/// characters are equal.
pub proof fn lemma_span_shared_context(a: Seq<char>, b: Seq<char>)
    ensures
        span_prefix_chars(a, b) == span_prefix_chars(b, a),
        span_suffix_chars(a, b) == span_suffix_chars(b, a),
        span_prefix_chars(a, b) + span_suffix_chars(a, b) <= a.len(),
        span_prefix_chars(a, b) + span_suffix_chars(a, b) <= b.len(),
        a.take(span_prefix_chars(a, b) as int) == b.take(span_prefix_chars(a, b) as int),
        a.skip(a.len() - span_suffix_chars(a, b)) == b.skip(b.len() - span_suffix_chars(a, b)),
{
    lemma_common_prefix_symmetric(a, b);
    lemma_common_prefix_bounds(a, b);
    let p = common_prefix_len(a, b) as int;
    let ra = a.skip(p).reverse();
    let rb = b.skip(p).reverse();
    lemma_common_prefix_symmetric(ra, rb);
    lemma_common_prefix_bounds(ra, rb);
    let q = common_prefix_len(ra, rb) as int;
    assert(a.take(p) =~= b.take(p));
    assert forall|k: int| 0 <= k < q implies #[trigger] a.skip(a.len() - q)[k] == b.skip(b.len() - q)[k] by {
        assert(ra[q - 1 - k] == rb[q - 1 - k]);
    }
    assert(a.skip(a.len() - q) =~= b.skip(b.len() - q));
}

/// A line compared with itself has an empty span at its end.
pub proof fn lemma_span_of_identical_lines(a: Seq<char>)
    ensures
        span_start(a, a) == utf8_len(a),
        span_end(a, a) == utf8_len(a),
{
    lemma_common_prefix_self(a);
    assert(a.take(a.len() as int) =~= a);
    assert(a.skip(a.len() as int) =~= Seq::<char>::empty());
    assert(a.skip(a.len() as int).reverse() =~= Seq::<char>::empty());
}

/// Index of the longest common prefix of two character vectors.
fn prefix_chars(a: &Vec<char>, b: &Vec<char>) -> (p: usize)
    ensures
        p == common_prefix_len(a@, b@),
{
    let mut i: usize = 0;
    while i < a.len() && i < b.len() && a[i] == b[i]
        invariant
            i <= a.len(),
            i <= b.len(),
            forall|j: int| 0 <= j < i ==> a@[j] == b@[j],
        decreases a.len() - i,
    {
        i = i + 1;
    }
    proof {
        lemma_common_prefix_step(a@, b@, i as int);
    }
    i
}

/// Length of the longest common suffix of `a[from..]` and `b[from..]`.
fn suffix_chars(a: &Vec<char>, b: &Vec<char>, from: usize) -> (s: usize)
    requires
        from <= a.len(),
        from <= b.len(),
    ensures
        s == common_suffix_len(a@.skip(from as int), b@.skip(from as int)),
        s <= a.len() - from,
{
    let ghost ra = a@.skip(from as int).reverse();
    let ghost rb = b@.skip(from as int).reverse();
    let la = a.len();
    let lb = b.len();
    let mut k: usize = 0;
    while k < la - from && k < lb - from && a[la - 1 - k] == b[lb - 1 - k]
        invariant
            la == a.len(),
            lb == b.len(),
            from <= la,
            from <= lb,
            k <= la - from,
            k <= lb - from,
            ra == a@.skip(from as int).reverse(),
            rb == b@.skip(from as int).reverse(),
            forall|j: int| 0 <= j < k ==> ra[j] == rb[j],
        decreases la - k,
    {
        assert(ra[k as int] == a@[la - 1 - k]);
        assert(rb[k as int] == b@[lb - 1 - k]);
        k = k + 1;
    }
    proof {
        lemma_common_prefix_step(ra, rb, k as int);
        if k < la - from && k < lb - from {
            assert(ra.skip(k as int)[0] == a@[la - 1 - k]);
            assert(rb.skip(k as int)[0] == b@[lb - 1 - k]);
        }
    }
    k
}

/// Sum of the UTF-8 widths of `v[from..to]`.
fn byte_len(v: &Vec<char>, from: usize, to: usize, total: Ghost<nat>) -> (n: usize)
    requires
        from <= to <= v.len(),
        utf8_len(v@) == total@,
        total@ <= usize::MAX,
    ensures
        n == utf8_len(v@.subrange(from as int, to as int)),
{
    let mut n: usize = 0;
    let mut i = from;
    proof {
        assert(v@.subrange(from as int, from as int) =~= Seq::<char>::empty());
    }
    while i < to
        invariant
            from <= i <= to <= v.len(),
            n == utf8_len(v@.subrange(from as int, i as int)),
            utf8_len(v@) == total@,
            total@ <= usize::MAX,
        decreases to - i,
    {
        proof {
            lemma_utf8_len_push(v@.subrange(from as int, i as int), v@[i as int]);
            assert(v@.subrange(from as int, i as int).push(v@[i as int])
                =~= v@.subrange(from as int, i + 1));
            lemma_utf8_len_take(v@.subrange(from as int, v.len() as int), i + 1 - from);
            assert(v@.subrange(from as int, v.len() as int).take(i + 1 - from)
                =~= v@.subrange(from as int, i + 1));
            lemma_utf8_len_take(v@, from as int);
            assert(v@.skip(from as int) =~= v@.subrange(from as int, v.len() as int));
        }
        n = n + char_width(v[i]);
        i = i + 1;
    }
    n
}

/// The byte range of `a` that differs from `b`: the bytes between their
/// longest common character prefix and their longest common character
/// suffix (the suffix measured after the prefix, so the two never overlap).
pub fn changed_span(a: &str, b: &str) -> (r: std::ops::Range<usize>)
    ensures
        r.start == span_start(a@, b@),
        r.end == span_end(a@, b@),
        r.start <= r.end,
        r.end <= utf8_len(a@),
{
    let av = chars_of(a);
    let bv = chars_of(b);
    let p = prefix_chars(&av, &bv);
    proof {
        lemma_common_prefix_bounds(a@, b@);
    }
    let s = suffix_chars(&av, &bv, p);
    let _bytes = byte_len_of(a);
    let total = Ghost(utf8_len(a@));
    let start = byte_len(&av, 0, p, total);
    let end = byte_len(&av, 0, av.len() - s, total);
    proof {
        assert(av@.subrange(0, p as int) =~= a@.take(p as int));
        assert(av@.subrange(0, av@.len() - s) =~= a@.take(a@.len() - s));
        lemma_utf8_len_take(a@, a@.len() - s);
        let t = a@.take(a@.len() - s);
        lemma_utf8_len_take(t, p as int);
        assert(t.take(p as int) =~= a@.take(p as int));
    }
    start..end
}

} // verus!
