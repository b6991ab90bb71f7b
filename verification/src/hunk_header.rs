//! Reading the old-file side of a unified-diff hunk header,
//! `@@ -old_start,old_count +new_start,new_count @@ context`: the first and
//! last old-file line of the hunk, from the `-old_start,old_count` field, so
//! `@@ -5,2 +7,3 @@` spans old lines 5 to 6.

use vstd::prelude::*;
use crate::text::{chars_of, is_space, is_space_char};

verus! {

/// First index at or after `i` where `@@` starts, or `None`.
pub open spec fn find_marker(s: Seq<char>, i: int) -> Option<int>
    decreases s.len() - i,
{
    if i < 0 || i + 1 >= s.len() {
        None
    } else if s[i] == '@' && s[i + 1] == '@' {
        Some(i)
    } else {
        find_marker(s, i + 1)
    }
}

/// `header.split("@@").nth(1)`: the text between the first and the second
/// `@@`, or after the first one when there is no second.
pub open spec fn between_markers(s: Seq<char>) -> Option<Seq<char>> {
    match find_marker(s, 0) {
        None => None,
        Some(i) => {
            let rest = s.skip(i + 2);
            match find_marker(rest, 0) {
                None => Some(rest),
                Some(j) => Some(rest.take(j)),
            }
        },
    }
}

/// First index at or after `i` whose character is (`space`) or is not
/// (`!space`) whitespace, or the end.
pub open spec fn scan_space(s: Seq<char>, i: int, space: bool) -> int
    decreases s.len() - i,
{
    if 0 <= i < s.len() && is_space(s[i]) != space {
        scan_space(s, i + 1, space)
    } else {
        i
    }
}

/// `s.split_whitespace().next()`: the first whitespace-separated word.
pub open spec fn first_word(s: Seq<char>) -> Option<Seq<char>> {
    let start0 = scan_space(s, 0, false);
    let end0 = scan_space(s, start0, true);
    if start0 < s.len() {
        Some(s.subrange(start0, end0))
    } else {
        None
    }
}

/// Index of the first character at or after `i` that is not a `-`.
pub open spec fn leading_minus(s: Seq<char>, i: int) -> int
    decreases s.len() - i,
{
    if 0 <= i < s.len() && s[i] == '-' {
        leading_minus(s, i + 1)
    } else {
        i
    }
}

/// `s.trim_start_matches('-')`.
pub open spec fn trim_minus(s: Seq<char>) -> Seq<char> {
    s.skip(leading_minus(s, 0))
}

/// First index at or after `i` holding a `,`, or the end.
pub open spec fn find_comma(s: Seq<char>, i: int) -> int
    decreases s.len() - i,
{
    if 0 <= i < s.len() && s[i] != ',' {
        find_comma(s, i + 1)
    } else {
        i
    }
}

/// Decimal value of a run of ASCII digits.
pub open spec fn digits_value(s: Seq<char>) -> int
    decreases s.len(),
{
    if s.len() == 0 {
        0
    } else {
        digits_value(s.drop_last()) * 10 + (s.last() as int - '0' as int)
    }
}

/// All characters are ASCII digits.
pub open spec fn all_digits(s: Seq<char>) -> bool {
    forall|k: int| 0 <= k < s.len() ==> '0' <= #[trigger] s[k] <= '9'
}

/// `u32::from_str`: an optional `+`, then one or more ASCII digits whose
/// value fits in a `u32`.
pub open spec fn parse_u32(s: Seq<char>) -> Option<u32> {
    let t = if s.len() > 0 && s[0] == '+' { s.skip(1) } else { s };
    if t.len() > 0 && all_digits(t) && digits_value(t) <= u32::MAX {
        Some(digits_value(t) as u32)
    } else {
        None
    }
}

/// The `-a,b` field of a header, without its leading `-` signs.
pub open spec fn old_field(header: Seq<char>) -> Option<Seq<char>> {
    match between_markers(header) {
        None => None,
        Some(rest) => match first_word(rest) {
            None => None,
            Some(word) => Some(trim_minus(word)),
        },
    }
}

/// The first line of the old-file side of a hunk.
pub open spec fn old_start_of(header: Seq<char>) -> Option<u32> {
    match old_field(header) {
        None => None,
        Some(f) => parse_u32(f.take(find_comma(f, 0))),
    }
}

/// The count after the comma of the old-file field, when it parses.
pub open spec fn old_count_of(header: Seq<char>) -> Option<u32> {
    match old_field(header) {
        None => None,
        Some(f) => {
            let c = find_comma(f, 0);
            if c < f.len() {
                let rest = f.skip(c + 1);
                parse_u32(rest.take(find_comma(rest, 0)))
            } else {
                None
            }
        },
    }
}

/// The last line of the old-file side: `start + count - 1`, or `start`
/// when there is no count (a count of 0 also gives `start`).
pub open spec fn old_end_of(header: Seq<char>) -> Option<int> {
    match old_start_of(header) {
        None => None,
        Some(start) => match old_count_of(header) {
            Some(count) => Some(start + if count == 0 { 0 } else { count - 1 }),
            None => Some(start as int),
        },
    }
}

proof fn lemma_find_marker(s: Seq<char>, i: int)
    requires
        0 <= i,
    ensures
        find_marker(s, i) matches Some(j) ==> i <= j && j + 1 < s.len(),
    decreases s.len() - i,
{
    if !(i + 1 >= s.len()) && !(s[i] == '@' && s[i + 1] == '@') {
        lemma_find_marker(s, i + 1);
    }
}

fn find_marker_exec(s: &Vec<char>, from: usize) -> (r: Option<usize>)
    ensures
        r matches Some(j) ==> find_marker(s@, from as int) == Some(j as int),
        r is None ==> find_marker(s@, from as int) is None,
{
    let mut i = from;
    while i < s.len() && i + 1 < s.len()
        invariant
            from <= i,
            find_marker(s@, from as int) == find_marker(s@, i as int),
        decreases s.len() - i,
    {
        if s[i] == '@' && s[i + 1] == '@' {
            return Some(i);
        }
        i = i + 1;
    }
    None
}

fn scan_space_exec(s: &Vec<char>, from: usize, space: bool) -> (r: usize)
    requires
        from <= s@.len(),
    ensures
        r == scan_space(s@, from as int, space),
        from <= r <= s@.len(),
{
    let mut i = from;
    while i < s.len() && is_space_char(s[i]) != space
        invariant
            from <= i <= s@.len(),
            scan_space(s@, from as int, space) == scan_space(s@, i as int, space),
        decreases s.len() - i,
    {
        i = i + 1;
    }
    i
}

fn find_comma_exec(s: &Vec<char>, from: usize) -> (r: usize)
    requires
        from <= s@.len(),
    ensures
        r == find_comma(s@, from as int),
        from <= r <= s@.len(),
{
    let mut i = from;
    while i < s.len() && s[i] != ','
        invariant
            from <= i <= s@.len(),
            find_comma(s@, from as int) == find_comma(s@, i as int),
        decreases s.len() - i,
    {
        i = i + 1;
    }
    i
}

/// `s[from..to]` as a vector.
fn slice_of(s: &Vec<char>, from: usize, to: usize) -> (r: Vec<char>)
    requires
        from <= to <= s@.len(),
    ensures
        r@ == s@.subrange(from as int, to as int),
{
    let mut r: Vec<char> = Vec::new();
    let mut i = from;
    while i < to
        invariant
            from <= i <= to <= s@.len(),
            r@ == s@.subrange(from as int, i as int),
        decreases to - i,
    {
        r.push(s[i]);
        i = i + 1;
        assert(r@ =~= s@.subrange(from as int, i as int));
    }
    r
}

/// Parses a `u32` as `u32::from_str` does (see `parse_u32`).
pub fn parse_u32_chars(s: &Vec<char>) -> (r: Option<u32>)
    ensures
        r == parse_u32(s@),
{
    let from: usize = if s.len() > 0 && s[0] == '+' { 1 } else { 0 };
    let ghost t = if s@.len() > 0 && s@[0] == '+' { s@.skip(1) } else { s@ };
    assert(t =~= s@.skip(from as int));
    if from >= s.len() {
        return None;
    }
    let mut value: u64 = 0;
    let mut i = from;
    while i < s.len()
        invariant
            from <= i <= s@.len(),
            from < s@.len(),
            t == s@.skip(from as int),
            t == (if s@.len() > 0 && s@[0] == '+' { s@.skip(1) } else { s@ }),
            all_digits(s@.subrange(from as int, i as int)),
            value == digits_value(s@.subrange(from as int, i as int)),
            value <= u32::MAX,
        decreases s.len() - i,
    {
        let c = s[i];
        if c < '0' || c > '9' {
            proof {
                assert(t[i - from] == c);
                assert(!all_digits(t));
            }
            return None;
        }
        let digit = (c as u32 - '0' as u32) as u64;
        let next = value * 10 + digit;
        let ghost prefix = s@.subrange(from as int, i + 1);
        proof {
            assert(prefix.drop_last() =~= s@.subrange(from as int, i as int));
            assert(prefix.last() == c);
            assert(all_digits(prefix)) by {
                assert forall|k: int| 0 <= k < prefix.len() implies '0' <= #[trigger] prefix[k]
                    <= '9' by {
                    if k < prefix.len() - 1 {
                        assert(prefix[k] == s@.subrange(from as int, i as int)[k]);
                    }
                }
            }
            assert(digits_value(prefix) == next);
        }
        if next > 0xffff_ffff {
            proof {
                assert(t.take((i + 1 - from) as int) =~= prefix);
                lemma_digits_grow(t, (i + 1 - from) as int);
            }
            return None;
        }
        value = next;
        i = i + 1;
    }
    assert(s@.subrange(from as int, s@.len() as int) =~= t);
    Some(value as u32)
}

/// A run of digits has a value of at least zero.
proof fn lemma_digits_nonneg(t: Seq<char>)
    requires
        all_digits(t),
    ensures
        digits_value(t) >= 0,
    decreases t.len(),
{
    if t.len() > 0 {
        assert(all_digits(t.drop_last())) by {
            assert forall|k: int| 0 <= k < t.drop_last().len() implies '0'
                <= #[trigger] t.drop_last()[k] <= '9' by {
                assert(t.drop_last()[k] == t[k]);
            }
        }
        lemma_digits_nonneg(t.drop_last());
        assert('0' <= t.last() <= '9');
    }
}

/// A longer run of digits is worth at least as much as its prefix.
proof fn lemma_digits_grow(t: Seq<char>, n: int)
    requires
        0 <= n <= t.len(),
        all_digits(t.take(n)),
    ensures
        all_digits(t) ==> digits_value(t.take(n)) <= digits_value(t),
    decreases t.len() - n,
{
    if all_digits(t) {
        if n < t.len() {
            let next = t.take(n + 1);
            assert(next.drop_last() =~= t.take(n));
            assert(next.last() == t[n]);
            assert('0' <= t[n] <= '9');
            assert(all_digits(next)) by {
                assert forall|k: int| 0 <= k < next.len() implies '0' <= #[trigger] next[k]
                    <= '9' by {
                    assert(next[k] == t[k]);
                }
            }
            lemma_digits_nonneg(t.take(n));
            assert(digits_value(next) == digits_value(t.take(n)) * 10 + (t[n] as int - '0' as int));
            lemma_digits_grow(t, n + 1);
        } else {
            assert(t.take(n) =~= t);
        }
    }
}

/// The old-file field of a header (see `old_field`), as characters.
fn old_field_exec(header: &str) -> (r: Option<Vec<char>>)
    ensures
        r matches Some(f) ==> old_field(header@) == Some(f@),
        r is None ==> old_field(header@) is None,
{
    let s = chars_of(header);
    let first = match find_marker_exec(&s, 0) {
        None => return None,
        Some(i) => i,
    };
    proof {
        lemma_find_marker(s@, 0);
    }
    let rest = slice_of(&s, first + 2, s.len());
    assert(rest@ =~= s@.skip(first + 2));
    let inner = match find_marker_exec(&rest, 0) {
        None => rest,
        Some(j) => {
            proof {
                lemma_find_marker(rest@, 0);
            }
            let t = slice_of(&rest, 0, j);
            assert(t@ =~= rest@.take(j as int));
            t
        },
    };
    let start0 = scan_space_exec(&inner, 0, false);
    let end0 = scan_space_exec(&inner, start0, true);
    if start0 >= inner.len() {
        return None;
    }
    let word = slice_of(&inner, start0, end0);
    let mut k: usize = 0;
    while k < word.len() && word[k] == '-'
        invariant
            k <= word@.len(),
            leading_minus(word@, 0) == leading_minus(word@, k as int),
        decreases word.len() - k,
    {
        k = k + 1;
    }
    let field = slice_of(&word, k, word.len());
    assert(field@ =~= trim_minus(word@));
    Some(field)
}

/// The first old-file line of a `@@ -a,b +c,d @@` header: `a` (see
/// `old_start_of`).
pub fn hunk_new_start(header: &str) -> (r: Option<u32>)
    ensures
        r == old_start_of(header@),
{
    let field = match old_field_exec(header) {
        None => return None,
        Some(f) => f,
    };
    let c = find_comma_exec(&field, 0);
    let first = slice_of(&field, 0, c);
    assert(first@ =~= field@.take(c as int));
    parse_u32_chars(&first)
}

/// The last old-file line of a hunk header: `a + b - 1`, or `a` when the
/// count is missing or 0 (see `old_end_of`). The header must not describe a
/// range that ends beyond `u32::MAX`.
pub fn hunk_new_end(header: &str) -> (r: Option<u32>)
    requires
        old_end_of(header@) matches Some(e) ==> e <= u32::MAX,
    ensures
        r matches Some(e) ==> old_end_of(header@) == Some(e as int),
        r is None ==> old_end_of(header@) is None,
{
    let field = match old_field_exec(header) {
        None => return None,
        Some(f) => f,
    };
    let c = find_comma_exec(&field, 0);
    let first = slice_of(&field, 0, c);
    assert(first@ =~= field@.take(c as int));
    let start = match parse_u32_chars(&first) {
        None => return None,
        Some(v) => v,
    };
    if c >= field.len() {
        return Some(start);
    }
    let rest = slice_of(&field, c + 1, field.len());
    assert(rest@ =~= field@.skip(c + 1));
    let c2 = find_comma_exec(&rest, 0);
    let second = slice_of(&rest, 0, c2);
    assert(second@ =~= rest@.take(c2 as int));
    match parse_u32_chars(&second) {
        Some(count) => Some(start + if count == 0 { 0 } else { count - 1 }),
        None => Some(start),
    }
}

} // verus!
