//! Character-level helpers over UTF-8 strings, stated over `Seq<char>` views.

use vstd::prelude::*;
use vstd::string::StrSliceExecFns;
use vstd::utf8::*;

verus! {

broadcast use vstd::utf8::char_is_scalar;

/// Number of bytes of the UTF-8 encoding of one character.
pub open spec fn char_utf8_len(c: char) -> nat {
    encode_scalar(c as u32).len()
}

/// Number of bytes of the UTF-8 encoding of a character sequence.
pub open spec fn utf8_len(s: Seq<char>) -> nat {
    encode_utf8(s).len()
}

/// The encoded length of a concatenation is the sum of the encoded lengths.
pub proof fn lemma_utf8_len_concat(a: Seq<char>, b: Seq<char>)
    ensures
        utf8_len(a + b) == utf8_len(a) + utf8_len(b),
    decreases a.len(),
{
    if a.len() == 0 {
        assert(a + b =~= b);
    } else {
        assert((a + b).drop_first() =~= a.drop_first() + b);
        lemma_utf8_len_concat(a.drop_first(), b);
    }
}

/// Appending one character adds its encoded width.
pub proof fn lemma_utf8_len_push(a: Seq<char>, c: char)
    ensures
        utf8_len(a.push(c)) == utf8_len(a) + char_utf8_len(c),
{
    lemma_utf8_len_concat(a, seq![c]);
    assert(a.push(c) =~= a + seq![c]);
    let one = seq![c];
    assert(one.drop_first() =~= Seq::<char>::empty());
    assert(encode_utf8(one.drop_first()) =~= Seq::<u8>::empty());
    assert(encode_utf8(one) == encode_scalar(c as u32) + encode_utf8(one.drop_first()));
}

/// A prefix never encodes to more bytes than the whole sequence.
pub proof fn lemma_utf8_len_take(a: Seq<char>, n: int)
    requires
        0 <= n <= a.len(),
    ensures
        utf8_len(a.take(n)) <= utf8_len(a),
        utf8_len(a) == utf8_len(a.take(n)) + utf8_len(a.skip(n)),
{
    lemma_utf8_len_concat(a.take(n), a.skip(n));
    assert(a.take(n) + a.skip(n) =~= a);
}

/// The UTF-8 width of `c`, as `char::len_utf8` computes it.
pub fn char_width(c: char) -> (n: usize)
    ensures
        n == char_utf8_len(c),
        1 <= n <= 4,
{
    let v = c as u32;
    if v <= 0x7f {
        1
    } else if v <= 0x7ff {
        2
    } else if v <= 0xffff {
        3
    } else {
        4
    }
}

/// The UTF-8 byte length of `s` (what `str::len` returns), tied to its view.
pub fn byte_len_of(s: &str) -> (n: usize)
    ensures
        n == utf8_len(s@),
{
    let bytes = s.as_bytes();
    bytes.len()
}

/// The characters of `s`, in order.
pub fn chars_of(s: &str) -> (v: Vec<char>)
    ensures
        v@ == s@,
{
    let mut v: Vec<char> = Vec::new();
    for c in it: s.chars()
        invariant
            v@ == it.seq().take(it.index() as int),
    {
        v.push(c);
    }
    v
}

/// `str::to_lowercase`: the Unicode lowercase mapping of a string. Its
/// result depends on the string alone.
pub uninterp spec fn lowercase(s: Seq<char>) -> Seq<char>;

/// Calls `str::to_lowercase`; the contract names the result as the
/// lowercase mapping of the argument and does not spell the mapping out
/// (which depends on context, as for a final sigma); it states only that
/// the empty string gives the empty string.
#[verifier::external_body]
pub(crate) fn to_lower(s: &str) -> (r: String)
    ensures
        r@ == lowercase(s@),
        s@.len() == 0 ==> r@.len() == 0,
{
    s.to_lowercase()
}

/// `needle` occurs as a contiguous run of `hay`.
pub open spec fn is_infix(needle: Seq<char>, hay: Seq<char>) -> bool {
    exists|i: int| 0 <= i <= hay.len() - needle.len() && #[trigger] hay.subrange(i, i + needle.len()) == needle
}

/// Whether two character runs are equal.
pub fn chars_eq(a: &[char], b: &[char]) -> (r: bool)
    ensures
        r == (a@ == b@),
{
    if a.len() != b.len() {
        return false;
    }
    let mut i: usize = 0;
    while i < a.len()
        invariant
            a@.len() == b@.len(),
            i <= a.len(),
            forall|j: int| 0 <= j < i ==> a@[j] == b@[j],
        decreases a.len() - i,
    {
        if a[i] != b[i] {
            return false;
        }
        i = i + 1;
    }
    assert(a@ =~= b@);
    true
}

/// Whether `hay[at..at + needle.len()]` equals `needle`.
fn matches_at(hay: &Vec<char>, needle: &Vec<char>, at: usize) -> (r: bool)
    requires
        at + needle@.len() <= hay@.len(),
    ensures
        r == (hay@.subrange(at as int, at + needle@.len()) == needle@),
{
    let mut j: usize = 0;
    while j < needle.len()
        invariant
            at + needle@.len() <= hay@.len(),
            hay@.len() == hay.len(),
            j <= needle.len(),
            forall|k: int| 0 <= k < j ==> hay@[at + k] == needle@[k],
        decreases needle.len() - j,
    {
        if hay[at + j] != needle[j] {
            assert(hay@.subrange(at as int, at + needle@.len())[j as int] != needle@[j as int]);
            return false;
        }
        j = j + 1;
    }
    assert(hay@.subrange(at as int, at + needle@.len()) =~= needle@);
    true
}

/// Whether `needle` occurs in `hay`, as `str::contains` answers it.
pub fn contains_chars(hay: &Vec<char>, needle: &Vec<char>) -> (r: bool)
    ensures
        r == is_infix(needle@, hay@),
{
    if needle.len() > hay.len() {
        return false;
    }
    if needle.len() == 0 {
        assert(hay@.subrange(0int, 0int + needle@.len()) =~= needle@);
        return true;
    }
    let last = hay.len() - needle.len();
    let mut i: usize = 0;
    while i <= last
        invariant
            last == hay@.len() - needle@.len(),
            needle@.len() > 0,
            hay@.len() == hay.len(),
            i <= last + 1,
            forall|k: int| 0 <= k < i ==> #[trigger] hay@.subrange(k, k + needle@.len()) != needle@,
        decreases last + 1 - i,
    {
        if matches_at(hay, needle, i) {
            return true;
        }
        i = i + 1;
    }
    false
}

/// Indices of the `/` separators of a path, in increasing order.
pub open spec fn slash_positions(s: Seq<char>) -> Seq<int>
    decreases s.len(),
{
    if s.len() == 0 {
        Seq::empty()
    } else if s.last() == '/' {
        slash_positions(s.drop_last()).push(s.len() - 1)
    } else {
        slash_positions(s.drop_last())
    }
}

/// Every separator position points at a `/` inside the path, in strictly
/// increasing order, and every `/` of the path is listed.
pub proof fn lemma_slash_positions(s: Seq<char>)
    ensures
        forall|k: int| 0 <= k < slash_positions(s).len() ==> 0 <= #[trigger] slash_positions(s)[k] < s.len()
            && s[slash_positions(s)[k]] == '/',
        forall|k: int, l: int| 0 <= k < l < slash_positions(s).len() ==> slash_positions(s)[k] < slash_positions(s)[l],
        forall|i: int| 0 <= i < s.len() && s[i] == '/' ==> slash_positions(s).contains(i),
        slash_positions(s).len() <= s.len(),
    decreases s.len(),
{
    if s.len() > 0 {
        lemma_slash_positions(s.drop_last());
        let p = slash_positions(s.drop_last());
        assert forall|i: int| 0 <= i < s.len() && s[i] == '/' implies slash_positions(s).contains(i) by {
            if i < s.len() - 1 {
                assert(s.drop_last()[i] == '/');
                let k = choose|k: int| 0 <= k < p.len() && p[k] == i;
                if s.last() == '/' {
                    assert(slash_positions(s)[k] == i);
                }
            } else {
                assert(slash_positions(s)[slash_positions(s).len() - 1] == i);
            }
        }
    }
}

/// Positions of the `/` separators of `s`.
pub fn slashes(s: &Vec<char>) -> (r: Vec<usize>)
    ensures
        r@.len() == slash_positions(s@).len(),
        forall|k: int| 0 <= k < r@.len() ==> r@[k] as int == slash_positions(s@)[k],
{
    let mut r: Vec<usize> = Vec::new();
    let mut i: usize = 0;
    while i < s.len()
        invariant
            i <= s.len(),
            r@.len() == slash_positions(s@.take(i as int)).len(),
            forall|k: int| 0 <= k < r@.len() ==> r@[k] as int == slash_positions(s@.take(i as int))[k],
        decreases s.len() - i,
    {
        assert(s@.take(i + 1).drop_last() =~= s@.take(i as int));
        if s[i] == '/' {
            r.push(i);
        }
        i = i + 1;
    }
    assert(s@.take(s.len() as int) =~= s@);
    r
}

/// Whether two strings hold the same characters.
pub fn same_str(a: &str, b: &str) -> (r: bool)
    ensures
        r == (a@ == b@),
{
    let ac = chars_of(a);
    let bc = chars_of(b);
    chars_eq(ac.as_slice(), bc.as_slice())
}

/// `list` holds a string equal to `x`.
pub open spec fn has_name(list: Seq<String>, x: Seq<char>) -> bool {
    exists|i: int| 0 <= i < list.len() && #[trigger] list[i]@ == x
}

/// Whether `list` holds a string equal to `x`, as a set of strings answers
/// `contains`.
pub fn list_has_name(list: &[String], x: &str) -> (r: bool)
    ensures
        r == has_name(list@, x@),
{
    let mut i: usize = 0;
    while i < list.len()
        invariant
            i <= list.len(),
            forall|j: int| 0 <= j < i ==> list@[j]@ != x@,
        decreases list.len() - i,
    {
        if same_str(list[i].as_str(), x) {
            assert(list@[i as int]@ == x@);
            return true;
        }
        i = i + 1;
    }
    false
}

/// `s` ends with `suffix`.
pub open spec fn ends_with(s: Seq<char>, suffix: Seq<char>) -> bool {
    suffix.len() <= s.len() && s.subrange(s.len() - suffix.len(), s.len() as int) == suffix
}

/// Whether `s` ends with `suffix`, as `str::ends_with` answers it.
pub fn ends_with_str(s: &str, suffix: &str) -> (r: bool)
    ensures
        r == ends_with(s@, suffix@),
{
    let sc = chars_of(s);
    let tc = chars_of(suffix);
    if tc.len() > sc.len() {
        return false;
    }
    let off = sc.len() - tc.len();
    let mut k: usize = 0;
    while k < tc.len()
        invariant
            off + tc@.len() == sc@.len(),
            k <= tc@.len(),
            sc@ == s@,
            tc@ == suffix@,
            forall|j: int| 0 <= j < k ==> sc@[off + j] == tc@[j],
        decreases tc.len() - k,
    {
        assert(off + k < sc@.len());
        assert(sc@.len() == sc.len());
        if sc[off + k] != tc[k] {
            assert(s@.subrange(s@.len() - suffix@.len(), s@.len() as int)[k as int] != suffix@[k as int]);
            return false;
        }
        k = k + 1;
    }
    assert(s@.subrange(s@.len() - suffix@.len(), s@.len() as int) =~= suffix@);
    true
}

/// The Unicode `White_Space` characters, as `char::is_whitespace` tests them.
pub open spec fn is_space(c: char) -> bool {
    let v = c as u32;
    ||| 0x09 <= v <= 0x0d
    ||| v == 0x20
    ||| v == 0x85
    ||| v == 0xa0
    ||| v == 0x1680
    ||| 0x2000 <= v <= 0x200a
    ||| v == 0x2028
    ||| v == 0x2029
    ||| v == 0x202f
    ||| v == 0x205f
    ||| v == 0x3000
}

/// `char::is_whitespace`.
pub fn is_space_char(c: char) -> (r: bool)
    ensures
        r == is_space(c),
{
    let v = c as u32;
    (0x09 <= v && v <= 0x0d) || v == 0x20 || v == 0x85 || v == 0xa0 || v == 0x1680 || (0x2000 <= v
        && v <= 0x200a) || v == 0x2028 || v == 0x2029 || v == 0x202f || v == 0x205f || v == 0x3000
}

/// The index of the first non-whitespace character at or after `i`.
pub open spec fn space_end(s: Seq<char>, i: int) -> int
    decreases s.len() - i,
{
    if 0 <= i < s.len() && is_space(s[i]) {
        space_end(s, i + 1)
    } else {
        i
    }
}

/// The end of `s[..j]` without its trailing whitespace.
pub open spec fn space_start(s: Seq<char>, j: int) -> int
    decreases j,
{
    if 0 < j <= s.len() && is_space(s[j - 1]) {
        space_start(s, j - 1)
    } else {
        j
    }
}

/// `s` without leading and trailing whitespace, as `str::trim` leaves it.
pub open spec fn trimmed(s: Seq<char>) -> Seq<char> {
    let a = space_end(s, 0);
    let b = space_start(s, s.len() as int);
    if a < b {
        s.subrange(a, b)
    } else {
        Seq::empty()
    }
}

/// `s.trim()`.
pub fn trim_str(s: &str) -> (r: String)
    ensures
        r@ == trimmed(s@),
{
    let chars = chars_of(s);
    let mut a: usize = 0;
    while a < chars.len() && is_space_char(chars[a])
        invariant
            a <= chars@.len(),
            chars@ == s@,
            space_end(s@, 0) == space_end(s@, a as int),
        decreases chars.len() - a,
    {
        a = a + 1;
    }
    let mut b: usize = chars.len();
    while b > 0 && is_space_char(chars[b - 1])
        invariant
            b <= chars@.len(),
            chars@ == s@,
            space_start(s@, s@.len() as int) == space_start(s@, b as int),
        decreases b,
    {
        b = b - 1;
    }
    if a < b {
        s.substring_char(a, b).to_owned()
    } else {
        String::new()
    }
}

} // verus!
