//! Bounded first-in, first-out caches for syntax runs: at most
//! `SYNTAX_LINES` entries and `SYNTAX_BYTES` bytes, oldest entries evicted
//! first, and an entry larger than the whole budget never stored.

use vstd::prelude::*;
use std::rc::Rc;
use crate::text::{byte_len_of, same_str, utf8_len};

verus! {

/// Byte budget of a syntax cache.
pub const SYNTAX_BYTES: usize = 4194304;

/// Entry budget of a syntax cache.
pub const SYNTAX_LINES: usize = 1024;

/// A key that a cache compares by an identity of plain values.
pub trait CacheKey: Sized {
    type Id;

    spec fn id(&self) -> Self::Id;

    fn same_key(&self, other: &Self) -> (r: bool)
        ensures
            r == (self.id() == other.id()),
    ;
}

/// The bytes charged for a run of entries.
pub open spec fn total<K, V>(entries: Seq<(K, V, usize)>) -> int
    decreases entries.len(),
{
    if entries.len() == 0 {
        0
    } else {
        entries[0].2 + total(entries.skip(1))
    }
}

/// What is left of `entries` after evicting, oldest first, until an entry of
/// `incoming` bytes fits both budgets.
pub open spec fn evicted<K, V>(entries: Seq<(K, V, usize)>, incoming: int) -> Seq<(K, V, usize)>
    decreases entries.len(),
{
    if entries.len() > 0 && (total(entries) + incoming > SYNTAX_BYTES || entries.len()
        >= SYNTAX_LINES) {
        evicted(entries.skip(1), incoming)
    } else {
        entries
    }
}

/// No two entries share a key.
pub open spec fn keys_unique<K: CacheKey, V>(entries: Seq<(K, V, usize)>) -> bool {
    forall|i: int, j: int|
        0 <= i < entries.len() && 0 <= j < entries.len() && i != j ==> #[trigger] entries[i].0.id()
            != #[trigger] entries[j].0.id()
}

/// The index of the first entry for `key` at or after `from`.
pub open spec fn key_index<K: CacheKey, V>(entries: Seq<(K, V, usize)>, key: K, from: int) -> Option<int>
    decreases entries.len() - from,
{
    if from < 0 || from >= entries.len() {
        None
    } else if entries[from].0.id() == key.id() {
        Some(from)
    } else {
        key_index(entries, key, from + 1)
    }
}

/// An entry holds `key`.
pub open spec fn holds_key<K: CacheKey, V>(entries: Seq<(K, V, usize)>, key: K) -> bool {
    exists|i: int| 0 <= i < entries.len() && #[trigger] entries[i].0.id() == key.id()
}

proof fn lemma_total_push<K, V>(entries: Seq<(K, V, usize)>, e: (K, V, usize))
    ensures
        total(entries.push(e)) == total(entries) + e.2,
    decreases entries.len(),
{
    if entries.len() > 0 {
        assert(entries.push(e).skip(1) =~= entries.skip(1).push(e));
        assert(entries.push(e)[0] == entries[0]);
        lemma_total_push(entries.skip(1), e);
    } else {
        assert(entries.push(e).skip(1) =~= Seq::<(K, V, usize)>::empty());
        assert(entries.push(e)[0] == e);
        assert(total(Seq::<(K, V, usize)>::empty()) == 0);
    }
}

proof fn lemma_total_nonneg<K, V>(entries: Seq<(K, V, usize)>)
    ensures
        total(entries) >= 0,
        entries.len() > 0 ==> total(entries) >= entries[0].2,
    decreases entries.len(),
{
    if entries.len() > 0 {
        lemma_total_nonneg(entries.skip(1));
    }
}

proof fn lemma_total_remove<K, V>(entries: Seq<(K, V, usize)>, i: int)
    requires
        0 <= i < entries.len(),
    ensures
        total(entries.remove(i)) == total(entries) - entries[i].2,
    decreases entries.len(),
{
    if i > 0 {
        assert(entries.remove(i).skip(1) =~= entries.skip(1).remove(i - 1));
        assert(entries.remove(i)[0] == entries[0]);
        lemma_total_remove(entries.skip(1), i - 1);
    } else {
        assert(entries.remove(0) =~= entries.skip(1));
    }
}

proof fn lemma_evicted_suffix<K, V>(entries: Seq<(K, V, usize)>, incoming: int)
    requires
        0 <= incoming <= SYNTAX_BYTES,
    ensures
        ({
            let rest = evicted(entries, incoming);
            &&& rest.len() <= entries.len()
            &&& rest =~= entries.skip(entries.len() - rest.len())
            &&& total(rest) + incoming <= SYNTAX_BYTES
            &&& rest.len() < SYNTAX_LINES
        }),
    decreases entries.len(),
{
    lemma_total_nonneg(entries);
    if entries.len() > 0 && (total(entries) + incoming > SYNTAX_BYTES || entries.len()
        >= SYNTAX_LINES) {
        lemma_evicted_suffix(entries.skip(1), incoming);
        let rest = evicted(entries.skip(1), incoming);
        assert(entries.skip(1).skip(entries.len() - 1 - rest.len()) =~= entries.skip(
            entries.len() - rest.len(),
        ));
    } else {
        assert(entries.skip(0) =~= entries);
    }
}

/// A first-in, first-out cache: entries in insertion order, each with the
/// bytes it is charged.
pub struct FifoCache<K, V> {
    entries: std::collections::VecDeque<(K, V, usize)>,
    bytes: usize,
}

impl<K: CacheKey, V> FifoCache<K, V> {
    /// The entries, oldest first.
    pub closed spec fn entries(&self) -> Seq<(K, V, usize)> {
        self.entries@
    }

    /// The bytes charged for all entries.
    pub closed spec fn charged(&self) -> int {
        self.bytes as int
    }

    /// The cache keeps its budgets, its byte count and unique keys.
    pub open spec fn wf(&self) -> bool {
        &&& self.charged() == total(self.entries())
        &&& total(self.entries()) <= SYNTAX_BYTES
        &&& self.entries().len() <= SYNTAX_LINES
        &&& keys_unique(self.entries())
    }

    /// An empty cache.
    pub fn new() -> (r: Self)
        ensures
            r.wf(),
            r.entries() == Seq::<(K, V, usize)>::empty(),
    {
        FifoCache { entries: std::collections::VecDeque::new(), bytes: 0 }
    }

    /// Drops every entry.
    pub fn clear(&mut self)
        ensures
            final(self).wf(),
            final(self).entries() == Seq::<(K, V, usize)>::empty(),
    {
        self.entries.clear();
        self.bytes = 0;
    }

    /// The number of entries.
    pub fn len(&self) -> (r: usize)
        ensures
            r == self.entries().len(),
    {
        self.entries.len()
    }

    /// The bytes charged for all entries.
    pub fn bytes(&self) -> (r: usize)
        ensures
            r == self.charged(),
    {
        self.bytes
    }

    /// The index of the entry for `key`.
    pub fn position(&self, key: &K) -> (r: Option<usize>)
        ensures
            r matches Some(i) ==> i < self.entries().len() && self.entries()[i as int].0.id()
                == key.id(),
            r matches Some(i) ==> key_index(self.entries(), *key, 0) == Some(i as int),
            r is None ==> !holds_key(self.entries(), *key),
            r is None ==> key_index(self.entries(), *key, 0) is None,
    {
        let mut i: usize = 0;
        while i < self.entries.len()
            invariant
                i <= self.entries@.len(),
                forall|j: int| 0 <= j < i ==> self.entries@[j].0.id() != key.id(),
                key_index(self.entries@, *key, 0) == key_index(self.entries@, *key, i as int),
            decreases self.entries.len() - i,
        {
            if self.entries[i].0.same_key(key) {
                return Some(i);
            }
            i = i + 1;
        }
        None
    }

    /// The value of entry `i`.
    pub fn value(&self, i: usize) -> (r: &V)
        requires
            i < self.entries().len(),
        ensures
            *r == self.entries()[i as int].1,
    {
        &self.entries[i].1
    }

    /// Removes entry `i`, releasing its bytes.
    pub fn remove_at(&mut self, i: usize)
        requires
            old(self).wf(),
            i < old(self).entries().len(),
        ensures
            final(self).wf(),
            final(self).entries() == old(self).entries().remove(i as int),
    {
        proof {
            lemma_total_remove(self.entries@, i as int);
            lemma_total_nonneg(self.entries@.remove(i as int));
        }
        let removed = self.entries.remove(i);
        match removed {
            Some(e) => {
                self.bytes = self.bytes - e.2;
            },
            None => {},
        }
        assert forall|a: int, b: int|
            0 <= a < self.entries@.len() && 0 <= b < self.entries@.len() && a != b implies #[trigger] self.entries@[a].0.id()
            != #[trigger] self.entries@[b].0.id() by {
            let ia = if a < i { a } else { a + 1 };
            let ib = if b < i { b } else { b + 1 };
            assert(self.entries@[a] == old(self).entries@[ia]);
            assert(self.entries@[b] == old(self).entries@[ib]);
        }
    }

    /// Stores `key` with `value`, charged `bytes`, after evicting the oldest
    /// entries until it fits both budgets.
    pub fn insert(&mut self, key: K, value: V, bytes: usize)
        requires
            old(self).wf(),
            bytes <= SYNTAX_BYTES,
            !holds_key(old(self).entries(), key),
        ensures
            final(self).wf(),
            final(self).entries() == evicted(old(self).entries(), bytes as int).push(
                (key, value, bytes),
            ),
    {
        let ghost start = self.entries@;
        proof {
            lemma_evicted_suffix(start, bytes as int);
        }
        while self.bytes + bytes > SYNTAX_BYTES || self.entries.len() >= SYNTAX_LINES
            invariant
                self.bytes == total(self.entries@),
                total(self.entries@) <= SYNTAX_BYTES,
                bytes <= SYNTAX_BYTES,
                self.entries@.len() <= start.len(),
                self.entries@ =~= start.skip(start.len() - self.entries@.len()),
                evicted(start, bytes as int) == evicted(self.entries@, bytes as int),
            decreases self.entries@.len(),
        {
            let ghost prev = self.entries@;
            proof {
                lemma_total_nonneg(prev);
                assert(prev.len() > 0);
                assert(start.skip(start.len() - prev.len()).skip(1) =~= start.skip(
                    start.len() - (prev.len() - 1),
                ));
            }
            let front = self.entries.pop_front();
            match front {
                Some(e) => {
                    assert(self.entries@ =~= prev.skip(1));
                    self.bytes = self.bytes - e.2;
                },
                None => {},
            }
        }
        proof {
            lemma_total_push(self.entries@, (key, value, bytes));
        }
        self.bytes = self.bytes + bytes;
        self.entries.push_back((key, value, bytes));
        assert forall|a: int, b: int|
            0 <= a < self.entries@.len() && 0 <= b < self.entries@.len() && a != b implies #[trigger] self.entries@[a].0.id()
            != #[trigger] self.entries@[b].0.id() by {
            let n = self.entries@.len() - 1;
            let off = start.len() - n;
            if a < n {
                assert(self.entries@[a] == start[a + off]);
            }
            if b < n {
                assert(self.entries@[b] == start[b + off]);
            }
        }
    }
}

/// Calls `Rc::clone`: the result is the same shared value.
#[verifier::external_body]
pub(crate) fn share<T>(value: &Rc<T>) -> (r: Rc<T>)
    ensures
        r == *value,
{
    Rc::clone(value)
}

/// The cost in bytes of an entry: `a * 2 + b * 2 + items * item_size`, or
/// `None` when it does not fit in a `usize`.
pub fn entry_charge(a: usize, b: usize, items: usize, item_size: usize) -> (r: Option<usize>)
    ensures
        r matches Some(n) ==> n == a * 2 + b * 2 + items * item_size,
        r is None ==> a * 2 + b * 2 + items * item_size > usize::MAX,
{
    let x = match a.checked_mul(2) {
        Some(v) => v,
        None => return None,
    };
    let y = match b.checked_mul(2) {
        Some(v) => v,
        None => return None,
    };
    let z = match items.checked_mul(item_size) {
        Some(v) => v,
        None => {
            assert(items * item_size >= 0) by (nonlinear_arith);
            return None;
        },
    };
    assert(items * item_size >= 0) by (nonlinear_arith);
    match x.checked_add(y) {
        Some(xy) => xy.checked_add(z),
        None => None,
    }
}

/// The key of a cached syntax run: the line's text, its language and the
/// emphasised byte range (and whether it marks an addition).
pub type SyntaxKey = (String, Option<&'static str>, Option<(usize, usize, bool)>);

impl CacheKey for (String, Option<&'static str>, Option<(usize, usize, bool)>) {
    type Id = (Seq<char>, Option<Seq<char>>, Option<(usize, usize, bool)>);

    open spec fn id(&self) -> Self::Id {
        (
            self.0@,
            match self.1 {
                Some(l) => Some(l@),
                None => None,
            },
            self.2,
        )
    }

    fn same_key(&self, other: &Self) -> (r: bool) {
        if !same_str(self.0.as_str(), other.0.as_str()) {
            return false;
        }
        let languages = match (self.1, other.1) {
            (None, None) => true,
            (Some(a), Some(b)) => same_str(a, b),
            _ => false,
        };
        if !languages {
            return false;
        }
        match (self.2, other.2) {
            (None, None) => true,
            (Some(a), Some(b)) => a.0 == b.0 && a.1 == b.1 && a.2 == b.2,
            _ => false,
        }
    }
}

/// The bytes a syntax run of `items` entries is charged under `key`: twice
/// the text, twice the key and the runs.
pub open spec fn syntax_charge<R>(key: SyntaxKey, items: int) -> int {
    utf8_len(key.0@) * 2 + vstd::layout::size_of::<SyntaxKey>() * 2 + items
        * vstd::layout::size_of::<R>()
}

/// Bounded syntax runs of the diff viewport, by text, language and emphasis.
pub struct SyntaxCache<R> {
    cache: FifoCache<SyntaxKey, Rc<Vec<R>>>,
}

impl<R> SyntaxCache<R> {
    /// The entries, oldest first.
    pub closed spec fn entries(&self) -> Seq<(SyntaxKey, Rc<Vec<R>>, usize)> {
        self.cache.entries()
    }

    /// The cache keeps its budgets and unique keys.
    pub closed spec fn wf(&self) -> bool {
        self.cache.wf()
    }

    /// An empty cache.
    pub fn new() -> (r: Self)
        ensures
            r.wf(),
            r.entries() == Seq::<(SyntaxKey, Rc<Vec<R>>, usize)>::empty(),
    {
        SyntaxCache { cache: FifoCache::new() }
    }

    /// The number of cached runs.
    pub fn len(&self) -> (r: usize)
        ensures
            r == self.entries().len(),
    {
        self.cache.len()
    }

    /// Whatever calls a well-formed cache went through, it keeps both
    /// budgets: at most `SYNTAX_LINES` entries and `SYNTAX_BYTES` charged
    /// bytes.
    pub proof fn lemma_budget(&self)
        requires
            self.wf(),
        ensures
            self.entries().len() <= SYNTAX_LINES,
            total(self.entries()) <= SYNTAX_BYTES,
    {
    }

    /// The bytes charged for the cached runs.
    pub fn bytes(&self) -> (r: usize)
        requires
            self.wf(),
        ensures
            r == total(self.entries()),
            r <= SYNTAX_BYTES,
    {
        self.cache.bytes()
    }

    /// The runs for `key`: the cached ones, leaving the cache as it was and
    /// `build` uncalled (it need not be callable then), or those `build`
    /// makes. New runs are kept, after evicting the oldest entries until they
    /// fit, unless they alone exceed the byte budget.
    pub fn get_or_insert<F: FnOnce() -> Vec<R>>(&mut self, key: SyntaxKey, build: F) -> (r: Rc<
        Vec<R>,
    >)
        requires
            old(self).wf(),
            !holds_key(old(self).entries(), key) ==> build.requires(()),
        ensures
            final(self).wf(),
            holds_key(old(self).entries(), key) ==> final(self).entries() == old(self).entries()
                && exists|i: int|
                0 <= i < old(self).entries().len() && #[trigger] old(self).entries()[i].0.id()
                    == key.id() && r == old(self).entries()[i].1,
            !holds_key(old(self).entries(), key) ==> build.ensures((), *r),
            !holds_key(old(self).entries(), key) && syntax_charge::<R>(key, r@.len() as int)
                > SYNTAX_BYTES ==> final(self).entries() == old(self).entries(),
            !holds_key(old(self).entries(), key) && syntax_charge::<R>(key, r@.len() as int)
                <= SYNTAX_BYTES ==> final(self).entries() == evicted(
                old(self).entries(),
                syntax_charge::<R>(key, r@.len() as int),
            ).push((key, r, syntax_charge::<R>(key, r@.len() as int) as usize)),
    {
        match self.cache.position(&key) {
            Some(i) => {
                return share(self.cache.value(i));
            },
            None => {},
        }
        let runs = Rc::new(build());
        let text_bytes = byte_len_of(key.0.as_str());
        let bytes = match entry_charge(
            text_bytes,
            core::mem::size_of::<SyntaxKey>(),
            runs.len(),
            core::mem::size_of::<R>(),
        ) {
            Some(n) => n,
            None => return runs,
        };
        if bytes > SYNTAX_BYTES {
            return runs;
        }
        self.cache.insert(key, share(&runs), bytes);
        runs
    }
}

} // verus!
