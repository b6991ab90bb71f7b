//! Sets of strings and maps from strings to strings, held as vectors
//! without repeated keys.

use vstd::prelude::*;
use crate::text::{has_name, same_str};

verus! {

/// No string occurs twice.
pub open spec fn distinct_names(list: Seq<String>) -> bool {
    forall|i: int, j: int|
        0 <= i < list.len() && 0 <= j < list.len() && i != j ==> #[trigger] list[i]@
            != #[trigger] list[j]@
}

/// Removes every string equal to `x`.
pub fn remove_name(list: &mut Vec<String>, x: &str) -> (removed: bool)
    ensures
        removed == has_name(old(list)@, x@),
        !has_name(final(list)@, x@),
        forall|y: Seq<char>| y != x@ ==> has_name(final(list)@, y) == has_name(old(list)@, y),
        distinct_names(old(list)@) ==> distinct_names(final(list)@),
        final(list)@.len() <= old(list)@.len(),
{
    let ghost start = list@;
    let mut kept: Vec<String> = Vec::new();
    let mut removed = false;
    let mut i: usize = 0;
    while i < list.len()
        invariant
            list@ == start,
            i <= start.len(),
            removed == has_name(start.take(i as int), x@),
            !has_name(kept@, x@),
            forall|y: Seq<char>|
                y != x@ ==> has_name(kept@, y) == has_name(start.take(i as int), y),
            distinct_names(start) ==> distinct_names(kept@),
            kept@.len() <= i,
            forall|k: int| 0 <= k < kept@.len() ==> has_name(start.take(i as int), #[trigger] kept@[k]@),
        decreases list.len() - i,
    {
        let ghost before = kept@;
        let ghost prefix = start.take(i as int);
        let ghost next = start.take(i + 1);
        assert(next =~= prefix.push(start[i as int]));
        proof {
            assert forall|y: Seq<char>| has_name(next, y) == (has_name(prefix, y) || start[i as int]@ == y) by {
                if has_name(next, y) {
                    let k = choose|k: int| 0 <= k < next.len() && #[trigger] next[k]@ == y;
                    if k < prefix.len() {
                        assert(prefix[k] == next[k]);
                    }
                }
                if has_name(prefix, y) {
                    let k = choose|k: int| 0 <= k < prefix.len() && #[trigger] prefix[k]@ == y;
                    assert(next[k] == prefix[k]);
                }
                if start[i as int]@ == y {
                    assert(next[i as int] == start[i as int]);
                }
            }
        }
        if same_str(list[i].as_str(), x) {
            removed = true;
            proof {
                assert(start[i as int]@ == x@);
                assert forall|y: Seq<char>| y != x@ implies has_name(kept@, y) == has_name(next, y) by {
                    assert(has_name(next, y) == (has_name(prefix, y) || start[i as int]@ == y));
                }
                assert forall|k: int| 0 <= k < kept@.len() implies has_name(next, #[trigger] kept@[k]@) by {
                    assert(has_name(prefix, kept@[k]@));
                    assert(has_name(next, kept@[k]@) == (has_name(prefix, kept@[k]@) || start[i as int]@ == kept@[k]@));
                }
            }
        } else {
            kept.push(list[i].clone());
            proof {
                assert forall|y: Seq<char>| has_name(kept@, y) == (has_name(before, y) || start[i as int]@ == y) by {
                    if has_name(kept@, y) {
                        let k = choose|k: int| 0 <= k < kept@.len() && #[trigger] kept@[k]@ == y;
                        if k < before.len() {
                            assert(before[k] == kept@[k]);
                        }
                    }
                    if has_name(before, y) {
                        let k = choose|k: int| 0 <= k < before.len() && #[trigger] before[k]@ == y;
                        assert(kept@[k] == before[k]);
                    }
                    if start[i as int]@ == y {
                        assert(kept@[before.len() as int]@ == y);
                    }
                }
                if distinct_names(start) {
                    assert(!has_name(before, start[i as int]@)) by {
                        if has_name(before, start[i as int]@) {
                            let k = choose|k: int| 0 <= k < before.len() && #[trigger] before[k]@ == start[i as int]@;
                            assert(has_name(prefix, before[k]@));
                            let j = choose|j: int| 0 <= j < prefix.len() && #[trigger] prefix[j]@ == before[k]@;
                            assert(start[j] == prefix[j]);
                        }
                    }
                    assert forall|a: int, b: int|
                        0 <= a < kept@.len() && 0 <= b < kept@.len() && a != b implies #[trigger] kept@[a]@
                        != #[trigger] kept@[b]@ by {
                        if a < before.len() && b < before.len() {
                            assert(kept@[a] == before[a]);
                            assert(kept@[b] == before[b]);
                        } else if a < before.len() {
                            assert(kept@[a] == before[a]);
                        } else if b < before.len() {
                            assert(kept@[b] == before[b]);
                        }
                    }
                }
                assert forall|k: int| 0 <= k < kept@.len() implies has_name(next, #[trigger] kept@[k]@) by {
                    if k < before.len() {
                        assert(kept@[k] == before[k]);
                    }
                }
                assert forall|y: Seq<char>| y != x@ implies has_name(kept@, y) == has_name(next, y) by {
                    assert(has_name(kept@, y) == (has_name(before, y) || start[i as int]@ == y));
                    assert(has_name(next, y) == (has_name(prefix, y) || start[i as int]@ == y));
                    assert(has_name(before, y) == has_name(prefix, y));
                }
            }
        }
        i = i + 1;
    }
    proof {
        assert(start.take(start.len() as int) =~= start);
    }
    *list = kept;
    removed
}

/// Adds `x` unless an equal string is there.
pub fn insert_name(list: &mut Vec<String>, x: &str)
    ensures
        has_name(final(list)@, x@),
        forall|y: Seq<char>| y != x@ ==> has_name(final(list)@, y) == has_name(old(list)@, y),
        distinct_names(old(list)@) ==> distinct_names(final(list)@),
        has_name(old(list)@, x@) ==> final(list)@ == old(list)@,
{
    if crate::text::list_has_name(list.as_slice(), x) {
        return;
    }
    let ghost before = list@;
    list.push(x.to_owned());
    proof {
        assert(list@[before.len() as int]@ == x@);
        assert forall|y: Seq<char>| y != x@ implies has_name(list@, y) == has_name(before, y) by {
            if has_name(list@, y) {
                let k = choose|k: int| 0 <= k < list@.len() && #[trigger] list@[k]@ == y;
                assert(k < before.len());
                assert(before[k] == list@[k]);
            }
            if has_name(before, y) {
                let k = choose|k: int| 0 <= k < before.len() && #[trigger] before[k]@ == y;
                assert(list@[k] == before[k]);
            }
        }
        if distinct_names(before) {
            assert forall|a: int, b: int|
                0 <= a < list@.len() && 0 <= b < list@.len() && a != b implies #[trigger] list@[a]@
                != #[trigger] list@[b]@ by {
                if a < before.len() {
                    assert(list@[a] == before[a]);
                }
                if b < before.len() {
                    assert(list@[b] == before[b]);
                }
            }
        }
    }
}

/// The value of the first entry for `key`.
pub open spec fn lookup(entries: Seq<(String, String)>, key: Seq<char>) -> Option<Seq<char>>
    decreases entries.len(),
{
    if entries.len() == 0 {
        None
    } else if entries[0].0@ == key {
        Some(entries[0].1@)
    } else {
        lookup(entries.skip(1), key)
    }
}

/// The value stored for `key`.
pub fn lookup_value<'a>(entries: &'a Vec<(String, String)>, key: &str) -> (r: Option<&'a String>)
    ensures
        r matches Some(v) ==> lookup(entries@, key@) == Some(v@),
        r is None ==> lookup(entries@, key@) is None,
{
    let mut i: usize = 0;
    assert(entries@.skip(0) =~= entries@);
    while i < entries.len()
        invariant
            i <= entries@.len(),
            lookup(entries@, key@) == lookup(entries@.skip(i as int), key@),
        decreases entries.len() - i,
    {
        assert(entries@.skip(i as int)[0] == entries@[i as int]);
        assert(entries@.skip(i as int).skip(1) =~= entries@.skip(i + 1));
        if same_str(entries[i].0.as_str(), key) {
            return Some(&entries[i].1);
        }
        i = i + 1;
    }
    None
}

proof fn lemma_lookup_split(entries: Seq<(String, String)>, i: int, key: Seq<char>)
    requires
        0 <= i < entries.len(),
    ensures
        lookup(entries, key) == (if lookup(entries.take(i), key) is Some {
            lookup(entries.take(i), key)
        } else if entries[i].0@ == key {
            Some(entries[i].1@)
        } else {
            lookup(entries.skip(i + 1), key)
        }),
    decreases i,
{
    if i > 0 {
        assert(entries.skip(1).take(i - 1) =~= entries.take(i).skip(1));
        assert(entries.skip(1).skip(i) =~= entries.skip(i + 1));
        lemma_lookup_split(entries.skip(1), i - 1, key);
    } else {
        assert(entries.take(0).len() == 0);
    }
}

/// Removes the entries for `key`; answers whether there was one.
pub fn remove_entry(entries: &mut Vec<(String, String)>, key: &str) -> (removed: bool)
    ensures
        removed == (lookup(old(entries)@, key@) is Some),
        lookup(final(entries)@, key@) is None,
        forall|y: Seq<char>| y != key@ ==> lookup(final(entries)@, y) == lookup(old(entries)@, y),
{
    let ghost start = entries@;
    let mut kept: Vec<(String, String)> = Vec::new();
    let mut removed = false;
    let mut i: usize = 0;
    while i < entries.len()
        invariant
            entries@ == start,
            i <= start.len(),
            removed == (lookup(start.take(i as int), key@) is Some),
            lookup(kept@, key@) is None,
            forall|y: Seq<char>| y != key@ ==> lookup(kept@, y) == lookup(start.take(i as int), y),
        decreases entries.len() - i,
    {
        let ghost before = kept@;
        proof {
            lemma_lookup_append(start.take(i as int), start[i as int], key@);
            assert(start.take(i + 1) =~= start.take(i as int).push(start[i as int]));
        }
        if same_str(entries[i].0.as_str(), key) {
            removed = true;
            proof {
                assert forall|y: Seq<char>| y != key@ implies lookup(kept@, y) == lookup(start.take(i + 1), y) by {
                    lemma_lookup_append(start.take(i as int), start[i as int], y);
                }
            }
        } else {
            kept.push((entries[i].0.clone(), entries[i].1.clone()));
            proof {
                lemma_lookup_append(before, start[i as int], key@);
                assert forall|y: Seq<char>| y != key@ implies lookup(kept@, y) == lookup(start.take(i + 1), y) by {
                    lemma_lookup_append(before, start[i as int], y);
                    lemma_lookup_append(start.take(i as int), start[i as int], y);
                }
            }
        }
        i = i + 1;
    }
    proof {
        assert(start.take(start.len() as int) =~= start);
    }
    *entries = kept;
    removed
}

proof fn lemma_lookup_append(entries: Seq<(String, String)>, e: (String, String), key: Seq<char>)
    ensures
        lookup(entries.push(e), key) == (if lookup(entries, key) is Some {
            lookup(entries, key)
        } else if e.0@ == key {
            Some(e.1@)
        } else {
            None
        }),
    decreases entries.len(),
{
    if entries.len() > 0 {
        assert(entries.push(e).skip(1) =~= entries.skip(1).push(e));
        assert(entries.push(e)[0] == entries[0]);
        lemma_lookup_append(entries.skip(1), e, key);
    } else {
        assert(entries.push(e).skip(1) =~= Seq::<(String, String)>::empty());
        assert(entries.push(e)[0] == e);
        assert(lookup(Seq::<(String, String)>::empty(), key) is None);
    }
}

/// Stores `value` for `key`, replacing an earlier value.
pub fn insert_entry(entries: &mut Vec<(String, String)>, key: &str, value: &str)
    ensures
        lookup(final(entries)@, key@) == Some(value@),
        forall|y: Seq<char>| y != key@ ==> lookup(final(entries)@, y) == lookup(old(entries)@, y),
{
    remove_entry(entries, key);
    let ghost before = entries@;
    entries.push((key.to_owned(), value.to_owned()));
    proof {
        assert forall|y: Seq<char>| y != key@ implies lookup(entries@, y) == lookup(before, y) by {
            lemma_lookup_append(before, entries@[before.len() as int], y);
        }
        lemma_lookup_append(before, entries@[before.len() as int], key@);
    }
}

} // verus!
