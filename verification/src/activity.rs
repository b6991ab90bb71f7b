//! The activity feed of a pull request: the review threads' comments as
//! feed entries; the timeline events with those entries put back in time
//! order, or, when no timeline came, the
//! `opened` event, then the comments, then the review threads; and the cards
//! the feed shows, which skip comment entries whose comment is gone.

use vstd::prelude::*;
use crate::ordered_names::{seq_lt, str_lt};
use crate::text::{has_name, list_has_name};

verus! {

/// What a feed entry records.
#[derive(Clone, Copy, Debug, PartialEq, Eq, Structural)]
pub enum TimelineKind {
    /// The pull request was opened.
    Opened,
    /// A comment, found again by its id.
    Comment,
    /// Any other event (commits, reviews, label or state changes).
    Event,
}

/// One entry of the feed, as plain values.
#[derive(Clone, Debug)]
pub struct TimelineItem {
    pub kind: TimelineKind,
    /// When it happened, as a timestamp whose text order is its time order;
    /// the feed is sorted by it.
    pub at: String,
    pub actor: String,
    pub age: String,
    pub comment_id: Option<String>,
}

/// The first position at or after `from` whose entry comes strictly after
/// `key`, or the end.
pub open spec fn first_after(s: Seq<TimelineItem>, key: Seq<char>, from: int) -> int
    decreases s.len() - from,
{
    if from < 0 || from >= s.len() {
        s.len() as int
    } else if seq_lt(key, s[from].at@) {
        from
    } else {
        first_after(s, key, from + 1)
    }
}

/// `x` placed into the time-ordered `sorted` after every entry that is not
/// later than it.
pub open spec fn placed(sorted: Seq<TimelineItem>, x: TimelineItem) -> Seq<TimelineItem> {
    sorted.insert(first_after(sorted, x.at@, 0), x)
}

/// `s` in time order, entries at the same time keeping their order: the
/// stable sort by `at` (each entry, in turn, goes after every earlier one
/// that is not later than it).
pub open spec fn by_time(s: Seq<TimelineItem>) -> Seq<TimelineItem>
    decreases s.len(),
{
    if s.len() == 0 {
        Seq::empty()
    } else {
        placed(by_time(s.drop_last()), s.last())
    }
}

/// The feed: without timeline events, the `opened` event, the comments and
/// the review threads' entries, in that order; else the timeline events and
/// the thread entries in time order.
pub open spec fn feed(
    timeline: Seq<TimelineItem>,
    opened: TimelineItem,
    comments: Seq<TimelineItem>,
    threads: Seq<TimelineItem>,
) -> Seq<TimelineItem> {
    if timeline.len() == 0 {
        seq![opened] + comments + threads
    } else {
        by_time(timeline + threads)
    }
}

/// Puts `x` into the time-ordered `sorted` (see `placed`).
fn place(sorted: &mut Vec<TimelineItem>, x: TimelineItem)
    ensures
        final(sorted)@ == placed(old(sorted)@, x),
{
    let mut i: usize = 0;
    while i < sorted.len() && !str_lt(x.at.as_str(), sorted[i].at.as_str())
        invariant
            i <= sorted@.len(),
            sorted@ == old(sorted)@,
            first_after(sorted@, x.at@, 0) == first_after(sorted@, x.at@, i as int),
        decreases sorted.len() - i,
    {
        i = i + 1;
    }
    sorted.insert(i, x);
}

/// Sorts `items` by time, keeping the order of entries at the same time
/// (see `by_time`).
fn sort_by_time(items: Vec<TimelineItem>) -> (r: Vec<TimelineItem>)
    ensures
        r@ == by_time(items@),
{
    let ghost all = items@;
    let mut rest = items;
    let mut r: Vec<TimelineItem> = Vec::new();
    let mut k: usize = 0;
    let n: usize = rest.len();
    assert(all.len() == n);
    while rest.len() > 0
        invariant
            k <= all.len(),
            k + rest@.len() == all.len(),
            all.len() <= usize::MAX,
            rest@ == all.skip(k as int),
            r@ == by_time(all.take(k as int)),
        decreases rest.len(),
    {
        let x = rest.remove(0);
        proof {
            assert(all.take(k + 1).drop_last() =~= all.take(k as int));
            assert(x == all[k as int]);
            assert(rest@ =~= all.skip(k + 1));
        }
        place(&mut r, x);
        k = k + 1;
    }
    proof {
        assert(all.take(k as int) =~= all);
    }
    r
}

/// The feed of a pull request (see `feed`).
pub fn activity_feed(
    timeline: Vec<TimelineItem>,
    opened: TimelineItem,
    comments: Vec<TimelineItem>,
    threads: Vec<TimelineItem>,
) -> (r: Vec<TimelineItem>)
    ensures
        r@ == feed(timeline@, opened, comments@, threads@),
{
    let mut threads = threads;
    if timeline.len() == 0 {
        let mut r: Vec<TimelineItem> = Vec::new();
        r.push(opened);
        let mut comments = comments;
        r.append(&mut comments);
        r.append(&mut threads);
        r
    } else {
        let mut all = timeline;
        all.append(&mut threads);
        sort_by_time(all)
    }
}

/// A comment of a review thread, as plain values.
#[derive(Clone, Debug)]
pub struct ThreadComment {
    pub id: String,
    pub author: String,
    pub at: String,
    pub age: String,
}

/// The feed entry of a review thread's comment.
pub open spec fn thread_entry(c: ThreadComment) -> TimelineItem {
    TimelineItem { kind: TimelineKind::Comment, at: c.at, actor: c.author, age: c.age, comment_id: Some(c.id) }
}

/// The comments of the first `n` threads, thread after thread.
pub open spec fn thread_comments(threads: Seq<Vec<ThreadComment>>, n: int) -> Seq<ThreadComment>
    decreases n,
{
    if n <= 0 {
        Seq::empty()
    } else {
        thread_comments(threads, n - 1) + threads[n - 1]@
    }
}

/// The feed entries of the review threads' comments: one comment entry per
/// comment, thread after thread, each in its thread's order.
pub fn review_thread_entries(threads: &Vec<Vec<ThreadComment>>) -> (r: Vec<TimelineItem>)
    ensures
        r@ == thread_comments(threads@, threads@.len() as int).map_values(|c: ThreadComment| thread_entry(c)),
{
    let mut r: Vec<TimelineItem> = Vec::new();
    let mut t: usize = 0;
    while t < threads.len()
        invariant
            t <= threads@.len(),
            r@ == thread_comments(threads@, t as int).map_values(|c: ThreadComment| thread_entry(c)),
        decreases threads.len() - t,
    {
        let thread = &threads[t];
        let ghost before = r@;
        let mut k: usize = 0;
        while k < thread.len()
            invariant
                t < threads@.len(),
                thread@ == threads@[t as int]@,
                k <= thread@.len(),
                r@ == before + thread@.take(k as int).map_values(|c: ThreadComment| thread_entry(c)),
            decreases thread.len() - k,
        {
            let c = &thread[k];
            r.push(TimelineItem {
                kind: TimelineKind::Comment,
                at: c.at.clone(),
                actor: c.author.clone(),
                age: c.age.clone(),
                comment_id: Some(c.id.clone()),
            });
            proof {
                assert(thread@.take(k + 1) =~= thread@.take(k as int).push(thread@[k as int]));
                assert(r@ =~= before + thread@.take(k + 1).map_values(|c: ThreadComment| thread_entry(c)));
            }
            k = k + 1;
        }
        proof {
            assert(thread@.take(k as int) =~= thread@);
            assert(thread_comments(threads@, t + 1) == thread_comments(threads@, t as int) + threads@[t as int]@);
            assert(r@ =~= thread_comments(threads@, t + 1).map_values(|c: ThreadComment| thread_entry(c)));
        }
        t = t + 1;
    }
    r
}

/// The entry gets a card: any event but a comment, and a comment whose id
/// names one of the `known` comments.
pub open spec fn has_card(x: TimelineItem, known: Seq<String>) -> bool {
    x.kind != TimelineKind::Comment || (x.comment_id matches Some(id) && has_name(known, id@))
}

/// The entries of the first `n` of `s` that get a card, in order.
pub open spec fn carded(s: Seq<TimelineItem>, known: Seq<String>, n: int) -> Seq<TimelineItem>
    decreases n,
{
    if n <= 0 {
        Seq::empty()
    } else if has_card(s[n - 1], known) {
        carded(s, known, n - 1).push(s[n - 1])
    } else {
        carded(s, known, n - 1)
    }
}

/// The entries of the feed that get a card (see `has_card`): a comment
/// entry whose comment is not among `known` is skipped.
pub fn feed_cards(entries: Vec<TimelineItem>, known: &Vec<String>) -> (r: Vec<TimelineItem>)
    ensures
        r@ == carded(entries@, known@, entries@.len() as int),
{
    let ghost all = entries@;
    let mut rest = entries;
    let mut r: Vec<TimelineItem> = Vec::new();
    let mut k: usize = 0;
    let n: usize = rest.len();
    assert(all.len() == n);
    while rest.len() > 0
        invariant
            k <= all.len(),
            k + rest@.len() == all.len(),
            all.len() <= usize::MAX,
            rest@ == all.skip(k as int),
            r@ == carded(all, known@, k as int),
        decreases rest.len(),
    {
        let x = rest.remove(0);
        proof {
            assert(x == all[k as int]);
            assert(rest@ =~= all.skip(k + 1));
        }
        let keep = match x.kind {
            TimelineKind::Comment => match &x.comment_id {
                Some(id) => list_has_name(known.as_slice(), id.as_str()),
                None => false,
            },
            _ => true,
        };
        if keep {
            r.push(x);
        }
        k = k + 1;
    }
    r
}

} // verus!
