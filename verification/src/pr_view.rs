//! Small decisions of the pull-request view: where a pending jump to a file
//! scrolls, and how the review scope is labelled.

use vstd::prelude::*;
use vstd::string::{StrSliceExecFns, StringExecFns};
use crate::diff::FileDiff;
use crate::diff_rows::{header_index, DiffViewport};
use crate::review_menus::byte_prefix;
use crate::text::{char_width, chars_of, same_str, utf8_len};

verus! {

/// The index of the first file with path `path` among the first `n`.
pub open spec fn file_named(files: Seq<FileDiff>, path: Seq<char>, n: int) -> Option<int>
    decreases n,
{
    if n <= 0 {
        None
    } else {
        match file_named(files, path, n - 1) {
            Some(k) => Some(k),
            None => if files[n - 1].path@ == path {
                Some(n - 1)
            } else {
                None
            },
        }
    }
}

/// What a pending jump to a file does: nothing (it stays pending) while
/// the code is not shown or the diff loads; otherwise it scrolls to the
/// file's header row when the rows have one, and stays pending only while
/// the diff is empty.
pub open spec fn file_scroll(
    files: Seq<FileDiff>,
    rows: Seq<crate::diff_rows::Row>,
    pending: Option<Seq<char>>,
    code_shown: bool,
    loading: bool,
) -> (Option<int>, bool) {
    match pending {
        None => (None, false),
        Some(path) => if !code_shown || loading {
            (None, true)
        } else {
            let row = match file_named(files, path, files.len() as int) {
                Some(f) => header_index(rows, f as usize, 0),
                None => None,
            };
            match row {
                Some(k) => (Some(k), false),
                None => (None, files.len() == 0),
            }
        },
    }
}

/// The index of the first file with path `path` (see `file_named`).
fn find_file(files: &Vec<FileDiff>, path: &str) -> (r: Option<usize>)
    ensures
        match file_named(files@, path@, files@.len() as int) {
            Some(j) => (r matches Some(x) && x == j),
            None => r is None,
        },
{
    let mut k: usize = 0;
    while k < files.len()
        invariant
            k <= files@.len(),
            file_named(files@, path@, k as int) is None,
        decreases files.len() - k,
    {
        if same_str(files[k].path.as_str(), path) {
            proof {
                lemma_file_named_stable(files@, path@, k + 1, files@.len() as int);
            }
            return Some(k);
        }
        k = k + 1;
    }
    None
}

/// Once found, the first file with a path stays the first.
proof fn lemma_file_named_stable(files: Seq<FileDiff>, path: Seq<char>, m: int, n: int)
    requires
        0 <= m <= n,
        file_named(files, path, m) is Some,
    ensures
        file_named(files, path, n) == file_named(files, path, m),
    decreases n,
{
    if n > m {
        lemma_file_named_stable(files, path, m, n - 1);
    }
}

/// Applies a pending jump to a file (see `file_scroll`): answers the row
/// to scroll to, and whether the jump stays pending. `code_shown` tells
/// whether the code (or a review tab) is on screen, `loading` whether the
/// diff loads.
pub fn pending_file_scroll(
    files: &Vec<FileDiff>,
    viewport: &DiffViewport,
    pending: &Option<String>,
    code_shown: bool,
    loading: bool,
) -> (r: (Option<usize>, bool))
    ensures
        ({
            let want = file_scroll(
                files@,
                viewport.rows@,
                match pending {
                    Some(p) => Some(p@),
                    None => None,
                },
                code_shown,
                loading,
            );
            &&& r.1 == want.1
            &&& (match want.0 {
                Some(k) => r.0 matches Some(x) && x == k,
                None => r.0 is None,
            })
        }),
{
    let path = match pending {
        None => return (None, false),
        Some(p) => p,
    };
    if !code_shown || loading {
        return (None, true);
    }
    let row = match find_file(files, path.as_str()) {
        Some(f) => viewport.file_row(f),
        None => None,
    };
    match row {
        Some(k) => (Some(k), false),
        None => (None, files.len() == 0),
    }
}

/// The label of a commit scope: the hash's first seven bytes when they end
/// between two characters, else the whole hash.
pub open spec fn short_commit(sha: Seq<char>) -> Seq<char> {
    if utf8_len(sha) >= 7 && utf8_len(byte_prefix(sha, 7)) == 7 {
        byte_prefix(sha, 7)
    } else {
        sha
    }
}

/// The hash as `short_commit` cuts it.
fn cut_commit(sha: &str) -> (r: String)
    ensures
        r@ == short_commit(sha@),
{
    let chars = chars_of(sha);
    let mut k: usize = 0;
    let mut used: usize = 0;
    assert(sha@.skip(0) =~= sha@);
    assert(sha@.take(0) =~= Seq::<char>::empty());
    while k < chars.len() && used + char_width(chars[k]) <= 7
        invariant
            k <= chars@.len(),
            chars@ == sha@,
            used <= 7,
            used == utf8_len(sha@.take(k as int)),
            byte_prefix(sha@, 7) == sha@.take(k as int) + byte_prefix(sha@.skip(k as int), 7 - used),
        decreases chars.len() - k,
    {
        let w = char_width(chars[k]);
        proof {
            let rest = sha@.skip(k as int);
            assert(rest[0] == sha@[k as int]);
            assert(rest.drop_first() =~= sha@.skip(k + 1));
            assert(sha@.take(k + 1) =~= sha@.take(k as int).push(sha@[k as int]));
            crate::text::lemma_utf8_len_push(sha@.take(k as int), sha@[k as int]);
            assert(sha@.take(k as int) + (seq![rest[0]] + byte_prefix(rest.drop_first(), 7 - used - w))
                =~= sha@.take(k + 1) + byte_prefix(sha@.skip(k + 1), 7 - (used + w)));
        }
        used = used + w;
        k = k + 1;
    }
    proof {
        assert(byte_prefix(sha@.skip(k as int), 7 - used) =~= Seq::<char>::empty());
        assert(sha@.take(k as int) + Seq::<char>::empty() =~= sha@.take(k as int));
        crate::text::lemma_utf8_len_take(sha@, k as int);
    }
    if used == 7 {
        proof {
            assert(sha@.subrange(0, k as int) =~= sha@.take(k as int));
        }
        sha.substring_char(0, k).to_owned()
    } else {
        proof {
            if utf8_len(sha@) >= 7 {
                assert(utf8_len(byte_prefix(sha@, 7)) == used);
            }
        }
        sha.to_owned()
    }
}

/// The scope's label in the summary: all changes, or one commit by its
/// short hash.
pub fn summary_scope_label(commit: &Option<String>) -> (r: String)
    ensures
        commit is None ==> r@ == "All PR changes"@,
        commit matches Some(sha) ==> r@ == "Commit "@ + short_commit(sha@),
{
    match commit {
        None => String::from_str("All PR changes"),
        Some(sha) => String::from_str("Commit ").concat(cut_commit(sha.as_str()).as_str()),
    }
}

/// The state of a pull request.
#[derive(Clone, Copy, Debug, PartialEq, Eq, Structural)]
pub enum PrStatus {
    Open,
    Draft,
    Closed,
    Merged,
}

/// Why the merge button does or does not merge, in the order the header
/// checks it.
#[derive(Clone, Copy, Debug, PartialEq, Eq, Structural)]
pub enum MergeState {
    /// A write is in flight.
    Saving,
    /// The details have not loaded.
    Loading,
    /// The selected pull request is closed or merged.
    Closed,
    /// The pull request is a draft.
    Draft,
    /// Merging is offered.
    Ready,
}

/// The merge button's state: `detail` is the loaded details' status (none
/// while they load), `selected` the selected pull request's status.
pub open spec fn merge_state_of(detail: Option<PrStatus>, selected: Option<PrStatus>, pending: bool) -> MergeState {
    if pending {
        MergeState::Saving
    } else if detail is None {
        MergeState::Loading
    } else if selected == Some(PrStatus::Closed) || selected == Some(PrStatus::Merged) {
        MergeState::Closed
    } else if detail == Some(PrStatus::Draft) {
        MergeState::Draft
    } else {
        MergeState::Ready
    }
}

/// The merge button acts only for loaded details that are no draft, with no
/// write in flight, on a selected pull request that is open.
pub open spec fn merge_enabled(detail: Option<PrStatus>, selected: Option<PrStatus>, pending: bool) -> bool {
    detail is Some && detail != Some(PrStatus::Draft) && !pending && selected == Some(PrStatus::Open)
}

/// The merge button: whether it acts (see `merge_enabled`) and the state
/// its label names (see `merge_state_of`).
pub fn merge_button(detail: Option<PrStatus>, selected: Option<PrStatus>, pending: bool) -> (r: (bool, MergeState))
    ensures
        r.0 == merge_enabled(detail, selected, pending),
        r.1 == merge_state_of(detail, selected, pending),
{
    let draft = match detail {
        Some(PrStatus::Draft) => true,
        _ => false,
    };
    let open = match selected {
        Some(PrStatus::Open) => true,
        _ => false,
    };
    let closed = match selected {
        Some(PrStatus::Closed) => true,
        Some(PrStatus::Merged) => true,
        _ => false,
    };
    let enabled = detail.is_some() && !draft && !pending && open;
    let state = if pending {
        MergeState::Saving
    } else if detail.is_none() {
        MergeState::Loading
    } else if closed {
        MergeState::Closed
    } else if draft {
        MergeState::Draft
    } else {
        MergeState::Ready
    };
    (enabled, state)
}

/// The merge button's accessible label for `state`.
pub fn merge_label(state: MergeState) -> (r: String)
    ensures
        r@ == (match state {
            MergeState::Saving => "Saving to GitHub"@,
            MergeState::Loading => "Merge unavailable: details are loading"@,
            MergeState::Closed => "Merge unavailable: pull request is closed"@,
            MergeState::Draft => "Merge unavailable: Mark as \"Ready for review\" to merge"@,
            MergeState::Ready => "Merge"@,
        }),
{
    match state {
        MergeState::Saving => String::from_str("Saving to GitHub"),
        MergeState::Loading => String::from_str("Merge unavailable: details are loading"),
        MergeState::Closed => String::from_str("Merge unavailable: pull request is closed"),
        MergeState::Draft => String::from_str("Merge unavailable: Mark as \"Ready for review\" to merge"),
        MergeState::Ready => String::from_str("Merge"),
    }
}

} // verus!
