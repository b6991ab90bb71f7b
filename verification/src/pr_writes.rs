//! The GitHub writes of the pull-request view: which write each control
//! sends and with what text, when it sends nothing, and when a write's
//! success may clear the draft it came from.

use vstd::prelude::*;
use crate::diff_rows::PullRequestsView;
use crate::mutations::{notice_is, saving_notice};
use vstd::string::StrSliceExecFns;
use crate::text::{same_str, trim_str, trimmed};

verus! {

/// A write to GitHub; `S` is a pull request's status.
#[derive(Clone, Debug)]
pub enum GitHubWrite<S> {
    EditTitle(String),
    EditBody(String),
    SetStatus { from: S, to: S },
    Merge { head: String },
    RequestReviewers(Vec<String>),
    Comment(String),
    EditComment { id: String, body: String },
    DeleteComment { id: String },
    Reply { thread: String, body: String },
    ResolveThread(String),
    AddReviewComment { path: String, line: u32, old: bool, commit: String, body: String },
}

/// A write the owner is to run: under the selection's generation, with the
/// notice for its success.
#[derive(Clone, Debug)]
pub struct PendingWrite<S> {
    pub generation: u64,
    pub write: GitHubWrite<S>,
    pub message: &'static str,
}

/// What starting a write does to the view: it is in flight under the same
/// selection, and the saving notice shows.
pub open spec fn write_started(before: PullRequestsView, after: PullRequestsView) -> bool {
    &&& after.mutation_pending
    &&& notice_is(after.notice, saving_notice())
    &&& after == (PullRequestsView { mutation_pending: true, notice: after.notice, ..before })
}

/// The view sent write `w` with notice `message`: nothing while another
/// write is in flight; otherwise the write starts and is answered.
pub open spec fn sent<S>(
    before: PullRequestsView,
    after: PullRequestsView,
    r: Option<PendingWrite<S>>,
    w: spec_fn(GitHubWrite<S>) -> bool,
    message: Seq<char>,
) -> bool {
    if before.mutation_pending {
        r is None && after == before
    } else {
        &&& r matches Some(p) && p.generation == before.detail_generation && w(p.write) && p.message@
            == message
        &&& write_started(before, after)
    }
}

/// A control sent nothing.
pub open spec fn unsent<S>(before: PullRequestsView, after: PullRequestsView, r: Option<PendingWrite<S>>) -> bool {
    r is None && after == before
}

/// Whether a draft still holds what was sent (`submitted`, trimmed), so
/// that a successful write may clear it.
pub fn draft_unchanged(current: &str, submitted: &str) -> (r: bool)
    ensures
        r == (trimmed(current@) == submitted@),
{
    let t = trim_str(current);
    same_str(t.as_str(), submitted)
}

impl PullRequestsView {
    /// Starts `write` unless one is in flight (see `sent`).
    fn dispatch<S>(&mut self, write: GitHubWrite<S>, message: &'static str) -> (r: Option<PendingWrite<S>>)
        ensures
            old(self).mutation_pending ==> r is None && *final(self) == *old(self),
            !old(self).mutation_pending ==> r == Some(
                PendingWrite { generation: old(self).detail_generation, write, message },
            ) && write_started(*old(self), *final(self)),
    {
        match self.mutate() {
            Some(generation) => Some(PendingWrite { generation, write, message }),
            None => None,
        }
    }

    /// Saves the edited title: its trimmed text, unless nothing is selected
    /// or it is blank.
    pub fn save_title<S>(&mut self, selected: bool, title: &str) -> (r: Option<PendingWrite<S>>)
        ensures
            !selected || trimmed(title@).len() == 0 ==> unsent(*old(self), *final(self), r),
            selected && trimmed(title@).len() > 0 ==> sent(
                *old(self),
                *final(self),
                r,
                |w: GitHubWrite<S>| w matches GitHubWrite::EditTitle(t) && t@ == trimmed(title@),
                "Title saved"@,
            ),
    {
        if !selected {
            return None;
        }
        let t = trim_str(title);
        if t.as_str().unicode_len() == 0 {
            return None;
        }
        self.dispatch(GitHubWrite::EditTitle(t), "Title saved")
    }

    /// Saves the description being edited, as written.
    pub fn save_description<S>(&mut self, selected: bool, editing: bool, body: String) -> (r: Option<PendingWrite<S>>)
        ensures
            !(selected && editing) ==> unsent(*old(self), *final(self), r),
            selected && editing ==> sent(
                *old(self),
                *final(self),
                r,
                |w: GitHubWrite<S>| w == GitHubWrite::<S>::EditBody(body),
                "Description saved"@,
            ),
    {
        if !(selected && editing) {
            return None;
        }
        self.dispatch(GitHubWrite::EditBody(body), "Description saved")
    }

    /// Moves the selected pull request (whose status is `current`) to
    /// status `to`; the owner closes the status menu.
    pub fn set_status<S>(&mut self, current: Option<S>, to: S) -> (r: Option<PendingWrite<S>>)
        ensures
            current is None ==> unsent(*old(self), *final(self), r),
            current matches Some(c) ==> sent(
                *old(self),
                *final(self),
                r,
                |w: GitHubWrite<S>| w == (GitHubWrite::SetStatus { from: c, to }),
                "Status updated"@,
            ),
    {
        match current {
            None => None,
            Some(from) => self.dispatch(GitHubWrite::SetStatus { from, to }, "Status updated"),
        }
    }

    /// Merges the pull request shown (`open` tells whether it is open) at
    /// its head commit; only an open pull request is merged.
    pub fn merge<S>(&mut self, open: Option<bool>, head: String) -> (r: Option<PendingWrite<S>>)
        ensures
            open != Some(true) ==> unsent(*old(self), *final(self), r),
            open == Some(true) ==> sent(
                *old(self),
                *final(self),
                r,
                |w: GitHubWrite<S>| w == (GitHubWrite::<S>::Merge { head }),
                "Merge request completed"@,
            ),
    {
        match open {
            Some(true) => self.dispatch(GitHubWrite::Merge { head }, "Merge request completed"),
            _ => None,
        }
    }

    /// Requests reviews from the selected people, unless nobody is selected.
    pub fn submit_reviewers<S>(&mut self, selected: bool, logins: Vec<String>) -> (r: Option<PendingWrite<S>>)
        ensures
            !selected || logins@.len() == 0 ==> unsent(*old(self), *final(self), r),
            selected && logins@.len() > 0 ==> sent(
                *old(self),
                *final(self),
                r,
                |w: GitHubWrite<S>| w == GitHubWrite::<S>::RequestReviewers(logins),
                "Review requested"@,
            ),
    {
        if !selected || logins.len() == 0 {
            return None;
        }
        self.dispatch(GitHubWrite::RequestReviewers(logins), "Review requested")
    }

    /// Posts the comment box's trimmed text, unless it is blank.
    pub fn post_comment<S>(&mut self, selected: bool, text: &str) -> (r: Option<PendingWrite<S>>)
        ensures
            !selected || trimmed(text@).len() == 0 ==> unsent(*old(self), *final(self), r),
            selected && trimmed(text@).len() > 0 ==> sent(
                *old(self),
                *final(self),
                r,
                |w: GitHubWrite<S>| w matches GitHubWrite::Comment(t) && t@ == trimmed(text@),
                "Comment posted"@,
            ),
    {
        if !selected {
            return None;
        }
        let t = trim_str(text);
        if t.as_str().unicode_len() == 0 {
            return None;
        }
        self.dispatch(GitHubWrite::Comment(t), "Comment posted")
    }

    /// Saves the edit of comment `editing` (whose comment the detail holds
    /// and may be edited when `editable`), with the editor's trimmed text.
    pub fn save_comment_edit<S>(&mut self, selected: bool, editing: Option<String>, editable: bool, text: &str) -> (r: Option<
        PendingWrite<S>,
    >)
        ensures
            !(selected && editing is Some && editable) || trimmed(text@).len() == 0 ==> unsent(
                *old(self),
                *final(self),
                r,
            ),
            selected && editable && trimmed(text@).len() > 0 ==> (editing matches Some(id) ==> sent(
                *old(self),
                *final(self),
                r,
                |w: GitHubWrite<S>|
                    w matches GitHubWrite::EditComment { id: i, body } && i == id && body@ == trimmed(
                        text@,
                    ),
                "Comment updated"@,
            )),
    {
        if !selected || !editable {
            return None;
        }
        let id = match editing {
            Some(id) => id,
            None => return None,
        };
        let body = trim_str(text);
        if body.as_str().unicode_len() == 0 {
            return None;
        }
        self.dispatch(GitHubWrite::EditComment { id, body }, "Comment updated")
    }

    /// Deletes comment `id`, when the detail holds it and it may be deleted
    /// (`deletable`); the owner closes the comment menu.
    pub fn delete_comment<S>(&mut self, selected: bool, id: String, deletable: bool) -> (r: Option<PendingWrite<S>>)
        ensures
            !(selected && deletable) ==> unsent(*old(self), *final(self), r),
            selected && deletable ==> sent(
                *old(self),
                *final(self),
                r,
                |w: GitHubWrite<S>| w == (GitHubWrite::<S>::DeleteComment { id }),
                "Comment deleted"@,
            ),
    {
        if !(selected && deletable) {
            return None;
        }
        self.dispatch(GitHubWrite::DeleteComment { id }, "Comment deleted")
    }

    /// Posts the reply being written to its thread, trimmed, unless it is
    /// blank.
    pub fn post_reply<S>(&mut self, selected: bool, thread: Option<String>, text: &str) -> (r: Option<PendingWrite<S>>)
        ensures
            !(selected && thread is Some) || trimmed(text@).len() == 0 ==> unsent(
                *old(self),
                *final(self),
                r,
            ),
            selected && trimmed(text@).len() > 0 ==> (thread matches Some(t) ==> sent(
                *old(self),
                *final(self),
                r,
                |w: GitHubWrite<S>|
                    w matches GitHubWrite::Reply { thread: x, body } && x == t && body@ == trimmed(
                        text@,
                    ),
                "Reply posted"@,
            )),
    {
        if !selected {
            return None;
        }
        let thread = match thread {
            Some(t) => t,
            None => return None,
        };
        let body = trim_str(text);
        if body.as_str().unicode_len() == 0 {
            return None;
        }
        self.dispatch(GitHubWrite::Reply { thread, body }, "Reply posted")
    }

    /// Resolves conversation `thread`.
    pub fn resolve_thread<S>(&mut self, selected: bool, thread: String) -> (r: Option<PendingWrite<S>>)
        ensures
            !selected ==> unsent(*old(self), *final(self), r),
            selected ==> sent(
                *old(self),
                *final(self),
                r,
                |w: GitHubWrite<S>| w == GitHubWrite::<S>::ResolveThread(thread),
                "Conversation resolved"@,
            ),
    {
        if !selected {
            return None;
        }
        self.dispatch(GitHubWrite::ResolveThread(thread), "Conversation resolved")
    }

    /// Adds the inline comment being written, on its line and side of the
    /// file, at commit `commit`, with the editor's trimmed text.
    pub fn submit_inline_comment<S>(&mut self, selected: bool, editor_open: bool, text: &str, commit: String) -> (r: Option<
        PendingWrite<S>,
    >)
        ensures
            !(selected && editor_open && old(self).inline_comment is Some) || trimmed(text@).len() == 0
                ==> unsent(*old(self), *final(self), r),
            selected && editor_open && trimmed(text@).len() > 0 ==> (old(self).inline_comment matches Some(
                c,
            ) ==> sent(
                *old(self),
                *final(self),
                r,
                |w: GitHubWrite<S>|
                    w matches GitHubWrite::AddReviewComment { path, line, old, commit: k, body }
                        && path@ == c.path@ && line == c.line && old == c.old && k == commit
                        && body@ == trimmed(text@),
                "Comment added"@,
            )),
    {
        if !(selected && editor_open) {
            return None;
        }
        let (path, line, old) = match &self.inline_comment {
            Some(c) => (c.path.clone(), c.line, c.old),
            None => return None,
        };
        let body = trim_str(text);
        if body.as_str().unicode_len() == 0 {
            return None;
        }
        self.dispatch(GitHubWrite::AddReviewComment { path, line, old, commit, body }, "Comment added")
    }
}

} // verus!
