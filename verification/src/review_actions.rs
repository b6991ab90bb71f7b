//! What each control of the review panel does: the state it changes, and
//! what it leaves to the owner (loading, Git, the clipboard, the editors,
//! opening files and addresses).

use vstd::prelude::*;
use crate::names::{insert_name, remove_name};
use crate::diff_copy::{copy_files, same_files};
use crate::review_panel::{
    file_toggled, folded_all, jumped, refreshed, viewed_toggled, Menu, ReviewEvent, ReviewPanel,
    ReviewPreferences, Scope,
};
use crate::review_rows::review_rows;
use crate::text::{has_name, trim_str, trimmed};

verus! {

/// A control of the review panel; `M` is a Git operation.
#[derive(Clone, Debug)]
pub enum Action<M> {
    Menu(Menu),
    Scope(Scope),
    Refresh,
    Wrap,
    Context(usize),
    LoadFiles,
    Rich,
    Words,
    Whitespace,
    CopyPatch,
    Collapse,
    Split,
    Tree,
    Close,
    AddTab,
    Fullscreen,
    Jump(usize),
    Toggle(usize),
    Copy(String),
    Open(usize),
    OpenTab(String),
    Reveal(usize),
    Mutation(M),
    Confirm(M),
    Commit,
    SaveCommit,
    SaveComment,
    EditComment(u64),
    CancelComment,
    DeleteComment(u64),
    CancelDialog,
    CommitAll,
    CommitAndPush,
    PullRequest,
    CreatePullRequest(bool),
    PrBase(String),
    OpenPr(String),
    Viewed(usize),
    NewBranch(bool),
}

/// What the owner does after a control acted.
#[derive(Clone, Debug)]
pub enum ActionEffect<M> {
    Nothing,
    /// Tell the workspace.
    Event(ReviewEvent),
    /// Focus the jump field.
    FocusJump,
    /// A load was asked for; its generation when it started.
    Load(Option<u64>),
    /// Copy the `git apply` command of the files, with a notice.
    CopyPatch,
    /// Copy this text, with a notice.
    Copy(String),
    /// Open file `i` of the snapshot.
    OpenFile(usize),
    /// Show file `i` in the file manager.
    Reveal(usize),
    /// Run this Git operation (the panel is busy).
    Run(M),
    /// Ask to confirm this Git operation.
    Confirm(M),
    /// Open the commit dialog, or the pull-request dialog.
    OpenCommit,
    OpenPullRequest,
    /// Save the comment being written, or edit comment `id`.
    SaveComment,
    EditComment(u64),
    /// Commit the message of the commit dialog.
    Commit { stage_all: bool, branch: Option<String> },
    /// Create a pull request from the dialog's title and body.
    CreatePullRequest { draft: bool, base: String, branch: Option<String>, include_local: bool },
    /// Open this address.
    OpenUrl(String),
    /// Scroll to this row.
    ScrollTo(Option<usize>),
}

/// The effect of an action and, for a view option, the options to save.
pub struct ActionResult<M> {
    pub effect: ActionEffect<M>,
    pub save: Option<ReviewPreferences>,
}

/// The first `n` comments without those with id `id`.
pub open spec fn comments_without(
    comments: Seq<crate::review_rows::ReviewComment>,
    id: u64,
    n: int,
) -> Seq<crate::review_rows::ReviewComment>
    decreases n,
{
    if n <= 0 {
        Seq::empty()
    } else {
        let before = comments_without(comments, id, n - 1);
        if comments[n - 1].id != id {
            before.push(comments[n - 1])
        } else {
            before
        }
    }
}

/// A copy of a comment.
fn copy_comment(c: &crate::review_rows::ReviewComment) -> (r: crate::review_rows::ReviewComment)
    ensures
        r == *c,
{
    crate::review_rows::ReviewComment {
        id: c.id,
        path: c.path.clone(),
        start: c.start,
        end: c.end,
        old: c.old,
        text: c.text.clone(),
    }
}

/// The file index an action names, if any.
pub open spec fn file_index<M>(a: Action<M>) -> Option<usize> {
    match a {
        Action::Open(i) => Some(i),
        Action::Reveal(i) => Some(i),
        Action::Viewed(i) => Some(i),
        Action::Toggle(i) => Some(i),
        Action::Jump(i) => Some(i),
        Action::Context(i) => Some(i),
        Action::Menu(Menu::File(i)) => Some(i),
        _ => None,
    }
}

/// The new branch's name blocks committing: while a new branch is asked
/// for, its name must be more than the `codex/` the field starts with.
pub open spec fn branch_unnamed(new_branch: bool, branch_text: Seq<char>) -> bool {
    new_branch && trimmed(branch_text) == "codex/"@
}

/// The branch a commit or a pull request goes to: the branch field's
/// trimmed text when a new branch is asked for, else the checked-out one.
pub open spec fn branch_named(new_branch: bool, branch_text: Seq<char>, branch: Option<String>) -> bool {
    if new_branch {
        branch matches Some(b) && b@ == trimmed(branch_text)
    } else {
        branch is None
    }
}

/// What changing the comparison to `scope` does: menus, drafts, folds, the
/// selection and the previous scope's load error are reset, any load in
/// flight is forgotten, the view shows
/// the last turn's files in the last-turn scope (else nothing until the
/// load ends), and a load starts unless an operation runs.
pub open spec fn scope_changed(before: ReviewPanel, scope: Scope, after: ReviewPanel, r: Option<u64>) -> bool {
    &&& after == (ReviewPanel {
        scope,
        menu: None,
        source: crate::review_rows::ReviewRowsSource {
            draft: None,
            collapsed: after.source.collapsed,
            files: after.source.files,
            ..before.source
        },
        editing_comment: None,
        selection: None,
        selected_file: 0,
        rows: after.rows,
        generation: after.generation,
        loading: after.loading,
        error: None,
        ..before
    })
    &&& after.source.collapsed@.len() == 0
    &&& (scope is LastTurn ==> same_files(after.source.files@, before.last_turn@))
    &&& (!(scope is LastTurn) ==> after.source.files@.len() == 0)
    &&& after.rows@ == review_rows(after.source)
    &&& before.busy ==> r is None && !after.loading && after.generation == before.generation + 1
    &&& !before.busy ==> r == Some((before.generation + 2) as u64) && after.loading
        && after.generation == before.generation + 2
}

/// What control `a` does to the panel `before`, giving `after` and the
/// result `r`. Only the view options save the options.
pub open spec fn acted<M>(before: ReviewPanel, a: Action<M>, branch_text: Seq<char>, after: ReviewPanel, r: ActionResult<M>) -> bool {
    &&& (view_group(a) && !(a is Refresh) && !(a is Context)) == (r.save is Some)
    &&& r.save is Some ==> r.save == Some(after.prefs())
    &&& match a {
        Action::Menu(m) => after == (ReviewPanel {
            menu: if before.menu == Some(m) {
                None
            } else {
                Some(m)
            },
            menu_selected: 0,
            focus_pending: m != Menu::Jump,
            ..before
        }) && r.effect == (if m == Menu::Jump {
            ActionEffect::<M>::FocusJump
        } else {
            ActionEffect::<M>::Nothing
        }),
        Action::Scope(s) => r.effect matches ActionEffect::Load(g) && same_files(
            after.last_turn@,
            before.latest_turn@,
        ) && !after.history_pinned && scope_changed(
            ReviewPanel { history_pinned: false, last_turn: after.last_turn, ..before },
            s,
            after,
            g,
        ),
        Action::Refresh => r.effect matches ActionEffect::Load(g) && refreshed(
            ReviewPanel { operation_error: None, menu: None, ..before },
            after,
            g,
        ),
        Action::Wrap => after == (ReviewPanel { wrap: !before.wrap, menu: None, ..before })
            && r.effect == ActionEffect::<M>::Nothing,
        Action::Words => after == (ReviewPanel { words: !before.words, menu: None, ..before })
            && r.effect == ActionEffect::<M>::Nothing,
        Action::Tree => after == (ReviewPanel { tree_open: !before.tree_open, ..before })
            && r.effect == ActionEffect::<M>::Nothing,
        Action::Rich => after == (ReviewPanel {
            source: crate::review_rows::ReviewRowsSource { rich: !before.source.rich, ..before.source },
            menu: None,
            selection: None,
            rows: after.rows,
            ..before
        }) && after.rows@ == review_rows(after.source) && r.effect == ActionEffect::<M>::Nothing,
        Action::Split => after == (ReviewPanel {
            source: crate::review_rows::ReviewRowsSource { split: !before.source.split, ..before.source },
            selection: None,
            rows: after.rows,
            ..before
        }) && after.rows@ == review_rows(after.source) && r.effect == ActionEffect::<M>::Nothing,
        Action::LoadFiles => r.effect matches ActionEffect::Load(g) && refreshed(
            ReviewPanel {
                load_files: !before.load_files,
                menu: None,
                generation: (before.generation + 1) as u64,
                loading: false,
                ..before
            },
            after,
            g,
        ),
        Action::Whitespace => r.effect matches ActionEffect::Load(g) && refreshed(
            ReviewPanel { whitespace: !before.whitespace, menu: None, ..before },
            after,
            g,
        ),
        Action::Context(i) => {
            let path = before.source.files@[i as int].path@;
            &&& has_name(after.expanded_files@, path) == !has_name(before.expanded_files@, path)
            &&& forall|y: Seq<char>|
                y != path ==> has_name(after.expanded_files@, y) == has_name(before.expanded_files@, y)
            &&& r.effect matches ActionEffect::Load(g) && refreshed(
                ReviewPanel {
                    expanded_files: after.expanded_files,
                    menu: None,
                    generation: (before.generation + 1) as u64,
                    loading: false,
                    ..before
                },
                after,
                g,
            )
        },
        Action::CopyPatch => after == (ReviewPanel { menu: None, ..before }) && r.effect
            == ActionEffect::<M>::CopyPatch,
        Action::Collapse => folded_all(before, after) && r.effect == ActionEffect::<M>::Nothing,
        Action::Close => r.effect == ActionEffect::<M>::Event(ReviewEvent::Close) && after == before,
        Action::AddTab => r.effect == ActionEffect::<M>::Event(ReviewEvent::AddTab) && after
            == before,
        Action::Fullscreen => r.effect == ActionEffect::<M>::Event(ReviewEvent::Fullscreen)
            && after == before,
        Action::Jump(i) => r.effect matches ActionEffect::ScrollTo(k) && jumped(before, i, after, k),
        Action::Toggle(i) => file_toggled(before, i, after) && r.effect == ActionEffect::<M>::Nothing,
        Action::Copy(text) => after == (ReviewPanel { menu: None, ..before }) && r.effect
            == ActionEffect::<M>::Copy(text),
        Action::Open(i) => after == (ReviewPanel { menu: None, ..before }) && r.effect
            == ActionEffect::<M>::OpenFile(i),
        Action::OpenTab(path) => after == before && r.effect == ActionEffect::<M>::Event(
            ReviewEvent::OpenFile { path, line: None },
        ),
        Action::Reveal(i) => after == (ReviewPanel { menu: None, ..before }) && r.effect
            == ActionEffect::<M>::Reveal(i),
        Action::Viewed(i) => viewed_toggled(before, i, after) && r.effect == ActionEffect::<M>::Nothing,
        Action::Mutation(op) => if before.busy {
            after == before && r.effect == ActionEffect::<M>::Nothing
        } else {
            after == (ReviewPanel {
                busy: true,
                menu: None,
                confirm_open: false,
                operation_error: None,
                ..before
            }) && r.effect == ActionEffect::Run(op)
        },
        Action::Confirm(op) => after == (ReviewPanel {
            pr_open: false,
            menu: None,
            confirm_open: true,
            ..before
        }) && r.effect == ActionEffect::Confirm(op),
        Action::Commit => after == before && r.effect == ActionEffect::<M>::OpenCommit,
        Action::PullRequest => after == before && r.effect == ActionEffect::<M>::OpenPullRequest,
        Action::SaveComment => after == before && r.effect == ActionEffect::<M>::SaveComment,
        Action::EditComment(id) => after == before && r.effect == ActionEffect::<M>::EditComment(id),
        Action::CancelComment => after == (ReviewPanel {
            source: crate::review_rows::ReviewRowsSource { draft: None, ..before.source },
            editing_comment: None,
            focus_pending: true,
            selection: None,
            rows: after.rows,
            ..before
        }) && after.rows@ == review_rows(after.source) && r.effect == ActionEffect::<M>::Nothing,
        Action::DeleteComment(id) => {
            &&& after.source.comments@ == comments_without(
                before.source.comments@,
                id,
                before.source.comments@.len() as int,
            )
            &&& (r.effect matches ActionEffect::Event(ReviewEvent::CommentsChanged(v)) && v@
                == after.source.comments@)
            &&& after.rows@ == review_rows(after.source)
            &&& before.editing_comment == Some(id) ==> after.editing_comment is None
            &&& before.editing_comment != Some(id) ==> after.editing_comment == before.editing_comment
            &&& after.source.files == before.source.files
        },
        Action::CancelDialog => after == (ReviewPanel {
            pr_open: false,
            confirm_open: false,
            commit_open: false,
            focus_pending: true,
            ..before
        }) && r.effect == ActionEffect::<M>::Nothing,
        Action::CommitAll => after == (ReviewPanel { commit_all: !before.commit_all, ..before })
            && r.effect == ActionEffect::<M>::Nothing,
        Action::NewBranch(new) => after == (ReviewPanel { new_branch: new, menu: None, ..before })
            && r.effect == ActionEffect::<M>::Nothing,
        Action::PrBase(base) => after == (ReviewPanel { pr_base: base, menu: None, ..before })
            && r.effect == ActionEffect::<M>::Nothing,
        Action::OpenPr(url) => r.effect == ActionEffect::<M>::OpenUrl(url) && after == before,
        Action::SaveCommit => after == before && if before.busy || branch_unnamed(
            before.new_branch,
            branch_text,
        ) {
            r.effect == ActionEffect::<M>::Nothing
        } else {
            r.effect matches ActionEffect::Commit { stage_all, branch } && stage_all
                == before.commit_all && branch_named(before.new_branch, branch_text, branch)
        },
        Action::CommitAndPush => if before.busy || branch_unnamed(before.new_branch, branch_text) {
            after == before && r.effect == ActionEffect::<M>::Nothing
        } else {
            after == (ReviewPanel { push_after_commit: true, ..before }) && (
            r.effect matches ActionEffect::Commit { stage_all, branch } && stage_all
                == before.commit_all && branch_named(before.new_branch, branch_text, branch))
        },
        Action::CreatePullRequest(draft) => after == before && if before.busy || branch_unnamed(
            before.new_branch,
            branch_text,
        ) {
            r.effect == ActionEffect::<M>::Nothing
        } else if !before.new_branch && before.pr_existing is Some {
            r.effect matches ActionEffect::OpenUrl(u) && u@ == before.pr_existing->0@
        } else {
            r.effect matches ActionEffect::CreatePullRequest { draft: d, base, branch, include_local }
                && d == draft && base@ == before.pr_base@ && include_local == before.commit_all
                && branch_named(before.new_branch, branch_text, branch)
        },
    }
}

/// `a` is one of the view controls.
pub open spec fn view_group<M>(a: Action<M>) -> bool {
    match a {
        Action::Refresh | Action::Wrap | Action::Context(..) | Action::LoadFiles | Action::Rich | Action::Words | Action::Whitespace | Action::Split | Action::Tree => true,
        _ => false,
    }
}

/// `a` is one of the git controls.
pub open spec fn git_group<M>(a: Action<M>) -> bool {
    match a {
        Action::Mutation(..) | Action::Confirm(..) | Action::Commit | Action::SaveCommit | Action::CancelDialog | Action::CommitAll | Action::CommitAndPush | Action::NewBranch(..) | Action::PullRequest | Action::PrBase(..) | Action::OpenPr(..) | Action::CreatePullRequest(..) => true,
        _ => false,
    }
}

/// `a` is one of the other controls.
pub open spec fn other_group<M>(a: Action<M>) -> bool {
    match a {
        Action::Menu(..) | Action::Scope(..) | Action::CopyPatch | Action::Collapse | Action::Close | Action::AddTab | Action::Fullscreen | Action::Jump(..) | Action::Toggle(..) | Action::Copy(..) | Action::Viewed(..) | Action::OpenTab(..) | Action::Open(..) | Action::Reveal(..) | Action::SaveComment | Action::EditComment(..) | Action::CancelComment | Action::DeleteComment(..) => true,
        _ => false,
    }
}

/// Whether `a` changes a view option or reloads.
fn view_action<M>(a: &Action<M>) -> (r: bool)
    ensures
        r == view_group(*a),
{
    match a {
        Action::Refresh | Action::Wrap | Action::Context(..) | Action::LoadFiles | Action::Rich | Action::Words | Action::Whitespace | Action::Split | Action::Tree => true,
        _ => false,
    }
}

/// Whether `a` is a Git control.
fn git_action<M>(a: &Action<M>) -> (r: bool)
    ensures
        r == git_group(*a),
{
    match a {
        Action::Mutation(..) | Action::Confirm(..) | Action::Commit | Action::SaveCommit | Action::CancelDialog | Action::CommitAll | Action::CommitAndPush | Action::NewBranch(..) | Action::PullRequest | Action::PrBase(..) | Action::OpenPr(..) | Action::CreatePullRequest(..) => true,
        _ => false,
    }
}

impl ReviewPanel {
    /// Changes what the panel compares (see `scope_changed`); answers the
    /// generation of the load it starts.
    #[verifier::rlimit(60)]
    #[verifier::spinoff_prover]
    pub fn change_scope(&mut self, scope: Scope) -> (r: Option<u64>)
        requires
            old(self).generation < u64::MAX - 1,
        ensures
            scope_changed(*old(self), scope, *final(self), r),
    {
        let files = match scope {
            Scope::LastTurn => copy_files(&self.last_turn),
            _ => Vec::new(),
        };
        self.scope = scope;
        self.menu = None;
        self.source.draft = None;
        self.editing_comment = None;
        self.error = None;
        self.generation = self.generation + 1;
        self.loading = false;
        self.source.collapsed = Vec::new();
        self.selected_file = 0;
        self.source.files = files;
        self.rebuild();
        let ghost mid = *self;
        let r = self.refresh();
        proof {
            assert(refreshed(mid, *self, r));
            reveal(same_files);
        }
        r
    }

    /// Deletes comment `id` (ending its editing), rebuilds the rows, and
    /// answers the comments left, for the workspace.
    fn delete_comment(&mut self, id: u64) -> (sent: Vec<crate::review_rows::ReviewComment>)
        requires
            old(self).wf(),
        ensures
            final(self).wf(),
            final(self).source.comments@ == comments_without(
                old(self).source.comments@,
                id,
                old(self).source.comments@.len() as int,
            ),
            sent@ == final(self).source.comments@,
            final(self).rows@ == review_rows(final(self).source),
            old(self).editing_comment == Some(id) ==> final(self).editing_comment is None,
            old(self).editing_comment != Some(id) ==> final(self).editing_comment == old(self).editing_comment,
            final(self).source.files == old(self).source.files,
    {
        if self.editing_comment == Some(id) {
            self.editing_comment = None;
        }
        let mut kept: Vec<crate::review_rows::ReviewComment> = Vec::new();
        let mut sent: Vec<crate::review_rows::ReviewComment> = Vec::new();
        let mut k: usize = 0;
        while k < self.source.comments.len()
            invariant
                k <= self.source.comments@.len(),
                kept@ == comments_without(self.source.comments@, id, k as int),
                sent@ == kept@,
            decreases self.source.comments.len() - k,
        {
            if self.source.comments[k].id != id {
                kept.push(copy_comment(&self.source.comments[k]));
                sent.push(copy_comment(&self.source.comments[k]));
            }
            k = k + 1;
        }
        self.source.comments = kept;
        self.rebuild();
        sent
    }

    /// Whether committing is blocked: an operation runs, or a new branch
    /// has no name yet (`branch_text` is the branch field's text).
    pub fn commit_blocked(&self, branch_text: &str) -> (r: bool)
        ensures
            r == (self.busy || branch_unnamed(self.new_branch, branch_text@)),
    {
        if self.busy {
            return true;
        }
        if !self.new_branch {
            return false;
        }
        let name = trim_str(branch_text);
        proof {
            reveal_strlit("codex/");
        }
        crate::text::same_str(name.as_str(), "codex/")
    }

    /// The new branch to create, if one is asked for: the branch field's
    /// trimmed text.
    fn branch_choice(&self, branch_text: &str) -> (r: Option<String>)
        ensures
            self.new_branch ==> (r matches Some(b) && b@ == trimmed(branch_text@)),
            !self.new_branch ==> r is None,
    {
        if self.new_branch {
            Some(trim_str(branch_text))
        } else {
            None
        }
    }

    /// Acts on control `a`. An action naming a file past the snapshot's
    /// files does nothing. View options change and are saved; folding,
    /// viewing and jumping rebuild the rows; Git operations run one at a
    /// time; committing waits for a named new branch; a pull request that
    /// already exists for the checked-out branch is opened instead of
    /// created. `branch_text` is the branch field's text.
    pub fn action<M>(&mut self, a: Action<M>, branch_text: &str) -> (r: ActionResult<M>)
        requires
            old(self).wf(),
            old(self).generation < u64::MAX - 1,
        ensures
            final(self).wf(),
            (file_index(a) matches Some(i) && i >= old(self).source.files@.len()) ==> *final(self)
                == *old(self) && r.save is None,
            (file_index(a) matches Some(i) ==> i < old(self).source.files@.len()) ==> acted(
                *old(self),
                a,
                branch_text@,
                *final(self),
                r,
            ),
    {
        let index = match &a {
            Action::Open(i) => Some(*i),
            Action::Reveal(i) => Some(*i),
            Action::Viewed(i) => Some(*i),
            Action::Toggle(i) => Some(*i),
            Action::Jump(i) => Some(*i),
            Action::Context(i) => Some(*i),
            Action::Menu(Menu::File(i)) => Some(*i),
            _ => None,
        };
        match index {
            Some(i) => {
                if i >= self.source.files.len() {
                    return ActionResult { effect: ActionEffect::Nothing, save: None };
                }
            },
            None => {},
        }
        self.dispatch(a, branch_text)
    }

    /// Acts on control `a`, whose file index (if any) names a file.
    fn dispatch<M>(&mut self, a: Action<M>, branch_text: &str) -> (r: ActionResult<M>)
        requires
            old(self).wf(),
            old(self).generation < u64::MAX - 1,
            file_index(a) matches Some(i) ==> i < old(self).source.files@.len(),
        ensures
            final(self).wf(),
            acted(*old(self), a, branch_text@, *final(self), r),
    {
        if view_action(&a) {
            self.act_on_view(a)
        } else if git_action(&a) {
            self.act_on_git(a, branch_text)
        } else {
            self.act_on_files(a)
        }
    }

    fn act_on_view<M>(&mut self, a: Action<M>) -> (r: ActionResult<M>)
        requires
            old(self).wf(),
            old(self).generation < u64::MAX - 1,
            file_index(a) matches Some(i) ==> i < old(self).source.files@.len(),
            view_group(a),
        ensures
            final(self).wf(),
            acted(*old(self), a, ""@, *final(self), r),
    {
        match a {
            Action::Refresh => self.act_refresh(a),
            Action::Wrap => self.act_wrap(a),
            Action::Context(..) => self.act_context(a),
            Action::LoadFiles => self.act_load_files(a),
            Action::Rich => self.act_rich(a),
            Action::Words => self.act_words(a),
            Action::Whitespace => self.act_whitespace(a),
            Action::Split => self.act_split(a),
            Action::Tree => self.act_tree(a),
            _ => {
                proof {
                    assert(false);
                }
                ActionResult { effect: ActionEffect::Nothing, save: None }
            },
        }
    }

    fn act_refresh<M>(&mut self, a: Action<M>) -> (r: ActionResult<M>)
        requires
            old(self).wf(),
            old(self).generation < u64::MAX - 1,
            file_index(a) matches Some(i) ==> i < old(self).source.files@.len(),
            a is Refresh,
        ensures
            final(self).wf(),
            acted(*old(self), a, ""@, *final(self), r),
    {
        let effect = match a {
            Action::Refresh => {
                self.operation_error = None;
                self.menu = None;
                ActionEffect::Load(self.refresh())
            },
            _ => {
                proof {
                    assert(false);
                }
                ActionEffect::Nothing
            },
        };
        ActionResult { effect, save: None }
    }

    fn act_wrap<M>(&mut self, a: Action<M>) -> (r: ActionResult<M>)
        requires
            old(self).wf(),
            old(self).generation < u64::MAX - 1,
            file_index(a) matches Some(i) ==> i < old(self).source.files@.len(),
            a is Wrap,
        ensures
            final(self).wf(),
            acted(*old(self), a, ""@, *final(self), r),
    {
        let effect = match a {
            Action::Wrap => {
                self.wrap = !self.wrap;
                self.menu = None;
                ActionEffect::Nothing
            },
            _ => {
                proof {
                    assert(false);
                }
                ActionEffect::Nothing
            },
        };
        ActionResult { effect, save: Some(self.preferences()) }
    }

    #[verifier::rlimit(100)]
    #[verifier::spinoff_prover]
    fn act_context<M>(&mut self, a: Action<M>) -> (r: ActionResult<M>)
        requires
            old(self).wf(),
            old(self).generation < u64::MAX - 1,
            file_index(a) matches Some(i) ==> i < old(self).source.files@.len(),
            a is Context,
        ensures
            final(self).wf(),
            acted(*old(self), a, ""@, *final(self), r),
    {
        let effect = match a {
            Action::Context(file) => {
                let path = self.source.files[file].path.clone();
                let ghost before = *self;
                let mut expanded = Vec::new();
                std::mem::swap(&mut expanded, &mut self.expanded_files);
                if !remove_name(&mut expanded, path.as_str()) {
                    insert_name(&mut expanded, path.as_str());
                }
                self.expanded_files = expanded;
                self.menu = None;
                self.generation = self.generation + 1;
                self.loading = false;
                let ghost mid = *self;
                assert(mid == (ReviewPanel {
                    expanded_files: mid.expanded_files,
                    menu: None,
                    generation: (before.generation + 1) as u64,
                    loading: false,
                    ..before
                }));
                let g = self.refresh();
                assert(refreshed(mid, *self, g));
                ActionEffect::Load(g)
            },
            _ => {
                proof {
                    assert(false);
                }
                ActionEffect::Nothing
            },
        };
        ActionResult { effect, save: None }
    }

    #[verifier::rlimit(60)]
    #[verifier::spinoff_prover]
    fn act_load_files<M>(&mut self, a: Action<M>) -> (r: ActionResult<M>)
        requires
            old(self).wf(),
            old(self).generation < u64::MAX - 1,
            file_index(a) matches Some(i) ==> i < old(self).source.files@.len(),
            a is LoadFiles,
        ensures
            final(self).wf(),
            acted(*old(self), a, ""@, *final(self), r),
    {
        let effect = match a {
            Action::LoadFiles => {
                self.load_files = !self.load_files;
                self.menu = None;
                self.generation = self.generation + 1;
                self.loading = false;
                ActionEffect::Load(self.refresh())
            },
            _ => {
                proof {
                    assert(false);
                }
                ActionEffect::Nothing
            },
        };
        ActionResult { effect, save: Some(self.preferences()) }
    }

    fn act_rich<M>(&mut self, a: Action<M>) -> (r: ActionResult<M>)
        requires
            old(self).wf(),
            old(self).generation < u64::MAX - 1,
            file_index(a) matches Some(i) ==> i < old(self).source.files@.len(),
            a is Rich,
        ensures
            final(self).wf(),
            acted(*old(self), a, ""@, *final(self), r),
    {
        let effect = match a {
            Action::Rich => {
                self.source.rich = !self.source.rich;
                self.menu = None;
                self.rebuild();
                ActionEffect::Nothing
            },
            _ => {
                proof {
                    assert(false);
                }
                ActionEffect::Nothing
            },
        };
        ActionResult { effect, save: Some(self.preferences()) }
    }

    fn act_words<M>(&mut self, a: Action<M>) -> (r: ActionResult<M>)
        requires
            old(self).wf(),
            old(self).generation < u64::MAX - 1,
            file_index(a) matches Some(i) ==> i < old(self).source.files@.len(),
            a is Words,
        ensures
            final(self).wf(),
            acted(*old(self), a, ""@, *final(self), r),
    {
        let effect = match a {
            Action::Words => {
                self.words = !self.words;
                self.menu = None;
                ActionEffect::Nothing
            },
            _ => {
                proof {
                    assert(false);
                }
                ActionEffect::Nothing
            },
        };
        ActionResult { effect, save: Some(self.preferences()) }
    }

    fn act_whitespace<M>(&mut self, a: Action<M>) -> (r: ActionResult<M>)
        requires
            old(self).wf(),
            old(self).generation < u64::MAX - 1,
            file_index(a) matches Some(i) ==> i < old(self).source.files@.len(),
            a is Whitespace,
        ensures
            final(self).wf(),
            acted(*old(self), a, ""@, *final(self), r),
    {
        let effect = match a {
            Action::Whitespace => {
                self.whitespace = !self.whitespace;
                self.menu = None;
                ActionEffect::Load(self.refresh())
            },
            _ => {
                proof {
                    assert(false);
                }
                ActionEffect::Nothing
            },
        };
        ActionResult { effect, save: Some(self.preferences()) }
    }

    fn act_split<M>(&mut self, a: Action<M>) -> (r: ActionResult<M>)
        requires
            old(self).wf(),
            old(self).generation < u64::MAX - 1,
            file_index(a) matches Some(i) ==> i < old(self).source.files@.len(),
            a is Split,
        ensures
            final(self).wf(),
            acted(*old(self), a, ""@, *final(self), r),
    {
        let effect = match a {
            Action::Split => {
                self.source.split = !self.source.split;
                self.rebuild();
                ActionEffect::Nothing
            },
            _ => {
                proof {
                    assert(false);
                }
                ActionEffect::Nothing
            },
        };
        ActionResult { effect, save: Some(self.preferences()) }
    }

    fn act_tree<M>(&mut self, a: Action<M>) -> (r: ActionResult<M>)
        requires
            old(self).wf(),
            old(self).generation < u64::MAX - 1,
            file_index(a) matches Some(i) ==> i < old(self).source.files@.len(),
            a is Tree,
        ensures
            final(self).wf(),
            acted(*old(self), a, ""@, *final(self), r),
    {
        let effect = match a {
            Action::Tree => {
                self.tree_open = !self.tree_open;
                ActionEffect::Nothing
            },
            _ => {
                proof {
                    assert(false);
                }
                ActionEffect::Nothing
            },
        };
        ActionResult { effect, save: Some(self.preferences()) }
    }

    fn act_on_git<M>(&mut self, a: Action<M>, branch_text: &str) -> (r: ActionResult<M>)
        requires
            old(self).wf(),
            old(self).generation < u64::MAX - 1,
            file_index(a) matches Some(i) ==> i < old(self).source.files@.len(),
            git_group(a),
        ensures
            final(self).wf(),
            acted(*old(self), a, branch_text@, *final(self), r),
    {
        match a {
            Action::Mutation(..) => self.act_mutation(a, branch_text),
            Action::Confirm(..) => self.act_confirm(a, branch_text),
            Action::Commit => self.act_commit(a, branch_text),
            Action::SaveCommit => self.act_save_commit(a, branch_text),
            Action::CancelDialog => self.act_cancel_dialog(a, branch_text),
            Action::CommitAll => self.act_commit_all(a, branch_text),
            Action::CommitAndPush => self.act_commit_and_push(a, branch_text),
            Action::NewBranch(..) => self.act_new_branch(a, branch_text),
            Action::PullRequest => self.act_pull_request(a, branch_text),
            Action::PrBase(..) => self.act_pr_base(a, branch_text),
            Action::OpenPr(..) => self.act_open_pr(a, branch_text),
            Action::CreatePullRequest(..) => self.act_create_pull_request(a, branch_text),
            _ => {
                proof {
                    assert(false);
                }
                ActionResult { effect: ActionEffect::Nothing, save: None }
            },
        }
    }

    fn act_mutation<M>(&mut self, a: Action<M>, branch_text: &str) -> (r: ActionResult<M>)
        requires
            old(self).wf(),
            old(self).generation < u64::MAX - 1,
            file_index(a) matches Some(i) ==> i < old(self).source.files@.len(),
            a is Mutation,
        ensures
            final(self).wf(),
            acted(*old(self), a, branch_text@, *final(self), r),
    {
        let effect = match a {
            Action::Mutation(op) => {
                if self.begin_operation() {
                    ActionEffect::Run(op)
                } else {
                    ActionEffect::Nothing
                }
            },
            _ => {
                proof {
                    assert(false);
                }
                ActionEffect::Nothing
            },
        };
        ActionResult { effect, save: None }
    }

    fn act_confirm<M>(&mut self, a: Action<M>, branch_text: &str) -> (r: ActionResult<M>)
        requires
            old(self).wf(),
            old(self).generation < u64::MAX - 1,
            file_index(a) matches Some(i) ==> i < old(self).source.files@.len(),
            a is Confirm,
        ensures
            final(self).wf(),
            acted(*old(self), a, branch_text@, *final(self), r),
    {
        let effect = match a {
            Action::Confirm(op) => {
                self.pr_open = false;
                self.menu = None;
                self.confirm_open = true;
                ActionEffect::Confirm(op)
            },
            _ => {
                proof {
                    assert(false);
                }
                ActionEffect::Nothing
            },
        };
        ActionResult { effect, save: None }
    }

    fn act_commit<M>(&mut self, a: Action<M>, branch_text: &str) -> (r: ActionResult<M>)
        requires
            old(self).wf(),
            old(self).generation < u64::MAX - 1,
            file_index(a) matches Some(i) ==> i < old(self).source.files@.len(),
            a is Commit,
        ensures
            final(self).wf(),
            acted(*old(self), a, branch_text@, *final(self), r),
    {
        let effect = match a {
            Action::Commit => ActionEffect::OpenCommit,
            _ => {
                proof {
                    assert(false);
                }
                ActionEffect::Nothing
            },
        };
        ActionResult { effect, save: None }
    }

    fn act_save_commit<M>(&mut self, a: Action<M>, branch_text: &str) -> (r: ActionResult<M>)
        requires
            old(self).wf(),
            old(self).generation < u64::MAX - 1,
            file_index(a) matches Some(i) ==> i < old(self).source.files@.len(),
            a is SaveCommit,
        ensures
            final(self).wf(),
            acted(*old(self), a, branch_text@, *final(self), r),
    {
        let effect = match a {
            Action::SaveCommit => {
                if self.commit_blocked(branch_text) {
                    ActionEffect::Nothing
                } else {
                    ActionEffect::Commit {
                        stage_all: self.commit_all,
                        branch: self.branch_choice(branch_text),
                    }
                }
            },
            _ => {
                proof {
                    assert(false);
                }
                ActionEffect::Nothing
            },
        };
        ActionResult { effect, save: None }
    }

    fn act_cancel_dialog<M>(&mut self, a: Action<M>, branch_text: &str) -> (r: ActionResult<M>)
        requires
            old(self).wf(),
            old(self).generation < u64::MAX - 1,
            file_index(a) matches Some(i) ==> i < old(self).source.files@.len(),
            a is CancelDialog,
        ensures
            final(self).wf(),
            acted(*old(self), a, branch_text@, *final(self), r),
    {
        let effect = match a {
            Action::CancelDialog => {
                self.pr_open = false;
                self.confirm_open = false;
                self.commit_open = false;
                self.focus_pending = true;
                ActionEffect::Nothing
            },
            _ => {
                proof {
                    assert(false);
                }
                ActionEffect::Nothing
            },
        };
        ActionResult { effect, save: None }
    }

    fn act_commit_all<M>(&mut self, a: Action<M>, branch_text: &str) -> (r: ActionResult<M>)
        requires
            old(self).wf(),
            old(self).generation < u64::MAX - 1,
            file_index(a) matches Some(i) ==> i < old(self).source.files@.len(),
            a is CommitAll,
        ensures
            final(self).wf(),
            acted(*old(self), a, branch_text@, *final(self), r),
    {
        let effect = match a {
            Action::CommitAll => {
                self.commit_all = !self.commit_all;
                ActionEffect::Nothing
            },
            _ => {
                proof {
                    assert(false);
                }
                ActionEffect::Nothing
            },
        };
        ActionResult { effect, save: None }
    }

    fn act_commit_and_push<M>(&mut self, a: Action<M>, branch_text: &str) -> (r: ActionResult<M>)
        requires
            old(self).wf(),
            old(self).generation < u64::MAX - 1,
            file_index(a) matches Some(i) ==> i < old(self).source.files@.len(),
            a is CommitAndPush,
        ensures
            final(self).wf(),
            acted(*old(self), a, branch_text@, *final(self), r),
    {
        let effect = match a {
            Action::CommitAndPush => {
                if self.commit_blocked(branch_text) {
                    ActionEffect::Nothing
                } else {
                    self.push_after_commit = true;
                    ActionEffect::Commit {
                        stage_all: self.commit_all,
                        branch: self.branch_choice(branch_text),
                    }
                }
            },
            _ => {
                proof {
                    assert(false);
                }
                ActionEffect::Nothing
            },
        };
        ActionResult { effect, save: None }
    }

    fn act_new_branch<M>(&mut self, a: Action<M>, branch_text: &str) -> (r: ActionResult<M>)
        requires
            old(self).wf(),
            old(self).generation < u64::MAX - 1,
            file_index(a) matches Some(i) ==> i < old(self).source.files@.len(),
            a is NewBranch,
        ensures
            final(self).wf(),
            acted(*old(self), a, branch_text@, *final(self), r),
    {
        let effect = match a {
            Action::NewBranch(new) => {
                self.set_new_branch(new);
                ActionEffect::Nothing
            },
            _ => {
                proof {
                    assert(false);
                }
                ActionEffect::Nothing
            },
        };
        ActionResult { effect, save: None }
    }

    fn act_pull_request<M>(&mut self, a: Action<M>, branch_text: &str) -> (r: ActionResult<M>)
        requires
            old(self).wf(),
            old(self).generation < u64::MAX - 1,
            file_index(a) matches Some(i) ==> i < old(self).source.files@.len(),
            a is PullRequest,
        ensures
            final(self).wf(),
            acted(*old(self), a, branch_text@, *final(self), r),
    {
        let effect = match a {
            Action::PullRequest => ActionEffect::OpenPullRequest,
            _ => {
                proof {
                    assert(false);
                }
                ActionEffect::Nothing
            },
        };
        ActionResult { effect, save: None }
    }

    fn act_pr_base<M>(&mut self, a: Action<M>, branch_text: &str) -> (r: ActionResult<M>)
        requires
            old(self).wf(),
            old(self).generation < u64::MAX - 1,
            file_index(a) matches Some(i) ==> i < old(self).source.files@.len(),
            a is PrBase,
        ensures
            final(self).wf(),
            acted(*old(self), a, branch_text@, *final(self), r),
    {
        let effect = match a {
            Action::PrBase(base) => {
                self.pr_base = base;
                self.menu = None;
                ActionEffect::Nothing
            },
            _ => {
                proof {
                    assert(false);
                }
                ActionEffect::Nothing
            },
        };
        ActionResult { effect, save: None }
    }

    fn act_open_pr<M>(&mut self, a: Action<M>, branch_text: &str) -> (r: ActionResult<M>)
        requires
            old(self).wf(),
            old(self).generation < u64::MAX - 1,
            file_index(a) matches Some(i) ==> i < old(self).source.files@.len(),
            a is OpenPr,
        ensures
            final(self).wf(),
            acted(*old(self), a, branch_text@, *final(self), r),
    {
        let effect = match a {
            Action::OpenPr(url) => ActionEffect::OpenUrl(url),
            _ => {
                proof {
                    assert(false);
                }
                ActionEffect::Nothing
            },
        };
        ActionResult { effect, save: None }
    }

    fn act_create_pull_request<M>(&mut self, a: Action<M>, branch_text: &str) -> (r: ActionResult<M>)
        requires
            old(self).wf(),
            old(self).generation < u64::MAX - 1,
            file_index(a) matches Some(i) ==> i < old(self).source.files@.len(),
            a is CreatePullRequest,
        ensures
            final(self).wf(),
            acted(*old(self), a, branch_text@, *final(self), r),
    {
        let effect = match a {
            Action::CreatePullRequest(draft) => {
                if self.commit_blocked(branch_text) {
                    ActionEffect::Nothing
                } else {
                    match self.existing_pr_for_head() {
                        Some(url) => ActionEffect::OpenUrl(url.to_owned()),
                        None => ActionEffect::CreatePullRequest {
                            draft,
                            base: self.pr_base.clone(),
                            branch: self.branch_choice(branch_text),
                            include_local: self.commit_all,
                        },
                    }
                }
            },
            _ => {
                proof {
                    assert(false);
                }
                ActionEffect::Nothing
            },
        };
        ActionResult { effect, save: None }
    }

    fn act_on_files<M>(&mut self, a: Action<M>) -> (r: ActionResult<M>)
        requires
            old(self).wf(),
            old(self).generation < u64::MAX - 1,
            file_index(a) matches Some(i) ==> i < old(self).source.files@.len(),
            other_group(a),
        ensures
            final(self).wf(),
            acted(*old(self), a, ""@, *final(self), r),
    {
        match a {
            Action::Menu(..) | Action::Scope(..) => self.act_menu_or_scope(a),
            Action::Jump(..) | Action::Toggle(..) | Action::Viewed(..) | Action::Collapse => self.act_folding(a),
            Action::SaveComment | Action::EditComment(..) | Action::CancelComment | Action::DeleteComment(..) => self.act_comment(a),
            _ => self.act_hand_over(a),
        }
    }

    /// Opening a menu, or changing the comparison.
    fn act_menu_or_scope<M>(&mut self, a: Action<M>) -> (r: ActionResult<M>)
        requires
            old(self).wf(),
            old(self).generation < u64::MAX - 1,
            file_index(a) matches Some(i) ==> i < old(self).source.files@.len(),
            a is Menu || a is Scope,
        ensures
            final(self).wf(),
            acted(*old(self), a, ""@, *final(self), r),
    {
        let effect = match a {
            Action::Menu(m) => {
                let jump = m == Menu::Jump;
                self.toggle_menu(m);
                if jump {
                    self.focus_pending = false;
                    ActionEffect::FocusJump
                } else {
                    ActionEffect::Nothing
                }
            },
            Action::Scope(s) => {
                self.history_pinned = false;
                self.last_turn = copy_files(&self.latest_turn);
                ActionEffect::Load(self.change_scope(s))
            },
            _ => {
                proof {
                    assert(false);
                }
                ActionEffect::Nothing
            },
        };
        ActionResult { effect, save: None }
    }

    /// Folding, viewing and jumping to files.
    fn act_folding<M>(&mut self, a: Action<M>) -> (r: ActionResult<M>)
        requires
            old(self).wf(),
            old(self).generation < u64::MAX - 1,
            file_index(a) matches Some(i) ==> i < old(self).source.files@.len(),
            a is Jump || a is Toggle || a is Viewed || a is Collapse,
        ensures
            final(self).wf(),
            acted(*old(self), a, ""@, *final(self), r),
    {
        let effect = match a {
            Action::Collapse => {
                self.toggle_all();
                ActionEffect::Nothing
            },
            Action::Jump(i) => ActionEffect::ScrollTo(self.jump_to(i)),
            Action::Toggle(i) => {
                self.toggle_file(i);
                ActionEffect::Nothing
            },
            Action::Viewed(i) => {
                self.toggle_viewed(i);
                ActionEffect::Nothing
            },
            _ => {
                proof {
                    assert(false);
                }
                ActionEffect::Nothing
            },
        };
        ActionResult { effect, save: None }
    }

    /// Saving, editing, cancelling and deleting comments.
    fn act_comment<M>(&mut self, a: Action<M>) -> (r: ActionResult<M>)
        requires
            old(self).wf(),
            old(self).generation < u64::MAX - 1,
            file_index(a) matches Some(i) ==> i < old(self).source.files@.len(),
            a is SaveComment || a is EditComment || a is CancelComment || a is DeleteComment,
        ensures
            final(self).wf(),
            acted(*old(self), a, ""@, *final(self), r),
    {
        let effect = match a {
            Action::SaveComment => ActionEffect::SaveComment,
            Action::EditComment(id) => ActionEffect::EditComment(id),
            Action::CancelComment => {
                self.source.draft = None;
                self.editing_comment = None;
                self.rebuild();
                self.focus_pending = true;
                ActionEffect::Nothing
            },
            Action::DeleteComment(id) => ActionEffect::Event(
                ReviewEvent::CommentsChanged(self.delete_comment(id)),
            ),
            _ => {
                proof {
                    assert(false);
                }
                ActionEffect::Nothing
            },
        };
        ActionResult { effect, save: None }
    }

    /// Controls the owner carries out: copying, opening, revealing, and the workspace's events.
    fn act_hand_over<M>(&mut self, a: Action<M>) -> (r: ActionResult<M>)
        requires
            old(self).wf(),
            old(self).generation < u64::MAX - 1,
            file_index(a) matches Some(i) ==> i < old(self).source.files@.len(),
            a is CopyPatch || a is Close || a is AddTab || a is Fullscreen || a is Copy || a is OpenTab || a is Open || a is Reveal,
        ensures
            final(self).wf(),
            acted(*old(self), a, ""@, *final(self), r),
    {
        let effect = match a {
            Action::CopyPatch => {
                self.menu = None;
                ActionEffect::CopyPatch
            },
            Action::Close => ActionEffect::Event(ReviewEvent::Close),
            Action::AddTab => ActionEffect::Event(ReviewEvent::AddTab),
            Action::Fullscreen => ActionEffect::Event(ReviewEvent::Fullscreen),
            Action::Copy(text) => {
                self.menu = None;
                ActionEffect::Copy(text)
            },
            Action::OpenTab(path) => ActionEffect::Event(ReviewEvent::OpenFile { path, line: None }),
            Action::Open(i) => {
                self.menu = None;
                ActionEffect::OpenFile(i)
            },
            Action::Reveal(i) => {
                self.menu = None;
                ActionEffect::Reveal(i)
            },
            _ => {
                proof {
                    assert(false);
                }
                ActionEffect::Nothing
            },
        };
        ActionResult { effect, save: None }
    }
}

} // verus!
