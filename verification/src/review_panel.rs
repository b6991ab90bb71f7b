//! The state of the workspace review panel that its actions decide: folding
//! files, marking them viewed, jumping to a file, the open menu and its
//! keyboard highlight, the single Git operation in flight, and which
//! refresh result is still current.

use vstd::prelude::*;
use vstd::string::{StrSliceExecFns, StringExecFns};
use crate::names::{
    distinct_names, insert_entry, insert_name, lookup, lookup_value, remove_entry, remove_name,
};
use crate::review_rows::{lemma_shown_file_has_header, path_shown, review_rows, ReviewRow, ReviewRowsSource};
use crate::selection::{copy_text, selection_text, Selection, TextCursor};
use crate::text::{chars_of, contains_chars, has_name, is_infix, lowercase, same_str, to_lower};

verus! {

/// The panel's popup menus.
#[derive(Clone, Copy, Debug, PartialEq, Eq, Structural)]
pub enum Menu {
    Scope,
    View,
    Git,
    Branch,
    Commits,
    Jump,
    File(usize),
    CommitBranch,
    PullRequestBase,
}

/// A key that moves the highlight of an open menu.
#[derive(Clone, Copy, Debug, PartialEq, Eq, Structural)]
pub enum MenuKey {
    Home,
    End,
    Down,
    Up,
}

/// What the panel does after a Git operation finished.
#[derive(Clone, Debug, PartialEq, Eq)]
pub struct OperationFollowUp {
    /// The operation created a pull request: its address is opened and the
    /// notice says so.
    pub opened_pull_request: bool,
    /// The notice to show otherwise.
    pub notice: Option<String>,
    /// The commit is to be pushed next.
    pub push_next: bool,
    /// The snapshot is to be reloaded.
    pub refresh: bool,
}

/// The panel's view options, as the workspace stores them.
#[derive(Clone, Copy, Debug, PartialEq, Eq, Structural)]
pub struct ReviewPreferences {
    pub split: bool,
    pub wrap: bool,
    pub load_files: bool,
    pub rich: bool,
    pub words: bool,
    pub ignore_whitespace: bool,
    pub tree_open: bool,
}

/// What the panel tells the workspace.
#[derive(Clone, Debug)]
pub enum ReviewEvent {
    Close,
    AddTab,
    Fullscreen,
    OpenFile { path: String, line: Option<usize> },
    CommentsChanged(Vec<crate::review_rows::ReviewComment>),
    PreferencesChanged(ReviewPreferences),
}

/// The review panel's state.
#[derive(Clone, Debug)]
pub struct ReviewPanel {
    pub source: ReviewRowsSource,
    pub rows: Vec<ReviewRow>,
    /// The patch each file had when it was marked viewed.
    pub viewed: Vec<(String, String)>,
    pub selected_file: usize,
    pub menu: Option<Menu>,
    pub menu_selected: usize,
    pub focus_pending: bool,
    pub loading: bool,
    pub busy: bool,
    pub generation: u64,
    pub error: Option<String>,
    pub operation_error: Option<String>,
    pub pr_existing: Option<String>,
    pub new_branch: bool,
    pub commit_open: bool,
    pub pr_open: bool,
    pub push_after_commit: bool,
    pub confirm_open: bool,
    pub editing_comment: Option<u64>,
    pub selection: Option<Selection>,
    pub wrap: bool,
    pub load_files: bool,
    pub words: bool,
    pub whitespace: bool,
    pub tree_open: bool,
    /// The panel is the one on screen.
    pub active: bool,
    pub scope: Scope,
    /// The files of the turn the panel shows in the last-turn scope.
    pub last_turn: Vec<crate::diff::FileDiff>,
    /// The newest turn's files, which replace `last_turn` unless an opened
    /// history entry is pinned.
    pub latest_turn: Vec<crate::diff::FileDiff>,
    pub history_pinned: bool,
    /// Files whose whole content is loaded around the hunks.
    pub expanded_files: Vec<String>,
    pub commit_all: bool,
    pub pr_base: String,
    pub notice: Option<String>,
    /// Counts the notices shown, so that a notice's timer clears only its
    /// own notice.
    pub notice_serial: u64,
}

/// What the panel compares.
#[derive(Clone, Debug, PartialEq, Eq)]
pub enum Scope {
    LastTurn,
    Uncommitted,
    Unstaged,
    Staged,
    Commit(String),
    Branch(String),
}

/// The indices of the first `n` files whose lowercase path contains the
/// lowercase query.
pub open spec fn matching(files: Seq<crate::diff::FileDiff>, query: Seq<char>, n: int) -> Seq<usize>
    decreases n,
{
    if n <= 0 {
        Seq::empty()
    } else if path_shown(files[n - 1].path@, query) {
        matching(files, query, n - 1).push((n - 1) as usize)
    } else {
        matching(files, query, n - 1)
    }
}

/// The index of the first header row of file `file` at or after `from`.
pub open spec fn header_row(rows: Seq<ReviewRow>, file: usize, from: int) -> Option<int>
    decreases rows.len() - from,
{
    if from < 0 || from >= rows.len() {
        None
    } else if rows[from] == ReviewRow::Header(file) {
        Some(from)
    } else {
        header_row(rows, file, from + 1)
    }
}

/// A header row of `file` at or after `from` is found.
proof fn lemma_header_found(rows: Seq<ReviewRow>, file: usize, from: int, k: int)
    requires
        0 <= from <= k < rows.len(),
        rows[k] == ReviewRow::Header(file),
    ensures
        header_row(rows, file, from) is Some,
    decreases k - from,
{
    if rows[from] != ReviewRow::Header(file) {
        lemma_header_found(rows, file, from + 1, k);
    }
}

/// Where a menu's highlight goes on `key`, among `count` entries.
pub open spec fn menu_target(selected: int, count: int, key: MenuKey) -> int {
    let n = if count > 1 {
        count
    } else {
        1
    };
    match key {
        MenuKey::Home => 0,
        MenuKey::End => if count > 0 {
            count - 1
        } else {
            0
        },
        MenuKey::Down => (selected + 1) % n,
        MenuKey::Up => (selected + n - 1) % n,
    }
}

/// What a snapshot's `files` do to the marks of viewed files: a file viewed
/// with another patch is no longer viewed nor folded; nothing else changes.
#[verifier::opaque]
pub open spec fn views_forgotten(before: ReviewPanel, files: Seq<crate::diff::FileDiff>, after: ReviewPanel) -> bool {
    &&& forall|y: Seq<char>|
        lookup(after.viewed@, y) is Some ==> lookup(after.viewed@, y) == lookup(before.viewed@, y)
    &&& forall|k: int|
        0 <= k < files.len() && #[trigger] lookup(after.viewed@, files[k].path@) is Some
            ==> lookup(after.viewed@, files[k].path@) == Some(files[k].patch@) || exists|j: int|
            0 <= j < files.len() && files[j].path@ == files[k].path@ && j != k
    &&& forall|y: Seq<char>|
        lookup(after.viewed@, y) == lookup(before.viewed@, y) ==> has_name(after.source.collapsed@, y)
            == has_name(before.source.collapsed@, y)
    &&& after == (ReviewPanel {
        viewed: after.viewed,
        source: ReviewRowsSource { collapsed: after.source.collapsed, ..before.source },
        ..before
    })
}

/// What folding file `i` (or unfolding it) does: its path's fold flips,
/// the other folds stay, and the rows are rebuilt.
pub open spec fn file_toggled(before: ReviewPanel, i: usize, after: ReviewPanel) -> bool {
    let path = before.source.files@[i as int].path@;
    &&& has_name(after.source.collapsed@, path) == !has_name(before.source.collapsed@, path)
    &&& forall|y: Seq<char>|
        y != path ==> has_name(after.source.collapsed@, y) == has_name(before.source.collapsed@, y)
    &&& after.rows@ == review_rows(after.source)
    &&& after.source.files == before.source.files
    &&& after.source.query == before.source.query
}

/// Moving a menu's highlight down and then up returns it to the entry it
/// was on.
pub proof fn lemma_menu_down_up(selected: int, count: int)
    requires
        0 <= selected < (if count > 1 {
            count
        } else {
            1
        }),
    ensures
        menu_target(menu_target(selected, count, MenuKey::Down), count, MenuKey::Up) == selected,
{
    let n = if count > 1 {
        count
    } else {
        1
    };
    if selected + 1 < n {
        assert((selected + 1) % n == selected + 1) by (nonlinear_arith)
            requires
                0 <= selected + 1 < n,
        ;
        assert((selected + 1 + n - 1) % n == selected) by (nonlinear_arith)
            requires
                0 <= selected < n,
        ;
    } else {
        assert((selected + 1) % n == 0) by (nonlinear_arith)
            requires
                selected + 1 == n,
                n > 0,
        ;
        assert((0 + n - 1) % n == selected) by (nonlinear_arith)
            requires
                selected == n - 1,
                n > 0,
        ;
    }
}

/// Folding a file twice leaves every file folded as it was.
pub proof fn lemma_fold_twice_restores(p0: ReviewPanel, i: usize, p1: ReviewPanel, p2: ReviewPanel)
    requires
        i < p0.source.files@.len(),
        file_toggled(p0, i, p1),
        file_toggled(p1, i, p2),
    ensures
        forall|y: Seq<char>| has_name(p2.source.collapsed@, y) == has_name(p0.source.collapsed@, y),
{
}

/// What folding every file does: all are unfolded when all were folded,
/// else all are folded; the rows are rebuilt.
pub open spec fn folded_all(before: ReviewPanel, after: ReviewPanel) -> bool {
    &&& before.source.collapsed@.len() == before.source.files@.len() ==> after.source.collapsed@.len() == 0
    &&& before.source.collapsed@.len() != before.source.files@.len() ==> forall|y: Seq<char>|
        has_name(after.source.collapsed@, y) <==> exists|k: int|
            0 <= k < before.source.files@.len() && #[trigger] before.source.files@[k].path@ == y
    &&& after.rows@ == review_rows(after.source)
    &&& after.source.files == before.source.files
}

/// What jumping to file `i` does: the filter is dropped unless the file
/// passes it, the file is selected and unfolded, the menu closes, and the
/// answer is the row of its header.
pub open spec fn jumped(before: ReviewPanel, i: usize, after: ReviewPanel, r: Option<usize>) -> bool {
    let path = before.source.files@[i as int].path@;
    &&& path_shown(path, before.source.query@) ==> after.source.query == before.source.query
    &&& !path_shown(path, before.source.query@) ==> after.source.query@.len() == 0
    &&& after.selected_file == i
    &&& after.menu is None
    &&& after.focus_pending
    &&& !has_name(after.source.collapsed@, path)
    &&& forall|y: Seq<char>|
        y != path ==> has_name(after.source.collapsed@, y) == has_name(before.source.collapsed@, y)
    &&& after.rows@ == review_rows(after.source)
    &&& (match r {
        Some(k) => header_row(after.rows@, i, 0) == Some(k as int),
        None => header_row(after.rows@, i, 0) is None,
    })
}

/// What marking file `i` viewed (or unmarking it) does.
pub open spec fn viewed_toggled(before: ReviewPanel, i: usize, after: ReviewPanel) -> bool {
    let file = before.source.files@[i as int];
    &&& lookup(before.viewed@, file.path@) is Some ==> {
        &&& lookup(after.viewed@, file.path@) is None
        &&& !has_name(after.source.collapsed@, file.path@)
    }
    &&& lookup(before.viewed@, file.path@) is None ==> {
        &&& lookup(after.viewed@, file.path@) == Some(file.patch@)
        &&& has_name(after.source.collapsed@, file.path@)
    }
    &&& forall|y: Seq<char>|
        y != file.path@ ==> lookup(after.viewed@, y) == lookup(before.viewed@, y) && has_name(
            after.source.collapsed@,
            y,
        ) == has_name(before.source.collapsed@, y)
    &&& after.rows@ == review_rows(after.source)
}

/// What starting a reload does: nothing while a load or an operation runs
/// (answering `None`); else loading starts under the next generation, which
/// is answered.
pub open spec fn refreshed(before: ReviewPanel, after: ReviewPanel, r: Option<u64>) -> bool {
    if before.loading || before.busy {
        r is None && after == before
    } else {
        r == Some((before.generation + 1) as u64) && after == (ReviewPanel {
            loading: true,
            generation: (before.generation + 1) as u64,
            ..before
        })
    }
}

/// What Escape does: closes the open menu, else the confirmation, else the
/// commit dialog, else drops the draft (or ends the editing of a comment,
/// which keeps the comments as they were) and rebuilds; nothing else
/// changes; `r` says whether anything was dismissed.
pub open spec fn dismissed(before: ReviewPanel, after: ReviewPanel, r: bool) -> bool {
    if before.menu is Some {
        r && after == (ReviewPanel { menu: None, ..before })
    } else if before.confirm_open {
        r && after == (ReviewPanel { confirm_open: false, ..before })
    } else if before.commit_open {
        r && after == (ReviewPanel { commit_open: false, pr_open: false, ..before })
    } else if before.source.draft is Some {
        &&& r
        &&& after == (ReviewPanel {
            source: ReviewRowsSource { draft: None, ..before.source },
            rows: after.rows,
            selection: None,
            ..before
        })
        &&& after.rows@ == review_rows(after.source)
    } else if before.editing_comment is Some {
        &&& r
        &&& after == (ReviewPanel { editing_comment: None, rows: after.rows, selection: None, ..before })
        &&& after.rows@ == review_rows(after.source)
    } else {
        !r && after == before
    }
}

/// The base branch offered for a new pull request: `main` when the
/// repository has it (locally or on `origin`), else `master`, else the
/// upstream (or the current branch) without its `origin/` prefix.
pub open spec fn base_choice(branches: Seq<String>, upstream: Option<String>, branch: Seq<char>) -> Seq<
    char,
> {
    if has_name(branches, "main"@) || has_name(branches, "origin/main"@) {
        "main"@
    } else if has_name(branches, "master"@) || has_name(branches, "origin/master"@) {
        "master"@
    } else {
        let b = match upstream {
            Some(u) => u@,
            None => branch,
        };
        strip_origin(b)
    }
}

/// `s` without every leading `origin/`.
pub open spec fn strip_origin(s: Seq<char>) -> Seq<char>
    decreases s.len(),
{
    if s.len() >= 7 && s.take(7) == "origin/"@ {
        strip_origin(s.skip(7))
    } else {
        s
    }
}

/// `s` with every leading `origin/` removed, as `trim_start_matches` does.
pub fn trim_origin(s: &str) -> (r: String)
    ensures
        r@ == strip_origin(s@),
{
    let chars = chars_of(s);
    let prefix = chars_of("origin/");
    proof {
        reveal_strlit("origin/");
    }
    let mut k: usize = 0;
    assert(chars@.skip(0) =~= chars@);
    while chars.len() >= 7 && k <= chars.len() - 7 && crate::text::chars_eq(
        slice_chars(&chars, k, k + 7).as_slice(),
        prefix.as_slice(),
    )
        invariant
            k <= chars@.len(),
            prefix@ == "origin/"@,
            prefix@.len() == 7,
            strip_origin(chars@) == strip_origin(chars@.skip(k as int)),
        decreases chars.len() - k,
    {
        proof {
            assert(chars@.skip(k as int).take(7) =~= chars@.subrange(k as int, k + 7));
            assert(chars@.skip(k as int).skip(7) =~= chars@.skip(k + 7));
        }
        k = k + 7;
    }
    proof {
        if k + 7 <= chars@.len() {
            assert(chars@.skip(k as int).take(7) =~= chars@.subrange(k as int, k + 7));
        }
    }
    let rest = s.substring_char(k, chars.len());
    assert(rest@ =~= chars@.skip(k as int));
    rest.to_owned()
}

/// `s[from..to]`.
fn slice_chars(s: &Vec<char>, from: usize, to: usize) -> (r: Vec<char>)
    requires
        from <= to <= s@.len(),
    ensures
        r@ == s@.subrange(from as int, to as int),
{
    let mut r: Vec<char> = Vec::new();
    let mut i = from;
    while i < to
        invariant
            from <= i <= to <= s@.len(),
            r@ == s@.subrange(from as int, i as int),
        decreases to - i,
    {
        r.push(s[i]);
        i = i + 1;
        assert(r@ =~= s@.subrange(from as int, i as int));
    }
    r
}

/// The base branch for a new pull request (see `base_choice`).
pub fn pull_request_base(branches: &[String], upstream: &Option<String>, branch: &str) -> (r: String)
    ensures
        r@ == base_choice(branches@, *upstream, branch@),
{
    let has_main = crate::text::list_has_name(branches, "main") || crate::text::list_has_name(
        branches,
        "origin/main",
    );
    if has_main {
        return String::from_str("main");
    }
    let has_master = crate::text::list_has_name(branches, "master")
        || crate::text::list_has_name(branches, "origin/master");
    if has_master {
        return String::from_str("master");
    }
    match upstream {
        Some(u) => trim_origin(u.as_str()),
        None => trim_origin(branch),
    }
}

impl ReviewPanel {
    /// The collapsed files and the viewed files have no repeated path.
    pub open spec fn wf(&self) -> bool {
        distinct_names(self.source.collapsed@)
    }

    /// A panel over `files`, with the default view options (file tree open,
    /// unified view, whole files loaded), its rows built.
    pub fn new(files: Vec<crate::diff::FileDiff>) -> (r: Self)
        ensures
            r.wf(),
            r.source.files@ == files@,
            r.source.query@.len() == 0,
            r.source.collapsed@.len() == 0,
            r.rows@ == review_rows(r.source),
            r.prefs() == (ReviewPreferences {
                split: false,
                wrap: false,
                load_files: true,
                rich: false,
                words: false,
                ignore_whitespace: false,
                tree_open: true,
            }),
            !r.loading && !r.busy && r.generation == 0 && r.menu is None && r.selection is None,
            r.scope == Scope::Uncommitted,
            !r.history_pinned && r.commit_all,
    {
        let source = ReviewRowsSource {
            files,
            query: String::new(),
            collapsed: Vec::new(),
            split: false,
            rich: false,
            comments: Vec::new(),
            draft: None,
        };
        let rows = source.build_rows();
        ReviewPanel {
            source,
            rows,
            viewed: Vec::new(),
            selected_file: 0,
            menu: None,
            menu_selected: 0,
            focus_pending: false,
            loading: false,
            busy: false,
            generation: 0,
            error: None,
            operation_error: None,
            pr_existing: None,
            new_branch: false,
            commit_open: false,
            pr_open: false,
            push_after_commit: false,
            confirm_open: false,
            editing_comment: None,
            selection: None,
            wrap: false,
            load_files: true,
            words: false,
            whitespace: false,
            tree_open: true,
            active: false,
            scope: Scope::Uncommitted,
            last_turn: Vec::new(),
            latest_turn: Vec::new(),
            history_pinned: false,
            expanded_files: Vec::new(),
            commit_all: true,
            pr_base: String::new(),
            notice: None,
            notice_serial: 0,
        }
    }

    /// Whether the periodic refresh reloads now: the panel is on screen and
    /// was drawn recently, and nothing is loading, running, being written or
    /// open.
    pub fn auto_refresh_due(&self, drawn_recently: bool) -> (r: bool)
        ensures
            r == (self.active && drawn_recently && !self.busy && !self.loading
                && self.source.draft is None && self.editing_comment is None && self.menu is None
                && !self.commit_open && !self.confirm_open),
    {
        self.active && drawn_recently && !self.busy && !self.loading && self.source.draft.is_none()
            && self.editing_comment.is_none() && self.menu.is_none() && !self.commit_open
            && !self.confirm_open
    }

    /// Chooses whether the pull request is made on a new branch; the menu
    /// closes.
    pub fn set_new_branch(&mut self, new: bool)
        ensures
            *final(self) == (ReviewPanel { new_branch: new, menu: None, ..*old(self) }),
    {
        self.new_branch = new;
        self.menu = None;
    }

    /// Rebuilds the rows from the current state; row indices change, so the
    /// selection is dropped.
    pub fn rebuild(&mut self)
        ensures
            final(self).rows@ == review_rows(old(self).source),
            old(self).source.query@.len() == 0 ==> lowercase(old(self).source.query@).len() == 0,
            *final(self) == (ReviewPanel { rows: final(self).rows, selection: None, ..*old(self) }),
    {
        self.selection = None;
        self.rows = self.source.build_rows();
    }

    /// The text that copying the selection takes, if there is a selection.
    pub fn copy_selection(&self) -> (r: Option<String>)
        ensures
            self.selection is None ==> r is None,
            self.selection matches Some(s) ==> r matches Some(t) && t@ == selection_text(
                self.rows@,
                s,
            ),
    {
        match self.selection {
            None => None,
            Some(s) => Some(copy_text(&self.rows, s)),
        }
    }

    /// Selects every row, on the new side, when there are rows.
    pub fn select_all(&mut self)
        ensures
            old(self).rows@.len() == 0 ==> *final(self) == *old(self),
            old(self).rows@.len() > 0 ==> *final(self) == (ReviewPanel {
                selection: Some(
                    Selection {
                        anchor: TextCursor { row: 0, byte: 0 },
                        head: TextCursor { row: (old(self).rows@.len() - 1) as usize, byte: usize::MAX },
                        old: false,
                    },
                ),
                ..*old(self)
            }),
    {
        if self.rows.len() > 0 {
            self.selection = Some(
                Selection {
                    anchor: TextCursor { row: 0, byte: 0 },
                    head: TextCursor { row: self.rows.len() - 1, byte: usize::MAX },
                    old: false,
                },
            );
        }
    }

    /// The indices of the files whose path contains `query`, ignoring case.
    pub fn matching_files(&self, query: &str) -> (r: Vec<usize>)
        ensures
            r@ == matching(self.source.files@, query@, self.source.files@.len() as int),
    {
        let q = chars_of(to_lower(query).as_str());
        let mut r: Vec<usize> = Vec::new();
        let mut i: usize = 0;
        while i < self.source.files.len()
            invariant
                i <= self.source.files@.len(),
                q@ == lowercase(query@),
                r@ == matching(self.source.files@, query@, i as int),
            decreases self.source.files.len() - i,
        {
            let p = chars_of(to_lower(self.source.files[i].path.as_str()).as_str());
            if contains_chars(&p, &q) {
                r.push(i);
            }
            i = i + 1;
        }
        r
    }

    /// Folds file `i` when it is unfolded, and the other way round, then
    /// rebuilds the rows. Nothing happens for an index past the files.
    pub fn toggle_file(&mut self, i: usize)
        requires
            old(self).wf(),
        ensures
            final(self).wf(),
            i >= old(self).source.files@.len() ==> *final(self) == *old(self),
            i < old(self).source.files@.len() ==> file_toggled(*old(self), i, *final(self)),
    {
        if i >= self.source.files.len() {
            return;
        }
        let path = self.source.files[i].path.clone();
        if !remove_name(&mut self.source.collapsed, path.as_str()) {
            insert_name(&mut self.source.collapsed, path.as_str());
        }
        self.rebuild();
    }

    /// Unfolds every file when all are folded, else folds them all; then
    /// rebuilds the rows.
    pub fn toggle_all(&mut self)
        requires
            old(self).wf(),
        ensures
            final(self).wf(),
            folded_all(*old(self), *final(self)),
    {
        if self.source.collapsed.len() == self.source.files.len() {
            self.source.collapsed = Vec::new();
        } else {
            let mut all: Vec<String> = Vec::new();
            let mut k: usize = 0;
            while k < self.source.files.len()
                invariant
                    k <= self.source.files@.len(),
                    distinct_names(all@),
                    forall|y: Seq<char>|
                        has_name(all@, y) <==> exists|j: int|
                            0 <= j < k && #[trigger] self.source.files@[j].path@ == y,
                decreases self.source.files.len() - k,
            {
                let ghost before = all@;
                insert_name(&mut all, self.source.files[k].path.as_str());
                proof {
                    assert forall|y: Seq<char>|
                        has_name(all@, y) <==> exists|j: int|
                            0 <= j < k + 1 && #[trigger] self.source.files@[j].path@ == y by {
                        if y == self.source.files@[k as int].path@ {
                            assert(has_name(all@, y));
                        } else {
                            assert(has_name(all@, y) == has_name(before, y));
                            if exists|j: int| 0 <= j < k + 1 && #[trigger] self.source.files@[j].path@ == y {
                                let j = choose|j: int| 0 <= j < k + 1 && #[trigger] self.source.files@[j].path@ == y;
                                assert(j < k);
                            }
                        }
                    }
                }
                k = k + 1;
            }
            self.source.collapsed = all;
        }
        self.rebuild();
    }

    /// Jumps to file `i`: a file the filter hides clears the filter; the
    /// file is selected and unfolded, the menu closes and the rows are
    /// rebuilt. Answers the file's header row, to scroll to. Nothing
    /// happens for an index past the files.
    pub fn jump_to(&mut self, i: usize) -> (r: Option<usize>)
        requires
            old(self).wf(),
        ensures
            final(self).wf(),
            i >= old(self).source.files@.len() ==> r is None && *final(self) == *old(self),
            i < old(self).source.files@.len() ==> jumped(*old(self), i, *final(self), r),
            i < old(self).source.files@.len() ==> r is Some,
    {
        if i >= self.source.files.len() {
            return None;
        }
        let path = self.source.files[i].path.clone();
        let q = chars_of(to_lower(self.source.query.as_str()).as_str());
        let p = chars_of(to_lower(path.as_str()).as_str());
        if !contains_chars(&p, &q) {
            self.source.query = String::new();
        }
        self.selected_file = i;
        self.menu = None;
        self.focus_pending = true;
        remove_name(&mut self.source.collapsed, path.as_str());
        self.rebuild();
        proof {
            let lp = lowercase(self.source.files@[i as int].path@);
            let lq = lowercase(self.source.query@);
            if self.source.query@.len() == 0 {
                assert(lq.len() == 0);
                assert(lp.subrange(0, 0 + lq.len() as int) =~= lq);
                assert(is_infix(lq, lp));
            }
            assert(path_shown(self.source.files@[i as int].path@, self.source.query@));
            lemma_shown_file_has_header(self.source, i as int);
            let k = choose|k: int|
                0 <= k < self.rows@.len() && #[trigger] self.rows@[k] == ReviewRow::Header(i);
            lemma_header_found(self.rows@, i, 0, k);
        }
        find_header(&self.rows, i)
    }

    /// Marks file `i` viewed (remembering its patch, and folding it), or
    /// unmarks it (unfolding it); then rebuilds the rows.
    pub fn toggle_viewed(&mut self, i: usize)
        requires
            old(self).wf(),
        ensures
            final(self).wf(),
            i >= old(self).source.files@.len() ==> *final(self) == *old(self),
            i < old(self).source.files@.len() ==> viewed_toggled(*old(self), i, *final(self)),
    {
        if i >= self.source.files.len() {
            return;
        }
        let path = self.source.files[i].path.clone();
        let patch = self.source.files[i].patch.clone();
        if remove_entry(&mut self.viewed, path.as_str()) {
            remove_name(&mut self.source.collapsed, path.as_str());
        } else {
            insert_entry(&mut self.viewed, path.as_str(), patch.as_str());
            insert_name(&mut self.source.collapsed, path.as_str());
        }
        self.rebuild();
    }

    /// A new snapshot changed some files: a file viewed with another patch
    /// is no longer viewed nor folded.
    pub fn forget_changed_views(&mut self, files: &[crate::diff::FileDiff])
        ensures
            old(self).wf() ==> final(self).wf(),
            views_forgotten(*old(self), files@, *final(self)),
            final(self).source.files == old(self).source.files,
            final(self).rows == old(self).rows,
            final(self).selection == old(self).selection,
    {
        let mut k: usize = 0;
        while k < files.len()
            invariant
                k <= files@.len(),
                distinct_names(old(self).source.collapsed@) ==> distinct_names(self.source.collapsed@),
                *self == (ReviewPanel {
                    viewed: self.viewed,
                    source: ReviewRowsSource { collapsed: self.source.collapsed, ..old(self).source },
                    ..*old(self)
                }),
                forall|y: Seq<char>|
                    lookup(self.viewed@, y) is Some ==> lookup(self.viewed@, y) == lookup(
                        old(self).viewed@,
                        y,
                    ),
                forall|j: int|
                    0 <= j < k && #[trigger] lookup(self.viewed@, files@[j].path@) is Some
                        ==> lookup(self.viewed@, files@[j].path@) == Some(files@[j].patch@)
                        || exists|x: int|
                        0 <= x < files@.len() && files@[x].path@ == files@[j].path@ && x != j,
                forall|y: Seq<char>|
                    lookup(self.viewed@, y) == lookup(old(self).viewed@, y) ==> has_name(
                        self.source.collapsed@,
                        y,
                    ) == has_name(old(self).source.collapsed@, y),
            decreases files.len() - k,
        {
            let file = &files[k];
            let stale = match lookup_value(&self.viewed, file.path.as_str()) {
                Some(p) => !same_str(p.as_str(), file.patch.as_str()),
                None => false,
            };
            if stale {
                remove_entry(&mut self.viewed, file.path.as_str());
                remove_name(&mut self.source.collapsed, file.path.as_str());
            }
            k = k + 1;
        }
        proof {
            reveal(views_forgotten);
        }
    }

    /// The pull request already open for the checked-out branch; none while
    /// a new branch is being created.
    pub fn existing_pr_for_head(&self) -> (r: Option<&str>)
        ensures
            self.new_branch ==> r is None,
            !self.new_branch ==> (match self.pr_existing {
                Some(u) => r matches Some(x) && x@ == u@,
                None => r is None,
            }),
    {
        if self.new_branch {
            return None;
        }
        match &self.pr_existing {
            Some(u) => Some(u.as_str()),
            None => None,
        }
    }

    /// The error to show: the last operation's, else the last load's.
    pub fn display_error(&self) -> (r: Option<String>)
        ensures
            r == (if self.operation_error is Some {
                self.operation_error
            } else {
                self.error
            }),
    {
        match &self.operation_error {
            Some(e) => Some(e.clone()),
            None => match &self.error {
                Some(e) => Some(e.clone()),
                None => None,
            },
        }
    }

    /// Opens menu `m`, or closes it when it is the open one; the highlight
    /// returns to the first entry.
    pub fn toggle_menu(&mut self, m: Menu)
        ensures
            *final(self) == (ReviewPanel {
                menu: if old(self).menu == Some(m) {
                    None
                } else {
                    Some(m)
                },
                menu_selected: 0,
                focus_pending: true,
                ..*old(self)
            }),
    {
        self.menu = if self.menu == Some(m) {
            None
        } else {
            Some(m)
        };
        self.menu_selected = 0;
        self.focus_pending = true;
    }

    /// Moves the highlight of the open menu, which has `count` entries.
    pub fn menu_key(&mut self, key: MenuKey, count: usize)
        requires
            key == MenuKey::Down ==> old(self).menu_selected < usize::MAX,
            key == MenuKey::Up ==> old(self).menu_selected + (if count > 1 {
                count as int
            } else {
                1
            }) <= usize::MAX,
        ensures
            *final(self) == (ReviewPanel {
                menu_selected: menu_target(old(self).menu_selected as int, count as int, key)
                    as usize,
                ..*old(self)
            }),
    {
        let n = if count > 1 {
            count
        } else {
            1
        };
        self.menu_selected = match key {
            MenuKey::Home => 0,
            MenuKey::End => if count > 0 {
                count - 1
            } else {
                0
            },
            MenuKey::Down => (self.menu_selected + 1) % n,
            MenuKey::Up => (self.menu_selected + n - 1) % n,
        };
    }

    /// Escape: closes the open menu, else the confirmation, else the commit
    /// dialog, else drops the draft (or the comment being edited) and
    /// rebuilds. Answers whether anything was dismissed.
    #[verifier::rlimit(40)]
    #[verifier::spinoff_prover]
    pub fn dismiss_transient(&mut self) -> (r: bool)
        ensures
            dismissed(*old(self), *final(self), r),
    {
        if self.menu.is_some() {
            self.menu = None;
            return true;
        }
        if self.confirm_open {
            self.confirm_open = false;
            return true;
        }
        if self.commit_open {
            self.commit_open = false;
            self.pr_open = false;
            return true;
        }
        if self.source.draft.is_some() {
            self.drop_draft();
            return true;
        }
        if self.editing_comment.is_some() {
            self.end_comment_edit();
            return true;
        }
        false
    }

    /// Drops the draft comment and rebuilds the rows.
    fn drop_draft(&mut self)
        ensures
            *final(self) == (ReviewPanel {
                source: ReviewRowsSource { draft: None, ..old(self).source },
                rows: final(self).rows,
                selection: None,
                ..*old(self)
            }),
            final(self).rows@ == review_rows(final(self).source),
    {
        self.source.draft = None;
        self.rebuild();
    }

    /// Ends the editing of a comment, which stays as it was, and rebuilds
    /// the rows.
    fn end_comment_edit(&mut self)
        ensures
            *final(self) == (ReviewPanel {
                editing_comment: None,
                rows: final(self).rows,
                selection: None,
                ..*old(self)
            }),
            final(self).rows@ == review_rows(final(self).source),
    {
        self.editing_comment = None;
        self.rebuild();
    }

    /// Starts a Git operation: `false` (changing nothing) while one is in
    /// flight; else the panel is busy and the menu, the confirmation and the
    /// last operation error are cleared.
    pub fn begin_operation(&mut self) -> (r: bool)
        ensures
            r == !old(self).busy,
            old(self).busy ==> *final(self) == *old(self),
            !old(self).busy ==> *final(self) == (ReviewPanel {
                busy: true,
                menu: None,
                confirm_open: false,
                operation_error: None,
                ..*old(self)
            }),
    {
        if self.busy {
            return false;
        }
        self.busy = true;
        self.menu = None;
        self.confirm_open = false;
        self.operation_error = None;
        true
    }

    /// Takes the result of a Git operation: `Ok` with its message (a pull
    /// request's address when it created one), or `Err`. The dialogs close
    /// on success; a commit that asked for it is pushed next, else the
    /// snapshot is reloaded. A failure is shown and cancels the push.
    pub fn finish_operation(&mut self, result: Result<String, String>) -> (r: OperationFollowUp)
        ensures
            !final(self).busy,
            match result {
                Ok(m) => {
                    let url = old(self).pr_open && m@.len() >= 8 && m@.take(8) == "https://"@;
                    &&& r.opened_pull_request == url
                    &&& (url ==> r.notice is None)
                    &&& (!url ==> r.notice == Some(m))
                    &&& !final(self).commit_open
                    &&& !final(self).pr_open
                    &&& !final(self).push_after_commit
                    &&& r.push_next == old(self).push_after_commit
                    &&& r.refresh == !old(self).push_after_commit
                    &&& final(self).operation_error == old(self).operation_error
                },
                Err(e) => {
                    &&& final(self).operation_error == Some(e)
                    &&& !final(self).push_after_commit
                    &&& !r.opened_pull_request
                    &&& r.notice is None
                    &&& !r.push_next
                    &&& r.refresh
                    &&& final(self).commit_open == old(self).commit_open
                    &&& final(self).pr_open == old(self).pr_open
                },
            },
            final(self).source == old(self).source,
            final(self).rows == old(self).rows,
    {
        self.busy = false;
        match result {
            Ok(message) => {
                let url = self.pr_open && starts_with_https(message.as_str());
                self.commit_open = false;
                self.pr_open = false;
                let push_next = self.push_after_commit;
                self.push_after_commit = false;
                OperationFollowUp {
                    opened_pull_request: url,
                    notice: if url {
                        None
                    } else {
                        Some(message)
                    },
                    push_next,
                    refresh: !push_next,
                }
            },
            Err(e) => {
                self.operation_error = Some(e);
                self.push_after_commit = false;
                OperationFollowUp {
                    opened_pull_request: false,
                    notice: None,
                    push_next: false,
                    refresh: true,
                }
            },
        }
    }

    /// Starts reloading the snapshot: answers the new generation, which the
    /// result must be handed back with, or `None` (changing nothing) while a
    /// load or an operation is running.
    pub fn refresh(&mut self) -> (r: Option<u64>)
        requires
            !(old(self).loading || old(self).busy) ==> old(self).generation < u64::MAX,
        ensures
            refreshed(*old(self), *final(self), r),
    {
        if self.loading || self.busy {
            return None;
        }
        self.loading = true;
        self.generation = self.generation + 1;
        Some(self.generation)
    }

    /// Takes the result of the load started as `generation`: a stale result
    /// is dropped (`false`); otherwise loading ends and the error is set or
    /// cleared, and `true` says the snapshot in `result` is to be taken.
    pub fn finish_refresh<S>(&mut self, generation: u64, result: &Result<S, String>) -> (r: bool)
        ensures
            generation != old(self).generation ==> !r && *final(self) == *old(self),
            generation == old(self).generation ==> {
                &&& r == result is Ok
                &&& !final(self).loading
                &&& final(self).error == (match result {
                    Ok(_) => None,
                    Err(e) => Some(*e),
                })
                &&& *final(self) == (ReviewPanel {
                    loading: false,
                    error: final(self).error,
                    ..*old(self)
                })
            },
    {
        if generation != self.generation {
            return false;
        }
        self.loading = false;
        match result {
            Ok(_) => {
                self.error = None;
                true
            },
            Err(e) => {
                self.error = Some(e.clone());
                false
            },
        }
    }

    /// The panel's view options.
    pub open spec fn prefs(&self) -> ReviewPreferences {
        ReviewPreferences {
            split: self.source.split,
            wrap: self.wrap,
            load_files: self.load_files,
            rich: self.source.rich,
            words: self.words,
            ignore_whitespace: self.whitespace,
            tree_open: self.tree_open,
        }
    }

    /// The view options as the workspace stores them.
    pub fn preferences(&self) -> (r: ReviewPreferences)
        ensures
            r == self.prefs(),
    {
        ReviewPreferences {
            split: self.source.split,
            wrap: self.wrap,
            load_files: self.load_files,
            rich: self.source.rich,
            words: self.words,
            ignore_whitespace: self.whitespace,
            tree_open: self.tree_open,
        }
    }

    /// The event that saves the view options.
    pub fn save_preferences(&self) -> (r: ReviewEvent)
        ensures
            r == ReviewEvent::PreferencesChanged(self.prefs()),
    {
        ReviewEvent::PreferencesChanged(self.preferences())
    }

    /// Takes stored view options: any load in flight is forgotten, the rows
    /// are rebuilt, and a new load starts (its generation is answered,
    /// unless an operation is running).
    pub fn apply_preferences(&mut self, p: ReviewPreferences) -> (r: Option<u64>)
        requires
            old(self).generation < u64::MAX - 1,
        ensures
            final(self).prefs() == p,
            final(self).rows@ == review_rows(final(self).source),
            final(self).source.files == old(self).source.files,
            final(self).source.query == old(self).source.query,
            final(self).source.collapsed == old(self).source.collapsed,
            old(self).busy ==> r is None && final(self).generation == old(self).generation + 1
                && !final(self).loading,
            !old(self).busy ==> r == Some((old(self).generation + 2) as u64) && final(self).loading
                && final(self).generation == old(self).generation + 2,
    {
        self.source.split = p.split;
        self.wrap = p.wrap;
        self.load_files = p.load_files;
        self.source.rich = p.rich;
        self.words = p.words;
        self.whitespace = p.ignore_whitespace;
        self.tree_open = p.tree_open;
        self.generation = self.generation + 1;
        self.loading = false;
        self.rebuild();
        self.refresh()
    }
}

/// The index of the header row of file `file`.
fn find_header(rows: &Vec<ReviewRow>, file: usize) -> (r: Option<usize>)
    ensures
        (match r {
            Some(k) => header_row(rows@, file, 0) == Some(k as int),
            None => header_row(rows@, file, 0) is None,
        }),
{
    let mut k: usize = 0;
    while k < rows.len()
        invariant
            k <= rows@.len(),
            header_row(rows@, file, 0) == header_row(rows@, file, k as int),
        decreases rows.len() - k,
    {
        match &rows[k] {
            ReviewRow::Header(n) => {
                if *n == file {
                    return Some(k);
                }
            },
            _ => {},
        }
        k = k + 1;
    }
    None
}

/// Whether `s` starts with `https://`.
fn starts_with_https(s: &str) -> (r: bool)
    ensures
        r == (s@.len() >= 8 && s@.take(8) == "https://"@),
{
    let chars = chars_of(s);
    let prefix = chars_of("https://");
    proof {
        reveal_strlit("https://");
    }
    if chars.len() < 8 {
        return false;
    }
    let head = slice_chars(&chars, 0, 8);
    assert(head@ =~= s@.take(8));
    crate::text::chars_eq(head.as_slice(), prefix.as_slice())
}

} // verus!
