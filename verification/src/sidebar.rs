//! The sidebar's state: the selected project and conversation, its menus,
//! renaming and the two-step delete, the activity and archive pages, and
//! which conversations each list shows.

use vstd::prelude::*;
use vstd::string::StringExecFns;
use crate::names::{distinct_names, insert_name, remove_name};
use crate::text::{has_name, list_has_name, same_str};

verus! {

/// Conversations a project group shows before it is expanded.
pub const MAX_VISIBLE_PROJECT_THREADS: usize = 5;

/// Conversations the recent list shows.
pub const MAX_VISIBLE_RECENTS: usize = 10;

/// A project as the sidebar reads it: its id and its root folders.
#[derive(Clone, Debug)]
pub struct ProjectInfo {
    pub project_id: String,
    pub roots: Vec<String>,
}

/// What is being renamed.
#[derive(Clone, Debug)]
pub enum RenameTarget {
    Project(String),
    Thread(String),
}

/// What is about to be deleted.
#[derive(Clone, Debug)]
pub enum DeleteTarget {
    Project(String),
    Thread(String),
}

/// The sidebar asks the host to open a conversation.
#[derive(Clone, Debug)]
pub struct SelectThread {
    pub thread_id: String,
}

/// The sidebar asks the host to start a conversation in a project and
/// folder.
#[derive(Clone, Debug)]
pub struct NewConversation {
    pub project_id: Option<String>,
    pub cwd: String,
}

/// A rename the store is to carry out.
#[derive(Clone, Debug)]
pub struct RenameRequest {
    pub target: RenameTarget,
    pub name: String,
}

/// The sidebar's state.
#[derive(Clone, Debug)]
pub struct SidebarState {
    pub selected_project_id: Option<String>,
    pub selected_thread_id: Option<String>,
    pub hovered_thread_id: Option<String>,
    pub project_menu_id: Option<String>,
    pub thread_menu_id: Option<String>,
    pub delete_confirmation: Option<DeleteTarget>,
    pub rename_target: Option<RenameTarget>,
    /// The rename field is to take the focus at the next draw.
    pub rename_focus_pending: bool,
    pub projects_section_menu_open: bool,
    pub pinned_menu_open: bool,
    pub profile_menu_open: bool,
    pub activity_open: bool,
    pub archived_open: bool,
    /// Projects whose whole conversation list is shown.
    pub show_all_projects: Vec<String>,
    pub local_error: Option<String>,
}

/// The characters of an optional string.
pub open spec fn opt_view(o: Option<String>) -> Option<Seq<char>> {
    match o {
        Some(s) => Some(s@),
        None => None,
    }
}

/// The characters naming a target, and whether it is a project.
pub open spec fn delete_view(t: Option<DeleteTarget>) -> Option<(bool, Seq<char>)> {
    match t {
        Some(DeleteTarget::Project(p)) => Some((true, p@)),
        Some(DeleteTarget::Thread(p)) => Some((false, p@)),
        None => None,
    }
}

/// The first project in `projects` with id `id`.
pub open spec fn project_named(projects: Seq<ProjectInfo>, id: Seq<char>, n: int) -> Option<int>
    decreases n,
{
    if n <= 0 {
        None
    } else {
        match project_named(projects, id, n - 1) {
            Some(k) => Some(k),
            None => if projects[n - 1].project_id@ == id {
                Some(n - 1)
            } else {
                None
            },
        }
    }
}

/// Where a new conversation goes: the project (if any) and its first root,
/// else the fallback folder (the process's working folder, or nothing).
pub open spec fn conversation_target(project: Option<ProjectInfo>, fallback: Option<Seq<char>>) -> (
    Option<Seq<char>>,
    Seq<char>,
) {
    let id = match project {
        Some(p) => Some(p.project_id@),
        None => None,
    };
    let cwd = match project {
        Some(p) => if p.roots@.len() > 0 {
            p.roots@[0]@
        } else {
            match fallback {
                Some(f) => f,
                None => Seq::empty(),
            }
        },
        None => match fallback {
            Some(f) => f,
            None => Seq::empty(),
        },
    };
    (id, cwd)
}

/// How many conversations a project group with `total` of them shows.
pub open spec fn visible_count(total: int, show_all: bool) -> int {
    if show_all || total <= MAX_VISIBLE_PROJECT_THREADS {
        total
    } else {
        MAX_VISIBLE_PROJECT_THREADS as int
    }
}

/// The first `n` entries, each conversation once (at its first place), that
/// are running or failed.
pub open spec fn active_listed(ids: Seq<String>, active: Seq<bool>, n: int) -> Seq<usize>
    decreases n,
{
    if n <= 0 {
        Seq::empty()
    } else {
        let before = active_listed(ids, active, n - 1);
        if active[n - 1] && !(exists|j: int| 0 <= j < n - 1 && #[trigger] ids[j]@ == ids[n - 1]@) {
            before.push((n - 1) as usize)
        } else {
            before
        }
    }
}

/// What a delete control does (see `SidebarState::confirm_or_delete`).
pub open spec fn delete_step(before: SidebarState, target: DeleteTarget, after: SidebarState, r: Option<DeleteTarget>) -> bool {
    if delete_view(before.delete_confirmation) == delete_view(Some(target)) {
        r == Some(target) && after == (SidebarState {
            delete_confirmation: None,
            project_menu_id: None,
            thread_menu_id: None,
            ..before
        })
    } else {
        r is None && after == (SidebarState { delete_confirmation: Some(target), ..before })
    }
}

/// Deleting takes two steps: the first use of a delete control on a
/// target only asks for confirmation, and using it again on the same
/// target deletes that target.
pub proof fn lemma_delete_needs_confirmation(
    s0: SidebarState,
    target: DeleteTarget,
    s1: SidebarState,
    r1: Option<DeleteTarget>,
    s2: SidebarState,
    r2: Option<DeleteTarget>,
)
    requires
        delete_view(s0.delete_confirmation) != delete_view(Some(target)),
        delete_step(s0, target, s1, r1),
        delete_step(s1, target, s2, r2),
    ensures
        r1 is None,
        r2 == Some(target),
        s2.delete_confirmation is None,
{
}

/// A copy of an optional string.
fn copy_opt(o: &Option<String>) -> (r: Option<String>)
    ensures
        r == *o,
{
    match o {
        Some(s) => Some(s.clone()),
        None => None,
    }
}

/// Whether two delete targets name the same thing.
fn same_target(a: &DeleteTarget, b: &DeleteTarget) -> (r: bool)
    ensures
        r == (delete_view(Some(*a)) == delete_view(Some(*b))),
{
    match (a, b) {
        (DeleteTarget::Project(x), DeleteTarget::Project(y)) => same_str(x.as_str(), y.as_str()),
        (DeleteTarget::Thread(x), DeleteTarget::Thread(y)) => same_str(x.as_str(), y.as_str()),
        _ => false,
    }
}

/// Once found, the first project with an id stays the first, before `m`.
proof fn lemma_project_named_stable(projects: Seq<ProjectInfo>, id: Seq<char>, m: int, n: int)
    requires
        0 <= m <= n,
        project_named(projects, id, m) is Some,
    ensures
        project_named(projects, id, n) == project_named(projects, id, m),
        project_named(projects, id, m)->0 < m,
    decreases n,
{
    if n > m {
        lemma_project_named_stable(projects, id, m, n - 1);
    } else {
        lemma_project_named_bounded(projects, id, m);
    }
}

/// A project found among the first `n` is one of them.
proof fn lemma_project_named_bounded(projects: Seq<ProjectInfo>, id: Seq<char>, n: int)
    ensures
        project_named(projects, id, n) matches Some(j) ==> 0 <= j < n,
    decreases n,
{
    if n > 0 {
        lemma_project_named_bounded(projects, id, n - 1);
    }
}

/// The index of the first project with id `id` (see `project_named`).
fn find_project(projects: &Vec<ProjectInfo>, id: &str) -> (r: Option<usize>)
    ensures
        match project_named(projects@, id@, projects@.len() as int) {
            Some(j) => (r matches Some(x) && x == j),
            None => r is None,
        },
{
    let mut k: usize = 0;
    while k < projects.len()
        invariant
            k <= projects@.len(),
            project_named(projects@, id@, k as int) is None,
        decreases projects.len() - k,
    {
        if same_str(projects[k].project_id.as_str(), id) {
            proof {
                lemma_project_named_stable(projects@, id@, k + 1, projects@.len() as int);
            }
            return Some(k);
        }
        k = k + 1;
    }
    proof {
        lemma_project_named_bounded(projects@, id@, projects@.len() as int);
    }
    None
}

/// Where a new conversation in `project` goes (see `conversation_target`).
pub fn new_conversation_target(project: Option<&ProjectInfo>, fallback: Option<String>) -> (r: (
    Option<String>,
    String,
))
    ensures
        (opt_view(r.0), r.1@) == conversation_target(
            match project {
                Some(p) => Some(*p),
                None => None,
            },
            opt_view(fallback),
        ),
{
    let id = match project {
        Some(p) => Some(p.project_id.clone()),
        None => None,
    };
    let root = match project {
        Some(p) => if p.roots.len() > 0 {
            Some(p.roots[0].clone())
        } else {
            None
        },
        None => None,
    };
    let cwd = match root {
        Some(r) => r,
        None => match fallback {
            Some(f) => f,
            None => String::new(),
        },
    };
    (id, cwd)
}

/// The conversations that the activity page lists: of the pinned ones then
/// the recent ones (`ids`, with whether each is running or failed in
/// `active`), each running or failed one once, at its first place.
pub fn active_threads(ids: &Vec<String>, active: &Vec<bool>) -> (r: Vec<usize>)
    requires
        ids@.len() == active@.len(),
    ensures
        r@ == active_listed(ids@, active@, ids@.len() as int),
{
    let mut r: Vec<usize> = Vec::new();
    let mut i: usize = 0;
    while i < ids.len()
        invariant
            i <= ids@.len(),
            ids@.len() == active@.len(),
            r@ == active_listed(ids@, active@, i as int),
        decreases ids.len() - i,
    {
        if active[i] {
            let mut seen = false;
            let mut j: usize = 0;
            while j < i
                invariant
                    j <= i < ids@.len(),
                    seen == exists|k: int| 0 <= k < j && #[trigger] ids@[k]@ == ids@[i as int]@,
                decreases i - j,
            {
                if same_str(ids[j].as_str(), ids[i].as_str()) {
                    seen = true;
                }
                j = j + 1;
            }
            if !seen {
                r.push(i);
            }
        }
        i = i + 1;
    }
    r
}

/// The first `n` conversations of the recent list (by `ids`, with the
/// project each belongs to in `projects`) that belong to project `project`
/// (to none, for `None`) and are not pinned.
pub open spec fn listed_threads(
    ids: Seq<String>,
    projects: Seq<Option<String>>,
    pinned: Seq<String>,
    project: Option<Seq<char>>,
    n: int,
) -> Seq<usize>
    decreases n,
{
    if n <= 0 {
        Seq::empty()
    } else {
        let before = listed_threads(ids, projects, pinned, project, n - 1);
        if opt_view(projects[n - 1]) == project && !has_name(pinned, ids[n - 1]@) {
            before.push((n - 1) as usize)
        } else {
            before
        }
    }
}

/// The conversations of the recent list that belong to `project` (to no
/// project, for `None`) and are not pinned (see `listed_threads`);
/// `projects` holds the project of each conversation.
pub fn threads_of(ids: &Vec<String>, projects: &Vec<Option<String>>, pinned: &Vec<String>, project: &Option<String>) -> (r: Vec<usize>)
    requires
        ids@.len() == projects@.len(),
    ensures
        r@ == listed_threads(ids@, projects@, pinned@, opt_view(*project), ids@.len() as int),
{
    let mut r: Vec<usize> = Vec::new();
    let mut i: usize = 0;
    while i < ids.len()
        invariant
            i <= ids@.len(),
            ids@.len() == projects@.len(),
            r@ == listed_threads(ids@, projects@, pinned@, opt_view(*project), i as int),
        decreases ids.len() - i,
    {
        let same = match (&projects[i], project) {
            (Some(a), Some(b)) => same_str(a.as_str(), b.as_str()),
            (None, None) => true,
            _ => false,
        };
        if same && !list_has_name(pinned.as_slice(), ids[i].as_str()) {
            r.push(i);
        }
        i = i + 1;
    }
    r
}

/// The recent list: the first ten conversations that belong to no project
/// and are not pinned.
pub fn recent_threads(ids: &Vec<String>, projects: &Vec<Option<String>>, pinned: &Vec<String>) -> (r: Vec<usize>)
    requires
        ids@.len() == projects@.len(),
    ensures
        ({
            let all = listed_threads(ids@, projects@, pinned@, None, ids@.len() as int);
            r@ == all.take(if all.len() < MAX_VISIBLE_RECENTS {
                all.len() as int
            } else {
                MAX_VISIBLE_RECENTS as int
            })
        }),
{
    let mut all = threads_of(ids, projects, pinned, &None);
    if all.len() > MAX_VISIBLE_RECENTS {
        all.truncate(MAX_VISIBLE_RECENTS);
    }
    proof {
        assert(all@ =~= listed_threads(ids@, projects@, pinned@, None, ids@.len() as int).take(all@.len() as int));
    }
    all
}

impl SidebarState {
    /// Nothing selected, every menu and page closed.
    pub fn new() -> (r: Self)
        ensures
            r.selected_project_id is None,
            r.selected_thread_id is None,
            r.hovered_thread_id is None,
            r.project_menu_id is None,
            r.thread_menu_id is None,
            r.delete_confirmation is None,
            r.rename_target is None,
            !r.rename_focus_pending,
            !r.projects_section_menu_open,
            !r.pinned_menu_open,
            !r.profile_menu_open,
            !r.activity_open,
            !r.archived_open,
            r.show_all_projects@.len() == 0,
            r.local_error is None,
    {
        SidebarState {
            selected_project_id: None,
            selected_thread_id: None,
            hovered_thread_id: None,
            project_menu_id: None,
            thread_menu_id: None,
            delete_confirmation: None,
            rename_target: None,
            rename_focus_pending: false,
            projects_section_menu_open: false,
            pinned_menu_open: false,
            profile_menu_open: false,
            activity_open: false,
            archived_open: false,
            show_all_projects: Vec::new(),
            local_error: None,
        }
    }

    /// Closes every menu and the delete confirmation.
    pub fn close_transient_menus(&mut self)
        ensures
            *final(self) == (SidebarState {
                project_menu_id: None,
                thread_menu_id: None,
                projects_section_menu_open: false,
                pinned_menu_open: false,
                profile_menu_open: false,
                delete_confirmation: None,
                ..*old(self)
            }),
    {
        self.project_menu_id = None;
        self.thread_menu_id = None;
        self.projects_section_menu_open = false;
        self.pinned_menu_open = false;
        self.profile_menu_open = false;
        self.delete_confirmation = None;
    }

    /// Opens (or closes) the account menu, closing the others.
    pub fn set_profile_menu_open(&mut self, open: bool)
        ensures
            *final(self) == (SidebarState {
                project_menu_id: None,
                thread_menu_id: None,
                projects_section_menu_open: false,
                pinned_menu_open: false,
                profile_menu_open: open,
                delete_confirmation: None,
                ..*old(self)
            }),
    {
        self.close_transient_menus();
        self.profile_menu_open = open;
    }

    /// A click on the account row opens its menu, or closes it; `true` when
    /// it opened, so that the account and its quota are read again.
    pub fn toggle_profile_menu(&mut self) -> (refresh: bool)
        ensures
            refresh == !old(self).profile_menu_open,
            *final(self) == (SidebarState { profile_menu_open: refresh, ..*old(self) }),
    {
        self.profile_menu_open = !self.profile_menu_open;
        self.profile_menu_open
    }

    /// Opens (or closes) the activity page, closing the menus and the
    /// archive.
    pub fn set_activity_open(&mut self, open: bool)
        ensures
            *final(self) == (SidebarState {
                project_menu_id: None,
                thread_menu_id: None,
                projects_section_menu_open: false,
                pinned_menu_open: false,
                profile_menu_open: false,
                delete_confirmation: None,
                activity_open: open,
                archived_open: false,
                ..*old(self)
            }),
    {
        self.close_transient_menus();
        self.activity_open = open;
        self.archived_open = false;
    }

    /// Opens the archive page from the projects menu.
    pub fn open_archive(&mut self)
        ensures
            *final(self) == (SidebarState {
                archived_open: true,
                activity_open: false,
                projects_section_menu_open: false,
                ..*old(self)
            }),
    {
        self.archived_open = true;
        self.activity_open = false;
        self.projects_section_menu_open = false;
    }

    /// Leaves the activity or archive page.
    pub fn go_back(&mut self)
        ensures
            *final(self) == (SidebarState { activity_open: false, archived_open: false, ..*old(self) }),
    {
        self.activity_open = false;
        self.archived_open = false;
    }

    /// Marks conversation `thread_id` hovered when the recent list
    /// (`recent_ids`) holds it, else nothing.
    pub fn set_activity_hovered_thread_for_capture(&mut self, thread_id: String, recent_ids: &[String])
        ensures
            has_name(recent_ids@, thread_id@) ==> *final(self) == (SidebarState {
                hovered_thread_id: Some(thread_id),
                ..*old(self)
            }),
            !has_name(recent_ids@, thread_id@) ==> *final(self) == (SidebarState {
                hovered_thread_id: None,
                ..*old(self)
            }),
    {
        self.hovered_thread_id = if list_has_name(recent_ids, thread_id.as_str()) {
            Some(thread_id)
        } else {
            None
        };
    }

    /// Opens the projects menu.
    pub fn open_projects_section_menu_for_capture(&mut self)
        ensures
            *final(self) == (SidebarState { projects_section_menu_open: true, ..*old(self) }),
    {
        self.projects_section_menu_open = true;
    }

    /// The projects heading's button opens its menu, or closes it, and
    /// closes a project's menu.
    pub fn toggle_projects_section_menu(&mut self)
        ensures
            *final(self) == (SidebarState {
                projects_section_menu_open: !old(self).projects_section_menu_open,
                project_menu_id: None,
                ..*old(self)
            }),
    {
        self.projects_section_menu_open = !self.projects_section_menu_open;
        self.project_menu_id = None;
    }

    pub fn projects_section_menu_is_open(&self) -> (r: bool)
        ensures
            r == self.projects_section_menu_open,
    {
        self.projects_section_menu_open
    }

    pub fn project_menu_is_open(&self) -> (r: bool)
        ensures
            r == self.project_menu_id is Some,
    {
        self.project_menu_id.is_some()
    }

    pub fn pinned_menu_is_open(&self) -> (r: bool)
        ensures
            r == self.pinned_menu_open,
    {
        self.pinned_menu_open
    }

    /// Opens the menu of project `project_id`, if the snapshot has it
    /// (`project_ids`); answers whether it opened, so that the owner places
    /// it.
    pub fn open_project_menu_for_capture(&mut self, project_id: String, project_ids: &[String]) -> (r: bool)
        ensures
            r == has_name(project_ids@, project_id@),
            r ==> *final(self) == (SidebarState { project_menu_id: Some(project_id), ..*old(self) }),
            !r ==> *final(self) == *old(self),
    {
        if list_has_name(project_ids, project_id.as_str()) {
            self.project_menu_id = Some(project_id);
            true
        } else {
            false
        }
    }

    /// A right click on a conversation opens its menu, closing a project's
    /// menu and the delete confirmation.
    pub fn open_thread_menu(&mut self, thread_id: String)
        ensures
            *final(self) == (SidebarState {
                thread_menu_id: Some(thread_id),
                project_menu_id: None,
                delete_confirmation: None,
                ..*old(self)
            }),
    {
        self.thread_menu_id = Some(thread_id);
        self.project_menu_id = None;
        self.delete_confirmation = None;
    }

    /// A project's button opens its menu, closing a conversation's menu and
    /// the delete confirmation.
    pub fn open_project_menu(&mut self, project_id: String)
        ensures
            *final(self) == (SidebarState {
                project_menu_id: Some(project_id),
                thread_menu_id: None,
                delete_confirmation: None,
                ..*old(self)
            }),
    {
        self.project_menu_id = Some(project_id);
        self.thread_menu_id = None;
        self.delete_confirmation = None;
    }

    /// Shows conversation `thread_id` as selected, leaving the pages and
    /// closing the menus.
    pub fn select_thread_for_capture(&mut self, thread_id: String)
        ensures
            *final(self) == (SidebarState {
                selected_thread_id: Some(thread_id),
                activity_open: false,
                archived_open: false,
                project_menu_id: None,
                thread_menu_id: None,
                ..*old(self)
            }),
    {
        self.selected_thread_id = Some(thread_id);
        self.activity_open = false;
        self.archived_open = false;
        self.project_menu_id = None;
        self.thread_menu_id = None;
    }

    /// Selects conversation `thread_id` as `select_thread_for_capture`
    /// does, and asks the host to open it.
    pub fn select_thread(&mut self, thread_id: String) -> (e: SelectThread)
        ensures
            e.thread_id == thread_id,
            *final(self) == (SidebarState {
                selected_thread_id: Some(thread_id),
                activity_open: false,
                archived_open: false,
                project_menu_id: None,
                thread_menu_id: None,
                ..*old(self)
            }),
    {
        let e = SelectThread { thread_id: thread_id.clone() };
        self.select_thread_for_capture(thread_id);
        e
    }

    /// Starts a conversation in `project` (see `conversation_target`): the
    /// project is selected, no conversation is, and the host is asked.
    pub fn new_conversation(&mut self, project: Option<&ProjectInfo>, fallback: Option<String>) -> (e: NewConversation)
        ensures
            (opt_view(e.project_id), e.cwd@) == conversation_target(
                match project {
                    Some(p) => Some(*p),
                    None => None,
                },
                opt_view(fallback),
            ),
            final(self).selected_project_id == e.project_id,
            *final(self) == (SidebarState {
                selected_project_id: final(self).selected_project_id,
                selected_thread_id: None,
                ..*old(self)
            }),
    {
        let (project_id, cwd) = new_conversation_target(project, fallback);
        self.selected_project_id = copy_opt(&project_id);
        self.selected_thread_id = None;
        NewConversation { project_id, cwd }
    }

    /// Where the next conversation goes: the selected project (if the
    /// snapshot's `projects` has it), else the fallback folder.
    pub fn conversation_target_of(&self, projects: &Vec<ProjectInfo>, fallback: Option<String>) -> (r: (
        Option<String>,
        String,
    ))
        ensures
            (opt_view(r.0), r.1@) == conversation_target(
                match self.selected_project_id {
                    Some(id) => match project_named(projects@, id@, projects@.len() as int) {
                        Some(k) => Some(projects@[k]),
                        None => None,
                    },
                    None => None,
                },
                opt_view(fallback),
            ),
    {
        match &self.selected_project_id {
            Some(id) => {
                let key = id.as_str();
                match find_project(projects, key) {
                    Some(j) => {
                        proof {
                            lemma_project_named_bounded(projects@, key@, projects@.len() as int);
                        }
                        new_conversation_target(Some(&projects[j]), fallback)
                    },
                    None => new_conversation_target(None, fallback),
                }
            },
            None => new_conversation_target(None, fallback),
        }
    }

    /// Starts renaming `target` (the owner puts its current name in the
    /// field): the field takes the focus and the menus close.
    pub fn start_rename(&mut self, target: RenameTarget)
        ensures
            *final(self) == (SidebarState {
                rename_target: Some(target),
                rename_focus_pending: true,
                project_menu_id: None,
                thread_menu_id: None,
                delete_confirmation: None,
                ..*old(self)
            }),
    {
        self.rename_target = Some(target);
        self.rename_focus_pending = true;
        self.project_menu_id = None;
        self.thread_menu_id = None;
        self.delete_confirmation = None;
    }

    /// The rename field was submitted with `name`: the rename under way, if
    /// any, ends and is handed to the store.
    pub fn commit_rename(&mut self, name: String) -> (r: Option<RenameRequest>)
        ensures
            *final(self) == (SidebarState { rename_target: None, ..*old(self) }),
            match old(self).rename_target {
                Some(t) => r matches Some(q) && q.target == t && q.name == name,
                None => r is None,
            },
    {
        match self.rename_target.take() {
            Some(target) => Some(RenameRequest { target, name }),
            None => None,
        }
    }

    /// A delete control: the first use asks for confirmation, a second use
    /// on the same target deletes it (handed to the store) and closes the
    /// menus.
    pub fn confirm_or_delete(&mut self, target: DeleteTarget) -> (r: Option<DeleteTarget>)
        ensures
            delete_step(*old(self), target, *final(self), r),
    {
        let confirmed = match &self.delete_confirmation {
            Some(current) => same_target(current, &target),
            None => false,
        };
        if confirmed {
            self.delete_confirmation = None;
            self.project_menu_id = None;
            self.thread_menu_id = None;
            Some(target)
        } else {
            self.delete_confirmation = Some(target);
            None
        }
    }

    /// Revealing a project's folder ended with `error` (if it failed): the
    /// error is shown and the project menu closes.
    pub fn revealed_in_finder(&mut self, error: Option<String>)
        ensures
            *final(self) == (SidebarState { local_error: error, project_menu_id: None, ..*old(self) }),
    {
        self.local_error = error;
        self.project_menu_id = None;
    }

    /// The "show all" row of project `project_id` shows its whole list, or
    /// folds it back.
    pub fn toggle_show_all(&mut self, project_id: &str)
        requires
            distinct_names(old(self).show_all_projects@),
        ensures
            distinct_names(final(self).show_all_projects@),
            has_name(final(self).show_all_projects@, project_id@) == !has_name(
                old(self).show_all_projects@,
                project_id@,
            ),
            forall|y: Seq<char>|
                y != project_id@ ==> has_name(final(self).show_all_projects@, y) == has_name(
                    old(self).show_all_projects@,
                    y,
                ),
    {
        if !remove_name(&mut self.show_all_projects, project_id) {
            insert_name(&mut self.show_all_projects, project_id);
        }
    }

    /// How many of a project's `total` conversations its group shows (see
    /// `visible_count`).
    pub fn visible_threads(&self, project_id: &str, total: usize) -> (r: usize)
        ensures
            r == visible_count(total as int, has_name(self.show_all_projects@, project_id@)),
    {
        if list_has_name(self.show_all_projects.as_slice(), project_id) || total
            <= MAX_VISIBLE_PROJECT_THREADS {
            total
        } else {
            MAX_VISIBLE_PROJECT_THREADS
        }
    }

    /// Whether a resumed conversation is on screen for a capture: the
    /// snapshot's error, else whether it is the selected one, the snapshot
    /// has it (`known`), and nothing is loading.
    pub fn resumed_thread_ready_for_capture(
        &self,
        thread_id: &str,
        snapshot_error: &Option<String>,
        known: bool,
        loading: bool,
    ) -> (r: Result<bool, String>)
        ensures
            snapshot_error matches Some(e) ==> (r matches Err(m) && m@ == "侧栏数据加载失败："@ + e@),
            snapshot_error is None ==> r == Ok::<bool, String>(
                opt_view(self.selected_thread_id) == Some(thread_id@) && known && !loading,
            ),
    {
        match snapshot_error {
            Some(e) => Err(String::from_str("侧栏数据加载失败：").concat(e.as_str())),
            None => {
                let selected = match &self.selected_thread_id {
                    Some(s) => same_str(s.as_str(), thread_id),
                    None => false,
                };
                Ok(selected && known && !loading)
            },
        }
    }
}

/// What the agent supports of moving threads between sections and of
/// archiving them.
#[derive(Clone, Copy, Debug, PartialEq, Eq, Structural)]
pub struct ThreadCapabilities {
    pub section_move: bool,
    pub section_list: bool,
    pub section_create: bool,
    pub archive: bool,
    pub unarchive: bool,
}

/// Which of a thread row's buttons act.
#[derive(Clone, Copy, Debug, PartialEq, Eq, Structural)]
pub struct ThreadRowActions {
    /// Pinning (or unpinning) the thread.
    pub pin: bool,
    /// Archiving the thread, or unarchiving an archived one.
    pub archive: bool,
}

/// A thread row's buttons act unless the thread has a write pending: pinning
/// when the agent can move, list and create sections; archiving (or, for
/// an archived thread, unarchiving) when the agent supports it.
pub fn thread_row_actions(pending: bool, caps: ThreadCapabilities, archived: bool) -> (r: ThreadRowActions)
    ensures
        r.pin == (!pending && caps.section_move && caps.section_list && caps.section_create),
        r.archive == (!pending && if archived {
            caps.unarchive
        } else {
            caps.archive
        }),
{
    let can_pin = caps.section_move && caps.section_list && caps.section_create;
    let can_archive = if archived {
        caps.unarchive
    } else {
        caps.archive
    };
    ThreadRowActions { pin: !pending && can_pin, archive: !pending && can_archive }
}

} // verus!
