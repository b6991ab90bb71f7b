//! The side-chat tab strip: which tabs exist, which one is active, the
//! add-tab menu and the close confirmation. The conversations themselves
//! live elsewhere; this state decides what each user action does to the
//! strip and what the owner has to do next.

use vstd::prelude::*;

verus! {

/// A panel the add-tab menu can open instead of a new chat.
#[derive(Clone, Copy, Debug, PartialEq, Eq, Structural)]
pub enum SideChatDestination {
    Review,
    Terminal,
    Browser,
    Files,
}

/// The number of entries of the add-tab menu: the four panels, then a new
/// chat.
pub const MENU_ENTRIES: usize = 5;

/// One tab of the strip.
#[derive(Clone, Debug)]
pub struct SideChatTab {
    pub id: u64,
    pub title: String,
    pub loading: bool,
    pub error: Option<String>,
    /// Counts the opening requests, so that a stale reply is recognised.
    pub cycle: u64,
    pub running: bool,
    pub unread: bool,
}

/// What `dismiss_transient` closed.
#[derive(Clone, Copy, Debug, PartialEq, Eq, Structural)]
pub enum Dismissal {
    Confirmation,
    Menu,
    /// Neither was open: the owner may still dismiss something else.
    Nothing,
}

/// What a close request did.
#[derive(Clone, Copy, Debug, PartialEq, Eq, Structural)]
pub enum CloseRequest {
    /// No tab has that id.
    Absent,
    /// The tab has messages: the confirmation dialog opened.
    Confirming,
    /// The tab was closed.
    Closed,
}

/// The tab strip of the side chat.
#[derive(Clone, Debug)]
pub struct SideChatPanel {
    pub tabs: Vec<SideChatTab>,
    pub active: Option<u64>,
    pub next_id: u64,
    pub visible: bool,
    pub fullscreen: bool,
    pub focus_pending: bool,
    pub menu_open: bool,
    pub menu_index: usize,
    pub close_confirmation: Option<u64>,
    pub confirm_focus_pending: bool,
    pub skip_confirmation: bool,
    pub remember_close: bool,
}

/// The index of the first tab with id `id` at or after `from`.
pub open spec fn tab_index(tabs: Seq<SideChatTab>, id: u64, from: int) -> Option<int>
    decreases tabs.len() - from,
{
    if from < 0 || from >= tabs.len() {
        None
    } else if tabs[from].id == id {
        Some(from)
    } else {
        tab_index(tabs, id, from + 1)
    }
}

/// A tab with id `id` exists.
pub open spec fn has_tab(tabs: Seq<SideChatTab>, id: u64) -> bool {
    exists|i: int| 0 <= i < tabs.len() && #[trigger] tabs[i].id == id
}

/// The ids of the tabs, in order.
pub open spec fn tab_ids(tabs: Seq<SideChatTab>) -> Seq<u64> {
    tabs.map_values(|t: SideChatTab| t.id)
}

proof fn lemma_tab_index(tabs: Seq<SideChatTab>, id: u64, from: int)
    requires
        0 <= from,
    ensures
        tab_index(tabs, id, from) matches Some(i) ==> from <= i < tabs.len() && tabs[i].id == id
            && forall|j: int| from <= j < i ==> tabs[j].id != id,
        tab_index(tabs, id, from) is None ==> forall|j: int|
            from <= j < tabs.len() ==> tabs[j].id != id,
    decreases tabs.len() - from,
{
    if from < tabs.len() && tabs[from].id != id {
        lemma_tab_index(tabs, id, from + 1);
    }
}

/// Finds the index of the tab with id `id`.
fn find_tab(tabs: &Vec<SideChatTab>, id: u64) -> (r: Option<usize>)
    ensures
        r matches Some(i) ==> tab_index(tabs@, id, 0) == Some(i as int),
        r is None ==> tab_index(tabs@, id, 0) is None,
        r matches Some(i) ==> i < tabs@.len() && tabs@[i as int].id == id,
        r is None ==> !has_tab(tabs@, id),
{
    proof {
        lemma_tab_index(tabs@, id, 0);
    }
    let mut i: usize = 0;
    while i < tabs.len()
        invariant
            i <= tabs@.len(),
            tab_index(tabs@, id, 0) == tab_index(tabs@, id, i as int),
            forall|j: int| 0 <= j < i ==> tabs@[j].id != id,
        decreases tabs.len() - i,
    {
        if tabs[i].id == id {
            return Some(i);
        }
        i = i + 1;
    }
    None
}

/// The index of the tab after (or before, going `backwards`) tab `index`,
/// round the strip.
pub open spec fn cycled(index: int, len: int, backwards: bool) -> int {
    (index + if backwards {
        len - 1
    } else {
        1
    }) % len
}

/// The dialog control focused after Tab (or Shift-Tab) from control
/// `index` of the three (remember, cancel, confirm); the confirm button
/// when none is focused.
pub open spec fn dialog_focus(index: Option<usize>, backwards: bool) -> int {
    let i = match index {
        Some(k) => k as int,
        None => 2,
    };
    (i + if backwards {
        2int
    } else {
        1int
    }) % 3
}

/// The control of the close dialog that receives focus next.
pub fn next_dialog_focus(index: Option<usize>, backwards: bool) -> (r: usize)
    requires
        index matches Some(k) ==> k < 3,
    ensures
        r == dialog_focus(index, backwards),
        r < 3,
{
    let i = match index {
        Some(k) => k,
        None => 2,
    };
    (i + if backwards {
        2
    } else {
        1
    }) % 3
}

impl SideChatPanel {
    /// Tab ids are unique and below `next_id`; there is an active tab exactly
    /// when there are tabs, and it, like a pending confirmation, names a
    /// tab; the menu's highlight is one of its entries.
    pub open spec fn wf(&self) -> bool {
        &&& forall|i: int, j: int|
            0 <= i < self.tabs@.len() && 0 <= j < self.tabs@.len() && i != j ==> #[trigger] self.tabs@[i].id
                != #[trigger] self.tabs@[j].id
        &&& forall|i: int| 0 <= i < self.tabs@.len() ==> #[trigger] self.tabs@[i].id < self.next_id
        &&& (self.active is Some <==> self.tabs@.len() > 0)
        &&& self.active matches Some(a) ==> has_tab(self.tabs@, a)
        &&& self.close_confirmation matches Some(c) ==> has_tab(self.tabs@, c)
        &&& self.menu_index < MENU_ENTRIES
    }

    /// An empty strip, shown, with nothing to focus yet.
    pub fn new(skip_confirmation: bool) -> (r: Self)
        ensures
            r.wf(),
            r.tabs@.len() == 0,
            r.active is None,
            r.next_id == 1,
            r.visible,
            !r.fullscreen,
            r.focus_pending,
            !r.menu_open,
            r.menu_index == 4,
            r.close_confirmation is None,
            r.skip_confirmation == skip_confirmation,
            !r.remember_close,
    {
        SideChatPanel {
            tabs: Vec::new(),
            active: None,
            next_id: 1,
            visible: true,
            fullscreen: false,
            focus_pending: true,
            menu_open: false,
            menu_index: 4,
            close_confirmation: None,
            confirm_focus_pending: false,
            skip_confirmation,
            remember_close: false,
        }
    }

    /// Whether the strip has no tabs.
    pub fn is_empty(&self) -> (r: bool)
        ensures
            r == (self.tabs@.len() == 0),
    {
        self.tabs.len() == 0
    }

    /// The number a new tab's title carries: none for the first tab, else
    /// one more than the tabs open.
    pub fn new_tab_number(&self) -> (r: Option<usize>)
        requires
            self.tabs@.len() < usize::MAX,
        ensures
            self.tabs@.len() == 0 ==> r is None,
            self.tabs@.len() > 0 ==> r == Some((self.tabs@.len() + 1) as usize),
    {
        if self.tabs.len() == 0 {
            None
        } else {
            Some(self.tabs.len() + 1)
        }
    }

    /// Starts (again) opening the conversation of tab `id`: its request
    /// count goes up, it is loading and its error is cleared. Answers the
    /// request's count, or `None` when no configuration is `available` or no
    /// tab has that id.
    pub fn open_tab(&mut self, id: u64, available: bool) -> (r: Option<u64>)
        requires
            old(self).wf(),
            forall|i: int|
                0 <= i < old(self).tabs@.len() && #[trigger] old(self).tabs@[i].id == id
                    ==> old(self).tabs@[i].cycle < u64::MAX,
        ensures
            final(self).wf(),
            tab_ids(final(self).tabs@) == tab_ids(old(self).tabs@),
            final(self).active == old(self).active,
            (!available || !has_tab(old(self).tabs@, id)) ==> r is None && *final(self) == *old(self),
            available && has_tab(old(self).tabs@, id) ==> {
                let i = tab_index(old(self).tabs@, id, 0)->0;
                let t = old(self).tabs@[i];
                &&& r == Some((t.cycle + 1) as u64)
                &&& final(self).tabs@ == old(self).tabs@.update(
                    i,
                    SideChatTab { cycle: (t.cycle + 1) as u64, loading: true, error: None, ..t },
                )
                &&& *final(self) == (SideChatPanel { tabs: final(self).tabs, ..*old(self) })
            },
    {
        if !available {
            return None;
        }
        let i = match find_tab(&self.tabs, id) {
            None => return None,
            Some(i) => i,
        };
        let ghost t = self.tabs@[i as int];
        let mut tab = self.tabs.remove(i);
        tab.cycle = tab.cycle + 1;
        tab.loading = true;
        tab.error = None;
        let cycle = tab.cycle;
        let ghost updated = SideChatTab { cycle: (t.cycle + 1) as u64, loading: true, error: None, ..t };
        self.tabs.insert(i, tab);
        proof {
            assert(self.tabs@ =~= old(self).tabs@.update(i as int, updated));
            assert(tab_ids(self.tabs@) =~= tab_ids(old(self).tabs@));
            assert forall|j: int| 0 <= j < self.tabs@.len() implies #[trigger] self.tabs@[j].id
                == old(self).tabs@[j].id by {}
            if let Some(a) = self.active {
                let k = choose|k: int| 0 <= k < old(self).tabs@.len() && #[trigger] old(self).tabs@[k].id == a;
                assert(self.tabs@[k].id == a);
            }
            if let Some(c) = self.close_confirmation {
                let k = choose|k: int| 0 <= k < old(self).tabs@.len() && #[trigger] old(self).tabs@[k].id == c;
                assert(self.tabs@[k].id == c);
            }
        }
        Some(cycle)
    }

    /// Opens a new chat tab titled `title` and makes it active; answers its
    /// id and opening request count, or `None` (changing nothing) when no
    /// configuration is `available`.
    pub fn new_chat(&mut self, available: bool, title: String) -> (r: Option<(u64, u64)>)
        requires
            old(self).wf(),
            old(self).next_id < u64::MAX,
        ensures
            final(self).wf(),
            !available ==> r is None && *final(self) == *old(self),
            available ==> {
                &&& r == Some((old(self).next_id, 1u64))
                &&& !has_tab(old(self).tabs@, old(self).next_id)
                &&& final(self).next_id == old(self).next_id + 1
                &&& final(self).tabs@ == old(self).tabs@.push(
                    SideChatTab {
                        id: old(self).next_id,
                        title,
                        loading: true,
                        error: None,
                        cycle: 1,
                        running: false,
                        unread: false,
                    },
                )
                &&& final(self).active == Some(old(self).next_id)
                &&& final(self).focus_pending
                &&& !final(self).menu_open
                &&& final(self).close_confirmation == old(self).close_confirmation
                &&& final(self).menu_index == old(self).menu_index
                &&& final(self).visible == old(self).visible
            },
    {
        if !available {
            return None;
        }
        let id = self.next_id;
        self.next_id = self.next_id + 1;
        let ghost before = self.tabs@;
        self.tabs.push(
            SideChatTab {
                id,
                title,
                loading: true,
                error: None,
                cycle: 0,
                running: false,
                unread: false,
            },
        );
        self.active = Some(id);
        self.focus_pending = true;
        self.menu_open = false;
        proof {
            assert(self.tabs@[before.len() as int].id == id);
            assert(!has_tab(before, id));
            if let Some(c) = self.close_confirmation {
                let k = choose|k: int| 0 <= k < before.len() && #[trigger] before[k].id == c;
                assert(self.tabs@[k].id == c);
            }
            assert forall|i: int, j: int|
                0 <= i < self.tabs@.len() && 0 <= j < self.tabs@.len() && i != j implies #[trigger] self.tabs@[i].id
                != #[trigger] self.tabs@[j].id by {
                if i < before.len() {
                    assert(self.tabs@[i] == before[i]);
                }
                if j < before.len() {
                    assert(self.tabs@[j] == before[j]);
                }
            }
            assert forall|i: int| 0 <= i < self.tabs@.len() implies #[trigger] self.tabs@[i].id
                < self.next_id by {
                if i < before.len() {
                    assert(self.tabs@[i] == before[i]);
                }
            }
            assert(tab_index(self.tabs@, id, 0) == Some(before.len() as int)) by {
                lemma_tab_index(self.tabs@, id, 0);
                if let Some(k) = tab_index(self.tabs@, id, 0) {
                    if k < before.len() {
                        assert(self.tabs@[k] == before[k]);
                    }
                }
            }
        }
        let cycle = self.open_tab(id, true);
        proof {
            assert(self.tabs@ =~= before.push(
                SideChatTab { id, title, loading: true, error: None, cycle: 1, running: false, unread: false },
            ));
        }
        match cycle {
            Some(c) => Some((id, c)),
            None => None,
        }
    }

    /// Takes the reply to request `cycle` for tab `id`: the tab stops
    /// loading and shows `error` if there is one. Answers `true`, changing
    /// nothing, when the reply is stale (the tab is gone or opened again), so
    /// that the owner closes the conversation it made.
    pub fn finish_open(&mut self, id: u64, cycle: u64, error: Option<String>) -> (stale: bool)
        requires
            old(self).wf(),
        ensures
            final(self).wf(),
            stale == !exists|i: int|
                0 <= i < old(self).tabs@.len() && #[trigger] old(self).tabs@[i].id == id
                    && old(self).tabs@[i].cycle == cycle,
            stale ==> *final(self) == *old(self),
            !stale ==> {
                let i = tab_index(old(self).tabs@, id, 0)->0;
                let t = old(self).tabs@[i];
                &&& final(self).tabs@ == old(self).tabs@.update(
                    i,
                    SideChatTab {
                        loading: false,
                        error: if error is Some {
                            error
                        } else {
                            t.error
                        },
                        ..t
                    },
                )
                &&& final(self).active == old(self).active
                &&& final(self).next_id == old(self).next_id
                &&& final(self).close_confirmation == old(self).close_confirmation
                &&& final(self).menu_index == old(self).menu_index
            },
    {
        let i = match find_tab(&self.tabs, id) {
            None => return true,
            Some(i) => i,
        };
        if self.tabs[i].cycle != cycle {
            proof {
                assert forall|k: int|
                    0 <= k < self.tabs@.len() && #[trigger] self.tabs@[k].id == id implies self.tabs@[k].cycle
                    != cycle by {
                    if k != i {
                        assert(self.tabs@[k].id != self.tabs@[i as int].id);
                    }
                }
            }
            return true;
        }
        let ghost t = self.tabs@[i as int];
        let mut tab = self.tabs.remove(i);
        tab.loading = false;
        match error {
            Some(e) => {
                tab.error = Some(e);
            },
            None => {},
        }
        self.tabs.insert(i, tab);
        proof {
            assert(tab_index(old(self).tabs@, id, 0) == Some(i as int));
            assert forall|j: int| 0 <= j < self.tabs@.len() implies #[trigger] self.tabs@[j].id
                == old(self).tabs@[j].id by {
                if j != i {
                    assert(self.tabs@[j] == old(self).tabs@[j]);
                }
            }
            self.lemma_same_ids(*old(self));
        }
        false
    }

    /// The ids of `self`'s tabs are those of `other`'s, one for one; with the
    /// same active tab, confirmation, next id and menu, `self` is well formed
    /// when `other` is.
    proof fn lemma_same_ids(&self, other: Self)
        requires
            other.wf(),
            self.tabs@.len() == other.tabs@.len(),
            forall|j: int| 0 <= j < self.tabs@.len() ==> #[trigger] self.tabs@[j].id == other.tabs@[j].id,
            self.active == other.active,
            self.close_confirmation == other.close_confirmation,
            self.next_id == other.next_id,
            self.menu_index == other.menu_index,
        ensures
            self.wf(),
            tab_ids(self.tabs@) == tab_ids(other.tabs@),
    {
        assert(tab_ids(self.tabs@) =~= tab_ids(other.tabs@));
        assert forall|i: int, j: int|
            0 <= i < self.tabs@.len() && 0 <= j < self.tabs@.len() && i != j implies #[trigger] self.tabs@[i].id
            != #[trigger] self.tabs@[j].id by {
            assert(other.tabs@[i].id != other.tabs@[j].id);
        }
        assert forall|i: int| 0 <= i < self.tabs@.len() implies #[trigger] self.tabs@[i].id
            < self.next_id by {
            assert(other.tabs@[i].id < other.next_id);
        }
        if let Some(a) = self.active {
            let k = choose|k: int| 0 <= k < other.tabs@.len() && #[trigger] other.tabs@[k].id == a;
            assert(self.tabs@[k].id == a);
        }
        if let Some(c) = self.close_confirmation {
            let k = choose|k: int| 0 <= k < other.tabs@.len() && #[trigger] other.tabs@[k].id == c;
            assert(self.tabs@[k].id == c);
        }
    }

    /// The conversation of tab `id` changed: it takes the new `title`, if
    /// any, and its running state; a tab that stops running while hidden or
    /// in the background becomes unread.
    pub fn conversation_changed(&mut self, id: u64, title: Option<String>, running: bool)
        requires
            old(self).wf(),
        ensures
            final(self).wf(),
            !has_tab(old(self).tabs@, id) ==> *final(self) == *old(self),
            has_tab(old(self).tabs@, id) ==> {
                let i = tab_index(old(self).tabs@, id, 0)->0;
                let t = old(self).tabs@[i];
                &&& final(self).tabs@ == old(self).tabs@.update(
                    i,
                    SideChatTab {
                        title: match title {
                            Some(x) => x,
                            None => t.title,
                        },
                        running,
                        unread: t.unread || (t.running && !running && (!old(self).visible
                            || old(self).active != Some(id))),
                        ..t
                    },
                )
                &&& final(self).active == old(self).active
                &&& final(self).visible == old(self).visible
            },
    {
        let i = match find_tab(&self.tabs, id) {
            None => return,
            Some(i) => i,
        };
        let background = !self.visible || self.active != Some(id);
        let mut tab = self.tabs.remove(i);
        match title {
            Some(x) => {
                tab.title = x;
            },
            None => {},
        }
        if tab.running && !running && background {
            tab.unread = true;
        }
        tab.running = running;
        self.tabs.insert(i, tab);
        proof {
            assert forall|j: int| 0 <= j < self.tabs@.len() implies #[trigger] self.tabs@[j].id
                == old(self).tabs@[j].id by {
                if j != i {
                    assert(self.tabs@[j] == old(self).tabs@[j]);
                }
            }
            self.lemma_same_ids(*old(self));
        }
    }

    /// Activates tab `id`: it is read, focused and the menu closes. Answers
    /// its index, to scroll to, or `None` (changing nothing) when no tab has
    /// that id.
    pub fn activate(&mut self, id: u64) -> (r: Option<usize>)
        requires
            old(self).wf(),
        ensures
            final(self).wf(),
            activated(*old(self), id, *final(self), r),
    {
        let i = match find_tab(&self.tabs, id) {
            None => return None,
            Some(i) => i,
        };
        let mut tab = self.tabs.remove(i);
        tab.unread = false;
        self.tabs.insert(i, tab);
        self.active = Some(id);
        self.focus_pending = true;
        self.menu_open = false;
        proof {
            assert forall|j: int| 0 <= j < self.tabs@.len() implies #[trigger] self.tabs@[j].id
                == old(self).tabs@[j].id by {
                if j != i {
                    assert(self.tabs@[j] == old(self).tabs@[j]);
                }
            }
            assert(self.tabs@[i as int].id == id);
            let mid = SideChatPanel { active: old(self).active, ..*self };
            mid.lemma_same_ids(*old(self));
            assert(self.tabs@ =~= old(self).tabs@.update(
                i as int,
                SideChatTab { unread: false, ..old(self).tabs@[i as int] },
            ));
        }
        Some(i)
    }

    /// The index of the active tab.
    pub fn active_index(&self) -> (r: Option<usize>)
        requires
            self.wf(),
        ensures
            self.active is None ==> r is None,
            self.active matches Some(a) ==> r == Some(tab_index(self.tabs@, a, 0)->0 as usize),
    {
        match self.active {
            None => None,
            Some(a) => find_tab(&self.tabs, a),
        }
    }
}

/// What activating tab `id` does: it is read, becomes the active tab, is
/// focused, and the menu closes; the answer is its index. Nothing happens
/// (`None`) when no tab has that id.
pub open spec fn activated(before: SideChatPanel, id: u64, after: SideChatPanel, r: Option<usize>) -> bool {
    if !has_tab(before.tabs@, id) {
        r is None && after == before
    } else {
        let i = tab_index(before.tabs@, id, 0)->0;
        &&& r == Some(i as usize)
        &&& after.tabs@ == before.tabs@.update(i, SideChatTab { unread: false, ..before.tabs@[i] })
        &&& after.active == Some(id)
        &&& after.focus_pending
        &&& !after.menu_open
        &&& after.close_confirmation == before.close_confirmation
        &&& after.visible == before.visible
    }
}

/// What closing tab `id` (which is open) does: the tab leaves the strip
/// and any pending confirmation ends; when it was the active one, the tab
/// that took its place (else the new last one) becomes active and is to be
/// focused; the rest stays.
pub open spec fn tab_closed(before: SideChatPanel, id: u64, after: SideChatPanel) -> bool {
    let i = tab_index(before.tabs@, id, 0)->0;
    let rest = before.tabs@.remove(i);
    &&& after.tabs@ == rest
    &&& after.close_confirmation is None
    &&& before.active == Some(id) ==> {
        &&& after.focus_pending
        &&& after.active == if rest.len() == 0 {
            None
        } else {
            Some(rest[if i < rest.len() { i } else { rest.len() - 1 }].id)
        }
    }
    &&& before.active != Some(id) ==> after.active == before.active && after.focus_pending
        == before.focus_pending
    &&& after.next_id == before.next_id
    &&& after.visible == before.visible
    &&& after.menu_open == before.menu_open
    &&& after.menu_index == before.menu_index
    &&& after.skip_confirmation == before.skip_confirmation
}

/// What asking to close tab `id` does: a tab with messages asks for
/// confirmation first, unless confirmations are skipped; any other tab
/// closes at once.
pub open spec fn close_requested(before: SideChatPanel, id: u64, has_messages: bool, after: SideChatPanel, r: CloseRequest) -> bool {
    if !has_tab(before.tabs@, id) {
        r == CloseRequest::Absent && after == before
    } else if has_messages && !before.skip_confirmation {
        &&& r == CloseRequest::Confirming
        &&& after == (SideChatPanel {
            close_confirmation: Some(id),
            remember_close: false,
            confirm_focus_pending: true,
            ..before
        })
    } else {
        &&& r == CloseRequest::Closed
        &&& tab_closed(before, id, after)
    }
}

/// What Escape does to the strip: closes the confirmation dialog, else the
/// add-tab menu, asking for the active tab to be focused.
pub open spec fn chat_dismissed(before: SideChatPanel, after: SideChatPanel, r: Dismissal) -> bool {
    if before.close_confirmation is Some {
        r == Dismissal::Confirmation && after == (SideChatPanel {
            close_confirmation: None,
            focus_pending: true,
            ..before
        })
    } else if before.menu_open {
        r == Dismissal::Menu && after == (SideChatPanel { menu_open: false, focus_pending: true, ..before })
    } else {
        r == Dismissal::Nothing && after == before
    }
}

/// Tab `id` moved from `from` to `to`, the others keeping their order.
pub open spec fn moved(tabs: Seq<SideChatTab>, from: int, to: int) -> Seq<SideChatTab> {
    tabs.remove(from).insert(to, tabs[from])
}

/// Where the `k`-th tab after a move stood before it.
pub open spec fn moved_source(from: int, to: int, k: int) -> int {
    let q = if k < to {
        k
    } else if k == to {
        -1
    } else {
        k - 1
    };
    if q < 0 {
        from
    } else if q < from {
        q
    } else {
        q + 1
    }
}

/// Where the tab at `m` stands after a move.
pub open spec fn moved_target(from: int, to: int, m: int) -> int {
    if m == from {
        to
    } else {
        let q = if m < from {
            m
        } else {
            m - 1
        };
        if q < to {
            q
        } else {
            q + 1
        }
    }
}

proof fn lemma_moved(tabs: Seq<SideChatTab>, from: int, to: int)
    requires
        0 <= from < tabs.len(),
        0 <= to < tabs.len(),
    ensures
        moved(tabs, from, to).len() == tabs.len(),
        forall|k: int|
            0 <= k < tabs.len() ==> 0 <= moved_source(from, to, k) < tabs.len() && #[trigger] moved(
                tabs,
                from,
                to,
            )[k] == tabs[moved_source(from, to, k)],
        forall|m: int|
            0 <= m < tabs.len() ==> 0 <= #[trigger] moved_target(from, to, m) < tabs.len()
                && moved_source(from, to, moved_target(from, to, m)) == m,
        forall|i: int, j: int|
            0 <= i < tabs.len() && 0 <= j < tabs.len() && i != j ==> #[trigger] moved_source(
                from,
                to,
                i,
            ) != #[trigger] moved_source(from, to, j),
{
    let r = tabs.remove(from);
    assert forall|k: int| 0 <= k < tabs.len() implies 0 <= moved_source(from, to, k) < tabs.len()
        && #[trigger] moved(tabs, from, to)[k] == tabs[moved_source(from, to, k)] by {
        if k < to {
            assert(moved(tabs, from, to)[k] == r[k]);
        } else if k > to {
            assert(moved(tabs, from, to)[k] == r[k - 1]);
        }
    }
}

/// Reordering keeps the same tabs: the ids before and after a move are the
/// same multiset.
pub proof fn lemma_moved_same_tabs(tabs: Seq<SideChatTab>, from: int, to: int)
    requires
        0 <= from < tabs.len(),
        0 <= to < tabs.len(),
    ensures
        tab_ids(moved(tabs, from, to)).to_multiset() == tab_ids(tabs).to_multiset(),
{
    let ids = tab_ids(tabs);
    let id = tabs[from].id;
    assert(tab_ids(moved(tabs, from, to)) =~= ids.remove(from).insert(to, id));
    vstd::seq_lib::to_multiset_insert(ids.remove(from), to, id);
    vstd::seq_lib::to_multiset_remove(ids, from);
    vstd::seq_lib::to_multiset_contains(ids, id);
    assert(ids[from] == id);
    assert(ids.contains(id));
    broadcast use vstd::multiset::group_multiset_axioms;
    assert(ids.to_multiset().remove(id).insert(id) =~= ids.to_multiset());
}

impl SideChatPanel {
    /// Drops tab `id` in front of tab `before` (at `before`'s place) and
    /// activates it. Nothing happens when either tab is missing.
    pub fn reorder_tab(&mut self, id: u64, before: u64) -> (r: Option<usize>)
        requires
            old(self).wf(),
        ensures
            final(self).wf(),
            !(has_tab(old(self).tabs@, id) && has_tab(old(self).tabs@, before)) ==> r is None
                && *final(self) == *old(self),
            has_tab(old(self).tabs@, id) && has_tab(old(self).tabs@, before) ==> {
                let from = tab_index(old(self).tabs@, id, 0)->0;
                let to = tab_index(old(self).tabs@, before, 0)->0;
                let order = moved(old(self).tabs@, from, to);
                &&& r == Some(to as usize)
                &&& final(self).tabs@ == order.update(to, SideChatTab { unread: false, ..order[to] })
                &&& final(self).active == Some(id)
                &&& final(self).focus_pending
                &&& !final(self).menu_open
            },
    {
        let from = match find_tab(&self.tabs, id) {
            None => return None,
            Some(i) => i,
        };
        let to = match find_tab(&self.tabs, before) {
            None => return None,
            Some(i) => i,
        };
        let ghost start = self.tabs@;
        if from != to {
            let tab = self.tabs.remove(from);
            self.tabs.insert(to, tab);
        }
        proof {
            assert(self.tabs@ =~= moved(start, from as int, to as int));
            lemma_moved(start, from as int, to as int);
            let order = self.tabs@;
            assert forall|i: int, j: int|
                0 <= i < order.len() && 0 <= j < order.len() && i != j implies #[trigger] order[i].id
                != #[trigger] order[j].id by {
                assert(order[i] == start[moved_source(from as int, to as int, i)]);
                assert(order[j] == start[moved_source(from as int, to as int, j)]);
            }
            assert forall|i: int| 0 <= i < order.len() implies #[trigger] order[i].id < self.next_id by {
                assert(order[i] == start[moved_source(from as int, to as int, i)]);
            }
            if let Some(a) = self.active {
                let m = choose|m: int| 0 <= m < start.len() && #[trigger] start[m].id == a;
                let k = moved_target(from as int, to as int, m);
                assert(order[k] == start[m]);
            }
            if let Some(c) = self.close_confirmation {
                let m = choose|m: int| 0 <= m < start.len() && #[trigger] start[m].id == c;
                let k = moved_target(from as int, to as int, m);
                assert(order[k] == start[m]);
            }
            assert(order[to as int] == start[from as int]);
            lemma_tab_index(order, id, 0);
        }
        self.activate(id)
    }

    /// The tab after the active one (before it, going `backwards`), round
    /// the strip, as Ctrl-Tab and Ctrl-Shift-Tab pick it.
    pub fn cycle_target(&self, backwards: bool) -> (r: Option<u64>)
        requires
            self.wf(),
        ensures
            self.active is None ==> r is None,
            self.active matches Some(a) ==> {
                let i = tab_index(self.tabs@, a, 0)->0;
                r == Some(self.tabs@[cycled(i, self.tabs@.len() as int, backwards)].id)
            },
    {
        let index = match self.active_index() {
            None => return None,
            Some(i) => i,
        };
        proof {
            lemma_tab_index(self.tabs@, self.active->0, 0);
        }
        let len = self.tabs.len();
        let next = if backwards {
            if index == 0 {
                len - 1
            } else {
                index - 1
            }
        } else {
            if index + 1 == len {
                0
            } else {
                index + 1
            }
        };
        proof {
            lemma_cycle_round_trip(index as int, len as int);
            if backwards {
                if index == 0 {
                    assert((0 + len - 1) % (len as int) == len - 1) by (nonlinear_arith)
                        requires
                            len > 0,
                    ;
                } else {
                    assert((index + len - 1) % (len as int) == index - 1) by (nonlinear_arith)
                        requires
                            0 < index < len,
                    ;
                }
            } else {
                if index + 1 == len {
                    assert((index + 1) % (len as int) == 0) by (nonlinear_arith)
                        requires
                            index + 1 == len,
                    ;
                } else {
                    assert((index + 1) % (len as int) == index + 1) by (nonlinear_arith)
                        requires
                            index + 1 < len,
                    ;
                }
            }
        }
        Some(self.tabs[next].id)
    }
}

impl SideChatPanel {
    /// Closes tab `id`: it leaves the strip and any confirmation is
    /// dropped. When it was active, the tab that takes its place (else the
    /// new last tab) becomes active and is focused. Answers whether a tab
    /// was closed.
    pub fn close_tab(&mut self, id: u64) -> (r: bool)
        requires
            old(self).wf(),
        ensures
            final(self).wf(),
            r == has_tab(old(self).tabs@, id),
            !r ==> *final(self) == *old(self),
            r ==> tab_closed(*old(self), id, *final(self)),
    {
        let index = match find_tab(&self.tabs, id) {
            None => return false,
            Some(i) => i,
        };
        let ghost start = self.tabs@;
        let _removed = self.tabs.remove(index);
        self.close_confirmation = None;
        if self.active == Some(id) {
            let len = self.tabs.len();
            self.active = if len == 0 {
                None
            } else {
                let k = if index < len {
                    index
                } else {
                    len - 1
                };
                Some(self.tabs[k].id)
            };
            self.focus_pending = true;
        }
        proof {
            let rest = self.tabs@;
            assert forall|a: int, b: int|
                0 <= a < rest.len() && 0 <= b < rest.len() && a != b implies #[trigger] rest[a].id
                != #[trigger] rest[b].id by {
                let sa = if a < index { a } else { a + 1 };
                let sb = if b < index { b } else { b + 1 };
                assert(rest[a] == start[sa]);
                assert(rest[b] == start[sb]);
            }
            assert forall|a: int| 0 <= a < rest.len() implies #[trigger] rest[a].id < self.next_id by {
                let sa = if a < index { a } else { a + 1 };
                assert(rest[a] == start[sa]);
            }
            if let Some(a) = self.active {
                if old(self).active == Some(id) {
                    let k = if index < rest.len() { index as int } else { rest.len() - 1 };
                    assert(rest[k].id == a);
                } else {
                    let m = choose|m: int| 0 <= m < start.len() && #[trigger] start[m].id == a;
                    assert(m != index);
                    let k = if m < index { m } else { m - 1 };
                    assert(rest[k] == start[m]);
                }
            }
            if old(self).active != Some(id) && rest.len() > 0 {
                assert(self.active is Some);
            }
            if old(self).active != Some(id) && old(self).active is Some {
                let a = old(self).active->0;
                let m = choose|m: int| 0 <= m < start.len() && #[trigger] start[m].id == a;
                assert(m != index);
                assert(rest.len() > 0);
            }
        }
        true
    }

    /// Asks to close tab `id`. A tab with messages asks for confirmation
    /// first, unless confirmations are skipped; any other tab closes at
    /// once.
    pub fn request_close(&mut self, id: u64, has_messages: bool) -> (r: CloseRequest)
        requires
            old(self).wf(),
        ensures
            final(self).wf(),
            close_requested(*old(self), id, has_messages, *final(self), r),
    {
        match find_tab(&self.tabs, id) {
            None => return CloseRequest::Absent,
            Some(_) => {},
        }
        if has_messages && !self.skip_confirmation {
            self.close_confirmation = Some(id);
            self.remember_close = false;
            self.confirm_focus_pending = true;
            CloseRequest::Confirming
        } else {
            self.close_tab(id);
            CloseRequest::Closed
        }
    }

    /// Confirms the pending close: remembers to skip confirmations when the
    /// box was ticked, then closes the tab. Answers whether the choice was
    /// remembered, or `None` when nothing was pending.
    pub fn confirm_close(&mut self) -> (r: Option<bool>)
        requires
            old(self).wf(),
        ensures
            final(self).wf(),
            old(self).close_confirmation is None ==> r is None && *final(self) == *old(self),
            old(self).close_confirmation matches Some(id) ==> {
                &&& r == Some(old(self).remember_close)
                &&& final(self).skip_confirmation == (old(self).skip_confirmation
                    || old(self).remember_close)
                &&& final(self).tabs@ == old(self).tabs@.remove(tab_index(old(self).tabs@, id, 0)->0)
                &&& final(self).close_confirmation is None
            },
    {
        match self.close_confirmation {
            None => None,
            Some(id) => {
                let remembered = self.remember_close;
                if remembered {
                    self.skip_confirmation = true;
                }
                self.close_tab(id);
                Some(remembered)
            },
        }
    }

    /// The confirmation dialog's Cancel: the dialog closes and the active
    /// tab is focused again.
    pub fn cancel_close(&mut self)
        requires
            old(self).wf(),
        ensures
            final(self).wf(),
            *final(self) == (SideChatPanel {
                close_confirmation: None,
                focus_pending: true,
                ..*old(self)
            }),
    {
        self.close_confirmation = None;
        self.focus_pending = true;
    }

    /// Ticks or unticks the dialog's "do not ask again" box.
    pub fn toggle_remember(&mut self)
        requires
            old(self).wf(),
        ensures
            final(self).wf(),
            *final(self) == (SideChatPanel { remember_close: !old(self).remember_close, ..*old(self) }),
    {
        self.remember_close = !self.remember_close;
    }

    /// Escape: closes the confirmation dialog, else the add-tab menu, and
    /// asks for the active tab to be focused; answers what it closed.
    pub fn dismiss_transient(&mut self) -> (r: Dismissal)
        requires
            old(self).wf(),
        ensures
            final(self).wf(),
            chat_dismissed(*old(self), *final(self), r),
    {
        if self.close_confirmation.is_some() {
            self.close_confirmation = None;
            self.focus_pending = true;
            return Dismissal::Confirmation;
        }
        if self.menu_open {
            self.menu_open = false;
            self.focus_pending = true;
            return Dismissal::Menu;
        }
        Dismissal::Nothing
    }

    /// Picks entry `index` of the add-tab menu and closes it: the first four
    /// open a panel; any other entry asks for a new chat (`None`).
    pub fn select_menu(&mut self, index: usize) -> (r: Option<SideChatDestination>)
        requires
            old(self).wf(),
        ensures
            final(self).wf(),
            *final(self) == (SideChatPanel { menu_open: false, ..*old(self) }),
            index == 0 ==> r == Some(SideChatDestination::Review),
            index == 1 ==> r == Some(SideChatDestination::Terminal),
            index == 2 ==> r == Some(SideChatDestination::Browser),
            index == 3 ==> r == Some(SideChatDestination::Files),
            index >= 4 ==> r is None,
    {
        self.menu_open = false;
        match index {
            0 => Some(SideChatDestination::Review),
            1 => Some(SideChatDestination::Terminal),
            2 => Some(SideChatDestination::Browser),
            3 => Some(SideChatDestination::Files),
            _ => None,
        }
    }

    /// The add-tab button: opens or closes the menu, highlighting its last
    /// entry (a new chat).
    pub fn toggle_menu(&mut self)
        requires
            old(self).wf(),
        ensures
            final(self).wf(),
            *final(self) == (SideChatPanel {
                menu_open: !old(self).menu_open,
                menu_index: 4,
                ..*old(self)
            }),
    {
        self.menu_open = !self.menu_open;
        self.menu_index = 4;
    }

    /// Enter, Space or Down on the add-tab button: opens the menu on its
    /// last entry.
    pub fn open_menu(&mut self)
        requires
            old(self).wf(),
        ensures
            final(self).wf(),
            *final(self) == (SideChatPanel { menu_open: true, menu_index: 4, ..*old(self) }),
    {
        self.menu_open = true;
        self.menu_index = 4;
    }

    /// Up in the menu: the previous entry, round the menu.
    pub fn menu_up(&mut self)
        requires
            old(self).wf(),
        ensures
            final(self).wf(),
            *final(self) == (SideChatPanel {
                menu_index: ((old(self).menu_index + 4) % 5) as usize,
                ..*old(self)
            }),
    {
        self.menu_index = (self.menu_index + 4) % 5;
    }

    /// Down or Tab in the menu: the next entry, round the menu.
    pub fn menu_down(&mut self)
        requires
            old(self).wf(),
        ensures
            final(self).wf(),
            *final(self) == (SideChatPanel {
                menu_index: ((old(self).menu_index + 1) % 5) as usize,
                ..*old(self)
            }),
    {
        self.menu_index = (self.menu_index + 1) % 5;
    }

    /// Shows or hides the panel. Hiding closes the menu and the
    /// confirmation and drops a pending focus; showing marks the active tab
    /// read.
    pub fn set_visible(&mut self, visible: bool)
        requires
            old(self).wf(),
        ensures
            final(self).wf(),
            !visible ==> *final(self) == (SideChatPanel {
                visible: false,
                menu_open: false,
                close_confirmation: None,
                focus_pending: false,
                ..*old(self)
            }),
            visible && old(self).active is None ==> *final(self) == (SideChatPanel {
                visible: true,
                ..*old(self)
            }),
            visible && old(self).active is Some ==> {
                let i = tab_index(old(self).tabs@, old(self).active->0, 0)->0;
                &&& final(self).tabs@ == old(self).tabs@.update(
                    i,
                    SideChatTab { unread: false, ..old(self).tabs@[i] },
                )
                &&& *final(self) == (SideChatPanel { visible: true, tabs: final(self).tabs, ..*old(self) })
            },
    {
        self.visible = visible;
        if !visible {
            self.menu_open = false;
            self.close_confirmation = None;
            self.focus_pending = false;
        } else {
            match self.active {
                None => {},
                Some(a) => {
                    let i = match find_tab(&self.tabs, a) {
                        None => return,
                        Some(i) => i,
                    };
                    let mut tab = self.tabs.remove(i);
                    tab.unread = false;
                    self.tabs.insert(i, tab);
                    proof {
                        assert forall|j: int| 0 <= j < self.tabs@.len() implies #[trigger] self.tabs@[j].id
                            == old(self).tabs@[j].id by {
                            if j != i {
                                assert(self.tabs@[j] == old(self).tabs@[j]);
                            }
                        }
                        self.lemma_same_ids(*old(self));
                    }
                },
            }
        }
    }

    /// Shows the panel and asks for the active tab to be focused.
    pub fn focus(&mut self)
        requires
            old(self).wf(),
        ensures
            final(self).wf(),
            *final(self) == (SideChatPanel { visible: true, focus_pending: true, ..*old(self) }),
    {
        self.visible = true;
        self.focus_pending = true;
    }

    /// Enters or leaves full screen; answers whether that changed anything.
    pub fn set_fullscreen(&mut self, fullscreen: bool) -> (changed: bool)
        requires
            old(self).wf(),
        ensures
            final(self).wf(),
            changed == (old(self).fullscreen != fullscreen),
            *final(self) == (SideChatPanel { fullscreen, ..*old(self) }),
    {
        if self.fullscreen != fullscreen {
            self.fullscreen = fullscreen;
            true
        } else {
            false
        }
    }

    /// Whether closing a tab with messages asks first.
    pub fn set_skip_confirmation(&mut self, skip: bool)
        requires
            old(self).wf(),
        ensures
            final(self).wf(),
            *final(self) == (SideChatPanel { skip_confirmation: skip, ..*old(self) }),
    {
        self.skip_confirmation = skip;
    }

    /// On a redraw: when focus is asked for and no confirmation is open,
    /// the request is taken and the active tab (if any) is the one to focus.
    pub fn take_focus(&mut self) -> (r: Option<u64>)
        requires
            old(self).wf(),
        ensures
            final(self).wf(),
            old(self).focus_pending && old(self).close_confirmation is None ==> r == old(self).active
                && *final(self) == (SideChatPanel { focus_pending: false, ..*old(self) }),
            !(old(self).focus_pending && old(self).close_confirmation is None) ==> r is None
                && *final(self) == *old(self),
    {
        if self.focus_pending && self.close_confirmation.is_none() {
            self.focus_pending = false;
            self.active
        } else {
            None
        }
    }
}

/// Ctrl-Tab, then Ctrl-Shift-Tab, comes back to the tab it started from.
pub proof fn lemma_cycle_round_trip(index: int, len: int)
    requires
        0 <= index < len,
    ensures
        cycled(cycled(index, len, false), len, true) == index,
        cycled(cycled(index, len, true), len, false) == index,
        0 <= cycled(index, len, false) < len,
        0 <= cycled(index, len, true) < len,
{
    if index + 1 < len {
        assert((index + 1) % len == index + 1) by (nonlinear_arith)
            requires
                0 <= index + 1 < len,
        ;
        assert((index + 1 + len - 1) % len == index) by (nonlinear_arith)
            requires
                0 <= index < len,
        ;
    } else {
        assert((index + 1) % len == 0) by (nonlinear_arith)
            requires
                index + 1 == len,
                len > 0,
        ;
        assert((0 + len - 1) % len == index) by (nonlinear_arith)
            requires
                index + 1 == len,
                len > 0,
        ;
    }
    if index == 0 {
        assert((index + len - 1) % len == len - 1) by (nonlinear_arith)
            requires
                index == 0,
                len > 0,
        ;
        assert((len - 1 + 1) % len == 0) by (nonlinear_arith)
            requires
                len > 0,
        ;
    } else {
        assert((index + len - 1) % len == index - 1) by (nonlinear_arith)
            requires
                0 < index < len,
        ;
        assert((index - 1 + 1) % len == index) by (nonlinear_arith)
            requires
                0 < index < len,
        ;
    }
}

/// A key the side chat handles.
#[derive(Clone, Copy, Debug, PartialEq, Eq, Structural)]
pub enum ChatKey {
    /// Command-W.
    CloseTab,
    /// Control-Tab, and with Shift.
    NextTab,
    PreviousTab,
    Escape,
    Other,
}

/// The key named `name`, with the command, control and shift modifiers.
pub open spec fn chat_key_of(name: Seq<char>, platform: bool, control: bool, shift: bool) -> ChatKey {
    if platform && name == "w"@ {
        ChatKey::CloseTab
    } else if control && name == "tab"@ {
        if shift {
            ChatKey::PreviousTab
        } else {
            ChatKey::NextTab
        }
    } else if name == "escape"@ {
        ChatKey::Escape
    } else {
        ChatKey::Other
    }
}

/// The side chat's key for a key event (see `chat_key_of`).
pub fn chat_key(name: &str, platform: bool, control: bool, shift: bool) -> (k: ChatKey)
    ensures
        k == chat_key_of(name@, platform, control, shift),
{
    if platform && crate::text::same_str(name, "w") {
        ChatKey::CloseTab
    } else if control && crate::text::same_str(name, "tab") {
        if shift {
            ChatKey::PreviousTab
        } else {
            ChatKey::NextTab
        }
    } else if crate::text::same_str(name, "escape") {
        ChatKey::Escape
    } else {
        ChatKey::Other
    }
}

/// What a key did to the side chat.
#[derive(Clone, Copy, Debug, PartialEq, Eq)]
pub enum ChatKeyOutcome {
    /// Closing the active tab was asked (nothing when no tab is active).
    Close(Option<CloseRequest>),
    /// The next (or previous) tab became active, at this index.
    Cycled(Option<usize>),
    /// Escape closed this; when it closed nothing, the owner dismisses the
    /// composers' menus.
    Dismissed(Dismissal),
    /// The key is not the side chat's.
    Ignored,
}

impl SideChatPanel {
    /// Handles a key (see `ChatKey`); `has_messages` tells whether the
    /// active tab's conversation has messages.
    pub fn handle_key(&mut self, key: ChatKey, has_messages: bool) -> (r: ChatKeyOutcome)
        requires
            old(self).wf(),
        ensures
            final(self).wf(),
            key == ChatKey::CloseTab ==> match old(self).active {
                None => r == ChatKeyOutcome::Close(None) && *final(self) == *old(self),
                Some(a) => r matches ChatKeyOutcome::Close(Some(c)) && close_requested(
                    *old(self),
                    a,
                    has_messages,
                    *final(self),
                    c,
                ),
            },
            key == ChatKey::NextTab || key == ChatKey::PreviousTab ==> match old(self).active {
                None => r == ChatKeyOutcome::Cycled(None) && *final(self) == *old(self),
                Some(a) => {
                    let i = tab_index(old(self).tabs@, a, 0)->0;
                    let next = old(self).tabs@[cycled(
                        i,
                        old(self).tabs@.len() as int,
                        key == ChatKey::PreviousTab,
                    )].id;
                    r matches ChatKeyOutcome::Cycled(x) && activated(*old(self), next, *final(self), x)
                },
            },
            key == ChatKey::Escape ==> (r matches ChatKeyOutcome::Dismissed(d) && chat_dismissed(
                *old(self),
                *final(self),
                d,
            )),
            key == ChatKey::Other ==> r == ChatKeyOutcome::Ignored && *final(self) == *old(self),
    {
        match key {
            ChatKey::CloseTab => match self.active {
                None => ChatKeyOutcome::Close(None),
                Some(a) => ChatKeyOutcome::Close(Some(self.request_close(a, has_messages))),
            },
            ChatKey::NextTab | ChatKey::PreviousTab => match self.cycle_target(key == ChatKey::PreviousTab) {
                None => ChatKeyOutcome::Cycled(None),
                Some(id) => ChatKeyOutcome::Cycled(self.activate(id)),
            },
            ChatKey::Escape => ChatKeyOutcome::Dismissed(self.dismiss_transient()),
            ChatKey::Other => ChatKeyOutcome::Ignored,
        }
    }
}

} // verus!
