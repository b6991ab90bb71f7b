//! The review panel's keyboard: Escape, the command shortcuts, moving
//! through an open menu, copying and selecting, and scrolling.

use vstd::prelude::*;
use vstd::string::StrSliceExecFns;
use crate::review_actions::Action;
use crate::review_panel::{dismissed, menu_target, refreshed, Menu, MenuKey, ReviewPanel};
use crate::review_rows::review_rows;
use crate::selection::{selection_text, Selection, TextCursor};
use crate::text::{chars_of, same_str};

verus! {

/// A key the panel tells apart.
#[derive(Clone, Copy, Debug, PartialEq, Eq, Structural)]
pub enum PanelKey {
    Escape,
    Enter,
    Space,
    Home,
    End,
    Up,
    Down,
    PageUp,
    PageDown,
    /// A key that types one character.
    Char(char),
    Other,
}

/// A way to scroll the diff.
#[derive(Clone, Copy, Debug, PartialEq, Eq, Structural)]
pub enum ScrollKey {
    Home,
    End,
    Up,
    Down,
    PageUp,
    PageDown,
}

/// What the owner does after a key.
#[derive(Clone, Debug)]
pub enum KeyOutcome<M> {
    /// The key is not the panel's: it goes on to the rest of the window.
    Ignored,
    /// Escape dismissed something (or nothing); focus returns to the panel.
    Dismissed(bool),
    /// Act on this control with the branch field's text.
    Run(Action<M>),
    /// Save the comment being written or edited.
    SaveComment,
    /// A reload was asked for; its generation when it started.
    Reload(Option<u64>),
    /// Focus the jump field, or the file filter.
    FocusJump,
    FocusFilter,
    /// The menu's highlight moved.
    MenuMoved,
    /// Choose this entry of this menu.
    Activate(Menu, usize),
    /// Copy this text, if there is a selection.
    Copy(Option<String>),
    /// Every row is selected.
    SelectedAll,
    /// Scroll the diff.
    Scroll(ScrollKey),
}

/// The key a key name denotes.
pub open spec fn key_named(name: Seq<char>) -> PanelKey {
    if name == "escape"@ {
        PanelKey::Escape
    } else if name == "enter"@ {
        PanelKey::Enter
    } else if name == "space"@ {
        PanelKey::Space
    } else if name == "home"@ {
        PanelKey::Home
    } else if name == "end"@ {
        PanelKey::End
    } else if name == "up"@ {
        PanelKey::Up
    } else if name == "down"@ {
        PanelKey::Down
    } else if name == "pageup"@ {
        PanelKey::PageUp
    } else if name == "pagedown"@ {
        PanelKey::PageDown
    } else if name.len() == 1 {
        PanelKey::Char(name[0])
    } else {
        PanelKey::Other
    }
}

/// The key named `name` (see `key_named`).
pub fn panel_key(name: &str) -> (k: PanelKey)
    ensures
        k == key_named(name@),
{
    if same_str(name, "escape") {
        PanelKey::Escape
    } else if same_str(name, "enter") {
        PanelKey::Enter
    } else if same_str(name, "space") {
        PanelKey::Space
    } else if same_str(name, "home") {
        PanelKey::Home
    } else if same_str(name, "end") {
        PanelKey::End
    } else if same_str(name, "up") {
        PanelKey::Up
    } else if same_str(name, "down") {
        PanelKey::Down
    } else if same_str(name, "pageup") {
        PanelKey::PageUp
    } else if same_str(name, "pagedown") {
        PanelKey::PageDown
    } else {
        let chars = chars_of(name);
        if chars.len() == 1 {
            PanelKey::Char(chars[0])
        } else {
            PanelKey::Other
        }
    }
}

/// The menu key a key moves the highlight with.
pub open spec fn menu_move(key: PanelKey) -> Option<MenuKey> {
    match key {
        PanelKey::Home => Some(MenuKey::Home),
        PanelKey::End => Some(MenuKey::End),
        PanelKey::Down => Some(MenuKey::Down),
        PanelKey::Up => Some(MenuKey::Up),
        _ => None,
    }
}

/// The way a key scrolls the diff.
pub open spec fn scroll_move(key: PanelKey) -> Option<ScrollKey> {
    match key {
        PanelKey::Home => Some(ScrollKey::Home),
        PanelKey::End => Some(ScrollKey::End),
        PanelKey::Up => Some(ScrollKey::Up),
        PanelKey::Down => Some(ScrollKey::Down),
        PanelKey::PageUp => Some(ScrollKey::PageUp),
        PanelKey::PageDown => Some(ScrollKey::PageDown),
        _ => None,
    }
}

/// The selection of every row, on the new side.
pub open spec fn whole_selection(rows: int) -> Selection {
    Selection {
        anchor: TextCursor { row: 0, byte: 0 },
        head: TextCursor { row: (rows - 1) as usize, byte: usize::MAX },
        old: false,
    }
}

/// What a key does when no command shortcut took it and no field has the
/// focus: it moves through or chooses from the open menu, else copies,
/// selects all, or scrolls.
#[verifier::opaque]
pub open spec fn browsed<M>(before: ReviewPanel, key: PanelKey, cmd: bool, count: int, after: ReviewPanel, r: KeyOutcome<M>) -> bool {
    match before.menu {
        Some(m) => if menu_move(key) is Some {
            after == (ReviewPanel {
                menu_selected: menu_target(before.menu_selected as int, count, menu_move(key)->0) as usize,
                ..before
            }) && r is MenuMoved
        } else if key == PanelKey::Enter || key == PanelKey::Space {
            after == before && r == KeyOutcome::<M>::Activate(m, before.menu_selected)
        } else {
            after == before && r is Ignored
        },
        None => if cmd && key == PanelKey::Char('c') {
            after == before && (r matches KeyOutcome::Copy(t) && (match before.selection {
                None => t is None,
                Some(s) => t matches Some(x) && x@ == selection_text(before.rows@, s),
            }))
        } else if cmd && key == PanelKey::Char('a') {
            r is SelectedAll && if before.rows@.len() > 0 {
                after == (ReviewPanel { selection: Some(whole_selection(before.rows@.len() as int)), ..before })
            } else {
                after == before
            }
        } else if scroll_move(key) is Some {
            after == before && r == KeyOutcome::<M>::Scroll(scroll_move(key)->0)
        } else {
            after == before && r is Ignored
        },
    }
}

/// What key `key` does (with the command modifier when `cmd`); a field has
/// the focus when `input_focused`, the layout is narrow when `compact`, and
/// the open menu has `count` entries.
pub open spec fn keyed<M>(
    before: ReviewPanel,
    key: PanelKey,
    cmd: bool,
    input_focused: bool,
    compact: bool,
    count: int,
    after: ReviewPanel,
    r: KeyOutcome<M>,
) -> bool {
    if key == PanelKey::Escape {
        r matches KeyOutcome::Dismissed(d) && dismissed(before, after, d)
    } else if cmd && key == PanelKey::Enter && before.commit_open {
        after == before && r == KeyOutcome::<M>::Run(
            if before.pr_open {
                Action::CreatePullRequest(false)
            } else {
                Action::SaveCommit
            },
        )
    } else if cmd && key == PanelKey::Enter && (before.source.draft is Some
        || before.editing_comment is Some) {
        after == before && r is SaveComment
    } else if cmd && key == PanelKey::Char('r') {
        r matches KeyOutcome::Reload(g) && refreshed(before, after, g)
    } else if cmd && key == PanelKey::Char('f') {
        if compact {
            after == (ReviewPanel {
                menu: if before.menu == Some(Menu::Jump) {
                    None
                } else {
                    Some(Menu::Jump)
                },
                menu_selected: 0,
                focus_pending: false,
                ..before
            }) && r is FocusJump
        } else {
            after == (ReviewPanel { tree_open: true, ..before }) && r is FocusFilter
        }
    } else if input_focused {
        after == before && r is Ignored
    } else {
        browsed(before, key, cmd, count, after, r)
    }
}

/// Whether a key moving the highlight would overflow the counter.
pub open spec fn highlight_fits(p: ReviewPanel, key: PanelKey, count: int) -> bool {
    &&& key == PanelKey::Down ==> p.menu_selected < usize::MAX
    &&& key == PanelKey::Up ==> p.menu_selected + (if count > 1 {
        count
    } else {
        1
    }) <= usize::MAX
}

impl ReviewPanel {
    /// Handles a key (see `keyed`); the open menu has `count` entries.
    #[verifier::rlimit(100)]
    pub fn key_down<M>(&mut self, key: PanelKey, cmd: bool, input_focused: bool, compact: bool, count: usize) -> (r: KeyOutcome<M>)
        requires
            cmd && key == PanelKey::Char('r') ==> old(self).generation < u64::MAX,
            highlight_fits(*old(self), key, count as int),
        ensures
            keyed(*old(self), key, cmd, input_focused, compact, count as int, *final(self), r),
    {
        if key == PanelKey::Escape {
            return KeyOutcome::Dismissed(self.dismiss_transient());
        }
        if cmd && key == PanelKey::Enter && self.commit_open {
            return KeyOutcome::Run(
                if self.pr_open {
                    Action::CreatePullRequest(false)
                } else {
                    Action::SaveCommit
                },
            );
        }
        if cmd && key == PanelKey::Enter && (self.source.draft.is_some()
            || self.editing_comment.is_some()) {
            return KeyOutcome::SaveComment;
        }
        if cmd && key == PanelKey::Char('r') {
            return KeyOutcome::Reload(self.refresh());
        }
        if cmd && key == PanelKey::Char('f') {
            if compact {
                self.toggle_menu(Menu::Jump);
                self.focus_pending = false;
                return KeyOutcome::FocusJump;
            }
            self.tree_open = true;
            return KeyOutcome::FocusFilter;
        }
        if input_focused {
            return KeyOutcome::Ignored;
        }
        self.browse(key, cmd, count)
    }

    /// A key outside the fields and the command shortcuts (see `browsed`).
    fn browse<M>(&mut self, key: PanelKey, cmd: bool, count: usize) -> (r: KeyOutcome<M>)
        requires
            highlight_fits(*old(self), key, count as int),
        ensures
            browsed(*old(self), key, cmd, count as int, *final(self), r),
    {
        reveal(browsed);
        match self.menu {
            Some(m) => {
                let step = match key {
                    PanelKey::Home => Some(MenuKey::Home),
                    PanelKey::End => Some(MenuKey::End),
                    PanelKey::Down => Some(MenuKey::Down),
                    PanelKey::Up => Some(MenuKey::Up),
                    _ => None,
                };
                match step {
                    Some(k) => {
                        self.menu_key(k, count);
                        KeyOutcome::MenuMoved
                    },
                    None => if key == PanelKey::Enter || key == PanelKey::Space {
                        KeyOutcome::Activate(m, self.menu_selected)
                    } else {
                        KeyOutcome::Ignored
                    },
                }
            },
            None => {
                if cmd && key == PanelKey::Char('c') {
                    return KeyOutcome::Copy(self.copy_selection());
                }
                if cmd && key == PanelKey::Char('a') {
                    self.select_all();
                    return KeyOutcome::SelectedAll;
                }
                match key {
                    PanelKey::Home => KeyOutcome::Scroll(ScrollKey::Home),
                    PanelKey::End => KeyOutcome::Scroll(ScrollKey::End),
                    PanelKey::Up => KeyOutcome::Scroll(ScrollKey::Up),
                    PanelKey::Down => KeyOutcome::Scroll(ScrollKey::Down),
                    PanelKey::PageUp => KeyOutcome::Scroll(ScrollKey::PageUp),
                    PanelKey::PageDown => KeyOutcome::Scroll(ScrollKey::PageDown),
                    _ => KeyOutcome::Ignored,
                }
            },
        }
    }
}

} // verus!
