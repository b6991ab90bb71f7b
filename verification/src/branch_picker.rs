//! The searchable base-branch picker of the review panel: the current
//! branch first, a case-insensitive search that keeps each ref as it is,
//! and keyboard selection among the matches.

use vstd::prelude::*;
use crate::text::{chars_of, contains_chars, is_infix, lowercase, same_str, to_lower, trim_str, trimmed};

verus! {

/// What the picker tells its owner.
#[derive(Clone, Debug, PartialEq, Eq)]
pub enum BranchPickerEvent {
    Selected(String),
    Dismissed,
}

/// A key the picker handles.
#[derive(Clone, Copy, Debug, PartialEq, Eq, Structural)]
pub enum PickerKey {
    Enter,
    Down,
    Up,
    Home,
    End,
    Escape,
}

/// The picker's state.
#[derive(Clone, Debug)]
pub struct BranchPicker {
    pub branches: Vec<String>,
    pub current: String,
    /// Indices into `branches` of the branches the search matches, in order.
    pub matches: Vec<usize>,
    pub selected: usize,
    pub keyboard_selection: bool,
    pub focus_pending: bool,
}

/// A branch matches when the trimmed, lowercase query occurs in its
/// lowercase name.
pub open spec fn branch_matches(branch: Seq<char>, query: Seq<char>) -> bool {
    is_infix(lowercase(trimmed(query)), lowercase(branch))
}

/// The indices of the first `n` branches the query matches.
pub open spec fn matches_of(branches: Seq<String>, query: Seq<char>, n: int) -> Seq<usize>
    decreases n,
{
    if n <= 0 {
        Seq::empty()
    } else if branch_matches(branches[n - 1]@, query) {
        matches_of(branches, query, n - 1).push((n - 1) as usize)
    } else {
        matches_of(branches, query, n - 1)
    }
}

/// The branches with the first one named `current` moved to the front.
pub open spec fn current_first(branches: Seq<String>, current: Seq<char>) -> Seq<String> {
    match first_named(branches, current, 0) {
        Some(i) => seq![branches[i]] + branches.remove(i),
        None => branches,
    }
}

/// The index of the first branch named `name` at or after `from`.
pub open spec fn first_named(branches: Seq<String>, name: Seq<char>, from: int) -> Option<int>
    decreases branches.len() - from,
{
    if from < 0 || from >= branches.len() {
        None
    } else if branches[from]@ == name {
        Some(from)
    } else {
        first_named(branches, name, from + 1)
    }
}

/// Where the highlight goes on `key` among `count` matches; Home and End
/// only move it while the search field is not focused.
pub open spec fn picker_target(selected: int, count: int, key: PickerKey, input_focused: bool) -> int {
    let n = if count > 1 {
        count
    } else {
        1
    };
    match key {
        PickerKey::Down => (selected + 1) % n,
        PickerKey::Up => (selected + n - 1) % n,
        PickerKey::Home => if input_focused {
            selected
        } else {
            0
        },
        PickerKey::End => if input_focused {
            selected
        } else if count > 0 {
            count - 1
        } else {
            0
        },
        _ => selected,
    }
}

/// The index of the first branch named `name`.
fn find_named(list: &Vec<String>, name: &str) -> (r: Option<usize>)
    ensures
        (match r {
            Some(i) => first_named(list@, name@, 0) == Some(i as int) && i < list@.len(),
            None => first_named(list@, name@, 0) is None,
        }),
{
    let mut i: usize = 0;
    while i < list.len()
        invariant
            i <= list@.len(),
            first_named(list@, name@, 0) == first_named(list@, name@, i as int),
        decreases list.len() - i,
    {
        if same_str(list[i].as_str(), name) {
            return Some(i);
        }
        i = i + 1;
    }
    None
}

impl BranchPicker {
    /// An empty picker.
    pub fn new() -> (r: Self)
        ensures
            r.branches@.len() == 0,
            r.current@.len() == 0,
            r.matches@.len() == 0,
            r.selected == 0,
            !r.keyboard_selection,
            !r.focus_pending,
    {
        BranchPicker {
            branches: Vec::new(),
            current: String::new(),
            matches: Vec::new(),
            selected: 0,
            keyboard_selection: false,
            focus_pending: false,
        }
    }

    /// Every match points at a branch.
    pub open spec fn wf(&self) -> bool {
        forall|k: int| 0 <= k < self.matches@.len() ==> #[trigger] self.matches@[k] < self.branches@.len()
    }

    /// Matches the branches against `query`; the highlight returns to the
    /// first match.
    pub fn filter(&mut self, query: &str)
        ensures
            final(self).wf(),
            final(self).matches@ == matches_of(
                old(self).branches@,
                query@,
                old(self).branches@.len() as int,
            ),
            final(self).selected == 0,
            !final(self).keyboard_selection,
            final(self).branches == old(self).branches,
            final(self).current == old(self).current,
            final(self).focus_pending == old(self).focus_pending,
    {
        let q = chars_of(to_lower(trim_str(query).as_str()).as_str());
        let mut matches: Vec<usize> = Vec::new();
        let mut i: usize = 0;
        while i < self.branches.len()
            invariant
                i <= self.branches@.len(),
                q@ == lowercase(trimmed(query@)),
                matches@ == matches_of(self.branches@, query@, i as int),
                forall|k: int| 0 <= k < matches@.len() ==> #[trigger] matches@[k] < i,
            decreases self.branches.len() - i,
        {
            let name = chars_of(to_lower(self.branches[i].as_str()).as_str());
            if contains_chars(&name, &q) {
                matches.push(i);
            }
            i = i + 1;
        }
        self.matches = matches;
        self.selected = 0;
        self.keyboard_selection = false;
    }

    /// Shows `branches` with `current` (when present) first, clears the
    /// search so that every branch matches, and asks for the search field
    /// to be focused.
    pub fn prepare(&mut self, branches: &[String], current: &str)
        ensures
            final(self).wf(),
            final(self).branches@ == current_first(branches@, current@),
            final(self).current@ == current@,
            final(self).matches@ == matches_of(
                final(self).branches@,
                ""@,
                final(self).branches@.len() as int,
            ),
            final(self).selected == 0,
            final(self).focus_pending,
    {
        let mut list: Vec<String> = Vec::new();
        let mut k: usize = 0;
        while k < branches.len()
            invariant
                k <= branches@.len(),
                list@ == branches@.take(k as int),
            decreases branches.len() - k,
        {
            list.push(branches[k].clone());
            k = k + 1;
            assert(list@ =~= branches@.take(k as int));
        }
        assert(branches@.take(branches@.len() as int) =~= branches@);
        let found = find_named(&list, current);
        match found {
            Some(index) => {
                let branch = list.remove(index);
                list.insert(0, branch);
                assert(list@ =~= seq![branches@[index as int]] + branches@.remove(index as int));
            },
            None => {},
        }
        self.branches = list;
        self.current = current.to_owned();
        self.filter("");
        self.focus_pending = true;
    }

    /// The branch of match `index`, which choosing it selects.
    pub fn activate(&self, index: usize) -> (r: Option<BranchPickerEvent>)
        requires
            self.wf(),
        ensures
            index >= self.matches@.len() ==> r is None,
            index < self.matches@.len() ==> r == Some(
                BranchPickerEvent::Selected(self.branches@[self.matches@[index as int] as int]),
            ),
    {
        if index < self.matches.len() {
            let b = self.matches[index];
            Some(BranchPickerEvent::Selected(self.branches[b].clone()))
        } else {
            None
        }
    }

    /// Handles `key`: Escape dismisses, Enter (in the search field) chooses
    /// the highlighted match, the arrows move round the matches, and Home
    /// and End jump to the ends when the search field is not focused. A
    /// moving key marks the selection as made from the keyboard.
    pub fn key_down(&mut self, key: PickerKey, input_focused: bool) -> (r: Option<BranchPickerEvent>)
        requires
            old(self).wf(),
            key == PickerKey::Down ==> old(self).selected < usize::MAX,
            key == PickerKey::Up ==> old(self).selected + (if old(self).matches@.len() > 1 {
                old(self).matches@.len() as int
            } else {
                1
            }) <= usize::MAX,
        ensures
            final(self).wf(),
            key == PickerKey::Escape ==> r == Some(BranchPickerEvent::Dismissed) && *final(self)
                == *old(self),
            key == PickerKey::Enter && input_focused ==> *final(self) == *old(self) && (if old(self).selected < old(self).matches@.len() {
                r == Some(
                    BranchPickerEvent::Selected(
                        old(self).branches@[old(self).matches@[old(self).selected as int] as int],
                    ),
                )
            } else {
                r is None
            }),
            key == PickerKey::Enter && !input_focused ==> r is None && *final(self) == *old(self),
            (key == PickerKey::Down || key == PickerKey::Up || ((key == PickerKey::Home || key
                == PickerKey::End) && !input_focused)) ==> r is None && *final(self) == (
            BranchPicker {
                selected: picker_target(
                    old(self).selected as int,
                    old(self).matches@.len() as int,
                    key,
                    input_focused,
                ) as usize,
                keyboard_selection: true,
                ..*old(self)
            }),
            (key == PickerKey::Home || key == PickerKey::End) && input_focused ==> r is None
                && *final(self) == *old(self),
    {
        let count = self.matches.len();
        let n = if count > 1 {
            count
        } else {
            1
        };
        match key {
            PickerKey::Escape => Some(BranchPickerEvent::Dismissed),
            PickerKey::Enter => {
                if input_focused {
                    self.activate(self.selected)
                } else {
                    None
                }
            },
            PickerKey::Down => {
                self.selected = (self.selected + 1) % n;
                self.keyboard_selection = true;
                None
            },
            PickerKey::Up => {
                self.selected = (self.selected + n - 1) % n;
                self.keyboard_selection = true;
                None
            },
            PickerKey::Home => {
                if !input_focused {
                    self.selected = 0;
                    self.keyboard_selection = true;
                }
                None
            },
            PickerKey::End => {
                if !input_focused {
                    self.selected = if count > 0 {
                        count - 1
                    } else {
                        0
                    };
                    self.keyboard_selection = true;
                }
                None
            },
        }
    }
}

} // verus!
