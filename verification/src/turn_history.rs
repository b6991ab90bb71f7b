//! The history of agent turns that the last-turn comparison shows: an
//! opened history entry is pinned there until the comparison is chosen
//! again; the newest turn replaces an unpinned last turn at once.

use vstd::prelude::*;
use crate::diff::FileDiff;
use crate::diff_copy::{copy_files, file_lists_agree, lemma_same_files_transitive, same_files};
use crate::review_actions::{acted, scope_changed, Action, ActionResult};
use crate::review_panel::{ReviewPanel, Scope};
use crate::review_rows::review_rows;

verus! {

/// What opening a history entry with `files` does: they become the last
/// turn, shown in the last-turn comparison (see `scope_changed`), and stay
/// pinned there.
pub open spec fn history_opened(before: ReviewPanel, files: Vec<FileDiff>, after: ReviewPanel, r: Option<u64>) -> bool {
    &&& after.history_pinned
    &&& after.last_turn == files
    &&& scope_changed(
        ReviewPanel { last_turn: files, ..before },
        Scope::LastTurn,
        ReviewPanel { history_pinned: before.history_pinned, ..after },
        r,
    )
}

/// What the newest turn's `files` do: they are kept as the newest turn and
/// replace the last turn, unless a history entry is pinned or they are the
/// same; in the last-turn comparison they are shown at once.
pub open spec fn turn_arrived(before: ReviewPanel, files: Vec<FileDiff>, after: ReviewPanel) -> bool {
    &&& after.latest_turn == files
    &&& before.history_pinned || same_files(before.last_turn@, files@) ==> after == (ReviewPanel {
        latest_turn: files,
        ..before
    })
    &&& !before.history_pinned && !same_files(before.last_turn@, files@) ==> {
        &&& same_files(after.last_turn@, files@)
        &&& !(before.scope is LastTurn) ==> after == (ReviewPanel {
            latest_turn: files,
            last_turn: after.last_turn,
            ..before
        })
        &&& before.scope is LastTurn ==> {
            &&& same_files(after.source.files@, files@)
            &&& after.rows@ == review_rows(after.source)
            &&& after == (ReviewPanel {
                latest_turn: files,
                last_turn: after.last_turn,
                source: crate::review_rows::ReviewRowsSource { files: after.source.files, ..before.source },
                rows: after.rows,
                selection: None,
                ..before
            })
        }
    }
}

/// An opened history entry stays on screen while newer turns arrive, until
/// the last-turn comparison is chosen again, which unpins it and shows the
/// newest turn.
pub proof fn lemma_history_pinned_until_scope_chosen<M>(
    p0: ReviewPanel,
    opened: Vec<FileDiff>,
    p1: ReviewPanel,
    r1: Option<u64>,
    newest: Vec<FileDiff>,
    p2: ReviewPanel,
    p3: ReviewPanel,
    res: ActionResult<M>,
)
    requires
        history_opened(p0, opened, p1, r1),
        turn_arrived(p1, newest, p2),
        acted(p2, Action::Scope(Scope::LastTurn), Seq::empty(), p3, res),
    ensures
        p2.history_pinned,
        p2.last_turn == opened,
        p2.source.files == p1.source.files,
        !p3.history_pinned,
        same_files(p3.source.files@, newest@),
{
    lemma_same_files_transitive(p3.source.files@, p3.last_turn@, p2.latest_turn@);
}

impl ReviewPanel {
    /// Shows the last turn's files in place of the current ones, rebuilding
    /// the rows.
    fn install_last_turn(&mut self)
        ensures
            same_files(final(self).source.files@, old(self).last_turn@),
            final(self).rows@ == review_rows(final(self).source),
            *final(self) == (ReviewPanel {
                source: crate::review_rows::ReviewRowsSource {
                    files: final(self).source.files,
                    ..old(self).source
                },
                rows: final(self).rows,
                selection: None,
                ..*old(self)
            }),
    {
        self.source.files = copy_files(&self.last_turn);
        self.rebuild();
    }

    /// Takes a turn's files. An opened history entry (`open`) is shown in
    /// the last-turn comparison and stays pinned; otherwise the files are
    /// the newest turn's, which replace the last turn's unless a history
    /// entry is pinned or they are the same, and which are shown at once in
    /// the last-turn comparison. Answers the generation of a load started.
    pub fn set_last_turn(&mut self, files: Vec<FileDiff>, open: bool) -> (r: Option<u64>)
        requires
            old(self).generation < u64::MAX - 1,
        ensures
            open ==> history_opened(*old(self), files, *final(self), r),
            !open ==> r is None && turn_arrived(*old(self), files, *final(self)),
    {
        if open {
            self.open_history(files)
        } else {
            self.take_latest_turn(files);
            None
        }
    }

    /// An opened history entry is shown in the last-turn comparison and
    /// pinned there.
    #[verifier::rlimit(100)]
    #[verifier::spinoff_prover]
    fn open_history(&mut self, files: Vec<FileDiff>) -> (r: Option<u64>)
        requires
            old(self).generation < u64::MAX - 1,
        ensures
            history_opened(*old(self), files, *final(self), r),
    {
        self.last_turn = files;
        let ghost before = *self;
        let r = self.change_scope(Scope::LastTurn);
        let ghost mid = *self;
        self.history_pinned = true;
        proof {
            assert(mid == (ReviewPanel { history_pinned: old(self).history_pinned, ..*self }));
        }
        r
    }

    /// The newest turn's files replace the last turn's, unless a history
    /// entry is pinned or they are the same; in the last-turn comparison
    /// they are shown at once.
    #[verifier::rlimit(100)]
    #[verifier::spinoff_prover]
    fn take_latest_turn(&mut self, files: Vec<FileDiff>)
        ensures
            turn_arrived(*old(self), files, *final(self)),
    {
        self.latest_turn = files;
        if !self.history_pinned && !file_lists_agree(&self.last_turn, &self.latest_turn) {
            self.last_turn = copy_files(&self.latest_turn);
            let in_last_turn = match self.scope {
                Scope::LastTurn => true,
                _ => false,
            };
            if in_last_turn {
                let ghost before = *self;
                self.install_last_turn();
                proof {
                    lemma_same_files_transitive(self.source.files@, before.last_turn@, files@);
                }
            }
        }
    }

}

} // verus!
