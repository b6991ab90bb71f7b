//! Taking the files of a loaded snapshot: in the last-turn comparison the
//! turn's files stay; otherwise files that changed replace those shown,
//! views of changed files are forgotten and the rows are rebuilt.

use vstd::prelude::*;
use crate::diff::FileDiff;
use crate::diff_copy::{
    copy_files, file_lists_agree, lemma_same_files_reflexive, lemma_same_files_symmetric,
    lemma_same_files_transitive, same_files,
};
use crate::review_panel::{views_forgotten, ReviewPanel, Scope};
use crate::review_rows::review_rows;

verus! {

/// The files a loaded snapshot shows: the last turn's in the last-turn
/// comparison, else its own.
pub open spec fn loaded_files(before: ReviewPanel, files: Seq<FileDiff>) -> Seq<FileDiff> {
    if before.scope is LastTurn {
        before.last_turn@
    } else {
        files
    }
}

/// Loading a snapshot whose files agree with the ones loaded before changes
/// nothing: after `p0` took `files` (becoming `p1`, as `install_loaded_files`
/// states), the files shown already agree with what `again` would show, so
/// taking `again` answers that nothing changed and leaves the panel as it is.
pub proof fn lemma_reload_of_same_files_changes_nothing(
    p0: ReviewPanel,
    files: Seq<FileDiff>,
    p1: ReviewPanel,
    changed: bool,
    again: Seq<FileDiff>,
)
    requires
        changed == !same_files(p0.source.files@, loaded_files(p0, files)),
        !changed ==> p1 == p0,
        changed ==> {
            &&& same_files(p1.source.files@, loaded_files(p0, files))
            &&& views_forgotten(
                p0,
                p1.source.files@,
                ReviewPanel {
                    source: crate::review_rows::ReviewRowsSource {
                        files: p0.source.files,
                        ..p1.source
                    },
                    rows: p0.rows,
                    selection: p0.selection,
                    ..p1
                },
            )
        },
        same_files(files, again),
    ensures
        same_files(p1.source.files@, loaded_files(p1, again)),
{
    if changed {
        reveal(views_forgotten);
    }
    assert(p1.scope == p0.scope && p1.last_turn == p0.last_turn);
    if !(p0.scope is LastTurn) {
        lemma_same_files_transitive(p1.source.files@, files, again);
    }
}

impl ReviewPanel {
    /// The files a loaded snapshot shows (see `loaded_files`), copied.
    fn files_to_show(&self, files: Vec<FileDiff>) -> (r: Vec<FileDiff>)
        ensures
            same_files(r@, loaded_files(*self, files@)),
    {
        match self.scope {
            Scope::LastTurn => copy_files(&self.last_turn),
            _ => {
                proof {
                    lemma_same_files_reflexive(files@);
                }
                files
            },
        }
    }

    /// Takes the files of a loaded snapshot (see `loaded_files`). When they
    /// differ from the files shown, views of changed files are forgotten
    /// (see `views_forgotten`), the files are installed and the rows
    /// rebuilt; answers whether that happened.
    #[verifier::rlimit(100)]
    #[verifier::spinoff_prover]
    pub fn install_loaded_files(&mut self, files: Vec<FileDiff>) -> (changed: bool)
        ensures
            old(self).wf() ==> final(self).wf(),
            changed == !same_files(old(self).source.files@, loaded_files(*old(self), files@)),
            !changed ==> *final(self) == *old(self),
            changed ==> {
                &&& same_files(final(self).source.files@, loaded_files(*old(self), files@))
                &&& final(self).rows@ == review_rows(final(self).source)
                &&& views_forgotten(
                    *old(self),
                    final(self).source.files@,
                    ReviewPanel {
                        source: crate::review_rows::ReviewRowsSource {
                            files: old(self).source.files,
                            ..final(self).source
                        },
                        rows: old(self).rows,
                        selection: old(self).selection,
                        ..*final(self)
                    },
                )
            },
    {
        let ghost want = loaded_files(*old(self), files@);
        let shown = self.files_to_show(files);
        let agree = file_lists_agree(&self.source.files, &shown);
        proof {
            if agree {
                lemma_same_files_transitive(old(self).source.files@, shown@, want);
            } else if same_files(old(self).source.files@, want) {
                lemma_same_files_symmetric(shown@, want);
                lemma_same_files_transitive(old(self).source.files@, want, shown@);
            }
        }
        if agree {
            return false;
        }
        self.forget_changed_views(shown.as_slice());
        let ghost mid = *self;
        self.source.files = shown;
        self.rebuild();
        proof {
            assert(mid == (ReviewPanel {
                source: crate::review_rows::ReviewRowsSource {
                    files: old(self).source.files,
                    ..self.source
                },
                rows: old(self).rows,
                selection: old(self).selection,
                ..*self
            }));
        }
        true
    }

}

} // verus!
