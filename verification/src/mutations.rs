//! GitHub writes from the pull-request view: one write in flight at a time,
//! drafts kept unless the write succeeded for the same selection, and the
//! server's readback installed only for the selection it belongs to.

use vstd::prelude::*;
use vstd::string::StringExecFns;
use crate::diff_rows::PullRequestsView;

verus! {

/// What the view does once a write has finished.
pub struct MutationOutcome<D> {
    /// The write succeeded under the same selection: its success step (such
    /// as clearing the submitted draft) runs.
    pub run_on_success: bool,
    /// The readback detail to install as the selection.
    pub install: Option<D>,
    /// The write succeeded: the list is reloaded.
    pub refresh_list: bool,
}

/// The view shows the notice `text`.
pub open spec fn notice_is(notice: Option<String>, text: Seq<char>) -> bool {
    notice matches Some(n) && n@ == text
}

/// The notice shown while a write is in flight.
pub open spec fn saving_notice() -> Seq<char> {
    "Saving to GitHub…"@
}

impl PullRequestsView {
    /// Starts a write: answers the selection's generation, which the result
    /// must be handed back with, after showing the saving notice; or `None`
    /// when a write is already in flight, so that a duplicate submission is
    /// never sent.
    pub fn mutate(&mut self) -> (r: Option<u64>)
        ensures
            old(self).mutation_pending ==> r is None && *final(self) == *old(self),
            !old(self).mutation_pending ==> {
                &&& r == Some(old(self).detail_generation)
                &&& final(self).mutation_pending
                &&& notice_is(final(self).notice, saving_notice())
                &&& *final(self) == (PullRequestsView {
                    mutation_pending: true,
                    notice: final(self).notice,
                    ..*old(self)
                })
            },
    {
        if self.mutation_pending {
            return None;
        }
        self.mutation_pending = true;
        self.notice = Some(String::from_str("Saving to GitHub…"));
        Some(self.detail_generation)
    }

    /// Takes the result of a write started under `generation`: `Err` when
    /// the write failed, `Ok(Err)` when it was saved but reading it back
    /// failed, `Ok(Ok(detail))` with the server's readback. The write is no
    /// longer in flight and nothing else of the view changes but the
    /// notice, which says what happened (`message` on a full
    /// success); the success step runs and the readback is installed only
    /// when the selection is still the one the write started under.
    pub fn finish_mutation<D>(
        &mut self,
        generation: u64,
        message: &str,
        result: Result<Result<D, String>, String>,
    ) -> (r: MutationOutcome<D>)
        ensures
            *final(self) == (PullRequestsView {
                mutation_pending: false,
                notice: final(self).notice,
                ..*old(self)
            }),
            r.refresh_list == result is Ok,
            r.run_on_success == (result is Ok && old(self).detail_generation == generation),
            match result {
                Err(e) => r.install is None && notice_is(final(self).notice, "GitHub: "@ + e@),
                Ok(Err(e)) => r.install is None && notice_is(
                    final(self).notice,
                    "Saved to GitHub; refresh failed: "@ + e@,
                ),
                Ok(Ok(d)) => notice_is(final(self).notice, message@) && (if old(self).detail_generation
                    == generation {
                    r.install == Some(d)
                } else {
                    r.install is None
                }),
            },
    {
        self.mutation_pending = false;
        let same_selection = self.detail_generation == generation;
        match result {
            Ok(readback) => match readback {
                Ok(detail) => {
                    self.notice = Some(String::from_str(message));
                    MutationOutcome {
                        run_on_success: same_selection,
                        install: if same_selection {
                            Some(detail)
                        } else {
                            None
                        },
                        refresh_list: true,
                    }
                },
                Err(error) => {
                    self.notice = Some(
                        String::from_str("Saved to GitHub; refresh failed: ").concat(error.as_str()),
                    );
                    MutationOutcome { run_on_success: same_selection, install: None, refresh_list: true }
                },
            },
            Err(error) => {
                self.notice = Some(String::from_str("GitHub: ").concat(error.as_str()));
                MutationOutcome { run_on_success: false, install: None, refresh_list: false }
            },
        }
    }
}

} // verus!
