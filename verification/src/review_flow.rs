//! The review panel's dialogs and follow-ups: opening the commit and the
//! pull-request dialogs, pushing after a commit, short-lived notices, and
//! the capture filter.

use vstd::prelude::*;
use vstd::string::StringExecFns;
use crate::diff::{FileDiff, Hunk, Line, LineKind};
use crate::review_panel::{base_choice, pull_request_base, refreshed, ReviewPanel};
use crate::review_rows::review_rows;

verus! {

/// What the panel does after a push finished.
#[derive(Clone, Copy, Debug, PartialEq, Eq)]
pub struct PushFollowUp {
    /// The serial of the notice shown, whose timer is to clear it.
    pub notice: Option<u64>,
    /// The generation of the reload started, if one started.
    pub load: Option<u64>,
}

/// The text of the new side of a run of lines: each line that is not
/// deleted, followed by a line break.
pub open spec fn lines_text(lines: Seq<Line>) -> Seq<char>
    decreases lines.len(),
{
    if lines.len() == 0 {
        Seq::empty()
    } else {
        let last = lines.last();
        lines_text(lines.drop_last()) + if last.kind == LineKind::Deleted {
            Seq::empty()
        } else {
            last.text@ + "\n"@
        }
    }
}

/// The new side of the hunks, one after the other.
pub open spec fn hunks_text(hunks: Seq<Hunk>) -> Seq<char>
    decreases hunks.len(),
{
    if hunks.len() == 0 {
        Seq::empty()
    } else {
        hunks_text(hunks.drop_last()) + lines_text(hunks.last().lines@)
    }
}

/// The text of the new side of `lines`, appended to `out`.
fn append_lines_text(out: &mut String, lines: &Vec<Line>)
    ensures
        final(out)@ == old(out)@ + lines_text(lines@),
{
    let mut i: usize = 0;
    let ghost start = out@;
    while i < lines.len()
        invariant
            i <= lines@.len(),
            out@ == start + lines_text(lines@.take(i as int)),
        decreases lines.len() - i,
    {
        proof {
            assert(lines@.take(i + 1).drop_last() =~= lines@.take(i as int));
            assert(lines@.take(i + 1).last() == lines@[i as int]);
        }
        if lines[i].kind != LineKind::Deleted {
            let piece = lines[i].text.clone().concat("\n");
            out.append(piece.as_str());
            proof {
                reveal_strlit("\n");
            }
        }
        proof {
            assert(out@ =~= start + lines_text(lines@.take(i + 1)));
        }
        i = i + 1;
    }
    assert(lines@.take(i as int) =~= lines@);
}

/// An added file's whole text is its new side: for status `A` the file's
/// new text becomes its hunks' lines that are not deleted, each followed by
/// a line break; another file is left as it is.
pub fn fill_added_text(file: &mut FileDiff)
    ensures
        old(file).status == 'A' ==> *final(file) == (FileDiff { new_text: final(file).new_text, ..*old(file) }),
        old(file).status == 'A' ==> (final(file).new_text matches Some(t) && t@ == hunks_text(old(file).hunks@)),
        old(file).status != 'A' ==> *final(file) == *old(file),
{
    if file.status != 'A' {
        return;
    }
    let mut text = String::new();
    let mut h: usize = 0;
    while h < file.hunks.len()
        invariant
            h <= file.hunks@.len(),
            file.status == 'A',
            *file == *old(file),
            text@ == hunks_text(file.hunks@.take(h as int)),
        decreases file.hunks.len() - h,
    {
        proof {
            assert(file.hunks@.take(h + 1).drop_last() =~= file.hunks@.take(h as int));
            assert(file.hunks@.take(h + 1).last() == file.hunks@[h as int]);
        }
        append_lines_text(&mut text, &file.hunks[h].lines);
        h = h + 1;
    }
    assert(file.hunks@.take(h as int) =~= file.hunks@);
    file.new_text = Some(text);
}

impl ReviewPanel {
    /// The added and deleted lines the commit dialog shows: the working
    /// tree's totals when everything is committed, else the staged ones.
    pub fn dialog_totals(&self, working: (usize, usize), staged: (usize, usize)) -> (r: (usize, usize))
        ensures
            r == (if self.commit_all {
                working
            } else {
                staged
            }),
    {
        if self.commit_all {
            working
        } else {
            staged
        }
    }

    /// Opens the commit dialog: all changes are included, a new branch is
    /// asked for when the checkout is detached, and no push follows yet.
    pub fn open_commit(&mut self, detached: bool)
        ensures
            *final(self) == (ReviewPanel {
                pr_open: false,
                push_after_commit: false,
                menu: None,
                commit_open: true,
                commit_all: true,
                new_branch: detached,
                ..*old(self)
            }),
    {
        self.pr_open = false;
        self.push_after_commit = false;
        self.menu = None;
        self.commit_open = true;
        self.commit_all = true;
        self.new_branch = detached;
    }

    /// Opens the pull-request dialog over the commit dialog: the earlier
    /// lookup of an existing pull request and the last operation error are
    /// forgotten, and the base branch is chosen (see `base_choice`). The
    /// owner then looks the existing pull request up.
    pub fn open_pull_request(
        &mut self,
        detached: bool,
        branches: &[String],
        upstream: &Option<String>,
        branch: &str,
    )
        ensures
            final(self).pr_base@ == base_choice(branches@, *upstream, branch@),
            *final(self) == (ReviewPanel {
                pr_open: true,
                pr_existing: None,
                operation_error: None,
                pr_base: final(self).pr_base,
                push_after_commit: false,
                menu: None,
                commit_open: true,
                commit_all: true,
                new_branch: detached,
                ..*old(self)
            }),
    {
        self.open_commit(detached);
        self.pr_open = true;
        self.pr_existing = None;
        self.operation_error = None;
        self.pr_base = pull_request_base(branches, upstream, branch);
    }

    /// Takes the answer of the lookup of the checked-out branch's pull
    /// request; it is dropped when the dialog has closed meanwhile.
    pub fn take_existing_pull_request(&mut self, existing: Option<String>)
        ensures
            old(self).pr_open ==> *final(self) == (ReviewPanel { pr_existing: existing, ..*old(self) }),
            !old(self).pr_open ==> *final(self) == *old(self),
    {
        if self.pr_open {
            self.pr_existing = existing;
        }
    }

    /// Shows `text` as the notice; the answer is its serial, with which its
    /// timer clears it.
    pub fn show_notice(&mut self, text: String) -> (serial: u64)
        requires
            old(self).notice_serial < u64::MAX,
        ensures
            serial == old(self).notice_serial + 1,
            *final(self) == (ReviewPanel { notice: Some(text), notice_serial: serial, ..*old(self) }),
    {
        self.notice = Some(text);
        self.notice_serial = self.notice_serial + 1;
        self.notice_serial
    }

    /// The timer of notice `serial` ran out: the notice goes, unless a later
    /// one replaced it.
    pub fn expire_notice(&mut self, serial: u64)
        ensures
            serial == old(self).notice_serial ==> *final(self) == (ReviewPanel {
                notice: None,
                ..*old(self)
            }),
            serial != old(self).notice_serial ==> *final(self) == *old(self),
    {
        if self.notice_serial == serial {
            self.notice = None;
        }
    }

    /// A push starts after a commit: the panel is busy until it ends.
    pub fn begin_push(&mut self)
        ensures
            *final(self) == (ReviewPanel { busy: true, ..*old(self) }),
    {
        self.busy = true;
    }

    /// Takes the result of the push: its message becomes a notice, or its
    /// error (after the commit's success) the operation error; then the
    /// snapshot reloads.
    #[verifier::rlimit(100)]
    #[verifier::spinoff_prover]
    pub fn finish_push(&mut self, result: Result<String, String>) -> (r: PushFollowUp)
        requires
            old(self).generation < u64::MAX,
            old(self).notice_serial < u64::MAX,
        ensures
            result matches Ok(m) ==> r.notice == Some((old(self).notice_serial + 1) as u64)
                && refreshed(
                ReviewPanel {
                    busy: false,
                    notice: Some(m),
                    notice_serial: (old(self).notice_serial + 1) as u64,
                    ..*old(self)
                },
                *final(self),
                r.load,
            ),
            result matches Err(e) ==> r.notice is None && (final(self).operation_error matches Some(
                t,
            ) && t@ == "提交已完成；推送失败："@ + e@) && refreshed(
                ReviewPanel { busy: false, operation_error: final(self).operation_error, ..*old(self) },
                *final(self),
                r.load,
            ),
    {
        self.busy = false;
        match result {
            Ok(m) => {
                let serial = self.show_notice(m);
                let load = self.refresh();
                PushFollowUp { notice: Some(serial), load }
            },
            Err(e) => {
                self.operation_error = Some(String::from_str("提交已完成；推送失败：").concat(e.as_str()));
                let load = self.refresh();
                PushFollowUp { notice: None, load }
            },
        }
    }

    /// Filters the files by `query` (the filter field shows it too) and
    /// rebuilds the rows.
    pub fn capture_filter(&mut self, query: &str)
        ensures
            final(self).source.query@ == query@,
            final(self).rows@ == review_rows(final(self).source),
            *final(self) == (ReviewPanel {
                source: crate::review_rows::ReviewRowsSource {
                    query: final(self).source.query,
                    ..old(self).source
                },
                rows: final(self).rows,
                selection: None,
                ..*old(self)
            }),
    {
        self.source.query = query.to_owned();
        self.rebuild();
    }

    /// Whether a capture can be taken: the load's error, else whether the
    /// load is done and a repository is open (`has_root`).
    pub fn capture_ready(&self, has_root: bool) -> (r: Result<bool, String>)
        ensures
            self.error matches Some(e) ==> r matches Err(x) && x == e,
            self.error is None ==> r == Ok::<bool, String>(!self.loading && has_root),
    {
        match &self.error {
            Some(e) => Err(e.clone()),
            None => Ok(!self.loading && has_root),
        }
    }
}

} // verus!
