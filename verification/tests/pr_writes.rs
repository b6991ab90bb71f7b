use echora_review::diff_rows::{InlineComment, PullRequestsView};
use echora_review::pr_writes::{draft_unchanged, GitHubWrite, PendingWrite};

type Write = Option<PendingWrite<u8>>;

fn view() -> PullRequestsView {
    PullRequestsView {
        diff: Vec::new(),
        file_lines: Vec::new(),
        inline_comment: None,
        detail_generation: 3,
        mutation_pending: false,
        notice: None,
    }
}

#[test]
fn a_blank_title_or_comment_is_not_sent() {
    let mut v = view();
    let w: Write = v.save_title(true, "   ");
    assert!(w.is_none() && !v.mutation_pending && v.notice.is_none());
    let w: Write = v.post_comment(false, "text");
    assert!(w.is_none());
    let w: Write = v.save_title(true, "  New title \n");
    let w = w.unwrap();
    assert!(matches!(&w.write, GitHubWrite::EditTitle(t) if t == "New title"));
    assert_eq!(w.generation, 3);
    assert_eq!(w.message, "Title saved");
    assert!(v.mutation_pending);
    assert_eq!(v.notice.as_deref(), Some("Saving to GitHub…"));
    let again: Write = v.post_comment(true, "second");
    assert!(again.is_none());
}

#[test]
fn only_an_open_pull_request_is_merged_and_reviewers_must_be_chosen() {
    let mut v = view();
    assert!(v.merge::<u8>(Some(false), "abc".into()).is_none());
    assert!(v.merge::<u8>(None, "abc".into()).is_none());
    assert!(v.submit_reviewers::<u8>(true, Vec::new()).is_none());
    let w = v.merge::<u8>(Some(true), "abc".into()).unwrap();
    assert!(matches!(&w.write, GitHubWrite::Merge { head } if head == "abc"));
    assert_eq!(w.message, "Merge request completed");
}

#[test]
fn comment_edits_deletes_and_replies_need_their_targets() {
    let mut v = view();
    assert!(v.save_comment_edit::<u8>(true, Some("c1".into()), false, "body").is_none());
    assert!(v.save_comment_edit::<u8>(true, None, true, "body").is_none());
    assert!(v.delete_comment::<u8>(true, "c1".into(), false).is_none());
    assert!(v.post_reply::<u8>(true, None, "hi").is_none());
    let w = v.post_reply::<u8>(true, Some("t1".into()), "  hi ").unwrap();
    assert!(matches!(&w.write, GitHubWrite::Reply { thread, body } if thread == "t1" && body == "hi"));
    v.mutation_pending = false;
    let w = v.set_status(Some(1u8), 2u8).unwrap();
    assert!(matches!(w.write, GitHubWrite::SetStatus { from: 1, to: 2 }));
    v.mutation_pending = false;
    let w = v.resolve_thread::<u8>(true, "t1".into()).unwrap();
    assert_eq!(w.message, "Conversation resolved");
}

#[test]
fn an_inline_comment_goes_to_its_line_at_the_shown_commit() {
    let mut v = view();
    assert!(v.submit_inline_comment::<u8>(true, true, "note", "sha".into()).is_none());
    v.inline_comment = Some(InlineComment { path: "src/a.rs".into(), line: 12, old: true });
    let w = v.submit_inline_comment::<u8>(true, true, " note ", "sha".into()).unwrap();
    assert!(matches!(
        &w.write,
        GitHubWrite::AddReviewComment { path, line: 12, old: true, commit, body }
            if path == "src/a.rs" && commit == "sha" && body == "note"
    ));
    assert_eq!(w.message, "Comment added");
}

#[test]
fn a_draft_is_cleared_only_while_it_still_holds_what_was_sent() {
    assert!(draft_unchanged("  sent text \n", "sent text"));
    assert!(!draft_unchanged("sent text, edited", "sent text"));
}
