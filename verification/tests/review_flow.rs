use echora_review::diff::{FileDiff, Hunk, Line, LineKind};
use echora_review::review_actions::{Action, ActionEffect};
use echora_review::review_flow::fill_added_text;
use echora_review::review_menus::FileChange;
use echora_review::review_panel::{ReviewPanel, Scope};

fn history_file(text: &str) -> FileDiff {
    FileDiff {
        path: "history".into(),
        old_path: None,
        status: 'M',
        binary: false,
        patch: format!("diff --git a/history b/history\n--- a/history\n+++ b/history\n@@ -1 +1 @@\n-old\n+{text}\n"),
        additions: 1,
        deletions: 1,
        old_text: None,
        new_text: None,
        hunks: vec![Hunk {
            header: "@@ -1 +1 @@".into(),
            patch: String::new(),
            lines: vec![
                Line { old: Some(1), new: None, kind: LineKind::Deleted, text: "old".into() },
                Line { old: None, new: Some(1), kind: LineKind::Added, text: text.into() },
            ],
        }],
    }
}

fn shown_text(panel: &ReviewPanel) -> String {
    panel.source.files[0].hunks[0].lines[1].text.clone()
}

#[test]
fn opened_history_stays_pinned_until_latest_scope_is_selected() {
    let mut p = ReviewPanel::new(Vec::new());
    p.set_last_turn(vec![history_file("earlier")], true);
    p.generation += 1;
    p.loading = true;
    p.set_last_turn(vec![history_file("latest")], false);
    assert_eq!(shown_text(&p), "earlier");
    p.action::<FileChange>(Action::Scope(Scope::LastTurn), "");
    assert_eq!(shown_text(&p), "latest");
    assert!(!p.history_pinned);
}

#[test]
fn history_updates_in_the_same_turn_do_not_read_current_files() {
    let mut p = ReviewPanel::new(Vec::new());
    for text in ["one", "two"] {
        let file = history_file(text);
        let patch = file.patch.clone();
        p.set_last_turn(vec![file], true);
        p.generation += 1;
        p.loading = true;
        assert_eq!(shown_text(&p), text);
        assert_eq!(p.source.files[0].patch, patch);
        assert_eq!(p.scope, Scope::LastTurn);
    }
}

#[test]
fn the_newest_turn_replaces_an_unpinned_last_turn_at_once() {
    let mut p = ReviewPanel::new(Vec::new());
    let started = p.change_scope(Scope::LastTurn);
    assert_eq!(started, Some(2));
    assert!(p.source.files.is_empty());
    assert_eq!(p.set_last_turn(vec![history_file("first")], false), None);
    assert_eq!(shown_text(&p), "first");
    p.set_last_turn(vec![history_file("first")], false);
    assert_eq!(p.last_turn.len(), 1);
    p.change_scope(Scope::Staged);
    assert!(p.source.files.is_empty());
    p.set_last_turn(vec![history_file("second")], false);
    assert!(p.source.files.is_empty());
    assert_eq!(p.last_turn[0].hunks[0].lines[1].text, "second");
}

#[test]
fn pull_request_dialog_chooses_the_base_and_keeps_a_late_lookup_only_while_open() {
    let mut p = ReviewPanel::new(Vec::new());
    p.push_after_commit = true;
    p.open_pull_request(false, &["dev".to_string(), "origin/master".to_string()], &None, "dev");
    assert!(p.pr_open && p.commit_open && p.commit_all && !p.push_after_commit);
    assert_eq!(p.pr_base, "master");
    p.take_existing_pull_request(Some("https://example.test/pr/1".into()));
    assert_eq!(p.pr_existing.as_deref(), Some("https://example.test/pr/1"));
    p.open_commit(true);
    assert!(!p.pr_open && p.new_branch);
    p.take_existing_pull_request(Some("https://example.test/pr/2".into()));
    assert_eq!(p.pr_existing.as_deref(), Some("https://example.test/pr/1"));
}

#[test]
fn a_push_reports_its_failure_after_the_commit_and_reloads() {
    let mut p = ReviewPanel::new(Vec::new());
    p.begin_push();
    assert!(p.busy);
    let follow = p.finish_push(Err("rejected".into()));
    assert!(!p.busy || p.loading);
    assert_eq!(p.operation_error.as_deref(), Some("提交已完成；推送失败：rejected"));
    assert_eq!(follow.notice, None);
    assert_eq!(follow.load, Some(1));
    p.loading = false;
    let follow = p.finish_push(Ok("Pushed".into()));
    assert_eq!(follow.notice, Some(1));
    assert_eq!(p.notice.as_deref(), Some("Pushed"));
    p.expire_notice(0);
    assert!(p.notice.is_some());
    p.expire_notice(1);
    assert!(p.notice.is_none());
}

#[test]
fn an_added_file_takes_its_new_side_as_text() {
    let mut file = history_file("new");
    file.status = 'A';
    file.hunks[0].lines.push(Line { old: Some(2), new: Some(2), kind: LineKind::Context, text: "kept".into() });
    fill_added_text(&mut file);
    assert_eq!(file.new_text.as_deref(), Some("new\nkept\n"));
    let mut modified = history_file("new");
    fill_added_text(&mut modified);
    assert_eq!(modified.new_text, None);
}

#[test]
fn controls_report_what_the_owner_does() {
    let mut p = ReviewPanel::new(vec![history_file("x")]);
    let r = p.action::<FileChange>(Action::Commit, "");
    assert!(matches!(r.effect, ActionEffect::OpenCommit));
    p.new_branch = true;
    let r = p.action::<FileChange>(Action::SaveCommit, "  codex/  ");
    assert!(matches!(r.effect, ActionEffect::Nothing));
    let r = p.action::<FileChange>(Action::SaveCommit, " codex/fix ");
    assert!(matches!(&r.effect, ActionEffect::Commit { stage_all: true, branch: Some(b) } if b == "codex/fix"));
    p.new_branch = false;
    p.pr_existing = Some("https://example.test/pr/9".into());
    let r = p.action::<FileChange>(Action::CreatePullRequest(false), "");
    assert!(matches!(&r.effect, ActionEffect::OpenUrl(u) if u == "https://example.test/pr/9"));
    let r = p.action::<FileChange>(Action::DeleteComment(4), "");
    assert!(matches!(r.effect, ActionEffect::Event(_)));
    let r = p.action::<FileChange>(Action::Wrap, "");
    assert!(p.wrap && r.save.map(|s| s.wrap) == Some(true));
    let r = p.action::<FileChange>(Action::Refresh, "");
    assert!(matches!(r.effect, ActionEffect::Load(Some(1))) && r.save.is_none());
    assert_eq!(p.capture_ready(true), Ok(false));
    p.loading = false;
    assert_eq!(p.capture_ready(true), Ok(true));
    p.error = Some("boom".into());
    assert_eq!(p.capture_ready(true), Err("boom".into()));
}

#[test]
fn a_capture_filter_rebuilds_the_rows_for_its_query() {
    let mut p = ReviewPanel::new(vec![history_file("x")]);
    let all = p.rows.len();
    p.capture_filter("nothing-matches");
    assert_eq!(p.source.query, "nothing-matches");
    assert!(p.rows.len() < all);
    p.capture_filter("HIST");
    assert_eq!(p.rows.len(), all);
}


#[test]
fn a_loaded_snapshot_replaces_changed_files_and_forgets_their_views() {
    let mut p = ReviewPanel::new(vec![history_file("first")]);
    p.toggle_viewed(0);
    assert_eq!(p.viewed.len(), 1);
    assert!(!p.install_loaded_files(vec![history_file("first")]));
    assert_eq!(p.viewed.len(), 1);
    assert!(p.install_loaded_files(vec![history_file("second")]));
    assert_eq!(shown_text(&p), "second");
    assert!(p.viewed.is_empty());
    assert!(!p.rows.is_empty());
}

#[test]
fn loading_the_same_files_again_changes_nothing() {
    let mut p = ReviewPanel::new(vec![history_file("first")]);
    assert!(p.install_loaded_files(vec![history_file("second")]));
    let rows = p.rows.len();
    assert!(!p.install_loaded_files(vec![history_file("second")]));
    assert_eq!(shown_text(&p), "second");
    assert_eq!(p.rows.len(), rows);
}

#[test]
fn a_loaded_snapshot_in_the_last_turn_shows_the_turn_files() {
    let mut p = ReviewPanel::new(Vec::new());
    p.set_last_turn(vec![history_file("turn")], true);
    assert_eq!(p.scope, Scope::LastTurn);
    assert!(!p.install_loaded_files(vec![history_file("worktree")]));
    assert_eq!(shown_text(&p), "turn");
}

#[test]
fn changing_the_scope_clears_the_previous_scope_error() {
    let mut p = ReviewPanel::new(Vec::new());
    p.refresh();
    let stale = p.generation;
    p.error = Some("previous scope error".into());
    p.change_scope(Scope::Staged);
    assert!(p.error.is_none());
    assert!(p.loading);
    assert!(p.generation > stale);
    assert!(!p.finish_refresh::<()>(stale, &Err("stale failure".into())));
    assert!(p.error.is_none());
}

#[test]
fn the_commit_dialog_shows_working_or_staged_totals() {
    let mut p = ReviewPanel::new(Vec::new());
    p.open_commit(false);
    assert!(p.commit_all);
    assert_eq!(p.dialog_totals((5, 2), (1, 1)), (5, 2));
    p.commit_all = false;
    assert_eq!(p.dialog_totals((5, 2), (1, 1)), (1, 1));
}
