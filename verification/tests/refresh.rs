use echora_review::diff::{FileDiff, Hunk, Line, LineKind};
use echora_review::review_panel::{ReviewPanel, Scope};
use echora_review::review_rows::{ReviewComment, ReviewRow};

fn demo_file() -> FileDiff {
    FileDiff {
        path: "demo.rs".into(),
        old_path: None,
        status: 'M',
        binary: false,
        patch: "diff --git a/demo.rs b/demo.rs\n--- a/demo.rs\n+++ b/demo.rs\n@@ -1 +1 @@\n-old\n+new\n".into(),
        additions: 1,
        deletions: 1,
        old_text: None,
        new_text: None,
        hunks: vec![Hunk {
            header: "@@ -1 +1 @@".into(),
            patch: String::new(),
            lines: vec![
                Line { old: Some(1), new: None, kind: LineKind::Deleted, text: "old".into() },
                Line { old: None, new: Some(1), kind: LineKind::Added, text: "new".into() },
            ],
        }],
    }
}

fn empty_snapshot() -> Vec<FileDiff> {
    Vec::new()
}

fn changed_snapshot() -> Vec<FileDiff> {
    vec![demo_file()]
}

/// A panel whose constructor's load was superseded.
fn fixture() -> ReviewPanel {
    let mut panel = ReviewPanel::new(Vec::new());
    panel.generation += 1;
    panel.loading = false;
    panel
}

/// Hands the answer of the load started as `generation` to the panel, as
/// its owner does: a loaded snapshot's files are installed.
fn finish(panel: &mut ReviewPanel, generation: u64, result: Result<Vec<FileDiff>, String>) {
    if panel.finish_refresh(generation, &result) {
        if let Ok(files) = result {
            panel.install_loaded_files(files);
        }
    }
}

/// Hands the answer of the load in flight to the panel.
fn finish_current(panel: &mut ReviewPanel, result: Result<Vec<FileDiff>, String>) {
    let generation = panel.generation;
    finish(panel, generation, result);
}

#[test]
fn empty_snapshot_stays_visible_during_repeated_refreshes() {
    let mut panel = fixture();
    panel.refresh();
    finish_current(&mut panel, Ok(empty_snapshot()));
    assert!(!panel.loading);
    assert!(panel.rows.is_empty());
    let files = panel.source.files.clone();
    let rows = panel.rows.clone();
    for _ in 0..3 {
        panel.refresh();
        let generation = panel.generation;
        assert!(panel.loading);
        // A second poll or a manual refresh must not overlap this request.
        panel.refresh();
        assert_eq!(panel.generation, generation);
        finish(&mut panel, generation, Ok(empty_snapshot()));
        assert!(!panel.loading);
        assert!(panel.source.files == files);
        assert!(panel.rows == rows);
    }
}

#[test]
fn changed_and_filtered_snapshots_refresh_without_a_loading_placeholder() {
    let mut panel = fixture();
    panel.refresh();
    finish_current(&mut panel, Ok(changed_snapshot()));
    assert!(!panel.rows.is_empty());
    panel.source.query = "no-matching-file".into();
    panel.rebuild();
    assert!(panel.rows.is_empty());
    let files = panel.source.files.clone();
    let rows = panel.rows.clone();

    panel.refresh();
    finish_current(&mut panel, Ok(changed_snapshot()));
    assert!(panel.source.files == files);
    assert!(panel.rows == rows);

    // The quiet refresh still installs actual additions/removals.
    panel.source.query.clear();
    panel.rebuild();
    panel.refresh();
    finish_current(&mut panel, Ok(empty_snapshot()));
    assert!(panel.source.files.is_empty());
    assert!(panel.rows.is_empty());
    panel.refresh();
    finish_current(&mut panel, Ok(changed_snapshot()));
    assert_eq!(panel.source.files.len(), 1);
    assert!(!panel.rows.is_empty());
}

#[test]
fn failed_initial_load_keeps_its_error_visible_during_retry() {
    let mut panel = fixture();
    panel.refresh();
    finish_current(&mut panel, Err("git unavailable".into()));
    assert!(!panel.loading);
    assert_eq!(panel.error.as_deref(), Some("git unavailable"));

    panel.refresh();
    assert!(panel.loading);
    assert_eq!(panel.error.as_deref(), Some("git unavailable"));
    finish_current(&mut panel, Ok(empty_snapshot()));
    assert!(panel.error.is_none());
}

#[test]
fn background_errors_do_not_discard_a_loaded_snapshot() {
    let mut panel = fixture();
    panel.refresh();
    finish_current(&mut panel, Ok(changed_snapshot()));
    let files = panel.source.files.clone();
    let rows = panel.rows.clone();
    panel.refresh();
    finish_current(&mut panel, Err("temporary git error".into()));
    assert!(panel.source.files == files);
    assert!(panel.rows == rows);
    panel.refresh();
    finish_current(&mut panel, Ok(changed_snapshot()));
    assert!(panel.error.is_none());
    assert!(panel.source.files == files);
}

#[test]
fn scope_changes_reset_loading_and_ignore_stale_completions() {
    let mut panel = fixture();
    panel.refresh();
    finish_current(&mut panel, Ok(empty_snapshot()));
    for scope in [
        Scope::Unstaged,
        Scope::Staged,
        Scope::Branch("origin/main".into()),
        Scope::Commit("12345678".into()),
        Scope::Uncommitted,
    ] {
        panel.refresh();
        let stale_generation = panel.generation;
        panel.error = Some("previous scope error".into());
        panel.change_scope(scope);
        let generation = panel.generation;
        assert!(panel.error.is_none());

        finish(&mut panel, stale_generation, Ok(changed_snapshot()));
        finish(&mut panel, stale_generation, Err("stale failure".into()));
        assert_eq!(panel.generation, generation);
        assert!(panel.loading);
        assert!(panel.source.files.is_empty());
        assert!(panel.error.is_none());

        finish(&mut panel, generation, Ok(empty_snapshot()));
        assert!(!panel.loading);
    }
}

#[test]
fn last_turn_content_is_ready_without_waiting_for_git_metadata() {
    let mut panel = fixture();
    for files in [Vec::new(), changed_snapshot()] {
        panel.last_turn = files.clone();
        panel.change_scope(Scope::LastTurn);
        assert!(panel.loading);
        assert!(panel.source.files == files);
        finish_current(&mut panel, Ok(empty_snapshot()));
        assert!(panel.source.files == files);
    }
}

#[test]
fn reopening_a_loaded_panel_keeps_its_empty_state() {
    let mut panel = fixture();
    panel.refresh();
    finish_current(&mut panel, Ok(empty_snapshot()));
    // Focusing the panel again refreshes it.
    panel.refresh();
    assert!(panel.loading);
    let generation = panel.generation;
    panel.refresh();
    assert_eq!(panel.generation, generation);
    finish(&mut panel, generation, Ok(empty_snapshot()));
    assert!(!panel.loading);
    assert!(panel.rows.is_empty());
}

#[test]
fn comments_remain_editable_after_their_file_leaves_the_diff() {
    let mut p = ReviewPanel::new(changed_snapshot());
    p.source.comments.push(ReviewComment {
        id: 1,
        path: "demo.rs".into(),
        start: 2,
        end: 2,
        old: false,
        text: "原始评论".into(),
    });
    p.source.files.clear();
    p.rebuild();
    assert!(p.rows.iter().any(|row| matches!(row, ReviewRow::Comment(1))));
    p.editing_comment = Some(1);
    assert!(p.dismiss_transient());
    assert!(p.editing_comment.is_none());
    assert_eq!(p.source.comments.len(), 1);
    assert_eq!(p.source.comments[0].text, "原始评论");
    assert_eq!(p.source.comments[0].path, "demo.rs");
}

#[test]
fn clicking_jump_result_finds_the_header_of_a_filtered_out_file() {
    let mut p = ReviewPanel::new(changed_snapshot());
    p.source.query = "no-match".into();
    p.rebuild();
    let row = p.jump_to(0);
    assert!(row.is_some());
    assert!(p.source.query.is_empty());
    assert!(matches!(p.rows[row.unwrap()], ReviewRow::Header(0)));
}
