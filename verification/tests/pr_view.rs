use echora_review::diff::{FileDiff, Hunk, Line, LineKind};
use echora_review::diff_rows::{Row, RowKind, DiffViewport};
use echora_review::pr_view::{merge_button, merge_label, pending_file_scroll, summary_scope_label, MergeState, PrStatus};

fn file(path: &str) -> FileDiff {
    FileDiff {
        path: path.into(),
        old_path: None,
        status: 'M',
        binary: false,
        patch: String::new(),
        additions: 1,
        deletions: 0,
        old_text: None,
        new_text: None,
        hunks: vec![Hunk {
            header: "@@ -1 +1 @@".into(),
            patch: String::new(),
            lines: vec![Line { old: None, new: Some(1), kind: LineKind::Added, text: "x".into() }],
        }],
    }
}

#[test]
fn a_pending_jump_scrolls_to_the_file_header_once_the_code_is_shown() {
    let files = vec![file("a.rs"), file("b.rs")];
    let viewport = DiffViewport {
        rows: vec![
            Row { file: 0, kind: RowKind::Header },
            Row { file: 1, kind: RowKind::Header },
        ],
        partners: Vec::new(),
    };
    let pending = Some("b.rs".to_string());
    assert_eq!(pending_file_scroll(&files, &viewport, &pending, false, false), (None, true));
    assert_eq!(pending_file_scroll(&files, &viewport, &pending, true, true), (None, true));
    assert_eq!(pending_file_scroll(&files, &viewport, &pending, true, false), (Some(1), false));
    let missing = Some("c.rs".to_string());
    assert_eq!(pending_file_scroll(&files, &viewport, &missing, true, false), (None, false));
    assert_eq!(pending_file_scroll(&Vec::new(), &viewport, &missing, true, false), (None, true));
    assert_eq!(pending_file_scroll(&files, &viewport, &None, true, false), (None, false));
}

#[test]
fn the_scope_label_shows_seven_characters_of_a_commit() {
    assert_eq!(summary_scope_label(&None), "All PR changes");
    assert_eq!(summary_scope_label(&Some("0123456789".into())), "Commit 0123456");
    assert_eq!(summary_scope_label(&Some("abc".into())), "Commit abc");
    assert_eq!(summary_scope_label(&Some("abcdeé12".into())), "Commit abcdeé");
    assert_eq!(summary_scope_label(&Some("abcdefé1".into())), "Commit abcdefé1");
}

#[test]
fn merge_is_offered_only_for_a_loaded_open_ready_pull_request() {
    assert_eq!(merge_button(Some(PrStatus::Open), Some(PrStatus::Open), false), (true, MergeState::Ready));
    assert_eq!(merge_button(Some(PrStatus::Open), Some(PrStatus::Open), true), (false, MergeState::Saving));
    assert_eq!(merge_button(None, Some(PrStatus::Open), false), (false, MergeState::Loading));
    assert_eq!(merge_button(Some(PrStatus::Open), Some(PrStatus::Merged), false), (false, MergeState::Closed));
    assert_eq!(merge_button(Some(PrStatus::Draft), Some(PrStatus::Open), false), (false, MergeState::Draft));
    assert_eq!(merge_label(MergeState::Ready), "Merge");
    assert_eq!(merge_label(MergeState::Draft), "Merge unavailable: Mark as \"Ready for review\" to merge");
    assert_eq!(merge_label(MergeState::Closed), "Merge unavailable: pull request is closed");
}
