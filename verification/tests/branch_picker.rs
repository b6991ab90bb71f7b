use echora_review::branch_picker::{BranchPicker, BranchPickerEvent, PickerKey};

fn names() -> Vec<String> {
    vec![
        "codex/command-approval-variants".into(),
        "codex/english-language-support".into(),
        "codex/integrate-approvals-20260909".into(),
        "main".into(),
        "origin/main".into(),
        "codex/修复-很长的分支名称-支持中文和省略号".into(),
        format!("codex/{}", "x".repeat(200)),
        "fix/review-panel-interactions-20260920".into(),
    ]
}

fn picker(names: &[String]) -> BranchPicker {
    let mut picker = BranchPicker::new();
    picker.prepare(names, "origin/main");
    picker
}

#[test]
fn long_branch_rows_have_uniform_bounds_in_both_themes_and_widths() {
    let picker = picker(&names());
    assert_eq!(picker.matches.len(), 8);
    assert_eq!(picker.current, "origin/main");
    assert_eq!(picker.branches[0], "origin/main");
    assert!(picker.branches.iter().any(|name| name == "main"));
}

#[test]
fn the_entire_row_selects_the_complete_untruncated_ref() {
    let picker = picker(&names());
    // Row 0 is the current base; row 1 is the long command-approval ref.
    let events: Vec<BranchPickerEvent> = (0..3).filter_map(|_| picker.activate(1)).collect();
    assert_eq!(
        events,
        vec![BranchPickerEvent::Selected("codex/command-approval-variants".into()); 3]
    );
}

#[test]
fn searching_is_case_insensitive_and_keeps_unicode_and_ref_identity() {
    let mut picker = picker(&names());
    picker.filter("COMMAND-APPROVAL-VARIANTS");
    assert_eq!(picker.matches.len(), 1);
    assert_eq!(
        picker.key_down(PickerKey::Enter, true),
        Some(BranchPickerEvent::Selected("codex/command-approval-variants".into()))
    );
    picker.filter("支持中文");
    assert_eq!(picker.matches.len(), 1);
    assert_eq!(
        picker.branches[picker.matches[0]],
        "codex/修复-很长的分支名称-支持中文和省略号"
    );
}

#[test]
fn keyboard_navigation_scrolls_without_changing_row_heights() {
    let branches = (0..40)
        .map(|index| format!("codex/integrate-approvals-{index:03}"))
        .collect::<Vec<_>>();
    let mut picker = picker(&branches);
    assert_eq!(picker.key_down(PickerKey::Up, true), None);
    assert_eq!(picker.selected, 39);
    assert!(picker.keyboard_selection);
    assert_eq!(
        picker.key_down(PickerKey::Enter, true),
        Some(BranchPickerEvent::Selected(branches[39].clone()))
    );
}

#[test]
fn empty_results_do_not_activate_and_reopening_resets_search_and_scroll() {
    let mut picker = picker(&names());
    picker.filter("no-such-branch");
    let mut events = Vec::new();
    for key in [PickerKey::Up, PickerKey::Down, PickerKey::Enter] {
        events.extend(picker.key_down(key, true));
    }
    assert!(picker.matches.is_empty());
    assert!(events.is_empty());
    assert_eq!(picker.key_down(PickerKey::Escape, true), Some(BranchPickerEvent::Dismissed));
    picker.prepare(&names(), "main");
    assert_eq!(picker.matches.len(), 8);
    assert_eq!(picker.branches[0], "main");
    assert_eq!(picker.current, "main");
    assert_eq!(picker.selected, 0);
}

#[test]
fn home_and_end_belong_to_the_search_field_while_it_is_focused() {
    let mut picker = picker(&names());
    picker.key_down(PickerKey::End, true);
    assert_eq!(picker.selected, 0);
    picker.key_down(PickerKey::End, false);
    assert_eq!(picker.selected, 7);
    picker.key_down(PickerKey::Down, false);
    assert_eq!(picker.selected, 0);
    picker.key_down(PickerKey::End, false);
    picker.key_down(PickerKey::Home, false);
    assert_eq!(picker.selected, 0);
    picker.filter("  MAIN ");
    assert_eq!(picker.matches.len(), 2);
}
