use echora_review::diff::{FileDiff, Hunk, Line, LineKind};
use echora_review::review_actions::Action;
use echora_review::review_keys::{panel_key, KeyOutcome, PanelKey, ScrollKey};
use echora_review::review_menus::FileChange;
use echora_review::review_panel::{Menu, ReviewPanel};

fn panel() -> ReviewPanel {
    ReviewPanel::new(vec![FileDiff {
        path: "demo.rs".into(),
        old_path: None,
        status: 'M',
        binary: false,
        patch: "p".into(),
        additions: 1,
        deletions: 1,
        old_text: None,
        new_text: None,
        hunks: vec![Hunk {
            header: "@@ -1 +1 @@".into(),
            patch: String::new(),
            lines: vec![
                Line { old: Some(1), new: None, kind: LineKind::Deleted, text: "old 中文".into() },
                Line { old: None, new: Some(1), kind: LineKind::Added, text: "new 中文🙂".into() },
            ],
        }],
    }])
}

fn press(p: &mut ReviewPanel, name: &str, cmd: bool) -> KeyOutcome<FileChange> {
    p.key_down(panel_key(name), cmd, false, false, 9)
}

#[test]
fn key_names_are_recognised() {
    assert_eq!(panel_key("escape"), PanelKey::Escape);
    assert_eq!(panel_key("pagedown"), PanelKey::PageDown);
    assert_eq!(panel_key("r"), PanelKey::Char('r'));
    assert_eq!(panel_key("f12"), PanelKey::Other);
}

#[test]
fn menu_keys_move_and_choose_and_escape_closes() {
    let mut p = panel();
    p.toggle_menu(Menu::View);
    assert!(matches!(press(&mut p, "down", false), KeyOutcome::MenuMoved));
    assert!(matches!(press(&mut p, "down", false), KeyOutcome::MenuMoved));
    assert_eq!(p.menu_selected, 2);
    assert!(matches!(press(&mut p, "up", false), KeyOutcome::MenuMoved));
    assert_eq!(p.menu_selected, 1);
    assert!(matches!(press(&mut p, "end", false), KeyOutcome::MenuMoved));
    assert_eq!(p.menu_selected, 8);
    assert!(matches!(press(&mut p, "enter", false), KeyOutcome::Activate(Menu::View, 8)));
    assert!(matches!(press(&mut p, "x", false), KeyOutcome::Ignored));
    assert!(matches!(press(&mut p, "escape", false), KeyOutcome::Dismissed(true)));
    assert!(p.menu.is_none());
    assert!(matches!(press(&mut p, "escape", false), KeyOutcome::Dismissed(false)));
}

#[test]
fn select_all_then_copy_takes_the_new_side() {
    let mut p = panel();
    assert!(matches!(press(&mut p, "c", true), KeyOutcome::Copy(None)));
    assert!(matches!(press(&mut p, "a", true), KeyOutcome::SelectedAll));
    match press(&mut p, "c", true) {
        KeyOutcome::Copy(Some(text)) => assert_eq!(text, "old 中文\nnew 中文🙂"),
        _ => panic!("copy expected"),
    }
    assert!(matches!(press(&mut p, "pageup", false), KeyOutcome::Scroll(ScrollKey::PageUp)));
}

#[test]
fn command_shortcuts_commit_reload_and_find() {
    let mut p = panel();
    p.commit_open = true;
    p.pr_open = true;
    assert!(matches!(press(&mut p, "enter", true), KeyOutcome::Run(Action::CreatePullRequest(false))));
    p.pr_open = false;
    assert!(matches!(press(&mut p, "enter", true), KeyOutcome::Run(Action::SaveCommit)));
    p.commit_open = false;
    assert!(matches!(press(&mut p, "r", true), KeyOutcome::Reload(Some(1))));
    assert!(matches!(press(&mut p, "r", true), KeyOutcome::Reload(None)));
    p.tree_open = false;
    assert!(matches!(press(&mut p, "f", true), KeyOutcome::FocusFilter));
    assert!(p.tree_open);
    let r: KeyOutcome<FileChange> = p.key_down(PanelKey::Char('f'), true, false, true, 0);
    assert!(matches!(r, KeyOutcome::FocusJump));
    assert_eq!(p.menu, Some(Menu::Jump));
    let r: KeyOutcome<FileChange> = p.key_down(PanelKey::Down, false, true, false, 3);
    assert!(matches!(r, KeyOutcome::Ignored));
    assert_eq!(p.menu_selected, 0);
}
