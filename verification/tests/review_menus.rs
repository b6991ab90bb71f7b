use echora_review::diff::{FileDiff, Hunk, Line, LineKind};
use echora_review::review_actions::{Action, ActionEffect};
use echora_review::review_menus::{FileChange, MenuSource};
use echora_review::review_panel::{Menu, ReviewPanel, Scope};

fn file(path: &str, additions: usize, deletions: usize) -> FileDiff {
    FileDiff {
        path: path.into(),
        old_path: None,
        status: 'M',
        binary: false,
        patch: format!("patch of {path}"),
        additions,
        deletions,
        old_text: None,
        new_text: None,
        hunks: vec![Hunk {
            header: "@@ -1 +1 @@".into(),
            patch: String::new(),
            lines: vec![Line { old: None, new: Some(1), kind: LineKind::Added, text: "x".into() }],
        }],
    }
}

fn panel() -> ReviewPanel {
    ReviewPanel::new(vec![file("src/Alpha.rs", 3, 1), file("docs/beta.md", 2, 5)])
}

fn source() -> MenuSource {
    MenuSource {
        branch: "topic".into(),
        upstream: None,
        branches: vec!["origin/main".into(), "dev".into(), "main".into(), "origin/dev".into(), "bugfix".into()],
        commits: vec![("0123456789abcdef".into(), "Fix parser".into()), ("abc".into(), "Short".into())],
        root: "/repo".into(),
        jump_query: "ALPHA".into(),
    }
}

#[test]
fn scope_menu_ticks_the_active_comparison() {
    let mut p = panel();
    let src = source();
    p.scope = Scope::LastTurn;
    let entries = p.menu_entries(Menu::Scope, &src);
    let labels: Vec<&str> = entries.iter().map(|e| e.label.as_str()).collect();
    assert_eq!(labels, vec!["上一轮", "未提交", "未暂存", "已暂存", "已提交", "分支"]);
    assert_eq!(entries[0].trailing, Some("check"));
    assert_eq!(entries[4].trailing, Some("review-chevron-right"));
    assert!(entries[1].separator_before && entries[4].separator_before);
    assert!(matches!(&entries[5].action, Action::Scope(Scope::Branch(b)) if b == "main"));
    p.scope = Scope::Commit("abc".into());
    let entries = p.menu_entries(Menu::Scope, &src);
    assert_eq!(entries[0].trailing, None);
    assert_eq!(entries[4].trailing, Some("check"));
    let mut upstream = source();
    upstream.upstream = Some("origin/topic".into());
    upstream.branches = vec!["dev".into()];
    let entries = p.menu_entries(Menu::Scope, &upstream);
    assert!(matches!(&entries[5].action, Action::Scope(Scope::Branch(b)) if b == "origin/topic"));
    upstream.upstream = None;
    let entries = p.menu_entries(Menu::Scope, &upstream);
    assert!(matches!(&entries[5].action, Action::Scope(Scope::Branch(b)) if b == "HEAD"));
}

#[test]
fn view_menu_labels_say_what_choosing_does() {
    let mut p = panel();
    let src = source();
    let entries = p.menu_entries(Menu::View, &src);
    assert_eq!(entries.len(), 9);
    assert_eq!(entries[0].leading, Some("review-refresh"));
    assert_eq!(entries[1].label, "启用自动换行");
    assert_eq!(entries[3].label, "折叠全部差异");
    assert!(entries[4].separator_before);
    assert_eq!(entries[8].label, "复制 git apply 命令");
    p.wrap = true;
    p.source.collapsed = vec!["src/Alpha.rs".into(), "docs/beta.md".into()];
    let entries = p.menu_entries(Menu::View, &src);
    assert_eq!(entries[1].label, "禁用自动换行");
    assert_eq!(entries[3].label, "展开全部差异");
}

#[test]
fn base_branches_are_sorted_without_origin_and_without_repeats() {
    let p = panel();
    let entries = p.menu_entries(Menu::PullRequestBase, &source());
    let labels: Vec<&str> = entries.iter().map(|e| e.label.as_str()).collect();
    assert_eq!(labels, vec!["bugfix", "dev", "main"]);
    assert!(matches!(&entries[1].action, Action::PrBase(b) if b == "dev"));
}

#[test]
fn commit_entries_show_seven_characters_of_the_hash() {
    let p = panel();
    let entries = p.menu_entries(Menu::Commits, &source());
    assert_eq!(entries[0].label, "0123456  Fix parser");
    assert_eq!(entries[1].label, "abc  Short");
    assert!(matches!(&entries[0].action, Action::Scope(Scope::Commit(c)) if c == "0123456789abcdef"));
}

#[test]
fn jump_and_branch_menus_list_their_items() {
    let p = panel();
    let src = source();
    let jump = p.menu_entries(Menu::Jump, &src);
    assert_eq!(jump.len(), 1);
    assert_eq!(jump[0].label, "src/Alpha.rs");
    assert!(matches!(jump[0].action, Action::Jump(0)));
    let branches = p.menu_entries(Menu::Branch, &src);
    assert_eq!(branches.len(), 5);
    assert_eq!(branches[0].label, "origin/main");
    let git = p.menu_entries(Menu::Git, &src);
    assert!(matches!(git[0].action, Action::Commit) && matches!(git[1].action, Action::PullRequest));
    let commit_branch = p.menu_entries(Menu::CommitBranch, &src);
    assert_eq!(commit_branch[0].label, "topic");
    assert!(matches!(commit_branch[1].action, Action::NewBranch(true)));
}

#[test]
fn file_menu_offers_git_changes_only_over_the_working_tree() {
    let mut p = panel();
    let src = source();
    p.scope = Scope::Branch("main".into());
    let entries = p.menu_entries(Menu::File(1), &src);
    assert_eq!(entries.len(), 4);
    assert!(matches!(&entries[2].action, Action::Copy(c) if c == "docs/beta.md"));
    assert!(matches!(&entries[3].action, Action::Copy(c) if c.ends_with("docs/beta.md") && c.starts_with("/repo")));
    let joined = std::path::Path::new("/repo").join("docs/beta.md").to_string_lossy().into_owned();
    assert!(matches!(&entries[3].action, Action::Copy(c) if *c == joined));
    let mut slash = source();
    slash.root = "/repo/".into();
    let entries = p.menu_entries(Menu::File(1), &slash);
    let joined = std::path::Path::new("/repo/").join("docs/beta.md").to_string_lossy().into_owned();
    assert!(matches!(&entries[3].action, Action::Copy(c) if *c == joined && !c.contains("//")));
    p.scope = Scope::Staged;
    let entries = p.menu_entries(Menu::File(1), &src);
    assert_eq!(entries.len(), 6);
    assert_eq!(entries[4].label, "取消暂存");
    assert!(matches!(&entries[4].action, Action::Mutation(FileChange::Unstage(f)) if f == "docs/beta.md"));
    assert!(matches!(&entries[5].action, Action::Confirm(FileChange::Discard(f)) if f == "docs/beta.md"));
    p.scope = Scope::Unstaged;
    let entries = p.menu_entries(Menu::File(0), &src);
    assert!(matches!(&entries[4].action, Action::Mutation(FileChange::Stage(f)) if f == "src/Alpha.rs"));
}

#[test]
fn activating_a_menu_entry_acts_on_it() {
    let mut p = panel();
    let src = source();
    let actions = p.menu_actions(Menu::View, &src);
    assert_eq!(actions[1].0, "启用自动换行");
    assert!(!p.wrap);
    let result = p.activate_menu(Menu::View, 1, &src, "").unwrap();
    assert!(p.wrap);
    assert!(result.save.is_some());
    assert!(p.activate_menu(Menu::View, 9, &src, "").is_none());
    let result = p.activate_menu(Menu::File(0), 0, &src, "").unwrap();
    assert!(matches!(result.effect, ActionEffect::OpenFile(0)));
    assert_eq!(p.counts(), (5, 6));
}
