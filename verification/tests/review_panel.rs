use echora_review::diff::{FileDiff, Hunk, Line, LineKind};
use echora_review::review_panel::{pull_request_base, Menu, MenuKey, ReviewPanel, ReviewPreferences};
use echora_review::review_rows::{Draft, ReviewComment, ReviewRow};

fn line(kind: LineKind, old: Option<u32>, new: Option<u32>, text: &str) -> Line {
    Line {
        old,
        new,
        kind,
        text: text.into(),
    }
}

fn file(path: &str, lines: Vec<Line>) -> FileDiff {
    FileDiff {
        path: path.into(),
        old_path: None,
        status: 'M',
        binary: false,
        patch: format!("patch of {path}"),
        additions: 1,
        deletions: 1,
        old_text: None,
        new_text: None,
        hunks: vec![Hunk {
            header: "@@ -1 +1 @@".into(),
            patch: String::new(),
            lines,
        }],
    }
}

fn demo() -> Vec<FileDiff> {
    vec![file(
        "demo.rs",
        vec![
            line(LineKind::Context, Some(1), Some(1), "alpha βeta"),
            line(LineKind::Deleted, Some(2), None, "old 中文"),
            line(LineKind::Added, None, Some(2), "new 中文🙂"),
            line(LineKind::Context, Some(3), Some(3), "omega"),
        ],
    )]
}

fn two_files() -> ReviewPanel {
    let files = vec![
        file("alpha.rs", vec![line(LineKind::Deleted, Some(1), None, "fn before() {}"), line(LineKind::Added, None, Some(1), "fn after() {}")]),
        file("beta.rs", vec![line(LineKind::Deleted, Some(1), None, "fn before() {}"), line(LineKind::Added, None, Some(1), "fn after() {}")]),
    ];
    let mut panel = ReviewPanel::new(files);
    panel.source.query = "alpha".into();
    panel.rebuild();
    panel
}

#[test]
fn native_keyboard_menu_and_select_all_copy_work_in_the_diff() {
    let mut panel = ReviewPanel::new(demo());
    panel.toggle_menu(Menu::View);
    panel.menu_key(MenuKey::Down, 6);
    panel.menu_key(MenuKey::Down, 6);
    assert_eq!(panel.menu_selected, 2);
    assert!(panel.dismiss_transient());
    assert!(panel.menu.is_none());
    panel.select_all();
    assert_eq!(
        panel.copy_selection(),
        Some("alpha βeta\nold 中文\nnew 中文🙂\nomega".into())
    );
}

#[test]
fn clicking_jump_result_reveals_a_filtered_out_file() {
    let mut panel = two_files();
    let beta = panel.matching_files("beta")[0];
    panel.toggle_menu(Menu::Jump);
    let row = panel.jump_to(beta);
    let selected = panel.selected_file;
    assert_eq!(panel.source.files[selected].path, "beta.rs");
    assert!(panel.source.query.is_empty());
    assert!(panel.menu.is_none());
    assert!(panel.rows.iter().any(|row| matches!(row, ReviewRow::Header(i) if *i == selected)));
    assert_eq!(row.map(|k| &panel.rows[k]), Some(&ReviewRow::Header(selected)));
}

#[test]
fn jump_input_submission_also_reveals_a_filtered_out_file() {
    let mut panel = two_files();
    panel.toggle_menu(Menu::Jump);
    let target = panel.matching_files("beta");
    assert_eq!(target, vec![1]);
    panel.jump_to(target[0]);
    assert_eq!(panel.source.files[panel.selected_file].path, "beta.rs");
    assert!(panel.source.query.is_empty());
    assert!(panel.menu.is_none());
}

#[test]
fn jump_preserves_a_matching_filter_and_ignores_an_invalid_target() {
    let mut panel = two_files();
    let alpha = panel
        .source
        .files
        .iter()
        .position(|file| file.path == "alpha.rs")
        .unwrap();
    panel.jump_to(alpha);
    assert_eq!(panel.source.query, "alpha");
    assert_eq!(panel.jump_to(usize::MAX), None);
    assert_eq!(panel.selected_file, alpha);
    assert_eq!(panel.source.query, "alpha");
}

#[test]
fn a_new_branch_never_reuses_the_checked_out_branch_pr() {
    let mut panel = two_files();
    let url = "https://example.invalid/existing-pr";
    panel.pr_existing = Some(url.into());
    assert_eq!(panel.existing_pr_for_head(), Some(url));
    panel.set_new_branch(true);
    assert_eq!(panel.existing_pr_for_head(), None);
    assert_eq!(panel.pr_existing.as_deref(), Some(url));
    panel.set_new_branch(false);
    assert_eq!(panel.existing_pr_for_head(), Some(url));
}

#[test]
fn a_lookup_finishing_after_new_branch_selection_stays_hidden() {
    let mut panel = two_files();
    panel.set_new_branch(true);
    let url = "https://example.invalid/late-existing-pr";
    panel.pr_existing = Some(url.into());
    assert_eq!(panel.existing_pr_for_head(), None);
    panel.set_new_branch(false);
    assert_eq!(panel.existing_pr_for_head(), Some(url));
}

#[test]
fn comments_sit_under_their_line_and_orphans_stay_at_the_end() {
    let mut panel = ReviewPanel::new(demo());
    panel.source.comments = vec![
        ReviewComment { id: 1, path: "demo.rs".into(), start: 2, end: 2, old: false, text: "on new".into() },
        ReviewComment { id: 2, path: "demo.rs".into(), start: 2, end: 2, old: true, text: "on old".into() },
        ReviewComment { id: 3, path: "gone.rs".into(), start: 1, end: 1, old: false, text: "orphan".into() },
    ];
    panel.source.draft = Some(Draft { file: 0, start: 3, end: 3, old: false });
    panel.rebuild();
    let kinds: Vec<String> = panel
        .rows
        .iter()
        .map(|row| match row {
            ReviewRow::Header(_) => "H".into(),
            ReviewRow::Hunk(..) => "@".into(),
            ReviewRow::Code { right, .. } => format!("C{}", right.as_ref().map(|l| l.text.as_str()).unwrap_or("")),
            ReviewRow::Comment(id) => format!("#{id}"),
            ReviewRow::Draft => "D".into(),
            _ => "?".into(),
        })
        .collect();
    assert_eq!(
        kinds,
        vec!["H", "@", "Calpha βeta", "Cold 中文", "#2", "Cnew 中文🙂", "#1", "Comega", "D", "#3"]
    );
    panel.source.split = true;
    panel.rebuild();
    assert!(matches!(&panel.rows[3], ReviewRow::Code { left: Some(l), right: Some(r), .. } if l.text == "old 中文" && r.text == "new 中文🙂"));
    assert_eq!(panel.rows[4], ReviewRow::Comment(1));
    assert_eq!(panel.rows[5], ReviewRow::Comment(2));
}

#[test]
fn folding_viewing_and_unfolding_all() {
    let mut panel = two_files();
    panel.source.query.clear();
    panel.toggle_file(0);
    assert_eq!(panel.source.collapsed, vec!["alpha.rs".to_string()]);
    panel.toggle_file(0);
    assert!(panel.source.collapsed.is_empty());
    panel.toggle_all();
    assert_eq!(panel.source.collapsed.len(), 2);
    assert_eq!(panel.rows, vec![ReviewRow::Header(0), ReviewRow::Header(1)]);
    panel.toggle_all();
    assert!(panel.source.collapsed.is_empty());
    panel.toggle_viewed(1);
    assert_eq!(panel.viewed, vec![("beta.rs".to_string(), "patch of beta.rs".to_string())]);
    assert_eq!(panel.source.collapsed, vec!["beta.rs".to_string()]);
    let mut changed = panel.source.files.clone();
    changed[1].patch = "new patch".into();
    panel.forget_changed_views(&changed);
    assert!(panel.viewed.is_empty());
    assert!(panel.source.collapsed.is_empty());
    panel.toggle_viewed(0);
    panel.toggle_viewed(0);
    assert!(panel.viewed.is_empty());
}

#[test]
fn operations_run_one_at_a_time_and_push_after_commit() {
    let mut panel = two_files();
    assert!(panel.begin_operation());
    assert!(!panel.begin_operation());
    panel.push_after_commit = true;
    panel.commit_open = true;
    let follow = panel.finish_operation(Ok("Committed".into()));
    assert!(follow.push_next && !follow.refresh);
    assert_eq!(follow.notice.as_deref(), Some("Committed"));
    assert!(!panel.commit_open && !panel.busy);
    panel.pr_open = true;
    let follow = panel.finish_operation(Ok("https://example.invalid/pr/1".into()));
    assert!(follow.opened_pull_request && follow.notice.is_none() && follow.refresh);
    let follow = panel.finish_operation(Err("rejected".into()));
    assert_eq!(panel.display_error().as_deref(), Some("rejected"));
    assert!(follow.refresh && !follow.push_next);
}

#[test]
fn refresh_results_apply_only_to_the_latest_load() {
    let mut panel = two_files();
    let first = panel.refresh().unwrap();
    assert_eq!(panel.refresh(), None);
    assert!(!panel.finish_refresh::<()>(first + 1, &Ok(())));
    assert!(panel.loading);
    assert!(!panel.finish_refresh::<()>(first, &Err("offline".into())));
    assert_eq!(panel.display_error().as_deref(), Some("offline"));
    let second = panel.refresh().unwrap();
    assert!(panel.finish_refresh::<()>(second, &Ok(())));
    assert!(panel.error.is_none() && !panel.loading);
    panel.active = true;
    assert!(panel.auto_refresh_due(true));
    assert!(!panel.auto_refresh_due(false));
}

#[test]
fn preferences_round_trip() {
    let mut panel = two_files();
    let prefs = ReviewPreferences {
        split: true,
        wrap: true,
        load_files: false,
        rich: true,
        words: true,
        ignore_whitespace: true,
        tree_open: false,
    };
    let generation = panel.generation;
    assert_eq!(panel.apply_preferences(prefs), Some(generation + 2));
    assert_eq!(panel.preferences(), prefs);
}

#[test]
fn pull_requests_target_main_then_master_then_upstream() {
    let names = |list: &[&str]| list.iter().map(|s| s.to_string()).collect::<Vec<_>>();
    assert_eq!(pull_request_base(&names(&["dev", "origin/main"]), &None, "dev"), "main");
    assert_eq!(pull_request_base(&names(&["master"]), &Some("origin/x".into()), "y"), "master");
    assert_eq!(pull_request_base(&names(&["dev"]), &Some("origin/release".into()), "dev"), "release");
    assert_eq!(pull_request_base(&names(&[]), &None, "origin/origin/topic"), "topic");
    assert_eq!(pull_request_base(&names(&[]), &None, "feature"), "feature");
}
