use echora_review::diff::FileDiff;
use echora_review::pr_file_tree::{file_tree_rows, pr_tree_rows, PrTreeRow};

fn file(path: &str, status: char) -> FileDiff {
    FileDiff {
        path: path.into(),
        old_path: None,
        status,
        binary: false,
        patch: String::new(),
        additions: 0,
        deletions: 0,
        old_text: None,
        new_text: None,
        hunks: Vec::new(),
    }
}

fn files() -> Vec<FileDiff> {
    vec![
        file("src/agent/codex/a.rs", 'M'),
        file("src/agent/codex/b.rs", 'A'),
        file("src/lib.rs", 'M'),
        file("README.md", 'A'),
        file("docs/x.md", 'A'),
    ]
}

fn summary(rows: &[PrTreeRow]) -> Vec<(bool, String, String, usize, char)> {
    rows.iter()
        .map(|r| (r.folder, r.path.clone(), r.label.clone(), r.depth, r.status))
        .collect()
}

fn row(folder: bool, path: &str, label: &str, depth: usize, status: char) -> (bool, String, String, usize, char) {
    (folder, path.into(), label.into(), depth, status)
}

#[test]
fn folders_come_first_and_single_folder_chains_are_joined() {
    let all = files();
    let refs: Vec<&FileDiff> = all.iter().collect();
    let rows = pr_tree_rows(&refs, &Vec::new(), &Some("src/lib.rs".into()));
    assert_eq!(
        summary(&rows),
        vec![
            row(true, "src", "src", 0, 'M'),
            row(true, "src/agent", "agent/codex", 1, 'M'),
            row(false, "src/agent/codex/a.rs", "a.rs", 2, 'M'),
            row(false, "src/agent/codex/b.rs", "b.rs", 2, 'A'),
            row(false, "src/lib.rs", "lib.rs", 1, 'M'),
            row(true, "docs", "docs", 0, 'A'),
            row(false, "docs/x.md", "x.md", 1, 'A'),
            row(false, "README.md", "README.md", 0, 'A'),
        ]
    );
    assert!(rows[4].selected);
    assert!(rows.iter().filter(|r| r.selected).count() == 1);
}

#[test]
fn a_folded_folder_hides_what_is_under_it() {
    let all = files();
    let refs: Vec<&FileDiff> = all.iter().collect();
    let rows = pr_tree_rows(&refs, &vec!["src/agent".to_string()], &None);
    assert_eq!(rows.len(), 6);
    assert!(rows[1].collapsed && rows[1].folder);
    assert_eq!(rows[2].path, "src/lib.rs");
}

#[test]
fn the_filter_keeps_matching_paths_ignoring_case_and_spaces() {
    let all = files();
    let refs: Vec<&FileDiff> = all.iter().collect();
    let rows = file_tree_rows(&refs, "  CODEX ", &Vec::new(), &None);
    assert_eq!(
        summary(&rows),
        vec![
            row(true, "src", "src/agent/codex", 0, 'M'),
            row(false, "src/agent/codex/a.rs", "a.rs", 1, 'M'),
            row(false, "src/agent/codex/b.rs", "b.rs", 1, 'A'),
        ]
    );
    assert_eq!(file_tree_rows(&refs, "   ", &Vec::new(), &None).len(), 8);
    assert!(file_tree_rows(&refs, "nothing", &Vec::new(), &None).is_empty());
}
