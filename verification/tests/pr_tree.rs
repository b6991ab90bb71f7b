use echora_review::diff::FileDiff;
use echora_review::pr_tree::{file_glyph, file_name, language_for, tree_children, tree_status};

fn file(path: &str, status: char) -> FileDiff {
    FileDiff {
        path: path.into(),
        old_path: None,
        status,
        binary: false,
        patch: String::new(),
        additions: 0,
        deletions: 0,
        old_text: None,
        new_text: None,
        hunks: Vec::new(),
    }
}

#[test]
fn children_are_direct_files_and_first_seen_folders() {
    let files = vec![
        file("src/agent/codex/a.rs", 'A'),
        file("src/lib.rs", 'M'),
        file("src/agent/b.rs", 'A'),
        file("src/ui/c.rs", 'A'),
        file("README.md", 'M'),
    ];
    let refs: Vec<&FileDiff> = files.iter().collect();
    assert_eq!(tree_children("", &refs), (true, vec!["src".to_string()]));
    assert_eq!(
        tree_children("src/", &refs),
        (true, vec!["src/agent".to_string(), "src/ui".to_string()])
    );
    assert_eq!(
        tree_children("src/agent/", &refs[..1]),
        (false, vec!["src/agent/codex".to_string()])
    );
    assert_eq!(tree_status(&refs), ('M', false));
    assert_eq!(tree_status(&[&files[0], &files[2]]), ('A', true));
    assert_eq!(tree_status(&[]), ('M', false));
}

#[test]
fn names_icons_and_languages_come_from_the_path() {
    assert_eq!(file_name("src/agent/codex.rs"), "codex.rs");
    assert_eq!(file_name("README.md"), "README.md");
    assert_eq!(file_glyph("src/main.rs"), "markdown-file-rust");
    assert_eq!(file_glyph("docs/guide.md"), "markdown-file-document");
    assert_eq!(file_glyph("Makefile"), "panel-files");
    assert_eq!(language_for("src/main.rs"), Some("rs"));
    assert_eq!(language_for("web/app.mjs"), Some("javascript"));
    assert_eq!(language_for("notes.md"), Some("markdown"));
    assert_eq!(language_for("Makefile"), None);
    assert_eq!(language_for("a.tar.gz"), None);
    assert_eq!(language_for("c"), Some("c"));
}
