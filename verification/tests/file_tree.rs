use echora_review::tree::{TreeCache, TreeRow};
use std::cell::Cell;
use std::sync::Arc;

fn indices(rows: &[TreeRow]) -> Vec<usize> {
    rows.iter()
        .filter_map(|row| match row {
            TreeRow::File { index, .. } => Some(*index),
            TreeRow::Folder { .. } => None,
        })
        .collect()
}

#[test]
fn scroll_redraws_do_not_visit_snapshot_paths() {
    let paths: Vec<String> = (0..20_000)
        .map(|i| format!("src/group-{}/file-{i}.rs", i / 100))
        .collect();
    let visits = Cell::new(0);
    let list = || {
        paths
            .iter()
            .map(|path| {
                visits.set(visits.get() + 1);
                path.as_str()
            })
            .collect::<Vec<&str>>()
    };
    let collapsed: Vec<String> = Vec::new();
    let mut cache = TreeCache::default();
    let first = cache.prepare("", &collapsed, list);
    assert_eq!(visits.get(), paths.len());
    assert_eq!(indices(&first).len(), paths.len());
    for _ in 0..100 {
        assert!(Arc::ptr_eq(&first, &cache.prepare("", &collapsed, list)));
    }
    assert_eq!(visits.get(), paths.len(), "redraw must not rescan files");
}

#[test]
fn filter_and_folder_changes_keep_snapshot_indices_and_unicode_names() {
    let paths = [
        "src/深/Alpha.rs",
        "src/深/Beta.rs",
        "src/other.rs",
        "README.md",
    ];
    let mut cache = TreeCache::default();
    let mut collapsed: Vec<String> = Vec::new();
    let all = cache.prepare("", &collapsed, || paths.to_vec());
    assert_eq!(indices(&all), vec![0, 1, 2, 3]);
    assert_eq!(
        all.iter()
            .filter(|r| matches!(r, TreeRow::Folder { .. }))
            .count(),
        2
    );
    let filtered = cache.prepare("BETA", &collapsed, || paths.to_vec());
    assert_eq!(indices(&filtered), vec![1]);
    assert!(
        matches!(&filtered[1], TreeRow::Folder { path, name, depth: 1, .. }
        if path == "src/深" && name == "深")
    );
    collapsed.push("src/深".into());
    let folded = cache.prepare("", &collapsed, || paths.to_vec());
    assert_eq!(indices(&folded), vec![2, 3]);
    assert!(matches!(
        &folded[1],
        TreeRow::Folder {
            collapsed: true,
            ..
        }
    ));
    collapsed.push("src".into());
    let parent_folded = cache.prepare("", &collapsed, || paths.to_vec());
    assert_eq!(parent_folded.len(), 2);
    assert_eq!(indices(&parent_folded), vec![3]);
    collapsed.clear();
    assert_eq!(*cache.prepare("", &collapsed, || paths.to_vec()), *all);
    assert!(cache.prepare("not-present", &collapsed, || paths.to_vec()).is_empty());
}

#[test]
fn snapshot_invalidation_and_empty_results_are_cached() {
    let mut cache = TreeCache::default();
    let collapsed: Vec<String> = Vec::new();
    let first = cache.prepare("", &collapsed, || vec!["before.rs"]);
    cache.invalidate();
    let next = cache.prepare("", &collapsed, || vec!["after.rs"]);
    assert!(!Arc::ptr_eq(&first, &next));
    assert!(matches!(&next[0], TreeRow::File { name, .. } if name == "after.rs"));
    cache.invalidate();
    let empty = cache.prepare("", &collapsed, Vec::new);
    assert!(empty.is_empty());
    let never_visited = || -> Vec<&str> { panic!("a cached empty result must not rescan the snapshot") };
    assert!(Arc::ptr_eq(
        &empty,
        &cache.prepare("", &collapsed, never_visited)
    ));
}
