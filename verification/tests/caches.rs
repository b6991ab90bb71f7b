use echora_review::cache::{SyntaxCache, SYNTAX_BYTES, SYNTAX_LINES};
use echora_review::diff::{FileDiff, Hunk, Line, LineKind};
use echora_review::render_cache::{LineKey, RenderCache, ThemeMode};
use echora_review::tree::TreeRow;
use echora_review::word_diff::changed_span;
use std::cell::Cell;
use std::rc::Rc;
use std::sync::Arc;

fn line(kind: LineKind, old: Option<u32>, new: Option<u32>, text: &str) -> Line {
    Line {
        old,
        new,
        kind,
        text: text.into(),
    }
}

fn file(path: &str, hunks: Vec<Vec<Line>>) -> FileDiff {
    FileDiff {
        path: path.into(),
        old_path: None,
        status: 'M',
        binary: false,
        patch: String::new(),
        additions: 0,
        deletions: 0,
        old_text: None,
        new_text: None,
        hunks: hunks
            .into_iter()
            .map(|lines| Hunk {
                header: "@@ -1 +1 @@".into(),
                patch: String::new(),
                lines,
            })
            .collect(),
    }
}

fn one_change(path: &str, old: &str, new: &str) -> Vec<FileDiff> {
    vec![file(
        path,
        vec![vec![
            line(LineKind::Deleted, Some(1), None, old),
            line(LineKind::Added, None, Some(1), new),
        ]],
    )]
}

#[test]
fn syntax_cache_reuses_more_than_the_shared_sixteen_line_cache() {
    let mut cache: SyntaxCache<u32> = SyntaxCache::new();
    for i in 0..100 {
        cache.get_or_insert((format!("let line_{i} = {i};"), Some("rs"), None), Vec::new);
    }
    for i in 0..100 {
        cache.get_or_insert((format!("let line_{i} = {i};"), Some("rs"), None), || {
            panic!("reparsed a warm line")
        });
    }
    for i in 0..2000 {
        cache.get_or_insert((format!("{i}{}", "x".repeat(8192)), None, None), Vec::new);
    }
    assert!(cache.bytes() <= SYNTAX_BYTES);
    assert!(cache.len() <= SYNTAX_LINES);
    let count = cache.len();
    cache.get_or_insert(("x".repeat(SYNTAX_BYTES), None, None), Vec::new);
    assert_eq!(cache.len(), count);
}

#[test]
fn a_stored_run_is_shared_and_evicted_oldest_first() {
    let mut cache: SyntaxCache<u8> = SyntaxCache::new();
    let first = cache.get_or_insert(("a".into(), None, Some((0, 1, true))), || vec![1, 2, 3]);
    let again = cache.get_or_insert(("a".into(), None, Some((0, 1, true))), || vec![9]);
    assert!(Rc::ptr_eq(&first, &again));
    let other = cache.get_or_insert(("a".into(), None, Some((0, 1, false))), || vec![9]);
    assert_eq!(*other, vec![9]);
    assert_eq!(cache.len(), 2);
    for i in 0..SYNTAX_LINES {
        cache.get_or_insert((format!("{i}"), Some("rs"), None), Vec::new);
    }
    assert_eq!(cache.len(), SYNTAX_LINES);
    let rebuilt = cache.get_or_insert(("a".into(), None, Some((0, 1, true))), || vec![7]);
    assert_eq!(*rebuilt, vec![7]);
}

#[test]
fn tree_cache_invalidates_with_snapshot_but_not_theme() {
    let first_files = one_change("before.rs", "old", "new");
    let mut cache: RenderCache<u8> = RenderCache::new();
    let collapsed: Vec<String> = Vec::new();
    cache.prepare(1, &first_files, ThemeMode::Dark);
    let first = cache.tree.prepare("", &collapsed, || {
        first_files.iter().map(|file| file.path.as_str()).collect()
    });
    cache.prepare(1, &first_files, ThemeMode::Light);
    let recolored = cache.tree.prepare("", &collapsed, || {
        first_files.iter().map(|file| file.path.as_str()).collect()
    });
    assert!(Arc::ptr_eq(&first, &recolored));
    let changed = one_change("after.rs", "old", "new");
    cache.prepare(2, &changed, ThemeMode::Light);
    let replaced = cache.tree.prepare("", &collapsed, || {
        changed.iter().map(|file| file.path.as_str()).collect()
    });
    assert!(!Arc::ptr_eq(&first, &replaced));
    assert!(matches!(&replaced[0], TreeRow::File { index: 0, name, .. } if name == "after.rs"));
}

#[test]
fn redraw_reuses_syntax_and_invalidates_for_theme_and_snapshot_changes() {
    let first_files = one_change("a.rs", "let old = 1;", "let new = 2;");
    let parses = Cell::new(0);
    let runs = |text: &str, mode: u8| text.bytes().map(|b| b.wrapping_add(mode)).collect::<Vec<u8>>();
    let build = |language: Option<String>, text: &str, mode: u8| {
        parses.set(parses.get() + 1);
        assert_eq!(language.as_deref(), Some("rs"));
        runs(text, mode)
    };
    let mut cache: RenderCache<u8> = RenderCache::new();
    cache.prepare(1, &first_files, ThemeMode::Dark);
    let line = &first_files[0].hunks[0].lines[1];
    let first = cache.syntax_runs(0, line, |l| build(l, &line.text, 0));
    for _ in 0..20 {
        cache.prepare(1, &first_files, ThemeMode::Dark);
        assert!(Rc::ptr_eq(&first, &cache.syntax_runs(0, line, |l| build(l, &line.text, 0))));
    }
    assert_eq!(parses.get(), 1);
    cache.prepare(1, &first_files, ThemeMode::Light);
    let light = cache.syntax_runs(0, line, |l| build(l, &line.text, 1));
    assert_ne!(*first, *light);
    let changed = one_change("a.rs", "let old = 1;", "let changed = 3;");
    cache.prepare(2, &changed, ThemeMode::Dark);
    let line = &changed[0].hunks[0].lines[1];
    assert_eq!(
        *cache.syntax_runs(0, line, |l| build(l, &line.text, 0)),
        runs(&line.text, 0)
    );
    assert_eq!(parses.get(), 3);
}

#[test]
fn syntax_working_set_is_bounded_when_traversing_long_files() {
    let source = vec![file(
        "a.txt",
        vec![vec![
            line(LineKind::Deleted, Some(1), None, "x"),
            line(LineKind::Added, None, Some(1), "y"),
        ]],
    )];
    let mut cache: RenderCache<u8> = RenderCache::new();
    cache.prepare(1, &source, ThemeMode::Dark);
    for n in 0..2000 {
        let line = line(LineKind::Added, None, Some(n), &"x".repeat(8192));
        cache.syntax_runs(0, &line, |_| Vec::new());
    }
    assert!(cache.syntax_bytes() <= SYNTAX_BYTES);
    assert!(cache.syntax_len() <= SYNTAX_LINES);
}

#[test]
fn a_stale_line_is_parsed_again() {
    let source = one_change("a.rs", "a", "b");
    let mut cache: RenderCache<u8> = RenderCache::new();
    cache.prepare(1, &source, ThemeMode::Dark);
    let mut first_line = line(LineKind::Added, None, Some(1), "first");
    let first = cache.syntax_runs(0, &first_line, |_| vec![1]);
    first_line.text = "second".into();
    let second = cache.syntax_runs(0, &first_line, |_| vec![2]);
    assert_eq!(((*first).clone(), (*second).clone()), (vec![1], vec![2]));
    assert_eq!(cache.syntax_len(), 1);
}

#[test]
fn word_index_pairs_within_each_hunk_and_preserves_unicode_boundaries() {
    let source = vec![file(
        "a.rs",
        vec![
            vec![
                line(LineKind::Deleted, Some(1), None, "old 中文🙂 end"),
                line(LineKind::Added, None, Some(1), "new 中文🙂 end"),
                line(LineKind::Added, None, Some(2), "unpaired"),
                line(LineKind::Context, Some(2), Some(3), "context"),
            ],
            vec![
                line(LineKind::Deleted, Some(10000), None, "deep value"),
                line(LineKind::Added, None, Some(10001), "deep changed"),
            ],
        ],
    )];
    let mut cache: RenderCache<u8> = RenderCache::new();
    cache.prepare(1, &source, ThemeMode::Dark);
    let lines = &source[0].hunks[0].lines;
    assert_eq!(cache.word_span(0, &lines[0]), Some(0..3));
    assert_eq!(cache.word_span(0, &lines[1]), Some(0..3));
    assert_eq!(cache.word_span(0, &lines[2]), None);
    assert_eq!(cache.word_span(0, &lines[3]), None);
    let deep = &source[0].hunks[1].lines[1];
    assert_eq!(&deep.text[cache.word_span(0, deep).unwrap()], "changed");
    let digits = cache.gutter_digits();
    assert_eq!(cache.largest_line(), 10001);
    assert_eq!(digits, 5);
    let gutter = 52.5625_f32.max((digits as f32 * 7.2246 + 19.).ceil());
    assert!(gutter >= 5. * 7.2246 + 18.);
    assert_eq!(
        changed_span("相同🙂", "相同🙂"),
        "相同🙂".len().."相同🙂".len()
    );
    let a = "前🙂后";
    assert_eq!(&a[changed_span(a, "前中文后")], "🙂");
}

#[test]
fn languages_follow_extensions() {
    let files = vec![file("src/main.rs", vec![]), file("Makefile", vec![]), file("a/.hidden", vec![])];
    let mut cache: RenderCache<u8> = RenderCache::new();
    cache.prepare(7, &files, ThemeMode::Light);
    assert_eq!(cache.language(0).as_deref(), Some("rs"));
    assert_eq!(cache.language(1), None);
    assert_eq!(cache.language(2), None);
    assert_eq!(cache.language(9), None);
    assert_eq!(cache.largest_line(), 1);
    assert_eq!(cache.gutter_digits(), 1);
}

#[test]
fn a_later_entry_for_the_same_line_wins() {
    // Two hunks that reuse a source line: the later pairing is kept.
    let source = vec![file(
        "a.rs",
        vec![
            vec![
                line(LineKind::Deleted, Some(3), None, "abc"),
                line(LineKind::Added, None, Some(3), "abd"),
            ],
            vec![
                line(LineKind::Deleted, Some(3), None, "abc"),
                line(LineKind::Added, None, Some(3), "xbc"),
            ],
        ],
    )];
    let mut cache: RenderCache<u8> = RenderCache::new();
    cache.prepare(1, &source, ThemeMode::Dark);
    let key_line = &source[0].hunks[0].lines[0];
    assert_eq!(cache.word_span(0, key_line), Some(0..1));
    assert_eq!(LineKey::new(0, key_line), LineKey { file: 0, old: Some(3), new: None });
}

#[test]
fn a_cached_tree_does_not_read_the_paths_again() {
    let files = one_change("kept.rs", "old", "new");
    let mut cache: RenderCache<u8> = RenderCache::new();
    let collapsed: Vec<String> = Vec::new();
    cache.prepare(1, &files, ThemeMode::Dark);
    let first = cache.tree.prepare("", &collapsed, || files.iter().map(|file| file.path.as_str()).collect());
    let again = cache.tree.prepare("", &collapsed, || -> Vec<&str> { panic!("read the paths of a cached tree") });
    assert!(Arc::ptr_eq(&first, &again));
}
