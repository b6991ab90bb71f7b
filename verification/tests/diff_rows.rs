use echora_review::diff::{FileDiff, Hunk, Line, LineKind};
use echora_review::diff_rows::{
    diff_partners, DiffViewport, InlineComment, PullRequestsView, Row, RowKind, RowsKey,
};

fn line(kind: LineKind, old: Option<u32>, new: Option<u32>, text: &str) -> Line {
    Line {
        old,
        new,
        kind,
        text: text.into(),
    }
}

fn file(path: &str, header: &str, lines: Vec<Line>) -> FileDiff {
    FileDiff {
        path: path.into(),
        old_path: None,
        status: 'M',
        binary: false,
        patch: String::new(),
        additions: 1,
        deletions: 1,
        old_text: None,
        new_text: None,
        hunks: vec![Hunk {
            header: header.into(),
            patch: String::new(),
            lines,
        }],
    }
}

fn view() -> PullRequestsView {
    PullRequestsView {
        diff: vec![
            file(
                "a.rs",
                "@@ -1 +1 @@",
                vec![
                    line(LineKind::Deleted, Some(1), None, "old"),
                    line(LineKind::Added, None, Some(1), "new"),
                ],
            ),
            file(
                "b.rs",
                "@@ -4 +4 @@",
                vec![
                    line(LineKind::Deleted, Some(4), None, "before"),
                    line(LineKind::Added, None, Some(4), "after"),
                ],
            ),
        ],
        file_lines: Vec::new(),
        inline_comment: None,
        detail_generation: 0,
        mutation_pending: false,
        notice: None,
    }
}

fn key() -> RowsKey {
    RowsKey {
        generation: 1,
        count: 2,
        loading: false,
        filter: String::new(),
        collapsed: Vec::new(),
        expanded: Vec::new(),
        split: false,
        rich: false,
    }
}

#[test]
fn row_index_filters_collapses_and_preserves_original_file_indices() {
    let mut view = view();
    let mut key = key();
    let rows = view.build_diff_rows(&key);
    assert_eq!(rows.len(), 7);
    assert_eq!(rows[3], Row { file: 1, kind: RowKind::Header });
    assert_eq!(rows[4].kind, RowKind::Gap { hunk: 0, count: 3 });
    key.filter = "b.rs".into();
    assert_eq!(view.build_diff_rows(&key)[0].file, 1);
    key.collapsed.push("b.rs".into());
    assert_eq!(view.build_diff_rows(&key), vec![Row { file: 1, kind: RowKind::Header }]);
    key.collapsed.clear();
    key.expanded.push(("b.rs".into(), 0));
    view.file_lines.push((
        "b.rs".into(),
        vec!["one".into(), "two".into(), "three".into(), "after".into()],
    ));
    key.split = true;
    let rows = view.build_diff_rows(&key);
    assert_eq!(rows.len(), 5);
    assert_eq!(rows[3].kind, RowKind::Context { hunk: 0, number: 3 });
    assert_eq!(rows[4].kind, RowKind::Code { hunk: 0, left: Some(0), right: Some(1) });
}

#[test]
fn split_and_unified_rows_share_source_anchors() {
    let deleted = Row {
        file: 2,
        kind: RowKind::Code {
            hunk: 3,
            left: Some(4),
            right: None,
        },
    };
    let split = Row {
        file: 2,
        kind: RowKind::Code {
            hunk: 3,
            left: Some(4),
            right: Some(5),
        },
    };
    assert!(deleted.same_anchor(split));
    assert!(!deleted.same_anchor(Row { file: 7, ..split }));
    let viewport = DiffViewport {
        rows: vec![Row {
            file: 2,
            kind: RowKind::Header,
        }],
        partners: Vec::new(),
    };
    assert_eq!(viewport.restore(Some(deleted)), (0, false));
}

#[test]
fn restore_keeps_the_offset_only_on_the_exact_row() {
    let rows = vec![
        Row { file: 0, kind: RowKind::Header },
        Row { file: 1, kind: RowKind::Header },
        Row { file: 1, kind: RowKind::Code { hunk: 0, left: None, right: Some(1) } },
    ];
    let viewport = DiffViewport { rows, partners: Vec::new() };
    let anchor = Row { file: 1, kind: RowKind::Code { hunk: 0, left: Some(0), right: Some(1) } };
    assert_eq!(viewport.restore(Some(anchor)), (2, true));
    let gone = Row { file: 1, kind: RowKind::Code { hunk: 4, left: Some(0), right: None } };
    assert_eq!(viewport.restore(Some(gone)), (1, false));
    assert_eq!(viewport.restore(Some(Row { file: 9, kind: RowKind::Preview })), (0, false));
    assert_eq!(viewport.restore(None), (0, false));
    assert_eq!(viewport.file_row(1), Some(1));
    assert_eq!(viewport.file_row(5), None);
}

#[test]
fn rebuild_scrolls_back_to_the_top_row_of_the_same_data() {
    let view = view();
    let key = key();
    let mut viewport = DiffViewport { rows: Vec::new(), partners: Vec::new() };
    viewport.rebuild(&view, &key, true, false, 0);
    assert_eq!(viewport.partner(0, 0, 0), Some(1));
    assert_eq!(viewport.partner(1, 0, 1), Some(0));
    assert_eq!(viewport.partner(3, 0, 0), None);
    let mut split = key.clone();
    split.split = true;
    // The deleted line of b.rs was at the top; in the split view it shares a row.
    assert_eq!(viewport.rebuild(&view, &split, false, true, 5), (4, true));
    assert_eq!(viewport.rows.len(), 5);
    assert_eq!(viewport.rebuild(&view, &key, false, false, 3), (0, false));
}

#[test]
fn the_inline_comment_sits_under_its_own_line() {
    let mut view = view();
    view.inline_comment = Some(InlineComment {
        path: "b.rs".into(),
        line: 4,
        old: true,
    });
    let rows = view.build_diff_rows(&key());
    let under: Vec<usize> = (0..rows.len()).filter(|&i| view.row_has_inline(rows[i])).collect();
    assert_eq!(under, vec![5]);
    view.inline_comment.as_mut().unwrap().old = false;
    let under: Vec<usize> = (0..rows.len()).filter(|&i| view.row_has_inline(rows[i])).collect();
    assert_eq!(under, vec![6]);
    view.inline_comment = None;
    assert!(!view.row_has_inline(rows[6]));
}

#[test]
fn preview_binary_and_expanded_context_rows() {
    let mut view = view();
    view.diff[0].path = "README.md".into();
    view.diff[1].binary = true;
    let mut key = key();
    key.rich = true;
    let rows = view.build_diff_rows(&key);
    assert_eq!(
        rows,
        vec![
            Row { file: 0, kind: RowKind::Header },
            Row { file: 0, kind: RowKind::Preview },
            Row { file: 1, kind: RowKind::Header },
            Row { file: 1, kind: RowKind::Binary },
        ]
    );
    view.diff[0].status = 'D';
    let rows = view.build_diff_rows(&key);
    assert_eq!(rows[1].kind, RowKind::Code { hunk: 0, left: Some(0), right: None });
    // Expanded context with two loaded lines shows only what is loaded.
    view.diff[1].binary = false;
    view.file_lines.push(("b.rs".into(), vec!["1".into(), "2".into()]));
    key.expanded.push(("b.rs".into(), 0));
    let rows = view.build_diff_rows(&key);
    assert_eq!(rows[3].kind, RowKind::Header);
    assert_eq!(rows[4].kind, RowKind::Context { hunk: 0, number: 1 });
    assert_eq!(rows[5].kind, RowKind::Context { hunk: 0, number: 2 });
    assert_eq!(rows[6].kind, RowKind::Code { hunk: 0, left: Some(0), right: None });
    assert_eq!(diff_partners(&view.diff)[1][0], vec![Some(1), Some(0)]);
}

#[test]
fn later_hunks_start_after_the_previous_hunk() {
    let mut view = view();
    view.diff.truncate(1);
    view.diff[0].hunks.push(Hunk {
        header: "@@ -10,2 +10,2 @@".into(),
        patch: String::new(),
        lines: vec![line(LineKind::Context, Some(10), Some(10), "x")],
    });
    let rows = view.build_diff_rows(&key());
    // Hunk 0 ends at line 1, so lines 2..=9 are hidden before hunk 1.
    assert_eq!(rows[3].kind, RowKind::Gap { hunk: 1, count: 8 });
}
