use echora_review::diff::{line_partners, split_pairs, word_spans, FileDiff, Hunk, Line, LineKind};
use echora_review::hunk_header::{hunk_new_end, hunk_new_start, parse_u32_chars};

fn kinds(list: &[LineKind]) -> Vec<Line> {
    list.iter()
        .map(|kind| Line {
            old: None,
            new: None,
            text: String::new(),
            kind: *kind,
        })
        .collect()
}

#[test]
fn split_diff_pairs_replacements_without_crossing_context() {
    let lines = kinds(&[
        LineKind::Context,
        LineKind::Deleted,
        LineKind::Deleted,
        LineKind::Added,
        LineKind::Context,
        LineKind::Added,
    ]);
    assert_eq!(
        split_pairs(&lines),
        vec![
            (Some(0), Some(0)),
            (Some(1), Some(3)),
            (Some(2), None),
            (Some(4), Some(4)),
            (None, Some(5))
        ]
    );
}

#[test]
fn partners_are_mutual_and_skip_context() {
    let lines = kinds(&[
        LineKind::Deleted,
        LineKind::Deleted,
        LineKind::Added,
        LineKind::Context,
        LineKind::Added,
        LineKind::Deleted,
    ]);
    let partners = line_partners(&lines);
    assert_eq!(partners, vec![Some(2), None, Some(0), None, None, None]);
    for (j, p) in partners.iter().enumerate() {
        if let Some(p) = p {
            assert_eq!(partners[*p], Some(j));
        }
    }
}

#[test]
fn word_spans_follow_partners() {
    let mut lines = kinds(&[LineKind::Deleted, LineKind::Added, LineKind::Context]);
    lines[0].text = "let a = 1;".into();
    lines[1].text = "let a = 22;".into();
    lines[2].text = "}".into();
    let spans = word_spans(&lines);
    assert_eq!(spans, vec![Some(8..9), Some(8..10), None]);
}

#[test]
fn hunk_headers_give_the_old_side_range() {
    assert_eq!(hunk_new_start("@@ -1,3 +1,4 @@"), Some(1));
    assert_eq!(hunk_new_end("@@ -1,3 +1,4 @@"), Some(3));
    assert_eq!(hunk_new_start("@@ -10 +12 @@ fn main()"), Some(10));
    assert_eq!(hunk_new_end("@@ -10 +12 @@ fn main()"), Some(10));
    assert_eq!(hunk_new_start("@@ -5,2 +7,3 @@"), Some(5));
    assert_eq!(hunk_new_end("@@ -5,2 +7,3 @@"), Some(6));
    assert_eq!(hunk_new_end("@@ -5,0 +7,3 @@"), Some(5));
    assert_eq!(hunk_new_start("@@ -5,2 @@"), Some(5));
    assert_eq!(hunk_new_start("@@ @@"), None);
    assert_eq!(hunk_new_start("no header"), None);
    assert_eq!(hunk_new_start("@@ -x +1 @@"), None);
    assert_eq!(hunk_new_end("@@ -9,y +1 @@"), Some(9));
}

#[test]
fn numbers_parse_as_u32_from_str_does() {
    let parse = |s: &str| parse_u32_chars(&s.chars().collect());
    assert_eq!(parse("42"), Some(42));
    assert_eq!(parse("+7"), Some(7));
    assert_eq!(parse("4294967295"), Some(u32::MAX));
    assert_eq!(parse("4294967296"), None);
    assert_eq!(parse(""), None);
    assert_eq!(parse("+"), None);
    assert_eq!(parse("1a"), None);
    for s in ["0", "17", "+3", "99999999999", "-1", "12 "] {
        assert_eq!(parse(s), s.parse::<u32>().ok());
    }
}

#[test]
fn a_file_diff_holds_its_hunks() {
    let file = FileDiff {
        path: "a.rs".into(),
        old_path: None,
        status: 'M',
        binary: false,
        patch: String::new(),
        additions: 1,
        deletions: 1,
        old_text: None,
        new_text: None,
        hunks: vec![Hunk {
            header: "@@ -1 +1 @@".into(),
            patch: String::new(),
            lines: kinds(&[LineKind::Deleted, LineKind::Added]),
        }],
    };
    assert_eq!(split_pairs(&file.hunks[0].lines), vec![(Some(0), Some(1))]);
}
