use echora_review::word_diff::changed_span;

#[test]
fn word_highlights_keep_unicode_boundaries() {
    for (before, after, changed) in [
        ("let 名 = 1;", "let 名 = 2;", "1"),
        ("a😀c", "a🦀c", "😀"),
        ("same", "same", ""),
        ("abc", "ab", "c"),
    ] {
        assert_eq!(&before[changed_span(before, after)], changed);
    }
}

#[test]
fn identical_lines_have_an_empty_span_at_their_end() {
    assert_eq!(
        changed_span("相同🙂", "相同🙂"),
        "相同🙂".len().."相同🙂".len()
    );
    let a = "前🙂后";
    assert_eq!(&a[changed_span(a, "前中文后")], "🙂");
}

#[test]
fn prefix_and_suffix_never_overlap() {
    // "aa" against "aaa": the prefix takes both characters, the suffix none.
    assert_eq!(changed_span("aa", "aaa"), 2..2);
    assert_eq!(changed_span("aaa", "aa"), 2..3);
    assert_eq!(changed_span("", "x"), 0..0);
    assert_eq!(changed_span("x", ""), 0..1);
}
