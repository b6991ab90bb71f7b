use echora_review::activity::{activity_feed, feed_cards, review_thread_entries, ThreadComment, TimelineItem, TimelineKind};

fn item(kind: TimelineKind, at: &str, actor: &str, comment: Option<&str>) -> TimelineItem {
    TimelineItem {
        kind,
        at: at.into(),
        actor: actor.into(),
        age: String::new(),
        comment_id: comment.map(|c| c.to_string()),
    }
}

fn actors(items: &[TimelineItem]) -> Vec<String> {
    items.iter().map(|i| i.actor.clone()).collect()
}

#[test]
fn without_timeline_the_feed_is_opened_comments_then_threads() {
    let feed = activity_feed(
        Vec::new(),
        item(TimelineKind::Opened, "", "author", None),
        vec![item(TimelineKind::Comment, "", "c1", Some("1")), item(TimelineKind::Comment, "", "c2", Some("2"))],
        vec![item(TimelineKind::Comment, "2024-01-01T00:00:00Z", "t1", Some("9"))],
    );
    assert_eq!(actors(&feed), vec!["author", "c1", "c2", "t1"]);
}

#[test]
fn thread_comments_are_put_back_in_time_order() {
    let feed = activity_feed(
        vec![
            item(TimelineKind::Opened, "2024-01-01T00:00:00Z", "open", None),
            item(TimelineKind::Event, "2024-01-03T00:00:00Z", "push", None),
            item(TimelineKind::Comment, "2024-01-05T00:00:00Z", "late", Some("5")),
        ],
        item(TimelineKind::Opened, "", "ignored", None),
        vec![item(TimelineKind::Comment, "2024-01-09T00:00:00Z", "ignored too", Some("1"))],
        vec![
            item(TimelineKind::Comment, "2024-01-04T00:00:00Z", "thread", Some("7")),
            item(TimelineKind::Comment, "2024-01-03T00:00:00Z", "same time", Some("8")),
        ],
    );
    assert_eq!(actors(&feed), vec!["open", "push", "same time", "thread", "late"]);
}

#[test]
fn comment_entries_without_their_comment_get_no_card() {
    let cards = feed_cards(
        vec![
            item(TimelineKind::Opened, "", "open", None),
            item(TimelineKind::Comment, "", "known", Some("1")),
            item(TimelineKind::Comment, "", "gone", Some("2")),
            item(TimelineKind::Comment, "", "no id", None),
            item(TimelineKind::Event, "", "event", None),
        ],
        &vec!["1".to_string()],
    );
    assert_eq!(actors(&cards), vec!["open", "known", "event"]);
}

#[test]
fn review_thread_comments_become_comment_entries_in_order() {
    let comment = |id: &str, author: &str| ThreadComment {
        id: id.into(),
        author: author.into(),
        at: format!("2024-01-0{id}T00:00:00Z"),
        age: "1d".into(),
    };
    let entries = review_thread_entries(&vec![vec![comment("1", "a"), comment("2", "b")], vec![], vec![comment("3", "c")]]);
    assert_eq!(actors(&entries), vec!["a", "b", "c"]);
    assert!(entries.iter().all(|e| e.kind == TimelineKind::Comment));
    assert_eq!(entries[2].comment_id.as_deref(), Some("3"));
    assert_eq!(entries[1].at, "2024-01-02T00:00:00Z");
}
