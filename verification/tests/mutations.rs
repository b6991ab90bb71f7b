use echora_review::diff_rows::PullRequestsView;

#[derive(Clone, Debug, PartialEq)]
struct Detail {
    title: String,
}

fn detail(title: &str) -> Detail {
    Detail { title: title.into() }
}

fn view() -> PullRequestsView {
    PullRequestsView {
        diff: Vec::new(),
        file_lines: Vec::new(),
        inline_comment: None,
        detail_generation: 0,
        mutation_pending: false,
        notice: None,
    }
}

#[test]
fn failed_write_keeps_draft_and_displays_the_real_error() {
    let mut view = view();
    view.mutation_pending = true;
    let generation = view.detail_generation;
    let outcome = view.finish_mutation::<Detail>(generation, "saved", Err("permission denied".into()));
    // The success step (which would clear the draft) does not run.
    assert!(!outcome.run_on_success);
    assert!(outcome.install.is_none());
    assert_eq!(view.notice.as_deref(), Some("GitHub: permission denied"));
    assert!(!view.mutation_pending);
}

#[test]
fn late_success_cannot_update_another_selection_or_clear_its_draft() {
    let mut view = view();
    view.detail_generation = 2;
    let outcome = view.finish_mutation(1, "saved", Ok(Ok(detail("other PR"))));
    assert!(!outcome.run_on_success);
    assert!(outcome.install.is_none());
    assert!(outcome.refresh_list);
}

#[test]
fn successful_write_uses_readback_and_distinguishes_refresh_failure() {
    let mut view = view();
    let generation = view.detail_generation;
    let outcome = view.finish_mutation(generation, "saved", Ok(Ok(detail("server title"))));
    assert_eq!(outcome.install.unwrap().title, "server title");
    assert!(outcome.run_on_success);
    assert_eq!(view.notice.as_deref(), Some("saved"));
    let outcome = view.finish_mutation::<Detail>(generation, "saved", Ok(Err("offline".into())));
    assert!(outcome.install.is_none());
    assert_eq!(
        view.notice.as_deref(),
        Some("Saved to GitHub; refresh failed: offline")
    );
}

#[test]
fn duplicate_submissions_are_not_dispatched() {
    let mut view = view();
    view.mutation_pending = true;
    assert_eq!(view.mutate(), None);
    assert!(view.mutation_pending);
}

#[test]
fn a_write_starts_with_the_selection_generation() {
    let mut view = view();
    view.detail_generation = 5;
    assert_eq!(view.mutate(), Some(5));
    assert!(view.mutation_pending);
    assert_eq!(view.notice.as_deref(), Some("Saving to GitHub…"));
    assert_eq!(view.mutate(), None);
}

#[test]
fn a_finished_write_keeps_the_loaded_file_lines() {
    let mut view = view();
    view.file_lines.push(("same.rs".into(), vec!["content".into()]));
    let generation = view.mutate().unwrap();
    view.finish_mutation::<Detail>(generation, "saved", Err("offline".into()));
    assert_eq!(view.file_lines.len(), 1);
    assert_eq!(view.file_lines[0].1, vec!["content".to_string()]);
    assert!(!view.mutation_pending);
}
