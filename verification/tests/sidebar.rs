use echora_review::sidebar::{
    thread_row_actions, ThreadCapabilities, ThreadRowActions,
    active_threads, recent_threads, threads_of, new_conversation_target, DeleteTarget, ProjectInfo, RenameTarget, SidebarState,
};

fn project(id: &str, roots: &[&str]) -> ProjectInfo {
    ProjectInfo { project_id: id.into(), roots: roots.iter().map(|r| r.to_string()).collect() }
}

#[test]
fn a_new_conversation_uses_the_project_root_or_the_working_folder() {
    let p = project("p1", &["/work/p1", "/work/other"]);
    assert_eq!(new_conversation_target(Some(&p), Some("/cwd".into())), (Some("p1".into()), "/work/p1".into()));
    let bare = project("p2", &[]);
    assert_eq!(new_conversation_target(Some(&bare), Some("/cwd".into())), (Some("p2".into()), "/cwd".into()));
    assert_eq!(new_conversation_target(None, None), (None, String::new()));
    let mut s = SidebarState::new();
    s.selected_thread_id = Some("t1".into());
    let e = s.new_conversation(Some(&p), None);
    assert_eq!(e.project_id.as_deref(), Some("p1"));
    assert_eq!(e.cwd, "/work/p1");
    assert_eq!(s.selected_project_id.as_deref(), Some("p1"));
    assert!(s.selected_thread_id.is_none());
    let projects = vec![project("p0", &["/a"]), p.clone()];
    assert_eq!(s.conversation_target_of(&projects, None), (Some("p1".into()), "/work/p1".into()));
    s.selected_project_id = Some("gone".into());
    assert_eq!(s.conversation_target_of(&projects, Some("/cwd".into())), (None, "/cwd".into()));
}

#[test]
fn deleting_asks_first_and_deletes_on_the_second_use() {
    let mut s = SidebarState::new();
    s.thread_menu_id = Some("t1".into());
    assert!(s.confirm_or_delete(DeleteTarget::Thread("t1".into())).is_none());
    assert!(s.delete_confirmation.is_some());
    assert!(s.confirm_or_delete(DeleteTarget::Project("t1".into())).is_none());
    assert!(matches!(s.delete_confirmation, Some(DeleteTarget::Project(_))));
    let deleted = s.confirm_or_delete(DeleteTarget::Project("t1".into()));
    assert!(matches!(deleted, Some(DeleteTarget::Project(p)) if p == "t1"));
    assert!(s.delete_confirmation.is_none() && s.thread_menu_id.is_none());
}

#[test]
fn renaming_hands_the_target_to_the_store_once() {
    let mut s = SidebarState::new();
    s.project_menu_id = Some("p1".into());
    s.start_rename(RenameTarget::Project("p1".into()));
    assert!(s.rename_focus_pending && s.project_menu_id.is_none());
    let request = s.commit_rename("Renamed".into()).unwrap();
    assert!(matches!(request.target, RenameTarget::Project(p) if p == "p1"));
    assert_eq!(request.name, "Renamed");
    assert!(s.commit_rename("Again".into()).is_none());
}

#[test]
fn menus_and_pages_close_one_another() {
    let mut s = SidebarState::new();
    s.open_projects_section_menu_for_capture();
    assert!(s.projects_section_menu_is_open());
    assert!(s.open_project_menu_for_capture("p1".into(), &["p1".to_string()]));
    assert!(s.project_menu_is_open());
    assert!(!s.open_project_menu_for_capture("p9".into(), &["p1".to_string()]));
    s.set_activity_open(true);
    assert!(s.activity_open && !s.project_menu_is_open() && !s.projects_section_menu_is_open());
    assert!(s.toggle_profile_menu());
    assert!(!s.toggle_profile_menu());
    s.open_archive();
    assert!(s.archived_open && !s.activity_open);
    let e = s.select_thread("t7".into());
    assert_eq!(e.thread_id, "t7");
    assert!(!s.archived_open && s.selected_thread_id.as_deref() == Some("t7"));
    s.set_activity_hovered_thread_for_capture("t7".into(), &["t1".to_string()]);
    assert!(s.hovered_thread_id.is_none());
    s.set_activity_hovered_thread_for_capture("t1".into(), &["t1".to_string()]);
    assert_eq!(s.hovered_thread_id.as_deref(), Some("t1"));
    assert!(!s.pinned_menu_is_open());
    assert_eq!(s.resumed_thread_ready_for_capture("t7", &None, true, false), Ok(true));
    assert_eq!(s.resumed_thread_ready_for_capture("t7", &None, true, true), Ok(false));
    assert_eq!(
        s.resumed_thread_ready_for_capture("t7", &Some("offline".into()), true, false),
        Err("侧栏数据加载失败：offline".into())
    );
}

#[test]
fn project_groups_show_five_conversations_until_expanded() {
    let mut s = SidebarState::new();
    assert_eq!(s.visible_threads("p1", 3), 3);
    assert_eq!(s.visible_threads("p1", 8), 5);
    s.toggle_show_all("p1");
    assert_eq!(s.visible_threads("p1", 8), 8);
    assert_eq!(s.visible_threads("p2", 8), 5);
    s.toggle_show_all("p1");
    assert_eq!(s.visible_threads("p1", 8), 5);
}

#[test]
fn the_activity_page_lists_each_running_conversation_once() {
    let ids: Vec<String> = ["a", "b", "a", "c", "b"].iter().map(|s| s.to_string()).collect();
    let active = vec![true, false, true, true, true];
    assert_eq!(active_threads(&ids, &active), vec![0, 3]);
}

#[test]
fn lists_split_conversations_by_project_and_leave_out_pinned_ones() {
    let ids: Vec<String> = (0..14).map(|i| format!("t{i}")).collect();
    let mut projects: Vec<Option<String>> = vec![None; 14];
    projects[1] = Some("p1".into());
    projects[3] = Some("p1".into());
    let pinned = vec!["t0".to_string(), "t3".to_string()];
    assert_eq!(threads_of(&ids, &projects, &pinned, &Some("p1".into())), vec![1]);
    assert_eq!(recent_threads(&ids, &projects, &pinned), vec![2, 4, 5, 6, 7, 8, 9, 10, 11, 12]);
}

#[test]
fn thread_row_buttons_follow_the_agent_capabilities() {
    let all = ThreadCapabilities { section_move: true, section_list: true, section_create: true, archive: true, unarchive: false };
    assert_eq!(thread_row_actions(false, all, false), ThreadRowActions { pin: true, archive: true });
    assert_eq!(thread_row_actions(false, all, true), ThreadRowActions { pin: true, archive: false });
    assert_eq!(thread_row_actions(true, all, false), ThreadRowActions { pin: false, archive: false });
    let no_list = ThreadCapabilities { section_list: false, ..all };
    assert_eq!(thread_row_actions(false, no_list, false), ThreadRowActions { pin: false, archive: true });
}
