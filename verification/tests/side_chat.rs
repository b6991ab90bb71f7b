use echora_review::side_chat::{
    chat_key, ChatKey, ChatKeyOutcome, CloseRequest, Dismissal, SideChatDestination, SideChatPanel,
};

fn panel_with(n: usize) -> SideChatPanel {
    let mut panel = SideChatPanel::new(false);
    for i in 0..n {
        let title = match panel.new_tab_number() {
            None => "Side chat".to_string(),
            Some(k) => format!("Side chat {k}"),
        };
        assert_eq!(panel.new_chat(true, title), Some((i as u64 + 1, 1)));
    }
    panel
}

fn ids(panel: &SideChatPanel) -> Vec<u64> {
    panel.tabs.iter().map(|tab| tab.id).collect()
}

#[test]
fn new_chats_get_fresh_ids_and_numbered_titles() {
    let panel = panel_with(3);
    assert_eq!(ids(&panel), vec![1, 2, 3]);
    assert_eq!(panel.tabs[0].title, "Side chat");
    assert_eq!(panel.tabs[2].title, "Side chat 3");
    assert_eq!(panel.active, Some(3));
    assert!(panel.tabs.iter().all(|tab| tab.loading && tab.cycle == 1));
    let mut none = SideChatPanel::new(false);
    assert_eq!(none.new_chat(false, "x".into()), None);
    assert!(none.is_empty());
}

#[test]
fn closing_the_active_tab_activates_its_neighbour() {
    let mut panel = panel_with(3);
    panel.activate(2);
    assert!(panel.close_tab(2));
    assert_eq!(ids(&panel), vec![1, 3]);
    assert_eq!(panel.active, Some(3));
    assert!(panel.close_tab(3));
    assert_eq!(panel.active, Some(1));
    assert!(!panel.close_tab(3));
    assert!(panel.close_tab(1));
    assert_eq!(panel.active, None);
    assert!(panel.is_empty());
}

#[test]
fn closing_a_background_tab_keeps_the_active_one() {
    let mut panel = panel_with(3);
    assert!(panel.close_tab(1));
    assert_eq!(panel.active, Some(3));
}

#[test]
fn ctrl_tab_cycles_round_the_strip() {
    let mut panel = panel_with(3);
    assert_eq!(panel.cycle_target(false), Some(1));
    assert_eq!(panel.cycle_target(true), Some(2));
    panel.activate(1);
    assert_eq!(panel.cycle_target(true), Some(3));
    let next = panel.cycle_target(false).unwrap();
    panel.activate(next);
    assert_eq!(panel.cycle_target(true), Some(1));
}

#[test]
fn reordering_moves_a_tab_before_another_and_activates_it() {
    let mut panel = panel_with(4);
    assert_eq!(panel.reorder_tab(4, 2), Some(1));
    assert_eq!(ids(&panel), vec![1, 4, 2, 3]);
    assert_eq!(panel.active, Some(4));
    assert_eq!(panel.reorder_tab(1, 3), Some(3));
    assert_eq!(ids(&panel), vec![4, 2, 3, 1]);
    assert_eq!(panel.reorder_tab(1, 99), None);
    assert_eq!(ids(&panel), vec![4, 2, 3, 1]);
}

#[test]
fn a_tab_with_messages_asks_before_closing() {
    let mut panel = panel_with(2);
    assert_eq!(panel.request_close(9, true), CloseRequest::Absent);
    assert_eq!(panel.request_close(1, true), CloseRequest::Confirming);
    assert_eq!(panel.close_confirmation, Some(1));
    panel.toggle_remember();
    assert_eq!(panel.confirm_close(), Some(true));
    assert!(panel.skip_confirmation);
    assert_eq!(ids(&panel), vec![2]);
    assert_eq!(panel.request_close(2, true), CloseRequest::Closed);
    assert!(panel.is_empty());
    assert_eq!(panel.confirm_close(), None);
}

#[test]
fn escape_closes_the_confirmation_then_the_menu() {
    let mut panel = panel_with(1);
    panel.open_menu();
    panel.request_close(1, true);
    assert_eq!(panel.dismiss_transient(), Dismissal::Confirmation);
    assert_eq!(panel.dismiss_transient(), Dismissal::Menu);
    assert_eq!(panel.dismiss_transient(), Dismissal::Nothing);
}

#[test]
fn the_add_menu_wraps_and_opens_panels() {
    let mut panel = panel_with(1);
    panel.toggle_menu();
    assert!(panel.menu_open);
    assert_eq!(panel.menu_index, 4);
    panel.menu_down();
    assert_eq!(panel.menu_index, 0);
    panel.menu_up();
    panel.menu_up();
    assert_eq!(panel.menu_index, 3);
    assert_eq!(panel.select_menu(panel.menu_index), Some(SideChatDestination::Files));
    assert!(!panel.menu_open);
    assert_eq!(panel.select_menu(0), Some(SideChatDestination::Review));
    assert_eq!(panel.select_menu(1), Some(SideChatDestination::Terminal));
    assert_eq!(panel.select_menu(2), Some(SideChatDestination::Browser));
    assert_eq!(panel.select_menu(4), None);
}

#[test]
fn stale_open_replies_are_dropped() {
    let mut panel = panel_with(1);
    assert_eq!(panel.open_tab(1, true), Some(2));
    assert!(panel.finish_open(1, 1, None));
    assert!(panel.tabs[0].loading);
    assert!(!panel.finish_open(1, 2, Some("closed".into())));
    assert!(!panel.tabs[0].loading);
    assert_eq!(panel.tabs[0].error.as_deref(), Some("closed"));
    assert!(panel.finish_open(7, 1, None));
    assert_eq!(panel.open_tab(1, false), None);
}

#[test]
fn a_background_tab_that_finishes_is_unread() {
    let mut panel = panel_with(2);
    panel.conversation_changed(1, Some("Named".into()), true);
    panel.conversation_changed(1, None, false);
    assert_eq!(panel.tabs[0].title, "Named");
    assert!(panel.tabs[0].unread);
    assert_eq!(panel.activate(1), Some(0));
    assert!(!panel.tabs[0].unread);
    panel.set_visible(false);
    panel.conversation_changed(1, None, true);
    panel.conversation_changed(1, None, false);
    assert!(panel.tabs[0].unread);
    panel.set_visible(true);
    assert!(!panel.tabs[0].unread);
}

#[test]
fn focus_waits_for_the_confirmation() {
    let mut panel = panel_with(1);
    panel.request_close(1, true);
    assert_eq!(panel.take_focus(), None);
    panel.cancel_close();
    assert_eq!(panel.take_focus(), Some(1));
    assert_eq!(panel.take_focus(), None);
    assert!(panel.set_fullscreen(true));
    assert!(!panel.set_fullscreen(true));
}

#[test]
fn keys_close_cycle_and_dismiss() {
    assert_eq!(chat_key("w", true, false, false), ChatKey::CloseTab);
    assert_eq!(chat_key("w", false, false, false), ChatKey::Other);
    assert_eq!(chat_key("tab", false, true, true), ChatKey::PreviousTab);
    assert_eq!(chat_key("tab", false, true, false), ChatKey::NextTab);
    assert_eq!(chat_key("escape", false, false, false), ChatKey::Escape);
    let mut panel = panel_with(3);
    assert_eq!(panel.handle_key(ChatKey::NextTab, false), ChatKeyOutcome::Cycled(Some(0)));
    assert_eq!(panel.active, Some(1));
    assert_eq!(panel.handle_key(ChatKey::PreviousTab, false), ChatKeyOutcome::Cycled(Some(2)));
    assert_eq!(panel.active, Some(3));
    assert_eq!(
        panel.handle_key(ChatKey::CloseTab, true),
        ChatKeyOutcome::Close(Some(CloseRequest::Confirming))
    );
    assert_eq!(panel.handle_key(ChatKey::Escape, false), ChatKeyOutcome::Dismissed(Dismissal::Confirmation));
    assert_eq!(panel.handle_key(ChatKey::Escape, false), ChatKeyOutcome::Dismissed(Dismissal::Nothing));
    assert_eq!(panel.handle_key(ChatKey::CloseTab, false), ChatKeyOutcome::Close(Some(CloseRequest::Closed)));
    assert_eq!(ids(&panel), vec![1, 2]);
    assert_eq!(panel.handle_key(ChatKey::Other, false), ChatKeyOutcome::Ignored);
    let mut empty = SideChatPanel::new(false);
    assert_eq!(empty.handle_key(ChatKey::CloseTab, true), ChatKeyOutcome::Close(None));
    assert_eq!(empty.handle_key(ChatKey::NextTab, true), ChatKeyOutcome::Cycled(None));
}
