use rift::ids::WindowId;
use rift::system::{
    send_raise_event, EventTapRequest, MenuState, RaiseEvent, Reactor, SystemEventHandler,
};

fn reactor(ffm: bool) -> Reactor<&'static str> {
    Reactor::new(ffm)
}

#[test]
fn menu_open_and_close_nest() {
    let mut r = reactor(true);
    assert!(r.focus_follows_mouse_enabled);
    SystemEventHandler::handle_menu_opened(&mut r);
    assert_eq!(r.menu_manager.menu_state, MenuState::Open(1));
    assert!(!r.focus_follows_mouse_enabled);
    SystemEventHandler::handle_menu_opened(&mut r);
    assert_eq!(r.menu_manager.menu_state, MenuState::Open(2));
    SystemEventHandler::handle_menu_closed(&mut r);
    assert_eq!(r.menu_manager.menu_state, MenuState::Open(1));
    assert!(!r.focus_follows_mouse_enabled);
    SystemEventHandler::handle_menu_closed(&mut r);
    assert_eq!(r.menu_manager.menu_state, MenuState::Closed);
    assert!(r.focus_follows_mouse_enabled);
    assert_eq!(
        r.communication_manager.event_tap_tx,
        vec![
            EventTapRequest::SetFocusFollowsMouseEnabled(false),
            EventTapRequest::SetFocusFollowsMouseEnabled(false),
            EventTapRequest::SetFocusFollowsMouseEnabled(false),
            EventTapRequest::SetFocusFollowsMouseEnabled(true),
        ]
    );
}

#[test]
fn closing_with_no_menu_open_changes_nothing() {
    let mut r = reactor(true);
    r.focus_follows_mouse_enabled = false;
    SystemEventHandler::handle_menu_closed(&mut r);
    assert_eq!(r.menu_manager.menu_state, MenuState::Closed);
    assert!(!r.focus_follows_mouse_enabled);
    assert!(r.communication_manager.event_tap_tx.is_empty());
}

#[test]
fn focus_follows_mouse_stays_off_when_not_configured() {
    let mut r = reactor(false);
    SystemEventHandler::handle_menu_opened(&mut r);
    SystemEventHandler::handle_menu_closed(&mut r);
    assert!(!r.focus_follows_mouse_enabled);
}

#[test]
fn menu_depth_saturates() {
    let mut r = reactor(true);
    r.menu_manager.menu_state = MenuState::Open(usize::MAX);
    SystemEventHandler::handle_menu_opened(&mut r);
    assert_eq!(r.menu_manager.menu_state, MenuState::Open(usize::MAX));
}

#[test]
fn wake_registers_every_window_once() {
    let mut r = reactor(true);
    r.window_manager.window_ids.insert(11, WindowId::new(1, 1));
    r.window_manager.window_ids.insert(42, WindowId::new(1, 2));
    r.window_manager.window_ids.insert(7, WindowId::new(2, 1));
    let walk: Vec<u32> = r.window_manager.window_ids.keys().copied().collect();
    let mut ids = SystemEventHandler::handle_system_woke(&mut r);
    assert_eq!(ids, walk);
    assert_eq!(r.notification_manager.last_sls_notification_ids, ids);
    ids.sort();
    assert_eq!(ids, vec![7, 11, 42]);
}

#[test]
fn wake_with_no_windows() {
    let mut r = reactor(true);
    r.notification_manager.last_sls_notification_ids = vec![3];
    let ids = SystemEventHandler::handle_system_woke(&mut r);
    assert!(ids.is_empty());
    assert!(r.notification_manager.last_sls_notification_ids.is_empty());
}

#[test]
fn raise_events_are_queued_in_order() {
    let mut r = reactor(true);
    SystemEventHandler::handle_raise_completed(&mut r, WindowId::new(3, 4), 9);
    SystemEventHandler::handle_raise_timeout(&mut r, 10);
    send_raise_event(&mut r, RaiseEvent::RaiseTimeout { sequence_id: 11 });
    assert_eq!(
        r.communication_manager.raise_manager_tx,
        vec![
            RaiseEvent::RaiseCompleted { window_id: WindowId::new(3, 4), sequence_id: 9 },
            RaiseEvent::RaiseTimeout { sequence_id: 10 },
            RaiseEvent::RaiseTimeout { sequence_id: 11 },
        ]
    );
}

#[test]
fn wm_sender_is_replaced() {
    let mut r = reactor(true);
    SystemEventHandler::handle_register_wm_sender(&mut r, "first");
    SystemEventHandler::handle_register_wm_sender(&mut r, "second");
    assert_eq!(r.communication_manager.wm_sender, Some("second"));
}
