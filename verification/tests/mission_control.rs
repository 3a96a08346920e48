use rift::ids::WindowId;
use rift::mission_control::{
    Event, MissionControlAction, MissionControlActor, MissionControlEffect as E,
    MissionControlViewMode as Mode,
};

#[test]
fn start_builds_overlay_when_enabled() {
    let mut a = MissionControlActor::new(true);
    assert_eq!(a.start(), vec![E::CreateOverlay]);
    assert!(a.state().has_overlay);
    let mut b = MissionControlActor::new(false);
    assert!(b.start().is_empty());
    assert!(!b.state().has_overlay);
}

#[test]
fn show_all_then_toggle_off() {
    let mut a = MissionControlActor::new(true);
    assert_eq!(
        a.receive(Event::ShowAll),
        vec![E::CreateOverlay, E::ShowEmpty(Mode::AllWorkspaces), E::ShowWorkspaces]
    );
    assert!(a.state().mission_control_active);
    assert_eq!(a.state().current_view_mode, Some(Mode::AllWorkspaces));
    assert_eq!(a.receive(Event::ShowAll), vec![E::HideOverlay]);
    assert!(!a.state().mission_control_active);
    assert!(!a.state().has_overlay);
    assert_eq!(a.state().current_view_mode, None);
}

#[test]
fn show_current_with_existing_overlay() {
    let mut a = MissionControlActor::new(true);
    a.start();
    assert_eq!(
        a.receive(Event::ShowCurrent),
        vec![E::ShowEmpty(Mode::CurrentWorkspace), E::ShowActiveSpaceWindows]
    );
    assert_eq!(a.receive(Event::ShowAll), vec![E::HideOverlay]);
}

#[test]
fn refresh_depends_on_mode() {
    let mut a = MissionControlActor::new(true);
    assert!(a.receive(Event::RefreshCurrentWorkspace).is_empty());
    a.receive(Event::ShowAll);
    assert_eq!(a.receive(Event::RefreshCurrentWorkspace), vec![E::RefreshActiveWorkspace]);
    assert!(a.state().mission_control_active);
    a.receive(Event::Dismiss);
    a.receive(Event::ShowCurrent);
    assert_eq!(
        a.receive(Event::RefreshCurrentWorkspace),
        vec![E::ShowEmpty(Mode::CurrentWorkspace), E::ShowActiveSpaceWindows]
    );
}

#[test]
fn dismiss_without_overlay() {
    let mut a = MissionControlActor::new(true);
    assert!(a.receive(Event::Dismiss).is_empty());
    assert!(!a.state().mission_control_active);
}

#[test]
fn disabled_actor_ignores_events() {
    let mut a = MissionControlActor::new(false);
    assert!(a.receive(Event::ShowAll).is_empty());
    assert!(!a.state().mission_control_active);
    assert!(!a.state().has_overlay);
}

#[test]
fn overlay_actions_message_then_close() {
    let mut a = MissionControlActor::new(true);
    a.receive(Event::ShowAll);
    assert_eq!(
        a.handle_overlay_action(MissionControlAction::SwitchToWorkspace(3)),
        vec![E::SwitchToWorkspace(3), E::HideOverlay]
    );
    assert!(!a.state().mission_control_active);
    a.receive(Event::ShowCurrent);
    let w = WindowId::new(8, 2);
    assert_eq!(
        a.handle_overlay_action(MissionControlAction::FocusWindow { window_id: w, window_server_id: Some(77) }),
        vec![E::FocusWindow { window_id: w, window_server_id: Some(77) }, E::HideOverlay]
    );
    assert_eq!(a.handle_overlay_action(MissionControlAction::Dismiss), Vec::<E>::new());
}
