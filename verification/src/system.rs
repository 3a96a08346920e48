use vstd::prelude::*;
use std::collections::HashMap;
use vstd::std_specs::iter::IteratorSpec;
use crate::ids::{WindowId, WindowServerId};
use crate::keys::map_keys;

verus! {

/// How many menus are open at present. `Open(d)` always has `d >= 1`.
#[derive(Clone, Copy, Debug, PartialEq, Eq, Structural)]
pub enum MenuState {
    Closed,
    Open(usize),
}

/// The menu state after one more menu has opened.
pub open spec fn menu_after_open(s: MenuState) -> MenuState {
    match s {
        MenuState::Closed => MenuState::Open(1),
        MenuState::Open(d) => MenuState::Open(
            if d == usize::MAX { d } else { (d + 1) as usize },
        ),
    }
}

/// The menu state after one menu has closed.
pub open spec fn menu_after_close(s: MenuState) -> MenuState {
    match s {
        MenuState::Closed => MenuState::Closed,
        MenuState::Open(d) => if d <= 1 {
            MenuState::Closed
        } else {
            MenuState::Open((d - 1) as usize)
        },
    }
}

pub struct MenuManager {
    pub menu_state: MenuState,
}

/// The reactor's record of the windows it knows, by window-server id.
pub struct WindowManager {
    pub window_ids: HashMap<WindowServerId, WindowId>,
}

pub struct NotificationManager {
    /// The window-server ids that notifications were last registered for.
    pub last_sls_notification_ids: Vec<u32>,
}

/// A message for the actor that raises windows.
#[derive(Clone, Copy, Debug, PartialEq, Eq, Structural)]
pub enum RaiseEvent {
    RaiseCompleted { window_id: WindowId, sequence_id: u64 },
    RaiseTimeout { sequence_id: u64 },
}

/// A request for the event tap.
#[derive(Clone, Copy, Debug, PartialEq, Eq, Structural)]
pub enum EventTapRequest {
    SetFocusFollowsMouseEnabled(bool),
}

/// The reactor's outgoing channels. Messages for the event tap and the raise
/// manager wait in `event_tap_tx` and `raise_manager_tx` until the event loop
/// hands them on; `S` is the type of the channel to the window-manager
/// controller.
pub struct CommunicationManager<S> {
    /// Requests for the event tap, waiting to be handed on.
    pub event_tap_tx: Vec<EventTapRequest>,
    pub raise_manager_tx: Vec<RaiseEvent>,
    pub wm_sender: Option<S>,
}

pub struct Reactor<S> {
    pub menu_manager: MenuManager,
    pub window_manager: WindowManager,
    pub notification_manager: NotificationManager,
    pub communication_manager: CommunicationManager<S>,
    /// Whether the user configured focus to follow the mouse.
    pub focus_follows_mouse_setting: bool,
    /// Whether focus follows the mouse right now.
    pub focus_follows_mouse_enabled: bool,
}

impl<S> Reactor<S> {
    /// A reactor with no menus open, no windows, nothing queued and no
    /// controller channel.
    pub fn new(focus_follows_mouse: bool) -> (r: Reactor<S>)
        ensures
            r.menu_manager.menu_state == MenuState::Closed,
            r.window_manager.window_ids@.is_empty(),
            r.notification_manager.last_sls_notification_ids@.len() == 0,
            r.communication_manager.raise_manager_tx@.len() == 0,
            r.communication_manager.event_tap_tx@.len() == 0,
            r.communication_manager.wm_sender is None,
            r.focus_follows_mouse_setting == focus_follows_mouse,
            r.focus_follows_mouse_enabled == focus_follows_mouse,
    {
        Reactor {
            menu_manager: MenuManager { menu_state: MenuState::Closed },
            window_manager: WindowManager { window_ids: HashMap::new() },
            notification_manager: NotificationManager { last_sls_notification_ids: Vec::new() },
            communication_manager: CommunicationManager {
                event_tap_tx: Vec::new(),
                raise_manager_tx: Vec::new(),
                wm_sender: None,
            },
            focus_follows_mouse_setting: focus_follows_mouse,
            focus_follows_mouse_enabled: focus_follows_mouse,
        }
    }

    /// Recomputes whether focus follows the mouse and tells the event tap:
    /// focus follows the mouse where the setting asks for it and no menu is
    /// open. Every call sends one request, changed or not.
    pub fn update_focus_follows_mouse_state(&mut self)
        ensures
            final(self).menu_manager == old(self).menu_manager,
            final(self).window_manager == old(self).window_manager,
            final(self).notification_manager == old(self).notification_manager,
            final(self).communication_manager.raise_manager_tx
                == old(self).communication_manager.raise_manager_tx,
            final(self).communication_manager.wm_sender == old(self).communication_manager.wm_sender,
            final(self).communication_manager.event_tap_tx@ == old(
                self,
            ).communication_manager.event_tap_tx@.push(
                EventTapRequest::SetFocusFollowsMouseEnabled(final(self).focus_follows_mouse_enabled),
            ),
            final(self).focus_follows_mouse_setting == old(self).focus_follows_mouse_setting,
            final(self).focus_follows_mouse_enabled == focus_follows_mouse_for(
                old(self).focus_follows_mouse_setting,
                old(self).menu_manager.menu_state,
            ),
    {
        let closed = match self.menu_manager.menu_state {
            MenuState::Closed => true,
            MenuState::Open(_) => false,
        };
        self.focus_follows_mouse_enabled = self.focus_follows_mouse_setting && closed;
        self.communication_manager.event_tap_tx.push(
            EventTapRequest::SetFocusFollowsMouseEnabled(self.focus_follows_mouse_enabled),
        );
    }
}

/// A menu state is well formed when an open menu stack has depth at least one.
pub open spec fn menu_state_valid(s: MenuState) -> bool {
    s matches MenuState::Open(d) ==> d >= 1
}

/// `post` is `pre` after a menu opened: the depth grows by one (saturating)
/// and focus does not follow the mouse.
pub open spec fn menu_opened<S>(pre: Reactor<S>, post: Reactor<S>) -> bool {
    &&& post.menu_manager.menu_state == menu_after_open(pre.menu_manager.menu_state)
    &&& post.window_manager == pre.window_manager
    &&& post.notification_manager == pre.notification_manager
    &&& focus_follows_mouse_sent(pre, post)
    &&& post.focus_follows_mouse_setting == pre.focus_follows_mouse_setting
    &&& !post.focus_follows_mouse_enabled
}

/// `post` is `pre` after a menu closed. With no menu open nothing changes;
/// otherwise the depth drops by one, and focus follows the mouse again when
/// the last menu is gone and the setting asks for it.
pub open spec fn menu_closed<S>(pre: Reactor<S>, post: Reactor<S>) -> bool {
    if pre.menu_manager.menu_state is Closed {
        post == pre
    } else {
        &&& post.menu_manager.menu_state == menu_after_close(pre.menu_manager.menu_state)
        &&& post.window_manager == pre.window_manager
        &&& post.notification_manager == pre.notification_manager
        &&& focus_follows_mouse_sent(pre, post)
        &&& post.focus_follows_mouse_setting == pre.focus_follows_mouse_setting
        &&& post.focus_follows_mouse_enabled == focus_follows_mouse_for(
            pre.focus_follows_mouse_setting,
            post.menu_manager.menu_state,
        )
    }
}

/// The channels of `post` are those of `pre` with `post`'s focus-follows-mouse
/// state sent to the event tap.
pub open spec fn focus_follows_mouse_sent<S>(pre: Reactor<S>, post: Reactor<S>) -> bool {
    &&& post.communication_manager.raise_manager_tx == pre.communication_manager.raise_manager_tx
    &&& post.communication_manager.wm_sender == pre.communication_manager.wm_sender
    &&& post.communication_manager.event_tap_tx@ == pre.communication_manager.event_tap_tx@.push(
        EventTapRequest::SetFocusFollowsMouseEnabled(post.focus_follows_mouse_enabled),
    )
}

/// Whether focus follows the mouse: only where configured and with no menu
/// open.
pub open spec fn focus_follows_mouse_for(setting: bool, menu: MenuState) -> bool {
    setting && menu is Closed
}

/// The reactor's focus-follows-mouse flag agrees with its setting and menus.
pub open spec fn focus_follows_mouse_consistent<S>(r: Reactor<S>) -> bool {
    r.focus_follows_mouse_enabled == focus_follows_mouse_for(
        r.focus_follows_mouse_setting,
        r.menu_manager.menu_state,
    )
}

/// Every menu event keeps the menu state well formed and the
/// focus-follows-mouse flag in agreement with it.
pub proof fn lemma_menu_events_keep_state<S>(pre: Reactor<S>, post: Reactor<S>)
    requires
        menu_state_valid(pre.menu_manager.menu_state),
        focus_follows_mouse_consistent(pre),
        menu_opened(pre, post) || menu_closed(pre, post),
    ensures
        menu_state_valid(post.menu_manager.menu_state),
        focus_follows_mouse_consistent(post),
{
}

/// A menu that opens and closes again leaves the reactor as it was, as long as
/// the menu depth was below the saturation point; the event tap has been told
/// to stop focus following the mouse and then to go back to what it was.
pub proof fn lemma_menu_round_trip<S>(pre: Reactor<S>, mid: Reactor<S>, post: Reactor<S>)
    requires
        menu_state_valid(pre.menu_manager.menu_state),
        pre.menu_manager.menu_state matches MenuState::Open(d) ==> d < usize::MAX,
        focus_follows_mouse_consistent(pre),
        menu_opened(pre, mid),
        menu_closed(mid, post),
    ensures
        post.menu_manager == pre.menu_manager,
        post.window_manager == pre.window_manager,
        post.notification_manager == pre.notification_manager,
        post.communication_manager.raise_manager_tx == pre.communication_manager.raise_manager_tx,
        post.communication_manager.wm_sender == pre.communication_manager.wm_sender,
        post.communication_manager.event_tap_tx@ == pre.communication_manager.event_tap_tx@.push(
            EventTapRequest::SetFocusFollowsMouseEnabled(false),
        ).push(EventTapRequest::SetFocusFollowsMouseEnabled(pre.focus_follows_mouse_enabled)),
        post.focus_follows_mouse_setting == pre.focus_follows_mouse_setting,
        post.focus_follows_mouse_enabled == pre.focus_follows_mouse_enabled,
{
}


/// Opening a menu from none gives depth one and each further one adds one up
/// to the limit; closing the last menu gives `Closed` and any other close
/// takes one away. Focus never follows the mouse while a menu is open, and
/// with no menu open it follows exactly as the setting says.
pub proof fn lemma_menu_depth(d: usize, setting: bool)
    ensures
        menu_after_open(MenuState::Closed) == MenuState::Open(1),
        d < usize::MAX ==> menu_after_open(MenuState::Open(d)) == MenuState::Open((d + 1) as usize),
        menu_after_open(MenuState::Open(usize::MAX)) == MenuState::Open(usize::MAX),
        menu_after_close(MenuState::Open(1)) == MenuState::Closed,
        d > 1 ==> menu_after_close(MenuState::Open(d)) == MenuState::Open((d - 1) as usize),
        menu_after_close(MenuState::Closed) == MenuState::Closed,
        !focus_follows_mouse_for(setting, MenuState::Open(d)),
        focus_follows_mouse_for(setting, MenuState::Closed) == setting,
{
}

/// Handlers for the system events the reactor receives.
pub struct SystemEventHandler;

impl SystemEventHandler {
    /// A menu opened: the menu depth grows by one (saturating), and focus stops
    /// following the mouse.
    pub fn handle_menu_opened<S>(reactor: &mut Reactor<S>)
        ensures
            menu_opened(*old(reactor), *final(reactor)),
    {
        reactor.menu_manager.menu_state = match reactor.menu_manager.menu_state {
            MenuState::Closed => MenuState::Open(1),
            MenuState::Open(depth) => MenuState::Open(depth.saturating_add(1)),
        };
        reactor.update_focus_follows_mouse_state();
    }

    /// A menu closed. With no menu open this changes nothing; otherwise the
    /// depth drops by one, the state becomes `Closed` at depth zero, and focus
    /// follows the mouse again once every menu is closed (if so configured).
    pub fn handle_menu_closed<S>(reactor: &mut Reactor<S>)
        ensures
            menu_closed(*old(reactor), *final(reactor)),
    {
        match reactor.menu_manager.menu_state {
            MenuState::Closed => {},
            MenuState::Open(depth) => {
                let new_depth = depth.saturating_sub(1);
                reactor.menu_manager.menu_state = if new_depth == 0 {
                    MenuState::Closed
                } else {
                    MenuState::Open(new_depth)
                };
                reactor.update_focus_follows_mouse_state();
            },
        }
    }

    /// The system woke from sleep: window notifications have to be registered
    /// again for every window the reactor knows. Returns the window-server ids
    /// to register, each once, in the order the map's key walk gives them, and
    /// records them as the last registered set.
    pub fn handle_system_woke<S>(reactor: &mut Reactor<S>) -> (ids: Vec<u32>)
        ensures
            ids@ == vstd::std_specs::hash::spec_keys_iter(
                &old(reactor).window_manager.window_ids,
            ).remaining().unref(),
            ids@.to_set() == old(reactor).window_manager.window_ids@.dom(),
            ids@.no_duplicates(),
            ids@.len() == old(reactor).window_manager.window_ids@.len(),
            final(reactor).notification_manager.last_sls_notification_ids@ == ids@,
            final(reactor).menu_manager == old(reactor).menu_manager,
            final(reactor).window_manager == old(reactor).window_manager,
            final(reactor).communication_manager == old(reactor).communication_manager,
            final(reactor).focus_follows_mouse_setting == old(reactor).focus_follows_mouse_setting,
            final(reactor).focus_follows_mouse_enabled == old(reactor).focus_follows_mouse_enabled,
    {
        broadcast use vstd::std_specs::hash::group_hash_axioms;
        let ids = map_keys(&reactor.window_manager.window_ids);
        reactor.notification_manager.last_sls_notification_ids = ids.clone();
        ids
    }

    /// The raise manager finished raising `window_id`.
    pub fn handle_raise_completed<S>(reactor: &mut Reactor<S>, window_id: WindowId, sequence_id: u64)
        ensures
            final(reactor).communication_manager.raise_manager_tx@ == old(
                reactor,
            ).communication_manager.raise_manager_tx@.push(
                RaiseEvent::RaiseCompleted { window_id, sequence_id },
            ),
            final(reactor).communication_manager.wm_sender == old(reactor).communication_manager.wm_sender,
            final(reactor).communication_manager.event_tap_tx
                == old(reactor).communication_manager.event_tap_tx,
            final(reactor).menu_manager == old(reactor).menu_manager,
            final(reactor).window_manager == old(reactor).window_manager,
            final(reactor).notification_manager == old(reactor).notification_manager,
            final(reactor).focus_follows_mouse_setting == old(reactor).focus_follows_mouse_setting,
            final(reactor).focus_follows_mouse_enabled == old(reactor).focus_follows_mouse_enabled,
    {
        send_raise_event(reactor, RaiseEvent::RaiseCompleted { window_id, sequence_id });
    }

    /// A raise request timed out.
    pub fn handle_raise_timeout<S>(reactor: &mut Reactor<S>, sequence_id: u64)
        ensures
            final(reactor).communication_manager.raise_manager_tx@ == old(
                reactor,
            ).communication_manager.raise_manager_tx@.push(
                RaiseEvent::RaiseTimeout { sequence_id },
            ),
            final(reactor).communication_manager.wm_sender == old(reactor).communication_manager.wm_sender,
            final(reactor).communication_manager.event_tap_tx
                == old(reactor).communication_manager.event_tap_tx,
            final(reactor).menu_manager == old(reactor).menu_manager,
            final(reactor).window_manager == old(reactor).window_manager,
            final(reactor).notification_manager == old(reactor).notification_manager,
            final(reactor).focus_follows_mouse_setting == old(reactor).focus_follows_mouse_setting,
            final(reactor).focus_follows_mouse_enabled == old(reactor).focus_follows_mouse_enabled,
    {
        send_raise_event(reactor, RaiseEvent::RaiseTimeout { sequence_id });
    }

    /// The window-manager controller announced its channel; it replaces any
    /// channel registered before.
    pub fn handle_register_wm_sender<S>(reactor: &mut Reactor<S>, sender: S)
        ensures
            final(reactor).communication_manager.wm_sender == Some(sender),
            final(reactor).communication_manager.raise_manager_tx
                == old(reactor).communication_manager.raise_manager_tx,
            final(reactor).communication_manager.event_tap_tx
                == old(reactor).communication_manager.event_tap_tx,
            final(reactor).menu_manager == old(reactor).menu_manager,
            final(reactor).window_manager == old(reactor).window_manager,
            final(reactor).notification_manager == old(reactor).notification_manager,
            final(reactor).focus_follows_mouse_setting == old(reactor).focus_follows_mouse_setting,
            final(reactor).focus_follows_mouse_enabled == old(reactor).focus_follows_mouse_enabled,
    {
        reactor.communication_manager.wm_sender = Some(sender);
    }
}

/// Queues `event` for the raise manager.
pub fn send_raise_event<S>(reactor: &mut Reactor<S>, event: RaiseEvent)
    ensures
        final(reactor).communication_manager.raise_manager_tx@ == old(
            reactor,
        ).communication_manager.raise_manager_tx@.push(event),
        final(reactor).communication_manager.wm_sender == old(reactor).communication_manager.wm_sender,
        final(reactor).communication_manager.event_tap_tx
            == old(reactor).communication_manager.event_tap_tx,
        final(reactor).menu_manager == old(reactor).menu_manager,
        final(reactor).window_manager == old(reactor).window_manager,
        final(reactor).notification_manager == old(reactor).notification_manager,
        final(reactor).focus_follows_mouse_setting == old(reactor).focus_follows_mouse_setting,
        final(reactor).focus_follows_mouse_enabled == old(reactor).focus_follows_mouse_enabled,
{
    reactor.communication_manager.raise_manager_tx.push(event);
}

} // verus!
