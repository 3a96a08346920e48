use vstd::prelude::*;
use crate::ids::{WindowId, WindowServerId};

verus! {

/// Requests for the mission-control actor.
#[derive(Clone, Copy, Debug, PartialEq, Eq, Structural)]
pub enum Event {
    ShowAll,
    ShowCurrent,
    Dismiss,
    RefreshCurrentWorkspace,
}

/// What the overlay is showing.
#[derive(Clone, Copy, Debug, PartialEq, Eq, Structural)]
pub enum MissionControlViewMode {
    AllWorkspaces,
    CurrentWorkspace,
}

/// What the user did in the overlay.
#[derive(Clone, Copy, Debug, PartialEq, Eq, Structural)]
pub enum MissionControlAction {
    Dismiss,
    SwitchToWorkspace(usize),
    FocusWindow { window_id: WindowId, window_server_id: Option<WindowServerId> },
}

/// Work the actor hands to the user-interface side, to be done in order.
#[derive(Clone, Copy, Debug, PartialEq, Eq, Structural)]
pub enum MissionControlEffect {
    /// Build the overlay on the main screen and route its actions back here.
    CreateOverlay,
    /// Show the given mode in the overlay with no content yet.
    ShowEmpty(MissionControlViewMode),
    /// Ask the reactor for all workspaces and show them.
    ShowWorkspaces,
    /// Ask the reactor for the windows of the active space and show them.
    ShowActiveSpaceWindows,
    /// Ask the reactor for the active workspace and highlight it in the
    /// overlay, if there is one.
    RefreshActiveWorkspace,
    /// Take the overlay down.
    HideOverlay,
    /// Tell the reactor to switch to the workspace with this index.
    SwitchToWorkspace(usize),
    /// Tell the reactor to focus this window.
    FocusWindow { window_id: WindowId, window_server_id: Option<WindowServerId> },
}

/// State of the mission-control actor, as its contracts speak of it.
#[derive(Clone, Copy, Debug, PartialEq, Eq, Structural)]
pub struct MissionControlState {
    /// Whether mission control is enabled in the configuration.
    pub enabled: bool,
    /// Whether an overlay exists.
    pub has_overlay: bool,
    pub mission_control_active: bool,
    pub current_view_mode: Option<MissionControlViewMode>,
}

/// The actor is active exactly when a view mode is set, and an active actor
/// has an overlay.
pub open spec fn actor_inv(s: MissionControlState) -> bool {
    &&& s.mission_control_active <==> s.current_view_mode is Some
    &&& s.mission_control_active ==> s.has_overlay
}

/// State once an overlay exists.
pub open spec fn with_overlay(s: MissionControlState) -> MissionControlState {
    MissionControlState { has_overlay: true, ..s }
}

/// Effects of making sure an overlay exists.
pub open spec fn overlay_effects(s: MissionControlState) -> Seq<MissionControlEffect> {
    if s.has_overlay {
        Seq::empty()
    } else {
        seq![MissionControlEffect::CreateOverlay]
    }
}

/// State after the overlay is taken down.
pub open spec fn disposed(s: MissionControlState) -> MissionControlState {
    MissionControlState {
        has_overlay: false,
        mission_control_active: false,
        current_view_mode: None,
        ..s
    }
}

/// Effects of taking the overlay down.
pub open spec fn dispose_effects(s: MissionControlState) -> Seq<MissionControlEffect> {
    if s.has_overlay {
        seq![MissionControlEffect::HideOverlay]
    } else {
        Seq::empty()
    }
}

/// State after showing `mode`.
pub open spec fn shown(s: MissionControlState, mode: MissionControlViewMode) -> MissionControlState {
    MissionControlState {
        has_overlay: true,
        mission_control_active: true,
        current_view_mode: Some(mode),
        ..s
    }
}

/// Effects of showing `mode`: the overlay is made to exist, cleared to the
/// mode, then filled from the reactor.
pub open spec fn show_effects(s: MissionControlState, mode: MissionControlViewMode) -> Seq<
    MissionControlEffect,
> {
    overlay_effects(s) + match mode {
        MissionControlViewMode::AllWorkspaces => seq![
            MissionControlEffect::ShowEmpty(mode),
            MissionControlEffect::ShowWorkspaces,
        ],
        MissionControlViewMode::CurrentWorkspace => seq![
            MissionControlEffect::ShowEmpty(mode),
            MissionControlEffect::ShowActiveSpaceWindows,
        ],
    }
}

/// The state after handling `e`.
pub open spec fn state_after_event(s: MissionControlState, e: Event) -> MissionControlState {
    match e {
        Event::ShowAll => if s.mission_control_active {
            disposed(s)
        } else {
            shown(s, MissionControlViewMode::AllWorkspaces)
        },
        Event::ShowCurrent => if s.mission_control_active {
            disposed(s)
        } else {
            shown(s, MissionControlViewMode::CurrentWorkspace)
        },
        Event::Dismiss => disposed(s),
        Event::RefreshCurrentWorkspace => if s.mission_control_active
            && s.current_view_mode == Some(MissionControlViewMode::CurrentWorkspace) {
            shown(s, MissionControlViewMode::CurrentWorkspace)
        } else {
            s
        },
    }
}

/// The effects of handling `e`.
pub open spec fn effects_of_event(s: MissionControlState, e: Event) -> Seq<MissionControlEffect> {
    match e {
        Event::ShowAll => if s.mission_control_active {
            dispose_effects(s)
        } else {
            show_effects(s, MissionControlViewMode::AllWorkspaces)
        },
        Event::ShowCurrent => if s.mission_control_active {
            dispose_effects(s)
        } else {
            show_effects(s, MissionControlViewMode::CurrentWorkspace)
        },
        Event::Dismiss => dispose_effects(s),
        Event::RefreshCurrentWorkspace => if !s.mission_control_active {
            Seq::empty()
        } else {
            match s.current_view_mode {
                Some(MissionControlViewMode::CurrentWorkspace) => show_effects(
                    s,
                    MissionControlViewMode::CurrentWorkspace,
                ),
                Some(MissionControlViewMode::AllWorkspaces) => seq![
                    MissionControlEffect::RefreshActiveWorkspace,
                ],
                None => Seq::empty(),
            }
        },
    }
}

/// The message an overlay action sends to the reactor before the overlay goes.
pub open spec fn action_message(a: MissionControlAction) -> Seq<MissionControlEffect> {
    match a {
        MissionControlAction::Dismiss => Seq::empty(),
        MissionControlAction::SwitchToWorkspace(i) => seq![
            MissionControlEffect::SwitchToWorkspace(i),
        ],
        MissionControlAction::FocusWindow { window_id, window_server_id } => seq![
            MissionControlEffect::FocusWindow { window_id, window_server_id },
        ],
    }
}

/// The mission-control actor: an overlay of all workspaces or of the current
/// one, toggled by requests and dismissed by what the user does in it.
pub struct MissionControlActor {
    state: MissionControlState,
}

impl View for MissionControlActor {
    type V = MissionControlState;

    closed spec fn view(&self) -> MissionControlState {
        self.state
    }
}

fn ensure_overlay(s: &mut MissionControlState, effects: &mut Vec<MissionControlEffect>)
    ensures
        *final(s) == with_overlay(*old(s)),
        final(effects)@ == old(effects)@ + overlay_effects(*old(s)),
{
    if !s.has_overlay {
        effects.push(MissionControlEffect::CreateOverlay);
        s.has_overlay = true;
    }
}

fn dispose_overlay(s: &mut MissionControlState, effects: &mut Vec<MissionControlEffect>)
    ensures
        *final(s) == disposed(*old(s)),
        final(effects)@ == old(effects)@ + dispose_effects(*old(s)),
{
    if s.has_overlay {
        s.has_overlay = false;
        effects.push(MissionControlEffect::HideOverlay);
    }
    s.mission_control_active = false;
    s.current_view_mode = None;
}

fn show_all_workspaces(s: &mut MissionControlState, effects: &mut Vec<MissionControlEffect>)
    ensures
        *final(s) == shown(*old(s), MissionControlViewMode::AllWorkspaces),
        final(effects)@ == old(effects)@ + show_effects(
            *old(s),
            MissionControlViewMode::AllWorkspaces,
        ),
{
    s.mission_control_active = true;
    s.current_view_mode = Some(MissionControlViewMode::AllWorkspaces);
    ensure_overlay(s, effects);
    effects.push(MissionControlEffect::ShowEmpty(MissionControlViewMode::AllWorkspaces));
    ensure_overlay(s, effects);
    effects.push(MissionControlEffect::ShowWorkspaces);
    proof {
        assert(final(effects)@ =~= old(effects)@ + show_effects(
            *old(s),
            MissionControlViewMode::AllWorkspaces,
        ));
    }
}

fn show_current_workspace(s: &mut MissionControlState, effects: &mut Vec<MissionControlEffect>)
    ensures
        *final(s) == shown(*old(s), MissionControlViewMode::CurrentWorkspace),
        final(effects)@ == old(effects)@ + show_effects(
            *old(s),
            MissionControlViewMode::CurrentWorkspace,
        ),
{
    s.mission_control_active = true;
    s.current_view_mode = Some(MissionControlViewMode::CurrentWorkspace);
    ensure_overlay(s, effects);
    effects.push(MissionControlEffect::ShowEmpty(MissionControlViewMode::CurrentWorkspace));
    ensure_overlay(s, effects);
    effects.push(MissionControlEffect::ShowActiveSpaceWindows);
    proof {
        assert(final(effects)@ =~= old(effects)@ + show_effects(
            *old(s),
            MissionControlViewMode::CurrentWorkspace,
        ));
    }
}

/// Highlights the active workspace; the interface side skips it when no
/// overlay is up.
fn refresh_all_workspaces_highlight(effects: &mut Vec<MissionControlEffect>)
    ensures
        final(effects)@ == old(effects)@.push(MissionControlEffect::RefreshActiveWorkspace),
{
    effects.push(MissionControlEffect::RefreshActiveWorkspace);
}

fn handle_event_on(s: &mut MissionControlState, event: Event) -> (effects: Vec<
    MissionControlEffect,
>)
    ensures
        *final(s) == state_after_event(*old(s), event),
        effects@ == effects_of_event(*old(s), event),
{
    let mut effects: Vec<MissionControlEffect> = Vec::new();
    match event {
        Event::ShowAll => {
            if s.mission_control_active {
                dispose_overlay(s, &mut effects);
            } else {
                show_all_workspaces(s, &mut effects);
            }
        },
        Event::ShowCurrent => {
            if s.mission_control_active {
                dispose_overlay(s, &mut effects);
            } else {
                show_current_workspace(s, &mut effects);
            }
        },
        Event::Dismiss => dispose_overlay(s, &mut effects),
        Event::RefreshCurrentWorkspace => {
            if s.mission_control_active {
                match s.current_view_mode {
                    Some(MissionControlViewMode::CurrentWorkspace) => {
                        show_current_workspace(s, &mut effects);
                    },
                    Some(MissionControlViewMode::AllWorkspaces) => {
                        refresh_all_workspaces_highlight(&mut effects);
                    },
                    None => {},
                }
            }
        },
    }
    proof {
        assert(effects@ =~= effects_of_event(*old(s), event));
    }
    effects
}

impl MissionControlActor {
    #[verifier::type_invariant]
    spec fn inv(self) -> bool {
        actor_inv(self.state)
    }

    /// A fresh actor: no overlay, nothing shown.
    pub fn new(enabled: bool) -> (actor: Self)
        ensures
            actor@.enabled == enabled,
            !actor@.has_overlay,
            !actor@.mission_control_active,
            actor@.current_view_mode is None,
    {
        MissionControlActor {
            state: MissionControlState {
                enabled,
                has_overlay: false,
                mission_control_active: false,
                current_view_mode: None,
            },
        }
    }

    /// The actor's state.
    pub fn state(&self) -> (s: MissionControlState)
        ensures
            s == self@,
            actor_inv(s),
    {
        proof {
            use_type_invariant(self);
        }
        self.state
    }

    /// What the actor does before it starts taking events: with mission control
    /// enabled it builds the overlay up front.
    pub fn start(&mut self) -> (effects: Vec<MissionControlEffect>)
        ensures
            old(self)@.enabled ==> {
                &&& final(self)@ == with_overlay(old(self)@)
                &&& effects@ == overlay_effects(old(self)@)
            },
            !old(self)@.enabled ==> final(self)@ == old(self)@ && effects@.len() == 0,
    {
        proof {
            use_type_invariant(&*self);
        }
        let mut s = self.state;
        let mut effects: Vec<MissionControlEffect> = Vec::new();
        if s.enabled {
            ensure_overlay(&mut s, &mut effects);
        }
        self.state = s;
        effects
    }

    /// One event as the actor's loop receives it: handled when mission control
    /// is enabled, dropped otherwise.
    pub fn receive(&mut self, event: Event) -> (effects: Vec<MissionControlEffect>)
        ensures
            old(self)@.enabled ==> {
                &&& final(self)@ == state_after_event(old(self)@, event)
                &&& effects@ == effects_of_event(old(self)@, event)
            },
            !old(self)@.enabled ==> final(self)@ == old(self)@ && effects@.len() == 0,
    {
        if self.state.enabled {
            self.handle_event(event)
        } else {
            Vec::new()
        }
    }

    /// Handles something the user did in the overlay: any message for the
    /// reactor goes first, then the overlay is taken down.
    pub fn handle_overlay_action(&mut self, action: MissionControlAction) -> (effects: Vec<
        MissionControlEffect,
    >)
        ensures
            final(self)@ == disposed(old(self)@),
            effects@ == action_message(action) + dispose_effects(old(self)@),
    {
        let mut s = self.state;
        let mut effects: Vec<MissionControlEffect> = Vec::new();
        match action {
            MissionControlAction::Dismiss => {},
            MissionControlAction::SwitchToWorkspace(index) => {
                effects.push(MissionControlEffect::SwitchToWorkspace(index));
            },
            MissionControlAction::FocusWindow { window_id, window_server_id } => {
                effects.push(MissionControlEffect::FocusWindow { window_id, window_server_id });
            },
        }
        dispose_overlay(&mut s, &mut effects);
        self.state = s;
        effects
    }

    /// Handles one event: the show requests toggle the overlay, a refresh
    /// redraws what is shown.
    pub fn handle_event(&mut self, event: Event) -> (effects: Vec<MissionControlEffect>)
        ensures
            final(self)@ == state_after_event(old(self)@, event),
            effects@ == effects_of_event(old(self)@, event),
    {
        proof {
            use_type_invariant(&*self);
            lemma_actor_inv_kept(self.state, event);
        }
        let mut s = self.state;
        let effects = handle_event_on(&mut s, event);
        self.state = s;
        effects
    }
}

/// Every event, overlay action and the start-up keep the actor's invariant.
pub proof fn lemma_actor_inv_kept(s: MissionControlState, e: Event)
    requires
        actor_inv(s),
    ensures
        actor_inv(state_after_event(s, e)),
        actor_inv(disposed(s)),
        actor_inv(with_overlay(s)),
{
}

/// Asking twice in a row to show all workspaces (or the current one) from an
/// inactive actor shows the overlay and then takes it down again: the actor
/// ends inactive, with no overlay.
pub proof fn lemma_show_twice_closes(s: MissionControlState, e: Event)
    requires
        !s.mission_control_active,
        e == Event::ShowAll || e == Event::ShowCurrent,
    ensures
        state_after_event(state_after_event(s, e), e) == disposed(s),
        effects_of_event(state_after_event(s, e), e) == seq![MissionControlEffect::HideOverlay],
{
}

/// A refresh while mission control is inactive changes nothing and does
/// nothing.
pub proof fn lemma_refresh_inactive_is_noop(s: MissionControlState)
    requires
        !s.mission_control_active,
    ensures
        state_after_event(s, Event::RefreshCurrentWorkspace) == s,
        effects_of_event(s, Event::RefreshCurrentWorkspace).len() == 0,
{
}

/// After a dismissal, from whatever state, mission control is inactive and has
/// no overlay.
pub proof fn lemma_dismiss_closes(s: MissionControlState)
    ensures
        !state_after_event(s, Event::Dismiss).mission_control_active,
        !state_after_event(s, Event::Dismiss).has_overlay,
        state_after_event(s, Event::Dismiss).current_view_mode is None,
{
}

/// Making sure an overlay exists when one does changes nothing and does
/// nothing: no second overlay is built.
pub proof fn lemma_overlay_present_is_kept(s: MissionControlState)
    requires
        s.has_overlay,
    ensures
        with_overlay(s) == s,
        overlay_effects(s).len() == 0,
{
}

/// Showing a mode always clears the overlay to that mode and then fills it
/// from the reactor (all workspaces, or the windows of the active space),
/// whether or not the overlay existed; only a missing overlay is built first.
pub proof fn lemma_show_fills_overlay(s: MissionControlState, mode: MissionControlViewMode)
    ensures
        ({
            let e = show_effects(s, mode);
            let fill = if mode is AllWorkspaces {
                MissionControlEffect::ShowWorkspaces
            } else {
                MissionControlEffect::ShowActiveSpaceWindows
            };
            &&& e.len() == (if s.has_overlay { 2int } else { 3int })
            &&& e[e.len() - 2] == MissionControlEffect::ShowEmpty(mode)
            &&& e[e.len() - 1] == fill
            &&& !s.has_overlay ==> e[0] == MissionControlEffect::CreateOverlay
        }),
        !s.mission_control_active ==> {
            let e = effects_of_event(s, Event::ShowAll);
            &&& e.len() >= 2
            &&& e[e.len() - 2] == MissionControlEffect::ShowEmpty(MissionControlViewMode::AllWorkspaces)
            &&& e[e.len() - 1] == MissionControlEffect::ShowWorkspaces
        },
        !s.mission_control_active ==> {
            let e = effects_of_event(s, Event::ShowCurrent);
            &&& e.len() >= 2
            &&& e[e.len() - 2] == MissionControlEffect::ShowEmpty(
                MissionControlViewMode::CurrentWorkspace,
            )
            &&& e[e.len() - 1] == MissionControlEffect::ShowActiveSpaceWindows
        },
{
}

/// Taking the overlay down hides it exactly when there is one, and leaves the
/// actor inactive with no overlay and no view; an action from the overlay
/// first passes its request on to the reactor (switch to workspace `i`, focus
/// a window), then takes the overlay down. Building an overlay happens
/// exactly when there is none.
pub proof fn lemma_dispose_and_actions(s: MissionControlState, a: MissionControlAction)
    ensures
        s.has_overlay ==> dispose_effects(s) == seq![MissionControlEffect::HideOverlay],
        !s.has_overlay ==> dispose_effects(s).len() == 0,
        !s.has_overlay ==> overlay_effects(s) == seq![MissionControlEffect::CreateOverlay],
        !disposed(s).has_overlay && !disposed(s).mission_control_active && disposed(
            s,
        ).current_view_mode is None && disposed(s).enabled == s.enabled,
        a matches MissionControlAction::SwitchToWorkspace(i) ==> action_message(a) == seq![
            MissionControlEffect::SwitchToWorkspace(i),
        ],
        a matches MissionControlAction::FocusWindow { window_id, window_server_id }
            ==> action_message(a) == seq![
            MissionControlEffect::FocusWindow { window_id, window_server_id },
        ],
        a is Dismiss ==> action_message(a).len() == 0,
{
}

/// No event changes whether mission control is enabled. Showing a mode from
/// an inactive actor makes it active in that mode with an overlay; a refresh
/// of an active all-workspaces view only asks for the highlight, and one of
/// the current-workspace view shows it afresh.
pub proof fn lemma_event_outcomes(s: MissionControlState, e: Event)
    ensures
        state_after_event(s, e).enabled == s.enabled,
        !s.mission_control_active && e == Event::ShowAll ==> {
            let t = state_after_event(s, e);
            &&& t.mission_control_active
            &&& t.has_overlay
            &&& t.current_view_mode == Some(MissionControlViewMode::AllWorkspaces)
        },
        !s.mission_control_active && e == Event::ShowCurrent ==> {
            let t = state_after_event(s, e);
            &&& t.mission_control_active
            &&& t.has_overlay
            &&& t.current_view_mode == Some(MissionControlViewMode::CurrentWorkspace)
        },
        s.mission_control_active && s.current_view_mode == Some(
            MissionControlViewMode::AllWorkspaces,
        ) ==> effects_of_event(s, Event::RefreshCurrentWorkspace) == seq![
            MissionControlEffect::RefreshActiveWorkspace,
        ] && state_after_event(s, Event::RefreshCurrentWorkspace) == s,
        s.mission_control_active && s.has_overlay && s.current_view_mode == Some(
            MissionControlViewMode::CurrentWorkspace,
        ) ==> effects_of_event(s, Event::RefreshCurrentWorkspace) == seq![
            MissionControlEffect::ShowEmpty(MissionControlViewMode::CurrentWorkspace),
            MissionControlEffect::ShowActiveSpaceWindows,
        ],
{
    assert(seq![
        MissionControlEffect::ShowEmpty(MissionControlViewMode::CurrentWorkspace),
        MissionControlEffect::ShowActiveSpaceWindows,
    ] =~= Seq::<MissionControlEffect>::empty() + seq![
        MissionControlEffect::ShowEmpty(MissionControlViewMode::CurrentWorkspace),
        MissionControlEffect::ShowActiveSpaceWindows,
    ]);
}

} // verus!
