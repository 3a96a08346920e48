use vstd::prelude::*;
use std::collections::{HashMap, HashSet};
use crate::ids::{NodeId, SpaceId, WindowId};
use crate::keys::map_keys;

verus! {

/// How a container of the layout tree arranges its children.
#[derive(Clone, Copy, Debug, PartialEq, Eq, Structural)]
pub enum LayoutKind {
    Horizontal,
    Vertical,
    HorizontalStack,
    VerticalStack,
}

impl LayoutKind {
    /// Whether the container is a stack, shown with a group indicator.
    pub fn is_group(&self) -> (b: bool)
        ensures
            b == (*self is HorizontalStack || *self is VerticalStack),
    {
        match self {
            LayoutKind::HorizontalStack | LayoutKind::VerticalStack => true,
            _ => false,
        }
    }
}

/// Orientation of a group indicator bar.
#[derive(Clone, Copy, Debug, PartialEq, Eq, Structural)]
pub enum GroupKind {
    Horizontal,
    Vertical,
}

/// The indicator kind for a container kind; only stacks have one.
pub open spec fn group_kind_for(k: LayoutKind) -> Option<GroupKind> {
    match k {
        LayoutKind::HorizontalStack => Some(GroupKind::Horizontal),
        LayoutKind::VerticalStack => Some(GroupKind::Vertical),
        _ => None,
    }
}

/// A screen rectangle in half points: each coordinate is twice the point
/// value, rounded to the nearest integer.
#[derive(Clone, Copy, Debug, PartialEq, Eq, Structural)]
pub struct HalfPointRect {
    pub x_q2: i64,
    pub y_q2: i64,
    pub w_q2: i64,
    pub h_q2: i64,
}

/// A stack group of the layout as the layout engine reports it.
#[derive(Clone, Debug)]
pub struct GroupInfo {
    pub node_id: NodeId,
    pub space_id: SpaceId,
    pub container_kind: LayoutKind,
    pub frame: HalfPointRect,
    pub total_count: usize,
    pub selected_index: usize,
    pub window_ids: Vec<WindowId>,
}

pub struct GroupInfoView {
    pub node_id: NodeId,
    pub space_id: SpaceId,
    pub container_kind: LayoutKind,
    pub frame: HalfPointRect,
    pub total_count: usize,
    pub selected_index: usize,
    pub window_ids: Seq<WindowId>,
}

impl View for GroupInfo {
    type V = GroupInfoView;

    open spec fn view(&self) -> GroupInfoView {
        GroupInfoView {
            node_id: self.node_id,
            space_id: self.space_id,
            container_kind: self.container_kind,
            frame: self.frame,
            total_count: self.total_count,
            selected_index: self.selected_index,
            window_ids: self.window_ids@,
        }
    }
}

/// The views of a list of groups.
pub open spec fn group_views(groups: Seq<GroupInfo>) -> Seq<GroupInfoView> {
    groups.map_values(|g: GroupInfo| g@)
}

/// What of a group decides whether its indicator has to be redrawn.
#[derive(Clone, Copy, Debug, PartialEq, Eq, Structural)]
pub struct GroupSig {
    pub node_id: NodeId,
    pub kind: LayoutKind,
    pub x_q2: i64,
    pub y_q2: i64,
    pub w_q2: i64,
    pub h_q2: i64,
    pub total: usize,
    pub selected_index: usize,
}

pub open spec fn sig_of(g: GroupInfoView) -> GroupSig {
    GroupSig {
        node_id: g.node_id,
        kind: g.container_kind,
        x_q2: g.frame.x_q2,
        y_q2: g.frame.y_q2,
        w_q2: g.frame.w_q2,
        h_q2: g.frame.h_q2,
        total: g.total_count,
        selected_index: g.selected_index,
    }
}

pub open spec fn sigs_of(gs: Seq<GroupInfoView>) -> Seq<GroupSig> {
    gs.map_values(|g: GroupInfoView| sig_of(g))
}

impl GroupSig {
    pub fn from_group_info(g: &GroupInfo) -> (sig: GroupSig)
        ensures
            sig == sig_of(g@),
    {
        GroupSig {
            node_id: g.node_id,
            kind: g.container_kind,
            x_q2: g.frame.x_q2,
            y_q2: g.frame.y_q2,
            w_q2: g.frame.w_q2,
            h_q2: g.frame.h_q2,
            total: g.total_count,
            selected_index: g.selected_index,
        }
    }
}

/// What the stack line knows of one indicator window.
#[derive(Debug)]
pub struct IndicatorState {
    pub space_id: SpaceId,
    pub group_kind: GroupKind,
    pub total_count: usize,
    pub selected_index: usize,
    pub window_ids: Vec<WindowId>,
}

pub struct IndicatorView {
    pub space_id: SpaceId,
    pub group_kind: GroupKind,
    pub total_count: usize,
    pub selected_index: usize,
    pub window_ids: Seq<WindowId>,
}

impl View for IndicatorState {
    type V = IndicatorView;

    open spec fn view(&self) -> IndicatorView {
        IndicatorView {
            space_id: self.space_id,
            group_kind: self.group_kind,
            total_count: self.total_count,
            selected_index: self.selected_index,
            window_ids: self.window_ids@,
        }
    }
}

/// The indicator shown for group `g` drawn as `kind`.
pub open spec fn indicator_for(g: GroupInfoView, kind: GroupKind) -> IndicatorView {
    IndicatorView {
        space_id: g.space_id,
        group_kind: kind,
        total_count: g.total_count,
        selected_index: g.selected_index,
        window_ids: g.window_ids,
    }
}

/// Shape of the mouse cursor.
#[derive(Clone, Copy, Debug, PartialEq, Eq, Structural)]
pub enum CursorShape {
    PointingHand,
    Arrow,
}

/// Work the stack line hands to the user-interface side, to be done in order.
#[derive(Clone, Copy, Debug, PartialEq, Eq, Structural)]
pub enum StackLineEffect {
    /// Clear and drop the indicator of this node.
    ClearIndicator(NodeId),
    /// Move the existing indicator of `node_id` over the group at
    /// `group_index` of the update, set its space and redraw it with the
    /// group's data.
    UpdateIndicator { node_id: NodeId, group_index: usize, group_kind: GroupKind },
    /// Open a new indicator over the group at `group_index`, set its space,
    /// route its clicks back here and draw the group's data. The event loop
    /// reports with `indicator_created` whether the window opened; drawing
    /// waits for that report.
    CreateIndicator { node_id: NodeId, group_index: usize, group_kind: GroupKind },
    /// Redraw the indicator of this node with the new configuration.
    RestyleIndicator(NodeId),
    /// Ask the reactor to focus this window.
    FocusWindow(WindowId),
    /// Change the mouse cursor.
    SetCursor(CursorShape),
}

/// Events for the stack-line actor. Pointer positions arrive already tested
/// against the indicators' frames.
pub enum Event {
    GroupsUpdated { space_id: SpaceId, groups: Vec<GroupInfo> },
    ScreenParametersChanged,
    ConfigUpdated { enabled: bool },
    /// A press; the first indicator segment under the pointer, if any.
    MouseDown(Option<(NodeId, usize)>),
    /// A move; whether the pointer lies in the entry area, and in the exit
    /// area, of some indicator.
    MouseMoved { over_entry_area: bool, over_exit_area: bool },
}


/// The indicators after the groups `g` of an update was drawn: a stack gets
/// an indicator for its data, any other container changes nothing.
pub open spec fn apply_group(m: Map<NodeId, IndicatorView>, g: GroupInfoView) -> Map<
    NodeId,
    IndicatorView,
> {
    match group_kind_for(g.container_kind) {
        Some(k) => m.insert(g.node_id, indicator_for(g, k)),
        None => m,
    }
}

/// The indicators after the groups `gs` were drawn, in order.
pub open spec fn apply_groups(m: Map<NodeId, IndicatorView>, gs: Seq<GroupInfoView>) -> Map<
    NodeId,
    IndicatorView,
>
    decreases gs.len(),
{
    if gs.len() == 0 {
        m
    } else {
        apply_group(apply_groups(m, gs.drop_last()), gs.last())
    }
}

/// The effect of drawing group `g`, at position `i` of its update, over the
/// indicators `m`.
pub open spec fn placement_effect(m: Map<NodeId, IndicatorView>, g: GroupInfoView, i: int) -> Seq<
    StackLineEffect,
> {
    match group_kind_for(g.container_kind) {
        Some(k) => if m.contains_key(g.node_id) {
            seq![
                StackLineEffect::UpdateIndicator {
                    node_id: g.node_id,
                    group_index: i as usize,
                    group_kind: k,
                },
            ]
        } else {
            seq![
                StackLineEffect::CreateIndicator {
                    node_id: g.node_id,
                    group_index: i as usize,
                    group_kind: k,
                },
            ]
        },
        None => Seq::empty(),
    }
}

/// The nodes that the groups `gs` name.
pub open spec fn group_nodes(gs: Seq<GroupInfoView>) -> Set<NodeId> {
    Set::new(|k: NodeId| exists|i: int| 0 <= i < gs.len() && #[trigger] gs[i].node_id == k)
}

/// Whether an update of `space` with groups `gs` drops the indicator of `k`:
/// it stands on that space and no group names its node any longer.
pub open spec fn cleared_by_update(
    m: Map<NodeId, IndicatorView>,
    space: SpaceId,
    gs: Seq<GroupInfoView>,
    k: NodeId,
) -> bool {
    m.contains_key(k) && m[k].space_id == space && !group_nodes(gs).contains(k)
}

/// The indicators an update of `space` with groups `gs` keeps.
pub open spec fn kept_indicators(
    m: Map<NodeId, IndicatorView>,
    space: SpaceId,
    gs: Seq<GroupInfoView>,
) -> Map<NodeId, IndicatorView> {
    Map::new(|k: NodeId| m.contains_key(k) && !cleared_by_update(m, space, gs, k), |k: NodeId| m[k])
}

/// Whether the signatures stored for `space` already match the groups `gs`.
pub open spec fn sigs_unchanged(
    sig_map: Map<SpaceId, Seq<GroupSig>>,
    space: SpaceId,
    gs: Seq<GroupInfoView>,
) -> bool {
    sig_map.contains_key(space) && sig_map[space] == sigs_of(gs)
}

/// Clearing effects for the nodes `nodes`, in order.
pub open spec fn clear_effects(nodes: Seq<NodeId>) -> Seq<StackLineEffect> {
    nodes.map_values(|n: NodeId| StackLineEffect::ClearIndicator(n))
}

/// Restyling effects for the nodes `nodes`, in order.
pub open spec fn restyle_effects(nodes: Seq<NodeId>) -> Seq<StackLineEffect> {
    nodes.map_values(|n: NodeId| StackLineEffect::RestyleIndicator(n))
}

/// The signatures of `groups`, in order.
fn group_sigs(groups: &Vec<GroupInfo>) -> (sigs: Vec<GroupSig>)
    ensures
        sigs@ == sigs_of(group_views(groups@)),
{
    let mut sigs: Vec<GroupSig> = Vec::new();
    for i in 0..groups.len()
        invariant
            sigs@ == sigs_of(group_views(groups@)).take(i as int),
    {
        sigs.push(GroupSig::from_group_info(&groups[i]));
        proof {
            assert(sigs@ =~= sigs_of(group_views(groups@)).take(i + 1));
        }
    }
    proof {
        assert(sigs@ =~= sigs_of(group_views(groups@)));
    }
    sigs
}

fn sigs_equal(a: &Vec<GroupSig>, b: &Vec<GroupSig>) -> (eq: bool)
    ensures
        eq == (a@ == b@),
{
    if a.len() != b.len() {
        return false;
    }
    for i in 0..a.len()
        invariant
            a@.len() == b@.len(),
            forall|j: int| 0 <= j < i ==> a@[j] == b@[j],
    {
        if a[i] != b[i] {
            return false;
        }
    }
    proof {
        assert(a@ =~= b@);
    }
    true
}

/// The nodes named by `groups`.
fn node_set(groups: &Vec<GroupInfo>) -> (nodes: HashSet<NodeId>)
    ensures
        nodes@ == group_nodes(group_views(groups@)),
{
    broadcast use vstd::std_specs::hash::group_hash_axioms;
    let ghost gs = group_views(groups@);
    let mut nodes: HashSet<NodeId> = HashSet::new();
    for i in 0..groups.len()
        invariant
            gs == group_views(groups@),
            nodes@ == group_nodes(gs.take(i as int)),
    {
        nodes.insert(groups[i].node_id);
        proof {
            let t0 = gs.take(i as int);
            let t1 = gs.take(i + 1);
            assert forall|k: NodeId| group_nodes(t1).contains(k) <==> (group_nodes(t0).contains(k)
                || k == groups@[i as int].node_id) by {
                if group_nodes(t1).contains(k) && k != groups@[i as int].node_id {
                    let j = choose|j: int| 0 <= j < t1.len() && #[trigger] t1[j].node_id == k;
                    assert(t0[j].node_id == k);
                }
                if group_nodes(t0).contains(k) {
                    let j = choose|j: int| 0 <= j < t0.len() && #[trigger] t0[j].node_id == k;
                    assert(t1[j].node_id == k);
                }
                if k == groups@[i as int].node_id {
                    assert(t1[i as int].node_id == k);
                }
            }
            assert(nodes@ =~= group_nodes(t1));
        }
    }
    proof {
        assert(gs.take(groups@.len() as int) =~= gs);
    }
    nodes
}

fn copy_window_ids(ids: &Vec<WindowId>) -> (copy: Vec<WindowId>)
    ensures
        copy@ == ids@,
{
    let mut copy: Vec<WindowId> = Vec::new();
    for i in 0..ids.len()
        invariant
            copy@ == ids@.take(i as int),
    {
        copy.push(ids[i]);
        proof {
            assert(copy@ =~= ids@.take(i + 1));
        }
    }
    proof {
        assert(copy@ =~= ids@);
    }
    copy
}

/// Drops, and asks to clear, every indicator on `space_id` whose node is
/// not in `group_nodes`.
fn retain_indicators(
    indicators: &mut HashMap<NodeId, IndicatorState>,
    space_id: SpaceId,
    group_nodes: &HashSet<NodeId>,
    effects: &mut Vec<StackLineEffect>,
)
    ensures
        final(indicators)@ == Map::new(
            |k: NodeId|
                old(indicators)@.contains_key(k) && !(old(indicators)@[k].space_id
                    == space_id && !group_nodes@.contains(k)),
            |k: NodeId| old(indicators)@[k],
        ),
        exists|cleared: Seq<NodeId>|
            {
                &&& cleared.no_duplicates()
                &&& forall|k: NodeId|
                    #![trigger cleared.contains(k)]
                    cleared.contains(k) <==> (old(indicators)@.contains_key(k)
                        && old(indicators)@[k].space_id == space_id
                        && !group_nodes@.contains(k))
                &&& final(effects)@ == old(effects)@ + clear_effects(cleared)
            },
{
    broadcast use vstd::std_specs::hash::group_hash_axioms;
    let ghost old_m = indicators@;
    let ghost old_effects = effects@;
    let ghost doomed = |k: NodeId|
        old_m.contains_key(k) && old_m[k].space_id == space_id && !group_nodes@.contains(k);
    let keys = map_keys(&*indicators);
    let ghost mut cleared: Seq<NodeId> = Seq::empty();
    for i in 0..keys.len()
        invariant
            keys@.to_set() == old_m.dom(),
            keys@.no_duplicates(),
            old_m == old(indicators)@,
            old_effects == old(effects)@,
            doomed == (|k: NodeId|
                old_m.contains_key(k) && old_m[k].space_id == space_id
                    && !group_nodes@.contains(k)),
            indicators@ == Map::new(
                |k: NodeId| old_m.contains_key(k) && !(keys@.take(i as int).contains(k) && doomed(k)),
                |k: NodeId| old_m[k],
            ),
            cleared.no_duplicates(),
            forall|k: NodeId|
                #![trigger cleared.contains(k)]
                cleared.contains(k) <==> (keys@.take(i as int).contains(k) && doomed(k)),
            effects@ == old_effects + clear_effects(cleared),
    {
        let k = keys[i];
        proof {
            assert(keys@.to_set().contains(k));
            assert(!keys@.take(i as int).contains(k)) by {
                if keys@.take(i as int).contains(k) {
                    let j = choose|j: int| 0 <= j < i && keys@.take(i as int)[j] == k;
                    assert(keys@[j] == keys@[i as int]);
                }
            }
            assert(keys@.take(i + 1) =~= keys@.take(i as int).push(k));
        }
        let drop = match indicators.get(&k) {
            Some(indicator) => indicator.space_id == space_id && !group_nodes.contains(&k),
            None => false,
        };
        proof {
            assert(indicators@.contains_key(k));
            assert(drop == doomed(k));
            let t0 = keys@.take(i as int);
            let t1 = keys@.take(i + 1);
            assert forall|kk: NodeId| t1.contains(kk) <==> (t0.contains(kk) || kk == k) by {
                if kk == k {
                    assert(t1[i as int] == k);
                }
                if t1.contains(kk) && kk != k {
                    let j = choose|j: int| 0 <= j < t1.len() && t1[j] == kk;
                    assert(t0[j] == kk);
                }
                if t0.contains(kk) {
                    let j = choose|j: int| 0 <= j < t0.len() && t0[j] == kk;
                    assert(t1[j] == kk);
                }
            }
        }
        if drop {
            indicators.remove(&k);
            effects.push(StackLineEffect::ClearIndicator(k));
            proof {
                let prev = cleared;
                assert(!prev.contains(k));
                cleared = cleared.push(k);
                assert forall|kk: NodeId| cleared.contains(kk) <==> (prev.contains(kk) || kk == k) by {
                    if kk == k {
                        assert(cleared[prev.len() as int] == k);
                    }
                    if cleared.contains(kk) && kk != k {
                        let j = choose|j: int| 0 <= j < cleared.len() && cleared[j] == kk;
                        assert(prev[j] == kk);
                    }
                    if prev.contains(kk) {
                        let j = choose|j: int| 0 <= j < prev.len() && prev[j] == kk;
                        assert(cleared[j] == kk);
                    }
                }
                assert(cleared.no_duplicates()) by {
                    assert forall|a: int, b: int|
                        0 <= a < cleared.len() && 0 <= b < cleared.len() && a != b implies cleared[a]
                        != cleared[b] by {
                        if a == prev.len() {
                            assert(prev.contains(cleared[b]));
                        } else if b == prev.len() {
                            assert(prev.contains(cleared[a]));
                        }
                    }
                }
                assert(clear_effects(cleared) =~= clear_effects(cleared.drop_last()).push(
                    StackLineEffect::ClearIndicator(k),
                ));
            }
        }
        proof {
            assert(indicators@ =~= Map::new(
                |kk: NodeId|
                    old_m.contains_key(kk) && !(keys@.take(i + 1).contains(kk) && doomed(kk)),
                |kk: NodeId| old_m[kk],
            ));
            assert forall|kk: NodeId| #![trigger cleared.contains(kk)]
                cleared.contains(kk) <==> (keys@.take(i + 1).contains(kk) && doomed(kk)) by {
                if drop && kk == k {
                    assert(cleared[cleared.len() - 1] == k);
                }
            }
        }
    }
    proof {
        assert(keys@.take(keys@.len() as int) =~= keys@);
        assert forall|k: NodeId| keys@.contains(k) <==> old_m.contains_key(k) by {
            assert(keys@.to_set().contains(k) <==> keys@.contains(k));
        }
        assert(indicators@ =~= Map::new(
            |k: NodeId|
                old_m.contains_key(k) && !(old_m[k].space_id == space_id
                    && !group_nodes@.contains(k)),
            |k: NodeId| old_m[k],
        ));
    }
}

/// The indicators by node, as views.
pub open spec fn indicator_views(m: Map<NodeId, IndicatorState>) -> Map<NodeId, IndicatorView> {
    m.map_values(|r: IndicatorState| r@)
}

/// The stack line as its contracts speak of it.
pub struct StackLineView {
    /// Whether stack lines are enabled in the configuration.
    pub enabled: bool,
    /// The indicators, by node.
    pub indicators: Map<NodeId, IndicatorView>,
    /// The group signatures last seen, by space.
    pub sigs: Map<SpaceId, Seq<GroupSig>>,
    pub cursor_over_indicator: bool,
    /// The groups of the update being drawn.
    pub pending: Seq<GroupInfoView>,
    /// Position in `pending` of the next group to draw.
    pub next_group: nat,
    /// The node whose new indicator the interface is opening, if any.
    pub awaiting_creation: Option<NodeId>,
}

/// With stack lines disabled nothing is kept and nothing is being drawn; the
/// next group to draw lies within the update.
pub open spec fn stack_line_wf(v: StackLineView) -> bool {
    &&& v.next_group <= v.pending.len()
    &&& !v.enabled ==> {
        &&& v.indicators.is_empty()
        &&& v.sigs.is_empty()
        &&& v.pending.len() == 0
        &&& v.next_group == 0
        &&& v.awaiting_creation is None
    }
}

/// `v` with the pointer counted as over an indicator or not.
pub open spec fn with_cursor(v: StackLineView, over: bool) -> StackLineView {
    StackLineView { cursor_over_indicator: over, ..v }
}

/// Whether drawing `g` over the indicators `m` opens a new indicator.
pub open spec fn opens_indicator(m: Map<NodeId, IndicatorView>, g: GroupInfoView) -> bool {
    group_kind_for(g.container_kind) is Some && !m.contains_key(g.node_id)
}

/// How far drawing an update gets before it has to wait for a new indicator
/// window.
pub struct DrawRun {
    pub indicators: Map<NodeId, IndicatorView>,
    pub effects: Seq<StackLineEffect>,
    pub next: nat,
    pub awaiting: Option<NodeId>,
}

/// Drawing the groups `gs` from position `i` over the indicators `m`, in
/// order, up to and including the first group that opens a new indicator.
pub open spec fn draw_until_create(m: Map<NodeId, IndicatorView>, gs: Seq<GroupInfoView>, i: nat) -> DrawRun
    decreases gs.len() - i,
{
    if i >= gs.len() {
        DrawRun { indicators: m, effects: Seq::empty(), next: i, awaiting: None }
    } else {
        let g = gs[i as int];
        let e = placement_effect(m, g, i as int);
        if opens_indicator(m, g) {
            DrawRun { indicators: apply_group(m, g), effects: e, next: i + 1, awaiting: Some(g.node_id) }
        } else {
            let r = draw_until_create(apply_group(m, g), gs, i + 1);
            DrawRun { effects: e + r.effects, ..r }
        }
    }
}

/// Drawing the groups from position `i` on, with every new indicator window
/// opening as asked.
pub open spec fn draw_succeeding(m: Map<NodeId, IndicatorView>, gs: Seq<GroupInfoView>, i: nat) -> Map<
    NodeId,
    IndicatorView,
>
    decreases gs.len() - i,
{
    let r = draw_until_create(m, gs, i);
    if r.awaiting is Some && i < r.next <= gs.len() {
        draw_succeeding(r.indicators, gs, r.next)
    } else {
        r.indicators
    }
}

/// Draws group `group`, found at `group_index` of its update: a stack's
/// indicator is moved and redrawn, or opened where there is none yet. Any
/// other container is left alone. Returns whether a new indicator is opened.
fn update_or_create_indicator(
    indicators: &mut HashMap<NodeId, IndicatorState>,
    group: &GroupInfo,
    group_index: usize,
    effects: &mut Vec<StackLineEffect>,
) -> (created: bool)
    ensures
        indicator_views(final(indicators)@) == apply_group(indicator_views(old(indicators)@), group@),
        final(effects)@ == old(effects)@ + placement_effect(
            indicator_views(old(indicators)@),
            group@,
            group_index as int,
        ),
        created == opens_indicator(indicator_views(old(indicators)@), group@),
{
    broadcast use vstd::std_specs::hash::group_hash_axioms;
    let group_kind = match group.container_kind {
        LayoutKind::HorizontalStack => GroupKind::Horizontal,
        LayoutKind::VerticalStack => GroupKind::Vertical,
        _ => {
            proof {
                assert(effects@ =~= old(effects)@ + placement_effect(
                    indicator_views(old(indicators)@),
                    group@,
                    group_index as int,
                ));
            }
            return false;
        },
    };
    let indicator = IndicatorState {
        space_id: group.space_id,
        group_kind,
        total_count: group.total_count,
        selected_index: group.selected_index,
        window_ids: copy_window_ids(&group.window_ids),
    };
    let node_id = group.node_id;
    let exists = indicators.contains_key(&node_id);
    if exists {
        effects.push(StackLineEffect::UpdateIndicator { node_id, group_index, group_kind });
    } else {
        effects.push(StackLineEffect::CreateIndicator { node_id, group_index, group_kind });
    }
    indicators.insert(node_id, indicator);
    proof {
        assert(indicator_views(indicators@) =~= apply_group(
            indicator_views(old(indicators)@),
            group@,
        ));
        assert(effects@ =~= old(effects)@ + placement_effect(
            indicator_views(old(indicators)@),
            group@,
            group_index as int,
        ));
    }
    !exists
}

/// Draws the groups from position `i` on, up to and including the first that
/// opens a new indicator. Returns the position after the last group drawn and
/// the node whose window is to be opened, if drawing stopped for one.
fn draw_groups(
    indicators: &mut HashMap<NodeId, IndicatorState>,
    groups: &Vec<GroupInfo>,
    i: usize,
    effects: &mut Vec<StackLineEffect>,
) -> (stop: (usize, Option<NodeId>))
    requires
        i <= groups@.len(),
    ensures
        indicator_views(final(indicators)@) == draw_until_create(
            indicator_views(old(indicators)@),
            group_views(groups@),
            i as nat,
        ).indicators,
        final(effects)@ == old(effects)@ + draw_until_create(
            indicator_views(old(indicators)@),
            group_views(groups@),
            i as nat,
        ).effects,
        stop.0 == draw_until_create(
            indicator_views(old(indicators)@),
            group_views(groups@),
            i as nat,
        ).next,
        stop.1 == draw_until_create(
            indicator_views(old(indicators)@),
            group_views(groups@),
            i as nat,
        ).awaiting,
        stop.0 <= groups@.len(),
    decreases groups@.len() - i,
{
    if i >= groups.len() {
        proof {
            assert(effects@ =~= old(effects)@ + Seq::<StackLineEffect>::empty());
        }
        return (i, None);
    }
    let created = update_or_create_indicator(indicators, &groups[i], i, effects);
    if created {
        (i + 1, Some(groups[i].node_id))
    } else {
        let ghost mid = effects@;
        let stop = draw_groups(indicators, groups, i + 1, effects);
        proof {
            let m0 = indicator_views(old(indicators)@);
            let g = group_views(groups@)[i as int];
            assert(g == groups@[i as int]@);
            let r = draw_until_create(apply_group(m0, g), group_views(groups@), (i + 1) as nat);
            assert(effects@ =~= old(effects)@ + (placement_effect(m0, g, i as int) + r.effects));
        }
        stop
    }
}

/// The stack-line actor: one indicator per stack group.
pub struct StackLine {
    enabled: bool,
    indicators: HashMap<NodeId, IndicatorState>,
    group_sigs_by_space: HashMap<SpaceId, Vec<GroupSig>>,
    cursor_over_indicator: bool,
    pending_groups: Vec<GroupInfo>,
    next_group: usize,
    awaiting_creation: Option<NodeId>,
}

impl View for StackLine {
    type V = StackLineView;

    closed spec fn view(&self) -> StackLineView {
        StackLineView {
            enabled: self.enabled,
            indicators: indicator_views(self.indicators@),
            sigs: self.group_sigs_by_space@.map_values(|v: Vec<GroupSig>| v@),
            cursor_over_indicator: self.cursor_over_indicator,
            pending: group_views(self.pending_groups@),
            next_group: self.next_group as nat,
            awaiting_creation: self.awaiting_creation,
        }
    }
}

/// `post` and `effects` are what handling new groups `groups` for `space_id`
/// makes of `pre`: nothing where the stored signatures of the space match the
/// groups; otherwise the new signatures are stored, the indicators the update
/// drops are cleared in some order, and the groups are drawn in turn up to the
/// first that needs a new indicator window.
pub open spec fn groups_updated(
    pre: StackLineView,
    post: StackLineView,
    space_id: SpaceId,
    groups: Seq<GroupInfo>,
    effects: Seq<StackLineEffect>,
) -> bool {
    let gs = group_views(groups);
    let kept = kept_indicators(pre.indicators, space_id, gs);
    let r = draw_until_create(kept, gs, 0);
    if sigs_unchanged(pre.sigs, space_id, gs) {
        post == pre && effects.len() == 0
    } else {
        &&& post.enabled == pre.enabled
        &&& post.cursor_over_indicator == pre.cursor_over_indicator
        &&& post.sigs == pre.sigs.insert(space_id, sigs_of(gs))
        &&& post.pending == gs
        &&& post.indicators == r.indicators
        &&& post.next_group == r.next
        &&& post.awaiting_creation == r.awaiting
        &&& exists|cleared: Seq<NodeId>|
            {
                &&& cleared.no_duplicates()
                &&& forall|k: NodeId|
                    #![trigger cleared.contains(k)]
                    cleared.contains(k) <==> cleared_by_update(pre.indicators, space_id, gs, k)
                &&& effects == clear_effects(cleared) + r.effects
            }
    }
}

/// `post` and `effects` are what the report that the awaited indicator window
/// did (`created`) or did not open makes of `pre`: a window that did not open
/// leaves no indicator behind, and drawing goes on with the next group.
pub open spec fn creation_reported(
    pre: StackLineView,
    post: StackLineView,
    created: bool,
    effects: Seq<StackLineEffect>,
) -> bool {
    match pre.awaiting_creation {
        None => post == pre && effects.len() == 0,
        Some(node_id) => {
            let m = if created {
                pre.indicators
            } else {
                pre.indicators.remove(node_id)
            };
            let r = draw_until_create(m, pre.pending, pre.next_group);
            &&& post.enabled == pre.enabled
            &&& post.cursor_over_indicator == pre.cursor_over_indicator
            &&& post.sigs == pre.sigs
            &&& post.pending == pre.pending
            &&& post.indicators == r.indicators
            &&& post.next_group == r.next
            &&& post.awaiting_creation == r.awaiting
            &&& effects == r.effects
        },
    }
}

/// `post` and `effects` are what a new configuration with stack lines
/// `enabled` or not makes of `pre`. Turning them off clears every indicator
/// (in some order) and forgets all signatures and any update being drawn;
/// with them on every indicator is redrawn in the new style (in some order).
pub open spec fn config_updated(
    pre: StackLineView,
    post: StackLineView,
    enabled: bool,
    effects: Seq<StackLineEffect>,
) -> bool {
    if pre.enabled && !enabled {
        &&& post.enabled == enabled
        &&& post.cursor_over_indicator == pre.cursor_over_indicator
        &&& post.indicators.is_empty()
        &&& post.sigs.is_empty()
        &&& post.pending.len() == 0
        &&& post.next_group == 0
        &&& post.awaiting_creation is None
        &&& exists|nodes: Seq<NodeId>|
            {
                &&& nodes.no_duplicates()
                &&& nodes.to_set() == pre.indicators.dom()
                &&& effects == clear_effects(nodes)
            }
    } else {
        &&& post == StackLineView { enabled, ..pre }
        &&& if enabled {
            exists|nodes: Seq<NodeId>|
                {
                    &&& nodes.no_duplicates()
                    &&& nodes.to_set() == pre.indicators.dom()
                    &&& effects == restyle_effects(nodes)
                }
        } else {
            effects.len() == 0
        }
    }
}

impl StackLine {
    #[verifier::type_invariant]
    spec fn inv(self) -> bool {
        stack_line_wf(self@)
    }

    pub fn new(enabled: bool) -> (s: StackLine)
        ensures
            s@.enabled == enabled,
            s@.indicators.is_empty(),
            s@.sigs.is_empty(),
            !s@.cursor_over_indicator,
            s@.pending.len() == 0,
            s@.next_group == 0,
            s@.awaiting_creation is None,
    {
        let s = StackLine {
            enabled,
            indicators: HashMap::new(),
            group_sigs_by_space: HashMap::new(),
            cursor_over_indicator: false,
            pending_groups: Vec::new(),
            next_group: 0,
            awaiting_creation: None,
        };
        proof {
            assert(s@.indicators =~= Map::<NodeId, IndicatorView>::empty());
            assert(s@.sigs =~= Map::<SpaceId, Seq<GroupSig>>::empty());
        }
        s
    }

    pub fn is_enabled(&self) -> (b: bool)
        ensures
            b == self@.enabled,
    {
        self.enabled
    }

    /// The indicator of `node_id`, if there is one.
    pub fn indicator(&self, node_id: NodeId) -> (r: Option<&IndicatorState>)
        ensures
            r is Some <==> self@.indicators.contains_key(node_id),
            r matches Some(ind) ==> ind@ == self@.indicators[node_id],
    {
        broadcast use vstd::std_specs::hash::group_hash_axioms;
        self.indicators.get(&node_id)
    }

    /// How many indicators there are.
    pub fn indicator_count(&self) -> (n: usize)
        ensures
            n == self@.indicators.len(),
    {
        broadcast use vstd::std_specs::hash::group_hash_axioms;
        proof {
            assert(self@.indicators.dom() =~= self.indicators@.dom());
        }
        self.indicators.len()
    }

    /// Whether signatures are stored for `space_id`.
    pub fn remembers_space(&self, space_id: SpaceId) -> (b: bool)
        ensures
            b == self@.sigs.contains_key(space_id),
    {
        broadcast use vstd::std_specs::hash::group_hash_axioms;
        self.group_sigs_by_space.contains_key(&space_id)
    }

    /// Whether the pointer counts as over an indicator.
    pub fn cursor_over_indicator(&self) -> (b: bool)
        ensures
            b == self@.cursor_over_indicator,
    {
        self.cursor_over_indicator
    }

    /// The node whose new indicator window is awaited, if any.
    pub fn awaiting_creation(&self) -> (n: Option<NodeId>)
        ensures
            n == self@.awaiting_creation,
    {
        self.awaiting_creation
    }

    /// A click on segment `segment_index` of the indicator of `node_id`: the
    /// window shown in that segment gets the focus. An unknown node or a
    /// segment past the indicator's windows does nothing.
    pub fn handle_indicator_clicked(&self, node_id: NodeId, segment_index: usize) -> (effect: Option<
        StackLineEffect,
    >)
        ensures
            effect == click_effect(self@.indicators, node_id, segment_index),
    {
        broadcast use vstd::std_specs::hash::group_hash_axioms;
        match self.indicators.get(&node_id) {
            Some(indicator) => {
                if segment_index < indicator.window_ids.len() {
                    Some(StackLineEffect::FocusWindow(indicator.window_ids[segment_index]))
                } else {
                    None
                }
            },
            None => None,
        }
    }

    /// A mouse press. `clicked` is the first indicator segment under the
    /// pointer, if any; only an enabled stack line reacts to it.
    pub fn handle_mouse_down(&self, clicked: Option<(NodeId, usize)>) -> (effect: Option<
        StackLineEffect,
    >)
        ensures
            effect == mouse_down_effect(self@.enabled, self@.indicators, clicked),
    {
        if !self.is_enabled() {
            return None;
        }
        match clicked {
            Some((node_id, segment_index)) => self.handle_indicator_clicked(node_id, segment_index),
            None => None,
        }
    }

    /// A mouse move. The entry area around an indicator is wider than the area
    /// the pointer has to leave before it counts as gone: `over_entry_area`
    /// and `over_exit_area` say whether the pointer is inside either area of
    /// some indicator. The cursor becomes a pointing hand over an indicator and
    /// an arrow once it left.
    pub fn handle_mouse_moved(&mut self, over_entry_area: bool, over_exit_area: bool) -> (effect:
        Option<StackLineEffect>)
        ensures
            final(self)@ == with_cursor(
                old(self)@,
                pointer_over(
                    old(self)@.enabled,
                    old(self)@.cursor_over_indicator,
                    over_entry_area,
                    over_exit_area,
                ),
            ),
            effect == cursor_effect(
                old(self)@.cursor_over_indicator,
                final(self)@.cursor_over_indicator,
            ),
    {
        proof {
            use_type_invariant(&*self);
        }
        let over_indicator = if self.is_enabled() {
            if self.cursor_over_indicator {
                over_exit_area
            } else {
                over_entry_area
            }
        } else {
            false
        };
        if over_indicator != self.cursor_over_indicator {
            self.cursor_over_indicator = over_indicator;
            if over_indicator {
                Some(StackLineEffect::SetCursor(CursorShape::PointingHand))
            } else {
                Some(StackLineEffect::SetCursor(CursorShape::Arrow))
            }
        } else {
            None
        }
    }

    /// New layout groups for `space_id`. Where their signatures match those
    /// seen last for the space nothing happens. Otherwise the signatures are
    /// stored, indicators on the space whose node is no group's any more are
    /// cleared (in some order), and the groups are drawn in turn until one
    /// needs a new indicator window.
    fn handle_groups_updated(&mut self, space_id: SpaceId, groups: Vec<GroupInfo>) -> (effects: Vec<
        StackLineEffect,
    >)
        requires
            old(self)@.enabled,
        ensures
            groups_updated(old(self)@, final(self)@, space_id, groups@, effects@),
    {
        broadcast use vstd::std_specs::hash::group_hash_axioms;
        proof {
            use_type_invariant(&*self);
        }
        let ghost gs = group_views(groups@);
        let ghost pre = self@;
        let sigs = group_sigs(&groups);
        let unchanged = match self.group_sigs_by_space.get(&space_id) {
            Some(prev) => sigs_equal(prev, &sigs),
            None => false,
        };
        if unchanged {
            return Vec::new();
        }
        let mut sig_map: HashMap<SpaceId, Vec<GroupSig>> = HashMap::new();
        std::mem::swap(&mut sig_map, &mut self.group_sigs_by_space);
        sig_map.insert(space_id, sigs);
        self.group_sigs_by_space = sig_map;
        let group_nodes = node_set(&groups);
        let mut effects: Vec<StackLineEffect> = Vec::new();
        let mut indicators: HashMap<NodeId, IndicatorState> = HashMap::new();
        std::mem::swap(&mut indicators, &mut self.indicators);
        retain_indicators(&mut indicators, space_id, &group_nodes, &mut effects);
        let ghost kept = kept_indicators(pre.indicators, space_id, gs);
        proof {
            assert(indicator_views(indicators@) =~= kept);
        }
        let stop = draw_groups(&mut indicators, &groups, 0, &mut effects);
        self.indicators = indicators;
        self.next_group = 0;
        self.pending_groups = groups;
        self.next_group = stop.0;
        self.awaiting_creation = stop.1;
        proof {
            assert(self@.sigs =~= pre.sigs.insert(space_id, sigs_of(gs)));
        }
        effects
    }

    /// The interface reports whether the indicator window it was asked to
    /// open (`CreateIndicator`) did open. One that did not is forgotten; then
    /// drawing goes on with the rest of the update.
    pub fn indicator_created(&mut self, created: bool) -> (effects: Vec<StackLineEffect>)
        ensures
            creation_reported(old(self)@, final(self)@, created, effects@),
            stack_line_wf(final(self)@),
    {
        broadcast use vstd::std_specs::hash::group_hash_axioms;
        proof {
            use_type_invariant(&*self);
        }
        let ghost pre = self@;
        match self.awaiting_creation {
            None => Vec::new(),
            Some(node_id) => {
                let mut effects: Vec<StackLineEffect> = Vec::new();
                let mut indicators: HashMap<NodeId, IndicatorState> = HashMap::new();
                std::mem::swap(&mut indicators, &mut self.indicators);
                if !created {
                    indicators.remove(&node_id);
                }
                proof {
                    let m = if created {
                        pre.indicators
                    } else {
                        pre.indicators.remove(node_id)
                    };
                    assert(indicator_views(indicators@) =~= m);
                }
                let stop = draw_groups(&mut indicators, &self.pending_groups, self.next_group, &mut effects);
                self.indicators = indicators;
                self.next_group = stop.0;
                self.awaiting_creation = stop.1;
                effects
            },
        }
    }

    /// The configuration changed to stack lines `enabled` or not.
    pub fn handle_config_updated(&mut self, enabled: bool) -> (effects: Vec<StackLineEffect>)
        ensures
            config_updated(old(self)@, final(self)@, enabled, effects@),
            stack_line_wf(final(self)@),
    {
        broadcast use vstd::std_specs::hash::group_hash_axioms;
        proof {
            use_type_invariant(&*self);
        }
        let old_enabled = self.is_enabled();
        let mut effects: Vec<StackLineEffect> = Vec::new();
        if old_enabled && !enabled {
            let nodes = map_keys(&self.indicators);
            for i in 0..nodes.len()
                invariant
                    effects@ == clear_effects(nodes@.take(i as int)),
            {
                effects.push(StackLineEffect::ClearIndicator(nodes[i]));
                proof {
                    assert(effects@ =~= clear_effects(nodes@.take(i + 1)));
                }
            }
            proof {
                assert(nodes@.take(nodes@.len() as int) =~= nodes@);
                assert(self@.indicators.dom() =~= self.indicators@.dom());
            }
            self.indicators = HashMap::new();
            self.group_sigs_by_space = HashMap::new();
            self.next_group = 0;
            self.pending_groups = Vec::new();
            self.awaiting_creation = None;
            self.enabled = false;
            proof {
                assert(self@.indicators =~= Map::<NodeId, IndicatorView>::empty());
                assert(self@.sigs =~= Map::<SpaceId, Seq<GroupSig>>::empty());
            }
        } else {
            if enabled {
                let nodes = map_keys(&self.indicators);
                for i in 0..nodes.len()
                    invariant
                        effects@ == restyle_effects(nodes@.take(i as int)),
                {
                    effects.push(StackLineEffect::RestyleIndicator(nodes[i]));
                    proof {
                        assert(effects@ =~= restyle_effects(nodes@.take(i + 1)));
                    }
                }
                proof {
                    assert(nodes@.take(nodes@.len() as int) =~= nodes@);
                    assert(self@.indicators.dom() =~= self.indicators@.dom());
                }
            }
            self.enabled = enabled;
        }
        effects
    }

    /// Handles one event. While stack lines are disabled new groups are
    /// ignored; the screen geometry is kept by the event loop.
    pub fn handle_event(&mut self, event: Event) -> (effects: Vec<StackLineEffect>)
        ensures
            stack_line_wf(final(self)@),
            match event {
                Event::GroupsUpdated { space_id, groups } => if old(self)@.enabled {
                    groups_updated(old(self)@, final(self)@, space_id, groups@, effects@)
                } else {
                    final(self)@ == old(self)@ && effects@.len() == 0
                },
                Event::ScreenParametersChanged => final(self)@ == old(self)@ && effects@.len() == 0,
                Event::ConfigUpdated { enabled } => config_updated(
                    old(self)@,
                    final(self)@,
                    enabled,
                    effects@,
                ),
                Event::MouseDown(clicked) => final(self)@ == old(self)@ && effects@ == optional_effect(
                    mouse_down_effect(old(self)@.enabled, old(self)@.indicators, clicked),
                ),
                Event::MouseMoved { over_entry_area, over_exit_area } => {
                    let over = pointer_over(
                        old(self)@.enabled,
                        old(self)@.cursor_over_indicator,
                        over_entry_area,
                        over_exit_area,
                    );
                    &&& final(self)@ == with_cursor(old(self)@, over)
                    &&& effects@ == optional_effect(cursor_effect(old(self)@.cursor_over_indicator, over))
                },
            },
    {
        let effects = match event {
            Event::GroupsUpdated { space_id, groups } => {
                if !self.is_enabled() {
                    Vec::new()
                } else {
                    self.handle_groups_updated(space_id, groups)
                }
            },
            Event::ScreenParametersChanged => Vec::new(),
            Event::ConfigUpdated { enabled } => self.handle_config_updated(enabled),
            Event::MouseDown(clicked) => effect_list(self.handle_mouse_down(clicked)),
            Event::MouseMoved { over_entry_area, over_exit_area } => effect_list(
                self.handle_mouse_moved(over_entry_area, over_exit_area),
            ),
        };
        proof {
            use_type_invariant(&*self);
        }
        effects
    }
}

/// The effects an optional effect stands for.
pub open spec fn optional_effect(e: Option<StackLineEffect>) -> Seq<StackLineEffect> {
    match e {
        Some(e) => seq![e],
        None => Seq::empty(),
    }
}

/// What a mouse press on `clicked` asks for.
pub open spec fn mouse_down_effect(
    enabled: bool,
    m: Map<NodeId, IndicatorView>,
    clicked: Option<(NodeId, usize)>,
) -> Option<StackLineEffect> {
    match clicked {
        Some((node_id, segment_index)) => if enabled {
            click_effect(m, node_id, segment_index)
        } else {
            None
        },
        None => None,
    }
}

/// The cursor change when the pointer goes from over an indicator or not
/// (`was_over`) to `over`.
pub open spec fn cursor_effect(was_over: bool, over: bool) -> Option<StackLineEffect> {
    if over == was_over {
        None
    } else if over {
        Some(StackLineEffect::SetCursor(CursorShape::PointingHand))
    } else {
        Some(StackLineEffect::SetCursor(CursorShape::Arrow))
    }
}

fn effect_list(e: Option<StackLineEffect>) -> (effects: Vec<StackLineEffect>)
    ensures
        effects@ == optional_effect(e),
{
    let mut effects: Vec<StackLineEffect> = Vec::new();
    match e {
        Some(e) => effects.push(e),
        None => {},
    }
    proof {
        assert(effects@ =~= optional_effect(e));
    }
    effects
}

/// The focus request a click on `segment_index` of the indicator of `node_id`
/// makes.
pub open spec fn click_effect(
    m: Map<NodeId, IndicatorView>,
    node_id: NodeId,
    segment_index: usize,
) -> Option<StackLineEffect> {
    if m.contains_key(node_id) && segment_index < m[node_id].window_ids.len() {
        Some(StackLineEffect::FocusWindow(m[node_id].window_ids[segment_index as int]))
    } else {
        None
    }
}

/// Whether the pointer counts as over an indicator after a move.
pub open spec fn pointer_over(enabled: bool, was_over: bool, over_entry: bool, over_exit: bool) -> bool {
    enabled && if was_over {
        over_exit
    } else {
        over_entry
    }
}

/// Whether some stack group among `gs` is for node `k`.
pub open spec fn stack_group_for(gs: Seq<GroupInfoView>, k: NodeId) -> bool {
    exists|i: int|
        0 <= i < gs.len() && #[trigger] gs[i].node_id == k && group_kind_for(
            gs[i].container_kind,
        ) is Some
}

/// Drawing groups `gs` over the indicators `m` keeps every indicator whose
/// node no group names, adds one for every stack group, and adds nothing else.
pub proof fn lemma_apply_groups(m: Map<NodeId, IndicatorView>, gs: Seq<GroupInfoView>)
    ensures
        forall|k: NodeId|
            #[trigger] apply_groups(m, gs).contains_key(k) <==> (m.contains_key(k)
                || stack_group_for(gs, k)),
        forall|k: NodeId|
            !group_nodes(gs).contains(k) && m.contains_key(k) ==> #[trigger] apply_groups(
                m,
                gs,
            )[k] == m[k],
    decreases gs.len(),
{
    if gs.len() > 0 {
        let init = gs.drop_last();
        let g = gs.last();
        lemma_apply_groups(m, init);
        let prev = apply_groups(m, init);
        assert(apply_groups(m, gs) == apply_group(prev, g));
        assert forall|k: NodeId| #[trigger]
            apply_groups(m, gs).contains_key(k) <==> (m.contains_key(k) || stack_group_for(
                gs,
                k,
            )) by {
            if stack_group_for(gs, k) {
                let i = choose|i: int|
                    0 <= i < gs.len() && #[trigger] gs[i].node_id == k && group_kind_for(
                        gs[i].container_kind,
                    ) is Some;
                if i < gs.len() - 1 {
                    assert(init[i].node_id == k);
                    assert(stack_group_for(init, k));
                }
            }
            if stack_group_for(init, k) {
                let i = choose|i: int|
                    0 <= i < init.len() && #[trigger] init[i].node_id == k && group_kind_for(
                        init[i].container_kind,
                    ) is Some;
                assert(gs[i].node_id == k);
            }
            if group_kind_for(g.container_kind) is Some && k == g.node_id {
                assert(gs[gs.len() - 1].node_id == k);
                assert(stack_group_for(gs, k));
                assert(apply_groups(m, gs).contains_key(k));
            } else {
                assert(apply_groups(m, gs).contains_key(k) == prev.contains_key(k));
            }
        }
        assert forall|k: NodeId|
            !group_nodes(gs).contains(k) && m.contains_key(k) implies #[trigger] apply_groups(
                m,
                gs,
            )[k] == m[k] by {
            if group_nodes(init).contains(k) {
                let i = choose|i: int| 0 <= i < init.len() && #[trigger] init[i].node_id == k;
                assert(gs[i].node_id == k);
            }
            if k == g.node_id {
                assert(gs[gs.len() - 1].node_id == k);
            }
            assert(!group_nodes(init).contains(k));
            assert(prev[k] == m[k]);
            assert(prev.contains_key(k));
        }
    }
}


/// Drawing `a` and then `b` is drawing `a + b`.
pub proof fn lemma_apply_groups_concat(
    m: Map<NodeId, IndicatorView>,
    a: Seq<GroupInfoView>,
    b: Seq<GroupInfoView>,
)
    ensures
        apply_groups(apply_groups(m, a), b) == apply_groups(m, a + b),
    decreases b.len(),
{
    if b.len() == 0 {
        assert(a + b =~= a);
    } else {
        lemma_apply_groups_concat(m, a, b.drop_last());
        assert((a + b).drop_last() =~= a + b.drop_last());
        assert((a + b).last() == b.last());
    }
}

/// Drawing a single group is `apply_group`.
proof fn lemma_apply_single(m: Map<NodeId, IndicatorView>, g: GroupInfoView)
    ensures
        apply_groups(m, seq![g]) == apply_group(m, g),
{
    let one = seq![g];
    assert(one.drop_last() =~= Seq::<GroupInfoView>::empty());
    assert(apply_groups(m, one.drop_last()) == m);
    assert(one.last() == g);
    assert(apply_groups(m, one) == apply_group(apply_groups(m, one.drop_last()), one.last()));
}

/// One stretch of drawing, from position `i` up to the first group that opens
/// a new indicator: it draws exactly the groups in between, stops only at the
/// end of the update or right after a group that opens an indicator, and then
/// waits for that group's node.
pub proof fn lemma_draw_run(m: Map<NodeId, IndicatorView>, gs: Seq<GroupInfoView>, i: nat)
    requires
        i <= gs.len(),
    ensures
        ({
            let r = draw_until_create(m, gs, i);
            &&& i <= r.next <= gs.len()
            &&& r.indicators == apply_groups(m, gs.subrange(i as int, r.next as int))
            &&& r.awaiting is None ==> r.next == gs.len()
            &&& r.awaiting matches Some(n) ==> {
                &&& i < r.next
                &&& gs[r.next - 1].node_id == n
                &&& opens_indicator(
                    apply_groups(m, gs.subrange(i as int, r.next - 1)),
                    gs[r.next - 1],
                )
            }
        }),
    decreases gs.len() - i,
{
    if i < gs.len() {
        let g = gs[i as int];
        lemma_apply_single(m, g);
        assert(gs.subrange(i as int, i as int + 1) =~= seq![g]);
        assert(gs.subrange(i as int, i as int) =~= Seq::<GroupInfoView>::empty());
        if !opens_indicator(m, g) {
            let m2 = apply_group(m, g);
            lemma_draw_run(m2, gs, i + 1);
            let r = draw_until_create(m2, gs, i + 1);
            lemma_apply_groups_concat(m, seq![g], gs.subrange(i as int + 1, r.next as int));
            assert(seq![g] + gs.subrange(i as int + 1, r.next as int) =~= gs.subrange(
                i as int,
                r.next as int,
            ));
            if r.awaiting is Some {
                lemma_apply_groups_concat(m, seq![g], gs.subrange(i as int + 1, r.next - 1));
                assert(seq![g] + gs.subrange(i as int + 1, r.next - 1) =~= gs.subrange(
                    i as int,
                    r.next - 1,
                ));
            }
        }
    } else {
        assert(gs.subrange(i as int, i as int) =~= Seq::<GroupInfoView>::empty());
    }
}

/// When every new indicator window opens as asked, drawing an update from
/// position `i` ends with exactly the groups from `i` on drawn in order.
pub proof fn lemma_all_created(m: Map<NodeId, IndicatorView>, gs: Seq<GroupInfoView>, i: nat)
    requires
        i <= gs.len(),
    ensures
        draw_succeeding(m, gs, i) == apply_groups(m, gs.subrange(i as int, gs.len() as int)),
    decreases gs.len() - i,
{
    let r = draw_until_create(m, gs, i);
    lemma_draw_run(m, gs, i);
    if r.awaiting is Some && i < r.next <= gs.len() {
        lemma_all_created(r.indicators, gs, r.next);
        lemma_apply_groups_concat(
            m,
            gs.subrange(i as int, r.next as int),
            gs.subrange(r.next as int, gs.len() as int),
        );
        assert(gs.subrange(i as int, r.next as int) + gs.subrange(r.next as int, gs.len() as int)
            =~= gs.subrange(i as int, gs.len() as int));
    }
}

/// After an update of `space_id` that has to be drawn, and with every new
/// indicator window opening, the indicators match the groups: every stack
/// group has an indicator, an indicator on the space belongs to a node some
/// group names, and indicators of nodes no group names on other spaces are
/// left as they were.
pub proof fn lemma_update_matches_groups(pre: StackLineView, space_id: SpaceId, groups: Seq<GroupInfo>)
    ensures
        ({
            let gs = group_views(groups);
            let fin = draw_succeeding(kept_indicators(pre.indicators, space_id, gs), gs, 0);
            &&& fin == apply_groups(kept_indicators(pre.indicators, space_id, gs), gs)
            &&& forall|i: int|
                0 <= i < groups.len() && group_kind_for(groups[i].container_kind) is Some
                    ==> fin.contains_key(#[trigger] groups[i].node_id)
            &&& forall|k: NodeId|
                fin.contains_key(k) && fin[k].space_id == space_id ==> group_nodes(gs).contains(k)
            &&& forall|k: NodeId|
                !group_nodes(gs).contains(k) && pre.indicators.contains_key(k)
                    && pre.indicators[k].space_id != space_id ==> {
                    &&& fin.contains_key(k)
                    &&& fin[k] == pre.indicators[k]
                }
        }),
{
    let gs = group_views(groups);
    let m = pre.indicators;
    let kept = kept_indicators(m, space_id, gs);
    lemma_all_created(kept, gs, 0);
    assert(gs.subrange(0, gs.len() as int) =~= gs);
    lemma_apply_groups(kept, gs);
    let fin = apply_groups(kept, gs);
    assert forall|i: int|
        0 <= i < groups.len() && group_kind_for(groups[i].container_kind) is Some implies fin.contains_key(
        #[trigger] groups[i].node_id) by {
        assert(gs[i].node_id == groups[i].node_id);
        assert(stack_group_for(gs, groups[i].node_id));
    }
    assert forall|k: NodeId|
        fin.contains_key(k) && fin[k].space_id == space_id implies group_nodes(gs).contains(k) by {
        if !group_nodes(gs).contains(k) {
            assert(!stack_group_for(gs, k)) by {
                if stack_group_for(gs, k) {
                    let i = choose|i: int|
                        0 <= i < gs.len() && #[trigger] gs[i].node_id == k && group_kind_for(
                            gs[i].container_kind,
                        ) is Some;
                }
            }
            assert(kept.contains_key(k));
        }
    }
}

/// Handing the stack line the same groups for a space twice in a row: the
/// second time nothing changes and nothing is asked of the interface.
pub proof fn lemma_repeated_update_is_noop(
    pre: StackLineView,
    mid: StackLineView,
    post: StackLineView,
    space_id: SpaceId,
    groups: Seq<GroupInfo>,
    first: Seq<StackLineEffect>,
    second: Seq<StackLineEffect>,
)
    requires
        groups_updated(pre, mid, space_id, groups, first),
        groups_updated(mid, post, space_id, groups, second),
    ensures
        second.len() == 0,
        post == mid,
{
    if !sigs_unchanged(pre.sigs, space_id, group_views(groups)) {
        assert(sigs_unchanged(mid.sigs, space_id, group_views(groups)));
    }
}

/// An indicator window that fails to open leaves no indicator for its node.
pub proof fn lemma_failed_creation_leaves_no_indicator(
    pre: StackLineView,
    post: StackLineView,
    effects: Seq<StackLineEffect>,
)
    requires
        stack_line_wf(pre),
        pre.awaiting_creation is Some,
        creation_reported(pre, post, false, effects),
        !stack_group_for(pre.pending.subrange(pre.next_group as int, pre.pending.len() as int), pre.awaiting_creation->0),
    ensures
        !post.indicators.contains_key(pre.awaiting_creation->0),
{
    let n = pre.awaiting_creation->0;
    let gs = pre.pending;
    let i = pre.next_group;
    let m = pre.indicators.remove(n);
    lemma_draw_run(m, gs, i);
    let r = draw_until_create(m, gs, i);
    let seg = gs.subrange(i as int, r.next as int);
    lemma_apply_groups(m, seg);
    assert(!stack_group_for(seg, n)) by {
        if stack_group_for(seg, n) {
            let j = choose|j: int|
                0 <= j < seg.len() && #[trigger] seg[j].node_id == n && group_kind_for(
                    seg[j].container_kind,
                ) is Some;
            let rest = gs.subrange(i as int, gs.len() as int);
            assert(rest[j].node_id == n);
        }
    }
}

/// An update whose groups differ from the one just drawn only where the
/// signatures do not look (window lists, the groups' own space fields, frame
/// changes below half a point) is skipped: nothing changes and nothing is
/// asked of the interface.
pub proof fn lemma_same_signatures_is_noop(
    pre: StackLineView,
    mid: StackLineView,
    post: StackLineView,
    space_id: SpaceId,
    groups: Seq<GroupInfo>,
    later: Seq<GroupInfo>,
    first: Seq<StackLineEffect>,
    second: Seq<StackLineEffect>,
)
    requires
        groups_updated(pre, mid, space_id, groups, first),
        groups_updated(mid, post, space_id, later, second),
        sigs_of(group_views(later)) == sigs_of(group_views(groups)),
    ensures
        second.len() == 0,
        post == mid,
{
    assert(sigs_unchanged(mid.sigs, space_id, group_views(later)));
}

/// Turning stack lines off and on again forgets every signature and every
/// indicator: the next update of any space is drawn in full, and with every
/// new window opening each of its stack groups has an indicator again.
pub proof fn lemma_off_and_on_forgets(
    pre: StackLineView,
    mid: StackLineView,
    post: StackLineView,
    off: Seq<StackLineEffect>,
    on: Seq<StackLineEffect>,
)
    requires
        pre.enabled,
        config_updated(pre, mid, false, off),
        config_updated(mid, post, true, on),
    ensures
        post.enabled,
        post.indicators.is_empty(),
        post.sigs.is_empty(),
        post.awaiting_creation is None,
        on.len() == 0,
        forall|space_id: SpaceId, groups: Seq<GroupInfo>|
            !#[trigger] sigs_unchanged(post.sigs, space_id, group_views(groups)),
        forall|space_id: SpaceId, groups: Seq<GroupInfo>, i: int|
            0 <= i < groups.len() && group_kind_for(groups[i].container_kind) is Some
                ==> #[trigger] draw_succeeding(
                kept_indicators(post.indicators, space_id, group_views(groups)),
                group_views(groups),
                0,
            ).contains_key(#[trigger] groups[i].node_id),
{
    let nodes = choose|nodes: Seq<NodeId>|
        {
            &&& nodes.no_duplicates()
            &&& nodes.to_set() == mid.indicators.dom()
            &&& on == restyle_effects(nodes)
        };
    if nodes.len() > 0 {
        assert(nodes.to_set().contains(nodes[0]));
    }
    assert forall|space_id: SpaceId, groups: Seq<GroupInfo>, i: int|
        0 <= i < groups.len() && group_kind_for(groups[i].container_kind) is Some implies #[trigger] draw_succeeding(
        kept_indicators(post.indicators, space_id, group_views(groups)),
        group_views(groups),
        0,
    ).contains_key(#[trigger] groups[i].node_id) by {
        lemma_update_matches_groups(post, space_id, groups);
    }
}

/// A group's signature records the node, the container kind, the frame on
/// the half-point grid, the number of windows and which one is selected. So
/// two updates have equal signatures only where, group by group, all of these
/// agree: an update that only moves the selection is never skipped.
pub proof fn lemma_signatures_see_group_state(a: Seq<GroupInfoView>, b: Seq<GroupInfoView>)
    ensures
        sigs_of(a) == sigs_of(b) ==> {
            &&& a.len() == b.len()
            &&& forall|i: int|
                #![trigger a[i], b[i]]
                0 <= i < a.len() ==> {
                    &&& a[i].node_id == b[i].node_id
                    &&& a[i].container_kind == b[i].container_kind
                    &&& a[i].frame == b[i].frame
                    &&& a[i].total_count == b[i].total_count
                    &&& a[i].selected_index == b[i].selected_index
                }
        },
        forall|g: GroupInfoView|
            {
                &&& (#[trigger] sig_of(g)).node_id == g.node_id
                &&& sig_of(g).kind == g.container_kind
                &&& sig_of(g).x_q2 == g.frame.x_q2
                &&& sig_of(g).y_q2 == g.frame.y_q2
                &&& sig_of(g).w_q2 == g.frame.w_q2
                &&& sig_of(g).h_q2 == g.frame.h_q2
                &&& sig_of(g).total == g.total_count
                &&& sig_of(g).selected_index == g.selected_index
            },
{
    if sigs_of(a) == sigs_of(b) {
        assert(sigs_of(a).len() == a.len());
        assert(sigs_of(b).len() == b.len());
        assert forall|i: int| #![trigger a[i], b[i]] 0 <= i < a.len() implies {
            &&& a[i].node_id == b[i].node_id
            &&& a[i].container_kind == b[i].container_kind
            &&& a[i].frame == b[i].frame
            &&& a[i].total_count == b[i].total_count
            &&& a[i].selected_index == b[i].selected_index
        } by {
            assert(sigs_of(a)[i] == sig_of(a[i]));
            assert(sigs_of(b)[i] == sig_of(b[i]));
            assert(sigs_of(a)[i] == sigs_of(b)[i]);
            assert(a[i].frame.x_q2 == b[i].frame.x_q2 && a[i].frame.y_q2 == b[i].frame.y_q2
                && a[i].frame.w_q2 == b[i].frame.w_q2 && a[i].frame.h_q2 == b[i].frame.h_q2);
        }
    }
}

/// A click on a segment of an indicator focuses exactly the window shown in
/// that segment, for every segment from the first to the last; a click past
/// the last segment or on a node without an indicator focuses nothing.
pub proof fn lemma_click_focuses_segment_window(
    m: Map<NodeId, IndicatorView>,
    node_id: NodeId,
    segment_index: usize,
)
    ensures
        m.contains_key(node_id) && segment_index < m[node_id].window_ids.len() ==> click_effect(
            m,
            node_id,
            segment_index,
        ) == Some(StackLineEffect::FocusWindow(m[node_id].window_ids[segment_index as int])),
        !m.contains_key(node_id) ==> click_effect(m, node_id, segment_index) is None,
        m.contains_key(node_id) && segment_index >= m[node_id].window_ids.len() ==> click_effect(
            m,
            node_id,
            segment_index,
        ) is None,
{
}

/// The pointer counts as over an indicator exactly when stack lines are
/// enabled and it is inside the entry area of one (coming from outside) or
/// still inside the exit area of one (having been over). The cursor changes
/// only when that changes: to a pointing hand on arriving, to an arrow on
/// leaving.
pub proof fn lemma_pointer_hysteresis(enabled: bool, was_over: bool, over_entry: bool, over_exit: bool)
    ensures
        enabled && was_over && over_exit ==> pointer_over(enabled, was_over, over_entry, over_exit),
        enabled && !was_over && over_entry ==> pointer_over(enabled, was_over, over_entry, over_exit),
        was_over && !over_exit ==> !pointer_over(enabled, was_over, over_entry, over_exit),
        !was_over && !over_entry ==> !pointer_over(enabled, was_over, over_entry, over_exit),
        !enabled ==> !pointer_over(enabled, was_over, over_entry, over_exit),
        cursor_effect(was_over, was_over) is None,
        cursor_effect(false, true) == Some(StackLineEffect::SetCursor(CursorShape::PointingHand)),
        cursor_effect(true, false) == Some(StackLineEffect::SetCursor(CursorShape::Arrow)),
{
}

/// Drawing a stack group asks for exactly one indicator effect: for the
/// group's node, at the group's position, drawn as the group's own kind
/// (horizontal for a horizontal stack, vertical for a vertical one); an
/// update where the node has an indicator, a new one where it has none. The
/// node's indicator then shows the group's space, kind, window count,
/// selection and windows. Any other container asks for nothing and changes
/// nothing.
pub proof fn lemma_placement_follows_group(m: Map<NodeId, IndicatorView>, g: GroupInfoView, i: int)
    requires
        0 <= i <= usize::MAX,
    ensures
        g.container_kind is HorizontalStack || g.container_kind is VerticalStack ==> {
            let kind = if g.container_kind is VerticalStack {
                GroupKind::Vertical
            } else {
                GroupKind::Horizontal
            };
            let e = placement_effect(m, g, i);
            &&& e.len() == 1
            &&& m.contains_key(g.node_id) ==> e[0] == StackLineEffect::UpdateIndicator {
                node_id: g.node_id,
                group_index: i as usize,
                group_kind: kind,
            }
            &&& !m.contains_key(g.node_id) ==> e[0] == StackLineEffect::CreateIndicator {
                node_id: g.node_id,
                group_index: i as usize,
                group_kind: kind,
            }
            &&& apply_group(m, g).contains_key(g.node_id)
            &&& apply_group(m, g)[g.node_id].space_id == g.space_id
            &&& apply_group(m, g)[g.node_id].group_kind == kind
            &&& apply_group(m, g)[g.node_id].total_count == g.total_count
            &&& apply_group(m, g)[g.node_id].selected_index == g.selected_index
            &&& apply_group(m, g)[g.node_id].window_ids == g.window_ids
            &&& forall|k: NodeId| k != g.node_id ==> apply_group(m, g).contains_key(k)
                == m.contains_key(k) && (m.contains_key(k) ==> apply_group(m, g)[k] == m[k])
        },
        !(g.container_kind is HorizontalStack || g.container_kind is VerticalStack) ==> {
            &&& placement_effect(m, g, i).len() == 0
            &&& apply_group(m, g) == m
        },
{
}

/// A press reaches an indicator only while stack lines are enabled: then a
/// press on segment `i` of node `n` is a click there; otherwise, or with no
/// segment under the pointer, it does nothing.
pub proof fn lemma_mouse_down_is_click(
    enabled: bool,
    m: Map<NodeId, IndicatorView>,
    node_id: NodeId,
    segment_index: usize,
)
    ensures
        enabled ==> mouse_down_effect(enabled, m, Some((node_id, segment_index))) == click_effect(
            m,
            node_id,
            segment_index,
        ),
        !enabled ==> mouse_down_effect(enabled, m, Some((node_id, segment_index))) is None,
        mouse_down_effect(enabled, m, None) is None,
{
}

/// Clearing and restyling a list of nodes asks for one effect per node, in
/// the list's order, each for its own node.
pub proof fn lemma_node_effects(nodes: Seq<NodeId>)
    ensures
        clear_effects(nodes).len() == nodes.len(),
        restyle_effects(nodes).len() == nodes.len(),
        forall|i: int|
            0 <= i < nodes.len() ==> #[trigger] clear_effects(nodes)[i]
                == StackLineEffect::ClearIndicator(nodes[i]),
        forall|i: int|
            0 <= i < nodes.len() ==> #[trigger] restyle_effects(nodes)[i]
                == StackLineEffect::RestyleIndicator(nodes[i]),
{
}

/// An update is skipped exactly when the signatures stored for its space equal
/// those of its groups; any other update stores its signatures and is drawn.
pub proof fn lemma_update_stores_signatures(
    pre: StackLineView,
    post: StackLineView,
    space_id: SpaceId,
    groups: Seq<GroupInfo>,
    effects: Seq<StackLineEffect>,
)
    requires
        groups_updated(pre, post, space_id, groups, effects),
    ensures
        post.sigs.contains_key(space_id),
        post.sigs[space_id] == sigs_of(group_views(groups)),
        pre.sigs.contains_key(space_id) && pre.sigs[space_id] == sigs_of(group_views(groups))
            ==> post == pre && effects.len() == 0,
        !(pre.sigs.contains_key(space_id) && pre.sigs[space_id] == sigs_of(group_views(groups)))
            ==> post.pending == group_views(groups) && post.sigs == pre.sigs.insert(
            space_id,
            sigs_of(group_views(groups)),
        ),
{
}

} // verus!
