use rift::ids::WindowId;
use rift::stack_line::{
    CursorShape, Event, GroupInfo, GroupKind, GroupSig, HalfPointRect, LayoutKind, StackLine,
    StackLineEffect,
};

fn rect(x: i64, y: i64, w: i64, h: i64) -> HalfPointRect {
    HalfPointRect { x_q2: x, y_q2: y, w_q2: w, h_q2: h }
}

fn group(node_id: u64, space_id: u64, kind: LayoutKind, windows: &[(i32, u32)]) -> GroupInfo {
    GroupInfo {
        node_id,
        space_id,
        container_kind: kind,
        frame: rect(200, 400, 800, 600),
        total_count: windows.len(),
        selected_index: 0,
        window_ids: windows.iter().map(|&(p, i)| WindowId::new(p, i)).collect(),
    }
}

fn update(sl: &mut StackLine, space_id: u64, groups: Vec<GroupInfo>) -> Vec<StackLineEffect> {
    let mut effects = sl.handle_event(Event::GroupsUpdated { space_id, groups });
    // Every new indicator window opens.
    while sl.awaiting_creation().is_some() {
        effects.extend(sl.indicator_created(true));
    }
    effects
}

#[test]
fn test_group_info_fields() {
    assert_eq!(LayoutKind::VerticalStack.is_group(), true);
    assert_eq!(LayoutKind::HorizontalStack.is_group(), true);
    assert_eq!(LayoutKind::Horizontal.is_group(), false);
}

#[test]
fn vertical_is_not_a_group() {
    assert!(!LayoutKind::Vertical.is_group());
}

#[test]
fn sig_copies_group_fields() {
    let g = group(7, 1, LayoutKind::HorizontalStack, &[(1, 1), (1, 2)]);
    let sig = GroupSig::from_group_info(&g);
    assert_eq!(
        sig,
        GroupSig {
            node_id: 7,
            kind: LayoutKind::HorizontalStack,
            x_q2: 200,
            y_q2: 400,
            w_q2: 800,
            h_q2: 600,
            total: 2,
            selected_index: 0,
        }
    );
}

#[test]
fn new_groups_create_indicators() {
    let mut sl = StackLine::new(true);
    let groups = vec![
        group(1, 10, LayoutKind::HorizontalStack, &[(5, 1), (5, 2)]),
        group(2, 10, LayoutKind::Horizontal, &[(5, 3)]),
        group(3, 10, LayoutKind::VerticalStack, &[(6, 1)]),
    ];
    let effects = update(&mut sl, 10, groups);
    assert_eq!(
        effects,
        vec![
            StackLineEffect::CreateIndicator { node_id: 1, group_index: 0, group_kind: GroupKind::Horizontal },
            StackLineEffect::CreateIndicator { node_id: 3, group_index: 2, group_kind: GroupKind::Vertical },
        ]
    );
    assert_eq!(sl.indicator_count(), 2);
    assert_eq!(sl.indicator(1).unwrap().window_ids, vec![WindowId::new(5, 1), WindowId::new(5, 2)]);
    assert_eq!(sl.indicator(3).unwrap().space_id, 10);
    assert!(sl.indicator(2).is_none());
}

#[test]
fn same_groups_twice_do_nothing() {
    let mut sl = StackLine::new(true);
    let groups = vec![group(1, 10, LayoutKind::HorizontalStack, &[(5, 1), (5, 2)])];
    let first = update(&mut sl, 10, groups.clone());
    assert_eq!(first.len(), 1);
    let second = update(&mut sl, 10, groups);
    assert!(second.is_empty());
    assert_eq!(sl.indicator_count(), 1);
}

#[test]
fn changed_group_updates_existing_indicator() {
    let mut sl = StackLine::new(true);
    update(&mut sl, 10, vec![group(1, 10, LayoutKind::HorizontalStack, &[(5, 1)])]);
    let mut g = group(1, 10, LayoutKind::HorizontalStack, &[(5, 1), (5, 2)]);
    g.selected_index = 1;
    let effects = update(&mut sl, 10, vec![g]);
    assert_eq!(
        effects,
        vec![StackLineEffect::UpdateIndicator { node_id: 1, group_index: 0, group_kind: GroupKind::Horizontal }]
    );
    assert_eq!(sl.indicator(1).unwrap().selected_index, 1);
    assert_eq!(sl.indicator(1).unwrap().total_count, 2);
}

#[test]
fn vanished_group_is_cleared_only_on_its_space() {
    let mut sl = StackLine::new(true);
    update(&mut sl, 10, vec![group(1, 10, LayoutKind::HorizontalStack, &[(5, 1)])]);
    update(&mut sl, 20, vec![group(2, 20, LayoutKind::VerticalStack, &[(6, 1)])]);
    let effects = update(&mut sl, 10, vec![group(3, 10, LayoutKind::VerticalStack, &[(7, 1)])]);
    assert_eq!(
        effects,
        vec![
            StackLineEffect::ClearIndicator(1),
            StackLineEffect::CreateIndicator { node_id: 3, group_index: 0, group_kind: GroupKind::Vertical },
        ]
    );
    assert!(sl.indicator(1).is_none());
    assert!(sl.indicator(2).is_some());
    assert!(sl.indicator(3).is_some());
}

#[test]
fn non_stack_group_keeps_its_old_indicator() {
    let mut sl = StackLine::new(true);
    update(&mut sl, 10, vec![group(1, 10, LayoutKind::HorizontalStack, &[(5, 1)])]);
    let effects = update(&mut sl, 10, vec![group(1, 10, LayoutKind::Horizontal, &[(5, 1)])]);
    assert!(effects.is_empty());
    assert!(sl.indicator(1).is_some());
}

#[test]
fn groups_ignored_while_disabled() {
    let mut sl = StackLine::new(false);
    let effects = sl.handle_event(Event::GroupsUpdated {
        space_id: 10,
        groups: vec![group(1, 10, LayoutKind::HorizontalStack, &[(5, 1)])],
    });
    assert!(effects.is_empty());
    assert_eq!(sl.indicator_count(), 0);
    assert!(!sl.remembers_space(10));
}

#[test]
fn disabling_clears_everything() {
    let mut sl = StackLine::new(true);
    update(&mut sl, 10, vec![
        group(1, 10, LayoutKind::HorizontalStack, &[(5, 1)]),
        group(2, 10, LayoutKind::VerticalStack, &[(5, 2)]),
    ]);
    let mut effects = sl.handle_event(Event::ConfigUpdated { enabled: false });
    effects.sort_by_key(|e| match e {
        StackLineEffect::ClearIndicator(n) => *n,
        _ => u64::MAX,
    });
    assert_eq!(effects, vec![StackLineEffect::ClearIndicator(1), StackLineEffect::ClearIndicator(2)]);
    assert_eq!(sl.indicator_count(), 0);
    assert!(!sl.remembers_space(10));
    assert!(!sl.is_enabled());
}

#[test]
fn config_change_while_enabled_restyles() {
    let mut sl = StackLine::new(true);
    update(&mut sl, 10, vec![group(4, 10, LayoutKind::HorizontalStack, &[(5, 1)])]);
    let effects = sl.handle_config_updated(true);
    assert_eq!(effects, vec![StackLineEffect::RestyleIndicator(4)]);
    assert_eq!(sl.indicator_count(), 1);
}

#[test]
fn enabling_from_disabled_has_nothing_to_restyle() {
    let mut sl = StackLine::new(false);
    let effects = sl.handle_config_updated(true);
    assert!(effects.is_empty());
    assert!(sl.is_enabled());
}

#[test]
fn click_focuses_window_of_segment() {
    let mut sl = StackLine::new(true);
    update(&mut sl, 10, vec![group(1, 10, LayoutKind::HorizontalStack, &[(5, 1), (5, 2)])]);
    assert_eq!(
        sl.handle_event(Event::MouseDown(Some((1, 1)))),
        vec![StackLineEffect::FocusWindow(WindowId::new(5, 2))]
    );
    assert_eq!(sl.handle_indicator_clicked(1, 2), None);
    assert_eq!(sl.handle_indicator_clicked(9, 0), None);
    assert!(sl.handle_event(Event::MouseDown(None)).is_empty());
}

#[test]
fn click_ignored_while_disabled() {
    let sl = StackLine::new(false);
    assert_eq!(sl.handle_mouse_down(Some((1, 0))), None);
}

#[test]
fn cursor_hysteresis() {
    let mut sl = StackLine::new(true);
    // Inside the exit area but not the entry area: still outside.
    assert_eq!(sl.handle_mouse_moved(false, true), None);
    assert!(!sl.cursor_over_indicator());
    assert_eq!(
        sl.handle_mouse_moved(true, true),
        Some(StackLineEffect::SetCursor(CursorShape::PointingHand))
    );
    // Out of the exit area but still in the entry area: the pointer left.
    assert_eq!(
        sl.handle_mouse_moved(true, false),
        Some(StackLineEffect::SetCursor(CursorShape::Arrow))
    );
    assert_eq!(sl.handle_mouse_moved(false, false), None);
}

#[test]
fn cursor_resets_when_disabled() {
    let mut sl = StackLine::new(true);
    sl.handle_mouse_moved(true, true);
    sl.handle_config_updated(false);
    assert_eq!(
        sl.handle_event(Event::MouseMoved { over_entry_area: true, over_exit_area: true }),
        vec![StackLineEffect::SetCursor(CursorShape::Arrow)]
    );
}

#[test]
fn failed_creation_is_forgotten() {
    let mut sl = StackLine::new(true);
    let effects = sl.handle_event(Event::GroupsUpdated {
        space_id: 10,
        groups: vec![group(1, 10, LayoutKind::HorizontalStack, &[(5, 1)])],
    });
    assert_eq!(
        effects,
        vec![StackLineEffect::CreateIndicator { node_id: 1, group_index: 0, group_kind: GroupKind::Horizontal }]
    );
    assert_eq!(sl.awaiting_creation(), Some(1));
    assert!(sl.indicator_created(false).is_empty());
    assert_eq!(sl.indicator_count(), 0);
    assert_eq!(sl.awaiting_creation(), None);
    assert!(sl.remembers_space(10));
}

#[test]
fn drawing_waits_for_each_new_window() {
    let mut sl = StackLine::new(true);
    let effects = sl.handle_event(Event::GroupsUpdated {
        space_id: 10,
        groups: vec![
            group(1, 10, LayoutKind::HorizontalStack, &[(5, 1)]),
            group(2, 10, LayoutKind::VerticalStack, &[(5, 2)]),
        ],
    });
    assert_eq!(
        effects,
        vec![StackLineEffect::CreateIndicator { node_id: 1, group_index: 0, group_kind: GroupKind::Horizontal }]
    );
    assert_eq!(
        sl.indicator_created(true),
        vec![StackLineEffect::CreateIndicator { node_id: 2, group_index: 1, group_kind: GroupKind::Vertical }]
    );
    assert!(sl.indicator_created(true).is_empty());
    assert_eq!(sl.indicator_count(), 2);
}

#[test]
fn failed_window_is_tried_again_for_a_repeated_node() {
    let mut sl = StackLine::new(true);
    let groups = vec![
        group(1, 10, LayoutKind::HorizontalStack, &[(5, 1)]),
        group(1, 10, LayoutKind::HorizontalStack, &[(5, 1), (5, 2)]),
    ];
    let effects = sl.handle_event(Event::GroupsUpdated { space_id: 10, groups });
    assert_eq!(
        effects,
        vec![StackLineEffect::CreateIndicator { node_id: 1, group_index: 0, group_kind: GroupKind::Horizontal }]
    );
    // The first window fails to open: the second group tries again.
    assert_eq!(
        sl.indicator_created(false),
        vec![StackLineEffect::CreateIndicator { node_id: 1, group_index: 1, group_kind: GroupKind::Horizontal }]
    );
    assert!(sl.indicator_created(true).is_empty());
    assert_eq!(sl.indicator(1).unwrap().total_count, 2);
}

#[test]
fn repeated_node_is_updated_when_its_window_opened() {
    let mut sl = StackLine::new(true);
    let groups = vec![
        group(1, 10, LayoutKind::HorizontalStack, &[(5, 1)]),
        group(1, 10, LayoutKind::HorizontalStack, &[(5, 1), (5, 2)]),
    ];
    sl.handle_event(Event::GroupsUpdated { space_id: 10, groups });
    assert_eq!(
        sl.indicator_created(true),
        vec![StackLineEffect::UpdateIndicator { node_id: 1, group_index: 1, group_kind: GroupKind::Horizontal }]
    );
    assert_eq!(sl.indicator_count(), 1);
}

#[test]
fn report_with_nothing_awaited_does_nothing() {
    let mut sl = StackLine::new(true);
    assert!(sl.indicator_created(false).is_empty());
    assert_eq!(sl.indicator_count(), 0);
}

#[test]
fn disabling_mid_update_drops_it() {
    let mut sl = StackLine::new(true);
    sl.handle_event(Event::GroupsUpdated {
        space_id: 10,
        groups: vec![group(1, 10, LayoutKind::HorizontalStack, &[(5, 1)])],
    });
    sl.handle_event(Event::ConfigUpdated { enabled: false });
    assert_eq!(sl.awaiting_creation(), None);
    assert!(sl.indicator_created(true).is_empty());
    assert_eq!(sl.indicator_count(), 0);
}

#[test]
fn screen_change_changes_nothing() {
    let mut sl = StackLine::new(true);
    assert!(sl.handle_event(Event::ScreenParametersChanged).is_empty());
}

#[test]
fn changes_below_the_signature_are_skipped() {
    let mut sl = StackLine::new(true);
    update(&mut sl, 10, vec![group(1, 10, LayoutKind::HorizontalStack, &[(5, 1)])]);
    let mut g = group(1, 10, LayoutKind::HorizontalStack, &[(7, 9)]);
    g.space_id = 99;
    assert!(update(&mut sl, 10, vec![g]).is_empty());
    assert_eq!(sl.indicator(1).unwrap().window_ids, vec![WindowId::new(5, 1)]);
    assert_eq!(sl.indicator(1).unwrap().space_id, 10);
}

#[test]
fn off_and_on_draws_the_same_update_again() {
    let mut sl = StackLine::new(true);
    let groups = vec![group(1, 10, LayoutKind::HorizontalStack, &[(5, 1)])];
    update(&mut sl, 10, groups.clone());
    sl.handle_event(Event::ConfigUpdated { enabled: false });
    assert!(sl.handle_event(Event::ConfigUpdated { enabled: true }).is_empty());
    assert_eq!(
        update(&mut sl, 10, groups),
        vec![StackLineEffect::CreateIndicator { node_id: 1, group_index: 0, group_kind: GroupKind::Horizontal }]
    );
    assert!(sl.remembers_space(10));
    assert_eq!(sl.indicator_count(), 1);
}
