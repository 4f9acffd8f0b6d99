use pane_groups::model::{
    BareKey, Event, HostCommand, KeyWithModifier, Mode, PaneId, PaneInfo, PaneManifest,
    PipeMessage, TabInfo, TabPanes,
};
use pane_groups::state::State;

fn term(id: u32) -> PaneId {
    PaneId::Terminal(id)
}

fn key(b: BareKey) -> KeyWithModifier {
    KeyWithModifier {
        bare_key: b,
        has_modifiers: false,
    }
}

fn add_pane(s: &mut State, id: u32, group: u8) {
    s.last_focused_pane = Some(term(id));
    s.add_to_group(group);
}

fn pane(id: u32, is_plugin: bool, is_focused: bool) -> PaneInfo {
    PaneInfo {
        id,
        is_plugin,
        is_focused,
    }
}

fn manifest(tabs: Vec<(usize, Vec<PaneInfo>)>) -> PaneManifest {
    PaneManifest {
        panes: tabs
            .into_iter()
            .map(|(position, panes)| TabPanes { position, panes })
            .collect(),
    }
}

fn private_msg(name: &str, payload: Option<&str>) -> PipeMessage {
    PipeMessage {
        name: name.to_string(),
        payload: payload.map(|p| p.to_string()),
        is_private: true,
    }
}

#[test]
fn new_state_defaults() {
    let s = State::new();
    assert_eq!(s.groups.len(), 9);
    assert!(s.groups.iter().all(|g| g.is_empty()));
    assert_eq!(s.active_group, None);
    assert_eq!(s.selected, 1);
    assert_eq!(s.mode, Mode::Normal);
    assert_eq!(s.last_focused_pane, None);
    assert_eq!(s.last_focused_tab, None);
    assert!(!s.permissions_granted);
}

#[test]
fn add_then_remove_round_trip() {
    let mut s = State::new();
    add_pane(&mut s, 7, 3);
    assert_eq!(s.groups[2], vec![term(7)]);
    for (i, g) in s.groups.iter().enumerate() {
        if i != 2 {
            assert!(!g.contains(&term(7)));
        }
    }
    s.remove_focused_from_group();
    assert!(s.groups.iter().all(|g| !g.contains(&term(7))));
}

#[test]
fn reassignment_moves_pane() {
    let mut s = State::new();
    add_pane(&mut s, 7, 1);
    add_pane(&mut s, 7, 2);
    assert!(!s.groups[0].contains(&term(7)));
    assert_eq!(
        s.groups[1].iter().filter(|p| **p == term(7)).count(),
        1
    );
}

#[test]
fn dead_pane_purge_keeps_active() {
    let mut s = State::new();
    add_pane(&mut s, 1, 4);
    add_pane(&mut s, 2, 4);
    s.activate_group(4);
    assert_eq!(s.active_group, Some(4));
    let (redraw, cmds) = s.update(Event::PaneUpdate(manifest(vec![(
        0,
        vec![pane(1, false, false)],
    )])));
    assert!(redraw);
    assert!(cmds.is_empty());
    assert_eq!(s.groups[3], vec![term(1)]);
    assert_eq!(s.active_group, Some(4));
}

#[test]
fn active_group_dies_clears_pointer() {
    let mut s = State::new();
    add_pane(&mut s, 1, 4);
    s.activate_group(4);
    assert_eq!(s.active_group, Some(4));
    s.update(Event::PaneUpdate(manifest(vec![(
        0,
        vec![pane(9, false, false)],
    )])));
    assert!(s.groups[3].is_empty());
    assert_eq!(s.active_group, None);
}

#[test]
fn reconcile_twice_is_reconcile_once() {
    let mut s = State::new();
    add_pane(&mut s, 1, 2);
    add_pane(&mut s, 2, 2);
    add_pane(&mut s, 3, 5);
    let live = vec![(0usize, vec![pane(1, false, false), pane(3, false, false)])];
    s.update(Event::PaneUpdate(manifest(live.clone())));
    let once = s.groups.clone();
    let active_once = s.active_group;
    s.update(Event::PaneUpdate(manifest(live)));
    assert_eq!(s.groups, once);
    assert_eq!(s.active_group, active_once);
}

#[test]
fn activation_plan_order() {
    let mut s = State::new();
    add_pane(&mut s, 1, 1);
    add_pane(&mut s, 2, 1);
    add_pane(&mut s, 3, 2);
    let cmds = s.activate_group(1);
    assert_eq!(
        cmds,
        vec![
            HostCommand::HidePane(term(3)),
            HostCommand::ShowPane(term(1), false),
            HostCommand::ShowPane(term(2), false),
            HostCommand::StackPanes(vec![term(1), term(2)]),
            HostCommand::HideSelf,
            HostCommand::FocusPane(term(1), false),
        ]
    );
    assert_eq!(s.active_group, Some(1));
}

#[test]
fn activation_of_single_pane_group_skips_stack() {
    let mut s = State::new();
    add_pane(&mut s, 4, 6);
    let cmds = s.activate_group(6);
    assert_eq!(
        cmds,
        vec![
            HostCommand::ShowPane(term(4), false),
            HostCommand::HideSelf,
            HostCommand::FocusPane(term(4), false),
        ]
    );
}

#[test]
fn activating_empty_group_is_noop() {
    let mut s = State::new();
    let cmds = s.activate_group(5);
    assert!(cmds.is_empty());
    assert_eq!(s.active_group, None);
}

#[test]
fn non_empty_groups_sorted() {
    let mut s = State::new();
    add_pane(&mut s, 1, 8);
    add_pane(&mut s, 2, 2);
    add_pane(&mut s, 3, 5);
    assert_eq!(s.non_empty_groups(), vec![2, 5, 8]);
}

#[test]
fn cycle_wraparound() {
    let mut s = State::new();
    add_pane(&mut s, 1, 2);
    add_pane(&mut s, 2, 5);
    add_pane(&mut s, 3, 8);
    s.activate_group(8);
    s.cycle_group(true);
    assert_eq!(s.active_group, Some(2));
    s.cycle_group(false);
    assert_eq!(s.active_group, Some(8));
}

#[test]
fn cycle_forward_then_back_returns() {
    let mut s = State::new();
    add_pane(&mut s, 1, 3);
    add_pane(&mut s, 2, 7);
    s.activate_group(3);
    s.cycle_group(true);
    assert_eq!(s.active_group, Some(7));
    s.cycle_group(false);
    assert_eq!(s.active_group, Some(3));
}

#[test]
fn cycle_with_no_groups_is_noop() {
    let mut s = State::new();
    let cmds = s.cycle_group(true);
    assert!(cmds.is_empty());
    assert_eq!(s.active_group, None);
}

#[test]
fn cycle_from_none_lands_on_smallest() {
    let mut s = State::new();
    add_pane(&mut s, 1, 4);
    add_pane(&mut s, 2, 6);
    s.cycle_group(true);
    assert_eq!(s.active_group, Some(4));
}

#[test]
fn show_all_emits_shows_and_clears_active() {
    let mut s = State::new();
    add_pane(&mut s, 1, 1);
    add_pane(&mut s, 2, 3);
    s.activate_group(1);
    let cmds = s.show_all();
    assert_eq!(
        cmds,
        vec![
            HostCommand::ShowPane(term(1), false),
            HostCommand::ShowPane(term(2), false),
        ]
    );
    assert_eq!(s.active_group, None);
    assert_eq!(s.groups[0], vec![term(1)]);
    assert_eq!(s.groups[2], vec![term(2)]);
}

#[test]
fn focus_tracker_picks_focused_terminal_of_active_tab() {
    let mut s = State::new();
    s.update(Event::TabUpdate(vec![
        TabInfo {
            position: 0,
            active: false,
        },
        TabInfo {
            position: 1,
            active: true,
        },
    ]));
    s.update(Event::PaneUpdate(manifest(vec![
        (0, vec![pane(10, false, true)]),
        (1, vec![pane(20, true, true), pane(21, false, true)]),
    ])));
    assert_eq!(s.last_focused_pane, Some(term(21)));
    assert_eq!(s.last_focused_tab, Some(1));
}

#[test]
fn focus_tracker_is_sticky() {
    let mut s = State::new();
    s.update(Event::TabUpdate(vec![TabInfo {
        position: 0,
        active: true,
    }]));
    s.update(Event::PaneUpdate(manifest(vec![(
        0,
        vec![pane(5, false, true)],
    )])));
    assert_eq!(s.last_focused_pane, Some(term(5)));
    // Only the plugin's own panel is focused now: the stored pane stays.
    s.update(Event::PaneUpdate(manifest(vec![(
        0,
        vec![pane(5, false, false), pane(99, true, true)],
    )])));
    assert_eq!(s.last_focused_pane, Some(term(5)));
}

#[test]
fn permission_grant_recorded() {
    let mut s = State::new();
    let (redraw, _) = s.update(Event::PermissionRequestResult(false));
    assert!(!redraw);
    assert!(!s.permissions_granted);
    s.update(Event::PermissionRequestResult(true));
    assert!(s.permissions_granted);
}

#[test]
fn group_containing_finds_unique_group() {
    let mut s = State::new();
    add_pane(&mut s, 11, 6);
    assert_eq!(s.group_containing(&term(11)), Some(6));
    assert_eq!(s.group_containing(&term(12)), None);
}

#[test]
fn add_mode_digit_assigns_group() {
    let mut s = State::new();
    s.last_focused_pane = Some(term(3));
    s.handle_key(key(BareKey::Char('a')));
    assert_eq!(s.mode, Mode::Add);
    s.handle_key(key(BareKey::Char('5')));
    assert_eq!(s.mode, Mode::Normal);
    assert_eq!(s.groups[4], vec![term(3)]);
}

#[test]
fn add_mode_other_key_cancels() {
    let mut s = State::new();
    s.last_focused_pane = Some(term(3));
    s.handle_key(key(BareKey::Char('a')));
    s.handle_key(key(BareKey::Enter));
    assert_eq!(s.mode, Mode::Normal);
    assert!(s.groups.iter().all(|g| g.is_empty()));
}

#[test]
fn selection_cursor_saturates() {
    let mut s = State::new();
    s.handle_key(key(BareKey::Char('k')));
    assert_eq!(s.selected, 1);
    for _ in 0..12 {
        s.handle_key(key(BareKey::Char('j')));
    }
    assert_eq!(s.selected, 9);
    s.handle_key(key(BareKey::Up));
    assert_eq!(s.selected, 8);
    s.handle_key(key(BareKey::Down));
    assert_eq!(s.selected, 9);
}

#[test]
fn digit_key_jumps_selection_without_activating() {
    let mut s = State::new();
    add_pane(&mut s, 1, 7);
    s.handle_key(key(BareKey::Char('7')));
    assert_eq!(s.selected, 7);
    assert_eq!(s.active_group, None);
}

#[test]
fn enter_activates_selected_group() {
    let mut s = State::new();
    add_pane(&mut s, 1, 2);
    s.handle_key(key(BareKey::Char('2')));
    let cmds = s.handle_key(key(BareKey::Enter));
    assert_eq!(s.active_group, Some(2));
    assert!(!cmds.is_empty());
}

#[test]
fn quit_key_hides_panel_and_refocuses() {
    let mut s = State::new();
    s.last_focused_pane = Some(term(9));
    let cmds = s.handle_key(key(BareKey::Char('q')));
    assert_eq!(
        cmds,
        vec![
            HostCommand::HideSelf,
            HostCommand::FocusPane(term(9), false),
        ]
    );
    let mut s2 = State::new();
    let cmds2 = s2.handle_key(key(BareKey::Esc));
    assert_eq!(cmds2, vec![HostCommand::HideSelf]);
}

#[test]
fn modified_key_is_not_a_command_key() {
    let mut s = State::new();
    s.last_focused_pane = Some(term(9));
    let cmds = s.handle_key(KeyWithModifier {
        bare_key: BareKey::Char('q'),
        has_modifiers: true,
    });
    assert!(cmds.is_empty());
    // A modified digit still jumps the selection, as the bare fallback does.
    s.handle_key(KeyWithModifier {
        bare_key: BareKey::Char('4'),
        has_modifiers: true,
    });
    assert_eq!(s.selected, 4);
}

#[test]
fn key_u_shows_all_and_tab_cycles() {
    let mut s = State::new();
    add_pane(&mut s, 1, 3);
    s.handle_key(key(BareKey::Tab));
    assert_eq!(s.active_group, Some(3));
    let cmds = s.handle_key(key(BareKey::Char('u')));
    assert_eq!(cmds, vec![HostCommand::ShowPane(term(1), false)]);
    assert_eq!(s.active_group, None);
}

#[test]
fn pipe_ignores_non_private() {
    let mut s = State::new();
    add_pane(&mut s, 1, 2);
    let mut msg = private_msg("next_group", None);
    msg.is_private = false;
    let (redraw, cmds) = s.pipe(&msg);
    assert!(!redraw);
    assert!(cmds.is_empty());
    assert_eq!(s.active_group, None);
}

#[test]
fn pipe_toggle_ui_shows_panel() {
    let mut s = State::new();
    let (redraw, cmds) = s.pipe(&private_msg("toggle_ui", None));
    assert!(redraw);
    assert_eq!(cmds, vec![HostCommand::ShowSelf(false)]);
}

#[test]
fn pipe_cycles_groups() {
    let mut s = State::new();
    add_pane(&mut s, 1, 2);
    add_pane(&mut s, 2, 5);
    s.pipe(&private_msg("next_group", None));
    assert_eq!(s.active_group, Some(2));
    s.pipe(&private_msg("next_group", None));
    assert_eq!(s.active_group, Some(5));
    s.pipe(&private_msg("prev_group", None));
    assert_eq!(s.active_group, Some(2));
}

#[test]
fn pipe_activate_group_with_payload() {
    let mut s = State::new();
    add_pane(&mut s, 1, 2);
    let (redraw, cmds) = s.pipe(&private_msg("activate_group", Some("2")));
    assert!(!redraw);
    assert!(!cmds.is_empty());
    assert_eq!(s.active_group, Some(2));
}

#[test]
fn pipe_activate_group_bad_payloads_ignored() {
    let mut s = State::new();
    add_pane(&mut s, 1, 2);
    for payload in [None, Some("abc"), Some("0"), Some("10"), Some(""), Some("+")] {
        let (_, cmds) = s.pipe(&private_msg("activate_group", payload));
        assert!(cmds.is_empty());
        assert_eq!(s.active_group, None);
    }
}

#[test]
fn pipe_show_all_and_unknown() {
    let mut s = State::new();
    add_pane(&mut s, 1, 2);
    s.activate_group(2);
    let (_, cmds) = s.pipe(&private_msg("show_all", None));
    assert_eq!(cmds, vec![HostCommand::ShowPane(term(1), false)]);
    assert_eq!(s.active_group, None);
    let (redraw, cmds2) = s.pipe(&private_msg("something_else", None));
    assert!(!redraw);
    assert!(cmds2.is_empty());
}
