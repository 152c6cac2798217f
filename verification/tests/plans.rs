//! What commands that need the scripting addition come down to.
use yabai::dispatch::{DisplayAction, ScratchpadAction};
use yabai::routes::{
    check_space_on_display, follows_window, plan_space_focus, reason_error, window_error,
    DisplayPlan,
};
use yabai::rules::RuleEffects;
use yabai::sa::{SaOpcode, ScriptingAddition};
use yabai::spaces::{
    display_to_enter, gesture_steps, global_prev_space, mission_control_index,
    prev_space_on_display, space_line, SpaceMove, SwapPlan, SwitchPlan,
};
use yabai::state::WindowMeta;
use yabai::tiling::Padding;
use yabai::topology::DisplayInfo;
use yabai::types::{Area, Layer, Real, Selector};
use yabai::windows::{plan_pip, validate_scratchpad_label, PipBounds, ScratchpadPlan, TogglePlan};
use yabai::AppState;

fn number(value: f32) -> Real {
    Real { bits: value.to_bits(), text: format!("{value:.4}") }
}

fn area(x: f32, y: f32, w: f32, h: f32) -> Area {
    Area { x: number(x), y: number(y), w: number(w), h: number(h) }
}

fn info(x: f32) -> DisplayInfo {
    DisplayInfo {
        frame: area(x, 0.0, 1000.0, 1000.0),
        center_x: (x + 500.0).to_bits(),
        center_y: 500.0f32.to_bits(),
    }
}

fn client() -> ScriptingAddition {
    ScriptingAddition::for_user("test")
}

/// Spaces 11, 12, 13 on display 1 and 21, 22 on display 2; 11 and 21 are shown.
fn two_displays() -> (AppState, Vec<u64>) {
    let mut state = AppState::new();
    for (did, x, sids) in [(1u32, 0.0, vec![11u64, 12, 13]), (2, 1000.0, vec![21, 22])] {
        state.add_display(did, info(x));
        for sid in &sids {
            state.add_space_to_display(*sid, did, area(x, 0.0, 1000.0, 1000.0));
        }
        state.set_display_active_space(did, sids[0]);
    }
    state.set_active_space(11);
    let order = vec![11, 12, 13, 21, 22];
    state.set_mission_control_order(order.clone());
    (state, order)
}

/// The order of spaces after some moves.
fn moved(order: &[u64], moves: &[SpaceMove]) -> Vec<u64> {
    let mut out = order.to_vec();
    for m in moves {
        out.retain(|s| *s != m.src);
        let at = out.iter().position(|s| *s == m.dst).unwrap();
        out.insert(at + 1, m.src);
    }
    out
}

fn index(n: u32) -> Selector {
    Selector::Index(n)
}

#[test]
fn places_in_an_order() {
    let order = vec![11, 12, 13];
    assert_eq!(mission_control_index(&order, 12), 2);
    assert_eq!(mission_control_index(&order, 99), 0);
    assert_eq!(global_prev_space(&order, 12), Some(11));
    assert_eq!(global_prev_space(&order, 11), None);
    assert_eq!(prev_space_on_display(Some(&order), 13), 12);
    assert_eq!(prev_space_on_display(Some(&order), 11), 0);
    assert_eq!(prev_space_on_display(None, 11), 0);
    assert_eq!(gesture_steps(&order, Some(13), 11), Some(-2));
    assert_eq!(gesture_steps(&order, None, 11), None);
    assert_eq!(display_to_enter(Some(1), Some(2)), Some(1));
    assert_eq!(display_to_enter(Some(1), Some(1)), None);
    assert_eq!(display_to_enter(Some(1), None), Some(1));
    assert_eq!(display_to_enter(None, Some(1)), None);
    assert_eq!(space_line(2, 12, Some(12)), "  mc-index 2 -> sid 12 <- current");
    assert_eq!(space_line(1, 11, Some(12)), "  mc-index 1 -> sid 11");
}

#[test]
fn a_space_moves_to_the_place_of_another() {
    let (state, order) = two_displays();
    let places = [(1, 2), (1, 3), (2, 1), (2, 3), (3, 1), (3, 2)];
    for (from, to) in places {
        let moves = state.plan_space_move(&order, Some(&index(from)), &index(to)).unwrap();
        let after = moved(&order, &moves);
        assert_eq!(after[to as usize - 1], order[from as usize - 1], "{from} to {to}");
        assert_eq!(after[3..], order[3..]);
    }
}

#[test]
fn spaces_swap_their_places() {
    let (state, order) = two_displays();
    for (a, b) in [(1, 2), (2, 1), (1, 3), (3, 1), (2, 3), (3, 2)] {
        match state.plan_space_swap(&order, Some(&index(a)), &index(b)).unwrap() {
            SwapPlan::Reorder(moves) => {
                let mut expected = order.clone();
                expected.swap(a as usize - 1, b as usize - 1);
                assert_eq!(moved(&order, &moves), expected, "{a} and {b}");
            }
            other => panic!("{other:?}"),
        }
    }
    match state.plan_space_swap(&order, Some(&index(1)), &index(4)).unwrap() {
        SwapPlan::Exchange { acting, selected } => assert_eq!((acting, selected), (11, 21)),
        other => panic!("{other:?}"),
    }
}

#[test]
fn moves_and_swaps_that_make_no_sense_are_refused() {
    let (state, order) = two_displays();
    let same = state.plan_space_move(&order, Some(&index(2)), &index(2)).unwrap_err();
    assert_eq!(same, "cannot move space to itself.\n");
    let far = state.plan_space_move(&order, Some(&index(2)), &index(4)).unwrap_err();
    assert_eq!(far, "cannot move space across display boundaries. use --display instead.\n");
    let swap = state.plan_space_swap(&order, Some(&index(2)), &index(2)).unwrap_err();
    assert_eq!(swap, "cannot swap space with itself.\n");
}

#[test]
fn a_space_is_sent_to_a_display() {
    let (state, order) = two_displays();
    let spaces = vec![11, 12, 13];
    let plan = state.plan_space_to_display(Some(&spaces), Some(&index(2)), &index(2)).unwrap();
    assert_eq!((plan.src, plan.dst, plan.prev, plan.focus), (12, 21, 0, false));
    let active = state.plan_space_to_display(Some(&spaces), None, &index(2)).unwrap();
    assert_eq!((active.src, active.dst, active.prev, active.focus), (11, 21, 0, true));
    assert_eq!(
        state.plan_space_to_display(Some(&order), Some(&index(1)), &index(1)).unwrap_err(),
        "acting space is already located on the given display.\n"
    );
    let mut lone = two_displays().0;
    lone.remove_space(22);
    assert_eq!(
        lone.plan_space_to_display(None, Some(&index(4)), &index(1)).unwrap_err(),
        "acting space is the last user-space on the source display and cannot be moved.\n"
    );
}

#[test]
fn windows_are_exchanged_between_spaces() {
    let mut state = two_displays().0;
    for (id, sid) in [(1, 11), (2, 11), (3, 21)] {
        state.assign_window_to_space(id, sid).unwrap();
    }
    state.exchange_windows(11, 21);
    assert_eq!(state.space_windows(11), vec![3]);
    assert_eq!(state.space_windows(21), vec![1, 2]);
}

#[test]
fn switching_spaces() {
    let state = two_displays().0;
    assert_eq!(state.plan_space_switch(Some(11), 12), Ok(SwitchPlan::Focus(12)));
    assert_eq!(
        state.plan_space_switch(Some(11), 21),
        Ok(SwitchPlan::Exchange { current: 11, other: 21 })
    );
    assert!(state.plan_space_switch(Some(11), 11).is_err());
}

#[test]
fn focusing_a_space() {
    let order = vec![11, 12];
    assert_eq!(plan_space_focus(Some(&order), Some(11), &index(2)), Ok(12));
    assert_eq!(
        plan_space_focus(Some(&order), Some(11), &index(1)),
        Err("cannot focus an already focused space.".to_string())
    );
    for none in [None, Some(&Vec::new())] {
        assert_eq!(
            plan_space_focus(none, Some(11), &index(1)),
            Err("could not enumerate spaces.".to_string())
        );
    }
}

#[test]
fn a_window_is_sent_to_a_space() {
    let mut state = two_displays().0;
    state.assign_window_to_space(1, 11).unwrap();
    state.assign_window_to_space(2, 11).unwrap();
    state.set_focused_window(Some(1));
    let plan = state.plan_window_to_space(&client(), None, &index(2)).unwrap();
    assert_eq!((plan.wid, plan.sid, plan.focus), (1, 12, Some(2)));
    assert_eq!(plan.request.opcode, SaOpcode::WindowToSpace);
    let mut bytes = 12u64.to_le_bytes().to_vec();
    bytes.extend_from_slice(&1u32.to_le_bytes());
    assert_eq!(plan.request.payload.as_bytes(), &bytes[..]);

    let plan = state.plan_window_to_display(&client(), Some(&index(2)), &index(2)).unwrap();
    assert_eq!((plan.wid, plan.sid, plan.focus), (2, 21, None));

    state.set_focused_window(None);
    assert_eq!(
        state.plan_window_to_space(&client(), None, &index(99)).unwrap_err(),
        "no focused window"
    );
    assert!(state.plan_window_to_display(&client(), Some(&index(1)), &index(9)).is_err());
}

#[test]
fn a_display_without_a_shown_space_takes_no_window() {
    let mut state = two_displays().0;
    state.assign_window_to_space(1, 11).unwrap();
    state.add_display(3, info(2000.0));
    assert_eq!(
        state.plan_window_to_display(&client(), Some(&index(1)), &index(3)).unwrap_err(),
        "could not locate the active space of display '3'.\n"
    );
}

#[test]
fn spaces_are_created_and_destroyed() {
    let state = two_displays().0;
    let create = state.plan_space_create(&client(), None).unwrap();
    assert_eq!(create.opcode, SaOpcode::SpaceCreate);
    assert_eq!(create.payload.as_bytes(), &11u64.to_le_bytes());
    let destroy = state.plan_space_destroy(&client(), Some(&index(1)), Some(&index(2))).unwrap();
    assert_eq!(destroy.opcode, SaOpcode::SpaceDestroy);
    assert_eq!(destroy.payload.as_bytes(), &12u64.to_le_bytes());
    let target = state.plan_space_destroy(&client(), Some(&index(3)), None).unwrap();
    assert_eq!(target.payload.as_bytes(), &13u64.to_le_bytes());
    assert!(state.plan_space_create(&client(), Some(&index(9))).is_err());
    assert_eq!(reason_error("create space", "gone"), "could not create space: gone\n");
}

#[test]
fn rules_send_windows_to_spaces_and_displays() {
    let state = two_displays().0;
    assert_eq!(state.resolve_rule_destination(Some(&index(2)), Some(&index(2))), Ok(Some(12)));
    assert_eq!(state.resolve_rule_destination(None, Some(&index(2))), Ok(Some(21)));
    assert_eq!(state.resolve_rule_destination(None, None), Ok(None));
    assert!(state.resolve_rule_destination(Some(&index(9)), None).is_err());
    let mut effects = RuleEffects::new();
    assert!(!follows_window(&effects));
    effects.fullscreen = Some(true);
    assert!(follows_window(&effects));
    effects.fullscreen = Some(false);
    effects.follow_space = true;
    assert!(follows_window(&effects));
}

#[test]
fn displays_are_acted_on() {
    let state = two_displays().0;
    assert_eq!(state.resolve_acting_display(Some(&index(2)), Some(1)), Ok(2));
    assert_eq!(state.resolve_acting_display(None, Some(2)), Ok(2));
    assert_eq!(state.resolve_acting_display(None, None), Ok(1));
    assert_eq!(
        AppState::new().resolve_acting_display(None, None),
        Err("could not locate the display to act on!\n".to_string())
    );
    let focus = DisplayAction::Focus(Some(index(2)));
    assert_eq!(state.plan_display(1, &focus), Some(Ok(DisplayPlan::Focus(2))));
    assert_eq!(
        state.plan_display(2, &focus),
        Some(Err("cannot focus an already focused display.\n".to_string()))
    );
    let space = DisplayAction::Space(index(3));
    assert_eq!(state.plan_display(1, &space), Some(Ok(DisplayPlan::FocusSpace(13))));
    assert_eq!(state.plan_display(1, &DisplayAction::Focus(None)), None);
    assert_eq!(state.plan_display(1, &DisplayAction::Label("a".to_string())), None);
    assert_eq!(check_space_on_display(Some(1), 1), Ok(()));
    assert_eq!(
        check_space_on_display(None, 1),
        Err("acting display does not contain the given space.\n".to_string())
    );
    assert_eq!(state.plan_focus_display(2, None), (Some(21), None));
    assert_eq!(state.plan_focus_display(9, Some(5)), (Some(5), None));
}

#[test]
fn opacities_follow_the_focus() {
    let mut state = two_displays().0;
    state.assign_window_to_space(1, 11).unwrap();
    state.assign_window_to_space(2, 11).unwrap();
    state.config.active_window_opacity = number(0.9);
    state.config.normal_window_opacity = number(0.4);
    let opacity = |state: &AppState, i: usize| {
        let r = &state.auto_opacity(&client(), Some(2))[i];
        r.payload.as_bytes()[4..8].to_vec()
    };
    assert_eq!(opacity(&state, 0), 1.0f32.to_le_bytes());
    state.config.enable_window_opacity = true;
    assert_eq!(opacity(&state, 0), 0.4f32.to_le_bytes());
    assert_eq!(opacity(&state, 1), 0.9f32.to_le_bytes());
    assert_eq!(state.auto_opacity(&client(), None).len(), 2);
}

#[test]
fn tiled_windows_are_not_moved_by_hand() {
    let mut state = two_displays().0;
    state.assign_window_to_space(1, 11).unwrap();
    state.set_window_floating(2, true, 11);
    let (tiled, free) = (index(1), index(2));
    assert_eq!(state.plan_grid(Some(&free)), Ok(2));
    assert_eq!(
        state.plan_grid(Some(&tiled)),
        Err("cannot apply grid layout to a managed window.\n".to_string())
    );
    assert_eq!(state.plan_move(Some(&free)), Ok(2));
    assert_eq!(
        state.plan_move(Some(&tiled)),
        Err("cannot move a managed window.\n".to_string())
    );
    assert_eq!(state.plan_resize(Some(&free), true), Some(Ok(2)));
    assert_eq!(state.plan_resize(Some(&tiled), false), None);
    assert_eq!(
        state.plan_resize(Some(&tiled), true),
        Some(Err("cannot use absolute resizing on a managed window.\n".to_string()))
    );
    assert_eq!(window_error("could not move window '", 7, "'.\n"), "could not move window '7'.\n");
}

#[test]
fn grids_keep_clear_of_the_edges() {
    let mut state = two_displays().0;
    state.config.top_padding = 5;
    state.config.window_gap = 3;
    let room = Padding { top: 5, bottom: 0, left: 0, right: 0 };
    assert_eq!(state.grid_room(9), (room, 3));
    assert_eq!(state.grid_room(1).0, room);
}

#[test]
fn window_looks_are_ordered() {
    let mut state = two_displays().0;
    state.assign_window_to_space(1, 11).unwrap();
    state.set_window_floating(2, true, 11);
    state.set_focused_window(Some(1));
    let sa = client();

    let opacity = state.plan_window_opacity(&sa, None, &number(0.5)).unwrap();
    assert_eq!(opacity.request.opcode, SaOpcode::WindowOpacity);
    assert_eq!(
        opacity.complaint,
        "could not change opacity of window with id '1' due to an error with the scripting-addition.\n"
    );
    let raise = state.plan_window_order(&sa, None, Some(&index(2)), 1).unwrap();
    assert_eq!(raise.request.opcode, SaOpcode::WindowOrder);
    assert!(raise.complaint.starts_with("could not raise window with id '1'"));
    assert_eq!(&raise.request.payload.as_bytes()[8..12], &2u32.to_le_bytes());
    let lower = state.plan_window_order(&sa, None, None, -1).unwrap();
    assert!(lower.complaint.starts_with("could not lower window with id '1'"));
    assert_eq!(&lower.request.payload.as_bytes()[8..12], &0u32.to_le_bytes());

    for (wid, layer, key) in [
        (1, Layer::Below, 3i32),
        (1, Layer::Normal, 4),
        (1, Layer::Above, 5),
        (1, Layer::Auto, 3),
        (2, Layer::Auto, 4),
    ] {
        let order = state.plan_layer(&sa, wid, layer);
        assert_eq!(&order.request.payload.as_bytes()[4..8], &key.to_le_bytes());
    }
    let order = state.plan_window_sub_layer(&sa, Some(&index(2)), Layer::Above).unwrap();
    assert_eq!(order.request.opcode, SaOpcode::WindowLayer);
    assert_eq!(&order.request.payload.as_bytes()[..4], &2u32.to_le_bytes());
    assert_eq!(
        order.complaint,
        "could not change sub-layer of window with id '2' due to an error with the scripting-addition.\n"
    );
    let (wid, sticky, sid, order) = state.plan_toggle_sticky(&sa, None).unwrap();
    assert_eq!((wid, sticky, sid), (1, true, 11));
    assert_eq!(order.request.opcode, SaOpcode::WindowSticky);
    let (wid, shadow, order) = state.plan_toggle_shadow(&sa, None).unwrap();
    assert_eq!((wid, shadow), (1, false));
    assert_eq!(order.request.opcode, SaOpcode::WindowShadow);
}

#[test]
fn a_window_is_scaled_into_its_display() {
    let sa = client();
    assert_eq!(
        plan_pip(&sa, 7, &PipBounds::NoFrame).unwrap_err(),
        "could not locate window with the given id '7'.\n"
    );
    assert_eq!(
        plan_pip(&sa, 7, &PipBounds::NoDisplay).unwrap_err(),
        "could not locate the display of window '7'.\n"
    );
    let order = plan_pip(&sa, 7, &PipBounds::Within(area(1.0, 2.0, 3.0, 4.0))).unwrap();
    assert_eq!(order.request.opcode, SaOpcode::WindowScale);
    assert_eq!(&order.request.payload.as_bytes()[16..20], &4.0f32.to_le_bytes());
}

#[test]
fn scratchpad_labels_are_checked() {
    assert_eq!(validate_scratchpad_label("notes"), Ok(()));
    assert_eq!(
        validate_scratchpad_label("12"),
        Err("'12' cannot be used as a label.\n".to_string())
    );
    assert_eq!(
        validate_scratchpad_label("recover"),
        Err("'recover' is a reserved keyword and cannot be used as a scratchpad.\n".to_string())
    );
}

#[test]
fn scratchpads_are_planned() {
    let mut state = two_displays().0;
    state.assign_window_to_space(1, 11).unwrap();
    state.assign_window_to_space(2, 12).unwrap();
    state.set_focused_window(Some(1));
    let sa = client();
    let all = vec![1, 2];

    match state.plan_scratchpad(&sa, None, &ScratchpadAction::Recover, &all).unwrap() {
        ScratchpadPlan::Recover(order) => {
            assert_eq!(order.request.opcode, SaOpcode::WindowOrderIn)
        }
        other => panic!("{other:?}"),
    }
    assert_eq!(
        state.plan_scratchpad(&sa, None, &ScratchpadAction::Remove, &all).unwrap_err(),
        "the selected window was not assigned to a scratchpad!\n"
    );
    let label = ScratchpadAction::Label("notes".to_string());
    match state.plan_scratchpad(&sa, Some(&index(2)), &label, &all).unwrap() {
        ScratchpadPlan::Assign { wid, sid, label } => {
            assert_eq!((wid, sid, label.as_str()), (2, 12, "notes"));
            state.set_window_scratchpad(wid, label, sid).unwrap();
        }
        other => panic!("{other:?}"),
    }
    match state.plan_scratchpad(&sa, Some(&index(2)), &ScratchpadAction::Remove, &all).unwrap() {
        ScratchpadPlan::Remove { wid, sid, .. } => assert_eq!((wid, sid), (2, 11)),
        other => panic!("{other:?}"),
    }

    assert_eq!(
        state.scratchpad_to_toggle("nope"),
        Err("unknown scratchpad 'nope'.\n".to_string())
    );
    assert_eq!(state.scratchpad_to_toggle("notes"), Ok((2, 11)));
    match state.plan_toggle_scratchpad(&sa, 2, 11, true) {
        TogglePlan::Show { fetch, .. } => assert!(fetch.is_some()),
        other => panic!("{other:?}"),
    }
    state.set_focused_window(Some(2));
    match state.plan_toggle_scratchpad(&sa, 2, 12, true) {
        TogglePlan::Hide { hide, .. } => {
            assert!(hide.complaint.starts_with("could not hide scratchpad window with id '2'"))
        }
        other => panic!("{other:?}"),
    }
    match state.plan_toggle_scratchpad(&sa, 2, 12, false) {
        TogglePlan::Show { fetch, show } => {
            assert!(fetch.is_none());
            assert!(show.complaint.contains("show scratchpad window"));
        }
        other => panic!("{other:?}"),
    }
}

#[test]
fn metadata_goes_with_a_window() {
    let mut state = two_displays().0;
    let meta = WindowMeta { app: "Finder".to_string(), title: "One".to_string(), pid: 10 };
    state.set_window_meta(1, meta);
    assert_eq!(state.window_pid(1), Some(10));
    state.remove_window_meta(1);
    assert_eq!(state.window_pid(1), None);
}

#[test]
fn another_window_on_the_space_is_found() {
    let mut state = two_displays().0;
    state.assign_window_to_space(1, 11).unwrap();
    assert_eq!(state.window_on_space_excluding(11, 1), None);
    state.assign_window_to_space(2, 11).unwrap();
    assert_eq!(state.window_on_space_excluding(11, 1), Some(2));
    assert_eq!(state.window_on_space_excluding(11, 9), Some(1));
    assert_eq!(state.window_on_space_excluding(99, 1), None);
}
