//! The daemon between events: displays, windows, signals and the path of
//! commands.
use yabai::dispatch::{DisplayAction, SpaceAction, WindowAction};
use yabai::layout::{DropPlan, DropResult, DropZone};
use yabai::ledger::{next_windowed_step, Ledger, WindowedStep};
use yabai::message::{Message, Progress};
use yabai::notices::{
    lifecycle_signals, listed_windows, mission_control_signal, next_front, note_focus,
    window_call, workspace_signals, SignalCall, WorkspaceEvent,
};
use yabai::pipeline::{follow_ups, FollowUp, Route};
use yabai::refresh::{
    display_removed_signal, space_created_signal, space_destroyed_signal, LiveDisplay,
};
use yabai::registry::{RuleApply, RuleCommand};
use yabai::routes::{DisplayPlan, SpaceRoute, WindowRoute};
use yabai::rules::{Rule, RuleEffects};
use yabai::signals::SignalEvent;
use yabai::state::WindowMeta;
use yabai::tiling::{LayoutOp, Padding};
use yabai::topology::DisplayInfo;
use yabai::types::{Area, MouseDropAction, Real, Selector, ValueType, WindowOriginMode};
use yabai::{AppState, StateEvent};

fn number(value: f32) -> Real {
    Real { bits: value.to_bits(), text: format!("{value:.4}") }
}

fn area(x: f32) -> Area {
    Area { x: number(x), y: number(0.0), w: number(100.0), h: number(100.0) }
}

fn live(id: u32, spaces: Option<Vec<u64>>, current: Option<u64>) -> LiveDisplay {
    let x = id as f32 * 100.0;
    LiveDisplay {
        id,
        info: DisplayInfo {
            frame: area(x),
            center_x: (x + 50.0).to_bits(),
            center_y: 50.0f32.to_bits(),
        },
        usable: area(x),
        spaces,
        current,
    }
}

fn meta(app: &str, title: &str) -> WindowMeta {
    WindowMeta { app: app.to_string(), title: title.to_string(), pid: 10 }
}

fn env(call: &SignalCall) -> Vec<(&str, &str)> {
    call.env.iter().map(|(k, v)| (*k, v.as_str())).collect()
}

fn desk() -> AppState {
    let mut state = AppState::new();
    state.refresh_topology(1, &vec![live(1, Some(vec![11, 12]), Some(11))]);
    state.set_active_space(11);
    state
}

#[test]
fn a_daemon_starts_with_what_is_there() {
    let mut state = AppState::new();
    let displays = vec![live(1, Some(vec![11]), Some(12)), live(2, None, Some(21))];
    state.seed(&displays);
    assert_eq!(state.display_ids(), vec![1, 2]);
    assert_eq!(state.space_ids_for_display(1), vec![11, 12]);
    assert_eq!(state.space_ids_for_display(2), vec![21]);
    assert_eq!(state.display_active_space_id(1), Some(12));
    assert_eq!(state.start_tiling(&displays, Some(2)), Some(21));
    assert_eq!(state.active_space_id(), Some(21));
    assert_eq!(state.start_tiling(&displays, Some(9)), Some(12));
    assert_eq!(AppState::new().start_tiling(&Vec::new(), None), None);
}

#[test]
fn displays_and_spaces_come_and_go() {
    let mut state = AppState::new();
    let first = state.refresh_topology(1, &vec![live(1, Some(vec![11, 12]), Some(11))]);
    assert_eq!(first.created_spaces, vec![11, 12]);
    assert_eq!(first.added_displays, vec![1]);
    assert!(first.destroyed_spaces.is_empty() && first.removed_displays.is_empty());

    let second = state.refresh_topology(
        2,
        &vec![live(1, Some(vec![11]), Some(11)), live(2, Some(vec![21]), Some(21))],
    );
    assert_eq!(second.created_spaces, vec![21]);
    assert_eq!(second.destroyed_spaces, vec![12]);
    assert_eq!(second.added_displays, vec![2]);
    assert!(state.space(12).is_none());

    // Spaces stay while a display does not tell its own.
    let third = state.refresh_topology(2, &vec![live(2, None, Some(21))]);
    assert!(third.destroyed_spaces.is_empty());
    assert_eq!(third.removed_displays, vec![1]);
    assert!(state.space(11).is_some());
    assert_eq!(state.display_ids(), vec![2]);
}

#[test]
fn topology_signals_tell_ids_and_places() {
    let state = desk();
    assert_eq!(
        env(&space_created_signal(&vec![11, 12], 12)),
        vec![("YABAI_SPACE_ID", "12"), ("YABAI_SPACE_INDEX", "2")]
    );
    assert_eq!(env(&space_destroyed_signal(12)), vec![("YABAI_SPACE_ID", "12")]);
    assert_eq!(
        env(&state.display_added_signal(1)),
        vec![("YABAI_DISPLAY_ID", "1"), ("YABAI_DISPLAY_INDEX", "1")]
    );
    assert_eq!(env(&state.display_added_signal(9)), vec![("YABAI_DISPLAY_ID", "9")]);
    assert_eq!(env(&display_removed_signal(9)), vec![("YABAI_DISPLAY_ID", "9")]);
}

#[test]
fn shown_spaces_are_noted_once() {
    let mut state = desk();
    assert!(!state.note_shown_space(1, 11));
    assert!(state.note_shown_space(1, 12));
    assert!(!state.note_shown_space(1, 99));
    assert_eq!(state.display_active_space_id(1), Some(12));
}

#[test]
fn windows_are_taken_in_and_lost() {
    let mut state = desk();
    let (sid, effects) = state.take_in_window(5, meta("Finder", "One"), 12, true, None);
    assert_eq!(sid, 12);
    assert!(effects.is_some());
    assert_eq!(state.window_space_id(5), Some(12));

    state.config.window_origin_display = WindowOriginMode::Focused;
    let (sid, effects) = state.take_in_window(5, meta("Finder", "Two"), 12, false, None);
    assert_eq!((sid, effects.is_none()), (12, true));
    assert_eq!(state.window_meta(5).unwrap().title, "Two");
    let (sid, _) = state.take_in_window(6, meta("Finder", "Six"), 12, true, None);
    assert_eq!(sid, 11);

    assert!(state.lose_window(5, Some(11)));
    assert_eq!(state.window_space_id(5), Some(11));
    assert!(!state.lose_window(5, None));
    assert_eq!(state.window_known_space_id(5), None);
    assert!(state.window_meta(5).is_none());
}

#[test]
fn a_focused_window_brings_its_space() {
    let mut state = desk();
    state.observe_focus(7, Some(12));
    assert_eq!(state.focused_window_id(), Some(7));
    assert_eq!(state.window_space_id(7), Some(12));
    assert_eq!(state.active_space_id(), Some(12));
    state.observe_focus(8, None);
    assert_eq!(state.focused_window_id(), Some(8));
    assert_eq!(state.window_known_space_id(8), None);
    assert_eq!(state.managed_space_among(&vec![99, 11, 12]), Some(12));
    assert_eq!(state.managed_space_among(&vec![99, 11]), Some(11));
    assert_eq!(state.managed_space_among(&vec![99]), None);
}

#[test]
fn a_ledger_follows_applications() {
    let mut ledger = Ledger::new();
    assert!(ledger.observe(10));
    assert!(!ledger.observe(10));
    assert!(ledger.observe(-4));
    assert_eq!(ledger.observed_apps(), vec![-4, 10]);

    assert!(ledger.is_new(10, 1));
    ledger.settle(10, vec![1, 2]);
    assert!(!ledger.is_new(10, 1));
    assert!(ledger.is_new(11, 1));
    assert_eq!(ledger.missing(10, &vec![2, 3]), vec![1]);
    assert!(ledger.missing(10, &vec![1, 2]).is_empty());
    assert!(ledger.missing(11, &vec![]).is_empty());

    let calls = ledger.take_listing(10, &vec![(1, meta("Finder", "One"))], None);
    assert_eq!(calls.len(), 1);
    assert_eq!(calls[0].event, SignalEvent::WindowCreated);
    assert_eq!(ledger.listed(10, 1).unwrap().title, "One");
    assert!(ledger.listed(10, 2).is_none());

    ledger.note_minimized(2, 10);
    ledger.note_minimized(3, 11);
    ledger.note_fullscreen(4, 10);
    let farewell = ledger.terminate(10, Some(1)).unwrap();
    assert_eq!(farewell.signals.len(), 1);
    assert_eq!(farewell.signals[0].event, SignalEvent::WindowDestroyed);
    assert_eq!(farewell.signals[0].active, Some(true));
    assert_eq!(farewell.minimized, vec![2]);
    assert_eq!(farewell.fullscreen, vec![4]);
    assert_eq!(farewell.windows, Some(vec![1, 2]));
    assert!(ledger.terminate(10, None).is_none());
    assert!(ledger.is_new(10, 1));
    assert_eq!(ledger.minimized_app(2), None);
    assert_eq!(ledger.minimized_app(3), Some(11));
    assert_eq!(ledger.fullscreen_app(4), None);
}

#[test]
fn a_window_that_could_not_come_back_is_kept() {
    let mut ledger = Ledger::new();
    ledger.note_minimized(3, 11);
    ledger.settle_minimized(3, false);
    assert_eq!(ledger.minimized_app(3), Some(11));
    ledger.settle_minimized(3, true);
    assert_eq!(ledger.minimized_app(3), None);
    ledger.note_fullscreen(4, 10);
    ledger.settle_fullscreen(4, false);
    assert_eq!(ledger.fullscreen_app(4), Some(10));
    ledger.settle_fullscreen(4, true);
    assert_eq!(ledger.fullscreen_app(4), None);
}

#[test]
fn a_window_fills_its_display_and_is_put_back() {
    let mut ledger = Ledger::new();
    assert!(matches!(next_windowed_step(ledger.windowed_frame(8)), WindowedStep::Fill));
    ledger.settle_windowed(8, area(5.0), false);
    assert!(ledger.windowed_frame(8).is_none());
    ledger.settle_windowed(8, area(5.0), true);
    match next_windowed_step(ledger.windowed_frame(8)) {
        WindowedStep::Restore(frame) => assert_eq!(frame.x.text, "5.0000"),
        WindowedStep::Fill => panic!("the window fills its display"),
    }
    ledger.settle_windowed(8, area(7.0), false);
    assert_eq!(ledger.windowed_frame(8).unwrap().x.text, "5.0000");
    ledger.settle_windowed(8, area(7.0), true);
    assert!(ledger.windowed_frame(8).is_none());
    assert!(ledger.windowed_frame(9).is_none());
}

#[test]
fn listings_fire_signals_about_what_changed() {
    let known = listed_windows(&vec![(1, meta("A", "x")), (2, meta("A", "y"))]);
    let now = vec![(1, meta("A", "x")), (3, meta("B", "z"))];
    let calls = lifecycle_signals(&known, &now, Some(2));
    assert_eq!(calls.len(), 2);
    assert_eq!(calls[0].event, SignalEvent::WindowCreated);
    assert_eq!(env(&calls[0]), vec![("YABAI_WINDOW_ID", "3")]);
    assert_eq!(calls[0].title.as_deref(), Some("z"));
    assert_eq!(calls[1].event, SignalEvent::WindowDestroyed);
    assert_eq!(env(&calls[1]), vec![("YABAI_WINDOW_ID", "2")]);
    assert_eq!((calls[1].title.as_deref(), calls[1].active), (None, Some(true)));

    let renamed = lifecycle_signals(&known, &vec![(1, meta("A", "new")), (2, meta("A", "y"))], None);
    assert_eq!(renamed.len(), 1);
    assert_eq!(renamed[0].event, SignalEvent::WindowTitleChanged);
    assert_eq!(renamed[0].active, Some(false));
}

#[test]
fn workspace_events_fire_their_signals() {
    let activated = WorkspaceEvent::ApplicationActivated { pid: 7, app: "A".to_string() };
    let calls = workspace_signals(&activated, Some(5), None);
    assert_eq!(calls.len(), 2);
    assert_eq!(calls[0].event, SignalEvent::ApplicationFrontSwitched);
    assert_eq!(
        env(&calls[0]),
        vec![("YABAI_PROCESS_ID", "7"), ("YABAI_RECENT_PROCESS_ID", "5")]
    );
    assert_eq!(calls[1].event, SignalEvent::ApplicationActivated);
    assert_eq!(workspace_signals(&activated, Some(7), None).len(), 1);
    assert_eq!(next_front(&activated, Some(5)), Some(7));

    let hidden = WorkspaceEvent::ApplicationHidden { pid: 7, app: "A".to_string() };
    assert_eq!(workspace_signals(&hidden, Some(7), None)[0].active, Some(true));
    assert_eq!(workspace_signals(&hidden, None, None)[0].active, Some(false));
    assert_eq!(next_front(&hidden, Some(5)), Some(5));

    let space = workspace_signals(&WorkspaceEvent::ActiveSpaceChanged, None, Some(11));
    assert_eq!(env(&space[0]), vec![("YABAI_SPACE_ID", "11")]);
    assert!(workspace_signals(&WorkspaceEvent::ActiveSpaceChanged, None, None).is_empty());
    assert_eq!(mission_control_signal(true).event, SignalEvent::MissionControlEnter);
    assert_eq!(mission_control_signal(false).event, SignalEvent::MissionControlExit);
}

#[test]
fn a_focus_is_told_once() {
    let mut last = None;
    assert!(note_focus(&mut last, 4));
    assert!(!note_focus(&mut last, 4));
    assert!(note_focus(&mut last, 5));
    assert_eq!(last, Some(5));
    let call = window_call(SignalEvent::WindowFocused, 4, Some("A"), None, None);
    assert_eq!(env(&call), vec![("YABAI_WINDOW_ID", "4")]);
    assert_eq!(call.app.as_deref(), Some("A"));
}

fn window(actions: Vec<WindowAction>) -> Message {
    Message::Window { target: None, actions }
}

fn toggle(name: &str) -> WindowAction {
    WindowAction::Toggle(name.to_string())
}

#[test]
fn commands_find_their_way() {
    let mut state = desk();
    state.assign_window_to_space(1, 11).unwrap();
    state.set_focused_window(Some(1));
    let none = Vec::new();
    let way = |state: &AppState, m: &Message| state.route(None, &none, &none, None, Some(m));

    // A window in fullscreen is brought back before anything else is tried.
    let leave = window(vec![toggle("native-fullscreen")]);
    assert!(matches!(
        state.route(Some(None), &vec![9], &none, None, Some(&leave)),
        Route::ExitFullscreen(9)
    ));
    assert!(matches!(
        state.route(Some(None), &none, &none, None, Some(&leave)),
        Route::State
    ));
    let back = window(vec![WindowAction::Deminimize(Some(Selector::First))]);
    match state.route(None, &none, &vec![4], None, Some(&back)) {
        Route::Deminimize(found) => assert_eq!(found, Ok(4)),
        other => panic!("{other:?}"),
    }
    let mixed = window(vec![toggle("float"), toggle("shadow")]);
    match way(&state, &mixed) {
        Route::Window { at, route } => assert_eq!((at, route), (1, WindowRoute::Shadow)),
        other => panic!("{other:?}"),
    }
    let create = Message::Space { target: None, actions: vec![SpaceAction::Create] };
    match way(&state, &create) {
        Route::Space { at, route } => assert_eq!((at, route), (0, SpaceRoute::Create)),
        other => panic!("{other:?}"),
    }
    let focus = SpaceAction::Focus(Some(Selector::Next));
    let focus = Message::Space { target: None, actions: vec![focus] };
    assert!(matches!(way(&state, &focus), Route::FocusSpace));
    let apply = Message::Rule(RuleCommand::Apply(RuleApply::All));
    assert!(matches!(way(&state, &apply), Route::ApplyRules));
    assert!(matches!(way(&state, &Message::Rule(RuleCommand::List)), Route::State));
    assert!(matches!(state.route(None, &none, &none, None, None), Route::State));

    match way(&state, &window(vec![WindowAction::Grid([1, 1, 0, 0, 1, 1])])) {
        Route::Grid(refused) => assert!(refused.is_err()),
        other => panic!("{other:?}"),
    }
    match way(&state, &window(vec![toggle("windowed-fullscreen")])) {
        Route::WindowedFullscreen(found) => assert_eq!(found, Ok(1)),
        other => panic!("{other:?}"),
    }
    match way(&state, &window(vec![toggle("expose")])) {
        Route::Expose(found) => assert_eq!(found, Ok(1)),
        other => panic!("{other:?}"),
    }
    let resize = |absolute| WindowAction::Resize {
        absolute,
        handle: 0,
        dw: number(1.0),
        dh: number(1.0),
    };
    assert!(matches!(way(&state, &window(vec![resize(false)])), Route::State));
    assert!(matches!(way(&state, &window(vec![resize(true)])), Route::Resize(Err(_))));
    let shift = WindowAction::Move { kind: ValueType::Rel, dx: number(1.0), dy: number(0.0) };
    assert!(matches!(way(&state, &window(vec![shift])), Route::Move(Err(_))));

    let to_space = DisplayAction::Space(Selector::Index(11));
    let display = Message::Display { target: None, actions: vec![to_space] };
    match way(&state, &display) {
        Route::Display(found) => assert_eq!(found, Ok((1, DisplayPlan::FocusSpace(11)))),
        other => panic!("{other:?}"),
    }
    let label = DisplayAction::Label("a".to_string());
    let label = Message::Display { target: None, actions: vec![label] };
    assert!(matches!(way(&state, &label), Route::State));
}

#[test]
fn a_scratchpad_is_toggled_by_its_label() {
    let mut state = desk();
    state.assign_window_to_space(1, 11).unwrap();
    let name = window(vec![toggle("notes")]);
    let none = Vec::new();
    assert!(matches!(state.route(None, &none, &none, None, Some(&name)), Route::State));
    state.set_window_scratchpad(1, "notes".to_string(), 11).unwrap();
    match state.route(None, &none, &none, None, Some(&name)) {
        Route::Window { route, .. } => assert_eq!(route, WindowRoute::ToggleScratchpad),
        other => panic!("{other:?}"),
    }
}

#[test]
fn things_follow_a_command_that_went_well() {
    let focus = window(vec![WindowAction::Focus(Some(Selector::Next))]);
    assert_eq!(follow_ups(Some(&focus), false, true), vec![FollowUp::Focus, FollowUp::ArmModifier]);
    assert!(follow_ups(Some(&focus), false, false).is_empty());
    let many = window(vec![
        toggle("native-fullscreen"),
        WindowAction::Close(None),
        WindowAction::Minimize(None),
    ]);
    assert_eq!(
        follow_ups(Some(&many), false, true),
        vec![
            FollowUp::Minimize,
            FollowUp::Close,
            FollowUp::EnterFullscreen,
            FollowUp::ArmModifier
        ]
    );
    let leave = window(vec![toggle("native-fullscreen")]);
    assert_eq!(follow_ups(Some(&leave), true, true), vec![FollowUp::ArmModifier]);
    assert_eq!(follow_ups(None, false, true), vec![FollowUp::ArmModifier]);
}

#[test]
fn a_relative_change_out_of_range_is_told() {
    let mut state = desk();
    let gap = |kind, gap| Message::Space {
        target: None,
        actions: vec![SpaceAction::Gap { kind, gap }],
    };
    assert!(matches!(state.dispatch(gap(ValueType::Abs, i32::MAX)), Progress::Done(Ok(None))));
    assert!(matches!(state.dispatch(gap(ValueType::Rel, 1)), Progress::OutOfRange));
    assert_eq!(state.space(11).unwrap().gap, i32::MAX);
}

#[test]
fn a_window_command_waits_for_the_layout() {
    let mut state = desk();
    state.add_window(1).unwrap();
    state.take_ops();
    let ratio = WindowAction::Ratio { kind: ValueType::Abs, ratio: number(0.7) };
    let actions = vec![ratio, WindowAction::Focus(Some(Selector::Index(1)))];
    match state.dispatch(window(actions)) {
        Progress::Ask { op, actions, next } => {
            assert!(matches!(op, LayoutOp::Ratio { sid: 11, window_id: 1, relative: false, .. }));
            assert_eq!(next, 1);
            match state.resume(&op, false, actions, next) {
                Progress::Done(answer) => assert_eq!(
                    answer,
                    Err("cannot adjust ratio of a root node.".to_string())
                ),
                other => panic!("{other:?}"),
            }
        }
        other => panic!("{other:?}"),
    }
}

#[test]
fn a_window_command_lets_the_layout_catch_up() {
    let mut state = desk();
    state.add_window(1).unwrap();
    state.add_window(2).unwrap();
    state.take_ops();
    assert!(!state.has_ops());
    let swap = || WindowAction::Swap(Selector::Index(2));
    state.set_focused_window(Some(1));
    match state.dispatch(window(vec![swap(), WindowAction::Focus(Some(Selector::Index(2)))])) {
        Progress::Wait { actions, next } => {
            assert_eq!((actions.len(), next), (2, 1));
            assert_eq!(state.focused_window_id(), Some(1));
            assert!(state.has_ops());
            state.take_ops();
            assert!(matches!(state.proceed(actions, next), Progress::Done(Ok(None))));
            assert_eq!(state.focused_window_id(), Some(2));
        }
        other => panic!("{other:?}"),
    }
    assert!(matches!(state.dispatch(window(vec![swap()])), Progress::Done(Ok(None))));
}

#[test]
fn reading_changes_nothing() {
    let mut state = desk();
    let rule = Rule {
        label: Some("a".to_string()),
        app: Some("^A$".to_string()),
        title: None,
        role: None,
        subrole: None,
        app_exclude: false,
        title_exclude: false,
        role_exclude: false,
        subrole_exclude: false,
        one_shot: false,
        effects: RuleEffects::new(),
    };
    assert!(matches!(
        state.dispatch(Message::Rule(RuleCommand::Add(rule))),
        Progress::Done(Ok(None))
    ));
    let list = |state: &mut AppState| match state.dispatch(Message::Rule(RuleCommand::List)) {
        Progress::Done(Ok(Some(text))) => text,
        other => panic!("{other:?}"),
    };
    let first = list(&mut state);
    assert_eq!(list(&mut state), first);
    assert!(first.contains("\"label\":\"a\""));
}

#[test]
fn gaps_and_paddings_come_back() {
    let mut state = desk();
    state.set_space_gap(11, ValueType::Abs, 9).unwrap();
    let padding = Padding { top: 1, bottom: 2, left: 3, right: 4 };
    state.set_space_padding(11, ValueType::Abs, padding).unwrap();
    state.toggle_space_gap(11).unwrap();
    state.toggle_space_padding(11).unwrap();
    assert_eq!(state.space(11).unwrap().gap, 0);
    assert_eq!(state.space_padding(11), Padding { top: 0, bottom: 0, left: 0, right: 0 });
    state.set_space_gap(11, ValueType::Rel, 2).unwrap();
    state.toggle_space_gap(11).unwrap();
    state.toggle_space_padding(11).unwrap();
    assert_eq!(state.space(11).unwrap().gap, 11);
    assert_eq!(state.space_padding(11), padding);
}

#[test]
fn windows_follow_their_assignments() {
    let mut state = desk();
    for id in [1, 2, 3] {
        state.assign_window_to_space(id, 11).unwrap();
    }
    state.assign_window_to_space(2, 12).unwrap();
    assert_eq!(state.space(11).unwrap().windows, vec![1, 3]);
    assert_eq!(state.space(12).unwrap().windows, vec![2]);
    state.assign_window_to_space(2, 12).unwrap();
    assert_eq!(state.space(12).unwrap().windows, vec![2]);
    state.set_window_floating(3, true, 11);
    state.assign_window_to_space(3, 12).unwrap();
    assert_eq!(state.window_space_id(3), None);
    state.set_window_floating(3, false, 12);
    assert_eq!(state.window_space_id(3), Some(12));
    state.remove_window(2).unwrap();
    assert_eq!(state.window_known_space_id(2), None);
    assert!(state.assign_window_to_space(1, 99).is_err());
}

#[test]
fn selectors_step_through_windows_and_spaces() {
    let mut state = desk();
    for id in [1, 2, 3] {
        state.assign_window_to_space(id, 11).unwrap();
    }
    state.set_focused_window(Some(2));
    assert_eq!(state.resolve_window(&Selector::Next), Ok(3));
    assert_eq!(state.resolve_window(&Selector::Prev), Ok(1));
    assert_eq!(state.resolve_window(&Selector::First), Ok(1));
    assert_eq!(state.resolve_window(&Selector::Last), Ok(3));
    state.set_focused_window(Some(3));
    assert_eq!(state.resolve_window(&Selector::Recent), Ok(2));
    state.set_active_space(12);
    assert_eq!(state.resolve_space(Some(&Selector::Recent)), Ok(11));
    let label = state.resolve_space(Some(&Selector::Label("x\"y".to_string())));
    assert_eq!(label, Err("could not locate space with label 'x\"y'.\n".to_string()));
    let display = state.resolve_display(Some(&Selector::Next)).unwrap_err();
    assert!(display.contains("Next"));
    let window = state.resolve_window(&Selector::Label("x\"y".to_string())).unwrap_err();
    assert!(window.contains("Label(\"x\\\"y\")"));
}

#[test]
fn events_of_unknown_things_are_harmless() {
    let mut state = desk();
    state.handle_event(StateEvent::WindowDestroyed { window_id: 99 }).unwrap();
    state.handle_event(StateEvent::SpaceRemoved { sid: 99 }).unwrap();
    state.handle_event(StateEvent::DisplayRemoved { display_id: 99 }).unwrap();
    assert!(state
        .handle_event(StateEvent::DisplayFrameChanged { sid: 99, frame: area(0.0) })
        .is_err());
    assert_eq!(state.space_ids(), vec![11, 12]);
}

#[test]
fn an_event_of_another_space_leaves_the_last_one_recent() {
    let mut state = desk();
    state.handle_event(StateEvent::SpaceChanged { sid: 12 }).unwrap();
    assert_eq!(state.active_space_id(), Some(12));
    assert_eq!(state.resolve_space(Some(&Selector::Recent)), Ok(11));
    state.handle_event(StateEvent::SpaceChanged { sid: 11 }).unwrap();
    assert_eq!(state.resolve_space(Some(&Selector::Recent)), Ok(12));
}

#[test]
fn a_window_stays_where_no_layout_takes_it() {
    let mut state = desk();
    state.assign_window_to_space(7, 11).unwrap();
    state.reassign_window_to_space(7, 99);
    assert_eq!(state.window_space_id(7), Some(11));
    assert_eq!(state.space(11).unwrap().windows, vec![7]);

    // Display 2 shows a space that has no layout.
    state.add_display(2, live(2, None, None).info);
    state.set_display_active_space(2, 99);
    let zone = DropZone { center: true, edge: None };
    let plan =
        state.drop_tiled_window_at_point(7, Some(2), &Vec::new(), zone, MouseDropAction::Swap);
    assert!(matches!(plan, DropPlan::Done(DropResult::Ignored)));
    assert_eq!(state.window_space_id(7), Some(11));
    assert_eq!(state.space(11).unwrap().windows, vec![7]);

    state.reassign_window_to_space(7, 12);
    assert_eq!(state.window_space_id(7), Some(12));
    assert_eq!(state.space(11).unwrap().windows, Vec::<u32>::new());
}
