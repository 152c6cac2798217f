//! Moving and dragging the mouse.
use yabai::layout::DropResult;
use yabai::mouse::{
    dropped_window, mouse_modifier_mask, next_drag_step, resize_handle_for_point, windows_sent,
    DragState, DragStep, HandleBits, HoverStep, ModifierBits, Side,
};
use yabai::state::{Capture, Neighbor, WindowFrame};
use yabai::tiling::LayoutOp;
use yabai::topology::DisplayInfo;
use yabai::types::{Area, FfmMode, MouseAction, MouseModifier, Real};
use yabai::{AppState, RecordingSink};

fn number(value: f32) -> Real {
    Real { bits: value.to_bits(), text: format!("{value:.4}") }
}

fn area() -> Area {
    Area { x: number(0.0), y: number(0.0), w: number(100.0), h: number(100.0) }
}

fn desk() -> AppState {
    let mut state = AppState::new();
    let center = 50.0f32.to_bits();
    state.add_display(1, DisplayInfo { frame: area(), center_x: center, center_y: center });
    state.add_space_to_display(1, 1, area());
    state.set_display_active_space(1, 1);
    state.set_active_space(1);
    for id in [1, 2, 3] {
        state.assign_window_to_space(id, 1).unwrap();
    }
    state.set_window_floating(3, true, 1);
    let frame = |window_id: u32| WindowFrame {
        window_id,
        area: area(),
        parent: None,
        node_windows: vec![1, 2],
        north: Neighbor::Absent,
        east: Neighbor::Absent,
        south: Neighbor::Absent,
        west: Neighbor::Absent,
    };
    let capture = Capture { frames: vec![frame(1), frame(2)], zoomed: None };
    assert!(state.report(1, vec![1, 2], capture));
    state
}

#[test]
fn modifiers_have_their_bits() {
    let bits = ModifierBits { alt: 1, shift: 2, cmd: 4, ctrl: 8, func: 16 };
    assert_eq!(mouse_modifier_mask(MouseModifier::Alt, bits), 1);
    assert_eq!(mouse_modifier_mask(MouseModifier::Shift, bits), 2);
    assert_eq!(mouse_modifier_mask(MouseModifier::Cmd, bits), 4);
    assert_eq!(mouse_modifier_mask(MouseModifier::Ctrl, bits), 8);
    assert_eq!(mouse_modifier_mask(MouseModifier::Fn, bits), 16);
}

#[test]
fn a_handle_is_made_of_the_near_edges() {
    let bits = HandleBits { left: 1, right: 2, top: 4, bottom: 8 };
    assert_eq!(resize_handle_for_point(Side::Before, Side::Behind, bits), 9);
    assert_eq!(resize_handle_for_point(Side::Behind, Side::Middle, bits), 2);
    assert_eq!(resize_handle_for_point(Side::Middle, Side::Middle, bits), 0);
    assert_eq!(resize_handle_for_point(Side::Middle, Side::Before, bits), 4);
}

#[test]
fn drags_take_their_steps() {
    let drag = |action, tiled| Some(DragState { window_id: 5, action, handle: 9, tiled });
    assert_eq!(next_drag_step(None), DragStep::Nothing);
    assert_eq!(
        next_drag_step(drag(MouseAction::Move, true)),
        DragStep::Move { window_id: 5 }
    );
    assert_eq!(
        next_drag_step(drag(MouseAction::Resize, true)),
        DragStep::ResizeTile { window_id: 5, handle: 9 }
    );
    assert_eq!(
        next_drag_step(drag(MouseAction::Resize, false)),
        DragStep::ResizeFrame { window_id: 5, handle: 9 }
    );
    assert_eq!(dropped_window(drag(MouseAction::Move, true)), Some(5));
    assert_eq!(dropped_window(drag(MouseAction::Move, false)), None);
    assert_eq!(dropped_window(drag(MouseAction::Resize, true)), None);
    assert_eq!(dropped_window(None), None);
}

#[test]
fn buttons_have_their_actions() {
    let mut state = desk();
    state.config.mouse_action1 = MouseAction::Move;
    state.config.mouse_action2 = MouseAction::Resize;
    assert_eq!(state.begin_drag(5, true, 9, true).action, MouseAction::Move);
    assert_eq!(state.begin_drag(5, true, 9, false).action, MouseAction::Resize);
}

#[test]
fn floating_windows_are_dragged_first() {
    let state = desk();
    assert_eq!(state.floating_windows(), vec![3]);
    assert_eq!(state.window_to_drag(Some(3), Some(1), &vec![1]), Some((3, false)));
    assert_eq!(state.window_to_drag(None, Some(1), &vec![2]), Some((2, true)));
    assert_eq!(state.window_to_drag(None, Some(1), &vec![]), None);
    assert_eq!(state.window_to_drag(None, None, &vec![2]), Some((2, true)));
}

#[test]
fn drops_send_windows_and_take_the_focus() {
    let mut state = desk();
    let swap = DropResult::CrossSpace {
        dragged_id: 1,
        dragged_new_sid: 7,
        swapped_id: Some(2),
        swapped_new_sid: Some(8),
    };
    assert_eq!(windows_sent(swap), vec![(1, 7), (2, 8)]);
    let alone = DropResult::CrossSpace {
        dragged_id: 1,
        dragged_new_sid: 7,
        swapped_id: None,
        swapped_new_sid: None,
    };
    assert_eq!(windows_sent(alone), vec![(1, 7)]);
    assert!(windows_sent(DropResult::SameSpace).is_empty());
    state.set_focused_window(Some(2));
    state.finish_drop(1, DropResult::Ignored);
    assert_eq!(state.focused_window_id(), Some(2));
    state.finish_drop(1, DropResult::SameSpace);
    assert_eq!(state.focused_window_id(), Some(1));
}

#[test]
fn the_focus_follows_the_mouse_where_it_is_asked_to() {
    let mut state = desk();
    state.set_focused_window(Some(1));
    assert_eq!(state.next_hover_step(Some(2)), HoverStep::Nothing);
    state.config.focus_follows_mouse = FfmMode::Autofocus;
    assert_eq!(state.next_hover_step(Some(2)), HoverStep::Focus(2));
    state.config.focus_follows_mouse = FfmMode::Autoraise;
    assert_eq!(state.next_hover_step(Some(2)), HoverStep::FocusAndRaise(2));
    assert_eq!(state.next_hover_step(Some(1)), HoverStep::Nothing);
    assert_eq!(state.next_hover_step(None), HoverStep::Nothing);
}

#[test]
fn the_topmost_window_hides_what_is_below() {
    let state = desk();
    assert_eq!(state.ffm_window_at_point(Some(3), Some(1), &vec![1]), Some(3));
    assert_eq!(state.ffm_window_at_point(Some(99), Some(1), &vec![1]), None);
    assert_eq!(state.ffm_window_at_point(None, Some(1), &vec![1]), Some(1));
}

#[test]
fn a_drop_lands_on_the_other_window() {
    let state = desk();
    assert_eq!(state.drop_target(1, Some(1), &vec![1, 2]), Some(2));
    assert_eq!(state.drop_target(1, Some(1), &vec![1]), None);
    assert_eq!(state.drop_target(1, None, &vec![1, 2]), None);
}

#[test]
fn only_tiled_windows_are_resized_by_the_layout() {
    let state = desk();
    match state.resize_tiled_window(2, 5, number(10.0), number(-4.0)) {
        Some(LayoutOp::Resize { sid, window_id, handle, dw, dh }) => {
            assert_eq!((sid, window_id, handle), (1, 2, 5));
            assert_eq!((dw.bits, dh.bits), (10.0f32.to_bits(), (-4.0f32).to_bits()));
        }
        _ => panic!("a tiled window is resized"),
    }
    assert!(state.resize_tiled_window(3, 5, number(10.0), number(-4.0)).is_none());
}

#[test]
fn every_shown_space_is_placed() {
    let mut state = desk();
    let mut sink = RecordingSink::new();
    assert_eq!(state.flush_all_active_to(&mut sink), 2);
    let ids: Vec<u32> = sink.moves.iter().map(|placed| placed.window_id).collect();
    assert_eq!(ids, vec![1, 2]);

    state.add_space(2, area());
    state.set_display_active_space(1, 2);
    assert_eq!(state.flush_all_active_to(&mut sink), 0);
}
