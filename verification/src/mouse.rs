//! What moving and dragging the mouse does.
use vstd::prelude::*;

use crate::idmap;
use crate::layout::DropResult;
use crate::rules;
use crate::state::{AppState, State};
use crate::types::{FfmMode, MouseAction, MouseModifier};

verus! {

/// The bits that stand for modifier keys in mouse events.
#[derive(Debug, Clone, Copy, PartialEq, Eq, Structural)]
pub struct ModifierBits {
    pub alt: u8,
    pub shift: u8,
    pub cmd: u8,
    pub ctrl: u8,
    pub func: u8,
}

/// The bits of a modifier key.
pub open spec fn modifier_bits(modifier: MouseModifier, bits: ModifierBits) -> u8 {
    match modifier {
        MouseModifier::Alt => bits.alt,
        MouseModifier::Shift => bits.shift,
        MouseModifier::Cmd => bits.cmd,
        MouseModifier::Ctrl => bits.ctrl,
        MouseModifier::Fn => bits.func,
    }
}

/// The bits of the modifier key that arms drags.
pub fn mouse_modifier_mask(modifier: MouseModifier, bits: ModifierBits) -> (r: u8)
    ensures
        r == modifier_bits(modifier, bits),
{
    match modifier {
        MouseModifier::Alt => bits.alt,
        MouseModifier::Shift => bits.shift,
        MouseModifier::Cmd => bits.cmd,
        MouseModifier::Ctrl => bits.ctrl,
        MouseModifier::Fn => bits.func,
    }
}

/// Where a point lies along one axis, seen from the middle of a frame.
#[derive(Debug, Clone, Copy, PartialEq, Eq, Structural)]
pub enum Side {
    Before,
    Middle,
    Behind,
}

/// The bits that stand for the edges of a frame.
#[derive(Debug, Clone, Copy, PartialEq, Eq, Structural)]
pub struct HandleBits {
    pub left: u8,
    pub right: u8,
    pub top: u8,
    pub bottom: u8,
}

/// The handle of a frame for a point: the edges on whose side it lies.
pub open spec fn handle_bits(across: Side, down: Side, bits: HandleBits) -> u8 {
    (match across {
        Side::Before => bits.left,
        Side::Middle => 0u8,
        Side::Behind => bits.right,
    }) | (match down {
        Side::Before => bits.top,
        Side::Middle => 0u8,
        Side::Behind => bits.bottom,
    })
}

/// The handle of a frame for a point.
pub fn resize_handle_for_point(across: Side, down: Side, bits: HandleBits) -> (r: u8)
    ensures
        r == handle_bits(across, down, bits),
{
    let horizontal: u8 = match across {
        Side::Before => bits.left,
        Side::Middle => 0,
        Side::Behind => bits.right,
    };
    let vertical: u8 = match down {
        Side::Before => bits.top,
        Side::Middle => 0,
        Side::Behind => bits.bottom,
    };
    horizontal | vertical
}

/// A drag in progress.
#[derive(Debug, Clone, Copy, PartialEq, Eq, Structural)]
pub struct DragState {
    pub window_id: u32,
    pub action: MouseAction,
    pub handle: u8,
    pub tiled: bool,
}

/// What a step of a drag asks for.
#[derive(Debug, Clone, Copy, PartialEq, Eq, Structural)]
pub enum DragStep {
    Nothing,
    /// Move the window along with the cursor.
    Move { window_id: u32 },
    /// Resize the tile of the window by what the cursor moved since the last
    /// step.
    ResizeTile { window_id: u32, handle: u8 },
    /// Resize the window by what the cursor moved since the drag began.
    ResizeFrame { window_id: u32, handle: u8 },
}

/// What moving the mouse asks for.
#[derive(Debug, Clone, Copy, PartialEq, Eq, Structural)]
pub enum HoverStep {
    Nothing,
    Focus(u32),
    FocusAndRaise(u32),
}

/// The step that a drag takes when the cursor moves.
pub open spec fn drag_step(drag: Option<DragState>) -> DragStep {
    match drag {
        None => DragStep::Nothing,
        Some(d) => match d.action {
            MouseAction::Move => DragStep::Move { window_id: d.window_id },
            MouseAction::Resize => if d.tiled {
                DragStep::ResizeTile { window_id: d.window_id, handle: d.handle }
            } else {
                DragStep::ResizeFrame { window_id: d.window_id, handle: d.handle }
            },
        },
    }
}

/// The step that a drag takes when the cursor moves.
pub fn next_drag_step(drag: Option<DragState>) -> (r: DragStep)
    ensures
        r == drag_step(drag),
{
    match drag {
        None => DragStep::Nothing,
        Some(d) => match d.action {
            MouseAction::Move => DragStep::Move { window_id: d.window_id },
            MouseAction::Resize => if d.tiled {
                DragStep::ResizeTile { window_id: d.window_id, handle: d.handle }
            } else {
                DragStep::ResizeFrame { window_id: d.window_id, handle: d.handle }
            },
        },
    }
}

/// The window that is dropped when a drag ends: a tiled one that was moved.
pub fn dropped_window(drag: Option<DragState>) -> (r: Option<u32>)
    ensures
        r == (match drag {
            Some(d) => if d.tiled && d.action == MouseAction::Move {
                Some(d.window_id)
            } else {
                None
            },
            None => None,
        }),
{
    match drag {
        Some(d) => if d.tiled && d.action == MouseAction::Move {
            Some(d.window_id)
        } else {
            None
        },
        None => None,
    }
}

/// The windows that a drop sends to other spaces, in order.
pub open spec fn sent_by(result: DropResult) -> Seq<(u32, u64)> {
    match result {
        DropResult::CrossSpace { dragged_id, dragged_new_sid, swapped_id, swapped_new_sid } => {
            match (swapped_id, swapped_new_sid) {
                (Some(wid), Some(sid)) => seq![(dragged_id, dragged_new_sid), (wid, sid)],
                _ => seq![(dragged_id, dragged_new_sid)],
            }
        },
        _ => Seq::empty(),
    }
}

/// The windows that a drop sends to other spaces, in order.
pub fn windows_sent(result: DropResult) -> (r: Vec<(u32, u64)>)
    ensures
        r@ == sent_by(result),
{
    match result {
        DropResult::CrossSpace { dragged_id, dragged_new_sid, swapped_id, swapped_new_sid } => {
            match (swapped_id, swapped_new_sid) {
                (Some(wid), Some(sid)) => vec![(dragged_id, dragged_new_sid), (wid, sid)],
                _ => vec![(dragged_id, dragged_new_sid)],
            }
        },
        _ => Vec::new(),
    }
}

impl State {
    /// The state after a drop: unless it was ignored, the window has the focus.
    pub open spec fn after_dropped(self, window_id: u32, result: DropResult) -> State {
        if result == DropResult::Ignored {
            self
        } else {
            self.focusing(window_id)
        }
    }

    /// Which windows float.
    pub open spec fn floats(self) -> spec_fn(u32) -> bool {
        |id: u32| self.tiling.floating.contains(id)
    }

    /// The window that the mouse points at: the topmost one if it is known, and
    /// the one whose tile is there only if there is none on top.
    pub open spec fn pointed_at(
        self,
        topmost: Option<u32>,
        display: Option<u32>,
        inside: Seq<u32>,
    ) -> Option<u32> {
        match topmost {
            Some(wid) => if self.known_space(wid) is Some {
                Some(wid)
            } else {
                None
            },
            None => self.window_under(display, inside),
        }
    }

    /// What the mouse over a window asks for.
    pub open spec fn hover_step(self, pointed: Option<u32>) -> HoverStep {
        match pointed {
            Some(wid) => if self.tiling.focused_window == Some(wid) {
                HoverStep::Nothing
            } else {
                match self.config.focus_follows_mouse {
                    FfmMode::Disabled => HoverStep::Nothing,
                    FfmMode::Autofocus => HoverStep::Focus(wid),
                    FfmMode::Autoraise => HoverStep::FocusAndRaise(wid),
                }
            },
            None => HoverStep::Nothing,
        }
    }
}

impl AppState {
    /// Begin a drag of a window.
    pub fn begin_drag(&self, window_id: u32, tiled: bool, handle: u8, first_button: bool) -> (r:
        DragState)
        ensures
            r == (DragState {
                window_id,
                action: if first_button {
                    self@.config.mouse_action1
                } else {
                    self@.config.mouse_action2
                },
                handle,
                tiled,
            }),
    {
        DragState { window_id, action: self.mouse_action(first_button), handle, tiled }
    }

    /// The windows with a space that float, by ascending id.
    pub fn floating_windows(&self) -> (r: Vec<u32>)
        requires
            self.wf(),
        ensures
            r@ == idmap::ids_of(self@.tiling.window_spaces.dom()).filter(self@.floats()),
    {
        let ghost keep = self@.floats();
        let ids = self.all_window_ids();
        let mut out: Vec<u32> = Vec::new();
        let mut i: usize = 0;
        proof {
            reveal(Seq::filter);
            assert(ids@.take(0).filter(keep) =~= Seq::<u32>::empty());
        }
        while i < ids.len()
            invariant
                self.wf(),
                i <= ids@.len(),
                keep == self@.floats(),
                out@ == ids@.take(i as int).filter(keep),
            decreases ids.len() - i,
        {
            proof {
                rules::lemma_filter_step(ids@, i as int, keep);
            }
            if self.is_floating(ids[i]) {
                out.push(ids[i]);
            }
            i += 1;
        }
        assert(ids@.take(ids@.len() as int) =~= ids@);
        out
    }

    /// The window that a drag takes hold of, and whether it is tiled: a floating
    /// one under the cursor, or else the one whose tile is there.
    pub fn window_to_drag(
        &self,
        floating_hit: Option<u32>,
        display: Option<u32>,
        inside: &Vec<u32>,
    ) -> (r: Option<(u32, bool)>)
        requires
            self.wf(),
        ensures
            r == (match floating_hit {
                Some(wid) => Some((wid, false)),
                None => match self@.window_under(display, inside@) {
                    Some(wid) => Some((wid, true)),
                    None => None,
                },
            }),
    {
        match floating_hit {
            Some(wid) => Some((wid, false)),
            None => match self.managed_window_at_point(display, inside) {
                Some(wid) => Some((wid, true)),
                None => None,
            },
        }
    }

    /// Take in the result of a drop.
    pub fn finish_drop(&mut self, window_id: u32, result: DropResult)
        requires
            old(self).wf(),
        ensures
            final(self).wf(),
            final(self)@ == old(self)@.after_dropped(window_id, result),
    {
        match result {
            DropResult::Ignored => {},
            _ => self.set_focused_window(Some(window_id)),
        }
    }

    /// The window that the mouse points at. `topmost` is the topmost window on
    /// screen under the cursor.
    pub fn ffm_window_at_point(
        &self,
        topmost: Option<u32>,
        display: Option<u32>,
        inside: &Vec<u32>,
    ) -> (r: Option<u32>)
        requires
            self.wf(),
        ensures
            r == self@.pointed_at(topmost, display, inside@),
    {
        match topmost {
            Some(wid) => if self.window_known_space_id(wid).is_some() {
                Some(wid)
            } else {
                None
            },
            None => self.managed_window_at_point(display, inside),
        }
    }

    /// What the mouse over a window asks for.
    pub fn next_hover_step(&self, pointed: Option<u32>) -> (r: HoverStep)
        requires
            self.wf(),
        ensures
            r == self@.hover_step(pointed),
    {
        match pointed {
            Some(wid) => {
                let focused = match self.focused_window_id() {
                    Some(focused) => focused == wid,
                    None => false,
                };
                if focused {
                    HoverStep::Nothing
                } else {
                    match self.focus_mode() {
                        FfmMode::Disabled => HoverStep::Nothing,
                        FfmMode::Autofocus => HoverStep::Focus(wid),
                        FfmMode::Autoraise => HoverStep::FocusAndRaise(wid),
                    }
                }
            },
            None => HoverStep::Nothing,
        }
    }
}

/// Each modifier key has its own bits.
pub proof fn law_modifier_bits(bits: ModifierBits)
    ensures
        modifier_bits(MouseModifier::Alt, bits) == bits.alt,
        modifier_bits(MouseModifier::Shift, bits) == bits.shift,
        modifier_bits(MouseModifier::Cmd, bits) == bits.cmd,
        modifier_bits(MouseModifier::Ctrl, bits) == bits.ctrl,
        modifier_bits(MouseModifier::Fn, bits) == bits.func,
{
}

/// The handle of a point has the edges on whose side it lies, two at a corner and none
/// in the middle.
pub proof fn law_handle_of_a_point(bits: HandleBits)
    ensures
        handle_bits(Side::Middle, Side::Middle, bits) == 0,
        handle_bits(Side::Before, Side::Middle, bits) == bits.left,
        handle_bits(Side::Behind, Side::Middle, bits) == bits.right,
        handle_bits(Side::Middle, Side::Before, bits) == bits.top,
        handle_bits(Side::Middle, Side::Behind, bits) == bits.bottom,
        handle_bits(Side::Before, Side::Before, bits) == bits.left | bits.top,
        handle_bits(Side::Before, Side::Behind, bits) == bits.left | bits.bottom,
        handle_bits(Side::Behind, Side::Before, bits) == bits.right | bits.top,
        handle_bits(Side::Behind, Side::Behind, bits) == bits.right | bits.bottom,
{
    let HandleBits { left, right, top, bottom } = bits;
    assert(0u8 | 0u8 == 0u8) by (bit_vector);
    assert(left | 0u8 == left) by (bit_vector);
    assert(right | 0u8 == right) by (bit_vector);
    assert(0u8 | top == top) by (bit_vector);
    assert(0u8 | bottom == bottom) by (bit_vector);
}

/// A drag moves or resizes the window it holds, as its button says: a tiled window by
/// its tile, another by its frame. Without a drag nothing happens.
pub proof fn law_drag_steps(d: DragState)
    ensures
        drag_step(None) == DragStep::Nothing,
        d.action == MouseAction::Move ==> drag_step(Some(d)) == (DragStep::Move {
            window_id: d.window_id,
        }),
        d.action == MouseAction::Resize && d.tiled ==> drag_step(Some(d))
            == (DragStep::ResizeTile { window_id: d.window_id, handle: d.handle }),
        d.action == MouseAction::Resize && !d.tiled ==> drag_step(Some(d))
            == (DragStep::ResizeFrame { window_id: d.window_id, handle: d.handle }),
{
}

/// A drop across spaces sends the dragged window to its new space, and then the one it
/// traded places with, if any; no other drop sends a window anywhere.
pub proof fn law_drops_send_windows(result: DropResult, dragged: u32, to: u64, other: u32, back: u64)
    ensures
        result == (DropResult::CrossSpace {
            dragged_id: dragged,
            dragged_new_sid: to,
            swapped_id: Some(other),
            swapped_new_sid: Some(back),
        }) ==> sent_by(result) == seq![(dragged, to), (other, back)],
        result == (DropResult::CrossSpace {
            dragged_id: dragged,
            dragged_new_sid: to,
            swapped_id: None,
            swapped_new_sid: None,
        }) ==> sent_by(result) == seq![(dragged, to)],
        !(result is CrossSpace) ==> sent_by(result) == Seq::<(u32, u64)>::empty(),
{
}

/// A window that was dropped has the focus, unless the drop was ignored; nothing else
/// changes.
pub proof fn law_dropped_window_has_the_focus(s: State, window_id: u32, result: DropResult)
    ensures
        result == DropResult::Ignored ==> s.after_dropped(window_id, result) == s,
        result != DropResult::Ignored ==> {
            let t = s.after_dropped(window_id, result);
            &&& t.tiling.focused_window == Some(window_id)
            &&& t.tiling.spaces == s.tiling.spaces
            &&& t.tiling.ops == s.tiling.ops
            &&& t == (State { tiling: t.tiling, ..s })
        },
{
}

/// The mouse points at the topmost window if that is known to the daemon; a tile
/// counts only where no window is on top.
pub proof fn law_mouse_points_at_the_topmost(
    s: State,
    wid: u32,
    display: Option<u32>,
    inside: Seq<u32>,
)
    ensures
        s.known_space(wid) is Some ==> s.pointed_at(Some(wid), display, inside) == Some(wid),
        s.known_space(wid) is None ==> s.pointed_at(Some(wid), display, inside) is None,
        s.pointed_at(None, display, inside) == s.window_under(display, inside),
{
}

/// The focus follows the mouse as configured: not at all, with the focus alone, or with
/// the window raised; never to the window that has it.
pub proof fn law_hovering(s: State, wid: u32)
    ensures
        s.hover_step(None) == HoverStep::Nothing,
        s.tiling.focused_window == Some(wid) ==> s.hover_step(Some(wid)) == HoverStep::Nothing,
        s.config.focus_follows_mouse == FfmMode::Disabled ==> s.hover_step(Some(wid))
            == HoverStep::Nothing,
        s.tiling.focused_window != Some(wid) && s.config.focus_follows_mouse == FfmMode::Autofocus
            ==> s.hover_step(Some(wid)) == HoverStep::Focus(wid),
        s.tiling.focused_window != Some(wid) && s.config.focus_follows_mouse == FfmMode::Autoraise
            ==> s.hover_step(Some(wid)) == HoverStep::FocusAndRaise(wid),
{
}

/// A drag that ends drops the window it moved if that is tiled, and none otherwise.
pub proof fn law_dropped_windows(drag: Option<DragState>, d: DragState, r: Option<u32>)
    requires
        call_ensures(dropped_window, (drag,), r),
    ensures
        drag is None ==> r is None,
        drag == Some(d) && d.tiled && d.action == MouseAction::Move ==> r == Some(d.window_id),
        drag == Some(d) && (!d.tiled || d.action == MouseAction::Resize) ==> r is None,
{
}

/// A drag holds the window it began with, and does what its button is set to do.
pub proof fn law_drags_begin(
    state: &AppState,
    window_id: u32,
    tiled: bool,
    handle: u8,
    first_button: bool,
    r: DragState,
)
    requires
        call_ensures(AppState::begin_drag, (state, window_id, tiled, handle, first_button), r),
    ensures
        r.window_id == window_id,
        r.tiled == tiled,
        r.handle == handle,
        first_button ==> r.action == state@.config.mouse_action1,
        !first_button ==> r.action == state@.config.mouse_action2,
{
}

} // verus!
