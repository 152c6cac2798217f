//! Reading reported layouts: where windows are placed, which window lies under
//! the cursor, and what dropping a dragged window does.
use vstd::prelude::*;

use crate::idmap;
use crate::selectors;
use crate::state::{AppState, State, WindowFrame};
use crate::tiling;
use crate::tiling::LayoutOp;
use crate::types::{Area, Child, Direction, MouseDropAction, NodeSplit, Real, ZoomKind};

verus! {

/// Where a window is to be placed.
#[derive(Debug)]
pub struct Placement {
    pub window_id: u32,
    pub area: Area,
}

/// What places windows on screen.
pub trait LayoutSink: Sized {
    /// What was placed so far.
    spec fn placed(&self) -> Seq<Placement>;

    /// Place a window.
    fn move_window(&mut self, frame: Placement)
        ensures
            final(self).placed() == old(self).placed().push(frame),
    ;
}

/// A sink that records every placement.
#[derive(Debug)]
pub struct RecordingSink {
    pub moves: Vec<Placement>,
}

impl RecordingSink {
    pub fn new() -> (r: Self)
        ensures
            r.placed() == Seq::<Placement>::empty(),
    {
        RecordingSink { moves: Vec::new() }
    }
}

impl LayoutSink for RecordingSink {
    open spec fn placed(&self) -> Seq<Placement> {
        self.moves@
    }

    fn move_window(&mut self, frame: Placement) {
        self.moves.push(frame);
    }
}

/// What came of dropping a dragged window.
#[derive(Debug, Clone, Copy, PartialEq, Eq, Structural)]
pub enum DropResult {
    /// The drop was invalid or ignored.
    Ignored,
    /// The drop succeeded within the same space.
    SameSpace,
    /// The drop moved one or two windows to another space.
    CrossSpace {
        dragged_id: u32,
        dragged_new_sid: u64,
        swapped_id: Option<u32>,
        swapped_new_sid: Option<u64>,
    },
}

/// Where on the target window a drop falls: on its centre, and on which of the
/// four triangles between its centre and its edges.
#[derive(Debug, Clone, Copy, PartialEq, Eq, Structural)]
pub struct DropZone {
    pub center: bool,
    pub edge: Option<Direction>,
}

/// A drop that is done, or one that the layout engine has to carry out.
#[derive(Debug)]
pub enum DropPlan {
    Done(DropResult),
    Ask(LayoutOp),
}

/// The placements of a reported layout.
pub open spec fn placements(frames: Seq<WindowFrame>) -> Seq<Placement> {
    frames.map_values(|f: WindowFrame| Placement { window_id: f.window_id, area: f.area })
}

/// The split and the child that an edge drop makes room with.
pub open spec fn edge_split(edge: Direction) -> (NodeSplit, Child) {
    match edge {
        Direction::North => (NodeSplit::Horizontal, Child::First),
        Direction::East => (NodeSplit::Vertical, Child::Second),
        Direction::South => (NodeSplit::Horizontal, Child::Second),
        Direction::West => (NodeSplit::Vertical, Child::First),
    }
}

impl State {
    /// The reported frame of a tiled window.
    pub open spec fn frame_of(self, window_id: u32) -> Option<WindowFrame> {
        match self.tiling.space_of(window_id) {
            Some(sid) => match selectors::frame_index(self.frames_of(sid)->0, window_id) {
                Some(i) => Some(self.frames_of(sid)->0[i]),
                None => None,
            },
            None => None,
        }
    }

    /// Whether a reported window counts for a search.
    pub open spec fn is_hit(
        self,
        sid: u64,
        window_id: u32,
        inside: Seq<u32>,
        except: Option<u32>,
    ) -> bool {
        inside.contains(window_id) && except != Some(window_id) && self.tiling.tiles(sid, window_id)
    }

    /// The first of the reported frames that counts.
    pub open spec fn first_hit(
        self,
        sid: u64,
        frames: Seq<WindowFrame>,
        inside: Seq<u32>,
        except: Option<u32>,
    ) -> Option<u32>
        decreases frames.len(),
    {
        if frames.len() == 0 {
            None
        } else {
            match self.first_hit(sid, frames.drop_last(), inside, except) {
                Some(w) => Some(w),
                None => if self.is_hit(sid, frames.last().window_id, inside, except) {
                    Some(frames.last().window_id)
                } else {
                    None
                },
            }
        }
    }

    /// The first window of a space's layout that is among those under a point.
    pub open spec fn under(self, sid: u64, inside: Seq<u32>, except: Option<u32>) -> Option<u32> {
        match self.frames_of(sid) {
            Some(frames) => self.first_hit(sid, frames, inside, except),
            None => None,
        }
    }

    /// The first window under a point on the first `k` of the listed spaces.
    pub open spec fn under_any(self, ids: Seq<u64>, k: int, inside: Seq<u32>) -> Option<u32>
        decreases k,
    {
        if k <= 0 {
            None
        } else {
            match self.under_any(ids, k - 1, inside) {
                Some(w) => Some(w),
                None => self.under(ids[k - 1], inside, None),
            }
        }
    }

    /// The managed window under a point. The space shown on the display under
    /// the point, or else the active one, comes first.
    pub open spec fn window_under(self, display: Option<u32>, inside: Seq<u32>) -> Option<u32> {
        let first = match display {
            Some(did) => match self.topology.shown_on(did) {
                Some(sid) => self.under(sid, inside, None),
                None => match self.tiling.active_space {
                    Some(sid) => self.under(sid, inside, None),
                    None => None,
                },
            },
            None => None,
        };
        match first {
            Some(w) => Some(w),
            None => {
                let ids = idmap::ids_of(self.tiling.spaces.dom());
                self.under_any(ids, ids.len() as int, inside)
            },
        }
    }

    /// The space shown on the display under a point.
    pub open spec fn space_under(self, display: Option<u32>) -> Option<u64> {
        match display {
            Some(did) => self.topology.shown_on(did),
            None => None,
        }
    }

    /// The state after the dragged window, and on a swap the target too, changed
    /// spaces.
    pub open spec fn after_cross_drop(
        self,
        window_id: u32,
        src: u64,
        dst: u64,
        swapped: Option<u32>,
    ) -> State {
        let moved = self.tiling.relocated(window_id, dst);
        State {
            tiling: match swapped {
                Some(w) => moved.relocated(w, src),
                None => moved,
            },
            ..self
        }
    }

    /// What a drop within one space asks of the layout engine. Only a window
    /// that has its node for itself is swapped or stacked; any other drop splits
    /// the target's node on the side of the edge.
    pub open spec fn same_space_drop(
        self,
        sid: u64,
        window_id: u32,
        target: Option<u32>,
        zone: DropZone,
        action: MouseDropAction,
    ) -> DropPlan {
        match (self.frame_of(window_id), target) {
            (Some(frame), Some(other)) => if frame.node_windows@.len() == 1 && zone.center {
                match action {
                    MouseDropAction::Swap => DropPlan::Ask(
                        LayoutOp::Swap { sid, window_id, other },
                    ),
                    MouseDropAction::Stack => DropPlan::Ask(
                        LayoutOp::StackOnto { sid, window_id, other },
                    ),
                }
            } else {
                match zone.edge {
                    Some(edge) => DropPlan::Ask(
                        LayoutOp::WarpBeside {
                            sid,
                            window_id,
                            other,
                            split: edge_split(edge).0,
                            child: edge_split(edge).1,
                        },
                    ),
                    None => DropPlan::Done(DropResult::Ignored),
                }
            },
            _ => DropPlan::Done(DropResult::Ignored),
        }
    }

    /// A dragged window dropped on a display, over the windows listed. On another
    /// space only a swap at the centre of a window trades places.
    pub open spec fn after_drop(
        self,
        window_id: u32,
        display: Option<u32>,
        inside: Seq<u32>,
        zone: DropZone,
        action: MouseDropAction,
    ) -> (State, DropPlan) {
        match (self.tiling.space_of(window_id), self.space_under(display)) {
            (Some(src), Some(dst)) => {
                let target = self.under(dst, inside, Some(window_id));
                if src != dst && !self.tiling.spaces.dom().contains(dst) {
                    (self, DropPlan::Done(DropResult::Ignored))
                } else if src != dst {
                    let swapped = if action == MouseDropAction::Swap && zone.center {
                        target
                    } else {
                        None
                    };
                    (
                        self.after_cross_drop(window_id, src, dst, swapped),
                        DropPlan::Done(
                            DropResult::CrossSpace {
                                dragged_id: window_id,
                                dragged_new_sid: dst,
                                swapped_id: swapped,
                                swapped_new_sid: if swapped is Some {
                                    Some(src)
                                } else {
                                    None
                                },
                            },
                        ),
                    )
                } else {
                    (self, self.same_space_drop(src, window_id, target, zone, action))
                }
            },
            _ => (self, DropPlan::Done(DropResult::Ignored)),
        }
    }

    /// The placements on the spaces that the first `k` displays show.
    pub open spec fn shown_placements(self, displays: Seq<u32>, k: int) -> Seq<Placement>
        decreases k,
    {
        if k <= 0 {
            Seq::empty()
        } else {
            let earlier = self.shown_placements(displays, k - 1);
            match self.topology.shown_on(displays[k - 1]) {
                Some(sid) => match self.frames_of(sid) {
                    Some(frames) => earlier + placements(frames),
                    None => earlier,
                },
                None => earlier,
            }
        }
    }

    /// The placements on the active space.
    pub open spec fn active_placements(self) -> Seq<Placement> {
        match self.tiling.active_space {
            Some(sid) => match self.frames_of(sid) {
                Some(frames) => placements(frames),
                None => Seq::empty(),
            },
            None => Seq::empty(),
        }
    }

    /// The placements on every display; without known displays, those on the
    /// active space.
    pub open spec fn all_placements(self) -> Seq<Placement> {
        let displays = idmap::ids_of(self.topology.display_active_space.dom());
        if self.topology.display_active_space.dom() == Set::<u32>::empty() {
            self.active_placements()
        } else {
            self.shown_placements(displays, displays.len() as int)
        }
    }

    /// The split above a window, and whether the window is its first child.
    pub open spec fn split_of(self, window_id: u32) -> Option<(NodeSplit, bool)> {
        match self.frame_of(window_id) {
            Some(frame) => match frame.parent {
                Some((split, is_left)) => Some((split, is_left)),
                None => Some((NodeSplit::Unsplit, false)),
            },
            None => None,
        }
    }

    /// The one-based place of a window in its stack, or zero outside a stack.
    pub open spec fn stack_index(self, window_id: u32) -> nat {
        match self.frame_of(window_id) {
            Some(frame) => if frame.node_windows@.len() > 1 && frame.node_windows@.contains(
                window_id,
            ) {
                (frame.node_windows@.index_of_first(window_id)->0 + 1) as nat
            } else {
                0
            },
            None => 0,
        }
    }

    /// How a window is zoomed on the space that tiles it.
    pub open spec fn zoom_of(self, window_id: u32) -> Option<ZoomKind> {
        match self.tiling.space_of(window_id) {
            Some(sid) => if self.captures.dom().contains(sid) {
                match self.captures[sid].zoomed {
                    Some((zoomed, kind)) if zoomed == window_id => Some(kind),
                    _ => None,
                }
            } else {
                None
            },
            None => None,
        }
    }
}

fn push_placements(out: &mut Vec<Placement>, frames: &Vec<WindowFrame>)
    ensures
        final(out)@ == old(out)@ + placements(frames@),
{
    let ghost pre = out@;
    let mut i: usize = 0;
    while i < frames.len()
        invariant
            i <= frames@.len(),
            out@ == pre + placements(frames@).take(i as int),
        decreases frames.len() - i,
    {
        out.push(Placement { window_id: frames[i].window_id, area: frames[i].area.copy() });
        i += 1;
    }
}

fn send_all<S: LayoutSink>(frames: Vec<Placement>, sink: &mut S) -> (r: usize)
    ensures
        r == frames@.len(),
        final(sink).placed() == old(sink).placed() + frames@,
{
    let ghost pre = sink.placed();
    let mut i: usize = 0;
    while i < frames.len()
        invariant
            i <= frames@.len(),
            sink.placed() == pre + frames@.take(i as int),
        decreases frames.len() - i,
    {
        sink.move_window(
            Placement { window_id: frames[i].window_id, area: frames[i].area.copy() },
        );
        assert(frames@.take(i + 1) =~= frames@.take(i as int).push(frames@[i as int]));
        i += 1;
    }
    assert(frames@.take(frames@.len() as int) =~= frames@);
    i
}

/// The result of a drop that the layout engine carried out or refused.
pub fn settle_drop(accepted: bool) -> (r: DropResult)
    ensures
        r == (if accepted {
            DropResult::SameSpace
        } else {
            DropResult::Ignored
        }),
{
    if accepted {
        DropResult::SameSpace
    } else {
        DropResult::Ignored
    }
}

impl AppState {
    /// The reported frame of a tiled window.
    pub fn window_frame(&self, window_id: u32) -> (r: Option<&WindowFrame>)
        requires
            self.wf(),
        ensures
            match r {
                Some(frame) => self@.frame_of(window_id) == Some(*frame),
                None => self@.frame_of(window_id) is None,
            },
    {
        match self.window_space_id(window_id) {
            Some(sid) => match self.capture(sid) {
                Some(capture) => match selectors::find_frame(&capture.frames, window_id) {
                    Some(i) => Some(&capture.frames[i]),
                    None => None,
                },
                None => None,
            },
            None => None,
        }
    }

    /// The reported area of a tiled window.
    pub fn window_area(&self, window_id: u32) -> (r: Option<Area>)
        requires
            self.wf(),
        ensures
            r == (match self@.frame_of(window_id) {
                Some(frame) => Some(frame.area),
                None => None,
            }),
    {
        match self.window_frame(window_id) {
            Some(frame) => Some(frame.area.copy()),
            None => None,
        }
    }

    /// Where the windows of a space are to be placed.
    pub fn flush(&self, sid: u64) -> (r: Option<Vec<Placement>>)
        requires
            self.wf(),
        ensures
            match self@.frames_of(sid) {
                Some(frames) => r is Some && r->0@ == placements(frames),
                None => r is None,
            },
    {
        if self.space(sid).is_none() {
            return None;
        }
        let mut out: Vec<Placement> = Vec::new();
        if let Some(capture) = self.capture(sid) {
            push_placements(&mut out, &capture.frames);
        }
        Some(out)
    }

    /// Where the windows of the active space are to be placed.
    pub fn flush_active(&self) -> (r: Option<Vec<Placement>>)
        requires
            self.wf(),
        ensures
            match self@.tiling.active_space {
                Some(sid) => match self@.frames_of(sid) {
                    Some(frames) => r is Some && r->0@ == placements(frames),
                    None => r is None,
                },
                None => r is None,
            },
    {
        match self.active_space_id() {
            Some(sid) => self.flush(sid),
            None => None,
        }
    }

    /// Place the windows of the active space; the number of windows is returned.
    pub fn flush_active_to<S: LayoutSink>(&self, sink: &mut S) -> (r: usize)
        requires
            self.wf(),
        ensures
            final(sink).placed() == old(sink).placed() + self@.active_placements(),
            r == self@.active_placements().len(),
    {
        match self.flush_active() {
            Some(frames) => send_all(frames, sink),
            None => {
                assert(sink.placed() + Seq::<Placement>::empty() =~= sink.placed());
                0
            },
        }
    }

    /// Where the windows of the spaces shown on all displays are to be placed.
    pub fn flush_all_active(&self) -> (r: Vec<Placement>)
        requires
            self.wf(),
        ensures
            r@ == self@.shown_placements(
                idmap::ids_of(self@.topology.display_active_space.dom()),
                idmap::ids_of(self@.topology.display_active_space.dom()).len() as int,
            ),
    {
        let displays = self.showing_displays();
        let mut out: Vec<Placement> = Vec::new();
        let mut i: usize = 0;
        while i < displays.len()
            invariant
                self.wf(),
                i <= displays@.len(),
                out@ == self@.shown_placements(displays@, i as int),
            decreases displays.len() - i,
        {
            if let Some(sid) = self.display_active_space_id(displays[i]) {
                if self.space(sid).is_some() {
                    match self.capture(sid) {
                        Some(capture) => push_placements(&mut out, &capture.frames),
                        None => {
                            assert(out@ + placements(Seq::empty()) =~= out@);
                        },
                    }
                }
            }
            i += 1;
        }
        out
    }

    /// Place the windows of the spaces shown on all displays. If no display is
    /// known to show a space, those of the active space are placed.
    pub fn flush_all_active_to<S: LayoutSink>(&self, sink: &mut S) -> (r: usize)
        requires
            self.wf(),
        ensures
            final(sink).placed() == old(sink).placed() + self@.all_placements(),
            r == self@.all_placements().len(),
    {
        let displays = self.showing_displays();
        if displays.len() == 0 {
            proof {
                assert forall|d: u32| !self@.topology.display_active_space.dom().contains(d) by {
                    if self@.topology.display_active_space.dom().contains(d) {
                        assert(displays@.contains(d));
                    }
                }
                assert(self@.topology.display_active_space.dom() =~= Set::<u32>::empty());
            }
            return self.flush_active_to(sink);
        }
        assert(displays@.contains(displays@[0]));
        send_all(self.flush_all_active(), sink)
    }

    fn first_under(&self, sid: u64, inside: &Vec<u32>, except: Option<u32>) -> (r: Option<u32>)
        requires
            self.wf(),
        ensures
            r == self@.under(sid, inside@, except),
            r is Some ==> self@.tiling.tiles(sid, r->0) && except != Some(r->0),
    {
        if self.space(sid).is_none() {
            return None;
        }
        let frames = match self.capture(sid) {
            Some(capture) => &capture.frames,
            None => {
                return None;
            },
        };
        let mut found: Option<u32> = None;
        let mut i: usize = 0;
        while i < frames.len()
            invariant
                self.wf(),
                i <= frames@.len(),
                found == self@.first_hit(sid, frames@.take(i as int), inside@, except),
                found is Some ==> self@.tiling.tiles(sid, found->0) && except != Some(found->0),
            decreases frames.len() - i,
        {
            proof {
                assert(frames@.take(i + 1).drop_last() =~= frames@.take(i as int));
            }
            if found.is_none() {
                let window_id = frames[i].window_id;
                let spared = match except {
                    Some(other) => other == window_id,
                    None => false,
                };
                let hit = match tiling::position(inside, window_id) {
                    Some(at) => {
                        assert(inside@.contains(inside@[at as int]));
                        true
                    },
                    None => false,
                };
                if hit && !spared && self.tiles(sid, window_id) {
                    found = Some(window_id);
                }
            }
            i += 1;
        }
        assert(frames@.take(frames@.len() as int) =~= frames@);
        found
    }

    /// The space shown on the display under a point.
    pub fn managed_space_at_point(&self, display: Option<u32>) -> (r: Option<u64>)
        requires
            self.wf(),
        ensures
            r == self@.space_under(display),
    {
        match display {
            Some(did) => self.display_active_space_id(did),
            None => None,
        }
    }

    /// The managed window under a point, which lies on `display` and in the
    /// frames of the windows `inside`.
    pub fn managed_window_at_point(&self, display: Option<u32>, inside: &Vec<u32>) -> (r: Option<
        u32,
    >)
        requires
            self.wf(),
        ensures
            r == self@.window_under(display, inside@),
    {
        if let Some(did) = display {
            let sid = match self.display_active_space_id(did) {
                Some(sid) => Some(sid),
                None => self.active_space_id(),
            };
            if let Some(sid) = sid {
                if let Some(window_id) = self.first_under(sid, inside, None) {
                    return Some(window_id);
                }
            }
        }
        let ids = self.space_ids();
        let mut found: Option<u32> = None;
        let mut i: usize = 0;
        while i < ids.len()
            invariant
                self.wf(),
                i <= ids@.len(),
                found == self@.under_any(ids@, i as int, inside@),
            decreases ids.len() - i,
        {
            if found.is_none() {
                found = self.first_under(ids[i], inside, None);
            }
            i += 1;
        }
        found
    }

    /// The window on which a dragged window is dropped.
    pub fn drop_target(&self, window_id: u32, display: Option<u32>, inside: &Vec<u32>) -> (r:
        Option<u32>)
        requires
            self.wf(),
        ensures
            r == (match self@.space_under(display) {
                Some(dst) => self@.under(dst, inside@, Some(window_id)),
                None => None,
            }),
    {
        match self.managed_space_at_point(display) {
            Some(dst) => self.first_under(dst, inside, Some(window_id)),
            None => None,
        }
    }

    fn plan_same_space(
        &self,
        sid: u64,
        window_id: u32,
        target: Option<u32>,
        zone: DropZone,
        action: MouseDropAction,
    ) -> (r: DropPlan)
        requires
            self.wf(),
        ensures
            r == self@.same_space_drop(sid, window_id, target, zone, action),
    {
        let frame = match self.window_frame(window_id) {
            Some(frame) => frame,
            None => {
                return DropPlan::Done(DropResult::Ignored);
            },
        };
        let other = match target {
            Some(other) => other,
            None => {
                return DropPlan::Done(DropResult::Ignored);
            },
        };
        if frame.node_windows.len() == 1 && zone.center {
            return match action {
                MouseDropAction::Swap => DropPlan::Ask(LayoutOp::Swap { sid, window_id, other }),
                MouseDropAction::Stack => DropPlan::Ask(
                    LayoutOp::StackOnto { sid, window_id, other },
                ),
            };
        }
        let (split, child) = match zone.edge {
            Some(Direction::North) => (NodeSplit::Horizontal, Child::First),
            Some(Direction::East) => (NodeSplit::Vertical, Child::Second),
            Some(Direction::South) => (NodeSplit::Horizontal, Child::Second),
            Some(Direction::West) => (NodeSplit::Vertical, Child::First),
            None => {
                return DropPlan::Done(DropResult::Ignored);
            },
        };
        DropPlan::Ask(LayoutOp::WarpBeside { sid, window_id, other, split, child })
    }

    /// Drop a dragged window at a point, which lies on `display` and in the
    /// frames of the windows `inside`. A drop on another space moves the window
    /// there; a swap at the centre of a window moves that one back. A drop on a
    /// space without a layout is ignored. A drop on the same space is planned for
    /// the layout engine.
    pub fn drop_tiled_window_at_point(
        &mut self,
        window_id: u32,
        display: Option<u32>,
        inside: &Vec<u32>,
        zone: DropZone,
        action: MouseDropAction,
    ) -> (r: DropPlan)
        requires
            old(self).wf(),
        ensures
            final(self).wf(),
            final(self)@ == old(self)@.after_drop(window_id, display, inside@, zone, action).0,
            r == old(self)@.after_drop(window_id, display, inside@, zone, action).1,
    {
        let src = match self.window_space_id(window_id) {
            Some(src) => src,
            None => {
                return DropPlan::Done(DropResult::Ignored);
            },
        };
        let dst = match self.managed_space_at_point(display) {
            Some(dst) => dst,
            None => {
                return DropPlan::Done(DropResult::Ignored);
            },
        };
        let target = self.first_under(dst, inside, Some(window_id));
        if src == dst {
            return self.plan_same_space(src, window_id, target, zone, action);
        }
        if self.space(dst).is_none() {
            return DropPlan::Done(DropResult::Ignored);
        }
        let ghost pre = self@;
        proof {
            self.lemma_wf();
            pre.tiling.lemma_relocated(window_id, dst);
        }
        self.reassign_window_to_space(window_id, dst);
        let mut swapped: Option<u32> = None;
        if action == MouseDropAction::Swap && zone.center {
            if let Some(other) = target {
                proof {
                    assert(self@.tiling.tiles(dst, other));
                }
                self.reassign_window_to_space(other, src);
                swapped = Some(other);
            }
        }
        DropPlan::Done(
            DropResult::CrossSpace {
                dragged_id: window_id,
                dragged_new_sid: dst,
                swapped_id: swapped,
                swapped_new_sid: if swapped.is_some() {
                    Some(src)
                } else {
                    None
                },
            },
        )
    }

    /// The resize that a mouse drag asks of the layout engine, if the window is
    /// tiled.
    pub fn resize_tiled_window(&self, window_id: u32, handle: u8, dx: Real, dy: Real) -> (r: Option<
        LayoutOp,
    >)
        requires
            self.wf(),
        ensures
            r == (match self@.tiling.space_of(window_id) {
                Some(sid) => Some(LayoutOp::Resize { sid, window_id, handle, dw: dx, dh: dy }),
                None => None,
            }),
    {
        match self.window_space_id(window_id) {
            Some(sid) => Some(LayoutOp::Resize { sid, window_id, handle, dw: dx, dh: dy }),
            None => None,
        }
    }

    /// The split above a window, and whether the window is its first child.
    pub fn window_split(&self, window_id: u32) -> (r: Option<(NodeSplit, bool)>)
        requires
            self.wf(),
        ensures
            r == self@.split_of(window_id),
    {
        match self.window_frame(window_id) {
            Some(frame) => match frame.parent {
                Some((split, is_left)) => Some((split, is_left)),
                None => Some((NodeSplit::Unsplit, false)),
            },
            None => None,
        }
    }

    /// The one-based place of a window in its stack, or zero outside a stack.
    pub fn window_stack_index(&self, window_id: u32) -> (r: usize)
        requires
            self.wf(),
        ensures
            r == self@.stack_index(window_id),
    {
        match self.window_frame(window_id) {
            Some(frame) => if frame.node_windows.len() > 1 {
                match tiling::position(&frame.node_windows, window_id) {
                    Some(i) => {
                        proof {
                            let s = frame.node_windows@;
                            assert(s.contains(s[i as int]));
                            s.index_of_first_ensures(window_id);
                        }
                        i + 1
                    },
                    None => 0,
                }
            } else {
                0
            },
            None => 0,
        }
    }

    /// How a window is zoomed.
    pub fn window_zoom(&self, window_id: u32) -> (r: Option<ZoomKind>)
        requires
            self.wf(),
        ensures
            r == self@.zoom_of(window_id),
    {
        match self.window_space_id(window_id) {
            Some(sid) => match self.capture(sid) {
                Some(capture) => match capture.zoomed {
                    Some((zoomed, kind)) => if zoomed == window_id {
                        Some(kind)
                    } else {
                        None
                    },
                    None => None,
                },
                None => None,
            },
            None => None,
        }
    }
}

/// A drop on another space puts the dragged window there, and a swapped window
/// where the dragged one was; every other window stays.
pub proof fn law_cross_drop_trades_places(
    s: State,
    window_id: u32,
    src: u64,
    dst: u64,
    swapped: Option<u32>,
    other: u32,
    sid: u64,
)
    requires
        s.tiling.wf(),
        s.tiling.tiles(src, window_id),
        s.tiling.spaces.dom().contains(dst),
        swapped is Some ==> swapped->0 != window_id && s.tiling.tiles(dst, swapped->0),
    ensures
        s.after_cross_drop(window_id, src, dst, swapped).tiling.tiles(dst, window_id),
        swapped is Some ==> s.after_cross_drop(window_id, src, dst, swapped).tiling.tiles(
            src,
            swapped->0,
        ),
        other != window_id && swapped != Some(other) ==> s.after_cross_drop(
            window_id,
            src,
            dst,
            swapped,
        ).tiling.tiles(sid, other) == s.tiling.tiles(sid, other),
{
    s.tiling.lemma_relocated(window_id, dst);
    let moved = s.tiling.relocated(window_id, dst);
    assert(moved.tiles(sid, other) == s.tiling.tiles(sid, other) || other == window_id);
    match swapped {
        Some(w) => {
            assert(moved.tiles(dst, w));
            moved.lemma_relocated(w, src);
            assert(moved.relocated(w, src).tiles(sid, other) == moved.tiles(sid, other) || other
                == w);
            assert(moved.relocated(w, src).tiles(dst, window_id) == moved.tiles(dst, window_id));
        },
        None => {},
    }
}

/// A drop off the centre of a window on another space moves the dragged window
/// there and no other one.
pub proof fn law_edge_drop_moves_one_window(
    s: State,
    window_id: u32,
    display: Option<u32>,
    inside: Seq<u32>,
    zone: DropZone,
    action: MouseDropAction,
    other: u32,
    sid: u64,
)
    requires
        s.tiling.wf(),
        s.tiling.is_tiled(window_id),
        s.space_under(display) is Some,
        s.tiling.spaces.dom().contains(s.space_under(display)->0),
        !s.tiling.tiles(s.space_under(display)->0, window_id),
        !zone.center,
    ensures
        s.after_drop(window_id, display, inside, zone, action).1 == DropPlan::Done(
            DropResult::CrossSpace {
                dragged_id: window_id,
                dragged_new_sid: s.space_under(display)->0,
                swapped_id: None,
                swapped_new_sid: None,
            },
        ),
        s.after_drop(window_id, display, inside, zone, action).0.tiling.tiles(
            s.space_under(display)->0,
            window_id,
        ),
        other != window_id ==> s.after_drop(
            window_id,
            display,
            inside,
            zone,
            action,
        ).0.tiling.tiles(sid, other) == s.tiling.tiles(sid, other),
{
    let dst = s.space_under(display)->0;
    let src = s.tiling.space_of(window_id)->0;
    assert(s.tiling.tiles(src, window_id));
    s.tiling.lemma_relocated(window_id, dst);
    let moved = s.tiling.relocated(window_id, dst);
    assert(moved.tiles(sid, other) == s.tiling.tiles(sid, other) || other == window_id);
}

proof fn lemma_first_hit(
    s: State,
    sid: u64,
    frames: Seq<WindowFrame>,
    inside: Seq<u32>,
    except: Option<u32>,
    k: int,
)
    requires
        0 <= k < frames.len(),
        s.is_hit(sid, frames[k].window_id, inside, except),
        forall|j: int|
            0 <= j < k ==> !s.is_hit(sid, (#[trigger] frames[j]).window_id, inside, except),
    ensures
        s.first_hit(sid, frames, inside, except) == Some(frames[k].window_id),
    decreases frames.len(),
{
    let front = frames.drop_last();
    assert(forall|j: int| 0 <= j < front.len() ==> #[trigger] front[j] == frames[j]);
    if k == frames.len() - 1 {
        lemma_no_hit(s, sid, front, inside, except);
    } else {
        lemma_first_hit(s, sid, front, inside, except, k);
    }
}

proof fn lemma_no_hit(
    s: State,
    sid: u64,
    frames: Seq<WindowFrame>,
    inside: Seq<u32>,
    except: Option<u32>,
)
    requires
        forall|j: int|
            0 <= j < frames.len() ==> !s.is_hit(
                sid,
                (#[trigger] frames[j]).window_id,
                inside,
                except,
            ),
    ensures
        s.first_hit(sid, frames, inside, except) is None,
    decreases frames.len(),
{
    if frames.len() > 0 {
        let front = frames.drop_last();
        assert(forall|j: int| 0 <= j < front.len() ==> #[trigger] front[j] == frames[j]);
        lemma_no_hit(s, sid, front, inside, except);
    }
}

/// A window dropped on another one of its own space. Alone in its node and on the
/// centre, a swap asks for the two to trade places, and a stack for the window to
/// join the other's node. Any other drop asks for the other's node to be split, and
/// the window put on the side of the edge it was dropped on; off every edge nothing
/// happens. The state itself does not change.
pub proof fn law_drop_within_a_space(
    s: State,
    did: u32,
    sid: u64,
    window_id: u32,
    other: u32,
    inside: Seq<u32>,
    zone: DropZone,
    action: MouseDropAction,
    i: int,
    k: int,
)
    requires
        s.tiling.wf(),
        s.topology.display_active_space.dom().contains(did),
        s.topology.display_active_space[did] == sid,
        s.tiling.spaces.dom().contains(sid),
        s.tiling.spaces[sid].windows.contains(window_id),
        s.tiling.spaces[sid].windows.contains(other),
        window_id != other,
        inside.contains(other),
        s.captures.dom().contains(sid),
        0 <= i < s.captures[sid].frames@.len(),
        s.captures[sid].frames@[i].window_id == window_id,
        forall|j: int|
            0 <= j < i ==> (#[trigger] s.captures[sid].frames@[j]).window_id != window_id,
        0 <= k < s.captures[sid].frames@.len(),
        s.captures[sid].frames@[k].window_id == other,
        forall|j: int|
            0 <= j < k ==> !inside.contains((#[trigger] s.captures[sid].frames@[j]).window_id)
                || s.captures[sid].frames@[j].window_id == window_id
                || !s.tiling.spaces[sid].windows.contains(s.captures[sid].frames@[j].window_id),
    ensures
        s.after_drop(window_id, Some(did), inside, zone, action).0 == s,
        ({
            let alone = s.captures[sid].frames@[i].node_windows@.len() == 1;
            let plan = s.after_drop(window_id, Some(did), inside, zone, action).1;
            let on_side = |split: NodeSplit, child: Child| DropPlan::Ask(
                LayoutOp::WarpBeside { sid, window_id, other, split, child },
            );
            &&& alone && zone.center && action == MouseDropAction::Swap ==> plan == DropPlan::Ask(
                LayoutOp::Swap { sid, window_id, other },
            )
            &&& alone && zone.center && action == MouseDropAction::Stack ==> plan == DropPlan::Ask(
                LayoutOp::StackOnto { sid, window_id, other },
            )
            &&& !(alone && zone.center) ==> {
                &&& zone.edge == Some(Direction::North) ==> plan == on_side(
                    NodeSplit::Horizontal,
                    Child::First,
                )
                &&& zone.edge == Some(Direction::South) ==> plan == on_side(
                    NodeSplit::Horizontal,
                    Child::Second,
                )
                &&& zone.edge == Some(Direction::West) ==> plan == on_side(
                    NodeSplit::Vertical,
                    Child::First,
                )
                &&& zone.edge == Some(Direction::East) ==> plan == on_side(
                    NodeSplit::Vertical,
                    Child::Second,
                )
                &&& zone.edge is None ==> plan == DropPlan::Done(DropResult::Ignored)
            }
        }),
{
    let frames = s.captures[sid].frames@;
    assert(s.tiling.tiles(sid, window_id));
    assert(s.tiling.tiles(sid, other));
    s.tiling.lemma_space_of(sid, window_id);
    selectors::lemma_frame_index(frames, window_id, i);
    lemma_first_hit(s, sid, frames, inside, Some(window_id), k);
}

/// A swap and a stack of the same two windows are never the same plan.
pub proof fn law_drop_actions_differ(
    s: State,
    did: u32,
    sid: u64,
    window_id: u32,
    other: u32,
    inside: Seq<u32>,
    edge: Option<Direction>,
    i: int,
    k: int,
)
    requires
        s.tiling.wf(),
        s.topology.display_active_space.dom().contains(did),
        s.topology.display_active_space[did] == sid,
        s.tiling.spaces.dom().contains(sid),
        s.tiling.spaces[sid].windows.contains(window_id),
        s.tiling.spaces[sid].windows.contains(other),
        window_id != other,
        inside.contains(other),
        s.captures.dom().contains(sid),
        0 <= i < s.captures[sid].frames@.len(),
        s.captures[sid].frames@[i].window_id == window_id,
        s.captures[sid].frames@[i].node_windows@.len() == 1,
        forall|j: int|
            0 <= j < i ==> (#[trigger] s.captures[sid].frames@[j]).window_id != window_id,
        0 <= k < s.captures[sid].frames@.len(),
        s.captures[sid].frames@[k].window_id == other,
        forall|j: int|
            0 <= j < k ==> !inside.contains((#[trigger] s.captures[sid].frames@[j]).window_id)
                || s.captures[sid].frames@[j].window_id == window_id
                || !s.tiling.spaces[sid].windows.contains(s.captures[sid].frames@[j].window_id),
    ensures
        ({
            let zone = DropZone { center: true, edge };
            s.after_drop(window_id, Some(did), inside, zone, MouseDropAction::Swap).1
                != s.after_drop(window_id, Some(did), inside, zone, MouseDropAction::Stack).1
        }),
{
    let zone = DropZone { center: true, edge };
    let swap = MouseDropAction::Swap;
    let stack = MouseDropAction::Stack;
    law_drop_within_a_space(s, did, sid, window_id, other, inside, zone, swap, i, k);
    law_drop_within_a_space(s, did, sid, window_id, other, inside, zone, stack, i, k);
}

/// A drop is ignored, and changes nothing, where the window is not tiled, where no
/// display shows a space at the point, where the space shown has no layout, and
/// where no other window of the window's own space lies under it.
pub proof fn law_drop_on_nothing_is_ignored(
    s: State,
    display: Option<u32>,
    window_id: u32,
    inside: Seq<u32>,
    zone: DropZone,
    action: MouseDropAction,
)
    requires
        s.tiling.wf(),
        ({
            ||| forall|sid: u64| s.tiling.spaces.dom().contains(sid)
                ==> !(#[trigger] s.tiling.spaces[sid]).windows.contains(window_id)
            ||| display is None
            ||| !s.topology.display_active_space.dom().contains(display->0)
            ||| !s.tiling.spaces.dom().contains(s.topology.display_active_space[display->0])
            ||| ({
                let sid = s.topology.display_active_space[display->0];
                &&& s.tiling.spaces[sid].windows.contains(window_id)
                &&& forall|w: u32|
                    inside.contains(w) && s.tiling.spaces[sid].windows.contains(w) ==> w
                        == window_id
            })
        }),
    ensures
        s.after_drop(window_id, display, inside, zone, action) == (
            s,
            DropPlan::Done(DropResult::Ignored),
        ),
{
    if s.tiling.is_tiled(window_id) {
        let src = choose|sid: u64| s.tiling.tiles(sid, window_id);
        assert(s.tiling.tiles(src, window_id));
        assert(s.tiling.spaces[src].windows.contains(window_id));
        if display is Some && s.topology.display_active_space.dom().contains(display->0) {
            let sid = s.topology.display_active_space[display->0];
            if s.tiling.spaces.dom().contains(sid) {
                assert(s.tiling.tiles(sid, window_id));
                s.tiling.lemma_space_of(sid, window_id);
                let frames = s.frames_of(sid)->0;
                assert forall|j: int| 0 <= j < frames.len() implies !s.is_hit(
                    sid,
                    (#[trigger] frames[j]).window_id,
                    inside,
                    Some(window_id),
                ) by {}
                lemma_no_hit(s, sid, frames, inside, Some(window_id));
            } else {
                s.tiling.lemma_space_of(src, window_id);
            }
        }
    }
}

/// A window dropped on the centre of a window of another space, to swap with it:
/// each of the two is tiled where the other was, and both moves are reported. To
/// stack on it instead, only the dragged window moves.
pub proof fn law_centre_drop_across_spaces(
    s: State,
    did: u32,
    src: u64,
    dst: u64,
    window_id: u32,
    other: u32,
    inside: Seq<u32>,
    edge: Option<Direction>,
    k: int,
)
    requires
        s.tiling.wf(),
        s.topology.display_active_space.dom().contains(did),
        s.topology.display_active_space[did] == dst,
        src != dst,
        s.tiling.spaces.dom().contains(src),
        s.tiling.spaces.dom().contains(dst),
        s.tiling.spaces[src].windows.contains(window_id),
        s.tiling.spaces[dst].windows.contains(other),
        inside.contains(other),
        s.captures.dom().contains(dst),
        0 <= k < s.captures[dst].frames@.len(),
        s.captures[dst].frames@[k].window_id == other,
        forall|j: int|
            0 <= j < k ==> !inside.contains((#[trigger] s.captures[dst].frames@[j]).window_id)
                || s.captures[dst].frames@[j].window_id == window_id
                || !s.tiling.spaces[dst].windows.contains(s.captures[dst].frames@[j].window_id),
    ensures
        ({
            let zone = DropZone { center: true, edge };
            let (t, plan) = s.after_drop(
                window_id,
                Some(did),
                inside,
                zone,
                MouseDropAction::Swap,
            );
            &&& plan == DropPlan::Done(
                DropResult::CrossSpace {
                    dragged_id: window_id,
                    dragged_new_sid: dst,
                    swapped_id: Some(other),
                    swapped_new_sid: Some(src),
                },
            )
            &&& t.tiling.spaces[dst].windows.contains(window_id)
            &&& !t.tiling.spaces[src].windows.contains(window_id)
            &&& t.tiling.spaces[src].windows.contains(other)
            &&& !t.tiling.spaces[dst].windows.contains(other)
        }),
        ({
            let zone = DropZone { center: true, edge };
            let (t, plan) = s.after_drop(
                window_id,
                Some(did),
                inside,
                zone,
                MouseDropAction::Stack,
            );
            &&& plan == DropPlan::Done(
                DropResult::CrossSpace {
                    dragged_id: window_id,
                    dragged_new_sid: dst,
                    swapped_id: None,
                    swapped_new_sid: None,
                },
            )
            &&& t.tiling.spaces[dst].windows.contains(window_id)
            &&& !t.tiling.spaces[src].windows.contains(window_id)
            &&& t.tiling.spaces[dst].windows.contains(other)
        }),
{
    assert(s.tiling.tiles(src, window_id));
    assert(s.tiling.tiles(dst, other));
    if window_id == other {
        assert(s.tiling.tiles(dst, window_id));
    }
    s.tiling.lemma_space_of(src, window_id);
    lemma_first_hit(s, dst, s.captures[dst].frames@, inside, Some(window_id), k);
    s.tiling.lemma_relocated(window_id, dst);
    let moved = s.tiling.relocated(window_id, dst);
    assert(moved.tiles(dst, window_id));
    assert(moved.tiles(dst, other));
    assert(!moved.tiles(src, window_id)) by {
        if moved.tiles(src, window_id) {
            assert(moved.tiles(src, window_id) && moved.tiles(dst, window_id));
        }
    }
    moved.lemma_relocated(other, src);
    let traded = moved.relocated(other, src);
    assert(traded.tiles(src, other));
    assert(traded.tiles(dst, window_id));
    assert(!traded.tiles(src, window_id));
    assert(!traded.tiles(dst, other)) by {
        if traded.tiles(dst, other) {
            assert(traded.tiles(src, other) && traded.tiles(dst, other));
        }
    }
}

/// A drop concerns no space but the two it is between, and no window but those two.
pub proof fn law_drop_spares_the_rest(
    s: State,
    window_id: u32,
    display: Option<u32>,
    inside: Seq<u32>,
    zone: DropZone,
    action: MouseDropAction,
    sid: u64,
    w: u32,
)
    requires
        s.tiling.wf(),
        w != window_id,
        !inside.contains(w),
        s.tiling.spaces.dom().contains(sid),
    ensures
        s.after_drop(window_id, display, inside, zone, action).0.tiling.spaces.dom()
            == s.tiling.spaces.dom(),
        s.after_drop(window_id, display, inside, zone, action).0.tiling.spaces[sid].windows.contains(
            w,
        ) == s.tiling.spaces[sid].windows.contains(w),
        s.after_drop(window_id, display, inside, zone, action).0.tiling.focused_window
            == s.tiling.focused_window,
{
    let dst = s.space_under(display);
    if s.tiling.is_tiled(window_id) && dst is Some && s.tiling.spaces.dom().contains(dst->0) {
        let src = s.tiling.space_of(window_id)->0;
        assert(s.tiling.tiles(src, window_id));
        s.tiling.lemma_relocated(window_id, dst->0);
        let moved = s.tiling.relocated(window_id, dst->0);
        let target = s.under(dst->0, inside, Some(window_id));
        assert(moved.tiles(sid, w) == s.tiling.tiles(sid, w));
        if src != dst->0 && target is Some {
            lemma_hit_is_inside(s, dst->0, s.frames_of(dst->0)->0, inside, Some(window_id));
            assert(moved.tiles(dst->0, target->0));
            moved.lemma_relocated(target->0, src);
            assert(moved.relocated(target->0, src).tiles(sid, w) == moved.tiles(sid, w));
        }
    }
}

proof fn lemma_hit_is_inside(
    s: State,
    sid: u64,
    frames: Seq<WindowFrame>,
    inside: Seq<u32>,
    except: Option<u32>,
)
    ensures
        match s.first_hit(sid, frames, inside, except) {
            Some(w) => inside.contains(w) && except != Some(w) && s.tiling.tiles(sid, w),
            None => true,
        },
    decreases frames.len(),
{
    if frames.len() > 0 {
        lemma_hit_is_inside(s, sid, frames.drop_last(), inside, except);
    }
}

/// The window under a point: the first one in the layout of the space that the
/// display there shows, else of the active space where the display shows none.
pub proof fn law_window_under_a_point(s: State, did: u32, sid: u64, inside: Seq<u32>, k: int)
    requires
        ({
            ||| s.topology.display_active_space.dom().contains(did)
                && s.topology.display_active_space[did] == sid
            ||| !s.topology.display_active_space.dom().contains(did) && s.tiling.active_space
                == Some(sid)
        }),
        s.tiling.spaces.dom().contains(sid),
        s.captures.dom().contains(sid),
        0 <= k < s.captures[sid].frames@.len(),
        inside.contains(s.captures[sid].frames@[k].window_id),
        s.tiling.spaces[sid].windows.contains(s.captures[sid].frames@[k].window_id),
        forall|j: int|
            0 <= j < k ==> !inside.contains((#[trigger] s.captures[sid].frames@[j]).window_id)
                || !s.tiling.spaces[sid].windows.contains(s.captures[sid].frames@[j].window_id),
    ensures
        s.window_under(Some(did), inside) == Some(s.captures[sid].frames@[k].window_id),
{
    lemma_first_hit(s, sid, s.captures[sid].frames@, inside, None, k);
}

/// What is found under a point is one of the windows there, and tiled.
pub proof fn law_found_window_is_under_the_point(s: State, display: Option<u32>, inside: Seq<u32>)
    ensures
        match s.window_under(display, inside) {
            Some(w) => inside.contains(w) && s.tiling.is_tiled(w),
            None => true,
        },
{
    let ids = idmap::ids_of(s.tiling.spaces.dom());
    lemma_under_any(s, ids, ids.len() as int, inside);
    if display is Some {
        let sid = match s.topology.shown_on(display->0) {
            Some(sid) => sid,
            None => s.tiling.active_space->0,
        };
        if s.frames_of(sid) is Some {
            lemma_hit_is_inside(s, sid, s.frames_of(sid)->0, inside, None);
        }
    }
}

proof fn lemma_under_any(s: State, ids: Seq<u64>, k: int, inside: Seq<u32>)
    ensures
        match s.under_any(ids, k, inside) {
            Some(w) => inside.contains(w) && s.tiling.is_tiled(w),
            None => true,
        },
    decreases k,
{
    if k > 0 {
        lemma_under_any(s, ids, k - 1, inside);
        let sid = ids[k - 1];
        if s.frames_of(sid) is Some {
            lemma_hit_is_inside(s, sid, s.frames_of(sid)->0, inside, None);
        }
    }
}

/// The windows of a space are placed as the layout reports them, in its order.
pub proof fn law_placements_are_the_reported_frames(s: State, sid: u64, i: int)
    requires
        s.tiling.active_space == Some(sid),
        s.tiling.spaces.dom().contains(sid),
        s.captures.dom().contains(sid),
        0 <= i < s.captures[sid].frames@.len(),
    ensures
        s.active_placements().len() == s.captures[sid].frames@.len(),
        s.active_placements()[i].window_id == s.captures[sid].frames@[i].window_id,
        s.active_placements()[i].area == s.captures[sid].frames@[i].area,
{
}

/// Where displays are known to show spaces, exactly the windows of those spaces are
/// placed: each reported frame of a shown space, and nothing else.
pub proof fn law_shown_spaces_are_placed(s: State, p: Placement)
    requires
        s.topology.display_active_space.dom().finite(),
        s.topology.display_active_space.dom() != Set::<u32>::empty(),
    ensures
        s.all_placements().contains(p) <==> exists|did: u32, i: int|
            {
                let sid = s.topology.display_active_space[did];
                &&& s.topology.display_active_space.dom().contains(did)
                &&& s.tiling.spaces.dom().contains(sid)
                &&& s.captures.dom().contains(sid)
                &&& 0 <= i < s.captures[sid].frames@.len()
                &&& #[trigger] s.captures[s.topology.display_active_space[did]].frames@[i].window_id
                    == p.window_id
                &&& s.captures[sid].frames@[i].area == p.area
            },
{
    let ids = idmap::ids_of(s.topology.display_active_space.dom());
    idmap::lemma_listing_exists(s.topology.display_active_space.dom());
    lemma_shown(s, ids, ids.len() as int, p);
    let shows = |did: u32, i: int|
        {
            let sid = s.topology.display_active_space[did];
            &&& s.topology.display_active_space.dom().contains(did)
            &&& s.tiling.spaces.dom().contains(sid)
            &&& s.captures.dom().contains(sid)
            &&& 0 <= i < s.captures[sid].frames@.len()
            &&& s.captures[sid].frames@[i].window_id == p.window_id
            &&& s.captures[sid].frames@[i].area == p.area
        };
    if s.all_placements().contains(p) {
        let (n, i) = choose|n: int, i: int|
            0 <= n < ids.len() && #[trigger] placed_at(s, ids[n], i, p);
        assert(ids.contains(ids[n]));
        let did = ids[n];
        assert(s.captures[s.topology.display_active_space[did]].frames@[i].window_id
            == p.window_id);
    }
    if exists|did: u32, i: int| #[trigger] placed_at(s, did, i, p) {
        let (did, i) = choose|did: u32, i: int| #[trigger] placed_at(s, did, i, p);
        assert(ids.contains(did));
        let n = choose|n: int| 0 <= n < ids.len() && ids[n] == did;
        assert(placed_at(s, ids[n], i, p));
    }
    assert forall|did: u32, i: int| shows(did, i) implies #[trigger] placed_at(s, did, i, p) by {}
    if exists|did: u32, i: int|
        {
            let sid = s.topology.display_active_space[did];
            &&& s.topology.display_active_space.dom().contains(did)
            &&& s.tiling.spaces.dom().contains(sid)
            &&& s.captures.dom().contains(sid)
            &&& 0 <= i < s.captures[sid].frames@.len()
            &&& #[trigger] s.captures[s.topology.display_active_space[did]].frames@[i].window_id
                == p.window_id
            &&& s.captures[sid].frames@[i].area == p.area
        } {
        let (did, i) = choose|did: u32, i: int|
            {
                let sid = s.topology.display_active_space[did];
                &&& s.topology.display_active_space.dom().contains(did)
                &&& s.tiling.spaces.dom().contains(sid)
                &&& s.captures.dom().contains(sid)
                &&& 0 <= i < s.captures[sid].frames@.len()
                &&& #[trigger] s.captures[s.topology.display_active_space[did]].frames@[i].window_id
                    == p.window_id
                &&& s.captures[sid].frames@[i].area == p.area
            };
        assert(placed_at(s, did, i, p));
    }
}

/// Whether a display shows a window at a place of the reported layout.
spec fn placed_at(s: State, did: u32, i: int, p: Placement) -> bool {
    let sid = s.topology.display_active_space[did];
    &&& s.topology.display_active_space.dom().contains(did)
    &&& s.tiling.spaces.dom().contains(sid)
    &&& s.captures.dom().contains(sid)
    &&& 0 <= i < s.captures[sid].frames@.len()
    &&& s.captures[sid].frames@[i].window_id == p.window_id
    &&& s.captures[sid].frames@[i].area == p.area
}

proof fn lemma_shown(s: State, ids: Seq<u32>, k: int, p: Placement)
    requires
        k <= ids.len(),
    ensures
        s.shown_placements(ids, k).contains(p) <==> exists|n: int, i: int|
            0 <= n < k && #[trigger] placed_at(s, ids[n], i, p),
    decreases k,
{
    if k > 0 {
        lemma_shown(s, ids, k - 1, p);
        let earlier = s.shown_placements(ids, k - 1);
        let all = s.shown_placements(ids, k);
        let did = ids[k - 1];
        let here = if s.topology.shown_on(did) is Some && s.frames_of(
            s.topology.shown_on(did)->0,
        ) is Some {
            placements(s.frames_of(s.topology.shown_on(did)->0)->0)
        } else {
            Seq::empty()
        };
        assert(all =~= earlier + here);
        assert(here.contains(p) <==> exists|i: int| #[trigger] placed_at(s, did, i, p)) by {
            if here.contains(p) {
                let i = choose|i: int| 0 <= i < here.len() && here[i] == p;
                assert(placed_at(s, did, i, p));
            }
            if exists|i: int| #[trigger] placed_at(s, did, i, p) {
                let i = choose|i: int| #[trigger] placed_at(s, did, i, p);
                assert(here[i] == p);
            }
        }
        assert(all.contains(p) <==> earlier.contains(p) || here.contains(p)) by {
            if earlier.contains(p) {
                let i = choose|i: int| 0 <= i < earlier.len() && earlier[i] == p;
                assert(all[i] == p);
            }
            if here.contains(p) {
                let i = choose|i: int| 0 <= i < here.len() && here[i] == p;
                assert(all[earlier.len() + i] == p);
            }
        }
        if here.contains(p) {
            let i = choose|i: int| #[trigger] placed_at(s, did, i, p);
            assert(placed_at(s, ids[k - 1], i, p));
        }
    }
}

} // verus!
