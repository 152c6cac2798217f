//! Which windows each space tiles, which windows stay out of every layout, and
//! what has the focus.
//!
//! The geometry of a layout belongs to the layout engine. This module decides
//! which space tiles which window and leaves the engine a list of operations
//! to perform; the engine reports the resulting order of windows back.
use vstd::prelude::*;

use crate::idmap;
use crate::idmap::IdMap;
use crate::types::{Area, Child, Direction, LayoutConfig, NodeSplit, Real, ViewType, ZoomKind};

verus! {

/// The paddings of a space.
#[derive(Debug, Clone, Copy, PartialEq, Eq, Structural)]
pub struct Padding {
    pub top: i32,
    pub bottom: i32,
    pub left: i32,
    pub right: i32,
}

/// Room kept free for a status bar on one space.
#[derive(Debug, Clone, Copy, PartialEq, Eq, Structural)]
pub struct BarRoom {
    pub top: i32,
    pub bottom: i32,
}

/// An operation for the layout engine.
#[derive(Debug)]
pub enum LayoutOp {
    NewTree { sid: u64, layout: ViewType, config: LayoutConfig, area: Area },
    DropTree { sid: u64 },
    Add { sid: u64, window_id: u32, beside: Option<u32> },
    Remove { sid: u64, window_id: u32 },
    SetFrame { sid: u64, frame: Area, padding: Padding, bar: BarRoom },
    SetGap { sid: u64, gap: i32 },
    SetConfig { sid: u64, config: LayoutConfig },
    SetLayout { sid: u64, layout: ViewType },
    Swap { sid: u64, window_id: u32, other: u32 },
    Warp { sid: u64, window_id: u32, other: u32 },
    WarpBeside { sid: u64, window_id: u32, other: u32, split: NodeSplit, child: Child },
    StackOnto { sid: u64, window_id: u32, other: u32 },
    ToggleZoom { sid: u64, window_id: u32, kind: ZoomKind },
    ToggleSplit { sid: u64, window_id: u32 },
    Resize { sid: u64, window_id: u32, handle: u8, dw: Real, dh: Real },
    Ratio { sid: u64, window_id: u32, relative: bool, ratio: Real },
    SetInsertion { sid: u64, window_id: u32, insert: Insertion },
    Balance { sid: u64, axis: NodeSplit },
    Equalize { sid: u64, axis: NodeSplit },
    Mirror { sid: u64, axis: NodeSplit },
    Rotate { sid: u64, degrees: i32 },
}

/// Where the next window is to be inserted.
#[derive(Debug, Clone, Copy, PartialEq, Eq, Structural)]
pub enum Insertion {
    Toward(Direction),
    Stack,
}

/// A space as the daemon keeps it.
pub struct SpaceRecord {
    pub layout: ViewType,
    pub gap: i32,
    pub windows: Vec<u32>,
}

/// What a space record says.
pub ghost struct Space {
    pub layout: ViewType,
    pub gap: i32,
    pub windows: Seq<u32>,
}

impl View for SpaceRecord {
    type V = Space;

    open spec fn view(&self) -> Space {
        Space { layout: self.layout, gap: self.gap, windows: self.windows@ }
    }
}

impl Space {
    /// The space without a window.
    pub open spec fn without(self, window_id: u32) -> Space {
        if self.windows.contains(window_id) {
            Space { windows: self.windows.remove(self.windows.index_of(window_id)), ..self }
        } else {
            self
        }
    }

    /// The space with a window behind the others.
    pub open spec fn with_window(self, window_id: u32) -> Space {
        Space { windows: self.windows.push(window_id), ..self }
    }
}

/// The state of tiling and focus.
pub struct Tiling {
    spaces: IdMap<u64, SpaceRecord>,
    window_spaces: IdMap<u32, u64>,
    floating: IdMap<u32, ()>,
    sticky: IdMap<u32, ()>,
    active_space: Option<u64>,
    last_active_space: Option<u64>,
    focused_window: Option<u32>,
    last_focused_window: Option<u32>,
    ops: Vec<LayoutOp>,
}

/// What the state of tiling and focus says.
pub ghost struct TilingModel {
    /// The spaces that have a layout.
    pub spaces: Map<u64, Space>,
    /// The last space each window was assigned to.
    pub window_spaces: Map<u32, u64>,
    /// Windows that the user floated.
    pub floating: Set<u32>,
    /// Windows shown on every space.
    pub sticky: Set<u32>,
    /// The space that commands act on.
    pub active_space: Option<u64>,
    /// The space that was active before.
    pub last_active_space: Option<u64>,
    /// The window that has the focus.
    pub focused_window: Option<u32>,
    /// The window that had the focus before.
    pub last_focused_window: Option<u32>,
    /// Operations that the layout engine has yet to perform.
    pub ops: Seq<LayoutOp>,
}

impl TilingModel {
    /// Whether space `sid` tiles the window.
    pub open spec fn tiles(self, sid: u64, window_id: u32) -> bool {
        self.spaces.dom().contains(sid) && self.spaces[sid].windows.contains(window_id)
    }

    /// Whether some space tiles the window.
    pub open spec fn is_tiled(self, window_id: u32) -> bool {
        exists|sid: u64| self.tiles(sid, window_id)
    }

    /// The space that tiles the window.
    pub open spec fn space_of(self, window_id: u32) -> Option<u64> {
        if self.is_tiled(window_id) {
            Some(choose|sid: u64| self.tiles(sid, window_id))
        } else {
            None
        }
    }

    /// Whether the window is kept out of every layout.
    pub open spec fn exempt(self, window_id: u32) -> bool {
        self.floating.contains(window_id) || self.sticky.contains(window_id)
    }

    /// No window is tiled twice, and windows kept out of layouts are not
    /// tiled.
    pub open spec fn wf(self) -> bool {
        &&& forall|sid: u64| #[trigger]
            self.spaces.dom().contains(sid) ==> self.spaces[sid].windows.no_duplicates()
        &&& forall|a: u64, b: u64, w: u32| #[trigger]
            self.tiles(a, w) && #[trigger] self.tiles(b, w) ==> a == b
        &&& forall|sid: u64, w: u32| #[trigger] self.tiles(sid, w) ==> !self.exempt(w)
    }

    /// The window taken out of the layout that holds it.
    pub open spec fn untiled(self, window_id: u32) -> TilingModel {
        match self.space_of(window_id) {
            Some(sid) => TilingModel {
                spaces: self.spaces.insert(sid, self.spaces[sid].without(window_id)),
                ops: self.ops.push(LayoutOp::Remove { sid, window_id }),
                ..self
            },
            None => self,
        }
    }

    /// The focused window, if space `sid` tiles it.
    pub open spec fn focus_on(self, sid: u64) -> Option<u32> {
        match self.focused_window {
            Some(focused) if self.tiles(sid, focused) => Some(focused),
            _ => None,
        }
    }

    /// The window put into the layout of space `sid`.
    pub open spec fn tiled(self, window_id: u32, sid: u64, beside: Option<u32>) -> TilingModel {
        TilingModel {
            spaces: self.spaces.insert(sid, self.spaces[sid].with_window(window_id)),
            ops: self.ops.push(LayoutOp::Add { sid, window_id, beside }),
            ..self
        }
    }

    /// Whether an assignment is refused: the window is to be tiled on a space
    /// without a layout.
    pub open spec fn assignment_refused(self, window_id: u32, sid: u64) -> bool {
        &&& !self.exempt(window_id)
        &&& !self.tiles(sid, window_id)
        &&& !self.spaces.dom().contains(sid)
    }

    /// Whether an assignment moves the window into the layout of `sid`.
    pub open spec fn assignment_tiles(self, window_id: u32, sid: u64) -> bool {
        &&& !self.exempt(window_id)
        &&& !self.tiles(sid, window_id)
        &&& self.spaces.dom().contains(sid)
    }

    /// The window noted as belonging to space `sid`.
    pub open spec fn noted(self, window_id: u32, sid: u64) -> TilingModel {
        TilingModel { window_spaces: self.window_spaces.insert(window_id, sid), ..self }
    }

    /// The window moved into the layout of `sid`; a window that was not tiled
    /// before takes the focus.
    pub open spec fn moved(self, window_id: u32, sid: u64) -> TilingModel {
        let cleared = self.untiled(window_id);
        let placed = cleared.tiled(window_id, sid, cleared.focus_on(sid));
        if self.is_tiled(window_id) {
            placed
        } else {
            placed.refocused(Some(window_id))
        }
    }

    /// The window assigned to space `sid`.
    pub open spec fn assigned(self, window_id: u32, sid: u64) -> TilingModel {
        if self.assignment_tiles(window_id, sid) {
            self.noted(window_id, sid).moved(window_id, sid)
        } else {
            self.noted(window_id, sid)
        }
    }

    /// The window forgotten, as when it is closed.
    pub open spec fn forgotten(self, window_id: u32) -> TilingModel {
        let cleared = self.untiled(window_id);
        TilingModel {
            floating: self.floating.remove(window_id),
            window_spaces: self.window_spaces.remove(window_id),
            focused_window: if self.focused_window == Some(window_id) {
                None
            } else {
                self.focused_window
            },
            ..cleared
        }
    }

    /// The window floated, or put back into the layout of space `sid`.
    pub open spec fn floated(self, window_id: u32, floating: bool, sid: u64) -> TilingModel {
        if floating {
            TilingModel { floating: self.floating.insert(window_id), ..self.untiled(window_id) }
        } else if self.floating.contains(window_id) {
            (TilingModel { floating: self.floating.remove(window_id), ..self }).assigned(
                window_id,
                sid,
            )
        } else {
            self
        }
    }

    /// The window shown on every space, or on `sid` alone again.
    pub open spec fn stuck(self, window_id: u32, sticky: bool, sid: u64) -> TilingModel {
        if sticky {
            TilingModel { sticky: self.sticky.insert(window_id), ..self.untiled(window_id) }
        } else if self.sticky.contains(window_id) {
            let loose = TilingModel { sticky: self.sticky.remove(window_id), ..self };
            if self.floating.contains(window_id) {
                loose
            } else {
                loose.assigned(window_id, sid)
            }
        } else {
            self
        }
    }

    /// The focus given to a window, or to none.
    pub open spec fn refocused(self, window_id: Option<u32>) -> TilingModel {
        TilingModel {
            focused_window: window_id,
            last_focused_window: if window_id is Some && window_id != self.focused_window
                && self.focused_window is Some {
                self.focused_window
            } else {
                self.last_focused_window
            },
            ..self
        }
    }

    /// Space `sid` made the active one.
    pub open spec fn activated(self, sid: u64) -> TilingModel {
        TilingModel {
            active_space: Some(sid),
            last_active_space: if self.active_space is Some && self.active_space != Some(sid) {
                self.active_space
            } else {
                self.last_active_space
            },
            ..self
        }
    }

    /// A space with an empty layout; the first space becomes active.
    pub open spec fn with_space(
        self,
        sid: u64,
        layout: ViewType,
        config: LayoutConfig,
        area: Area,
    ) -> TilingModel {
        TilingModel {
            spaces: self.spaces.insert(
                sid,
                Space { layout, gap: config.gap, windows: Seq::empty() },
            ),
            ops: self.ops.push(LayoutOp::NewTree { sid, layout, config, area }),
            active_space: if self.active_space is None {
                Some(sid)
            } else {
                self.active_space
            },
            ..self
        }
    }

    /// The least identifier among the spaces that have a layout.
    pub open spec fn least_space(self) -> Option<u64> {
        let ids = idmap::ids_of(self.spaces.dom());
        if ids.len() == 0 {
            None
        } else {
            Some(ids[0])
        }
    }

    /// A space gone: its layout is dropped, a focused window on it loses the
    /// focus, and the least remaining space becomes active if it was active.
    pub open spec fn without_space(self, sid: u64) -> TilingModel {
        let rest = TilingModel {
            spaces: self.spaces.remove(sid),
            ops: if self.spaces.dom().contains(sid) {
                self.ops.push(LayoutOp::DropTree { sid })
            } else {
                self.ops
            },
            focused_window: if self.focus_on(sid) is Some {
                None
            } else {
                self.focused_window
            },
            ..self
        };
        TilingModel {
            active_space: if self.active_space == Some(sid) {
                rest.least_space()
            } else {
                self.active_space
            },
            ..rest
        }
    }

    /// The window moved from one layout to another, as by a drop. Nothing moves
    /// to a space without a layout.
    pub open spec fn relocated(self, window_id: u32, to_sid: u64) -> TilingModel {
        if self.spaces.dom().contains(to_sid) {
            self.untiled(window_id).noted(window_id, to_sid).tiled(window_id, to_sid, None)
        } else {
            self
        }
    }

    /// The layout of a space changed.
    pub open spec fn with_layout(self, sid: u64, layout: ViewType) -> TilingModel {
        TilingModel {
            spaces: self.spaces.insert(sid, Space { layout, ..self.spaces[sid] }),
            ops: self.ops.push(LayoutOp::SetLayout { sid, layout }),
            ..self
        }
    }

    /// The gap of a space changed.
    pub open spec fn with_gap(self, sid: u64, gap: i32) -> TilingModel {
        TilingModel {
            spaces: self.spaces.insert(sid, Space { gap, ..self.spaces[sid] }),
            ops: self.ops.push(LayoutOp::SetGap { sid, gap }),
            ..self
        }
    }

    /// The settings of a layout changed.
    pub open spec fn with_config(self, sid: u64, config: LayoutConfig) -> TilingModel {
        TilingModel {
            spaces: self.spaces.insert(sid, Space { gap: config.gap, ..self.spaces[sid] }),
            ops: self.ops.push(LayoutOp::SetConfig { sid, config }),
            ..self
        }
    }

    /// The mark of a floating window cleared.
    pub open spec fn unmarked(self, window_id: u32) -> TilingModel {
        TilingModel { floating: self.floating.remove(window_id), ..self }
    }

    /// Whether `order` lists exactly the windows that space `sid` tiles, each
    /// once.
    pub open spec fn is_order_of(self, sid: u64, order: Seq<u32>) -> bool {
        &&& self.spaces.dom().contains(sid)
        &&& order.no_duplicates()
        &&& forall|w: u32| #[trigger] order.contains(w) <==> self.spaces[sid].windows.contains(w)
    }

    /// The windows of a space listed in another order.
    pub open spec fn reordered(self, sid: u64, order: Seq<u32>) -> TilingModel {
        TilingModel {
            spaces: self.spaces.insert(sid, Space { windows: order, ..self.spaces[sid] }),
            ..self
        }
    }

    /// One more operation for the layout engine.
    pub open spec fn with_op(self, op: LayoutOp) -> TilingModel {
        TilingModel { ops: self.ops.push(op), ..self }
    }
}

impl TilingModel {
    /// The tiling space is unique.
    pub proof fn lemma_space_of(self, sid: u64, window_id: u32)
        requires
            self.wf(),
            self.tiles(sid, window_id),
        ensures
            self.space_of(window_id) == Some(sid),
    {
    }

    /// What taking a window out does to each space.
    pub proof fn lemma_untiled(self, window_id: u32)
        requires
            self.wf(),
        ensures
            self.untiled(window_id).wf(),
            !self.untiled(window_id).is_tiled(window_id),
            self.untiled(window_id).spaces.dom() == self.spaces.dom(),
            forall|sid: u64, w: u32|
                w != window_id ==> (#[trigger] self.untiled(window_id).tiles(sid, w) <==> self.tiles(
                    sid,
                    w,
                )),
    {
        match self.space_of(window_id) {
            Some(sid) => {
                let m = self.untiled(window_id);
                let before = self.spaces[sid].windows;
                let after = m.spaces[sid].windows;
                let k = before.index_of(window_id);
                assert(self.tiles(sid, window_id));
                assert(before.no_duplicates());
                assert(before[k] == window_id);
                assert(after.no_duplicates());
                assert forall|w: u32| after.contains(w) <==> before.contains(w) && w
                    != window_id by {
                    if after.contains(w) {
                        let i = choose|i: int| 0 <= i < after.len() && after[i] == w;
                        let j = if i < k { i } else { i + 1 };
                        assert(before[j] == w);
                    }
                    if before.contains(w) && w != window_id {
                        let i = choose|i: int| 0 <= i < before.len() && before[i] == w;
                        let j = if i < k { i } else { i - 1 };
                        assert(after[j] == w);
                    }
                }
                assert(m.spaces.dom() =~= self.spaces.dom());
                assert forall|s: u64, w: u32| w != window_id implies (#[trigger] m.tiles(s, w)
                    <==> self.tiles(s, w)) by {}
                assert forall|s: u64, w: u32| #[trigger] m.tiles(s, w) implies self.tiles(s, w)
                    && w != window_id by {
                    if w == window_id && s != sid {
                        assert(self.tiles(s, w));
                    }
                }
            },
            None => {},
        }
    }

    /// Moving a tiled window to another space spares every other window.
    pub proof fn lemma_relocated(self, window_id: u32, to_sid: u64)
        requires
            self.wf(),
            self.is_tiled(window_id),
        ensures
            self.relocated(window_id, to_sid).wf(),
            self.spaces.dom().contains(to_sid) ==> self.relocated(window_id, to_sid).tiles(
                to_sid,
                window_id,
            ),
            self.relocated(window_id, to_sid).spaces.dom() == self.spaces.dom(),
            forall|s: u64, w: u32|
                w != window_id ==> (#[trigger] self.relocated(window_id, to_sid).tiles(s, w)
                    <==> self.tiles(s, w)),
    {
        let sid = choose|sid: u64| self.tiles(sid, window_id);
        assert(!self.exempt(window_id));
        self.lemma_untiled(window_id);
        let bare = self.untiled(window_id);
        let cleared = bare.noted(window_id, to_sid);
        lemma_same_layouts(bare, cleared);
        assert forall|s: u64, w: u32| #[trigger] cleared.tiles(s, w) == bare.tiles(s, w) by {}
        assert(!cleared.is_tiled(window_id)) by {
            assert forall|s: u64| !cleared.tiles(s, window_id) by {
                assert(!bare.tiles(s, window_id));
            }
        }
        if self.spaces.dom().contains(to_sid) {
            cleared.lemma_tiled(window_id, to_sid, None);
            let m = self.relocated(window_id, to_sid);
            assert forall|s: u64, w: u32| w != window_id implies (#[trigger] m.tiles(s, w)
                <==> self.tiles(s, w)) by {
                assert(cleared.tiles(s, w) == bare.tiles(s, w));
            }
        }
    }

    /// Tiling a window that is tiled nowhere keeps the state well formed.
    pub proof fn lemma_tiled(self, window_id: u32, sid: u64, beside: Option<u32>)
        requires
            self.wf(),
            !self.is_tiled(window_id),
            !self.exempt(window_id),
            self.spaces.dom().contains(sid),
        ensures
            self.tiled(window_id, sid, beside).wf(),
            self.tiled(window_id, sid, beside).tiles(sid, window_id),
            self.tiled(window_id, sid, beside).spaces.dom() == self.spaces.dom(),
            forall|s: u64, w: u32|
                w != window_id ==> (#[trigger] self.tiled(window_id, sid, beside).tiles(s, w)
                    <==> self.tiles(s, w)),
    {
        let m = self.tiled(window_id, sid, beside);
        let before = self.spaces[sid].windows;
        let after = m.spaces[sid].windows;
        assert(m.spaces.dom() =~= self.spaces.dom());
        assert(after[before.len() as int] == window_id);
        assert(!before.contains(window_id)) by {
            if before.contains(window_id) {
                assert(self.tiles(sid, window_id));
            }
        }
        assert forall|w: u32| after.contains(w) <==> before.contains(w) || w == window_id by {
            if before.contains(w) {
                let i = choose|i: int| 0 <= i < before.len() && before[i] == w;
                assert(after[i] == w);
            }
            if after.contains(w) && w != window_id {
                let i = choose|i: int| 0 <= i < after.len() && after[i] == w;
                assert(before[i] == w);
            }
        }
        assert forall|s: u64, w: u32| w != window_id implies (#[trigger] m.tiles(s, w)
            <==> self.tiles(s, w)) by {}
        assert forall|s: u64| #[trigger] m.tiles(s, window_id) implies s == sid by {
            if s != sid {
                assert(self.tiles(s, window_id));
            }
        }
        assert(after.no_duplicates());
        assert forall|a: u64, b: u64, w: u32| #[trigger] m.tiles(a, w) && #[trigger] m.tiles(
            b,
            w,
        ) implies a == b by {
            if w != window_id {
                assert(self.tiles(a, w) && self.tiles(b, w));
            }
        }
        assert forall|s: u64, w: u32| #[trigger] m.tiles(s, w) implies !m.exempt(w) by {
            if w != window_id {
                assert(self.tiles(s, w));
            }
        }
    }
}

/// The first window in a list that is not the given one.
pub open spec fn first_other(ids: Seq<u32>, wid: u32) -> Option<u32>
    decreases ids.len(),
{
    if ids.len() == 0 {
        None
    } else {
        match first_other(ids.drop_last(), wid) {
            Some(w) => Some(w),
            None => if ids.last() != wid {
                Some(ids.last())
            } else {
                None
            },
        }
    }
}

/// The first window in a list that is not the given one.
pub fn other_than(ids: &Vec<u32>, wid: u32) -> (r: Option<u32>)
    ensures
        r == first_other(ids@, wid),
{
    let mut found: Option<u32> = None;
    let mut i: usize = 0;
    while i < ids.len()
        invariant
            i <= ids@.len(),
            found == first_other(ids@.take(i as int), wid),
        decreases ids.len() - i,
    {
        proof {
            assert(ids@.take(i + 1).drop_last() =~= ids@.take(i as int));
        }
        if found.is_none() && ids[i] != wid {
            found = Some(ids[i]);
        }
        i += 1;
    }
    assert(ids@.take(ids@.len() as int) =~= ids@);
    found
}

/// Where an identifier stands in a list.
pub fn position(ids: &Vec<u32>, id: u32) -> (r: Option<usize>)
    ensures
        match r {
            Some(i) => i < ids@.len() && ids@[i as int] == id && forall|j: int|
                0 <= j < i ==> ids@[j] != id,
            None => !ids@.contains(id),
        },
{
    let mut i: usize = 0;
    while i < ids.len()
        invariant
            i <= ids.len(),
            forall|j: int| 0 <= j < i ==> ids@[j] != id,
        decreases ids.len() - i,
    {
        if ids[i] == id {
            return Some(i);
        }
        i += 1;
    }
    None
}

/// Whether every identifier of `a` stands in `b`.
fn all_in(a: &Vec<u32>, b: &Vec<u32>) -> (r: bool)
    ensures
        r == (forall|w: u32| #[trigger] a@.contains(w) ==> b@.contains(w)),
{
    let mut i: usize = 0;
    while i < a.len()
        invariant
            i <= a.len(),
            forall|j: int| 0 <= j < i ==> b@.contains(#[trigger] a@[j]),
        decreases a.len() - i,
    {
        if position(b, a[i]).is_none() {
            assert(a@.contains(a@[i as int]));
            return false;
        }
        i += 1;
    }
    true
}

/// Whether no identifier occurs twice.
fn all_distinct(a: &Vec<u32>) -> (r: bool)
    ensures
        r == a@.no_duplicates(),
{
    let mut i: usize = 0;
    while i < a.len()
        invariant
            i <= a.len(),
            forall|j: int, k: int| 0 <= j < k < i ==> a@[j] != a@[k],
        decreases a.len() - i,
    {
        let mut j: usize = 0;
        while j < i
            invariant
                j <= i < a.len(),
                forall|k: int| 0 <= k < j ==> a@[k] != a@[i as int],
            decreases i - j,
        {
            if a[j] == a[i] {
                return false;
            }
            j += 1;
        }
        i += 1;
    }
    true
}

fn is_permutation(windows: &Vec<u32>, order: &Vec<u32>) -> (r: bool)
    ensures
        r == (order@.no_duplicates() && forall|w: u32| #[trigger]
            order@.contains(w) <==> windows@.contains(w)),
{
    let distinct = all_distinct(order);
    let known = all_in(order, windows);
    let complete = all_in(windows, order);
    proof {
        if distinct && known && complete {
            assert forall|w: u32| #[trigger] order@.contains(w) <==> windows@.contains(w) by {
                if windows@.contains(w) {
                    assert(order@.contains(w));
                }
            }
        }
        if forall|w: u32| #[trigger] order@.contains(w) <==> windows@.contains(w) {
            assert forall|w: u32| #[trigger] windows@.contains(w) implies order@.contains(w) by {}
        }
    }
    distinct && known && complete
}

impl View for Tiling {
    type V = TilingModel;

    closed spec fn view(&self) -> TilingModel {
        TilingModel {
            spaces: self.spaces@.map_values(|r: SpaceRecord| r@),
            window_spaces: self.window_spaces@,
            floating: self.floating@.dom(),
            sticky: self.sticky@.dom(),
            active_space: self.active_space,
            last_active_space: self.last_active_space,
            focused_window: self.focused_window,
            last_focused_window: self.last_focused_window,
            ops: self.ops@,
        }
    }
}

impl Tiling {
    pub closed spec fn wf(&self) -> bool {
        &&& self.spaces.wf()
        &&& self.window_spaces.wf()
        &&& self.floating.wf()
        &&& self.sticky.wf()
        &&& self@.wf()
    }

    /// A well-formed state speaks of a well-formed model.
    pub proof fn lemma_wf(&self)
        requires
            self.wf(),
        ensures
            self@.wf(),
    {
    }

    /// Nothing known yet.
    pub fn new() -> (r: Self)
        ensures
            r.wf(),
            r@ == (TilingModel {
                spaces: Map::empty(),
                window_spaces: Map::empty(),
                floating: Set::empty(),
                sticky: Set::empty(),
                active_space: None,
                last_active_space: None,
                focused_window: None,
                last_focused_window: None,
                ops: Seq::empty(),
            }),
    {
        let r = Tiling {
            spaces: IdMap::new(),
            window_spaces: IdMap::new(),
            floating: IdMap::new(),
            sticky: IdMap::new(),
            active_space: None,
            last_active_space: None,
            focused_window: None,
            last_focused_window: None,
            ops: Vec::new(),
        };
        assert(r@.spaces =~= Map::<u64, Space>::empty());
        assert(r@.floating =~= Set::<u32>::empty());
        assert(r@.sticky =~= Set::<u32>::empty());
        r
    }

    /// Whether a space has a layout.
    pub fn has_space(&self, sid: u64) -> (r: bool)
        requires
            self.wf(),
        ensures
            r == self@.spaces.dom().contains(sid),
    {
        self.spaces.contains(sid)
    }

    /// The record of a space that has a layout.
    pub fn space(&self, sid: u64) -> (r: Option<&SpaceRecord>)
        requires
            self.wf(),
        ensures
            match r {
                Some(record) => self@.spaces.dom().contains(sid) && record@ == self@.spaces[sid],
                None => !self@.spaces.dom().contains(sid),
            },
    {
        self.spaces.get(sid)
    }

    /// The spaces that have a layout, in ascending order.
    pub fn space_ids(&self) -> (r: Vec<u64>)
        requires
            self.wf(),
        ensures
            r@ == idmap::ids_of(self@.spaces.dom()),
            idmap::lists(r@, self@.spaces.dom()),
    {
        assert(self@.spaces.dom() =~= self.spaces@.dom());
        self.spaces.keys()
    }

    /// Whether space `sid` tiles the window.
    pub fn tiles(&self, sid: u64, window_id: u32) -> (r: bool)
        requires
            self.wf(),
        ensures
            r == self@.tiles(sid, window_id),
    {
        match self.spaces.get(sid) {
            Some(record) => match position(&record.windows, window_id) {
                Some(i) => {
                    assert(record.windows@[i as int] == window_id);
                    true
                },
                None => false,
            },
            None => false,
        }
    }

    /// The space that tiles the window.
    pub fn window_space(&self, window_id: u32) -> (r: Option<u64>)
        requires
            self.wf(),
        ensures
            r == self@.space_of(window_id),
            r is Some ==> self@.tiles(r->0, window_id),
    {
        let ids = self.space_ids();
        let mut i: usize = 0;
        while i < ids.len()
            invariant
                self.wf(),
                i <= ids.len(),
                idmap::lists(ids@, self@.spaces.dom()),
                forall|j: int| 0 <= j < i ==> !self@.tiles(#[trigger] ids@[j], window_id),
            decreases ids.len() - i,
        {
            if self.tiles(ids[i], window_id) {
                proof {
                    self@.lemma_space_of(ids@[i as int], window_id);
                }
                return Some(ids[i]);
            }
            i += 1;
        }
        proof {
            if self@.is_tiled(window_id) {
                let sid = choose|sid: u64| self@.tiles(sid, window_id);
                assert(ids@.contains(sid));
            }
        }
        None
    }

    /// The last space a window was assigned to.
    pub fn noted_space(&self, window_id: u32) -> (r: Option<u64>)
        requires
            self.wf(),
        ensures
            r == (if self@.window_spaces.dom().contains(window_id) {
                Some(self@.window_spaces[window_id])
            } else {
                None
            }),
    {
        match self.window_spaces.get(window_id) {
            Some(sid) => Some(*sid),
            None => None,
        }
    }

    /// Every window ever assigned and not forgotten, in ascending order.
    pub fn noted_windows(&self) -> (r: Vec<u32>)
        requires
            self.wf(),
        ensures
            r@ == idmap::ids_of(self@.window_spaces.dom()),
            idmap::lists(r@, self@.window_spaces.dom()),
    {
        self.window_spaces.keys()
    }

    pub fn is_floating(&self, window_id: u32) -> (r: bool)
        requires
            self.wf(),
        ensures
            r == self@.floating.contains(window_id),
    {
        self.floating.contains(window_id)
    }

    pub fn is_sticky(&self, window_id: u32) -> (r: bool)
        requires
            self.wf(),
        ensures
            r == self@.sticky.contains(window_id),
    {
        self.sticky.contains(window_id)
    }

    pub fn active_space_id(&self) -> (r: Option<u64>)
        ensures
            r == self@.active_space,
    {
        self.active_space
    }

    pub fn last_active_space_id(&self) -> (r: Option<u64>)
        ensures
            r == self@.last_active_space,
    {
        self.last_active_space
    }

    pub fn focused_window_id(&self) -> (r: Option<u32>)
        ensures
            r == self@.focused_window,
    {
        self.focused_window
    }

    pub fn last_focused_window_id(&self) -> (r: Option<u32>)
        ensures
            r == self@.last_focused_window,
    {
        self.last_focused_window
    }

    /// Replace the record of a space that has a layout.
    fn put_space(&mut self, sid: u64, record: SpaceRecord)
        requires
            old(self).spaces.wf(),
        ensures
            *final(self) == (Tiling { spaces: final(self).spaces, ..*old(self) }),
            final(self).spaces.wf(),
            final(self)@ == (TilingModel {
                spaces: old(self)@.spaces.insert(sid, record@),
                ..old(self)@
            }),
    {
        let ghost pre = *self;
        self.spaces.insert(sid, record);
        assert(self@.spaces =~= pre@.spaces.insert(sid, record@));
    }

    /// Take a window out of the layout that holds it.
    pub fn untile(&mut self, window_id: u32)
        requires
            old(self).wf(),
        ensures
            final(self).wf(),
            final(self)@ == old(self)@.untiled(window_id),
    {
        let ghost pre = *self;
        proof {
            pre@.lemma_untiled(window_id);
        }
        if let Some(sid) = self.window_space(window_id) {
            let taken = self.spaces.remove(sid);
            if let Some(mut record) = taken {
                assert(record@ == pre@.spaces[sid]);
                if let Some(i) = position(&record.windows, window_id) {
                    proof {
                        assert(pre@.spaces[sid].windows.no_duplicates());
                        let k = pre@.spaces[sid].windows.index_of(window_id);
                        assert(pre@.spaces[sid].windows[k] == window_id);
                        assert(k == i);
                    }
                    let _ = record.windows.remove(i);
                    assert(record@ == pre@.spaces[sid].without(window_id));
                }
                self.put_space(sid, record);
            }
            self.ops.push(LayoutOp::Remove { sid, window_id });
            assert(self@.spaces =~= pre@.untiled(window_id).spaces);
        }
    }

    /// Put a window that is tiled nowhere into the layout of a space.
    fn tile(&mut self, window_id: u32, sid: u64, beside: Option<u32>)
        requires
            old(self).wf(),
            !old(self)@.is_tiled(window_id),
            !old(self)@.exempt(window_id),
            old(self)@.spaces.dom().contains(sid),
        ensures
            final(self).wf(),
            final(self)@ == old(self)@.tiled(window_id, sid, beside),
    {
        let ghost pre = *self;
        proof {
            pre@.lemma_tiled(window_id, sid, beside);
        }
        let taken = self.spaces.remove(sid);
        if let Some(mut record) = taken {
            assert(record@ == pre@.spaces[sid]);
            record.windows.push(window_id);
            assert(record@ == pre@.spaces[sid].with_window(window_id));
            self.put_space(sid, record);
        }
        self.ops.push(LayoutOp::Add { sid, window_id, beside });
        assert(self@.spaces =~= pre@.tiled(window_id, sid, beside).spaces);
    }

    /// Assign a window to a space. A window kept out of layouts is only noted;
    /// any other window moves into the layout of the space, unless it is there
    /// already. A space without a layout is refused.
    pub fn assign_window_to_space(&mut self, window_id: u32, sid: u64) -> (r: Result<(), String>)
        requires
            old(self).wf(),
        ensures
            final(self).wf(),
            final(self)@ == old(self)@.assigned(window_id, sid),
            r is Err <==> old(self)@.assignment_refused(window_id, sid),
            r is Err ==> r->Err_0@ == "space has no layout"@,
    {
        let ghost pre = *self;
        self.window_spaces.insert(window_id, sid);
        proof {
            assert(self@ == pre@.noted(window_id, sid));
            lemma_same_layouts(pre@, self@);
        }
        if self.is_floating(window_id) || self.is_sticky(window_id) {
            return Ok(());
        }
        let previous = self.window_space(window_id);
        if previous == Some(sid) {
            return Ok(());
        }
        proof {
            if self@.tiles(sid, window_id) {
                self@.lemma_space_of(sid, window_id);
            }
        }
        if !self.has_space(sid) {
            return Err("space has no layout".to_owned());
        }
        let ghost noted = self@;
        proof {
            noted.lemma_untiled(window_id);
            assert(noted.is_tiled(window_id) == pre@.is_tiled(window_id));
        }
        self.untile(window_id);
        let beside = match self.focused_window {
            Some(focused) => if self.tiles(sid, focused) {
                Some(focused)
            } else {
                None
            },
            None => None,
        };
        self.tile(window_id, sid, beside);
        if previous.is_none() {
            self.set_focused_window(Some(window_id));
        }
        assert(self@ == noted.moved(window_id, sid));
        Ok(())
    }

    /// Forget a window.
    pub fn remove_window(&mut self, window_id: u32)
        requires
            old(self).wf(),
        ensures
            final(self).wf(),
            final(self)@ == old(self)@.forgotten(window_id),
    {
        let ghost pre = *self;
        self.untile(window_id);
        let ghost cleared = self@;
        let _ = self.floating.remove(window_id);
        let _ = self.window_spaces.remove(window_id);
        if self.focused_window == Some(window_id) {
            self.focused_window = None;
        }
        proof {
            assert(self@.floating =~= pre@.floating.remove(window_id));
            lemma_fewer_exempt(cleared, self@);
        }
    }

    /// Float a window, or put it back into the layout of space `sid`.
    pub fn set_window_floating(&mut self, window_id: u32, floating: bool, sid: u64)
        requires
            old(self).wf(),
        ensures
            final(self).wf(),
            final(self)@ == old(self)@.floated(window_id, floating, sid),
    {
        let ghost pre = *self;
        if floating {
            proof {
                pre@.lemma_untiled(window_id);
            }
            self.untile(window_id);
            let ghost cleared = self@;
            self.floating.insert(window_id, ());
            proof {
                assert(self@.floating =~= pre@.floating.insert(window_id));
                lemma_one_more_exempt(cleared, self@, window_id);
            }
        } else if self.floating.contains(window_id) {
            let _ = self.floating.remove(window_id);
            proof {
                assert(self@.floating =~= pre@.floating.remove(window_id));
                lemma_fewer_exempt(pre@, self@);
            }
            let _ = self.assign_window_to_space(window_id, sid);
        }
    }

    /// Show a window on every space, or on `sid` alone again.
    pub fn set_window_sticky(&mut self, window_id: u32, sticky: bool, sid: u64)
        requires
            old(self).wf(),
        ensures
            final(self).wf(),
            final(self)@ == old(self)@.stuck(window_id, sticky, sid),
    {
        let ghost pre = *self;
        if sticky {
            proof {
                pre@.lemma_untiled(window_id);
            }
            self.untile(window_id);
            let ghost cleared = self@;
            self.sticky.insert(window_id, ());
            proof {
                assert(self@.sticky =~= pre@.sticky.insert(window_id));
                lemma_one_more_exempt(cleared, self@, window_id);
            }
        } else if self.sticky.contains(window_id) {
            let _ = self.sticky.remove(window_id);
            proof {
                assert(self@.sticky =~= pre@.sticky.remove(window_id));
                lemma_fewer_exempt(pre@, self@);
            }
            if !self.floating.contains(window_id) {
                let _ = self.assign_window_to_space(window_id, sid);
            }
        }
    }

    /// Give the focus to a window, or to none.
    pub fn set_focused_window(&mut self, window_id: Option<u32>)
        requires
            old(self).wf(),
        ensures
            final(self).wf(),
            final(self)@ == old(self)@.refocused(window_id),
    {
        let ghost pre = *self;
        if window_id.is_some() && window_id != self.focused_window {
            if let Some(prev) = self.focused_window {
                self.last_focused_window = Some(prev);
            }
        }
        self.focused_window = window_id;
        proof {
            lemma_same_layouts(pre@, self@);
        }
    }

    /// Make a space the active one.
    pub fn set_active_space(&mut self, sid: u64)
        requires
            old(self).wf(),
        ensures
            final(self).wf(),
            final(self)@ == old(self)@.activated(sid),
    {
        let ghost pre = *self;
        if self.active_space != Some(sid) {
            if let Some(prev) = self.active_space {
                self.last_active_space = Some(prev);
            }
        }
        self.active_space = Some(sid);
        proof {
            lemma_same_layouts(pre@, self@);
        }
    }

    /// Register a space with an empty layout, replacing any layout it had.
    pub fn add_space(&mut self, sid: u64, layout: ViewType, config: LayoutConfig, area: Area)
        requires
            old(self).wf(),
        ensures
            final(self).wf(),
            final(self)@ == old(self)@.with_space(sid, layout, config, area),
    {
        let ghost pre = *self;
        self.put_space(sid, SpaceRecord { layout, gap: config.gap, windows: Vec::new() });
        self.ops.push(LayoutOp::NewTree { sid, layout, config, area });
        if self.active_space.is_none() {
            self.active_space = Some(sid);
        }
        proof {
            lemma_fewer_tiled(pre@, self@);
        }
    }

    /// Drop a space and its layout. The windows it tiled are handed back.
    pub fn remove_space(&mut self, sid: u64) -> (r: Vec<u32>)
        requires
            old(self).wf(),
        ensures
            final(self).wf(),
            final(self)@ == old(self)@.without_space(sid),
            r@ == (if old(self)@.spaces.dom().contains(sid) {
                old(self)@.spaces[sid].windows
            } else {
                Seq::empty()
            }),
    {
        let ghost pre = *self;
        let lost = match self.focused_window {
            Some(focused) => self.tiles(sid, focused),
            None => false,
        };
        let taken = self.spaces.remove(sid);
        if lost {
            self.focused_window = None;
        }
        let windows = match taken {
            Some(record) => {
                self.ops.push(LayoutOp::DropTree { sid });
                record.windows
            },
            None => Vec::new(),
        };
        proof {
            assert(self@.spaces =~= pre@.spaces.remove(sid));
            lemma_fewer_tiled(pre@, self@);
        }
        if self.active_space == Some(sid) {
            let ids = self.space_ids();
            self.active_space = if ids.len() > 0 {
                Some(ids[0])
            } else {
                None
            };
        }
        proof {
            lemma_fewer_tiled(pre@, self@);
        }
        windows
    }

    /// Move a tiled window into the layout of another space. Nothing moves to a
    /// space without a layout.
    pub fn relocate(&mut self, window_id: u32, to_sid: u64)
        requires
            old(self).wf(),
            old(self)@.is_tiled(window_id),
        ensures
            final(self).wf(),
            final(self)@ == old(self)@.relocated(window_id, to_sid),
    {
        if !self.has_space(to_sid) {
            return;
        }
        let ghost pre = *self;
        proof {
            let sid = choose|sid: u64| pre@.tiles(sid, window_id);
            assert(!pre@.exempt(window_id));
            pre@.lemma_untiled(window_id);
        }
        self.untile(window_id);
        let ghost cleared = self@;
        self.window_spaces.insert(window_id, to_sid);
        proof {
            lemma_same_layouts(cleared, self@);
        }
        self.tile(window_id, to_sid, None);
    }

    /// Change the layout of a space.
    pub fn set_layout(&mut self, sid: u64, layout: ViewType)
        requires
            old(self).wf(),
            old(self)@.spaces.dom().contains(sid),
        ensures
            final(self).wf(),
            final(self)@ == old(self)@.with_layout(sid, layout),
    {
        let ghost pre = *self;
        if let Some(record) = self.spaces.remove(sid) {
            assert(record@ == pre@.spaces[sid]);
            self.put_space(sid, SpaceRecord { layout, ..record });
        }
        self.ops.push(LayoutOp::SetLayout { sid, layout });
        proof {
            assert(self@.spaces =~= pre@.with_layout(sid, layout).spaces);
            assert(self@.spaces.dom() =~= pre@.spaces.dom());
            lemma_same_windows(pre@, self@);
        }
    }

    /// Change the gap of a space.
    pub fn set_gap(&mut self, sid: u64, gap: i32)
        requires
            old(self).wf(),
            old(self)@.spaces.dom().contains(sid),
        ensures
            final(self).wf(),
            final(self)@ == old(self)@.with_gap(sid, gap),
    {
        let ghost pre = *self;
        if let Some(record) = self.spaces.remove(sid) {
            assert(record@ == pre@.spaces[sid]);
            self.put_space(sid, SpaceRecord { gap, ..record });
        }
        self.ops.push(LayoutOp::SetGap { sid, gap });
        proof {
            assert(self@.spaces =~= pre@.with_gap(sid, gap).spaces);
            assert(self@.spaces.dom() =~= pre@.spaces.dom());
            lemma_same_windows(pre@, self@);
        }
    }

    /// Change the settings of a layout.
    pub fn set_config(&mut self, sid: u64, config: LayoutConfig)
        requires
            old(self).wf(),
            old(self)@.spaces.dom().contains(sid),
        ensures
            final(self).wf(),
            final(self)@ == old(self)@.with_config(sid, config),
    {
        let ghost pre = *self;
        if let Some(record) = self.spaces.remove(sid) {
            assert(record@ == pre@.spaces[sid]);
            self.put_space(sid, SpaceRecord { gap: config.gap, ..record });
        }
        self.ops.push(LayoutOp::SetConfig { sid, config });
        proof {
            assert(self@.spaces =~= pre@.with_config(sid, config).spaces);
            assert(self@.spaces.dom() =~= pre@.spaces.dom());
            lemma_same_windows(pre@, self@);
        }
    }

    /// Clear the mark of a floating window.
    pub fn clear_floating(&mut self, window_id: u32)
        requires
            old(self).wf(),
        ensures
            final(self).wf(),
            final(self)@ == old(self)@.unmarked(window_id),
    {
        let ghost pre = *self;
        let _ = self.floating.remove(window_id);
        proof {
            assert(self@.floating =~= pre@.floating.remove(window_id));
            lemma_fewer_exempt(pre@, self@);
        }
    }

    /// Take over the order in which the layout engine lists the windows of a
    /// space. An order that does not list exactly the tiled windows, each once,
    /// is turned down.
    pub fn set_order(&mut self, sid: u64, order: Vec<u32>) -> (r: bool)
        requires
            old(self).wf(),
        ensures
            final(self).wf(),
            r == old(self)@.is_order_of(sid, order@),
            final(self)@ == (if r {
                old(self)@.reordered(sid, order@)
            } else {
                old(self)@
            }),
    {
        let ghost pre = *self;
        let fits = match self.spaces.get(sid) {
            Some(record) => is_permutation(&record.windows, &order),
            None => false,
        };
        if !fits {
            return false;
        }
        let ghost listed = order@;
        if let Some(record) = self.spaces.remove(sid) {
            assert(record@ == pre@.spaces[sid]);
            self.put_space(sid, SpaceRecord { windows: order, ..record });
        }
        proof {
            assert(self@.spaces =~= pre@.reordered(sid, listed).spaces);
            assert forall|s: u64, w: u32| #[trigger] self@.tiles(s, w) implies pre@.tiles(s, w) by {
                if s == sid {
                    assert(pre@.spaces[sid].windows.contains(w));
                }
            }
            lemma_fewer_tiled(pre@, self@);
        }
        true
    }

    /// Leave the layout engine one more operation.
    pub fn push_op(&mut self, op: LayoutOp)
        requires
            old(self).wf(),
        ensures
            final(self).wf(),
            final(self)@ == old(self)@.with_op(op),
    {
        let ghost pre = *self;
        self.ops.push(op);
        proof {
            lemma_same_layouts(pre@, self@);
        }
    }

    /// Whether there are operations to perform.
    pub fn has_ops(&self) -> (r: bool)
        ensures
            r == (self@.ops.len() > 0),
    {
        self.ops.len() > 0
    }

    /// Hand over the operations that the layout engine has yet to perform.
    pub fn take_ops(&mut self) -> (r: Vec<LayoutOp>)
        requires
            old(self).wf(),
        ensures
            final(self).wf(),
            final(self)@ == (TilingModel { ops: Seq::empty(), ..old(self)@ }),
            r@ == old(self)@.ops,
    {
        let ghost pre = *self;
        let mut taken: Vec<LayoutOp> = Vec::new();
        std::mem::swap(&mut taken, &mut self.ops);
        proof {
            lemma_same_layouts(pre@, self@);
        }
        taken
    }
}

/// Only the spaces and the exempt windows matter to well-formedness.
pub proof fn lemma_same_layouts(a: TilingModel, b: TilingModel)
    requires
        a.wf(),
        a.spaces == b.spaces,
        a.floating == b.floating,
        a.sticky == b.sticky,
    ensures
        b.wf(),
        forall|sid: u64, w: u32| a.tiles(sid, w) == #[trigger] b.tiles(sid, w),
        forall|w: u32| a.is_tiled(w) == #[trigger] b.is_tiled(w),
{
    assert forall|sid: u64, w: u32| a.tiles(sid, w) == #[trigger] b.tiles(sid, w) by {}
    assert forall|w: u32| a.is_tiled(w) == #[trigger] b.is_tiled(w) by {
        if a.is_tiled(w) {
            let sid = choose|sid: u64| a.tiles(sid, w);
            assert(b.tiles(sid, w));
        }
    }
    assert forall|x: u64, y: u64, w: u32| #[trigger] b.tiles(x, w) && #[trigger] b.tiles(
        y,
        w,
    ) implies x == y by {
        assert(a.tiles(x, w) && a.tiles(y, w));
    }
    assert forall|sid: u64, w: u32| #[trigger] b.tiles(sid, w) implies !b.exempt(w) by {
        assert(a.tiles(sid, w));
    }
}

proof fn lemma_same_windows(a: TilingModel, b: TilingModel)
    requires
        a.wf(),
        a.spaces.dom() == b.spaces.dom(),
        forall|sid: u64| #[trigger]
            b.spaces.dom().contains(sid) ==> b.spaces[sid].windows == a.spaces[sid].windows,
        a.floating == b.floating,
        a.sticky == b.sticky,
    ensures
        b.wf(),
{
    assert forall|sid: u64, w: u32| a.tiles(sid, w) == #[trigger] b.tiles(sid, w) by {}
    assert forall|x: u64, y: u64, w: u32| #[trigger] b.tiles(x, w) && #[trigger] b.tiles(
        y,
        w,
    ) implies x == y by {
        assert(a.tiles(x, w) && a.tiles(y, w));
    }
    assert forall|sid: u64, w: u32| #[trigger] b.tiles(sid, w) implies !b.exempt(w) by {
        assert(a.tiles(sid, w));
    }
}

proof fn lemma_fewer_tiled(a: TilingModel, b: TilingModel)
    requires
        a.wf(),
        forall|sid: u64| #[trigger]
            b.spaces.dom().contains(sid) ==> b.spaces[sid].windows.no_duplicates(),
        forall|sid: u64, w: u32| #[trigger] b.tiles(sid, w) ==> a.tiles(sid, w),
        a.floating == b.floating,
        a.sticky == b.sticky,
    ensures
        b.wf(),
{
    assert forall|x: u64, y: u64, w: u32| #[trigger] b.tiles(x, w) && #[trigger] b.tiles(
        y,
        w,
    ) implies x == y by {
        assert(a.tiles(x, w) && a.tiles(y, w));
    }
    assert forall|sid: u64, w: u32| #[trigger] b.tiles(sid, w) implies !b.exempt(w) by {
        assert(a.tiles(sid, w));
    }
}

proof fn lemma_fewer_exempt(a: TilingModel, b: TilingModel)
    requires
        a.wf(),
        a.spaces == b.spaces,
        b.floating.subset_of(a.floating),
        b.sticky.subset_of(a.sticky),
    ensures
        b.wf(),
{
    assert forall|x: u64, y: u64, w: u32| #[trigger] b.tiles(x, w) && #[trigger] b.tiles(
        y,
        w,
    ) implies x == y by {
        assert(a.tiles(x, w) && a.tiles(y, w));
    }
    assert forall|sid: u64, w: u32| #[trigger] b.tiles(sid, w) implies !b.exempt(w) by {
        assert(a.tiles(sid, w));
        if b.floating.contains(w) {
            assert(a.floating.contains(w));
        }
        if b.sticky.contains(w) {
            assert(a.sticky.contains(w));
        }
    }
}

proof fn lemma_one_more_exempt(a: TilingModel, b: TilingModel, window_id: u32)
    requires
        a.wf(),
        a.spaces == b.spaces,
        !a.is_tiled(window_id),
        b.floating == a.floating || b.floating == a.floating.insert(window_id),
        b.sticky == a.sticky || b.sticky == a.sticky.insert(window_id),
    ensures
        b.wf(),
{
    assert forall|x: u64, y: u64, w: u32| #[trigger] b.tiles(x, w) && #[trigger] b.tiles(
        y,
        w,
    ) implies x == y by {
        assert(a.tiles(x, w) && a.tiles(y, w));
    }
    assert forall|sid: u64, w: u32| #[trigger] b.tiles(sid, w) implies !b.exempt(w) by {
        assert(a.tiles(sid, w));
    }
}

/// An accepted assignment of a window that takes part in layouts puts it on
/// that space, and there alone.
pub proof fn law_assigned_window_is_tiled_there(m: TilingModel, window_id: u32, sid: u64)
    requires
        m.wf(),
        !m.exempt(window_id),
        m.spaces.dom().contains(sid),
    ensures
        m.assigned(window_id, sid).wf(),
        m.assigned(window_id, sid).space_of(window_id) == Some(sid),
        m.assigned(window_id, sid).window_spaces[window_id] == sid,
{
    let n = m.noted(window_id, sid);
    lemma_same_layouts(m, n);
    if m.assignment_tiles(window_id, sid) {
        n.lemma_untiled(window_id);
        let cleared = n.untiled(window_id);
        cleared.lemma_tiled(window_id, sid, cleared.focus_on(sid));
        lemma_same_layouts(
            cleared.tiled(window_id, sid, cleared.focus_on(sid)),
            m.assigned(window_id, sid),
        );
        m.assigned(window_id, sid).lemma_space_of(sid, window_id);
    } else {
        assert(n.tiles(sid, window_id));
        n.lemma_space_of(sid, window_id);
    }
}

/// Assigning a window to the space it was just assigned to changes nothing.
pub proof fn law_assignment_is_idempotent(m: TilingModel, window_id: u32, sid: u64)
    requires
        m.wf(),
        !m.assignment_refused(window_id, sid),
    ensures
        m.assigned(window_id, sid).assigned(window_id, sid) == m.assigned(window_id, sid),
{
    let a = m.assigned(window_id, sid);
    if m.assignment_tiles(window_id, sid) {
        law_assigned_window_is_tiled_there(m, window_id, sid);
        assert(a.tiles(sid, window_id));
        assert(!a.assignment_tiles(window_id, sid));
    } else {
        assert(a.spaces == m.spaces);
        assert(!a.assignment_tiles(window_id, sid));
    }
    assert(a.window_spaces.insert(window_id, sid) =~= a.window_spaces);
}

/// A floating or sticky window is never put into a layout: assigning it only
/// notes its space.
pub proof fn law_exempt_windows_stay_out(m: TilingModel, window_id: u32, sid: u64)
    requires
        m.wf(),
        m.exempt(window_id),
    ensures
        m.assigned(window_id, sid) == m.noted(window_id, sid),
        !m.assigned(window_id, sid).is_tiled(window_id),
{
    lemma_same_layouts(m, m.noted(window_id, sid));
}

/// Moving one window leaves every other window where it was.
pub proof fn law_assignment_spares_others(
    m: TilingModel,
    window_id: u32,
    sid: u64,
    other: u32,
    other_sid: u64,
)
    requires
        m.wf(),
        other != window_id,
    ensures
        m.assigned(window_id, sid).tiles(other_sid, other) == m.tiles(other_sid, other),
{
    let n = m.noted(window_id, sid);
    lemma_same_layouts(m, n);
    if m.assignment_tiles(window_id, sid) {
        n.lemma_untiled(window_id);
        let cleared = n.untiled(window_id);
        let placed = cleared.tiled(window_id, sid, cleared.focus_on(sid));
        cleared.lemma_tiled(window_id, sid, cleared.focus_on(sid));
        assert(placed.tiles(other_sid, other) == cleared.tiles(other_sid, other));
        assert(m.assigned(window_id, sid).tiles(other_sid, other) == placed.tiles(
            other_sid,
            other,
        ));
    } else {
        assert(m.assigned(window_id, sid).tiles(other_sid, other) == n.tiles(other_sid, other));
    }
}

/// Floating a window and unfloating it again puts it back into the layout of
/// the space given.
pub proof fn law_unfloating_tiles_again(m: TilingModel, window_id: u32, sid: u64)
    requires
        m.wf(),
        !m.sticky.contains(window_id),
        m.spaces.dom().contains(sid),
    ensures
        !m.floated(window_id, true, sid).is_tiled(window_id),
        m.floated(window_id, true, sid).floated(window_id, false, sid).space_of(window_id) == Some(
            sid,
        ),
        !m.floated(window_id, true, sid).floated(window_id, false, sid).floating.contains(
            window_id,
        ),
{
    m.lemma_untiled(window_id);
    let up = m.floated(window_id, true, sid);
    lemma_one_more_exempt(m.untiled(window_id), up, window_id);
    assert forall|s: u64| !(#[trigger] up.tiles(s, window_id)) by {
        if up.tiles(s, window_id) {
            assert(m.untiled(window_id).tiles(s, window_id));
        }
    }
    let down = TilingModel { floating: up.floating.remove(window_id), ..up };
    lemma_fewer_exempt(up, down);
    law_assigned_window_is_tiled_there(down, window_id, sid);
}

/// A forgotten window is tiled nowhere, floats no more and has no focus.
pub proof fn law_forgotten_window_is_nowhere(m: TilingModel, window_id: u32)
    requires
        m.wf(),
    ensures
        !m.forgotten(window_id).is_tiled(window_id),
        !m.forgotten(window_id).floating.contains(window_id),
        !m.forgotten(window_id).window_spaces.dom().contains(window_id),
        m.forgotten(window_id).focused_window != Some(window_id),
{
    m.lemma_untiled(window_id);
    assert forall|s: u64| !(#[trigger] m.forgotten(window_id).tiles(s, window_id)) by {
        if m.forgotten(window_id).tiles(s, window_id) {
            assert(m.untiled(window_id).tiles(s, window_id));
        }
    }
}

/// The window that had the focus before the present one is remembered.
pub proof fn law_recent_window(m: TilingModel, first: u32, second: u32)
    requires
        first != second,
    ensures
        m.refocused(Some(first)).refocused(Some(second)).focused_window == Some(second),
        m.refocused(Some(first)).refocused(Some(second)).last_focused_window == Some(first),
{
}

/// The space that was active before the present one is remembered.
pub proof fn law_recent_space(m: TilingModel, first: u64, second: u64)
    requires
        first != second,
    ensures
        m.activated(first).activated(second).active_space == Some(second),
        m.activated(first).activated(second).last_active_space == Some(first),
{
}

/// When the active space goes, some space that still has a layout becomes
/// active, and none has a smaller identifier; with no space left none is
/// active.
pub proof fn law_active_space_survives(m: TilingModel, sid: u64)
    requires
        m.active_space == Some(sid),
        m.spaces.dom().finite(),
    ensures
        match m.without_space(sid).active_space {
            Some(next) => {
                &&& m.without_space(sid).spaces.dom().contains(next)
                &&& forall|other: u64| #[trigger]
                    m.without_space(sid).spaces.dom().contains(other) ==> next <= other
            },
            None => m.without_space(sid).spaces.dom() == Set::<u64>::empty(),
        },
{
    let rest = m.without_space(sid);
    let set = rest.spaces.dom();
    assert(set.finite());
    idmap::lemma_listing_exists(set);
    let ids = idmap::ids_of(set);
    if ids.len() > 0 {
        assert(ids.contains(ids[0]));
        assert forall|other: u64| #[trigger] set.contains(other) implies ids[0] <= other by {
            assert(ids.contains(other));
            let j = choose|j: int| 0 <= j < ids.len() && ids[j] == other;
            if j > 0 {
                assert(idmap::Id::rank(ids[0]) < idmap::Id::rank(ids[j]));
            }
        }
    } else {
        assert forall|k: u64| !set.contains(k) by {
            if set.contains(k) {
                assert(ids.contains(k));
            }
        }
        assert(set =~= Set::<u64>::empty());
    }
}

/// A window that no layout has yet goes behind the others of the space, beside the
/// focused window if that is there, and takes the focus.
pub proof fn law_new_window_goes_behind_the_others(m: TilingModel, window_id: u32, sid: u64)
    requires
        m.wf(),
        m.spaces.dom().contains(sid),
        !m.floating.contains(window_id),
        !m.sticky.contains(window_id),
        forall|k: u64|
            m.spaces.dom().contains(k) ==> !(#[trigger] m.spaces[k]).windows.contains(window_id),
    ensures
        ({
            let n = m.assigned(window_id, sid);
            let beside = if m.focused_window is Some && m.spaces[sid].windows.contains(
                m.focused_window->0,
            ) {
                m.focused_window
            } else {
                None
            };
            &&& n.spaces == m.spaces.insert(
                sid,
                Space {
                    layout: m.spaces[sid].layout,
                    gap: m.spaces[sid].gap,
                    windows: m.spaces[sid].windows.push(window_id),
                },
            )
            &&& n.ops == m.ops.push(LayoutOp::Add { sid, window_id, beside })
            &&& n.window_spaces == m.window_spaces.insert(window_id, sid)
            &&& n.focused_window == Some(window_id)
            &&& n.last_focused_window == if m.focused_window is Some && m.focused_window != Some(
                window_id,
            ) {
                m.focused_window
            } else {
                m.last_focused_window
            }
            &&& n.active_space == m.active_space
            &&& n.floating == m.floating
            &&& n.sticky == m.sticky
        }),
{
    let n = m.noted(window_id, sid);
    assert(!n.is_tiled(window_id)) by {
        if n.is_tiled(window_id) {
            let k = choose|k: u64| n.tiles(k, window_id);
            assert(m.spaces[k].windows.contains(window_id));
        }
    }
    assert(!m.tiles(sid, window_id));
}

/// A window that goes from one layout to another leaves the first, where the others
/// keep their order, and goes behind those of the second. The focus stays.
pub proof fn law_window_moves_between_layouts(
    m: TilingModel,
    window_id: u32,
    from: u64,
    to: u64,
    place: int,
)
    requires
        m.wf(),
        from != to,
        m.spaces.dom().contains(from),
        m.spaces.dom().contains(to),
        0 <= place < m.spaces[from].windows.len(),
        m.spaces[from].windows[place] == window_id,
    ensures
        ({
            let n = m.assigned(window_id, to);
            let beside = if m.focused_window is Some && m.spaces[to].windows.contains(
                m.focused_window->0,
            ) {
                m.focused_window
            } else {
                None
            };
            &&& n.spaces.dom() == m.spaces.dom()
            &&& n.spaces[from].windows == m.spaces[from].windows.remove(place)
            &&& n.spaces[from].layout == m.spaces[from].layout
            &&& n.spaces[from].gap == m.spaces[from].gap
            &&& n.spaces[to].windows == m.spaces[to].windows.push(window_id)
            &&& n.spaces[to].layout == m.spaces[to].layout
            &&& n.spaces[to].gap == m.spaces[to].gap
            &&& forall|k: u64| k != from && k != to ==> #[trigger] n.spaces[k] == m.spaces[k]
            &&& n.ops == m.ops.push(LayoutOp::Remove { sid: from, window_id }).push(
                LayoutOp::Add { sid: to, window_id, beside },
            )
            &&& n.focused_window == m.focused_window
            &&& n.last_focused_window == m.last_focused_window
            &&& n.window_spaces == m.window_spaces.insert(window_id, to)
        }),
{
    assert(m.spaces[from].windows.contains(window_id));
    assert(m.tiles(from, window_id));
    let noted = m.noted(window_id, to);
    lemma_same_layouts(m, noted);
    assert(noted.tiles(from, window_id));
    noted.lemma_space_of(from, window_id);
    if m.tiles(to, window_id) {
        assert(from == to);
    }
    assert(!m.exempt(window_id));
    lemma_place(m.spaces[from].windows, window_id, place);
    let n = m.assigned(window_id, to);
    assert(n.spaces.dom() =~= m.spaces.dom());
    let cleared = noted.untiled(window_id);
    if m.focused_window is Some {
        let f = m.focused_window->0;
        assert(cleared.tiles(to, f) == m.spaces[to].windows.contains(f));
    }
}

proof fn lemma_place(windows: Seq<u32>, window_id: u32, place: int)
    requires
        windows.no_duplicates(),
        0 <= place < windows.len(),
        windows[place] == window_id,
    ensures
        windows.contains(window_id),
        windows.index_of(window_id) == place,
{
    assert(windows.contains(window_id));
    assert(windows[windows.index_of(window_id)] == window_id);
}

/// A window closed leaves its layout, where the others keep their order, and every
/// list but that of the sticky windows; no other window loses anything by it.
pub proof fn law_closed_window_leaves_its_layout(
    m: TilingModel,
    window_id: u32,
    sid: u64,
    place: int,
)
    requires
        m.wf(),
        m.spaces.dom().contains(sid),
        0 <= place < m.spaces[sid].windows.len(),
        m.spaces[sid].windows[place] == window_id,
    ensures
        ({
            let n = m.forgotten(window_id);
            &&& n.spaces.dom() == m.spaces.dom()
            &&& n.spaces[sid].windows == m.spaces[sid].windows.remove(place)
            &&& n.spaces[sid].layout == m.spaces[sid].layout
            &&& n.spaces[sid].gap == m.spaces[sid].gap
            &&& forall|k: u64| k != sid ==> #[trigger] n.spaces[k] == m.spaces[k]
            &&& n.ops == m.ops.push(LayoutOp::Remove { sid, window_id })
            &&& m.focused_window == Some(window_id) ==> n.focused_window is None
            &&& m.focused_window != Some(window_id) ==> n.focused_window == m.focused_window
            &&& n.last_focused_window == m.last_focused_window
            &&& n.window_spaces == m.window_spaces.remove(window_id)
            &&& n.sticky == m.sticky
            &&& n.active_space == m.active_space
        }),
{
    lemma_place(m.spaces[sid].windows, window_id, place);
    assert(m.tiles(sid, window_id));
    m.lemma_space_of(sid, window_id);
    assert(m.forgotten(window_id).spaces.dom() =~= m.spaces.dom());
}

/// A window floated, or shown on every space, leaves its layout, where the others
/// keep their order.
pub proof fn law_exempted_window_leaves_its_layout(
    m: TilingModel,
    window_id: u32,
    sid: u64,
    place: int,
    any: u64,
)
    requires
        m.wf(),
        m.spaces.dom().contains(sid),
        0 <= place < m.spaces[sid].windows.len(),
        m.spaces[sid].windows[place] == window_id,
    ensures
        ({
            let left = TilingModel {
                spaces: m.spaces.insert(
                    sid,
                    Space { windows: m.spaces[sid].windows.remove(place), ..m.spaces[sid] },
                ),
                ops: m.ops.push(LayoutOp::Remove { sid, window_id }),
                ..m
            };
            &&& m.floated(window_id, true, any) == (TilingModel {
                floating: m.floating.insert(window_id),
                ..left
            })
            &&& m.stuck(window_id, true, any) == (TilingModel {
                sticky: m.sticky.insert(window_id),
                ..left
            })
        }),
{
    lemma_place(m.spaces[sid].windows, window_id, place);
    assert(m.tiles(sid, window_id));
    m.lemma_space_of(sid, window_id);
}

/// A window that neither floats nor is sticky is left alone where it is told not to;
/// one that floats stays out of layouts when it is sticky no more.
pub proof fn law_nothing_to_undo(m: TilingModel, window_id: u32, sid: u64)
    ensures
        !m.floating.contains(window_id) ==> m.floated(window_id, false, sid) == m,
        !m.sticky.contains(window_id) ==> m.stuck(window_id, false, sid) == m,
        m.sticky.contains(window_id) && m.floating.contains(window_id) ==> m.stuck(
            window_id,
            false,
            sid,
        ) == (TilingModel { sticky: m.sticky.remove(window_id), ..m }),
{
}

/// A window made sticky and loose again is tiled on the space given.
pub proof fn law_unsticking_tiles_again(m: TilingModel, window_id: u32, sid: u64)
    requires
        m.wf(),
        !m.floating.contains(window_id),
        m.spaces.dom().contains(sid),
    ensures
        m.stuck(window_id, true, sid).sticky.contains(window_id),
        !m.stuck(window_id, true, sid).is_tiled(window_id),
        m.stuck(window_id, true, sid).stuck(window_id, false, sid).space_of(window_id) == Some(sid),
        !m.stuck(window_id, true, sid).stuck(window_id, false, sid).sticky.contains(window_id),
{
    m.lemma_untiled(window_id);
    let up = m.stuck(window_id, true, sid);
    let bare = m.untiled(window_id);
    assert forall|s: u64| !(#[trigger] up.tiles(s, window_id)) by {
        assert(!bare.tiles(s, window_id));
    }
    let down = TilingModel { sticky: up.sticky.remove(window_id), ..up };
    assert(down.wf()) by {
        assert forall|s: u64, w: u32| #[trigger] down.tiles(s, w) implies !down.exempt(w) by {
            assert(bare.tiles(s, w));
            assert(w != window_id);
        }
        assert forall|a: u64, b: u64, w: u32| #[trigger]
            down.tiles(a, w) && #[trigger] down.tiles(b, w) implies a == b by {
            assert(bare.tiles(a, w) && bare.tiles(b, w));
        }
        assert forall|s: u64| #[trigger]
            down.spaces.dom().contains(s) implies down.spaces[s].windows.no_duplicates() by {
            assert(bare.spaces.dom().contains(s));
        }
    }
    assert(!down.exempt(window_id));
    law_assigned_window_is_tiled_there(down, window_id, sid);
}

/// A new space has an empty layout of the kind and with the gap given, and is active
/// if none was; the other spaces stay.
pub proof fn law_new_space_is_empty(
    m: TilingModel,
    sid: u64,
    layout: ViewType,
    config: LayoutConfig,
    area: Area,
)
    ensures
        ({
            let n = m.with_space(sid, layout, config, area);
            &&& n.spaces[sid].windows.len() == 0
            &&& n.spaces[sid].layout == layout
            &&& n.spaces[sid].gap == config.gap
            &&& n.spaces.dom().contains(sid)
            &&& forall|k: u64| k != sid ==> #[trigger] n.spaces[k] == m.spaces[k]
            &&& n.ops == m.ops.push(LayoutOp::NewTree { sid, layout, config, area })
            &&& m.active_space is None ==> n.active_space == Some(sid)
            &&& m.active_space is Some ==> n.active_space == m.active_space
            &&& n.last_active_space == m.last_active_space
            &&& n.focused_window == m.focused_window
        }),
{
}

/// A space that goes takes its layout along, and the focus if that was on it; the
/// other spaces stay, and so does another active space.
pub proof fn law_space_gone(m: TilingModel, sid: u64)
    ensures
        ({
            let n = m.without_space(sid);
            &&& n.spaces == m.spaces.remove(sid)
            &&& m.spaces.dom().contains(sid) ==> n.ops == m.ops.push(LayoutOp::DropTree { sid })
            &&& !m.spaces.dom().contains(sid) ==> n.ops == m.ops
            &&& m.focused_window is Some && m.spaces.dom().contains(sid)
                && m.spaces[sid].windows.contains(m.focused_window->0) ==> n.focused_window is None
            &&& m.focused_window is Some && !(m.spaces.dom().contains(sid)
                && m.spaces[sid].windows.contains(m.focused_window->0)) ==> n.focused_window
                == m.focused_window
            &&& m.active_space != Some(sid) ==> n.active_space == m.active_space
            &&& n.last_active_space == m.last_active_space
            &&& n.window_spaces == m.window_spaces
        }),
{
}

/// The focus and the active space change alone; losing the focus, or getting again
/// what one has, forgets nothing.
pub proof fn law_focus_and_activity_alone(m: TilingModel, window_id: u32, sid: u64)
    ensures
        m.refocused(None) == (TilingModel { focused_window: None, ..m }),
        m.focused_window == Some(window_id) ==> m.refocused(Some(window_id)) == m,
        m.focused_window is None ==> m.refocused(Some(window_id)) == (TilingModel {
            focused_window: Some(window_id),
            ..m
        }),
        m.focused_window is Some && m.focused_window != Some(window_id) ==> m.refocused(
            Some(window_id),
        ) == (TilingModel {
            focused_window: Some(window_id),
            last_focused_window: m.focused_window,
            ..m
        }),
        m.active_space == Some(sid) ==> m.activated(sid) == m,
        m.active_space is None ==> m.activated(sid) == (TilingModel {
            active_space: Some(sid),
            ..m
        }),
        m.active_space is Some && m.active_space != Some(sid) ==> m.activated(sid) == (
        TilingModel { active_space: Some(sid), last_active_space: m.active_space, ..m }),
{
}

/// A window dropped on another space leaves its layout and goes behind the windows of
/// that space, beside none in particular; the focus stays.
pub proof fn law_dropped_window_goes_behind_the_others(
    m: TilingModel,
    window_id: u32,
    from: u64,
    to: u64,
    place: int,
)
    requires
        m.wf(),
        from != to,
        m.spaces.dom().contains(from),
        m.spaces.dom().contains(to),
        0 <= place < m.spaces[from].windows.len(),
        m.spaces[from].windows[place] == window_id,
    ensures
        ({
            let n = m.relocated(window_id, to);
            &&& n.spaces[from].windows == m.spaces[from].windows.remove(place)
            &&& n.spaces[to].windows == m.spaces[to].windows.push(window_id)
            &&& forall|k: u64| k != from && k != to ==> #[trigger] n.spaces[k] == m.spaces[k]
            &&& n.ops == m.ops.push(LayoutOp::Remove { sid: from, window_id }).push(
                LayoutOp::Add { sid: to, window_id, beside: None },
            )
            &&& n.window_spaces == m.window_spaces.insert(window_id, to)
            &&& n.focused_window == m.focused_window
            &&& n.last_focused_window == m.last_focused_window
        }),
{
    lemma_place(m.spaces[from].windows, window_id, place);
    assert(m.tiles(from, window_id));
    m.lemma_space_of(from, window_id);
}

/// The first window other than a given one: it is in the list, is not that one, and
/// every window before it is that one.
pub proof fn law_first_other_window(ids: Seq<u32>, wid: u32)
    ensures
        match first_other(ids, wid) {
            Some(w) => w != wid && exists|i: int|
                0 <= i < ids.len() && #[trigger] ids[i] == w && forall|j: int|
                    0 <= j < i ==> #[trigger] ids[j] == wid,
            None => forall|i: int| 0 <= i < ids.len() ==> #[trigger] ids[i] == wid,
        },
    decreases ids.len(),
{
    if ids.len() > 0 {
        let less = ids.drop_last();
        law_first_other_window(less, wid);
        assert forall|i: int| 0 <= i < less.len() implies #[trigger] ids[i] == less[i] by {}
        match first_other(less, wid) {
            Some(w) => {
                let i = choose|i: int|
                    0 <= i < less.len() && #[trigger] less[i] == w && forall|j: int|
                        0 <= j < i ==> #[trigger] less[j] == wid;
                assert(ids[i] == w);
                assert forall|j: int| 0 <= j < i implies #[trigger] ids[j] == wid by {
                    assert(less[j] == wid);
                }
            },
            None => {
                assert forall|i: int| 0 <= i < less.len() implies #[trigger] ids[i] == wid by {
                    assert(less[i] == wid);
                }
                assert(ids[ids.len() - 1] == ids.last());
            },
        }
    }
}

/// A report is taken over exactly if it lists the windows that the space tiles, each
/// once; it changes their order on that space alone.
pub proof fn law_reports_reorder(m: TilingModel, sid: u64, order: Seq<u32>, w: u32)
    ensures
        m.is_order_of(sid, order) ==> {
            let n = m.reordered(sid, order);
            &&& n.spaces[sid].windows == order
            &&& n.spaces[sid].windows.contains(w) <==> m.spaces[sid].windows.contains(w)
            &&& n.spaces[sid].layout == m.spaces[sid].layout
            &&& n.spaces[sid].gap == m.spaces[sid].gap
            &&& n.spaces.dom() == m.spaces.dom()
            &&& forall|k: u64| k != sid ==> #[trigger] n.spaces[k] == m.spaces[k]
            &&& n.ops == m.ops
            &&& n.focused_window == m.focused_window
        },
        !m.spaces.dom().contains(sid) ==> !m.is_order_of(sid, order),
        !order.no_duplicates() ==> !m.is_order_of(sid, order),
        order.contains(w) != m.spaces[sid].windows.contains(w) ==> !m.is_order_of(sid, order),
{
    if m.is_order_of(sid, order) {
        assert(m.reordered(sid, order).spaces.dom() =~= m.spaces.dom());
        assert(order.contains(w) <==> m.spaces[sid].windows.contains(w));
    }
}

} // verus!
