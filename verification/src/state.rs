//! The daemon's state and everything that changes it.
use vstd::prelude::*;

use crate::config;
use crate::config::{Config, ConfigOp};
use crate::idmap;
use crate::idmap::IdMap;
use crate::labels;
use crate::rules::Rule;
use crate::signals::Signal;
use crate::tiling;
use crate::tiling::{BarRoom, LayoutOp, Padding, SpaceRecord, Tiling};
use crate::topology;
use crate::topology::{DisplayInfo, Topology};
use crate::types::{
    Area, ExternalBar, ExternalBarMode, FfmMode, LayoutConfig, MouseAction, NodeSplit, Real,
    ValueType, ViewType, WindowOriginMode, ZoomKind,
};

verus! {

/// What is known of a window from the window system.
#[derive(Debug, PartialEq, Eq)]
pub struct WindowMeta {
    pub app: String,
    pub title: String,
    pub pid: i32,
}

/// What is read from the window system right before windows are listed.
#[derive(Debug)]
pub struct LiveWindowInfo {
    pub opacity: Real,
    pub role: String,
    pub subrole: String,
    pub can_move: bool,
    pub can_resize: bool,
}

/// What lies next to a window in one direction.
#[derive(Debug, Clone, Copy, PartialEq, Eq, Structural)]
pub enum Neighbor {
    /// There is no node in that direction.
    Absent,
    /// The node in that direction shows no window.
    Empty,
    /// The window on top of the node in that direction.
    Window(u32),
}

/// A tiled window as the layout engine reports it.
#[derive(Debug)]
pub struct WindowFrame {
    pub window_id: u32,
    pub area: Area,
    /// How the parent of the window's node is split, and whether the node is
    /// its first child; nothing at the root.
    pub parent: Option<(NodeSplit, bool)>,
    /// The windows that share the window's node.
    pub node_windows: Vec<u32>,
    pub north: Neighbor,
    pub east: Neighbor,
    pub south: Neighbor,
    pub west: Neighbor,
}

/// The layout of a space as the layout engine reports it.
#[derive(Debug)]
pub struct Capture {
    pub frames: Vec<WindowFrame>,
    pub zoomed: Option<(u32, ZoomKind)>,
}

/// The state of the daemon.
pub struct AppState {
    pub config: Config,
    tiling: Tiling,
    topology: Topology,
    meta: IdMap<u32, WindowMeta>,
    live: IdMap<u32, LiveWindowInfo>,
    shadow_disabled: IdMap<u32, ()>,
    scratchpads: IdMap<u32, String>,
    paddings: IdMap<u64, Padding>,
    usable: IdMap<u64, Area>,
    padding_disabled: IdMap<u64, ()>,
    gap_disabled: IdMap<u64, i32>,
    captures: IdMap<u64, Capture>,
    signals: Vec<Signal>,
    rules: Vec<Rule>,
}

/// What the state says.
pub ghost struct State {
    pub config: Config,
    pub tiling: tiling::TilingModel,
    pub topology: topology::TopologyModel,
    pub meta: Map<u32, WindowMeta>,
    pub live: Map<u32, LiveWindowInfo>,
    /// Windows whose shadow the user turned off.
    pub shadow_disabled: Set<u32>,
    /// The scratchpad labels of windows.
    pub scratchpads: Map<u32, Seq<char>>,
    /// Paddings set for single spaces.
    pub paddings: Map<u64, Padding>,
    /// The frame each space was last given, before paddings.
    pub usable: Map<u64, Area>,
    /// Spaces whose padding is switched off.
    pub padding_disabled: Set<u64>,
    /// Spaces whose gap is switched off, with the gap to restore.
    pub gap_disabled: Map<u64, i32>,
    /// The layouts as last reported.
    pub captures: Map<u64, Capture>,
    pub signals: Seq<Signal>,
    pub rules: Seq<Rule>,
}

impl State {
    /// The space that tiles a window, or else the last one it was assigned to.
    pub open spec fn known_space(self, window_id: u32) -> Option<u64> {
        match self.tiling.space_of(window_id) {
            Some(sid) => Some(sid),
            None => if self.tiling.window_spaces.dom().contains(window_id) {
                Some(self.tiling.window_spaces[window_id])
            } else {
                None
            },
        }
    }

    /// The padding a space is laid out with: none where it is switched off,
    /// the space's own if it has one, else the configured one.
    pub open spec fn padding_of(self, sid: u64) -> Padding {
        if self.padding_disabled.contains(sid) {
            Padding { top: 0, bottom: 0, left: 0, right: 0 }
        } else if self.paddings.dom().contains(sid) {
            self.paddings[sid]
        } else {
            Padding {
                top: self.config.top_padding,
                bottom: self.config.bottom_padding,
                left: self.config.left_padding,
                right: self.config.right_padding,
            }
        }
    }

    /// Whether room for the bar is kept on a space.
    pub open spec fn has_bar(self, sid: u64) -> bool {
        match self.config.external_bar.mode {
            ExternalBarMode::Off => false,
            ExternalBarMode::Main => self.topology.main_display is Some && self.topology.display_of(
                sid,
            ) == self.topology.main_display,
            ExternalBarMode::All => true,
        }
    }

    /// The room kept for the bar on a space.
    pub open spec fn bar_of(self, sid: u64) -> BarRoom {
        if self.has_bar(sid) {
            BarRoom { top: self.config.external_bar.top, bottom: self.config.external_bar.bottom }
        } else {
            BarRoom { top: 0, bottom: 0 }
        }
    }

    /// The gap a space is laid out with.
    pub open spec fn gap_of(self, sid: u64) -> i32 {
        if self.tiling.spaces.dom().contains(sid) {
            self.tiling.spaces[sid].gap
        } else {
            self.config.window_gap
        }
    }

    /// Whether a space has a layout other than floating.
    pub open spec fn is_managed(self, sid: u64) -> bool {
        self.tiling.spaces.dom().contains(sid) && self.tiling.spaces[sid].layout != ViewType::Float
    }

    /// A space given a frame: the frame is remembered, and a layout is inset
    /// from it.
    pub open spec fn framed(self, sid: u64, frame: Area) -> State {
        State {
            usable: self.usable.insert(sid, frame),
            tiling: if self.tiling.spaces.dom().contains(sid) {
                self.tiling.with_op(
                    LayoutOp::SetFrame {
                        sid,
                        frame,
                        padding: self.padding_of(sid),
                        bar: self.bar_of(sid),
                    },
                )
            } else {
                self.tiling
            },
            ..self
        }
    }

    /// A space inset again from the frame it was last given.
    pub open spec fn reframed(self, sid: u64) -> State {
        if self.usable.dom().contains(sid) {
            self.framed(sid, self.usable[sid])
        } else {
            self
        }
    }

    /// The reported layout of a space, if it has a layout.
    pub open spec fn frames_of(self, sid: u64) -> Option<Seq<WindowFrame>> {
        if !self.tiling.spaces.dom().contains(sid) {
            None
        } else if self.captures.dom().contains(sid) {
            Some(self.captures[sid].frames@)
        } else {
            Some(Seq::empty())
        }
    }

    /// Wherever the gap of a space is switched off, its layout has none.
    pub open spec fn gaps_held(self) -> bool {
        forall|sid: u64| #[trigger]
            self.gap_disabled.dom().contains(sid) && self.tiling.spaces.dom().contains(sid)
                ==> self.tiling.spaces[sid].gap == 0
    }

    /// The settings that the layout of a space goes by: the current ones, without
    /// a gap where it is switched off.
    pub open spec fn settings_for(self, sid: u64) -> LayoutConfig {
        if self.gap_disabled.dom().contains(sid) {
            LayoutConfig { gap: 0, ..self.config.layout_settings() }
        } else {
            self.config.layout_settings()
        }
    }

    /// A space with an empty layout of the configured kind.
    pub open spec fn with_space(self, sid: u64, area: Area) -> State {
        State {
            tiling: self.tiling.with_space(
                sid,
                self.config.layout,
                self.settings_for(sid),
                area,
            ),
            captures: self.captures.remove(sid),
            ..self
        }
    }

    /// The layout of a space given the current settings. A gap that is switched
    /// off stays off, and so does the gap to restore.
    pub open spec fn with_settings(self, sid: u64) -> State {
        State { tiling: self.tiling.with_config(sid, self.settings_for(sid)), ..self }
    }

    /// A space known to be on a display; it gets a layout if it has none.
    pub open spec fn with_space_on(self, sid: u64, display_id: u32, area: Area) -> State {
        let there = if self.tiling.spaces.dom().contains(sid) {
            self
        } else {
            self.with_space(sid, area)
        };
        State {
            topology: topology::TopologyModel {
                space_displays: self.topology.space_displays.insert(sid, display_id),
                ..self.topology
            },
            ..there
        }
    }

    /// A space gone, with what was known of the windows it tiled.
    pub open spec fn without_space(self, sid: u64) -> State {
        State {
            tiling: self.tiling.without_space(sid),
            topology: self.topology.without_space(sid),
            meta: Map::new(
                |w: u32| self.meta.dom().contains(w) && !self.tiling.tiles(sid, w),
                |w: u32| self.meta[w],
            ),
            captures: self.captures.remove(sid),
            ..self
        }
    }

    /// A window gone.
    pub open spec fn without_window(self, window_id: u32) -> State {
        State {
            tiling: self.tiling.forgotten(window_id),
            scratchpads: self.scratchpads.remove(window_id),
            ..self
        }
    }

    /// Whether another window has the scratchpad label.
    pub open spec fn scratchpad_taken(self, window_id: u32, label: Seq<char>) -> bool {
        exists|w: u32| w != window_id && labels::owns(self.scratchpads, w, label)
    }

    /// A window made the scratchpad of a label; it floats.
    pub open spec fn with_scratchpad(self, window_id: u32, label: Seq<char>, sid: u64) -> State {
        State {
            scratchpads: self.scratchpads.insert(window_id, label),
            tiling: self.tiling.floated(window_id, true, sid),
            ..self
        }
    }

    /// A window that is no scratchpad any more; on demand it is tiled again.
    pub open spec fn without_scratchpad(self, window_id: u32, unfloat: bool, sid: u64) -> State {
        if !self.scratchpads.dom().contains(window_id) {
            self
        } else {
            State {
                scratchpads: self.scratchpads.remove(window_id),
                tiling: if unfloat {
                    self.tiling.floated(window_id, false, sid)
                } else {
                    self.tiling
                },
                ..self
            }
        }
    }

    /// A value changed outright or by an amount, but not below zero.
    pub open spec fn adjusted(kind: ValueType, current: i32, value: i32) -> int {
        match kind {
            ValueType::Abs => value as int,
            ValueType::Rel => if current + value < 0 {
                0
            } else {
                current + value
            },
        }
    }

    /// Whether a change of the gap of a space stays in range.
    pub open spec fn gap_fits(self, sid: u64, kind: ValueType, gap: i32) -> bool {
        if self.gap_disabled.dom().contains(sid) {
            fits(kind, self.gap_disabled[sid], gap)
        } else {
            self.is_managed(sid) ==> fits(kind, self.tiling.spaces[sid].gap, gap)
        }
    }

    /// Whether a change of the padding of a space stays in range.
    pub open spec fn padding_fits(self, sid: u64, kind: ValueType, padding: Padding) -> bool {
        self.is_managed(sid) ==> {
            &&& fits(kind, self.padding_of(sid).top, padding.top)
            &&& fits(kind, self.padding_of(sid).bottom, padding.bottom)
            &&& fits(kind, self.padding_of(sid).left, padding.left)
            &&& fits(kind, self.padding_of(sid).right, padding.right)
        }
    }

    /// The gap of a space changed; while gaps are switched off the gap to
    /// restore is changed instead.
    pub open spec fn with_gap(self, sid: u64, kind: ValueType, gap: i32) -> State {
        if self.gap_disabled.dom().contains(sid) {
            State {
                gap_disabled: self.gap_disabled.insert(
                    sid,
                    State::adjusted(kind, self.gap_disabled[sid], gap) as i32,
                ),
                ..self
            }
        } else {
            State {
                tiling: self.tiling.with_gap(
                    sid,
                    State::adjusted(kind, self.tiling.spaces[sid].gap, gap) as i32,
                ),
                ..self
            }
        }
    }

    /// The gap of a space switched off or on again.
    pub open spec fn with_gap_toggled(self, sid: u64) -> State {
        if self.gap_disabled.dom().contains(sid) {
            State {
                tiling: self.tiling.with_gap(sid, self.gap_disabled[sid]),
                gap_disabled: self.gap_disabled.remove(sid),
                ..self
            }
        } else {
            State {
                gap_disabled: self.gap_disabled.insert(sid, self.tiling.spaces[sid].gap),
                tiling: self.tiling.with_gap(sid, 0),
                ..self
            }
        }
    }

    /// The padding of a space switched off or on again.
    pub open spec fn with_padding_toggled(self, sid: u64) -> State {
        (State {
            padding_disabled: if self.padding_disabled.contains(sid) {
                self.padding_disabled.remove(sid)
            } else {
                self.padding_disabled.insert(sid)
            },
            ..self
        }).reframed(sid)
    }

    /// The padding of a space changed.
    pub open spec fn with_padding(self, sid: u64, kind: ValueType, padding: Padding) -> State {
        let current = self.padding_of(sid);
        (State {
            paddings: self.paddings.insert(
                sid,
                Padding {
                    top: State::adjusted(kind, current.top, padding.top) as i32,
                    bottom: State::adjusted(kind, current.bottom, padding.bottom) as i32,
                    left: State::adjusted(kind, current.left, padding.left) as i32,
                    right: State::adjusted(kind, current.right, padding.right) as i32,
                },
            ),
            ..self
        }).reframed(sid)
    }

    /// The space on which a new window opens.
    pub open spec fn origin_space(self, physical_sid: u64, cursor_display: Option<u32>) -> u64 {
        match self.config.window_origin_display {
            WindowOriginMode::Default => physical_sid,
            WindowOriginMode::Focused => match self.tiling.active_space {
                Some(sid) => sid,
                None => physical_sid,
            },
            WindowOriginMode::Cursor => match cursor_display {
                Some(did) => match self.topology.shown_on(did) {
                    Some(sid) => sid,
                    None => physical_sid,
                },
                None => physical_sid,
            },
        }
    }
}

/// Whether a request changes the easing curve, if at all, to one of the list.
pub open spec fn config_op_ok(op: config::ConfigOp) -> bool {
    match op {
        config::ConfigOp::Put(_, config::ConfigValue::AnimationEasing(index)) => index
            < config::EASING_COUNT,
        _ => true,
    }
}

/// Whether a relative change stays within the range of gaps and paddings.
pub open spec fn fits(kind: ValueType, current: i32, value: i32) -> bool {
    kind == ValueType::Rel ==> i32::MIN <= current + value <= i32::MAX
}

fn adjust(kind: ValueType, current: i32, value: i32) -> (r: i32)
    requires
        fits(kind, current, value),
    ensures
        r == State::adjusted(kind, current, value),
{
    match kind {
        ValueType::Abs => value,
        ValueType::Rel => if current + value < 0 {
            0
        } else {
            current + value
        },
    }
}

impl View for AppState {
    type V = State;

    closed spec fn view(&self) -> State {
        State {
            config: self.config,
            tiling: self.tiling@,
            topology: self.topology@,
            meta: self.meta@,
            live: self.live@,
            shadow_disabled: self.shadow_disabled@.dom(),
            scratchpads: labels::label_map(self.scratchpads@),
            paddings: self.paddings@,
            usable: self.usable@,
            padding_disabled: self.padding_disabled@.dom(),
            gap_disabled: self.gap_disabled@,
            captures: self.captures@,
            signals: self.signals@,
            rules: self.rules@,
        }
    }
}

impl AppState {
    pub closed spec fn wf(&self) -> bool {
        &&& self.config.wf()
        &&& self.tiling.wf()
        &&& self.topology.wf()
        &&& self.meta.wf()
        &&& self.live.wf()
        &&& self.shadow_disabled.wf()
        &&& self.scratchpads.wf()
        &&& self.paddings.wf()
        &&& self.usable.wf()
        &&& self.padding_disabled.wf()
        &&& self.gap_disabled.wf()
        &&& self.captures.wf()
        &&& labels::unique(self@.scratchpads)
        &&& self@.gaps_held()
    }

    /// What every state keeps: no window is tiled twice, windows kept out of
    /// layouts are not tiled, labels are unique, and a layout whose gap is switched
    /// off has none.
    pub proof fn lemma_wf(&self)
        requires
            self.wf(),
        ensures
            self@.config.wf(),
            self@.tiling.wf(),
            self@.topology.wf(),
            labels::unique(self@.scratchpads),
            self@.gaps_held(),
    {
        self.tiling.lemma_wf();
        self.topology.lemma_wf();
    }

    /// A fresh state.
    pub fn new() -> (r: Self)
        ensures
            r.wf(),
            config::is_default(r@.config),
            r@.tiling.spaces == Map::<u64, tiling::Space>::empty(),
            r@.tiling.window_spaces == Map::<u32, u64>::empty(),
            r@.tiling.floating == Set::<u32>::empty(),
            r@.tiling.sticky == Set::<u32>::empty(),
            r@.tiling.active_space is None,
            r@.tiling.last_active_space is None,
            r@.tiling.focused_window is None,
            r@.tiling.last_focused_window is None,
            r@.tiling.ops == Seq::<LayoutOp>::empty(),
            r@.topology.displays == Map::<u32, DisplayInfo>::empty(),
            r@.topology.space_displays == Map::<u64, u32>::empty(),
            r@.topology.display_active_space == Map::<u32, u64>::empty(),
            r@.topology.space_labels == Map::<u64, Seq<char>>::empty(),
            r@.topology.display_labels == Map::<u32, Seq<char>>::empty(),
            r@.topology.main_display is None,
            r@.topology.mission_control == Seq::<u64>::empty(),
            r@.topology.cursor_display is None,
            r@.topology.cursor_window is None,
            r@.meta == Map::<u32, WindowMeta>::empty(),
            r@.live == Map::<u32, LiveWindowInfo>::empty(),
            r@.shadow_disabled == Set::<u32>::empty(),
            r@.scratchpads == Map::<u32, Seq<char>>::empty(),
            r@.paddings == Map::<u64, Padding>::empty(),
            r@.usable == Map::<u64, Area>::empty(),
            r@.padding_disabled == Set::<u64>::empty(),
            r@.gap_disabled == Map::<u64, i32>::empty(),
            r@.captures == Map::<u64, Capture>::empty(),
            r@.signals == Seq::<Signal>::empty(),
            r@.rules == Seq::<Rule>::empty(),
    {
        let r = AppState {
            config: Config::default(),
            tiling: Tiling::new(),
            topology: Topology::new(),
            meta: IdMap::new(),
            live: IdMap::new(),
            shadow_disabled: IdMap::new(),
            scratchpads: IdMap::new(),
            paddings: IdMap::new(),
            usable: IdMap::new(),
            padding_disabled: IdMap::new(),
            gap_disabled: IdMap::new(),
            captures: IdMap::new(),
            signals: Vec::new(),
            rules: Vec::new(),
        };
        assert(r@.shadow_disabled =~= Set::<u32>::empty());
        assert(r@.padding_disabled =~= Set::<u64>::empty());
        assert(r@.scratchpads =~= Map::<u32, Seq<char>>::empty());
        r
    }

    /// Register a display, or replace what was known of it.
    pub fn add_display(&mut self, display_id: u32, info: DisplayInfo)
        requires
            old(self).wf(),
        ensures
            final(self).wf(),
            final(self)@ == (State {
                topology: topology::TopologyModel {
                    displays: old(self)@.topology.displays.insert(display_id, info),
                    ..old(self)@.topology
                },
                ..old(self)@
            }),
    {
        self.topology.add_display(display_id, info);
    }

    pub fn remove_display(&mut self, display_id: u32)
        requires
            old(self).wf(),
        ensures
            final(self).wf(),
            final(self)@ == (State {
                topology: old(self)@.topology.without_display(display_id),
                ..old(self)@
            }),
    {
        self.topology.remove_display(display_id);
    }

    /// The displays as they are arranged.
    pub fn display_ids(&self) -> (r: Vec<u32>)
        requires
            self.wf(),
        ensures
            r@ == topology::arrangement(
                self@.topology.displays,
                self@.config.display_arrangement_order,
            ),
            idmap::lists_by(
                r@,
                self@.topology.displays.dom(),
                topology::display_measure(
                    self@.topology.displays,
                    self@.config.display_arrangement_order,
                ),
            ),
    {
        self.topology.display_ids(self.config.display_arrangement_order)
    }

    /// The one-based place of a display in the arrangement.
    pub fn display_index(&self, display_id: u32) -> (r: Option<usize>)
        requires
            self.wf(),
        ensures
            match r {
                Some(i) => self@.topology.display_index(
                    display_id,
                    self@.config.display_arrangement_order,
                ) == Some(i as int),
                None => self@.topology.display_index(
                    display_id,
                    self@.config.display_arrangement_order,
                ) is None,
            },
    {
        self.topology.display_index(display_id, self.config.display_arrangement_order)
    }

    /// The settings for the layout of a space: without a gap where it is switched
    /// off.
    fn settings_of(&self, sid: u64) -> (r: LayoutConfig)
        requires
            self.wf(),
        ensures
            r == self@.settings_for(sid),
    {
        let settings = self.config.layout_config();
        if self.gap_disabled.contains(sid) {
            LayoutConfig { gap: 0, ..settings }
        } else {
            settings
        }
    }

    /// Register a space with an empty layout of the configured kind.
    pub fn add_space(&mut self, sid: u64, area: Area)
        requires
            old(self).wf(),
        ensures
            final(self).wf(),
            final(self)@ == old(self)@.with_space(sid, area),
    {
        let settings = self.settings_of(sid);
        self.tiling.add_space(sid, self.config.layout, settings, area);
        let _ = self.captures.remove(sid);
    }

    /// Register a space on a display; it gets a layout if it has none.
    pub fn add_space_to_display(&mut self, sid: u64, display_id: u32, area: Area)
        requires
            old(self).wf(),
        ensures
            final(self).wf(),
            final(self)@ == old(self)@.with_space_on(sid, display_id, area),
    {
        if !self.tiling.has_space(sid) {
            self.add_space(sid, area);
        }
        self.topology.set_space_display(sid, display_id);
    }

    /// Drop a space, its layout, and what was known of the windows it tiled.
    pub fn remove_space(&mut self, sid: u64)
        requires
            old(self).wf(),
        ensures
            final(self).wf(),
            final(self)@ == old(self)@.without_space(sid),
    {
        let ghost pre = self@;
        let windows = self.tiling.remove_space(sid);
        let mut i: usize = 0;
        let ghost rest = *self;
        while i < windows.len()
            invariant
                i <= windows.len(),
                self.meta.wf(),
                *self == (AppState { meta: self.meta, ..rest }),
                forall|w: u32| #[trigger]
                    self.meta@.dom().contains(w) <==> pre.meta.dom().contains(w)
                        && !windows@.take(i as int).contains(w),
                forall|w: u32| #[trigger]
                    self.meta@.dom().contains(w) ==> self.meta@[w] == pre.meta[w],
            decreases windows.len() - i,
        {
            proof {
                idmap::lemma_take_step(windows@, i as int);
            }
            let _ = self.meta.remove(windows[i]);
            i += 1;
        }
        proof {
            assert(windows@.take(windows@.len() as int) =~= windows@);
            assert(self.meta@ =~= pre.without_space(sid).meta);
        }
        self.topology.remove_space(sid);
        let _ = self.captures.remove(sid);
    }

    /// The spaces that have a layout, in ascending order.
    pub fn space_ids(&self) -> (r: Vec<u64>)
        requires
            self.wf(),
        ensures
            r@ == idmap::ids_of(self@.tiling.spaces.dom()),
            idmap::lists(r@, self@.tiling.spaces.dom()),
    {
        self.tiling.space_ids()
    }

    /// The spaces of a display, in ascending order.
    pub fn space_ids_for_display(&self, display_id: u32) -> (r: Vec<u64>)
        requires
            self.wf(),
        ensures
            r@ == idmap::ids_of(self@.topology.spaces_on(display_id)),
            idmap::lists(r@, self@.topology.spaces_on(display_id)),
    {
        self.topology.display_spaces(display_id)
    }

    /// Every window that was assigned to a space, in ascending order.
    pub fn all_window_ids(&self) -> (r: Vec<u32>)
        requires
            self.wf(),
        ensures
            r@ == idmap::ids_of(self@.tiling.window_spaces.dom()),
            idmap::lists(r@, self@.tiling.window_spaces.dom()),
    {
        self.tiling.noted_windows()
    }

    /// The display that a space belongs to.
    pub fn space_display(&self, sid: u64) -> (r: Option<u32>)
        requires
            self.wf(),
        ensures
            r == self@.topology.display_of(sid),
    {
        self.topology.space_display(sid)
    }

    /// The display of the active space.
    pub fn active_display(&self) -> (r: Option<u32>)
        requires
            self.wf(),
        ensures
            r == (match self@.tiling.active_space {
                Some(sid) => self@.topology.display_of(sid),
                None => None,
            }),
    {
        match self.tiling.active_space_id() {
            Some(sid) => self.topology.space_display(sid),
            None => None,
        }
    }

    /// The space that tiles a window.
    pub fn window_space_id(&self, window_id: u32) -> (r: Option<u64>)
        requires
            self.wf(),
        ensures
            r == self@.tiling.space_of(window_id),
            r is Some ==> self@.tiling.tiles(r->0, window_id),
    {
        self.tiling.window_space(window_id)
    }

    /// The space that tiles a window, or else the last one it was assigned to.
    pub fn window_known_space_id(&self, window_id: u32) -> (r: Option<u64>)
        requires
            self.wf(),
        ensures
            r == self@.known_space(window_id),
    {
        match self.tiling.window_space(window_id) {
            Some(sid) => Some(sid),
            None => self.tiling.noted_space(window_id),
        }
    }

    pub fn set_active_space(&mut self, sid: u64)
        requires
            old(self).wf(),
        ensures
            final(self).wf(),
            final(self)@ == (State { tiling: old(self)@.tiling.activated(sid), ..old(self)@ }),
    {
        self.tiling.set_active_space(sid);
    }

    pub fn active_space_id(&self) -> (r: Option<u64>)
        ensures
            r == self@.tiling.active_space,
    {
        self.tiling.active_space_id()
    }

    pub fn last_active_space_id(&self) -> (r: Option<u64>)
        ensures
            r == self@.tiling.last_active_space,
    {
        self.tiling.last_active_space_id()
    }

    /// Record what lies under the cursor.
    pub fn set_cursor(&mut self, display: Option<u32>, window: Option<u32>)
        requires
            old(self).wf(),
        ensures
            final(self).wf(),
            final(self)@ == (State {
                topology: topology::TopologyModel {
                    cursor_display: display,
                    cursor_window: window,
                    ..old(self)@.topology
                },
                ..old(self)@
            }),
    {
        self.topology.set_cursor(display, window);
    }

    pub fn cursor_display_id(&self) -> (r: Option<u32>)
        ensures
            r == self@.topology.cursor_display,
    {
        self.topology.cursor_display_id()
    }

    pub fn cursor_window_id(&self) -> (r: Option<u32>)
        ensures
            r == self@.topology.cursor_window,
    {
        self.topology.cursor_window_id()
    }

    pub fn set_main_display(&mut self, display_id: u32)
        requires
            old(self).wf(),
        ensures
            final(self).wf(),
            final(self)@ == (State {
                topology: topology::TopologyModel {
                    main_display: Some(display_id),
                    ..old(self)@.topology
                },
                ..old(self)@
            }),
    {
        self.topology.set_main_display(display_id);
    }

    /// Record all spaces in the order of the space overview.
    pub fn set_mission_control_order(&mut self, order: Vec<u64>)
        requires
            old(self).wf(),
        ensures
            final(self).wf(),
            final(self)@ == (State {
                topology: topology::TopologyModel {
                    mission_control: order@,
                    ..old(self)@.topology
                },
                ..old(self)@
            }),
    {
        self.topology.set_mission_control_order(order);
    }

    pub fn mission_control_order(&self) -> (r: &Vec<u64>)
        ensures
            r@ == self@.topology.mission_control,
    {
        self.topology.mission_control_order()
    }

    pub fn set_display_active_space(&mut self, display_id: u32, sid: u64)
        requires
            old(self).wf(),
        ensures
            final(self).wf(),
            final(self)@ == (State {
                topology: topology::TopologyModel {
                    display_active_space: old(self)@.topology.display_active_space.insert(
                        display_id,
                        sid,
                    ),
                    ..old(self)@.topology
                },
                ..old(self)@
            }),
    {
        self.topology.set_display_active_space(display_id, sid);
    }

    pub fn display_active_space_id(&self, display_id: u32) -> (r: Option<u64>)
        requires
            self.wf(),
        ensures
            r == self@.topology.shown_on(display_id),
    {
        self.topology.display_active_space_id(display_id)
    }

    /// The displays for which the shown space is known, in ascending order.
    pub fn showing_displays(&self) -> (r: Vec<u32>)
        requires
            self.wf(),
        ensures
            r@ == idmap::ids_of(self@.topology.display_active_space.dom()),
            idmap::lists(r@, self@.topology.display_active_space.dom()),
    {
        self.topology.showing_displays()
    }

    /// Whether a space is shown.
    pub fn is_space_visible(&self, sid: u64) -> (r: bool)
        requires
            self.wf(),
        ensures
            r == self@.topology.is_visible(sid, self@.tiling.active_space),
    {
        self.topology.space_is_visible(sid, self.tiling.active_space_id())
    }

    /// The first window that a space tiles.
    pub fn first_window_on_space(&self, sid: u64) -> (r: Option<u32>)
        requires
            self.wf(),
        ensures
            r == (if self@.tiling.spaces.dom().contains(sid)
                && self@.tiling.spaces[sid].windows.len() > 0 {
                Some(self@.tiling.spaces[sid].windows[0])
            } else {
                None
            }),
    {
        match self.tiling.space(sid) {
            Some(record) => if record.windows.len() > 0 {
                Some(record.windows[0])
            } else {
                None
            },
            None => None,
        }
    }

    /// The first window that a space tiles, other than a given one.
    pub fn window_on_space_excluding(&self, sid: u64, window_id: u32) -> (r: Option<u32>)
        requires
            self.wf(),
        ensures
            r == (if self@.tiling.spaces.dom().contains(sid) {
                tiling::first_other(self@.tiling.spaces[sid].windows, window_id)
            } else {
                None
            }),
    {
        match self.tiling.space(sid) {
            Some(record) => tiling::other_than(&record.windows, window_id),
            None => None,
        }
    }

    /// The opacities of the window with the focus and of the others, if they are
    /// to be set.
    pub fn auto_opacities(&self) -> (r: Option<(&Real, &Real)>)
        ensures
            match r {
                Some((active, normal)) => self@.config.enable_window_opacity && *active
                    == self@.config.active_window_opacity && *normal
                    == self@.config.normal_window_opacity,
                None => !self@.config.enable_window_opacity,
            },
    {
        if self.config.enable_window_opacity {
            Some((&self.config.active_window_opacity, &self.config.normal_window_opacity))
        } else {
            None
        }
    }

    /// The padding and the gap where no space is known: the configured ones.
    pub fn default_insets(&self) -> (r: (Padding, i32))
        ensures
            r == (
                Padding {
                    top: self@.config.top_padding,
                    bottom: self@.config.bottom_padding,
                    left: self@.config.left_padding,
                    right: self@.config.right_padding,
                },
                self@.config.window_gap,
            ),
    {
        (
            Padding {
                top: self.config.top_padding,
                bottom: self.config.bottom_padding,
                left: self.config.left_padding,
                right: self.config.right_padding,
            },
            self.config.window_gap,
        )
    }

    pub fn set_focused_window(&mut self, window_id: Option<u32>)
        requires
            old(self).wf(),
        ensures
            final(self).wf(),
            final(self)@ == (State {
                tiling: old(self)@.tiling.refocused(window_id),
                ..old(self)@
            }),
    {
        self.tiling.set_focused_window(window_id);
    }

    pub fn focused_window_id(&self) -> (r: Option<u32>)
        ensures
            r == self@.tiling.focused_window,
    {
        self.tiling.focused_window_id()
    }

    pub fn last_focused_window_id(&self) -> (r: Option<u32>)
        ensures
            r == self@.tiling.last_focused_window,
    {
        self.tiling.last_focused_window_id()
    }

    pub fn window_meta(&self, window_id: u32) -> (r: Option<&WindowMeta>)
        requires
            self.wf(),
        ensures
            match r {
                Some(meta) => self@.meta.dom().contains(window_id) && *meta
                    == self@.meta[window_id],
                None => !self@.meta.dom().contains(window_id),
            },
    {
        self.meta.get(window_id)
    }

    /// The process that owns a window.
    pub fn window_pid(&self, window_id: u32) -> (r: Option<i32>)
        requires
            self.wf(),
        ensures
            r == (if self@.meta.dom().contains(window_id) {
                Some(self@.meta[window_id].pid)
            } else {
                None
            }),
    {
        match self.meta.get(window_id) {
            Some(meta) => Some(meta.pid),
            None => None,
        }
    }

    pub fn set_window_meta(&mut self, window_id: u32, meta: WindowMeta)
        requires
            old(self).wf(),
        ensures
            final(self).wf(),
            final(self)@ == (State {
                meta: old(self)@.meta.insert(window_id, meta),
                ..old(self)@
            }),
    {
        self.meta.insert(window_id, meta);
    }

    pub fn remove_window_meta(&mut self, window_id: u32)
        requires
            old(self).wf(),
        ensures
            final(self).wf(),
            final(self)@ == (State { meta: old(self)@.meta.remove(window_id), ..old(self)@ }),
    {
        let _ = self.meta.remove(window_id);
    }

    /// The windows with known metadata, in ascending order.
    pub fn meta_windows(&self) -> (r: Vec<u32>)
        requires
            self.wf(),
        ensures
            r@ == idmap::ids_of(self@.meta.dom()),
            idmap::lists(r@, self@.meta.dom()),
    {
        self.meta.keys()
    }

    pub fn set_window_live_info(&mut self, window_id: u32, info: LiveWindowInfo)
        requires
            old(self).wf(),
        ensures
            final(self).wf(),
            final(self)@ == (State {
                live: old(self)@.live.insert(window_id, info),
                ..old(self)@
            }),
    {
        self.live.insert(window_id, info);
    }

    pub fn window_live_info(&self, window_id: u32) -> (r: Option<&LiveWindowInfo>)
        requires
            self.wf(),
        ensures
            match r {
                Some(info) => self@.live.dom().contains(window_id) && *info
                    == self@.live[window_id],
                None => !self@.live.dom().contains(window_id),
            },
    {
        self.live.get(window_id)
    }

    /// Whether any live information was supplied.
    pub fn has_live_info(&self) -> (r: bool)
        requires
            self.wf(),
        ensures
            r == (self@.live.dom() != Set::<u32>::empty()),
    {
        !self.live.is_empty()
    }

    /// The record of a space that has a layout.
    pub fn space(&self, sid: u64) -> (r: Option<&SpaceRecord>)
        requires
            self.wf(),
        ensures
            match r {
                Some(record) => self@.tiling.spaces.dom().contains(sid) && record@
                    == self@.tiling.spaces[sid],
                None => !self@.tiling.spaces.dom().contains(sid),
            },
    {
        self.tiling.space(sid)
    }

    /// Whether a space tiles a window.
    pub fn tiles(&self, sid: u64, window_id: u32) -> (r: bool)
        requires
            self.wf(),
        ensures
            r == self@.tiling.tiles(sid, window_id),
    {
        self.tiling.tiles(sid, window_id)
    }

    pub fn display(&self, display_id: u32) -> (r: Option<&DisplayInfo>)
        requires
            self.wf(),
        ensures
            match r {
                Some(info) => self@.topology.displays.dom().contains(display_id) && *info
                    == self@.topology.displays[display_id],
                None => !self@.topology.displays.dom().contains(display_id),
            },
    {
        self.topology.display(display_id)
    }

    pub fn space_label(&self, sid: u64) -> (r: Option<&String>)
        requires
            self.wf(),
        ensures
            match r {
                Some(s) => labels::owns(self@.topology.space_labels, sid, s@),
                None => !self@.topology.space_labels.dom().contains(sid),
            },
    {
        self.topology.space_label(sid)
    }

    pub fn display_label(&self, display_id: u32) -> (r: Option<&String>)
        requires
            self.wf(),
        ensures
            match r {
                Some(s) => labels::owns(self@.topology.display_labels, display_id, s@),
                None => !self@.topology.display_labels.dom().contains(display_id),
            },
    {
        self.topology.display_label(display_id)
    }

    pub fn space_with_label(&self, label: &str) -> (r: Option<u64>)
        requires
            self.wf(),
        ensures
            r == labels::owner(self@.topology.space_labels, label@),
    {
        self.topology.space_with_label(label)
    }

    pub fn display_with_label(&self, label: &str) -> (r: Option<u32>)
        requires
            self.wf(),
        ensures
            r == labels::owner(self@.topology.display_labels, label@),
    {
        self.topology.display_with_label(label)
    }

    /// Give a space a label, or clear it.
    pub fn set_space_label(&mut self, sid: u64, label: &str) -> (r: Result<(), String>)
        requires
            old(self).wf(),
        ensures
            final(self).wf(),
            match labels::label_error(labels::LabelKind::Space, label@) {
                Some(error) => r is Err && r->Err_0@ == error && final(self)@ == old(self)@,
                None => r is Ok && final(self)@ == (State {
                    topology: topology::TopologyModel {
                        space_labels: labels::relabelled(
                            old(self)@.topology.space_labels,
                            sid,
                            label@,
                        ),
                        ..old(self)@.topology
                    },
                    ..old(self)@
                }),
            },
    {
        self.topology.set_space_label(sid, label)
    }

    /// Give a display a label, or clear it.
    pub fn set_display_label(&mut self, display_id: u32, label: &str) -> (r: Result<(), String>)
        requires
            old(self).wf(),
        ensures
            final(self).wf(),
            match labels::label_error(labels::LabelKind::Display, label@) {
                Some(error) => r is Err && r->Err_0@ == error && final(self)@ == old(self)@,
                None => r is Ok && final(self)@ == (State {
                    topology: topology::TopologyModel {
                        display_labels: labels::relabelled(
                            old(self)@.topology.display_labels,
                            display_id,
                            label@,
                        ),
                        ..old(self)@.topology
                    },
                    ..old(self)@
                }),
            },
    {
        self.topology.set_display_label(display_id, label)
    }

    /// Add a window to the active space.
    pub fn add_window(&mut self, window_id: u32) -> (r: Result<(), String>)
        requires
            old(self).wf(),
        ensures
            final(self).wf(),
            match old(self)@.tiling.active_space {
                Some(sid) => {
                    &&& final(self)@ == (State {
                        tiling: old(self)@.tiling.assigned(window_id, sid),
                        ..old(self)@
                    })
                    &&& r is Err <==> old(self)@.tiling.assignment_refused(window_id, sid)
                    &&& r is Err ==> r->Err_0@ == "space has no layout"@
                },
                None => r is Err && r->Err_0@ == "no active space"@ && final(self)@ == old(self)@,
            },
    {
        match self.tiling.active_space_id() {
            Some(sid) => self.tiling.assign_window_to_space(window_id, sid),
            None => Err("no active space".to_owned()),
        }
    }

    /// Assign a window to a space.
    pub fn assign_window_to_space(&mut self, window_id: u32, sid: u64) -> (r: Result<(), String>)
        requires
            old(self).wf(),
        ensures
            final(self).wf(),
            final(self)@ == (State {
                tiling: old(self)@.tiling.assigned(window_id, sid),
                ..old(self)@
            }),
            r is Err <==> old(self)@.tiling.assignment_refused(window_id, sid),
            r is Err ==> r->Err_0@ == "space has no layout"@,
    {
        self.tiling.assign_window_to_space(window_id, sid)
    }

    /// Forget a window.
    pub fn remove_window(&mut self, window_id: u32) -> (r: Result<(), String>)
        requires
            old(self).wf(),
        ensures
            final(self).wf(),
            r is Ok,
            final(self)@ == old(self)@.without_window(window_id),
    {
        let ghost pre = self@;
        self.tiling.remove_window(window_id);
        let _ = self.scratchpads.remove(window_id);
        proof {
            assert(self@.scratchpads =~= pre.scratchpads.remove(window_id));
            lemma_fewer_labels(pre.scratchpads, self@.scratchpads);
        }
        Ok(())
    }

    /// Move a tiled window into the layout of another space. Nothing moves to a
    /// space without a layout.
    pub fn reassign_window_to_space(&mut self, window_id: u32, to_sid: u64)
        requires
            old(self).wf(),
            old(self)@.tiling.is_tiled(window_id),
        ensures
            final(self).wf(),
            final(self)@ == (State {
                tiling: old(self)@.tiling.relocated(window_id, to_sid),
                ..old(self)@
            }),
    {
        self.tiling.relocate(window_id, to_sid);
    }

    pub fn is_floating(&self, window_id: u32) -> (r: bool)
        requires
            self.wf(),
        ensures
            r == self@.tiling.floating.contains(window_id),
    {
        self.tiling.is_floating(window_id)
    }

    /// Float a window, or put it back into the layout of space `sid`.
    pub fn set_window_floating(&mut self, window_id: u32, floating: bool, sid: u64)
        requires
            old(self).wf(),
        ensures
            final(self).wf(),
            final(self)@ == (State {
                tiling: old(self)@.tiling.floated(window_id, floating, sid),
                ..old(self)@
            }),
    {
        self.tiling.set_window_floating(window_id, floating, sid);
    }

    pub fn is_sticky(&self, window_id: u32) -> (r: bool)
        requires
            self.wf(),
        ensures
            r == self@.tiling.sticky.contains(window_id),
    {
        self.tiling.is_sticky(window_id)
    }

    /// Show a window on every space, or on `sid` alone again.
    pub fn set_window_sticky(&mut self, window_id: u32, sticky: bool, sid: u64)
        requires
            old(self).wf(),
        ensures
            final(self).wf(),
            final(self)@ == (State {
                tiling: old(self)@.tiling.stuck(window_id, sticky, sid),
                ..old(self)@
            }),
    {
        self.tiling.set_window_sticky(window_id, sticky, sid);
    }

    /// Whether a window has a shadow; windows have one unless it was turned
    /// off.
    pub fn window_has_shadow(&self, window_id: u32) -> (r: bool)
        requires
            self.wf(),
        ensures
            r == !self@.shadow_disabled.contains(window_id),
    {
        !self.shadow_disabled.contains(window_id)
    }

    pub fn set_window_shadow(&mut self, window_id: u32, has_shadow: bool)
        requires
            old(self).wf(),
        ensures
            final(self).wf(),
            final(self)@ == (State {
                shadow_disabled: if has_shadow {
                    old(self)@.shadow_disabled.remove(window_id)
                } else {
                    old(self)@.shadow_disabled.insert(window_id)
                },
                ..old(self)@
            }),
    {
        let ghost pre = self@;
        if has_shadow {
            let _ = self.shadow_disabled.remove(window_id);
            assert(self@.shadow_disabled =~= pre.shadow_disabled.remove(window_id));
        } else {
            self.shadow_disabled.insert(window_id, ());
            assert(self@.shadow_disabled =~= pre.shadow_disabled.insert(window_id));
        }
    }

    /// Make a window the scratchpad of a label; it floats from then on. A label
    /// that another window has is refused.
    pub fn set_window_scratchpad(&mut self, window_id: u32, label: String, sid: u64) -> (r: Result<
        (),
        String,
    >)
        requires
            old(self).wf(),
        ensures
            final(self).wf(),
            old(self)@.scratchpad_taken(window_id, label@) ==> r is Err && r->Err_0@
                == "the given scratchpad is already assigned to a different window!\n"@ && final(self)@ == old(self)@,
            !old(self)@.scratchpad_taken(window_id, label@) ==> r is Ok && final(self)@ == old(self)@.with_scratchpad(window_id, label@, sid),
    {
        let ghost pre = self@;
        match labels::find_label(&self.scratchpads, label.as_str()) {
            Some(holder) => {
                if holder != window_id {
                    assert(labels::owns(pre.scratchpads, holder, label@));
                    return Err(
                        "the given scratchpad is already assigned to a different window!\n".to_owned(),
                    );
                }
                proof {
                    assert forall|w: u32| w != window_id implies !labels::owns(
                        pre.scratchpads,
                        w,
                        label@,
                    ) by {
                        if labels::owns(pre.scratchpads, w, label@) {
                            assert(pre.scratchpads[w] == pre.scratchpads[holder]);
                        }
                    }
                }
            },
            None => {
                proof {
                    assert forall|w: u32| !labels::owns(pre.scratchpads, w, label@) by {}
                }
            },
        }
        let ghost name = label@;
        self.scratchpads.insert(window_id, label);
        proof {
            assert(self@.scratchpads =~= pre.scratchpads.insert(window_id, name));
            let now = self@.scratchpads;
            assert forall|a: u32, b: u32|
                now.dom().contains(a) && now.dom().contains(b) && #[trigger] now[a]
                    == #[trigger] now[b] implies a == b by {
                if a == window_id && b != window_id {
                    assert(labels::owns(pre.scratchpads, b, name));
                }
                if b == window_id && a != window_id {
                    assert(labels::owns(pre.scratchpads, a, name));
                }
                if a != window_id && b != window_id {
                    assert(pre.scratchpads[a] == pre.scratchpads[b]);
                }
            }
        }
        self.tiling.set_window_floating(window_id, true, sid);
        Ok(())
    }

    /// Take the scratchpad label from a window; on demand the window is tiled
    /// again. False if it had none.
    pub fn remove_window_scratchpad(&mut self, window_id: u32, unfloat: bool, sid: u64) -> (r: bool)
        requires
            old(self).wf(),
        ensures
            final(self).wf(),
            r == old(self)@.scratchpads.dom().contains(window_id),
            final(self)@ == old(self)@.without_scratchpad(window_id, unfloat, sid),
    {
        let ghost pre = self@;
        if !self.scratchpads.contains(window_id) {
            return false;
        }
        let _ = self.scratchpads.remove(window_id);
        proof {
            assert(self@.scratchpads =~= pre.scratchpads.remove(window_id));
            lemma_fewer_labels(pre.scratchpads, self@.scratchpads);
        }
        if unfloat {
            self.tiling.set_window_floating(window_id, false, sid);
        }
        true
    }

    /// The scratchpad label of a window.
    pub fn window_scratchpad(&self, window_id: u32) -> (r: Option<&str>)
        requires
            self.wf(),
        ensures
            match r {
                Some(label) => labels::owns(self@.scratchpads, window_id, label@),
                None => !self@.scratchpads.dom().contains(window_id),
            },
    {
        match self.scratchpads.get(window_id) {
            Some(label) => Some(label.as_str()),
            None => None,
        }
    }

    /// The window that has a scratchpad label.
    pub fn scratchpad_window(&self, label: &str) -> (r: Option<u32>)
        requires
            self.wf(),
        ensures
            r == labels::owner(self@.scratchpads, label@),
    {
        labels::find_label(&self.scratchpads, label)
    }

    /// The padding that a space is laid out with.
    pub fn space_padding(&self, sid: u64) -> (r: Padding)
        requires
            self.wf(),
        ensures
            r == self@.padding_of(sid),
    {
        if self.padding_disabled.contains(sid) {
            return Padding { top: 0, bottom: 0, left: 0, right: 0 };
        }
        match self.paddings.get(sid) {
            Some(padding) => *padding,
            None => Padding {
                top: self.config.top_padding,
                bottom: self.config.bottom_padding,
                left: self.config.left_padding,
                right: self.config.right_padding,
            },
        }
    }

    /// The room kept for the bar on a space.
    pub fn bar_room(&self, sid: u64) -> (r: BarRoom)
        requires
            self.wf(),
        ensures
            r == self@.bar_of(sid),
    {
        let applies = match self.config.external_bar.mode {
            ExternalBarMode::Off => false,
            ExternalBarMode::Main => match self.topology.main_display_id() {
                Some(main) => self.topology.space_display(sid) == Some(main),
                None => false,
            },
            ExternalBarMode::All => true,
        };
        if applies {
            BarRoom { top: self.config.external_bar.top, bottom: self.config.external_bar.bottom }
        } else {
            BarRoom { top: 0, bottom: 0 }
        }
    }

    /// The padding and the gap that a space is laid out with.
    pub fn grid_insets(&self, sid: u64) -> (r: (Padding, i32))
        requires
            self.wf(),
        ensures
            r == (self@.padding_of(sid), self@.gap_of(sid)),
    {
        let gap = match self.tiling.space(sid) {
            Some(record) => record.gap,
            None => self.config.window_gap,
        };
        (self.space_padding(sid), gap)
    }

    /// Give a space the frame of its display; the layout is inset from it.
    pub fn set_space_frame(&mut self, sid: u64, frame: Area) -> (r: Result<(), String>)
        requires
            old(self).wf(),
        ensures
            final(self).wf(),
            final(self)@ == old(self)@.framed(sid, frame),
            r is Ok <==> old(self)@.tiling.spaces.dom().contains(sid),
            r is Err ==> r->Err_0@ == "space has no layout"@,
    {
        let padding = self.space_padding(sid);
        let bar = self.bar_room(sid);
        let copy = frame.copy();
        self.usable.insert(sid, copy);
        if !self.tiling.has_space(sid) {
            return Err("space has no layout".to_owned());
        }
        self.tiling.push_op(LayoutOp::SetFrame { sid, frame, padding, bar });
        Ok(())
    }

    /// Inset a space again from the frame it was last given.
    pub fn reframe(&mut self, sid: u64)
        requires
            old(self).wf(),
        ensures
            final(self).wf(),
            final(self)@ == old(self)@.reframed(sid),
    {
        let known = match self.usable.get(sid) {
            Some(frame) => Some(frame.copy()),
            None => None,
        };
        if let Some(frame) = known {
            let _ = self.set_space_frame(sid, frame);
        }
    }

    /// Whether a space has a layout other than floating.
    pub fn is_managed_space(&self, sid: u64) -> (r: bool)
        requires
            self.wf(),
        ensures
            r == self@.is_managed(sid),
    {
        match self.tiling.space(sid) {
            Some(record) => record.layout != ViewType::Float,
            None => false,
        }
    }

    /// The gap to restore where gaps are switched off.
    pub fn saved_gap(&self, sid: u64) -> (r: Option<i32>)
        requires
            self.wf(),
        ensures
            r == (if self@.gap_disabled.dom().contains(sid) {
                Some(self@.gap_disabled[sid])
            } else {
                None
            }),
    {
        match self.gap_disabled.get(sid) {
            Some(gap) => Some(*gap),
            None => None,
        }
    }

    /// Set or adjust the gap of a space.
    pub fn set_space_gap(&mut self, sid: u64, kind: ValueType, gap: i32) -> (r: Result<(), String>)
        requires
            old(self).wf(),
            old(self)@.gap_fits(sid, kind, gap),
        ensures
            final(self).wf(),
            if old(self)@.gap_disabled.dom().contains(sid) || old(self)@.is_managed(sid) {
                r is Ok && final(self)@ == old(self)@.with_gap(sid, kind, gap)
            } else {
                r is Err && r->Err_0@ == "cannot set gap for a non-managed space."@ && final(self)@
                    == old(self)@
            },
    {
        if let Some(saved) = self.saved_gap(sid) {
            self.gap_disabled.insert(sid, adjust(kind, saved, gap));
            return Ok(());
        }
        let current = match self.tiling.space(sid) {
            Some(record) => if record.layout != ViewType::Float {
                Some(record.gap)
            } else {
                None
            },
            None => None,
        };
        match current {
            Some(live) => {
                self.tiling.set_gap(sid, adjust(kind, live, gap));
                Ok(())
            },
            None => Err("cannot set gap for a non-managed space.".to_owned()),
        }
    }

    /// Switch the padding of a space off, or on again.
    pub fn toggle_space_padding(&mut self, sid: u64) -> (r: Result<(), String>)
        requires
            old(self).wf(),
        ensures
            final(self).wf(),
            if old(self)@.is_managed(sid) {
                r is Ok && final(self)@ == old(self)@.with_padding_toggled(sid)
            } else {
                r is Err && r->Err_0@ == "cannot toggle padding for a non-managed space."@
                    && final(self)@ == old(self)@
            },
    {
        let ghost pre = self@;
        if !self.is_managed_space(sid) {
            return Err("cannot toggle padding for a non-managed space.".to_owned());
        }
        if self.padding_disabled.contains(sid) {
            let _ = self.padding_disabled.remove(sid);
            assert(self@.padding_disabled =~= pre.padding_disabled.remove(sid));
        } else {
            self.padding_disabled.insert(sid, ());
            assert(self@.padding_disabled =~= pre.padding_disabled.insert(sid));
        }
        self.reframe(sid);
        Ok(())
    }

    /// Switch the gap of a space off, or on again.
    pub fn toggle_space_gap(&mut self, sid: u64) -> (r: Result<(), String>)
        requires
            old(self).wf(),
        ensures
            final(self).wf(),
            if old(self)@.is_managed(sid) {
                r is Ok && final(self)@ == old(self)@.with_gap_toggled(sid)
            } else {
                r is Err && r->Err_0@ == "cannot toggle gap for a non-managed space."@ && final(self)@ == old(self)@
            },
    {
        let live = match self.tiling.space(sid) {
            Some(record) => if record.layout != ViewType::Float {
                record.gap
            } else {
                return Err("cannot toggle gap for a non-managed space.".to_owned());
            },
            None => {
                return Err("cannot toggle gap for a non-managed space.".to_owned());
            },
        };
        match self.gap_disabled.remove(sid) {
            Some(saved) => self.tiling.set_gap(sid, saved),
            None => {
                self.gap_disabled.insert(sid, live);
                self.tiling.set_gap(sid, 0);
            },
        }
        proof {
            let pre = old(self)@;
            assert(self@.gap_disabled =~= pre.with_gap_toggled(sid).gap_disabled);
        }
        Ok(())
    }

    /// Set or adjust the padding of a space.
    pub fn set_space_padding(&mut self, sid: u64, kind: ValueType, padding: Padding) -> (r: Result<
        (),
        String,
    >)
        requires
            old(self).wf(),
            old(self)@.padding_fits(sid, kind, padding),
        ensures
            final(self).wf(),
            if old(self)@.is_managed(sid) {
                r is Ok && final(self)@ == old(self)@.with_padding(sid, kind, padding)
            } else {
                r is Err && r->Err_0@ == "cannot set padding for a non-managed space."@ && final(self)@ == old(self)@
            },
    {
        if !self.is_managed_space(sid) {
            return Err("cannot set padding for a non-managed space.".to_owned());
        }
        let current = self.space_padding(sid);
        self.paddings.insert(
            sid,
            Padding {
                top: adjust(kind, current.top, padding.top),
                bottom: adjust(kind, current.bottom, padding.bottom),
                left: adjust(kind, current.left, padding.left),
                right: adjust(kind, current.right, padding.right),
            },
        );
        self.reframe(sid);
        Ok(())
    }

    /// Change the layout of a space.
    pub fn set_space_layout(&mut self, sid: u64, layout: ViewType)
        requires
            old(self).wf(),
            old(self)@.tiling.spaces.dom().contains(sid),
        ensures
            final(self).wf(),
            final(self)@ == (State {
                tiling: old(self)@.tiling.with_layout(sid, layout),
                ..old(self)@
            }),
    {
        self.tiling.set_layout(sid, layout);
    }

    /// Hand the current settings to the layout of a space; where its gap is
    /// switched off, the gap to restore is changed instead.
    pub fn configure_space(&mut self, sid: u64)
        requires
            old(self).wf(),
            old(self)@.tiling.spaces.dom().contains(sid),
        ensures
            final(self).wf(),
            final(self)@ == old(self)@.with_settings(sid),
    {
        let settings = self.settings_of(sid);
        self.tiling.set_config(sid, settings);
    }

    /// Clear the mark of a floating window without tiling it.
    pub fn clear_floating(&mut self, window_id: u32)
        requires
            old(self).wf(),
        ensures
            final(self).wf(),
            final(self)@ == (State {
                tiling: old(self)@.tiling.unmarked(window_id),
                ..old(self)@
            }),
    {
        self.tiling.clear_floating(window_id);
    }

    /// Read or change a setting.
    pub fn apply_config(&mut self, op: &ConfigOp) -> (r: Result<Option<String>, String>)
        requires
            old(self).wf(),
            config_op_ok(*op),
        ensures
            final(self).wf(),
            final(self)@ == (State { config: final(self)@.config, ..old(self)@ }),
            match *op {
                ConfigOp::Get(key) => {
                    &&& final(self)@.config == old(self)@.config
                    &&& match config::setting_of(key@) {
                        Some(setting) => r is Ok && r->Ok_0 is Some && r->Ok_0->0@ == config::rendered(
                            old(self)@.config.value_of(setting),
                        ),
                        None => r is Err && r->Err_0@ == "unsupported config key '"@ + key@ + "'"@,
                    }
                },
                ConfigOp::Put(key, value) => match config::setting_of(key@) {
                    Some(setting) if config::takes(setting, value) => {
                        &&& r == Ok::<Option<String>, String>(None)
                        &&& final(self)@.config == old(self)@.config.with(setting, value)
                    },
                    _ => {
                        &&& r is Err
                        &&& r->Err_0@ == "unsupported config key '"@ + key@ + "'"@
                        &&& final(self)@.config == old(self)@.config
                    },
                },
            },
    {
        let r = self.config.apply(op);
        proof {
            reveal(Config::with);
        }
        r
    }

    /// How long a change of opacity takes.
    pub fn opacity_duration(&self) -> (r: &Real)
        ensures
            *r == self@.config.window_opacity_duration,
    {
        &self.config.window_opacity_duration
    }

    /// The action of a drag with the first or the second button.
    pub fn mouse_action(&self, first_button: bool) -> (r: MouseAction)
        ensures
            r == (if first_button {
                self@.config.mouse_action1
            } else {
                self@.config.mouse_action2
            }),
    {
        if first_button {
            self.config.mouse_action1
        } else {
            self.config.mouse_action2
        }
    }

    /// Whether and how the focus follows the mouse.
    pub fn focus_mode(&self) -> (r: FfmMode)
        ensures
            r == self@.config.focus_follows_mouse,
    {
        self.config.focus_follows_mouse
    }

    /// The room that is configured for a status bar.
    pub fn external_bar(&self) -> (r: ExternalBar)
        ensures
            r == self@.config.external_bar,
    {
        self.config.external_bar
    }

    /// Whether new windows are tiled.
    pub fn manages(&self) -> (r: bool)
        ensures
            r == self@.config.manage,
    {
        self.config.manage
    }

    /// Leave the layout engine one more operation.
    pub fn push_op(&mut self, op: LayoutOp)
        requires
            old(self).wf(),
        ensures
            final(self).wf(),
            final(self)@ == (State { tiling: old(self)@.tiling.with_op(op), ..old(self)@ }),
    {
        self.tiling.push_op(op);
    }

    /// Whether the layout engine has yet to perform operations.
    pub fn has_ops(&self) -> (r: bool)
        ensures
            r == (self@.tiling.ops.len() > 0),
    {
        self.tiling.has_ops()
    }

    /// Hand over the operations that the layout engine has yet to perform.
    pub fn take_ops(&mut self) -> (r: Vec<LayoutOp>)
        requires
            old(self).wf(),
        ensures
            final(self).wf(),
            r@ == old(self)@.tiling.ops,
            final(self)@ == (State {
                tiling: tiling::TilingModel { ops: Seq::empty(), ..old(self)@.tiling },
                ..old(self)@
            }),
    {
        self.tiling.take_ops()
    }

    /// Take over the layout of a space as the layout engine reports it. A
    /// report that does not list exactly the tiled windows is turned down.
    pub fn report(&mut self, sid: u64, order: Vec<u32>, capture: Capture) -> (r: bool)
        requires
            old(self).wf(),
        ensures
            final(self).wf(),
            r == old(self)@.tiling.is_order_of(sid, order@),
            final(self)@ == (if r {
                State {
                    tiling: old(self)@.tiling.reordered(sid, order@),
                    captures: old(self)@.captures.insert(sid, capture),
                    ..old(self)@
                }
            } else {
                old(self)@
            }),
    {
        if self.tiling.set_order(sid, order) {
            self.captures.insert(sid, capture);
            true
        } else {
            false
        }
    }

    /// The reported layout of a space.
    pub fn capture(&self, sid: u64) -> (r: Option<&Capture>)
        requires
            self.wf(),
        ensures
            match r {
                Some(capture) => self@.captures.dom().contains(sid) && *capture
                    == self@.captures[sid],
                None => !self@.captures.dom().contains(sid),
            },
    {
        self.captures.get(sid)
    }

    /// The space on which a new window opens.
    pub fn origin_space_for_new_window(
        &self,
        physical_sid: u64,
        cursor_display: Option<u32>,
    ) -> (r: u64)
        requires
            self.wf(),
        ensures
            r == self@.origin_space(physical_sid, cursor_display),
    {
        match self.config.window_origin_display {
            WindowOriginMode::Default => physical_sid,
            WindowOriginMode::Focused => match self.tiling.active_space_id() {
                Some(sid) => sid,
                None => physical_sid,
            },
            WindowOriginMode::Cursor => match cursor_display {
                Some(did) => match self.topology.display_active_space_id(did) {
                    Some(sid) => sid,
                    None => physical_sid,
                },
                None => physical_sid,
            },
        }
    }

    pub fn rules(&self) -> (r: &Vec<Rule>)
        ensures
            r@ == self@.rules,
    {
        &self.rules
    }

    pub fn signals(&self) -> (r: &Vec<Signal>)
        ensures
            r@ == self@.signals,
    {
        &self.signals
    }

    /// Replace the rules.
    pub fn set_rules(&mut self, rules: Vec<Rule>)
        requires
            old(self).wf(),
        ensures
            final(self).wf(),
            final(self)@ == (State { rules: rules@, ..old(self)@ }),
    {
        self.rules = rules;
    }

    /// Hand the rules over, leaving none.
    pub fn take_rules(&mut self) -> (r: Vec<Rule>)
        requires
            old(self).wf(),
        ensures
            final(self).wf(),
            r@ == old(self)@.rules,
            final(self)@ == (State { rules: Seq::empty(), ..old(self)@ }),
    {
        let mut taken: Vec<Rule> = Vec::new();
        std::mem::swap(&mut taken, &mut self.rules);
        taken
    }

    /// Replace the signals.
    pub fn set_signals(&mut self, signals: Vec<Signal>)
        requires
            old(self).wf(),
        ensures
            final(self).wf(),
            final(self)@ == (State { signals: signals@, ..old(self)@ }),
    {
        self.signals = signals;
    }

    /// Hand the signals over, leaving none.
    pub fn take_signals(&mut self) -> (r: Vec<Signal>)
        requires
            old(self).wf(),
        ensures
            final(self).wf(),
            r@ == old(self)@.signals,
            final(self)@ == (State { signals: Seq::empty(), ..old(self)@ }),
    {
        let mut taken: Vec<Signal> = Vec::new();
        std::mem::swap(&mut taken, &mut self.signals);
        taken
    }
}

proof fn lemma_fewer_labels(a: Map<u32, Seq<char>>, b: Map<u32, Seq<char>>)
    requires
        labels::unique(a),
        forall|w: u32| #[trigger] b.dom().contains(w) ==> a.dom().contains(w) && a[w] == b[w],
    ensures
        labels::unique(b),
{
    assert forall|x: u32, y: u32|
        b.dom().contains(x) && b.dom().contains(y) && #[trigger] b[x] == #[trigger] b[y] implies x
        == y by {
        assert(a[x] == a[y]);
    }
}

/// Switching a managed space's gap off and on again restores it.
pub proof fn law_gap_toggle_restores(s: State, sid: u64)
    requires
        s.is_managed(sid),
        !s.gap_disabled.dom().contains(sid),
    ensures
        s.with_gap_toggled(sid).gap_of(sid) == 0,
        s.with_gap_toggled(sid).with_gap_toggled(sid).gap_of(sid) == s.gap_of(sid),
        s.with_gap_toggled(sid).with_gap_toggled(sid).gap_disabled == s.gap_disabled,
        s.with_gap_toggled(sid).with_gap_toggled(sid).tiling.spaces == s.tiling.spaces,
{
    let t = s.with_gap_toggled(sid).with_gap_toggled(sid);
    assert(t.gap_disabled =~= s.gap_disabled);
    assert(t.tiling.spaces =~= s.tiling.spaces);
}

/// A gap set while gaps are switched off takes effect when they are switched on
/// again.
pub proof fn law_gap_set_while_off_is_restored(s: State, sid: u64, gap: i32)
    requires
        s.is_managed(sid),
        !s.gap_disabled.dom().contains(sid),
    ensures
        s.with_gap_toggled(sid).with_gap(sid, ValueType::Abs, gap).gap_of(sid) == 0,
        s.with_gap_toggled(sid).with_gap(sid, ValueType::Abs, gap).with_gap_toggled(sid).gap_of(sid)
            == gap,
{
}

/// Settings given to the layout of a space while its gap is switched off leave it
/// off, and switching it on again brings back the gap it had.
pub proof fn law_settings_spare_a_gap_that_is_off(s: State, sid: u64)
    requires
        s.is_managed(sid),
        !s.gap_disabled.dom().contains(sid),
    ensures
        s.with_gap_toggled(sid).with_settings(sid).gap_of(sid) == 0,
        s.with_gap_toggled(sid).with_settings(sid).with_gap_toggled(sid).gap_of(sid) == s.gap_of(
            sid,
        ),
{
}

/// A space registered again while its gap is switched off has none, and switching
/// it on again brings back the gap it had.
pub proof fn law_new_layout_spares_a_gap_that_is_off(s: State, sid: u64, area: Area)
    requires
        s.is_managed(sid),
        !s.gap_disabled.dom().contains(sid),
    ensures
        s.with_gap_toggled(sid).with_space(sid, area).gap_of(sid) == 0,
        s.with_gap_toggled(sid).with_space(sid, area).with_gap_toggled(sid).gap_of(sid) == s.gap_of(
            sid,
        ),
{
}

/// Switching the padding of a space off and on again restores it.
pub proof fn law_padding_toggle_restores(s: State, sid: u64)
    requires
        !s.padding_disabled.contains(sid),
    ensures
        s.with_padding_toggled(sid).padding_of(sid) == (Padding {
            top: 0,
            bottom: 0,
            left: 0,
            right: 0,
        }),
        s.with_padding_toggled(sid).with_padding_toggled(sid).padding_of(sid) == s.padding_of(sid),
        s.with_padding_toggled(sid).with_padding_toggled(sid).padding_disabled
            == s.padding_disabled,
{
    let t = s.with_padding_toggled(sid).with_padding_toggled(sid);
    assert(t.padding_disabled =~= s.padding_disabled);
}

/// No two windows share a scratchpad label: a label given to a window selects
/// that window.
pub proof fn law_scratchpad_label_selects_its_window(
    s: State,
    window_id: u32,
    label: Seq<char>,
    sid: u64,
)
    requires
        labels::unique(s.scratchpads),
        !s.scratchpad_taken(window_id, label),
    ensures
        labels::owner(s.with_scratchpad(window_id, label, sid).scratchpads, label) == Some(
            window_id,
        ),
        labels::unique(s.with_scratchpad(window_id, label, sid).scratchpads),
        s.with_scratchpad(window_id, label, sid).tiling.floating.contains(window_id),
{
    let now = s.with_scratchpad(window_id, label, sid).scratchpads;
    assert(labels::owns(now, window_id, label));
    assert forall|w: u32| labels::owns(now, w, label) implies w == window_id by {
        if w != window_id {
            assert(labels::owns(s.scratchpads, w, label));
        }
    }
    assert forall|a: u32, b: u32|
        now.dom().contains(a) && now.dom().contains(b) && #[trigger] now[a]
            == #[trigger] now[b] implies a == b by {
        if a == window_id && b != window_id {
            assert(labels::owns(s.scratchpads, b, label));
        }
        if b == window_id && a != window_id {
            assert(labels::owns(s.scratchpads, a, label));
        }
        if a != window_id && b != window_id {
            assert(s.scratchpads[a] == s.scratchpads[b]);
        }
    }
}

/// A space is laid out with no padding while it is switched off, else with its own,
/// else with the configured one, side by side.
pub proof fn law_padding_of_a_space(s: State, sid: u64)
    ensures
        s.padding_disabled.contains(sid) ==> s.padding_of(sid).top == 0 && s.padding_of(sid).bottom
            == 0 && s.padding_of(sid).left == 0 && s.padding_of(sid).right == 0,
        !s.padding_disabled.contains(sid) && s.paddings.dom().contains(sid) ==> s.padding_of(sid)
            == s.paddings[sid],
        !s.padding_disabled.contains(sid) && !s.paddings.dom().contains(sid) ==> {
            &&& s.padding_of(sid).top == s.config.top_padding
            &&& s.padding_of(sid).bottom == s.config.bottom_padding
            &&& s.padding_of(sid).left == s.config.left_padding
            &&& s.padding_of(sid).right == s.config.right_padding
        },
{
}

/// Room for the bar is kept on no space, on those of the main display, or on all, as
/// configured.
pub proof fn law_bar_of_a_space(s: State, sid: u64)
    ensures
        s.config.external_bar.mode == ExternalBarMode::Off ==> s.bar_of(sid).top == 0 && s.bar_of(
            sid,
        ).bottom == 0,
        s.config.external_bar.mode == ExternalBarMode::All ==> s.bar_of(sid).top
            == s.config.external_bar.top && s.bar_of(sid).bottom == s.config.external_bar.bottom,
        s.config.external_bar.mode == ExternalBarMode::Main && s.topology.main_display is Some
            && s.topology.space_displays.dom().contains(sid) && s.topology.space_displays[sid]
            == s.topology.main_display->0 ==> s.bar_of(sid).top == s.config.external_bar.top
            && s.bar_of(sid).bottom == s.config.external_bar.bottom,
        s.config.external_bar.mode == ExternalBarMode::Main && (s.topology.main_display is None
            || !s.topology.space_displays.dom().contains(sid) || s.topology.space_displays[sid]
            != s.topology.main_display->0) ==> s.bar_of(sid).top == 0 && s.bar_of(sid).bottom == 0,
{
}

/// A frame given to a space is remembered, and its layout, if it has one, is inset
/// from it by the padding and the room for the bar; insetting it again asks for the
/// same.
pub proof fn law_frame_of_a_space(s: State, sid: u64, frame: Area)
    ensures
        s.framed(sid, frame).usable == s.usable.insert(sid, frame),
        s.tiling.spaces.dom().contains(sid) ==> s.framed(sid, frame).tiling == (
        tiling::TilingModel {
            ops: s.tiling.ops.push(
                LayoutOp::SetFrame {
                    sid,
                    frame,
                    padding: s.padding_of(sid),
                    bar: s.bar_of(sid),
                },
            ),
            ..s.tiling
        }),
        !s.tiling.spaces.dom().contains(sid) ==> s.framed(sid, frame).tiling == s.tiling,
        s.usable.dom().contains(sid) ==> s.reframed(sid) == s.framed(sid, s.usable[sid]),
        !s.usable.dom().contains(sid) ==> s.reframed(sid) == s,
        s.framed(sid, frame).reframed(sid).usable == s.framed(sid, frame).usable,
{
    assert(s.framed(sid, frame).reframed(sid).usable =~= s.framed(sid, frame).usable);
}

/// A value set is the value given; one adjusted is the sum, but not below zero.
pub proof fn law_adjusted_values(current: i32, value: i32)
    ensures
        State::adjusted(ValueType::Abs, current, value) == value,
        current + value >= 0 ==> State::adjusted(ValueType::Rel, current, value) == current + value,
        current + value < 0 ==> State::adjusted(ValueType::Rel, current, value) == 0,
{
}

/// A change of the gap of one space leaves every other space, and all paddings, alone.
pub proof fn law_gap_changes_are_local(s: State, sid: u64, other: u64, kind: ValueType, gap: i32)
    requires
        sid != other,
        s.is_managed(sid),
    ensures
        s.with_gap(sid, kind, gap).gap_of(other) == s.gap_of(other),
        s.with_gap(sid, kind, gap).padding_of(sid) == s.padding_of(sid),
        s.with_gap_toggled(sid).gap_of(other) == s.gap_of(other),
        s.with_gap_toggled(sid).padding_of(sid) == s.padding_of(sid),
        s.with_padding_toggled(sid).gap_of(sid) == s.gap_of(sid),
        s.with_padding_toggled(sid).padding_of(other) == s.padding_of(other),
        s.with_gap(sid, kind, gap).tiling.spaces[sid].windows == s.tiling.spaces[sid].windows,
        s.with_gap(sid, kind, gap).tiling.spaces[sid].layout == s.tiling.spaces[sid].layout,
        !s.gap_disabled.dom().contains(sid) && kind == ValueType::Abs ==> s.with_gap(
            sid,
            kind,
            gap,
        ).gap_of(sid) == gap,
{
}

/// A new window opens on the space it is on, on the active one, or on the one that the
/// display under the cursor shows, as configured; where that is not known, on the one
/// it is on.
pub proof fn law_where_windows_open(s: State, physical: u64, cursor: Option<u32>)
    ensures
        s.config.window_origin_display == WindowOriginMode::Default ==> s.origin_space(
            physical,
            cursor,
        ) == physical,
        s.config.window_origin_display == WindowOriginMode::Focused && s.tiling.active_space is Some
            ==> s.origin_space(physical, cursor) == s.tiling.active_space->0,
        s.config.window_origin_display == WindowOriginMode::Focused && s.tiling.active_space is None
            ==> s.origin_space(physical, cursor) == physical,
        s.config.window_origin_display == WindowOriginMode::Cursor && cursor is Some
            && s.topology.display_active_space.dom().contains(cursor->0) ==> s.origin_space(
            physical,
            cursor,
        ) == s.topology.display_active_space[cursor->0],
        s.config.window_origin_display == WindowOriginMode::Cursor && (cursor is None
            || !s.topology.display_active_space.dom().contains(cursor->0)) ==> s.origin_space(
            physical,
            cursor,
        ) == physical,
{
}

/// A window is known to be on the space that tiles it; one that none tiles, on the
/// last it was assigned to.
pub proof fn law_known_space(s: State, window_id: u32, sid: u64)
    requires
        s.tiling.wf(),
    ensures
        s.tiling.spaces.dom().contains(sid) && s.tiling.spaces[sid].windows.contains(window_id)
            ==> s.known_space(window_id) == Some(sid),
        (forall|k: u64|
            s.tiling.spaces.dom().contains(k) ==> !(
            #[trigger] s.tiling.spaces[k]).windows.contains(window_id)) ==> {
            &&& s.tiling.window_spaces.dom().contains(window_id) ==> s.known_space(window_id)
                == Some(s.tiling.window_spaces[window_id])
            &&& !s.tiling.window_spaces.dom().contains(window_id) ==> s.known_space(
                window_id,
            ) is None
        },
{
    if s.tiling.spaces.dom().contains(sid) && s.tiling.spaces[sid].windows.contains(window_id) {
        assert(s.tiling.tiles(sid, window_id));
        s.tiling.lemma_space_of(sid, window_id);
    }
    if s.tiling.is_tiled(window_id) {
        let k = choose|k: u64| s.tiling.tiles(k, window_id);
        assert(s.tiling.spaces[k].windows.contains(window_id));
    }
}

/// A new layout has the configured kind and gap and no windows, and nothing is
/// reported of it yet; a space that has one keeps it when it comes to a display.
pub proof fn law_new_layout(s: State, sid: u64, did: u32, area: Area, other: u64)
    requires
        other != sid,
    ensures
        ({
            let t = s.with_space(sid, area);
            &&& t.tiling.spaces.dom().contains(sid)
            &&& t.tiling.spaces[sid].windows.len() == 0
            &&& t.tiling.spaces[sid].layout == s.config.layout
            &&& !s.gap_disabled.dom().contains(sid) ==> t.tiling.spaces[sid].gap
                == s.config.layout_settings().gap
            &&& s.gap_disabled.dom().contains(sid) ==> t.tiling.spaces[sid].gap == 0
            &&& t.frames_of(sid) == Some(Seq::<WindowFrame>::empty())
            &&& t.tiling.spaces[other] == s.tiling.spaces[other]
            &&& t.captures.dom().contains(other) == s.captures.dom().contains(other)
        }),
        ({
            let t = s.with_space_on(sid, did, area);
            &&& t.topology.space_displays == s.topology.space_displays.insert(sid, did)
            &&& t.tiling.spaces.dom().contains(sid)
            &&& s.tiling.spaces.dom().contains(sid) ==> t.tiling == s.tiling && t.captures
                == s.captures
            &&& !s.tiling.spaces.dom().contains(sid) ==> t.tiling == s.with_space(sid, area).tiling
        }),
{
}

/// A space that goes takes along what was known of the windows it tiled, and of no
/// other window.
pub proof fn law_gone_space_takes_its_windows(s: State, sid: u64, w: u32)
    requires
        s.tiling.spaces.dom().contains(sid),
    ensures
        s.tiling.spaces[sid].windows.contains(w) ==> !s.without_space(sid).meta.dom().contains(w),
        !s.tiling.spaces[sid].windows.contains(w) ==> s.without_space(sid).meta.dom().contains(w)
            == s.meta.dom().contains(w),
        s.without_space(sid).meta.dom().contains(w) ==> s.without_space(sid).meta[w] == s.meta[w],
        !s.without_space(sid).captures.dom().contains(sid),
        s.without_space(sid).frames_of(sid) is None,
{
}

/// A window gone is forgotten as a scratchpad; what was known of it otherwise is
/// dropped elsewhere.
pub proof fn law_gone_window(s: State, w: u32, other: u32)
    requires
        w != other,
    ensures
        !s.without_window(w).scratchpads.dom().contains(w),
        s.without_window(w).scratchpads.dom().contains(other) == s.scratchpads.dom().contains(other),
        s.scratchpads.dom().contains(other) ==> s.without_window(w).scratchpads[other]
            == s.scratchpads[other],
        s.without_window(w).meta == s.meta,
        s.without_window(w).tiling == s.tiling.forgotten(w),
{
}

/// A scratchpad floats; a window that is one no more is tiled again on demand alone.
/// A label is taken if another window has it.
pub proof fn law_scratchpads(s: State, w: u32, label: Seq<char>, sid: u64, other: u32)
    ensures
        s.with_scratchpad(w, label, sid).scratchpads == s.scratchpads.insert(w, label),
        s.with_scratchpad(w, label, sid).tiling.floating.contains(w),
        !s.scratchpads.dom().contains(w) ==> s.without_scratchpad(w, true, sid) == s,
        s.scratchpads.dom().contains(w) ==> {
            &&& s.without_scratchpad(w, false, sid) == (State {
                scratchpads: s.scratchpads.remove(w),
                ..s
            })
            &&& s.without_scratchpad(w, true, sid) == (State {
                scratchpads: s.scratchpads.remove(w),
                tiling: s.tiling.floated(w, false, sid),
                ..s
            })
        },
        w != other && s.scratchpads.dom().contains(other) && s.scratchpads[other] == label
            ==> s.scratchpad_taken(w, label),
        (forall|k: u32|
            k != w && s.scratchpads.dom().contains(k) ==> #[trigger] s.scratchpads[k] != label)
            ==> !s.scratchpad_taken(w, label),
{
    if w != other && s.scratchpads.dom().contains(other) && s.scratchpads[other] == label {
        assert(labels::owns(s.scratchpads, other, label));
    }
}

/// A layout goes by the current settings, but without a gap while that is switched
/// off.
pub proof fn law_settings_of_a_layout(s: State, sid: u64)
    ensures
        !s.gap_disabled.dom().contains(sid) ==> s.settings_for(sid) == s.config.layout_settings(),
        s.gap_disabled.dom().contains(sid) ==> s.settings_for(sid).gap == 0 && s.settings_for(sid)
            == (LayoutConfig { gap: 0, ..s.config.layout_settings() }),
        s.with_settings(sid).tiling.ops == s.tiling.ops.push(
            LayoutOp::SetConfig { sid, config: s.settings_for(sid) },
        ),
        s.with_settings(sid).tiling.spaces[sid].gap == s.settings_for(sid).gap,
        s.with_settings(sid).tiling.spaces[sid].windows == s.tiling.spaces[sid].windows,
{
}

/// What the state tells of a space, a button and the settings for opacities.
pub proof fn law_state_tells(
    state: &AppState,
    sid: u64,
    window_id: u32,
    first: Option<u32>,
    other: Option<u32>,
    button: bool,
    action: MouseAction,
    insets: (Padding, i32),
)
    requires
        call_ensures(AppState::first_window_on_space, (state, sid), first),
        call_ensures(AppState::window_on_space_excluding, (state, sid, window_id), other),
        call_ensures(AppState::mouse_action, (state, button), action),
        call_ensures(AppState::default_insets, (state,), insets),
    ensures
        state@.tiling.spaces.dom().contains(sid) && state@.tiling.spaces[sid].windows.len() > 0
            ==> first == Some(state@.tiling.spaces[sid].windows[0]),
        !state@.tiling.spaces.dom().contains(sid) || state@.tiling.spaces[sid].windows.len() == 0
            ==> first is None,
        other != Some(window_id),
        other matches Some(w) ==> state@.tiling.spaces.dom().contains(sid)
            && state@.tiling.spaces[sid].windows.contains(w),
        button ==> action == state@.config.mouse_action1,
        !button ==> action == state@.config.mouse_action2,
        insets.0.top == state@.config.top_padding,
        insets.0.bottom == state@.config.bottom_padding,
        insets.0.left == state@.config.left_padding,
        insets.0.right == state@.config.right_padding,
        insets.1 == state@.config.window_gap,
{
    if state@.tiling.spaces.dom().contains(sid) {
        let windows = state@.tiling.spaces[sid].windows;
        tiling::law_first_other_window(windows, window_id);
        if let Some(w) = other {
            let i = choose|i: int|
                0 <= i < windows.len() && #[trigger] windows[i] == w && forall|j: int|
                    0 <= j < i ==> #[trigger] windows[j] == window_id;
            assert(windows.contains(w));
        }
    }
}

/// Opacities are set for the focused window and the others as configured, and only if
/// the feature is on.
pub proof fn law_configured_opacities(state: &AppState, r: Option<(&Real, &Real)>)
    requires
        call_ensures(AppState::auto_opacities, (state,), r),
    ensures
        r is Some <==> state@.config.enable_window_opacity,
        r matches Some((active, normal)) ==> *active == state@.config.active_window_opacity
            && *normal == state@.config.normal_window_opacity,
{
}

} // verus!
