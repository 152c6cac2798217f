//! Carrying out commands and events on the state.
//!
//! Where the layout engine decides whether an operation can be done, the
//! command hands the operation out and is settled with the engine's answer.
use vstd::prelude::*;

use crate::config;
use crate::config::{Config, ConfigOp};
use crate::idmap;
use crate::labels;
use crate::selectors;
use crate::state;
use crate::state::{AppState, State};
use crate::text;
use crate::tiling;
use crate::tiling::{Insertion, LayoutOp, Padding};
use crate::topology;
use crate::topology::DisplayInfo;
use crate::types::{Area, Layer, NodeSplit, Real, Selector, ValueType, ViewType, ZoomKind};

verus! {

/// What `window --scratchpad` asks for.
#[derive(Debug)]
pub enum ScratchpadAction {
    Label(String),
    Remove,
    Recover,
}

/// One action of a `window` command.
#[derive(Debug)]
pub enum WindowAction {
    Focus(Option<Selector>),
    Swap(Selector),
    Warp(Selector),
    Stack(Selector),
    Minimize(Option<Selector>),
    Deminimize(Option<Selector>),
    Close(Option<Selector>),
    Toggle(String),
    Resize { absolute: bool, handle: u8, dw: Real, dh: Real },
    Ratio { kind: ValueType, ratio: Real },
    Insert(Insertion),
    Grid([i32; 6]),
    Move { kind: ValueType, dx: Real, dy: Real },
    Display(Selector),
    Space(Selector),
    Opacity(Real),
    SubLayer(Layer),
    Scratchpad(ScratchpadAction),
    Raise(Option<Selector>),
    Lower(Option<Selector>),
}

/// One action of a `space` command.
#[derive(Debug)]
pub enum SpaceAction {
    Focus(Option<Selector>),
    Create,
    Destroy(Option<Selector>),
    Display(Selector),
    Move(Selector),
    Swap(Selector),
    Switch(Selector),
    Balance(Option<NodeSplit>),
    Equalize(Option<NodeSplit>),
    Mirror(NodeSplit),
    Rotate(i32),
    Layout(ViewType),
    Gap { kind: ValueType, gap: i32 },
    Padding { kind: ValueType, padding: Padding },
    Toggle(String),
    Label(String),
}

/// One action of a `display` command.
#[derive(Debug)]
pub enum DisplayAction {
    Focus(Option<Selector>),
    Space(Selector),
    Label(String),
}

/// How the actions of a `window` command stopped.
#[derive(Debug)]
pub enum WindowStop {
    /// All of them are done.
    Done,
    /// The layout engine has to answer for an operation.
    Ask(LayoutOp),
    /// The layout engine has to perform the pending operations first: the next
    /// action goes by the layout that they lead to.
    Wait,
}

/// An event of the window system.
#[derive(Debug)]
pub enum StateEvent {
    DisplayCreated { display_id: u32, info: DisplayInfo },
    DisplayRemoved { display_id: u32 },
    WindowCreated { window_id: u32 },
    WindowAssignedToSpace { window_id: u32, sid: u64 },
    WindowDestroyed { window_id: u32 },
    WindowFocused { window_id: u32 },
    SpaceCreated { sid: u64, frame: Area },
    SpaceCreatedOnDisplay { sid: u64, display_id: u32, frame: Area },
    SpaceRemoved { sid: u64 },
    SpaceChanged { sid: u64 },
    DisplayFrameChanged { sid: u64, frame: Area },
}

/// How far a `config` command has come.
pub ghost struct ConfigRun {
    pub config: Config,
    pub output: Seq<char>,
    pub changed: bool,
    pub error: Option<Seq<char>>,
}

impl ConfigRun {
    /// The run after one more request.
    pub open spec fn after(self, op: ConfigOp) -> ConfigRun {
        match op {
            ConfigOp::Get(key) => match config::setting_of(key@) {
                Some(setting) => ConfigRun {
                    output: (self.output + config::rendered(self.config.value_of(setting))).push(
                        '\n',
                    ),
                    ..self
                },
                None => ConfigRun {
                    error: Some("unsupported config key '"@ + key@ + "'"@),
                    ..self
                },
            },
            ConfigOp::Put(key, value) => match config::setting_of(key@) {
                Some(setting) if config::takes(setting, value) => ConfigRun {
                    config: self.config.with(setting, value),
                    changed: true,
                    ..self
                },
                _ => ConfigRun {
                    error: Some("unsupported config key '"@ + key@ + "'"@),
                    ..self
                },
            },
        }
    }
}

impl State {
    /// The state with another tiling.
    pub open spec fn with_tiling(self, tiling: tiling::TilingModel) -> State {
        State { tiling, ..self }
    }

    /// The state with the focus on a window.
    pub open spec fn focusing(self, window_id: u32) -> State {
        self.with_tiling(self.tiling.refocused(Some(window_id)))
    }

    /// The state with one more operation for the layout engine.
    pub open spec fn asking(self, op: LayoutOp) -> State {
        self.with_tiling(self.tiling.with_op(op))
    }

    /// The active space, if it has a layout.
    pub open spec fn active_tree(self) -> selectors::Resolved<u64> {
        match self.tiling.active_space {
            None => selectors::Resolved::Failed("no active space"@),
            Some(sid) => if self.tiling.spaces.dom().contains(sid) {
                selectors::Resolved::Found(sid)
            } else {
                selectors::Resolved::Failed("active space has no layout"@)
            },
        }
    }

    /// The space whose layout an action on a window changes: the one that tiles
    /// it, else the active one.
    pub open spec fn tree_of(self, window_id: u32) -> selectors::Resolved<u64> {
        match self.tiling.space_of(window_id) {
            Some(sid) => selectors::Resolved::Found(sid),
            None => self.active_tree(),
        }
    }

    /// The operation that two windows take part in.
    pub open spec fn pairing(
        self,
        action: WindowAction,
        sid: u64,
        focused: u32,
        other: u32,
    ) -> LayoutOp {
        match action {
            WindowAction::Swap(_) => LayoutOp::Swap { sid, window_id: focused, other },
            WindowAction::Warp(_) => LayoutOp::Warp { sid, window_id: focused, other },
            _ => LayoutOp::StackOnto { sid, window_id: focused, other },
        }
    }

    /// An action of the focused window and another one.
    pub open spec fn after_pairing(self, action: WindowAction, selector: Selector) -> (
        State,
        selectors::Resolved<Option<LayoutOp>>,
    ) {
        match self.selected_window(selector) {
            selectors::Resolved::Failed(e) => (self, selectors::Resolved::Failed(e)),
            selectors::Resolved::Found(other) => match self.tiling.focused_window {
                None => (self, selectors::Resolved::Failed("no focused window"@)),
                Some(focused) => match self.tree_of(focused) {
                    selectors::Resolved::Failed(e) => (self, selectors::Resolved::Failed(e)),
                    selectors::Resolved::Found(sid) => (
                        self.asking(self.pairing(action, sid, focused, other)),
                        selectors::Resolved::Found(None),
                    ),
                },
            },
        }
    }

    /// The focus moved to a selected window, if one is selected.
    pub open spec fn after_focus(self, selector: Option<Selector>) -> (
        State,
        selectors::Resolved<Option<LayoutOp>>,
    ) {
        match selector {
            None => (self, selectors::Resolved::Found(None)),
            Some(selector) => match self.selected_window(selector) {
                selectors::Resolved::Failed(e) => (self, selectors::Resolved::Failed(e)),
                selectors::Resolved::Found(w) => (
                    self.focusing(w),
                    selectors::Resolved::Found(None),
                ),
            },
        }
    }

    /// The focus moved as above; some window must have it then.
    pub open spec fn after_acting_focus(self, selector: Option<Selector>) -> (
        State,
        selectors::Resolved<Option<LayoutOp>>,
    ) {
        let (s, outcome) = self.after_focus(selector);
        match outcome {
            selectors::Resolved::Failed(_) => (s, outcome),
            selectors::Resolved::Found(_) => if s.tiling.focused_window is Some {
                (s, outcome)
            } else {
                (s, selectors::Resolved::Failed("no focused window"@))
            },
        }
    }

    /// The focused window floated, or tiled on the active space if it floats.
    pub open spec fn after_float(self, focused: u32) -> (
        State,
        selectors::Resolved<Option<LayoutOp>>,
    ) {
        if self.tiling.floating.contains(focused) {
            let m = self.tiling.unmarked(focused);
            match self.tiling.active_space {
                None => (self.with_tiling(m), selectors::Resolved::Failed("no active space"@)),
                Some(sid) => (
                    self.with_tiling(m.assigned(focused, sid)),
                    if m.assignment_refused(focused, sid) {
                        selectors::Resolved::Failed("space has no layout"@)
                    } else {
                        selectors::Resolved::Found(None)
                    },
                ),
            }
        } else {
            (self.with_tiling(self.tiling.floated(focused, true, 0)), selectors::Resolved::Found(None))
        }
    }

    /// A toggle of the focused window.
    pub open spec fn after_toggle(self, name: Seq<char>) -> (
        State,
        selectors::Resolved<Option<LayoutOp>>,
    ) {
        let known = name == "zoom-fullscreen"@ || name == "zoom-parent"@ || name == "float"@ || name
            == "native-fullscreen"@ || name == "split"@;
        if !known {
            (
                self,
                selectors::Resolved::Failed("window toggle '"@ + name + "' not yet handled"@),
            )
        } else {
            match self.tiling.focused_window {
                None => (self, selectors::Resolved::Failed("no focused window"@)),
                Some(focused) => if name == "float"@ {
                    self.after_float(focused)
                } else if name == "native-fullscreen"@ {
                    (self, selectors::Resolved::Found(None))
                } else {
                    match self.active_tree() {
                        selectors::Resolved::Failed(e) => (self, selectors::Resolved::Failed(e)),
                        selectors::Resolved::Found(sid) => (
                            self.asking(
                                if name == "zoom-fullscreen"@ {
                                    LayoutOp::ToggleZoom {
                                        sid,
                                        window_id: focused,
                                        kind: ZoomKind::Fullscreen,
                                    }
                                } else if name == "zoom-parent"@ {
                                    LayoutOp::ToggleZoom {
                                        sid,
                                        window_id: focused,
                                        kind: ZoomKind::Parent,
                                    }
                                } else {
                                    LayoutOp::ToggleSplit { sid, window_id: focused }
                                },
                            ),
                            selectors::Resolved::Found(None),
                        ),
                    }
                },
            }
        }
    }

    /// An action that changes the tile of the focused window on its own space.
    pub open spec fn after_tile_change(self, action: WindowAction) -> (
        State,
        selectors::Resolved<Option<LayoutOp>>,
    ) {
        match self.tiling.focused_window {
            None => (self, selectors::Resolved::Failed("no focused window"@)),
            Some(focused) => match (action, self.tiling.space_of(focused)) {
                (WindowAction::Resize { absolute, handle, dw, dh }, Some(sid)) => if absolute {
                    (
                        self,
                        selectors::Resolved::Failed(
                            "cannot use absolute resizing on a managed window.\n"@,
                        ),
                    )
                } else {
                    (
                        self,
                        selectors::Resolved::Found(
                            Some(LayoutOp::Resize { sid, window_id: focused, handle, dw, dh }),
                        ),
                    )
                },
                (WindowAction::Ratio { kind, ratio }, Some(sid)) => (
                    self,
                    selectors::Resolved::Found(
                        Some(
                            LayoutOp::Ratio {
                                sid,
                                window_id: focused,
                                relative: kind == ValueType::Rel,
                                ratio,
                            },
                        ),
                    ),
                ),
                (WindowAction::Ratio { kind, ratio }, None) => (
                    self,
                    selectors::Resolved::Failed("cannot adjust ratio of a non-managed window."@),
                ),
                (WindowAction::Insert(insert), Some(sid)) => if self.tiling.spaces[sid].layout
                    == ViewType::Bsp {
                    (
                        self.asking(LayoutOp::SetInsertion { sid, window_id: focused, insert }),
                        selectors::Resolved::Found(None),
                    )
                } else {
                    (
                        self,
                        selectors::Resolved::Failed(
                            "the acting window is not within a bsp space."@,
                        ),
                    )
                },
                (WindowAction::Insert(insert), None) => (
                    self,
                    selectors::Resolved::Failed("the acting window is not managed."@),
                ),
                _ => (self, selectors::Resolved::Found(None)),
            },
        }
    }

    /// One action of a `window` command: the state after it, and the operation
    /// that the layout engine has to answer for, if there is one.
    pub open spec fn after_window_action(self, action: WindowAction) -> (
        State,
        selectors::Resolved<Option<LayoutOp>>,
    ) {
        match action {
            WindowAction::Focus(selector) => self.after_focus(selector),
            WindowAction::Swap(selector) => self.after_pairing(action, selector),
            WindowAction::Warp(selector) => self.after_pairing(action, selector),
            WindowAction::Stack(selector) => self.after_pairing(action, selector),
            WindowAction::Minimize(selector) => self.after_acting_focus(selector),
            WindowAction::Close(selector) => self.after_acting_focus(selector),
            WindowAction::Toggle(name) => self.after_toggle(name@),
            WindowAction::Resize { .. } => self.after_tile_change(action),
            WindowAction::Ratio { .. } => self.after_tile_change(action),
            WindowAction::Insert(_) => self.after_tile_change(action),
            _ => (
                self,
                selectors::Resolved::Failed("window action not yet handled by AppState"@),
            ),
        }
    }

    /// The actions of a `window` command from position `i` on, up to the first
    /// failure, the first operation that needs an answer, or the first action
    /// that changed the layout while others follow: the state then, the position
    /// behind the last action done, and how it ended.
    pub open spec fn after_window_actions(self, actions: Seq<WindowAction>, i: int) -> (
        State,
        int,
        selectors::Resolved<WindowStop>,
    )
        decreases actions.len() - i,
    {
        if i >= actions.len() {
            (self, i, selectors::Resolved::Found(WindowStop::Done))
        } else {
            let (s, outcome) = self.after_window_action(actions[i]);
            match outcome {
                selectors::Resolved::Found(None) => if i + 1 < actions.len() && s.tiling.ops.len()
                    > 0 {
                    (s, i + 1, selectors::Resolved::Found(WindowStop::Wait))
                } else {
                    s.after_window_actions(actions, i + 1)
                },
                selectors::Resolved::Found(Some(op)) => (
                    s,
                    i + 1,
                    selectors::Resolved::Found(WindowStop::Ask(op)),
                ),
                selectors::Resolved::Failed(e) => (s, i + 1, selectors::Resolved::Failed(e)),
            }
        }
    }

    /// An action on the selected space itself.
    pub open spec fn after_selected_space(self, sid: u64, action: SpaceAction) -> (
        State,
        selectors::Resolved<()>,
    ) {
        match action {
            SpaceAction::Label(label) => match labels::label_error(
                labels::LabelKind::Space,
                label@,
            ) {
                Some(e) => (self, selectors::Resolved::Failed(e)),
                None => (
                    State {
                        topology: topology::TopologyModel {
                            space_labels: labels::relabelled(
                                self.topology.space_labels,
                                sid,
                                label@,
                            ),
                            ..self.topology
                        },
                        ..self
                    },
                    selectors::Resolved::Found(()),
                ),
            },
            SpaceAction::Gap { kind, gap } => if self.gap_disabled.dom().contains(sid)
                || self.is_managed(sid) {
                (self.with_gap(sid, kind, gap), selectors::Resolved::Found(()))
            } else {
                (self, selectors::Resolved::Failed("cannot set gap for a non-managed space."@))
            },
            SpaceAction::Padding { kind, padding } => if self.is_managed(sid) {
                (self.with_padding(sid, kind, padding), selectors::Resolved::Found(()))
            } else {
                (self, selectors::Resolved::Failed("cannot set padding for a non-managed space."@))
            },
            SpaceAction::Toggle(name) => if name@ == "padding"@ {
                if self.is_managed(sid) {
                    (self.with_padding_toggled(sid), selectors::Resolved::Found(()))
                } else {
                    (
                        self,
                        selectors::Resolved::Failed(
                            "cannot toggle padding for a non-managed space."@,
                        ),
                    )
                }
            } else {
                if self.is_managed(sid) {
                    (self.with_gap_toggled(sid), selectors::Resolved::Found(()))
                } else {
                    (
                        self,
                        selectors::Resolved::Failed("cannot toggle gap for a non-managed space."@),
                    )
                }
            },
            _ => (self, selectors::Resolved::Found(())),
        }
    }

    /// An action on the layout of the active space.
    pub open spec fn after_active_space(self, sid: u64, action: SpaceAction) -> (
        State,
        selectors::Resolved<()>,
    ) {
        match action {
            SpaceAction::Balance(axis) => (
                self.asking(LayoutOp::Balance { sid, axis: axis_or_auto(axis) }),
                selectors::Resolved::Found(()),
            ),
            SpaceAction::Equalize(axis) => (
                self.asking(LayoutOp::Equalize { sid, axis: axis_or_auto(axis) }),
                selectors::Resolved::Found(()),
            ),
            SpaceAction::Mirror(axis) => (
                self.asking(LayoutOp::Mirror { sid, axis }),
                selectors::Resolved::Found(()),
            ),
            SpaceAction::Rotate(degrees) => (
                self.asking(LayoutOp::Rotate { sid, degrees }),
                selectors::Resolved::Found(()),
            ),
            SpaceAction::Layout(layout) => (
                self.with_tiling(self.tiling.with_layout(sid, layout)),
                selectors::Resolved::Found(()),
            ),
            _ => (
                self,
                selectors::Resolved::Failed("space action not yet handled by AppState"@),
            ),
        }
    }

    /// Whether an action concerns the selected space rather than the active
    /// one.
    pub open spec fn concerns_selection(action: SpaceAction) -> bool {
        match action {
            SpaceAction::Label(_) => true,
            SpaceAction::Gap { .. } => true,
            SpaceAction::Padding { .. } => true,
            SpaceAction::Toggle(name) => name@ == "padding"@ || name@ == "gap"@,
            _ => false,
        }
    }

    /// One action of a `space` command.
    pub open spec fn after_space_action(self, target: Option<Selector>, action: SpaceAction) -> (
        State,
        selectors::Resolved<()>,
    ) {
        if State::concerns_selection(action) {
            match self.selected_space(target) {
                selectors::Resolved::Failed(e) => (self, selectors::Resolved::Failed(e)),
                selectors::Resolved::Found(sid) => self.after_selected_space(sid, action),
            }
        } else {
            match action {
                SpaceAction::Toggle(name) => (
                    self,
                    selectors::Resolved::Failed(
                        "unknown value '"@ + name@
                            + "' given to command '--toggle' for domain 'space'\n"@,
                    ),
                ),
                _ => match self.active_tree() {
                    selectors::Resolved::Failed(e) => (self, selectors::Resolved::Failed(e)),
                    selectors::Resolved::Found(sid) => self.after_active_space(sid, action),
                },
            }
        }
    }

    /// Whether a relative change of gap or padding stays in range.
    pub open spec fn space_action_fits(self, target: Option<Selector>, action: SpaceAction) -> bool {
        match self.selected_space(target) {
            selectors::Resolved::Failed(_) => true,
            selectors::Resolved::Found(sid) => match action {
                SpaceAction::Gap { kind, gap } => self.gap_fits(sid, kind, gap),
                SpaceAction::Padding { kind, padding } => self.padding_fits(sid, kind, padding),
                _ => true,
            },
        }
    }

    /// One action of a `display` command.
    pub open spec fn after_display_action(
        self,
        target: Option<Selector>,
        action: DisplayAction,
    ) -> (State, selectors::Resolved<()>) {
        match action {
            DisplayAction::Label(label) => match self.selected_display(target) {
                selectors::Resolved::Failed(e) => (self, selectors::Resolved::Failed(e)),
                selectors::Resolved::Found(did) => match labels::label_error(
                    labels::LabelKind::Display,
                    label@,
                ) {
                    Some(e) => (self, selectors::Resolved::Failed(e)),
                    None => (
                        State {
                            topology: topology::TopologyModel {
                                display_labels: labels::relabelled(
                                    self.topology.display_labels,
                                    did,
                                    label@,
                                ),
                                ..self.topology
                            },
                            ..self
                        },
                        selectors::Resolved::Found(()),
                    ),
                },
            },
            _ => (
                self,
                selectors::Resolved::Failed("display action not yet handled by AppState"@),
            ),
        }
    }

    /// The first `k` of the listed spaces given the current settings.
    pub open spec fn configured(self, ids: Seq<u64>, k: int) -> State
        decreases k,
    {
        if k <= 0 {
            self
        } else {
            self.configured(ids, k - 1).with_settings(ids[k - 1])
        }
    }

    /// The first `k` of the listed spaces inset again.
    pub open spec fn all_reframed(self, ids: Seq<u64>, k: int) -> State
        decreases k,
    {
        if k <= 0 {
            self
        } else {
            self.all_reframed(ids, k - 1).reframed(ids[k - 1])
        }
    }

    /// Every layout given the current settings; if room for the bar changed,
    /// every space is inset again.
    pub open spec fn reflowed(self, bar_changed: bool) -> State {
        let ids = idmap::ids_of(self.tiling.spaces.dom());
        let s = self.configured(ids, ids.len() as int);
        if bar_changed {
            s.all_reframed(ids, ids.len() as int)
        } else {
            s
        }
    }

    /// The requests of a `config` command, the first `n` of them: what the
    /// settings are then, what was asked, and whether anything was changed. A
    /// request that cannot be served ends the command.
    pub open spec fn config_run(self, ops: Seq<ConfigOp>, n: int) -> ConfigRun
        decreases n,
    {
        if n <= 0 {
            ConfigRun { config: self.config, output: Seq::empty(), changed: false, error: None }
        } else {
            let run = self.config_run(ops, n - 1);
            if run.error is Some {
                run
            } else {
                run.after(ops[n - 1])
            }
        }
    }

    /// A `config` command: a change reflows every layout, unless a later request
    /// cannot be served.
    pub open spec fn after_config(self, ops: Seq<ConfigOp>) -> (
        State,
        selectors::Resolved<Option<Seq<char>>>,
    ) {
        let run = self.config_run(ops, ops.len() as int);
        let s = State { config: run.config, ..self };
        match run.error {
            Some(e) => (s, selectors::Resolved::Failed(e)),
            None => (
                if run.changed {
                    s.reflowed(run.config.external_bar != self.config.external_bar)
                } else {
                    s
                },
                selectors::Resolved::Found(
                    if run.output.len() == 0 {
                        None
                    } else {
                        Some(run.output)
                    },
                ),
            ),
        }
    }

    /// The actions of a `space` command from position `i` on, up to the first
    /// one that fails. Nothing if a relative change of gap or padding on the way
    /// goes out of range.
    pub open spec fn after_space_actions(
        self,
        target: Option<Selector>,
        actions: Seq<SpaceAction>,
        i: int,
    ) -> (State, Option<selectors::Resolved<()>>)
        decreases actions.len() - i,
    {
        if i >= actions.len() {
            (self, Some(selectors::Resolved::Found(())))
        } else if !self.space_action_fits(target, actions[i]) {
            (self, None)
        } else {
            let (s, outcome) = self.after_space_action(target, actions[i]);
            match outcome {
                selectors::Resolved::Found(_) => s.after_space_actions(target, actions, i + 1),
                selectors::Resolved::Failed(_) => (s, Some(outcome)),
            }
        }
    }

    /// The actions of a `display` command from position `i` on, up to the first
    /// one that fails.
    pub open spec fn after_display_actions(
        self,
        target: Option<Selector>,
        actions: Seq<DisplayAction>,
        i: int,
    ) -> (State, selectors::Resolved<()>)
        decreases actions.len() - i,
    {
        if i >= actions.len() {
            (self, selectors::Resolved::Found(()))
        } else {
            let (s, outcome) = self.after_display_action(target, actions[i]);
            match outcome {
                selectors::Resolved::Found(_) => s.after_display_actions(target, actions, i + 1),
                selectors::Resolved::Failed(_) => (s, outcome),
            }
        }
    }

    /// An event taken in: the state after it, or the complaint.
    pub open spec fn after_event(self, event: StateEvent) -> (State, selectors::Resolved<()>) {
        match event {
            StateEvent::DisplayCreated { display_id, info } => (
                State {
                    topology: topology::TopologyModel {
                        displays: self.topology.displays.insert(display_id, info),
                        ..self.topology
                    },
                    ..self
                },
                selectors::Resolved::Found(()),
            ),
            StateEvent::DisplayRemoved { display_id } => (
                State { topology: self.topology.without_display(display_id), ..self },
                selectors::Resolved::Found(()),
            ),
            StateEvent::WindowCreated { window_id } => if !self.config.manage {
                (self, selectors::Resolved::Found(()))
            } else {
                match self.tiling.active_space {
                    None => (self, selectors::Resolved::Failed("no active space"@)),
                    Some(sid) => self.after_assignment(window_id, sid),
                }
            },
            StateEvent::WindowAssignedToSpace { window_id, sid } => if !self.config.manage {
                (self, selectors::Resolved::Found(()))
            } else {
                self.after_assignment(window_id, sid)
            },
            StateEvent::WindowDestroyed { window_id } => (
                if self.tiling.active_space is Some {
                    self.without_window(window_id)
                } else {
                    self
                },
                selectors::Resolved::Found(()),
            ),
            StateEvent::WindowFocused { window_id } => (
                self.focusing(window_id),
                selectors::Resolved::Found(()),
            ),
            StateEvent::SpaceCreated { sid, frame } => (
                self.with_space(sid, frame),
                selectors::Resolved::Found(()),
            ),
            StateEvent::SpaceCreatedOnDisplay { sid, display_id, frame } => (
                self.with_space_on(sid, display_id, frame),
                selectors::Resolved::Found(()),
            ),
            StateEvent::SpaceRemoved { sid } => (
                self.without_space(sid),
                selectors::Resolved::Found(()),
            ),
            StateEvent::SpaceChanged { sid } => (
                self.with_tiling(self.tiling.activated(sid)),
                selectors::Resolved::Found(()),
            ),
            StateEvent::DisplayFrameChanged { sid, frame } => (
                self.framed(sid, frame),
                if self.tiling.spaces.dom().contains(sid) {
                    selectors::Resolved::Found(())
                } else {
                    selectors::Resolved::Failed("space has no layout"@)
                },
            ),
        }
    }

    /// A window assigned to a space, or the complaint.
    pub open spec fn after_assignment(self, window_id: u32, sid: u64) -> (
        State,
        selectors::Resolved<()>,
    ) {
        (
            self.with_tiling(self.tiling.assigned(window_id, sid)),
            if self.tiling.assignment_refused(window_id, sid) {
                selectors::Resolved::Failed("space has no layout"@)
            } else {
                selectors::Resolved::Found(())
            },
        )
    }
}

/// The axis given, or the automatic one.
pub open spec fn axis_or_auto(axis: Option<NodeSplit>) -> NodeSplit {
    match axis {
        Some(a) => a,
        None => NodeSplit::Auto,
    }
}

fn axis_of(axis: Option<NodeSplit>) -> (r: NodeSplit)
    ensures
        r == axis_or_auto(axis),
{
    match axis {
        Some(a) => a,
        None => NodeSplit::Auto,
    }
}

/// What came of an operation that the layout engine answered for.
pub fn settle(op: &LayoutOp, accepted: bool) -> (r: Result<(), String>)
    ensures
        r is Err <==> !accepted && (op is Resize || op is Ratio),
        r is Err && op is Resize ==> r->Err_0@ == "cannot locate a bsp node fence.\n"@,
        r is Err && op is Ratio ==> r->Err_0@ == "cannot adjust ratio of a root node."@,
{
    if accepted {
        return Ok(());
    }
    match op {
        LayoutOp::Resize { .. } => Err("cannot locate a bsp node fence.\n".to_owned()),
        LayoutOp::Ratio { .. } => Err("cannot adjust ratio of a root node.".to_owned()),
        _ => Ok(()),
    }
}

impl AppState {
    /// The active space, if it has a layout.
    fn require_active_tree(&self) -> (r: Result<u64, String>)
        requires
            self.wf(),
        ensures
            selectors::is_outcome(r, self@.active_tree()),
            r is Ok ==> self@.tiling.spaces.dom().contains(r->Ok_0),
    {
        match self.active_space_id() {
            None => Err("no active space".to_owned()),
            Some(sid) => if self.space(sid).is_some() {
                Ok(sid)
            } else {
                Err("active space has no layout".to_owned())
            },
        }
    }

    fn require_tree_of(&self, window_id: u32) -> (r: Result<u64, String>)
        requires
            self.wf(),
        ensures
            selectors::is_outcome(r, self@.tree_of(window_id)),
    {
        match self.window_space_id(window_id) {
            Some(sid) => Ok(sid),
            None => self.require_active_tree(),
        }
    }

    fn step_pairing(&mut self, action: &WindowAction, selector: &Selector) -> (r: Result<
        Option<LayoutOp>,
        String,
    >)
        requires
            old(self).wf(),
        ensures
            final(self).wf(),
            final(self)@ == old(self)@.after_pairing(*action, *selector).0,
            selectors::is_outcome(r, old(self)@.after_pairing(*action, *selector).1),
    {
        let other = match self.resolve_window(selector) {
            Ok(other) => other,
            Err(error) => {
                return Err(error);
            },
        };
        let focused = match self.require_focused() {
            Ok(focused) => focused,
            Err(error) => {
                return Err(error);
            },
        };
        let sid = match self.require_tree_of(focused) {
            Ok(sid) => sid,
            Err(error) => {
                return Err(error);
            },
        };
        let op = match action {
            WindowAction::Swap(_) => LayoutOp::Swap { sid, window_id: focused, other },
            WindowAction::Warp(_) => LayoutOp::Warp { sid, window_id: focused, other },
            _ => LayoutOp::StackOnto { sid, window_id: focused, other },
        };
        self.push_op(op);
        Ok(None)
    }

    fn step_focus(&mut self, selector: &Option<Selector>) -> (r: Result<Option<LayoutOp>, String>)
        requires
            old(self).wf(),
        ensures
            final(self).wf(),
            final(self)@ == old(self)@.after_focus(*selector).0,
            selectors::is_outcome(r, old(self)@.after_focus(*selector).1),
    {
        if let Some(selector) = selector {
            match self.resolve_window(selector) {
                Ok(window_id) => self.set_focused_window(Some(window_id)),
                Err(error) => {
                    return Err(error);
                },
            }
        }
        Ok(None)
    }

    fn step_acting_focus(&mut self, selector: &Option<Selector>) -> (r: Result<
        Option<LayoutOp>,
        String,
    >)
        requires
            old(self).wf(),
        ensures
            final(self).wf(),
            final(self)@ == old(self)@.after_acting_focus(*selector).0,
            selectors::is_outcome(r, old(self)@.after_acting_focus(*selector).1),
    {
        match self.step_focus(selector) {
            Ok(_) => {},
            Err(error) => {
                return Err(error);
            },
        }
        match self.require_focused() {
            Ok(_) => Ok(None),
            Err(error) => Err(error),
        }
    }

    fn step_float(&mut self, focused: u32) -> (r: Result<Option<LayoutOp>, String>)
        requires
            old(self).wf(),
        ensures
            final(self).wf(),
            final(self)@ == old(self)@.after_float(focused).0,
            selectors::is_outcome(r, old(self)@.after_float(focused).1),
    {
        if self.is_floating(focused) {
            self.clear_floating(focused);
            match self.active_space_id() {
                None => Err("no active space".to_owned()),
                Some(sid) => match self.assign_window_to_space(focused, sid) {
                    Ok(()) => Ok(None),
                    Err(error) => Err(error),
                },
            }
        } else {
            self.set_window_floating(focused, true, 0);
            Ok(None)
        }
    }

    fn step_toggle(&mut self, name: &str) -> (r: Result<Option<LayoutOp>, String>)
        requires
            old(self).wf(),
        ensures
            final(self).wf(),
            final(self)@ == old(self)@.after_toggle(name@).0,
            selectors::is_outcome(r, old(self)@.after_toggle(name@).1),
    {
        let fullscreen = text::same(name, "zoom-fullscreen");
        let parent = text::same(name, "zoom-parent");
        let float = text::same(name, "float");
        let native = text::same(name, "native-fullscreen");
        let split = text::same(name, "split");
        if !(fullscreen || parent || float || native || split) {
            let mut out = "window toggle '".to_owned();
            out.append(name);
            out.append("' not yet handled");
            return Err(out);
        }
        let focused = match self.require_focused() {
            Ok(focused) => focused,
            Err(error) => {
                return Err(error);
            },
        };
        if float {
            return self.step_float(focused);
        }
        if native {
            return Ok(None);
        }
        match self.require_active_tree() {
            Ok(sid) => {
                let op = if fullscreen {
                    LayoutOp::ToggleZoom { sid, window_id: focused, kind: ZoomKind::Fullscreen }
                } else if parent {
                    LayoutOp::ToggleZoom { sid, window_id: focused, kind: ZoomKind::Parent }
                } else {
                    LayoutOp::ToggleSplit { sid, window_id: focused }
                };
                self.push_op(op);
                Ok(None)
            },
            Err(error) => Err(error),
        }
    }

    fn step_tile_change(&mut self, action: &WindowAction) -> (r: Result<Option<LayoutOp>, String>)
        requires
            old(self).wf(),
            action is Resize || action is Ratio || action is Insert,
        ensures
            final(self).wf(),
            final(self)@ == old(self)@.after_tile_change(*action).0,
            selectors::is_outcome(r, old(self)@.after_tile_change(*action).1),
    {
        let focused = match self.require_focused() {
            Ok(focused) => focused,
            Err(error) => {
                return Err(error);
            },
        };
        let space = self.window_space_id(focused);
        match action {
            WindowAction::Resize { absolute, handle, dw, dh } => match space {
                Some(sid) => if *absolute {
                    Err("cannot use absolute resizing on a managed window.\n".to_owned())
                } else {
                    Ok(
                        Some(
                            LayoutOp::Resize {
                                sid,
                                window_id: focused,
                                handle: *handle,
                                dw: dw.copy(),
                                dh: dh.copy(),
                            },
                        ),
                    )
                },
                None => Ok(None),
            },
            WindowAction::Ratio { kind, ratio } => match space {
                Some(sid) => Ok(
                    Some(
                        LayoutOp::Ratio {
                            sid,
                            window_id: focused,
                            relative: *kind == ValueType::Rel,
                            ratio: ratio.copy(),
                        },
                    ),
                ),
                None => Err("cannot adjust ratio of a non-managed window.".to_owned()),
            },
            WindowAction::Insert(insert) => match space {
                Some(sid) => {
                    let bsp = match self.space(sid) {
                        Some(record) => record.layout == ViewType::Bsp,
                        None => false,
                    };
                    if bsp {
                        self.push_op(
                            LayoutOp::SetInsertion { sid, window_id: focused, insert: *insert },
                        );
                        Ok(None)
                    } else {
                        Err("the acting window is not within a bsp space.".to_owned())
                    }
                },
                None => Err("the acting window is not managed.".to_owned()),
            },
            _ => Ok(None),
        }
    }

    /// One action of a `window` command. An operation that is handed out needs
    /// the layout engine's answer before the command goes on.
    pub fn window_step(&mut self, action: &WindowAction) -> (r: Result<Option<LayoutOp>, String>)
        requires
            old(self).wf(),
        ensures
            final(self).wf(),
            final(self)@ == old(self)@.after_window_action(*action).0,
            selectors::is_outcome(r, old(self)@.after_window_action(*action).1),
    {
        match action {
            WindowAction::Focus(selector) => self.step_focus(selector),
            WindowAction::Swap(selector) => self.step_pairing(action, selector),
            WindowAction::Warp(selector) => self.step_pairing(action, selector),
            WindowAction::Stack(selector) => self.step_pairing(action, selector),
            WindowAction::Minimize(selector) => self.step_acting_focus(selector),
            WindowAction::Close(selector) => self.step_acting_focus(selector),
            WindowAction::Toggle(name) => self.step_toggle(name.as_str()),
            WindowAction::Resize { .. } => self.step_tile_change(action),
            WindowAction::Ratio { .. } => self.step_tile_change(action),
            WindowAction::Insert(_) => self.step_tile_change(action),
            _ => Err("window action not yet handled by AppState".to_owned()),
        }
    }

    /// Move the focus to the window that a command is addressed to.
    pub fn window_target(&mut self, target: &Option<Selector>) -> (r: Result<(), String>)
        requires
            old(self).wf(),
        ensures
            final(self).wf(),
            final(self)@ == old(self)@.after_focus(*target).0,
            match old(self)@.after_focus(*target).1 {
                selectors::Resolved::Found(_) => r is Ok,
                selectors::Resolved::Failed(e) => r is Err && r->Err_0@ == e,
            },
    {
        match self.step_focus(target) {
            Ok(_) => Ok(()),
            Err(error) => Err(error),
        }
    }

    /// Carry out the actions of a `window` command from position `start` on, up
    /// to the first failure or the first one that the layout engine has to do
    /// its part for. The position behind the last action done is returned with
    /// how it ended.
    pub fn dispatch_window(&mut self, actions: &Vec<WindowAction>, start: usize) -> (r: (
        usize,
        Result<WindowStop, String>,
    ))
        requires
            old(self).wf(),
            start <= actions@.len(),
        ensures
            final(self).wf(),
            final(self)@ == old(self)@.after_window_actions(actions@, start as int).0,
            r.0 == old(self)@.after_window_actions(actions@, start as int).1,
            selectors::is_outcome(
                r.1,
                old(self)@.after_window_actions(actions@, start as int).2,
            ),
    {
        let ghost whole = self@.after_window_actions(actions@, start as int);
        let mut i: usize = start;
        while i < actions.len()
            invariant
                self.wf(),
                i <= actions@.len(),
                whole == old(self)@.after_window_actions(actions@, start as int),
                whole == self@.after_window_actions(actions@, i as int),
            decreases actions.len() - i,
        {
            match self.window_step(&actions[i]) {
                Ok(None) => {
                    i += 1;
                    if i < actions.len() && self.has_ops() {
                        return (i, Ok(WindowStop::Wait));
                    }
                },
                Ok(Some(op)) => {
                    return (i + 1, Ok(WindowStop::Ask(op)));
                },
                Err(error) => {
                    return (i + 1, Err(error));
                },
            }
        }
        (i, Ok(WindowStop::Done))
    }

    fn step_selected_space(&mut self, sid: u64, action: &SpaceAction) -> (r: Result<(), String>)
        requires
            old(self).wf(),
            State::concerns_selection(*action),
            match *action {
                SpaceAction::Gap { kind, gap } => old(self)@.gap_fits(sid, kind, gap),
                SpaceAction::Padding { kind, padding } => old(self)@.padding_fits(
                    sid,
                    kind,
                    padding,
                ),
                _ => true,
            },
        ensures
            final(self).wf(),
            final(self)@ == old(self)@.after_selected_space(sid, *action).0,
            selectors::is_outcome(r, old(self)@.after_selected_space(sid, *action).1),
    {
        match action {
            SpaceAction::Label(label) => self.set_space_label(sid, label.as_str()),
            SpaceAction::Gap { kind, gap } => self.set_space_gap(sid, *kind, *gap),
            SpaceAction::Padding { kind, padding } => self.set_space_padding(sid, *kind, *padding),
            SpaceAction::Toggle(name) => if text::same(name.as_str(), "padding") {
                self.toggle_space_padding(sid)
            } else {
                self.toggle_space_gap(sid)
            },
            _ => Ok(()),
        }
    }

    fn step_active_space(&mut self, sid: u64, action: &SpaceAction) -> (r: Result<(), String>)
        requires
            old(self).wf(),
            old(self)@.tiling.spaces.dom().contains(sid),
        ensures
            final(self).wf(),
            final(self)@ == old(self)@.after_active_space(sid, *action).0,
            selectors::is_outcome(r, old(self)@.after_active_space(sid, *action).1),
    {
        match action {
            SpaceAction::Balance(axis) => self.push_op(
                LayoutOp::Balance { sid, axis: axis_of(*axis) },
            ),
            SpaceAction::Equalize(axis) => self.push_op(
                LayoutOp::Equalize { sid, axis: axis_of(*axis) },
            ),
            SpaceAction::Mirror(axis) => self.push_op(LayoutOp::Mirror { sid, axis: *axis }),
            SpaceAction::Rotate(degrees) => self.push_op(
                LayoutOp::Rotate { sid, degrees: *degrees },
            ),
            SpaceAction::Layout(layout) => self.set_space_layout(sid, *layout),
            _ => {
                return Err("space action not yet handled by AppState".to_owned());
            },
        }
        Ok(())
    }

    /// Whether a relative change of gap or padding stays in range.
    pub fn space_action_in_range(&self, target: &Option<Selector>, action: &SpaceAction) -> (r:
        bool)
        requires
            self.wf(),
        ensures
            r == self@.space_action_fits(*target, *action),
    {
        let sid = match self.resolve_space(target.as_ref()) {
            Ok(sid) => sid,
            Err(_) => {
                return true;
            },
        };
        match action {
            SpaceAction::Gap { kind, gap } => {
                if let Some(saved) = self.saved_gap(sid) {
                    return in_range(*kind, saved, *gap);
                }
                if self.is_managed_space(sid) {
                    match self.space(sid) {
                        Some(record) => in_range(*kind, record.gap, *gap),
                        None => true,
                    }
                } else {
                    true
                }
            },
            SpaceAction::Padding { kind, padding } => {
                let current = self.space_padding(sid);
                !self.is_managed_space(sid) || in_range(*kind, current.top, padding.top)
                    && in_range(*kind, current.bottom, padding.bottom) && in_range(
                    *kind,
                    current.left,
                    padding.left,
                ) && in_range(*kind, current.right, padding.right)
            },
            _ => true,
        }
    }

    /// One action of a `space` command.
    pub fn space_step(&mut self, target: &Option<Selector>, action: &SpaceAction) -> (r: Result<
        (),
        String,
    >)
        requires
            old(self).wf(),
            old(self)@.space_action_fits(*target, *action),
        ensures
            final(self).wf(),
            final(self)@ == old(self)@.after_space_action(*target, *action).0,
            selectors::is_outcome(r, old(self)@.after_space_action(*target, *action).1),
    {
        let selected = match action {
            SpaceAction::Label(_) => true,
            SpaceAction::Gap { .. } => true,
            SpaceAction::Padding { .. } => true,
            SpaceAction::Toggle(name) => {
                if !text::same(name.as_str(), "padding") && !text::same(name.as_str(), "gap") {
                    let mut out = "unknown value '".to_owned();
                    out.append(name.as_str());
                    out.append("' given to command '--toggle' for domain 'space'\n");
                    return Err(out);
                }
                true
            },
            _ => false,
        };
        if selected {
            match self.resolve_space(target.as_ref()) {
                Ok(sid) => self.step_selected_space(sid, action),
                Err(error) => Err(error),
            }
        } else {
            match self.require_active_tree() {
                Ok(sid) => self.step_active_space(sid, action),
                Err(error) => Err(error),
            }
        }
    }

    /// One action of a `display` command.
    pub fn display_step(&mut self, target: &Option<Selector>, action: &DisplayAction) -> (r: Result<
        (),
        String,
    >)
        requires
            old(self).wf(),
        ensures
            final(self).wf(),
            final(self)@ == old(self)@.after_display_action(*target, *action).0,
            selectors::is_outcome(r, old(self)@.after_display_action(*target, *action).1),
    {
        match action {
            DisplayAction::Label(label) => match self.resolve_display(target.as_ref()) {
                Ok(did) => self.set_display_label(did, label.as_str()),
                Err(error) => Err(error),
            },
            _ => Err("display action not yet handled by AppState".to_owned()),
        }
    }

    /// Hand the current settings to every layout; if room for the bar changed,
    /// inset every space again.
    pub fn reflow(&mut self, bar_changed: bool)
        requires
            old(self).wf(),
        ensures
            final(self).wf(),
            final(self)@ == old(self)@.reflowed(bar_changed),
    {
        let ghost pre = self@;
        let ids = self.space_ids();
        let mut i: usize = 0;
        while i < ids.len()
            invariant
                self.wf(),
                i <= ids@.len(),
                idmap::lists(ids@, pre.tiling.spaces.dom()),
                self@ == pre.configured(ids@, i as int),
                self@.tiling.spaces.dom() == pre.tiling.spaces.dom(),
                self@.config == pre.config,
            decreases ids.len() - i,
        {
            let ghost before = self@;
            assert(ids@.contains(ids@[i as int]));
            self.configure_space(ids[i]);
            assert(self@.tiling.spaces.dom() =~= before.tiling.spaces.dom());
            i += 1;
        }
        if bar_changed {
            let ghost mid = self@;
            let mut j: usize = 0;
            while j < ids.len()
                invariant
                    self.wf(),
                    j <= ids@.len(),
                    self@ == mid.all_reframed(ids@, j as int),
                decreases ids.len() - j,
            {
                self.reframe(ids[j]);
                j += 1;
            }
        }
    }

    /// Carry out a `config` command.
    pub fn dispatch_config(&mut self, ops: &Vec<ConfigOp>) -> (r: Result<Option<String>, String>)
        requires
            old(self).wf(),
            forall|i: int| 0 <= i < ops@.len() ==> state::config_op_ok(#[trigger] ops@[i]),
        ensures
            final(self).wf(),
            final(self)@ == old(self)@.after_config(ops@).0,
            match old(self)@.after_config(ops@).1 {
                selectors::Resolved::Found(None) => r == Ok::<Option<String>, String>(None),
                selectors::Resolved::Found(Some(output)) => r is Ok && r->Ok_0 is Some
                    && r->Ok_0->0@ == output,
                selectors::Resolved::Failed(e) => r is Err && r->Err_0@ == e,
            },
    {
        let ghost pre = self@;
        let bar = self.external_bar();
        let mut output = String::new();
        let mut said = false;
        let mut changed = false;
        let mut i: usize = 0;
        while i < ops.len()
            invariant
                self.wf(),
                i <= ops@.len(),
                pre == old(self)@,
                forall|i: int| 0 <= i < ops@.len() ==> state::config_op_ok(#[trigger] ops@[i]),
                self@ == (State { config: self@.config, ..pre }),
                pre.config_run(ops@, i as int) == (ConfigRun {
                    config: self@.config,
                    output: output@,
                    changed,
                    error: None,
                }),
                said == (output@.len() > 0),
            decreases ops.len() - i,
        {
            match self.apply_config(&ops[i]) {
                Ok(Some(text)) => {
                    output.append(text.as_str());
                    output.push('\n');
                    said = true;
                },
                Ok(None) => {
                    changed = true;
                },
                Err(error) => {
                    proof {
                        lemma_run_stops(pre, ops@, i + 1, ops@.len() as int);
                    }
                    return Err(error);
                },
            }
            i += 1;
        }
        if changed {
            let bar_changed = self.external_bar() != bar;
            self.reflow(bar_changed);
        }
        if said {
            Ok(Some(output))
        } else {
            Ok(None)
        }
    }

    /// Carry out the actions of a `space` command, up to the first one that
    /// fails. The result is `None` where a relative change of gap or padding
    /// would go out of range; the actions before it are done.
    pub fn dispatch_space(&mut self, target: &Option<Selector>, actions: &Vec<SpaceAction>) -> (r:
        Option<Result<(), String>>)
        requires
            old(self).wf(),
        ensures
            final(self).wf(),
            final(self)@ == old(self)@.after_space_actions(*target, actions@, 0).0,
            match old(self)@.after_space_actions(*target, actions@, 0).1 {
                None => r is None,
                Some(outcome) => r is Some && selectors::is_outcome(r->0, outcome),
            },
    {
        let ghost whole = self@.after_space_actions(*target, actions@, 0);
        let mut i: usize = 0;
        while i < actions.len()
            invariant
                self.wf(),
                i <= actions@.len(),
                whole == old(self)@.after_space_actions(*target, actions@, 0),
                whole == self@.after_space_actions(*target, actions@, i as int),
            decreases actions.len() - i,
        {
            if !self.space_action_in_range(target, &actions[i]) {
                return None;
            }
            match self.space_step(target, &actions[i]) {
                Ok(()) => {},
                Err(error) => {
                    return Some(Err(error));
                },
            }
            i += 1;
        }
        Some(Ok(()))
    }

    /// Carry out the actions of a `display` command, up to the first one that
    /// fails.
    pub fn dispatch_display(&mut self, target: &Option<Selector>, actions: &Vec<DisplayAction>) -> (
    r: Result<(), String>)
        requires
            old(self).wf(),
        ensures
            final(self).wf(),
            final(self)@ == old(self)@.after_display_actions(*target, actions@, 0).0,
            selectors::is_outcome(r, old(self)@.after_display_actions(*target, actions@, 0).1),
    {
        let ghost whole = self@.after_display_actions(*target, actions@, 0);
        let mut i: usize = 0;
        while i < actions.len()
            invariant
                self.wf(),
                i <= actions@.len(),
                whole == old(self)@.after_display_actions(*target, actions@, 0),
                whole == self@.after_display_actions(*target, actions@, i as int),
            decreases actions.len() - i,
        {
            match self.display_step(target, &actions[i]) {
                Ok(()) => {},
                Err(error) => {
                    return Err(error);
                },
            }
            i += 1;
        }
        Ok(())
    }

    /// Take in an event of the window system.
    pub fn handle_event(&mut self, event: StateEvent) -> (r: Result<(), String>)
        requires
            old(self).wf(),
        ensures
            final(self).wf(),
            final(self)@ == old(self)@.after_event(event).0,
            selectors::is_outcome(r, old(self)@.after_event(event).1),
    {
        match event {
            StateEvent::DisplayCreated { display_id, info } => self.add_display(display_id, info),
            StateEvent::DisplayRemoved { display_id } => self.remove_display(display_id),
            StateEvent::WindowCreated { window_id } => {
                if self.manages() {
                    return self.add_window(window_id);
                }
            },
            StateEvent::WindowAssignedToSpace { window_id, sid } => {
                if self.manages() {
                    return self.assign_window_to_space(window_id, sid);
                }
            },
            StateEvent::WindowDestroyed { window_id } => {
                if self.active_space_id().is_some() {
                    return self.remove_window(window_id);
                }
            },
            StateEvent::WindowFocused { window_id } => self.set_focused_window(Some(window_id)),
            StateEvent::SpaceCreated { sid, frame } => self.add_space(sid, frame),
            StateEvent::SpaceCreatedOnDisplay { sid, display_id, frame } => {
                self.add_space_to_display(sid, display_id, frame)
            },
            StateEvent::SpaceRemoved { sid } => self.remove_space(sid),
            StateEvent::SpaceChanged { sid } => self.set_active_space(sid),
            StateEvent::DisplayFrameChanged { sid, frame } => {
                return self.set_space_frame(sid, frame);
            },
        }
        Ok(())
    }
}

/// Once a request could not be served, the run stays as it is.
proof fn lemma_run_stops(s: State, ops: Seq<ConfigOp>, n: int, m: int)
    requires
        0 <= n <= m,
        s.config_run(ops, n).error is Some,
    ensures
        s.config_run(ops, m) == s.config_run(ops, n),
    decreases m - n,
{
    if n < m {
        lemma_run_stops(s, ops, n, m - 1);
    }
}

fn in_range(kind: ValueType, current: i32, value: i32) -> (r: bool)
    ensures
        r == state::fits(kind, current, value),
{
    match kind {
        ValueType::Abs => true,
        ValueType::Rel => {
            let sum: i64 = current as i64 + value as i64;
            -0x8000_0000 <= sum && sum <= 0x7fff_ffff
        },
    }
}

/// An action that changes the layout is the last one before the layout engine
/// performs the change: no action goes by an outdated layout.
pub proof fn law_actions_go_by_the_layout(s: State, actions: Seq<WindowAction>, i: int)
    requires
        0 <= i < actions.len() - 1,
        s.after_window_action(actions[i]).1 == selectors::Resolved::Found(None::<LayoutOp>),
        s.after_window_action(actions[i]).0.tiling.ops.len() > 0,
    ensures
        s.after_window_actions(actions, i) == (
            s.after_window_action(actions[i]).0,
            i + 1,
            selectors::Resolved::Found(WindowStop::Wait),
        ),
{
}

/// When the active space changes, the one that was active before is the recent
/// one.
pub proof fn law_event_keeps_the_recent_space(s: State, before: u64, sid: u64)
    requires
        s.tiling.active_space == Some(before),
        before != sid,
    ensures
        s.after_event(StateEvent::SpaceChanged { sid }).0.tiling.active_space == Some(sid),
        s.after_event(StateEvent::SpaceChanged { sid }).0.selected_space(Some(Selector::Recent))
            == selectors::Resolved::Found(before),
{
}

/// When a window that was not tiled is tiled and takes the focus, the window that
/// had it before is the recent one.
pub proof fn law_new_window_keeps_the_recent_window(s: State, before: u32, window_id: u32, sid: u64)
    requires
        s.config.manage,
        s.tiling.focused_window == Some(before),
        before != window_id,
        s.tiling.assignment_tiles(window_id, sid),
        !s.tiling.is_tiled(window_id),
    ensures
        s.after_event(
            StateEvent::WindowAssignedToSpace { window_id, sid },
        ).0.tiling.focused_window == Some(window_id),
        s.after_event(StateEvent::WindowAssignedToSpace { window_id, sid }).0.selected_window(
            Selector::Recent,
        ) == selectors::Resolved::Found(before),
{
    let noted = s.tiling.noted(window_id, sid);
    assert forall|t: u64| !noted.tiles(t, window_id) by {
        assert(!s.tiling.tiles(t, window_id));
    }
}

proof fn lemma_configured_gap(s: State, ids: Seq<u64>, k: int, sid: u64)
    requires
        s.gap_disabled.dom().contains(sid),
        s.gap_of(sid) == 0,
    ensures
        s.configured(ids, k).gap_disabled == s.gap_disabled,
        s.configured(ids, k).gap_of(sid) == 0,
    decreases k,
{
    if k > 0 {
        lemma_configured_gap(s, ids, k - 1, sid);
    }
}

proof fn lemma_reframed_gap(s: State, ids: Seq<u64>, k: int, sid: u64)
    ensures
        s.all_reframed(ids, k).gap_disabled == s.gap_disabled,
        s.all_reframed(ids, k).gap_of(sid) == s.gap_of(sid),
    decreases k,
{
    if k > 0 {
        lemma_reframed_gap(s, ids, k - 1, sid);
    }
}

/// No `config` command changes a gap that is switched off, nor the gap that comes
/// back when it is switched on again.
pub proof fn law_config_spares_a_gap_that_is_off(s: State, sid: u64, ops: Seq<ConfigOp>)
    requires
        s.is_managed(sid),
        !s.gap_disabled.dom().contains(sid),
    ensures
        s.with_gap_toggled(sid).after_config(ops).0.gap_of(sid) == 0,
        s.with_gap_toggled(sid).after_config(ops).0.with_gap_toggled(sid).gap_of(sid) == s.gap_of(
            sid,
        ),
{
    let off = s.with_gap_toggled(sid);
    let run = off.config_run(ops, ops.len() as int);
    let t = State { config: run.config, ..off };
    let ids = idmap::ids_of(t.tiling.spaces.dom());
    lemma_configured_gap(t, ids, ids.len() as int, sid);
    lemma_reframed_gap(t.configured(ids, ids.len() as int), ids, ids.len() as int, sid);
}

/// `--swap`, `--warp` and `--stack` each ask the layout of the focused window for
/// what they name, from the focused window to the selected one, and change nothing
/// else.
pub proof fn law_pair_actions_ask_for_what_they_name(
    s: State,
    sid: u64,
    focused: u32,
    other: u32,
    selector: Selector,
)
    requires
        s.tiling.wf(),
        s.tiling.focused_window == Some(focused),
        s.selected_window(selector) == selectors::Resolved::Found(other),
        ({
            ||| s.tiling.spaces.dom().contains(sid) && s.tiling.spaces[sid].windows.contains(
                focused,
            )
            ||| s.tiling.active_space == Some(sid) && s.tiling.spaces.dom().contains(sid) && forall|
                k: u64,
            |
                s.tiling.spaces.dom().contains(k)
                    ==> !(#[trigger] s.tiling.spaces[k]).windows.contains(focused)
        }),
    ensures
        s.after_window_action(WindowAction::Swap(selector)) == (
            State {
                tiling: tiling::TilingModel {
                    ops: s.tiling.ops.push(LayoutOp::Swap { sid, window_id: focused, other }),
                    ..s.tiling
                },
                ..s
            },
            selectors::Resolved::Found(None::<LayoutOp>),
        ),
        s.after_window_action(WindowAction::Warp(selector)) == (
            State {
                tiling: tiling::TilingModel {
                    ops: s.tiling.ops.push(LayoutOp::Warp { sid, window_id: focused, other }),
                    ..s.tiling
                },
                ..s
            },
            selectors::Resolved::Found(None::<LayoutOp>),
        ),
        s.after_window_action(WindowAction::Stack(selector)) == (
            State {
                tiling: tiling::TilingModel {
                    ops: s.tiling.ops.push(LayoutOp::StackOnto { sid, window_id: focused, other }),
                    ..s.tiling
                },
                ..s
            },
            selectors::Resolved::Found(None::<LayoutOp>),
        ),
{
    lemma_tree_of(s, sid, focused);
}

proof fn lemma_tree_of(s: State, sid: u64, window_id: u32)
    requires
        s.tiling.wf(),
        ({
            ||| s.tiling.spaces.dom().contains(sid) && s.tiling.spaces[sid].windows.contains(
                window_id,
            )
            ||| s.tiling.active_space == Some(sid) && s.tiling.spaces.dom().contains(sid) && forall|
                k: u64,
            |
                s.tiling.spaces.dom().contains(k)
                    ==> !(#[trigger] s.tiling.spaces[k]).windows.contains(window_id)
        }),
    ensures
        s.tree_of(window_id) == selectors::Resolved::Found(sid),
{
    if s.tiling.spaces[sid].windows.contains(window_id) {
        assert(s.tiling.tiles(sid, window_id));
        s.tiling.lemma_space_of(sid, window_id);
    } else {
        assert(!s.tiling.is_tiled(window_id)) by {
            if s.tiling.is_tiled(window_id) {
                let k = choose|k: u64| s.tiling.tiles(k, window_id);
                assert(s.tiling.spaces[k].windows.contains(window_id));
            }
        }
    }
}

/// No two of `--swap`, `--warp` and `--stack` ask the layout for the same thing.
pub proof fn law_pair_actions_differ(
    s: State,
    sid: u64,
    focused: u32,
    other: u32,
    selector: Selector,
)
    requires
        s.tiling.wf(),
        s.tiling.focused_window == Some(focused),
        s.selected_window(selector) == selectors::Resolved::Found(other),
        s.tiling.spaces.dom().contains(sid),
        s.tiling.spaces[sid].windows.contains(focused),
    ensures
        s.after_window_action(WindowAction::Swap(selector)).0 != s.after_window_action(
            WindowAction::Warp(selector),
        ).0,
        s.after_window_action(WindowAction::Swap(selector)).0 != s.after_window_action(
            WindowAction::Stack(selector),
        ).0,
        s.after_window_action(WindowAction::Warp(selector)).0 != s.after_window_action(
            WindowAction::Stack(selector),
        ).0,
{
    law_pair_actions_ask_for_what_they_name(s, sid, focused, other, selector);
    assert(s.after_window_action(WindowAction::Swap(selector)).0.tiling.ops.last() is Swap);
    assert(s.after_window_action(WindowAction::Warp(selector)).0.tiling.ops.last() is Warp);
    assert(s.after_window_action(WindowAction::Stack(selector)).0.tiling.ops.last() is StackOnto);
}

/// An action on two windows that finds no window, no focus or no layout changes
/// nothing, and says so.
pub proof fn law_pair_actions_need_two_windows(s: State, selector: Selector, action: WindowAction)
    requires
        action == WindowAction::Swap(selector) || action == WindowAction::Warp(selector) || action
            == WindowAction::Stack(selector),
        s.selected_window(selector) is Failed || s.tiling.focused_window is None,
    ensures
        s.after_window_action(action).0 == s,
        s.selected_window(selector) matches selectors::Resolved::Failed(e) ==> (
        s.after_window_action(action).1 == selectors::Resolved::<Option<LayoutOp>>::Failed(e)),
        s.selected_window(selector) is Found ==> s.after_window_action(action).1
            == selectors::Resolved::<Option<LayoutOp>>::Failed("no focused window"@),
{
}

/// `--focus` gives the focus to the window selected, and remembers the one that had
/// it; `--minimize` and `--close` do so too, and need some window to have it.
pub proof fn law_focus_goes_to_the_selected_window(s: State, selector: Selector, w: u32)
    requires
        s.selected_window(selector) == selectors::Resolved::Found(w),
    ensures
        ({
            let focused = State {
                tiling: tiling::TilingModel {
                    focused_window: Some(w),
                    last_focused_window: if s.tiling.focused_window is Some
                        && s.tiling.focused_window != Some(w) {
                        s.tiling.focused_window
                    } else {
                        s.tiling.last_focused_window
                    },
                    ..s.tiling
                },
                ..s
            };
            let done = (focused, selectors::Resolved::Found(None::<LayoutOp>));
            &&& s.after_window_action(WindowAction::Focus(Some(selector))) == done
            &&& s.after_window_action(WindowAction::Minimize(Some(selector))) == done
            &&& s.after_window_action(WindowAction::Close(Some(selector))) == done
        }),
{
}

/// Without a selector the focus stays; `--minimize` and `--close` then fail where no
/// window has it. A selector that names no window changes nothing.
pub proof fn law_focus_without_a_window(s: State, selector: Selector, e: Seq<char>)
    ensures
        s.after_window_action(WindowAction::Focus(None)) == (
            s,
            selectors::Resolved::Found(None::<LayoutOp>),
        ),
        s.tiling.focused_window is Some ==> s.after_window_action(WindowAction::Minimize(None)) == (
            s,
            selectors::Resolved::Found(None::<LayoutOp>),
        ) && s.after_window_action(WindowAction::Close(None)) == (
            s,
            selectors::Resolved::Found(None::<LayoutOp>),
        ),
        s.tiling.focused_window is None ==> s.after_window_action(WindowAction::Minimize(None)) == (
            s,
            selectors::Resolved::<Option<LayoutOp>>::Failed("no focused window"@),
        ) && s.after_window_action(WindowAction::Close(None)) == (
            s,
            selectors::Resolved::<Option<LayoutOp>>::Failed("no focused window"@),
        ),
        s.selected_window(selector) == selectors::Resolved::<u32>::Failed(e) ==> {
            let failed = (s, selectors::Resolved::<Option<LayoutOp>>::Failed(e));
            &&& s.after_window_action(WindowAction::Focus(Some(selector))) == failed
            &&& s.after_window_action(WindowAction::Minimize(Some(selector))) == failed
            &&& s.after_window_action(WindowAction::Close(Some(selector))) == failed
        },
{
}

/// The zooms and the split are toggled by the layout of the active space, each by
/// its own name; native fullscreen changes nothing here.
pub proof fn law_toggles_ask_for_what_they_name(s: State, sid: u64, focused: u32, name: String)
    requires
        s.tiling.focused_window == Some(focused),
        s.tiling.active_space == Some(sid),
        s.tiling.spaces.dom().contains(sid),
    ensures
        name@ == "zoom-fullscreen"@ ==> s.after_window_action(WindowAction::Toggle(name)) == (
            State {
                tiling: tiling::TilingModel {
                    ops: s.tiling.ops.push(
                        LayoutOp::ToggleZoom {
                            sid,
                            window_id: focused,
                            kind: ZoomKind::Fullscreen,
                        },
                    ),
                    ..s.tiling
                },
                ..s
            },
            selectors::Resolved::Found(None::<LayoutOp>),
        ),
        name@ == "zoom-parent"@ ==> s.after_window_action(WindowAction::Toggle(name)) == (
            State {
                tiling: tiling::TilingModel {
                    ops: s.tiling.ops.push(
                        LayoutOp::ToggleZoom { sid, window_id: focused, kind: ZoomKind::Parent },
                    ),
                    ..s.tiling
                },
                ..s
            },
            selectors::Resolved::Found(None::<LayoutOp>),
        ),
        name@ == "split"@ ==> s.after_window_action(WindowAction::Toggle(name)) == (
            State {
                tiling: tiling::TilingModel {
                    ops: s.tiling.ops.push(LayoutOp::ToggleSplit { sid, window_id: focused }),
                    ..s.tiling
                },
                ..s
            },
            selectors::Resolved::Found(None::<LayoutOp>),
        ),
        name@ == "native-fullscreen"@ ==> s.after_window_action(WindowAction::Toggle(name)) == (
            s,
            selectors::Resolved::Found(None::<LayoutOp>),
        ),
{
    reveal_strlit("zoom-fullscreen");
    reveal_strlit("zoom-parent");
    reveal_strlit("split");
    reveal_strlit("native-fullscreen");
    reveal_strlit("float");
    assert("zoom-fullscreen"@[5] == 'f' && "zoom-parent"@[5] == 'p');
    assert("split"@[0] == 's' && "float"@[0] == 'f');
}

/// A toggle needs a focused window and a known name; otherwise it changes nothing.
pub proof fn law_toggles_fail_alone(s: State, name: String)
    ensures
        name@ != "zoom-fullscreen"@ && name@ != "zoom-parent"@ && name@ != "split"@ && name@
            != "native-fullscreen"@ && name@ != "float"@ ==> s.after_window_action(
            WindowAction::Toggle(name),
        ) == (
            s,
            selectors::Resolved::<Option<LayoutOp>>::Failed(
                "window toggle '"@ + name@ + "' not yet handled"@,
            ),
        ),
        s.tiling.focused_window is None && (name@ == "zoom-fullscreen"@ || name@ == "zoom-parent"@
            || name@ == "split"@ || name@ == "native-fullscreen"@ || name@ == "float"@)
            ==> s.after_window_action(WindowAction::Toggle(name)) == (
            s,
            selectors::Resolved::<Option<LayoutOp>>::Failed("no focused window"@),
        ),
{
}

/// `--toggle float` takes the focused window out of its layout and floats it; a
/// second time it is tiled again, on the active space.
pub proof fn law_float_toggles(s: State, sid: u64, focused: u32, name: String)
    requires
        s.tiling.wf(),
        s.tiling.focused_window == Some(focused),
        s.tiling.active_space == Some(sid),
        s.tiling.spaces.dom().contains(sid),
        !s.tiling.sticky.contains(focused),
        !s.tiling.floating.contains(focused),
        name@ == "float"@,
    ensures
        ({
            let once = s.after_window_action(WindowAction::Toggle(name));
            let twice = once.0.after_window_action(WindowAction::Toggle(name));
            &&& once.1 == selectors::Resolved::Found(None::<LayoutOp>)
            &&& once.0.tiling.floating.contains(focused)
            &&& !once.0.tiling.is_tiled(focused)
            &&& once.0.tiling.focused_window == Some(focused)
            &&& once.0.tiling.active_space == Some(sid)
            &&& twice.1 == selectors::Resolved::Found(None::<LayoutOp>)
            &&& !twice.0.tiling.floating.contains(focused)
            &&& twice.0.tiling.spaces[sid].windows.contains(focused)
            &&& twice.0.tiling.focused_window == Some(focused)
        }),
{
    reveal_strlit("zoom-fullscreen");
    reveal_strlit("zoom-parent");
    reveal_strlit("split");
    reveal_strlit("native-fullscreen");
    reveal_strlit("float");
    s.tiling.lemma_untiled(focused);
    let once = s.after_window_action(WindowAction::Toggle(name)).0;
    let bare = s.tiling.untiled(focused);
    assert(once.tiling == tiling::TilingModel {
        floating: s.tiling.floating.insert(focused),
        ..bare
    });
    assert forall|k: u64| !once.tiling.tiles(k, focused) by {
        assert(!bare.tiles(k, focused));
    }
    let m = once.tiling.unmarked(focused);
    assert forall|k: u64| !m.tiles(k, focused) by {
        assert(!bare.tiles(k, focused));
    }
    let twice = once.after_window_action(WindowAction::Toggle(name)).0;
    assert(!m.exempt(focused));
    assert(m.assignment_tiles(focused, sid));
    let noted = m.noted(focused, sid);
    assert forall|k: u64| !noted.tiles(k, focused) by {
        assert(!m.tiles(k, focused));
    }
    let list = noted.spaces[sid].windows.push(focused);
    assert(list[list.len() - 1] == focused);
    assert(twice.tiling.spaces[sid].windows == list);
}

/// `--resize`, `--ratio` and `--insert` go to the layout that tiles the focused
/// window, with the values given; the first two wait for its answer.
pub proof fn law_tile_changes_go_to_the_window_s_layout(
    s: State,
    sid: u64,
    focused: u32,
    absolute: bool,
    handle: u8,
    dw: Real,
    dh: Real,
    kind: ValueType,
    insert: Insertion,
)
    requires
        s.tiling.wf(),
        s.tiling.focused_window == Some(focused),
        s.tiling.spaces.dom().contains(sid),
        s.tiling.spaces[sid].windows.contains(focused),
    ensures
        !absolute ==> s.after_window_action(WindowAction::Resize { absolute, handle, dw, dh }) == (
            s,
            selectors::Resolved::Found(
                Some(LayoutOp::Resize { sid, window_id: focused, handle, dw, dh }),
            ),
        ),
        absolute ==> s.after_window_action(WindowAction::Resize { absolute, handle, dw, dh }) == (
            s,
            selectors::Resolved::<Option<LayoutOp>>::Failed(
                "cannot use absolute resizing on a managed window.\n"@,
            ),
        ),
        kind == ValueType::Rel ==> s.after_window_action(
            WindowAction::Ratio { kind, ratio: dw },
        ) == (
            s,
            selectors::Resolved::Found(
                Some(LayoutOp::Ratio { sid, window_id: focused, relative: true, ratio: dw }),
            ),
        ),
        kind == ValueType::Abs ==> s.after_window_action(
            WindowAction::Ratio { kind, ratio: dw },
        ) == (
            s,
            selectors::Resolved::Found(
                Some(LayoutOp::Ratio { sid, window_id: focused, relative: false, ratio: dw }),
            ),
        ),
        s.tiling.spaces[sid].layout == ViewType::Bsp ==> s.after_window_action(
            WindowAction::Insert(insert),
        ) == (
            State {
                tiling: tiling::TilingModel {
                    ops: s.tiling.ops.push(
                        LayoutOp::SetInsertion { sid, window_id: focused, insert },
                    ),
                    ..s.tiling
                },
                ..s
            },
            selectors::Resolved::Found(None::<LayoutOp>),
        ),
        s.tiling.spaces[sid].layout != ViewType::Bsp ==> s.after_window_action(
            WindowAction::Insert(insert),
        ) == (
            s,
            selectors::Resolved::<Option<LayoutOp>>::Failed(
                "the acting window is not within a bsp space."@,
            ),
        ),
{
    assert(s.tiling.tiles(sid, focused));
    s.tiling.lemma_space_of(sid, focused);
}

/// A window that no layout tiles is left to others to resize, and has no ratio and
/// no place to insert at.
pub proof fn law_tile_changes_need_a_tile(
    s: State,
    focused: u32,
    absolute: bool,
    handle: u8,
    dw: Real,
    dh: Real,
    kind: ValueType,
    insert: Insertion,
)
    requires
        s.tiling.focused_window == Some(focused),
        forall|k: u64|
            s.tiling.spaces.dom().contains(k)
                ==> !(#[trigger] s.tiling.spaces[k]).windows.contains(focused),
    ensures
        s.after_window_action(WindowAction::Resize { absolute, handle, dw, dh }) == (
            s,
            selectors::Resolved::Found(None::<LayoutOp>),
        ),
        s.after_window_action(WindowAction::Ratio { kind, ratio: dw }) == (
            s,
            selectors::Resolved::<Option<LayoutOp>>::Failed(
                "cannot adjust ratio of a non-managed window."@,
            ),
        ),
        s.after_window_action(WindowAction::Insert(insert)) == (
            s,
            selectors::Resolved::<Option<LayoutOp>>::Failed("the acting window is not managed."@),
        ),
{
    assert(!s.tiling.is_tiled(focused)) by {
        if s.tiling.is_tiled(focused) {
            let k = choose|k: u64| s.tiling.tiles(k, focused);
            assert(s.tiling.spaces[k].windows.contains(focused));
        }
    }
}

/// What the state cannot do to a window it refuses, and changes nothing.
pub proof fn law_other_window_actions_are_refused(s: State, action: WindowAction)
    requires
        action is Deminimize || action is Grid || action is Move || action is Display
            || action is Space || action is Opacity || action is SubLayer || action is Scratchpad
            || action is Raise || action is Lower,
    ensures
        s.after_window_action(action) == (
            s,
            selectors::Resolved::<Option<LayoutOp>>::Failed(
                "window action not yet handled by AppState"@,
            ),
        ),
{
}

/// `--balance`, `--equalize`, `--mirror`, `--rotate` and `--layout` each ask the
/// layout of the active space for what they name, whatever space is selected.
pub proof fn law_space_actions_ask_for_what_they_name(
    s: State,
    sid: u64,
    target: Option<Selector>,
    axis: Option<NodeSplit>,
    way: NodeSplit,
    degrees: i32,
    layout: ViewType,
)
    requires
        s.tiling.active_space == Some(sid),
        s.tiling.spaces.dom().contains(sid),
    ensures
        ({
            let asked = |op: LayoutOp| State {
                tiling: tiling::TilingModel { ops: s.tiling.ops.push(op), ..s.tiling },
                ..s
            };
            let done = selectors::Resolved::Found(());
            let along = if axis is Some {
                axis->0
            } else {
                NodeSplit::Auto
            };
            &&& s.after_space_action(target, SpaceAction::Balance(axis)) == (
                asked(LayoutOp::Balance { sid, axis: along }),
                done,
            )
            &&& s.after_space_action(target, SpaceAction::Equalize(axis)) == (
                asked(LayoutOp::Equalize { sid, axis: along }),
                done,
            )
            &&& s.after_space_action(target, SpaceAction::Mirror(way)) == (
                asked(LayoutOp::Mirror { sid, axis: way }),
                done,
            )
            &&& s.after_space_action(target, SpaceAction::Rotate(degrees)) == (
                asked(LayoutOp::Rotate { sid, degrees }),
                done,
            )
        }),
        ({
            let t = s.after_space_action(target, SpaceAction::Layout(layout)).0;
            &&& s.after_space_action(target, SpaceAction::Layout(layout)).1
                == selectors::Resolved::Found(())
            &&& t.tiling.spaces[sid].layout == layout
            &&& t.tiling.spaces[sid].windows == s.tiling.spaces[sid].windows
            &&& t.tiling.spaces[sid].gap == s.tiling.spaces[sid].gap
            &&& t.tiling.ops == s.tiling.ops.push(LayoutOp::SetLayout { sid, layout })
            &&& t.tiling.spaces.dom() == s.tiling.spaces.dom()
            &&& forall|k: u64| k != sid ==> #[trigger] t.tiling.spaces[k] == s.tiling.spaces[k]
        }),
{
    let t = s.after_space_action(target, SpaceAction::Layout(layout)).0;
    assert(t.tiling.spaces.dom() =~= s.tiling.spaces.dom());
}

/// An action on a layout fails, and changes nothing, where the active space has
/// none.
pub proof fn law_space_actions_need_a_layout(
    s: State,
    target: Option<Selector>,
    action: SpaceAction,
)
    requires
        action is Balance || action is Equalize || action is Mirror || action is Rotate
            || action is Layout,
    ensures
        s.tiling.active_space is None ==> s.after_space_action(target, action) == (
            s,
            selectors::Resolved::<()>::Failed("no active space"@),
        ),
        s.tiling.active_space is Some && !s.tiling.spaces.dom().contains(s.tiling.active_space->0)
            ==> s.after_space_action(target, action) == (
            s,
            selectors::Resolved::<()>::Failed("active space has no layout"@),
        ),
{
}

/// `--gap` sets the gap of the selected space, or adds to it, but not below zero;
/// on a space without a tiling layout it fails.
pub proof fn law_gap_goes_to_the_selected_space(
    s: State,
    target: Option<Selector>,
    sid: u64,
    gap: i32,
    other: u64,
)
    requires
        s.selected_space(target) == selectors::Resolved::Found(sid),
        !s.gap_disabled.dom().contains(sid),
        other != sid,
    ensures
        s.tiling.spaces.dom().contains(sid) && s.tiling.spaces[sid].layout != ViewType::Float ==> {
            let (t, r) = s.after_space_action(
                target,
                SpaceAction::Gap { kind: ValueType::Abs, gap },
            );
            &&& r == selectors::Resolved::Found(())
            &&& t.tiling.spaces[sid].gap == gap
            &&& t.tiling.spaces[sid].windows == s.tiling.spaces[sid].windows
            &&& t.tiling.ops == s.tiling.ops.push(LayoutOp::SetGap { sid, gap })
            &&& t.tiling.spaces[other] == s.tiling.spaces[other]
        },
        s.tiling.spaces.dom().contains(sid) && s.tiling.spaces[sid].layout != ViewType::Float
            && i32::MIN <= s.tiling.spaces[sid].gap + gap <= i32::MAX ==> {
            let (t, r) = s.after_space_action(
                target,
                SpaceAction::Gap { kind: ValueType::Rel, gap },
            );
            &&& r == selectors::Resolved::Found(())
            &&& t.tiling.spaces[sid].gap >= 0
            &&& s.tiling.spaces[sid].gap + gap >= 0 ==> t.tiling.spaces[sid].gap
                == s.tiling.spaces[sid].gap + gap
            &&& s.tiling.spaces[sid].gap + gap < 0 ==> t.tiling.spaces[sid].gap == 0
            &&& t.tiling.spaces[other] == s.tiling.spaces[other]
        },
        !s.tiling.spaces.dom().contains(sid) || s.tiling.spaces[sid].layout == ViewType::Float
            ==> s.after_space_action(
            target,
            SpaceAction::Gap { kind: ValueType::Abs, gap },
        ) == (
            s,
            selectors::Resolved::<()>::Failed("cannot set gap for a non-managed space."@),
        ),
{
}

/// `--padding` sets the paddings of the selected space, each side from its own
/// value, and no other space's.
pub proof fn law_padding_goes_to_the_selected_space(
    s: State,
    target: Option<Selector>,
    sid: u64,
    padding: Padding,
    other: u64,
)
    requires
        s.selected_space(target) == selectors::Resolved::Found(sid),
        s.tiling.spaces.dom().contains(sid),
        s.tiling.spaces[sid].layout != ViewType::Float,
        !s.padding_disabled.contains(sid),
        other != sid,
    ensures
        ({
            let (t, r) = s.after_space_action(
                target,
                SpaceAction::Padding { kind: ValueType::Abs, padding },
            );
            &&& r == selectors::Resolved::Found(())
            &&& t.padding_of(sid) == padding
            &&& t.padding_of(other) == s.padding_of(other)
            &&& s.usable.dom().contains(sid) ==> t.tiling.ops == s.tiling.ops.push(
                LayoutOp::SetFrame {
                    sid,
                    frame: s.usable[sid],
                    padding,
                    bar: s.bar_of(sid),
                },
            )
        }),
        s.padding_fits(sid, ValueType::Rel, padding) ==> {
            let (t, r) = s.after_space_action(
                target,
                SpaceAction::Padding { kind: ValueType::Rel, padding },
            );
            let clamped = |n: int| if n < 0 { 0 } else { n };
            &&& r == selectors::Resolved::Found(())
            &&& t.padding_of(sid).top == clamped(s.padding_of(sid).top + padding.top)
            &&& t.padding_of(sid).bottom == clamped(s.padding_of(sid).bottom + padding.bottom)
            &&& t.padding_of(sid).left == clamped(s.padding_of(sid).left + padding.left)
            &&& t.padding_of(sid).right == clamped(s.padding_of(sid).right + padding.right)
            &&& t.padding_of(other) == s.padding_of(other)
        },
{
}

/// `--toggle padding` and `--toggle gap` switch what they name on the selected space
/// and leave the other as it is; any other name is refused.
pub proof fn law_space_toggles_switch_what_they_name(
    s: State,
    target: Option<Selector>,
    sid: u64,
    name: String,
)
    requires
        s.selected_space(target) == selectors::Resolved::Found(sid),
        s.tiling.spaces.dom().contains(sid),
        s.tiling.spaces[sid].layout != ViewType::Float,
    ensures
        name@ == "padding"@ ==> {
            let (t, r) = s.after_space_action(target, SpaceAction::Toggle(name));
            &&& r == selectors::Resolved::Found(())
            &&& t.padding_disabled.contains(sid) == !s.padding_disabled.contains(sid)
            &&& t.gap_disabled == s.gap_disabled
            &&& t.tiling.spaces == s.tiling.spaces
        },
        name@ == "gap"@ ==> {
            let (t, r) = s.after_space_action(target, SpaceAction::Toggle(name));
            &&& r == selectors::Resolved::Found(())
            &&& t.gap_disabled.dom().contains(sid) == !s.gap_disabled.dom().contains(sid)
            &&& s.gap_disabled.dom().contains(sid) ==> t.tiling.spaces[sid].gap
                == s.gap_disabled[sid]
            &&& !s.gap_disabled.dom().contains(sid) ==> t.tiling.spaces[sid].gap == 0
                && t.gap_disabled[sid] == s.tiling.spaces[sid].gap
            &&& t.padding_disabled == s.padding_disabled
            &&& t.tiling.spaces[sid].windows == s.tiling.spaces[sid].windows
        },
        name@ != "padding"@ && name@ != "gap"@ ==> s.after_space_action(
            target,
            SpaceAction::Toggle(name),
        ) == (
            s,
            selectors::Resolved::<()>::Failed(
                "unknown value '"@ + name@ + "' given to command '--toggle' for domain 'space'\n"@,
            ),
        ),
{
    reveal_strlit("padding");
    reveal_strlit("gap");
}

/// A label given to the selected space or display is its label then, and no other
/// one's; an empty one takes its label away; a number or a word of the selectors is
/// refused.
pub proof fn law_labels_go_to_the_selected_one(
    s: State,
    target: Option<Selector>,
    sid: u64,
    did: u32,
    label: String,
    other: u64,
)
    ensures
        s.selected_space(target) == selectors::Resolved::Found(sid) && labels::label_error(
            labels::LabelKind::Space,
            label@,
        ) is None ==> {
            let (t, r) = s.after_space_action(target, SpaceAction::Label(label));
            &&& r == selectors::Resolved::Found(())
            &&& label@.len() > 0 ==> t.topology.space_labels.dom().contains(sid)
                && t.topology.space_labels[sid] == label@
            &&& label@.len() == 0 ==> !t.topology.space_labels.dom().contains(sid)
            &&& other != sid && s.topology.space_labels.dom().contains(other)
                && s.topology.space_labels[other] != label@
                ==> t.topology.space_labels.dom().contains(other) && t.topology.space_labels[other]
                == s.topology.space_labels[other]
            &&& other != sid && label@.len() > 0 && t.topology.space_labels.dom().contains(other)
                ==> t.topology.space_labels[other] != label@
            &&& t.topology.display_labels == s.topology.display_labels
        },
        s.selected_display(target) == selectors::Resolved::Found(did) && labels::label_error(
            labels::LabelKind::Display,
            label@,
        ) is None ==> {
            let (t, r) = s.after_display_action(target, DisplayAction::Label(label));
            &&& r == selectors::Resolved::Found(())
            &&& label@.len() > 0 ==> t.topology.display_labels.dom().contains(did)
                && t.topology.display_labels[did] == label@
            &&& label@.len() == 0 ==> !t.topology.display_labels.dom().contains(did)
            &&& t.topology.space_labels == s.topology.space_labels
        },
        s.selected_space(target) is Found && labels::label_error(
            labels::LabelKind::Space,
            label@,
        ) is Some ==> s.after_space_action(target, SpaceAction::Label(label)).0 == s
            && s.after_space_action(target, SpaceAction::Label(label)).1 is Failed,
        s.selected_display(target) is Found && labels::label_error(
            labels::LabelKind::Display,
            label@,
        ) is Some ==> s.after_display_action(target, DisplayAction::Label(label)).0 == s
            && s.after_display_action(target, DisplayAction::Label(label)).1 is Failed,
{
}

/// What the state cannot do to a space or a display it refuses, and changes nothing.
pub proof fn law_other_space_actions_are_refused(
    s: State,
    target: Option<Selector>,
    action: SpaceAction,
    shown: DisplayAction,
)
    requires
        action is Focus || action is Create || action is Destroy || action is Display
            || action is Move || action is Swap || action is Switch,
        shown is Focus || shown is Space,
    ensures
        s.after_space_action(target, action).0 == s,
        s.after_space_action(target, action).1 is Failed,
        s.after_display_action(target, shown) == (
            s,
            selectors::Resolved::<()>::Failed("display action not yet handled by AppState"@),
        ),
{
}

/// A change of one setting is made, is given to every layout, and is not answered;
/// a request for one is answered with its value and a line end, and changes nothing.
pub proof fn law_config_changes_and_tells(s: State, op: ConfigOp, key: String, value: config::ConfigValue)
    ensures
        op == ConfigOp::Get(key) && config::setting_of(key@) is Some ==> s.after_config(
            seq![op],
        ) == (
            s,
            selectors::Resolved::Found(
                Some(
                    config::rendered(s.config.value_of(config::setting_of(key@)->0)) + seq!['\n'],
                ),
            ),
        ),
        op == ConfigOp::Put(key, value) && config::setting_of(key@) is Some && config::takes(
            config::setting_of(key@)->0,
            value,
        ) ==> {
            let (t, r) = s.after_config(seq![op]);
            &&& r == selectors::Resolved::Found(None::<Seq<char>>)
            &&& t.config == s.config.with(config::setting_of(key@)->0, value)
        },
        (op == ConfigOp::Get(key) || op == ConfigOp::Put(key, value)) && config::setting_of(
            key@,
        ) is None ==> s.after_config(seq![op]) == (
            s,
            selectors::Resolved::<Option<Seq<char>>>::Failed(
                "unsupported config key '"@ + key@ + "'"@,
            ),
        ),
{
    let ops = seq![op];
    reveal_with_fuel(State::config_run, 3);
    let run = s.config_run(ops, 1);
    assert(run == s.config_run(ops, 0).after(op));
    let t = State { config: run.config, ..s };
    let ids = idmap::ids_of(t.tiling.spaces.dom());
    lemma_settings_kept(t, ids, ids.len() as int);
    lemma_settings_kept_by_frames(
        t.configured(ids, ids.len() as int),
        ids,
        ids.len() as int,
    );
    if op is Get && config::setting_of(key@) is Some {
        let told = config::rendered(s.config.value_of(config::setting_of(key@)->0));
        assert((Seq::<char>::empty() + told).push('\n') =~= told + seq!['\n']);
    }
}

proof fn lemma_settings_kept(s: State, ids: Seq<u64>, k: int)
    ensures
        s.configured(ids, k).config == s.config,
    decreases k,
{
    if k > 0 {
        lemma_settings_kept(s, ids, k - 1);
    }
}

proof fn lemma_settings_kept_by_frames(s: State, ids: Seq<u64>, k: int)
    ensures
        s.all_reframed(ids, k).config == s.config,
    decreases k,
{
    if k > 0 {
        lemma_settings_kept_by_frames(s, ids, k - 1);
    }
}

/// After a change of settings every layout goes by them: each space has the
/// configured gap, unless its gap is switched off.
pub proof fn law_config_reaches_every_layout(
    s: State,
    key: String,
    value: config::ConfigValue,
    sid: u64,
)
    requires
        s.tiling.spaces.dom().finite(),
        s.tiling.spaces.dom().contains(sid),
        !s.gap_disabled.dom().contains(sid),
        config::setting_of(key@) is Some,
        config::takes(config::setting_of(key@)->0, value),
    ensures
        ({
            let t = s.after_config(seq![ConfigOp::Put(key, value)]).0;
            &&& t.tiling.spaces[sid].gap == t.config.window_gap
            &&& t.tiling.spaces[sid].windows == s.tiling.spaces[sid].windows
            &&& t.tiling.spaces[sid].layout == s.tiling.spaces[sid].layout
            &&& exists|i: int|
                0 <= i < t.tiling.ops.len() && #[trigger] t.tiling.ops[i] == (LayoutOp::SetConfig {
                    sid,
                    config: t.config.layout_settings(),
                })
        }),
{
    let ops = seq![ConfigOp::Put(key, value)];
    reveal_with_fuel(State::config_run, 3);
    let run = s.config_run(ops, 1);
    assert(run == s.config_run(ops, 0).after(ops[0]));
    let t = State { config: run.config, ..s };
    let ids = idmap::ids_of(t.tiling.spaces.dom());
    idmap::lemma_listing_exists(t.tiling.spaces.dom());
    assert(ids.contains(sid));
    let n = choose|n: int| 0 <= n < ids.len() && ids[n] == sid;
    let all = ids.len() as int;
    lemma_layout_configured(t, ids, all, n, sid);
    lemma_reframed_layout(t.configured(ids, all), ids, all, sid);
    let u = t.configured(ids, all);
    let i = choose|i: int|
        0 <= i < u.tiling.ops.len() && #[trigger] u.tiling.ops[i] == (LayoutOp::SetConfig {
            sid,
            config: t.config.layout_settings(),
        });
    lemma_settings_kept(t, ids, all);
    lemma_settings_kept_by_frames(u, ids, all);
    assert(u.all_reframed(ids, all).tiling.ops[i] == u.tiling.ops[i]);
}

proof fn lemma_layout_configured(s: State, ids: Seq<u64>, k: int, n: int, sid: u64)
    requires
        s.tiling.spaces.dom().contains(sid),
        !s.gap_disabled.dom().contains(sid),
        0 <= n,
        k <= ids.len(),
        n < ids.len() && ids[n] == sid,
    ensures
        s.configured(ids, k).config == s.config,
        s.configured(ids, k).gap_disabled == s.gap_disabled,
        s.configured(ids, k).tiling.spaces.dom().contains(sid),
        s.configured(ids, k).tiling.spaces[sid].windows == s.tiling.spaces[sid].windows,
        s.configured(ids, k).tiling.spaces[sid].layout == s.tiling.spaces[sid].layout,
        n < k ==> s.configured(ids, k).tiling.spaces[sid].gap == s.config.layout_settings().gap,
        n < k ==> exists|i: int|
            0 <= i < s.configured(ids, k).tiling.ops.len() && #[trigger] s.configured(
                ids,
                k,
            ).tiling.ops[i] == (LayoutOp::SetConfig { sid, config: s.config.layout_settings() }),
    decreases k,
{
    if k > 0 {
        lemma_layout_configured(s, ids, k - 1, n, sid);
        let before = s.configured(ids, k - 1);
        let t = s.configured(ids, k);
        if n == k - 1 {
            assert(t.tiling.ops[before.tiling.ops.len() as int] == (LayoutOp::SetConfig {
                sid,
                config: s.config.layout_settings(),
            }));
        } else if n < k - 1 {
            let i = choose|i: int|
                0 <= i < before.tiling.ops.len() && #[trigger] before.tiling.ops[i] == (
                LayoutOp::SetConfig { sid, config: s.config.layout_settings() });
            assert(t.tiling.ops[i] == before.tiling.ops[i]);
        }
    }
}

proof fn lemma_reframed_layout(s: State, ids: Seq<u64>, k: int, sid: u64)
    ensures
        s.all_reframed(ids, k).tiling.spaces == s.tiling.spaces,
        s.all_reframed(ids, k).tiling.ops.len() >= s.tiling.ops.len(),
        forall|i: int|
            0 <= i < s.tiling.ops.len() ==> #[trigger] s.all_reframed(ids, k).tiling.ops[i]
                == s.tiling.ops[i],
    decreases k,
{
    if k > 0 {
        lemma_reframed_layout(s, ids, k - 1, sid);
    }
}

/// The actions of a `window` command are carried out in order. The first that fails
/// ends the command with its complaint; the first that the layout engine has to
/// answer for stops it, and so does one that left the engine work while others
/// follow.
pub proof fn law_window_actions_in_order(s: State, actions: Seq<WindowAction>, i: int)
    requires
        0 <= i <= actions.len(),
    ensures
        i == actions.len() ==> s.after_window_actions(actions, i) == (
            s,
            i,
            selectors::Resolved::Found(WindowStop::Done),
        ),
        i < actions.len() ==> {
            let (t, outcome) = s.after_window_action(actions[i]);
            &&& outcome matches selectors::Resolved::Failed(e) ==> s.after_window_actions(
                actions,
                i,
            ) == (t, i + 1, selectors::Resolved::<WindowStop>::Failed(e))
            &&& outcome matches selectors::Resolved::Found(Some(op)) ==> s.after_window_actions(
                actions,
                i,
            ) == (t, i + 1, selectors::Resolved::Found(WindowStop::Ask(op)))
            &&& outcome == selectors::Resolved::Found(None::<LayoutOp>) && i + 1 < actions.len()
                && t.tiling.ops.len() > 0 ==> s.after_window_actions(actions, i) == (
                t,
                i + 1,
                selectors::Resolved::Found(WindowStop::Wait),
            )
            &&& outcome == selectors::Resolved::Found(None::<LayoutOp>) && t.tiling.ops.len() == 0
                ==> s.after_window_actions(actions, i) == t.after_window_actions(actions, i + 1)
            &&& outcome == selectors::Resolved::Found(None::<LayoutOp>) && i + 1 == actions.len()
                ==> s.after_window_actions(actions, i) == (
                t,
                i + 1,
                selectors::Resolved::Found(WindowStop::Done),
            )
        },
{
    reveal_with_fuel(State::after_window_actions, 2);
}

/// The actions of a `space` command, and those of a `display` command, are carried
/// out in order, each on what the one before left, up to the first that fails.
pub proof fn law_space_and_display_actions_in_order(
    s: State,
    target: Option<Selector>,
    actions: Seq<SpaceAction>,
    shown: Seq<DisplayAction>,
    i: int,
)
    requires
        0 <= i,
    ensures
        i == actions.len() ==> s.after_space_actions(target, actions, i) == (
            s,
            Some(selectors::Resolved::Found(())),
        ),
        i < actions.len() && s.space_action_fits(target, actions[i]) ==> {
            let (t, outcome) = s.after_space_action(target, actions[i]);
            &&& outcome is Found ==> s.after_space_actions(target, actions, i)
                == t.after_space_actions(target, actions, i + 1)
            &&& outcome is Failed ==> s.after_space_actions(target, actions, i) == (
                t,
                Some(outcome),
            )
        },
        i < actions.len() && !s.space_action_fits(target, actions[i]) ==> s.after_space_actions(
            target,
            actions,
            i,
        ) == (s, None::<selectors::Resolved<()>>),
        i == shown.len() ==> s.after_display_actions(target, shown, i) == (
            s,
            selectors::Resolved::Found(()),
        ),
        i < shown.len() ==> {
            let (t, outcome) = s.after_display_action(target, shown[i]);
            &&& outcome is Found ==> s.after_display_actions(target, shown, i)
                == t.after_display_actions(target, shown, i + 1)
            &&& outcome is Failed ==> s.after_display_actions(target, shown, i) == (t, outcome)
        },
{
}

/// Only a relative change of a gap or a padding can go out of range.
pub proof fn law_what_goes_out_of_range(
    s: State,
    target: Option<Selector>,
    action: SpaceAction,
    sid: u64,
)
    ensures
        !(action is Gap || action is Padding) ==> s.space_action_fits(target, action),
        s.selected_space(target) is Failed ==> s.space_action_fits(target, action),
        action matches SpaceAction::Gap { kind, gap } ==> kind == ValueType::Abs
            ==> s.space_action_fits(target, action),
        action matches SpaceAction::Padding { kind, padding } ==> kind == ValueType::Abs
            ==> s.space_action_fits(target, action),
        action matches SpaceAction::Gap { kind, gap } ==> kind == ValueType::Rel
            && s.selected_space(target) == selectors::Resolved::Found(sid)
            && !s.gap_disabled.dom().contains(sid) && s.tiling.spaces.dom().contains(sid)
            && s.tiling.spaces[sid].layout != ViewType::Float ==> s.space_action_fits(
            target,
            action,
        ) == (i32::MIN <= s.tiling.spaces[sid].gap + gap <= i32::MAX),
{
}

/// The requests of a `config` command are served in order: what is asked for is
/// answered line by line, a request behind a change sees it, and the first request
/// that cannot be served ends the command with a complaint.
pub proof fn law_config_requests_in_order(
    s: State,
    first: ConfigOp,
    second: ConfigOp,
    key: String,
    value: config::ConfigValue,
    other: String,
)
    requires
        first == ConfigOp::Get(key) || first == ConfigOp::Put(key, value),
        second == ConfigOp::Get(other),
        config::setting_of(key@) is Some,
        config::setting_of(other@) is Some,
        first is Put ==> config::takes(config::setting_of(key@)->0, value),
    ensures
        first is Get ==> s.after_config(seq![first, second]) == (
            s,
            selectors::Resolved::Found(
                Some(
                    config::rendered(s.config.value_of(config::setting_of(key@)->0)) + seq!['\n']
                        + config::rendered(s.config.value_of(config::setting_of(other@)->0))
                        + seq!['\n'],
                ),
            ),
        ),
        first is Put ==> {
            let (t, r) = s.after_config(seq![first, second]);
            let changed = s.config.with(config::setting_of(key@)->0, value);
            &&& t == s.after_config(seq![first]).0
            &&& t.config == changed
            &&& r == selectors::Resolved::Found(
                Some(
                    config::rendered(changed.value_of(config::setting_of(other@)->0)) + seq!['\n'],
                ),
            )
        },
{
    let ops = seq![first, second];
    let one = seq![first];
    reveal_with_fuel(State::config_run, 4);
    let start = s.config_run(ops, 0);
    assert(start == s.config_run(one, 0));
    assert(ops[0] == first && ops[1] == second && one[0] == first);
    assert(s.config_run(one, 1) == start.after(first));
    assert(s.config_run(ops, 1) == start.after(first));
    assert(s.config_run(ops, 2) == start.after(first).after(second));
    if first is Get {
        let a = config::rendered(s.config.value_of(config::setting_of(key@)->0));
        let b = config::rendered(s.config.value_of(config::setting_of(other@)->0));
        assert(((Seq::<char>::empty() + a).push('\n') + b).push('\n') =~= a + seq!['\n'] + b
            + seq!['\n']);
    } else {
        law_config_changes_and_tells(s, first, key, value);
        let changed = s.config.with(config::setting_of(key@)->0, value);
        let b = config::rendered(changed.value_of(config::setting_of(other@)->0));
        assert((Seq::<char>::empty() + b).push('\n') =~= b + seq!['\n']);
    }
}

/// A change of the room for the bar insets every space again whose frame is known,
/// with its padding and the new room.
pub proof fn law_bar_change_reaches_every_space(
    s: State,
    key: String,
    value: config::ConfigValue,
    sid: u64,
)
    requires
        s.tiling.spaces.dom().finite(),
        s.tiling.spaces.dom().contains(sid),
        s.usable.dom().contains(sid),
        config::setting_of(key@) is Some,
        config::takes(config::setting_of(key@)->0, value),
        s.config.with(config::setting_of(key@)->0, value).external_bar != s.config.external_bar,
    ensures
        ({
            let t = s.after_config(seq![ConfigOp::Put(key, value)]).0;
            exists|i: int|
                0 <= i < t.tiling.ops.len() && #[trigger] t.tiling.ops[i] == (LayoutOp::SetFrame {
                    sid,
                    frame: s.usable[sid],
                    padding: t.padding_of(sid),
                    bar: t.bar_of(sid),
                })
        }),
{
    let ops = seq![ConfigOp::Put(key, value)];
    reveal_with_fuel(State::config_run, 3);
    let run = s.config_run(ops, 1);
    assert(run == s.config_run(ops, 0).after(ops[0]));
    let t = State { config: run.config, ..s };
    let ids = idmap::ids_of(t.tiling.spaces.dom());
    idmap::lemma_listing_exists(t.tiling.spaces.dom());
    assert(ids.contains(sid));
    let n = choose|n: int| 0 <= n < ids.len() && ids[n] == sid;
    let all = ids.len() as int;
    lemma_insets_kept_by_settings(t, ids, all, sid);
    lemma_inset_again(t.configured(ids, all), ids, all, n, sid);
}

proof fn lemma_insets_kept_by_settings(s: State, ids: Seq<u64>, k: int, sid: u64)
    requires
        s.tiling.spaces.dom().contains(sid),
    ensures
        ({
            let t = s.configured(ids, k);
            &&& t.config == s.config
            &&& t.topology == s.topology
            &&& t.usable == s.usable
            &&& t.paddings == s.paddings
            &&& t.padding_disabled == s.padding_disabled
            &&& t.tiling.spaces.dom().contains(sid)
        }),
    decreases k,
{
    if k > 0 {
        lemma_insets_kept_by_settings(s, ids, k - 1, sid);
    }
}

proof fn lemma_inset_again(s: State, ids: Seq<u64>, k: int, n: int, sid: u64)
    requires
        s.tiling.spaces.dom().contains(sid),
        s.usable.dom().contains(sid),
        0 <= n < ids.len(),
        ids[n] == sid,
        k <= ids.len(),
    ensures
        ({
            let t = s.all_reframed(ids, k);
            &&& t.config == s.config
            &&& t.topology == s.topology
            &&& t.usable.dom().contains(sid)
            &&& t.usable[sid] == s.usable[sid]
            &&& t.paddings == s.paddings
            &&& t.padding_disabled == s.padding_disabled
            &&& t.tiling.spaces == s.tiling.spaces
            &&& n < k ==> exists|i: int|
                0 <= i < t.tiling.ops.len() && #[trigger] t.tiling.ops[i] == (LayoutOp::SetFrame {
                    sid,
                    frame: s.usable[sid],
                    padding: s.padding_of(sid),
                    bar: s.bar_of(sid),
                })
        }),
    decreases k,
{
    if k > 0 {
        lemma_inset_again(s, ids, k - 1, n, sid);
        let before = s.all_reframed(ids, k - 1);
        let t = s.all_reframed(ids, k);
        let op = LayoutOp::SetFrame {
            sid,
            frame: s.usable[sid],
            padding: s.padding_of(sid),
            bar: s.bar_of(sid),
        };
        if n == k - 1 {
            assert(t.tiling.ops[before.tiling.ops.len() as int] == op);
        } else if n < k - 1 {
            let i = choose|i: int|
                0 <= i < before.tiling.ops.len() && #[trigger] before.tiling.ops[i] == op;
            assert(t.tiling.ops[i] == op);
        }
    }
}

/// What each event of the window system does to displays and spaces.
pub proof fn law_topology_events(
    s: State,
    did: u32,
    info: DisplayInfo,
    sid: u64,
    frame: Area,
    other: u64,
)
    ensures
        s.after_event(StateEvent::DisplayCreated { display_id: did, info }) == (
            State {
                topology: topology::TopologyModel {
                    displays: s.topology.displays.insert(did, info),
                    ..s.topology
                },
                ..s
            },
            selectors::Resolved::Found(()),
        ),
        ({
            let (t, r) = s.after_event(StateEvent::DisplayRemoved { display_id: did });
            &&& r == selectors::Resolved::Found(())
            &&& t.tiling == s.tiling
            &&& t.topology.displays == s.topology.displays.remove(did)
            &&& t.topology.display_active_space == s.topology.display_active_space.remove(did)
            &&& t.topology.space_displays.dom().contains(other)
                <==> s.topology.space_displays.dom().contains(other)
                && s.topology.space_displays[other] != did
            &&& t.topology.space_displays.dom().contains(other)
                ==> t.topology.space_displays[other] == s.topology.space_displays[other]
        }),
        ({
            let (t, r) = s.after_event(StateEvent::SpaceCreated { sid, frame });
            &&& r == selectors::Resolved::Found(())
            &&& t.tiling.spaces.dom() == s.tiling.spaces.dom().insert(sid)
            &&& t.tiling.spaces[sid].windows.len() == 0
            &&& t.tiling.spaces[sid].layout == s.config.layout
            &&& !s.gap_disabled.dom().contains(sid) ==> t.tiling.spaces[sid].gap
                == s.config.layout_settings().gap
            &&& !t.captures.dom().contains(sid)
            &&& t.topology == s.topology
            &&& other != sid ==> t.tiling.spaces[other] == s.tiling.spaces[other]
        }),
        ({
            let (t, r) = s.after_event(
                StateEvent::SpaceCreatedOnDisplay { sid, display_id: did, frame },
            );
            &&& r == selectors::Resolved::Found(())
            &&& t.topology.space_displays == s.topology.space_displays.insert(sid, did)
            &&& s.tiling.spaces.dom().contains(sid) ==> t.tiling == s.tiling
            &&& !s.tiling.spaces.dom().contains(sid) ==> t.tiling == s.after_event(
                StateEvent::SpaceCreated { sid, frame },
            ).0.tiling
        }),
        ({
            let (t, r) = s.after_event(StateEvent::SpaceRemoved { sid });
            &&& r == selectors::Resolved::Found(())
            &&& t.tiling.spaces == s.tiling.spaces.remove(sid)
            &&& !t.topology.space_displays.dom().contains(sid)
            &&& !t.captures.dom().contains(sid)
            &&& other != sid ==> t.topology.space_displays.dom().contains(other)
                == s.topology.space_displays.dom().contains(other)
            &&& s.topology.display_active_space.dom().contains(did)
                && s.topology.display_active_space[did] == sid
                ==> !t.topology.display_active_space.dom().contains(did)
        }),
        ({
            let (t, r) = s.after_event(StateEvent::SpaceChanged { sid });
            &&& r == selectors::Resolved::Found(())
            &&& t == (State { tiling: t.tiling, ..s })
            &&& t.tiling.active_space == Some(sid)
            &&& t.tiling.spaces == s.tiling.spaces
            &&& t.tiling.focused_window == s.tiling.focused_window
            &&& t.tiling.ops == s.tiling.ops
        }),
        ({
            let (t, r) = s.after_event(StateEvent::DisplayFrameChanged { sid, frame });
            &&& t.usable == s.usable.insert(sid, frame)
            &&& s.tiling.spaces.dom().contains(sid) ==> r == selectors::Resolved::Found(())
                && t.tiling.ops == s.tiling.ops.push(
                LayoutOp::SetFrame {
                    sid,
                    frame,
                    padding: s.padding_of(sid),
                    bar: s.bar_of(sid),
                },
            )
            &&& !s.tiling.spaces.dom().contains(sid) ==> r == selectors::Resolved::<()>::Failed(
                "space has no layout"@,
            ) && t.tiling == s.tiling
            &&& t.tiling.spaces == s.tiling.spaces
        }),
{
    let t = s.after_event(StateEvent::SpaceCreated { sid, frame }).0;
    assert(t.tiling.spaces.dom() =~= s.tiling.spaces.dom().insert(sid));
}

/// What each event of the window system does to windows: while windows are managed a
/// new one is tiled on the active space, or on the space it is told to be on;
/// otherwise it is left alone.
pub proof fn law_window_events(s: State, window_id: u32, sid: u64)
    requires
        s.tiling.wf(),
    ensures
        !s.config.manage ==> s.after_event(StateEvent::WindowCreated { window_id }) == (
            s,
            selectors::Resolved::Found(()),
        ),
        !s.config.manage ==> s.after_event(StateEvent::WindowAssignedToSpace { window_id, sid })
            == (s, selectors::Resolved::Found(())),
        s.config.manage && s.tiling.active_space is None ==> s.after_event(
            StateEvent::WindowCreated { window_id },
        ) == (s, selectors::Resolved::<()>::Failed("no active space"@)),
        s.config.manage && s.tiling.active_space == Some(sid) ==> s.after_event(
            StateEvent::WindowCreated { window_id },
        ) == s.after_event(StateEvent::WindowAssignedToSpace { window_id, sid }),
        s.config.manage && s.tiling.spaces.dom().contains(sid) && !s.tiling.floating.contains(
            window_id,
        ) && !s.tiling.sticky.contains(window_id) ==> {
            let (t, r) = s.after_event(StateEvent::WindowAssignedToSpace { window_id, sid });
            &&& r == selectors::Resolved::Found(())
            &&& t.tiling.spaces[sid].windows.contains(window_id)
            &&& t == (State { tiling: t.tiling, ..s })
        },
        s.config.manage && (s.tiling.floating.contains(window_id) || s.tiling.sticky.contains(
            window_id,
        )) ==> {
            let (t, r) = s.after_event(StateEvent::WindowAssignedToSpace { window_id, sid });
            &&& r == selectors::Resolved::Found(())
            &&& t.tiling.spaces == s.tiling.spaces
            &&& t.tiling.window_spaces == s.tiling.window_spaces.insert(window_id, sid)
        },
        s.config.manage && !s.tiling.spaces.dom().contains(sid) && !s.tiling.floating.contains(
            window_id,
        ) && !s.tiling.sticky.contains(window_id) ==> {
            let (t, r) = s.after_event(StateEvent::WindowAssignedToSpace { window_id, sid });
            &&& r == selectors::Resolved::<()>::Failed("space has no layout"@)
            &&& t.tiling.spaces == s.tiling.spaces
        },
        s.tiling.active_space is Some ==> {
            let (t, r) = s.after_event(StateEvent::WindowDestroyed { window_id });
            &&& r == selectors::Resolved::Found(())
            &&& !t.scratchpads.dom().contains(window_id)
            &&& !t.tiling.floating.contains(window_id)
            &&& t.tiling.focused_window != Some(window_id)
            &&& forall|k: u64|
                t.tiling.spaces.dom().contains(k) ==> !(
                #[trigger] t.tiling.spaces[k]).windows.contains(window_id)
        },
        s.tiling.active_space is None ==> s.after_event(StateEvent::WindowDestroyed { window_id })
            == (s, selectors::Resolved::Found(())),
        ({
            let (t, r) = s.after_event(StateEvent::WindowFocused { window_id });
            &&& r == selectors::Resolved::Found(())
            &&& t == (State { tiling: t.tiling, ..s })
            &&& t.tiling.focused_window == Some(window_id)
            &&& s.tiling.focused_window is Some && s.tiling.focused_window != Some(window_id)
                ==> t.tiling.last_focused_window == s.tiling.focused_window
            &&& t.tiling.spaces == s.tiling.spaces
            &&& t.tiling.ops == s.tiling.ops
        }),
{
    if s.config.manage && s.tiling.spaces.dom().contains(sid) && !s.tiling.floating.contains(
        window_id,
    ) && !s.tiling.sticky.contains(window_id) {
        tiling::law_assigned_window_is_tiled_there(s.tiling, window_id, sid);
        assert(s.tiling.assigned(window_id, sid).tiles(sid, window_id));
    }
    tiling::law_forgotten_window_is_nowhere(s.tiling, window_id);
    let gone = s.tiling.forgotten(window_id);
    assert forall|k: u64| gone.spaces.dom().contains(k) implies !(
    #[trigger] gone.spaces[k]).windows.contains(window_id) by {
        if gone.spaces[k].windows.contains(window_id) {
            assert(gone.tiles(k, window_id));
        }
    }
    if s.config.manage && !s.tiling.spaces.dom().contains(sid) {
        assert(!s.tiling.tiles(sid, window_id));
    }
}

} // verus!
