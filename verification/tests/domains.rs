//! The commands of each domain, one action at a time, with a small layout engine
//! at hand.
use yabai::config::{ConfigOp, ConfigValue};
use yabai::dispatch::{settle, DisplayAction, SpaceAction, WindowAction};
use yabai::layout::{settle_drop, DropPlan, DropResult, DropZone};
use yabai::message::{Message};
use yabai::query::{
    window_split_info, QueryCommand, QueryScopeKind, QueryTarget,
};
use yabai::registry::{RuleApply, RuleCommand, SignalCommand};
use yabai::rules::{Rule, RuleEffects};
use yabai::signals::{Signal, SignalEvent};
use yabai::state::{Capture, LiveWindowInfo, Neighbor, WindowFrame, WindowMeta};
use yabai::tiling::{Insertion, LayoutOp, Padding};
use yabai::topology::DisplayInfo;
use yabai::types::{
    Area, Direction, DisplayArrangementOrder, ExternalBar, ExternalBarMode, Layer,
    MouseDropAction, NodeSplit, Real, Selector, ValueType, ViewType, WindowOriginMode, ZoomKind,
};
use yabai::{AppState, RecordingSink, StateEvent};

/// A rectangle on screen.
#[derive(Debug, Clone, Copy, PartialEq)]
struct Rect {
    x: f32,
    y: f32,
    w: f32,
    h: f32,
}

impl Rect {
    fn contains(&self, p: Point) -> bool {
        p.x >= self.x && p.x < self.x + self.w && p.y >= self.y && p.y < self.y + self.h
    }
}

#[derive(Debug, Clone, Copy)]
struct Point {
    x: f32,
    y: f32,
}

/// A window where a flush puts it.
#[derive(Debug, Clone, Copy, PartialEq)]
struct Shown {
    window_id: u32,
    area: Rect,
}

fn number(value: f32) -> Real {
    Real { bits: value.to_bits(), text: format!("{value:.4}") }
}

fn area(x: f32, y: f32, w: f32, h: f32) -> Area {
    Area { x: number(x), y: number(y), w: number(w), h: number(h) }
}

fn value(number: &Real) -> f32 {
    f32::from_bits(number.bits)
}

fn rect(area: &Area) -> Rect {
    Rect { x: value(&area.x), y: value(&area.y), w: value(&area.w), h: value(&area.h) }
}

fn rect_area(r: Rect) -> Area {
    area(r.x, r.y, r.w, r.h)
}

fn toks(parts: &[&str]) -> Vec<String> {
    parts.iter().map(|s| s.to_string()).collect()
}

/// A node of a layout: some windows on top of each other, or two parts.
enum Node {
    Leaf(Vec<u32>),
    Split { vertical: bool, ratio: f32, parts: Box<(Node, Node)> },
}

/// A placed leaf.
struct Leaf {
    windows: Vec<u32>,
    rect: Rect,
    parent: Option<(NodeSplit, bool)>,
}

impl Node {
    fn windows(&self, out: &mut Vec<u32>) {
        match self {
            Node::Leaf(windows) => out.extend(windows),
            Node::Split { parts, .. } => {
                parts.0.windows(out);
                parts.1.windows(out);
            }
        }
    }

    fn holds(&self, window: u32) -> bool {
        let mut all = Vec::new();
        self.windows(&mut all);
        all.contains(&window)
    }

    fn place(&self, rect: Rect, gap: f32, parent: Option<(NodeSplit, bool)>, out: &mut Vec<Leaf>) {
        match self {
            Node::Leaf(windows) => {
                out.push(Leaf { windows: windows.clone(), rect, parent });
            }
            Node::Split { vertical, ratio, parts } => {
                let (a, b) = halves(rect, *vertical, *ratio, gap);
                let split = if *vertical { NodeSplit::Vertical } else { NodeSplit::Horizontal };
                parts.0.place(a, gap, Some((split, true)), out);
                parts.1.place(b, gap, Some((split, false)), out);
            }
        }
    }

    fn split_at(&mut self, beside: u32, window: u32, rect: Rect, gap: f32, toward: Option<Insertion>) {
        match self {
            Node::Leaf(windows) => {
                if !windows.contains(&beside) {
                    return;
                }
                let (vertical, behind) = match toward {
                    Some(Insertion::Stack) => {
                        windows.push(window);
                        return;
                    }
                    Some(Insertion::Toward(Direction::North)) => (false, false),
                    Some(Insertion::Toward(Direction::South)) => (false, true),
                    Some(Insertion::Toward(Direction::West)) => (true, false),
                    Some(Insertion::Toward(Direction::East)) => (true, true),
                    None => (rect.w >= rect.h, true),
                };
                let old = Node::Leaf(std::mem::take(windows));
                let new = Node::Leaf(vec![window]);
                let parts = if behind { (old, new) } else { (new, old) };
                *self = Node::Split { vertical, ratio: 0.5, parts: Box::new(parts) };
            }
            Node::Split { vertical, ratio, parts } => {
                let (a, b) = halves(rect, *vertical, *ratio, gap);
                parts.0.split_at(beside, window, a, gap, toward);
                parts.1.split_at(beside, window, b, gap, toward);
            }
        }
    }

    fn without(self, window: u32) -> Option<Node> {
        match self {
            Node::Leaf(mut windows) => {
                windows.retain(|w| *w != window);
                if windows.is_empty() { None } else { Some(Node::Leaf(windows)) }
            }
            Node::Split { vertical, ratio, parts } => {
                let (a, b) = *parts;
                match (a.without(window), b.without(window)) {
                    (Some(a), Some(b)) => {
                        Some(Node::Split { vertical, ratio, parts: Box::new((a, b)) })
                    }
                    (Some(a), None) => Some(a),
                    (None, b) => b,
                }
            }
        }
    }

    fn rename(&mut self, from: u32, to: u32) {
        match self {
            Node::Leaf(windows) => {
                for w in windows.iter_mut() {
                    if *w == from {
                        *w = to;
                    } else if *w == to {
                        *w = from;
                    }
                }
            }
            Node::Split { parts, .. } => {
                parts.0.rename(from, to);
                parts.1.rename(from, to);
            }
        }
    }

    fn stack_onto(&mut self, window: u32, other: u32) {
        match self {
            Node::Leaf(windows) => {
                if windows.contains(&other) {
                    windows.push(window);
                }
            }
            Node::Split { parts, .. } => {
                parts.0.stack_onto(window, other);
                parts.1.stack_onto(window, other);
            }
        }
    }

    fn turn(&mut self) {
        if let Node::Split { ratio, parts, .. } = self {
            *ratio = 1.0 - *ratio;
            let pair = std::mem::replace(
                parts,
                Box::new((Node::Leaf(Vec::new()), Node::Leaf(Vec::new()))),
            );
            let (mut a, mut b) = *pair;
            a.turn();
            b.turn();
            **parts = (b, a);
        }
    }

    /// The split right above the leaf of a window.
    fn parent_of(&mut self, window: u32) -> Option<(&mut bool, &mut f32)> {
        match self {
            Node::Leaf(_) => None,
            Node::Split { vertical, ratio, parts } => {
                for part in [&parts.0, &parts.1] {
                    if matches!(part, Node::Leaf(windows) if windows.contains(&window)) {
                        return Some((vertical, ratio));
                    }
                }
                if parts.0.holds(window) {
                    parts.0.parent_of(window)
                } else {
                    parts.1.parent_of(window)
                }
            }
        }
    }
}

fn halves(r: Rect, vertical: bool, ratio: f32, gap: f32) -> (Rect, Rect) {
    if vertical {
        let left = (r.w - gap) * ratio;
        (
            Rect { w: left, ..r },
            Rect { x: r.x + left + gap, w: r.w - gap - left, ..r },
        )
    } else {
        let top = (r.h - gap) * ratio;
        (
            Rect { h: top, ..r },
            Rect { y: r.y + top + gap, h: r.h - gap - top, ..r },
        )
    }
}

/// The layout of a space.
struct View {
    sid: u64,
    layout: ViewType,
    gap: f32,
    rect: Rect,
    root: Node,
    insert: Option<(u32, Insertion)>,
    zoom: Option<(u32, ZoomKind)>,
}

impl View {
    fn leaves(&self) -> Vec<Leaf> {
        let mut out = Vec::new();
        self.root.place(self.rect, self.gap, None, &mut out);
        out
    }

    fn order(&self) -> Vec<u32> {
        let mut out = Vec::new();
        self.root.windows(&mut out);
        out
    }

    fn add(&mut self, window: u32, beside: Option<u32>) {
        let order = self.order();
        let target = match beside {
            Some(b) if order.contains(&b) => Some(b),
            _ => order.last().copied(),
        };
        let stacked = self.layout == ViewType::Stack;
        match (&mut self.root, target) {
            (Node::Leaf(windows), _) if stacked || windows.is_empty() => windows.push(window),
            (_, Some(target)) => {
                let toward = match self.insert {
                    Some((w, insert)) if w == target => Some(insert),
                    _ => None,
                };
                self.insert = None;
                let (rect, gap) = (self.rect, self.gap);
                self.root.split_at(target, window, rect, gap, toward);
            }
            (_, None) => {}
        }
    }

    fn take_out(&mut self, window: u32) {
        let root = std::mem::replace(&mut self.root, Node::Leaf(Vec::new()));
        if let Some(rest) = root.without(window) {
            self.root = rest;
        }
    }

    fn capture(&self) -> Capture {
        let leaves = self.leaves();
        let next_to = |i: usize, d: Direction| -> Neighbor {
            let r = leaves[i].rect;
            let mut best: Option<(f32, usize)> = None;
            for (j, leaf) in leaves.iter().enumerate() {
                let o = leaf.rect;
                let across = o.y < r.y + r.h && r.y < o.y + o.h;
                let along = o.x < r.x + r.w && r.x < o.x + o.w;
                let distance = match d {
                    Direction::East if across && o.x >= r.x + r.w => o.x - r.x,
                    Direction::West if across && o.x + o.w <= r.x => r.x - o.x,
                    Direction::South if along && o.y >= r.y + r.h => o.y - r.y,
                    Direction::North if along && o.y + o.h <= r.y => r.y - o.y,
                    _ => continue,
                };
                if best.is_none() || distance < best.unwrap().0 {
                    best = Some((distance, j));
                }
            }
            match best {
                None => Neighbor::Absent,
                Some((_, j)) => match leaves[j].windows.last() {
                    Some(w) => Neighbor::Window(*w),
                    None => Neighbor::Empty,
                },
            }
        };
        let mut frames = Vec::new();
        for i in 0..leaves.len() {
            for w in &leaves[i].windows {
                frames.push(WindowFrame {
                    window_id: *w,
                    area: rect_area(leaves[i].rect),
                    parent: leaves[i].parent,
                    node_windows: leaves[i].windows.clone(),
                    north: next_to(i, Direction::North),
                    east: next_to(i, Direction::East),
                    south: next_to(i, Direction::South),
                    west: next_to(i, Direction::West),
                });
            }
        }
        Capture { frames, zoomed: self.zoom }
    }
}

/// The daemon's state together with a small layout engine.
struct Desk {
    state: AppState,
    views: Vec<View>,
    displays: Vec<(u32, Rect)>,
}

impl std::ops::Deref for Desk {
    type Target = AppState;

    fn deref(&self) -> &AppState {
        &self.state
    }
}

impl std::ops::DerefMut for Desk {
    fn deref_mut(&mut self) -> &mut AppState {
        &mut self.state
    }
}

impl Desk {
    fn new() -> Desk {
        Desk { state: AppState::new(), views: Vec::new(), displays: Vec::new() }
    }

    fn view(&mut self, sid: u64) -> Option<&mut View> {
        self.views.iter_mut().find(|v| v.sid == sid)
    }

    /// Carry out one operation; whether the layout took it.
    fn apply(&mut self, op: &LayoutOp) -> bool {
        match op {
            LayoutOp::NewTree { sid, layout, config, area } => {
                let sid = *sid;
                self.views.retain(|v| v.sid != sid);
                self.views.push(View {
                    sid,
                    layout: *layout,
                    gap: config.gap as f32,
                    rect: rect(area),
                    root: Node::Leaf(Vec::new()),
                    insert: None,
                    zoom: None,
                });
            }
            LayoutOp::DropTree { sid } => self.views.retain(|v| v.sid != *sid),
            LayoutOp::Add { sid, window_id, beside } => {
                let (w, b) = (*window_id, *beside);
                self.view(*sid).unwrap().add(w, b);
            }
            LayoutOp::Remove { sid, window_id } => {
                let w = *window_id;
                self.view(*sid).unwrap().take_out(w);
            }
            LayoutOp::SetFrame { sid, frame, padding, bar } => {
                let r = rect(frame);
                let top = (padding.top + bar.top) as f32;
                let bottom = (padding.bottom + bar.bottom) as f32;
                let (left, right) = (padding.left as f32, padding.right as f32);
                self.view(*sid).unwrap().rect = Rect {
                    x: r.x + left,
                    y: r.y + top,
                    w: r.w - left - right,
                    h: r.h - top - bottom,
                };
            }
            LayoutOp::SetGap { sid, gap } => {
                let gap = *gap as f32;
                self.view(*sid).unwrap().gap = gap;
            }
            LayoutOp::SetConfig { sid, config } => {
                let gap = config.gap as f32;
                self.view(*sid).unwrap().gap = gap;
            }
            LayoutOp::SetLayout { sid, layout } => {
                let layout = *layout;
                let view = self.view(*sid).unwrap();
                view.layout = layout;
                let order = view.order();
                view.root = Node::Leaf(Vec::new());
                for w in order {
                    view.add(w, None);
                }
            }
            LayoutOp::Swap { sid, window_id, other } => {
                let (a, b) = (*window_id, *other);
                self.view(*sid).unwrap().root.rename(a, b);
            }
            LayoutOp::Warp { sid, window_id, other }
            | LayoutOp::WarpBeside { sid, window_id, other, .. } => {
                let (a, b) = (*window_id, *other);
                let view = self.view(*sid).unwrap();
                view.take_out(a);
                view.add(a, Some(b));
            }
            LayoutOp::StackOnto { sid, window_id, other } => {
                let (a, b) = (*window_id, *other);
                let view = self.view(*sid).unwrap();
                view.take_out(a);
                view.root.stack_onto(a, b);
            }
            LayoutOp::ToggleZoom { sid, window_id, kind } => {
                let wanted = Some((*window_id, *kind));
                let view = self.view(*sid).unwrap();
                view.zoom = if view.zoom == wanted { None } else { wanted };
            }
            LayoutOp::ToggleSplit { sid, window_id } => {
                let w = *window_id;
                if let Some((vertical, _)) = self.view(*sid).unwrap().root.parent_of(w) {
                    *vertical = !*vertical;
                }
            }
            LayoutOp::Resize { sid, window_id, handle, dw, dh: _ } => {
                let (w, side, by) = (*window_id, *handle, value(dw));
                let view = self.view(*sid).unwrap();
                let width = view.rect.w;
                match view.root.parent_of(w) {
                    Some((vertical, ratio)) if *vertical && side == RIGHT => {
                        *ratio += by / width;
                    }
                    _ => return false,
                }
            }
            LayoutOp::Ratio { sid, window_id, relative, ratio } => {
                let (w, rel, new) = (*window_id, *relative, value(ratio));
                match self.view(*sid).unwrap().root.parent_of(w) {
                    Some((_, ratio)) => *ratio = if rel { *ratio + new } else { new },
                    None => return false,
                }
            }
            LayoutOp::SetInsertion { sid, window_id, insert } => {
                let wanted = Some((*window_id, *insert));
                self.view(*sid).unwrap().insert = wanted;
            }
            LayoutOp::Rotate { sid, degrees } => {
                let degrees = *degrees;
                let view = self.view(*sid).unwrap();
                assert_eq!(degrees, 180);
                view.root.turn();
            }
            LayoutOp::Balance { .. } | LayoutOp::Equalize { .. } | LayoutOp::Mirror { .. } => {}
        }
        true
    }

    /// Carry out what is asked of the layout and report what became of it.
    fn sync(&mut self) {
        for op in self.state.take_ops() {
            self.apply(&op);
        }
        for i in 0..self.views.len() {
            let (sid, order, capture) =
                (self.views[i].sid, self.views[i].order(), self.views[i].capture());
            assert!(self.state.report(sid, order, capture));
        }
    }

    fn add_display(&mut self, id: u32, frame: Area) {
        let r = rect(&frame);
        self.displays.push((id, r));
        let info = DisplayInfo {
            frame,
            center_x: (r.x + r.w / 2.0).to_bits(),
            center_y: (r.y + r.h / 2.0).to_bits(),
        };
        self.state.add_display(id, info);
    }

    fn add_space(&mut self, sid: u64, frame: Area) {
        self.state.add_space(sid, frame);
        self.sync();
    }

    fn add_space_to_display(&mut self, sid: u64, id: u32, frame: Area) {
        self.state.add_space_to_display(sid, id, frame);
        self.sync();
    }

    fn set_space_frame(&mut self, sid: u64, frame: Area) -> Result<(), String> {
        let r = self.state.set_space_frame(sid, frame);
        self.sync();
        r
    }

    fn set_space_layout(&mut self, sid: u64, layout: ViewType) {
        self.state.set_space_layout(sid, layout);
        self.sync();
    }

    fn add_window(&mut self, id: u32) -> Result<(), String> {
        let r = self.state.add_window(id);
        self.sync();
        r
    }

    fn assign_window_to_space(&mut self, id: u32, sid: u64) -> Result<(), String> {
        let r = self.state.assign_window_to_space(id, sid);
        self.sync();
        r
    }

    fn remove_window(&mut self, id: u32) -> Result<(), String> {
        let r = self.state.remove_window(id);
        self.sync();
        r
    }

    fn set_window_scratchpad(&mut self, id: u32, label: String, sid: u64) -> Result<(), String> {
        let r = self.state.set_window_scratchpad(id, label, sid);
        self.sync();
        r
    }

    fn remove_window_scratchpad(&mut self, id: u32, unfloat: bool, sid: u64) -> bool {
        let r = self.state.remove_window_scratchpad(id, unfloat, sid);
        self.sync();
        r
    }

    fn apply_new_window_rules(
        &mut self,
        id: u32,
        app: &str,
        title: &str,
        role: &str,
        subrole: &str,
        sid: u64,
    ) {
        self.state.apply_new_window_rules(id, app, title, role, subrole, sid);
        self.sync();
    }

    fn handle_event(&mut self, event: StateEvent) -> Result<(), String> {
        let r = self.state.handle_event(event);
        self.sync();
        r
    }

    fn handle_event_and_flush(
        &mut self,
        event: StateEvent,
        sink: &mut RecordingSink,
    ) -> Result<usize, String> {
        self.handle_event(event)?;
        Ok(self.state.flush_active_to(sink))
    }

    fn window_list(&self, sid: u64) -> Vec<u32> {
        self.state.space(sid).unwrap().windows.clone()
    }

    fn flush(&self, sid: u64) -> Option<Vec<Shown>> {
        let placed = self.state.flush(sid)?;
        Some(placed.iter().map(|p| Shown { window_id: p.window_id, area: rect(&p.area) }).collect())
    }

    fn flush_active(&self) -> Option<Vec<Shown>> {
        let placed = self.state.flush_active()?;
        Some(placed.iter().map(|p| Shown { window_id: p.window_id, area: rect(&p.area) }).collect())
    }

    fn window_area(&self, id: u32) -> Option<Rect> {
        self.state.window_area(id).map(|a| rect(&a))
    }

    fn split_name(&self, id: u32) -> &'static str {
        window_split_info(self.state.window_split(id)).0
    }

    fn root_ratio(&self, sid: u64) -> f32 {
        let view = self.views.iter().find(|v| v.sid == sid).unwrap();
        match &view.root {
            Node::Split { ratio, .. } => *ratio,
            Node::Leaf(_) => 0.5,
        }
    }

    fn display_at(&self, p: Point) -> Option<u32> {
        self.displays.iter().find(|(_, r)| r.contains(p)).map(|(id, _)| *id)
    }

    /// The tiled windows whose frame a point lies in.
    fn windows_at(&self, p: Point) -> Vec<u32> {
        let mut out = Vec::new();
        for view in &self.views {
            for leaf in view.leaves() {
                if leaf.rect.contains(p) {
                    out.extend(leaf.windows);
                }
            }
        }
        out
    }

    fn set_cursor_point(&mut self, p: Point) {
        let display = self.display_at(p);
        let window = self.windows_at(p).last().copied();
        self.state.set_cursor(display, window);
    }

    fn origin_space_for_new_window(&self, sid: u64, cursor: Option<Point>) -> u64 {
        self.state.origin_space_for_new_window(sid, cursor.and_then(|p| self.display_at(p)))
    }

    fn drop_tiled_window_at_point(
        &mut self,
        id: u32,
        p: Point,
        action: MouseDropAction,
    ) -> DropResult {
        self.drop_in_zone(id, p, DropZone { center: true, edge: None }, action)
    }

    fn drop_in_zone(
        &mut self,
        id: u32,
        p: Point,
        zone: DropZone,
        action: MouseDropAction,
    ) -> DropResult {
        let inside = self.windows_at(p);
        let plan =
            self.state.drop_tiled_window_at_point(id, self.display_at(p), &inside, zone, action);
        let result = match plan {
            DropPlan::Done(result) => result,
            DropPlan::Ask(op) => settle_drop(self.apply(&op)),
        };
        self.sync();
        result
    }

    fn handle_tokens(&mut self, tokens: &[String]) -> Result<Option<String>, String> {
        let message = parse(tokens)?;
        let answer = self.carry_out(message);
        self.sync();
        answer
    }

    /// Carry out a command by its domain, one action at a time.
    fn carry_out(&mut self, message: Message) -> Result<Option<String>, String> {
        match message {
            Message::Config(ops) => self.state.dispatch_config(&ops),
            Message::Query(cmd) => self.state.dispatch_query(&cmd).map(Some),
            Message::Rule(cmd) => self.state.dispatch_rule(cmd),
            Message::Signal(cmd) => self.state.dispatch_signal(cmd),
            Message::Window { target, actions } => {
                self.state.window_target(&target)?;
                for action in &actions {
                    if let Some(op) = self.state.window_step(action)? {
                        self.sync();
                        settle(&op, self.apply(&op))?;
                    }
                    self.sync();
                }
                Ok(None)
            }
            Message::Space { target, actions } => {
                for action in &actions {
                    assert!(self.state.space_action_in_range(&target, action));
                    self.state.space_step(&target, action)?;
                }
                Ok(None)
            }
            Message::Display { target, actions } => {
                for action in &actions {
                    self.state.display_step(&target, action)?;
                }
                Ok(None)
            }
        }
    }
}

/// The bit of the right edge in resize handles.
const RIGHT: u8 = 2;

fn selector(word: &str) -> Selector {
    match word {
        "first" => Selector::First,
        "last" => Selector::Last,
        "next" => Selector::Next,
        "prev" => Selector::Prev,
        "recent" => Selector::Recent,
        "mouse" => Selector::Mouse,
        "north" => Selector::Direction(Direction::North),
        "east" => Selector::Direction(Direction::East),
        "south" => Selector::Direction(Direction::South),
        "west" => Selector::Direction(Direction::West),
        _ => match word.parse::<u32>() {
            Ok(n) => Selector::Index(n),
            Err(_) => Selector::Label(word.to_string()),
        },
    }
}

fn unknown_value(word: &str, command: &str, domain: &str) -> String {
    format!("unknown value '{word}' given to command '{command}' for domain '{domain}'")
}

fn kind_of(word: &str) -> ValueType {
    if word == "rel" { ValueType::Rel } else { ValueType::Abs }
}

fn parse(tokens: &[String]) -> Result<Message, String> {
    let words: Vec<&str> = tokens.iter().map(|t| t.as_str()).collect();
    match words[0] {
        "config" => Ok(Message::Config(vec![config_op(&words[1..])])),
        "query" => Ok(Message::Query(query(&words[1..]))),
        "rule" => Ok(Message::Rule(rule_command(&words[1..])?)),
        "signal" => Ok(Message::Signal(signal_command(&words[1..]))),
        "window" => {
            let (target, rest) = target_of(&words[1..]);
            let mut actions = Vec::new();
            for (name, args) in split_actions(rest) {
                actions.push(window_action(name, &args)?);
            }
            Ok(Message::Window { target, actions })
        }
        "space" => {
            let (target, rest) = target_of(&words[1..]);
            let actions = split_actions(rest)
                .into_iter()
                .map(|(name, args)| space_action(name, &args))
                .collect();
            Ok(Message::Space { target, actions })
        }
        "display" => {
            let (target, rest) = target_of(&words[1..]);
            let actions = split_actions(rest)
                .into_iter()
                .map(|(name, args)| match name {
                    "--label" => DisplayAction::Label(args[0].to_string()),
                    "--focus" => DisplayAction::Focus(args.first().map(|w| selector(w))),
                    other => panic!("display {other}"),
                })
                .collect();
            Ok(Message::Display { target, actions })
        }
        other => Err(format!("unknown domain '{other}'")),
    }
}

fn target_of<'a, 'b>(words: &'b [&'a str]) -> (Option<Selector>, &'b [&'a str]) {
    if words[0].starts_with("--") {
        (None, words)
    } else {
        (Some(selector(words[0])), &words[1..])
    }
}

fn split_actions<'a>(words: &[&'a str]) -> Vec<(&'a str, Vec<&'a str>)> {
    let mut out: Vec<(&str, Vec<&str>)> = Vec::new();
    for word in words {
        if word.starts_with("--") {
            out.push((word, Vec::new()));
        } else {
            out.last_mut().unwrap().1.push(word);
        }
    }
    out
}

fn window_action(name: &str, args: &[&str]) -> Result<WindowAction, String> {
    let optional = || args.first().map(|w| selector(w));
    Ok(match name {
        "--focus" => WindowAction::Focus(optional()),
        "--minimize" => WindowAction::Minimize(optional()),
        "--close" => WindowAction::Close(optional()),
        "--swap" => WindowAction::Swap(selector(args[0])),
        "--warp" => WindowAction::Warp(selector(args[0])),
        "--stack" => WindowAction::Stack(selector(args[0])),
        "--toggle" => WindowAction::Toggle(args[0].to_string()),
        "--insert" => WindowAction::Insert(match args[0] {
            "north" => Insertion::Toward(Direction::North),
            "east" => Insertion::Toward(Direction::East),
            "south" => Insertion::Toward(Direction::South),
            "west" => Insertion::Toward(Direction::West),
            "stack" => Insertion::Stack,
            word => return Err(unknown_value(word, name, "window")),
        }),
        "--ratio" => {
            let (kind, ratio) = args[0].split_once(':').unwrap();
            WindowAction::Ratio { kind: kind_of(kind), ratio: number(ratio.parse().unwrap()) }
        }
        "--resize" => {
            let parts: Vec<&str> = args[0].split(':').collect();
            WindowAction::Resize {
                absolute: parts[0] == "abs",
                handle: if parts[0] == "right" { RIGHT } else { 0 },
                dw: number(parts[1].parse().unwrap()),
                dh: number(parts[2].parse().unwrap()),
            }
        }
        other => panic!("window {other}"),
    })
}

fn space_action(name: &str, args: &[&str]) -> SpaceAction {
    match name {
        "--gap" => {
            let (kind, gap) = args[0].split_once(':').unwrap();
            SpaceAction::Gap { kind: kind_of(kind), gap: gap.parse().unwrap() }
        }
        "--padding" => {
            let parts: Vec<&str> = args[0].split(':').collect();
            SpaceAction::Padding {
                kind: kind_of(parts[0]),
                padding: Padding {
                    top: parts[1].parse().unwrap(),
                    bottom: parts[2].parse().unwrap(),
                    left: parts[3].parse().unwrap(),
                    right: parts[4].parse().unwrap(),
                },
            }
        }
        "--toggle" => SpaceAction::Toggle(args[0].to_string()),
        "--label" => SpaceAction::Label(args[0].to_string()),
        "--rotate" => SpaceAction::Rotate(args[0].parse().unwrap()),
        "--layout" => SpaceAction::Layout(match args[0] {
            "bsp" => ViewType::Bsp,
            "stack" => ViewType::Stack,
            _ => ViewType::Float,
        }),
        other => panic!("space {other}"),
    }
}

fn config_op(words: &[&str]) -> ConfigOp {
    let key = words[0].to_string();
    if words.len() == 1 {
        return ConfigOp::Get(key);
    }
    let value = match words[0] {
        "display_arrangement_order" => ConfigValue::ArrangementOrder(match words[1] {
            "horizontal" => DisplayArrangementOrder::Horizontal,
            "vertical" => DisplayArrangementOrder::Vertical,
            _ => DisplayArrangementOrder::Default,
        }),
        "window_origin_display" => ConfigValue::WindowOrigin(match words[1] {
            "focused" => WindowOriginMode::Focused,
            "cursor" => WindowOriginMode::Cursor,
            _ => WindowOriginMode::Default,
        }),
        "external_bar" => {
            let parts: Vec<&str> = words[1].split(':').collect();
            ConfigValue::ExternalBar(ExternalBar {
                mode: match parts[0] {
                    "main" => ExternalBarMode::Main,
                    "all" => ExternalBarMode::All,
                    _ => ExternalBarMode::Off,
                },
                top: parts[1].parse().unwrap(),
                bottom: parts[2].parse().unwrap(),
            })
        }
        "mouse_follows_focus" => ConfigValue::Bool(words[1] == "on"),
        _ => ConfigValue::Int(words[1].parse().unwrap()),
    };
    ConfigOp::Put(key, value)
}

fn query(words: &[&str]) -> QueryCommand {
    let mut parts = split_actions(words).into_iter();
    let (target, properties) = parts.next().unwrap();
    let scope = parts.next().map(|(name, args)| {
        let kind = match name {
            "--display" => QueryScopeKind::Display,
            "--space" => QueryScopeKind::Space,
            _ => QueryScopeKind::Window,
        };
        (kind, args.first().map(|w| selector(w)))
    });
    QueryCommand {
        target: match target {
            "--displays" => QueryTarget::Displays,
            "--spaces" => QueryTarget::Spaces,
            _ => QueryTarget::Windows,
        },
        properties: match properties.first() {
            Some(list) => list.split(',').map(|p| p.to_string()).collect(),
            None => Vec::new(),
        },
        scope,
    }
}

/// A key, whether it excludes, and the value.
fn key_value(word: &str) -> (&str, bool, &str) {
    let (key, value) = word.split_once('=').unwrap();
    match key.strip_suffix('!') {
        Some(key) => (key, true, value),
        None => (key, false, value),
    }
}

fn rule(words: &[&str]) -> Result<Rule, String> {
    let mut rule = Rule {
        label: None,
        app: None,
        title: None,
        role: None,
        subrole: None,
        app_exclude: false,
        title_exclude: false,
        role_exclude: false,
        subrole_exclude: false,
        one_shot: false,
        effects: RuleEffects::new(),
    };
    for word in words {
        if *word == "--one-shot" {
            rule.one_shot = true;
            continue;
        }
        if !word.contains('=') {
            return Err(format!("'{word}' is not a key and a value"));
        }
        let (key, exclude, value) = key_value(word);
        let text = Some(value.to_string());
        match key {
            "label" => rule.label = text,
            "app" => (rule.app, rule.app_exclude) = (text, exclude),
            "title" => (rule.title, rule.title_exclude) = (text, exclude),
            "manage" => rule.effects.manage = Some(value == "on"),
            "sticky" => rule.effects.sticky = Some(value == "on"),
            "opacity" => rule.effects.opacity = Some(number(value.parse().unwrap())),
            "sub-layer" => {
                rule.effects.layer = Some(match value {
                    "below" => Layer::Below,
                    "above" => Layer::Above,
                    "auto" => Layer::Auto,
                    _ => Layer::Normal,
                })
            }
            "grid" => {
                let numbers: Vec<u32> = value.split(':').map(|n| n.parse().unwrap()).collect();
                rule.effects.grid = Some([
                    numbers[0], numbers[1], numbers[2], numbers[3], numbers[4], numbers[5],
                ]);
            }
            "scratchpad" => rule.effects.scratchpad = text,
            "display" => rule.effects.display = text,
            "space" => rule.effects.space = text,
            other => panic!("rule {other}"),
        }
    }
    Ok(rule)
}

fn rule_command(words: &[&str]) -> Result<RuleCommand, String> {
    Ok(match words[0] {
        "--add" => RuleCommand::Add(rule(&words[1..])?),
        "--remove" => RuleCommand::Remove(words.get(1).map(|w| selector(w))),
        "--list" => RuleCommand::List,
        _ => RuleCommand::Apply(match words.get(1) {
            None => RuleApply::All,
            Some(word) if word.contains('=') => {
                RuleApply::AdHoc { label: word.to_string(), parsed: rule(&words[1..]) }
            }
            Some(word) => RuleApply::Selector(selector(word)),
        }),
    })
}

fn signal_command(words: &[&str]) -> SignalCommand {
    match words[0] {
        "--remove" => SignalCommand::Remove(words.get(1).map(|w| selector(w))),
        "--list" => SignalCommand::List,
        _ => {
            let mut signal = Signal {
                event: SignalEvent::SystemWoke,
                action: String::new(),
                label: None,
                app: None,
                app_exclude: false,
                title: None,
                title_exclude: false,
                active: None,
            };
            for word in &words[1..] {
                let (key, exclude, value) = key_value(word);
                let text = value.to_string();
                match key {
                    "event" => {
                        signal.event = match value {
                            "window_focused" => SignalEvent::WindowFocused,
                            "window_minimized" => SignalEvent::WindowMinimized,
                            "window_deminimized" => SignalEvent::WindowDeminimized,
                            "window_title_changed" => SignalEvent::WindowTitleChanged,
                            "application_launched" => SignalEvent::ApplicationLaunched,
                            other => panic!("event {other}"),
                        }
                    }
                    "action" => signal.action = text,
                    "label" => signal.label = Some(text),
                    "app" => (signal.app, signal.app_exclude) = (Some(text), exclude),
                    "title" => (signal.title, signal.title_exclude) = (Some(text), exclude),
                    _ => signal.active = Some(value == "yes"),
                }
            }
            SignalCommand::Add(signal)
        }
    }
}

fn live(opacity: f32, role: &str, subrole: &str, can_move: bool, can_resize: bool) -> LiveWindowInfo {
    LiveWindowInfo {
        opacity: number(opacity),
        role: role.to_string(),
        subrole: subrole.to_string(),
        can_move,
        can_resize,
    }
}

fn state_with_space() -> Desk {
    let mut state = Desk::new();
    state.add_space(1, area(0.0, 0.0, 1000.0, 1000.0));
    state
}

fn state_with_displays() -> Desk {
    let mut state = Desk::new();
    state.add_display(42, area(0.0, 0.0, 1440.0, 900.0));
    state.add_display(77, area(1440.0, 0.0, 1280.0, 720.0));
    state.add_space_to_display(1, 42, area(0.0, 0.0, 1440.0, 900.0));
    state.add_space_to_display(2, 77, area(1440.0, 0.0, 1280.0, 720.0));
    state
}

#[test]
fn tests_display_arrangement_order_reorders_index_and_selector() {
    // Display 100 sits on the right, 200 on the left — id order is the reverse
    // of spatial (x) order, so the arrangement setting actually changes indices.
    let mut state = Desk::new();
    state.add_display(100, area(1500.0, 0.0, 1500.0, 1000.0));
    state.add_display(200, area(0.0, 500.0, 1500.0, 1000.0));

    // Default: id-ascending.
    assert_eq!(state.display_ids(), vec![100, 200]);
    assert_eq!(state.display_index(100), Some(1));

    // Horizontal: by center x — the left display (200) becomes index 1.
    state
        .handle_tokens(&toks(&[
            "config",
            "display_arrangement_order",
            "horizontal",
        ]))
        .unwrap();
    assert_eq!(state.display_ids(), vec![200, 100]);
    assert_eq!(state.display_index(200), Some(1));
    // The numeric selector now resolves index 1 to the left display.
    assert_eq!(
        state.handle_tokens(&toks(&["display", "1", "--label", "leftmost"])),
        Ok(None)
    );
    assert_eq!(
        state.resolve_display(Some(&Selector::Label("leftmost".into()))),
        Ok(200)
    );

    // Vertical: by center y — display 100 (y=500) is above 200 (y=1000).
    state
        .handle_tokens(&toks(&["config", "display_arrangement_order", "vertical"]))
        .unwrap();
    assert_eq!(state.display_ids(), vec![100, 200]);
}

#[test]
fn tests_toggle_float_untiles_then_retiles() {
    let mut state = state_with_space();
    state.add_window(1).unwrap();
    state.add_window(2).unwrap();
    state.set_focused_window(Some(1));

    // Float 1: it leaves the tree, 2 fills the space, 1 is not captured.
    assert_eq!(
        state.handle_tokens(&toks(&["window", "--toggle", "float"])),
        Ok(None)
    );
    assert!(state.is_floating(1));
    assert_eq!(state.window_list(1), vec![2]);
    assert!(state.flush(1).unwrap().iter().all(|f| f.window_id != 1));

    // A reconcile re-assignment must stay a no-op while floating.
    state.assign_window_to_space(1, 1).unwrap();
    assert_eq!(state.window_list(1), vec![2]);

    // Toggle off: 1 tiles back in.
    assert_eq!(
        state.handle_tokens(&toks(&["window", "--toggle", "float"])),
        Ok(None)
    );
    assert!(!state.is_floating(1));
    let mut list = state.window_list(1);
    list.sort_unstable();
    assert_eq!(list, vec![1, 2]);
}

#[test]
fn tests_scratchpad_assignment_floats_and_removal_retiles() {
    let mut state = state_with_space();
    state.add_window(1).unwrap();
    state.add_window(2).unwrap();

    state
        .set_window_scratchpad(1, "notes".to_string(), 1)
        .unwrap();
    assert_eq!(state.window_scratchpad(1), Some("notes"));
    assert_eq!(state.scratchpad_window("notes"), Some(1));
    assert!(state.is_floating(1));
    assert_eq!(state.window_list(1), vec![2]);

    assert_eq!(
        state.set_window_scratchpad(2, "notes".to_string(), 1),
        Err("the given scratchpad is already assigned to a different window!\n".to_string())
    );

    assert!(state.remove_window_scratchpad(1, true, 1));
    assert_eq!(state.window_scratchpad(1), None);
    assert!(!state.is_floating(1));
    let mut list = state.window_list(1);
    list.sort_unstable();
    assert_eq!(list, vec![1, 2]);
}

#[test]
fn tests_window_area_returns_the_captured_frame() {
    let mut state = state_with_space();
    state.add_window(1).unwrap();
    assert_eq!(
        state.window_area(1),
        Some(Rect { x: 0.0, y: 0.0, w: 1000.0, h: 1000.0 })
    );
    assert_eq!(state.window_area(999), None);
}

#[test]
fn tests_minimize_requires_a_focused_window() {
    let mut state = state_with_space();
    state.add_window(1).unwrap();
    assert_eq!(
        state.handle_tokens(&toks(&["window", "--minimize"])),
        Ok(None)
    );
    assert_eq!(state.window_list(1), vec![1]);
    state.add_window(2).unwrap();
    state.set_focused_window(Some(1));
    assert_eq!(
        state.handle_tokens(&toks(&["window", "--minimize", "last"])),
        Ok(None)
    );
    assert_eq!(state.focused_window_id(), Some(2));
    // With nothing focused, it reports the same error as other window ops.
    state.set_focused_window(None);
    assert!(
        state
            .handle_tokens(&toks(&["window", "--minimize"]))
            .is_err()
    );
}

#[test]
fn tests_native_fullscreen_toggle_requires_a_focused_window() {
    let mut state = state_with_space();
    state.add_window(1).unwrap();
    assert_eq!(
        state.handle_tokens(&toks(&["window", "--toggle", "native-fullscreen"])),
        Ok(None)
    );
    assert_eq!(state.window_list(1), vec![1]);
    state.set_focused_window(None);
    assert!(
        state
            .handle_tokens(&toks(&["window", "--toggle", "native-fullscreen"]))
            .is_err()
    );
}

#[test]
fn tests_close_requires_a_focused_or_selected_window() {
    let mut state = state_with_space();
    state.add_window(1).unwrap();
    state.add_window(2).unwrap();
    state.set_focused_window(None);

    assert_eq!(
        state.handle_tokens(&toks(&["window", "--close"])),
        Err("no focused window".to_string())
    );

    assert_eq!(
        state.handle_tokens(&toks(&["window", "1", "--close"])),
        Ok(None)
    );
    assert_eq!(state.focused_window_id(), Some(1));

    assert_eq!(
        state.handle_tokens(&toks(&["window", "--close", "last"])),
        Ok(None)
    );
    assert_eq!(state.focused_window_id(), Some(2));
}

#[test]
fn tests_leading_window_selector_sets_the_acting_window() {
    let mut state = state_with_space();
    state.add_window(1).unwrap();
    state.add_window(2).unwrap();
    state.set_focused_window(Some(2));

    assert_eq!(
        state.handle_tokens(&toks(&["window", "1", "--minimize"])),
        Ok(None)
    );
    assert_eq!(state.focused_window_id(), Some(1));

    assert_eq!(
        state.handle_tokens(&toks(&["window", "2", "--focus"])),
        Ok(None)
    );
    assert_eq!(state.focused_window_id(), Some(2));
}

#[test]
fn tests_destroying_a_floating_window_clears_the_mark() {
    let mut state = state_with_space();
    state.add_window(1).unwrap();
    state.add_window(2).unwrap();
    state.set_focused_window(Some(1));
    state
        .handle_tokens(&toks(&["window", "--toggle", "float"]))
        .unwrap();
    assert!(state.is_floating(1));
    state.remove_window(1).unwrap();
    assert!(!state.is_floating(1));
}

#[test]
fn tests_config_set_then_get_roundtrips() {
    let mut state = Desk::new();
    assert_eq!(
        state.handle_tokens(&toks(&["config", "window_gap", "8"])),
        Ok(None)
    );
    assert_eq!(
        state.handle_tokens(&toks(&["config", "window_gap"])),
        Ok(Some("8\n".to_string()))
    );
    assert_eq!(state.config.window_gap, 8);
}

#[test]
fn tests_config_get_layout_matches_c_string() {
    let mut state = Desk::new();
    assert_eq!(
        state.handle_tokens(&toks(&["config", "layout"])),
        Ok(Some("bsp\n".to_string()))
    );
    assert_eq!(
        state.handle_tokens(&toks(&["config", "auto_balance"])),
        Ok(Some("off\n".to_string()))
    );
}

#[test]
fn tests_config_gap_change_reflows_spaces() {
    let mut state = state_with_space();
    state.add_window(1).unwrap();
    state.add_window(2).unwrap();
    // Apply a gap; the divider should leave a 10px gap between halves.
    state
        .handle_tokens(&toks(&["config", "window_gap", "10"]))
        .unwrap();
    let leaves = state.flush(1).unwrap();
    let left = leaves[0].area;
    let right = leaves[1].area;
    // left ends at ~495, right starts at ~505 -> a 10px gap.
    assert!((right.x - (left.x + left.w)) as i32 >= 9);
}

#[test]
fn tests_space_gap_dispatch_sets_and_adjusts() {
    let mut state = state_with_space();
    // Absolute set.
    assert_eq!(
        state.handle_tokens(&toks(&["space", "--gap", "abs:10"])),
        Ok(None)
    );
    assert_eq!(state.space(1).unwrap().gap, 10);
    // Relative adjust accumulates.
    assert_eq!(
        state.handle_tokens(&toks(&["space", "--gap", "rel:5"])),
        Ok(None)
    );
    assert_eq!(state.space(1).unwrap().gap, 15);
    assert_eq!(
        state.handle_tokens(&toks(&["space", "--gap", "rel:-100"])),
        Ok(None)
    );
    assert_eq!(state.space(1).unwrap().gap, 0);
}

#[test]
fn tests_space_padding_dispatch_reinsets_from_usable_frame() {
    let mut state = state_with_space();
    state.add_window(1).unwrap();
    state
        .set_space_frame(1, area(0.0, 0.0, 1000.0, 1000.0))
        .unwrap();
    assert_eq!(
        state.handle_tokens(&toks(&["space", "--padding", "abs:20:20:10:10"])),
        Ok(None)
    );
    let frame = state.flush(1).unwrap()[0].area;
    // Single window fills the padded area: x=left, y=top, w=1000-l-r, h=1000-t-b.
    assert_eq!(
        (
            frame.x as i32,
            frame.y as i32,
            frame.w as i32,
            frame.h as i32
        ),
        (10, 20, 980, 960)
    );
    // Relative adds to the current override (10 more on left/right each).
    assert_eq!(
        state.handle_tokens(&toks(&["space", "--padding", "rel:0:0:10:10"])),
        Ok(None)
    );
    let frame = state.flush(1).unwrap()[0].area;
    assert_eq!((frame.x as i32, frame.w as i32), (20, 960));
}

#[test]
fn tests_space_gap_and_padding_error_on_float_space() {
    let mut state = state_with_space();
    state.set_space_layout(1, ViewType::Float);
    assert_eq!(
        state.handle_tokens(&toks(&["space", "--gap", "abs:10"])),
        Err("cannot set gap for a non-managed space.".to_string())
    );
    assert_eq!(
        state.handle_tokens(&toks(&["space", "--padding", "abs:1:1:1:1"])),
        Err("cannot set padding for a non-managed space.".to_string())
    );
}

#[test]
fn tests_space_toggle_padding_zeros_and_restores() {
    let mut state = state_with_space();
    state.add_window(1).unwrap();
    state
        .set_space_frame(1, area(0.0, 0.0, 1000.0, 1000.0))
        .unwrap();
    state
        .handle_tokens(&toks(&["space", "--padding", "abs:20:20:10:10"]))
        .unwrap();
    assert_eq!(state.flush(1).unwrap()[0].area.x as i32, 10);
    // Toggle off: padding is ignored, the window fills the raw usable frame.
    assert_eq!(
        state.handle_tokens(&toks(&["space", "--toggle", "padding"])),
        Ok(None)
    );
    let frame = state.flush(1).unwrap()[0].area;
    assert_eq!(
        (
            frame.x as i32,
            frame.y as i32,
            frame.w as i32,
            frame.h as i32
        ),
        (0, 0, 1000, 1000)
    );
    // Toggle on: the override applies again.
    assert_eq!(
        state.handle_tokens(&toks(&["space", "--toggle", "padding"])),
        Ok(None)
    );
    assert_eq!(state.flush(1).unwrap()[0].area.x as i32, 10);
}

#[test]
fn tests_space_toggle_gap_zeros_and_restores_preserving_value() {
    let mut state = state_with_space();
    state
        .handle_tokens(&toks(&["space", "--gap", "abs:12"]))
        .unwrap();
    assert_eq!(state.space(1).unwrap().gap, 12);
    // Toggle off: the live gap drops to zero but the value is remembered.
    assert_eq!(
        state.handle_tokens(&toks(&["space", "--toggle", "gap"])),
        Ok(None)
    );
    assert_eq!(state.space(1).unwrap().gap, 0);
    // `space --gap` while toggled off updates the saved value, not the live one.
    state
        .handle_tokens(&toks(&["space", "--gap", "abs:30"]))
        .unwrap();
    assert_eq!(state.space(1).unwrap().gap, 0);
    // Toggle on: the updated saved gap is restored.
    assert_eq!(
        state.handle_tokens(&toks(&["space", "--toggle", "gap"])),
        Ok(None)
    );
    assert_eq!(state.space(1).unwrap().gap, 30);
}

#[test]
fn tests_space_toggle_gap_padding_error_on_float_and_unknown_value() {
    let mut state = state_with_space();
    state.set_space_layout(1, ViewType::Float);
    assert_eq!(
        state.handle_tokens(&toks(&["space", "--toggle", "gap"])),
        Err("cannot toggle gap for a non-managed space.".to_string())
    );
    assert_eq!(
        state.handle_tokens(&toks(&["space", "--toggle", "padding"])),
        Err("cannot toggle padding for a non-managed space.".to_string())
    );
}

#[test]
fn tests_window_swap_reorders_active_space() {
    let mut state = state_with_space();
    state.add_window(1).unwrap();
    state.add_window(2).unwrap();
    // Focus is on window 2 (last added); swap it with window 1.
    state.set_focused_window(Some(2));
    assert_eq!(
        state.handle_tokens(&toks(&["window", "--swap", "1"])),
        Ok(None)
    );
    assert_eq!(state.window_list(1), vec![2, 1]);
}

#[test]
fn tests_window_swap_uses_focused_windows_own_space() {
    let mut state = state_with_space();
    state.add_space(2, area(0.0, 0.0, 1000.0, 1000.0));
    state.set_active_space(2);
    state.add_window(1).unwrap();
    state.add_window(2).unwrap();
    state.set_focused_window(Some(2));
    state.set_active_space(1);

    assert_eq!(
        state.handle_tokens(&toks(&["window", "--swap", "1"])),
        Ok(None)
    );
    assert_eq!(state.window_list(2), vec![2, 1]);
}

#[test]
fn tests_first_window_on_space_returns_first_or_none() {
    let mut state = state_with_space();
    assert_eq!(state.first_window_on_space(1), None);
    state.add_window(7).unwrap();
    state.add_window(9).unwrap();
    assert_eq!(state.first_window_on_space(1), Some(7));
    // An unknown space has no window.
    assert_eq!(state.first_window_on_space(999), None);
}

#[test]
fn tests_window_swap_without_focus_errors() {
    let mut state = state_with_space();
    state.add_window(1).unwrap();
    state.set_focused_window(None);
    assert_eq!(
        state.handle_tokens(&toks(&["window", "--swap", "1"])),
        Err("no focused window".to_string())
    );
}

#[test]
fn tests_window_stack_moves_focused_window_into_target_leaf() {
    let mut state = state_with_space();
    state.add_window(1).unwrap();
    state.add_window(2).unwrap();
    state.add_window(3).unwrap();
    state.set_focused_window(Some(1));

    assert_eq!(
        state.handle_tokens(&toks(&["window", "--stack", "3"])),
        Ok(None)
    );
    let target = state.window_frame(3).unwrap();
    assert_eq!(target.node_windows, vec![3, 1]);
    assert_eq!(state.window_stack_index(1), 2);
}

#[test]
fn tests_window_toggle_split_flips_parent_axis() {
    let mut state = state_with_space();
    state.add_window(1).unwrap();
    state.add_window(2).unwrap();
    state.set_focused_window(Some(2));

    // The two windows share a parent split node; `--toggle split` flips its
    // axis, and a second toggle restores it.
    let before = state.split_name(2);
    assert_eq!(
        state.handle_tokens(&toks(&["window", "--toggle", "split"])),
        Ok(None)
    );
    let after = state.split_name(2);
    assert_ne!(before, after);
    assert!(matches!(after, "vertical" | "horizontal"));

    assert_eq!(
        state.handle_tokens(&toks(&["window", "--toggle", "split"])),
        Ok(None)
    );
    assert_eq!(state.split_name(2), before);
}

#[test]
fn tests_window_toggle_split_is_noop_on_root_window() {
    let mut state = state_with_space();
    state.add_window(1).unwrap();
    state.set_focused_window(Some(1));

    // A lone (root) window has no parent split; the toggle is a silent no-op.
    assert_eq!(
        state.handle_tokens(&toks(&["window", "--toggle", "split"])),
        Ok(None)
    );
    assert_eq!(state.split_name(1), "none");
}

#[test]
fn tests_window_ratio_dispatches_and_errors_on_root() {
    let mut state = state_with_space();
    state.add_window(1).unwrap();
    state.add_window(2).unwrap();
    state.set_focused_window(Some(1));
    assert_eq!(
        state.handle_tokens(&toks(&["window", "--ratio", "abs:0.7"])),
        Ok(None)
    );

    // A lone window is a root node with no parent ratio to adjust.
    let mut single = state_with_space();
    single.add_window(1).unwrap();
    single.set_focused_window(Some(1));
    assert_eq!(
        single.handle_tokens(&toks(&["window", "--ratio", "rel:0.1"])),
        Err("cannot adjust ratio of a root node.".to_string())
    );
}

#[test]
fn tests_window_ratio_uses_focused_windows_own_space() {
    // Two windows live on space 2 while space 1 is active — `--ratio` must act on
    // the focused window's own view, not the active space (which lacks it).
    let mut state = state_with_space();
    state.add_space(2, area(0.0, 0.0, 1000.0, 1000.0));
    state.set_active_space(2);
    state.add_window(1).unwrap();
    state.add_window(2).unwrap();
    state.set_focused_window(Some(1));
    state.set_active_space(1);

    assert_eq!(
        state.handle_tokens(&toks(&["window", "--ratio", "abs:0.7"])),
        Ok(None)
    );
}

#[test]
fn tests_window_resize_managed_rejects_abs_and_adjusts_fence() {
    // Two windows split the space; resizing the left one's right fence moves
    // the divider. The window's *own* space is used, not the active one.
    let mut state = state_with_space();
    state.add_space(2, area(0.0, 0.0, 1000.0, 1000.0));
    state.set_active_space(2);
    state.add_window(1).unwrap();
    state.add_window(2).unwrap();
    state.set_focused_window(Some(1));
    state.set_active_space(1);

    let before = state.flush(2).unwrap()
        .iter()
        .find(|f| f.window_id == 1)
        .unwrap()
        .area
        .w;
    assert_eq!(
        state.handle_tokens(&toks(&["window", "--resize", "right:100:0"])),
        Ok(None)
    );
    let after = state.flush(2).unwrap()
        .iter()
        .find(|f| f.window_id == 1)
        .unwrap()
        .area
        .w;
    assert!(after > before, "moving the right fence widens window 1");

    assert_eq!(
        state.handle_tokens(&toks(&["window", "--resize", "abs:400:400"])),
        Err("cannot use absolute resizing on a managed window.\n".to_string())
    );
}

#[test]
fn tests_window_resize_managed_without_fence_reports_error() {
    // A lone window is a root node: no fence can move in any direction.
    let mut state = state_with_space();
    state.add_window(1).unwrap();
    state.set_focused_window(Some(1));
    assert_eq!(
        state.handle_tokens(&toks(&["window", "--resize", "right:100:0"])),
        Err("cannot locate a bsp node fence.\n".to_string())
    );
}

#[test]
fn tests_window_resize_unmanaged_is_a_pure_noop() {
    let mut state = state_with_space();
    state.set_focused_window(Some(99));
    assert_eq!(
        state.handle_tokens(&toks(&["window", "--resize", "abs:400:400"])),
        Ok(None)
    );
}

#[test]
fn tests_window_insert_sets_direction_and_reports_errors() {
    let mut state = state_with_space();
    state.add_window(1).unwrap();
    state.set_focused_window(Some(1));

    // A valid direction dispatches, and the next window lands east of window 1.
    assert_eq!(
        state.handle_tokens(&toks(&["window", "--insert", "east"])),
        Ok(None)
    );
    state.add_window(2).unwrap();
    let cap = state.flush(1).unwrap();
    let x1 = cap.iter().find(|f| f.window_id == 1).unwrap().area.x;
    let x2 = cap.iter().find(|f| f.window_id == 2).unwrap().area.x;
    assert!(x2 > x1, "new window should be east of the target");

    assert_eq!(
        state.handle_tokens(&toks(&["window", "--insert", "sideways"])),
        Err("unknown value 'sideways' given to command '--insert' for domain 'window'".to_string())
    );
}

#[test]
fn tests_window_focus_directional_and_relative_selectors_resolve() {
    let mut state = state_with_space();
    state.add_window(1).unwrap();
    state.add_window(2).unwrap();
    // Focus window 1, then focus east -> window 2 (the right half).
    state.set_focused_window(Some(1));
    state
        .handle_tokens(&toks(&["window", "--focus", "east"]))
        .unwrap();
    assert_eq!(state.focused_window_id(), Some(2));

    // prev from window 2 (tree order [1, 2]) -> window 1.
    state
        .handle_tokens(&toks(&["window", "--focus", "prev"]))
        .unwrap();
    assert_eq!(state.focused_window_id(), Some(1));
}

#[test]
fn tests_window_mouse_selector_resolves_window_under_cursor() {
    let mut state = state_with_space();
    state.add_window(1).unwrap();
    state.add_window(2).unwrap();
    state.set_focused_window(Some(2));

    // Two windows split the 1000x1000 space; window 1 is the left half.
    // A cursor in the left half resolves `mouse` to window 1.
    state.set_cursor_point(Point { x: 100.0, y: 500.0 });
    assert_eq!(
        state.handle_tokens(&toks(&["window", "--focus", "mouse"])),
        Ok(None)
    );
    assert_eq!(state.focused_window_id(), Some(1));

    // With no window under the cursor, `mouse` fails with a clear message.
    state.set_cursor_point(Point {
        x: 5000.0,
        y: 5000.0,
    });
    let err = state
        .handle_tokens(&toks(&["window", "--focus", "mouse"]))
        .unwrap_err();
    assert!(err.contains("under the cursor"));
}

#[test]
fn tests_space_rotate_and_layout() {
    let mut state = state_with_space();
    state.add_window(1).unwrap();
    state.add_window(2).unwrap();
    let before = state.root_ratio(1);
    state
        .handle_tokens(&toks(&["space", "--rotate", "180"]))
        .unwrap();
    let after = state.root_ratio(1);
    assert!((before + after - 1.0).abs() < 1e-6);

    state
        .handle_tokens(&toks(&["space", "--layout", "stack"]))
        .unwrap();
    assert_eq!(state.space(1).unwrap().layout, ViewType::Stack);
}

#[test]
fn tests_flush_returns_a_frame_per_window() {
    let mut state = state_with_space();
    state.add_window(1).unwrap();
    state.add_window(2).unwrap();
    let frames = state.flush_active().unwrap();
    assert_eq!(frames.len(), 2);
    assert_eq!(frames[0].window_id, 1);
    assert_eq!(frames[1].window_id, 2);
}

#[test]
fn tests_set_space_frame_insets_by_padding() {
    let mut state = Desk::new();
    state.config.top_padding = 20;
    state.config.bottom_padding = 20;
    state.config.left_padding = 10;
    state.config.right_padding = 10;
    state.add_space(1, area(0.0, 0.0, 1000.0, 1000.0));
    state.add_window(1).unwrap();
    state
        .set_space_frame(1, area(0.0, 0.0, 1000.0, 1000.0))
        .unwrap();
    let frame = state.flush(1).unwrap()[0].area;
    // Single window fills the padded area: 10,20 .. 980x960.
    assert_eq!(frame.x as i32, 10);
    assert_eq!(frame.y as i32, 20);
    assert_eq!(frame.w as i32, 980);
    assert_eq!(frame.h as i32, 960);
}

#[test]
fn numeric_space_selector_is_a_mission_control_index() {
    let mut state = state_with_space();
    assert_eq!(state.resolve_space(Some(&Selector::Index(1))), Ok(1));

    // With the live order pushed, index 2 resolves to the 2nd space's sid.
    state.set_mission_control_order(vec![1, 18]);
    assert_eq!(state.resolve_space(Some(&Selector::Index(1))), Ok(1));
    assert_eq!(state.resolve_space(Some(&Selector::Index(2))), Ok(18));
    assert!(state.resolve_space(Some(&Selector::Index(3))).is_err());
}

#[test]
fn window_origin_display_routes_new_windows() {
    // Two displays: space 1 on display 10 (active), space 2 on display 20.
    let mut state = Desk::new();
    state.add_display(10, area(0.0, 0.0, 1000.0, 1000.0));
    state.add_display(20, area(1000.0, 0.0, 1000.0, 1000.0));
    state.add_space_to_display(1, 10, area(0.0, 0.0, 1000.0, 1000.0));
    state.add_space_to_display(2, 20, area(1000.0, 0.0, 1000.0, 1000.0));
    state.set_display_active_space(10, 1);
    state.set_display_active_space(20, 2);
    state.set_active_space(1);
    let cursor = Some(Point {
        x: 1500.0,
        y: 500.0,
    });

    // default: keeps the window's physical space.
    assert_eq!(state.origin_space_for_new_window(2, cursor), 2);

    // focused: routes to the active space (1), regardless of physical space.
    state
        .handle_tokens(&toks(&["config", "window_origin_display", "focused"]))
        .unwrap();
    assert_eq!(state.origin_space_for_new_window(2, cursor), 1);

    // cursor: routes to the space under the cursor (2), even though active is 1.
    state
        .handle_tokens(&toks(&["config", "window_origin_display", "cursor"]))
        .unwrap();
    assert_eq!(state.origin_space_for_new_window(1, cursor), 2);
    // cursor off every display falls back to the physical space.
    assert_eq!(state.origin_space_for_new_window(1, None), 1);
}

#[test]
fn external_bar_reserves_space_and_scopes_to_mode() {
    // Two displays; space 1 on display 10, space 2 on display 20 (the main one).
    let mut state = Desk::new();
    state.add_display(10, area(0.0, 0.0, 1000.0, 1000.0));
    state.add_display(20, area(1000.0, 0.0, 1000.0, 1000.0));
    state.add_space_to_display(1, 10, area(0.0, 0.0, 1000.0, 1000.0));
    state.add_space_to_display(2, 20, area(1000.0, 0.0, 1000.0, 1000.0));
    state.set_main_display(20);
    state.add_window(1).unwrap();
    state.set_active_space(2);
    state.add_window(2).unwrap();
    state
        .set_space_frame(1, area(0.0, 0.0, 1000.0, 1000.0))
        .unwrap();
    state
        .set_space_frame(2, area(1000.0, 0.0, 1000.0, 1000.0))
        .unwrap();

    // `all`: both displays reserve 30 top / 10 bottom.
    state
        .handle_tokens(&toks(&["config", "external_bar", "all:30:10"]))
        .unwrap();
    let f1 = state.flush(1).unwrap()[0].area;
    assert_eq!((f1.y as i32, f1.h as i32), (30, 960));
    let f2 = state.flush(2).unwrap()[0].area;
    assert_eq!((f2.y as i32, f2.h as i32), (30, 960));

    // `main`: only display 20 (space 2) reserves; space 1 is full-height again.
    state
        .handle_tokens(&toks(&["config", "external_bar", "main:30:10"]))
        .unwrap();
    let f1 = state.flush(1).unwrap()[0].area;
    assert_eq!((f1.y as i32, f1.h as i32), (0, 1000));
    let f2 = state.flush(2).unwrap()[0].area;
    assert_eq!((f2.y as i32, f2.h as i32), (30, 960));

    // `off`: no reservation anywhere.
    state
        .handle_tokens(&toks(&["config", "external_bar", "off:0:0"]))
        .unwrap();
    let f2 = state.flush(2).unwrap()[0].area;
    assert_eq!((f2.y as i32, f2.h as i32), (0, 1000));
}

#[test]
fn tests_events_drive_state_end_to_end() {
    let mut state = Desk::new();
    state
        .handle_event(StateEvent::SpaceCreated {
            sid: 1,
            frame: area(0.0, 0.0, 1000.0, 1000.0),
        })
        .unwrap();
    state
        .handle_event(StateEvent::WindowCreated { window_id: 1 })
        .unwrap();
    state
        .handle_event(StateEvent::WindowCreated { window_id: 2 })
        .unwrap();
    // Two windows tiled; flush yields a frame for each.
    assert_eq!(state.flush_active().unwrap().len(), 2);

    state
        .handle_event(StateEvent::WindowFocused { window_id: 1 })
        .unwrap();
    assert_eq!(state.focused_window_id(), Some(1));

    state
        .handle_event(StateEvent::WindowDestroyed { window_id: 2 })
        .unwrap();
    assert_eq!(state.window_list(1), vec![1]);
}

#[test]
fn tests_window_assignment_targets_specific_space() {
    let mut state = state_with_displays();
    state.set_active_space(1);
    state
        .handle_event(StateEvent::WindowAssignedToSpace {
            window_id: 20,
            sid: 2,
        })
        .unwrap();

    assert!(state.window_list(1).is_empty());
    assert_eq!(state.window_list(2), vec![20]);
    assert_eq!(state.window_space_id(20), Some(2));
    assert!(state.flush_active().unwrap().is_empty());
}

#[test]
fn tests_window_assignment_moves_between_spaces_without_refocusing() {
    let mut state = state_with_displays();
    state.set_active_space(1);
    state
        .handle_event(StateEvent::WindowAssignedToSpace {
            window_id: 10,
            sid: 1,
        })
        .unwrap();
    state
        .handle_event(StateEvent::WindowAssignedToSpace {
            window_id: 20,
            sid: 1,
        })
        .unwrap();
    state.set_focused_window(Some(10));

    state
        .handle_event(StateEvent::WindowAssignedToSpace {
            window_id: 20,
            sid: 2,
        })
        .unwrap();

    assert_eq!(state.window_list(1), vec![10]);
    assert_eq!(state.window_list(2), vec![20]);
    assert_eq!(state.focused_window_id(), Some(10));
}

#[test]
fn tests_space_removed_drops_tree_and_active_space() {
    let mut state = state_with_displays();
    state.set_active_space(2);
    state.set_display_active_space(77, 2);
    state
        .handle_event(StateEvent::WindowAssignedToSpace {
            window_id: 20,
            sid: 2,
        })
        .unwrap();

    state
        .handle_event(StateEvent::SpaceRemoved { sid: 2 })
        .unwrap();

    assert!(state.space(2).is_none());
    assert_eq!(state.space_ids_for_display(77), Vec::<u64>::new());
    assert_eq!(state.active_space_id(), Some(1));
    assert_eq!(state.display_active_space_id(77), None);
    assert_eq!(state.focused_window_id(), None);
}

#[test]
fn tests_rediscovered_space_on_new_display_preserves_tree() {
    let mut state = state_with_displays();
    state.set_active_space(1);
    state
        .handle_event(StateEvent::WindowAssignedToSpace {
            window_id: 10,
            sid: 1,
        })
        .unwrap();
    state
        .handle_event(StateEvent::WindowAssignedToSpace {
            window_id: 20,
            sid: 1,
        })
        .unwrap();

    state.add_space_to_display(1, 77, area(1440.0, 0.0, 1280.0, 720.0));
    state
        .set_space_frame(1, area(1440.0, 0.0, 1280.0, 720.0))
        .unwrap();

    assert_eq!(state.space_ids_for_display(42), Vec::<u64>::new());
    assert_eq!(state.space_ids_for_display(77), vec![1, 2]);
    assert_eq!(state.window_list(1), vec![10, 20]);
    assert_eq!(state.flush(1).unwrap()[0].area.x as i32, 1440);
}

#[test]
fn tests_display_removed_clears_active_display_space() {
    let mut state = state_with_displays();
    state.set_display_active_space(77, 2);

    state.remove_display(77);

    assert_eq!(state.display_ids(), vec![42]);
    assert_eq!(state.display_active_space_id(77), None);
    assert_eq!(state.space_ids_for_display(77), Vec::<u64>::new());
}

#[test]
fn tests_flush_through_sink_records_moves() {
    let mut state = Desk::new();
    let mut sink = RecordingSink::new();
    state
        .handle_event_and_flush(
            StateEvent::SpaceCreated {
                sid: 1,
                frame: area(0.0, 0.0, 1000.0, 1000.0),
            },
            &mut sink,
        )
        .unwrap();
    state
        .handle_event_and_flush(StateEvent::WindowCreated { window_id: 1 }, &mut sink)
        .unwrap();
    let placed = state
        .handle_event_and_flush(StateEvent::WindowCreated { window_id: 2 }, &mut sink)
        .unwrap();
    // The last flush placed both windows.
    assert_eq!(placed, 2);
    // The recorded moves end with the two-window layout.
    let last_two = &sink.moves[sink.moves.len() - 2..];
    assert_eq!(last_two[0].window_id, 1);
    assert_eq!(last_two[1].window_id, 2);
    assert_ne!(rect(&last_two[0].area), rect(&last_two[1].area));
}

#[test]
fn tests_window_created_ignored_when_manage_off() {
    let mut state = state_with_space();
    state.config.manage = false;
    state
        .handle_event(StateEvent::WindowCreated { window_id: 1 })
        .unwrap();
    assert!(state.flush_active().unwrap().is_empty());
}

#[test]
fn tests_display_frame_change_reinsets_with_padding() {
    let mut state = Desk::new();
    state.config.left_padding = 10;
    state
        .handle_event(StateEvent::SpaceCreated {
            sid: 1,
            frame: area(0.0, 0.0, 1000.0, 1000.0),
        })
        .unwrap();
    state
        .handle_event(StateEvent::WindowCreated { window_id: 1 })
        .unwrap();
    state
        .handle_event(StateEvent::DisplayFrameChanged {
            sid: 1,
            frame: area(0.0, 0.0, 800.0, 600.0),
        })
        .unwrap();
    let frame = state.flush(1).unwrap()[0].area;
    assert_eq!(frame.x as i32, 10);
    assert_eq!(frame.w as i32, 790);
}

#[test]
fn tests_query_windows_serializes_c_style_json() {
    let mut state = state_with_space();
    state.add_window(1).unwrap();
    state.add_window(2).unwrap();
    state.set_focused_window(Some(2));

    assert_eq!(
            state.handle_tokens(&toks(&["query", "--windows", "id,frame,has-focus"])),
            Ok(Some(
                "[{\n\t\"id\":1,\n\t\"frame\":{\n\t\t\"x\":0.0000,\n\t\t\"y\":0.0000,\n\t\t\"w\":500.0000,\n\t\t\"h\":1000.0000\n\t},\n\t\"has-focus\":false\n},{\n\t\"id\":2,\n\t\"frame\":{\n\t\t\"x\":500.0000,\n\t\t\"y\":0.0000,\n\t\t\"w\":500.0000,\n\t\t\"h\":1000.0000\n\t},\n\t\"has-focus\":true\n}]\n".to_string()
            ))
        );
}

#[test]
fn tests_query_windows_serializes_space_display_and_tree_properties() {
    let mut state = state_with_displays();
    state.set_active_space(1);
    state.add_window(10).unwrap();
    state.add_window(20).unwrap();

    let out = state
        .handle_tokens(&toks(&[
            "query",
            "--windows",
            "id,space,display,is-visible,split-type,split-child,has-fullscreen-zoom",
            "--space",
            "1",
        ]))
        .unwrap()
        .unwrap();
    assert_eq!(
        out,
        "[{\n\t\"id\":10,\n\t\"space\":1,\n\t\"display\":1,\n\t\"is-visible\":true,\n\t\"split-type\":\"vertical\",\n\t\"split-child\":\"first_child\",\n\t\"has-fullscreen-zoom\":false\n},{\n\t\"id\":20,\n\t\"space\":1,\n\t\"display\":1,\n\t\"is-visible\":true,\n\t\"split-type\":\"vertical\",\n\t\"split-child\":\"second_child\",\n\t\"has-fullscreen-zoom\":false\n}]\n"
    );
}

#[test]
fn tests_query_windows_serializes_stack_index() {
    let mut state = state_with_space();
    state
        .handle_tokens(&toks(&["space", "--layout", "stack"]))
        .unwrap();
    state.add_window(10).unwrap();
    state.add_window(20).unwrap();
    state.add_window(30).unwrap();

    assert_eq!(
            state.handle_tokens(&toks(&["query", "--windows", "id,stack-index"])),
            Ok(Some(
                "[{\n\t\"id\":10,\n\t\"stack-index\":1\n},{\n\t\"id\":20,\n\t\"stack-index\":2\n},{\n\t\"id\":30,\n\t\"stack-index\":3\n}]\n"
                    .to_string()
            ))
        );
}

#[test]
fn query_windows_serializes_opacity_from_live_info() {
    let mut state = state_with_space();
    state.add_window(10).unwrap();
    state.add_window(20).unwrap();
    state.set_window_live_info(
        10,
        live(0.55, "", "", false, false),
    );
    assert_eq!(
        state.handle_tokens(&toks(&["query", "--windows", "id,opacity"])),
        Ok(Some(
            "[{\n\t\"id\":10,\n\t\"opacity\":0.5500\n},{\n\t\"id\":20,\n\t\"opacity\":0.0000\n}]\n"
                .to_string()
        ))
    );
}

#[test]
fn query_windows_serializes_role_subrole_and_can_flags() {
    let mut state = state_with_space();
    state.add_window(10).unwrap();
    state.set_window_live_info(
        10,
        live(0.0, "AXWindow", "AXStandardWindow", true, false),
    );
    assert_eq!(
        state.handle_tokens(&toks(&[
            "query",
            "--windows",
            "id,role,subrole,can-move,can-resize"
        ])),
        Ok(Some(
            "[{\n\t\"id\":10,\n\t\"role\":\"AXWindow\",\n\t\"subrole\":\"AXStandardWindow\",\n\t\"can-move\":true,\n\t\"can-resize\":false\n}]\n"
                .to_string()
        ))
    );
}

#[test]
fn query_windows_serializes_is_floating_and_is_sticky() {
    let mut state = state_with_space();
    state.add_window(10).unwrap();
    assert_eq!(
        state.handle_tokens(&toks(&["query", "--windows", "id,is-floating,is-sticky"])),
        Ok(Some(
            "[{\n\t\"id\":10,\n\t\"is-floating\":false,\n\t\"is-sticky\":false\n}]\n".to_string()
        ))
    );
}

#[test]
fn tests_query_windows_serializes_has_shadow() {
    let mut state = state_with_space();
    state.add_window(10).unwrap();
    state.add_window(20).unwrap();
    state.set_window_shadow(20, false);

    assert_eq!(
            state.handle_tokens(&toks(&["query", "--windows", "id,has-shadow"])),
            Ok(Some(
                "[{\n\t\"id\":10,\n\t\"has-shadow\":true\n},{\n\t\"id\":20,\n\t\"has-shadow\":false\n}]\n"
                    .to_string()
            ))
        );
}

#[test]
fn tests_query_windows_serializes_scratchpad_property() {
    let mut state = state_with_space();
    state.add_window(10).unwrap();

    assert_eq!(
        state.handle_tokens(&toks(&["query", "--windows", "id,scratchpad"])),
        Ok(Some(
            "[{\n\t\"id\":10,\n\t\"scratchpad\":\"\"\n}]\n".to_string()
        ))
    );
}

#[test]
fn tests_query_spaces_serializes_supported_properties() {
    let mut state = state_with_space();
    state.add_window(1).unwrap();
    state.add_window(2).unwrap();

    assert_eq!(
            state.handle_tokens(&toks(&[
                "query",
                "--spaces",
                "id,type,windows,first-window,last-window,has-focus,is-visible",
                "--space",
                "1",
            ])),
            Ok(Some(
                "{\n\t\"id\":1,\n\t\"type\":\"bsp\",\n\t\"windows\":[1, 2],\n\t\"first-window\":1,\n\t\"last-window\":2,\n\t\"has-focus\":true,\n\t\"is-visible\":true\n}\n".to_string()
            ))
        );
}

#[test]
fn tests_display_label_set_select_and_validation() {
    let mut state = state_with_displays();
    state.set_active_space(1);

    // Label display 2 (arrangement index 2, id 77) and resolve it back.
    assert_eq!(
        state.handle_tokens(&toks(&["display", "2", "--label", "side"])),
        Ok(None)
    );
    assert_eq!(
        state.handle_tokens(&toks(&[
            "query",
            "--displays",
            "id,label",
            "--display",
            "side"
        ])),
        Ok(Some(
            "{\n\t\"id\":77,\n\t\"label\":\"side\"\n}\n".to_string()
        ))
    );

    // Reserved direction keyword and numeric labels are rejected.
    assert_eq!(
        state.handle_tokens(&toks(&["display", "--label", "west"])),
        Err("'west' is a reserved keyword and cannot be used as a label.\n".to_string())
    );
    assert_eq!(
        state.handle_tokens(&toks(&["display", "--label", "3"])),
        Err("'3' cannot be used as a label.\n".to_string())
    );
}

#[test]
fn tests_recent_window_selector_resolves_previous_focus() {
    let mut state = state_with_space();
    state.add_window(1).unwrap();
    state.add_window(2).unwrap();
    state.set_focused_window(Some(1));
    state.set_focused_window(Some(2));

    // `recent` is the window focused before the current one (1).
    assert_eq!(
        state.handle_tokens(&toks(&["window", "--focus", "recent"])),
        Ok(None)
    );
    assert_eq!(state.focused_window_id(), Some(1));
}

#[test]
fn tests_mouse_selector_resolves_space_and_display_under_cursor() {
    let mut state = state_with_displays();
    state.set_display_active_space(42, 1);
    state.set_display_active_space(77, 2);
    // Cursor over the second display (frame x:1440..2720).
    state.set_cursor_point(Point {
        x: 1500.0,
        y: 100.0,
    });

    assert_eq!(
        state.handle_tokens(&toks(&["query", "--displays", "id", "--display", "mouse"])),
        Ok(Some("{\n\t\"id\":77\n}\n".to_string()))
    );
    assert_eq!(
        state.handle_tokens(&toks(&["query", "--spaces", "id", "--space", "mouse"])),
        Ok(Some("{\n\t\"id\":2\n}\n".to_string()))
    );
}

#[test]
fn tests_recent_space_selector_resolves_previous_active() {
    let mut state = state_with_displays();
    state.set_active_space(1);
    state.set_active_space(2);

    assert_eq!(
        state.handle_tokens(&toks(&["query", "--spaces", "id", "--space", "recent"])),
        Ok(Some("{\n\t\"id\":1\n}\n".to_string()))
    );
}

#[test]
fn tests_space_label_set_select_and_validation() {
    let mut state = state_with_displays();
    state.set_active_space(1);

    // Label the active space, then a labeled space query / selector resolves.
    assert_eq!(
        state.handle_tokens(&toks(&["space", "--label", "web"])),
        Ok(None)
    );
    assert_eq!(
        state.handle_tokens(&toks(&["query", "--spaces", "id,label", "--space", "web"])),
        Ok(Some("{\n\t\"id\":1,\n\t\"label\":\"web\"\n}\n".to_string()))
    );

    // Labels are unique: moving "web" to space 2 clears it from space 1.
    assert_eq!(
        state.handle_tokens(&toks(&["space", "2", "--label", "web"])),
        Ok(None)
    );
    assert_eq!(
        state.handle_tokens(&toks(&["query", "--spaces", "id,label", "--space", "1"])),
        Ok(Some("{\n\t\"id\":1,\n\t\"label\":\"\"\n}\n".to_string()))
    );
    assert_eq!(
        state.handle_tokens(&toks(&["query", "--spaces", "id", "--space", "web"])),
        Ok(Some("{\n\t\"id\":2\n}\n".to_string()))
    );

    // An empty label clears it.
    assert_eq!(
        state.handle_tokens(&toks(&["space", "2", "--label", ""])),
        Ok(None)
    );
    assert!(
        state
            .handle_tokens(&toks(&["query", "--spaces", "id", "--space", "web"]))
            .is_err()
    );

    assert_eq!(
        state.handle_tokens(&toks(&["space", "--label", "7"])),
        Err("'7' cannot be used as a label.\n".to_string())
    );
    assert_eq!(
        state.handle_tokens(&toks(&["space", "--label", "next"])),
        Err("'next' is a reserved keyword and cannot be used as a label.\n".to_string())
    );
}

#[test]
fn tests_query_spaces_serializes_display_property() {
    let mut state = state_with_displays();
    state.set_active_space(2);

    // Space 1 is on display 42 (arrangement index 1); space 2 on display 77
    // (index 2). Only space 2 is the active/visible one.
    assert_eq!(
        state.handle_tokens(&toks(&[
            "query",
            "--spaces",
            "id,display,is-visible",
            "--space",
            "1",
        ])),
        Ok(Some(
            "{\n\t\"id\":1,\n\t\"display\":1,\n\t\"is-visible\":false\n}\n".to_string()
        ))
    );
    assert_eq!(
        state.handle_tokens(&toks(&[
            "query",
            "--spaces",
            "id,display,is-visible",
            "--space",
            "2",
        ])),
        Ok(Some(
            "{\n\t\"id\":2,\n\t\"display\":2,\n\t\"is-visible\":true\n}\n".to_string()
        ))
    );
}

#[test]
fn tests_query_displays_serializes_registered_displays() {
    let mut state = state_with_displays();
    state.set_active_space(2);

    assert_eq!(
            state.handle_tokens(&toks(&[
                "query",
                "--displays",
                "id,index,frame,spaces,has-focus",
            ])),
            Ok(Some(
                "[{\n\t\"id\":42,\n\t\"index\":1,\n\t\"frame\":{\n\t\t\"x\":0.0000,\n\t\t\"y\":0.0000,\n\t\t\"w\":1440.0000,\n\t\t\"h\":900.0000\n\t},\n\t\"spaces\":[1],\n\t\"has-focus\":false\n},{\n\t\"id\":77,\n\t\"index\":2,\n\t\"frame\":{\n\t\t\"x\":1440.0000,\n\t\t\"y\":0.0000,\n\t\t\"w\":1280.0000,\n\t\t\"h\":720.0000\n\t},\n\t\"spaces\":[2],\n\t\"has-focus\":true\n}]\n".to_string()
            ))
        );
}

#[test]
fn tests_query_display_scope_filters_spaces_and_windows() {
    let mut state = state_with_displays();
    state.set_active_space(1);
    state.add_window(10).unwrap();
    state.set_active_space(2);
    state.add_window(20).unwrap();

    assert_eq!(
        state.handle_tokens(&toks(&["query", "--spaces", "id", "--display", "2"])),
        Ok(Some("[{\n\t\"id\":2\n}]\n".to_string()))
    );
    assert_eq!(
        state.handle_tokens(&toks(&["query", "--windows", "id", "--display", "1"])),
        Ok(Some("[{\n\t\"id\":10\n}]\n".to_string()))
    );
    assert_eq!(
        state.handle_tokens(&toks(&["query", "--displays", "id", "--space", "1"])),
        Ok(Some("{\n\t\"id\":42\n}\n".to_string()))
    );
}

#[test]
fn tests_query_unsupported_property_reports() {
    let mut state = state_with_space();
    assert_eq!(
        state.handle_tokens(&toks(&["query", "--windows", "level"])),
        Err("'level' is not available from pure window state".to_string())
    );
}

#[test]
fn tests_query_windows_serializes_metadata() {
    let mut state = state_with_space();
    state.add_window(1).unwrap();
    state.add_window(2).unwrap();
    state.set_window_meta(
        1,
        WindowMeta {
            app: "Finder".to_string(),
            title: "Downloads \"x\"".to_string(),
            pid: 527,
        },
    );
    assert_eq!(
            state.handle_tokens(&toks(&["query", "--windows", "id,pid,app,title"])),
            Ok(Some(
                "[{\n\t\"id\":1,\n\t\"pid\":527,\n\t\"app\":\"Finder\",\n\t\"title\":\"Downloads \\\"x\\\"\"\n},{\n\t\"id\":2,\n\t\"pid\":0,\n\t\"app\":\"\",\n\t\"title\":\"\"\n}]\n"
                    .to_string()
            ))
        );
}

#[test]
fn tests_unhandled_domain_reports() {
    let mut state = Desk::new();
    assert!(
        state
            .handle_tokens(&toks(&["display", "--focus", "1"]))
            .is_err()
    );
}

#[test]
fn tests_rules_add_match_list_remove() {
    let mut state = Desk::new();
    state
        .handle_tokens(&toks(&[
            "rule",
            "--add",
            "app=^Finder$",
            "manage=off",
            "label=fin",
        ]))
        .unwrap();
    // Matching window gets manage=off; a non-match gets no effects.
    assert_eq!(
        state.rule_effects_for_window("Finder", "", "", "").manage,
        Some(false)
    );
    assert_eq!(
        state.rule_effects_for_window("Safari", "", "", "").manage,
        None
    );

    // An exclusion filter inverts the match.
    state
        .handle_tokens(&toks(&["rule", "--add", "app!=^Finder$", "manage=on"]))
        .unwrap();
    assert_eq!(
        state.rule_effects_for_window("Safari", "", "", "").manage,
        Some(true)
    );

    // `--list` serializes both rules; spot-check the first.
    let list = state
        .handle_tokens(&toks(&["rule", "--list"]))
        .unwrap()
        .unwrap();
    assert!(list.contains("\"app\":\"^Finder$\""));
    assert!(list.contains("\"manage\":false"));
    assert!(list.contains("\"label\":\"fin\""));

    // Remove by label, then a bad index/label errors.
    state
        .handle_tokens(&toks(&["rule", "--remove", "fin"]))
        .unwrap();
    assert_eq!(
        state.rule_effects_for_window("Finder", "", "", "").manage,
        None
    );
    assert!(
        state
            .handle_tokens(&toks(&["rule", "--remove", "ghost"]))
            .unwrap_err()
            .contains("rule with label 'ghost' not found")
    );
}

#[test]
fn tests_rule_add_rejects_bad_regex() {
    let mut state = Desk::new();
    let err = state
        .handle_tokens(&toks(&["rule", "--add", "app=("]))
        .unwrap_err();
    assert!(err.contains("invalid regex pattern '(' for key 'app'"));
}

#[test]
fn tests_rule_apply_enacts_manage_for_known_windows() {
    let mut state = state_with_space();
    state.add_window(1).unwrap();
    state.add_window(2).unwrap();
    state.set_window_meta(
        1,
        WindowMeta {
            app: "Finder".to_string(),
            title: "One".to_string(),
            pid: 10,
        },
    );
    state.set_window_meta(
        2,
        WindowMeta {
            app: "Safari".to_string(),
            title: "Two".to_string(),
            pid: 20,
        },
    );

    state
        .handle_tokens(&toks(&[
            "rule",
            "--add",
            "app=^Finder$",
            "manage=off",
            "label=fin",
        ]))
        .unwrap();
    state
        .handle_tokens(&toks(&["rule", "--apply", "fin"]))
        .unwrap();
    assert!(state.is_floating(1));
    assert_eq!(state.window_list(1), vec![2]);

    state
        .handle_tokens(&toks(&["rule", "--apply", "app=^Finder$", "manage=on"]))
        .unwrap();
    assert!(!state.is_floating(1));
    let mut list = state.window_list(1);
    list.sort_unstable();
    assert_eq!(list, vec![1, 2]);
}

#[test]
fn tests_rule_apply_enacts_scratchpad_for_known_windows() {
    let mut state = state_with_space();
    state.add_window(1).unwrap();
    state.add_window(2).unwrap();
    state.set_window_meta(
        1,
        WindowMeta {
            app: "Finder".to_string(),
            title: "One".to_string(),
            pid: 10,
        },
    );
    state.set_window_meta(
        2,
        WindowMeta {
            app: "Safari".to_string(),
            title: "Two".to_string(),
            pid: 20,
        },
    );

    state
        .handle_tokens(&toks(&[
            "rule",
            "--add",
            "app=^Finder$",
            "scratchpad=notes",
        ]))
        .unwrap();
    state.handle_tokens(&toks(&["rule", "--apply"])).unwrap();

    assert_eq!(state.window_scratchpad(1), Some("notes"));
    assert_eq!(state.scratchpad_window("notes"), Some(1));
    assert!(state.is_floating(1));
    assert_eq!(state.window_list(1), vec![2]);
    assert_eq!(state.window_scratchpad(2), None);
}

#[test]
fn tests_rule_apply_collects_daemon_boundary_effects() {
    let mut state = state_with_space();
    state.add_window(1).unwrap();
    state.add_window(2).unwrap();
    state.set_window_meta(
        1,
        WindowMeta {
            app: "Finder".to_string(),
            title: "One".to_string(),
            pid: 10,
        },
    );
    state.set_window_meta(
        2,
        WindowMeta {
            app: "Safari".to_string(),
            title: "Two".to_string(),
            pid: 20,
        },
    );

    state
        .handle_tokens(&toks(&[
            "rule",
            "--add",
            "app=^Finder$",
            "sticky=on",
            "opacity=0.5",
            "sub-layer=above",
            "grid=2:2:0:1:1:1",
            "display=2",
            "space=2",
        ]))
        .unwrap();

    let applications = state
        .apply_rule_and_collect_effects(&RuleApply::All)
        .unwrap();
    assert_eq!(applications.len(), 1);
    assert_eq!(applications[0].window_id, 1);
    assert_eq!(applications[0].sid, 1);
    assert_eq!(applications[0].effects.sticky, Some(true));
    assert_eq!(applications[0].effects.opacity.as_ref().map(value), Some(0.5));
    assert_eq!(applications[0].effects.layer, Some(Layer::Above));
    assert_eq!(applications[0].effects.grid, Some([2, 2, 0, 1, 1, 1]));
    assert_eq!(applications[0].effects.display.as_deref(), Some("2"));
    assert_eq!(applications[0].effects.space.as_deref(), Some("2"));
}

#[test]
fn tests_rule_apply_prefers_label_before_adhoc_rule() {
    let mut state = state_with_space();
    state.add_window(1).unwrap();
    state.set_window_meta(
        1,
        WindowMeta {
            app: "Finder".to_string(),
            title: "One".to_string(),
            pid: 10,
        },
    );
    state
        .handle_tokens(&toks(&[
            "rule",
            "--add",
            "app=^Finder$",
            "manage=off",
            "label=app=^Finder$",
        ]))
        .unwrap();

    state
        .handle_tokens(&toks(&["rule", "--apply", "app=^Finder$"]))
        .unwrap();
    assert!(state.is_floating(1));
}

#[test]
fn tests_one_shot_rule_is_removed_after_new_window_match() {
    let mut state = state_with_space();
    state
        .handle_tokens(&toks(&[
            "rule",
            "--add",
            "--one-shot",
            "app=^Finder$",
            "manage=off",
        ]))
        .unwrap();

    state.add_window(1).unwrap();
    state.apply_new_window_rules(1, "Finder", "", "", "", 1);
    assert!(state.is_floating(1));
    assert_eq!(
        state.handle_tokens(&toks(&["rule", "--list"])).unwrap(),
        Some("[]\n".to_string())
    );

    state.add_window(2).unwrap();
    state.apply_new_window_rules(2, "Finder", "", "", "", 1);
    assert!(!state.is_floating(2));
    assert_eq!(state.window_list(1), vec![2]);
}

#[test]
fn tests_signals_add_list_remove_and_fire() {
    let mut state = Desk::new();
    // Add two signals on different events plus one sharing a label to replace.
    state
        .handle_tokens(&toks(&[
            "signal",
            "--add",
            "event=window_focused",
            "action=echo focus",
            "label=a",
        ]))
        .unwrap();
    state
        .handle_tokens(&toks(&[
            "signal",
            "--add",
            "event=application_launched",
            "action=echo launch",
        ]))
        .unwrap();
    // Re-adding label `a` replaces the first signal's action.
    state
        .handle_tokens(&toks(&[
            "signal",
            "--add",
            "event=window_focused",
            "action=echo refocus",
            "label=a",
        ]))
        .unwrap();

    // Firing resolves by event in registration order.
    assert_eq!(
        state.signal_actions_for(SignalEvent::WindowFocused),
        vec!["echo refocus".to_string()]
    );
    assert_eq!(
        state.signal_actions_for(SignalEvent::ApplicationLaunched),
        vec!["echo launch".to_string()]
    );
    assert!(
        state
            .signal_actions_for(SignalEvent::SpaceChanged)
            .is_empty()
    );

    // `--list` is event-grouped (application_* before window_*) and indexed.
    let list = state
        .handle_tokens(&toks(&["signal", "--list"]))
        .unwrap()
        .unwrap();
    assert_eq!(
        list,
        "[{\n\t\"index\":0,\n\t\"label\":\"\",\n\t\"app\":\"\",\n\t\"title\":\"\",\n\t\"active\":null,\n\t\"event\":\"application_launched\",\n\t\"action\":\"echo launch\"\n},{\n\t\"index\":1,\n\t\"label\":\"a\",\n\t\"app\":\"\",\n\t\"title\":\"\",\n\t\"active\":null,\n\t\"event\":\"window_focused\",\n\t\"action\":\"echo refocus\"\n}]\n"
    );

    // Remove by label, then the remaining one by index 0.
    state
        .handle_tokens(&toks(&["signal", "--remove", "a"]))
        .unwrap();
    assert!(
        state
            .signal_actions_for(SignalEvent::WindowFocused)
            .is_empty()
    );
    state
        .handle_tokens(&toks(&["signal", "--remove", "0"]))
        .unwrap();
    assert!(
        state
            .signal_actions_for(SignalEvent::ApplicationLaunched)
            .is_empty()
    );

    assert!(
        state
            .handle_tokens(&toks(&["signal", "--remove", "ghost"]))
            .unwrap_err()
            .contains("signal with label 'ghost' not found")
    );
    assert!(
        state
            .handle_tokens(&toks(&["signal", "--remove", "9"]))
            .unwrap_err()
            .contains("signal with index '9' not found")
    );
}

#[test]
fn tests_signal_filters_match_c_event_categories() {
    let mut state = Desk::new();
    state
        .handle_tokens(&toks(&[
            "signal",
            "--add",
            "event=window_focused",
            "app=^Finder$",
            "title!=Scratch",
            "action=echo focus",
        ]))
        .unwrap();
    state
        .handle_tokens(&toks(&[
            "signal",
            "--add",
            "event=application_launched",
            "app=^Finder$",
            "action=echo app",
        ]))
        .unwrap();
    state
        .handle_tokens(&toks(&[
            "signal",
            "--add",
            "event=window_minimized",
            "app=^Finder$",
            "title=Downloads",
            "active=yes",
            "action=echo min",
        ]))
        .unwrap();
    state
        .handle_tokens(&toks(&[
            "signal",
            "--add",
            "event=window_deminimized",
            "app=^Finder$",
            "title=Downloads",
            "active=yes",
            "action=echo demin",
        ]))
        .unwrap();
    state
        .handle_tokens(&toks(&[
            "signal",
            "--add",
            "event=window_title_changed",
            "app=^Finder$",
            "title=Renamed",
            "active=no",
            "action=echo title",
        ]))
        .unwrap();

    assert_eq!(
        state.signal_actions_for_context(
            SignalEvent::WindowFocused,
            Some("Finder"),
            Some("Downloads"),
            None,
        ),
        vec!["echo focus".to_string()]
    );
    assert!(
        state
            .signal_actions_for_context(
                SignalEvent::WindowFocused,
                Some("Finder"),
                Some("Scratch"),
                None,
            )
            .is_empty()
    );
    assert_eq!(
        state.signal_actions_for_context(
            SignalEvent::ApplicationLaunched,
            Some("Finder"),
            None,
            None,
        ),
        vec!["echo app".to_string()]
    );
    assert_eq!(
        state.signal_actions_for_context(
            SignalEvent::WindowMinimized,
            Some("Finder"),
            Some("Downloads"),
            Some(true),
        ),
        vec!["echo min".to_string()]
    );
    assert!(
        state
            .signal_actions_for_context(
                SignalEvent::WindowMinimized,
                Some("Finder"),
                Some("Downloads"),
                Some(false),
            )
            .is_empty()
    );
    assert_eq!(
        state.signal_actions_for_context(
            SignalEvent::WindowDeminimized,
            Some("Finder"),
            Some("Downloads"),
            Some(false),
        ),
        vec!["echo demin".to_string()]
    );
    assert_eq!(
        state.signal_actions_for_context(
            SignalEvent::WindowTitleChanged,
            Some("Finder"),
            Some("Renamed"),
            Some(false),
        ),
        vec!["echo title".to_string()]
    );
    assert!(
        state
            .signal_actions_for_context(
                SignalEvent::WindowTitleChanged,
                Some("Finder"),
                Some("Renamed"),
                Some(true),
            )
            .is_empty()
    );
    assert!(
        state
            .signal_actions_for_context(
                SignalEvent::ApplicationLaunched,
                Some("Safari"),
                None,
                None,
            )
            .is_empty()
    );
}

#[test]
fn tests_signal_add_rejects_invalid_regex() {
    let mut state = Desk::new();
    let error = state
        .handle_tokens(&toks(&[
            "signal",
            "--add",
            "event=window_focused",
            "app=(",
            "action=echo nope",
        ]))
        .unwrap_err();
    assert!(error.contains("invalid regex pattern '(' for key 'app'"));
}

#[test]
fn tests_cross_space_mouse_drop() {
    let mut state = Desk::new();
    for (did, sid, x) in [(1u32, 101u64, 0.0), (2u32, 102u64, 1000.0)] {
        state.add_display(did, area(x, 0.0, 1000.0, 1000.0));
        state.add_space_to_display(sid, did, area(x, 0.0, 1000.0, 1000.0));
        state.set_display_active_space(did, sid);
    }
    state.set_active_space(101);
    state.assign_window_to_space(10, 101).unwrap();
    state.set_focused_window(Some(10));
    state.assign_window_to_space(20, 102).unwrap();

    // Stack-drop window 10 onto display 2 (space 102), over window 20. A
    // non-swap drop only relocates the dragged window; window 20 stays put.
    let point = Point {
        x: 1500.0,
        y: 500.0,
    };
    let result = state.drop_tiled_window_at_point(10, point, MouseDropAction::Stack);

    assert_eq!(
        result,
        DropResult::CrossSpace {
            dragged_id: 10,
            dragged_new_sid: 102,
            swapped_id: None,
            swapped_new_sid: None,
        }
    );
    assert_eq!(state.window_space_id(10), Some(102));
    assert_eq!(state.window_space_id(20), Some(102));
    assert!(state.flush(101).unwrap().is_empty());
    assert_eq!(state.flush(102).unwrap().len(), 2);
}

#[test]
fn tests_cross_space_mouse_drop_swap_returns_target() {
    let mut state = Desk::new();
    for (did, sid, x) in [(1u32, 101u64, 0.0), (2u32, 102u64, 1000.0)] {
        state.add_display(did, area(x, 0.0, 1000.0, 1000.0));
        state.add_space_to_display(sid, did, area(x, 0.0, 1000.0, 1000.0));
        state.set_display_active_space(did, sid);
    }
    state.set_active_space(101);
    state.assign_window_to_space(10, 101).unwrap();
    state.set_focused_window(Some(10));
    state.assign_window_to_space(20, 102).unwrap();

    // A cross-space swap onto window 20 sends 20 back to the dragged window's
    // old space (101) while 10 lands on 102.
    let point = Point {
        x: 1500.0,
        y: 500.0,
    };
    let result = state.drop_tiled_window_at_point(10, point, MouseDropAction::Swap);

    assert_eq!(
        result,
        DropResult::CrossSpace {
            dragged_id: 10,
            dragged_new_sid: 102,
            swapped_id: Some(20),
            swapped_new_sid: Some(101),
        }
    );
    assert_eq!(state.window_space_id(10), Some(102));
    assert_eq!(state.window_space_id(20), Some(101));
    assert_eq!(state.flush(101).unwrap().len(), 1);
    assert_eq!(state.flush(102).unwrap().len(), 1);
}
