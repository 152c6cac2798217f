//! The vocabulary of commands and settings.
use vstd::prelude::*;

verus! {

/// A single-precision number as the layout engine hands it over: its bit
/// pattern, and its value written with four decimals.
#[derive(Debug)]
pub struct Real {
    pub bits: u32,
    pub text: String,
}

impl Real {
    pub fn copy(&self) -> (r: Self)
        ensures
            r == *self,
    {
        Real { bits: self.bits, text: self.text.clone() }
    }
}

/// A rectangle of the layout engine.
#[derive(Debug)]
pub struct Area {
    pub x: Real,
    pub y: Real,
    pub w: Real,
    pub h: Real,
}

impl Area {
    pub fn copy(&self) -> (r: Self)
        ensures
            r == *self,
    {
        Area { x: self.x.copy(), y: self.y.copy(), w: self.w.copy(), h: self.h.copy() }
    }
}

/// How a space arranges its windows.
#[derive(Debug, Clone, Copy, PartialEq, Eq, Structural)]
pub enum ViewType {
    Bsp,
    Stack,
    Float,
}

/// The axis along which a node is split.
#[derive(Debug, Clone, Copy, PartialEq, Eq, Structural)]
pub enum NodeSplit {
    Unsplit,
    Vertical,
    Horizontal,
    Auto,
}

/// Which child of a split receives a window.
#[derive(Debug, Clone, Copy, PartialEq, Eq, Structural)]
pub enum Child {
    Neither,
    First,
    Second,
}

/// Which node a new window splits.
#[derive(Debug, Clone, Copy, PartialEq, Eq, Structural)]
pub enum InsertionPolicy {
    Focused,
    First,
    Last,
}

/// Whether focus follows the cursor.
#[derive(Debug, Clone, Copy, PartialEq, Eq, Structural)]
pub enum FfmMode {
    Disabled,
    Autofocus,
    Autoraise,
}

/// The key that arms a mouse action.
#[derive(Debug, Clone, Copy, PartialEq, Eq, Structural)]
pub enum MouseModifier {
    Alt,
    Shift,
    Cmd,
    Ctrl,
    Fn,
}

/// What dragging with a mouse button does.
#[derive(Debug, Clone, Copy, PartialEq, Eq, Structural)]
pub enum MouseAction {
    Move,
    Resize,
}

/// What dropping a window on the centre of another does.
#[derive(Debug, Clone, Copy, PartialEq, Eq, Structural)]
pub enum MouseDropAction {
    Swap,
    Stack,
}

/// How displays are numbered.
#[derive(Debug, Clone, Copy, PartialEq, Eq, Structural)]
pub enum DisplayArrangementOrder {
    Default,
    Horizontal,
    Vertical,
}

/// On which display a new window opens.
#[derive(Debug, Clone, Copy, PartialEq, Eq, Structural)]
pub enum WindowOriginMode {
    Default,
    Focused,
    Cursor,
}

/// On which displays room is kept for a status bar.
#[derive(Debug, Clone, Copy, PartialEq, Eq, Structural)]
pub enum ExternalBarMode {
    Off,
    Main,
    All,
}

/// Room kept free for a status bar.
#[derive(Debug, Clone, Copy, PartialEq, Eq, Structural)]
pub struct ExternalBar {
    pub mode: ExternalBarMode,
    pub top: i32,
    pub bottom: i32,
}

/// The stacking layer of a window.
#[derive(Debug, Clone, Copy, PartialEq, Eq, Structural)]
pub enum Layer {
    Below,
    Normal,
    Above,
    Auto,
}

/// Whether a value replaces the old one or is added to it.
#[derive(Debug, Clone, Copy, PartialEq, Eq, Structural)]
pub enum ValueType {
    Abs,
    Rel,
}

/// How a window is zoomed.
#[derive(Debug, Clone, Copy, PartialEq, Eq, Structural)]
pub enum ZoomKind {
    Parent,
    Fullscreen,
}

/// A cardinal direction.
#[derive(Debug, Clone, Copy, PartialEq, Eq, Structural)]
pub enum Direction {
    North,
    East,
    South,
    West,
}

/// How a command names a window, a space, a display, a rule or a signal.
#[derive(Debug)]
pub enum Selector {
    Index(u32),
    Label(String),
    First,
    Last,
    Next,
    Prev,
    Recent,
    Mouse,
    Direction(Direction),
}

/// The settings that the layout engine reads.
#[derive(Debug)]
pub struct LayoutConfig {
    pub split_type: NodeSplit,
    pub split_ratio: Real,
    pub window_placement: Child,
    pub auto_balance: NodeSplit,
    pub insertion_policy: InsertionPolicy,
    pub gap: i32,
}

/// The name of a view type.
pub open spec fn view_type_text(layout: ViewType) -> Seq<char> {
    match layout {
        ViewType::Bsp => "bsp"@,
        ViewType::Stack => "stack"@,
        ViewType::Float => "float"@,
    }
}

pub fn view_type_str(layout: ViewType) -> (r: &'static str)
    ensures
        r@ == view_type_text(layout),
{
    match layout {
        ViewType::Bsp => "bsp",
        ViewType::Stack => "stack",
        ViewType::Float => "float",
    }
}

/// The name of a split axis.
pub open spec fn split_type_text(split: NodeSplit) -> Seq<char> {
    match split {
        NodeSplit::Vertical => "vertical"@,
        NodeSplit::Horizontal => "horizontal"@,
        NodeSplit::Auto => "auto"@,
        NodeSplit::Unsplit => "none"@,
    }
}

pub fn split_type_str(split: NodeSplit) -> (r: &'static str)
    ensures
        r@ == split_type_text(split),
{
    match split {
        NodeSplit::Vertical => "vertical",
        NodeSplit::Horizontal => "horizontal",
        NodeSplit::Auto => "auto",
        NodeSplit::Unsplit => "none",
    }
}

/// The name of a layer.
pub open spec fn layer_text(layer: Layer) -> Seq<char> {
    match layer {
        Layer::Below => "below"@,
        Layer::Normal => "normal"@,
        Layer::Above => "above"@,
        Layer::Auto => "auto"@,
    }
}

pub fn layer_str(layer: Layer) -> (r: &'static str)
    ensures
        r@ == layer_text(layer),
{
    match layer {
        Layer::Below => "below",
        Layer::Normal => "normal",
        Layer::Above => "above",
        Layer::Auto => "auto",
    }
}

} // verus!
