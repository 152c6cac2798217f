//! The daemon's settings: reading one by its name, changing one, and the
//! names under which settings and their values are known.
use vstd::prelude::*;

use crate::text;
use crate::types;
use crate::types::{
    Child, DisplayArrangementOrder, ExternalBar, ExternalBarMode, FfmMode, InsertionPolicy,
    LayoutConfig, MouseAction, MouseDropAction, MouseModifier, NodeSplit, Real, ViewType,
    WindowOriginMode,
};

verus! {

/// All settings.
#[derive(Debug)]
pub struct Config {
    pub debug_output: bool,
    pub mouse_follows_focus: bool,
    pub window_sublayer_auto: bool,
    pub manage: bool,
    pub window_zoom_persist: bool,
    pub window_shadow: bool,
    /// Whether opacity follows focus.
    pub enable_window_opacity: bool,
    pub focus_follows_mouse: FfmMode,
    pub mouse_modifier: MouseModifier,
    pub mouse_action1: MouseAction,
    pub mouse_action2: MouseAction,
    pub mouse_drop_action: MouseDropAction,
    pub layout: ViewType,
    pub split_type: NodeSplit,
    pub auto_balance: NodeSplit,
    pub window_placement: Child,
    pub window_insertion_point: InsertionPolicy,
    pub split_ratio: Real,
    pub window_opacity_duration: Real,
    pub window_animation_duration: Real,
    pub active_window_opacity: Real,
    pub normal_window_opacity: Real,
    pub menubar_opacity: Real,
    pub top_padding: i32,
    pub bottom_padding: i32,
    pub left_padding: i32,
    pub right_padding: i32,
    pub window_gap: i32,
    pub display_arrangement_order: DisplayArrangementOrder,
    pub window_origin_display: WindowOriginMode,
    /// Position in the list of easing curves.
    pub window_animation_easing: u8,
    /// Alpha, red, green and blue, one byte each.
    pub insert_feedback_color: u32,
    pub external_bar: ExternalBar,
    pub skip_window_focus_animation: bool,
}

/// A setting, by what it governs.
#[derive(Debug, Clone, Copy, PartialEq, Eq, Structural)]
pub enum Setting {
    DebugOutput,
    MouseFollowsFocus,
    WindowSublayerAuto,
    Manage,
    WindowZoomPersist,
    WindowShadow,
    WindowOpacity,
    FocusFollowsMouse,
    MouseModifier,
    MouseAction1,
    MouseAction2,
    MouseDropAction,
    Layout,
    SplitType,
    AutoBalance,
    WindowPlacement,
    WindowInsertionPoint,
    SplitRatio,
    WindowOpacityDuration,
    WindowAnimationDuration,
    ActiveWindowOpacity,
    NormalWindowOpacity,
    MenubarOpacity,
    TopPadding,
    BottomPadding,
    LeftPadding,
    RightPadding,
    WindowGap,
    DisplayArrangementOrder,
    WindowOriginDisplay,
    WindowAnimationEasing,
    InsertFeedbackColor,
    ExternalBar,
    SkipWindowFocusAnimation,
}

/// A value that a setting can be given.
#[derive(Debug)]
pub enum ConfigValue {
    Bool(bool),
    Ffm(FfmMode),
    MouseMod(MouseModifier),
    MouseAction(MouseAction),
    MouseDrop(MouseDropAction),
    Layout(ViewType),
    SplitType(NodeSplit),
    AutoBalance(NodeSplit),
    Placement(Child),
    InsertionPoint(InsertionPolicy),
    Float(Real),
    Int(i32),
    ArrangementOrder(DisplayArrangementOrder),
    WindowOrigin(WindowOriginMode),
    AnimationEasing(u8),
    Color(u32),
    ExternalBar(ExternalBar),
}

/// A request to read or to change a setting.
#[derive(Debug)]
pub enum ConfigOp {
    Get(String),
    Put(String, ConfigValue),
}

/// How many easing curves there are.
pub const EASING_COUNT: u8 = 21;

/// The setting with a given name.
pub open spec fn setting_of(key: Seq<char>) -> Option<Setting> {
    if key == "debug_output"@ {
        Some(Setting::DebugOutput)
    } else if key == "mouse_follows_focus"@ {
        Some(Setting::MouseFollowsFocus)
    } else if key == "window_sublayer_auto"@ {
        Some(Setting::WindowSublayerAuto)
    } else if key == "manage"@ {
        Some(Setting::Manage)
    } else if key == "window_zoom_persist"@ {
        Some(Setting::WindowZoomPersist)
    } else if key == "window_shadow"@ {
        Some(Setting::WindowShadow)
    } else if key == "window_opacity"@ {
        Some(Setting::WindowOpacity)
    } else if key == "focus_follows_mouse"@ {
        Some(Setting::FocusFollowsMouse)
    } else if key == "mouse_modifier"@ {
        Some(Setting::MouseModifier)
    } else if key == "mouse_action1"@ {
        Some(Setting::MouseAction1)
    } else if key == "mouse_action2"@ {
        Some(Setting::MouseAction2)
    } else if key == "mouse_drop_action"@ {
        Some(Setting::MouseDropAction)
    } else if key == "layout"@ {
        Some(Setting::Layout)
    } else if key == "split_type"@ {
        Some(Setting::SplitType)
    } else if key == "auto_balance"@ {
        Some(Setting::AutoBalance)
    } else if key == "window_placement"@ {
        Some(Setting::WindowPlacement)
    } else if key == "window_insertion_point"@ {
        Some(Setting::WindowInsertionPoint)
    } else if key == "split_ratio"@ {
        Some(Setting::SplitRatio)
    } else if key == "window_opacity_duration"@ {
        Some(Setting::WindowOpacityDuration)
    } else if key == "window_animation_duration"@ {
        Some(Setting::WindowAnimationDuration)
    } else if key == "active_window_opacity"@ {
        Some(Setting::ActiveWindowOpacity)
    } else if key == "normal_window_opacity"@ {
        Some(Setting::NormalWindowOpacity)
    } else if key == "menubar_opacity"@ {
        Some(Setting::MenubarOpacity)
    } else if key == "top_padding"@ {
        Some(Setting::TopPadding)
    } else if key == "bottom_padding"@ {
        Some(Setting::BottomPadding)
    } else if key == "left_padding"@ {
        Some(Setting::LeftPadding)
    } else if key == "right_padding"@ {
        Some(Setting::RightPadding)
    } else if key == "window_gap"@ {
        Some(Setting::WindowGap)
    } else if key == "display_arrangement_order"@ {
        Some(Setting::DisplayArrangementOrder)
    } else if key == "window_origin_display"@ {
        Some(Setting::WindowOriginDisplay)
    } else if key == "window_animation_easing"@ {
        Some(Setting::WindowAnimationEasing)
    } else if key == "insert_feedback_color"@ {
        Some(Setting::InsertFeedbackColor)
    } else if key == "external_bar"@ {
        Some(Setting::ExternalBar)
    } else if key == "skip_window_focus_animation"@ {
        Some(Setting::SkipWindowFocusAnimation)
    } else {
        None
    }
}

/// The setting with a given name.
pub fn setting_named(key: &str) -> (r: Option<Setting>)
    ensures
        r == setting_of(key@),
{
    if text::same(key, "debug_output") {
        Some(Setting::DebugOutput)
    } else if text::same(key, "mouse_follows_focus") {
        Some(Setting::MouseFollowsFocus)
    } else if text::same(key, "window_sublayer_auto") {
        Some(Setting::WindowSublayerAuto)
    } else if text::same(key, "manage") {
        Some(Setting::Manage)
    } else if text::same(key, "window_zoom_persist") {
        Some(Setting::WindowZoomPersist)
    } else if text::same(key, "window_shadow") {
        Some(Setting::WindowShadow)
    } else if text::same(key, "window_opacity") {
        Some(Setting::WindowOpacity)
    } else if text::same(key, "focus_follows_mouse") {
        Some(Setting::FocusFollowsMouse)
    } else if text::same(key, "mouse_modifier") {
        Some(Setting::MouseModifier)
    } else if text::same(key, "mouse_action1") {
        Some(Setting::MouseAction1)
    } else if text::same(key, "mouse_action2") {
        Some(Setting::MouseAction2)
    } else if text::same(key, "mouse_drop_action") {
        Some(Setting::MouseDropAction)
    } else if text::same(key, "layout") {
        Some(Setting::Layout)
    } else if text::same(key, "split_type") {
        Some(Setting::SplitType)
    } else if text::same(key, "auto_balance") {
        Some(Setting::AutoBalance)
    } else if text::same(key, "window_placement") {
        Some(Setting::WindowPlacement)
    } else if text::same(key, "window_insertion_point") {
        Some(Setting::WindowInsertionPoint)
    } else if text::same(key, "split_ratio") {
        Some(Setting::SplitRatio)
    } else if text::same(key, "window_opacity_duration") {
        Some(Setting::WindowOpacityDuration)
    } else if text::same(key, "window_animation_duration") {
        Some(Setting::WindowAnimationDuration)
    } else if text::same(key, "active_window_opacity") {
        Some(Setting::ActiveWindowOpacity)
    } else if text::same(key, "normal_window_opacity") {
        Some(Setting::NormalWindowOpacity)
    } else if text::same(key, "menubar_opacity") {
        Some(Setting::MenubarOpacity)
    } else if text::same(key, "top_padding") {
        Some(Setting::TopPadding)
    } else if text::same(key, "bottom_padding") {
        Some(Setting::BottomPadding)
    } else if text::same(key, "left_padding") {
        Some(Setting::LeftPadding)
    } else if text::same(key, "right_padding") {
        Some(Setting::RightPadding)
    } else if text::same(key, "window_gap") {
        Some(Setting::WindowGap)
    } else if text::same(key, "display_arrangement_order") {
        Some(Setting::DisplayArrangementOrder)
    } else if text::same(key, "window_origin_display") {
        Some(Setting::WindowOriginDisplay)
    } else if text::same(key, "window_animation_easing") {
        Some(Setting::WindowAnimationEasing)
    } else if text::same(key, "insert_feedback_color") {
        Some(Setting::InsertFeedbackColor)
    } else if text::same(key, "external_bar") {
        Some(Setting::ExternalBar)
    } else if text::same(key, "skip_window_focus_animation") {
        Some(Setting::SkipWindowFocusAnimation)
    } else {
        None
    }
}

/// The name of a switch position.
pub open spec fn bool_text(value: bool) -> Seq<char> {
    match value {
        true => "on"@,
        false => "off"@,
    }
}

pub fn bool_str(value: bool) -> (r: &'static str)
    ensures
        r@ == bool_text(value),
{
    match value {
        true => "on",
        false => "off",
    }
}

/// The name of a focus mode.
pub open spec fn ffm_text(mode: FfmMode) -> Seq<char> {
    match mode {
        FfmMode::Disabled => "off"@,
        FfmMode::Autofocus => "autofocus"@,
        FfmMode::Autoraise => "autoraise"@,
    }
}

pub fn ffm_str(mode: FfmMode) -> (r: &'static str)
    ensures
        r@ == ffm_text(mode),
{
    match mode {
        FfmMode::Disabled => "off",
        FfmMode::Autofocus => "autofocus",
        FfmMode::Autoraise => "autoraise",
    }
}

/// The name of a modifier key.
pub open spec fn mouse_mod_text(modifier: MouseModifier) -> Seq<char> {
    match modifier {
        MouseModifier::Alt => "alt"@,
        MouseModifier::Shift => "shift"@,
        MouseModifier::Cmd => "cmd"@,
        MouseModifier::Ctrl => "ctrl"@,
        MouseModifier::Fn => "fn"@,
    }
}

pub fn mouse_mod_str(modifier: MouseModifier) -> (r: &'static str)
    ensures
        r@ == mouse_mod_text(modifier),
{
    match modifier {
        MouseModifier::Alt => "alt",
        MouseModifier::Shift => "shift",
        MouseModifier::Cmd => "cmd",
        MouseModifier::Ctrl => "ctrl",
        MouseModifier::Fn => "fn",
    }
}

/// The name of a mouse action.
pub open spec fn mouse_action_text(action: MouseAction) -> Seq<char> {
    match action {
        MouseAction::Move => "move"@,
        MouseAction::Resize => "resize"@,
    }
}

pub fn mouse_action_str(action: MouseAction) -> (r: &'static str)
    ensures
        r@ == mouse_action_text(action),
{
    match action {
        MouseAction::Move => "move",
        MouseAction::Resize => "resize",
    }
}

/// The name of a drop action.
pub open spec fn mouse_drop_text(action: MouseDropAction) -> Seq<char> {
    match action {
        MouseDropAction::Swap => "swap"@,
        MouseDropAction::Stack => "stack"@,
    }
}

pub fn mouse_drop_str(action: MouseDropAction) -> (r: &'static str)
    ensures
        r@ == mouse_drop_text(action),
{
    match action {
        MouseDropAction::Swap => "swap",
        MouseDropAction::Stack => "stack",
    }
}

/// The name of a display order.
pub open spec fn arrangement_order_text(order: DisplayArrangementOrder) -> Seq<char> {
    match order {
        DisplayArrangementOrder::Default => "default"@,
        DisplayArrangementOrder::Horizontal => "horizontal"@,
        DisplayArrangementOrder::Vertical => "vertical"@,
    }
}

pub fn arrangement_order_str(order: DisplayArrangementOrder) -> (r: &'static str)
    ensures
        r@ == arrangement_order_text(order),
{
    match order {
        DisplayArrangementOrder::Default => "default",
        DisplayArrangementOrder::Horizontal => "horizontal",
        DisplayArrangementOrder::Vertical => "vertical",
    }
}

/// The name of a window origin.
pub open spec fn window_origin_text(mode: WindowOriginMode) -> Seq<char> {
    match mode {
        WindowOriginMode::Default => "default"@,
        WindowOriginMode::Focused => "focused"@,
        WindowOriginMode::Cursor => "cursor"@,
    }
}

pub fn window_origin_str(mode: WindowOriginMode) -> (r: &'static str)
    ensures
        r@ == window_origin_text(mode),
{
    match mode {
        WindowOriginMode::Default => "default",
        WindowOriginMode::Focused => "focused",
        WindowOriginMode::Cursor => "cursor",
    }
}

/// The name of a bar mode.
pub open spec fn external_bar_mode_text(mode: ExternalBarMode) -> Seq<char> {
    match mode {
        ExternalBarMode::Off => "off"@,
        ExternalBarMode::Main => "main"@,
        ExternalBarMode::All => "all"@,
    }
}

pub fn external_bar_mode_str(mode: ExternalBarMode) -> (r: &'static str)
    ensures
        r@ == external_bar_mode_text(mode),
{
    match mode {
        ExternalBarMode::Off => "off",
        ExternalBarMode::Main => "main",
        ExternalBarMode::All => "all",
    }
}

/// The name of a balancing axis.
pub open spec fn auto_balance_text(split: NodeSplit) -> Seq<char> {
    match split {
        NodeSplit::Unsplit => "off"@,
        NodeSplit::Vertical => "vertical"@,
        NodeSplit::Horizontal => "horizontal"@,
        NodeSplit::Auto => "on"@,
    }
}

pub fn auto_balance_str(split: NodeSplit) -> (r: &'static str)
    ensures
        r@ == auto_balance_text(split),
{
    match split {
        NodeSplit::Unsplit => "off",
        NodeSplit::Vertical => "vertical",
        NodeSplit::Horizontal => "horizontal",
        NodeSplit::Auto => "on",
    }
}

/// The name of a child.
pub open spec fn placement_text(child: Child) -> Seq<char> {
    match child {
        Child::First => "first_child"@,
        Child::Second => "second_child"@,
        Child::Neither => "none"@,
    }
}

pub fn placement_str(child: Child) -> (r: &'static str)
    ensures
        r@ == placement_text(child),
{
    match child {
        Child::First => "first_child",
        Child::Second => "second_child",
        Child::Neither => "none",
    }
}

/// The name of an insertion policy.
pub open spec fn insertion_text(point: InsertionPolicy) -> Seq<char> {
    match point {
        InsertionPolicy::Focused => "focused"@,
        InsertionPolicy::First => "first"@,
        InsertionPolicy::Last => "last"@,
    }
}

pub fn insertion_str(point: InsertionPolicy) -> (r: &'static str)
    ensures
        r@ == insertion_text(point),
{
    match point {
        InsertionPolicy::Focused => "focused",
        InsertionPolicy::First => "first",
        InsertionPolicy::Last => "last",
    }
}

/// The name of an easing curve.
pub open spec fn easing_text(index: u8) -> Seq<char> {
    if index == 0 {
        "ease_in_sine"@
    } else if index == 1 {
        "ease_out_sine"@
    } else if index == 2 {
        "ease_in_out_sine"@
    } else if index == 3 {
        "ease_in_quad"@
    } else if index == 4 {
        "ease_out_quad"@
    } else if index == 5 {
        "ease_in_out_quad"@
    } else if index == 6 {
        "ease_in_cubic"@
    } else if index == 7 {
        "ease_out_cubic"@
    } else if index == 8 {
        "ease_in_out_cubic"@
    } else if index == 9 {
        "ease_in_quart"@
    } else if index == 10 {
        "ease_out_quart"@
    } else if index == 11 {
        "ease_in_out_quart"@
    } else if index == 12 {
        "ease_in_quint"@
    } else if index == 13 {
        "ease_out_quint"@
    } else if index == 14 {
        "ease_in_out_quint"@
    } else if index == 15 {
        "ease_in_expo"@
    } else if index == 16 {
        "ease_out_expo"@
    } else if index == 17 {
        "ease_in_out_expo"@
    } else if index == 18 {
        "ease_in_circ"@
    } else if index == 19 {
        "ease_out_circ"@
    } else {
        "ease_in_out_circ"@
    }
}

pub fn easing_str(index: u8) -> (r: &'static str)
    requires
        index < EASING_COUNT,
    ensures
        r@ == easing_text(index),
{
    if index == 0 {
        "ease_in_sine"
    } else if index == 1 {
        "ease_out_sine"
    } else if index == 2 {
        "ease_in_out_sine"
    } else if index == 3 {
        "ease_in_quad"
    } else if index == 4 {
        "ease_out_quad"
    } else if index == 5 {
        "ease_in_out_quad"
    } else if index == 6 {
        "ease_in_cubic"
    } else if index == 7 {
        "ease_out_cubic"
    } else if index == 8 {
        "ease_in_out_cubic"
    } else if index == 9 {
        "ease_in_quart"
    } else if index == 10 {
        "ease_out_quart"
    } else if index == 11 {
        "ease_in_out_quart"
    } else if index == 12 {
        "ease_in_quint"
    } else if index == 13 {
        "ease_out_quint"
    } else if index == 14 {
        "ease_in_out_quint"
    } else if index == 15 {
        "ease_in_expo"
    } else if index == 16 {
        "ease_out_expo"
    } else if index == 17 {
        "ease_in_out_expo"
    } else if index == 18 {
        "ease_in_circ"
    } else if index == 19 {
        "ease_out_circ"
    } else {
        "ease_in_out_circ"
    }
}

/// A colour in hexadecimal.
pub open spec fn color_text(color: u32) -> Seq<char> {
    "0x"@ + text::hex(color as nat)
}

/// A bar: its mode, its room at the top and at the bottom.
pub open spec fn external_bar_text(bar: ExternalBar) -> Seq<char> {
    external_bar_mode_text(bar.mode) + ":"@ + text::signed_decimal(bar.top as int) + ":"@
        + text::signed_decimal(bar.bottom as int)
}

/// A value as it is printed.
pub open spec fn rendered(value: ConfigValue) -> Seq<char> {
    match value {
        ConfigValue::Bool(b) => bool_text(b),
        ConfigValue::Ffm(b) => ffm_text(b),
        ConfigValue::MouseMod(b) => mouse_mod_text(b),
        ConfigValue::MouseAction(b) => mouse_action_text(b),
        ConfigValue::MouseDrop(b) => mouse_drop_text(b),
        ConfigValue::Layout(b) => types::view_type_text(b),
        ConfigValue::SplitType(b) => types::split_type_text(b),
        ConfigValue::AutoBalance(b) => auto_balance_text(b),
        ConfigValue::Placement(b) => placement_text(b),
        ConfigValue::InsertionPoint(b) => insertion_text(b),
        ConfigValue::Float(b) => b.text@,
        ConfigValue::Int(b) => text::signed_decimal(b as int),
        ConfigValue::ArrangementOrder(b) => arrangement_order_text(b),
        ConfigValue::WindowOrigin(b) => window_origin_text(b),
        ConfigValue::AnimationEasing(b) => easing_text(b),
        ConfigValue::Color(b) => color_text(b),
        ConfigValue::ExternalBar(b) => external_bar_text(b),
    }
}

/// Whether a setting takes values of this kind.
pub open spec fn takes(setting: Setting, value: ConfigValue) -> bool {
    match value {
        ConfigValue::Bool(_) => setting == Setting::DebugOutput || setting == Setting::MouseFollowsFocus || setting == Setting::WindowSublayerAuto || setting == Setting::Manage || setting == Setting::WindowZoomPersist || setting == Setting::WindowShadow || setting == Setting::WindowOpacity || setting == Setting::SkipWindowFocusAnimation,
        ConfigValue::Ffm(_) => setting == Setting::FocusFollowsMouse,
        ConfigValue::MouseMod(_) => setting == Setting::MouseModifier,
        ConfigValue::MouseAction(_) => setting == Setting::MouseAction1 || setting == Setting::MouseAction2,
        ConfigValue::MouseDrop(_) => setting == Setting::MouseDropAction,
        ConfigValue::Layout(_) => setting == Setting::Layout,
        ConfigValue::SplitType(_) => setting == Setting::SplitType,
        ConfigValue::AutoBalance(_) => setting == Setting::AutoBalance,
        ConfigValue::Placement(_) => setting == Setting::WindowPlacement,
        ConfigValue::InsertionPoint(_) => setting == Setting::WindowInsertionPoint,
        ConfigValue::Float(_) => setting == Setting::SplitRatio || setting == Setting::WindowOpacityDuration || setting == Setting::WindowAnimationDuration || setting == Setting::ActiveWindowOpacity || setting == Setting::NormalWindowOpacity || setting == Setting::MenubarOpacity,
        ConfigValue::Int(_) => setting == Setting::TopPadding || setting == Setting::BottomPadding || setting == Setting::LeftPadding || setting == Setting::RightPadding || setting == Setting::WindowGap,
        ConfigValue::ArrangementOrder(_) => setting == Setting::DisplayArrangementOrder,
        ConfigValue::WindowOrigin(_) => setting == Setting::WindowOriginDisplay,
        ConfigValue::AnimationEasing(_) => setting == Setting::WindowAnimationEasing,
        ConfigValue::Color(_) => setting == Setting::InsertFeedbackColor,
        ConfigValue::ExternalBar(_) => setting == Setting::ExternalBar,
    }
}

/// Whether a setting takes values of this kind.
fn takes_value(setting: Setting, value: &ConfigValue) -> (r: bool)
    ensures
        r == takes(setting, *value),
{
    match value {
        ConfigValue::Bool(_) => setting == Setting::DebugOutput || setting == Setting::MouseFollowsFocus || setting == Setting::WindowSublayerAuto || setting == Setting::Manage || setting == Setting::WindowZoomPersist || setting == Setting::WindowShadow || setting == Setting::WindowOpacity || setting == Setting::SkipWindowFocusAnimation,
        ConfigValue::Ffm(_) => setting == Setting::FocusFollowsMouse,
        ConfigValue::MouseMod(_) => setting == Setting::MouseModifier,
        ConfigValue::MouseAction(_) => setting == Setting::MouseAction1 || setting == Setting::MouseAction2,
        ConfigValue::MouseDrop(_) => setting == Setting::MouseDropAction,
        ConfigValue::Layout(_) => setting == Setting::Layout,
        ConfigValue::SplitType(_) => setting == Setting::SplitType,
        ConfigValue::AutoBalance(_) => setting == Setting::AutoBalance,
        ConfigValue::Placement(_) => setting == Setting::WindowPlacement,
        ConfigValue::InsertionPoint(_) => setting == Setting::WindowInsertionPoint,
        ConfigValue::Float(_) => setting == Setting::SplitRatio || setting == Setting::WindowOpacityDuration || setting == Setting::WindowAnimationDuration || setting == Setting::ActiveWindowOpacity || setting == Setting::NormalWindowOpacity || setting == Setting::MenubarOpacity,
        ConfigValue::Int(_) => setting == Setting::TopPadding || setting == Setting::BottomPadding || setting == Setting::LeftPadding || setting == Setting::RightPadding || setting == Setting::WindowGap,
        ConfigValue::ArrangementOrder(_) => setting == Setting::DisplayArrangementOrder,
        ConfigValue::WindowOrigin(_) => setting == Setting::WindowOriginDisplay,
        ConfigValue::AnimationEasing(_) => setting == Setting::WindowAnimationEasing,
        ConfigValue::Color(_) => setting == Setting::InsertFeedbackColor,
        ConfigValue::ExternalBar(_) => setting == Setting::ExternalBar,
    }
}

impl Config {
    /// The easing curve is one of the list.
    pub open spec fn wf(&self) -> bool {
        self.window_animation_easing < EASING_COUNT
    }

    /// The current value of a setting.
    pub open spec fn value_of(self, setting: Setting) -> ConfigValue {
        match setting {
            Setting::DebugOutput => ConfigValue::Bool(self.debug_output),
            Setting::MouseFollowsFocus => ConfigValue::Bool(self.mouse_follows_focus),
            Setting::WindowSublayerAuto => ConfigValue::Bool(self.window_sublayer_auto),
            Setting::Manage => ConfigValue::Bool(self.manage),
            Setting::WindowZoomPersist => ConfigValue::Bool(self.window_zoom_persist),
            Setting::WindowShadow => ConfigValue::Bool(self.window_shadow),
            Setting::WindowOpacity => ConfigValue::Bool(self.enable_window_opacity),
            Setting::FocusFollowsMouse => ConfigValue::Ffm(self.focus_follows_mouse),
            Setting::MouseModifier => ConfigValue::MouseMod(self.mouse_modifier),
            Setting::MouseAction1 => ConfigValue::MouseAction(self.mouse_action1),
            Setting::MouseAction2 => ConfigValue::MouseAction(self.mouse_action2),
            Setting::MouseDropAction => ConfigValue::MouseDrop(self.mouse_drop_action),
            Setting::Layout => ConfigValue::Layout(self.layout),
            Setting::SplitType => ConfigValue::SplitType(self.split_type),
            Setting::AutoBalance => ConfigValue::AutoBalance(self.auto_balance),
            Setting::WindowPlacement => ConfigValue::Placement(self.window_placement),
            Setting::WindowInsertionPoint => ConfigValue::InsertionPoint(self.window_insertion_point),
            Setting::SplitRatio => ConfigValue::Float(self.split_ratio),
            Setting::WindowOpacityDuration => ConfigValue::Float(self.window_opacity_duration),
            Setting::WindowAnimationDuration => ConfigValue::Float(self.window_animation_duration),
            Setting::ActiveWindowOpacity => ConfigValue::Float(self.active_window_opacity),
            Setting::NormalWindowOpacity => ConfigValue::Float(self.normal_window_opacity),
            Setting::MenubarOpacity => ConfigValue::Float(self.menubar_opacity),
            Setting::TopPadding => ConfigValue::Int(self.top_padding),
            Setting::BottomPadding => ConfigValue::Int(self.bottom_padding),
            Setting::LeftPadding => ConfigValue::Int(self.left_padding),
            Setting::RightPadding => ConfigValue::Int(self.right_padding),
            Setting::WindowGap => ConfigValue::Int(self.window_gap),
            Setting::DisplayArrangementOrder => ConfigValue::ArrangementOrder(self.display_arrangement_order),
            Setting::WindowOriginDisplay => ConfigValue::WindowOrigin(self.window_origin_display),
            Setting::WindowAnimationEasing => ConfigValue::AnimationEasing(self.window_animation_easing),
            Setting::InsertFeedbackColor => ConfigValue::Color(self.insert_feedback_color),
            Setting::ExternalBar => ConfigValue::ExternalBar(self.external_bar),
            Setting::SkipWindowFocusAnimation => ConfigValue::Bool(self.skip_window_focus_animation),
        }
    }

    /// These settings with one of them changed.
    #[verifier::opaque]
    pub open spec fn with(self, setting: Setting, value: ConfigValue) -> Config {
        Config {
            debug_output: match value {
                ConfigValue::Bool(b) if setting == Setting::DebugOutput => b,
                _ => self.debug_output,
            },
            mouse_follows_focus: match value {
                ConfigValue::Bool(b) if setting == Setting::MouseFollowsFocus => b,
                _ => self.mouse_follows_focus,
            },
            window_sublayer_auto: match value {
                ConfigValue::Bool(b) if setting == Setting::WindowSublayerAuto => b,
                _ => self.window_sublayer_auto,
            },
            manage: match value {
                ConfigValue::Bool(b) if setting == Setting::Manage => b,
                _ => self.manage,
            },
            window_zoom_persist: match value {
                ConfigValue::Bool(b) if setting == Setting::WindowZoomPersist => b,
                _ => self.window_zoom_persist,
            },
            window_shadow: match value {
                ConfigValue::Bool(b) if setting == Setting::WindowShadow => b,
                _ => self.window_shadow,
            },
            enable_window_opacity: match value {
                ConfigValue::Bool(b) if setting == Setting::WindowOpacity => b,
                _ => self.enable_window_opacity,
            },
            focus_follows_mouse: match value {
                ConfigValue::Ffm(b) if setting == Setting::FocusFollowsMouse => b,
                _ => self.focus_follows_mouse,
            },
            mouse_modifier: match value {
                ConfigValue::MouseMod(b) if setting == Setting::MouseModifier => b,
                _ => self.mouse_modifier,
            },
            mouse_action1: match value {
                ConfigValue::MouseAction(b) if setting == Setting::MouseAction1 => b,
                _ => self.mouse_action1,
            },
            mouse_action2: match value {
                ConfigValue::MouseAction(b) if setting == Setting::MouseAction2 => b,
                _ => self.mouse_action2,
            },
            mouse_drop_action: match value {
                ConfigValue::MouseDrop(b) if setting == Setting::MouseDropAction => b,
                _ => self.mouse_drop_action,
            },
            layout: match value {
                ConfigValue::Layout(b) if setting == Setting::Layout => b,
                _ => self.layout,
            },
            split_type: match value {
                ConfigValue::SplitType(b) if setting == Setting::SplitType => b,
                _ => self.split_type,
            },
            auto_balance: match value {
                ConfigValue::AutoBalance(b) if setting == Setting::AutoBalance => b,
                _ => self.auto_balance,
            },
            window_placement: match value {
                ConfigValue::Placement(b) if setting == Setting::WindowPlacement => b,
                _ => self.window_placement,
            },
            window_insertion_point: match value {
                ConfigValue::InsertionPoint(b) if setting == Setting::WindowInsertionPoint => b,
                _ => self.window_insertion_point,
            },
            split_ratio: match value {
                ConfigValue::Float(b) if setting == Setting::SplitRatio => b,
                _ => self.split_ratio,
            },
            window_opacity_duration: match value {
                ConfigValue::Float(b) if setting == Setting::WindowOpacityDuration => b,
                _ => self.window_opacity_duration,
            },
            window_animation_duration: match value {
                ConfigValue::Float(b) if setting == Setting::WindowAnimationDuration => b,
                _ => self.window_animation_duration,
            },
            active_window_opacity: match value {
                ConfigValue::Float(b) if setting == Setting::ActiveWindowOpacity => b,
                _ => self.active_window_opacity,
            },
            normal_window_opacity: match value {
                ConfigValue::Float(b) if setting == Setting::NormalWindowOpacity => b,
                _ => self.normal_window_opacity,
            },
            menubar_opacity: match value {
                ConfigValue::Float(b) if setting == Setting::MenubarOpacity => b,
                _ => self.menubar_opacity,
            },
            top_padding: match value {
                ConfigValue::Int(b) if setting == Setting::TopPadding => b,
                _ => self.top_padding,
            },
            bottom_padding: match value {
                ConfigValue::Int(b) if setting == Setting::BottomPadding => b,
                _ => self.bottom_padding,
            },
            left_padding: match value {
                ConfigValue::Int(b) if setting == Setting::LeftPadding => b,
                _ => self.left_padding,
            },
            right_padding: match value {
                ConfigValue::Int(b) if setting == Setting::RightPadding => b,
                _ => self.right_padding,
            },
            window_gap: match value {
                ConfigValue::Int(b) if setting == Setting::WindowGap => b,
                _ => self.window_gap,
            },
            display_arrangement_order: match value {
                ConfigValue::ArrangementOrder(b) if setting == Setting::DisplayArrangementOrder => b,
                _ => self.display_arrangement_order,
            },
            window_origin_display: match value {
                ConfigValue::WindowOrigin(b) if setting == Setting::WindowOriginDisplay => b,
                _ => self.window_origin_display,
            },
            window_animation_easing: match value {
                ConfigValue::AnimationEasing(b) if setting == Setting::WindowAnimationEasing => b,
                _ => self.window_animation_easing,
            },
            insert_feedback_color: match value {
                ConfigValue::Color(b) if setting == Setting::InsertFeedbackColor => b,
                _ => self.insert_feedback_color,
            },
            external_bar: match value {
                ConfigValue::ExternalBar(b) if setting == Setting::ExternalBar => b,
                _ => self.external_bar,
            },
            skip_window_focus_animation: match value {
                ConfigValue::Bool(b) if setting == Setting::SkipWindowFocusAnimation => b,
                _ => self.skip_window_focus_animation,
            },
        }
    }

    /// The settings that the layout engine reads.
    pub open spec fn layout_settings(self) -> LayoutConfig {
        LayoutConfig {
            split_type: self.split_type,
            split_ratio: self.split_ratio,
            window_placement: self.window_placement,
            auto_balance: self.auto_balance,
            insertion_policy: self.window_insertion_point,
            gap: self.window_gap,
        }
    }

    /// The settings that the layout engine reads.
    pub fn layout_config(&self) -> (r: LayoutConfig)
        ensures
            r == self.layout_settings(),
    {
        LayoutConfig {
            split_type: self.split_type,
            split_ratio: self.split_ratio.copy(),
            window_placement: self.window_placement,
            auto_balance: self.auto_balance,
            insertion_policy: self.window_insertion_point,
            gap: self.window_gap,
        }
    }

    /// The printed value of the setting named `key`; an error for an unknown
    /// name.
    pub fn get(&self, key: &str) -> (r: Result<String, String>)
        requires
            self.wf(),
        ensures
            match setting_of(key@) {
                Some(setting) => r is Ok && r->Ok_0@ == rendered(self.value_of(setting)),
                None => r is Err && r->Err_0@ == "unsupported config key '"@ + key@ + "'"@,
            },
    {
        let setting = match setting_named(key) {
            Some(setting) => setting,
            None => {
                return Err(unsupported(key));
            },
        };
        let mut out = String::new();
        match setting {
            Setting::DebugOutput => out.append(bool_str(self.debug_output)),
            Setting::MouseFollowsFocus => out.append(bool_str(self.mouse_follows_focus)),
            Setting::WindowSublayerAuto => out.append(bool_str(self.window_sublayer_auto)),
            Setting::Manage => out.append(bool_str(self.manage)),
            Setting::WindowZoomPersist => out.append(bool_str(self.window_zoom_persist)),
            Setting::WindowShadow => out.append(bool_str(self.window_shadow)),
            Setting::WindowOpacity => out.append(bool_str(self.enable_window_opacity)),
            Setting::FocusFollowsMouse => out.append(ffm_str(self.focus_follows_mouse)),
            Setting::MouseModifier => out.append(mouse_mod_str(self.mouse_modifier)),
            Setting::MouseAction1 => out.append(mouse_action_str(self.mouse_action1)),
            Setting::MouseAction2 => out.append(mouse_action_str(self.mouse_action2)),
            Setting::MouseDropAction => out.append(mouse_drop_str(self.mouse_drop_action)),
            Setting::Layout => out.append(types::view_type_str(self.layout)),
            Setting::SplitType => out.append(types::split_type_str(self.split_type)),
            Setting::AutoBalance => out.append(auto_balance_str(self.auto_balance)),
            Setting::WindowPlacement => out.append(placement_str(self.window_placement)),
            Setting::WindowInsertionPoint => out.append(insertion_str(self.window_insertion_point)),
            Setting::SplitRatio => out.append(self.split_ratio.text.as_str()),
            Setting::WindowOpacityDuration => out.append(self.window_opacity_duration.text.as_str()),
            Setting::WindowAnimationDuration => out.append(self.window_animation_duration.text.as_str()),
            Setting::ActiveWindowOpacity => out.append(self.active_window_opacity.text.as_str()),
            Setting::NormalWindowOpacity => out.append(self.normal_window_opacity.text.as_str()),
            Setting::MenubarOpacity => out.append(self.menubar_opacity.text.as_str()),
            Setting::TopPadding => text::push_signed(&mut out, self.top_padding),
            Setting::BottomPadding => text::push_signed(&mut out, self.bottom_padding),
            Setting::LeftPadding => text::push_signed(&mut out, self.left_padding),
            Setting::RightPadding => text::push_signed(&mut out, self.right_padding),
            Setting::WindowGap => text::push_signed(&mut out, self.window_gap),
            Setting::DisplayArrangementOrder => out.append(arrangement_order_str(self.display_arrangement_order)),
            Setting::WindowOriginDisplay => out.append(window_origin_str(self.window_origin_display)),
            Setting::WindowAnimationEasing => out.append(easing_str(self.window_animation_easing)),
            Setting::InsertFeedbackColor => push_color(&mut out, self.insert_feedback_color),
            Setting::ExternalBar => push_external_bar(&mut out, self.external_bar),
            Setting::SkipWindowFocusAnimation => out.append(bool_str(self.skip_window_focus_animation)),
        }
        assert(out@ =~= rendered(self.value_of(setting)));
        Ok(out)
    }

    fn set_bool(&mut self, setting: Setting, b: bool)
        requires
            takes(setting, ConfigValue::Bool(b)),
        ensures
            *final(self) == old(self).with(setting, ConfigValue::Bool(b)),
    {
        reveal(Config::with);
        match setting {
            Setting::DebugOutput => self.debug_output = b,
            Setting::MouseFollowsFocus => self.mouse_follows_focus = b,
            Setting::WindowSublayerAuto => self.window_sublayer_auto = b,
            Setting::Manage => self.manage = b,
            Setting::WindowZoomPersist => self.window_zoom_persist = b,
            Setting::WindowShadow => self.window_shadow = b,
            Setting::WindowOpacity => self.enable_window_opacity = b,
            Setting::SkipWindowFocusAnimation => self.skip_window_focus_animation = b,
            _ => {},
        }
    }

    fn set_mouseaction(&mut self, setting: Setting, b: MouseAction)
        requires
            takes(setting, ConfigValue::MouseAction(b)),
        ensures
            *final(self) == old(self).with(setting, ConfigValue::MouseAction(b)),
    {
        reveal(Config::with);
        match setting {
            Setting::MouseAction1 => self.mouse_action1 = b,
            Setting::MouseAction2 => self.mouse_action2 = b,
            _ => {},
        }
    }

    fn set_float(&mut self, setting: Setting, b: &Real)
        requires
            takes(setting, ConfigValue::Float(*b)),
        ensures
            *final(self) == old(self).with(setting, ConfigValue::Float(*b)),
    {
        reveal(Config::with);
        match setting {
            Setting::SplitRatio => self.split_ratio = b.copy(),
            Setting::WindowOpacityDuration => self.window_opacity_duration = b.copy(),
            Setting::WindowAnimationDuration => self.window_animation_duration = b.copy(),
            Setting::ActiveWindowOpacity => self.active_window_opacity = b.copy(),
            Setting::NormalWindowOpacity => self.normal_window_opacity = b.copy(),
            Setting::MenubarOpacity => self.menubar_opacity = b.copy(),
            _ => {},
        }
    }

    fn set_int(&mut self, setting: Setting, b: i32)
        requires
            takes(setting, ConfigValue::Int(b)),
        ensures
            *final(self) == old(self).with(setting, ConfigValue::Int(b)),
    {
        reveal(Config::with);
        match setting {
            Setting::TopPadding => self.top_padding = b,
            Setting::BottomPadding => self.bottom_padding = b,
            Setting::LeftPadding => self.left_padding = b,
            Setting::RightPadding => self.right_padding = b,
            Setting::WindowGap => self.window_gap = b,
            _ => {},
        }
    }

    fn set_focus_follows_mouse(&mut self, b: FfmMode)
        ensures
            *final(self) == old(self).with(Setting::FocusFollowsMouse, ConfigValue::Ffm(b)),
    {
        reveal(Config::with);
        self.focus_follows_mouse = b;
    }

    fn set_mouse_modifier(&mut self, b: MouseModifier)
        ensures
            *final(self) == old(self).with(Setting::MouseModifier, ConfigValue::MouseMod(b)),
    {
        reveal(Config::with);
        self.mouse_modifier = b;
    }

    fn set_mouse_drop_action(&mut self, b: MouseDropAction)
        ensures
            *final(self) == old(self).with(Setting::MouseDropAction, ConfigValue::MouseDrop(b)),
    {
        reveal(Config::with);
        self.mouse_drop_action = b;
    }

    fn set_layout(&mut self, b: ViewType)
        ensures
            *final(self) == old(self).with(Setting::Layout, ConfigValue::Layout(b)),
    {
        reveal(Config::with);
        self.layout = b;
    }

    fn set_split_type(&mut self, b: NodeSplit)
        ensures
            *final(self) == old(self).with(Setting::SplitType, ConfigValue::SplitType(b)),
    {
        reveal(Config::with);
        self.split_type = b;
    }

    fn set_auto_balance(&mut self, b: NodeSplit)
        ensures
            *final(self) == old(self).with(Setting::AutoBalance, ConfigValue::AutoBalance(b)),
    {
        reveal(Config::with);
        self.auto_balance = b;
    }

    fn set_window_placement(&mut self, b: Child)
        ensures
            *final(self) == old(self).with(Setting::WindowPlacement, ConfigValue::Placement(b)),
    {
        reveal(Config::with);
        self.window_placement = b;
    }

    fn set_window_insertion_point(&mut self, b: InsertionPolicy)
        ensures
            *final(self) == old(self).with(Setting::WindowInsertionPoint, ConfigValue::InsertionPoint(b)),
    {
        reveal(Config::with);
        self.window_insertion_point = b;
    }

    fn set_display_arrangement_order(&mut self, b: DisplayArrangementOrder)
        ensures
            *final(self) == old(self).with(Setting::DisplayArrangementOrder, ConfigValue::ArrangementOrder(b)),
    {
        reveal(Config::with);
        self.display_arrangement_order = b;
    }

    fn set_window_origin_display(&mut self, b: WindowOriginMode)
        ensures
            *final(self) == old(self).with(Setting::WindowOriginDisplay, ConfigValue::WindowOrigin(b)),
    {
        reveal(Config::with);
        self.window_origin_display = b;
    }

    fn set_window_animation_easing(&mut self, b: u8)
        ensures
            *final(self) == old(self).with(Setting::WindowAnimationEasing, ConfigValue::AnimationEasing(b)),
    {
        reveal(Config::with);
        self.window_animation_easing = b;
    }

    fn set_insert_feedback_color(&mut self, b: u32)
        ensures
            *final(self) == old(self).with(Setting::InsertFeedbackColor, ConfigValue::Color(b)),
    {
        reveal(Config::with);
        self.insert_feedback_color = b;
    }

    fn set_external_bar(&mut self, b: ExternalBar)
        ensures
            *final(self) == old(self).with(Setting::ExternalBar, ConfigValue::ExternalBar(b)),
    {
        reveal(Config::with);
        self.external_bar = b;
    }

    /// Give a setting a value of its kind.
    fn assign(&mut self, setting: Setting, value: &ConfigValue)
        requires
            takes(setting, *value),
        ensures
            *final(self) == old(self).with(setting, *value),
    {
        match value {
            ConfigValue::Bool(b) => self.set_bool(setting, *b),
            ConfigValue::Ffm(b) => self.set_focus_follows_mouse(*b),
            ConfigValue::MouseMod(b) => self.set_mouse_modifier(*b),
            ConfigValue::MouseAction(b) => self.set_mouseaction(setting, *b),
            ConfigValue::MouseDrop(b) => self.set_mouse_drop_action(*b),
            ConfigValue::Layout(b) => self.set_layout(*b),
            ConfigValue::SplitType(b) => self.set_split_type(*b),
            ConfigValue::AutoBalance(b) => self.set_auto_balance(*b),
            ConfigValue::Placement(b) => self.set_window_placement(*b),
            ConfigValue::InsertionPoint(b) => self.set_window_insertion_point(*b),
            ConfigValue::Float(b) => self.set_float(setting, b),
            ConfigValue::Int(b) => self.set_int(setting, *b),
            ConfigValue::ArrangementOrder(b) => self.set_display_arrangement_order(*b),
            ConfigValue::WindowOrigin(b) => self.set_window_origin_display(*b),
            ConfigValue::AnimationEasing(b) => self.set_window_animation_easing(*b),
            ConfigValue::Color(b) => self.set_insert_feedback_color(*b),
            ConfigValue::ExternalBar(b) => self.set_external_bar(*b),
        }
    }

    /// Change the setting named `key`; an error for an unknown name or a value
    /// of the wrong kind.
    pub fn set(&mut self, key: &str, value: &ConfigValue) -> (r: Result<(), String>)
        ensures
            match setting_of(key@) {
                Some(setting) if takes(setting, *value) => {
                    &&& r is Ok
                    &&& *final(self) == old(self).with(setting, *value)
                },
                _ => {
                    &&& r is Err
                    &&& r->Err_0@ == "unsupported config key '"@ + key@ + "'"@
                    &&& *final(self) == *old(self)
                },
            },
    {
        let setting = match setting_named(key) {
            Some(setting) => setting,
            None => {
                return Err(unsupported(key));
            },
        };
        if !takes_value(setting, value) {
            return Err(unsupported(key));
        }
        self.assign(setting, value);
        Ok(())
    }

    /// Answer a read with the printed value, or perform a change.
    pub fn apply(&mut self, op: &ConfigOp) -> (r: Result<Option<String>, String>)
        requires
            old(self).wf(),
        ensures
            match *op {
                ConfigOp::Get(key) => {
                    &&& *final(self) == *old(self)
                    &&& match setting_of(key@) {
                        Some(setting) => r is Ok && r->Ok_0 is Some && r->Ok_0->0@ == rendered(
                            old(self).value_of(setting),
                        ),
                        None => r is Err && r->Err_0@ == "unsupported config key '"@ + key@ + "'"@,
                    }
                },
                ConfigOp::Put(key, value) => match setting_of(key@) {
                    Some(setting) if takes(setting, value) => {
                        &&& r == Ok::<Option<String>, String>(None)
                        &&& *final(self) == old(self).with(setting, value)
                    },
                    _ => {
                        &&& r is Err
                        &&& r->Err_0@ == "unsupported config key '"@ + key@ + "'"@
                        &&& *final(self) == *old(self)
                    },
                },
            },
    {
        match op {
            ConfigOp::Get(key) => match self.get(key.as_str()) {
                Ok(out) => Ok(Some(out)),
                Err(error) => Err(error),
            },
            ConfigOp::Put(key, value) => match self.set(key.as_str(), value) {
                Ok(()) => Ok(None),
                Err(error) => Err(error),
            },
        }
    }
}

/// The settings of a fresh daemon.
pub open spec fn is_default(c: Config) -> bool {
    &&& c.debug_output == false
    &&& c.mouse_follows_focus == false
    &&& c.window_sublayer_auto == true
    &&& c.manage == true
    &&& c.window_zoom_persist == true
    &&& c.window_shadow == true
    &&& c.enable_window_opacity == false
    &&& c.focus_follows_mouse == FfmMode::Disabled
    &&& c.mouse_modifier == MouseModifier::Fn
    &&& c.mouse_action1 == MouseAction::Move
    &&& c.mouse_action2 == MouseAction::Resize
    &&& c.mouse_drop_action == MouseDropAction::Swap
    &&& c.layout == ViewType::Bsp
    &&& c.split_type == NodeSplit::Auto
    &&& c.auto_balance == NodeSplit::Unsplit
    &&& c.window_placement == Child::Second
    &&& c.window_insertion_point == InsertionPolicy::Focused
    &&& c.split_ratio.bits == 0x3f00_0000 && c.split_ratio.text@ == "0.5000"@
    &&& c.window_opacity_duration.bits == 0 && c.window_opacity_duration.text@ == "0.0000"@
    &&& c.window_animation_duration.bits == 0 && c.window_animation_duration.text@ == "0.0000"@
    &&& c.active_window_opacity.bits == 0x3f80_0000 && c.active_window_opacity.text@ == "1.0000"@
    &&& c.normal_window_opacity.bits == 0x3f80_0000 && c.normal_window_opacity.text@ == "1.0000"@
    &&& c.menubar_opacity.bits == 0x3f80_0000 && c.menubar_opacity.text@ == "1.0000"@
    &&& c.top_padding == 0
    &&& c.bottom_padding == 0
    &&& c.left_padding == 0
    &&& c.right_padding == 0
    &&& c.window_gap == 0
    &&& c.display_arrangement_order == DisplayArrangementOrder::Default
    &&& c.window_origin_display == WindowOriginMode::Default
    &&& c.window_animation_easing == 19
    &&& c.insert_feedback_color == 0xffd7_5f5f
    &&& c.external_bar == (ExternalBar { mode: ExternalBarMode::Off, top: 0, bottom: 0 })
    &&& c.skip_window_focus_animation == false
}

impl Default for Config {
    fn default() -> (r: Self)
        ensures
            is_default(r),
            r.wf(),
    {
        Config {
            debug_output: false,
            mouse_follows_focus: false,
            window_sublayer_auto: true,
            manage: true,
            window_zoom_persist: true,
            window_shadow: true,
            enable_window_opacity: false,
            focus_follows_mouse: FfmMode::Disabled,
            mouse_modifier: MouseModifier::Fn,
            mouse_action1: MouseAction::Move,
            mouse_action2: MouseAction::Resize,
            mouse_drop_action: MouseDropAction::Swap,
            layout: ViewType::Bsp,
            split_type: NodeSplit::Auto,
            auto_balance: NodeSplit::Unsplit,
            window_placement: Child::Second,
            window_insertion_point: InsertionPolicy::Focused,
            split_ratio: Real { bits: 0x3f00_0000, text: "0.5000".to_owned() },
            window_opacity_duration: Real { bits: 0, text: "0.0000".to_owned() },
            window_animation_duration: Real { bits: 0, text: "0.0000".to_owned() },
            active_window_opacity: Real { bits: 0x3f80_0000, text: "1.0000".to_owned() },
            normal_window_opacity: Real { bits: 0x3f80_0000, text: "1.0000".to_owned() },
            menubar_opacity: Real { bits: 0x3f80_0000, text: "1.0000".to_owned() },
            top_padding: 0,
            bottom_padding: 0,
            left_padding: 0,
            right_padding: 0,
            window_gap: 0,
            display_arrangement_order: DisplayArrangementOrder::Default,
            window_origin_display: WindowOriginMode::Default,
            window_animation_easing: 19,
            insert_feedback_color: 0xffd7_5f5f,
            external_bar: ExternalBar { mode: ExternalBarMode::Off, top: 0, bottom: 0 },
            skip_window_focus_animation: false,
        }
    }
}

/// The complaint about a name or a value that is not supported.
fn unsupported(key: &str) -> (r: String)
    ensures
        r@ == "unsupported config key '"@ + key@ + "'"@,
{
    let mut out = "unsupported config key '".to_owned();
    out.append(key);
    out.append("'");
    out
}

fn push_color(out: &mut String, color: u32)
    ensures
        final(out)@ == old(out)@ + color_text(color),
{
    let ghost base = out@;
    out.append("0x");
    text::push_hex(out, color);
    assert(out@ =~= base + color_text(color));
}

fn push_external_bar(out: &mut String, bar: ExternalBar)
    ensures
        final(out)@ == old(out)@ + external_bar_text(bar),
{
    let ghost base = out@;
    out.append(external_bar_mode_str(bar.mode));
    out.append(":");
    text::push_signed(out, bar.top);
    out.append(":");
    text::push_signed(out, bar.bottom);
    assert(out@ =~= base + external_bar_text(bar));
}

/// Reading a setting that was just changed gives the new value.
pub proof fn law_read_after_change(config: Config, setting: Setting, value: ConfigValue)
    requires
        takes(setting, value),
    ensures
        config.with(setting, value).value_of(setting) == value,
{
    reveal(Config::with);
}

/// Changing one setting leaves every other one as it was.
pub proof fn law_change_is_local(
    config: Config,
    setting: Setting,
    value: ConfigValue,
    other: Setting,
)
    requires
        takes(setting, value),
        other != setting,
    ensures
        config.with(setting, value).value_of(other) == config.value_of(other),
{
    reveal(Config::with);
}

proof fn lemma_setting_names_differ()
    ensures
        "debug_output"@.len() == 12,
        "mouse_follows_focus"@.len() == 19,
        "window_sublayer_auto"@.len() == 20,
        "manage"@.len() == 6,
        "window_zoom_persist"@.len() == 19,
        "window_shadow"@.len() == 13,
        "window_opacity"@.len() == 14,
        "focus_follows_mouse"@.len() == 19,
        "mouse_modifier"@.len() == 14,
        "mouse_action1"@.len() == 13,
        "mouse_action2"@.len() == 13,
        "mouse_drop_action"@.len() == 17,
        "layout"@.len() == 6,
        "split_type"@.len() == 10,
        "auto_balance"@.len() == 12,
        "window_placement"@.len() == 16,
        "window_insertion_point"@.len() == 22,
        "split_ratio"@.len() == 11,
        "window_opacity_duration"@.len() == 23,
        "window_animation_duration"@.len() == 25,
        "active_window_opacity"@.len() == 21,
        "normal_window_opacity"@.len() == 21,
        "menubar_opacity"@.len() == 15,
        "top_padding"@.len() == 11,
        "bottom_padding"@.len() == 14,
        "left_padding"@.len() == 12,
        "right_padding"@.len() == 13,
        "window_gap"@.len() == 10,
        "display_arrangement_order"@.len() == 25,
        "window_origin_display"@.len() == 21,
        "window_animation_easing"@.len() == 23,
        "insert_feedback_color"@.len() == 21,
        "external_bar"@.len() == 12,
        "skip_window_focus_animation"@.len() == 27,
        "debug_output"@ != "auto_balance"@,
        "debug_output"@ != "left_padding"@,
        "debug_output"@ != "external_bar"@,
        "mouse_follows_focus"@ != "window_zoom_persist"@,
        "mouse_follows_focus"@ != "focus_follows_mouse"@,
        "manage"@ != "layout"@,
        "window_zoom_persist"@ != "focus_follows_mouse"@,
        "window_shadow"@ != "mouse_action1"@,
        "window_shadow"@ != "mouse_action2"@,
        "window_shadow"@ != "right_padding"@,
        "window_opacity"@ != "mouse_modifier"@,
        "window_opacity"@ != "bottom_padding"@,
        "mouse_modifier"@ != "bottom_padding"@,
        "mouse_action1"@ != "mouse_action2"@,
        "mouse_action1"@ != "right_padding"@,
        "mouse_action2"@ != "right_padding"@,
        "split_type"@ != "window_gap"@,
        "auto_balance"@ != "left_padding"@,
        "auto_balance"@ != "external_bar"@,
        "split_ratio"@ != "top_padding"@,
        "window_opacity_duration"@ != "window_animation_easing"@,
        "window_animation_duration"@ != "display_arrangement_order"@,
        "active_window_opacity"@ != "normal_window_opacity"@,
        "active_window_opacity"@ != "window_origin_display"@,
        "active_window_opacity"@ != "insert_feedback_color"@,
        "normal_window_opacity"@ != "window_origin_display"@,
        "normal_window_opacity"@ != "insert_feedback_color"@,
        "left_padding"@ != "external_bar"@,
        "window_origin_display"@ != "insert_feedback_color"@,
{
    reveal_strlit("debug_output");
    reveal_strlit("mouse_follows_focus");
    reveal_strlit("window_sublayer_auto");
    reveal_strlit("manage");
    reveal_strlit("window_zoom_persist");
    reveal_strlit("window_shadow");
    reveal_strlit("window_opacity");
    reveal_strlit("focus_follows_mouse");
    reveal_strlit("mouse_modifier");
    reveal_strlit("mouse_action1");
    reveal_strlit("mouse_action2");
    reveal_strlit("mouse_drop_action");
    reveal_strlit("layout");
    reveal_strlit("split_type");
    reveal_strlit("auto_balance");
    reveal_strlit("window_placement");
    reveal_strlit("window_insertion_point");
    reveal_strlit("split_ratio");
    reveal_strlit("window_opacity_duration");
    reveal_strlit("window_animation_duration");
    reveal_strlit("active_window_opacity");
    reveal_strlit("normal_window_opacity");
    reveal_strlit("menubar_opacity");
    reveal_strlit("top_padding");
    reveal_strlit("bottom_padding");
    reveal_strlit("left_padding");
    reveal_strlit("right_padding");
    reveal_strlit("window_gap");
    reveal_strlit("display_arrangement_order");
    reveal_strlit("window_origin_display");
    reveal_strlit("window_animation_easing");
    reveal_strlit("insert_feedback_color");
    reveal_strlit("external_bar");
    reveal_strlit("skip_window_focus_animation");
    assert("debug_output"@[0] != "auto_balance"@[0]);
    assert("debug_output"@[0] != "left_padding"@[0]);
    assert("debug_output"@[0] != "external_bar"@[0]);
    assert("mouse_follows_focus"@[0] != "window_zoom_persist"@[0]);
    assert("mouse_follows_focus"@[0] != "focus_follows_mouse"@[0]);
    assert("manage"@[0] != "layout"@[0]);
    assert("window_zoom_persist"@[0] != "focus_follows_mouse"@[0]);
    assert("window_shadow"@[0] != "mouse_action1"@[0]);
    assert("window_shadow"@[0] != "mouse_action2"@[0]);
    assert("window_shadow"@[0] != "right_padding"@[0]);
    assert("window_opacity"@[0] != "mouse_modifier"@[0]);
    assert("window_opacity"@[0] != "bottom_padding"@[0]);
    assert("mouse_modifier"@[0] != "bottom_padding"@[0]);
    assert("mouse_action1"@[12] != "mouse_action2"@[12]);
    assert("mouse_action1"@[0] != "right_padding"@[0]);
    assert("mouse_action2"@[0] != "right_padding"@[0]);
    assert("split_type"@[0] != "window_gap"@[0]);
    assert("auto_balance"@[0] != "left_padding"@[0]);
    assert("auto_balance"@[0] != "external_bar"@[0]);
    assert("split_ratio"@[0] != "top_padding"@[0]);
    assert("window_opacity_duration"@[7] != "window_animation_easing"@[7]);
    assert("window_animation_duration"@[0] != "display_arrangement_order"@[0]);
    assert("active_window_opacity"@[0] != "normal_window_opacity"@[0]);
    assert("active_window_opacity"@[0] != "window_origin_display"@[0]);
    assert("active_window_opacity"@[0] != "insert_feedback_color"@[0]);
    assert("normal_window_opacity"@[0] != "window_origin_display"@[0]);
    assert("normal_window_opacity"@[0] != "insert_feedback_color"@[0]);
    assert("left_padding"@[0] != "external_bar"@[0]);
    assert("window_origin_display"@[0] != "insert_feedback_color"@[0]);
}

/// The value of a setting by its name.
pub open spec fn named_value(c: Config, key: Seq<char>) -> Option<ConfigValue> {
    match setting_of(key) {
        Some(setting) => Some(c.value_of(setting)),
        None => None,
    }
}

/// Each name stands for the setting that bears it.
pub proof fn law_names_of_settings(c: Config)
    ensures
        named_value(c, "debug_output"@) == Some(ConfigValue::Bool(c.debug_output)),
        named_value(c, "mouse_follows_focus"@) == Some(ConfigValue::Bool(c.mouse_follows_focus)),
        named_value(c, "window_sublayer_auto"@) == Some(ConfigValue::Bool(c.window_sublayer_auto)),
        named_value(c, "manage"@) == Some(ConfigValue::Bool(c.manage)),
        named_value(c, "window_zoom_persist"@) == Some(ConfigValue::Bool(c.window_zoom_persist)),
        named_value(c, "window_shadow"@) == Some(ConfigValue::Bool(c.window_shadow)),
        named_value(c, "window_opacity"@) == Some(ConfigValue::Bool(c.enable_window_opacity)),
        named_value(c, "focus_follows_mouse"@) == Some(ConfigValue::Ffm(c.focus_follows_mouse)),
        named_value(c, "mouse_modifier"@) == Some(ConfigValue::MouseMod(c.mouse_modifier)),
        named_value(c, "mouse_action1"@) == Some(ConfigValue::MouseAction(c.mouse_action1)),
        named_value(c, "mouse_action2"@) == Some(ConfigValue::MouseAction(c.mouse_action2)),
        named_value(c, "mouse_drop_action"@) == Some(ConfigValue::MouseDrop(c.mouse_drop_action)),
        named_value(c, "layout"@) == Some(ConfigValue::Layout(c.layout)),
        named_value(c, "split_type"@) == Some(ConfigValue::SplitType(c.split_type)),
        named_value(c, "auto_balance"@) == Some(ConfigValue::AutoBalance(c.auto_balance)),
        named_value(c, "window_placement"@) == Some(ConfigValue::Placement(c.window_placement)),
        named_value(c, "window_insertion_point"@) == Some(ConfigValue::InsertionPoint(c.window_insertion_point)),
        named_value(c, "split_ratio"@) == Some(ConfigValue::Float(c.split_ratio)),
        named_value(c, "window_opacity_duration"@) == Some(ConfigValue::Float(c.window_opacity_duration)),
        named_value(c, "window_animation_duration"@) == Some(ConfigValue::Float(c.window_animation_duration)),
        named_value(c, "active_window_opacity"@) == Some(ConfigValue::Float(c.active_window_opacity)),
        named_value(c, "normal_window_opacity"@) == Some(ConfigValue::Float(c.normal_window_opacity)),
        named_value(c, "menubar_opacity"@) == Some(ConfigValue::Float(c.menubar_opacity)),
        named_value(c, "top_padding"@) == Some(ConfigValue::Int(c.top_padding)),
        named_value(c, "bottom_padding"@) == Some(ConfigValue::Int(c.bottom_padding)),
        named_value(c, "left_padding"@) == Some(ConfigValue::Int(c.left_padding)),
        named_value(c, "right_padding"@) == Some(ConfigValue::Int(c.right_padding)),
        named_value(c, "window_gap"@) == Some(ConfigValue::Int(c.window_gap)),
        named_value(c, "display_arrangement_order"@) == Some(ConfigValue::ArrangementOrder(c.display_arrangement_order)),
        named_value(c, "window_origin_display"@) == Some(ConfigValue::WindowOrigin(c.window_origin_display)),
        named_value(c, "window_animation_easing"@) == Some(ConfigValue::AnimationEasing(c.window_animation_easing)),
        named_value(c, "insert_feedback_color"@) == Some(ConfigValue::Color(c.insert_feedback_color)),
        named_value(c, "external_bar"@) == Some(ConfigValue::ExternalBar(c.external_bar)),
        named_value(c, "skip_window_focus_animation"@) == Some(ConfigValue::Bool(c.skip_window_focus_animation)),
{
    lemma_setting_names_differ();
}

/// A setting takes the values of its own kind, and no others.
pub proof fn law_settings_take_their_kind(c: Config, setting: Setting, value: ConfigValue)
    ensures
        takes(setting, c.value_of(setting)),
        takes(setting, value) <==> match (c.value_of(setting), value) {
            (ConfigValue::Bool(_), ConfigValue::Bool(_)) => true,
            (ConfigValue::Ffm(_), ConfigValue::Ffm(_)) => true,
            (ConfigValue::MouseMod(_), ConfigValue::MouseMod(_)) => true,
            (ConfigValue::MouseAction(_), ConfigValue::MouseAction(_)) => true,
            (ConfigValue::MouseDrop(_), ConfigValue::MouseDrop(_)) => true,
            (ConfigValue::Layout(_), ConfigValue::Layout(_)) => true,
            (ConfigValue::SplitType(_), ConfigValue::SplitType(_)) => true,
            (ConfigValue::AutoBalance(_), ConfigValue::AutoBalance(_)) => true,
            (ConfigValue::Placement(_), ConfigValue::Placement(_)) => true,
            (ConfigValue::InsertionPoint(_), ConfigValue::InsertionPoint(_)) => true,
            (ConfigValue::Float(_), ConfigValue::Float(_)) => true,
            (ConfigValue::Int(_), ConfigValue::Int(_)) => true,
            (ConfigValue::ArrangementOrder(_), ConfigValue::ArrangementOrder(_)) => true,
            (ConfigValue::WindowOrigin(_), ConfigValue::WindowOrigin(_)) => true,
            (ConfigValue::AnimationEasing(_), ConfigValue::AnimationEasing(_)) => true,
            (ConfigValue::Color(_), ConfigValue::Color(_)) => true,
            (ConfigValue::ExternalBar(_), ConfigValue::ExternalBar(_)) => true,
            _ => false,
        },
{
}

/// How each value is printed.
pub proof fn law_printed_values(n: i32, color: u32, number: Real, top: i32, bottom: i32)
    ensures
        rendered(ConfigValue::Bool(true)) == "on"@,
        rendered(ConfigValue::Bool(false)) == "off"@,
        rendered(ConfigValue::Ffm(FfmMode::Disabled)) == "off"@,
        rendered(ConfigValue::Ffm(FfmMode::Autofocus)) == "autofocus"@,
        rendered(ConfigValue::Ffm(FfmMode::Autoraise)) == "autoraise"@,
        rendered(ConfigValue::MouseMod(MouseModifier::Alt)) == "alt"@,
        rendered(ConfigValue::MouseMod(MouseModifier::Shift)) == "shift"@,
        rendered(ConfigValue::MouseMod(MouseModifier::Cmd)) == "cmd"@,
        rendered(ConfigValue::MouseMod(MouseModifier::Ctrl)) == "ctrl"@,
        rendered(ConfigValue::MouseMod(MouseModifier::Fn)) == "fn"@,
        rendered(ConfigValue::MouseAction(MouseAction::Move)) == "move"@,
        rendered(ConfigValue::MouseAction(MouseAction::Resize)) == "resize"@,
        rendered(ConfigValue::MouseDrop(MouseDropAction::Swap)) == "swap"@,
        rendered(ConfigValue::MouseDrop(MouseDropAction::Stack)) == "stack"@,
        rendered(ConfigValue::Layout(ViewType::Bsp)) == "bsp"@,
        rendered(ConfigValue::Layout(ViewType::Stack)) == "stack"@,
        rendered(ConfigValue::Layout(ViewType::Float)) == "float"@,
        rendered(ConfigValue::SplitType(NodeSplit::Vertical)) == "vertical"@,
        rendered(ConfigValue::SplitType(NodeSplit::Horizontal)) == "horizontal"@,
        rendered(ConfigValue::SplitType(NodeSplit::Auto)) == "auto"@,
        rendered(ConfigValue::SplitType(NodeSplit::Unsplit)) == "none"@,
        rendered(ConfigValue::AutoBalance(NodeSplit::Unsplit)) == "off"@,
        rendered(ConfigValue::AutoBalance(NodeSplit::Vertical)) == "vertical"@,
        rendered(ConfigValue::AutoBalance(NodeSplit::Horizontal)) == "horizontal"@,
        rendered(ConfigValue::AutoBalance(NodeSplit::Auto)) == "on"@,
        rendered(ConfigValue::Placement(Child::First)) == "first_child"@,
        rendered(ConfigValue::Placement(Child::Second)) == "second_child"@,
        rendered(ConfigValue::Placement(Child::Neither)) == "none"@,
        rendered(ConfigValue::InsertionPoint(InsertionPolicy::Focused)) == "focused"@,
        rendered(ConfigValue::InsertionPoint(InsertionPolicy::First)) == "first"@,
        rendered(ConfigValue::InsertionPoint(InsertionPolicy::Last)) == "last"@,
        rendered(ConfigValue::ArrangementOrder(DisplayArrangementOrder::Default)) == "default"@,
        rendered(ConfigValue::ArrangementOrder(DisplayArrangementOrder::Horizontal))
            == "horizontal"@,
        rendered(ConfigValue::ArrangementOrder(DisplayArrangementOrder::Vertical)) == "vertical"@,
        rendered(ConfigValue::WindowOrigin(WindowOriginMode::Default)) == "default"@,
        rendered(ConfigValue::WindowOrigin(WindowOriginMode::Focused)) == "focused"@,
        rendered(ConfigValue::WindowOrigin(WindowOriginMode::Cursor)) == "cursor"@,
        rendered(ConfigValue::Float(number)) == number.text@,
        n >= 0 ==> text::number_of(rendered(ConfigValue::Int(n))) == n,
        n < 0 ==> rendered(ConfigValue::Int(n))[0] == '-' && text::number_of(
            rendered(ConfigValue::Int(n)).skip(1),
        ) == -n,
        rendered(ConfigValue::Color(color)).take(2) == "0x"@,
        text::hex_number_of(rendered(ConfigValue::Color(color)).skip(2)) == color,
        rendered(
            ConfigValue::ExternalBar(ExternalBar { mode: ExternalBarMode::Off, top, bottom }),
        ) == "off"@ + ":"@ + text::signed_decimal(top as int) + ":"@ + text::signed_decimal(
            bottom as int,
        ),
        rendered(
            ConfigValue::ExternalBar(ExternalBar { mode: ExternalBarMode::Main, top, bottom }),
        ) == "main"@ + ":"@ + text::signed_decimal(top as int) + ":"@ + text::signed_decimal(
            bottom as int,
        ),
        rendered(
            ConfigValue::ExternalBar(ExternalBar { mode: ExternalBarMode::All, top, bottom }),
        ) == "all"@ + ":"@ + text::signed_decimal(top as int) + ":"@ + text::signed_decimal(
            bottom as int,
        ),
{
    text::law_signed_decimal_reads_back(n as int);
    text::law_hex_reads_back(color as nat);
    reveal_strlit("0x");
    assert(rendered(ConfigValue::Color(color)).take(2) =~= "0x"@);
    assert(rendered(ConfigValue::Color(color)).skip(2) =~= text::hex(color as nat));
}

/// The layout engine gets the settings of the same meaning.
pub proof fn law_settings_for_the_engine(c: Config)
    ensures
        c.layout_settings().split_type == c.split_type,
        c.layout_settings().split_ratio == c.split_ratio,
        c.layout_settings().window_placement == c.window_placement,
        c.layout_settings().auto_balance == c.auto_balance,
        c.layout_settings().insertion_policy == c.window_insertion_point,
        c.layout_settings().gap == c.window_gap,
{
}

} // verus!
