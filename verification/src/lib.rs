//! The control plane of a tiling window manager.
//!
//! Every decision the daemon takes lives here as verified code over plain
//! values; operating-system calls, floating-point geometry and the layout
//! engine stay outside and talk to this library through plain values.
use vstd::prelude::*;

pub mod bytes;
pub mod commands;
pub mod config;
pub mod dispatch;
pub mod idmap;
pub mod labels;
pub mod layout;
pub mod ledger;
pub mod literals;
pub mod loader;
pub mod message;
pub mod mouse;
pub mod notices;
pub mod pattern;
pub mod pipeline;
pub mod query;
pub mod refresh;
pub mod registry;
pub mod routes;
pub mod rules;
pub mod sa;
pub mod selectors;
pub mod service;
pub mod signals;
pub mod spaces;
pub mod state;
pub mod text;
pub mod tiling;
pub mod topology;
pub mod types;
pub mod windows;
pub mod wire;

pub use config::Config;
pub use dispatch::StateEvent;
pub use layout::{LayoutSink, RecordingSink};
pub use state::AppState;

verus! {

/// What the daemon reacts to.
#[derive(Debug, Clone, Copy, PartialEq, Eq, Structural)]
pub enum Event {
    ApplicationLaunched,
    ApplicationTerminated,
    ApplicationFrontSwitched,
    ApplicationVisible,
    ApplicationHidden,
    WindowCreated,
    WindowDestroyed,
    WindowFocused,
    WindowMoved,
    WindowResized,
    WindowMinimized,
    WindowDeminimized,
    WindowTitleChanged,
    SlsWindowOrdered,
    SlsWindowDestroyed,
    SlsSpaceCreated,
    SlsSpaceDestroyed,
    SpaceChanged,
    DisplayAdded,
    DisplayRemoved,
    DisplayMoved,
    DisplayResized,
    DisplayChanged,
    MouseDown,
    MouseUp,
    MouseDragged,
    MouseMoved,
    MissionControlShowAllWindows,
    MissionControlShowFrontWindows,
    MissionControlShowDesktop,
    MissionControlEnter,
    MissionControlCheckForExit,
    MissionControlExit,
    DockDidRestart,
    MenuOpened,
    MenuClosed,
    MenuBarHiddenChanged,
    DockDidChangePref,
    SystemWoke,
    DaemonMessage,
}

impl Event {
    /// The name of an event in capitals.
    pub open spec fn capitals(self) -> Seq<char> {
        match self {
            Event::ApplicationLaunched => "APPLICATION_LAUNCHED"@,
            Event::ApplicationTerminated => "APPLICATION_TERMINATED"@,
            Event::ApplicationFrontSwitched => "APPLICATION_FRONT_SWITCHED"@,
            Event::ApplicationVisible => "APPLICATION_VISIBLE"@,
            Event::ApplicationHidden => "APPLICATION_HIDDEN"@,
            Event::WindowCreated => "WINDOW_CREATED"@,
            Event::WindowDestroyed => "WINDOW_DESTROYED"@,
            Event::WindowFocused => "WINDOW_FOCUSED"@,
            Event::WindowMoved => "WINDOW_MOVED"@,
            Event::WindowResized => "WINDOW_RESIZED"@,
            Event::WindowMinimized => "WINDOW_MINIMIZED"@,
            Event::WindowDeminimized => "WINDOW_DEMINIMIZED"@,
            Event::WindowTitleChanged => "WINDOW_TITLE_CHANGED"@,
            Event::SlsWindowOrdered => "SLS_WINDOW_ORDERED"@,
            Event::SlsWindowDestroyed => "SLS_WINDOW_DESTROYED"@,
            Event::SlsSpaceCreated => "SLS_SPACE_CREATED"@,
            Event::SlsSpaceDestroyed => "SLS_SPACE_DESTROYED"@,
            Event::SpaceChanged => "SPACE_CHANGED"@,
            Event::DisplayAdded => "DISPLAY_ADDED"@,
            Event::DisplayRemoved => "DISPLAY_REMOVED"@,
            Event::DisplayMoved => "DISPLAY_MOVED"@,
            Event::DisplayResized => "DISPLAY_RESIZED"@,
            Event::DisplayChanged => "DISPLAY_CHANGED"@,
            Event::MouseDown => "MOUSE_DOWN"@,
            Event::MouseUp => "MOUSE_UP"@,
            Event::MouseDragged => "MOUSE_DRAGGED"@,
            Event::MouseMoved => "MOUSE_MOVED"@,
            Event::MissionControlShowAllWindows => "MISSION_CONTROL_SHOW_ALL_WINDOWS"@,
            Event::MissionControlShowFrontWindows => "MISSION_CONTROL_SHOW_FRONT_WINDOWS"@,
            Event::MissionControlShowDesktop => "MISSION_CONTROL_SHOW_DESKTOP"@,
            Event::MissionControlEnter => "MISSION_CONTROL_ENTER"@,
            Event::MissionControlCheckForExit => "MISSION_CONTROL_CHECK_FOR_EXIT"@,
            Event::MissionControlExit => "MISSION_CONTROL_EXIT"@,
            Event::DockDidRestart => "DOCK_DID_RESTART"@,
            Event::MenuOpened => "MENU_OPENED"@,
            Event::MenuClosed => "MENU_CLOSED"@,
            Event::MenuBarHiddenChanged => "MENU_BAR_HIDDEN_CHANGED"@,
            Event::DockDidChangePref => "DOCK_DID_CHANGE_PREF"@,
            Event::SystemWoke => "SYSTEM_WOKE"@,
            Event::DaemonMessage => "DAEMON_MESSAGE"@,
        }
    }

    /// The name of an event in capitals.
    pub fn c_name(self) -> (r: &'static str)
        ensures
            r@ == self.capitals(),
    {
        match self {
            Event::ApplicationLaunched => "APPLICATION_LAUNCHED",
            Event::ApplicationTerminated => "APPLICATION_TERMINATED",
            Event::ApplicationFrontSwitched => "APPLICATION_FRONT_SWITCHED",
            Event::ApplicationVisible => "APPLICATION_VISIBLE",
            Event::ApplicationHidden => "APPLICATION_HIDDEN",
            Event::WindowCreated => "WINDOW_CREATED",
            Event::WindowDestroyed => "WINDOW_DESTROYED",
            Event::WindowFocused => "WINDOW_FOCUSED",
            Event::WindowMoved => "WINDOW_MOVED",
            Event::WindowResized => "WINDOW_RESIZED",
            Event::WindowMinimized => "WINDOW_MINIMIZED",
            Event::WindowDeminimized => "WINDOW_DEMINIMIZED",
            Event::WindowTitleChanged => "WINDOW_TITLE_CHANGED",
            Event::SlsWindowOrdered => "SLS_WINDOW_ORDERED",
            Event::SlsWindowDestroyed => "SLS_WINDOW_DESTROYED",
            Event::SlsSpaceCreated => "SLS_SPACE_CREATED",
            Event::SlsSpaceDestroyed => "SLS_SPACE_DESTROYED",
            Event::SpaceChanged => "SPACE_CHANGED",
            Event::DisplayAdded => "DISPLAY_ADDED",
            Event::DisplayRemoved => "DISPLAY_REMOVED",
            Event::DisplayMoved => "DISPLAY_MOVED",
            Event::DisplayResized => "DISPLAY_RESIZED",
            Event::DisplayChanged => "DISPLAY_CHANGED",
            Event::MouseDown => "MOUSE_DOWN",
            Event::MouseUp => "MOUSE_UP",
            Event::MouseDragged => "MOUSE_DRAGGED",
            Event::MouseMoved => "MOUSE_MOVED",
            Event::MissionControlShowAllWindows => "MISSION_CONTROL_SHOW_ALL_WINDOWS",
            Event::MissionControlShowFrontWindows => "MISSION_CONTROL_SHOW_FRONT_WINDOWS",
            Event::MissionControlShowDesktop => "MISSION_CONTROL_SHOW_DESKTOP",
            Event::MissionControlEnter => "MISSION_CONTROL_ENTER",
            Event::MissionControlCheckForExit => "MISSION_CONTROL_CHECK_FOR_EXIT",
            Event::MissionControlExit => "MISSION_CONTROL_EXIT",
            Event::DockDidRestart => "DOCK_DID_RESTART",
            Event::MenuOpened => "MENU_OPENED",
            Event::MenuClosed => "MENU_CLOSED",
            Event::MenuBarHiddenChanged => "MENU_BAR_HIDDEN_CHANGED",
            Event::DockDidChangePref => "DOCK_DID_CHANGE_PREF",
            Event::SystemWoke => "SYSTEM_WOKE",
            Event::DaemonMessage => "DAEMON_MESSAGE",
        }
    }
}

/// The length of the name of an event, its first character and its third one
/// from the end.
spec fn marks(event: Event) -> (nat, char, char) {
    match event {
        Event::ApplicationLaunched => (20, 'A', 'H'),
        Event::ApplicationTerminated => (22, 'A', 'T'),
        Event::ApplicationFrontSwitched => (26, 'A', 'H'),
        Event::ApplicationVisible => (19, 'A', 'B'),
        Event::ApplicationHidden => (18, 'A', 'D'),
        Event::WindowCreated => (14, 'W', 'T'),
        Event::WindowDestroyed => (16, 'W', 'Y'),
        Event::WindowFocused => (14, 'W', 'S'),
        Event::WindowMoved => (12, 'W', 'V'),
        Event::WindowResized => (14, 'W', 'Z'),
        Event::WindowMinimized => (16, 'W', 'Z'),
        Event::WindowDeminimized => (18, 'W', 'Z'),
        Event::WindowTitleChanged => (20, 'W', 'G'),
        Event::SlsWindowOrdered => (18, 'S', 'R'),
        Event::SlsWindowDestroyed => (20, 'S', 'Y'),
        Event::SlsSpaceCreated => (17, 'S', 'T'),
        Event::SlsSpaceDestroyed => (19, 'S', 'Y'),
        Event::SpaceChanged => (13, 'S', 'G'),
        Event::DisplayAdded => (13, 'D', 'D'),
        Event::DisplayRemoved => (15, 'D', 'V'),
        Event::DisplayMoved => (13, 'D', 'V'),
        Event::DisplayResized => (15, 'D', 'Z'),
        Event::DisplayChanged => (15, 'D', 'G'),
        Event::MouseDown => (10, 'M', 'O'),
        Event::MouseUp => (8, 'M', '_'),
        Event::MouseDragged => (13, 'M', 'G'),
        Event::MouseMoved => (11, 'M', 'V'),
        Event::MissionControlShowAllWindows => (32, 'M', 'O'),
        Event::MissionControlShowFrontWindows => (34, 'M', 'O'),
        Event::MissionControlShowDesktop => (28, 'M', 'T'),
        Event::MissionControlEnter => (21, 'M', 'T'),
        Event::MissionControlCheckForExit => (30, 'M', 'X'),
        Event::MissionControlExit => (20, 'M', 'X'),
        Event::DockDidRestart => (16, 'D', 'A'),
        Event::MenuOpened => (11, 'M', 'N'),
        Event::MenuClosed => (11, 'M', 'S'),
        Event::MenuBarHiddenChanged => (23, 'M', 'G'),
        Event::DockDidChangePref => (20, 'D', 'R'),
        Event::SystemWoke => (11, 'S', 'O'),
        Event::DaemonMessage => (14, 'D', 'A'),
    }
}

proof fn lemma_marks(event: Event)
    ensures
        event.capitals().len() == marks(event).0,
        event.capitals()[0] == marks(event).1,
        event.capitals()[event.capitals().len() - 3] == marks(event).2,
{
    match event {
        Event::ApplicationLaunched => reveal_strlit("APPLICATION_LAUNCHED"),
        Event::ApplicationTerminated => reveal_strlit("APPLICATION_TERMINATED"),
        Event::ApplicationFrontSwitched => reveal_strlit("APPLICATION_FRONT_SWITCHED"),
        Event::ApplicationVisible => reveal_strlit("APPLICATION_VISIBLE"),
        Event::ApplicationHidden => reveal_strlit("APPLICATION_HIDDEN"),
        Event::WindowCreated => reveal_strlit("WINDOW_CREATED"),
        Event::WindowDestroyed => reveal_strlit("WINDOW_DESTROYED"),
        Event::WindowFocused => reveal_strlit("WINDOW_FOCUSED"),
        Event::WindowMoved => reveal_strlit("WINDOW_MOVED"),
        Event::WindowResized => reveal_strlit("WINDOW_RESIZED"),
        Event::WindowMinimized => reveal_strlit("WINDOW_MINIMIZED"),
        Event::WindowDeminimized => reveal_strlit("WINDOW_DEMINIMIZED"),
        Event::WindowTitleChanged => reveal_strlit("WINDOW_TITLE_CHANGED"),
        Event::SlsWindowOrdered => reveal_strlit("SLS_WINDOW_ORDERED"),
        Event::SlsWindowDestroyed => reveal_strlit("SLS_WINDOW_DESTROYED"),
        Event::SlsSpaceCreated => reveal_strlit("SLS_SPACE_CREATED"),
        Event::SlsSpaceDestroyed => reveal_strlit("SLS_SPACE_DESTROYED"),
        Event::SpaceChanged => reveal_strlit("SPACE_CHANGED"),
        Event::DisplayAdded => reveal_strlit("DISPLAY_ADDED"),
        Event::DisplayRemoved => reveal_strlit("DISPLAY_REMOVED"),
        Event::DisplayMoved => reveal_strlit("DISPLAY_MOVED"),
        Event::DisplayResized => reveal_strlit("DISPLAY_RESIZED"),
        Event::DisplayChanged => reveal_strlit("DISPLAY_CHANGED"),
        Event::MouseDown => reveal_strlit("MOUSE_DOWN"),
        Event::MouseUp => reveal_strlit("MOUSE_UP"),
        Event::MouseDragged => reveal_strlit("MOUSE_DRAGGED"),
        Event::MouseMoved => reveal_strlit("MOUSE_MOVED"),
        Event::MissionControlShowAllWindows => reveal_strlit("MISSION_CONTROL_SHOW_ALL_WINDOWS"),
        Event::MissionControlShowFrontWindows => reveal_strlit("MISSION_CONTROL_SHOW_FRONT_WINDOWS"),
        Event::MissionControlShowDesktop => reveal_strlit("MISSION_CONTROL_SHOW_DESKTOP"),
        Event::MissionControlEnter => reveal_strlit("MISSION_CONTROL_ENTER"),
        Event::MissionControlCheckForExit => reveal_strlit("MISSION_CONTROL_CHECK_FOR_EXIT"),
        Event::MissionControlExit => reveal_strlit("MISSION_CONTROL_EXIT"),
        Event::DockDidRestart => reveal_strlit("DOCK_DID_RESTART"),
        Event::MenuOpened => reveal_strlit("MENU_OPENED"),
        Event::MenuClosed => reveal_strlit("MENU_CLOSED"),
        Event::MenuBarHiddenChanged => reveal_strlit("MENU_BAR_HIDDEN_CHANGED"),
        Event::DockDidChangePref => reveal_strlit("DOCK_DID_CHANGE_PREF"),
        Event::SystemWoke => reveal_strlit("SYSTEM_WOKE"),
        Event::DaemonMessage => reveal_strlit("DAEMON_MESSAGE"),
    }
}

/// No two events share a name.
pub proof fn law_event_names_are_distinct(a: Event, b: Event)
    requires
        a != b,
    ensures
        a.capitals() != b.capitals(),
{
    lemma_marks(a);
    lemma_marks(b);
}

} // verus!
