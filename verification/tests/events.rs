//! Names of events.
use yabai::Event;

#[test]
fn event_names_match_c_event_type_list() {
    assert_eq!(Event::ApplicationLaunched.c_name(), "APPLICATION_LAUNCHED");
    assert_eq!(Event::DaemonMessage.c_name(), "DAEMON_MESSAGE");
}

#[test]
fn event_names_are_the_words_in_capitals() {
    assert_eq!(Event::SlsWindowOrdered.c_name(), "SLS_WINDOW_ORDERED");
    assert_eq!(
        Event::MissionControlCheckForExit.c_name(),
        "MISSION_CONTROL_CHECK_FOR_EXIT"
    );
    assert_eq!(Event::DockDidChangePref.c_name(), "DOCK_DID_CHANGE_PREF");
}

#[test]
fn events_of_like_names_are_told_apart() {
    let alike = [
        Event::WindowDestroyed,
        Event::SlsWindowDestroyed,
        Event::DisplayMoved,
        Event::MouseMoved,
        Event::WindowMoved,
        Event::MenuOpened,
        Event::MenuClosed,
    ];
    for (i, a) in alike.iter().enumerate() {
        for b in &alike[i + 1..] {
            assert_ne!(a.c_name(), b.c_name());
        }
    }
}
