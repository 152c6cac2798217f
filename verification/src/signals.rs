//! Signals: commands that run when an event of the window system fits them.
use vstd::prelude::*;

use crate::pattern;
use crate::rules;
use crate::text;
use crate::types::Selector;

verus! {

/// An event that a signal can subscribe to. Signals are listed in this order
/// of their events.
#[derive(Debug, Clone, Copy, PartialEq, Eq, Structural)]
pub enum SignalEvent {
    ApplicationLaunched,
    ApplicationTerminated,
    ApplicationFrontSwitched,
    ApplicationActivated,
    ApplicationDeactivated,
    ApplicationVisible,
    ApplicationHidden,
    WindowCreated,
    WindowDestroyed,
    WindowFocused,
    WindowMoved,
    WindowResized,
    WindowMinimized,
    WindowDeminimized,
    WindowTitleChanged,
    SpaceCreated,
    SpaceDestroyed,
    SpaceChanged,
    DisplayAdded,
    DisplayRemoved,
    DisplayMoved,
    DisplayResized,
    DisplayChanged,
    MissionControlEnter,
    MissionControlExit,
    DockDidChangePref,
    DockDidRestart,
    MenuBarHiddenChanged,
    SystemWoke,
}

/// How many events there are.
pub const EVENT_COUNT: u8 = 29;

/// The place of an event in the order of events.
pub open spec fn event_rank(event: SignalEvent) -> nat {
    match event {
        SignalEvent::ApplicationLaunched => 0,
        SignalEvent::ApplicationTerminated => 1,
        SignalEvent::ApplicationFrontSwitched => 2,
        SignalEvent::ApplicationActivated => 3,
        SignalEvent::ApplicationDeactivated => 4,
        SignalEvent::ApplicationVisible => 5,
        SignalEvent::ApplicationHidden => 6,
        SignalEvent::WindowCreated => 7,
        SignalEvent::WindowDestroyed => 8,
        SignalEvent::WindowFocused => 9,
        SignalEvent::WindowMoved => 10,
        SignalEvent::WindowResized => 11,
        SignalEvent::WindowMinimized => 12,
        SignalEvent::WindowDeminimized => 13,
        SignalEvent::WindowTitleChanged => 14,
        SignalEvent::SpaceCreated => 15,
        SignalEvent::SpaceDestroyed => 16,
        SignalEvent::SpaceChanged => 17,
        SignalEvent::DisplayAdded => 18,
        SignalEvent::DisplayRemoved => 19,
        SignalEvent::DisplayMoved => 20,
        SignalEvent::DisplayResized => 21,
        SignalEvent::DisplayChanged => 22,
        SignalEvent::MissionControlEnter => 23,
        SignalEvent::MissionControlExit => 24,
        SignalEvent::DockDidChangePref => 25,
        SignalEvent::DockDidRestart => 26,
        SignalEvent::MenuBarHiddenChanged => 27,
        SignalEvent::SystemWoke => 28,
    }
}

fn rank_of(event: SignalEvent) -> (r: u8)
    ensures
        r == event_rank(event),
        r < EVENT_COUNT,
{
    match event {
        SignalEvent::ApplicationLaunched => 0,
        SignalEvent::ApplicationTerminated => 1,
        SignalEvent::ApplicationFrontSwitched => 2,
        SignalEvent::ApplicationActivated => 3,
        SignalEvent::ApplicationDeactivated => 4,
        SignalEvent::ApplicationVisible => 5,
        SignalEvent::ApplicationHidden => 6,
        SignalEvent::WindowCreated => 7,
        SignalEvent::WindowDestroyed => 8,
        SignalEvent::WindowFocused => 9,
        SignalEvent::WindowMoved => 10,
        SignalEvent::WindowResized => 11,
        SignalEvent::WindowMinimized => 12,
        SignalEvent::WindowDeminimized => 13,
        SignalEvent::WindowTitleChanged => 14,
        SignalEvent::SpaceCreated => 15,
        SignalEvent::SpaceDestroyed => 16,
        SignalEvent::SpaceChanged => 17,
        SignalEvent::DisplayAdded => 18,
        SignalEvent::DisplayRemoved => 19,
        SignalEvent::DisplayMoved => 20,
        SignalEvent::DisplayResized => 21,
        SignalEvent::DisplayChanged => 22,
        SignalEvent::MissionControlEnter => 23,
        SignalEvent::MissionControlExit => 24,
        SignalEvent::DockDidChangePref => 25,
        SignalEvent::DockDidRestart => 26,
        SignalEvent::MenuBarHiddenChanged => 27,
        SignalEvent::SystemWoke => 28,
    }
}

/// The name of an event.
pub open spec fn event_text(event: SignalEvent) -> Seq<char> {
    match event {
        SignalEvent::ApplicationLaunched => "application_launched"@,
        SignalEvent::ApplicationTerminated => "application_terminated"@,
        SignalEvent::ApplicationFrontSwitched => "application_front_switched"@,
        SignalEvent::ApplicationActivated => "application_activated"@,
        SignalEvent::ApplicationDeactivated => "application_deactivated"@,
        SignalEvent::ApplicationVisible => "application_visible"@,
        SignalEvent::ApplicationHidden => "application_hidden"@,
        SignalEvent::WindowCreated => "window_created"@,
        SignalEvent::WindowDestroyed => "window_destroyed"@,
        SignalEvent::WindowFocused => "window_focused"@,
        SignalEvent::WindowMoved => "window_moved"@,
        SignalEvent::WindowResized => "window_resized"@,
        SignalEvent::WindowMinimized => "window_minimized"@,
        SignalEvent::WindowDeminimized => "window_deminimized"@,
        SignalEvent::WindowTitleChanged => "window_title_changed"@,
        SignalEvent::SpaceCreated => "space_created"@,
        SignalEvent::SpaceDestroyed => "space_destroyed"@,
        SignalEvent::SpaceChanged => "space_changed"@,
        SignalEvent::DisplayAdded => "display_added"@,
        SignalEvent::DisplayRemoved => "display_removed"@,
        SignalEvent::DisplayMoved => "display_moved"@,
        SignalEvent::DisplayResized => "display_resized"@,
        SignalEvent::DisplayChanged => "display_changed"@,
        SignalEvent::MissionControlEnter => "mission_control_enter"@,
        SignalEvent::MissionControlExit => "mission_control_exit"@,
        SignalEvent::DockDidChangePref => "dock_did_change_pref"@,
        SignalEvent::DockDidRestart => "dock_did_restart"@,
        SignalEvent::MenuBarHiddenChanged => "menu_bar_hidden_changed"@,
        SignalEvent::SystemWoke => "system_woke"@,
    }
}

impl SignalEvent {
    /// The name of an event.
    pub fn as_str(self) -> (r: &'static str)
        ensures
            r@ == event_text(self),
    {
        match self {
            SignalEvent::ApplicationLaunched => "application_launched",
            SignalEvent::ApplicationTerminated => "application_terminated",
            SignalEvent::ApplicationFrontSwitched => "application_front_switched",
            SignalEvent::ApplicationActivated => "application_activated",
            SignalEvent::ApplicationDeactivated => "application_deactivated",
            SignalEvent::ApplicationVisible => "application_visible",
            SignalEvent::ApplicationHidden => "application_hidden",
            SignalEvent::WindowCreated => "window_created",
            SignalEvent::WindowDestroyed => "window_destroyed",
            SignalEvent::WindowFocused => "window_focused",
            SignalEvent::WindowMoved => "window_moved",
            SignalEvent::WindowResized => "window_resized",
            SignalEvent::WindowMinimized => "window_minimized",
            SignalEvent::WindowDeminimized => "window_deminimized",
            SignalEvent::WindowTitleChanged => "window_title_changed",
            SignalEvent::SpaceCreated => "space_created",
            SignalEvent::SpaceDestroyed => "space_destroyed",
            SignalEvent::SpaceChanged => "space_changed",
            SignalEvent::DisplayAdded => "display_added",
            SignalEvent::DisplayRemoved => "display_removed",
            SignalEvent::DisplayMoved => "display_moved",
            SignalEvent::DisplayResized => "display_resized",
            SignalEvent::DisplayChanged => "display_changed",
            SignalEvent::MissionControlEnter => "mission_control_enter",
            SignalEvent::MissionControlExit => "mission_control_exit",
            SignalEvent::DockDidChangePref => "dock_did_change_pref",
            SignalEvent::DockDidRestart => "dock_did_restart",
            SignalEvent::MenuBarHiddenChanged => "menu_bar_hidden_changed",
            SignalEvent::SystemWoke => "system_woke",
        }
    }
}

/// Whether an event concerns an application that a signal can filter by.
pub open spec fn tells_app(event: SignalEvent) -> bool {
    match event {
        SignalEvent::ApplicationLaunched
        | SignalEvent::ApplicationActivated
        | SignalEvent::ApplicationDeactivated
        | SignalEvent::ApplicationVisible
        | SignalEvent::ApplicationTerminated
        | SignalEvent::ApplicationHidden
        | SignalEvent::WindowDestroyed
        | SignalEvent::WindowCreated
        | SignalEvent::WindowFocused
        | SignalEvent::WindowDeminimized
        | SignalEvent::WindowMoved
        | SignalEvent::WindowResized
        | SignalEvent::WindowMinimized
        | SignalEvent::WindowTitleChanged => true,
        _ => false,
    }
}

fn concerns_app(event: SignalEvent) -> (r: bool)
    ensures
        r == tells_app(event),
{
    match event {
        SignalEvent::ApplicationLaunched
        | SignalEvent::ApplicationActivated
        | SignalEvent::ApplicationDeactivated
        | SignalEvent::ApplicationVisible
        | SignalEvent::ApplicationTerminated
        | SignalEvent::ApplicationHidden
        | SignalEvent::WindowDestroyed
        | SignalEvent::WindowCreated
        | SignalEvent::WindowFocused
        | SignalEvent::WindowDeminimized
        | SignalEvent::WindowMoved
        | SignalEvent::WindowResized
        | SignalEvent::WindowMinimized
        | SignalEvent::WindowTitleChanged => true,
        _ => false,
    }
}

/// Whether an event concerns a window whose title a signal can filter by.
pub open spec fn tells_title(event: SignalEvent) -> bool {
    match event {
        SignalEvent::WindowCreated
        | SignalEvent::WindowFocused
        | SignalEvent::WindowDeminimized
        | SignalEvent::WindowMoved
        | SignalEvent::WindowResized
        | SignalEvent::WindowMinimized
        | SignalEvent::WindowTitleChanged => true,
        _ => false,
    }
}

fn concerns_title(event: SignalEvent) -> (r: bool)
    ensures
        r == tells_title(event),
{
    match event {
        SignalEvent::WindowCreated
        | SignalEvent::WindowFocused
        | SignalEvent::WindowDeminimized
        | SignalEvent::WindowMoved
        | SignalEvent::WindowResized
        | SignalEvent::WindowMinimized
        | SignalEvent::WindowTitleChanged => true,
        _ => false,
    }
}

/// Whether an event tells if its subject was active.
pub open spec fn tells_active(event: SignalEvent) -> bool {
    match event {
        SignalEvent::ApplicationTerminated
        | SignalEvent::ApplicationHidden
        | SignalEvent::WindowDestroyed
        | SignalEvent::WindowMoved
        | SignalEvent::WindowResized
        | SignalEvent::WindowMinimized
        | SignalEvent::WindowTitleChanged => true,
        _ => false,
    }
}

fn concerns_activity(event: SignalEvent) -> (r: bool)
    ensures
        r == tells_active(event),
{
    match event {
        SignalEvent::ApplicationTerminated
        | SignalEvent::ApplicationHidden
        | SignalEvent::WindowDestroyed
        | SignalEvent::WindowMoved
        | SignalEvent::WindowResized
        | SignalEvent::WindowMinimized
        | SignalEvent::WindowTitleChanged => true,
        _ => false,
    }
}

/// A command to run on an event.
#[derive(Debug)]
pub struct Signal {
    pub event: SignalEvent,
    pub action: String,
    pub label: Option<String>,
    pub app: Option<String>,
    pub app_exclude: bool,
    pub title: Option<String>,
    pub title_exclude: bool,
    pub active: Option<bool>,
}

/// The optional text, or the empty text.
pub open spec fn str_or_empty(value: Option<&str>) -> Seq<char> {
    match value {
        Some(s) => s@,
        None => Seq::empty(),
    }
}

impl Signal {
    /// Whether the filters that the event can be held against pass.
    pub open spec fn passes(
        self,
        event: SignalEvent,
        app: Option<&str>,
        title: Option<&str>,
        active: Option<bool>,
    ) -> bool {
        &&& tells_app(event) ==> pattern::filter_passes(
            self.app,
            self.app_exclude,
            str_or_empty(app),
        )
        &&& tells_title(event) ==> pattern::filter_passes(
            self.title,
            self.title_exclude,
            str_or_empty(title),
        )
        &&& tells_active(event) && self.active is Some ==> active == self.active
    }

    /// Whether the signal fires on an event in a context.
    pub open spec fn fires(
        self,
        event: SignalEvent,
        app: Option<&str>,
        title: Option<&str>,
        active: Option<bool>,
    ) -> bool {
        self.event == event && self.passes(event, app, title, active)
    }

    /// Whether every pattern of the signal compiles.
    pub open spec fn compiles(self) -> bool {
        pattern::usable(self.app) && pattern::usable(self.title)
    }

    /// The complaint about the first pattern that does not compile.
    pub open spec fn complaint(self) -> Seq<char> {
        if !pattern::usable(self.app) {
            pattern::bad_pattern(self.app->0@, "app"@)
        } else {
            pattern::bad_pattern(self.title->0@, "title"@)
        }
    }

    /// Whether the filters that the event can be held against pass.
    pub fn matches(
        &self,
        event: SignalEvent,
        app: Option<&str>,
        title: Option<&str>,
        active: Option<bool>,
    ) -> (r: bool)
        ensures
            r == self.passes(event, app, title, active),
    {
        if concerns_app(event) && !signal_filter_ok(&self.app, self.app_exclude, app) {
            return false;
        }
        if concerns_title(event) && !signal_filter_ok(&self.title, self.title_exclude, title) {
            return false;
        }
        !concerns_activity(event) || self.active_matches(active)
    }

    /// Whether the subject was active as the signal wants it.
    pub fn active_matches(&self, active: Option<bool>) -> (r: bool)
        ensures
            r == (self.active is Some ==> active == self.active),
    {
        match self.active {
            None => true,
            Some(expected) => match active {
                Some(actual) => actual == expected,
                None => false,
            },
        }
    }
}

/// What one filter says; an absent value is held to be empty.
pub fn signal_filter_ok(pattern: &Option<String>, exclude: bool, value: Option<&str>) -> (r: bool)
    ensures
        r == pattern::filter_passes(*pattern, exclude, str_or_empty(value)),
{
    match value {
        Some(s) => pattern::filter_ok(pattern, exclude, s),
        None => {
            proof {
                reveal_strlit("");
                assert(""@ =~= Seq::<char>::empty());
            }
            pattern::filter_ok(pattern, exclude, "")
        },
    }
}

/// Check the patterns of a signal; the signal is handed back if all compile.
pub fn compile_signal(signal: Signal) -> (r: Result<Signal, String>)
    ensures
        match r {
            Ok(checked) => signal.compiles() && checked == signal,
            Err(error) => !signal.compiles() && error@ == signal.complaint(),
        },
{
    if let Err(error) = pattern::check_pattern(&signal.app, "app") {
        return Err(error);
    }
    if let Err(error) = pattern::check_pattern(&signal.title, "title") {
        return Err(error);
    }
    Ok(signal)
}

/// Whether a signal carries a label.
pub open spec fn is_labelled(signal: Signal, label: Seq<char>) -> bool {
    signal.label is Some && signal.label->0@ == label
}

/// The signals after a new one is added: it replaces any that carries its
/// label.
pub open spec fn with_signal(signals: Seq<Signal>, signal: Signal) -> Seq<Signal> {
    if signal.label is Some {
        signals.filter(|other: Signal| !is_labelled(other, signal.label->0@)).push(signal)
    } else {
        signals.push(signal)
    }
}

/// Add a signal; it replaces any that carries its label.
pub fn add_signal(signals: &mut Vec<Signal>, signal: Signal)
    ensures
        final(signals)@ == with_signal(old(signals)@, signal),
{
    if let Some(label) = &signal.label {
        let ghost pre = signals@;
        let ghost name = label@;
        let ghost keep = |other: Signal| !is_labelled(other, name);
        let ghost mut k: int = 0;
        let mut i: usize = 0;
        proof {
            reveal(Seq::filter);
            assert(pre.take(0).filter(keep) =~= Seq::<Signal>::empty());
            assert(pre.skip(0) =~= pre);
        }
        while i < signals.len()
            invariant
                name == label@,
                keep == (|other: Signal| !is_labelled(other, name)),
                0 <= k <= pre.len(),
                i <= signals@.len(),
                i == pre.take(k).filter(keep).len(),
                signals@ == pre.take(k).filter(keep) + pre.skip(k),
            decreases signals.len() - i,
        {
            proof {
                assert(signals@[i as int] == pre.skip(k)[0]);
                assert(pre.skip(k)[0] == pre[k]);
                rules::lemma_filter_step(pre, k, keep);
            }
            let ghost front = pre.take(k).filter(keep);
            if rules::label_is(&signals[i].label, label.as_str()) {
                let _ = signals.remove(i);
                assert(signals@ =~= front + pre.skip(k + 1));
            } else {
                assert(signals@ =~= front.push(pre[k]) + pre.skip(k + 1));
                i += 1;
            }
            proof {
                k = k + 1;
            }
        }
        proof {
            assert(pre.skip(k).len() == 0);
            assert(pre.take(k) =~= pre);
            assert(signals@ =~= pre.filter(keep));
        }
    }
    signals.push(signal);
}

/// The positions below `upto` of the signals on the event with a given rank.
pub open spec fn positions_of(signals: Seq<Signal>, rank: nat, upto: int) -> Seq<int>
    decreases upto,
{
    if upto <= 0 {
        Seq::empty()
    } else if event_rank(signals[upto - 1].event) == rank {
        positions_of(signals, rank, upto - 1).push(upto - 1)
    } else {
        positions_of(signals, rank, upto - 1)
    }
}

/// The positions of the signals on the first `ranks` events, event by event.
pub open spec fn grouped(signals: Seq<Signal>, ranks: nat) -> Seq<int>
    decreases ranks,
{
    if ranks == 0 {
        Seq::empty()
    } else {
        grouped(signals, (ranks - 1) as nat) + positions_of(
            signals,
            (ranks - 1) as nat,
            signals.len() as int,
        )
    }
}

/// The listing order of signals: grouped by event, each group in the order of
/// registration.
pub open spec fn listing_order(signals: Seq<Signal>) -> Seq<int> {
    grouped(signals, EVENT_COUNT as nat)
}

/// The listing order of signals.
pub fn signal_order(signals: &Vec<Signal>) -> (r: Vec<usize>)
    ensures
        r@.map_values(|p: usize| p as int) == listing_order(signals@),
        forall|i: int| 0 <= i < r@.len() ==> #[trigger] r@[i] < signals@.len(),
{
    let mut order: Vec<usize> = Vec::new();
    let mut rank: u8 = 0;
    proof {
        assert(order@.map_values(|p: usize| p as int) =~= grouped(signals@, 0));
    }
    while rank < EVENT_COUNT
        invariant
            rank <= EVENT_COUNT,
            order@.map_values(|p: usize| p as int) == grouped(signals@, rank as nat),
            forall|i: int| 0 <= i < order@.len() ==> #[trigger] order@[i] < signals@.len(),
        decreases EVENT_COUNT - rank,
    {
        let ghost before = grouped(signals@, rank as nat);
        let mut pos: usize = 0;
        assert(before + positions_of(signals@, rank as nat, 0) =~= before);
        while pos < signals.len()
            invariant
                rank < EVENT_COUNT,
                pos <= signals@.len(),
                order@.map_values(|p: usize| p as int) == before + positions_of(
                    signals@,
                    rank as nat,
                    pos as int,
                ),
                forall|i: int| 0 <= i < order@.len() ==> #[trigger] order@[i] < signals@.len(),
            decreases signals.len() - pos,
        {
            let ghost shown = order@.map_values(|p: usize| p as int);
            if rank_of(signals[pos].event) == rank {
                order.push(pos);
                assert(order@.map_values(|p: usize| p as int) =~= shown.push(pos as int));
                assert(shown.push(pos as int) =~= before + positions_of(
                    signals@,
                    rank as nat,
                    pos + 1,
                ));
            }
            pos += 1;
        }
        rank += 1;
    }
    order
}

/// The position of the first signal with a label.
pub open spec fn first_labelled(signals: Seq<Signal>, label: Seq<char>) -> Option<int>
    decreases signals.len(),
{
    if signals.len() == 0 {
        None
    } else {
        match first_labelled(signals.drop_last(), label) {
            Some(i) => Some(i),
            None => if is_labelled(signals.last(), label) {
                Some(signals.len() - 1)
            } else {
                None
            },
        }
    }
}

/// The position of the first signal with a label.
pub fn signal_index_by_label(signals: &Vec<Signal>, label: &str) -> (r: Option<usize>)
    ensures
        match r {
            Some(i) => first_labelled(signals@, label@) == Some(i as int) && i < signals@.len(),
            None => first_labelled(signals@, label@) is None,
        },
{
    let mut found: Option<usize> = None;
    let mut i: usize = 0;
    while i < signals.len()
        invariant
            i <= signals.len(),
            match found {
                Some(j) => first_labelled(signals@.take(i as int), label@) == Some(j as int) && j
                    < i,
                None => first_labelled(signals@.take(i as int), label@) is None,
            },
        decreases signals.len() - i,
    {
        proof {
            assert(signals@.take(i + 1).drop_last() =~= signals@.take(i as int));
        }
        if found.is_none() && rules::label_is(&signals[i].label, label) {
            found = Some(i);
        }
        i += 1;
    }
    assert(signals@.take(signals@.len() as int) =~= signals@);
    found
}

/// The signal that a selector names for removal.
pub open spec fn selected(signals: Seq<Signal>, selector: Option<Selector>) -> Option<int> {
    match selector {
        Some(Selector::Index(index)) => if index < listing_order(signals).len() {
            Some(listing_order(signals)[index as int])
        } else {
            None
        },
        Some(Selector::Label(label)) => first_labelled(signals, label@),
        _ => None,
    }
}

/// The complaint about a selector that names no signal.
pub open spec fn selection_error(selector: Option<Selector>) -> Seq<char> {
    match selector {
        Some(Selector::Index(index)) => "signal with index '"@ + text::decimal(index as nat)
            + "' not found.\n"@,
        Some(Selector::Label(label)) => "signal with label '"@ + label@ + "' not found.\n"@,
        _ => "a valid signal selector (index or label) is required.\n"@,
    }
}

/// Remove the signal at a listing index or with a label.
pub fn remove_signal(signals: &mut Vec<Signal>, selector: &Option<Selector>) -> (r: Result<
    (),
    String,
>)
    ensures
        match selected(old(signals)@, *selector) {
            Some(pos) => r is Ok && 0 <= pos < old(signals)@.len() && final(signals)@ == old(signals)@.remove(pos),
            None => r is Err && r->Err_0@ == selection_error(*selector) && final(signals)@ == old(signals)@,
        },
{
    match selector {
        Some(Selector::Index(index)) => {
            let order = signal_order(signals);
            let at = *index as usize;
            assert(order@.map_values(|p: usize| p as int).len() == order@.len());
            if at < order.len() {
                let pos = order[at];
                assert(order@.map_values(|p: usize| p as int)[at as int] == pos as int);
                let _ = signals.remove(pos);
                Ok(())
            } else {
                let mut out = "signal with index '".to_owned();
                text::push_decimal(&mut out, *index as u64);
                out.append("' not found.\n");
                Err(out)
            }
        },
        Some(Selector::Label(label)) => match signal_index_by_label(signals, label.as_str()) {
            Some(pos) => {
                let _ = signals.remove(pos);
                Ok(())
            },
            None => {
                let mut out = "signal with label '".to_owned();
                out.append(label.as_str());
                out.append("' not found.\n");
                Err(out)
            },
        },
        _ => Err("a valid signal selector (index or label) is required.\n".to_owned()),
    }
}

/// A signal as it is listed.
pub open spec fn signal_text(signal: Signal, index: nat) -> Seq<char> {
    "{\n\t\"index\":"@ + text::decimal(index) + ",\n\t\"label\":\""@ + text::json_escaped(
        text::text_or_empty(signal.label),
    ) + "\",\n\t\"app\":\""@ + text::json_escaped(text::text_or_empty(signal.app))
        + "\",\n\t\"title\":\""@ + text::json_escaped(text::text_or_empty(signal.title))
        + "\",\n\t\"active\":"@ + text::optional_bool_text(signal.active)
        + ",\n\t\"event\":\""@ + event_text(signal.event) + "\",\n\t\"action\":\""@
        + text::json_escaped(signal.action@) + "\"\n}"@
}

fn serialize_signal(signal: &Signal, index: usize) -> (r: String)
    ensures
        r@ == signal_text(*signal, index as nat),
{
    let mut out = "{\n\t\"index\":".to_owned();
    text::push_decimal(&mut out, index as u64);
    out.append(",\n\t\"label\":\"");
    rules::push_escaped(&mut out, &signal.label);
    out.append("\",\n\t\"app\":\"");
    rules::push_escaped(&mut out, &signal.app);
    out.append("\",\n\t\"title\":\"");
    rules::push_escaped(&mut out, &signal.title);
    out.append("\",\n\t\"active\":");
    out.append(text::optional_bool(signal.active));
    out.append(",\n\t\"event\":\"");
    out.append(signal.event.as_str());
    out.append("\",\n\t\"action\":\"");
    let action = text::json_escape(signal.action.as_str());
    out.append(action.as_str());
    out.append("\"\n}");
    out
}

/// The signals as they are listed: in listing order, numbered from zero.
pub open spec fn signal_texts(signals: Seq<Signal>) -> Seq<Seq<char>> {
    Seq::new(
        listing_order(signals).len(),
        |i: int| signal_text(signals[listing_order(signals)[i]], i as nat),
    )
}

/// The listing of all signals.
pub open spec fn listing(signals: Seq<Signal>) -> Seq<char> {
    "["@ + text::joined(signal_texts(signals), ","@) + "]\n"@
}

/// List all signals.
pub fn serialize_signals(signals: &Vec<Signal>) -> (r: String)
    ensures
        r@ == listing(signals@),
{
    let order = signal_order(signals);
    let mut parts: Vec<String> = Vec::new();
    let mut i: usize = 0;
    assert(order@.map_values(|p: usize| p as int).len() == order@.len());
    while i < order.len()
        invariant
            i <= order.len(),
            order@.map_values(|p: usize| p as int) == listing_order(signals@),
            order@.len() == listing_order(signals@).len(),
            forall|j: int| 0 <= j < order@.len() ==> #[trigger] order@[j] < signals@.len(),
            parts@.len() == i,
            forall|j: int|
                0 <= j < i ==> (#[trigger] parts@[j])@ == signal_text(
                    signals@[listing_order(signals@)[j]],
                    j as nat,
                ),
        decreases order.len() - i,
    {
        assert(order@.map_values(|p: usize| p as int)[i as int] == order@[i as int] as int);
        parts.push(serialize_signal(&signals[order[i]], i));
        i += 1;
    }
    assert(text::texts(parts@) =~= signal_texts(signals@));
    let mut out = "[".to_owned();
    text::push_joined(&mut out, &parts, ",");
    out.append("]\n");
    out
}

/// The commands of the signals that fire on an event in a context, in the order
/// of registration.
pub open spec fn fired_actions(
    signals: Seq<Signal>,
    event: SignalEvent,
    app: Option<&str>,
    title: Option<&str>,
    active: Option<bool>,
) -> Seq<Seq<char>> {
    signals.filter(|s: Signal| s.fires(event, app, title, active)).map_values(
        |s: Signal| s.action@,
    )
}

/// The commands of the signals that fire on an event in a context.
pub fn signal_actions_for_context(
    signals: &Vec<Signal>,
    event: SignalEvent,
    app: Option<&str>,
    title: Option<&str>,
    active: Option<bool>,
) -> (r: Vec<String>)
    ensures
        text::texts(r@) == fired_actions(signals@, event, app, title, active),
{
    let ghost keep = |s: Signal| s.fires(event, app, title, active);
    let ghost action = |s: Signal| s.action@;
    let mut out: Vec<String> = Vec::new();
    let mut i: usize = 0;
    proof {
        reveal(Seq::filter);
        assert(signals@.take(0).filter(keep).map_values(action) =~= Seq::<Seq<char>>::empty());
        assert(text::texts(out@) =~= Seq::<Seq<char>>::empty());
    }
    while i < signals.len()
        invariant
            i <= signals.len(),
            keep == (|s: Signal| s.fires(event, app, title, active)),
            action == (|s: Signal| s.action@),
            text::texts(out@) == signals@.take(i as int).filter(keep).map_values(action),
        decreases signals.len() - i,
    {
        let ghost before = text::texts(out@);
        proof {
            rules::lemma_filter_step(signals@, i as int, keep);
        }
        let signal = &signals[i];
        if signal.event == event && signal.matches(event, app, title, active) {
            out.push(signal.action.clone());
            proof {
                let kept = signals@.take(i as int).filter(keep);
                assert(kept.push(signals@[i as int]).map_values(action) =~= kept.map_values(
                    action,
                ).push(signals@[i as int].action@));
                assert(text::texts(out@) =~= before.push(signals@[i as int].action@));
            }
        }
        i += 1;
    }
    assert(signals@.take(signals@.len() as int) =~= signals@);
    out
}

/// After a signal with a label is added it is the only one that carries it.
pub proof fn law_signal_labels_are_unique(signals: Seq<Signal>, signal: Signal, i: int)
    requires
        signal.label is Some,
        0 <= i < with_signal(signals, signal).len(),
        is_labelled(with_signal(signals, signal)[i], signal.label->0@),
    ensures
        i == with_signal(signals, signal).len() - 1,
        with_signal(signals, signal)[i] == signal,
{
    let keep = |other: Signal| !is_labelled(other, signal.label->0@);
    let kept = signals.filter(keep);
    if i < kept.len() {
        signals.lemma_filter_pred(keep, i);
    }
}

proof fn lemma_positions(signals: Seq<Signal>, rank: nat, upto: int)
    requires
        0 <= upto <= signals.len(),
    ensures
        forall|i: int|
            0 <= i < positions_of(signals, rank, upto).len() ==> {
                &&& 0 <= #[trigger] positions_of(signals, rank, upto)[i] < upto
                &&& event_rank(signals[positions_of(signals, rank, upto)[i]].event) == rank
            },
        forall|i: int, j: int|
            0 <= i < j < positions_of(signals, rank, upto).len() ==> #[trigger] positions_of(
                signals,
                rank,
                upto,
            )[i] < #[trigger] positions_of(signals, rank, upto)[j],
        forall|p: int|
            0 <= p < upto && event_rank(signals[p].event) == rank ==> #[trigger] positions_of(
                signals,
                rank,
                upto,
            ).contains(p),
    decreases upto,
{
    if upto > 0 {
        lemma_positions(signals, rank, upto - 1);
        let before = positions_of(signals, rank, upto - 1);
        let now = positions_of(signals, rank, upto);
        assert forall|p: int|
            0 <= p < upto && event_rank(signals[p].event) == rank implies #[trigger] now.contains(
            p,
        ) by {
            if p < upto - 1 {
                assert(before.contains(p));
                let i = choose|i: int| 0 <= i < before.len() && before[i] == p;
                assert(now[i] == p);
            } else {
                assert(now[now.len() - 1] == p);
            }
        }
    }
}

proof fn lemma_grouped(signals: Seq<Signal>, ranks: nat)
    ensures
        forall|i: int|
            0 <= i < grouped(signals, ranks).len() ==> {
                &&& 0 <= #[trigger] grouped(signals, ranks)[i] < signals.len()
                &&& event_rank(signals[grouped(signals, ranks)[i]].event) < ranks
            },
        forall|i: int, j: int|
            0 <= i < j < grouped(signals, ranks).len() ==> listed_before(
                signals,
                #[trigger] grouped(signals, ranks)[i],
                #[trigger] grouped(signals, ranks)[j],
            ),
        forall|p: int|
            0 <= p < signals.len() && event_rank(signals[p].event) < ranks ==> #[trigger] grouped(
                signals,
                ranks,
            ).contains(p),
    decreases ranks,
{
    if ranks > 0 {
        let lower = (ranks - 1) as nat;
        lemma_grouped(signals, lower);
        lemma_positions(signals, lower, signals.len() as int);
        let a = grouped(signals, lower);
        let b = positions_of(signals, lower, signals.len() as int);
        let all = grouped(signals, ranks);
        assert forall|i: int| 0 <= i < all.len() implies {
            &&& 0 <= #[trigger] all[i] < signals.len()
            &&& event_rank(signals[all[i]].event) < ranks
        } by {
            if i < a.len() {
                assert(all[i] == a[i]);
            } else {
                assert(all[i] == b[i - a.len()]);
            }
        }
        assert forall|i: int, j: int| 0 <= i < j < all.len() implies listed_before(
            signals,
            #[trigger] all[i],
            #[trigger] all[j],
        ) by {
            if i < a.len() {
                assert(all[i] == a[i]);
            } else {
                assert(all[i] == b[i - a.len()]);
            }
            if j < a.len() {
                assert(all[j] == a[j]);
            } else {
                assert(all[j] == b[j - a.len()]);
            }
        }
        assert forall|p: int|
            0 <= p < signals.len() && event_rank(signals[p].event)
                < ranks implies #[trigger] all.contains(p) by {
            if event_rank(signals[p].event) < lower {
                assert(a.contains(p));
                let i = choose|i: int| 0 <= i < a.len() && a[i] == p;
                assert(all[i] == p);
            } else {
                assert(b.contains(p));
                let i = choose|i: int| 0 <= i < b.len() && b[i] == p;
                assert(all[a.len() + i] == p);
            }
        }
    }
}

/// Whether one signal is listed before another: its event comes first, or they
/// share the event and it was registered first.
pub open spec fn listed_before(signals: Seq<Signal>, p: int, q: int) -> bool {
    ||| event_rank(signals[p].event) < event_rank(signals[q].event)
    ||| event_rank(signals[p].event) == event_rank(signals[q].event) && p < q
}

/// The listing holds every signal once, events in their order, and signals on
/// one event in the order of registration.
pub proof fn law_listing_order(signals: Seq<Signal>)
    ensures
        forall|i: int|
            0 <= i < listing_order(signals).len() ==> 0 <= #[trigger] listing_order(signals)[i]
                < signals.len(),
        forall|i: int, j: int|
            0 <= i < j < listing_order(signals).len() ==> listed_before(
                signals,
                #[trigger] listing_order(signals)[i],
                #[trigger] listing_order(signals)[j],
            ),
        forall|p: int|
            0 <= p < signals.len() ==> #[trigger] listing_order(signals).contains(p),
{
    lemma_grouped(signals, EVENT_COUNT as nat);
    assert forall|p: int| 0 <= p < signals.len() implies #[trigger] listing_order(
        signals,
    ).contains(p) by {
        assert(event_rank(signals[p].event) < EVENT_COUNT);
    }
}

/// A signal fires on its own event alone, and only if its filters let it: the
/// pattern for the application on events that concern one, that for the title on
/// events that concern a window that is still there, and whether the subject was
/// active on events that tell. An absent application or title is empty.
pub proof fn law_signal_fires_by_its_filters(
    signal: Signal,
    event: SignalEvent,
    app: Option<&str>,
    title: Option<&str>,
    active: Option<bool>,
)
    ensures
        signal.fires(event, app, title, active) ==> signal.event == event,
        ({
            let app_found = signal.app is Some && pattern::regex_compiles(
                signal.app->0@,
                usize::BITS,
            ) && pattern::regex_is_match(
                signal.app->0@,
                if app is Some {
                    app->0@
                } else {
                    Seq::<char>::empty()
                },
            );
            let title_found = signal.title is Some && pattern::regex_compiles(
                signal.title->0@,
                usize::BITS,
            ) && pattern::regex_is_match(
                signal.title->0@,
                if title is Some {
                    title->0@
                } else {
                    Seq::<char>::empty()
                },
            );
            let app_bars = signal.app is Some && app_found == signal.app_exclude;
            let title_bars = signal.title is Some && title_found == signal.title_exclude;
            let activity_bars = signal.active is Some && active != signal.active;
            &&& event is ApplicationFrontSwitched || event is SpaceCreated
                || event is SpaceDestroyed || event is SpaceChanged || event is DisplayAdded
                || event is DisplayRemoved || event is DisplayMoved || event is DisplayResized
                || event is DisplayChanged || event is MissionControlEnter
                || event is MissionControlExit || event is DockDidChangePref
                || event is DockDidRestart || event is MenuBarHiddenChanged || event is SystemWoke
                ==> signal.fires(event, app, title, active) == (signal.event == event)
            &&& event is ApplicationLaunched || event is ApplicationActivated
                || event is ApplicationDeactivated || event is ApplicationVisible ==> signal.fires(
                event,
                app,
                title,
                active,
            ) == (signal.event == event && !app_bars)
            &&& event is ApplicationTerminated || event is ApplicationHidden
                || event is WindowDestroyed ==> signal.fires(event, app, title, active) == (
            signal.event == event && !app_bars && !activity_bars)
            &&& event is WindowCreated || event is WindowFocused || event is WindowDeminimized
                ==> signal.fires(event, app, title, active) == (signal.event == event && !app_bars
                && !title_bars)
            &&& event is WindowMoved || event is WindowResized || event is WindowMinimized
                || event is WindowTitleChanged ==> signal.fires(event, app, title, active) == (
            signal.event == event && !app_bars && !title_bars && !activity_bars)
        }),
{
}

/// The commands to run are those of the signals that fire, in the order of
/// registration.
pub proof fn law_fired_commands(
    signals: Seq<Signal>,
    signal: Signal,
    event: SignalEvent,
    app: Option<&str>,
    title: Option<&str>,
    active: Option<bool>,
)
    ensures
        fired_actions(Seq::empty(), event, app, title, active) == Seq::<Seq<char>>::empty(),
        signal.fires(event, app, title, active) ==> fired_actions(
            signals.push(signal),
            event,
            app,
            title,
            active,
        ) == fired_actions(signals, event, app, title, active).push(signal.action@),
        !signal.fires(event, app, title, active) ==> fired_actions(
            signals.push(signal),
            event,
            app,
            title,
            active,
        ) == fired_actions(signals, event, app, title, active),
{
    reveal(Seq::filter);
    let keep = |s: Signal| s.fires(event, app, title, active);
    assert(signals.push(signal).drop_last() =~= signals);
    assert(fired_actions(Seq::empty(), event, app, title, active) =~= Seq::<Seq<char>>::empty());
    if signal.fires(event, app, title, active) {
        assert(fired_actions(signals.push(signal), event, app, title, active) =~= fired_actions(
            signals,
            event,
            app,
            title,
            active,
        ).push(signal.action@));
    }
}

/// A signal is refused exactly if one of its patterns does not compile, and the
/// complaint names the first such pattern and its key.
pub proof fn law_refused_signal(signal: Signal)
    ensures
        ({
            let app_ok = signal.app is Some ==> pattern::regex_compiles(
                signal.app->0@,
                usize::BITS,
            );
            let title_ok = signal.title is Some ==> pattern::regex_compiles(
                signal.title->0@,
                usize::BITS,
            );
            &&& signal.compiles() == (app_ok && title_ok)
            &&& !app_ok ==> signal.complaint() == "invalid regex pattern '"@ + signal.app->0@
                + "' for key '"@ + "app"@ + "'\n"@
            &&& app_ok && !title_ok ==> signal.complaint() == "invalid regex pattern '"@
                + signal.title->0@ + "' for key '"@ + "title"@ + "'\n"@
        }),
{
}

/// A new signal comes last. Without a label it takes no other's place; with one, only
/// the signals that carry it leave, and the others keep their order.
pub proof fn law_new_signal_comes_last(signals: Seq<Signal>, other: Signal, signal: Signal)
    ensures
        with_signal(signals, signal).len() > 0,
        with_signal(signals, signal).last() == signal,
        signal.label is None ==> with_signal(signals, signal) == signals.push(signal),
        with_signal(Seq::empty(), signal) == seq![signal],
        signal.label is Some && other.label is Some && other.label->0@ == signal.label->0@
            ==> with_signal(signals.push(other), signal) == with_signal(signals, signal),
        signal.label is Some && (other.label is None || other.label->0@ != signal.label->0@)
            ==> with_signal(signals.push(other), signal) == with_signal(
            signals,
            signal,
        ).drop_last().push(other).push(signal),
{
    reveal(Seq::filter);
    assert(signals.push(other).drop_last() =~= signals);
    assert(with_signal(Seq::empty(), signal) =~= seq![signal]);
    if signal.label is Some {
        let kept = signals.filter(|s: Signal| !is_labelled(s, signal.label->0@));
        assert(with_signal(signals, signal).drop_last() =~= kept);
    }
}

/// The signal found for a label carries it, and none before it does; where none is
/// found, none carries it.
pub proof fn law_first_labelled_signal(signals: Seq<Signal>, label: Seq<char>)
    ensures
        match first_labelled(signals, label) {
            Some(i) => {
                &&& 0 <= i < signals.len()
                &&& signals[i].label is Some
                &&& signals[i].label->0@ == label
                &&& forall|j: int|
                    0 <= j < i ==> (#[trigger] signals[j]).label is None || signals[j].label->0@
                        != label
            },
            None => forall|j: int|
                0 <= j < signals.len() ==> (#[trigger] signals[j]).label is None
                    || signals[j].label->0@ != label,
        },
    decreases signals.len(),
{
    if signals.len() > 0 {
        let less = signals.drop_last();
        law_first_labelled_signal(less, label);
        assert forall|j: int| 0 <= j < less.len() implies #[trigger] signals[j] == less[j] by {}
        assert(signals.last() == signals[signals.len() - 1]);
    }
}

/// A signal is named by its place in the listing or by its label; any other selector
/// is refused.
pub proof fn law_signal_selectors(
    signals: Seq<Signal>,
    selector: Option<Selector>,
    index: u32,
    label: String,
)
    ensures
        selector == Some(Selector::Index(index)) && index < signals.len() ==> {
            &&& selected(signals, selector) == Some(listing_order(signals)[index as int])
            &&& selected(signals, selector) is Some
        },
        selector == Some(Selector::Index(index)) && index >= signals.len() ==> {
            &&& selected(signals, selector) is None
            &&& selection_error(selector) == "signal with index '"@ + text::decimal(index as nat)
                + "' not found.\n"@
        },
        selector == Some(Selector::Label(label)) ==> {
            &&& selected(signals, selector) == first_labelled(signals, label@)
            &&& selection_error(selector) == "signal with label '"@ + label@ + "' not found.\n"@
        },
        !(selector is Some && (selector->0 is Index || selector->0 is Label)) ==> {
            &&& selected(signals, selector) is None
            &&& selection_error(selector) == "a valid signal selector (index or label) is required.\n"@
        },
{
    law_listing_order(signals);
    lemma_listing_length(signals);
}

/// The listing has as many entries as there are signals.
proof fn lemma_listing_length(signals: Seq<Signal>)
    ensures
        listing_order(signals).len() == signals.len(),
{
    law_listing_order(signals);
    let order = listing_order(signals);
    assert forall|i: int, j: int| 0 <= i < order.len() && 0 <= j < order.len() && i != j implies order[i]
        != order[j] by {
        if i < j {
            assert(listed_before(signals, order[i], order[j]));
        } else {
            assert(listed_before(signals, order[j], order[i]));
        }
    }
    assert(order.no_duplicates());
    order.unique_seq_to_set();
    let all = vstd::set_lib::set_int_range(0, signals.len() as int);
    vstd::set_lib::lemma_int_range(0, signals.len() as int);
    assert forall|p: int| #[trigger] order.to_set().contains(p) <==> all.contains(p) by {
        if all.contains(p) {
            assert(order.contains(p));
        }
        if order.to_set().contains(p) {
            assert(order.contains(p));
            let i = choose|i: int| 0 <= i < order.len() && order[i] == p;
            assert(0 <= order[i] < signals.len());
        }
    }
    assert(order.to_set() =~= all);
}

#[verifier::spinoff_prover]
proof fn lemma_signal_literals()
    ensures
        "{\n\t\"index\":"@
            == "{\n"@ + ("\t\""@ + "index"@ + "\":"@ + ""@),
        ",\n\t\"label\":\""@
            == ",\n"@ + ("\t\""@ + "label"@ + "\":"@ + "\""@),
        "\",\n\t\"app\":\""@
            == "\",\n"@ + ("\t\""@ + "app"@ + "\":"@ + "\""@),
        "\",\n\t\"title\":\""@
            == "\",\n"@ + ("\t\""@ + "title"@ + "\":"@ + "\""@),
        "\",\n\t\"active\":"@
            == "\",\n"@ + ("\t\""@ + "active"@ + "\":"@ + ""@),
        ",\n\t\"event\":\""@
            == ",\n"@ + ("\t\""@ + "event"@ + "\":"@ + "\""@),
        "\",\n\t\"action\":\""@
            == "\",\n"@ + ("\t\""@ + "action"@ + "\":"@ + "\""@),
        ",\n\t\"label\":\""@ == ""@ + ",\n\t\"label\":\""@,
        ",\n\t\"label\":\""@.len() > 0,
        ",\n\t\"label\":\""@[0] == ',',
        "\",\n\t\"app\":\""@ == "\""@ + ",\n\t\"app\":\""@,
        ",\n\t\"app\":\""@.len() > 0,
        ",\n\t\"app\":\""@[0] == ',',
        "\",\n\t\"title\":\""@ == "\""@ + ",\n\t\"title\":\""@,
        ",\n\t\"title\":\""@.len() > 0,
        ",\n\t\"title\":\""@[0] == ',',
        "\",\n\t\"active\":"@ == "\""@ + ",\n\t\"active\":"@,
        ",\n\t\"active\":"@.len() > 0,
        ",\n\t\"active\":"@[0] == ',',
        ",\n\t\"event\":\""@ == ""@ + ",\n\t\"event\":\""@,
        ",\n\t\"event\":\""@.len() > 0,
        ",\n\t\"event\":\""@[0] == ',',
        "\",\n\t\"action\":\""@ == "\""@ + ",\n\t\"action\":\""@,
        ",\n\t\"action\":\""@.len() > 0,
        ",\n\t\"action\":\""@[0] == ',',
        "\"\n}"@ == "\""@ + "\n}"@,
        "\n}"@.len() > 0,
        "\n}"@[0] == '\n',
        ""@ == Seq::<char>::empty(),
{
    reveal_strlit("{\n\t\"index\":");
    reveal_strlit("{\n");
    reveal_strlit("index");
    reveal_strlit("");
    reveal_strlit(",\n\t\"label\":\"");
    reveal_strlit(",\n");
    reveal_strlit("label");
    reveal_strlit("\"");
    reveal_strlit("\",\n\t\"app\":\"");
    reveal_strlit("\",\n");
    reveal_strlit("app");
    reveal_strlit("\",\n\t\"title\":\"");
    reveal_strlit("title");
    reveal_strlit("\",\n\t\"active\":");
    reveal_strlit("active");
    reveal_strlit(",\n\t\"event\":\"");
    reveal_strlit("event");
    reveal_strlit("\",\n\t\"action\":\"");
    reveal_strlit("action");
    reveal_strlit(",\n\t\"app\":\"");
    reveal_strlit(",\n\t\"title\":\"");
    reveal_strlit(",\n\t\"active\":");
    reveal_strlit(",\n\t\"action\":\"");
    reveal_strlit("\"\n}");
    reveal_strlit("\n}");
    reveal_strlit("\t\"");
    reveal_strlit("\":");
    assert("{\n\t\"index\":"@
        =~= "{\n"@ + ("\t\""@ + "index"@ + "\":"@ + ""@));
    assert(",\n\t\"label\":\""@
        =~= ",\n"@ + ("\t\""@ + "label"@ + "\":"@ + "\""@));
    assert("\",\n\t\"app\":\""@
        =~= "\",\n"@ + ("\t\""@ + "app"@ + "\":"@ + "\""@));
    assert("\",\n\t\"title\":\""@
        =~= "\",\n"@ + ("\t\""@ + "title"@ + "\":"@ + "\""@));
    assert("\",\n\t\"active\":"@
        =~= "\",\n"@ + ("\t\""@ + "active"@ + "\":"@ + ""@));
    assert(",\n\t\"event\":\""@
        =~= ",\n"@ + ("\t\""@ + "event"@ + "\":"@ + "\""@));
    assert("\",\n\t\"action\":\""@
        =~= "\",\n"@ + ("\t\""@ + "action"@ + "\":"@ + "\""@));
    assert(",\n\t\"label\":\""@ =~= ""@ + ",\n\t\"label\":\""@);
    assert("\",\n\t\"app\":\""@ =~= "\""@ + ",\n\t\"app\":\""@);
    assert("\",\n\t\"title\":\""@ =~= "\""@ + ",\n\t\"title\":\""@);
    assert("\",\n\t\"active\":"@ =~= "\""@ + ",\n\t\"active\":"@);
    assert(",\n\t\"event\":\""@ =~= ""@ + ",\n\t\"event\":\""@);
    assert("\",\n\t\"action\":\""@ =~= "\""@ + ",\n\t\"action\":\""@);
    assert("\"\n}"@ =~= "\""@ + "\n}"@);
    assert(""@ =~= Seq::<char>::empty());
}

/// A listed signal tells its place, and each of its parts under the part's own name.
#[verifier::rlimit(40)]
#[verifier::spinoff_prover]
pub proof fn law_listed_signal_tells_its_parts(signal: Signal, index: nat)
    ensures
        text::tells(signal_text(signal, index), "index"@, text::decimal(index)),
        text::tells(signal_text(signal, index), "label"@, "\""@ + text::json_escaped(text::text_or_empty(signal.label)) + "\""@),
        text::tells(signal_text(signal, index), "app"@, "\""@ + text::json_escaped(text::text_or_empty(signal.app)) + "\""@),
        text::tells(signal_text(signal, index), "title"@, "\""@ + text::json_escaped(text::text_or_empty(signal.title)) + "\""@),
        text::tells(signal_text(signal, index), "active"@, text::optional_bool_text(signal.active)),
        text::tells(signal_text(signal, index), "event"@, "\""@ + event_text(signal.event) + "\""@),
        text::tells(signal_text(signal, index), "action"@, "\""@ + text::json_escaped(signal.action@) + "\""@),
{
    lemma_signal_literals();
    let a0 = "{\n\t\"index\":"@;
    let none = Seq::<(Seq<char>, Seq<char>)>::empty();
    let m0 = none;
    let b0 = "{\n"@;
    let v0 = text::decimal(index);
    text::lemma_tells_one_more(
        a0,
        b0,
        "index"@,
        ""@,
        v0,
        ""@,
        ",\n\t\"label\":\""@,
        m0,
    );
    let m1 = m0.push(("index"@, ""@ + v0 + ""@));
    let a1 = a0 + v0 + ",\n\t\"label\":\""@;
    let b1 = a0 + v0 + ",\n"@;
    text::lemma_joined_in_front(
        a0 + v0,
        ",\n"@,
        "\t\""@ + "label"@ + "\":"@ + "\""@,
    );
    let v1 = text::json_escaped(text::text_or_empty(signal.label));
    text::lemma_tells_one_more(
        a1,
        b1,
        "label"@,
        "\""@,
        v1,
        "\""@,
        ",\n\t\"app\":\""@,
        m1,
    );
    let m2 = m1.push(("label"@, "\""@ + v1 + "\""@));
    let a2 = a1 + v1 + "\",\n\t\"app\":\""@;
    let b2 = a1 + v1 + "\",\n"@;
    text::lemma_joined_in_front(
        a1 + v1,
        "\",\n"@,
        "\t\""@ + "app"@ + "\":"@ + "\""@,
    );
    let v2 = text::json_escaped(text::text_or_empty(signal.app));
    text::lemma_tells_one_more(
        a2,
        b2,
        "app"@,
        "\""@,
        v2,
        "\""@,
        ",\n\t\"title\":\""@,
        m2,
    );
    let m3 = m2.push(("app"@, "\""@ + v2 + "\""@));
    let a3 = a2 + v2 + "\",\n\t\"title\":\""@;
    let b3 = a2 + v2 + "\",\n"@;
    text::lemma_joined_in_front(
        a2 + v2,
        "\",\n"@,
        "\t\""@ + "title"@ + "\":"@ + "\""@,
    );
    let v3 = text::json_escaped(text::text_or_empty(signal.title));
    text::lemma_tells_one_more(
        a3,
        b3,
        "title"@,
        "\""@,
        v3,
        "\""@,
        ",\n\t\"active\":"@,
        m3,
    );
    let m4 = m3.push(("title"@, "\""@ + v3 + "\""@));
    let a4 = a3 + v3 + "\",\n\t\"active\":"@;
    let b4 = a3 + v3 + "\",\n"@;
    text::lemma_joined_in_front(
        a3 + v3,
        "\",\n"@,
        "\t\""@ + "active"@ + "\":"@ + ""@,
    );
    let v4 = text::optional_bool_text(signal.active);
    text::lemma_tells_one_more(
        a4,
        b4,
        "active"@,
        ""@,
        v4,
        ""@,
        ",\n\t\"event\":\""@,
        m4,
    );
    let m5 = m4.push(("active"@, ""@ + v4 + ""@));
    let a5 = a4 + v4 + ",\n\t\"event\":\""@;
    let b5 = a4 + v4 + ",\n"@;
    text::lemma_joined_in_front(
        a4 + v4,
        ",\n"@,
        "\t\""@ + "event"@ + "\":"@ + "\""@,
    );
    let v5 = event_text(signal.event);
    text::lemma_tells_one_more(
        a5,
        b5,
        "event"@,
        "\""@,
        v5,
        "\""@,
        ",\n\t\"action\":\""@,
        m5,
    );
    let m6 = m5.push(("event"@, "\""@ + v5 + "\""@));
    let a6 = a5 + v5 + "\",\n\t\"action\":\""@;
    let b6 = a5 + v5 + "\",\n"@;
    text::lemma_joined_in_front(
        a5 + v5,
        "\",\n"@,
        "\t\""@ + "action"@ + "\":"@ + "\""@,
    );
    let v6 = text::json_escaped(signal.action@);
    text::lemma_tells_one_more(
        a6,
        b6,
        "action"@,
        "\""@,
        v6,
        "\""@,
        "\n}"@,
        m6,
    );
    let m7 = m6.push(("action"@, "\""@ + v6 + "\""@));
    let a7 = a6 + v6 + "\"\n}"@;
    assert(signal_text(signal, index) == a7);
    assert(m7[0] == ("index"@, ""@ + v0 + ""@));
    assert(""@ + v0 + ""@ =~= v0);
    assert(m7[1] == ("label"@, "\""@ + v1 + "\""@));
    assert(m7[2] == ("app"@, "\""@ + v2 + "\""@));
    assert(m7[3] == ("title"@, "\""@ + v3 + "\""@));
    assert(m7[4] == ("active"@, ""@ + v4 + ""@));
    assert(""@ + v4 + ""@ =~= v4);
    assert(m7[5] == ("event"@, "\""@ + v5 + "\""@));
    assert(m7[6] == ("action"@, "\""@ + v6 + "\""@));
}

/// The listing has every signal once, in the listing order, each with its place.
pub proof fn law_listing_has_every_signal(signals: Seq<Signal>) -> (objects: Seq<Seq<char>>)
    ensures
        listing(signals) == "["@ + text::joined(objects, ","@) + "]\n"@,
        objects.len() == signals.len(),
        forall|i: int|
            0 <= i < signals.len() ==> {
                &&& text::tells(#[trigger] objects[i], "index"@, text::decimal(i as nat))
                &&& text::tells(
                    objects[i],
                    "action"@,
                    "\""@ + text::json_escaped(signals[listing_order(signals)[i]].action@) + "\""@,
                )
            },
{
    lemma_listing_length(signals);
    assert forall|i: int| 0 <= i < signals.len() implies {
        &&& text::tells(#[trigger] signal_texts(signals)[i], "index"@, text::decimal(i as nat))
        &&& text::tells(
            signal_texts(signals)[i],
            "action"@,
            "\""@ + text::json_escaped(signals[listing_order(signals)[i]].action@) + "\""@,
        )
    } by {
        law_listed_signal_tells_its_parts(signals[listing_order(signals)[i]], i as nat);
    }
    signal_texts(signals)
}

} // verus!
