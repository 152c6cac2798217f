//! Which signals fire on what happens around the daemon, and what they tell.
use vstd::prelude::*;

use crate::idmap;
use crate::idmap::IdMap;
use crate::signals::SignalEvent;
use crate::state::WindowMeta;
use crate::text;

verus! {

/// Signals to be fired: the event, the variables that the commands see, and what
/// their filters are held against.
#[derive(Debug)]
pub struct SignalCall {
    pub event: SignalEvent,
    pub env: Vec<(&'static str, String)>,
    pub app: Option<String>,
    pub title: Option<String>,
    pub active: Option<bool>,
}

/// What signals are to be fired with.
#[verifier::ext_equal]
pub ghost struct Call {
    pub event: SignalEvent,
    pub env: Seq<(Seq<char>, Seq<char>)>,
    pub app: Option<Seq<char>>,
    pub title: Option<Seq<char>>,
    pub active: Option<bool>,
}

/// The view of an optional text.
pub open spec fn text_view(value: Option<String>) -> Option<Seq<char>> {
    match value {
        Some(s) => Some(s@),
        None => None,
    }
}

impl View for SignalCall {
    type V = Call;

    open spec fn view(&self) -> Call {
        Call {
            event: self.event,
            env: self.env@.map_values(|pair: (&'static str, String)| (pair.0@, pair.1@)),
            app: text_view(self.app),
            title: text_view(self.title),
            active: self.active,
        }
    }
}

/// The calls behind a list.
pub open spec fn calls(list: Seq<SignalCall>) -> Seq<Call> {
    list.map_values(|call: SignalCall| call@)
}

/// A call that tells nothing.
pub open spec fn plain(event: SignalEvent) -> Call {
    Call { event, env: Seq::empty(), app: None, title: None, active: None }
}

/// A call that tells one variable.
pub open spec fn telling(event: SignalEvent, name: Seq<char>, value: Seq<char>) -> Call {
    Call { env: seq![(name, value)], ..plain(event) }
}

/// A call about a process of an application.
pub open spec fn of_process(event: SignalEvent, pid: i32, app: Seq<char>, active: Option<bool>) -> Call {
    Call {
        app: Some(app),
        active,
        ..telling(event, "YABAI_PROCESS_ID"@, text::signed_decimal(pid as int))
    }
}

/// A call about a window.
pub open spec fn of_window(
    event: SignalEvent,
    id: u32,
    app: Option<Seq<char>>,
    title: Option<Seq<char>>,
    active: Option<bool>,
) -> Call {
    Call {
        app,
        title,
        active,
        ..telling(event, "YABAI_WINDOW_ID"@, text::decimal(id as nat))
    }
}

fn plain_call(event: SignalEvent) -> (r: SignalCall)
    ensures
        r@ == plain(event),
{
    let env: Vec<(&'static str, String)> = Vec::new();
    let r = SignalCall { event, env, app: None, title: None, active: None };
    assert(r@.env =~= Seq::<(Seq<char>, Seq<char>)>::empty());
    r
}

fn telling_call(event: SignalEvent, name: &'static str, value: String) -> (r: SignalCall)
    ensures
        r@ == telling(event, name@, value@),
{
    let ghost words = value@;
    let env = vec![(name, value)];
    let r = SignalCall { event, env, app: None, title: None, active: None };
    assert(r@.env =~= seq![(name@, words)]);
    r
}

fn process_call(event: SignalEvent, pid: i32, app: &str, active: Option<bool>) -> (r: SignalCall)
    ensures
        r@ == of_process(event, pid, app@, active),
{
    let base = telling_call(event, "YABAI_PROCESS_ID", text::signed_string(pid));
    let r = SignalCall {
        event: base.event,
        env: base.env,
        app: Some(app.to_owned()),
        title: None,
        active,
    };
    assert(r@.env =~= base@.env);
    r
}

/// The call that tells of a window.
pub fn window_call(
    event: SignalEvent,
    id: u32,
    app: Option<&str>,
    title: Option<&str>,
    active: Option<bool>,
) -> (r: SignalCall)
    ensures
        r@ == of_window(
            event,
            id,
            match app {
                Some(s) => Some(s@),
                None => None,
            },
            match title {
                Some(s) => Some(s@),
                None => None,
            },
            active,
        ),
{
    let base = telling_call(event, "YABAI_WINDOW_ID", text::decimal_string(id as u64));
    let r = SignalCall {
        event: base.event,
        env: base.env,
        app: match app {
            Some(s) => Some(s.to_owned()),
            None => None,
        },
        title: match title {
            Some(s) => Some(s.to_owned()),
            None => None,
        },
        active,
    };
    assert(r@.env =~= base@.env);
    r
}

/// What the system tells of applications and displays.
#[derive(Debug)]
pub enum WorkspaceEvent {
    ActiveSpaceChanged,
    ApplicationLaunched { pid: i32, app: String },
    ApplicationActivated { pid: i32, app: String },
    ApplicationDeactivated { pid: i32, app: String },
    ApplicationVisible { pid: i32, app: String },
    ApplicationHidden { pid: i32, app: String },
    ApplicationTerminated { pid: i32, app: String },
    DisplayChanged,
    DisplayAdded(u32),
    DisplayRemoved(u32),
    DisplayMoved(u32),
    DisplayResized(u32),
    SystemWoke,
    DockDidRestart,
    DockDidChangePref,
    MenuBarHiddenChanged,
}

/// The calls that follow on an event. `front` is the process in front so far.
pub open spec fn calls_on(
    event: WorkspaceEvent,
    front: Option<i32>,
    active_space: Option<u64>,
) -> Seq<Call> {
    match event {
        WorkspaceEvent::ActiveSpaceChanged => match active_space {
            Some(sid) => seq![
                telling(
                    SignalEvent::SpaceChanged,
                    "YABAI_SPACE_ID"@,
                    text::decimal(sid as nat),
                ),
            ],
            None => Seq::empty(),
        },
        WorkspaceEvent::ApplicationLaunched { pid, app } => seq![
            of_process(SignalEvent::ApplicationLaunched, pid, app@, None),
        ],
        WorkspaceEvent::ApplicationActivated { pid, app } => {
            let activated = of_process(SignalEvent::ApplicationActivated, pid, app@, None);
            if front != Some(pid) {
                seq![front_switched(pid, front), activated]
            } else {
                seq![activated]
            }
        },
        WorkspaceEvent::ApplicationDeactivated { pid, app } => seq![
            of_process(SignalEvent::ApplicationDeactivated, pid, app@, None),
        ],
        WorkspaceEvent::ApplicationVisible { pid, app } => seq![
            of_process(SignalEvent::ApplicationVisible, pid, app@, None),
        ],
        WorkspaceEvent::ApplicationHidden { pid, app } => seq![
            of_process(
                SignalEvent::ApplicationHidden,
                pid,
                app@,
                Some(front == Some(pid)),
            ),
        ],
        WorkspaceEvent::ApplicationTerminated { pid, app } => seq![
            of_process(
                SignalEvent::ApplicationTerminated,
                pid,
                app@,
                Some(front == Some(pid)),
            ),
        ],
        WorkspaceEvent::DisplayChanged => seq![plain(SignalEvent::DisplayChanged)],
        WorkspaceEvent::DisplayAdded(did) => seq![of_display(SignalEvent::DisplayAdded, did)],
        WorkspaceEvent::DisplayRemoved(did) => seq![of_display(SignalEvent::DisplayRemoved, did)],
        WorkspaceEvent::DisplayMoved(did) => seq![of_display(SignalEvent::DisplayMoved, did)],
        WorkspaceEvent::DisplayResized(did) => seq![of_display(SignalEvent::DisplayResized, did)],
        WorkspaceEvent::SystemWoke => seq![plain(SignalEvent::SystemWoke)],
        WorkspaceEvent::DockDidRestart => seq![plain(SignalEvent::DockDidRestart)],
        WorkspaceEvent::DockDidChangePref => seq![plain(SignalEvent::DockDidChangePref)],
        WorkspaceEvent::MenuBarHiddenChanged => seq![plain(SignalEvent::MenuBarHiddenChanged)],
    }
}

/// The call that another process came to the front.
pub open spec fn front_switched(pid: i32, front: Option<i32>) -> Call {
    Call {
        env: seq![
            ("YABAI_PROCESS_ID"@, text::signed_decimal(pid as int)),
            (
                "YABAI_RECENT_PROCESS_ID"@,
                text::signed_decimal(
                    match front {
                        Some(last) => last as int,
                        None => pid as int,
                    },
                ),
            ),
        ],
        ..plain(SignalEvent::ApplicationFrontSwitched)
    }
}

/// A call about a display.
pub open spec fn of_display(event: SignalEvent, did: u32) -> Call {
    telling(event, "YABAI_DISPLAY_ID"@, text::decimal(did as nat))
}

fn display_call(event: SignalEvent, did: u32) -> (r: SignalCall)
    ensures
        r@ == of_display(event, did),
{
    telling_call(event, "YABAI_DISPLAY_ID", text::decimal_string(did as u64))
}

fn front_call(pid: i32, front: Option<i32>) -> (r: SignalCall)
    ensures
        r@ == front_switched(pid, front),
{
    let recent = match front {
        Some(last) => last,
        None => pid,
    };
    let env = vec![
        ("YABAI_PROCESS_ID", text::signed_string(pid)),
        ("YABAI_RECENT_PROCESS_ID", text::signed_string(recent)),
    ];
    let r = SignalCall {
        event: SignalEvent::ApplicationFrontSwitched,
        env,
        app: None,
        title: None,
        active: None,
    };
    assert(r@.env =~= front_switched(pid, front).env);
    r
}

fn is_front(front: Option<i32>, pid: i32) -> (r: bool)
    ensures
        r == (front == Some(pid)),
{
    match front {
        Some(last) => last == pid,
        None => false,
    }
}

fn one(call: SignalCall) -> (r: Vec<SignalCall>)
    ensures
        calls(r@) == seq![call@],
{
    let ghost c = call@;
    let r = vec![call];
    assert(calls(r@) =~= seq![c]);
    r
}

/// The signals that fire on an event.
pub fn workspace_signals(
    event: &WorkspaceEvent,
    front: Option<i32>,
    active_space: Option<u64>,
) -> (r: Vec<SignalCall>)
    ensures
        calls(r@) == calls_on(*event, front, active_space),
{
    match event {
        WorkspaceEvent::ActiveSpaceChanged => match active_space {
            Some(sid) => one(
                telling_call(
                    SignalEvent::SpaceChanged,
                    "YABAI_SPACE_ID",
                    text::decimal_string(sid),
                ),
            ),
            None => {
                let r: Vec<SignalCall> = Vec::new();
                assert(calls(r@) =~= Seq::<Call>::empty());
                r
            },
        },
        WorkspaceEvent::ApplicationLaunched { pid, app } => one(
            process_call(SignalEvent::ApplicationLaunched, *pid, app.as_str(), None),
        ),
        WorkspaceEvent::ApplicationActivated { pid, app } => {
            let activated = process_call(
                SignalEvent::ApplicationActivated,
                *pid,
                app.as_str(),
                None,
            );
            if is_front(front, *pid) {
                one(activated)
            } else {
                let switched = front_call(*pid, front);
                let ghost pair = seq![switched@, activated@];
                let r = vec![switched, activated];
                assert(calls(r@) =~= pair);
                r
            }
        },
        WorkspaceEvent::ApplicationDeactivated { pid, app } => one(
            process_call(SignalEvent::ApplicationDeactivated, *pid, app.as_str(), None),
        ),
        WorkspaceEvent::ApplicationVisible { pid, app } => one(
            process_call(SignalEvent::ApplicationVisible, *pid, app.as_str(), None),
        ),
        WorkspaceEvent::ApplicationHidden { pid, app } => one(
            process_call(
                SignalEvent::ApplicationHidden,
                *pid,
                app.as_str(),
                Some(is_front(front, *pid)),
            ),
        ),
        WorkspaceEvent::ApplicationTerminated { pid, app } => one(
            process_call(
                SignalEvent::ApplicationTerminated,
                *pid,
                app.as_str(),
                Some(is_front(front, *pid)),
            ),
        ),
        WorkspaceEvent::DisplayChanged => one(plain_call(SignalEvent::DisplayChanged)),
        WorkspaceEvent::DisplayAdded(did) => one(display_call(SignalEvent::DisplayAdded, *did)),
        WorkspaceEvent::DisplayRemoved(did) => one(display_call(SignalEvent::DisplayRemoved, *did)),
        WorkspaceEvent::DisplayMoved(did) => one(display_call(SignalEvent::DisplayMoved, *did)),
        WorkspaceEvent::DisplayResized(did) => one(display_call(SignalEvent::DisplayResized, *did)),
        WorkspaceEvent::SystemWoke => one(plain_call(SignalEvent::SystemWoke)),
        WorkspaceEvent::DockDidRestart => one(plain_call(SignalEvent::DockDidRestart)),
        WorkspaceEvent::DockDidChangePref => one(plain_call(SignalEvent::DockDidChangePref)),
        WorkspaceEvent::MenuBarHiddenChanged => one(plain_call(SignalEvent::MenuBarHiddenChanged)),
    }
}

/// The process in front after an event.
pub fn next_front(event: &WorkspaceEvent, front: Option<i32>) -> (r: Option<i32>)
    ensures
        r == (match *event {
            WorkspaceEvent::ApplicationActivated { pid, app } => Some(pid),
            _ => front,
        }),
{
    match event {
        WorkspaceEvent::ApplicationActivated { pid, .. } => Some(*pid),
        _ => front,
    }
}

/// The signals that fire when mission control is entered or left.
pub fn mission_control_signal(entered: bool) -> (r: SignalCall)
    ensures
        r@ == plain(
            if entered {
                SignalEvent::MissionControlEnter
            } else {
                SignalEvent::MissionControlExit
            },
        ),
{
    plain_call(
        if entered {
            SignalEvent::MissionControlEnter
        } else {
            SignalEvent::MissionControlExit
        },
    )
}

/// Note the window that has the focus; whether it is another one than before.
pub fn note_focus(last: &mut Option<u32>, window_id: u32) -> (r: bool)
    ensures
        *final(last) == Some(window_id),
        r == (*old(last) != Some(window_id)),
{
    let same = match *last {
        Some(previous) => previous == window_id,
        None => false,
    };
    *last = Some(window_id);
    !same
}

/// Whether a window has the focus.
pub open spec fn has_focus(focused: Option<u32>, id: u32) -> bool {
    focused == Some(id)
}

fn is_focused(focused: Option<u32>, id: u32) -> (r: bool)
    ensures
        r == has_focus(focused, id),
{
    match focused {
        Some(window_id) => window_id == id,
        None => false,
    }
}

/// The windows of an application as they were last listed.
pub open spec fn listed(infos: Seq<(u32, WindowMeta)>) -> Map<u32, WindowMeta>
    decreases infos.len(),
{
    if infos.len() == 0 {
        Map::empty()
    } else {
        listed(infos.drop_last()).insert(infos.last().0, infos.last().1)
    }
}

/// The call about a window that is listed: it is new, or its title changed.
pub open spec fn call_on_listed(
    known: Map<u32, WindowMeta>,
    info: (u32, WindowMeta),
    focused: Option<u32>,
) -> Option<Call> {
    let (id, meta) = info;
    if !known.dom().contains(id) {
        Some(of_window(SignalEvent::WindowCreated, id, Some(meta.app@), Some(meta.title@), None))
    } else if known[id].title@ != meta.title@ {
        Some(
            of_window(
                SignalEvent::WindowTitleChanged,
                id,
                Some(meta.app@),
                Some(meta.title@),
                Some(has_focus(focused, id)),
            ),
        )
    } else {
        None
    }
}

/// The calls about the windows that are listed.
pub open spec fn calls_on_listed(
    known: Map<u32, WindowMeta>,
    infos: Seq<(u32, WindowMeta)>,
    focused: Option<u32>,
) -> Seq<Call>
    decreases infos.len(),
{
    if infos.len() == 0 {
        Seq::empty()
    } else {
        let earlier = calls_on_listed(known, infos.drop_last(), focused);
        match call_on_listed(known, infos.last(), focused) {
            Some(call) => earlier.push(call),
            None => earlier,
        }
    }
}

/// The call that a window is gone.
pub open spec fn gone(id: u32, meta: WindowMeta, focused: Option<u32>) -> Call {
    of_window(
        SignalEvent::WindowDestroyed,
        id,
        Some(meta.app@),
        None,
        Some(has_focus(focused, id)),
    )
}

/// The calls about the first `k` known windows that are not listed any more.
pub open spec fn calls_on_gone(
    known: Map<u32, WindowMeta>,
    ids: Seq<u32>,
    k: int,
    now: Set<u32>,
    focused: Option<u32>,
) -> Seq<Call>
    decreases k,
{
    if k <= 0 {
        Seq::empty()
    } else {
        let earlier = calls_on_gone(known, ids, k - 1, now, focused);
        let id = ids[k - 1];
        if now.contains(id) {
            earlier
        } else {
            earlier.push(gone(id, known[id], focused))
        }
    }
}

/// The windows of an application, by id.
pub fn listed_windows(infos: &Vec<(u32, WindowMeta)>) -> (r: IdMap<u32, WindowMeta>)
    ensures
        r.wf(),
        r@ == listed(infos@),
{
    let mut out: IdMap<u32, WindowMeta> = IdMap::new();
    let mut i: usize = 0;
    assert(listed(infos@.take(0)) =~= Map::<u32, WindowMeta>::empty());
    while i < infos.len()
        invariant
            i <= infos@.len(),
            out.wf(),
            out@ == listed(infos@.take(i as int)),
        decreases infos.len() - i,
    {
        proof {
            assert(infos@.take(i + 1).drop_last() =~= infos@.take(i as int));
            assert(infos@.take(i + 1).last() == infos@[i as int]);
        }
        let meta = WindowMeta {
            app: infos[i].1.app.clone(),
            title: infos[i].1.title.clone(),
            pid: infos[i].1.pid,
        };
        out.insert(infos[i].0, meta);
        i += 1;
    }
    assert(infos@.take(infos@.len() as int) =~= infos@);
    out
}

/// The signals that fire when the windows of an application are listed again:
/// for new windows, for changed titles, and for windows that are gone.
pub fn lifecycle_signals(
    known: &IdMap<u32, WindowMeta>,
    infos: &Vec<(u32, WindowMeta)>,
    focused: Option<u32>,
) -> (r: Vec<SignalCall>)
    requires
        known.wf(),
    ensures
        calls(r@) == calls_on_listed(known@, infos@, focused) + calls_on_gone(
            known@,
            idmap::ids_of(known@.dom()),
            idmap::ids_of(known@.dom()).len() as int,
            listed(infos@).dom(),
            focused,
        ),
{
    let mut out: Vec<SignalCall> = Vec::new();
    let mut i: usize = 0;
    assert(calls(out@) =~= Seq::<Call>::empty());
    while i < infos.len()
        invariant
            known.wf(),
            i <= infos@.len(),
            calls(out@) == calls_on_listed(known@, infos@.take(i as int), focused),
        decreases infos.len() - i,
    {
        proof {
            assert(infos@.take(i + 1).drop_last() =~= infos@.take(i as int));
            assert(infos@.take(i + 1).last() == infos@[i as int]);
        }
        let ghost before = out@;
        let id = infos[i].0;
        let meta = &infos[i].1;
        match known.get(id) {
            None => {
                let call = window_call(
                    SignalEvent::WindowCreated,
                    id,
                    Some(meta.app.as_str()),
                    Some(meta.title.as_str()),
                    None,
                );
                let ghost c = call@;
                out.push(call);
                assert(calls(out@) =~= calls(before).push(c));
            },
            Some(old_meta) => {
                if !text::same(old_meta.title.as_str(), meta.title.as_str()) {
                    let call = window_call(
                        SignalEvent::WindowTitleChanged,
                        id,
                        Some(meta.app.as_str()),
                        Some(meta.title.as_str()),
                        Some(is_focused(focused, id)),
                    );
                    let ghost c = call@;
                    out.push(call);
                    assert(calls(out@) =~= calls(before).push(c));
                }
            },
        }
        i += 1;
    }
    assert(infos@.take(infos@.len() as int) =~= infos@);
    let ghost first = calls(out@);
    let now = listed_windows(infos);
    let ids = known.keys();
    let mut j: usize = 0;
    assert(first + Seq::<Call>::empty() =~= first);
    while j < ids.len()
        invariant
            known.wf(),
            now.wf(),
            j <= ids@.len(),
            idmap::lists(ids@, known@.dom()),
            now@.dom() == listed(infos@).dom(),
            calls(out@) == first + calls_on_gone(
                known@,
                ids@,
                j as int,
                listed(infos@).dom(),
                focused,
            ),
        decreases ids.len() - j,
    {
        assert(ids@.contains(ids@[j as int]));
        let id = ids[j];
        if now.get(id).is_none() {
            if let Some(meta) = known.get(id) {
                let ghost before = out@;
                let call = window_call(
                    SignalEvent::WindowDestroyed,
                    id,
                    Some(meta.app.as_str()),
                    None,
                    Some(is_focused(focused, id)),
                );
                let ghost c = call@;
                out.push(call);
                proof {
                    assert(calls(out@) =~= calls(before).push(c));
                    let earlier = calls_on_gone(
                        known@,
                        ids@,
                        j as int,
                        listed(infos@).dom(),
                        focused,
                    );
                    assert(first + earlier.push(c) =~= (first + earlier).push(c));
                }
            }
        }
        j += 1;
    }
    out
}

/// What is told of applications: the event of the same name, the process and the
/// application, and for those hidden or terminated whether they were in front.
pub proof fn law_application_calls(
    pid: i32,
    app: String,
    front: Option<i32>,
    space: Option<u64>,
    event: WorkspaceEvent,
    tells: SignalEvent,
)
    requires
        ({
            ||| event == WorkspaceEvent::ApplicationLaunched { pid, app } && tells
                == SignalEvent::ApplicationLaunched
            ||| event == WorkspaceEvent::ApplicationDeactivated { pid, app } && tells
                == SignalEvent::ApplicationDeactivated
            ||| event == WorkspaceEvent::ApplicationVisible { pid, app } && tells
                == SignalEvent::ApplicationVisible
            ||| event == WorkspaceEvent::ApplicationHidden { pid, app } && tells
                == SignalEvent::ApplicationHidden
            ||| event == WorkspaceEvent::ApplicationTerminated { pid, app } && tells
                == SignalEvent::ApplicationTerminated
        }),
    ensures
        calls_on(event, front, space) == seq![
            Call {
                event: tells,
                env: seq![("YABAI_PROCESS_ID"@, text::signed_decimal(pid as int))],
                app: Some(app@),
                title: None,
                active: if tells == SignalEvent::ApplicationHidden || tells
                    == SignalEvent::ApplicationTerminated {
                    Some(front == Some(pid))
                } else {
                    None
                },
            },
        ],
{
}

/// An application activated is told of as such; if another was in front, it is told
/// first that the front switched, with both processes.
pub proof fn law_activation_calls(pid: i32, app: String, front: Option<i32>, space: Option<u64>)
    ensures
        ({
            let made = calls_on(WorkspaceEvent::ApplicationActivated { pid, app }, front, space);
            let activated = Call {
                event: SignalEvent::ApplicationActivated,
                env: seq![("YABAI_PROCESS_ID"@, text::signed_decimal(pid as int))],
                app: Some(app@),
                title: None,
                active: None,
            };
            &&& front == Some(pid) ==> made == seq![activated]
            &&& front != Some(pid) ==> made == seq![
                Call {
                    event: SignalEvent::ApplicationFrontSwitched,
                    env: seq![
                        ("YABAI_PROCESS_ID"@, text::signed_decimal(pid as int)),
                        (
                            "YABAI_RECENT_PROCESS_ID"@,
                            text::signed_decimal(
                                if front is Some {
                                    front->0 as int
                                } else {
                                    pid as int
                                },
                            ),
                        ),
                    ],
                    app: None,
                    title: None,
                    active: None,
                },
                activated,
            ]
        }),
{
    let made = calls_on(WorkspaceEvent::ApplicationActivated { pid, app }, front, space);
    let activated = Call {
        event: SignalEvent::ApplicationActivated,
        env: seq![("YABAI_PROCESS_ID"@, text::signed_decimal(pid as int))],
        app: Some(app@),
        title: None,
        active: None,
    };
    assert(made.last() == activated);
    if front == Some(pid) {
        assert(made =~= seq![activated]);
    } else {
        assert(made =~= seq![made[0], activated]);
        assert(made[0].env =~= seq![
            ("YABAI_PROCESS_ID"@, text::signed_decimal(pid as int)),
            (
                "YABAI_RECENT_PROCESS_ID"@,
                text::signed_decimal(
                    if front is Some {
                        front->0 as int
                    } else {
                        pid as int
                    },
                ),
            ),
        ]);
    }
}

/// What is told of displays, spaces and the system: the event of the same name, with
/// the display or the active space where it is about one.
pub proof fn law_system_calls(front: Option<i32>, space: Option<u64>, did: u32)
    ensures
        ({
            let bare = |event: SignalEvent|
                seq![
                    Call { event, env: Seq::empty(), app: None, title: None, active: None },
                ];
            let about = |event: SignalEvent|
                seq![
                    Call {
                        event,
                        env: seq![("YABAI_DISPLAY_ID"@, text::decimal(did as nat))],
                        app: None,
                        title: None,
                        active: None,
                    },
                ];
            &&& calls_on(WorkspaceEvent::DisplayChanged, front, space) == bare(
                SignalEvent::DisplayChanged,
            )
            &&& calls_on(WorkspaceEvent::SystemWoke, front, space) == bare(SignalEvent::SystemWoke)
            &&& calls_on(WorkspaceEvent::DockDidRestart, front, space) == bare(
                SignalEvent::DockDidRestart,
            )
            &&& calls_on(WorkspaceEvent::DockDidChangePref, front, space) == bare(
                SignalEvent::DockDidChangePref,
            )
            &&& calls_on(WorkspaceEvent::MenuBarHiddenChanged, front, space) == bare(
                SignalEvent::MenuBarHiddenChanged,
            )
            &&& calls_on(WorkspaceEvent::DisplayAdded(did), front, space) == about(
                SignalEvent::DisplayAdded,
            )
            &&& calls_on(WorkspaceEvent::DisplayRemoved(did), front, space) == about(
                SignalEvent::DisplayRemoved,
            )
            &&& calls_on(WorkspaceEvent::DisplayMoved(did), front, space) == about(
                SignalEvent::DisplayMoved,
            )
            &&& calls_on(WorkspaceEvent::DisplayResized(did), front, space) == about(
                SignalEvent::DisplayResized,
            )
            &&& space is None ==> calls_on(WorkspaceEvent::ActiveSpaceChanged, front, space)
                == Seq::<Call>::empty()
            &&& space is Some ==> calls_on(WorkspaceEvent::ActiveSpaceChanged, front, space)
                == seq![
                Call {
                    event: SignalEvent::SpaceChanged,
                    env: seq![("YABAI_SPACE_ID"@, text::decimal(space->0 as nat))],
                    app: None,
                    title: None,
                    active: None,
                },
            ]
        }),
{
}

/// A window that is listed for the first time is told of as created; one whose title
/// is another as changed, with whether it has the focus; any other not at all.
pub proof fn law_listed_window_calls(
    known: Map<u32, WindowMeta>,
    infos: Seq<(u32, WindowMeta)>,
    id: u32,
    meta: WindowMeta,
    focused: Option<u32>,
)
    ensures
        ({
            let before = calls_on_listed(known, infos, focused);
            let after = calls_on_listed(known, infos.push((id, meta)), focused);
            let env = seq![("YABAI_WINDOW_ID"@, text::decimal(id as nat))];
            &&& calls_on_listed(known, Seq::empty(), focused) == Seq::<Call>::empty()
            &&& !known.dom().contains(id) ==> after == before.push(
                Call {
                    event: SignalEvent::WindowCreated,
                    env,
                    app: Some(meta.app@),
                    title: Some(meta.title@),
                    active: None,
                },
            )
            &&& known.dom().contains(id) && known[id].title@ != meta.title@ ==> after
                == before.push(
                Call {
                    event: SignalEvent::WindowTitleChanged,
                    env,
                    app: Some(meta.app@),
                    title: Some(meta.title@),
                    active: Some(focused == Some(id)),
                },
            )
            &&& known.dom().contains(id) && known[id].title@ == meta.title@ ==> after == before
        }),
{
    assert(infos.push((id, meta)).drop_last() =~= infos);
}

/// A known window that is not listed any more is told of as destroyed, with its
/// application and whether it had the focus; one that still is not at all.
pub proof fn law_gone_window_calls(
    known: Map<u32, WindowMeta>,
    ids: Seq<u32>,
    k: int,
    now: Set<u32>,
    focused: Option<u32>,
)
    requires
        0 <= k < ids.len(),
    ensures
        ({
            let before = calls_on_gone(known, ids, k, now, focused);
            let after = calls_on_gone(known, ids, k + 1, now, focused);
            &&& calls_on_gone(known, ids, 0, now, focused) == Seq::<Call>::empty()
            &&& now.contains(ids[k]) ==> after == before
            &&& !now.contains(ids[k]) ==> after == before.push(
                Call {
                    event: SignalEvent::WindowDestroyed,
                    env: seq![("YABAI_WINDOW_ID"@, text::decimal(ids[k] as nat))],
                    app: Some(known[ids[k]].app@),
                    title: None,
                    active: Some(focused == Some(ids[k])),
                },
            )
        }),
{
}

/// Every window listed is known afterwards as it was last listed, and no other.
pub proof fn law_listed_windows(infos: Seq<(u32, WindowMeta)>, id: u32, meta: WindowMeta, other: u32)
    ensures
        listed(Seq::empty()) == Map::<u32, WindowMeta>::empty(),
        listed(infos.push((id, meta))).dom().contains(id),
        listed(infos.push((id, meta)))[id] == meta,
        other != id ==> listed(infos.push((id, meta))).dom().contains(other) == listed(
            infos,
        ).dom().contains(other),
        other != id && listed(infos).dom().contains(other) ==> listed(
            infos.push((id, meta)),
        )[other] == listed(infos)[other],
{
    assert(infos.push((id, meta)).drop_last() =~= infos);
}

/// The process in front is the last one activated; the overview is told of by whether it
/// was entered or left.
pub proof fn law_front_and_overview(
    event: &WorkspaceEvent,
    front: Option<i32>,
    next: Option<i32>,
    entered: bool,
    call: SignalCall,
)
    requires
        call_ensures(next_front, (event, front), next),
        call_ensures(mission_control_signal, (entered,), call),
    ensures
        *event matches WorkspaceEvent::ApplicationActivated { pid, app } ==> next == Some(pid),
        !(*event is ApplicationActivated) ==> next == front,
        entered ==> call@.event == SignalEvent::MissionControlEnter,
        !entered ==> call@.event == SignalEvent::MissionControlExit,
        call@.env.len() == 0,
{
}

/// The windows listed again are told of first, new ones and changed titles, and then
/// those that are gone.
pub proof fn law_lifecycle_calls(
    known: &IdMap<u32, WindowMeta>,
    infos: &Vec<(u32, WindowMeta)>,
    focused: Option<u32>,
    r: Vec<SignalCall>,
)
    requires
        call_ensures(lifecycle_signals, (known, infos, focused), r),
    ensures
        ({
            let first = calls_on_listed(known@, infos@, focused);
            let ids = idmap::ids_of(known@.dom());
            let rest = calls_on_gone(
                known@,
                ids,
                ids.len() as int,
                listed(infos@).dom(),
                focused,
            );
            &&& r@.len() == first.len() + rest.len()
            &&& forall|i: int| 0 <= i < first.len() ==> (#[trigger] r@[i])@ == first[i]
            &&& forall|i: int|
                first.len() <= i < r@.len() ==> (#[trigger] r@[i])@ == rest[i - first.len()]
        }),
{
    let all = calls(r@);
    assert(all.len() == r@.len());
    assert forall|i: int| 0 <= i < r@.len() implies (#[trigger] r@[i])@ == all[i] by {}
}

} // verus!
