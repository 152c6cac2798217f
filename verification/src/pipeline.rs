//! The path of a command through the daemon: who handles it, and what follows.
use vstd::prelude::*;

use crate::commands;
use crate::dispatch::{DisplayAction, SpaceAction, WindowAction};
use crate::message::Message;
use crate::registry::RuleCommand;
use crate::routes;
use crate::routes::{DisplayPlan, SpaceRoute, WindowRoute};
use crate::selectors;
use crate::state::{AppState, State};
use crate::text;
use crate::types::Selector;

verus! {

/// Who handles a command.
#[derive(Debug)]
pub enum Route {
    /// Bring a window back from native fullscreen.
    ExitFullscreen(u32),
    /// Bring a minimized window back.
    Deminimize(Result<u32, String>),
    /// The scripting addition, for an action on a space.
    Space { at: usize, route: SpaceRoute },
    /// The scripting addition, for an action on a window.
    Window { at: usize, route: WindowRoute },
    /// Apply rules, and their effects beyond the state.
    ApplyRules,
    /// Place a window in a grid.
    Grid(Result<u32, String>),
    /// Move a window.
    Move(Result<u32, String>),
    /// Resize a window by itself.
    Resize(Result<u32, String>),
    /// Make a window fill its display, or undo that.
    WindowedFullscreen(Result<u32, String>),
    /// Show all windows of an application.
    Expose(Result<u32, String>),
    /// Focus a space.
    FocusSpace,
    /// Focus a display, or a space on the display acted on.
    Display(Result<(u32, DisplayPlan), String>),
    /// The state alone.
    State,
}

/// What follows a command that went well.
#[derive(Debug, Clone, Copy, PartialEq, Eq, Structural)]
pub enum FollowUp {
    /// Give the focus to the focused window.
    Focus,
    /// Minimize the focused window.
    Minimize,
    /// Close the focused window.
    Close,
    /// Put the focused window in native fullscreen.
    EnterFullscreen,
    /// Set the opacity of every window.
    Opacity,
    /// Arm drags with the modifier key that is set.
    ArmModifier,
}

/// Who is to handle a command.
pub ghost enum Way {
    ExitFullscreen(u32),
    Deminimize(selectors::Resolved<u32>),
    Space { at: int, route: SpaceRoute },
    Window { at: int, route: WindowRoute },
    ApplyRules,
    Grid(selectors::Resolved<u32>),
    Move(selectors::Resolved<u32>),
    Resize(selectors::Resolved<u32>),
    WindowedFullscreen(selectors::Resolved<u32>),
    Expose(selectors::Resolved<u32>),
    FocusSpace,
    Display(selectors::Resolved<(u32, DisplayPlan)>),
    State,
}

/// Whether a route is the way that a command is to take.
pub open spec fn is_way(route: Route, way: Way) -> bool {
    match way {
        Way::ExitFullscreen(wid) => route == Route::ExitFullscreen(wid),
        Way::Deminimize(due) => route matches Route::Deminimize(r) && selectors::is_outcome(r, due),
        Way::Space { at, route: via } => route matches Route::Space { at: i, route: v } && i == at
            && v == via,
        Way::Window { at, route: via } => route matches Route::Window { at: i, route: v } && i == at
            && v == via,
        Way::ApplyRules => route is ApplyRules,
        Way::Grid(due) => route matches Route::Grid(r) && selectors::is_outcome(r, due),
        Way::Move(due) => route matches Route::Move(r) && selectors::is_outcome(r, due),
        Way::Resize(due) => route matches Route::Resize(r) && selectors::is_outcome(r, due),
        Way::WindowedFullscreen(due) => route matches Route::WindowedFullscreen(r)
            && selectors::is_outcome(r, due),
        Way::Expose(due) => route matches Route::Expose(r) && selectors::is_outcome(r, due),
        Way::FocusSpace => route is FocusSpace,
        Way::Display(due) => route matches Route::Display(r) && selectors::is_outcome(r, due),
        Way::State => route is State,
    }
}

/// The first action on a space, from a position on, that needs the scripting
/// addition.
pub open spec fn first_space_route(actions: Seq<SpaceAction>, i: int) -> Option<(int, SpaceRoute)>
    decreases actions.len() - i,
{
    if i < 0 || i >= actions.len() {
        None
    } else {
        match routes::space_route(actions[i]) {
            Some(route) => Some((i, route)),
            None => first_space_route(actions, i + 1),
        }
    }
}

impl State {
    /// The first action on a window, from a position on, that needs the
    /// scripting addition.
    pub open spec fn first_window_route(self, actions: Seq<WindowAction>, i: int) -> Option<
        (int, WindowRoute),
    >
        decreases actions.len() - i,
    {
        if i < 0 || i >= actions.len() {
            None
        } else {
            match self.window_route(actions[i]) {
                Some(route) => Some((i, route)),
                None => self.first_window_route(actions, i + 1),
            }
        }
    }

    /// The window that an action acts on by itself, if it is not tiled.
    pub open spec fn untiled(self, target: Option<Selector>, complaint: Seq<char>) -> selectors::Resolved<
        u32,
    > {
        match self.acting_window(target) {
            selectors::Resolved::Failed(e) => selectors::Resolved::Failed(e),
            selectors::Resolved::Found(wid) => if self.tiling.is_tiled(wid) {
                selectors::Resolved::Failed(complaint)
            } else {
                selectors::Resolved::Found(wid)
            },
        }
    }

    /// The way of the only action of a `window` command, if the system has to
    /// carry it out.
    pub open spec fn lone_window_way(self, target: Option<Selector>, action: WindowAction) -> Way {
        match action {
            WindowAction::Grid(_) => Way::Grid(
                self.untiled(target, "cannot apply grid layout to a managed window.\n"@),
            ),
            WindowAction::Move { .. } => Way::Move(
                self.untiled(target, "cannot move a managed window.\n"@),
            ),
            WindowAction::Resize { absolute, .. } => match self.acting_window(target) {
                selectors::Resolved::Found(wid) => if self.tiling.is_tiled(wid) && !absolute {
                    Way::State
                } else {
                    Way::Resize(
                        self.untiled(
                            target,
                            "cannot use absolute resizing on a managed window.\n"@,
                        ),
                    )
                },
                selectors::Resolved::Failed(e) => Way::Resize(selectors::Resolved::Failed(e)),
            },
            WindowAction::Toggle(name) => if name@ == "windowed-fullscreen"@ {
                Way::WindowedFullscreen(self.acting_window(target))
            } else if name@ == "expose"@ {
                Way::Expose(self.acting_window(target))
            } else {
                Way::State
            },
            _ => Way::State,
        }
    }

    /// The way of a `display` command: its first action decides.
    pub open spec fn display_way(
        self,
        target: Option<Selector>,
        actions: Seq<DisplayAction>,
        cursor: Option<u32>,
    ) -> Way {
        match self.acting_display(target, cursor) {
            selectors::Resolved::Failed(e) => Way::Display(selectors::Resolved::Failed(e)),
            selectors::Resolved::Found(acting) => if actions.len() == 0 {
                Way::State
            } else {
                match self.display_plan(acting, actions[0]) {
                    None => Way::State,
                    Some(selectors::Resolved::Failed(e)) => Way::Display(
                        selectors::Resolved::Failed(e),
                    ),
                    Some(selectors::Resolved::Found(plan)) => Way::Display(
                        selectors::Resolved::Found((acting, plan)),
                    ),
                }
            },
        }
    }

    /// The way of a command. `exit` is the window that it toggles native
    /// fullscreen of, if it does; a command that could not be understood has no
    /// message.
    pub open spec fn way(
        self,
        exit: Option<Option<Selector>>,
        fullscreen: Seq<u32>,
        minimized: Seq<u32>,
        cursor: Option<u32>,
        message: Option<Message>,
    ) -> Way {
        if exit is Some && commands::leaves_fullscreen(exit->0, fullscreen) is Some {
            Way::ExitFullscreen(commands::leaves_fullscreen(exit->0, fullscreen)->0)
        } else {
            match message {
                Some(Message::Window { target, actions }) => {
                    let a = actions@;
                    if a.len() == 1 && a[0] is Deminimize {
                        Way::Deminimize(
                            commands::deminimized(
                                match a[0]->Deminimize_0 {
                                    Some(selector) => Some(selector),
                                    None => target,
                                },
                                minimized,
                            ),
                        )
                    } else {
                        match self.first_window_route(a, 0) {
                            Some((at, route)) => Way::Window { at, route },
                            None => if a.len() == 1 {
                                self.lone_window_way(target, a[0])
                            } else {
                                Way::State
                            },
                        }
                    }
                },
                Some(Message::Space { target, actions }) => {
                    match first_space_route(actions@, 0) {
                        Some((at, route)) => Way::Space { at, route },
                        None => if actions@.len() == 1 && actions@[0] is Focus
                            && actions@[0]->Focus_0 is Some {
                            Way::FocusSpace
                        } else {
                            Way::State
                        },
                    }
                },
                Some(Message::Display { target, actions }) => self.display_way(
                    target,
                    actions@,
                    cursor,
                ),
                Some(Message::Rule(RuleCommand::Apply(_))) => Way::ApplyRules,
                _ => Way::State,
            }
        }
    }
}

proof fn lemma_first_space_route(actions: Seq<SpaceAction>, i: int, at: int)
    requires
        0 <= i <= at <= actions.len(),
        forall|k: int| i <= k < at ==> routes::space_route(#[trigger] actions[k]) is None,
        at < actions.len() ==> routes::space_route(actions[at]) is Some,
    ensures
        first_space_route(actions, i) == (if at < actions.len() {
            Some((at, routes::space_route(actions[at])->0))
        } else {
            None
        }),
    decreases at - i,
{
    if i < at {
        lemma_first_space_route(actions, i + 1, at);
    }
}

proof fn lemma_first_window_route(s: State, actions: Seq<WindowAction>, i: int, at: int)
    requires
        0 <= i <= at <= actions.len(),
        forall|k: int| i <= k < at ==> s.window_route(#[trigger] actions[k]) is None,
        at < actions.len() ==> s.window_route(actions[at]) is Some,
    ensures
        s.first_window_route(actions, i) == (if at < actions.len() {
            Some((at, s.window_route(actions[at])->0))
        } else {
            None
        }),
    decreases at - i,
{
    if i < at {
        lemma_first_window_route(s, actions, i + 1, at);
    }
}

/// The selector behind an optional reference.
pub open spec fn exit_of(exit: Option<Option<&Selector>>) -> Option<Option<Selector>> {
    match exit {
        Some(selector) => Some(selectors::owned(selector)),
        None => None,
    }
}

/// The message behind an optional reference.
pub open spec fn message_of(message: Option<&Message>) -> Option<Message> {
    match message {
        Some(m) => Some(*m),
        None => None,
    }
}

impl AppState {
    fn route_lone_window(&self, target: &Option<Selector>, action: &WindowAction) -> (r: Route)
        requires
            self.wf(),
        ensures
            is_way(r, self@.lone_window_way(*target, *action)),
    {
        match action {
            WindowAction::Grid(_) => Route::Grid(self.plan_grid(target.as_ref())),
            WindowAction::Move { .. } => Route::Move(self.plan_move(target.as_ref())),
            WindowAction::Resize { absolute, .. } => match self.plan_resize(
                target.as_ref(),
                *absolute,
            ) {
                Some(outcome) => Route::Resize(outcome),
                None => Route::State,
            },
            WindowAction::Toggle(name) => if text::same(name.as_str(), "windowed-fullscreen") {
                Route::WindowedFullscreen(self.resolve_window_selector(target.as_ref()))
            } else if text::same(name.as_str(), "expose") {
                Route::Expose(self.resolve_window_selector(target.as_ref()))
            } else {
                Route::State
            },
            _ => Route::State,
        }
    }

    fn route_display(
        &self,
        target: &Option<Selector>,
        actions: &Vec<DisplayAction>,
        cursor: Option<u32>,
    ) -> (r: Route)
        requires
            self.wf(),
        ensures
            is_way(r, self@.display_way(*target, actions@, cursor)),
    {
        match self.resolve_acting_display(target.as_ref(), cursor) {
            Err(error) => Route::Display(Err(error)),
            Ok(acting) => if actions.len() == 0 {
                Route::State
            } else {
                match self.plan_display(acting, &actions[0]) {
                    None => Route::State,
                    Some(Err(error)) => Route::Display(Err(error)),
                    Some(Ok(plan)) => Route::Display(Ok((acting, plan))),
                }
            },
        }
    }

    /// Who handles a command. `exit` is the window that it toggles native
    /// fullscreen of, if it does; a command that could not be understood has no
    /// message.
    pub fn route(
        &self,
        exit: Option<Option<&Selector>>,
        fullscreen: &Vec<u32>,
        minimized: &Vec<u32>,
        cursor: Option<u32>,
        message: Option<&Message>,
    ) -> (r: Route)
        requires
            self.wf(),
        ensures
            is_way(
                r,
                self@.way(exit_of(exit), fullscreen@, minimized@, cursor, message_of(message)),
            ),
    {
        if let Some(selector) = exit {
            if let Some(wid) = commands::window_fullscreen_exit_target(selector, fullscreen) {
                return Route::ExitFullscreen(wid);
            }
        }
        match message {
            Some(Message::Window { target, actions }) => {
                if let Some(outcome) = commands::window_deminimize_target(
                    target,
                    actions,
                    minimized,
                ) {
                    return Route::Deminimize(outcome);
                }
                match self.route_window(actions) {
                    Some((at, route)) => {
                        proof {
                            lemma_first_window_route(self@, actions@, 0, at as int);
                        }
                        Route::Window { at, route }
                    },
                    None => {
                        proof {
                            lemma_first_window_route(self@, actions@, 0, actions@.len() as int);
                        }
                        if actions.len() == 1 {
                            self.route_lone_window(target, &actions[0])
                        } else {
                            Route::State
                        }
                    },
                }
            },
            Some(Message::Space { target: _, actions }) => match routes::route_space(actions) {
                Some((at, route)) => {
                    proof {
                        lemma_first_space_route(actions@, 0, at as int);
                    }
                    Route::Space { at, route }
                },
                None => {
                    proof {
                        lemma_first_space_route(actions@, 0, actions@.len() as int);
                    }
                    if actions.len() == 1 {
                        match &actions[0] {
                            SpaceAction::Focus(Some(_)) => Route::FocusSpace,
                            _ => Route::State,
                        }
                    } else {
                        Route::State
                    }
                },
            },
            Some(Message::Display { target, actions }) => self.route_display(
                target,
                actions,
                cursor,
            ),
            Some(Message::Rule(RuleCommand::Apply(_))) => Route::ApplyRules,
            _ => Route::State,
        }
    }
}

/// Whether a `window` command has an action with some property.
pub open spec fn has_action(message: Option<Message>, p: spec_fn(WindowAction) -> bool) -> bool {
    match message {
        Some(Message::Window { target, actions }) => exists|i: int|
            0 <= i < actions@.len() && p(#[trigger] actions@[i]),
        _ => false,
    }
}

/// Whether something follows a command that went well.
pub open spec fn follows(
    message: Option<Message>,
    left_fullscreen: bool,
    what: FollowUp,
) -> bool {
    match what {
        FollowUp::Focus => match message {
            Some(Message::Window { target, actions }) => commands::focuses(
                target is Some,
                actions@,
            ),
            _ => false,
        },
        FollowUp::Minimize => has_action(message, |a: WindowAction| a is Minimize),
        FollowUp::Close => has_action(message, |a: WindowAction| a is Close),
        FollowUp::EnterFullscreen => !left_fullscreen && has_action(
            message,
            |a: WindowAction| commands::toggles_fullscreen(a),
        ),
        FollowUp::Opacity => match message {
            Some(Message::Config(ops)) => exists|i: int|
                0 <= i < ops@.len() && commands::changes_opacity(#[trigger] ops@[i]),
            _ => false,
        },
        FollowUp::ArmModifier => true,
    }
}

/// Everything that can follow a command, in the order in which it does.
pub open spec fn in_order() -> Seq<FollowUp> {
    seq![
        FollowUp::Focus,
        FollowUp::Minimize,
        FollowUp::Close,
        FollowUp::EnterFullscreen,
        FollowUp::Opacity,
        FollowUp::ArmModifier,
    ]
}

/// What follows a command that went well.
pub open spec fn followed_by(message: Option<Message>, left_fullscreen: bool, k: int) -> Seq<
    FollowUp,
>
    decreases k,
{
    if k <= 0 {
        Seq::empty()
    } else {
        let earlier = followed_by(message, left_fullscreen, k - 1);
        if follows(message, left_fullscreen, in_order()[k - 1]) {
            earlier.push(in_order()[k - 1])
        } else {
            earlier
        }
    }
}

fn is_followed_by(message: Option<&Message>, left_fullscreen: bool, what: FollowUp) -> (r: bool)
    ensures
        r == follows(message_of(message), left_fullscreen, what),
{
    match what {
        FollowUp::Focus => match message {
            Some(Message::Window { target, actions }) => commands::is_window_focus(target, actions),
            _ => false,
        },
        FollowUp::Minimize => match message {
            Some(Message::Window { target: _, actions }) => commands::is_window_minimize(actions),
            _ => false,
        },
        FollowUp::Close => match message {
            Some(Message::Window { target: _, actions }) => commands::is_window_close(actions),
            _ => false,
        },
        FollowUp::EnterFullscreen => !left_fullscreen && match message {
            Some(Message::Window { target: _, actions }) => {
                commands::is_window_native_fullscreen(actions)
            },
            _ => false,
        },
        FollowUp::Opacity => match message {
            Some(Message::Config(ops)) => commands::is_opacity_config(ops),
            _ => false,
        },
        FollowUp::ArmModifier => true,
    }
}

/// What follows a command, in order: nothing where it failed.
pub fn follow_ups(message: Option<&Message>, left_fullscreen: bool, went_well: bool) -> (r: Vec<
    FollowUp,
>)
    ensures
        r@ == (if went_well {
            followed_by(message_of(message), left_fullscreen, 6)
        } else {
            Seq::empty()
        }),
{
    let mut out: Vec<FollowUp> = Vec::new();
    if !went_well {
        return out;
    }
    let order = vec![
        FollowUp::Focus,
        FollowUp::Minimize,
        FollowUp::Close,
        FollowUp::EnterFullscreen,
        FollowUp::Opacity,
        FollowUp::ArmModifier,
    ];
    assert(order@ =~= in_order());
    let mut i: usize = 0;
    while i < order.len()
        invariant
            i <= order@.len(),
            order@ == in_order(),
            out@ == followed_by(message_of(message), left_fullscreen, i as int),
        decreases order.len() - i,
    {
        if is_followed_by(message, left_fullscreen, order[i]) {
            out.push(order[i]);
        }
        i += 1;
    }
    out
}

/// A lone action on a window that the system carries out goes its own way: a grid, a
/// move and a resize for a window that no layout tiles, the two toggles for any; a
/// tiled window is resized by its layout.
pub proof fn law_ways_of_a_lone_window_action(
    s: State,
    target: Option<Selector>,
    action: WindowAction,
    name: String,
    w: u32,
)
    requires
        s.acting_window(target) == selectors::Resolved::Found(w),
    ensures
        ({
            let tiled = exists|sid: u64|
                s.tiling.spaces.dom().contains(sid) && (
                #[trigger] s.tiling.spaces[sid]).windows.contains(w);
            &&& action is Grid && !tiled ==> s.lone_window_way(target, action) == Way::Grid(
                selectors::Resolved::Found(w),
            )
            &&& action is Grid && tiled ==> s.lone_window_way(target, action) == Way::Grid(
                selectors::Resolved::Failed("cannot apply grid layout to a managed window.\n"@),
            )
            &&& action is Move && !tiled ==> s.lone_window_way(target, action) == Way::Move(
                selectors::Resolved::Found(w),
            )
            &&& action is Move && tiled ==> s.lone_window_way(target, action) == Way::Move(
                selectors::Resolved::Failed("cannot move a managed window.\n"@),
            )
            &&& action matches WindowAction::Resize { absolute, handle, dw, dh } ==> {
                &&& !tiled ==> s.lone_window_way(target, action) == Way::Resize(
                    selectors::Resolved::Found(w),
                )
                &&& tiled && !absolute ==> s.lone_window_way(target, action) == Way::State
                &&& tiled && absolute ==> s.lone_window_way(target, action) == Way::Resize(
                    selectors::Resolved::Failed(
                        "cannot use absolute resizing on a managed window.\n"@,
                    ),
                )
            }
            &&& name@ == "windowed-fullscreen"@ ==> s.lone_window_way(
                target,
                WindowAction::Toggle(name),
            ) == Way::WindowedFullscreen(selectors::Resolved::Found(w))
            &&& name@ == "expose"@ ==> s.lone_window_way(target, WindowAction::Toggle(name))
                == Way::Expose(selectors::Resolved::Found(w))
            &&& name@ != "windowed-fullscreen"@ && name@ != "expose"@ ==> s.lone_window_way(
                target,
                WindowAction::Toggle(name),
            ) == Way::State
            &&& action is Focus || action is Swap || action is Warp || action is Stack
                || action is Minimize || action is Close || action is Ratio || action is Insert
                ==> s.lone_window_way(target, action) == Way::State
        }),
{
    reveal_strlit("windowed-fullscreen");
    reveal_strlit("expose");
    assert("windowed-fullscreen"@.len() != "expose"@.len());
    if s.tiling.is_tiled(w) {
        let sid = choose|sid: u64| s.tiling.tiles(sid, w);
        assert(s.tiling.spaces[sid].windows.contains(w));
    }
    if exists|sid: u64|
        s.tiling.spaces.dom().contains(sid) && (#[trigger] s.tiling.spaces[sid]).windows.contains(
            w,
        ) {
        let sid = choose|sid: u64|
            s.tiling.spaces.dom().contains(sid) && (
            #[trigger] s.tiling.spaces[sid]).windows.contains(w);
        assert(s.tiling.tiles(sid, w));
    }
}

/// Who handles a `window` command: it leaves native fullscreen if it toggles that for a
/// window in it, a lone `--deminimize` brings a window back, the first action that needs
/// the scripting addition goes there, and else the state, or a lone action's own way.
pub proof fn law_ways_of_window_commands(
    s: State,
    exit: Option<Option<Selector>>,
    fullscreen: Seq<u32>,
    minimized: Seq<u32>,
    cursor: Option<u32>,
    target: Option<Selector>,
    actions: Vec<WindowAction>,
    at: int,
)
    ensures
        ({
            let message = Some(Message::Window { target, actions });
            let way = s.way(exit, fullscreen, minimized, cursor, message);
            let leaving = exit is Some && commands::leaves_fullscreen(exit->0, fullscreen) is Some;
            let lone_back = actions@.len() == 1 && actions@[0] is Deminimize;
            &&& leaving ==> way == Way::ExitFullscreen(
                commands::leaves_fullscreen(exit->0, fullscreen)->0,
            )
            &&& !leaving && lone_back ==> way == Way::Deminimize(
                commands::deminimized(
                    if actions@[0]->Deminimize_0 is Some {
                        actions@[0]->Deminimize_0
                    } else {
                        target
                    },
                    minimized,
                ),
            )
            &&& !leaving && 0 <= at < actions@.len() && s.window_route(actions@[at]) is Some && (
            forall|k: int| 0 <= k < at ==> s.window_route(#[trigger] actions@[k]) is None) ==> way
                == (Way::Window { at, route: s.window_route(actions@[at])->0 })
            &&& !leaving && !lone_back && (forall|k: int|
                0 <= k < actions@.len() ==> s.window_route(#[trigger] actions@[k]) is None) ==> {
                &&& actions@.len() == 1 ==> way == s.lone_window_way(target, actions@[0])
                &&& actions@.len() != 1 ==> way == Way::State
            }
        }),
{
    if 0 <= at < actions@.len() && s.window_route(actions@[at]) is Some && (forall|k: int|
        0 <= k < at ==> s.window_route(#[trigger] actions@[k]) is None) {
        lemma_first_window_route(s, actions@, 0, at);
    }
    if forall|k: int| 0 <= k < actions@.len() ==> s.window_route(#[trigger] actions@[k]) is None {
        lemma_first_window_route(s, actions@, 0, actions@.len() as int);
    }
}

/// Who handles any other command: the first action on a space that needs the scripting
/// addition goes there, a lone `--focus` of a space and the actions on displays go to
/// the system, rules are applied beyond the state, and the rest is the state's own.
pub proof fn law_ways_of_other_commands(
    s: State,
    fullscreen: Seq<u32>,
    minimized: Seq<u32>,
    cursor: Option<u32>,
    target: Option<Selector>,
    actions: Vec<SpaceAction>,
    shown: Vec<DisplayAction>,
    at: int,
    message: Message,
)
    ensures
        ({
            let way = s.way(
                None,
                fullscreen,
                minimized,
                cursor,
                Some(Message::Space { target, actions }),
            );
            &&& 0 <= at < actions@.len() && routes::space_route(actions@[at]) is Some && (forall|
                k: int,
            |
                0 <= k < at ==> routes::space_route(#[trigger] actions@[k]) is None) ==> way == (
            Way::Space { at, route: routes::space_route(actions@[at])->0 })
            &&& actions@.len() == 1 && actions@[0] is Focus && actions@[0]->Focus_0 is Some ==> way
                == Way::FocusSpace
            &&& actions@.len() == 1 && (actions@[0] is Balance || actions@[0] is Gap
                || actions@[0] is Padding || actions@[0] is Layout || actions@[0] is Label
                || actions@[0] is Mirror || actions@[0] is Rotate || actions@[0] is Equalize)
                ==> way == Way::State
        }),
        s.way(
            None,
            fullscreen,
            minimized,
            cursor,
            Some(Message::Display { target, actions: shown }),
        ) == s.display_way(target, shown@, cursor),
        message matches Message::Rule(RuleCommand::Apply(apply)) ==> s.way(
            None,
            fullscreen,
            minimized,
            cursor,
            Some(message),
        ) == Way::ApplyRules,
        message is Config || message is Query || message is Signal ==> s.way(
            None,
            fullscreen,
            minimized,
            cursor,
            Some(message),
        ) == Way::State,
        message matches Message::Rule(cmd) ==> (!(cmd is Apply) ==> s.way(
            None,
            fullscreen,
            minimized,
            cursor,
            Some(message),
        ) == Way::State),
        s.way(None, fullscreen, minimized, cursor, None) == Way::State,
{
    if 0 <= at < actions@.len() && routes::space_route(actions@[at]) is Some && (forall|k: int|
        0 <= k < at ==> routes::space_route(#[trigger] actions@[k]) is None) {
        lemma_first_space_route(actions@, 0, at);
    }
    if actions@.len() == 1 && routes::space_route(actions@[0]) is None {
        lemma_first_space_route(actions@, 0, 1);
    }
}

/// A `display` command acts on its display by its first action: what needs the system
/// goes there, what fails fails, and the rest is the state's own.
pub proof fn law_ways_of_display_commands(
    s: State,
    target: Option<Selector>,
    actions: Seq<DisplayAction>,
    cursor: Option<u32>,
    acting: u32,
    plan: DisplayPlan,
)
    ensures
        s.acting_display(target, cursor) matches selectors::Resolved::Failed(e) ==> (s.display_way(
            target,
            actions,
            cursor,
        ) == Way::Display(selectors::Resolved::Failed(e))),
        s.acting_display(target, cursor) == selectors::Resolved::Found(acting) && actions.len() == 0
            ==> s.display_way(target, actions, cursor) == Way::State,
        s.acting_display(target, cursor) == selectors::Resolved::Found(acting) && actions.len() > 0
            && s.display_plan(acting, actions[0]) is None ==> s.display_way(target, actions, cursor)
            == Way::State,
        s.acting_display(target, cursor) == selectors::Resolved::Found(acting) && actions.len() > 0
            && s.display_plan(acting, actions[0]) == Some(selectors::Resolved::Found(plan))
            ==> s.display_way(target, actions, cursor) == Way::Display(
            selectors::Resolved::Found((acting, plan)),
        ),
{
}

proof fn lemma_has_action(
    target: Option<Selector>,
    actions: Vec<WindowAction>,
    i: int,
    p: spec_fn(WindowAction) -> bool,
)
    requires
        0 <= i < actions@.len(),
        p(actions@[i]),
    ensures
        has_action(Some(Message::Window { target, actions }), p),
{
    let message = Some(Message::Window { target, actions });
    if let Some(Message::Window { target: t, actions: list }) = message {
        assert(list@[i] == actions@[i]);
        assert(p(list@[i]));
        assert(exists|k: int| 0 <= k < list@.len() && p(#[trigger] list@[k]));
    }
}

/// What follows a command that went well: a window focused, minimized, closed or put in
/// native fullscreen as an action asks, opacities set anew if one was changed; drags are
/// armed in any case.
pub proof fn law_follow_ups(
    target: Option<Selector>,
    actions: Vec<WindowAction>,
    i: int,
    left: bool,
)
    requires
        0 <= i < actions@.len(),
    ensures
        ({
            let message = Some(Message::Window { target, actions });
            &&& actions@[i] is Minimize ==> follows(message, left, FollowUp::Minimize)
            &&& actions@[i] is Close ==> follows(message, left, FollowUp::Close)
            &&& actions@[i] is Focus && (target is Some || actions@[i]->Focus_0 is Some) ==> follows(
                message,
                left,
                FollowUp::Focus,
            )
            &&& actions@[i] matches WindowAction::Toggle(name) ==> (name@ == "native-fullscreen"@
                ==> follows(message, left, FollowUp::EnterFullscreen) == !left)
            &&& !follows(message, left, FollowUp::Opacity)
            &&& follows(message, left, FollowUp::ArmModifier)
            &&& (forall|k: int| 0 <= k < actions@.len() ==> !((#[trigger] actions@[k]) is Minimize))
                ==> !follows(message, left, FollowUp::Minimize)
            &&& (forall|k: int| 0 <= k < actions@.len() ==> !((#[trigger] actions@[k]) is Close))
                ==> !follows(message, left, FollowUp::Close)
            &&& (forall|k: int| 0 <= k < actions@.len() ==> !((#[trigger] actions@[k]) is Toggle))
                ==> !follows(message, left, FollowUp::EnterFullscreen)
        }),
{
    let message = Some(Message::Window { target, actions });
    if actions@[i] is Minimize {
        let minimizes = |a: WindowAction| a is Minimize;
        lemma_has_action(target, actions, i, minimizes);
    }
    if actions@[i] is Close {
        let closes = |a: WindowAction| a is Close;
        lemma_has_action(target, actions, i, closes);
    }
    if actions@[i] is Toggle && commands::toggles_fullscreen(actions@[i]) {
        let toggles = |a: WindowAction| commands::toggles_fullscreen(a);
        lemma_has_action(target, actions, i, toggles);
    }
}

/// Whatever follows a command follows once, in the one order there is.
pub proof fn law_follow_ups_in_order(message: Option<Message>, left: bool, what: FollowUp)
    ensures
        followed_by(message, left, 6).contains(what) <==> follows(message, left, what),
        followed_by(message, left, 6).no_duplicates(),
        forall|i: int, j: int|
            0 <= i < j < followed_by(message, left, 6).len() ==> turn(
                #[trigger] followed_by(message, left, 6)[i],
            ) < turn(#[trigger] followed_by(message, left, 6)[j]),
{
    lemma_followed(message, left, 6);
    let list = followed_by(message, left, 6);
    if follows(message, left, what) {
        let k = turn(what);
        assert(in_order()[k] == what);
        assert(list.contains(in_order()[k]));
    }
    if list.contains(what) {
        let i = choose|i: int| 0 <= i < list.len() && list[i] == what;
        assert(follows(message, left, list[i]));
    }
}

/// When something follows a command, counted from zero.
pub open spec fn turn(what: FollowUp) -> int {
    match what {
        FollowUp::Focus => 0,
        FollowUp::Minimize => 1,
        FollowUp::Close => 2,
        FollowUp::EnterFullscreen => 3,
        FollowUp::Opacity => 4,
        FollowUp::ArmModifier => 5,
    }
}

proof fn lemma_followed(message: Option<Message>, left: bool, k: int)
    requires
        0 <= k <= 6,
    ensures
        ({
            let list = followed_by(message, left, k);
            &&& forall|i: int|
                0 <= i < list.len() ==> follows(message, left, #[trigger] list[i]) && turn(list[i])
                    < k
            &&& forall|n: int|
                0 <= n < k && follows(message, left, #[trigger] in_order()[n]) ==> list.contains(
                    in_order()[n],
                )
            &&& forall|i: int, j: int|
                0 <= i < j < list.len() ==> turn(#[trigger] list[i]) < turn(#[trigger] list[j])
        }),
    decreases k,
{
    if k > 0 {
        lemma_followed(message, left, k - 1);
        let less = followed_by(message, left, k - 1);
        let list = followed_by(message, left, k);
        let last = in_order()[k - 1];
        assert(turn(last) == k - 1);
        if follows(message, left, last) {
            assert(list == less.push(last));
            assert(list[less.len() as int] == last);
            assert forall|n: int|
                0 <= n < k && follows(message, left, #[trigger] in_order()[n]) implies list.contains(
                in_order()[n],
            ) by {
                if n < k - 1 {
                    assert(less.contains(in_order()[n]));
                    let i = choose|i: int| 0 <= i < less.len() && less[i] == in_order()[n];
                    assert(list[i] == in_order()[n]);
                }
            }
        }
    }
}

} // verus!
