//! Commands that need the system or the scripting addition: which they are, and
//! what they come down to.
use vstd::prelude::*;

use crate::bytes;
use crate::dispatch::{DisplayAction, SpaceAction, WindowAction};
use crate::idmap;
use crate::labels;
use crate::rules::RuleEffects;
use crate::sa;
use crate::sa::{SaOpcode, SaRequest, ScriptingAddition};
use crate::selectors;
use crate::spaces;
use crate::state::{AppState, State};
use crate::text;
use crate::tiling;
use crate::tiling::Padding;
use crate::types::{Real, Selector};
use crate::windows;

verus! {

/// What a `window` action needs the scripting addition for.
#[derive(Debug, Clone, Copy, PartialEq, Eq, Structural)]
pub enum WindowRoute {
    ToSpace,
    ToDisplay,
    Opacity,
    SubLayer,
    Scratchpad,
    Sticky,
    Shadow,
    Pip,
    ToggleScratchpad,
    Raise,
    Lower,
}

/// What a `space` action needs the scripting addition for.
#[derive(Debug, Clone, Copy, PartialEq, Eq, Structural)]
pub enum SpaceRoute {
    Create,
    Destroy,
    ToDisplay,
    Move,
    Swap,
    Switch,
    MissionControl,
    ShowDesktop,
}

/// A window to be moved to a space. Another window may have to get the focus
/// first, so that the space it leaves stays in view.
#[derive(Debug)]
pub struct WindowTransfer {
    pub wid: u32,
    pub sid: u64,
    pub focus: Option<u32>,
    pub request: SaRequest,
}

/// What a `display` action comes down to.
#[derive(Debug, Clone, Copy, PartialEq, Eq, Structural)]
pub enum DisplayPlan {
    Focus(u32),
    /// Focus a space, if it is on the acting display.
    FocusSpace(u64),
}

/// What a `space` action needs the scripting addition for.
pub open spec fn space_route(action: SpaceAction) -> Option<SpaceRoute> {
    match action {
        SpaceAction::Create => Some(SpaceRoute::Create),
        SpaceAction::Destroy(_) => Some(SpaceRoute::Destroy),
        SpaceAction::Display(_) => Some(SpaceRoute::ToDisplay),
        SpaceAction::Move(_) => Some(SpaceRoute::Move),
        SpaceAction::Swap(_) => Some(SpaceRoute::Swap),
        SpaceAction::Switch(_) => Some(SpaceRoute::Switch),
        SpaceAction::Toggle(name) => if name@ == "mission-control"@ {
            Some(SpaceRoute::MissionControl)
        } else if name@ == "show-desktop"@ {
            Some(SpaceRoute::ShowDesktop)
        } else {
            None
        },
        _ => None,
    }
}

fn route_of_space_action(action: &SpaceAction) -> (r: Option<SpaceRoute>)
    ensures
        r == space_route(*action),
{
    match action {
        SpaceAction::Create => Some(SpaceRoute::Create),
        SpaceAction::Destroy(_) => Some(SpaceRoute::Destroy),
        SpaceAction::Display(_) => Some(SpaceRoute::ToDisplay),
        SpaceAction::Move(_) => Some(SpaceRoute::Move),
        SpaceAction::Swap(_) => Some(SpaceRoute::Swap),
        SpaceAction::Switch(_) => Some(SpaceRoute::Switch),
        SpaceAction::Toggle(name) => if text::same(name.as_str(), "mission-control") {
            Some(SpaceRoute::MissionControl)
        } else if text::same(name.as_str(), "show-desktop") {
            Some(SpaceRoute::ShowDesktop)
        } else {
            None
        },
        _ => None,
    }
}

/// The first action of a `space` command that needs the scripting addition.
pub fn route_space(actions: &Vec<SpaceAction>) -> (r: Option<(usize, SpaceRoute)>)
    ensures
        match r {
            Some((i, route)) => i < actions@.len() && space_route(actions@[i as int]) == Some(route)
                && forall|k: int| 0 <= k < i ==> space_route(#[trigger] actions@[k]) is None,
            None => forall|k: int|
                0 <= k < actions@.len() ==> space_route(#[trigger] actions@[k]) is None,
        },
{
    let mut i: usize = 0;
    while i < actions.len()
        invariant
            i <= actions@.len(),
            forall|k: int| 0 <= k < i ==> space_route(#[trigger] actions@[k]) is None,
        decreases actions.len() - i,
    {
        if let Some(route) = route_of_space_action(&actions[i]) {
            return Some((i, route));
        }
        i += 1;
    }
    None
}

impl State {
    /// What a `window` action needs the scripting addition for. A toggle of an
    /// unknown name counts if it is the label of a scratchpad.
    pub open spec fn window_route(self, action: WindowAction) -> Option<WindowRoute> {
        match action {
            WindowAction::Space(_) => Some(WindowRoute::ToSpace),
            WindowAction::Display(_) => Some(WindowRoute::ToDisplay),
            WindowAction::Opacity(_) => Some(WindowRoute::Opacity),
            WindowAction::SubLayer(_) => Some(WindowRoute::SubLayer),
            WindowAction::Scratchpad(_) => Some(WindowRoute::Scratchpad),
            WindowAction::Toggle(name) => if name@ == "sticky"@ {
                Some(WindowRoute::Sticky)
            } else if name@ == "shadow"@ {
                Some(WindowRoute::Shadow)
            } else if name@ == "pip"@ {
                Some(WindowRoute::Pip)
            } else if labels::owner(self.scratchpads, name@) is Some {
                Some(WindowRoute::ToggleScratchpad)
            } else {
                None
            },
            WindowAction::Raise(_) => Some(WindowRoute::Raise),
            WindowAction::Lower(_) => Some(WindowRoute::Lower),
            _ => None,
        }
    }

    /// The window that gets the focus before the focused one leaves a space that
    /// is in view.
    pub open spec fn focus_kept(self, wid: u32) -> Option<u32> {
        match self.known_space(wid) {
            Some(src) => if self.tiling.focused_window == Some(wid) && self.topology.is_visible(
                src,
                self.tiling.active_space,
            ) {
                tiling::first_other(self.windows_on(src), wid)
            } else {
                None
            },
            None => None,
        }
    }

    /// The space shown on a selected display.
    pub open spec fn shown_space(self, selector: Selector) -> selectors::Resolved<u64> {
        match self.selected_display(Some(selector)) {
            selectors::Resolved::Failed(e) => selectors::Resolved::Failed(e),
            selectors::Resolved::Found(did) => selectors::or_fail(
                self.topology.shown_on(did),
                "could not locate the active space of display '"@ + text::decimal(did as nat)
                    + "'.\n"@,
            ),
        }
    }

    /// A window and a space; the complaint about the window comes first.
    pub open spec fn transfer_pair(
        self,
        target: Option<Selector>,
        place: selectors::Resolved<u64>,
    ) -> selectors::Resolved<(u32, u64)> {
        match (self.acting_window(target), place) {
            (selectors::Resolved::Failed(e), _) => selectors::Resolved::Failed(e),
            (_, selectors::Resolved::Failed(e)) => selectors::Resolved::Failed(e),
            (selectors::Resolved::Found(wid), selectors::Resolved::Found(sid)) => {
                selectors::Resolved::Found((wid, sid))
            },
        }
    }

    /// Whether a transfer is that of a window to a space.
    pub open spec fn is_transfer(self, t: WindowTransfer, wid: u32, sid: u64) -> bool {
        &&& t.wid == wid
        &&& t.sid == sid
        &&& t.focus == self.focus_kept(wid)
        &&& t.request.opcode == SaOpcode::WindowToSpace
        &&& t.request.payload@ == windows::to_space_payload(sid, wid)
    }

    /// The space that the effects of a rule send a window to, if any.
    pub open spec fn rule_destination(
        self,
        space: Option<Selector>,
        display: Option<Selector>,
    ) -> selectors::Resolved<Option<u64>> {
        match (space, display) {
            (Some(selector), _) => match self.selected_space(Some(selector)) {
                selectors::Resolved::Failed(e) => selectors::Resolved::Failed(e),
                selectors::Resolved::Found(sid) => selectors::Resolved::Found(Some(sid)),
            },
            (None, Some(selector)) => match self.shown_space(selector) {
                selectors::Resolved::Failed(e) => selectors::Resolved::Failed(e),
                selectors::Resolved::Found(sid) => selectors::Resolved::Found(Some(sid)),
            },
            (None, None) => selectors::Resolved::Found(None),
        }
    }

    /// The display that a `display` command acts on: the one named, or else the
    /// one under the cursor, or else the active one.
    pub open spec fn acting_display(self, target: Option<Selector>, cursor: Option<u32>) -> selectors::Resolved<
        u32,
    > {
        match (target, cursor) {
            (Some(selector), _) => self.selected_display(Some(selector)),
            (None, Some(did)) => selectors::Resolved::Found(did),
            (None, None) => match self.selected_display(None) {
                selectors::Resolved::Found(did) => selectors::Resolved::Found(did),
                selectors::Resolved::Failed(_) => selectors::Resolved::Failed(
                    "could not locate the display to act on!\n"@,
                ),
            },
        }
    }

    /// What the first action of a `display` command comes down to, if it needs
    /// the system.
    pub open spec fn display_plan(self, acting: u32, action: DisplayAction) -> Option<
        selectors::Resolved<DisplayPlan>,
    > {
        match action {
            DisplayAction::Focus(Some(selector)) => Some(
                match self.selected_display(Some(selector)) {
                    selectors::Resolved::Failed(e) => selectors::Resolved::Failed(e),
                    selectors::Resolved::Found(dest) => if dest == acting {
                        selectors::Resolved::Failed(
                            "cannot focus an already focused display.\n"@,
                        )
                    } else {
                        selectors::Resolved::Found(DisplayPlan::Focus(dest))
                    },
                },
            ),
            DisplayAction::Space(selector) => Some(
                match self.selected_space(Some(selector)) {
                    selectors::Resolved::Failed(e) => selectors::Resolved::Failed(e),
                    selectors::Resolved::Found(sid) => selectors::Resolved::Found(
                        DisplayPlan::FocusSpace(sid),
                    ),
                },
            ),
            _ => None,
        }
    }

    /// The opacity that a window gets by itself.
    pub open spec fn auto_opacity_bits(self, wid: u32, focused: Option<u32>) -> u32 {
        if !self.config.enable_window_opacity {
            0x3f80_0000
        } else if focused == Some(wid) {
            self.config.active_window_opacity.bits
        } else {
            self.config.normal_window_opacity.bits
        }
    }

    /// Whether a request sets the opacity that a window gets by itself.
    pub open spec fn is_auto_opacity(self, r: SaRequest, wid: u32, focused: Option<u32>) -> bool {
        &&& r.opcode == (if sa::is_positive(self.config.window_opacity_duration.bits) {
            SaOpcode::WindowOpacityFade
        } else {
            SaOpcode::WindowOpacity
        })
        &&& r.payload@ == bytes::le_bytes(wid as nat, 4) + bytes::le_bytes(
            self.auto_opacity_bits(wid, focused) as nat,
            4,
        ) + bytes::le_bytes(self.config.window_opacity_duration.bits as nat, 4)
    }
}

/// The space that `space --focus` goes to, or the complaint.
pub open spec fn focus_target(
    order: Option<Seq<u64>>,
    active: Option<u64>,
    selector: Selector,
) -> selectors::Resolved<u64> {
    if order is None || order->0.len() == 0 {
        selectors::Resolved::Failed("could not enumerate spaces."@)
    } else {
        match spaces::space_target(order->0, active, selector) {
            selectors::Resolved::Failed(e) => selectors::Resolved::Failed(e),
            selectors::Resolved::Found(sid) => if active == Some(sid) {
                selectors::Resolved::Failed("cannot focus an already focused space."@)
            } else {
                selectors::Resolved::Found(sid)
            },
        }
    }
}

/// Plan `space --focus`. The order of all spaces may not be known.
pub fn plan_space_focus(order: Option<&Vec<u64>>, active: Option<u64>, selector: &Selector) -> (r:
    Result<u64, String>)
    ensures
        selectors::is_outcome(
            r,
            focus_target(
                match order {
                    Some(spaces) => Some(spaces@),
                    None => None,
                },
                active,
                *selector,
            ),
        ),
{
    let order = match order {
        Some(order) => order,
        None => {
            return Err("could not enumerate spaces.".to_owned());
        },
    };
    if order.len() == 0 {
        return Err("could not enumerate spaces.".to_owned());
    }
    match spaces::resolve_space_target(order, active, selector) {
        Err(error) => Err(error),
        Ok(sid) => {
            let focused = match active {
                Some(current) => current == sid,
                None => false,
            };
            if focused {
                Err("cannot focus an already focused space.".to_owned())
            } else {
                Ok(sid)
            }
        },
    }
}

/// Whether a window that a rule sends to a space is followed there.
pub fn follows_window(effects: &RuleEffects) -> (r: bool)
    ensures
        r == (effects.follow_space || effects.fullscreen == Some(true)),
{
    effects.follow_space || match effects.fullscreen {
        Some(on) => on,
        None => false,
    }
}

/// Check that a space is on the display that a command acts on.
pub fn check_space_on_display(display: Option<u32>, acting: u32) -> (r: Result<(), String>)
    ensures
        r is Ok <==> display == Some(acting),
        r is Err ==> r->Err_0@ == "acting display does not contain the given space.\n"@,
{
    let there = match display {
        Some(did) => did == acting,
        None => false,
    };
    if there {
        Ok(())
    } else {
        Err("acting display does not contain the given space.\n".to_owned())
    }
}

/// A complaint with the reason behind it.
pub open spec fn with_reason(what: Seq<char>, reason: Seq<char>) -> Seq<char> {
    "could not "@ + what + ": "@ + reason + "\n"@
}

/// A complaint with the reason behind it.
pub fn reason_error(what: &str, reason: &str) -> (r: String)
    ensures
        r@ == with_reason(what@, reason@),
{
    let mut out = "could not ".to_owned();
    out.append(what);
    out.append(": ");
    out.append(reason);
    out.append("\n");
    out
}

/// A complaint about a window by its id.
pub open spec fn about_window(before: Seq<char>, wid: u32, after: Seq<char>) -> Seq<char> {
    before + text::decimal(wid as nat) + after
}

/// A complaint about a window by its id.
pub fn window_error(before: &str, wid: u32, after: &str) -> (r: String)
    ensures
        r@ == about_window(before@, wid, after@),
{
    let mut out = before.to_owned();
    text::push_decimal(&mut out, wid as u64);
    out.append(after);
    out
}

impl AppState {
    fn route_of_window_action(&self, action: &WindowAction) -> (r: Option<WindowRoute>)
        requires
            self.wf(),
        ensures
            r == self@.window_route(*action),
    {
        match action {
            WindowAction::Space(_) => Some(WindowRoute::ToSpace),
            WindowAction::Display(_) => Some(WindowRoute::ToDisplay),
            WindowAction::Opacity(_) => Some(WindowRoute::Opacity),
            WindowAction::SubLayer(_) => Some(WindowRoute::SubLayer),
            WindowAction::Scratchpad(_) => Some(WindowRoute::Scratchpad),
            WindowAction::Toggle(name) => {
                let name = name.as_str();
                if text::same(name, "sticky") {
                    Some(WindowRoute::Sticky)
                } else if text::same(name, "shadow") {
                    Some(WindowRoute::Shadow)
                } else if text::same(name, "pip") {
                    Some(WindowRoute::Pip)
                } else if self.scratchpad_window(name).is_some() {
                    Some(WindowRoute::ToggleScratchpad)
                } else {
                    None
                }
            },
            WindowAction::Raise(_) => Some(WindowRoute::Raise),
            WindowAction::Lower(_) => Some(WindowRoute::Lower),
            _ => None,
        }
    }

    /// The first action of a `window` command that needs the scripting addition.
    pub fn route_window(&self, actions: &Vec<WindowAction>) -> (r: Option<(usize, WindowRoute)>)
        requires
            self.wf(),
        ensures
            match r {
                Some((i, route)) => i < actions@.len() && self@.window_route(actions@[i as int])
                    == Some(route) && forall|k: int|
                    0 <= k < i ==> self@.window_route(#[trigger] actions@[k]) is None,
                None => forall|k: int|
                    0 <= k < actions@.len() ==> self@.window_route(#[trigger] actions@[k]) is None,
            },
    {
        let mut i: usize = 0;
        while i < actions.len()
            invariant
                self.wf(),
                i <= actions@.len(),
                forall|k: int| 0 <= k < i ==> self@.window_route(#[trigger] actions@[k]) is None,
            decreases actions.len() - i,
        {
            if let Some(route) = self.route_of_window_action(&actions[i]) {
                return Some((i, route));
            }
            i += 1;
        }
        None
    }

    /// The window that gets the focus before the focused one leaves its space.
    pub fn keep_source_space_focused(&self, wid: u32) -> (r: Option<u32>)
        requires
            self.wf(),
        ensures
            r == self@.focus_kept(wid),
    {
        let focused = match self.focused_window_id() {
            Some(focused) => focused == wid,
            None => false,
        };
        if !focused {
            return None;
        }
        match self.window_known_space_id(wid) {
            Some(src) => if self.is_space_visible(src) {
                tiling::other_than(&self.space_windows(src), wid)
            } else {
                None
            },
            None => None,
        }
    }

    fn transfer(&self, client: &ScriptingAddition, wid: u32, sid: u64) -> (r: WindowTransfer)
        requires
            self.wf(),
        ensures
            self@.is_transfer(r, wid, sid),
    {
        WindowTransfer {
            wid,
            sid,
            focus: self.keep_source_space_focused(wid),
            request: client.move_window_to_space(sid, wid),
        }
    }

    /// Plan `window --space`.
    pub fn plan_window_to_space(
        &self,
        client: &ScriptingAddition,
        target: Option<&Selector>,
        selector: &Selector,
    ) -> (r: Result<WindowTransfer, String>)
        requires
            self.wf(),
        ensures
            match self@.transfer_pair(
                selectors::owned(target),
                self@.selected_space(Some(*selector)),
            ) {
                selectors::Resolved::Failed(e) => r is Err && r->Err_0@ == e,
                selectors::Resolved::Found((wid, sid)) => r is Ok && self@.is_transfer(
                    r->Ok_0,
                    wid,
                    sid,
                ),
            },
    {
        match self.resolve_window_selector(target) {
            Err(error) => Err(error),
            Ok(wid) => match self.resolve_space(Some(selector)) {
                Err(error) => Err(error),
                Ok(sid) => Ok(self.transfer(client, wid, sid)),
            },
        }
    }

    fn resolve_shown_space(&self, selector: &Selector) -> (r: Result<u64, String>)
        requires
            self.wf(),
        ensures
            selectors::is_outcome(r, self@.shown_space(*selector)),
    {
        match self.resolve_display(Some(selector)) {
            Err(error) => Err(error),
            Ok(did) => match self.display_active_space_id(did) {
                Some(sid) => Ok(sid),
                None => {
                    let mut out = "could not locate the active space of display '".to_owned();
                    text::push_decimal(&mut out, did as u64);
                    out.append("'.\n");
                    Err(out)
                },
            },
        }
    }

    /// Plan `window --display`.
    pub fn plan_window_to_display(
        &self,
        client: &ScriptingAddition,
        target: Option<&Selector>,
        selector: &Selector,
    ) -> (r: Result<WindowTransfer, String>)
        requires
            self.wf(),
        ensures
            match self@.transfer_pair(selectors::owned(target), self@.shown_space(*selector)) {
                selectors::Resolved::Failed(e) => r is Err && r->Err_0@ == e,
                selectors::Resolved::Found((wid, sid)) => r is Ok && self@.is_transfer(
                    r->Ok_0,
                    wid,
                    sid,
                ),
            },
    {
        match self.resolve_window_selector(target) {
            Err(error) => Err(error),
            Ok(wid) => match self.resolve_shown_space(selector) {
                Err(error) => Err(error),
                Ok(sid) => Ok(self.transfer(client, wid, sid)),
            },
        }
    }

    /// Plan `space --create`.
    pub fn plan_space_create(&self, client: &ScriptingAddition, target: Option<&Selector>) -> (r:
        Result<SaRequest, String>)
        requires
            self.wf(),
        ensures
            match self@.selected_space(selectors::owned(target)) {
                selectors::Resolved::Failed(e) => r is Err && r->Err_0@ == e,
                selectors::Resolved::Found(sid) => r is Ok && r->Ok_0.opcode
                    == SaOpcode::SpaceCreate && r->Ok_0.payload@ == bytes::le_bytes(sid as nat, 8),
            },
    {
        match self.resolve_space(target) {
            Ok(sid) => Ok(client.create_space(sid)),
            Err(error) => Err(error),
        }
    }

    /// Plan `space --destroy`: the space that the action names, or else the one
    /// that the command is addressed to.
    pub fn plan_space_destroy(
        &self,
        client: &ScriptingAddition,
        target: Option<&Selector>,
        selector: Option<&Selector>,
    ) -> (r: Result<SaRequest, String>)
        requires
            self.wf(),
        ensures
            match self@.selected_space(
                selectors::owned(
                    if selector is Some {
                        selector
                    } else {
                        target
                    },
                ),
            ) {
                selectors::Resolved::Failed(e) => r is Err && r->Err_0@ == e,
                selectors::Resolved::Found(sid) => r is Ok && r->Ok_0.opcode
                    == SaOpcode::SpaceDestroy && r->Ok_0.payload@ == bytes::le_bytes(sid as nat, 8),
            },
    {
        let chosen = match selector {
            Some(selector) => Some(selector),
            None => target,
        };
        match self.resolve_space(chosen) {
            Ok(sid) => Ok(client.destroy_space(sid)),
            Err(error) => Err(error),
        }
    }

    /// The space that the effects of a rule send a window to, if any.
    pub fn resolve_rule_destination(
        &self,
        space: Option<&Selector>,
        display: Option<&Selector>,
    ) -> (r: Result<Option<u64>, String>)
        requires
            self.wf(),
        ensures
            selectors::is_outcome(
                r,
                self@.rule_destination(selectors::owned(space), selectors::owned(display)),
            ),
    {
        if let Some(selector) = space {
            return match self.resolve_space(Some(selector)) {
                Ok(sid) => Ok(Some(sid)),
                Err(error) => Err(error),
            };
        }
        match display {
            Some(selector) => match self.resolve_shown_space(selector) {
                Ok(sid) => Ok(Some(sid)),
                Err(error) => Err(error),
            },
            None => Ok(None),
        }
    }

    /// The display that a `display` command acts on.
    pub fn resolve_acting_display(&self, target: Option<&Selector>, cursor: Option<u32>) -> (r:
        Result<u32, String>)
        requires
            self.wf(),
        ensures
            selectors::is_outcome(r, self@.acting_display(selectors::owned(target), cursor)),
    {
        match target {
            Some(selector) => self.resolve_display(Some(selector)),
            None => match cursor {
                Some(did) => Ok(did),
                None => match self.resolve_display(None) {
                    Ok(did) => Ok(did),
                    Err(_) => Err("could not locate the display to act on!\n".to_owned()),
                },
            },
        }
    }

    /// What an action of a `display` command comes down to, if it needs the
    /// system.
    pub fn plan_display(&self, acting: u32, action: &DisplayAction) -> (r: Option<
        Result<DisplayPlan, String>,
    >)
        requires
            self.wf(),
        ensures
            match self@.display_plan(acting, *action) {
                None => r is None,
                Some(plan) => r is Some && selectors::is_outcome(r->0, plan),
            },
    {
        match action {
            DisplayAction::Focus(Some(selector)) => Some(
                match self.resolve_display(Some(selector)) {
                    Err(error) => Err(error),
                    Ok(dest) => if dest == acting {
                        Err("cannot focus an already focused display.\n".to_owned())
                    } else {
                        Ok(DisplayPlan::Focus(dest))
                    },
                },
            ),
            DisplayAction::Space(selector) => Some(
                match self.resolve_space(Some(selector)) {
                    Err(error) => Err(error),
                    Ok(sid) => Ok(DisplayPlan::FocusSpace(sid)),
                },
            ),
            _ => None,
        }
    }

    /// The space that a display shows and the first window there, for a display
    /// that is to be focused. `shown` is what the system tells if the space is
    /// not known.
    pub fn plan_focus_display(&self, did: u32, shown: Option<u64>) -> (r: (
        Option<u64>,
        Option<u32>,
    ))
        requires
            self.wf(),
        ensures
            r.0 == (match self@.topology.shown_on(did) {
                Some(sid) => Some(sid),
                None => shown,
            }),
            r.1 == (match r.0 {
                Some(sid) => if self@.windows_on(sid).len() > 0 {
                    Some(self@.windows_on(sid)[0])
                } else {
                    None
                },
                None => None,
            }),
    {
        let space = match self.display_active_space_id(did) {
            Some(sid) => Some(sid),
            None => shown,
        };
        let window = match space {
            Some(sid) => self.first_window_on_space(sid),
            None => None,
        };
        (space, window)
    }

    /// The requests that set the opacity of every window: one opacity for the
    /// window with the focus and one for the others, or full opacity for all of
    /// them where the feature is off.
    pub fn auto_opacity(&self, client: &ScriptingAddition, focused: Option<u32>) -> (r: Vec<
        SaRequest,
    >)
        requires
            self.wf(),
        ensures
            r@.len() == idmap::ids_of(self@.tiling.window_spaces.dom()).len(),
            forall|i: int|
                0 <= i < r@.len() ==> self@.is_auto_opacity(
                    #[trigger] r@[i],
                    idmap::ids_of(self@.tiling.window_spaces.dom())[i],
                    focused,
                ),
    {
        let ids = self.all_window_ids();
        let opaque = Real { bits: 0x3f80_0000, text: "1.0000".to_owned() };
        let mut out: Vec<SaRequest> = Vec::new();
        let mut i: usize = 0;
        while i < ids.len()
            invariant
                self.wf(),
                i <= ids@.len(),
                opaque.bits == 0x3f80_0000,
                out@.len() == i,
                forall|k: int|
                    0 <= k < i ==> self@.is_auto_opacity(#[trigger] out@[k], ids@[k], focused),
            decreases ids.len() - i,
        {
            let wid = ids[i];
            let has_focus = match focused {
                Some(id) => id == wid,
                None => false,
            };
            let opacity = match self.auto_opacities() {
                Some((active, normal)) => if has_focus {
                    active
                } else {
                    normal
                },
                None => &opaque,
            };
            out.push(client.set_opacity(wid, opacity, self.opacity_duration()));
            i += 1;
        }
        out
    }

    /// The window that `window --grid` places; a tiled one is refused.
    pub fn plan_grid(&self, target: Option<&Selector>) -> (r: Result<u32, String>)
        requires
            self.wf(),
        ensures
            match self@.acting_window(selectors::owned(target)) {
                selectors::Resolved::Failed(e) => r is Err && r->Err_0@ == e,
                selectors::Resolved::Found(wid) => if self@.tiling.is_tiled(wid) {
                    r is Err && r->Err_0@ == "cannot apply grid layout to a managed window.\n"@
                } else {
                    r == Ok::<u32, String>(wid)
                },
            },
    {
        match self.resolve_window_selector(target) {
            Err(error) => Err(error),
            Ok(wid) => match self.check_grid(wid) {
                Ok(()) => Ok(wid),
                Err(error) => Err(error),
            },
        }
    }

    /// Check that a window can be placed in a grid: a tiled one cannot.
    pub fn check_grid(&self, wid: u32) -> (r: Result<(), String>)
        requires
            self.wf(),
        ensures
            r is Ok <==> !self@.tiling.is_tiled(wid),
            r is Err ==> r->Err_0@ == "cannot apply grid layout to a managed window.\n"@,
    {
        if self.window_space_id(wid).is_some() {
            Err("cannot apply grid layout to a managed window.\n".to_owned())
        } else {
            Ok(())
        }
    }

    /// The padding and the gap of a grid on the space that a display shows; the
    /// configured ones if that is not known.
    pub fn grid_room(&self, did: u32) -> (r: (Padding, i32))
        requires
            self.wf(),
        ensures
            r == (match self@.topology.shown_on(did) {
                Some(sid) => (self@.padding_of(sid), self@.gap_of(sid)),
                None => (
                    Padding {
                        top: self@.config.top_padding,
                        bottom: self@.config.bottom_padding,
                        left: self@.config.left_padding,
                        right: self@.config.right_padding,
                    },
                    self@.config.window_gap,
                ),
            }),
    {
        match self.display_active_space_id(did) {
            Some(sid) => self.grid_insets(sid),
            None => self.default_insets(),
        }
    }

    /// The window that `window --move` moves; a tiled one is refused.
    pub fn plan_move(&self, target: Option<&Selector>) -> (r: Result<u32, String>)
        requires
            self.wf(),
        ensures
            match self@.acting_window(selectors::owned(target)) {
                selectors::Resolved::Failed(e) => r is Err && r->Err_0@ == e,
                selectors::Resolved::Found(wid) => if self@.tiling.is_tiled(wid) {
                    r is Err && r->Err_0@ == "cannot move a managed window.\n"@
                } else {
                    r == Ok::<u32, String>(wid)
                },
            },
    {
        match self.resolve_window_selector(target) {
            Err(error) => Err(error),
            Ok(wid) => if self.window_space_id(wid).is_some() {
                Err("cannot move a managed window.\n".to_owned())
            } else {
                Ok(wid)
            },
        }
    }

    /// The window that `window --resize` resizes by itself. A tiled one is left
    /// to its layout, unless its size is to be set outright.
    pub fn plan_resize(&self, target: Option<&Selector>, absolute: bool) -> (r: Option<
        Result<u32, String>,
    >)
        requires
            self.wf(),
        ensures
            match self@.acting_window(selectors::owned(target)) {
                selectors::Resolved::Failed(e) => r is Some && r->0 is Err && r->0->Err_0@ == e,
                selectors::Resolved::Found(wid) => if !self@.tiling.is_tiled(wid) {
                    r == Some(Ok::<u32, String>(wid))
                } else if absolute {
                    r is Some && r->0 is Err && r->0->Err_0@
                        == "cannot use absolute resizing on a managed window.\n"@
                } else {
                    r is None
                },
            },
    {
        match self.resolve_window_selector(target) {
            Err(error) => Some(Err(error)),
            Ok(wid) => if self.window_space_id(wid).is_none() {
                Some(Ok(wid))
            } else if absolute {
                Some(Err("cannot use absolute resizing on a managed window.\n".to_owned()))
            } else {
                None
            },
        }
    }
}

/// Which actions on a space need the scripting addition, and for what.
pub proof fn law_space_routes(selector: Selector, named: Option<Selector>, name: String)
    ensures
        space_route(SpaceAction::Create) == Some(SpaceRoute::Create),
        space_route(SpaceAction::Destroy(named)) == Some(SpaceRoute::Destroy),
        space_route(SpaceAction::Display(selector)) == Some(SpaceRoute::ToDisplay),
        space_route(SpaceAction::Move(selector)) == Some(SpaceRoute::Move),
        space_route(SpaceAction::Swap(selector)) == Some(SpaceRoute::Swap),
        space_route(SpaceAction::Switch(selector)) == Some(SpaceRoute::Switch),
        space_route(SpaceAction::Focus(named)) is None,
        name@ == "mission-control"@ ==> space_route(SpaceAction::Toggle(name)) == Some(
            SpaceRoute::MissionControl,
        ),
        name@ == "show-desktop"@ ==> space_route(SpaceAction::Toggle(name)) == Some(
            SpaceRoute::ShowDesktop,
        ),
        name@ != "mission-control"@ && name@ != "show-desktop"@ ==> space_route(
            SpaceAction::Toggle(name),
        ) is None,
{
    reveal_strlit("mission-control");
    reveal_strlit("show-desktop");
    assert("mission-control"@.len() != "show-desktop"@.len());
}

/// The actions on a layout are the state's own.
pub proof fn law_layout_actions_need_no_addition(action: SpaceAction)
    requires
        action is Balance || action is Equalize || action is Mirror || action is Rotate
            || action is Layout || action is Gap || action is Padding || action is Label,
    ensures
        space_route(action) is None,
{
}

/// Which actions on a window need the scripting addition, and for what. A toggle by
/// another name counts if a scratchpad has it for its label.
pub proof fn law_window_routes(
    s: State,
    selector: Selector,
    named: Option<Selector>,
    name: String,
    action: WindowAction,
    w: u32,
)
    requires
        labels::unique(s.scratchpads),
    ensures
        s.window_route(WindowAction::Space(selector)) == Some(WindowRoute::ToSpace),
        s.window_route(WindowAction::Display(selector)) == Some(WindowRoute::ToDisplay),
        s.window_route(WindowAction::Raise(named)) == Some(WindowRoute::Raise),
        s.window_route(WindowAction::Lower(named)) == Some(WindowRoute::Lower),
        action is Opacity ==> s.window_route(action) == Some(WindowRoute::Opacity),
        action is SubLayer ==> s.window_route(action) == Some(WindowRoute::SubLayer),
        action is Scratchpad ==> s.window_route(action) == Some(WindowRoute::Scratchpad),
        name@ == "sticky"@ ==> s.window_route(WindowAction::Toggle(name)) == Some(
            WindowRoute::Sticky,
        ),
        name@ == "shadow"@ ==> s.window_route(WindowAction::Toggle(name)) == Some(
            WindowRoute::Shadow,
        ),
        name@ == "pip"@ ==> s.window_route(WindowAction::Toggle(name)) == Some(WindowRoute::Pip),
        name@ != "sticky"@ && name@ != "shadow"@ && name@ != "pip"@ ==> {
            &&& s.scratchpads.dom().contains(w) && s.scratchpads[w] == name@ ==> s.window_route(
                WindowAction::Toggle(name),
            ) == Some(WindowRoute::ToggleScratchpad)
            &&& (forall|k: u32|
                s.scratchpads.dom().contains(k) ==> #[trigger] s.scratchpads[k] != name@)
                ==> s.window_route(WindowAction::Toggle(name)) is None
        },
        action is Focus || action is Swap || action is Warp || action is Stack || action is Minimize
            || action is Deminimize || action is Close || action is Resize || action is Ratio
            || action is Insert || action is Grid || action is Move ==> s.window_route(
            action,
        ) is None,
{
    reveal_strlit("sticky");
    reveal_strlit("shadow");
    reveal_strlit("pip");
    assert("sticky"@[1] != "shadow"@[1]);
    assert("pip"@.len() == 3 && "sticky"@.len() == 6 && "shadow"@.len() == 6);
    labels::law_label_owner(s.scratchpads, w, name@);
}

/// Before the focused window leaves a space in view, the first other window there gets
/// the focus; for any other window none does.
pub proof fn law_focus_is_kept_in_view(s: State, wid: u32, src: u64)
    ensures
        s.known_space(wid) == Some(src) && s.tiling.focused_window == Some(wid)
            && s.topology.is_visible(src, s.tiling.active_space) ==> s.focus_kept(wid)
            == tiling::first_other(s.windows_on(src), wid),
        s.tiling.focused_window != Some(wid) ==> s.focus_kept(wid) is None,
        s.known_space(wid) is None ==> s.focus_kept(wid) is None,
        s.known_space(wid) == Some(src) && !s.topology.is_visible(src, s.tiling.active_space)
            ==> s.focus_kept(wid) is None,
        s.focus_kept(wid) != Some(wid),
{
    if s.known_space(wid) is Some {
        tiling::law_first_other_window(s.windows_on(s.known_space(wid)->0), wid);
    }
}

/// The space shown on a selected display is the one it is known to show.
pub proof fn law_shown_space(s: State, selector: Selector, did: u32)
    requires
        s.selected_display(Some(selector)) == selectors::Resolved::Found(did),
    ensures
        s.topology.display_active_space.dom().contains(did) ==> s.shown_space(selector)
            == selectors::Resolved::Found(s.topology.display_active_space[did]),
        !s.topology.display_active_space.dom().contains(did) ==> s.shown_space(selector)
            == selectors::Resolved::<u64>::Failed(
            "could not locate the active space of display '"@ + text::decimal(did as nat) + "'.\n"@,
        ),
{
}

/// A transfer takes the window named to the space named, and tells the scripting
/// addition both; of two complaints the one about the window comes first.
pub proof fn law_transfers(
    s: State,
    target: Option<Selector>,
    place: selectors::Resolved<u64>,
    t: WindowTransfer,
    wid: u32,
    sid: u64,
)
    ensures
        s.acting_window(target) == selectors::Resolved::Found(wid) && place
            == selectors::Resolved::Found(sid) ==> s.transfer_pair(target, place)
            == selectors::Resolved::Found((wid, sid)),
        s.acting_window(target) matches selectors::Resolved::Failed(e) ==> (s.transfer_pair(
            target,
            place,
        ) == selectors::Resolved::<(u32, u64)>::Failed(e)),
        s.acting_window(target) is Found ==> (place matches selectors::Resolved::Failed(e) ==> (
        s.transfer_pair(target, place) == selectors::Resolved::<(u32, u64)>::Failed(e))),
        s.is_transfer(t, wid, sid) ==> t.wid == wid && t.sid == sid && t.request.opcode
            == SaOpcode::WindowToSpace && t.focus == s.focus_kept(wid),
        s.is_transfer(t, wid, sid) ==> {
            &&& t.request.payload@.len() == 12
            &&& bytes::le_value(t.request.payload@.subrange(0, 8)) == sid
            &&& bytes::le_value(t.request.payload@.subrange(8, 12)) == wid
        },
{
    bytes::law_numbers_read_back(wid, sid);
    let a = bytes::le_bytes(sid as nat, 8);
    let b = bytes::le_bytes(wid as nat, 4);
    assert((a + b).subrange(0, 8) =~= a);
    assert((a + b).subrange(8, 12) =~= b);
}

/// A rule sends a window to the space it names, or else to the one shown on the
/// display it names, or else nowhere.
pub proof fn law_rule_destinations(
    s: State,
    space: Selector,
    display: Option<Selector>,
    shown: Selector,
    sid: u64,
)
    ensures
        s.selected_space(Some(space)) == selectors::Resolved::Found(sid) ==> s.rule_destination(
            Some(space),
            display,
        ) == selectors::Resolved::Found(Some(sid)),
        s.selected_space(Some(space)) matches selectors::Resolved::Failed(e) ==> (
        s.rule_destination(Some(space), display) == selectors::Resolved::<Option<u64>>::Failed(e)),
        s.shown_space(shown) == selectors::Resolved::Found(sid) ==> s.rule_destination(
            None,
            Some(shown),
        ) == selectors::Resolved::Found(Some(sid)),
        s.shown_space(shown) matches selectors::Resolved::Failed(e) ==> (s.rule_destination(
            None,
            Some(shown),
        ) == selectors::Resolved::<Option<u64>>::Failed(e)),
        s.rule_destination(None, None) == selectors::Resolved::Found(None::<u64>),
{
}

/// A `display` command acts on the display named, else on the one under the cursor,
/// else on the active one.
pub proof fn law_acting_display(
    s: State,
    selector: Selector,
    cursor: Option<u32>,
    under: u32,
    active: u32,
)
    ensures
        s.acting_display(Some(selector), cursor) == s.selected_display(Some(selector)),
        s.acting_display(None, Some(under)) == selectors::Resolved::Found(under),
        s.tiling.active_space is Some && s.topology.space_displays.dom().contains(
            s.tiling.active_space->0,
        ) && s.topology.space_displays[s.tiling.active_space->0] == active ==> s.acting_display(
            None,
            None,
        ) == selectors::Resolved::Found(active),
        s.selected_display(None) is Failed ==> s.acting_display(None, None)
            == selectors::Resolved::<u32>::Failed("could not locate the display to act on!\n"@),
{
}

/// Focusing a display goes to the one selected, unless it is acted on already; a space
/// is focused as selected. No other action on a display needs the system.
pub proof fn law_display_plans(
    s: State,
    acting: u32,
    selector: Selector,
    dest: u32,
    sid: u64,
    label: String,
)
    ensures
        s.selected_display(Some(selector)) == selectors::Resolved::Found(dest) && dest != acting
            ==> s.display_plan(acting, DisplayAction::Focus(Some(selector))) == Some(
            selectors::Resolved::Found(DisplayPlan::Focus(dest)),
        ),
        s.selected_display(Some(selector)) == selectors::Resolved::Found(acting) ==> s.display_plan(
            acting,
            DisplayAction::Focus(Some(selector)),
        ) == Some(
            selectors::Resolved::<DisplayPlan>::Failed(
                "cannot focus an already focused display.\n"@,
            ),
        ),
        s.selected_display(Some(selector)) matches selectors::Resolved::Failed(e) ==> (
        s.display_plan(acting, DisplayAction::Focus(Some(selector))) == Some(
            selectors::Resolved::<DisplayPlan>::Failed(e),
        )),
        s.selected_space(Some(selector)) == selectors::Resolved::Found(sid) ==> s.display_plan(
            acting,
            DisplayAction::Space(selector),
        ) == Some(selectors::Resolved::Found(DisplayPlan::FocusSpace(sid))),
        s.selected_space(Some(selector)) matches selectors::Resolved::Failed(e) ==> (
        s.display_plan(acting, DisplayAction::Space(selector)) == Some(
            selectors::Resolved::<DisplayPlan>::Failed(e),
        )),
        s.display_plan(acting, DisplayAction::Label(label)) is None,
        s.display_plan(acting, DisplayAction::Focus(None)) is None,
{
}

/// The window with the focus gets the one opacity and every other window the other;
/// where the feature is off all are opaque.
pub proof fn law_opacities(s: State, wid: u32, focused: Option<u32>, r: SaRequest)
    ensures
        !s.config.enable_window_opacity ==> s.auto_opacity_bits(wid, focused) == 0x3f80_0000,
        s.config.enable_window_opacity && focused == Some(wid) ==> s.auto_opacity_bits(wid, focused)
            == s.config.active_window_opacity.bits,
        s.config.enable_window_opacity && focused != Some(wid) ==> s.auto_opacity_bits(wid, focused)
            == s.config.normal_window_opacity.bits,
        s.is_auto_opacity(r, wid, focused) ==> (r.opcode == SaOpcode::WindowOpacityFade
            <==> sa::is_positive(s.config.window_opacity_duration.bits)),
        s.is_auto_opacity(r, wid, focused) ==> {
            &&& r.payload@.len() == 12
            &&& bytes::le_value(r.payload@.subrange(0, 4)) == wid
            &&& bytes::le_value(r.payload@.subrange(4, 8)) == s.auto_opacity_bits(wid, focused)
            &&& bytes::le_value(r.payload@.subrange(8, 12)) == s.config.window_opacity_duration.bits
        },
{
    let a = bytes::le_bytes(wid as nat, 4);
    let b = bytes::le_bytes(s.auto_opacity_bits(wid, focused) as nat, 4);
    let c = bytes::le_bytes(s.config.window_opacity_duration.bits as nat, 4);
    bytes::law_numbers_read_back(wid, 0);
    bytes::law_numbers_read_back(s.auto_opacity_bits(wid, focused), 0);
    bytes::law_numbers_read_back(s.config.window_opacity_duration.bits, 0);
    assert((a + b + c).subrange(0, 4) =~= a);
    assert((a + b + c).subrange(4, 8) =~= b);
    assert((a + b + c).subrange(8, 12) =~= c);
}

/// `space --focus` goes to the space selected among all spaces, unless it is active
/// already; without a list of spaces it fails.
pub proof fn law_space_focus_targets(
    order: Seq<u64>,
    active: Option<u64>,
    selector: Selector,
    sid: u64,
)
    ensures
        focus_target(None, active, selector) == selectors::Resolved::<u64>::Failed(
            "could not enumerate spaces."@,
        ),
        order.len() == 0 ==> focus_target(Some(order), active, selector) == selectors::Resolved::<
            u64,
        >::Failed("could not enumerate spaces."@),
        order.len() > 0 && spaces::space_target(order, active, selector)
            == selectors::Resolved::Found(sid) && active != Some(sid) ==> focus_target(
            Some(order),
            active,
            selector,
        ) == selectors::Resolved::Found(sid),
        order.len() > 0 && spaces::space_target(order, active, selector)
            == selectors::Resolved::Found(sid) && active == Some(sid) ==> focus_target(
            Some(order),
            active,
            selector,
        ) == selectors::Resolved::<u64>::Failed("cannot focus an already focused space."@),
        order.len() > 0 ==> (spaces::space_target(order, active, selector) matches
            selectors::Resolved::Failed(e) ==> (focus_target(Some(order), active, selector)
            == selectors::Resolved::<u64>::Failed(e))),
{
}

/// A space is created beside the one selected; the one destroyed is the one that the
/// action names, or else the one that the command is addressed to.
pub proof fn law_space_plans(
    state: &AppState,
    client: &ScriptingAddition,
    target: Option<&Selector>,
    named: &Selector,
    created: Result<SaRequest, String>,
    destroyed: Result<SaRequest, String>,
    addressed: Result<SaRequest, String>,
    sid: u64,
    e: Seq<char>,
)
    requires
        call_ensures(AppState::plan_space_create, (state, client, target), created),
        call_ensures(AppState::plan_space_destroy, (state, client, target, Some(named)), destroyed),
        call_ensures(
            AppState::plan_space_destroy,
            (state, client, target, None::<&Selector>),
            addressed,
        ),
    ensures
        ({
            let to = match target {
                Some(s) => Some(*s),
                None => None,
            };
            &&& state@.selected_space(to) == selectors::Resolved::Found(sid) ==> {
                &&& created is Ok
                &&& created->Ok_0.opcode == SaOpcode::SpaceCreate
                &&& bytes::le_value(created->Ok_0.payload@) == sid
                &&& addressed is Ok
                &&& addressed->Ok_0.opcode == SaOpcode::SpaceDestroy
                &&& bytes::le_value(addressed->Ok_0.payload@) == sid
            }
            &&& state@.selected_space(to) == selectors::Resolved::<u64>::Failed(e) ==> created is Err
                && created->Err_0@ == e && addressed is Err && addressed->Err_0@ == e
            &&& state@.selected_space(Some(*named)) == selectors::Resolved::Found(sid) ==> {
                &&& destroyed is Ok
                &&& destroyed->Ok_0.opcode == SaOpcode::SpaceDestroy
                &&& bytes::le_value(destroyed->Ok_0.payload@) == sid
            }
        }),
{
    bytes::law_numbers_read_back(0, sid);
}

/// A display focused shows the space it is known to show, or the one the system tells,
/// and the first window there gets the focus.
pub proof fn law_focused_display(
    state: &AppState,
    did: u32,
    shown: Option<u64>,
    r: (Option<u64>, Option<u32>),
)
    requires
        call_ensures(AppState::plan_focus_display, (state, did, shown), r),
    ensures
        ({
            let known = state@.topology.display_active_space;
            let spaces = state@.tiling.spaces;
            &&& known.dom().contains(did) ==> r.0 == Some(known[did])
            &&& !known.dom().contains(did) ==> r.0 == shown
            &&& r.0 is None ==> r.1 is None
            &&& r.0 matches Some(sid) ==> {
                &&& spaces.dom().contains(sid) && spaces[sid].windows.len() > 0 ==> r.1 == Some(
                    spaces[sid].windows[0],
                )
                &&& !spaces.dom().contains(sid) || spaces[sid].windows.len() == 0 ==> r.1 is None
            }
        }),
{
}

/// A grid, a move and a resize by itself are for windows that no layout tiles; a tiled
/// one is refused in words of its own, or left to its layout.
pub proof fn law_plans_for_untiled_windows(
    state: &AppState,
    target: Option<&Selector>,
    absolute: bool,
    grid: Result<u32, String>,
    moved: Result<u32, String>,
    resized: Option<Result<u32, String>>,
    wid: u32,
    sid: u64,
)
    requires
        call_ensures(AppState::plan_grid, (state, target), grid),
        call_ensures(AppState::plan_move, (state, target), moved),
        call_ensures(AppState::plan_resize, (state, target, absolute), resized),
        state@.acting_window(
            match target {
                Some(s) => Some(*s),
                None => None,
            },
        ) == selectors::Resolved::Found(wid),
    ensures
        state@.tiling.spaces.dom().contains(sid) && state@.tiling.spaces[sid].windows.contains(wid)
            ==> {
            &&& grid is Err
            &&& grid->Err_0@ == "cannot apply grid layout to a managed window.\n"@
            &&& moved is Err
            &&& moved->Err_0@ == "cannot move a managed window.\n"@
            &&& absolute ==> resized is Some && resized->0 is Err && resized->0->Err_0@
                == "cannot use absolute resizing on a managed window.\n"@
            &&& !absolute ==> resized is None
        },
        (forall|k: u64|
            state@.tiling.spaces.dom().contains(k) ==> !(
            #[trigger] state@.tiling.spaces[k]).windows.contains(wid)) ==> {
            &&& grid == Ok::<u32, String>(wid)
            &&& moved == Ok::<u32, String>(wid)
            &&& resized == Some(Ok::<u32, String>(wid))
        },
{
    let tiling = state@.tiling;
    if tiling.spaces.dom().contains(sid) && tiling.spaces[sid].windows.contains(wid) {
        assert(tiling.tiles(sid, wid));
    }
    if tiling.is_tiled(wid) {
        let k = choose|k: u64| tiling.tiles(k, wid);
        assert(tiling.spaces[k].windows.contains(wid));
    }
}

/// A grid has the padding and the gap of the space that its display shows, or else the
/// configured ones.
pub proof fn law_room_of_a_grid(state: &AppState, did: u32, r: (Padding, i32))
    requires
        call_ensures(AppState::grid_room, (state, did), r),
    ensures
        state@.topology.display_active_space.dom().contains(did) ==> {
            let sid = state@.topology.display_active_space[did];
            r.0 == state@.padding_of(sid) && r.1 == state@.gap_of(sid)
        },
        !state@.topology.display_active_space.dom().contains(did) ==> {
            &&& r.0.top == state@.config.top_padding
            &&& r.0.bottom == state@.config.bottom_padding
            &&& r.0.left == state@.config.left_padding
            &&& r.0.right == state@.config.right_padding
            &&& r.1 == state@.config.window_gap
        },
{
}

/// A window sent by a rule is followed if the rule says so, or if it goes to native
/// fullscreen; a space is focused on the display acted on alone.
pub proof fn law_followed_windows(
    effects: &RuleEffects,
    follows: bool,
    display: Option<u32>,
    acting: u32,
    checked: Result<(), String>,
)
    requires
        call_ensures(follows_window, (effects,), follows),
        call_ensures(check_space_on_display, (display, acting), checked),
    ensures
        effects.follow_space ==> follows,
        effects.fullscreen == Some(true) ==> follows,
        !effects.follow_space && effects.fullscreen != Some(true) ==> !follows,
        display == Some(acting) ==> checked is Ok,
        display != Some(acting) ==> checked is Err && checked->Err_0@
            == "acting display does not contain the given space.\n"@,
{
}

/// The opacities of all windows are set one by one, by ascending id.
pub proof fn law_every_window_gets_its_opacity(
    state: &AppState,
    client: &ScriptingAddition,
    focused: Option<u32>,
    r: Vec<SaRequest>,
    i: int,
)
    requires
        call_ensures(AppState::auto_opacity, (state, client, focused), r),
        0 <= i < r@.len(),
    ensures
        ({
            let wid = idmap::ids_of(state@.tiling.window_spaces.dom())[i];
            &&& r@.len() == idmap::ids_of(state@.tiling.window_spaces.dom()).len()
            &&& bytes::le_value(r@[i].payload@.subrange(0, 4)) == wid
            &&& bytes::le_value(r@[i].payload@.subrange(4, 8)) == state@.auto_opacity_bits(
                wid,
                focused,
            )
        }),
{
    let wid = idmap::ids_of(state@.tiling.window_spaces.dom())[i];
    law_opacities(state@, wid, focused, r@[i]);
}

/// A complaint names what could not be done and why; one about a window its id.
pub proof fn law_complaints(what: &str, reason: &str, wid: u32, a: String, b: String)
    requires
        call_ensures(reason_error, (what, reason), a),
        call_ensures(window_error, (what, wid, reason), b),
    ensures
        a@ == "could not "@ + what@ + ": "@ + reason@ + "\n"@,
        b@ == what@ + text::decimal(wid as nat) + reason@,
{
}

} // verus!
