//! What `window` commands ask of the scripting addition.
use vstd::prelude::*;

use crate::bytes;
use crate::dispatch::ScratchpadAction;
use crate::literals;
use crate::sa;
use crate::sa::{SaOpcode, SaRequest, ScriptingAddition};
use crate::selectors;
use crate::state::{AppState, State};
use crate::text;
use crate::tiling;
use crate::types::{Area, Layer, Real, Selector};

verus! {

/// A request to the scripting addition, and the answer if it cannot be sent.
#[derive(Debug)]
pub struct SaOrder {
    pub request: SaRequest,
    pub complaint: String,
}

/// The complaint that something could not be done to a window.
pub open spec fn complaint_text(what: Seq<char>, wid: u32) -> Seq<char> {
    "could not "@ + what + " window with id '"@ + text::decimal(wid as nat)
        + "' due to an error with the scripting-addition.\n"@
}

/// Whether an order has the opcode, the payload and the complaint given.
pub open spec fn is_order(
    order: SaOrder,
    opcode: SaOpcode,
    payload: Seq<u8>,
    complaint: Seq<char>,
) -> bool {
    &&& order.request.opcode == opcode
    &&& order.request.payload@ == payload
    &&& order.complaint@ == complaint
}

fn complaint(what: &str, wid: u32) -> (r: String)
    ensures
        r@ == complaint_text(what@, wid),
{
    let mut out = "could not ".to_owned();
    out.append(what);
    out.append(" window with id '");
    text::push_decimal(&mut out, wid as u64);
    out.append("' due to an error with the scripting-addition.\n");
    out
}

/// The payload that orders a window against another one.
pub open spec fn order_payload(wid: u32, order: i32, reference: u32) -> Seq<u8> {
    bytes::le_bytes(wid as nat, 4) + bytes::le_bytes(sa::pattern(order), 4) + bytes::le_bytes(
        reference as nat,
        4,
    )
}

/// The payload that moves a window to a space.
pub open spec fn to_space_payload(sid: u64, wid: u32) -> Seq<u8> {
    bytes::le_bytes(sid as nat, 8) + bytes::le_bytes(wid as nat, 4)
}

/// A truth value as a byte.
pub open spec fn flag_byte(value: bool) -> u8 {
    if value {
        1u8
    } else {
        0u8
    }
}

/// Labels that scratchpads cannot have: the names of the other toggles.
pub open spec fn is_toggle_name(label: Seq<char>) -> bool {
    label == "float"@ || label == "sticky"@ || label == "shadow"@ || label == "split"@ || label
        == "zoom-parent"@ || label == "zoom-fullscreen"@ || label == "windowed-fullscreen"@ || label
        == "native-fullscreen"@ || label == "expose"@ || label == "pip"@ || label == "recover"@
}

/// Why a text cannot be the label of a scratchpad.
pub open spec fn scratchpad_error(label: Seq<char>) -> Option<Seq<char>> {
    if literals::u64_literal(label) {
        Some("'"@ + label + "' cannot be used as a label.\n"@)
    } else if is_toggle_name(label) {
        Some("'"@ + label + "' is a reserved keyword and cannot be used as a scratchpad.\n"@)
    } else {
        None
    }
}

/// Check the label of a scratchpad.
pub fn validate_scratchpad_label(label: &str) -> (r: Result<(), String>)
    ensures
        match scratchpad_error(label@) {
            Some(e) => r is Err && r->Err_0@ == e,
            None => r is Ok,
        },
{
    if literals::is_u64_literal(label) {
        let mut out = "'".to_owned();
        out.append(label);
        out.append("' cannot be used as a label.\n");
        return Err(out);
    }
    if text::same(label, "float") || text::same(label, "sticky") || text::same(label, "shadow")
        || text::same(label, "split") || text::same(label, "zoom-parent") || text::same(
        label,
        "zoom-fullscreen",
    ) || text::same(label, "windowed-fullscreen") || text::same(label, "native-fullscreen")
        || text::same(label, "expose") || text::same(label, "pip") || text::same(label, "recover") {
        let mut out = "'".to_owned();
        out.append(label);
        out.append("' is a reserved keyword and cannot be used as a scratchpad.\n");
        return Err(out);
    }
    Ok(())
}

/// What `window --scratchpad` asks for.
#[derive(Debug)]
pub enum ScratchpadPlan {
    /// Order all windows in.
    Recover(SaOrder),
    /// Fetch the window to the active space and show it; the label is then
    /// removed.
    Remove { wid: u32, sid: u64, fetch: SaOrder, show: SaOrder },
    /// Give the window the label.
    Assign { wid: u32, sid: u64, label: String },
}

/// What `window --toggle` of a scratchpad asks for.
#[derive(Debug)]
pub enum TogglePlan {
    /// Hide the window; another window may get the focus first.
    Hide { focus: Option<u32>, hide: SaOrder },
    /// Show the window; it may have to be fetched to the active space first.
    Show { fetch: Option<SaOrder>, show: SaOrder },
}

/// Where a window is scaled to.
#[derive(Debug)]
pub enum PipBounds {
    /// The window has no frame.
    NoFrame,
    /// The window is on no display.
    NoDisplay,
    Within(Area),
}

impl State {
    /// The number of the layer that a window is put on. The automatic layer is
    /// the low one for a tiled window, and the normal one for any other.
    pub open spec fn layer_level(self, wid: u32, layer: Layer) -> i32 {
        match layer {
            Layer::Below => 3,
            Layer::Normal => 4,
            Layer::Above => 5,
            Layer::Auto => if self.tiling.is_tiled(wid) && !self.tiling.floating.contains(wid) {
                3
            } else {
                4
            },
        }
    }

    /// The window and the reference that an ordering is about.
    pub open spec fn ordered_windows(
        self,
        target: Option<Selector>,
        reference: Option<Selector>,
    ) -> selectors::Resolved<(u32, u32)> {
        match self.acting_window(target) {
            selectors::Resolved::Failed(e) => selectors::Resolved::Failed(e),
            selectors::Resolved::Found(wid) => match reference {
                None => selectors::Resolved::Found((wid, 0)),
                Some(selector) => match self.acting_window(Some(selector)) {
                    selectors::Resolved::Failed(e) => selectors::Resolved::Failed(e),
                    selectors::Resolved::Found(other) => selectors::Resolved::Found((wid, other)),
                },
            },
        }
    }

    /// The window that a scratchpad command acts on, and the active space.
    pub open spec fn scratchpad_scene(self, target: Option<Selector>) -> selectors::Resolved<
        (u32, u64),
    > {
        match self.acting_window(target) {
            selectors::Resolved::Failed(e) => selectors::Resolved::Failed(e),
            selectors::Resolved::Found(wid) => match self.tiling.active_space {
                None => selectors::Resolved::Failed("no active space"@),
                Some(sid) => selectors::Resolved::Found((wid, sid)),
            },
        }
    }

    /// Whether a plan is what `window --scratchpad` asks for.
    pub open spec fn is_scratchpad_plan(
        self,
        plan: Result<ScratchpadPlan, String>,
        target: Option<Selector>,
        action: ScratchpadAction,
        all: Seq<u32>,
    ) -> bool {
        match (action, self.scratchpad_scene(target)) {
            (ScratchpadAction::Recover, _) => {
                &&& plan is Ok
                &&& plan->Ok_0 is Recover
                &&& is_order(
                    plan->Ok_0->Recover_0,
                    SaOpcode::WindowOrderIn,
                    bytes::le_bytes(all.len() % 0x1_0000_0000, 4) + sa::packed_ids(all),
                    "could not recover scratchpad windows due to an error with the scripting-addition.\n"@,
                )
            },
            (_, selectors::Resolved::Failed(e)) => plan is Err && plan->Err_0@ == e,
            (ScratchpadAction::Remove, selectors::Resolved::Found((wid, sid))) => {
                if !self.scratchpads.dom().contains(wid) {
                    plan is Err && plan->Err_0@
                        == "the selected window was not assigned to a scratchpad!\n"@
                } else {
                    &&& plan is Ok
                    &&& plan->Ok_0 matches ScratchpadPlan::Remove { wid: w, sid: s, fetch, show }
                    &&& w == wid && s == sid
                    &&& is_order(
                        fetch,
                        SaOpcode::WindowToSpace,
                        to_space_payload(sid, wid),
                        complaint_text("move scratchpad"@, wid),
                    )
                    &&& is_order(
                        show,
                        SaOpcode::WindowOrder,
                        order_payload(wid, 1, 0),
                        complaint_text("order scratchpad"@, wid),
                    )
                }
            },
            (ScratchpadAction::Label(label), selectors::Resolved::Found((wid, sid))) => {
                match scratchpad_error(label@) {
                    Some(e) => plan is Err && plan->Err_0@ == e,
                    None => {
                        &&& plan is Ok
                        &&& plan->Ok_0 matches ScratchpadPlan::Assign { wid: w, sid: s, label: l }
                        &&& w == wid
                        &&& s == (match self.known_space(wid) {
                            Some(known) => known,
                            None => sid,
                        })
                        &&& l@ == label@
                    },
                }
            },
        }
    }

    /// Whether a scratchpad is on the active space.
    pub open spec fn is_at_hand(self, wid: u32, active: u64) -> bool {
        self.tiling.sticky.contains(wid) || self.known_space(wid) == Some(active)
    }

    /// The window that gets the focus when a scratchpad is hidden: the first
    /// other one on the active space, if the scratchpad has the focus.
    pub open spec fn focus_behind(self, wid: u32, active: u64) -> Option<u32> {
        if self.tiling.focused_window == Some(wid) {
            match self.frames_of(active) {
                Some(frames) => tiling::first_other(frames.map_values(
                    |f: crate::state::WindowFrame| f.window_id,
                ), wid),
                None => None,
            }
        } else {
            None
        }
    }

    /// Whether a plan is what toggling a scratchpad asks for.
    pub open spec fn is_toggle_plan(
        self,
        plan: TogglePlan,
        wid: u32,
        active: u64,
        ordered_in: bool,
    ) -> bool {
        if self.is_at_hand(wid, active) && ordered_in {
            &&& plan matches TogglePlan::Hide { focus, hide }
            &&& focus == self.focus_behind(wid, active)
            &&& is_order(
                hide,
                SaOpcode::WindowOrder,
                order_payload(wid, 0, 0),
                complaint_text("hide scratchpad"@, wid),
            )
        } else {
            &&& plan matches TogglePlan::Show { fetch, show }
            &&& fetch is None <==> self.is_at_hand(wid, active)
            &&& fetch is Some ==> is_order(
                fetch->0,
                SaOpcode::WindowToSpace,
                to_space_payload(active, wid),
                complaint_text("move scratchpad"@, wid),
            )
            &&& is_order(
                show,
                SaOpcode::WindowOrder,
                order_payload(wid, 1, 0),
                complaint_text("show scratchpad"@, wid),
            )
        }
    }

    /// The space that a window is tiled on again when it stops being sticky.
    pub open spec fn sticky_space(self, wid: u32) -> u64 {
        match self.tiling.space_of(wid) {
            Some(sid) => sid,
            None => match self.tiling.active_space {
                Some(sid) => sid,
                None => 0,
            },
        }
    }
}

/// The request that a scaling asks for, or the complaint.
pub fn plan_pip(client: &ScriptingAddition, wid: u32, bounds: &PipBounds) -> (r: Result<
    SaOrder,
    String,
>)
    ensures
        match *bounds {
            PipBounds::NoFrame => r is Err && r->Err_0@
                == "could not locate window with the given id '"@ + text::decimal(wid as nat)
                + "'.\n"@,
            PipBounds::NoDisplay => r is Err && r->Err_0@
                == "could not locate the display of window '"@ + text::decimal(wid as nat)
                + "'.\n"@,
            PipBounds::Within(area) => r is Ok && is_order(
                r->Ok_0,
                SaOpcode::WindowScale,
                bytes::le_bytes(wid as nat, 4) + bytes::le_bytes(area.x.bits as nat, 4)
                    + bytes::le_bytes(area.y.bits as nat, 4) + bytes::le_bytes(
                    area.w.bits as nat,
                    4,
                ) + bytes::le_bytes(area.h.bits as nat, 4),
                complaint_text("scale"@, wid),
            ),
        },
{
    match bounds {
        PipBounds::NoFrame => {
            let mut out = "could not locate window with the given id '".to_owned();
            text::push_decimal(&mut out, wid as u64);
            out.append("'.\n");
            Err(out)
        },
        PipBounds::NoDisplay => {
            let mut out = "could not locate the display of window '".to_owned();
            text::push_decimal(&mut out, wid as u64);
            out.append("'.\n");
            Err(out)
        },
        PipBounds::Within(area) => Ok(
            SaOrder {
                request: client.scale_window(wid, &area.x, &area.y, &area.w, &area.h),
                complaint: complaint("scale", wid),
            },
        ),
    }
}

impl AppState {
    /// The request that sets the opacity of a window.
    pub fn plan_opacity(&self, client: &ScriptingAddition, wid: u32, opacity: &Real) -> (r: SaOrder)
        requires
            self.wf(),
        ensures
            is_order(
                r,
                if sa::is_positive(self@.config.window_opacity_duration.bits) {
                    SaOpcode::WindowOpacityFade
                } else {
                    SaOpcode::WindowOpacity
                },
                bytes::le_bytes(wid as nat, 4) + bytes::le_bytes(opacity.bits as nat, 4)
                    + bytes::le_bytes(self@.config.window_opacity_duration.bits as nat, 4),
                complaint_text("change opacity of"@, wid),
            ),
    {
        SaOrder {
            request: client.set_opacity(wid, opacity, self.opacity_duration()),
            complaint: complaint("change opacity of", wid),
        }
    }

    /// The request that `window --opacity` asks for.
    pub fn plan_window_opacity(
        &self,
        client: &ScriptingAddition,
        target: Option<&Selector>,
        opacity: &Real,
    ) -> (r: Result<SaOrder, String>)
        requires
            self.wf(),
        ensures
            match self@.acting_window(selectors::owned(target)) {
                selectors::Resolved::Failed(e) => r is Err && r->Err_0@ == e,
                selectors::Resolved::Found(wid) => r is Ok && is_order(
                    r->Ok_0,
                    if sa::is_positive(self@.config.window_opacity_duration.bits) {
                        SaOpcode::WindowOpacityFade
                    } else {
                        SaOpcode::WindowOpacity
                    },
                    bytes::le_bytes(wid as nat, 4) + bytes::le_bytes(opacity.bits as nat, 4)
                        + bytes::le_bytes(self@.config.window_opacity_duration.bits as nat, 4),
                    complaint_text("change opacity of"@, wid),
                ),
            },
    {
        match self.resolve_window_selector(target) {
            Ok(wid) => Ok(self.plan_opacity(client, wid, opacity)),
            Err(error) => Err(error),
        }
    }

    /// The request that `window --raise` (above, 1) or `--lower` (below, -1) asks
    /// for. Without a reference a window is ordered against all others.
    pub fn plan_window_order(
        &self,
        client: &ScriptingAddition,
        target: Option<&Selector>,
        reference: Option<&Selector>,
        order: i32,
    ) -> (r: Result<SaOrder, String>)
        requires
            self.wf(),
        ensures
            match self@.ordered_windows(selectors::owned(target), selectors::owned(reference)) {
                selectors::Resolved::Failed(e) => r is Err && r->Err_0@ == e,
                selectors::Resolved::Found((wid, other)) => r is Ok && is_order(
                    r->Ok_0,
                    SaOpcode::WindowOrder,
                    order_payload(wid, order, other),
                    complaint_text(
                        if order >= 0 {
                            "raise"@
                        } else {
                            "lower"@
                        },
                        wid,
                    ),
                ),
            },
    {
        let wid = match self.resolve_window_selector(target) {
            Ok(wid) => wid,
            Err(error) => {
                return Err(error);
            },
        };
        let other = match reference {
            Some(selector) => match self.resolve_window_selector(Some(selector)) {
                Ok(other) => other,
                Err(error) => {
                    return Err(error);
                },
            },
            None => 0,
        };
        let verb = if order >= 0 {
            "raise"
        } else {
            "lower"
        };
        Ok(
            SaOrder {
                request: client.order_window(wid, order, other),
                complaint: complaint(verb, wid),
            },
        )
    }

    /// The request that puts a window on a layer.
    pub fn plan_layer(&self, client: &ScriptingAddition, wid: u32, layer: Layer) -> (r: SaOrder)
        requires
            self.wf(),
        ensures
            is_order(
                r,
                SaOpcode::WindowLayer,
                bytes::le_bytes(wid as nat, 4) + bytes::le_bytes(
                    sa::pattern(self@.layer_level(wid, layer)),
                    4,
                ),
                complaint_text("change sub-layer of"@, wid),
            ),
    {
        let level: i32 = match layer {
            Layer::Below => 3,
            Layer::Normal => 4,
            Layer::Above => 5,
            Layer::Auto => if self.window_space_id(wid).is_some() && !self.is_floating(wid) {
                3
            } else {
                4
            },
        };
        SaOrder {
            request: client.set_layer(wid, level),
            complaint: complaint("change sub-layer of", wid),
        }
    }

    /// The request that `window --sub-layer` asks for.
    pub fn plan_window_sub_layer(
        &self,
        client: &ScriptingAddition,
        target: Option<&Selector>,
        layer: Layer,
    ) -> (r: Result<SaOrder, String>)
        requires
            self.wf(),
        ensures
            match self@.acting_window(selectors::owned(target)) {
                selectors::Resolved::Failed(e) => r is Err && r->Err_0@ == e,
                selectors::Resolved::Found(wid) => r is Ok && is_order(
                    r->Ok_0,
                    SaOpcode::WindowLayer,
                    bytes::le_bytes(wid as nat, 4) + bytes::le_bytes(
                        sa::pattern(self@.layer_level(wid, layer)),
                        4,
                    ),
                    complaint_text("change sub-layer of"@, wid),
                ),
            },
    {
        match self.resolve_window_selector(target) {
            Ok(wid) => Ok(self.plan_layer(client, wid, layer)),
            Err(error) => Err(error),
        }
    }

    fn resolve_scratchpad_scene(&self, target: Option<&Selector>) -> (r: Result<
        (u32, u64),
        String,
    >)
        requires
            self.wf(),
        ensures
            selectors::is_outcome(r, self@.scratchpad_scene(selectors::owned(target))),
    {
        match self.resolve_window_selector(target) {
            Ok(wid) => match self.active_space_id() {
                Some(sid) => Ok((wid, sid)),
                None => Err("no active space".to_owned()),
            },
            Err(error) => Err(error),
        }
    }

    /// Plan `window --scratchpad`. `all` are the windows to order in on recovery.
    pub fn plan_scratchpad(
        &self,
        client: &ScriptingAddition,
        target: Option<&Selector>,
        action: &ScratchpadAction,
        all: &Vec<u32>,
    ) -> (r: Result<ScratchpadPlan, String>)
        requires
            self.wf(),
        ensures
            self@.is_scratchpad_plan(r, selectors::owned(target), *action, all@),
    {
        if let ScratchpadAction::Recover = action {
            return Ok(
                ScratchpadPlan::Recover(
                    SaOrder {
                        request: client.order_window_in(all),
                        complaint:
                            "could not recover scratchpad windows due to an error with the scripting-addition.\n".to_owned(),
                    },
                ),
            );
        }
        let (wid, sid) = match self.resolve_scratchpad_scene(target) {
            Ok(scene) => scene,
            Err(error) => {
                return Err(error);
            },
        };
        match action {
            ScratchpadAction::Label(label) => match validate_scratchpad_label(label.as_str()) {
                Err(error) => Err(error),
                Ok(()) => {
                    let place = match self.window_known_space_id(wid) {
                        Some(known) => known,
                        None => sid,
                    };
                    Ok(ScratchpadPlan::Assign { wid, sid: place, label: label.clone() })
                },
            },
            _ => {
                if self.window_scratchpad(wid).is_none() {
                    return Err(
                        "the selected window was not assigned to a scratchpad!\n".to_owned(),
                    );
                }
                Ok(
                    ScratchpadPlan::Remove {
                        wid,
                        sid,
                        fetch: SaOrder {
                            request: client.move_window_to_space(sid, wid),
                            complaint: complaint("move scratchpad", wid),
                        },
                        show: SaOrder {
                            request: client.order_window(wid, 1, 0),
                            complaint: complaint("order scratchpad", wid),
                        },
                    },
                )
            },
        }
    }

    /// The window of a scratchpad label and the active space, or the complaint.
    pub fn scratchpad_to_toggle(&self, label: &str) -> (r: Result<(u32, u64), String>)
        requires
            self.wf(),
        ensures
            match crate::labels::owner(self@.scratchpads, label@) {
                None => r is Err && r->Err_0@ == "unknown scratchpad '"@ + label@ + "'.\n"@,
                Some(wid) => match self@.tiling.active_space {
                    None => r is Err && r->Err_0@ == "no active space"@,
                    Some(sid) => r == Ok::<(u32, u64), String>((wid, sid)),
                },
            },
    {
        match self.scratchpad_window(label) {
            Some(wid) => match self.active_space_id() {
                Some(sid) => Ok((wid, sid)),
                None => Err("no active space".to_owned()),
            },
            None => {
                let mut out = "unknown scratchpad '".to_owned();
                out.append(label);
                out.append("'.\n");
                Err(out)
            },
        }
    }

    fn next_behind(&self, wid: u32, active: u64) -> (r: Option<u32>)
        requires
            self.wf(),
        ensures
            r == self@.focus_behind(wid, active),
    {
        match self.focused_window_id() {
            Some(focused) => if focused != wid {
                return None;
            },
            None => {
                return None;
            },
        }
        if self.space(active).is_none() {
            return None;
        }
        let frames = match self.capture(active) {
            Some(capture) => &capture.frames,
            None => {
                return None;
            },
        };
        let ghost ids = frames@.map_values(|f: crate::state::WindowFrame| f.window_id);
        let mut found: Option<u32> = None;
        let mut i: usize = 0;
        while i < frames.len()
            invariant
                i <= frames@.len(),
                ids == frames@.map_values(|f: crate::state::WindowFrame| f.window_id),
                found == tiling::first_other(ids.take(i as int), wid),
            decreases frames.len() - i,
        {
            proof {
                assert(ids.take(i + 1).drop_last() =~= ids.take(i as int));
            }
            if found.is_none() && frames[i].window_id != wid {
                found = Some(frames[i].window_id);
            }
            i += 1;
        }
        assert(ids.take(ids.len() as int) =~= ids);
        found
    }

    /// Plan the toggling of a scratchpad that is ordered in, or not.
    pub fn plan_toggle_scratchpad(
        &self,
        client: &ScriptingAddition,
        wid: u32,
        active: u64,
        ordered_in: bool,
    ) -> (r: TogglePlan)
        requires
            self.wf(),
        ensures
            self@.is_toggle_plan(r, wid, active, ordered_in),
    {
        let known_here = match self.window_known_space_id(wid) {
            Some(sid) => sid == active,
            None => false,
        };
        let at_hand = self.is_sticky(wid) || known_here;
        if at_hand && ordered_in {
            return TogglePlan::Hide {
                focus: self.next_behind(wid, active),
                hide: SaOrder {
                    request: client.order_window(wid, 0, 0),
                    complaint: complaint("hide scratchpad", wid),
                },
            };
        }
        let fetch = if at_hand {
            None
        } else {
            Some(
                SaOrder {
                    request: client.move_window_to_space(active, wid),
                    complaint: complaint("move scratchpad", wid),
                },
            )
        };
        TogglePlan::Show {
            fetch,
            show: SaOrder {
                request: client.order_window(wid, 1, 0),
                complaint: complaint("show scratchpad", wid),
            },
        }
    }

    /// The request that makes a window sticky, or not.
    pub fn plan_sticky(&self, client: &ScriptingAddition, wid: u32, sticky: bool) -> (r: SaOrder)
        ensures
            is_order(
                r,
                SaOpcode::WindowSticky,
                bytes::le_bytes(wid as nat, 4).push(flag_byte(sticky)),
                complaint_text("change sticky of"@, wid),
            ),
    {
        SaOrder {
            request: client.set_sticky(wid, sticky),
            complaint: complaint("change sticky of", wid),
        }
    }

    /// Plan `window --toggle sticky`: the window, whether it becomes sticky, the
    /// space that tiles it otherwise, and the request.
    pub fn plan_toggle_sticky(&self, client: &ScriptingAddition, target: Option<&Selector>) -> (r:
        Result<(u32, bool, u64, SaOrder), String>)
        requires
            self.wf(),
        ensures
            match self@.acting_window(selectors::owned(target)) {
                selectors::Resolved::Failed(e) => r is Err && r->Err_0@ == e,
                selectors::Resolved::Found(wid) => {
                    &&& r matches Ok((w, sticky, sid, order))
                    &&& w == wid
                    &&& sticky == !self@.tiling.sticky.contains(wid)
                    &&& sid == self@.sticky_space(wid)
                    &&& is_order(
                        order,
                        SaOpcode::WindowSticky,
                        bytes::le_bytes(wid as nat, 4).push(flag_byte(sticky)),
                        complaint_text("change sticky of"@, wid),
                    )
                },
            },
    {
        let wid = match self.resolve_window_selector(target) {
            Ok(wid) => wid,
            Err(error) => {
                return Err(error);
            },
        };
        let sticky = !self.is_sticky(wid);
        let sid = match self.window_space_id(wid) {
            Some(sid) => sid,
            None => match self.active_space_id() {
                Some(sid) => sid,
                None => 0,
            },
        };
        Ok((wid, sticky, sid, self.plan_sticky(client, wid, sticky)))
    }

    /// Plan `window --toggle shadow`: the window, whether it gets a shadow, and
    /// the request.
    pub fn plan_toggle_shadow(&self, client: &ScriptingAddition, target: Option<&Selector>) -> (r:
        Result<(u32, bool, SaOrder), String>)
        requires
            self.wf(),
        ensures
            match self@.acting_window(selectors::owned(target)) {
                selectors::Resolved::Failed(e) => r is Err && r->Err_0@ == e,
                selectors::Resolved::Found(wid) => {
                    &&& r matches Ok((w, shadow, order))
                    &&& w == wid
                    &&& shadow == self@.shadow_disabled.contains(wid)
                    &&& is_order(
                        order,
                        SaOpcode::WindowShadow,
                        bytes::le_bytes(wid as nat, 4).push(flag_byte(shadow)),
                        complaint_text("change shadow of"@, wid),
                    )
                },
            },
    {
        let wid = match self.resolve_window_selector(target) {
            Ok(wid) => wid,
            Err(error) => {
                return Err(error);
            },
        };
        let shadow = !self.window_has_shadow(wid);
        Ok(
            (
                wid,
                shadow,
                SaOrder {
                    request: client.set_shadow(wid, shadow),
                    complaint: complaint("change shadow of", wid),
                },
            ),
        )
    }
}

/// The payloads about a window give back what they were made of: the window, then how
/// and against which other it is ordered; or the space, then the window.
pub proof fn law_window_payloads_read_back(wid: u32, order: i32, reference: u32, sid: u64)
    ensures
        ({
            let p = order_payload(wid, order, reference);
            &&& p.len() == 12
            &&& bytes::le_value(p.subrange(0, 4)) == wid
            &&& order >= 0 ==> bytes::le_value(p.subrange(4, 8)) == order
            &&& order < 0 ==> bytes::le_value(p.subrange(4, 8)) == order + 0x1_0000_0000
            &&& bytes::le_value(p.subrange(8, 12)) == reference
        }),
        ({
            let p = to_space_payload(sid, wid);
            &&& p.len() == 12
            &&& bytes::le_value(p.subrange(0, 8)) == sid
            &&& bytes::le_value(p.subrange(8, 12)) == wid
        }),
{
    let n = sa::pattern(order) as u32;
    bytes::law_numbers_read_back(wid, sid);
    bytes::law_numbers_read_back(n, 0);
    bytes::law_numbers_read_back(reference, 0);
    let a = bytes::le_bytes(wid as nat, 4);
    let b = bytes::le_bytes(sa::pattern(order), 4);
    let c = bytes::le_bytes(reference as nat, 4);
    let d = bytes::le_bytes(sid as nat, 8);
    assert((a + b + c).subrange(0, 4) =~= a);
    assert((a + b + c).subrange(4, 8) =~= b);
    assert((a + b + c).subrange(8, 12) =~= c);
    assert((d + a).subrange(0, 8) =~= d);
    assert((d + a).subrange(8, 12) =~= a);
}

/// A number, and the name of another toggle, cannot be the label of a scratchpad; any
/// other text can.
pub proof fn law_scratchpad_labels(label: Seq<char>)
    ensures
        literals::u64_literal(label) ==> scratchpad_error(label) == Some(
            "'"@ + label + "' cannot be used as a label.\n"@,
        ),
        !literals::u64_literal(label) && (label == "float"@ || label == "sticky"@ || label
            == "shadow"@ || label == "split"@ || label == "zoom-parent"@ || label
            == "zoom-fullscreen"@ || label == "windowed-fullscreen"@ || label
            == "native-fullscreen"@ || label == "expose"@ || label == "pip"@ || label
            == "recover"@) ==> scratchpad_error(label) == Some(
            "'"@ + label + "' is a reserved keyword and cannot be used as a scratchpad.\n"@,
        ),
        !literals::u64_literal(label) && label != "float"@ && label != "sticky"@ && label
            != "shadow"@ && label != "split"@ && label != "zoom-parent"@ && label
            != "zoom-fullscreen"@ && label != "windowed-fullscreen"@ && label
            != "native-fullscreen"@ && label != "expose"@ && label != "pip"@ && label != "recover"@
            ==> scratchpad_error(label) is None,
{
}

/// The layers have their numbers, one above the other; the automatic one is the low one
/// for a tiled window and the normal one for any other.
pub proof fn law_layers(s: State, wid: u32, sid: u64)
    requires
        s.tiling.wf(),
    ensures
        s.layer_level(wid, Layer::Below) == 3,
        s.layer_level(wid, Layer::Normal) == 4,
        s.layer_level(wid, Layer::Above) == 5,
        s.tiling.spaces.dom().contains(sid) && s.tiling.spaces[sid].windows.contains(wid)
            ==> s.layer_level(wid, Layer::Auto) == s.layer_level(wid, Layer::Below),
        (forall|k: u64|
            s.tiling.spaces.dom().contains(k) ==> !(
            #[trigger] s.tiling.spaces[k]).windows.contains(wid)) ==> s.layer_level(
            wid,
            Layer::Auto,
        ) == s.layer_level(wid, Layer::Normal),
{
    if s.tiling.spaces.dom().contains(sid) && s.tiling.spaces[sid].windows.contains(wid) {
        assert(s.tiling.tiles(sid, wid));
        assert(!s.tiling.exempt(wid));
    }
    if s.tiling.is_tiled(wid) {
        let k = choose|k: u64| s.tiling.tiles(k, wid);
        assert(s.tiling.spaces[k].windows.contains(wid));
    }
}

/// A window is ordered against the one named, or against all others; a selector that
/// names none fails, that of the window first.
pub proof fn law_ordered_windows(
    s: State,
    target: Option<Selector>,
    selector: Selector,
    wid: u32,
    other: u32,
)
    ensures
        s.acting_window(target) == selectors::Resolved::Found(wid) ==> s.ordered_windows(
            target,
            None,
        ) == selectors::Resolved::Found((wid, 0u32)),
        s.acting_window(target) == selectors::Resolved::Found(wid) && s.selected_window(selector)
            == selectors::Resolved::Found(other) ==> s.ordered_windows(target, Some(selector))
            == selectors::Resolved::Found((wid, other)),
        s.acting_window(target) matches selectors::Resolved::Failed(e) ==> (s.ordered_windows(
            target,
            Some(selector),
        ) == selectors::Resolved::<(u32, u32)>::Failed(e)),
        s.acting_window(target) is Found ==> (s.selected_window(selector) matches
            selectors::Resolved::Failed(e) ==> (s.ordered_windows(target, Some(selector))
            == selectors::Resolved::<(u32, u32)>::Failed(e))),
{
}

/// A scratchpad command acts on the window named, or the focused one, and the active
/// space.
pub proof fn law_scratchpad_scene(s: State, target: Option<Selector>, wid: u32, sid: u64)
    ensures
        s.acting_window(target) == selectors::Resolved::Found(wid) && s.tiling.active_space == Some(
            sid,
        ) ==> s.scratchpad_scene(target) == selectors::Resolved::Found((wid, sid)),
        s.acting_window(target) == selectors::Resolved::Found(wid) && s.tiling.active_space is None
            ==> s.scratchpad_scene(target) == selectors::Resolved::<(u32, u64)>::Failed(
            "no active space"@,
        ),
        s.acting_window(target) matches selectors::Resolved::Failed(e) ==> (s.scratchpad_scene(
            target,
        ) == selectors::Resolved::<(u32, u64)>::Failed(e)),
{
}

/// `window --scratchpad` gives the window the label asked for, on the space it is known
/// to be on, or else on the active one; it takes a label away only from a window that
/// has one, which is then fetched to the active space and shown.
pub proof fn law_scratchpad_plans(
    s: State,
    plan: Result<ScratchpadPlan, String>,
    target: Option<Selector>,
    label: String,
    all: Seq<u32>,
    wid: u32,
    sid: u64,
)
    requires
        s.acting_window(target) == selectors::Resolved::Found(wid),
        s.tiling.active_space == Some(sid),
    ensures
        s.is_scratchpad_plan(plan, target, ScratchpadAction::Label(label), all)
            && scratchpad_error(label@) is None ==> {
            &&& plan is Ok
            &&& plan->Ok_0 matches ScratchpadPlan::Assign { wid: w, sid: k, label: l }
            &&& w == wid
            &&& l@ == label@
            &&& s.known_space(wid) is Some ==> k == s.known_space(wid)->0
            &&& s.known_space(wid) is None ==> k == sid
        },
        s.is_scratchpad_plan(plan, target, ScratchpadAction::Label(label), all)
            && scratchpad_error(label@) is Some ==> plan is Err && plan->Err_0@
            == scratchpad_error(label@)->0,
        s.is_scratchpad_plan(plan, target, ScratchpadAction::Remove, all)
            && s.scratchpads.dom().contains(wid) ==> {
            &&& plan is Ok
            &&& plan->Ok_0 matches ScratchpadPlan::Remove { wid: w, sid: k, fetch, show }
            &&& w == wid
            &&& k == sid
            &&& fetch.request.opcode == SaOpcode::WindowToSpace
            &&& fetch.request.payload@ == to_space_payload(sid, wid)
            &&& show.request.opcode == SaOpcode::WindowOrder
            &&& show.request.payload@ == order_payload(wid, 1, 0)
        },
        s.is_scratchpad_plan(plan, target, ScratchpadAction::Remove, all)
            && !s.scratchpads.dom().contains(wid) ==> plan is Err && plan->Err_0@
            == "the selected window was not assigned to a scratchpad!\n"@,
        s.is_scratchpad_plan(plan, target, ScratchpadAction::Recover, all) ==> {
            &&& plan is Ok
            &&& plan->Ok_0 matches ScratchpadPlan::Recover(order)
            &&& order.request.opcode == SaOpcode::WindowOrderIn
            &&& order.request.payload@ == bytes::le_bytes(all.len() % 0x1_0000_0000, 4)
                + sa::packed_ids(all)
        },
{
}

/// A scratchpad that is shown on the active space is hidden; any other is shown, and
/// fetched to the active space if it is not there. The focus goes to another window
/// only if the scratchpad has it.
pub proof fn law_scratchpad_toggles(
    s: State,
    plan: TogglePlan,
    wid: u32,
    active: u64,
    ordered_in: bool,
)
    requires
        s.is_toggle_plan(plan, wid, active, ordered_in),
    ensures
        ({
            let here = s.tiling.sticky.contains(wid) || s.known_space(wid) == Some(active);
            &&& here && ordered_in ==> {
                &&& plan matches TogglePlan::Hide { focus, hide }
                &&& hide.request.opcode == SaOpcode::WindowOrder
                &&& hide.request.payload@ == order_payload(wid, 0, 0)
                &&& s.tiling.focused_window != Some(wid) ==> focus is None
                &&& focus != Some(wid)
            }
            &&& here && !ordered_in ==> {
                &&& plan matches TogglePlan::Show { fetch, show }
                &&& fetch is None
                &&& show.request.opcode == SaOpcode::WindowOrder
                &&& show.request.payload@ == order_payload(wid, 1, 0)
            }
            &&& !here ==> {
                &&& plan matches TogglePlan::Show { fetch, show }
                &&& fetch is Some
                &&& fetch->0.request.opcode == SaOpcode::WindowToSpace
                &&& fetch->0.request.payload@ == to_space_payload(active, wid)
                &&& show.request.opcode == SaOpcode::WindowOrder
                &&& show.request.payload@ == order_payload(wid, 1, 0)
            }
        }),
{
    if s.frames_of(active) is Some {
        tiling::law_first_other_window(
            s.frames_of(active)->0.map_values(|f: crate::state::WindowFrame| f.window_id),
            wid,
        );
    }
}

/// A window that stops being sticky is tiled on the space that tiles it, or else on the
/// active one.
pub proof fn law_space_of_a_sticky_window(s: State, wid: u32, sid: u64)
    requires
        s.tiling.wf(),
        s.tiling.sticky.contains(wid),
    ensures
        s.tiling.active_space == Some(sid) ==> s.sticky_space(wid) == sid,
        s.tiling.active_space is None ==> s.sticky_space(wid) == 0,
{
    if s.tiling.is_tiled(wid) {
        let k = choose|k: u64| s.tiling.tiles(k, wid);
        assert(s.tiling.tiles(k, wid));
        assert(!s.tiling.exempt(wid));
    }
}

/// The toggles of a window turn what it is: a sticky window becomes loose and a loose
/// one sticky, a window without a shadow gets one and another loses its own; the
/// request tells the window and what it becomes.
pub proof fn law_toggle_plans(
    state: &AppState,
    client: &ScriptingAddition,
    target: Option<&Selector>,
    stuck: Result<(u32, bool, u64, SaOrder), String>,
    shaded: Result<(u32, bool, SaOrder), String>,
    wid: u32,
)
    requires
        call_ensures(AppState::plan_toggle_sticky, (state, client, target), stuck),
        call_ensures(AppState::plan_toggle_shadow, (state, client, target), shaded),
        state@.acting_window(
            match target {
                Some(s) => Some(*s),
                None => None,
            },
        ) == selectors::Resolved::Found(wid),
    ensures
        ({
            &&& stuck matches Ok((w, sticky, sid, order))
            &&& w == wid
            &&& state@.tiling.sticky.contains(wid) ==> !sticky
            &&& !state@.tiling.sticky.contains(wid) ==> sticky
            &&& order.request.opcode == SaOpcode::WindowSticky
            &&& order.request.payload@.len() == 5
            &&& bytes::le_value(order.request.payload@.subrange(0, 4)) == wid
            &&& sticky ==> order.request.payload@[4] == 1
            &&& !sticky ==> order.request.payload@[4] == 0
        }),
        ({
            &&& shaded matches Ok((w, shadow, order))
            &&& w == wid
            &&& state@.shadow_disabled.contains(wid) ==> shadow
            &&& !state@.shadow_disabled.contains(wid) ==> !shadow
            &&& order.request.opcode == SaOpcode::WindowShadow
            &&& order.request.payload@.len() == 5
            &&& bytes::le_value(order.request.payload@.subrange(0, 4)) == wid
            &&& shadow ==> order.request.payload@[4] == 1
            &&& !shadow ==> order.request.payload@[4] == 0
        }),
{
    bytes::law_numbers_read_back(wid, 0);
    let a = bytes::le_bytes(wid as nat, 4);
    if let Ok((w, sticky, sid, order)) = stuck {
        assert(order.request.payload@.subrange(0, 4) =~= a);
    }
    if let Ok((w, shadow, order)) = shaded {
        assert(order.request.payload@.subrange(0, 4) =~= a);
    }
}

/// Raising and lowering tell the window, how it is ordered and against which; an opacity
/// tells the window and the opacity; a layer the window and the layer's number.
pub proof fn law_window_plans(
    state: &AppState,
    client: &ScriptingAddition,
    target: Option<&Selector>,
    order: i32,
    opacity: &Real,
    layer: Layer,
    ordered: Result<SaOrder, String>,
    faded: Result<SaOrder, String>,
    layered: Result<SaOrder, String>,
    wid: u32,
)
    requires
        call_ensures(
            AppState::plan_window_order,
            (state, client, target, None::<&Selector>, order),
            ordered,
        ),
        call_ensures(AppState::plan_window_opacity, (state, client, target, opacity), faded),
        call_ensures(AppState::plan_window_sub_layer, (state, client, target, layer), layered),
        state@.acting_window(
            match target {
                Some(s) => Some(*s),
                None => None,
            },
        ) == selectors::Resolved::Found(wid),
    ensures
        ({
            &&& ordered matches Ok(o)
            &&& o.request.opcode == SaOpcode::WindowOrder
            &&& bytes::le_value(o.request.payload@.subrange(0, 4)) == wid
            &&& order >= 0 ==> bytes::le_value(o.request.payload@.subrange(4, 8)) == order
            &&& order < 0 ==> bytes::le_value(o.request.payload@.subrange(4, 8)) == order
                + 0x1_0000_0000
            &&& bytes::le_value(o.request.payload@.subrange(8, 12)) == 0
        }),
        ({
            &&& faded matches Ok(o)
            &&& o.request.opcode == SaOpcode::WindowOpacityFade <==> sa::is_positive(
                state@.config.window_opacity_duration.bits,
            )
            &&& o.request.opcode == SaOpcode::WindowOpacity <==> !sa::is_positive(
                state@.config.window_opacity_duration.bits,
            )
            &&& bytes::le_value(o.request.payload@.subrange(0, 4)) == wid
            &&& bytes::le_value(o.request.payload@.subrange(4, 8)) == opacity.bits
            &&& bytes::le_value(o.request.payload@.subrange(8, 12))
                == state@.config.window_opacity_duration.bits
        }),
        ({
            &&& layered matches Ok(o)
            &&& o.request.opcode == SaOpcode::WindowLayer
            &&& bytes::le_value(o.request.payload@.subrange(0, 4)) == wid
            &&& bytes::le_value(o.request.payload@.subrange(4, 8)) == state@.layer_level(wid, layer)
        }),
{
    law_window_payloads_read_back(wid, order, 0, 0);
    let duration = state@.config.window_opacity_duration.bits;
    let level = state@.layer_level(wid, layer);
    bytes::law_numbers_read_back(wid, 0);
    bytes::law_numbers_read_back(opacity.bits, 0);
    bytes::law_numbers_read_back(duration, 0);
    bytes::law_numbers_read_back(level as u32, 0);
    let a = bytes::le_bytes(wid as nat, 4);
    let b = bytes::le_bytes(opacity.bits as nat, 4);
    let c = bytes::le_bytes(duration as nat, 4);
    let d = bytes::le_bytes(level as nat, 4);
    assert((a + b + c).subrange(0, 4) =~= a);
    assert((a + b + c).subrange(4, 8) =~= b);
    assert((a + b + c).subrange(8, 12) =~= c);
    assert((a + d).subrange(0, 4) =~= a);
    assert((a + d).subrange(4, 8) =~= d);
}

/// A scaling tells the window and the area it goes to; without a frame or a display it
/// fails, and says which window.
pub proof fn law_scaling_plans(
    client: &ScriptingAddition,
    wid: u32,
    bounds: &PipBounds,
    r: Result<SaOrder, String>,
)
    requires
        call_ensures(plan_pip, (client, wid, bounds), r),
    ensures
        *bounds is NoFrame || *bounds is NoDisplay ==> r is Err,
        *bounds matches PipBounds::Within(area) ==> {
            &&& r matches Ok(o)
            &&& o.request.opcode == SaOpcode::WindowScale
            &&& bytes::le_value(o.request.payload@.subrange(0, 4)) == wid
            &&& bytes::le_value(o.request.payload@.subrange(4, 8)) == area.x.bits
            &&& bytes::le_value(o.request.payload@.subrange(8, 12)) == area.y.bits
            &&& bytes::le_value(o.request.payload@.subrange(12, 16)) == area.w.bits
            &&& bytes::le_value(o.request.payload@.subrange(16, 20)) == area.h.bits
        },
{
    if let PipBounds::Within(area) = *bounds {
        let a = bytes::le_bytes(wid as nat, 4);
        let b = bytes::le_bytes(area.x.bits as nat, 4);
        let c = bytes::le_bytes(area.y.bits as nat, 4);
        let d = bytes::le_bytes(area.w.bits as nat, 4);
        let e = bytes::le_bytes(area.h.bits as nat, 4);
        bytes::law_numbers_read_back(wid, 0);
        bytes::law_numbers_read_back(area.x.bits, 0);
        bytes::law_numbers_read_back(area.y.bits, 0);
        bytes::law_numbers_read_back(area.w.bits, 0);
        bytes::law_numbers_read_back(area.h.bits, 0);
        let p = a + b + c + d + e;
        assert(p.subrange(0, 4) =~= a);
        assert(p.subrange(4, 8) =~= b);
        assert(p.subrange(8, 12) =~= c);
        assert(p.subrange(12, 16) =~= d);
        assert(p.subrange(16, 20) =~= e);
    }
}

/// The scratchpad toggled is the one that has the label, on the active space.
pub proof fn law_scratchpad_found(
    state: &AppState,
    label: &str,
    r: Result<(u32, u64), String>,
    wid: u32,
    sid: u64,
)
    requires
        call_ensures(AppState::scratchpad_to_toggle, (state, label), r),
        crate::labels::unique(state@.scratchpads),
    ensures
        state@.scratchpads.dom().contains(wid) && state@.scratchpads[wid] == label@
            && state@.tiling.active_space == Some(sid) ==> r == Ok::<(u32, u64), String>(
            (wid, sid),
        ),
        (forall|k: u32|
            state@.scratchpads.dom().contains(k) ==> #[trigger] state@.scratchpads[k] != label@)
            ==> r is Err && r->Err_0@ == "unknown scratchpad '"@ + label@ + "'.\n"@,
{
    crate::labels::law_label_owner(state@.scratchpads, wid, label@);
}

} // verus!
