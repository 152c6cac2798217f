//! Moving, swapping and switching spaces with the scripting addition.
use vstd::prelude::*;

use crate::idmap;
use crate::selectors;
use crate::state::{AppState, State};
use crate::text;
use crate::tiling;
use crate::types::Selector;

verus! {

/// A space to be put behind another one.
#[derive(Debug, Clone, Copy, PartialEq, Eq, Structural)]
pub struct SpaceMove {
    pub src: u64,
    pub dst: u64,
    pub focus: bool,
}

/// A space to be sent to the display of another one.
#[derive(Debug, Clone, Copy, PartialEq, Eq, Structural)]
pub struct SpaceTransfer {
    pub src: u64,
    pub dst: u64,
    /// The space to focus on the display that is left, or zero.
    pub prev: u64,
    pub focus: bool,
}

/// What `space --swap` does.
#[derive(Debug)]
pub enum SwapPlan {
    /// Reorder the spaces of one display.
    Reorder(Vec<SpaceMove>),
    /// Exchange the windows of spaces on two displays.
    Exchange { acting: u64, selected: u64 },
}

/// What `space --switch` does.
#[derive(Debug, Clone, Copy, PartialEq, Eq, Structural)]
pub enum SwitchPlan {
    /// Focus a space on the same display.
    Focus(u64),
    /// Exchange the windows of the active space and one on another display.
    Exchange { current: u64, other: u64 },
}

/// The one-based place of a space in an order, or zero.
pub open spec fn place_in(order: Seq<u64>, sid: u64) -> nat {
    if order.contains(sid) {
        (order.index_of_first(sid)->0 + 1) as nat
    } else {
        0
    }
}

/// The space before another one in an order.
pub open spec fn before(order: Seq<u64>, sid: u64) -> Option<u64> {
    if place_in(order, sid) > 1 {
        Some(order[place_in(order, sid) - 2])
    } else {
        None
    }
}

fn index_in(order: &Vec<u64>, sid: u64) -> (r: Option<usize>)
    ensures
        match r {
            Some(i) => i < order@.len() && order@.contains(sid) && order@.index_of_first(sid)
                == Some(i as int),
            None => !order@.contains(sid),
        },
{
    let mut i: usize = 0;
    while i < order.len()
        invariant
            i <= order@.len(),
            forall|j: int| 0 <= j < i ==> order@[j] != sid,
        decreases order.len() - i,
    {
        if order[i] == sid {
            proof {
                assert(order@.contains(order@[i as int]));
                order@.index_of_first_ensures(sid);
            }
            return Some(i);
        }
        i += 1;
    }
    None
}

/// The one-based place of a space in the order of all spaces, or zero.
pub fn mission_control_index(order: &Vec<u64>, sid: u64) -> (r: usize)
    ensures
        r == place_in(order@, sid),
{
    let total = order.len();
    match index_in(order, sid) {
        Some(i) => {
            assert(i < total);
            i + 1
        },
        None => 0,
    }
}

/// The space before another one in the order of all spaces.
pub fn global_prev_space(order: &Vec<u64>, sid: u64) -> (r: Option<u64>)
    ensures
        r == before(order@, sid),
{
    match index_in(order, sid) {
        Some(i) => if i > 0 {
            Some(order[i - 1])
        } else {
            None
        },
        None => None,
    }
}

/// The space before another one among the spaces of a display, or zero. The
/// spaces may not be known.
pub fn prev_space_on_display(spaces: Option<&Vec<u64>>, sid: u64) -> (r: u64)
    ensures
        r == (match spaces {
            Some(order) => match before(order@, sid) {
                Some(prev) => prev,
                None => 0,
            },
            None => 0,
        }),
{
    match spaces {
        Some(order) => match global_prev_space(order, sid) {
            Some(prev) => prev,
            None => 0,
        },
        None => 0,
    }
}

/// The space beside the active one in an order.
pub open spec fn beside_active(order: Seq<u64>, active: Option<u64>, step: int) -> selectors::Resolved<
    u64,
> {
    if active is None || !order.contains(active->0) {
        selectors::Resolved::Failed("could not locate the selected space."@)
    } else {
        let at = order.index_of_first(active->0)->0 + step;
        if 0 <= at < order.len() {
            selectors::Resolved::Found(order[at])
        } else {
            selectors::Resolved::Failed("could not locate the requested space."@)
        }
    }
}

/// The space that a selector names in the order of all spaces.
pub open spec fn space_target(order: Seq<u64>, active: Option<u64>, selector: Selector) -> selectors::Resolved<
    u64,
> {
    match selector {
        Selector::Index(n) => if 1 <= n <= order.len() {
            selectors::Resolved::Found(order[n - 1])
        } else {
            selectors::Resolved::Failed(
                "could not locate space with mission-control index '"@ + text::decimal(n as nat)
                    + "'."@,
            )
        },
        Selector::First => if order.len() > 0 {
            selectors::Resolved::Found(order[0])
        } else {
            selectors::Resolved::Failed("could not locate the first space."@)
        },
        Selector::Last => if order.len() > 0 {
            selectors::Resolved::Found(order.last())
        } else {
            selectors::Resolved::Failed("could not locate the last space."@)
        },
        Selector::Prev => beside_active(order, active, -1),
        Selector::Next => beside_active(order, active, 1),
        _ => selectors::Resolved::Failed(
            "space selector not yet supported by the Rust WM daemon."@,
        ),
    }
}

fn resolve_beside(order: &Vec<u64>, active: Option<u64>, forward: bool) -> (r: Result<u64, String>)
    ensures
        selectors::is_outcome(
            r,
            beside_active(
                order@,
                active,
                if forward {
                    1
                } else {
                    -1
                },
            ),
        ),
{
    let active = match active {
        Some(active) => active,
        None => {
            return Err("could not locate the selected space.".to_owned());
        },
    };
    match index_in(order, active) {
        None => Err("could not locate the selected space.".to_owned()),
        Some(i) => if forward && i < order.len() - 1 {
            Ok(order[i + 1])
        } else if !forward && i > 0 {
            Ok(order[i - 1])
        } else {
            Err("could not locate the requested space.".to_owned())
        },
    }
}

/// Resolve the space that a selector names in the order of all spaces.
pub fn resolve_space_target(spaces: &Vec<u64>, active: Option<u64>, selector: &Selector) -> (r:
    Result<u64, String>)
    ensures
        selectors::is_outcome(r, space_target(spaces@, active, *selector)),
{
    match selector {
        Selector::Index(n) => {
            let at = *n as usize;
            if at >= 1 && at <= spaces.len() {
                Ok(spaces[at - 1])
            } else {
                let mut out = "could not locate space with mission-control index '".to_owned();
                text::push_decimal(&mut out, *n as u64);
                out.append("'.");
                Err(out)
            }
        },
        Selector::First => if spaces.len() > 0 {
            Ok(spaces[0])
        } else {
            Err("could not locate the first space.".to_owned())
        },
        Selector::Last => if spaces.len() > 0 {
            Ok(spaces[spaces.len() - 1])
        } else {
            Err("could not locate the last space.".to_owned())
        },
        Selector::Prev => resolve_beside(spaces, active, false),
        Selector::Next => resolve_beside(spaces, active, true),
        _ => Err("space selector not yet supported by the Rust WM daemon.".to_owned()),
    }
}

/// A line of the list of spaces: the place, the space, and a mark at the current
/// one.
pub open spec fn space_line_text(place: usize, sid: u64, current: Option<u64>) -> Seq<char> {
    "  mc-index "@ + text::decimal(place as nat) + " -> sid "@ + text::decimal(sid as nat) + (
    if current == Some(sid) {
        " <- current"@
    } else {
        ""@
    })
}

/// A line of the list of spaces.
pub fn space_line(place: usize, sid: u64, current: Option<u64>) -> (r: String)
    ensures
        r@ == space_line_text(place, sid, current),
{
    let marked = match current {
        Some(now) => now == sid,
        None => false,
    };
    let mut out = "  mc-index ".to_owned();
    text::push_decimal(&mut out, place as u64);
    out.append(" -> sid ");
    text::push_decimal(&mut out, sid);
    out.append(
        if marked {
            " <- current"
        } else {
            ""
        },
    );
    out
}

/// The steps from one space to another in the order of all spaces, if both are
/// in it.
pub fn gesture_steps(order: &Vec<u64>, base: Option<u64>, target: u64) -> (r: Option<i64>)
    requires
        order@.len() <= i64::MAX,
    ensures
        match r {
            Some(steps) => base is Some && order@.contains(base->0) && order@.contains(target)
                && steps == order@.index_of_first(target)->0 - order@.index_of_first(base->0)->0,
            None => base is None || !order@.contains(base->0) || !order@.contains(target),
        },
{
    match base {
        None => None,
        Some(base) => match (index_in(order, base), index_in(order, target)) {
            (Some(from), Some(to)) => Some(to as i64 - from as i64),
            _ => None,
        },
    }
}

/// The display to go to for a space that lies on a display, which is none where
/// the cursor is there already.
pub fn display_to_enter(display: Option<u32>, cursor: Option<u32>) -> (r: Option<u32>)
    ensures
        r == (if display == cursor {
            None
        } else {
            display
        }),
{
    match (display, cursor) {
        (Some(did), Some(at)) => if did == at {
            None
        } else {
            Some(did)
        },
        _ => display,
    }
}

/// Going to the next space and back to the previous one ends where it started.
pub proof fn law_next_space_and_back(order: Seq<u64>, active: u64, next: u64)
    requires
        order.no_duplicates(),
        space_target(order, Some(active), Selector::Next) == selectors::Resolved::Found(next),
    ensures
        space_target(order, Some(next), Selector::Prev) == selectors::Resolved::Found(active),
{
    order.index_of_first_ensures(active);
    let i = order.index_of_first(active)->0;
    lemma_index(order, i);
    lemma_index(order, i + 1);
    assert(order.contains(order[i + 1]));
}

impl State {
    /// Whether a space is the first one of a display: none comes before it, or
    /// the one before it is on another display.
    pub open spec fn is_first(self, order: Seq<u64>, sid: u64, did: u32) -> bool {
        match before(order, sid) {
            Some(prev) => self.topology.display_of(prev) != Some(did),
            None => true,
        }
    }

    /// Two spaces that a command acts on, with their displays.
    pub open spec fn space_pair(
        self,
        target: Option<Selector>,
        selector: Selector,
        to_itself: Seq<char>,
    ) -> selectors::Resolved<((u64, u32), (u64, u32))> {
        match self.selected_space(target) {
            selectors::Resolved::Failed(e) => selectors::Resolved::Failed(e),
            selectors::Resolved::Found(acting) => match self.selected_space(Some(selector)) {
                selectors::Resolved::Failed(e) => selectors::Resolved::Failed(e),
                selectors::Resolved::Found(selected) => if acting == selected {
                    selectors::Resolved::Failed(to_itself)
                } else {
                    match (self.topology.display_of(acting), self.topology.display_of(selected)) {
                        (Some(a), Some(b)) => selectors::Resolved::Found(
                            ((acting, a), (selected, b)),
                        ),
                        _ => selectors::Resolved::Failed(
                            "could not locate the space to act on.\n"@,
                        ),
                    }
                },
            },
        }
    }

    /// Whether a space is the active one.
    pub open spec fn is_active(self, sid: u64) -> bool {
        self.tiling.active_space == Some(sid)
    }

    /// The moves that put a space in the place of another one on its display.
    pub open spec fn moves_to(self, order: Seq<u64>, acting: u64, selected: u64, did: u32) -> Seq<
        SpaceMove,
    > {
        let focus = self.is_active(acting);
        let a_first = self.is_first(order, acting, did);
        let s_first = self.is_first(order, selected, did);
        if a_first && !s_first {
            seq![SpaceMove { src: acting, dst: selected, focus }]
        } else if !a_first && s_first {
            seq![
                SpaceMove { src: acting, dst: selected, focus },
                SpaceMove { src: selected, dst: acting, focus: false },
            ]
        } else if !a_first && !s_first {
            let anchor = if place_in(order, acting) > place_in(order, selected) {
                or_zero(before(order, selected))
            } else {
                selected
            };
            seq![SpaceMove { src: acting, dst: anchor, focus }]
        } else {
            Seq::empty()
        }
    }

    /// The moves that exchange two spaces of a display.
    pub open spec fn moves_to_swap(
        self,
        order: Seq<u64>,
        acting: u64,
        selected: u64,
        did: u32,
    ) -> Seq<SpaceMove> {
        let focus = self.is_active(acting);
        let a_first = self.is_first(order, acting, did);
        let s_first = self.is_first(order, selected, did);
        let a_place = place_in(order, acting);
        let s_place = place_in(order, selected);
        let selected_first = seq![
            SpaceMove { src: selected, dst: acting, focus: false },
            SpaceMove { src: acting, dst: or_zero(before(order, selected)), focus },
        ];
        let acting_first = seq![
            SpaceMove { src: acting, dst: selected, focus },
            SpaceMove { src: selected, dst: or_zero(before(order, acting)), focus: false },
        ];
        if a_first && !s_first && s_place - a_place == 1 {
            seq![SpaceMove { src: acting, dst: selected, focus }]
        } else if !a_first && s_first && a_place - s_place == 1 {
            seq![SpaceMove { src: selected, dst: acting, focus: self.is_active(selected) }]
        } else if a_first && !s_first {
            selected_first
        } else if !a_first && s_first {
            acting_first
        } else if a_place > s_place {
            selected_first
        } else {
            acting_first
        }
    }

    /// What `space --move` asks for.
    pub open spec fn move_plan(
        self,
        order: Seq<u64>,
        target: Option<Selector>,
        selector: Selector,
    ) -> selectors::Resolved<Seq<SpaceMove>> {
        match self.space_pair(target, selector, "cannot move space to itself.\n"@) {
            selectors::Resolved::Failed(e) => selectors::Resolved::Failed(e),
            selectors::Resolved::Found(((acting, a), (selected, b))) => if a != b {
                selectors::Resolved::Failed(
                    "cannot move space across display boundaries. use --display instead.\n"@,
                )
            } else {
                selectors::Resolved::Found(self.moves_to(order, acting, selected, a))
            },
        }
    }

    /// What `space --display` asks for.
    pub open spec fn transfer_plan(
        self,
        spaces: Option<Seq<u64>>,
        target: Option<Selector>,
        selector: Selector,
    ) -> selectors::Resolved<SpaceTransfer> {
        match self.selected_space(target) {
            selectors::Resolved::Failed(e) => selectors::Resolved::Failed(e),
            selectors::Resolved::Found(acting) => match self.selected_display(Some(selector)) {
                selectors::Resolved::Failed(e) => selectors::Resolved::Failed(e),
                selectors::Resolved::Found(did) => match self.topology.display_of(acting) {
                    None => selectors::Resolved::Failed(
                        "could not locate the space to act on.\n"@,
                    ),
                    Some(src_did) => self.transfer_between(spaces, acting, src_did, did),
                },
            },
        }
    }

    /// What sending a space from one display to another asks for.
    pub open spec fn transfer_between(
        self,
        spaces: Option<Seq<u64>>,
        acting: u64,
        src_did: u32,
        did: u32,
    ) -> selectors::Resolved<SpaceTransfer> {
        if src_did == did {
            selectors::Resolved::Failed(
                "acting space is already located on the given display.\n"@,
            )
        } else if idmap::ids_of(self.topology.spaces_on(src_did)).len() <= 1 {
            selectors::Resolved::Failed(
                "acting space is the last user-space on the source display and cannot be moved.\n"@,
            )
        } else {
            match self.topology.shown_on(did) {
                None => selectors::Resolved::Failed(
                    "could not locate the active space of the given display.\n"@,
                ),
                Some(dst) => selectors::Resolved::Found(
                    SpaceTransfer {
                        src: acting,
                        dst,
                        prev: if self.is_active(acting) && spaces is Some {
                            or_zero(before(spaces->0, acting))
                        } else {
                            0
                        },
                        focus: self.is_active(acting),
                    },
                ),
            }
        }
    }

    /// The first `k` of some windows assigned to a space, one after the other.
    pub open spec fn with_assigned(self, windows: Seq<u32>, k: int, sid: u64) -> State
        decreases k,
    {
        if k <= 0 {
            self
        } else {
            let s = self.with_assigned(windows, k - 1, sid);
            State { tiling: s.tiling.assigned(windows[k - 1], sid), ..s }
        }
    }

    /// The windows that a space tiles.
    pub open spec fn windows_on(self, sid: u64) -> Seq<u32> {
        if self.tiling.spaces.dom().contains(sid) {
            self.tiling.spaces[sid].windows
        } else {
            Seq::empty()
        }
    }

    /// The state after two spaces exchanged their windows.
    pub open spec fn after_exchange(self, acting: u64, selected: u64) -> State {
        let a = self.windows_on(acting);
        let b = self.windows_on(selected);
        self.with_assigned(a, a.len() as int, selected).with_assigned(b, b.len() as int, acting)
    }

    /// What `space --switch` asks for, once the space to go to is known.
    pub open spec fn switch_plan(self, current: Option<u64>, sid: u64) -> selectors::Resolved<
        SwitchPlan,
    > {
        match current {
            None => selectors::Resolved::Failed("could not locate the active space.\n"@),
            Some(cur) => if cur == sid {
                selectors::Resolved::Failed("cannot focus an already focused space.\n"@)
            } else {
                match (self.topology.display_of(cur), self.topology.display_of(sid)) {
                    (Some(a), Some(b)) if a != b => selectors::Resolved::Found(
                        SwitchPlan::Exchange { current: cur, other: sid },
                    ),
                    _ => selectors::Resolved::Found(SwitchPlan::Focus(sid)),
                }
            },
        }
    }
}

/// A space, or zero.
pub open spec fn or_zero(sid: Option<u64>) -> u64 {
    match sid {
        Some(s) => s,
        None => 0,
    }
}

fn sid_or_zero(sid: Option<u64>) -> (r: u64)
    ensures
        r == or_zero(sid),
{
    match sid {
        Some(s) => s,
        None => 0,
    }
}

impl AppState {
    fn is_first_on_display(&self, order: &Vec<u64>, sid: u64, did: u32) -> (r: bool)
        requires
            self.wf(),
        ensures
            r == self@.is_first(order@, sid, did),
    {
        match global_prev_space(order, sid) {
            Some(prev) => match self.space_display(prev) {
                Some(other) => other != did,
                None => true,
            },
            None => true,
        }
    }

    fn is_active_space(&self, sid: u64) -> (r: bool)
        requires
            self.wf(),
        ensures
            r == self@.is_active(sid),
    {
        match self.active_space_id() {
            Some(active) => active == sid,
            None => false,
        }
    }

    fn resolve_space_pair(&self, target: Option<&Selector>, selector: &Selector, to_itself: &str) -> (
    r: Result<((u64, u32), (u64, u32)), String>)
        requires
            self.wf(),
        ensures
            selectors::is_outcome(
                r,
                self@.space_pair(
                    selectors::owned(target),
                    *selector,
                    to_itself@,
                ),
            ),
    {
        let acting = match self.resolve_space(target) {
            Ok(sid) => sid,
            Err(error) => {
                return Err(error);
            },
        };
        let selected = match self.resolve_space(Some(selector)) {
            Ok(sid) => sid,
            Err(error) => {
                return Err(error);
            },
        };
        if acting == selected {
            return Err(to_itself.to_owned());
        }
        match (self.space_display(acting), self.space_display(selected)) {
            (Some(a), Some(b)) => Ok(((acting, a), (selected, b))),
            _ => Err("could not locate the space to act on.\n".to_owned()),
        }
    }

    fn plan_moves(&self, order: &Vec<u64>, acting: u64, selected: u64, did: u32) -> (r: Vec<
        SpaceMove,
    >)
        requires
            self.wf(),
        ensures
            r@ == self@.moves_to(order@, acting, selected, did),
    {
        let focus = self.is_active_space(acting);
        let a_first = self.is_first_on_display(order, acting, did);
        let s_first = self.is_first_on_display(order, selected, did);
        if a_first && !s_first {
            vec![SpaceMove { src: acting, dst: selected, focus }]
        } else if !a_first && s_first {
            vec![
                SpaceMove { src: acting, dst: selected, focus },
                SpaceMove { src: selected, dst: acting, focus: false },
            ]
        } else if !a_first && !s_first {
            let anchor = if mission_control_index(order, acting) > mission_control_index(
                order,
                selected,
            ) {
                sid_or_zero(global_prev_space(order, selected))
            } else {
                selected
            };
            vec![SpaceMove { src: acting, dst: anchor, focus }]
        } else {
            Vec::new()
        }
    }

    /// Plan `space --move`: the moves are to be made one after the other, up to
    /// the first that fails.
    pub fn plan_space_move(
        &self,
        order: &Vec<u64>,
        target: Option<&Selector>,
        selector: &Selector,
    ) -> (r: Result<Vec<SpaceMove>, String>)
        requires
            self.wf(),
        ensures
            match self@.move_plan(
                order@,
                selectors::owned(target),
                *selector,
            ) {
                selectors::Resolved::Found(moves) => r is Ok && r->Ok_0@ == moves,
                selectors::Resolved::Failed(e) => r is Err && r->Err_0@ == e,
            },
    {
        match self.resolve_space_pair(target, selector, "cannot move space to itself.\n") {
            Err(error) => Err(error),
            Ok(((acting, a), (selected, b))) => if a != b {
                Err("cannot move space across display boundaries. use --display instead.\n".to_owned())
            } else {
                Ok(self.plan_moves(order, acting, selected, a))
            },
        }
    }

    fn plan_swap_moves(&self, order: &Vec<u64>, acting: u64, selected: u64, did: u32) -> (r: Vec<
        SpaceMove,
    >)
        requires
            self.wf(),
        ensures
            r@ == self@.moves_to_swap(order@, acting, selected, did),
    {
        let focus = self.is_active_space(acting);
        let a_first = self.is_first_on_display(order, acting, did);
        let s_first = self.is_first_on_display(order, selected, did);
        let a_place = mission_control_index(order, acting);
        let s_place = mission_control_index(order, selected);
        if a_first && !s_first && s_place > a_place && s_place - a_place == 1 {
            return vec![SpaceMove { src: acting, dst: selected, focus }];
        }
        if !a_first && s_first && a_place > s_place && a_place - s_place == 1 {
            return vec![
                SpaceMove { src: selected, dst: acting, focus: self.is_active_space(selected) },
            ];
        }
        let selected_goes_first = if a_first != s_first {
            a_first
        } else {
            a_place > s_place
        };
        if selected_goes_first {
            vec![
                SpaceMove { src: selected, dst: acting, focus: false },
                SpaceMove {
                    src: acting,
                    dst: sid_or_zero(global_prev_space(order, selected)),
                    focus,
                },
            ]
        } else {
            vec![
                SpaceMove { src: acting, dst: selected, focus },
                SpaceMove {
                    src: selected,
                    dst: sid_or_zero(global_prev_space(order, acting)),
                    focus: false,
                },
            ]
        }
    }

    /// Plan `space --swap`: on one display the spaces are reordered, across
    /// displays they exchange their windows.
    pub fn plan_space_swap(
        &self,
        order: &Vec<u64>,
        target: Option<&Selector>,
        selector: &Selector,
    ) -> (r: Result<SwapPlan, String>)
        requires
            self.wf(),
        ensures
            match self@.space_pair(
                selectors::owned(target),
                *selector,
                "cannot swap space with itself.\n"@,
            ) {
                selectors::Resolved::Failed(e) => r is Err && r->Err_0@ == e,
                selectors::Resolved::Found(((acting, a), (selected, b))) => if a != b {
                    r == Ok::<SwapPlan, String>(SwapPlan::Exchange { acting, selected })
                } else {
                    &&& r is Ok
                    &&& r->Ok_0 is Reorder
                    &&& r->Ok_0->Reorder_0@ == self@.moves_to_swap(order@, acting, selected, a)
                },
            },
    {
        match self.resolve_space_pair(target, selector, "cannot swap space with itself.\n") {
            Err(error) => Err(error),
            Ok(((acting, a), (selected, b))) => if a != b {
                Ok(SwapPlan::Exchange { acting, selected })
            } else {
                Ok(SwapPlan::Reorder(self.plan_swap_moves(order, acting, selected, a)))
            },
        }
    }

    /// Plan `space --display`. `spaces` are those of the display that is left, in
    /// order, if they can be told.
    pub fn plan_space_to_display(
        &self,
        spaces: Option<&Vec<u64>>,
        target: Option<&Selector>,
        selector: &Selector,
    ) -> (r: Result<SpaceTransfer, String>)
        requires
            self.wf(),
        ensures
            selectors::is_outcome(
                r,
                self@.transfer_plan(
                    match spaces {
                        Some(s) => Some(s@),
                        None => None,
                    },
                    selectors::owned(target),
                    *selector,
                ),
            ),
    {
        let acting = match self.resolve_space(target) {
            Ok(sid) => sid,
            Err(error) => {
                return Err(error);
            },
        };
        let did = match self.resolve_display(Some(selector)) {
            Ok(did) => did,
            Err(error) => {
                return Err(error);
            },
        };
        let src_did = match self.space_display(acting) {
            Some(src_did) => src_did,
            None => {
                return Err("could not locate the space to act on.\n".to_owned());
            },
        };
        if src_did == did {
            return Err("acting space is already located on the given display.\n".to_owned());
        }
        if self.space_ids_for_display(src_did).len() <= 1 {
            return Err(
                "acting space is the last user-space on the source display and cannot be moved.\n".to_owned(),
            );
        }
        let dst = match self.display_active_space_id(did) {
            Some(dst) => dst,
            None => {
                return Err(
                    "could not locate the active space of the given display.\n".to_owned(),
                );
            },
        };
        let focus = self.is_active_space(acting);
        let prev = if focus {
            prev_space_on_display(spaces, acting)
        } else {
            0
        };
        Ok(SpaceTransfer { src: acting, dst, prev, focus })
    }

    /// The windows that a space tiles.
    pub fn space_windows(&self, sid: u64) -> (r: Vec<u32>)
        requires
            self.wf(),
        ensures
            r@ == self@.windows_on(sid),
    {
        match self.space(sid) {
            Some(record) => record.windows.clone(),
            None => Vec::new(),
        }
    }

    /// Note that two spaces exchanged their windows.
    pub fn exchange_windows(&mut self, acting: u64, selected: u64)
        requires
            old(self).wf(),
        ensures
            final(self).wf(),
            final(self)@ == old(self)@.after_exchange(acting, selected),
    {
        let ghost pre = self@;
        let a = self.space_windows(acting);
        let b = self.space_windows(selected);
        let mut i: usize = 0;
        while i < a.len()
            invariant
                self.wf(),
                i <= a@.len(),
                self@ == pre.with_assigned(a@, i as int, selected),
            decreases a.len() - i,
        {
            let _ = self.assign_window_to_space(a[i], selected);
            i += 1;
        }
        let ghost mid = self@;
        let mut j: usize = 0;
        while j < b.len()
            invariant
                self.wf(),
                j <= b@.len(),
                self@ == mid.with_assigned(b@, j as int, acting),
            decreases b.len() - j,
        {
            let _ = self.assign_window_to_space(b[j], acting);
            j += 1;
        }
    }

    /// Plan `space --switch` to a space. `current` is the active space, or else
    /// the one that the first display shows.
    pub fn plan_space_switch(&self, current: Option<u64>, sid: u64) -> (r: Result<
        SwitchPlan,
        String,
    >)
        requires
            self.wf(),
        ensures
            selectors::is_outcome(r, self@.switch_plan(current, sid)),
    {
        let cur = match current {
            Some(cur) => cur,
            None => {
                return Err("could not locate the active space.\n".to_owned());
            },
        };
        if cur == sid {
            return Err("cannot focus an already focused space.\n".to_owned());
        }
        match (self.space_display(cur), self.space_display(sid)) {
            (Some(a), Some(b)) => if a != b {
                Ok(SwitchPlan::Exchange { current: cur, other: sid })
            } else {
                Ok(SwitchPlan::Focus(sid))
            },
            _ => Ok(SwitchPlan::Focus(sid)),
        }
    }
}

/// An order after one space was put behind another one.
pub open spec fn moved_behind(order: Seq<u64>, src: u64, dst: u64) -> Seq<u64> {
    let rest = order.remove(order.index_of_first(src)->0);
    rest.insert(rest.index_of_first(dst)->0 + 1, src)
}

/// An order after the first `k` of some moves.
pub open spec fn moved(order: Seq<u64>, moves: Seq<SpaceMove>, k: int) -> Seq<u64>
    decreases k,
{
    if k <= 0 {
        order
    } else {
        moved_behind(moved(order, moves, k - 1), moves[k - 1].src, moves[k - 1].dst)
    }
}

proof fn lemma_index(order: Seq<u64>, i: int)
    requires
        order.no_duplicates(),
        0 <= i < order.len(),
    ensures
        order.index_of_first(order[i]) == Some(i),
        place_in(order, order[i]) == i + 1,
        i > 0 ==> before(order, order[i]) == Some(order[i - 1]),
        i == 0 ==> before(order, order[i]) is None,
{
    assert(order.contains(order[i]));
    order.index_of_first_ensures(order[i]);
}

/// Moving the space at one place behind the one at another place.
proof fn lemma_moved_behind(order: Seq<u64>, i: int, j: int)
    requires
        order.no_duplicates(),
        0 <= i < order.len(),
        0 <= j < order.len(),
        i != j,
    ensures
        moved_behind(order, order[i], order[j]) == order.remove(i).insert(
            if j < i {
                j + 1
            } else {
                j
            },
            order[i],
        ),
        moved_behind(order, order[i], order[j]).no_duplicates(),
{
    lemma_index(order, i);
    let rest = order.remove(i);
    let k = if j < i {
        j
    } else {
        j - 1
    };
    assert(rest.no_duplicates());
    assert(rest[k] == order[j]);
    lemma_index(rest, k);
    let r = rest.insert(k + 1, order[i]);
    assert forall|a: int, b: int| 0 <= a < r.len() && 0 <= b < r.len() && a != b implies r[a]
        != r[b] by {
        let ra = if a <= k {
            a
        } else {
            a - 1
        };
        let rb = if b <= k {
            b
        } else {
            b - 1
        };
        if a == k + 1 {
            assert(r[b] == rest[rb]);
            assert(rest[rb] != order[i]);
        } else if b == k + 1 {
            assert(r[a] == rest[ra]);
            assert(rest[ra] != order[i]);
        } else {
            assert(r[a] == rest[ra] && r[b] == rest[rb]);
        }
    }
}

/// An order with two places exchanged.
pub open spec fn swapped(order: Seq<u64>, i: int, j: int) -> Seq<u64> {
    order.update(i, order[j]).update(j, order[i])
}

/// A space put behind another one, which is then put behind the space that came
/// before the first, have exchanged their places.
proof fn lemma_two_moves(order: Seq<u64>, i: int, j: int)
    requires
        order.no_duplicates(),
        0 <= i < order.len(),
        0 < j < order.len(),
        i != j,
        j != i + 1,
    ensures
        moved_behind(moved_behind(order, order[j], order[i]), order[i], order[j - 1]) == swapped(
            order,
            i,
            j,
        ),
{
    let a = order[i];
    let b = order[j];
    lemma_moved_behind(order, j, i);
    let at = if i < j {
        i + 1
    } else {
        i
    };
    let m = order.remove(j).insert(at, b);
    assert(moved_behind(order, b, a) == m);
    let from = if i < j {
        i
    } else {
        i - 1
    };
    let to = if i < j {
        j
    } else {
        j - 1
    };
    assert(m[from] == a);
    assert(m[to] == order[j - 1]);
    lemma_moved_behind(m, from, to);
    let r = m.remove(from).insert(
        if to < from {
            to + 1
        } else {
            to
        },
        a,
    );
    assert(r.len() == order.len());
    assert forall|k: int| 0 <= k < order.len() implies r[k] == swapped(order, i, j)[k] by {}
    assert(r =~= swapped(order, i, j));
}

/// A space put behind the next one has changed places with it.
proof fn lemma_one_move(order: Seq<u64>, i: int)
    requires
        order.no_duplicates(),
        0 <= i,
        i + 1 < order.len(),
    ensures
        moved_behind(order, order[i], order[i + 1]) == swapped(order, i, i + 1),
{
    lemma_moved_behind(order, i, i + 1);
    assert(moved_behind(order, order[i], order[i + 1]) =~= swapped(order, i, i + 1));
}

proof fn lemma_moved_twice(order: Seq<u64>, moves: Seq<SpaceMove>)
    ensures
        moves.len() == 1 ==> moved(order, moves, 1) == moved_behind(
            order,
            moves[0].src,
            moves[0].dst,
        ),
        moves.len() == 2 ==> moved(order, moves, 2) == moved_behind(
            moved_behind(order, moves[0].src, moves[0].dst),
            moves[1].src,
            moves[1].dst,
        ),
{
    reveal_with_fuel(moved, 3);
}

/// Swapping two spaces of a display exchanges their places in the order, and
/// leaves every other space where it is.
pub proof fn law_swap_exchanges_places(s: State, order: Seq<u64>, i: int, j: int, did: u32)
    requires
        order.no_duplicates(),
        0 <= i < order.len(),
        0 <= j < order.len(),
        i != j,
        i < j ==> !s.is_first(order, order[j], did),
        j < i ==> !s.is_first(order, order[i], did),
    ensures
        moved(
            order,
            s.moves_to_swap(order, order[i], order[j], did),
            s.moves_to_swap(order, order[i], order[j], did).len() as int,
        ) == swapped(order, i, j),
{
    let a = order[i];
    let b = order[j];
    let moves = s.moves_to_swap(order, a, b, did);
    lemma_index(order, i);
    lemma_index(order, j);
    lemma_moved_twice(order, moves);
    assert(swapped(order, i, j) =~= swapped(order, j, i));
    if moves.len() == 1 {
        if i < j {
            lemma_one_move(order, i);
        } else {
            lemma_one_move(order, j);
        }
    } else if i < j {
        if s.is_first(order, a, did) {
            lemma_two_moves(order, i, j);
        } else {
            lemma_two_moves(order, j, i);
        }
    } else {
        if s.is_first(order, b, did) {
            lemma_two_moves(order, j, i);
        } else {
            lemma_two_moves(order, i, j);
        }
    }
}

/// Moving a space to another one of its display puts it in that one's place, and
/// keeps the order of all the others.
pub proof fn law_move_takes_the_place(s: State, order: Seq<u64>, i: int, j: int, did: u32)
    requires
        order.no_duplicates(),
        0 <= i < order.len(),
        0 <= j < order.len(),
        i != j,
        i < j ==> !s.is_first(order, order[j], did),
        j < i ==> !s.is_first(order, order[i], did),
    ensures
        moved(
            order,
            s.moves_to(order, order[i], order[j], did),
            s.moves_to(order, order[i], order[j], did).len() as int,
        ) == order.remove(i).insert(j, order[i]),
{
    let a = order[i];
    let b = order[j];
    let moves = s.moves_to(order, a, b, did);
    let goal = order.remove(i).insert(j, a);
    lemma_index(order, i);
    lemma_index(order, j);
    reveal_with_fuel(moved, 3);
    lemma_moved_behind(order, i, j);
    if moves.len() == 2 {
        let m = order.remove(i).insert(j + 1, a);
        assert(moved(order, moves, 1) == m);
        assert(m[j] == b && m[j + 1] == a);
        lemma_moved_behind(m, j, j + 1);
        assert(moved(order, moves, 2) =~= goal);
    } else {
        if j < i {
            lemma_moved_behind(order, i, j - 1);
        }
        assert(moved(order, moves, 1) =~= goal);
    }
}

/// A space counts from one in an order, by its first place; one that is not there
/// counts as zero. The space before it stands one place earlier.
pub proof fn law_places_count_from_one(order: Seq<u64>, sid: u64, i: int)
    ensures
        0 <= i < order.len() && order[i] == sid && (forall|j: int|
            0 <= j < i ==> #[trigger] order[j] != sid) ==> {
            &&& place_in(order, sid) == i + 1
            &&& i > 0 ==> before(order, sid) == Some(order[i - 1])
            &&& i == 0 ==> before(order, sid) is None
        },
        !order.contains(sid) ==> place_in(order, sid) == 0 && before(order, sid) is None,
{
    if 0 <= i < order.len() && order[i] == sid && (forall|j: int|
        0 <= j < i ==> #[trigger] order[j] != sid) {
        assert(order.contains(sid));
        order.index_of_first_ensures(sid);
        let f = order.index_of_first(sid)->0;
        if f < i {
            assert(order[f] != sid);
        }
    }
}

/// A number selects the space at that place, the first and the last space are at the
/// ends, and the previous and the next one beside the active one.
pub proof fn law_space_targets(order: Seq<u64>, active: u64, i: int, n: u32)
    requires
        order.no_duplicates(),
        0 <= i < order.len(),
        order[i] == active,
    ensures
        1 <= n <= order.len() ==> space_target(order, Some(active), Selector::Index(n))
            == selectors::Resolved::Found(order[n - 1]),
        n == 0 || n > order.len() ==> space_target(order, Some(active), Selector::Index(n))
            == selectors::Resolved::<u64>::Failed(
            "could not locate space with mission-control index '"@ + text::decimal(n as nat)
                + "'."@,
        ),
        space_target(order, Some(active), Selector::First) == selectors::Resolved::Found(order[0]),
        space_target(order, Some(active), Selector::Last) == selectors::Resolved::Found(
            order[order.len() - 1],
        ),
        i > 0 ==> space_target(order, Some(active), Selector::Prev) == selectors::Resolved::Found(
            order[i - 1],
        ),
        i + 1 < order.len() ==> space_target(order, Some(active), Selector::Next)
            == selectors::Resolved::Found(order[i + 1]),
        i == 0 ==> space_target(order, Some(active), Selector::Prev) is Failed,
        i + 1 == order.len() ==> space_target(order, Some(active), Selector::Next) is Failed,
        space_target(order, None, Selector::Next) is Failed,
        space_target(order, None, Selector::Prev) is Failed,
{
    lemma_index(order, i);
}

/// Two spaces that a command acts on are the one it is addressed to and the one it
/// names, with their displays; it fails if they are the same, or a display is not
/// known.
pub proof fn law_space_pairs(
    s: State,
    target: Option<Selector>,
    selector: Selector,
    to_itself: Seq<char>,
    acting: u64,
    selected: u64,
)
    requires
        s.selected_space(target) == selectors::Resolved::Found(acting),
        s.selected_space(Some(selector)) == selectors::Resolved::Found(selected),
    ensures
        acting == selected ==> s.space_pair(target, selector, to_itself) == selectors::Resolved::<
            ((u64, u32), (u64, u32)),
        >::Failed(to_itself),
        acting != selected && s.topology.space_displays.dom().contains(acting)
            && s.topology.space_displays.dom().contains(selected) ==> s.space_pair(
            target,
            selector,
            to_itself,
        ) == selectors::Resolved::Found(
            (
                (acting, s.topology.space_displays[acting]),
                (selected, s.topology.space_displays[selected]),
            ),
        ),
        acting != selected && (!s.topology.space_displays.dom().contains(acting)
            || !s.topology.space_displays.dom().contains(selected)) ==> s.space_pair(
            target,
            selector,
            to_itself,
        ) == selectors::Resolved::<((u64, u32), (u64, u32))>::Failed(
            "could not locate the space to act on.\n"@,
        ),
        s.move_plan(Seq::empty(), target, selector) is Found ==> s.topology.display_of(acting)
            == s.topology.display_of(selected) && acting != selected,
{
}

/// The moves of a swap or a move concern the two spaces alone, and focus a space only
/// if it is the active one; the acting one is focused if it is.
pub proof fn law_moves_focus_the_active_space(
    s: State,
    order: Seq<u64>,
    acting: u64,
    selected: u64,
    did: u32,
    k: int,
)
    ensures
        0 <= k < s.moves_to(order, acting, selected, did).len() ==> {
            let m = s.moves_to(order, acting, selected, did)[k];
            &&& m.src == acting || m.src == selected
            &&& m.focus ==> s.tiling.active_space == Some(m.src)
            &&& m.src == acting && acting != selected ==> m.focus == (s.tiling.active_space == Some(
                acting,
            ))
        },
        0 <= k < s.moves_to_swap(order, acting, selected, did).len() ==> {
            let m = s.moves_to_swap(order, acting, selected, did)[k];
            &&& m.src == acting || m.src == selected
            &&& m.focus ==> s.tiling.active_space == Some(m.src)
            &&& m.src == acting && acting != selected ==> m.focus == (s.tiling.active_space == Some(
                acting,
            ))
        },
{
}

/// A space goes to another display behind the space shown there; if it was active it
/// is focused, and the space before it on the display left is shown there. The last
/// space of a display stays.
pub proof fn law_space_to_another_display(
    s: State,
    spaces: Option<Seq<u64>>,
    acting: u64,
    from: u32,
    to: u32,
)
    ensures
        from == to ==> s.transfer_between(spaces, acting, from, to) == selectors::Resolved::<
            SpaceTransfer,
        >::Failed("acting space is already located on the given display.\n"@),
        from != to && idmap::ids_of(s.topology.spaces_on(from)).len() <= 1 ==> s.transfer_between(
            spaces,
            acting,
            from,
            to,
        ) == selectors::Resolved::<SpaceTransfer>::Failed(
            "acting space is the last user-space on the source display and cannot be moved.\n"@,
        ),
        from != to && idmap::ids_of(s.topology.spaces_on(from)).len() > 1
            && !s.topology.display_active_space.dom().contains(to) ==> s.transfer_between(
            spaces,
            acting,
            from,
            to,
        ) == selectors::Resolved::<SpaceTransfer>::Failed(
            "could not locate the active space of the given display.\n"@,
        ),
        from != to && idmap::ids_of(s.topology.spaces_on(from)).len() > 1
            && s.topology.display_active_space.dom().contains(to) ==> {
            &&& s.transfer_between(spaces, acting, from, to) matches selectors::Resolved::Found(t)
            &&& t.src == acting
            &&& t.dst == s.topology.display_active_space[to]
            &&& t.focus == (s.tiling.active_space == Some(acting))
            &&& !t.focus ==> t.prev == 0
            &&& t.focus && spaces is Some && before(spaces->0, acting) is Some ==> t.prev == before(
                spaces->0,
                acting,
            )->0
        },
{
}

/// Switching to a space of the same display focuses it; one of another display
/// exchanges its windows with the current one.
pub proof fn law_switch_plans(s: State, current: u64, sid: u64)
    ensures
        s.switch_plan(None, sid) == selectors::Resolved::<SwitchPlan>::Failed(
            "could not locate the active space.\n"@,
        ),
        s.switch_plan(Some(sid), sid) == selectors::Resolved::<SwitchPlan>::Failed(
            "cannot focus an already focused space.\n"@,
        ),
        current != sid && s.topology.space_displays.dom().contains(current)
            && s.topology.space_displays.dom().contains(sid) && s.topology.space_displays[current]
            != s.topology.space_displays[sid] ==> s.switch_plan(Some(current), sid)
            == selectors::Resolved::Found(SwitchPlan::Exchange { current, other: sid }),
        current != sid && !(s.topology.space_displays.dom().contains(current)
            && s.topology.space_displays.dom().contains(sid) && s.topology.space_displays[current]
            != s.topology.space_displays[sid]) ==> s.switch_plan(Some(current), sid)
            == selectors::Resolved::Found(SwitchPlan::Focus(sid)),
{
}

proof fn lemma_emptied(s: State, windows: Seq<u32>, rest: Seq<u32>, from: u64, to: u64, k: int)
    requires
        s.tiling.wf(),
        from != to,
        s.tiling.spaces.dom().contains(from),
        s.tiling.spaces.dom().contains(to),
        s.tiling.spaces[from].windows == windows + rest,
        0 <= k <= windows.len(),
    ensures
        ({
            let t = s.with_assigned(windows, k, to);
            &&& t.tiling.wf()
            &&& t.tiling.spaces.dom() == s.tiling.spaces.dom()
            &&& t.tiling.spaces[from].windows == windows.skip(k) + rest
            &&& t.tiling.spaces[to].windows == s.tiling.spaces[to].windows + windows.take(k)
            &&& forall|o: u64| o != from && o != to ==> #[trigger] t.tiling.spaces[o]
                == s.tiling.spaces[o]
            &&& t.tiling.focused_window == s.tiling.focused_window
        }),
    decreases k,
{
    let there = s.tiling.spaces[to].windows;
    if k <= 0 {
        assert(windows.skip(0) =~= windows);
        assert(there + windows.take(0) =~= there);
    } else {
        lemma_emptied(s, windows, rest, from, to, k - 1);
        let b = s.with_assigned(windows, k - 1, to);
        let w = windows[k - 1];
        let list = windows.skip(k - 1) + rest;
        assert(list[0] == w);
        assert(b.tiling.spaces[from].windows[0] == w);
        tiling::law_window_moves_between_layouts(b.tiling, w, from, to, 0);
        assert(b.tiling.tiles(from, w));
        assert(!b.tiling.exempt(w));
        tiling::law_assigned_window_is_tiled_there(b.tiling, w, to);
        assert(list.remove(0) =~= windows.skip(k) + rest);
        assert((there + windows.take(k - 1)).push(w) =~= there + windows.take(k));
    }
}

/// Two spaces that exchange their windows end up with each other's, in order; the other
/// spaces and the focus stay.
pub proof fn law_exchange_trades_the_windows(s: State, acting: u64, selected: u64)
    requires
        s.tiling.wf(),
        acting != selected,
        s.tiling.spaces.dom().contains(acting),
        s.tiling.spaces.dom().contains(selected),
    ensures
        ({
            let t = s.after_exchange(acting, selected);
            &&& t.tiling.spaces[acting].windows == s.tiling.spaces[selected].windows
            &&& t.tiling.spaces[selected].windows == s.tiling.spaces[acting].windows
            &&& forall|o: u64|
                o != acting && o != selected ==> #[trigger] t.tiling.spaces[o] == s.tiling.spaces[o]
            &&& t.tiling.spaces.dom() == s.tiling.spaces.dom()
            &&& t.tiling.focused_window == s.tiling.focused_window
        }),
{
    let a = s.tiling.spaces[acting].windows;
    let b = s.tiling.spaces[selected].windows;
    assert(a + Seq::<u32>::empty() =~= a);
    lemma_emptied(s, a, Seq::empty(), acting, selected, a.len() as int);
    let m = s.with_assigned(a, a.len() as int, selected);
    assert(a.take(a.len() as int) =~= a);
    assert(a.skip(a.len() as int) + Seq::<u32>::empty() =~= Seq::<u32>::empty());
    lemma_emptied(m, b, a, selected, acting, b.len() as int);
    assert(b.skip(b.len() as int) + a =~= a);
    assert(Seq::<u32>::empty() + b.take(b.len() as int) =~= b);
}

/// The steps from one space to another are those between their places; the display to
/// go to is that of the space, unless the cursor is there.
pub proof fn law_ways_to_a_space(
    order: &Vec<u64>,
    base: Option<u64>,
    target: u64,
    steps: Option<i64>,
    display: Option<u32>,
    cursor: Option<u32>,
    enter: Option<u32>,
    i: int,
    j: int,
)
    requires
        call_ensures(gesture_steps, (order, base, target), steps),
        call_ensures(display_to_enter, (display, cursor), enter),
        order@.no_duplicates(),
    ensures
        0 <= i < order@.len() && 0 <= j < order@.len() && base == Some(order@[i]) && target
            == order@[j] ==> steps is Some && steps->0 == j - i,
        base is None ==> steps is None,
        !order@.contains(target) ==> steps is None,
        display == cursor ==> enter is None,
        display != cursor ==> enter == display,
{
    if 0 <= i < order@.len() && 0 <= j < order@.len() && base == Some(order@[i]) && target
        == order@[j] {
        lemma_index(order@, i);
        lemma_index(order@, j);
        assert(order@.contains(order@[i]));
        assert(order@.contains(order@[j]));
    }
}

/// `space --swap` reorders two spaces of one display, and exchanges the windows of two
/// on different ones.
pub proof fn law_swap_plans(
    state: &AppState,
    order: &Vec<u64>,
    target: Option<&Selector>,
    selector: &Selector,
    acting: u64,
    selected: u64,
    r: Result<SwapPlan, String>,
)
    requires
        call_ensures(AppState::plan_space_swap, (state, order, target, selector), r),
        state@.selected_space(
            match target {
                Some(s) => Some(*s),
                None => None,
            },
        ) == selectors::Resolved::Found(acting),
        state@.selected_space(Some(*selector)) == selectors::Resolved::Found(selected),
    ensures
        acting == selected ==> r is Err && r->Err_0@ == "cannot swap space with itself.\n"@,
        ({
            let on = state@.topology.space_displays;
            &&& acting != selected && on.dom().contains(acting) && on.dom().contains(selected)
                && on[acting] != on[selected] ==> r == Ok::<SwapPlan, String>(
                SwapPlan::Exchange { acting, selected },
            )
            &&& acting != selected && on.dom().contains(acting) && on.dom().contains(selected)
                && on[acting] == on[selected] ==> r is Ok && r->Ok_0 is Reorder
            &&& acting != selected && !(on.dom().contains(acting) && on.dom().contains(selected))
                ==> r is Err
        }),
{
}

/// `space --display` sends the space selected to the display selected, and fails as
/// either selector does.
pub proof fn law_transfer_plans(
    s: State,
    spaces: Option<Seq<u64>>,
    target: Option<Selector>,
    selector: Selector,
    acting: u64,
    did: u32,
    e: Seq<char>,
)
    ensures
        s.selected_space(target) == selectors::Resolved::<u64>::Failed(e) ==> s.transfer_plan(
            spaces,
            target,
            selector,
        ) == selectors::Resolved::<SpaceTransfer>::Failed(e),
        s.selected_space(target) == selectors::Resolved::Found(acting) && s.selected_display(
            Some(selector),
        ) == selectors::Resolved::<u32>::Failed(e) ==> s.transfer_plan(spaces, target, selector)
            == selectors::Resolved::<SpaceTransfer>::Failed(e),
        s.selected_space(target) == selectors::Resolved::Found(acting) && s.selected_display(
            Some(selector),
        ) == selectors::Resolved::Found(did) && s.topology.space_displays.dom().contains(acting)
            ==> s.transfer_plan(spaces, target, selector) == s.transfer_between(
            spaces,
            acting,
            s.topology.space_displays[acting],
            did,
        ),
        s.selected_space(target) == selectors::Resolved::Found(acting) && s.selected_display(
            Some(selector),
        ) == selectors::Resolved::Found(did) && !s.topology.space_displays.dom().contains(acting)
            ==> s.transfer_plan(spaces, target, selector) == selectors::Resolved::<
            SpaceTransfer,
        >::Failed("could not locate the space to act on.\n"@),
{
}

/// A line of the list of spaces marks the current one alone.
pub proof fn law_space_lines(place: usize, sid: u64, current: Option<u64>)
    ensures
        current == Some(sid) ==> space_line_text(place, sid, current) == "  mc-index "@
            + text::decimal(place as nat) + " -> sid "@ + text::decimal(sid as nat)
            + " <- current"@,
        current != Some(sid) ==> space_line_text(place, sid, current) == "  mc-index "@
            + text::decimal(place as nat) + " -> sid "@ + text::decimal(sid as nat),
{
    reveal_strlit("");
    let line = "  mc-index "@ + text::decimal(place as nat) + " -> sid "@ + text::decimal(
        sid as nat,
    );
    assert(line + ""@ =~= line);
}

} // verus!
