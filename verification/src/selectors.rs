//! Resolving the selectors of commands to displays, spaces and windows.
use vstd::prelude::*;

use crate::labels;
use crate::state::{AppState, Neighbor, State, WindowFrame};
use crate::text;
use crate::tiling;
use crate::topology;
use crate::types::{Direction, Selector};

verus! {

/// The text that `{:?}` prints for a string: quoted, with escapes.
pub uninterp spec fn debug_quoted(s: Seq<char>) -> Seq<char>;

/// `format!("{:?}", s)` for a string. What is printed depends on the string
/// alone; which characters are escaped, and how, is left unsaid.
#[verifier::external_body]
fn debug_string(s: &str) -> (r: String)
    ensures
        r@ == debug_quoted(s@),
{
    format!("{:?}", s)
}

/// A selector as complaints show it.
pub open spec fn selector_text(selector: Selector) -> Seq<char> {
    match selector {
        Selector::Index(n) => "Index("@ + text::decimal(n as nat) + ")"@,
        Selector::Label(label) => label_text(debug_quoted(label@)),
        Selector::First => "First"@,
        Selector::Last => "Last"@,
        Selector::Next => "Next"@,
        Selector::Prev => "Prev"@,
        Selector::Recent => "Recent"@,
        Selector::Mouse => "Mouse"@,
        Selector::Direction(Direction::North) => "Direction(North)"@,
        Selector::Direction(Direction::East) => "Direction(East)"@,
        Selector::Direction(Direction::South) => "Direction(South)"@,
        Selector::Direction(Direction::West) => "Direction(West)"@,
    }
}

/// A label as complaints show it, given how it is quoted.
pub open spec fn label_text(quoted: Seq<char>) -> Seq<char> {
    "Label("@ + quoted + ")"@
}

/// A label as complaints show it, given how it is quoted.
pub fn quoted_label(quoted: &str) -> (r: String)
    ensures
        r@ == label_text(quoted@),
{
    let mut out = "Label(".to_owned();
    out.append(quoted);
    out.append(")");
    out
}

/// A selector as complaints show it.
pub fn selector_string(selector: &Selector) -> (r: String)
    ensures
        r@ == selector_text(*selector),
{
    match selector {
        Selector::Index(n) => {
            let mut out = "Index(".to_owned();
            text::push_decimal(&mut out, *n as u64);
            out.append(")");
            out
        },
        Selector::Label(label) => {
            let quoted = debug_string(label.as_str());
            quoted_label(quoted.as_str())
        },
        Selector::First => "First".to_owned(),
        Selector::Last => "Last".to_owned(),
        Selector::Next => "Next".to_owned(),
        Selector::Prev => "Prev".to_owned(),
        Selector::Recent => "Recent".to_owned(),
        Selector::Mouse => "Mouse".to_owned(),
        Selector::Direction(Direction::North) => "Direction(North)".to_owned(),
        Selector::Direction(Direction::East) => "Direction(East)".to_owned(),
        Selector::Direction(Direction::South) => "Direction(South)".to_owned(),
        Selector::Direction(Direction::West) => "Direction(West)".to_owned(),
    }
}

/// A value, or the complaint that stands in its place.
pub ghost enum Resolved<T> {
    Found(T),
    Failed(Seq<char>),
}

/// The selector behind an optional reference.
pub open spec fn owned(selector: Option<&Selector>) -> Option<Selector> {
    match selector {
        Some(s) => Some(*s),
        None => None,
    }
}

/// An optional value, or a complaint.
pub open spec fn or_fail<T>(value: Option<T>, error: Seq<char>) -> Resolved<T> {
    match value {
        Some(v) => Resolved::Found(v),
        None => Resolved::Failed(error),
    }
}

/// Whether a result is what was resolved.
pub open spec fn is_outcome<T>(r: Result<T, String>, outcome: Resolved<T>) -> bool {
    match outcome {
        Resolved::Found(v) => r is Ok && r->Ok_0 == v,
        Resolved::Failed(error) => r is Err && r->Err_0@ == error,
    }
}

/// The complaint about a selector that needs state that is not held here.
pub open spec fn unresolved(selector: Selector, what: Seq<char>) -> Seq<char> {
    "selector "@ + selector_text(selector) + " cannot be resolved without live "@ + what
        + " state"@
}

fn unresolved_error(selector: &Selector, what: &str) -> (r: String)
    ensures
        r@ == unresolved(*selector, what@),
{
    let mut out = "selector ".to_owned();
    let shown = selector_string(selector);
    out.append(shown.as_str());
    out.append(" cannot be resolved without live ");
    out.append(what);
    out.append(" state");
    out
}

/// The neighbour of a reported window in a direction.
pub open spec fn neighbor_of(frame: WindowFrame, direction: Direction) -> Neighbor {
    match direction {
        Direction::North => frame.north,
        Direction::East => frame.east,
        Direction::South => frame.south,
        Direction::West => frame.west,
    }
}

/// The place of a window in a reported layout: the first frame that is its.
pub open spec fn frame_index(frames: Seq<WindowFrame>, window_id: u32) -> Option<int>
    decreases frames.len(),
{
    if frames.len() == 0 {
        None
    } else {
        match frame_index(frames.drop_last(), window_id) {
            Some(i) => Some(i),
            None => if frames.last().window_id == window_id {
                Some(frames.len() - 1)
            } else {
                None
            },
        }
    }
}

/// The place of a window in a reported layout.
pub fn find_frame(frames: &Vec<WindowFrame>, window_id: u32) -> (r: Option<usize>)
    ensures
        match r {
            Some(i) => i < frames@.len() && frame_index(frames@, window_id) == Some(i as int)
                && frames@[i as int].window_id == window_id,
            None => frame_index(frames@, window_id) is None,
        },
{
    let mut found: Option<usize> = None;
    let mut i: usize = 0;
    while i < frames.len()
        invariant
            i <= frames.len(),
            match found {
                Some(j) => j < i && frame_index(frames@.take(i as int), window_id) == Some(
                    j as int,
                ) && frames@[j as int].window_id == window_id,
                None => frame_index(frames@.take(i as int), window_id) is None,
            },
        decreases frames.len() - i,
    {
        proof {
            assert(frames@.take(i + 1).drop_last() =~= frames@.take(i as int));
        }
        if found.is_none() && frames[i].window_id == window_id {
            found = Some(i);
        }
        i += 1;
    }
    assert(frames@.take(frames@.len() as int) =~= frames@);
    found
}

impl State {
    /// The display of the active space.
    pub open spec fn active_display(self) -> Option<u32> {
        match self.tiling.active_space {
            Some(sid) => self.topology.display_of(sid),
            None => None,
        }
    }

    /// The display that a selector names; the active one without a selector.
    pub open spec fn selected_display(self, selector: Option<Selector>) -> Resolved<u32> {
        let arranged = topology::arrangement(
            self.topology.displays,
            self.config.display_arrangement_order,
        );
        match selector {
            Some(Selector::Index(n)) => if n == 0 {
                Resolved::Failed("could not locate display with arrangement index '0'."@)
            } else if n <= arranged.len() {
                Resolved::Found(arranged[n - 1])
            } else {
                Resolved::Failed(
                    "could not locate display with arrangement index '"@ + text::decimal(n as nat)
                        + "'."@,
                )
            },
            Some(Selector::Label(label)) => or_fail(
                labels::owner(self.topology.display_labels, label@),
                "could not locate display with label '"@ + label@ + "'.\n"@,
            ),
            Some(Selector::Mouse) => or_fail(
                self.topology.cursor_display,
                "could not locate the display under the cursor.\n"@,
            ),
            Some(other) => Resolved::Failed(unresolved(other, "display"@)),
            None => or_fail(self.active_display(), "could not locate the selected display."@),
        }
    }

    /// The space that a selector names; the active one without a selector. A
    /// number counts spaces in the order of the overview once that is known,
    /// and is an identifier before.
    pub open spec fn selected_space(self, selector: Option<Selector>) -> Resolved<u64> {
        let order = self.topology.mission_control;
        match selector {
            Some(Selector::Index(n)) => if order.len() == 0 {
                Resolved::Found(n as u64)
            } else if 1 <= n <= order.len() {
                Resolved::Found(order[n - 1])
            } else {
                Resolved::Failed(
                    "could not locate space with mission-control index '"@ + text::decimal(n as nat)
                        + "'.\n"@,
                )
            },
            Some(Selector::Label(label)) => or_fail(
                labels::owner(self.topology.space_labels, label@),
                "could not locate space with label '"@ + label@ + "'.\n"@,
            ),
            Some(Selector::Recent) => or_fail(
                self.tiling.last_active_space,
                "could not locate the recent space.\n"@,
            ),
            Some(Selector::Mouse) => or_fail(
                match self.topology.cursor_display {
                    Some(did) => self.topology.shown_on(did),
                    None => None,
                },
                "could not locate the space under the cursor.\n"@,
            ),
            Some(other) => Resolved::Failed(unresolved(other, "space"@)),
            None => or_fail(self.tiling.active_space, "no active space"@),
        }
    }

    /// The window before or behind the focused one in a list, without wrapping
    /// around.
    pub open spec fn beside_focused(self, windows: Seq<u32>, step: int) -> Resolved<u32> {
        match self.tiling.focused_window {
            None => Resolved::Failed("no focused window"@),
            Some(focused) => if !windows.contains(focused) {
                Resolved::Failed("focused window is not on the active space"@)
            } else if 0 <= windows.index_of(focused) + step < windows.len() {
                Resolved::Found(windows[windows.index_of(focused) + step])
            } else {
                Resolved::Failed("no window in that direction"@)
            },
        }
    }

    /// The window next to the focused one in a direction, as reported.
    pub open spec fn toward(self, sid: u64, direction: Direction) -> Resolved<u32> {
        match self.tiling.focused_window {
            None => Resolved::Failed("no focused window"@),
            Some(focused) => {
                let frames = match self.frames_of(sid) {
                    Some(frames) => frames,
                    None => Seq::empty(),
                };
                match frame_index(frames, focused) {
                    None => Resolved::Failed("focused window is not on the active space"@),
                    Some(i) => match neighbor_of(frames[i], direction) {
                        Neighbor::Absent => Resolved::Failed("no window in that direction"@),
                        Neighbor::Empty => Resolved::Failed("neighbor node is empty"@),
                        Neighbor::Window(w) => Resolved::Found(w),
                    },
                }
            },
        }
    }

    /// The window that a selector names on the active space.
    pub open spec fn selected_on_active(self, selector: Selector) -> Resolved<u32> {
        match self.tiling.active_space {
            None => Resolved::Failed("no active space"@),
            Some(sid) => if !self.tiling.spaces.dom().contains(sid) {
                Resolved::Failed("active space has no layout"@)
            } else {
                let windows = self.tiling.spaces[sid].windows;
                match selector {
                    Selector::First => if windows.len() > 0 {
                        Resolved::Found(windows[0])
                    } else {
                        Resolved::Failed("no windows"@)
                    },
                    Selector::Last => if windows.len() > 0 {
                        Resolved::Found(windows[windows.len() - 1])
                    } else {
                        Resolved::Failed("no windows"@)
                    },
                    Selector::Next => self.beside_focused(windows, 1),
                    Selector::Prev => self.beside_focused(windows, -1),
                    Selector::Direction(direction) => self.toward(sid, direction),
                    other => Resolved::Failed(unresolved(other, "window"@)),
                }
            },
        }
    }

    /// The window that a selector names.
    pub open spec fn selected_window(self, selector: Selector) -> Resolved<u32> {
        match selector {
            Selector::Index(id) => Resolved::Found(id),
            Selector::Recent => or_fail(
                self.tiling.last_focused_window,
                "could not locate the recent window.\n"@,
            ),
            Selector::Mouse => or_fail(
                self.topology.cursor_window,
                "could not locate the window under the cursor.\n"@,
            ),
            other => self.selected_on_active(other),
        }
    }

    /// The window that a selector names; the focused one without a selector.
    pub open spec fn acting_window(self, selector: Option<Selector>) -> Resolved<u32> {
        match selector {
            Some(selector) => self.selected_window(selector),
            None => or_fail(self.tiling.focused_window, "no focused window"@),
        }
    }
}

/// An optional value, or an error.
fn value_or<T>(value: Option<T>, error: &str) -> (r: Result<T, String>)
    ensures
        is_outcome(r, or_fail(value, error@)),
{
    match value {
        Some(v) => Ok(v),
        None => Err(error.to_owned()),
    }
}

impl AppState {
    /// The display that a selector names; the active one without a selector.
    pub fn resolve_display(&self, selector: Option<&Selector>) -> (r: Result<u32, String>)
        requires
            self.wf(),
        ensures
            is_outcome(
                r,
                self@.selected_display(
                    owned(selector),
                ),
            ),
    {
        match selector {
            Some(Selector::Index(n)) => {
                let ids = self.display_ids();
                if *n == 0 {
                    return Err("could not locate display with arrangement index '0'.".to_owned());
                }
                let at = (*n - 1) as usize;
                if at < ids.len() {
                    Ok(ids[at])
                } else {
                    let mut out = "could not locate display with arrangement index '".to_owned();
                    text::push_decimal(&mut out, *n as u64);
                    out.append("'.");
                    Err(out)
                }
            },
            Some(Selector::Label(label)) => match self.display_with_label(label.as_str()) {
                Some(did) => Ok(did),
                None => {
                    let mut out = "could not locate display with label '".to_owned();
                    out.append(label.as_str());
                    out.append("'.\n");
                    Err(out)
                },
            },
            Some(Selector::Mouse) => value_or(
                self.cursor_display_id(),
                "could not locate the display under the cursor.\n",
            ),
            Some(other) => Err(unresolved_error(other, "display")),
            None => value_or(self.active_display(), "could not locate the selected display."),
        }
    }

    /// The space that a selector names; the active one without a selector.
    pub fn resolve_space(&self, selector: Option<&Selector>) -> (r: Result<u64, String>)
        requires
            self.wf(),
        ensures
            is_outcome(
                r,
                self@.selected_space(
                    owned(selector),
                ),
            ),
    {
        match selector {
            Some(Selector::Index(n)) => {
                let order = self.mission_control_order();
                if order.len() == 0 {
                    return Ok(*n as u64);
                }
                if 1 <= *n && (*n - 1) as usize >= order.len() || *n == 0 {
                    let mut out = "could not locate space with mission-control index '".to_owned();
                    text::push_decimal(&mut out, *n as u64);
                    out.append("'.\n");
                    return Err(out);
                }
                Ok(order[(*n - 1) as usize])
            },
            Some(Selector::Label(label)) => match self.space_with_label(label.as_str()) {
                Some(sid) => Ok(sid),
                None => {
                    let mut out = "could not locate space with label '".to_owned();
                    out.append(label.as_str());
                    out.append("'.\n");
                    Err(out)
                },
            },
            Some(Selector::Recent) => value_or(
                self.last_active_space_id(),
                "could not locate the recent space.\n",
            ),
            Some(Selector::Mouse) => {
                let shown = match self.cursor_display_id() {
                    Some(did) => self.display_active_space_id(did),
                    None => None,
                };
                value_or(shown, "could not locate the space under the cursor.\n")
            },
            Some(other) => Err(unresolved_error(other, "space")),
            None => value_or(self.active_space_id(), "no active space"),
        }
    }

    /// The focused window.
    pub fn require_focused(&self) -> (r: Result<u32, String>)
        ensures
            is_outcome(r, or_fail(self@.tiling.focused_window, "no focused window"@)),
    {
        value_or(self.focused_window_id(), "no focused window")
    }

    /// The window before or behind the focused one in the list of a space.
    fn resolve_beside(&self, windows: &Vec<u32>, forward: bool) -> (r: Result<u32, String>)
        requires
            windows@.no_duplicates(),
        ensures
            is_outcome(
                r,
                self@.beside_focused(
                    windows@,
                    if forward {
                        1
                    } else {
                        -1
                    },
                ),
            ),
    {
        let focused = match self.focused_window_id() {
            Some(focused) => focused,
            None => {
                return Err("no focused window".to_owned());
            },
        };
        match tiling::position(windows, focused) {
            None => Err("focused window is not on the active space".to_owned()),
            Some(i) => {
                let count = windows.len();
                proof {
                    let k = windows@.index_of(focused);
                    assert(windows@.contains(focused));
                    assert(windows@[k] == focused);
                    assert(k == i);
                }
                if forward {
                    if i + 1 < count {
                        Ok(windows[i + 1])
                    } else {
                        Err("no window in that direction".to_owned())
                    }
                } else if i > 0 {
                    Ok(windows[i - 1])
                } else {
                    Err("no window in that direction".to_owned())
                }
            },
        }
    }

    /// The window next to the focused one in a direction.
    fn resolve_toward(&self, sid: u64, direction: Direction) -> (r: Result<u32, String>)
        requires
            self.wf(),
            self@.tiling.spaces.dom().contains(sid),
        ensures
            is_outcome(r, self@.toward(sid, direction)),
    {
        let focused = match self.focused_window_id() {
            Some(focused) => focused,
            None => {
                return Err("no focused window".to_owned());
            },
        };
        match self.capture(sid) {
            Some(capture) => match find_frame(&capture.frames, focused) {
                Some(i) => {
                    let frame = &capture.frames[i];
                    let neighbor = match direction {
                        Direction::North => frame.north,
                        Direction::East => frame.east,
                        Direction::South => frame.south,
                        Direction::West => frame.west,
                    };
                    match neighbor {
                        Neighbor::Absent => Err("no window in that direction".to_owned()),
                        Neighbor::Empty => Err("neighbor node is empty".to_owned()),
                        Neighbor::Window(w) => Ok(w),
                    }
                },
                None => Err("focused window is not on the active space".to_owned()),
            },
            None => Err("focused window is not on the active space".to_owned()),
        }
    }

    fn resolve_on_active(&self, selector: &Selector) -> (r: Result<u32, String>)
        requires
            self.wf(),
        ensures
            is_outcome(r, self@.selected_on_active(*selector)),
    {
        let sid = match self.active_space_id() {
            Some(sid) => sid,
            None => {
                return Err("no active space".to_owned());
            },
        };
        match self.space(sid) {
            None => Err("active space has no layout".to_owned()),
            Some(record) => {
                let windows = &record.windows;
                proof {
                    self.lemma_wf();
                    assert(self@.tiling.spaces[sid].windows.no_duplicates());
                }
                match selector {
                    Selector::First => if windows.len() > 0 {
                        Ok(windows[0])
                    } else {
                        Err("no windows".to_owned())
                    },
                    Selector::Last => if windows.len() > 0 {
                        Ok(windows[windows.len() - 1])
                    } else {
                        Err("no windows".to_owned())
                    },
                    Selector::Next => self.resolve_beside(windows, true),
                    Selector::Prev => self.resolve_beside(windows, false),
                    Selector::Direction(direction) => self.resolve_toward(sid, *direction),
                    _ => Err(unresolved_error(selector, "window")),
                }
            },
        }
    }

    /// The window that a selector names.
    pub fn resolve_window(&self, selector: &Selector) -> (r: Result<u32, String>)
        requires
            self.wf(),
        ensures
            is_outcome(r, self@.selected_window(*selector)),
    {
        match selector {
            Selector::Index(id) => Ok(*id),
            Selector::Recent => value_or(
                self.last_focused_window_id(),
                "could not locate the recent window.\n",
            ),
            Selector::Mouse => value_or(
                self.cursor_window_id(),
                "could not locate the window under the cursor.\n",
            ),
            _ => self.resolve_on_active(selector),
        }
    }

    /// The window that a selector names; the focused one without a selector.
    pub fn resolve_window_selector(&self, selector: Option<&Selector>) -> (r: Result<u32, String>)
        requires
            self.wf(),
        ensures
            is_outcome(
                r,
                self@.acting_window(
                    owned(selector),
                ),
            ),
    {
        match selector {
            Some(selector) => self.resolve_window(selector),
            None => self.require_focused(),
        }
    }
}

/// `next` and `prev` undo each other where both name a window.
pub proof fn law_next_and_prev_are_inverse(s: State, windows: Seq<u32>, i: int)
    requires
        windows.no_duplicates(),
        0 <= i < windows.len() - 1,
    ensures
        ({
            let here = State { tiling: s.tiling.refocused(Some(windows[i])), ..s };
            let there = State { tiling: s.tiling.refocused(Some(windows[i + 1])), ..s };
            &&& here.beside_focused(windows, 1) == Resolved::Found(windows[i + 1])
            &&& there.beside_focused(windows, -1) == Resolved::Found(windows[i])
        }),
{
    assert(windows.contains(windows[i]));
    assert(windows.contains(windows[i + 1]));
    assert(windows.index_of(windows[i]) == i);
    assert(windows.index_of(windows[i + 1]) == i + 1);
}

/// `recent` names the window that had the focus before.
pub proof fn law_recent_selects_previous_focus(s: State, first: u32, second: u32)
    requires
        first != second,
    ensures
        (State {
            tiling: s.tiling.refocused(Some(first)).refocused(Some(second)),
            ..s
        }).selected_window(Selector::Recent) == Resolved::Found(first),
{
}

/// `recent` names the space that was active before.
pub proof fn law_recent_selects_previous_space(s: State, first: u64, second: u64)
    requires
        first != second,
    ensures
        (State { tiling: s.tiling.activated(first).activated(second), ..s }).selected_space(
            Some(Selector::Recent),
        ) == Resolved::Found(first),
{
}

/// The first frame of a window is where it stands in a reported layout.
pub proof fn lemma_frame_index(frames: Seq<WindowFrame>, window_id: u32, i: int)
    requires
        0 <= i < frames.len(),
        frames[i].window_id == window_id,
        forall|j: int| 0 <= j < i ==> (#[trigger] frames[j]).window_id != window_id,
    ensures
        frame_index(frames, window_id) == Some(i),
    decreases frames.len(),
{
    let front = frames.drop_last();
    if i == frames.len() - 1 {
        lemma_no_frame(front, window_id);
    } else {
        assert(forall|j: int| 0 <= j < i ==> #[trigger] front[j] == frames[j]);
        lemma_frame_index(front, window_id, i);
    }
}

/// A window without a frame stands nowhere in a reported layout.
pub proof fn lemma_no_frame(frames: Seq<WindowFrame>, window_id: u32)
    requires
        forall|j: int| 0 <= j < frames.len() ==> (#[trigger] frames[j]).window_id != window_id,
    ensures
        frame_index(frames, window_id) is None,
    decreases frames.len(),
{
    if frames.len() > 0 {
        let front = frames.drop_last();
        assert(forall|j: int| 0 <= j < front.len() ==> #[trigger] front[j] == frames[j]);
        lemma_no_frame(front, window_id);
    }
}

/// A direction names the window that the layout reports on that very side of the
/// focused one.
pub proof fn law_direction_names_the_neighbor(s: State, sid: u64, focused: u32, i: int, w: u32)
    requires
        s.tiling.active_space == Some(sid),
        s.tiling.spaces.dom().contains(sid),
        s.tiling.focused_window == Some(focused),
        s.captures.dom().contains(sid),
        0 <= i < s.captures[sid].frames@.len(),
        s.captures[sid].frames@[i].window_id == focused,
        forall|j: int|
            0 <= j < i ==> (#[trigger] s.captures[sid].frames@[j]).window_id != focused,
    ensures
        s.selected_window(Selector::Direction(Direction::North)) == Resolved::Found(w)
            <==> s.captures[sid].frames@[i].north == Neighbor::Window(w),
        s.selected_window(Selector::Direction(Direction::East)) == Resolved::Found(w)
            <==> s.captures[sid].frames@[i].east == Neighbor::Window(w),
        s.selected_window(Selector::Direction(Direction::South)) == Resolved::Found(w)
            <==> s.captures[sid].frames@[i].south == Neighbor::Window(w),
        s.selected_window(Selector::Direction(Direction::West)) == Resolved::Found(w)
            <==> s.captures[sid].frames@[i].west == Neighbor::Window(w),
        s.captures[sid].frames@[i].north == Neighbor::Absent ==> s.selected_window(
            Selector::Direction(Direction::North),
        ) == Resolved::<u32>::Failed("no window in that direction"@),
        s.captures[sid].frames@[i].east == Neighbor::Absent ==> s.selected_window(
            Selector::Direction(Direction::East),
        ) == Resolved::<u32>::Failed("no window in that direction"@),
        s.captures[sid].frames@[i].south == Neighbor::Absent ==> s.selected_window(
            Selector::Direction(Direction::South),
        ) == Resolved::<u32>::Failed("no window in that direction"@),
        s.captures[sid].frames@[i].west == Neighbor::Absent ==> s.selected_window(
            Selector::Direction(Direction::West),
        ) == Resolved::<u32>::Failed("no window in that direction"@),
        s.captures[sid].frames@[i].north == Neighbor::Empty ==> s.selected_window(
            Selector::Direction(Direction::North),
        ) == Resolved::<u32>::Failed("neighbor node is empty"@),
        s.captures[sid].frames@[i].east == Neighbor::Empty ==> s.selected_window(
            Selector::Direction(Direction::East),
        ) == Resolved::<u32>::Failed("neighbor node is empty"@),
        s.captures[sid].frames@[i].south == Neighbor::Empty ==> s.selected_window(
            Selector::Direction(Direction::South),
        ) == Resolved::<u32>::Failed("neighbor node is empty"@),
        s.captures[sid].frames@[i].west == Neighbor::Empty ==> s.selected_window(
            Selector::Direction(Direction::West),
        ) == Resolved::<u32>::Failed("neighbor node is empty"@),
{
    lemma_frame_index(s.captures[sid].frames@, focused, i);
}

/// Opposite directions undo each other where two windows are each other's
/// neighbours on those sides.
pub proof fn law_opposite_directions_undo(s: State, sid: u64, a: u32, b: u32, i: int, k: int)
    requires
        s.tiling.active_space == Some(sid),
        s.tiling.spaces.dom().contains(sid),
        s.captures.dom().contains(sid),
        0 <= i < s.captures[sid].frames@.len(),
        0 <= k < s.captures[sid].frames@.len(),
        s.captures[sid].frames@[i].window_id == a,
        s.captures[sid].frames@[k].window_id == b,
        forall|j: int| 0 <= j < i ==> (#[trigger] s.captures[sid].frames@[j]).window_id != a,
        forall|j: int| 0 <= j < k ==> (#[trigger] s.captures[sid].frames@[j]).window_id != b,
    ensures
        ({
            let at_a = State { tiling: s.tiling.refocused(Some(a)), ..s };
            let at_b = State { tiling: s.tiling.refocused(Some(b)), ..s };
            let frames = s.captures[sid].frames@;
            &&& frames[i].east == Neighbor::Window(b) && frames[k].west == Neighbor::Window(a) ==> {
                &&& at_a.selected_window(Selector::Direction(Direction::East)) == Resolved::Found(b)
                &&& at_b.selected_window(Selector::Direction(Direction::West)) == Resolved::Found(a)
            }
            &&& frames[i].south == Neighbor::Window(b) && frames[k].north == Neighbor::Window(a)
                ==> {
                &&& at_a.selected_window(Selector::Direction(Direction::South)) == Resolved::Found(
                    b,
                )
                &&& at_b.selected_window(Selector::Direction(Direction::North)) == Resolved::Found(
                    a,
                )
            }
        }),
{
    lemma_frame_index(s.captures[sid].frames@, a, i);
    lemma_frame_index(s.captures[sid].frames@, b, k);
}

/// `first`, `last`, `next` and `prev` go through the windows of the active space in
/// their order, without wrapping around.
pub proof fn law_order_selectors_go_by_the_active_space(s: State, sid: u64, i: int)
    requires
        s.tiling.active_space == Some(sid),
        s.tiling.spaces.dom().contains(sid),
        s.tiling.spaces[sid].windows.no_duplicates(),
        0 <= i < s.tiling.spaces[sid].windows.len(),
    ensures
        s.selected_window(Selector::First) == Resolved::Found(s.tiling.spaces[sid].windows[0]),
        s.selected_window(Selector::Last) == Resolved::Found(
            s.tiling.spaces[sid].windows[s.tiling.spaces[sid].windows.len() - 1],
        ),
        s.tiling.focused_window == Some(s.tiling.spaces[sid].windows[i]) ==> {
            &&& s.selected_window(Selector::Next) == (if i + 1 < s.tiling.spaces[sid].windows.len() {
                Resolved::Found(s.tiling.spaces[sid].windows[i + 1])
            } else {
                Resolved::<u32>::Failed("no window in that direction"@)
            })
            &&& s.selected_window(Selector::Prev) == (if 0 < i {
                Resolved::Found(s.tiling.spaces[sid].windows[i - 1])
            } else {
                Resolved::<u32>::Failed("no window in that direction"@)
            })
        },
{
    let windows = s.tiling.spaces[sid].windows;
    assert(windows.contains(windows[i]));
    assert(windows.index_of(windows[i]) == i);
}

/// What a selector of windows names that does not go by a layout: a number the
/// window of that number, `recent` the window with the focus before, `mouse` the
/// one under the cursor; and no selector the one with the focus.
pub proof fn law_window_selectors(s: State, n: u32)
    ensures
        s.selected_window(Selector::Index(n)) == Resolved::Found(n),
        s.acting_window(Some(Selector::Index(n))) == Resolved::Found(n),
        s.tiling.last_focused_window == Some(n) ==> s.selected_window(Selector::Recent)
            == Resolved::Found(n),
        s.tiling.last_focused_window is None ==> s.selected_window(Selector::Recent)
            == Resolved::<u32>::Failed("could not locate the recent window.\n"@),
        s.topology.cursor_window == Some(n) ==> s.selected_window(Selector::Mouse)
            == Resolved::Found(n),
        s.topology.cursor_window is None ==> s.selected_window(Selector::Mouse)
            == Resolved::<u32>::Failed("could not locate the window under the cursor.\n"@),
        s.tiling.focused_window == Some(n) ==> s.acting_window(None) == Resolved::Found(n),
        s.tiling.focused_window is None ==> s.acting_window(None) == Resolved::<u32>::Failed(
            "no focused window"@,
        ),
{
}

/// The selectors that go by a layout name nothing where there is none to go by:
/// no active space, none with a layout, no window on it, or none of its windows
/// with the focus.
pub proof fn law_order_selectors_without_a_layout(s: State, sid: u64, selector: Selector)
    requires
        selector == Selector::First || selector == Selector::Last || selector == Selector::Next
            || selector == Selector::Prev || selector is Direction,
    ensures
        s.tiling.active_space is None ==> s.selected_window(selector) == Resolved::<u32>::Failed(
            "no active space"@,
        ),
        s.tiling.active_space == Some(sid) && !s.tiling.spaces.dom().contains(sid)
            ==> s.selected_window(selector) == Resolved::<u32>::Failed(
            "active space has no layout"@,
        ),
        s.tiling.active_space == Some(sid) && s.tiling.spaces.dom().contains(sid)
            && s.tiling.spaces[sid].windows.len() == 0 && (selector == Selector::First || selector
            == Selector::Last) ==> s.selected_window(selector) == Resolved::<u32>::Failed(
            "no windows"@,
        ),
        s.tiling.active_space == Some(sid) && s.tiling.spaces.dom().contains(sid)
            && s.tiling.focused_window is None && selector != Selector::First && selector
            != Selector::Last ==> s.selected_window(selector) == Resolved::<u32>::Failed(
            "no focused window"@,
        ),
        s.tiling.active_space == Some(sid) && s.tiling.spaces.dom().contains(sid)
            && s.tiling.focused_window is Some && !s.tiling.spaces[sid].windows.contains(
            s.tiling.focused_window->0,
        ) && (selector == Selector::Next || selector == Selector::Prev) ==> s.selected_window(
            selector,
        ) == Resolved::<u32>::Failed("focused window is not on the active space"@),
{
}

/// A number selects a space by its place in the overview, counted from one; before
/// the overview is known it is the number of the space.
pub proof fn law_space_number_counts_in_the_overview(s: State, n: u32)
    ensures
        s.topology.mission_control.len() == 0 ==> s.selected_space(Some(Selector::Index(n)))
            == Resolved::Found(n as u64),
        1 <= n <= s.topology.mission_control.len() ==> s.selected_space(Some(Selector::Index(n)))
            == Resolved::Found(s.topology.mission_control[n - 1]),
        s.topology.mission_control.len() > 0 && !(1 <= n <= s.topology.mission_control.len())
            ==> s.selected_space(Some(Selector::Index(n))) is Failed,
{
}

/// What the other selectors of spaces name: a label the space that has it, `recent`
/// the space active before, `mouse` the one shown on the display under the cursor;
/// and no selector the active one.
pub proof fn law_space_selectors(s: State, sid: u64, did: u32, label: String)
    ensures
        s.topology.space_labels.dom().contains(sid) && s.topology.space_labels[sid] == label@
            && labels::unique(s.topology.space_labels) ==> s.selected_space(
            Some(Selector::Label(label)),
        ) == Resolved::Found(sid),
        (forall|k: u64| s.topology.space_labels.dom().contains(k) ==> s.topology.space_labels[k]
            != label@) ==> s.selected_space(Some(Selector::Label(label))) is Failed,
        s.tiling.last_active_space == Some(sid) ==> s.selected_space(Some(Selector::Recent))
            == Resolved::Found(sid),
        s.tiling.last_active_space is None ==> s.selected_space(Some(Selector::Recent)) is Failed,
        s.topology.cursor_display == Some(did) && s.topology.display_active_space.dom().contains(
            did,
        ) ==> s.selected_space(Some(Selector::Mouse)) == Resolved::Found(
            s.topology.display_active_space[did],
        ),
        s.topology.cursor_display is None ==> s.selected_space(Some(Selector::Mouse)) is Failed,
        s.tiling.active_space == Some(sid) ==> s.selected_space(None) == Resolved::Found(sid),
        s.tiling.active_space is None ==> s.selected_space(None) == Resolved::<u64>::Failed(
            "no active space"@,
        ),
        s.selected_space(Some(Selector::First)) is Failed,
        s.selected_space(Some(Selector::Last)) is Failed,
        s.selected_space(Some(Selector::Next)) is Failed,
        s.selected_space(Some(Selector::Prev)) is Failed,
{
    if s.topology.space_labels.dom().contains(sid) && s.topology.space_labels[sid] == label@ {
        assert(labels::owns(s.topology.space_labels, sid, label@));
    }
}

/// What the selectors of displays name: a number the display at that place of the
/// arrangement, counted from one, a label the display that has it, `mouse` the one
/// under the cursor; and no selector the display of the active space.
pub proof fn law_display_selectors(s: State, n: u32, did: u32, sid: u64, label: String)
    ensures
        ({
            let arranged = topology::arrangement(
                s.topology.displays,
                s.config.display_arrangement_order,
            );
            &&& 1 <= n <= arranged.len() ==> s.selected_display(Some(Selector::Index(n)))
                == Resolved::Found(arranged[n - 1])
            &&& n == 0 || n > arranged.len() ==> s.selected_display(Some(Selector::Index(n))) is Failed
        }),
        s.topology.display_labels.dom().contains(did) && s.topology.display_labels[did] == label@
            && labels::unique(s.topology.display_labels) ==> s.selected_display(
            Some(Selector::Label(label)),
        ) == Resolved::Found(did),
        (forall|k: u32| s.topology.display_labels.dom().contains(k) ==> s.topology.display_labels[k]
            != label@) ==> s.selected_display(Some(Selector::Label(label))) is Failed,
        s.topology.cursor_display == Some(did) ==> s.selected_display(Some(Selector::Mouse))
            == Resolved::Found(did),
        s.topology.cursor_display is None ==> s.selected_display(Some(Selector::Mouse)) is Failed,
        s.tiling.active_space == Some(sid) && s.topology.space_displays.dom().contains(sid)
            ==> s.selected_display(None) == Resolved::Found(s.topology.space_displays[sid]),
        s.tiling.active_space is None ==> s.selected_display(None) is Failed,
{
    if s.topology.display_labels.dom().contains(did) && s.topology.display_labels[did] == label@ {
        assert(labels::owns(s.topology.display_labels, did, label@));
    }
}

/// Looking a selector up gives what it names, or the complaint.
pub proof fn law_lookups(
    state: &AppState,
    selector: &Selector,
    w: u32,
    sid: u64,
    did: u32,
    e: Seq<char>,
    window: Result<u32, String>,
    space: Result<u64, String>,
    display: Result<u32, String>,
)
    requires
        call_ensures(AppState::resolve_window, (state, selector), window),
        call_ensures(AppState::resolve_space, (state, Some(selector)), space),
        call_ensures(AppState::resolve_display, (state, Some(selector)), display),
    ensures
        state@.selected_window(*selector) == Resolved::Found(w) ==> window == Ok::<u32, String>(w),
        state@.selected_window(*selector) == Resolved::<u32>::Failed(e) ==> window is Err
            && window->Err_0@ == e,
        state@.selected_space(Some(*selector)) == Resolved::Found(sid) ==> space == Ok::<
            u64,
            String,
        >(sid),
        state@.selected_space(Some(*selector)) == Resolved::<u64>::Failed(e) ==> space is Err
            && space->Err_0@ == e,
        state@.selected_display(Some(*selector)) == Resolved::Found(did) ==> display == Ok::<
            u32,
            String,
        >(did),
        state@.selected_display(Some(*selector)) == Resolved::<u32>::Failed(e) ==> display is Err
            && display->Err_0@ == e,
{
}

/// Without a selector the window is the one with the focus, and the space and the
/// display are the active ones.
pub proof fn law_lookups_without_a_selector(
    state: &AppState,
    window: Result<u32, String>,
    space: Result<u64, String>,
    display: Result<u32, String>,
    w: u32,
    sid: u64,
    did: u32,
)
    requires
        call_ensures(AppState::resolve_window_selector, (state, None::<&Selector>), window),
        call_ensures(AppState::resolve_space, (state, None::<&Selector>), space),
        call_ensures(AppState::resolve_display, (state, None::<&Selector>), display),
    ensures
        state@.tiling.focused_window == Some(w) ==> window == Ok::<u32, String>(w),
        state@.tiling.focused_window is None ==> window is Err && window->Err_0@
            == "no focused window"@,
        state@.tiling.active_space == Some(sid) ==> space == Ok::<u64, String>(sid),
        state@.tiling.active_space is None ==> space is Err,
        state@.tiling.active_space == Some(sid) && state@.topology.space_displays.dom().contains(
            sid,
        ) && state@.topology.space_displays[sid] == did ==> display == Ok::<u32, String>(did),
{
}

} // verus!
