//! Queries: displays, spaces and windows as JSON text.
use vstd::prelude::*;

use crate::idmap;
use crate::idmap::Id;
use crate::layout;
use crate::layout::Placement;
use crate::selectors;
use crate::state::{AppState, State, WindowFrame};
use crate::text;
use crate::tiling;
use crate::types;
use crate::types::{Area, NodeSplit, Selector, ViewType, ZoomKind};

verus! {

/// What a query lists.
#[derive(Debug, Clone, Copy, PartialEq, Eq, Structural)]
pub enum QueryTarget {
    Displays,
    Spaces,
    Windows,
}

/// What a query is narrowed to.
#[derive(Debug, Clone, Copy, PartialEq, Eq, Structural)]
pub enum QueryScopeKind {
    Display,
    Space,
    Window,
}

/// A `query` command.
#[derive(Debug)]
pub struct QueryCommand {
    pub target: QueryTarget,
    pub properties: Vec<String>,
    pub scope: Option<(QueryScopeKind, Option<Selector>)>,
}

/// The properties of a display.
pub open spec fn display_property_names() -> Seq<Seq<char>> {
    seq!["id"@, "label"@, "index"@, "frame"@, "spaces"@, "has-focus"@]
}

/// The properties of a space.
pub open spec fn space_property_names() -> Seq<Seq<char>> {
    seq![
        "id"@,
        "label"@,
        "type"@,
        "windows"@,
        "first-window"@,
        "last-window"@,
        "has-focus"@,
        "is-visible"@,
        "display"@,
    ]
}

/// The properties of a window that are listed unless others are asked for.
pub open spec fn window_property_names() -> Seq<Seq<char>> {
    seq![
        "id"@,
        "pid"@,
        "app"@,
        "title"@,
        "scratchpad"@,
        "frame"@,
        "has-focus"@,
        "space"@,
        "display"@,
        "is-visible"@,
        "split-type"@,
        "split-child"@,
        "stack-index"@,
        "has-shadow"@,
        "has-fullscreen-zoom"@,
        "has-parent-zoom"@,
    ]
}

/// The properties of a window that are listed only on demand; those read from
/// the window system need some such reading to be there.
pub open spec fn window_extra_names(live: bool) -> Seq<Seq<char>> {
    if live {
        seq![
            "is-floating"@,
            "is-sticky"@,
            "opacity"@,
            "role"@,
            "subrole"@,
            "can-move"@,
            "can-resize"@,
        ]
    } else {
        seq!["is-floating"@, "is-sticky"@]
    }
}

/// The texts of string slices.
pub open spec fn slice_texts(names: Seq<&'static str>) -> Seq<Seq<char>> {
    names.map_values(|s: &'static str| s@)
}

fn display_properties() -> (r: Vec<&'static str>)
    ensures
        slice_texts(r@) == display_property_names(),
{
    let r = vec!["id", "label", "index", "frame", "spaces", "has-focus"];
    assert(slice_texts(r@) =~= display_property_names());
    r
}

fn space_properties() -> (r: Vec<&'static str>)
    ensures
        slice_texts(r@) == space_property_names(),
{
    let r = vec![
        "id",
        "label",
        "type",
        "windows",
        "first-window",
        "last-window",
        "has-focus",
        "is-visible",
        "display",
    ];
    assert(slice_texts(r@) =~= space_property_names());
    r
}

fn window_properties() -> (r: Vec<&'static str>)
    ensures
        slice_texts(r@) == window_property_names(),
{
    let r = vec![
        "id",
        "pid",
        "app",
        "title",
        "scratchpad",
        "frame",
        "has-focus",
        "space",
        "display",
        "is-visible",
        "split-type",
        "split-child",
        "stack-index",
        "has-shadow",
        "has-fullscreen-zoom",
        "has-parent-zoom",
    ];
    assert(slice_texts(r@) =~= window_property_names());
    r
}

fn window_extras(live: bool) -> (r: Vec<&'static str>)
    ensures
        slice_texts(r@) == window_extra_names(live),
{
    let r = if live {
        vec!["is-floating", "is-sticky", "opacity", "role", "subrole", "can-move", "can-resize"]
    } else {
        vec!["is-floating", "is-sticky"]
    };
    assert(slice_texts(r@) =~= window_extra_names(live));
    r
}

/// The first of the names that is not among the known ones.
pub open spec fn first_unknown(names: Seq<Seq<char>>, known: Seq<Seq<char>>) -> Option<Seq<char>>
    decreases names.len(),
{
    if names.len() == 0 {
        None
    } else {
        match first_unknown(names.drop_last(), known) {
            Some(name) => Some(name),
            None => if known.contains(names.last()) {
                None
            } else {
                Some(names.last())
            },
        }
    }
}

/// The properties to list: those asked for, or else the default ones. One that
/// is neither a default nor an extra one is a mistake.
pub open spec fn chosen_properties(
    requested: Seq<Seq<char>>,
    defaults: Seq<Seq<char>>,
    extras: Seq<Seq<char>>,
    entity: Seq<char>,
) -> selectors::Resolved<Seq<Seq<char>>> {
    if requested.len() == 0 {
        selectors::Resolved::Found(defaults)
    } else {
        match first_unknown(requested, defaults + extras) {
            Some(name) => selectors::Resolved::Failed(
                "'"@ + name + "' is not available from pure "@ + entity + " state"@,
            ),
            None => selectors::Resolved::Found(requested),
        }
    }
}

fn is_listed(names: &Vec<&'static str>, name: &str) -> (r: bool)
    ensures
        r == slice_texts(names@).contains(name@),
{
    let ghost all = slice_texts(names@);
    let mut i: usize = 0;
    while i < names.len()
        invariant
            i <= names@.len(),
            all == slice_texts(names@),
            forall|j: int| 0 <= j < i ==> all[j] != name@,
        decreases names.len() - i,
    {
        if text::same(names[i], name) {
            assert(all[i as int] == name@);
            return true;
        }
        i += 1;
    }
    false
}

/// The properties to list of an entity.
pub fn query_properties(
    requested: &Vec<String>,
    default_properties: &Vec<&'static str>,
    extra_properties: &Vec<&'static str>,
    entity: &str,
) -> (r: Result<Vec<String>, String>)
    ensures
        match chosen_properties(
            text::texts(requested@),
            slice_texts(default_properties@),
            slice_texts(extra_properties@),
            entity@,
        ) {
            selectors::Resolved::Found(names) => r is Ok && text::texts(r->Ok_0@) == names,
            selectors::Resolved::Failed(e) => r is Err && r->Err_0@ == e,
        },
{
    let mut out: Vec<String> = Vec::new();
    let mut i: usize = 0;
    if requested.len() == 0 {
        while i < default_properties.len()
            invariant
                i <= default_properties@.len(),
                text::texts(out@) == slice_texts(default_properties@).take(i as int),
            decreases default_properties.len() - i,
        {
            let ghost before = out@;
            out.push(default_properties[i].to_owned());
            proof {
                assert(out@.drop_last() =~= before);
                text::lemma_grown(out@, slice_texts(default_properties@), i as int);
            }
            i += 1;
        }
        assert(text::texts(out@) =~= slice_texts(default_properties@));
        return Ok(out);
    }
    let ghost wanted = text::texts(requested@);
    let ghost known = slice_texts(default_properties@) + slice_texts(extra_properties@);
    while i < requested.len()
        invariant
            i <= requested@.len(),
            wanted == text::texts(requested@),
            known == slice_texts(default_properties@) + slice_texts(extra_properties@),
            text::texts(out@) == wanted.take(i as int),
            first_unknown(wanted.take(i as int), known) is None,
        decreases requested.len() - i,
    {
        let name = requested[i].as_str();
        let listed = is_listed(default_properties, name);
        let extra = is_listed(extra_properties, name);
        proof {
            assert(wanted.take(i + 1).drop_last() =~= wanted.take(i as int));
            assert(wanted.take(i + 1).last() == name@);
            let a = slice_texts(default_properties@);
            let b = slice_texts(extra_properties@);
            assert(known.contains(name@) == (a.contains(name@) || b.contains(name@))) by {
                if a.contains(name@) {
                    let k = choose|k: int| 0 <= k < a.len() && a[k] == name@;
                    assert(known[k] == name@);
                }
                if b.contains(name@) {
                    let k = choose|k: int| 0 <= k < b.len() && b[k] == name@;
                    assert(known[a.len() + k] == name@);
                }
            }
        }
        if !listed && !extra {
            proof {
                lemma_unknown_stays(wanted, known, i + 1);
            }
            let mut out = "'".to_owned();
            out.append(name);
            out.append("' is not available from pure ");
            out.append(entity);
            out.append(" state");
            return Err(out);
        }
        let ghost before = out@;
        out.push(requested[i].clone());
        proof {
            assert(out@.drop_last() =~= before);
            text::lemma_grown(out@, wanted, i as int);
        }
        i += 1;
    }
    assert(wanted.take(wanted.len() as int) =~= wanted);
    Ok(out)
}

/// A mistake found among the first names is found among all of them.
proof fn lemma_unknown_stays(names: Seq<Seq<char>>, known: Seq<Seq<char>>, k: int)
    requires
        0 <= k <= names.len(),
        first_unknown(names.take(k), known) is Some,
    ensures
        first_unknown(names, known) == first_unknown(names.take(k), known),
    decreases names.len() - k,
{
    if k == names.len() {
        assert(names.take(k) =~= names);
    } else {
        assert(names.take(k + 1).drop_last() =~= names.take(k));
        lemma_unknown_stays(names, known, k + 1);
    }
}

/// A JSON text.
pub open spec fn quoted(value: Seq<char>) -> Seq<char> {
    "\""@ + text::json_escaped(value) + "\""@
}

fn quoted_string(value: &str) -> (r: String)
    ensures
        r@ == quoted(value@),
{
    let mut out = "\"".to_owned();
    out.append(text::json_escape(value).as_str());
    out.append("\"");
    out
}

/// An area as a JSON object.
pub open spec fn area_text(area: Area) -> Seq<char> {
    "{\n\t\t\"x\":"@ + area.x.text@ + ",\n\t\t\"y\":"@ + area.y.text@ + ",\n\t\t\"w\":"@
        + area.w.text@ + ",\n\t\t\"h\":"@ + area.h.text@ + "\n\t}"@
}

/// An area as a JSON object.
pub fn format_area(area: &Area) -> (r: String)
    ensures
        r@ == area_text(*area),
{
    let mut out = "{\n\t\t\"x\":".to_owned();
    out.append(area.x.text.as_str());
    out.append(",\n\t\t\"y\":");
    out.append(area.y.text.as_str());
    out.append(",\n\t\t\"w\":");
    out.append(area.w.text.as_str());
    out.append(",\n\t\t\"h\":");
    out.append(area.h.text.as_str());
    out.append("\n\t}");
    out
}

/// A JSON list of numbers.
pub open spec fn bracketed(list: Seq<char>) -> Seq<char> {
    "["@ + list + "]"@
}

fn bracketed_string(list: String) -> (r: String)
    ensures
        r@ == bracketed(list@),
{
    let mut out = "[".to_owned();
    out.append(list.as_str());
    out.append("]");
    out
}

/// One member of a JSON object.
pub open spec fn field_text(name: Seq<char>, value: Seq<char>) -> Seq<char> {
    "\t\""@ + name + "\":"@ + value
}

fn field_string(name: &str, value: String) -> (r: String)
    ensures
        r@ == field_text(name@, value@),
{
    let mut out = "\t\"".to_owned();
    out.append(name);
    out.append("\":");
    out.append(value.as_str());
    out
}

/// A JSON object with the members named.
pub open spec fn object_text(
    names: Seq<Seq<char>>,
    value: spec_fn(Seq<char>) -> Seq<char>,
) -> Seq<char> {
    "{\n"@ + text::joined(names.map_values(|n: Seq<char>| field_text(n, value(n))), ",\n"@)
        + "\n}"@
}

fn object_string(fields: &Vec<String>) -> (r: String)
    ensures
        r@ == "{\n"@ + text::joined(text::texts(fields@), ",\n"@) + "\n}"@,
{
    let mut out = "{\n".to_owned();
    text::push_joined(&mut out, fields, ",\n");
    out.append("\n}");
    out
}

/// A JSON array of objects.
pub open spec fn array_text(objects: Seq<Seq<char>>) -> Seq<char> {
    "["@ + text::joined(objects, ","@) + "]\n"@
}

fn array_string(objects: &Vec<String>) -> (r: String)
    ensures
        r@ == array_text(text::texts(objects@)),
{
    let mut out = "[".to_owned();
    text::push_joined(&mut out, objects, ",");
    out.append("]\n");
    out
}

/// A number, or zero.
pub open spec fn or_zero(n: Option<int>) -> nat {
    match n {
        Some(i) => i as nat,
        None => 0,
    }
}

/// The text that a map holds for a key, or an empty one.
pub open spec fn entry_or_empty<K>(m: Map<K, Seq<char>>, key: K) -> Seq<char> {
    if m.dom().contains(key) {
        m[key]
    } else {
        ""@
    }
}

/// How a split above a window is listed.
pub open spec fn split_text(split: Option<(NodeSplit, bool)>) -> Seq<char> {
    match split {
        Some((split, _)) => types::split_type_text(split),
        None => "none"@,
    }
}

/// Which child of the split above it a window is, as listed.
pub open spec fn child_text(split: Option<(NodeSplit, bool)>) -> Seq<char> {
    match split {
        Some((_, true)) => "first_child"@,
        Some((_, false)) => "second_child"@,
        None => "none"@,
    }
}

/// The `split-type` and `split-child` of a window.
pub fn window_split_info(split: Option<(NodeSplit, bool)>) -> (r: (&'static str, &'static str))
    ensures
        r.0@ == split_text(split),
        r.1@ == child_text(split),
{
    match split {
        Some((split, true)) => (types::split_type_str(split), "first_child"),
        Some((split, false)) => (types::split_type_str(split), "second_child"),
        None => ("none", "none"),
    }
}

impl State {
    /// The one-based place of a display in the arrangement, or zero.
    pub open spec fn display_place(self, display: Option<u32>) -> nat {
        match display {
            Some(did) => or_zero(
                self.topology.display_index(did, self.config.display_arrangement_order),
            ),
            None => 0,
        }
    }

    /// A property of a display.
    pub open spec fn display_value(self, did: u32, name: Seq<char>) -> Seq<char> {
        if name == "id"@ {
            text::decimal(did as nat)
        } else if name == "label"@ {
            quoted(entry_or_empty(self.topology.display_labels, did))
        } else if name == "index"@ {
            text::decimal(self.display_place(Some(did)))
        } else if name == "frame"@ {
            area_text(self.topology.displays[did].frame)
        } else if name == "spaces"@ {
            bracketed(
                text::joined(
                    text::wide_id_numerals(idmap::ids_of(self.topology.spaces_on(did))),
                    ", "@,
                ),
            )
        } else if name == "has-focus"@ {
            text::json_bool_text(self.active_display() == Some(did))
        } else {
            Seq::empty()
        }
    }

    /// A property of a space.
    pub open spec fn space_value(self, sid: u64, name: Seq<char>) -> Seq<char> {
        let windows = self.tiling.spaces[sid].windows;
        if name == "id"@ {
            text::decimal(sid as nat)
        } else if name == "label"@ {
            quoted(entry_or_empty(self.topology.space_labels, sid))
        } else if name == "type"@ {
            quoted_plain(types::view_type_text(self.tiling.spaces[sid].layout))
        } else if name == "windows"@ {
            bracketed(text::joined(text::id_numerals(windows), ", "@))
        } else if name == "first-window"@ {
            text::decimal(
                if windows.len() > 0 {
                    windows[0] as nat
                } else {
                    0
                },
            )
        } else if name == "last-window"@ {
            text::decimal(
                if windows.len() > 0 {
                    windows.last() as nat
                } else {
                    0
                },
            )
        } else if name == "has-focus"@ {
            text::json_bool_text(self.tiling.active_space == Some(sid))
        } else if name == "is-visible"@ {
            text::json_bool_text(self.topology.is_visible(sid, self.tiling.active_space))
        } else if name == "display"@ {
            text::decimal(self.display_place(self.topology.display_of(sid)))
        } else {
            Seq::empty()
        }
    }

    /// A property that says what a window is.
    pub open spec fn identity_value(self, w: u32, area: Area, name: Seq<char>) -> Seq<char> {
        let known = self.meta.dom().contains(w);
        if name == "id"@ {
            text::decimal(w as nat)
        } else if name == "pid"@ {
            text::signed_decimal(
                if known {
                    self.meta[w].pid as int
                } else {
                    0
                },
            )
        } else if name == "app"@ {
            quoted(
                if known {
                    self.meta[w].app@
                } else {
                    ""@
                },
            )
        } else if name == "title"@ {
            quoted(
                if known {
                    self.meta[w].title@
                } else {
                    ""@
                },
            )
        } else if name == "scratchpad"@ {
            quoted(entry_or_empty(self.scratchpads, w))
        } else if name == "frame"@ {
            area_text(area)
        } else {
            self.place_value(w, name)
        }
    }

    /// A property that says where a window is.
    pub open spec fn place_value(self, w: u32, name: Seq<char>) -> Seq<char> {
        let space = self.tiling.space_of(w);
        if name == "has-focus"@ {
            text::json_bool_text(self.tiling.focused_window == Some(w))
        } else if name == "space"@ {
            text::decimal(
                match space {
                    Some(sid) => sid as nat,
                    None => 0,
                },
            )
        } else if name == "display"@ {
            text::decimal(
                match space {
                    Some(sid) => self.display_place(self.topology.display_of(sid)),
                    None => 0,
                },
            )
        } else if name == "is-visible"@ {
            text::json_bool_text(
                match space {
                    Some(sid) => self.topology.is_visible(sid, self.tiling.active_space),
                    None => false,
                },
            )
        } else {
            self.layout_value(w, name)
        }
    }

    /// A property that says how a window is laid out.
    pub open spec fn layout_value(self, w: u32, name: Seq<char>) -> Seq<char> {
        if name == "split-type"@ {
            quoted_plain(split_text(self.split_of(w)))
        } else if name == "split-child"@ {
            quoted_plain(child_text(self.split_of(w)))
        } else if name == "stack-index"@ {
            text::decimal(self.stack_index(w))
        } else if name == "has-shadow"@ {
            text::json_bool_text(!self.shadow_disabled.contains(w))
        } else if name == "has-fullscreen-zoom"@ {
            text::json_bool_text(self.zoom_of(w) == Some(ZoomKind::Fullscreen))
        } else if name == "has-parent-zoom"@ {
            text::json_bool_text(self.zoom_of(w) == Some(ZoomKind::Parent))
        } else if name == "is-floating"@ {
            text::json_bool_text(self.tiling.floating.contains(w))
        } else if name == "is-sticky"@ {
            text::json_bool_text(self.tiling.sticky.contains(w))
        } else {
            self.live_value(w, name)
        }
    }

    /// A property that is read from the window system.
    pub open spec fn live_value(self, w: u32, name: Seq<char>) -> Seq<char> {
        let known = self.live.dom().contains(w);
        if name == "opacity"@ {
            if known {
                self.live[w].opacity.text@
            } else {
                "0.0000"@
            }
        } else if name == "role"@ {
            quoted(
                if known {
                    self.live[w].role@
                } else {
                    ""@
                },
            )
        } else if name == "subrole"@ {
            quoted(
                if known {
                    self.live[w].subrole@
                } else {
                    ""@
                },
            )
        } else if name == "can-move"@ {
            text::json_bool_text(known && self.live[w].can_move)
        } else if name == "can-resize"@ {
            text::json_bool_text(known && self.live[w].can_resize)
        } else {
            Seq::empty()
        }
    }

    /// A display as a JSON object.
    pub open spec fn display_object(self, did: u32, names: Seq<Seq<char>>) -> Seq<char> {
        object_text(names, |n: Seq<char>| self.display_value(did, n))
    }

    /// A space as a JSON object.
    pub open spec fn space_object(self, sid: u64, names: Seq<Seq<char>>) -> Seq<char> {
        object_text(names, |n: Seq<char>| self.space_value(sid, n))
    }

    /// A window as a JSON object.
    pub open spec fn window_object(self, w: u32, area: Area, names: Seq<Seq<char>>) -> Seq<char> {
        object_text(names, |n: Seq<char>| self.identity_value(w, area, n))
    }

    /// The display that a query for one display is about.
    pub open spec fn queried_display(
        self,
        kind: QueryScopeKind,
        selector: Option<Selector>,
    ) -> selectors::Resolved<u32> {
        let missing = "could not retrieve display details."@;
        match kind {
            QueryScopeKind::Display => self.selected_display(selector),
            QueryScopeKind::Space => match self.selected_space(selector) {
                selectors::Resolved::Failed(e) => selectors::Resolved::Failed(e),
                selectors::Resolved::Found(sid) => selectors::or_fail(
                    self.topology.display_of(sid),
                    missing,
                ),
            },
            QueryScopeKind::Window => match self.acting_window(selector) {
                selectors::Resolved::Failed(e) => selectors::Resolved::Failed(e),
                selectors::Resolved::Found(w) => match self.tiling.space_of(w) {
                    None => selectors::Resolved::Failed(missing),
                    Some(sid) => selectors::or_fail(self.topology.display_of(sid), missing),
                },
            },
        }
    }

    /// What `query --displays` answers.
    pub open spec fn displays_answer(self, cmd: QueryCommand) -> selectors::Resolved<Seq<char>> {
        match chosen_properties(
            text::texts(cmd.properties@),
            display_property_names(),
            Seq::empty(),
            "display"@,
        ) {
            selectors::Resolved::Failed(e) => selectors::Resolved::Failed(e),
            selectors::Resolved::Found(names) => match cmd.scope {
                None => {
                    let ids = crate::topology::arrangement(
                        self.topology.displays,
                        self.config.display_arrangement_order,
                    );
                    selectors::Resolved::Found(
                        array_text(ids.map_values(|did: u32| self.display_object(did, names))),
                    )
                },
                Some((kind, selector)) => match self.queried_display(kind, selector) {
                    selectors::Resolved::Failed(e) => selectors::Resolved::Failed(e),
                    selectors::Resolved::Found(did) => if self.topology.displays.dom().contains(
                        did,
                    ) {
                        selectors::Resolved::Found(self.display_object(did, names) + "\n"@)
                    } else {
                        selectors::Resolved::Failed("could not retrieve display details."@)
                    },
                },
            },
        }
    }

    /// What `query --spaces` answers.
    pub open spec fn spaces_answer(self, cmd: QueryCommand) -> selectors::Resolved<Seq<char>> {
        match chosen_properties(
            text::texts(cmd.properties@),
            space_property_names(),
            Seq::empty(),
            "space"@,
        ) {
            selectors::Resolved::Failed(e) => selectors::Resolved::Failed(e),
            selectors::Resolved::Found(names) => match cmd.scope {
                None => selectors::Resolved::Found(
                    array_text(
                        idmap::ids_of(self.tiling.spaces.dom()).map_values(
                            |sid: u64| self.space_object(sid, names),
                        ),
                    ),
                ),
                Some((QueryScopeKind::Space, selector)) => match self.selected_space(selector) {
                    selectors::Resolved::Failed(e) => selectors::Resolved::Failed(e),
                    selectors::Resolved::Found(sid) => if self.tiling.spaces.dom().contains(sid) {
                        selectors::Resolved::Found(self.space_object(sid, names) + "\n"@)
                    } else {
                        selectors::Resolved::Failed("could not retrieve space details."@)
                    },
                },
                Some((QueryScopeKind::Display, selector)) => match self.selected_display(
                    selector,
                ) {
                    selectors::Resolved::Failed(e) => selectors::Resolved::Failed(e),
                    selectors::Resolved::Found(did) => {
                        let ids = idmap::ids_of(self.topology.spaces_on(did));
                        if forall|i: int|
                            0 <= i < ids.len() ==> self.tiling.spaces.dom().contains(
                                #[trigger] ids[i],
                            ) {
                            selectors::Resolved::Found(
                                array_text(
                                    ids.map_values(|sid: u64| self.space_object(sid, names)),
                                ),
                            )
                        } else {
                            selectors::Resolved::Failed(
                                "could not retrieve spaces for display."@,
                            )
                        }
                    },
                },
                Some((QueryScopeKind::Window, _)) => selectors::Resolved::Failed(
                    "query --spaces --window needs live window state"@,
                ),
            },
        }
    }

    /// The placements on the first `k` of the listed spaces.
    pub open spec fn placements_on(self, ids: Seq<u64>, k: int) -> Seq<Placement>
        decreases k,
    {
        if k <= 0 {
            Seq::empty()
        } else {
            let earlier = self.placements_on(ids, k - 1);
            match self.frames_of(ids[k - 1]) {
                Some(frames) => earlier + layout::placements(frames),
                None => earlier,
            }
        }
    }

    /// Windows as a JSON array.
    pub open spec fn windows_array(self, placed: Seq<Placement>, names: Seq<Seq<char>>) -> Seq<
        char,
    > {
        array_text(
            placed.map_values(|p: Placement| self.window_object(p.window_id, p.area, names)),
        )
    }

    /// What `query --windows` answers.
    pub open spec fn windows_answer(self, cmd: QueryCommand) -> selectors::Resolved<Seq<char>> {
        match chosen_properties(
            text::texts(cmd.properties@),
            window_property_names(),
            window_extra_names(self.live.dom() != Set::<u32>::empty()),
            "window"@,
        ) {
            selectors::Resolved::Failed(e) => selectors::Resolved::Failed(e),
            selectors::Resolved::Found(names) => match cmd.scope {
                None => {
                    let ids = idmap::ids_of(self.tiling.spaces.dom());
                    selectors::Resolved::Found(
                        self.windows_array(self.placements_on(ids, ids.len() as int), names),
                    )
                },
                Some((QueryScopeKind::Window, selector)) => match self.acting_window(selector) {
                    selectors::Resolved::Failed(e) => selectors::Resolved::Failed(e),
                    selectors::Resolved::Found(w) => match self.frame_of(w) {
                        Some(frame) => selectors::Resolved::Found(
                            self.window_object(w, frame.area, names) + "\n"@,
                        ),
                        None => selectors::Resolved::Failed(
                            "could not retrieve window details."@,
                        ),
                    },
                },
                Some((QueryScopeKind::Space, selector)) => match self.selected_space(selector) {
                    selectors::Resolved::Failed(e) => selectors::Resolved::Failed(e),
                    selectors::Resolved::Found(sid) => match self.frames_of(sid) {
                        Some(frames) => selectors::Resolved::Found(
                            self.windows_array(layout::placements(frames), names),
                        ),
                        None => selectors::Resolved::Failed(
                            "could not retrieve windows for space."@,
                        ),
                    },
                },
                Some((QueryScopeKind::Display, selector)) => match self.selected_display(
                    selector,
                ) {
                    selectors::Resolved::Failed(e) => selectors::Resolved::Failed(e),
                    selectors::Resolved::Found(did) => {
                        let ids = idmap::ids_of(self.topology.spaces_on(did));
                        selectors::Resolved::Found(
                            self.windows_array(self.placements_on(ids, ids.len() as int), names),
                        )
                    },
                },
            },
        }
    }

    /// What a `query` command answers.
    pub open spec fn answer(self, cmd: QueryCommand) -> selectors::Resolved<Seq<char>> {
        match cmd.target {
            QueryTarget::Displays => self.displays_answer(cmd),
            QueryTarget::Spaces => self.spaces_answer(cmd),
            QueryTarget::Windows => self.windows_answer(cmd),
        }
    }
}

/// A JSON text that needs no escapes.
pub open spec fn quoted_plain(value: Seq<char>) -> Seq<char> {
    "\""@ + value + "\""@
}

fn quoted_word(value: &str) -> (r: String)
    ensures
        r@ == quoted_plain(value@),
{
    let mut out = "\"".to_owned();
    out.append(value);
    out.append("\"");
    out
}

fn bool_string(value: bool) -> (r: String)
    ensures
        r@ == text::json_bool_text(value),
{
    text::json_bool(value).to_owned()
}

/// Whether a result is the answer.
pub open spec fn answered(r: Result<String, String>, answer: selectors::Resolved<Seq<char>>) -> bool {
    match answer {
        selectors::Resolved::Found(output) => r is Ok && r->Ok_0@ == output,
        selectors::Resolved::Failed(e) => r is Err && r->Err_0@ == e,
    }
}

fn line(object: String) -> (r: String)
    ensures
        r@ == object@ + "\n"@,
{
    let mut out = object;
    out.append("\n");
    out
}

impl AppState {
    fn place_of_display(&self, display: Option<u32>) -> (r: u64)
        requires
            self.wf(),
        ensures
            r == self@.display_place(display),
    {
        match display {
            Some(did) => match self.display_index(did) {
                Some(i) => i as u64,
                None => 0,
            },
            None => 0,
        }
    }

    fn display_field(&self, did: u32, name: &str) -> (r: String)
        requires
            self.wf(),
            self@.topology.displays.dom().contains(did),
        ensures
            r@ == self@.display_value(did, name@),
    {
        if text::same(name, "id") {
            text::decimal_string(did as u64)
        } else if text::same(name, "label") {
            match self.display_label(did) {
                Some(label) => quoted_string(label.as_str()),
                None => quoted_string(""),
            }
        } else if text::same(name, "index") {
            text::decimal_string(self.place_of_display(Some(did)))
        } else if text::same(name, "frame") {
            match self.display(did) {
                Some(info) => format_area(&info.frame),
                None => String::new(),
            }
        } else if text::same(name, "spaces") {
            bracketed_string(text::join_u64s(&self.space_ids_for_display(did)))
        } else if text::same(name, "has-focus") {
            bool_string(
                match self.active_display() {
                    Some(active) => active == did,
                    None => false,
                },
            )
        } else {
            String::new()
        }
    }

    /// A display as a JSON object.
    pub fn serialize_display(&self, did: u32, properties: &Vec<String>) -> (r: String)
        requires
            self.wf(),
            self@.topology.displays.dom().contains(did),
        ensures
            r@ == self@.display_object(did, text::texts(properties@)),
    {
        let ghost names = text::texts(properties@);
        let ghost value = |n: Seq<char>| self@.display_value(did, n);
        let ghost all = names.map_values(|n: Seq<char>| field_text(n, value(n)));
        let mut fields: Vec<String> = Vec::new();
        let mut i: usize = 0;
        while i < properties.len()
            invariant
                self.wf(),
                self@.topology.displays.dom().contains(did),
                i <= properties@.len(),
                names == text::texts(properties@),
                value == (|n: Seq<char>| self@.display_value(did, n)),
                all == names.map_values(|n: Seq<char>| field_text(n, value(n))),
                text::texts(fields@) == all.take(i as int),
            decreases properties.len() - i,
        {
            let name = properties[i].as_str();
            let ghost before = fields@;
            fields.push(field_string(name, self.display_field(did, name)));
            proof {
                assert(fields@.drop_last() =~= before);
                text::lemma_grown(fields@, all, i as int);
            }
            i += 1;
        }
        assert(all.take(all.len() as int) =~= all);
        object_string(&fields)
    }

    fn space_field(&self, sid: u64, name: &str) -> (r: String)
        requires
            self.wf(),
            self@.tiling.spaces.dom().contains(sid),
        ensures
            r@ == self@.space_value(sid, name@),
    {
        let record = match self.space(sid) {
            Some(record) => record,
            None => {
                return String::new();
            },
        };
        if text::same(name, "id") {
            text::decimal_string(sid)
        } else if text::same(name, "label") {
            match self.space_label(sid) {
                Some(label) => quoted_string(label.as_str()),
                None => quoted_string(""),
            }
        } else if text::same(name, "type") {
            quoted_word(types::view_type_str(record.layout))
        } else if text::same(name, "windows") {
            bracketed_string(text::join_ids(&record.windows))
        } else if text::same(name, "first-window") {
            text::decimal_string(
                if record.windows.len() > 0 {
                    record.windows[0] as u64
                } else {
                    0
                },
            )
        } else if text::same(name, "last-window") {
            text::decimal_string(
                if record.windows.len() > 0 {
                    record.windows[record.windows.len() - 1] as u64
                } else {
                    0
                },
            )
        } else if text::same(name, "has-focus") {
            bool_string(
                match self.active_space_id() {
                    Some(active) => active == sid,
                    None => false,
                },
            )
        } else if text::same(name, "is-visible") {
            bool_string(self.is_space_visible(sid))
        } else if text::same(name, "display") {
            text::decimal_string(self.place_of_display(self.space_display(sid)))
        } else {
            String::new()
        }
    }

    /// A space as a JSON object.
    pub fn serialize_space(&self, sid: u64, properties: &Vec<String>) -> (r: String)
        requires
            self.wf(),
            self@.tiling.spaces.dom().contains(sid),
        ensures
            r@ == self@.space_object(sid, text::texts(properties@)),
    {
        let ghost names = text::texts(properties@);
        let ghost value = |n: Seq<char>| self@.space_value(sid, n);
        let ghost all = names.map_values(|n: Seq<char>| field_text(n, value(n)));
        let mut fields: Vec<String> = Vec::new();
        let mut i: usize = 0;
        while i < properties.len()
            invariant
                self.wf(),
                self@.tiling.spaces.dom().contains(sid),
                i <= properties@.len(),
                names == text::texts(properties@),
                value == (|n: Seq<char>| self@.space_value(sid, n)),
                all == names.map_values(|n: Seq<char>| field_text(n, value(n))),
                text::texts(fields@) == all.take(i as int),
            decreases properties.len() - i,
        {
            let name = properties[i].as_str();
            let ghost before = fields@;
            fields.push(field_string(name, self.space_field(sid, name)));
            proof {
                assert(fields@.drop_last() =~= before);
                text::lemma_grown(fields@, all, i as int);
            }
            i += 1;
        }
        assert(all.take(all.len() as int) =~= all);
        object_string(&fields)
    }

    fn identity_field(&self, w: u32, area: &Area, name: &str) -> (r: String)
        requires
            self.wf(),
        ensures
            r@ == self@.identity_value(w, *area, name@),
    {
        if text::same(name, "id") {
            text::decimal_string(w as u64)
        } else if text::same(name, "pid") {
            let pid = match self.window_meta(w) {
                Some(meta) => meta.pid,
                None => 0,
            };
            text::signed_string(pid)
        } else if text::same(name, "app") {
            match self.window_meta(w) {
                Some(meta) => quoted_string(meta.app.as_str()),
                None => quoted_string(""),
            }
        } else if text::same(name, "title") {
            match self.window_meta(w) {
                Some(meta) => quoted_string(meta.title.as_str()),
                None => quoted_string(""),
            }
        } else if text::same(name, "scratchpad") {
            match self.window_scratchpad(w) {
                Some(label) => quoted_string(label),
                None => quoted_string(""),
            }
        } else if text::same(name, "frame") {
            format_area(area)
        } else {
            self.place_field(w, name)
        }
    }

    fn place_field(&self, w: u32, name: &str) -> (r: String)
        requires
            self.wf(),
        ensures
            r@ == self@.place_value(w, name@),
    {
        if text::same(name, "has-focus") {
            bool_string(
                match self.focused_window_id() {
                    Some(focused) => focused == w,
                    None => false,
                },
            )
        } else if text::same(name, "space") {
            text::decimal_string(
                match self.window_space_id(w) {
                    Some(sid) => sid,
                    None => 0,
                },
            )
        } else if text::same(name, "display") {
            text::decimal_string(
                match self.window_space_id(w) {
                    Some(sid) => self.place_of_display(self.space_display(sid)),
                    None => 0,
                },
            )
        } else if text::same(name, "is-visible") {
            bool_string(
                match self.window_space_id(w) {
                    Some(sid) => self.is_space_visible(sid),
                    None => false,
                },
            )
        } else {
            self.layout_field(w, name)
        }
    }

    fn layout_field(&self, w: u32, name: &str) -> (r: String)
        requires
            self.wf(),
        ensures
            r@ == self@.layout_value(w, name@),
    {
        if text::same(name, "split-type") {
            quoted_word(window_split_info(self.window_split(w)).0)
        } else if text::same(name, "split-child") {
            quoted_word(window_split_info(self.window_split(w)).1)
        } else if text::same(name, "stack-index") {
            text::decimal_string(self.window_stack_index(w) as u64)
        } else if text::same(name, "has-shadow") {
            bool_string(self.window_has_shadow(w))
        } else if text::same(name, "has-fullscreen-zoom") {
            bool_string(
                match self.window_zoom(w) {
                    Some(kind) => kind == ZoomKind::Fullscreen,
                    None => false,
                },
            )
        } else if text::same(name, "has-parent-zoom") {
            bool_string(
                match self.window_zoom(w) {
                    Some(kind) => kind == ZoomKind::Parent,
                    None => false,
                },
            )
        } else if text::same(name, "is-floating") {
            bool_string(self.is_floating(w))
        } else if text::same(name, "is-sticky") {
            bool_string(self.is_sticky(w))
        } else {
            self.live_field(w, name)
        }
    }

    fn live_field(&self, w: u32, name: &str) -> (r: String)
        requires
            self.wf(),
        ensures
            r@ == self@.live_value(w, name@),
    {
        let info = self.window_live_info(w);
        if text::same(name, "opacity") {
            match info {
                Some(info) => info.opacity.text.clone(),
                None => "0.0000".to_owned(),
            }
        } else if text::same(name, "role") {
            match info {
                Some(info) => quoted_string(info.role.as_str()),
                None => quoted_string(""),
            }
        } else if text::same(name, "subrole") {
            match info {
                Some(info) => quoted_string(info.subrole.as_str()),
                None => quoted_string(""),
            }
        } else if text::same(name, "can-move") {
            bool_string(
                match info {
                    Some(info) => info.can_move,
                    None => false,
                },
            )
        } else if text::same(name, "can-resize") {
            bool_string(
                match info {
                    Some(info) => info.can_resize,
                    None => false,
                },
            )
        } else {
            String::new()
        }
    }

    /// A window as a JSON object.
    pub fn serialize_window(&self, w: u32, area: &Area, properties: &Vec<String>) -> (r: String)
        requires
            self.wf(),
        ensures
            r@ == self@.window_object(w, *area, text::texts(properties@)),
    {
        let ghost names = text::texts(properties@);
        let ghost value = |n: Seq<char>| self@.identity_value(w, *area, n);
        let ghost all = names.map_values(|n: Seq<char>| field_text(n, value(n)));
        let mut fields: Vec<String> = Vec::new();
        let mut i: usize = 0;
        while i < properties.len()
            invariant
                self.wf(),
                i <= properties@.len(),
                names == text::texts(properties@),
                value == (|n: Seq<char>| self@.identity_value(w, *area, n)),
                all == names.map_values(|n: Seq<char>| field_text(n, value(n))),
                text::texts(fields@) == all.take(i as int),
            decreases properties.len() - i,
        {
            let name = properties[i].as_str();
            let ghost before = fields@;
            fields.push(field_string(name, self.identity_field(w, area, name)));
            proof {
                assert(fields@.drop_last() =~= before);
                text::lemma_grown(fields@, all, i as int);
            }
            i += 1;
        }
        assert(all.take(all.len() as int) =~= all);
        object_string(&fields)
    }

    fn serialize_window_array(&self, placed: &Vec<Placement>, properties: &Vec<String>) -> (r:
        String)
        requires
            self.wf(),
        ensures
            r@ == self@.windows_array(placed@, text::texts(properties@)),
    {
        let ghost names = text::texts(properties@);
        let ghost all = placed@.map_values(
            |p: Placement| self@.window_object(p.window_id, p.area, names),
        );
        let mut objects: Vec<String> = Vec::new();
        let mut i: usize = 0;
        while i < placed.len()
            invariant
                self.wf(),
                i <= placed@.len(),
                names == text::texts(properties@),
                all == placed@.map_values(
                    |p: Placement| self@.window_object(p.window_id, p.area, names),
                ),
                text::texts(objects@) == all.take(i as int),
            decreases placed.len() - i,
        {
            let ghost before = objects@;
            objects.push(self.serialize_window(placed[i].window_id, &placed[i].area, properties));
            proof {
                assert(objects@.drop_last() =~= before);
                text::lemma_grown(objects@, all, i as int);
            }
            i += 1;
        }
        assert(all.take(all.len() as int) =~= all);
        array_string(&objects)
    }

    fn serialize_space_array(&self, ids: &Vec<u64>, properties: &Vec<String>) -> (r: String)
        requires
            self.wf(),
            forall|i: int|
                0 <= i < ids@.len() ==> self@.tiling.spaces.dom().contains(#[trigger] ids@[i]),
        ensures
            r@ == array_text(
                ids@.map_values(|sid: u64| self@.space_object(sid, text::texts(properties@))),
            ),
    {
        let ghost names = text::texts(properties@);
        let ghost all = ids@.map_values(|sid: u64| self@.space_object(sid, names));
        let mut objects: Vec<String> = Vec::new();
        let mut i: usize = 0;
        while i < ids.len()
            invariant
                self.wf(),
                i <= ids@.len(),
                forall|i: int|
                    0 <= i < ids@.len() ==> self@.tiling.spaces.dom().contains(#[trigger] ids@[i]),
                names == text::texts(properties@),
                all == ids@.map_values(|sid: u64| self@.space_object(sid, names)),
                text::texts(objects@) == all.take(i as int),
            decreases ids.len() - i,
        {
            let ghost before = objects@;
            objects.push(self.serialize_space(ids[i], properties));
            proof {
                assert(objects@.drop_last() =~= before);
                text::lemma_grown(objects@, all, i as int);
            }
            i += 1;
        }
        assert(all.take(all.len() as int) =~= all);
        array_string(&objects)
    }

    fn serialize_display_array(&self, properties: &Vec<String>) -> (r: String)
        requires
            self.wf(),
        ensures
            r@ == array_text(
                crate::topology::arrangement(
                    self@.topology.displays,
                    self@.config.display_arrangement_order,
                ).map_values(|did: u32| self@.display_object(did, text::texts(properties@))),
            ),
    {
        let ghost names = text::texts(properties@);
        let ids = self.display_ids();
        let ghost all = ids@.map_values(|did: u32| self@.display_object(did, names));
        let mut objects: Vec<String> = Vec::new();
        let mut i: usize = 0;
        while i < ids.len()
            invariant
                self.wf(),
                i <= ids@.len(),
                forall|i: int|
                    0 <= i < ids@.len() ==> self@.topology.displays.dom().contains(
                        #[trigger] ids@[i],
                    ),
                names == text::texts(properties@),
                all == ids@.map_values(|did: u32| self@.display_object(did, names)),
                text::texts(objects@) == all.take(i as int),
            decreases ids.len() - i,
        {
            let ghost before = objects@;
            objects.push(self.serialize_display(ids[i], properties));
            proof {
                assert(objects@.drop_last() =~= before);
                text::lemma_grown(objects@, all, i as int);
            }
            i += 1;
        }
        assert(all.take(all.len() as int) =~= all);
        array_string(&objects)
    }

    fn resolve_queried_display(&self, kind: QueryScopeKind, selector: &Option<Selector>) -> (r:
        Result<u32, String>)
        requires
            self.wf(),
        ensures
            selectors::is_outcome(r, self@.queried_display(kind, *selector)),
    {
        let space = match kind {
            QueryScopeKind::Display => {
                return self.resolve_display(selector.as_ref());
            },
            QueryScopeKind::Space => match self.resolve_space(selector.as_ref()) {
                Ok(sid) => Some(sid),
                Err(error) => {
                    return Err(error);
                },
            },
            QueryScopeKind::Window => match self.resolve_window_selector(selector.as_ref()) {
                Ok(window_id) => self.window_space_id(window_id),
                Err(error) => {
                    return Err(error);
                },
            },
        };
        let display = match space {
            Some(sid) => self.space_display(sid),
            None => None,
        };
        match display {
            Some(did) => Ok(did),
            None => Err("could not retrieve display details.".to_owned()),
        }
    }

    /// Answer `query --displays`.
    pub fn query_displays(&self, cmd: &QueryCommand) -> (r: Result<String, String>)
        requires
            self.wf(),
        ensures
            answered(r, self@.displays_answer(*cmd)),
    {
        let none: Vec<&'static str> = Vec::new();
        assert(slice_texts(none@) =~= Seq::<Seq<char>>::empty());
        let properties = match query_properties(
            &cmd.properties,
            &display_properties(),
            &none,
            "display",
        ) {
            Ok(properties) => properties,
            Err(error) => {
                return Err(error);
            },
        };
        match &cmd.scope {
            None => Ok(self.serialize_display_array(&properties)),
            Some((kind, selector)) => match self.resolve_queried_display(*kind, selector) {
                Err(error) => Err(error),
                Ok(did) => if self.display(did).is_some() {
                    Ok(line(self.serialize_display(did, &properties)))
                } else {
                    Err("could not retrieve display details.".to_owned())
                },
            },
        }
    }

    fn all_have_layouts(&self, ids: &Vec<u64>) -> (r: bool)
        requires
            self.wf(),
        ensures
            r == (forall|i: int|
                0 <= i < ids@.len() ==> self@.tiling.spaces.dom().contains(#[trigger] ids@[i])),
    {
        let mut i: usize = 0;
        while i < ids.len()
            invariant
                self.wf(),
                i <= ids@.len(),
                forall|j: int|
                    0 <= j < i ==> self@.tiling.spaces.dom().contains(#[trigger] ids@[j]),
            decreases ids.len() - i,
        {
            if self.space(ids[i]).is_none() {
                return false;
            }
            i += 1;
        }
        true
    }

    /// Answer `query --spaces`.
    pub fn query_spaces(&self, cmd: &QueryCommand) -> (r: Result<String, String>)
        requires
            self.wf(),
        ensures
            answered(r, self@.spaces_answer(*cmd)),
    {
        let none: Vec<&'static str> = Vec::new();
        assert(slice_texts(none@) =~= Seq::<Seq<char>>::empty());
        let properties = match query_properties(
            &cmd.properties,
            &space_properties(),
            &none,
            "space",
        ) {
            Ok(properties) => properties,
            Err(error) => {
                return Err(error);
            },
        };
        match &cmd.scope {
            None => {
                let ids = self.space_ids();
                assert forall|i: int| 0 <= i < ids@.len() implies self@.tiling.spaces.dom().contains(
                    #[trigger] ids@[i],
                ) by {
                    assert(ids@.contains(ids@[i]));
                }
                Ok(self.serialize_space_array(&ids, &properties))
            },
            Some((QueryScopeKind::Space, selector)) => match self.resolve_space(
                selector.as_ref(),
            ) {
                Err(error) => Err(error),
                Ok(sid) => if self.space(sid).is_some() {
                    Ok(line(self.serialize_space(sid, &properties)))
                } else {
                    Err("could not retrieve space details.".to_owned())
                },
            },
            Some((QueryScopeKind::Display, selector)) => match self.resolve_display(
                selector.as_ref(),
            ) {
                Err(error) => Err(error),
                Ok(did) => {
                    let ids = self.space_ids_for_display(did);
                    if self.all_have_layouts(&ids) {
                        Ok(self.serialize_space_array(&ids, &properties))
                    } else {
                        Err("could not retrieve spaces for display.".to_owned())
                    }
                },
            },
            Some((QueryScopeKind::Window, _)) => Err(
                "query --spaces --window needs live window state".to_owned(),
            ),
        }
    }

    fn collect_placements(&self, ids: &Vec<u64>) -> (r: Vec<Placement>)
        requires
            self.wf(),
        ensures
            r@ == self@.placements_on(ids@, ids@.len() as int),
    {
        let mut out: Vec<Placement> = Vec::new();
        let mut i: usize = 0;
        while i < ids.len()
            invariant
                self.wf(),
                i <= ids@.len(),
                out@ == self@.placements_on(ids@, i as int),
            decreases ids.len() - i,
        {
            if let Some(placed) = self.flush(ids[i]) {
                let mut more = placed;
                out.append(&mut more);
            }
            i += 1;
        }
        out
    }

    /// Answer `query --windows`.
    pub fn query_windows(&self, cmd: &QueryCommand) -> (r: Result<String, String>)
        requires
            self.wf(),
        ensures
            answered(r, self@.windows_answer(*cmd)),
    {
        let properties = match query_properties(
            &cmd.properties,
            &window_properties(),
            &window_extras(self.has_live_info()),
            "window",
        ) {
            Ok(properties) => properties,
            Err(error) => {
                return Err(error);
            },
        };
        match &cmd.scope {
            None => {
                let placed = self.collect_placements(&self.space_ids());
                Ok(self.serialize_window_array(&placed, &properties))
            },
            Some((QueryScopeKind::Window, selector)) => match self.resolve_window_selector(
                selector.as_ref(),
            ) {
                Err(error) => Err(error),
                Ok(window_id) => match self.window_area(window_id) {
                    Some(area) => Ok(line(self.serialize_window(window_id, &area, &properties))),
                    None => Err("could not retrieve window details.".to_owned()),
                },
            },
            Some((QueryScopeKind::Space, selector)) => match self.resolve_space(
                selector.as_ref(),
            ) {
                Err(error) => Err(error),
                Ok(sid) => match self.flush(sid) {
                    Some(placed) => Ok(self.serialize_window_array(&placed, &properties)),
                    None => Err("could not retrieve windows for space.".to_owned()),
                },
            },
            Some((QueryScopeKind::Display, selector)) => match self.resolve_display(
                selector.as_ref(),
            ) {
                Err(error) => Err(error),
                Ok(did) => {
                    let placed = self.collect_placements(&self.space_ids_for_display(did));
                    Ok(self.serialize_window_array(&placed, &properties))
                },
            },
        }
    }

    /// Answer a `query` command.
    pub fn dispatch_query(&self, cmd: &QueryCommand) -> (r: Result<String, String>)
        requires
            self.wf(),
        ensures
            answered(r, self@.answer(*cmd)),
    {
        match cmd.target {
            QueryTarget::Displays => self.query_displays(cmd),
            QueryTarget::Spaces => self.query_spaces(cmd),
            QueryTarget::Windows => self.query_windows(cmd),
        }
    }
}

/// A listing of objects that hold an id and nothing else.
pub open spec fn id_list(ids: Seq<nat>) -> Seq<char> {
    "["@ + text::joined(
        Seq::new(ids.len(), |i: int| "{\n\t\"id\":"@ + text::decimal(ids[i]) + "\n}"@),
        ","@,
    ) + "]\n"@
}

/// The properties asked for are the ids alone.
pub open spec fn asks_ids(cmd: QueryCommand) -> bool {
    text::texts(cmd.properties@) == seq!["id"@]
}

proof fn lemma_id_object(value: spec_fn(Seq<char>) -> Seq<char>, id: nat)
    requires
        value("id"@) == text::decimal(id),
    ensures
        object_text(seq!["id"@], value) == "{\n\t\"id\":"@ + text::decimal(id) + "\n}"@,
{
    let names = seq!["id"@];
    let fields = names.map_values(|n: Seq<char>| field_text(n, value(n)));
    assert(fields.len() == 1 && fields[0] == field_text("id"@, text::decimal(id)));
    reveal_strlit("id");
    reveal_strlit("{\n");
    reveal_strlit("\t\"");
    reveal_strlit("\":");
    reveal_strlit("{\n\t\"id\":");
    assert("{\n"@ + "\t\""@ + "id"@ + "\":"@ =~= "{\n\t\"id\":"@);
    assert("{\n"@ + ("\t\""@ + "id"@ + "\":"@ + text::decimal(id)) + "\n}"@ =~= "{\n\t\"id\":"@
        + text::decimal(id) + "\n}"@);
}

proof fn lemma_ids_chosen(defaults: Seq<Seq<char>>, extras: Seq<Seq<char>>, entity: Seq<char>)
    requires
        defaults.len() > 0,
        defaults[0] == "id"@,
    ensures
        chosen_properties(seq!["id"@], defaults, extras, entity) == selectors::Resolved::Found(
            seq!["id"@],
        ),
{
    let names = seq!["id"@];
    reveal_with_fuel(first_unknown, 2);
    assert((defaults + extras)[0] == "id"@);
    assert(names.drop_last() =~= Seq::<Seq<char>>::empty());
    assert(names.last() == "id"@);
}

proof fn lemma_id_windows(s: State, placed: Seq<Placement>)
    ensures
        s.windows_array(placed, seq!["id"@]) == id_list(
            Seq::new(placed.len(), |i: int| placed[i].window_id as nat),
        ),
{
    let names = seq!["id"@];
    let ids = Seq::new(placed.len(), |i: int| placed[i].window_id as nat);
    let objects = placed.map_values(|p: Placement| s.window_object(p.window_id, p.area, names));
    let plain = Seq::new(ids.len(), |i: int| "{\n\t\"id\":"@ + text::decimal(ids[i]) + "\n}"@);
    assert forall|i: int| 0 <= i < objects.len() implies objects[i] == plain[i] by {
        let p = placed[i];
        lemma_id_object(|n: Seq<char>| s.identity_value(p.window_id, p.area, n), ids[i]);
    }
    assert(objects =~= plain);
}

/// `query --windows --space` lists the windows of the selected space, in the order of
/// its reported layout, and no others.
pub proof fn law_windows_of_a_space(
    s: State,
    cmd: QueryCommand,
    selector: Option<Selector>,
    sid: u64,
)
    requires
        cmd.target == QueryTarget::Windows,
        cmd.scope == Some((QueryScopeKind::Space, selector)),
        s.selected_space(selector) == selectors::Resolved::Found(sid),
        asks_ids(cmd),
    ensures
        s.tiling.spaces.dom().contains(sid) && s.captures.dom().contains(sid) ==> s.answer(cmd)
            == selectors::Resolved::Found(
            id_list(
                Seq::new(
                    s.captures[sid].frames@.len(),
                    |i: int| s.captures[sid].frames@[i].window_id as nat,
                ),
            ),
        ),
        s.tiling.spaces.dom().contains(sid) && !s.captures.dom().contains(sid) ==> s.answer(cmd)
            == selectors::Resolved::Found(id_list(Seq::empty())),
        !s.tiling.spaces.dom().contains(sid) ==> s.answer(cmd) == selectors::Resolved::<
            Seq<char>,
        >::Failed("could not retrieve windows for space."@),
{
    lemma_ids_chosen(
        window_property_names(),
        window_extra_names(s.live.dom() != Set::<u32>::empty()),
        "window"@,
    );
    if s.tiling.spaces.dom().contains(sid) {
        let placed = layout::placements(s.frames_of(sid)->0);
        lemma_id_windows(s, placed);
        let ids = Seq::new(placed.len(), |i: int| placed[i].window_id as nat);
        if s.captures.dom().contains(sid) {
            assert(ids =~= Seq::new(
                s.captures[sid].frames@.len(),
                |i: int| s.captures[sid].frames@[i].window_id as nat,
            ));
        } else {
            assert(ids =~= Seq::<nat>::empty());
        }
    }
}

/// Where the report of a space is of the windows that it tiles, the listing has
/// exactly these windows, each once.
pub proof fn law_listed_windows_are_the_tiled_ones(
    s: State,
    cmd: QueryCommand,
    selector: Option<Selector>,
    sid: u64,
) -> (ids: Seq<nat>)
    requires
        cmd.target == QueryTarget::Windows,
        cmd.scope == Some((QueryScopeKind::Space, selector)),
        s.selected_space(selector) == selectors::Resolved::Found(sid),
        asks_ids(cmd),
        s.tiling.spaces.dom().contains(sid),
        s.captures.dom().contains(sid),
        s.captures[sid].frames@.len() == s.tiling.spaces[sid].windows.len(),
        forall|i: int|
            0 <= i < s.tiling.spaces[sid].windows.len() ==> (
            #[trigger] s.captures[sid].frames@[i]).window_id == s.tiling.spaces[sid].windows[i],
        s.tiling.wf(),
    ensures
        s.answer(cmd) == selectors::Resolved::Found(id_list(ids)),
        ids.no_duplicates(),
        forall|w: u32| #[trigger] ids.contains(w as nat) <==> s.tiling.spaces[sid].windows.contains(w),
{
    law_windows_of_a_space(s, cmd, selector, sid);
    let windows = s.tiling.spaces[sid].windows;
    let ids = Seq::new(
        s.captures[sid].frames@.len(),
        |i: int| s.captures[sid].frames@[i].window_id as nat,
    );
    assert forall|i: int| 0 <= i < ids.len() implies ids[i] == windows[i] as nat by {}
    assert forall|w: u32| #[trigger] ids.contains(w as nat) <==> windows.contains(w) by {
        if ids.contains(w as nat) {
            let i = choose|i: int| 0 <= i < ids.len() && ids[i] == w as nat;
            assert(windows[i] == w);
        }
        if windows.contains(w) {
            let i = choose|i: int| 0 <= i < windows.len() && windows[i] == w;
            assert(ids[i] == w as nat);
        }
    }
    assert(windows.no_duplicates());
    assert forall|i: int, j: int| 0 <= i < ids.len() && 0 <= j < ids.len() && i != j implies ids[i]
        != ids[j] by {
        assert(windows[i] != windows[j]);
    }
    ids
}

/// What is listed of the windows of one space does not depend on what other spaces
/// tile, or on what is reported of them.
pub proof fn law_space_listing_is_local(
    s: State,
    t: State,
    cmd: QueryCommand,
    selector: Option<Selector>,
    sid: u64,
)
    requires
        cmd.target == QueryTarget::Windows,
        cmd.scope == Some((QueryScopeKind::Space, selector)),
        s.selected_space(selector) == selectors::Resolved::Found(sid),
        t.selected_space(selector) == selectors::Resolved::Found(sid),
        s.tiling.wf(),
        t.tiling.wf(),
        t == (State {
            tiling: tiling::TilingModel {
                spaces: t.tiling.spaces,
                window_spaces: t.tiling.window_spaces,
                ops: t.tiling.ops,
                ..s.tiling
            },
            captures: t.captures,
            ..s
        }),
        s.tiling.spaces.dom().contains(sid),
        t.tiling.spaces.dom().contains(sid),
        s.captures.dom().contains(sid),
        t.captures.dom().contains(sid),
        s.tiling.spaces[sid] == t.tiling.spaces[sid],
        s.captures[sid] == t.captures[sid],
        forall|i: int|
            0 <= i < s.captures[sid].frames@.len() ==> s.tiling.spaces[sid].windows.contains(
                (#[trigger] s.captures[sid].frames@[i]).window_id,
            ),
    ensures
        s.answer(cmd) == t.answer(cmd),
{
    let chosen = chosen_properties(
        text::texts(cmd.properties@),
        window_property_names(),
        window_extra_names(s.live.dom() != Set::<u32>::empty()),
        "window"@,
    );
    if let selectors::Resolved::Found(names) = chosen {
        let placed = layout::placements(s.captures[sid].frames@);
        let one = placed.map_values(|p: Placement| s.window_object(p.window_id, p.area, names));
        let two = placed.map_values(|p: Placement| t.window_object(p.window_id, p.area, names));
        assert forall|i: int| 0 <= i < placed.len() implies one[i] == two[i] by {
            let p = placed[i];
            let w = s.captures[sid].frames@[i].window_id;
            assert(p.window_id == w);
            assert(s.tiling.tiles(sid, w));
            assert(t.tiling.tiles(sid, w));
            s.tiling.lemma_space_of(sid, w);
            t.tiling.lemma_space_of(sid, w);
            assert(s.frame_of(w) == t.frame_of(w));
            let a = names.map_values(
                |n: Seq<char>| field_text(n, (|m: Seq<char>| s.identity_value(w, p.area, m))(n)),
            );
            let b = names.map_values(
                |n: Seq<char>| field_text(n, (|m: Seq<char>| t.identity_value(w, p.area, m))(n)),
            );
            assert forall|k: int| 0 <= k < names.len() implies a[k] == b[k] by {
                lemma_value_is_local(s, t, w, p.area, names[k]);
            }
            assert(a =~= b);
            assert(one[i] == "{\n"@ + text::joined(a, ",\n"@) + "\n}"@);
            assert(two[i] == "{\n"@ + text::joined(b, ",\n"@) + "\n}"@);
        }
        assert(one =~= two);
    }
}

proof fn lemma_value_is_local(s: State, t: State, w: u32, area: Area, name: Seq<char>)
    requires
        s.tiling.space_of(w) == t.tiling.space_of(w),
        s.frame_of(w) == t.frame_of(w),
        s.zoom_of(w) == t.zoom_of(w),
        s.meta == t.meta,
        s.live == t.live,
        s.scratchpads == t.scratchpads,
        s.shadow_disabled == t.shadow_disabled,
        s.topology == t.topology,
        s.config == t.config,
        s.tiling.active_space == t.tiling.active_space,
        s.tiling.focused_window == t.tiling.focused_window,
        s.tiling.floating == t.tiling.floating,
        s.tiling.sticky == t.tiling.sticky,
    ensures
        s.identity_value(w, area, name) == t.identity_value(w, area, name),
{
}

/// `query --windows --window` lists the one window selected, or the one with the
/// focus, with its reported frame.
pub proof fn law_one_window_is_listed(
    s: State,
    cmd: QueryCommand,
    selector: Option<Selector>,
    w: u32,
    sid: u64,
)
    requires
        cmd.target == QueryTarget::Windows,
        cmd.scope == Some((QueryScopeKind::Window, selector)),
        asks_ids(cmd),
        s.tiling.wf(),
        match selector {
            Some(sel) => s.selected_window(sel) == selectors::Resolved::Found(w),
            None => s.tiling.focused_window == Some(w),
        },
        s.tiling.spaces.dom().contains(sid),
        s.tiling.spaces[sid].windows.contains(w),
    ensures
        s.captures.dom().contains(sid) && (exists|i: int|
            0 <= i < s.captures[sid].frames@.len() && (
            #[trigger] s.captures[sid].frames@[i]).window_id == w) ==> s.answer(cmd)
            == selectors::Resolved::Found(
            "{\n\t\"id\":"@ + text::decimal(w as nat) + "\n}"@ + "\n"@,
        ),
        !s.captures.dom().contains(sid) || (forall|i: int|
            0 <= i < s.captures[sid].frames@.len() ==> (
            #[trigger] s.captures[sid].frames@[i]).window_id != w) ==> s.answer(cmd)
            == selectors::Resolved::<Seq<char>>::Failed("could not retrieve window details."@),
{
    lemma_ids_chosen(
        window_property_names(),
        window_extra_names(s.live.dom() != Set::<u32>::empty()),
        "window"@,
    );
    assert(s.tiling.tiles(sid, w));
    s.tiling.lemma_space_of(sid, w);
    let frames = s.frames_of(sid)->0;
    if exists|i: int| 0 <= i < frames.len() && (#[trigger] frames[i]).window_id == w {
        let i = choose|i: int| 0 <= i < frames.len() && (#[trigger] frames[i]).window_id == w;
        lemma_some_frame(frames, w, i);
        let area = s.frame_of(w)->0.area;
        lemma_id_object(|n: Seq<char>| s.identity_value(w, area, n), w as nat);
    } else {
        selectors::lemma_no_frame(frames, w);
    }
}

proof fn lemma_some_frame(frames: Seq<WindowFrame>, w: u32, i: int)
    requires
        0 <= i < frames.len(),
        frames[i].window_id == w,
    ensures
        selectors::frame_index(frames, w) is Some,
    decreases frames.len(),
{
    if i < frames.len() - 1 {
        lemma_some_frame(frames.drop_last(), w, i);
    }
}

/// The windows of some spaces are listed space by space, those of one space in the
/// order of its reported layout.
pub proof fn law_windows_space_by_space(s: State, ids: Seq<u64>, k: int)
    requires
        0 <= k < ids.len(),
    ensures
        s.placements_on(ids, 0) == Seq::<Placement>::empty(),
        ({
            let before = s.placements_on(ids, k);
            let after = s.placements_on(ids, k + 1);
            let frames = s.captures[ids[k]].frames@;
            &&& s.tiling.spaces.dom().contains(ids[k]) && s.captures.dom().contains(ids[k]) ==> {
                &&& after.len() == before.len() + frames.len()
                &&& forall|i: int| 0 <= i < before.len() ==> #[trigger] after[i] == before[i]
                &&& forall|i: int|
                    #![trigger frames[i]]
                    0 <= i < frames.len() ==> after[before.len() + i].window_id
                        == frames[i].window_id && after[before.len() + i].area == frames[i].area
            }
            &&& !s.tiling.spaces.dom().contains(ids[k]) || !s.captures.dom().contains(ids[k])
                ==> after == before
        }),
{
    let before = s.placements_on(ids, k);
    assert(s.placements_on(ids, k + 1) == match s.frames_of(ids[k]) {
        Some(frames) => before + layout::placements(frames),
        None => before,
    });
    if !s.captures.dom().contains(ids[k]) {
        assert(before + layout::placements(Seq::<WindowFrame>::empty()) =~= before);
    }
}

/// `query --windows` lists the windows of all spaces, or with `--display` of all
/// spaces on that display, by ascending space.
pub proof fn law_windows_of_a_display(
    s: State,
    cmd: QueryCommand,
    selector: Option<Selector>,
    did: u32,
) -> (ids: Seq<u64>)
    requires
        cmd.target == QueryTarget::Windows,
        asks_ids(cmd),
        ({
            ||| cmd.scope is None && s.tiling.spaces.dom().finite()
            ||| cmd.scope == Some((QueryScopeKind::Display, selector)) && s.selected_display(
                selector,
            ) == selectors::Resolved::Found(did) && s.topology.space_displays.dom().finite()
        }),
    ensures
        forall|i: int, j: int| 0 <= i < j < ids.len() ==> #[trigger] ids[i] < #[trigger] ids[j],
        cmd.scope is None ==> forall|sid: u64| #[trigger]
            ids.contains(sid) <==> s.tiling.spaces.dom().contains(sid),
        cmd.scope is Some ==> forall|sid: u64| #[trigger]
            ids.contains(sid) <==> s.topology.space_displays.dom().contains(sid)
                && s.topology.space_displays[sid] == did,
        ({
            let placed = s.placements_on(ids, ids.len() as int);
            s.answer(cmd) == selectors::Resolved::Found(
                id_list(Seq::new(placed.len(), |i: int| placed[i].window_id as nat)),
            )
        }),
{
    lemma_ids_chosen(
        window_property_names(),
        window_extra_names(s.live.dom() != Set::<u32>::empty()),
        "window"@,
    );
    let set = if cmd.scope is None {
        s.tiling.spaces.dom()
    } else {
        s.topology.spaces_on(did)
    };
    if cmd.scope is Some {
        assert(s.topology.space_displays.dom().intersect(set) =~= set);
        vstd::set_lib::lemma_len_subset(set, s.topology.space_displays.dom());
    }
    idmap::lemma_listing_exists(set);
    let ids = idmap::ids_of(set);
    assert forall|i: int, j: int| 0 <= i < j < ids.len() implies #[trigger] ids[i]
        < #[trigger] ids[j] by {
        assert(ids[i].rank() < ids[j].rank());
    }
    lemma_id_windows(s, s.placements_on(ids, ids.len() as int));
    ids
}

/// Without properties the default ones are listed; with some, those, in the order
/// given, if all are known. Otherwise the first unknown one is named.
pub proof fn law_properties_are_those_asked_for(
    requested: Seq<Seq<char>>,
    defaults: Seq<Seq<char>>,
    extras: Seq<Seq<char>>,
    entity: Seq<char>,
    i: int,
)
    ensures
        requested.len() == 0 ==> chosen_properties(requested, defaults, extras, entity)
            == selectors::Resolved::Found(defaults),
        requested.len() > 0 && (forall|j: int|
            0 <= j < requested.len() ==> defaults.contains(#[trigger] requested[j])
                || extras.contains(requested[j])) ==> chosen_properties(
            requested,
            defaults,
            extras,
            entity,
        ) == selectors::Resolved::Found(requested),
        0 <= i < requested.len() && !defaults.contains(requested[i]) && !extras.contains(
            requested[i],
        ) && (forall|j: int|
            0 <= j < i ==> defaults.contains(#[trigger] requested[j]) || extras.contains(
                requested[j],
            )) ==> chosen_properties(requested, defaults, extras, entity) == selectors::Resolved::<
            Seq<Seq<char>>,
        >::Failed("'"@ + requested[i] + "' is not available from pure "@ + entity + " state"@),
{
    let known = defaults + extras;
    assert forall|n: Seq<char>| #[trigger] known.contains(n) <==> defaults.contains(n)
        || extras.contains(n) by {
        if defaults.contains(n) {
            let j = choose|j: int| 0 <= j < defaults.len() && defaults[j] == n;
            assert(known[j] == n);
        }
        if extras.contains(n) {
            let j = choose|j: int| 0 <= j < extras.len() && extras[j] == n;
            assert(known[defaults.len() + j] == n);
        }
        if known.contains(n) {
            let j = choose|j: int| 0 <= j < known.len() && known[j] == n;
            if j < defaults.len() {
                assert(defaults[j] == n);
            } else {
                assert(extras[j - defaults.len()] == n);
            }
        }
    }
    if forall|j: int| 0 <= j < requested.len() ==> known.contains(#[trigger] requested[j]) {
        lemma_all_known(requested, known);
    }
    if 0 <= i < requested.len() && !known.contains(requested[i]) && (forall|j: int|
        0 <= j < i ==> known.contains(#[trigger] requested[j])) {
        lemma_first_is_unknown(requested, known, i);
    }
}

proof fn lemma_all_known(names: Seq<Seq<char>>, known: Seq<Seq<char>>)
    requires
        forall|j: int| 0 <= j < names.len() ==> known.contains(#[trigger] names[j]),
    ensures
        first_unknown(names, known) is None,
    decreases names.len(),
{
    if names.len() > 0 {
        lemma_all_known(names.drop_last(), known);
        assert(names.last() == names[names.len() - 1]);
    }
}

proof fn lemma_first_is_unknown(names: Seq<Seq<char>>, known: Seq<Seq<char>>, i: int)
    requires
        0 <= i < names.len(),
        !known.contains(names[i]),
        forall|j: int| 0 <= j < i ==> known.contains(#[trigger] names[j]),
    ensures
        first_unknown(names, known) == Some(names[i]),
    decreases names.len(),
{
    if i == names.len() - 1 {
        lemma_all_known(names.drop_last(), known);
    } else {
        lemma_first_is_unknown(names.drop_last(), known, i);
    }
}

/// An object tells the value of each property that it has.
pub proof fn law_object_tells_its_members(
    names: Seq<Seq<char>>,
    value: spec_fn(Seq<char>) -> Seq<char>,
    i: int,
)
    requires
        0 <= i < names.len(),
    ensures
        text::tells(object_text(names, value), names[i], value(names[i])),
{
    let fields = names.map_values(|n: Seq<char>| field_text(n, value(n)));
    let (before, after) = lemma_part_of_joined(fields, ",\n"@, i);
    reveal_strlit(",\n");
    reveal_strlit("\n}");
    let object = object_text(names, value);
    let head = "{\n"@ + before;
    let tail = after + "\n}"@;
    assert(fields[i] == "\t\""@ + names[i] + "\":"@ + value(names[i]));
    assert(object =~= head + "\t\""@ + names[i] + "\":"@ + value(names[i]) + tail);
    if after.len() > 0 {
        assert(after[0] == after.take(2)[0]);
        assert(tail[0] == ',');
    } else {
        assert(tail[0] == '\n');
    }
    assert(text::told_between(object, names[i], value(names[i]), head, tail));
}

proof fn lemma_part_of_joined(parts: Seq<Seq<char>>, sep: Seq<char>, i: int) -> (r: (
    Seq<char>,
    Seq<char>,
))
    requires
        0 <= i < parts.len(),
    ensures
        text::joined(parts, sep) == r.0 + parts[i] + r.1,
        r.1.len() == 0 || r.1.len() >= sep.len() && r.1.take(sep.len() as int) == sep,
    decreases parts.len(),
{
    if parts.len() == 1 {
        assert(text::joined(parts, sep) =~= Seq::<char>::empty() + parts[0] + Seq::<char>::empty());
        (Seq::empty(), Seq::empty())
    } else if i == parts.len() - 1 {
        let before = text::joined(parts.drop_last(), sep) + sep;
        assert(text::joined(parts, sep) =~= before + parts[i] + Seq::<char>::empty());
        (before, Seq::empty())
    } else {
        let (before, after) = lemma_part_of_joined(parts.drop_last(), sep, i);
        let tail = after + sep + parts.last();
        assert(parts.drop_last()[i] == parts[i]);
        assert(text::joined(parts, sep) =~= before + parts[i] + tail);
        assert(tail.take(sep.len() as int) =~= sep) by {
            if after.len() > 0 {
                assert(tail.take(sep.len() as int) =~= after.take(sep.len() as int));
            }
        }
        (before, tail)
    }
}

proof fn lemma_window_names_differ()
    ensures
        "id"@.len() == 2,
        "pid"@.len() == 3,
        "app"@.len() == 3,
        "title"@.len() == 5,
        "scratchpad"@.len() == 10,
        "frame"@.len() == 5,
        "has-focus"@.len() == 9,
        "space"@.len() == 5,
        "display"@.len() == 7,
        "is-visible"@.len() == 10,
        "split-type"@.len() == 10,
        "split-child"@.len() == 11,
        "stack-index"@.len() == 11,
        "has-shadow"@.len() == 10,
        "has-fullscreen-zoom"@.len() == 19,
        "has-parent-zoom"@.len() == 15,
        "is-floating"@.len() == 11,
        "is-sticky"@.len() == 9,
        "opacity"@.len() == 7,
        "role"@.len() == 4,
        "subrole"@.len() == 7,
        "can-move"@.len() == 8,
        "can-resize"@.len() == 10,
        "pid"@ != "app"@,
        "title"@ != "frame"@,
        "title"@ != "space"@,
        "scratchpad"@ != "is-visible"@,
        "scratchpad"@ != "split-type"@,
        "scratchpad"@ != "has-shadow"@,
        "scratchpad"@ != "can-resize"@,
        "frame"@ != "space"@,
        "has-focus"@ != "is-sticky"@,
        "display"@ != "opacity"@,
        "display"@ != "subrole"@,
        "is-visible"@ != "split-type"@,
        "is-visible"@ != "has-shadow"@,
        "is-visible"@ != "can-resize"@,
        "split-type"@ != "has-shadow"@,
        "split-type"@ != "can-resize"@,
        "split-child"@ != "stack-index"@,
        "split-child"@ != "is-floating"@,
        "stack-index"@ != "is-floating"@,
        "has-shadow"@ != "can-resize"@,
        "opacity"@ != "subrole"@,
{
    reveal_strlit("id");
    reveal_strlit("pid");
    reveal_strlit("app");
    reveal_strlit("title");
    reveal_strlit("scratchpad");
    reveal_strlit("frame");
    reveal_strlit("has-focus");
    reveal_strlit("space");
    reveal_strlit("display");
    reveal_strlit("is-visible");
    reveal_strlit("split-type");
    reveal_strlit("split-child");
    reveal_strlit("stack-index");
    reveal_strlit("has-shadow");
    reveal_strlit("has-fullscreen-zoom");
    reveal_strlit("has-parent-zoom");
    reveal_strlit("is-floating");
    reveal_strlit("is-sticky");
    reveal_strlit("opacity");
    reveal_strlit("role");
    reveal_strlit("subrole");
    reveal_strlit("can-move");
    reveal_strlit("can-resize");
    assert("pid"@[0] != "app"@[0]);
    assert("title"@[0] != "frame"@[0]);
    assert("title"@[0] != "space"@[0]);
    assert("scratchpad"@[0] != "is-visible"@[0]);
    assert("scratchpad"@[1] != "split-type"@[1]);
    assert("scratchpad"@[0] != "has-shadow"@[0]);
    assert("scratchpad"@[0] != "can-resize"@[0]);
    assert("frame"@[0] != "space"@[0]);
    assert("has-focus"@[0] != "is-sticky"@[0]);
    assert("display"@[0] != "opacity"@[0]);
    assert("display"@[0] != "subrole"@[0]);
    assert("is-visible"@[0] != "split-type"@[0]);
    assert("is-visible"@[0] != "has-shadow"@[0]);
    assert("is-visible"@[0] != "can-resize"@[0]);
    assert("split-type"@[0] != "has-shadow"@[0]);
    assert("split-type"@[0] != "can-resize"@[0]);
    assert("split-child"@[1] != "stack-index"@[1]);
    assert("split-child"@[0] != "is-floating"@[0]);
    assert("stack-index"@[0] != "is-floating"@[0]);
    assert("has-shadow"@[0] != "can-resize"@[0]);
    assert("opacity"@[0] != "subrole"@[0]);
}

/// What is listed of a window, property by property: what is known of it, or a blank
/// where nothing is.
pub proof fn law_window_properties(s: State, w: u32, area: Area)
    ensures
        s.identity_value(w, area, "id"@) == text::decimal(w as nat),
        s.meta.dom().contains(w) ==> {
            &&& s.identity_value(w, area, "pid"@) == text::signed_decimal(s.meta[w].pid as int)
            &&& s.identity_value(w, area, "app"@) == "\""@ + text::json_escaped(s.meta[w].app@)
                + "\""@
            &&& s.identity_value(w, area, "title"@) == "\""@ + text::json_escaped(s.meta[w].title@)
                + "\""@
        },
        !s.meta.dom().contains(w) ==> {
            &&& s.identity_value(w, area, "pid"@) == "0"@
            &&& s.identity_value(w, area, "app"@) == "\"\""@
            &&& s.identity_value(w, area, "title"@) == "\"\""@
        },
        s.scratchpads.dom().contains(w) ==> s.identity_value(w, area, "scratchpad"@) == "\""@
            + text::json_escaped(s.scratchpads[w]) + "\""@,
        !s.scratchpads.dom().contains(w) ==> s.identity_value(w, area, "scratchpad"@) == "\"\""@,
        s.identity_value(w, area, "frame"@) == "{\n\t\t\"x\":"@ + area.x.text@ + ",\n\t\t\"y\":"@
            + area.y.text@ + ",\n\t\t\"w\":"@ + area.w.text@ + ",\n\t\t\"h\":"@ + area.h.text@
            + "\n\t}"@,
        s.identity_value(w, area, "has-focus"@) == "true"@ <==> s.tiling.focused_window == Some(w),
        s.identity_value(w, area, "has-focus"@) == "false"@ <==> s.tiling.focused_window != Some(w),
        s.identity_value(w, area, "has-shadow"@) == "true"@ <==> !s.shadow_disabled.contains(w),
        s.identity_value(w, area, "has-shadow"@) == "false"@ <==> s.shadow_disabled.contains(w),
        s.identity_value(w, area, "is-floating"@) == "true"@ <==> s.tiling.floating.contains(w),
        s.identity_value(w, area, "is-floating"@) == "false"@ <==> !s.tiling.floating.contains(w),
        s.identity_value(w, area, "is-sticky"@) == "true"@ <==> s.tiling.sticky.contains(w),
        s.identity_value(w, area, "is-sticky"@) == "false"@ <==> !s.tiling.sticky.contains(w),
{
    lemma_window_names_differ();
    reveal_strlit("true");
    reveal_strlit("false");
    assert("true"@.len() != "false"@.len());
    reveal_strlit("0");
    reveal_strlit("");
    reveal_strlit("\"");
    reveal_strlit("\"\"");
    assert("\""@ + text::json_escaped(""@) + "\""@ =~= "\"\""@);
    assert(text::decimal(0) =~= "0"@);
}

/// What is listed of where a tiled window is: its space, the display of the space and
/// whether it is shown.
pub proof fn law_tiled_window_properties(s: State, w: u32, area: Area, sid: u64)
    requires
        s.tiling.wf(),
        s.tiling.spaces.dom().contains(sid),
        s.tiling.spaces[sid].windows.contains(w),
    ensures
        s.identity_value(w, area, "space"@) == text::decimal(sid as nat),
        s.identity_value(w, area, "display"@) == s.space_value(sid, "display"@),
        s.identity_value(w, area, "is-visible"@) == s.space_value(sid, "is-visible"@),
        s.captures.dom().contains(sid) && s.captures[sid].zoomed is Some ==> {
            let (zoomed, kind) = s.captures[sid].zoomed->0;
            &&& s.identity_value(w, area, "has-fullscreen-zoom"@) == "true"@ <==> zoomed == w
                && kind == ZoomKind::Fullscreen
            &&& s.identity_value(w, area, "has-parent-zoom"@) == "true"@ <==> zoomed == w && kind
                == ZoomKind::Parent
        },
        !s.captures.dom().contains(sid) || s.captures[sid].zoomed is None ==> {
            &&& s.identity_value(w, area, "has-fullscreen-zoom"@) == "false"@
            &&& s.identity_value(w, area, "has-parent-zoom"@) == "false"@
        },
{
    lemma_window_names_differ();
    lemma_space_names_differ();
    assert(s.tiling.tiles(sid, w));
    s.tiling.lemma_space_of(sid, w);
    reveal_strlit("true");
    reveal_strlit("false");
    assert("true"@.len() != "false"@.len());
}

/// What is listed of how a tiled window is laid out: how the node above its own is
/// split, which child it is, and its place in a stack.
pub proof fn law_layout_properties(s: State, w: u32, area: Area, sid: u64, i: int)
    requires
        s.tiling.wf(),
        s.tiling.spaces.dom().contains(sid),
        s.tiling.spaces[sid].windows.contains(w),
        s.captures.dom().contains(sid),
        0 <= i < s.captures[sid].frames@.len(),
        s.captures[sid].frames@[i].window_id == w,
        forall|j: int| 0 <= j < i ==> (#[trigger] s.captures[sid].frames@[j]).window_id != w,
    ensures
        ({
            let frame = s.captures[sid].frames@[i];
            &&& frame.parent is None ==> s.identity_value(w, area, "split-type"@)
                == "\"none\""@ && s.identity_value(w, area, "split-child"@) == "\"second_child\""@
            &&& frame.parent matches Some((split, first)) ==> {
                &&& split == NodeSplit::Vertical ==> s.identity_value(w, area, "split-type"@)
                    == "\"vertical\""@
                &&& split == NodeSplit::Horizontal ==> s.identity_value(w, area, "split-type"@)
                    == "\"horizontal\""@
                &&& first ==> s.identity_value(w, area, "split-child"@) == "\"first_child\""@
                &&& !first ==> s.identity_value(w, area, "split-child"@) == "\"second_child\""@
            }
            &&& frame.node_windows@.len() <= 1 ==> s.identity_value(w, area, "stack-index"@)
                == "0"@
            &&& forall|k: int|
                frame.node_windows@.len() > 1 && 0 <= k < frame.node_windows@.len()
                    && #[trigger] frame.node_windows@[k] == w && (forall|m: int|
                    0 <= m < k ==> #[trigger] frame.node_windows@[m] != w) ==> s.identity_value(
                    w,
                    area,
                    "stack-index"@,
                ) == text::decimal((k + 1) as nat)
        }),
{
    lemma_window_names_differ();
    assert(s.tiling.tiles(sid, w));
    s.tiling.lemma_space_of(sid, w);
    selectors::lemma_frame_index(s.captures[sid].frames@, w, i);
    reveal_strlit("0");
    assert(text::decimal(0) =~= "0"@);
    reveal_strlit("\"");
    reveal_strlit("none");
    reveal_strlit("vertical");
    reveal_strlit("horizontal");
    reveal_strlit("first_child");
    reveal_strlit("second_child");
    reveal_strlit("\"none\"");
    reveal_strlit("\"vertical\"");
    reveal_strlit("\"horizontal\"");
    reveal_strlit("\"first_child\"");
    reveal_strlit("\"second_child\"");
    assert("\""@ + "none"@ + "\""@ =~= "\"none\""@);
    assert("\""@ + "vertical"@ + "\""@ =~= "\"vertical\""@);
    assert("\""@ + "horizontal"@ + "\""@ =~= "\"horizontal\""@);
    assert("\""@ + "first_child"@ + "\""@ =~= "\"first_child\""@);
    assert("\""@ + "second_child"@ + "\""@ =~= "\"second_child\""@);
    let nodes = s.captures[sid].frames@[i].node_windows@;
    assert forall|k: int|
        nodes.len() > 1 && 0 <= k < nodes.len() && #[trigger] nodes[k] == w && (forall|m: int|
            0 <= m < k ==> #[trigger] nodes[m] != w) implies s.identity_value(
        w,
        area,
        "stack-index"@,
    ) == text::decimal((k + 1) as nat) by {
        nodes.index_of_first_ensures(w);
        let f = nodes.index_of_first(w)->0;
        assert(nodes.contains(w));
        if f < k {
            assert(nodes[f] == w);
        }
        if k < f {
            assert(nodes[k] == w);
        }
    }
}

/// What is listed of what was read of a window from the window system, or a blank
/// where nothing was.
pub proof fn law_live_properties(s: State, w: u32, area: Area)
    ensures
        s.live.dom().contains(w) ==> {
            &&& s.identity_value(w, area, "opacity"@) == s.live[w].opacity.text@
            &&& s.identity_value(w, area, "role"@) == "\""@ + text::json_escaped(s.live[w].role@)
                + "\""@
            &&& s.identity_value(w, area, "subrole"@) == "\""@ + text::json_escaped(
                s.live[w].subrole@,
            ) + "\""@
            &&& s.identity_value(w, area, "can-move"@) == "true"@ <==> s.live[w].can_move
            &&& s.identity_value(w, area, "can-move"@) == "false"@ <==> !s.live[w].can_move
            &&& s.identity_value(w, area, "can-resize"@) == "true"@ <==> s.live[w].can_resize
            &&& s.identity_value(w, area, "can-resize"@) == "false"@ <==> !s.live[w].can_resize
        },
        !s.live.dom().contains(w) ==> {
            &&& s.identity_value(w, area, "opacity"@) == "0.0000"@
            &&& s.identity_value(w, area, "role"@) == "\"\""@
            &&& s.identity_value(w, area, "subrole"@) == "\"\""@
            &&& s.identity_value(w, area, "can-move"@) == "false"@
            &&& s.identity_value(w, area, "can-resize"@) == "false"@
        },
{
    lemma_window_names_differ();
    reveal_strlit("true");
    reveal_strlit("false");
    assert("true"@.len() != "false"@.len());
    reveal_strlit("");
    reveal_strlit("\"");
    reveal_strlit("\"\"");
    assert("\""@ + text::json_escaped(""@) + "\""@ =~= "\"\""@);
}

proof fn lemma_space_names_differ()
    ensures
        "id"@.len() == 2,
        "label"@.len() == 5,
        "type"@.len() == 4,
        "windows"@.len() == 7,
        "first-window"@.len() == 12,
        "last-window"@.len() == 11,
        "has-focus"@.len() == 9,
        "is-visible"@.len() == 10,
        "display"@.len() == 7,
        "windows"@ != "display"@,
{
    reveal_strlit("id");
    reveal_strlit("label");
    reveal_strlit("type");
    reveal_strlit("windows");
    reveal_strlit("first-window");
    reveal_strlit("last-window");
    reveal_strlit("has-focus");
    reveal_strlit("is-visible");
    reveal_strlit("display");
    assert("windows"@[0] != "display"@[0]);
}

proof fn lemma_display_names_differ()
    ensures
        "id"@.len() == 2,
        "label"@.len() == 5,
        "index"@.len() == 5,
        "frame"@.len() == 5,
        "spaces"@.len() == 6,
        "has-focus"@.len() == 9,
        "label"@ != "index"@,
        "label"@ != "frame"@,
        "index"@ != "frame"@,
{
    reveal_strlit("id");
    reveal_strlit("label");
    reveal_strlit("index");
    reveal_strlit("frame");
    reveal_strlit("spaces");
    reveal_strlit("has-focus");
    assert("label"@[0] != "index"@[0]);
    assert("label"@[0] != "frame"@[0]);
    assert("index"@[0] != "frame"@[0]);
}

/// What is listed of a space, property by property.
pub proof fn law_space_properties(s: State, sid: u64)
    requires
        s.tiling.spaces.dom().contains(sid),
    ensures
        s.space_value(sid, "id"@) == text::decimal(sid as nat),
        s.topology.space_labels.dom().contains(sid) ==> s.space_value(sid, "label"@) == "\""@
            + text::json_escaped(s.topology.space_labels[sid]) + "\""@,
        !s.topology.space_labels.dom().contains(sid) ==> s.space_value(sid, "label"@) == "\"\""@,
        s.tiling.spaces[sid].layout == ViewType::Bsp ==> s.space_value(sid, "type"@) == "\"bsp\""@,
        s.tiling.spaces[sid].layout == ViewType::Stack ==> s.space_value(sid, "type"@)
            == "\"stack\""@,
        s.tiling.spaces[sid].layout == ViewType::Float ==> s.space_value(sid, "type"@)
            == "\"float\""@,
        s.space_value(sid, "windows"@) == "["@ + text::joined(
            Seq::new(
                s.tiling.spaces[sid].windows.len(),
                |i: int| text::decimal(s.tiling.spaces[sid].windows[i] as nat),
            ),
            ", "@,
        ) + "]"@,
        s.tiling.spaces[sid].windows.len() > 0 ==> {
            let windows = s.tiling.spaces[sid].windows;
            &&& s.space_value(sid, "first-window"@) == text::decimal(windows[0] as nat)
            &&& s.space_value(sid, "last-window"@) == text::decimal(
                windows[windows.len() - 1] as nat,
            )
        },
        s.tiling.spaces[sid].windows.len() == 0 ==> s.space_value(sid, "first-window"@) == "0"@
            && s.space_value(sid, "last-window"@) == "0"@,
        s.space_value(sid, "has-focus"@) == "true"@ <==> s.tiling.active_space == Some(sid),
        s.space_value(sid, "has-focus"@) == "false"@ <==> s.tiling.active_space != Some(sid),
        s.topology.space_displays.dom().contains(sid)
            && s.topology.display_active_space.dom().contains(s.topology.space_displays[sid]) ==> {
            &&& s.space_value(sid, "is-visible"@) == "true"@
                <==> s.topology.display_active_space[s.topology.space_displays[sid]] == sid
            &&& s.space_value(sid, "is-visible"@) == "false"@
                <==> s.topology.display_active_space[s.topology.space_displays[sid]] != sid
        },
        !(s.topology.space_displays.dom().contains(sid)
            && s.topology.display_active_space.dom().contains(s.topology.space_displays[sid]))
            ==> s.space_value(sid, "is-visible"@) == s.space_value(sid, "has-focus"@),
        s.topology.space_displays.dom().contains(sid) ==> s.space_value(sid, "display"@)
            == s.display_value(s.topology.space_displays[sid], "index"@),
        !s.topology.space_displays.dom().contains(sid) ==> s.space_value(sid, "display"@) == "0"@,
{
    lemma_space_names_differ();
    lemma_display_names_differ();
    reveal_strlit("true");
    reveal_strlit("false");
    assert("true"@.len() != "false"@.len());
    reveal_strlit("0");
    reveal_strlit("");
    reveal_strlit("\"");
    reveal_strlit("\"\"");
    reveal_strlit("bsp");
    reveal_strlit("stack");
    reveal_strlit("float");
    reveal_strlit("\"bsp\"");
    reveal_strlit("\"stack\"");
    reveal_strlit("\"float\"");
    assert("\""@ + text::json_escaped(""@) + "\""@ =~= "\"\""@);
    assert("\""@ + "bsp"@ + "\""@ =~= "\"bsp\""@);
    assert("\""@ + "stack"@ + "\""@ =~= "\"stack\""@);
    assert("\""@ + "float"@ + "\""@ =~= "\"float\""@);
    assert(text::decimal(0) =~= "0"@);
    let windows = s.tiling.spaces[sid].windows;
    assert(text::id_numerals(windows) =~= Seq::new(
        windows.len(),
        |i: int| text::decimal(windows[i] as nat),
    ));
}

/// What is listed of a display, property by property.
pub proof fn law_display_properties(s: State, did: u32)
    requires
        s.topology.displays.dom().contains(did),
    ensures
        s.display_value(did, "id"@) == text::decimal(did as nat),
        s.topology.display_labels.dom().contains(did) ==> s.display_value(did, "label"@) == "\""@
            + text::json_escaped(s.topology.display_labels[did]) + "\""@,
        !s.topology.display_labels.dom().contains(did) ==> s.display_value(did, "label"@)
            == "\"\""@,
        ({
            let frame = s.topology.displays[did].frame;
            s.display_value(did, "frame"@) == "{\n\t\t\"x\":"@ + frame.x.text@ + ",\n\t\t\"y\":"@
                + frame.y.text@ + ",\n\t\t\"w\":"@ + frame.w.text@ + ",\n\t\t\"h\":"@
                + frame.h.text@ + "\n\t}"@
        }),
        s.display_value(did, "has-focus"@) == "true"@ <==> s.tiling.active_space is Some
            && s.topology.space_displays.dom().contains(s.tiling.active_space->0)
            && s.topology.space_displays[s.tiling.active_space->0] == did,
        forall|i: int|
            s.topology.displays.dom().finite() && 0 <= i < crate::topology::arrangement(
                s.topology.displays,
                s.config.display_arrangement_order,
            ).len() && #[trigger] crate::topology::arrangement(
                s.topology.displays,
                s.config.display_arrangement_order,
            )[i] == did ==> s.display_value(did, "index"@) == text::decimal((i + 1) as nat),
{
    lemma_display_names_differ();
    reveal_strlit("true");
    reveal_strlit("false");
    assert("true"@.len() != "false"@.len());
    reveal_strlit("");
    reveal_strlit("\"");
    reveal_strlit("\"\"");
    assert("\""@ + text::json_escaped(""@) + "\""@ =~= "\"\""@);
    let arranged = crate::topology::arrangement(
        s.topology.displays,
        s.config.display_arrangement_order,
    );
    if s.topology.displays.dom().finite() {
        crate::topology::law_arrangement_goes_by_its_order(
            s.topology.displays,
            s.config.display_arrangement_order,
        );
    }
    assert forall|i: int|
        s.topology.displays.dom().finite() && 0 <= i < arranged.len() && #[trigger] arranged[i]
            == did implies s.display_value(did, "index"@) == text::decimal(
        (i + 1) as nat,
    ) by {
        assert(arranged.contains(did));
        assert(arranged[arranged.index_of(did)] == did);
    }
}

/// The spaces listed of a display are those on it, by ascending id.
pub proof fn law_spaces_of_a_listed_display(s: State, did: u32) -> (ids: Seq<u64>)
    requires
        s.topology.space_displays.dom().finite(),
    ensures
        s.display_value(did, "spaces"@) == "["@ + text::joined(
            Seq::new(ids.len(), |i: int| text::decimal(ids[i] as nat)),
            ", "@,
        ) + "]"@,
        forall|i: int, j: int| 0 <= i < j < ids.len() ==> #[trigger] ids[i] < #[trigger] ids[j],
        forall|sid: u64| #[trigger]
            ids.contains(sid) <==> s.topology.space_displays.dom().contains(sid)
                && s.topology.space_displays[sid] == did,
{
    lemma_display_names_differ();
    let set = s.topology.spaces_on(did);
    assert(s.topology.space_displays.dom().intersect(set) =~= set);
    vstd::set_lib::lemma_len_subset(set, s.topology.space_displays.dom());
    idmap::lemma_listing_exists(set);
    let ids = idmap::ids_of(set);
    assert forall|i: int, j: int| 0 <= i < j < ids.len() implies #[trigger] ids[i]
        < #[trigger] ids[j] by {
        assert(ids[i].rank() < ids[j].rank());
    }
    assert(text::wide_id_numerals(ids) =~= Seq::new(
        ids.len(),
        |i: int| text::decimal(ids[i] as nat),
    ));
    ids
}

/// `query --spaces --space` lists the selected space; `query --displays --display` the
/// selected display, and with `--space` or `--window` the one that the space or the
/// window is on.
pub proof fn law_one_space_or_display_is_listed(
    s: State,
    cmd: QueryCommand,
    kind: QueryScopeKind,
    selector: Option<Selector>,
    sid: u64,
    did: u32,
    w: u32,
)
    requires
        asks_ids(cmd),
        cmd.scope == Some((kind, selector)),
    ensures
        cmd.target == QueryTarget::Spaces && kind == QueryScopeKind::Space && s.selected_space(
            selector,
        ) == selectors::Resolved::Found(sid) && s.tiling.spaces.dom().contains(sid) ==> s.answer(
            cmd,
        ) == selectors::Resolved::Found(
            "{\n\t\"id\":"@ + text::decimal(sid as nat) + "\n}"@ + "\n"@,
        ),
        cmd.target == QueryTarget::Spaces && kind == QueryScopeKind::Space && s.selected_space(
            selector,
        ) == selectors::Resolved::Found(sid) && !s.tiling.spaces.dom().contains(sid) ==> s.answer(
            cmd,
        ) == selectors::Resolved::<Seq<char>>::Failed("could not retrieve space details."@),
        cmd.target == QueryTarget::Displays && s.topology.displays.dom().contains(did) && ({
            ||| kind == QueryScopeKind::Display && s.selected_display(selector)
                == selectors::Resolved::Found(did)
            ||| kind == QueryScopeKind::Space && s.selected_space(selector)
                == selectors::Resolved::Found(sid) && s.topology.space_displays.dom().contains(sid)
                && s.topology.space_displays[sid] == did
            ||| kind == QueryScopeKind::Window && s.acting_window(selector)
                == selectors::Resolved::Found(w) && s.tiling.wf()
                && s.tiling.spaces.dom().contains(sid) && s.tiling.spaces[sid].windows.contains(w)
                && s.topology.space_displays.dom().contains(sid) && s.topology.space_displays[sid]
                == did
        }) ==> s.answer(cmd) == selectors::Resolved::Found(
            "{\n\t\"id\":"@ + text::decimal(did as nat) + "\n}"@ + "\n"@,
        ),
        cmd.target == QueryTarget::Spaces && kind == QueryScopeKind::Window ==> s.answer(cmd)
            == selectors::Resolved::<Seq<char>>::Failed(
            "query --spaces --window needs live window state"@,
        ),
{
    lemma_ids_chosen(space_property_names(), Seq::empty(), "space"@);
    lemma_ids_chosen(display_property_names(), Seq::empty(), "display"@);
    lemma_id_object(|n: Seq<char>| s.space_value(sid, n), sid as nat);
    lemma_id_object(|n: Seq<char>| s.display_value(did, n), did as nat);
    if s.tiling.wf() && s.tiling.spaces.dom().contains(sid) && s.tiling.spaces[sid].windows.contains(
        w,
    ) {
        assert(s.tiling.tiles(sid, w));
        s.tiling.lemma_space_of(sid, w);
    }
}

/// `query --spaces` lists all spaces with a layout, or with `--display` those on that
/// display, by ascending id; it fails where one of those has no layout.
pub proof fn law_spaces_of_a_display(
    s: State,
    cmd: QueryCommand,
    selector: Option<Selector>,
    did: u32,
) -> (ids: Seq<u64>)
    requires
        cmd.target == QueryTarget::Spaces,
        asks_ids(cmd),
        ({
            ||| cmd.scope is None && s.tiling.spaces.dom().finite()
            ||| cmd.scope == Some((QueryScopeKind::Display, selector)) && s.selected_display(
                selector,
            ) == selectors::Resolved::Found(did) && s.topology.space_displays.dom().finite()
        }),
    ensures
        forall|i: int, j: int| 0 <= i < j < ids.len() ==> #[trigger] ids[i] < #[trigger] ids[j],
        cmd.scope is None ==> forall|sid: u64| #[trigger]
            ids.contains(sid) <==> s.tiling.spaces.dom().contains(sid),
        cmd.scope is Some ==> forall|sid: u64| #[trigger]
            ids.contains(sid) <==> s.topology.space_displays.dom().contains(sid)
                && s.topology.space_displays[sid] == did,
        (forall|sid: u64| #[trigger] ids.contains(sid) ==> s.tiling.spaces.dom().contains(sid))
            ==> s.answer(cmd) == selectors::Resolved::Found(
            id_list(Seq::new(ids.len(), |i: int| ids[i] as nat)),
        ),
        (exists|sid: u64| #[trigger] ids.contains(sid) && !s.tiling.spaces.dom().contains(sid))
            ==> s.answer(cmd) == selectors::Resolved::<Seq<char>>::Failed(
            "could not retrieve spaces for display."@,
        ),
{
    lemma_ids_chosen(space_property_names(), Seq::empty(), "space"@);
    let set = if cmd.scope is None {
        s.tiling.spaces.dom()
    } else {
        s.topology.spaces_on(did)
    };
    if cmd.scope is Some {
        assert(s.topology.space_displays.dom().intersect(set) =~= set);
        vstd::set_lib::lemma_len_subset(set, s.topology.space_displays.dom());
    }
    idmap::lemma_listing_exists(set);
    let ids = idmap::ids_of(set);
    assert forall|i: int, j: int| 0 <= i < j < ids.len() implies #[trigger] ids[i]
        < #[trigger] ids[j] by {
        assert(ids[i].rank() < ids[j].rank());
    }
    let names = seq!["id"@];
    let numbers = Seq::new(ids.len(), |i: int| ids[i] as nat);
    let objects = ids.map_values(|sid: u64| s.space_object(sid, names));
    let plain = Seq::new(
        numbers.len(),
        |i: int| "{\n\t\"id\":"@ + text::decimal(numbers[i]) + "\n}"@,
    );
    assert forall|i: int| 0 <= i < objects.len() implies objects[i] == plain[i] by {
        let sid = ids[i];
        lemma_id_object(|n: Seq<char>| s.space_value(sid, n), sid as nat);
    }
    assert(objects =~= plain);
    assert forall|i: int| 0 <= i < ids.len() implies ids.contains(#[trigger] ids[i]) by {}
    if exists|sid: u64| #[trigger] ids.contains(sid) && !s.tiling.spaces.dom().contains(sid) {
        let sid = choose|sid: u64| #[trigger]
            ids.contains(sid) && !s.tiling.spaces.dom().contains(sid);
        let i = choose|i: int| 0 <= i < ids.len() && ids[i] == sid;
        assert(!s.tiling.spaces.dom().contains(ids[i]));
    }
    ids
}

/// `query --displays` lists all displays as they are arranged.
pub proof fn law_all_displays_are_listed(s: State, cmd: QueryCommand)
    requires
        cmd.target == QueryTarget::Displays,
        cmd.scope is None,
        asks_ids(cmd),
    ensures
        ({
            let ids = crate::topology::arrangement(
                s.topology.displays,
                s.config.display_arrangement_order,
            );
            s.answer(cmd) == selectors::Resolved::Found(
                id_list(Seq::new(ids.len(), |i: int| ids[i] as nat)),
            )
        }),
{
    lemma_ids_chosen(display_property_names(), Seq::empty(), "display"@);
    let ids = crate::topology::arrangement(s.topology.displays, s.config.display_arrangement_order);
    let names = seq!["id"@];
    let numbers = Seq::new(ids.len(), |i: int| ids[i] as nat);
    let objects = ids.map_values(|did: u32| s.display_object(did, names));
    let plain = Seq::new(
        numbers.len(),
        |i: int| "{\n\t\"id\":"@ + text::decimal(numbers[i]) + "\n}"@,
    );
    assert forall|i: int| 0 <= i < objects.len() implies objects[i] == plain[i] by {
        let did = ids[i];
        lemma_id_object(|n: Seq<char>| s.display_value(did, n), did as nat);
    }
    assert(objects =~= plain);
}

/// A query that names nothing fails as its selector does.
pub proof fn law_query_fails_as_its_selector(
    s: State,
    cmd: QueryCommand,
    kind: QueryScopeKind,
    selector: Option<Selector>,
    e: Seq<char>,
)
    requires
        asks_ids(cmd),
        cmd.scope == Some((kind, selector)),
        kind == QueryScopeKind::Space && s.selected_space(selector)
            == selectors::Resolved::<u64>::Failed(e) || kind == QueryScopeKind::Display
            && s.selected_display(selector) == selectors::Resolved::<u32>::Failed(e) || kind
            == QueryScopeKind::Window && cmd.target != QueryTarget::Spaces && s.acting_window(
            selector,
        ) == selectors::Resolved::<u32>::Failed(e),
    ensures
        s.answer(cmd) == selectors::Resolved::<Seq<char>>::Failed(e),
{
    lemma_ids_chosen(space_property_names(), Seq::empty(), "space"@);
    lemma_ids_chosen(display_property_names(), Seq::empty(), "display"@);
    lemma_ids_chosen(
        window_property_names(),
        window_extra_names(s.live.dom() != Set::<u32>::empty()),
        "window"@,
    );
}

/// The listing has one object per window of the space with every property asked for,
/// in the order of the reported layout.
pub proof fn law_space_listing_has_an_object_per_window(
    s: State,
    cmd: QueryCommand,
    selector: Option<Selector>,
    sid: u64,
    names: Seq<Seq<char>>,
) -> (objects: Seq<Seq<char>>)
    requires
        cmd.target == QueryTarget::Windows,
        cmd.scope == Some((QueryScopeKind::Space, selector)),
        s.selected_space(selector) == selectors::Resolved::Found(sid),
        s.tiling.spaces.dom().contains(sid),
        s.captures.dom().contains(sid),
        chosen_properties(
            text::texts(cmd.properties@),
            window_property_names(),
            window_extra_names(s.live.dom() != Set::<u32>::empty()),
            "window"@,
        ) == selectors::Resolved::Found(names),
    ensures
        s.answer(cmd) == selectors::Resolved::Found(
            "["@ + text::joined(objects, ","@) + "]\n"@,
        ),
        objects.len() == s.captures[sid].frames@.len(),
        forall|i: int, k: int|
            0 <= i < objects.len() && 0 <= k < names.len() ==> text::tells(
                #[trigger] objects[i],
                #[trigger] names[k],
                s.identity_value(
                    s.captures[sid].frames@[i].window_id,
                    s.captures[sid].frames@[i].area,
                    names[k],
                ),
            ),
{
    let placed = layout::placements(s.captures[sid].frames@);
    let objects = placed.map_values(|p: Placement| s.window_object(p.window_id, p.area, names));
    assert forall|i: int, k: int|
        0 <= i < objects.len() && 0 <= k < names.len() implies text::tells(
        #[trigger] objects[i],
        #[trigger] names[k],
        s.identity_value(
            s.captures[sid].frames@[i].window_id,
            s.captures[sid].frames@[i].area,
            names[k],
        ),
    ) by {
        let p = placed[i];
        law_object_tells_its_members(
            names,
            |n: Seq<char>| s.identity_value(p.window_id, p.area, n),
            k,
        );
    }
    objects
}

/// A query is answered with the listing due, or fails with the complaint due.
pub proof fn law_queries_are_answered(
    state: &AppState,
    cmd: &QueryCommand,
    r: Result<String, String>,
    windows: Result<String, String>,
    output: Seq<char>,
    e: Seq<char>,
)
    requires
        call_ensures(AppState::dispatch_query, (state, cmd), r),
        call_ensures(AppState::query_windows, (state, cmd), windows),
    ensures
        state@.answer(*cmd) == selectors::Resolved::Found(output) ==> r is Ok && r->Ok_0@ == output,
        state@.answer(*cmd) == selectors::Resolved::<Seq<char>>::Failed(e) ==> r is Err
            && r->Err_0@ == e,
        cmd.target == QueryTarget::Windows && r is Ok ==> windows is Ok && windows->Ok_0@
            == r->Ok_0@,
        cmd.target == QueryTarget::Windows && r is Err ==> windows is Err && windows->Err_0@
            == r->Err_0@,
{
}

} // verus!
