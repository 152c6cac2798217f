//! Displays, the spaces on them, and what lies under the cursor.
use vstd::prelude::*;

use crate::idmap;
use crate::idmap::{Id, IdMap};
use crate::labels;
use crate::types::{Area, DisplayArrangementOrder};

verus! {

/// A display: its frame, and the bit patterns of the coordinates of its centre.
#[derive(Debug)]
pub struct DisplayInfo {
    pub frame: Area,
    pub center_x: u32,
    pub center_y: u32,
}

impl DisplayInfo {
    pub fn copy(&self) -> (r: Self)
        ensures
            r == *self,
    {
        DisplayInfo {
            frame: self.frame.copy(),
            center_x: self.center_x,
            center_y: self.center_y,
        }
    }
}

/// Displays and the spaces on them.
pub struct Topology {
    displays: IdMap<u32, DisplayInfo>,
    space_displays: IdMap<u64, u32>,
    display_active_space: IdMap<u32, u64>,
    space_labels: IdMap<u64, String>,
    display_labels: IdMap<u32, String>,
    main_display: Option<u32>,
    mission_control: Vec<u64>,
    cursor_display: Option<u32>,
    cursor_window: Option<u32>,
}

/// What a topology says.
pub ghost struct TopologyModel {
    /// The known displays.
    pub displays: Map<u32, DisplayInfo>,
    /// The display that each space belongs to.
    pub space_displays: Map<u64, u32>,
    /// The space that each display shows.
    pub display_active_space: Map<u32, u64>,
    pub space_labels: Map<u64, Seq<char>>,
    pub display_labels: Map<u32, Seq<char>>,
    pub main_display: Option<u32>,
    /// All spaces in the order of the space overview, once it is known.
    pub mission_control: Seq<u64>,
    /// The display under the cursor.
    pub cursor_display: Option<u32>,
    /// The tiled window under the cursor.
    pub cursor_window: Option<u32>,
}

/// The place of a single-precision bit pattern in the total order of
/// single-precision values: negative ones below positive ones, and among the
/// negative ones the greater magnitude first.
pub open spec fn total_rank(bits: u32) -> int {
    if bits < 0x8000_0000 {
        bits as int
    } else {
        0x7fff_ffff - bits
    }
}

/// The measure by which displays are arranged.
pub open spec fn display_measure(
    displays: Map<u32, DisplayInfo>,
    order: DisplayArrangementOrder,
) -> spec_fn(u32) -> int {
    |id: u32|
        match order {
            DisplayArrangementOrder::Default => id as int,
            DisplayArrangementOrder::Horizontal => (total_rank(displays[id].center_x)
                * 0x1_0000_0000 + total_rank(displays[id].center_y)) * 0x1_0000_0000 + id,
            DisplayArrangementOrder::Vertical => (total_rank(displays[id].center_y) * 0x1_0000_0000
                + total_rank(displays[id].center_x)) * 0x1_0000_0000 + id,
        }
}

/// The displays as they are arranged.
pub open spec fn arrangement(
    displays: Map<u32, DisplayInfo>,
    order: DisplayArrangementOrder,
) -> Seq<u32> {
    choose|s: Seq<u32>| idmap::lists_by(s, displays.dom(), display_measure(displays, order))
}

/// The map without the keys that have a given value.
pub open spec fn without_value<K, W>(m: Map<K, W>, w: W) -> Map<K, W> {
    Map::new(|k: K| m.dom().contains(k) && m[k] != w, |k: K| m[k])
}

impl TopologyModel {
    /// Labels are unique among spaces and among displays.
    pub open spec fn wf(self) -> bool {
        labels::unique(self.space_labels) && labels::unique(self.display_labels)
    }

    /// The spaces of a display.
    pub open spec fn spaces_on(self, display_id: u32) -> Set<u64> {
        Set::new(
            |sid: u64|
                self.space_displays.dom().contains(sid) && self.space_displays[sid] == display_id,
        )
    }

    /// The display of a space, if it is known.
    pub open spec fn display_of(self, sid: u64) -> Option<u32> {
        if self.space_displays.dom().contains(sid) {
            Some(self.space_displays[sid])
        } else {
            None
        }
    }

    /// The space that a display shows, if it is known.
    pub open spec fn shown_on(self, display_id: u32) -> Option<u64> {
        if self.display_active_space.dom().contains(display_id) {
            Some(self.display_active_space[display_id])
        } else {
            None
        }
    }

    /// The one-based place of a display in the arrangement.
    pub open spec fn display_index(
        self,
        display_id: u32,
        order: DisplayArrangementOrder,
    ) -> Option<int> {
        let s = arrangement(self.displays, order);
        if s.contains(display_id) {
            Some(s.index_of(display_id) + 1)
        } else {
            None
        }
    }

    /// Whether a space is shown: it is the one its display shows, or the active
    /// one where that is not known.
    pub open spec fn is_visible(self, sid: u64, active_space: Option<u64>) -> bool {
        match self.display_of(sid) {
            Some(did) if self.shown_on(did) is Some => self.shown_on(did) == Some(sid),
            _ => active_space == Some(sid),
        }
    }

    pub open spec fn without_display(self, display_id: u32) -> TopologyModel {
        TopologyModel {
            displays: self.displays.remove(display_id),
            display_active_space: self.display_active_space.remove(display_id),
            space_displays: without_value(self.space_displays, display_id),
            ..self
        }
    }

    pub open spec fn without_space(self, sid: u64) -> TopologyModel {
        TopologyModel {
            space_displays: self.space_displays.remove(sid),
            display_active_space: without_value(self.display_active_space, sid),
            ..self
        }
    }
}

/// Drop every key that has a given value.
fn drop_value<K: Id, W: Id>(map: &mut IdMap<K, W>, w: W)
    requires
        old(map).wf(),
    ensures
        final(map).wf(),
        final(map)@ == without_value(old(map)@, w),
{
    let ghost pre = map@;
    let keys = map.keys();
    let mut i: usize = 0;
    while i < keys.len()
        invariant
            map.wf(),
            i <= keys.len(),
            idmap::lists(keys@, pre.dom()),
            forall|k: K| #[trigger]
                map@.dom().contains(k) <==> pre.dom().contains(k) && !(pre[k] == w
                    && keys@.take(i as int).contains(k)),
            forall|k: K| #[trigger] map@.dom().contains(k) ==> map@[k] == pre[k],
        decreases keys.len() - i,
    {
        let k = keys[i];
        let ghost before = map@;
        let hit = match map.get(k) {
            Some(value) => {
                let same = !value.below(w) && !w.below(*value);
                proof {
                    if same {
                        W::rank_injective(*value, w);
                    }
                }
                same
            },
            None => false,
        };
        if hit {
            let _ = map.remove(k);
        }
        proof {
            assert(keys@.contains(k));
            idmap::lemma_take_step(keys@, i as int);
            if keys@.take(i as int).contains(k) {
                let front = keys@.take(i as int);
                let j = choose|j: int| 0 <= j < front.len() && front[j] == k;
                assert(keys@[j].rank() < keys@[i as int].rank());
            }
        }
        i += 1;
    }
    proof {
        assert(keys@.take(keys@.len() as int) =~= keys@);
        assert forall|k: K| #[trigger] map@.dom().contains(k) <==> without_value(
            pre,
            w,
        ).dom().contains(k) by {
            if pre.dom().contains(k) {
                assert(keys@.contains(k));
            }
        }
        assert(map@ =~= without_value(pre, w));
    }
}

fn rank_of_bits(bits: u32) -> (r: i64)
    ensures
        r == total_rank(bits),
        -0x8000_0000 <= r < 0x8000_0000,
{
    if bits < 0x8000_0000 {
        bits as i64
    } else {
        0x7fff_ffff - bits as i64
    }
}

fn combined_rank(major: u32, minor: u32, id: u32) -> (r: i128)
    ensures
        r == (total_rank(major) * 0x1_0000_0000 + total_rank(minor)) * 0x1_0000_0000 + id,
{
    (rank_of_bits(major) as i128 * 0x1_0000_0000 + rank_of_bits(minor) as i128) * 0x1_0000_0000
        + id as i128
}

impl View for Topology {
    type V = TopologyModel;

    closed spec fn view(&self) -> TopologyModel {
        TopologyModel {
            displays: self.displays@,
            space_displays: self.space_displays@,
            display_active_space: self.display_active_space@,
            space_labels: labels::label_map(self.space_labels@),
            display_labels: labels::label_map(self.display_labels@),
            main_display: self.main_display,
            mission_control: self.mission_control@,
            cursor_display: self.cursor_display,
            cursor_window: self.cursor_window,
        }
    }
}

impl Topology {
    pub closed spec fn wf(&self) -> bool {
        &&& self.displays.wf()
        &&& self.space_displays.wf()
        &&& self.display_active_space.wf()
        &&& self.space_labels.wf()
        &&& self.display_labels.wf()
        &&& self@.wf()
    }

    pub proof fn lemma_wf(&self)
        requires
            self.wf(),
        ensures
            self@.wf(),
    {
    }

    /// Nothing known yet.
    pub fn new() -> (r: Self)
        ensures
            r.wf(),
            r@ == (TopologyModel {
                displays: Map::empty(),
                space_displays: Map::empty(),
                display_active_space: Map::empty(),
                space_labels: Map::empty(),
                display_labels: Map::empty(),
                main_display: None,
                mission_control: Seq::empty(),
                cursor_display: None,
                cursor_window: None,
            }),
    {
        let r = Topology {
            displays: IdMap::new(),
            space_displays: IdMap::new(),
            display_active_space: IdMap::new(),
            space_labels: IdMap::new(),
            display_labels: IdMap::new(),
            main_display: None,
            mission_control: Vec::new(),
            cursor_display: None,
            cursor_window: None,
        };
        assert(r@.space_labels =~= Map::<u64, Seq<char>>::empty());
        assert(r@.display_labels =~= Map::<u32, Seq<char>>::empty());
        r
    }

    /// Register a display, replacing what was known of it.
    pub fn add_display(&mut self, display_id: u32, info: DisplayInfo)
        requires
            old(self).wf(),
        ensures
            final(self).wf(),
            final(self)@ == (TopologyModel {
                displays: old(self)@.displays.insert(display_id, info),
                ..old(self)@
            }),
    {
        self.displays.insert(display_id, info);
    }

    /// Forget a display and which spaces it had.
    pub fn remove_display(&mut self, display_id: u32)
        requires
            old(self).wf(),
        ensures
            final(self).wf(),
            final(self)@ == old(self)@.without_display(display_id),
    {
        let _ = self.displays.remove(display_id);
        let _ = self.display_active_space.remove(display_id);
        drop_value(&mut self.space_displays, display_id);
    }

    /// Forget a space.
    pub fn remove_space(&mut self, sid: u64)
        requires
            old(self).wf(),
        ensures
            final(self).wf(),
            final(self)@ == old(self)@.without_space(sid),
    {
        let _ = self.space_displays.remove(sid);
        drop_value(&mut self.display_active_space, sid);
    }

    pub fn set_space_display(&mut self, sid: u64, display_id: u32)
        requires
            old(self).wf(),
        ensures
            final(self).wf(),
            final(self)@ == (TopologyModel {
                space_displays: old(self)@.space_displays.insert(sid, display_id),
                ..old(self)@
            }),
    {
        self.space_displays.insert(sid, display_id);
    }

    pub fn set_display_active_space(&mut self, display_id: u32, sid: u64)
        requires
            old(self).wf(),
        ensures
            final(self).wf(),
            final(self)@ == (TopologyModel {
                display_active_space: old(self)@.display_active_space.insert(display_id, sid),
                ..old(self)@
            }),
    {
        self.display_active_space.insert(display_id, sid);
    }

    pub fn set_main_display(&mut self, display_id: u32)
        requires
            old(self).wf(),
        ensures
            final(self).wf(),
            final(self)@ == (TopologyModel { main_display: Some(display_id), ..old(self)@ }),
    {
        self.main_display = Some(display_id);
    }

    pub fn set_mission_control_order(&mut self, order: Vec<u64>)
        requires
            old(self).wf(),
        ensures
            final(self).wf(),
            final(self)@ == (TopologyModel { mission_control: order@, ..old(self)@ }),
    {
        self.mission_control = order;
    }

    /// Record what lies under the cursor.
    pub fn set_cursor(&mut self, display: Option<u32>, window: Option<u32>)
        requires
            old(self).wf(),
        ensures
            final(self).wf(),
            final(self)@ == (TopologyModel {
                cursor_display: display,
                cursor_window: window,
                ..old(self)@
            }),
    {
        self.cursor_display = display;
        self.cursor_window = window;
    }

    pub fn display(&self, display_id: u32) -> (r: Option<&DisplayInfo>)
        requires
            self.wf(),
        ensures
            match r {
                Some(info) => self@.displays.dom().contains(display_id) && *info
                    == self@.displays[display_id],
                None => !self@.displays.dom().contains(display_id),
            },
    {
        self.displays.get(display_id)
    }

    pub fn space_display(&self, sid: u64) -> (r: Option<u32>)
        requires
            self.wf(),
        ensures
            r == self@.display_of(sid),
    {
        match self.space_displays.get(sid) {
            Some(did) => Some(*did),
            None => None,
        }
    }

    pub fn display_active_space_id(&self, display_id: u32) -> (r: Option<u64>)
        requires
            self.wf(),
        ensures
            r == self@.shown_on(display_id),
    {
        match self.display_active_space.get(display_id) {
            Some(sid) => Some(*sid),
            None => None,
        }
    }

    /// The displays for which the shown space is known, in ascending order.
    pub fn showing_displays(&self) -> (r: Vec<u32>)
        requires
            self.wf(),
        ensures
            r@ == idmap::ids_of(self@.display_active_space.dom()),
            idmap::lists(r@, self@.display_active_space.dom()),
    {
        self.display_active_space.keys()
    }

    pub fn main_display_id(&self) -> (r: Option<u32>)
        ensures
            r == self@.main_display,
    {
        self.main_display
    }

    pub fn cursor_display_id(&self) -> (r: Option<u32>)
        ensures
            r == self@.cursor_display,
    {
        self.cursor_display
    }

    pub fn cursor_window_id(&self) -> (r: Option<u32>)
        ensures
            r == self@.cursor_window,
    {
        self.cursor_window
    }

    pub fn mission_control_order(&self) -> (r: &Vec<u64>)
        ensures
            r@ == self@.mission_control,
    {
        &self.mission_control
    }

    /// The label of a space.
    pub fn space_label(&self, sid: u64) -> (r: Option<&String>)
        requires
            self.wf(),
        ensures
            match r {
                Some(s) => labels::owns(self@.space_labels, sid, s@),
                None => !self@.space_labels.dom().contains(sid),
            },
    {
        self.space_labels.get(sid)
    }

    /// The label of a display.
    pub fn display_label(&self, display_id: u32) -> (r: Option<&String>)
        requires
            self.wf(),
        ensures
            match r {
                Some(s) => labels::owns(self@.display_labels, display_id, s@),
                None => !self@.display_labels.dom().contains(display_id),
            },
    {
        self.display_labels.get(display_id)
    }

    pub fn space_with_label(&self, label: &str) -> (r: Option<u64>)
        requires
            self.wf(),
        ensures
            r == labels::owner(self@.space_labels, label@),
    {
        labels::find_label(&self.space_labels, label)
    }

    pub fn display_with_label(&self, label: &str) -> (r: Option<u32>)
        requires
            self.wf(),
        ensures
            r == labels::owner(self@.display_labels, label@),
    {
        labels::find_label(&self.display_labels, label)
    }

    /// Give a space a label, or clear it.
    pub fn set_space_label(&mut self, sid: u64, label: &str) -> (r: Result<(), String>)
        requires
            old(self).wf(),
        ensures
            final(self).wf(),
            match labels::label_error(labels::LabelKind::Space, label@) {
                Some(error) => r is Err && r->Err_0@ == error && final(self)@ == old(self)@,
                None => r is Ok && final(self)@ == (TopologyModel {
                    space_labels: labels::relabelled(old(self)@.space_labels, sid, label@),
                    ..old(self)@
                }),
            },
    {
        labels::set_label(&mut self.space_labels, labels::LabelKind::Space, sid, label)
    }

    /// Give a display a label, or clear it.
    pub fn set_display_label(&mut self, display_id: u32, label: &str) -> (r: Result<(), String>)
        requires
            old(self).wf(),
        ensures
            final(self).wf(),
            match labels::label_error(labels::LabelKind::Display, label@) {
                Some(error) => r is Err && r->Err_0@ == error && final(self)@ == old(self)@,
                None => r is Ok && final(self)@ == (TopologyModel {
                    display_labels: labels::relabelled(
                        old(self)@.display_labels,
                        display_id,
                        label@,
                    ),
                    ..old(self)@
                }),
            },
    {
        labels::set_label(
            &mut self.display_labels,
            labels::LabelKind::Display,
            display_id,
            label,
        )
    }

    /// The spaces of a display, in ascending order.
    pub fn display_spaces(&self, display_id: u32) -> (r: Vec<u64>)
        requires
            self.wf(),
        ensures
            r@ == idmap::ids_of(self@.spaces_on(display_id)),
            idmap::lists(r@, self@.spaces_on(display_id)),
    {
        let ids = self.space_displays.keys();
        let ghost all = ids@;
        let mut out: Vec<u64> = Vec::new();
        let mut i: usize = 0;
        while i < ids.len()
            invariant
                self.wf(),
                all == ids@,
                idmap::lists(all, self@.space_displays.dom()),
                i <= all.len(),
                idmap::ascending(out@),
                forall|k: int| 0 <= k < out@.len() && i < all.len() ==> #[trigger] out@[k]
                    < all[i as int],
                forall|sid: u64|
                    #[trigger] out@.contains(sid) <==> all.take(i as int).contains(sid)
                        && self@.spaces_on(display_id).contains(sid),
            decreases all.len() - i,
        {
            let sid = ids[i];
            assert(all.contains(sid));
            let on = match self.space_displays.get(sid) {
                Some(did) => *did == display_id,
                None => false,
            };
            let ghost before = out@;
            proof {
                idmap::lemma_take_step(all, i as int);
                if i + 1 < all.len() {
                    assert(Id::rank(all[i as int]) < Id::rank(all[i + 1]));
                }
            }
            if on {
                out.push(sid);
                proof {
                    assert forall|s: u64| #[trigger] out@.contains(s) <==> before.contains(s) || s
                        == sid by {
                        if before.contains(s) {
                            let j = choose|j: int| 0 <= j < before.len() && before[j] == s;
                            assert(out@[j] == s);
                        }
                        assert(out@[before.len() as int] == sid);
                        if out@.contains(s) && s != sid {
                            let j = choose|j: int| 0 <= j < out@.len() && out@[j] == s;
                            assert(before[j] == s);
                        }
                    }
                }
            }
            i += 1;
        }
        proof {
            assert(all.take(all.len() as int) =~= all);
            assert(idmap::lists(out@, self@.spaces_on(display_id)));
            idmap::lemma_ids_of(out@, self@.spaces_on(display_id));
        }
        out
    }

    fn measure(&self, id: u32, order: DisplayArrangementOrder) -> (r: i128)
        requires
            self.wf(),
            self@.displays.dom().contains(id),
        ensures
            r == display_measure(self@.displays, order)(id),
    {
        match self.displays.get(id) {
            Some(info) => match order {
                DisplayArrangementOrder::Default => id as i128,
                DisplayArrangementOrder::Horizontal => combined_rank(
                    info.center_x,
                    info.center_y,
                    id,
                ),
                DisplayArrangementOrder::Vertical => combined_rank(
                    info.center_y,
                    info.center_x,
                    id,
                ),
            },
            None => 0,
        }
    }

    /// The displays as they are arranged.
    pub fn display_ids(&self, order: DisplayArrangementOrder) -> (r: Vec<u32>)
        requires
            self.wf(),
        ensures
            r@ == arrangement(self@.displays, order),
            idmap::lists_by(r@, self@.displays.dom(), display_measure(self@.displays, order)),
    {
        let ids = self.displays.keys();
        let ghost f = display_measure(self@.displays, order);
        let mut out: Vec<u32> = Vec::new();
        let mut i: usize = 0;
        while i < ids.len()
            invariant
                self.wf(),
                i <= ids.len(),
                f == display_measure(self@.displays, order),
                idmap::lists(ids@, self@.displays.dom()),
                idmap::sorted_by(out@, f),
                forall|d: u32| #[trigger] out@.contains(d) <==> ids@.take(i as int).contains(d),
            decreases ids.len() - i,
        {
            let id = ids[i];
            assert(ids@.contains(id));
            let m = self.measure(id, order);
            let mut at: usize = 0;
            let ghost prior = out@;
            proof {
                assert forall|d: u32| #[trigger] prior.contains(d) implies self@.displays.dom().contains(
                    d,
                ) && d != id by {
                    let front = ids@.take(i as int);
                    assert(front.contains(d));
                    let j = choose|j: int| 0 <= j < front.len() && front[j] == d;
                    assert(ids@[j] == d);
                    assert(ids@.contains(d));
                    assert(Id::rank(ids@[j]) < Id::rank(ids@[i as int]));
                }
            }
            let mut stop = false;
            while at < out.len() && !stop
                invariant
                    self.wf(),
                    out@ == prior,
                    at <= out@.len(),
                    m == f(id),
                    f == display_measure(self@.displays, order),
                    forall|d: u32| #[trigger]
                        prior.contains(d) ==> self@.displays.dom().contains(d) && d != id,
                    forall|k: int| 0 <= k < at ==> f(#[trigger] out@[k]) < m,
                    stop ==> at < out@.len() && f(out@[at as int]) >= m,
                decreases out@.len() - at, if stop { 0int } else { 1int },
            {
                assert(prior.contains(out@[at as int]));
                if self.measure(out[at], order) < m {
                    at += 1;
                } else {
                    stop = true;
                }
            }
            out.insert(at, id);
            proof {
                assert(out@ == prior.insert(at as int, id));
                assert forall|a: int, b: int| 0 <= a < b < out@.len() implies f(#[trigger] out@[a])
                    < f(#[trigger] out@[b]) by {
                    let pa = if a < at { a } else { a - 1 };
                    let pb = if b < at { b } else { b - 1 };
                    if a != at {
                        assert(out@[a] == prior[pa]);
                    }
                    if b != at {
                        assert(out@[b] == prior[pb]);
                    }
                    if a == at {
                        assert(prior.contains(prior[at as int]));
                        lemma_measure_injective(self@.displays, order, prior[at as int], id);
                        if pb > at {
                            assert(f(prior[at as int]) < f(prior[pb]));
                        }
                    } else if b == at {
                        assert(f(prior[pa]) < m);
                    } else {
                        assert(f(prior[pa]) < f(prior[pb]));
                    }
                }
                idmap::lemma_take_step(ids@, i as int);
                assert forall|d: u32| #[trigger] out@.contains(d) <==> prior.contains(d) || d
                    == id by {
                    if out@.contains(d) {
                        let j = choose|j: int| 0 <= j < out@.len() && out@[j] == d;
                        if j < at {
                            assert(prior[j] == d);
                        } else if j > at {
                            assert(prior[j - 1] == d);
                        }
                    }
                    if prior.contains(d) {
                        let j = choose|j: int| 0 <= j < prior.len() && prior[j] == d;
                        if j < at {
                            assert(out@[j] == d);
                        } else {
                            assert(out@[j + 1] == d);
                        }
                    }
                    assert(out@[at as int] == id);
                }
            }
            i += 1;
        }
        proof {
            assert(ids@.take(ids@.len() as int) =~= ids@);
            assert(idmap::lists_by(out@, self@.displays.dom(), f));
            idmap::lemma_lists_by_unique(
                out@,
                arrangement(self@.displays, order),
                self@.displays.dom(),
                f,
            );
        }
        out
    }

    /// The one-based place of a display in the arrangement.
    pub fn display_index(&self, display_id: u32, order: DisplayArrangementOrder) -> (r: Option<
        usize,
    >)
        requires
            self.wf(),
        ensures
            match r {
                Some(i) => self@.display_index(display_id, order) == Some(i as int),
                None => self@.display_index(display_id, order) is None,
            },
    {
        let ids = self.display_ids(order);
        let count = ids.len();
        assert(count == ids@.len());
        match crate::tiling::position(&ids, display_id) {
            Some(i) => {
                proof {
                    let k = ids@.index_of(display_id);
                    assert(ids@.contains(display_id));
                    assert(ids@[k] == display_id);
                    let f = display_measure(self@.displays, order);
                    if i < k {
                        assert(f(ids@[i as int]) < f(ids@[k]));
                    }
                }
                Some(i + 1)
            },
            None => None,
        }
    }

    /// Whether a space is shown.
    pub fn space_is_visible(&self, sid: u64, active_space: Option<u64>) -> (r: bool)
        requires
            self.wf(),
        ensures
            r == self@.is_visible(sid, active_space),
    {
        if let Some(did) = self.space_display(sid) {
            if let Some(shown) = self.display_active_space_id(did) {
                return shown == sid;
            }
        }
        active_space == Some(sid)
    }
}

proof fn lemma_measure_injective(
    displays: Map<u32, DisplayInfo>,
    order: DisplayArrangementOrder,
    a: u32,
    b: u32,
)
    ensures
        display_measure(displays, order)(a) == display_measure(displays, order)(b) ==> a == b,
{
}

/// Displays are arranged by the order set: by their ids, or by their centres from
/// left to right or from top to bottom, then across, then by their ids. Each display
/// is there once.
pub proof fn law_arrangement_goes_by_its_order(
    displays: Map<u32, DisplayInfo>,
    order: DisplayArrangementOrder,
)
    requires
        displays.dom().finite(),
    ensures
        arrangement(displays, order).no_duplicates(),
        forall|did: u32| #[trigger]
            arrangement(displays, order).contains(did) <==> displays.dom().contains(did),
        forall|i: int, j: int|
            0 <= i < j < arrangement(displays, order).len() ==> ({
                let a = #[trigger] arrangement(displays, order)[i];
                let b = #[trigger] arrangement(displays, order)[j];
                let ax = total_rank(displays[a].center_x);
                let ay = total_rank(displays[a].center_y);
                let bx = total_rank(displays[b].center_x);
                let by = total_rank(displays[b].center_y);
                match order {
                    DisplayArrangementOrder::Default => a < b,
                    DisplayArrangementOrder::Horizontal => ax < bx || ax == bx && (ay < by || ay
                        == by && a < b),
                    DisplayArrangementOrder::Vertical => ay < by || ay == by && (ax < bx || ax
                        == bx && a < b),
                }
            }),
{
    lemma_arranged(displays, order);
    let f = display_measure(displays, order);
    let arranged = arrangement(displays, order);
    assert forall|i: int, j: int| 0 <= i < j < arranged.len() implies ({
        let a = #[trigger] arranged[i];
        let b = #[trigger] arranged[j];
        let ax = total_rank(displays[a].center_x);
        let ay = total_rank(displays[a].center_y);
        let bx = total_rank(displays[b].center_x);
        let by = total_rank(displays[b].center_y);
        match order {
            DisplayArrangementOrder::Default => a < b,
            DisplayArrangementOrder::Horizontal => ax < bx || ax == bx && (ay < by || ay == by && a
                < b),
            DisplayArrangementOrder::Vertical => ay < by || ay == by && (ax < bx || ax == bx && a
                < b),
        }
    }) by {
        assert(f(arranged[i]) < f(arranged[j]));
        let a = displays[arranged[i]];
        let b = displays[arranged[j]];
        lemma_ranks_order(
            total_rank(a.center_x),
            total_rank(a.center_y),
            arranged[i],
            total_rank(b.center_x),
            total_rank(b.center_y),
            arranged[j],
        );
        lemma_ranks_order(
            total_rank(a.center_y),
            total_rank(a.center_x),
            arranged[i],
            total_rank(b.center_y),
            total_rank(b.center_x),
            arranged[j],
        );
    }
    assert forall|i: int, j: int| 0 <= i < arranged.len() && 0 <= j < arranged.len() && i
        != j implies arranged[i] != arranged[j] by {
        if i < j {
            assert(f(arranged[i]) < f(arranged[j]));
        } else {
            assert(f(arranged[j]) < f(arranged[i]));
        }
    }
}

/// The arrangement lists the displays by their measure.
pub proof fn lemma_arranged(displays: Map<u32, DisplayInfo>, order: DisplayArrangementOrder)
    requires
        displays.dom().finite(),
    ensures
        idmap::lists_by(
            arrangement(displays, order),
            displays.dom(),
            display_measure(displays, order),
        ),
{
    let f = display_measure(displays, order);
    assert forall|a: u32, b: u32|
        displays.dom().contains(a) && displays.dom().contains(b) && #[trigger] f(a) == #[trigger] f(
            b,
        ) implies a == b by {
        let x = displays[a];
        let y = displays[b];
        lemma_measure_tells_apart(
            total_rank(x.center_x) * 0x1_0000_0000 + total_rank(x.center_y),
            a,
            total_rank(y.center_x) * 0x1_0000_0000 + total_rank(y.center_y),
            b,
        );
        lemma_measure_tells_apart(
            total_rank(x.center_y) * 0x1_0000_0000 + total_rank(x.center_x),
            a,
            total_rank(y.center_y) * 0x1_0000_0000 + total_rank(y.center_x),
            b,
        );
    }
    let s = idmap::lemma_lists_by_exists(displays.dom(), f);
    assert(idmap::lists_by(s, displays.dom(), f));
}

proof fn lemma_measure_tells_apart(x: int, a: u32, y: int, b: u32)
    ensures
        x * 0x1_0000_0000 + a == y * 0x1_0000_0000 + b ==> a == b,
{
}

proof fn lemma_ranks_order(ax: int, ay: int, a: u32, bx: int, by: int, b: u32)
    requires
        -0x8000_0000 <= ax < 0x8000_0000,
        -0x8000_0000 <= ay < 0x8000_0000,
        -0x8000_0000 <= bx < 0x8000_0000,
        -0x8000_0000 <= by < 0x8000_0000,
    ensures
        (ax * 0x1_0000_0000 + ay) * 0x1_0000_0000 + a < (bx * 0x1_0000_0000 + by) * 0x1_0000_0000
            + b ==> ax < bx || ax == bx && ay < by || ax == bx && ay == by && a < b,
{
}

/// The order of the centres is that of the values their bits stand for: below zero the
/// greater magnitude comes first, and everything below zero before the rest.
pub proof fn law_total_rank_orders_bits(a: u32, b: u32)
    ensures
        a < 0x8000_0000 && b < 0x8000_0000 ==> (total_rank(a) < total_rank(b) <==> a < b),
        a >= 0x8000_0000 && b >= 0x8000_0000 ==> (total_rank(a) < total_rank(b) <==> a > b),
        a >= 0x8000_0000 && b < 0x8000_0000 ==> total_rank(a) < total_rank(b),
        total_rank(a) == total_rank(b) ==> a == b,
{
}

/// A space is shown if its display shows it; where that is not known, if it is the
/// active one. A display shows no two spaces.
pub proof fn law_shown_spaces(
    t: TopologyModel,
    sid: u64,
    other: u64,
    did: u32,
    active: Option<u64>,
)
    ensures
        t.space_displays.dom().contains(sid) && t.space_displays[sid] == did
            && t.display_active_space.dom().contains(did) ==> (t.is_visible(sid, active)
            <==> t.display_active_space[did] == sid),
        !t.space_displays.dom().contains(sid) ==> (t.is_visible(sid, active) <==> active == Some(
            sid,
        )),
        t.space_displays.dom().contains(sid) && !t.display_active_space.dom().contains(
            t.space_displays[sid],
        ) ==> (t.is_visible(sid, active) <==> active == Some(sid)),
        t.space_displays.dom().contains(sid) && t.space_displays[sid] == did
            && t.space_displays.dom().contains(other) && t.space_displays[other] == did
            && t.is_visible(sid, active) && t.is_visible(other, active) ==> sid == other,
{
}

/// A display or a space that goes is forgotten with what pointed at it; labels, and
/// whatever did not point at it, stay.
pub proof fn law_gone_from_the_topology(
    t: TopologyModel,
    did: u32,
    sid: u64,
    other: u64,
    shown: u32,
)
    ensures
        ({
            let u = t.without_display(did);
            &&& u.displays == t.displays.remove(did)
            &&& !u.display_active_space.dom().contains(did)
            &&& shown != did && t.display_active_space.dom().contains(shown)
                ==> u.display_active_space.dom().contains(shown) && u.display_active_space[shown]
                == t.display_active_space[shown]
            &&& t.space_displays.dom().contains(other) && t.space_displays[other] == did
                ==> !u.space_displays.dom().contains(other)
            &&& t.space_displays.dom().contains(other) && t.space_displays[other] != did
                ==> u.space_displays.dom().contains(other) && u.space_displays[other]
                == t.space_displays[other]
            &&& u.space_labels == t.space_labels
            &&& u.display_labels == t.display_labels
        }),
        ({
            let u = t.without_space(sid);
            &&& u.displays == t.displays
            &&& u.space_displays == t.space_displays.remove(sid)
            &&& t.display_active_space.dom().contains(shown) && t.display_active_space[shown] == sid
                ==> !u.display_active_space.dom().contains(shown)
            &&& t.display_active_space.dom().contains(shown) && t.display_active_space[shown] != sid
                ==> u.display_active_space.dom().contains(shown) && u.display_active_space[shown]
                == t.display_active_space[shown]
            &&& u.space_labels == t.space_labels
            &&& u.display_labels == t.display_labels
        }),
{
}

/// The place of a display counts from one in the arrangement.
pub proof fn law_display_index_counts_from_one(
    t: TopologyModel,
    order: DisplayArrangementOrder,
    did: u32,
    i: int,
)
    requires
        t.displays.dom().finite(),
    ensures
        0 <= i < arrangement(t.displays, order).len() && arrangement(t.displays, order)[i] == did
            ==> t.display_index(did, order) == Some(i + 1),
        !t.displays.dom().contains(did) ==> t.display_index(did, order) is None,
{
    law_arrangement_goes_by_its_order(t.displays, order);
    let s = arrangement(t.displays, order);
    if 0 <= i < s.len() && s[i] == did {
        assert(s.contains(did));
        assert(s[s.index_of(did)] == did);
    }
}

} // verus!
