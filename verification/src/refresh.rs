//! Taking in the displays and spaces that the system shows, and the windows that
//! applications have.
use vstd::prelude::*;

use crate::dispatch;
use crate::dispatch::StateEvent;
use crate::idmap;
use crate::idmap::{Id, IdMap};
use crate::notices;
use crate::notices::SignalCall;
use crate::rules;
use crate::rules::RuleEffects;
use crate::signals::SignalEvent;
use crate::spaces;
use crate::state::{AppState, State, WindowMeta};
use crate::text;
use crate::topology;
use crate::topology::DisplayInfo;
use crate::types::Area;

verus! {

/// A display as the system shows it.
#[derive(Debug)]
pub struct LiveDisplay {
    pub id: u32,
    pub info: DisplayInfo,
    /// The part of the frame that windows may use.
    pub usable: Area,
    /// The spaces of the display, if they can be told.
    pub spaces: Option<Vec<u64>>,
    /// The space that the display shows, if it can be told.
    pub current: Option<u64>,
}

/// What changed when the displays were taken in.
#[derive(Debug)]
pub struct TopologyChange {
    pub created_spaces: Vec<u64>,
    pub destroyed_spaces: Vec<u64>,
    pub added_displays: Vec<u32>,
    pub removed_displays: Vec<u32>,
}

/// The spaces of a live display: those listed, and the one shown.
pub open spec fn spaces_of(d: LiveDisplay) -> Seq<u64> {
    let list = match d.spaces {
        Some(list) => list@,
        None => Seq::empty(),
    };
    match d.current {
        Some(sid) => if list.contains(sid) {
            list
        } else {
            list.push(sid)
        },
        None => list,
    }
}

/// Whether the spaces of every display could be told.
pub open spec fn is_complete(ds: Seq<LiveDisplay>) -> bool {
    forall|i: int| 0 <= i < ds.len() ==> (#[trigger] ds[i]).spaces is Some
}

/// The spaces of live displays.
pub open spec fn live_spaces(ds: Seq<LiveDisplay>) -> Set<u64>
    decreases ds.len(),
{
    if ds.len() == 0 {
        Set::empty()
    } else {
        live_spaces(ds.drop_last()).union(spaces_of(ds.last()).to_set())
    }
}

/// The ids of live displays.
pub open spec fn live_ids(ds: Seq<LiveDisplay>) -> Set<u32>
    decreases ds.len(),
{
    if ds.len() == 0 {
        Set::empty()
    } else {
        live_ids(ds.drop_last()).insert(ds.last().id)
    }
}

/// The ids in a list that are not in a set.
pub open spec fn missing_from<K>(ids: Seq<K>, set: Set<K>) -> Seq<K> {
    ids.filter(|id: K| !set.contains(id))
}

impl State {
    /// The first `k` of some spaces taken in on a display.
    pub open spec fn with_live_spaces(
        self,
        did: u32,
        usable: Area,
        list: Seq<u64>,
        k: int,
    ) -> State
        decreases k,
    {
        if k <= 0 {
            self
        } else {
            self.with_live_spaces(did, usable, list, k - 1).with_space_on(
                list[k - 1],
                did,
                usable,
            ).framed(list[k - 1], usable)
        }
    }

    /// The state with a space shown on a display.
    pub open spec fn showing(self, did: u32, sid: u64) -> State {
        State {
            topology: topology::TopologyModel {
                display_active_space: self.topology.display_active_space.insert(did, sid),
                ..self.topology
            },
            ..self
        }
    }

    /// A live display taken in: its frame, its spaces, and the one it shows.
    pub open spec fn with_live_display(self, d: LiveDisplay) -> State {
        let there = State {
            topology: topology::TopologyModel {
                displays: self.topology.displays.insert(d.id, d.info),
                ..self.topology
            },
            ..self
        };
        let list = spaces_of(d);
        let s = there.with_live_spaces(d.id, d.usable, list, list.len() as int);
        match d.current {
            Some(sid) => if s.tiling.spaces.dom().contains(sid) {
                s.showing(d.id, sid)
            } else {
                s
            },
            None => s,
        }
    }

    /// The first `k` live displays taken in.
    pub open spec fn with_live_displays(self, ds: Seq<LiveDisplay>, k: int) -> State
        decreases k,
    {
        if k <= 0 {
            self
        } else {
            self.with_live_displays(ds, k - 1).with_live_display(ds[k - 1])
        }
    }

    /// The first `k` of some spaces removed, unless they are live.
    pub open spec fn without_dead_spaces(self, ids: Seq<u64>, k: int, live: Set<u64>) -> State
        decreases k,
    {
        if k <= 0 {
            self
        } else {
            let s = self.without_dead_spaces(ids, k - 1, live);
            if live.contains(ids[k - 1]) {
                s
            } else {
                s.without_space(ids[k - 1])
            }
        }
    }

    /// The first `k` of some displays removed, unless they are live.
    pub open spec fn without_dead_displays(self, ids: Seq<u32>, k: int, live: Set<u32>) -> State
        decreases k,
    {
        if k <= 0 {
            self
        } else {
            let s = self.without_dead_displays(ids, k - 1, live);
            if live.contains(ids[k - 1]) {
                s
            } else {
                State { topology: s.topology.without_display(ids[k - 1]), ..s }
            }
        }
    }

    /// The state after the live displays were taken in. Spaces that no display
    /// has are removed if every display told its spaces; displays that are not
    /// live are removed in any case.
    pub open spec fn refreshed(self, main: u32, ds: Seq<LiveDisplay>) -> State {
        let start = State {
            topology: topology::TopologyModel { main_display: Some(main), ..self.topology },
            ..self
        };
        let s = start.with_live_displays(ds, ds.len() as int);
        let ids = idmap::ids_of(s.tiling.spaces.dom());
        let t = if is_complete(ds) {
            s.without_dead_spaces(ids, ids.len() as int, live_spaces(ds))
        } else {
            s
        };
        let dids = topology::arrangement(
            t.topology.displays,
            t.config.display_arrangement_order,
        );
        t.without_dead_displays(dids, dids.len() as int, live_ids(ds))
    }

    /// The first `k` live displays, without their spaces.
    pub open spec fn with_bare_displays(self, ds: Seq<LiveDisplay>, k: int) -> State
        decreases k,
    {
        if k <= 0 {
            self
        } else {
            let s = self.with_bare_displays(ds, k - 1);
            State {
                topology: topology::TopologyModel {
                    displays: s.topology.displays.insert(ds[k - 1].id, ds[k - 1].info),
                    ..s.topology
                },
                ..s
            }
        }
    }

    /// The first `k` of some spaces on a display.
    pub open spec fn with_spaces_on(self, did: u32, usable: Area, list: Seq<u64>, k: int) -> State
        decreases k,
    {
        if k <= 0 {
            self
        } else {
            self.with_spaces_on(did, usable, list, k - 1).with_space_on(list[k - 1], did, usable)
        }
    }

    /// The spaces of the first `k` live displays, and which ones are shown.
    pub open spec fn with_seeded_spaces(self, ds: Seq<LiveDisplay>, k: int) -> State
        decreases k,
    {
        if k <= 0 {
            self
        } else {
            let d = ds[k - 1];
            let list = spaces_of(d);
            let s = self.with_seeded_spaces(ds, k - 1).with_spaces_on(
                d.id,
                d.usable,
                list,
                list.len() as int,
            );
            match d.current {
                Some(sid) => s.showing(d.id, sid),
                None => s,
            }
        }
    }

    /// The state that a daemon starts with: the live displays, then their spaces.
    pub open spec fn seeded(self, ds: Seq<LiveDisplay>) -> State {
        self.with_bare_displays(ds, ds.len() as int).with_seeded_spaces(ds, ds.len() as int)
    }

    /// The first `k` of some spaces given the same frame.
    pub open spec fn with_frames(self, list: Seq<u64>, usable: Area, k: int) -> State
        decreases k,
    {
        if k <= 0 {
            self
        } else {
            self.with_frames(list, usable, k - 1).framed(list[k - 1], usable)
        }
    }

    /// The spaces of the first `k` live displays given their frames.
    pub open spec fn with_seeded_frames(self, ds: Seq<LiveDisplay>, k: int) -> State
        decreases k,
    {
        if k <= 0 {
            self
        } else {
            let d = ds[k - 1];
            let list = spaces_of(d);
            self.with_seeded_frames(ds, k - 1).with_frames(list, d.usable, list.len() as int)
        }
    }

    /// The space that is active at first: the one shown on the display under the
    /// cursor, or else the one shown on the first display.
    pub open spec fn first_active(self, cursor: Option<u32>, ds: Seq<LiveDisplay>) -> Option<u64> {
        if cursor is Some && self.topology.shown_on(cursor->0) is Some {
            self.topology.shown_on(cursor->0)
        } else if ds.len() > 0 {
            self.topology.shown_on(ds[0].id)
        } else {
            None
        }
    }

    /// The state after a window of an application was found on a space: what is
    /// known of it is recorded, it is assigned to the space where windows are
    /// managed, and a new window goes through the rules.
    pub open spec fn with_found_window(
        self,
        id: u32,
        meta: WindowMeta,
        sid: u64,
        is_new: bool,
    ) -> State {
        let noted = State { meta: self.meta.insert(id, meta), ..self };
        let placed = noted.after_event(
            StateEvent::WindowAssignedToSpace { window_id: id, sid },
        ).0;
        if is_new {
            placed.with_new_window(
                id,
                sid,
                rules::Traits { app: meta.app@, title: meta.title@, role: ""@, subrole: ""@ },
            )
        } else {
            placed
        }
    }

    /// The state after a window was not found with its application: it follows
    /// the space that still holds it, or else it is gone.
    pub open spec fn with_lost_window(self, id: u32, held_by: Option<u64>) -> State {
        match held_by {
            Some(sid) => self.after_event(
                StateEvent::WindowAssignedToSpace { window_id: id, sid },
            ).0,
            None => State { meta: self.meta.remove(id), ..self }.after_event(
                StateEvent::WindowDestroyed { window_id: id },
            ).0,
        }
    }

    /// The state after a window got the focus by itself. A window whose space
    /// was not known is taken in on the space found.
    pub open spec fn with_observed_focus(self, id: u32, found: Option<u64>) -> State {
        let known = self.known_space(id);
        let placed = if known is None && found is Some {
            self.after_event(
                StateEvent::WindowAssignedToSpace { window_id: id, sid: found->0 },
            ).0
        } else {
            self
        };
        let sid = if known is Some {
            known
        } else {
            found
        };
        let moved = match sid {
            Some(s) => State { tiling: placed.tiling.activated(s), ..placed },
            None => placed,
        };
        moved.focusing(id)
    }

    /// The space that a window is taken to be on by the spaces it is told to be
    /// on: the active one if it is among them, else the first one with a layout.
    pub open spec fn likely_space(self, candidates: Seq<u64>) -> Option<u64> {
        if self.tiling.active_space is Some && candidates.contains(self.tiling.active_space->0) {
            self.tiling.active_space
        } else {
            first_with_layout(self.tiling.spaces.dom(), candidates)
        }
    }
}

/// The first of some spaces that has a layout.
pub open spec fn first_with_layout(spaces: Set<u64>, candidates: Seq<u64>) -> Option<u64>
    decreases candidates.len(),
{
    if candidates.len() == 0 {
        None
    } else {
        match first_with_layout(spaces, candidates.drop_last()) {
            Some(sid) => Some(sid),
            None => if spaces.contains(candidates.last()) {
                Some(candidates.last())
            } else {
                None
            },
        }
    }
}

fn contains_sid(list: &Vec<u64>, sid: u64) -> (r: bool)
    ensures
        r == list@.contains(sid),
{
    let mut i: usize = 0;
    while i < list.len()
        invariant
            i <= list@.len(),
            forall|j: int| 0 <= j < i ==> list@[j] != sid,
        decreases list.len() - i,
    {
        if list[i] == sid {
            return true;
        }
        i += 1;
    }
    false
}

fn live_list(d: &LiveDisplay) -> (r: Vec<u64>)
    ensures
        r@ == spaces_of(*d),
{
    let mut list = match &d.spaces {
        Some(list) => list.clone(),
        None => Vec::new(),
    };
    if let Some(sid) = d.current {
        if !contains_sid(&list, sid) {
            list.push(sid);
        }
    }
    list
}

fn pick_missing<K: Id>(ids: &Vec<K>, set: &IdMap<K, bool>) -> (r: Vec<K>)
    requires
        set.wf(),
    ensures
        r@ == missing_from(ids@, set@.dom()),
{
    let ghost keep = |id: K| !set@.dom().contains(id);
    let mut out: Vec<K> = Vec::new();
    let mut i: usize = 0;
    proof {
        reveal(Seq::filter);
        assert(ids@.take(0).filter(keep) =~= Seq::<K>::empty());
    }
    while i < ids.len()
        invariant
            set.wf(),
            i <= ids@.len(),
            keep == (|id: K| !set@.dom().contains(id)),
            out@ == ids@.take(i as int).filter(keep),
        decreases ids.len() - i,
    {
        proof {
            rules::lemma_filter_step(ids@, i as int, keep);
        }
        if !set.contains(ids[i]) {
            out.push(ids[i]);
        }
        i += 1;
    }
    assert(ids@.take(ids@.len() as int) =~= ids@);
    out
}

fn as_set<K: Id>(ids: &Vec<K>) -> (r: IdMap<K, bool>)
    ensures
        r.wf(),
        r@.dom() == ids@.to_set(),
{
    let mut out: IdMap<K, bool> = IdMap::new();
    let mut i: usize = 0;
    assert(out@.dom() =~= ids@.take(0).to_set());
    while i < ids.len()
        invariant
            i <= ids@.len(),
            out.wf(),
            out@.dom() == ids@.take(i as int).to_set(),
        decreases ids.len() - i,
    {
        out.insert(ids[i], true);
        proof {
            idmap::lemma_take_step(ids@, i as int);
            assert(out@.dom() =~= ids@.take(i + 1).to_set());
        }
        i += 1;
    }
    assert(ids@.take(ids@.len() as int) =~= ids@);
    out
}

/// Whether a change is what taking in the live displays changes.
pub open spec fn tells_change(before: State, ds: Seq<LiveDisplay>, r: TopologyChange) -> bool {
    let spaces = before.tiling.spaces.dom();
    let displays = before.topology.displays;
    let arranged = topology::arrangement(displays, before.config.display_arrangement_order);
    &&& r.created_spaces@ == missing_from(idmap::ids_of(live_spaces(ds)), spaces)
    &&& r.destroyed_spaces@ == (if is_complete(ds) {
        missing_from(idmap::ids_of(spaces), live_spaces(ds))
    } else {
        Seq::empty()
    })
    &&& r.added_displays@ == missing_from(idmap::ids_of(live_ids(ds)), displays.dom())
    &&& r.removed_displays@ == missing_from(arranged, live_ids(ds))
}

/// The call that a space was created.
pub open spec fn space_created(order: Seq<u64>, sid: u64) -> notices::Call {
    notices::Call {
        env: seq![
            ("YABAI_SPACE_ID"@, text::decimal(sid as nat)),
            ("YABAI_SPACE_INDEX"@, text::decimal(spaces::place_in(order, sid))),
        ],
        ..notices::plain(SignalEvent::SpaceCreated)
    }
}

/// The signals that fire when a space was created.
pub fn space_created_signal(order: &Vec<u64>, sid: u64) -> (r: SignalCall)
    ensures
        r@ == space_created(order@, sid),
{
    let env = vec![
        ("YABAI_SPACE_ID", text::decimal_string(sid)),
        (
            "YABAI_SPACE_INDEX",
            text::decimal_string(spaces::mission_control_index(order, sid) as u64),
        ),
    ];
    let r = SignalCall {
        event: SignalEvent::SpaceCreated,
        env,
        app: None,
        title: None,
        active: None,
    };
    assert(r@.env =~= space_created(order@, sid).env);
    r
}

/// The signals that fire when a space was destroyed.
pub fn space_destroyed_signal(sid: u64) -> (r: SignalCall)
    ensures
        r@ == notices::telling(
            SignalEvent::SpaceDestroyed,
            "YABAI_SPACE_ID"@,
            text::decimal(sid as nat),
        ),
{
    let env = vec![("YABAI_SPACE_ID", text::decimal_string(sid))];
    let r = SignalCall {
        event: SignalEvent::SpaceDestroyed,
        env,
        app: None,
        title: None,
        active: None,
    };
    assert(r@.env =~= seq![("YABAI_SPACE_ID"@, text::decimal(sid as nat))]);
    r
}

/// The call that a display was added; its place is told if it has one.
pub open spec fn display_added(did: u32, place: Option<int>) -> notices::Call {
    let id = seq![("YABAI_DISPLAY_ID"@, text::decimal(did as nat))];
    notices::Call {
        env: match place {
            Some(i) => id.push(("YABAI_DISPLAY_INDEX"@, text::decimal(i as nat))),
            None => id,
        },
        ..notices::plain(SignalEvent::DisplayAdded)
    }
}

/// The signals that fire when a display was removed.
pub fn display_removed_signal(did: u32) -> (r: SignalCall)
    ensures
        r@ == notices::of_display(SignalEvent::DisplayRemoved, did),
{
    let env = vec![("YABAI_DISPLAY_ID", text::decimal_string(did as u64))];
    let r = SignalCall {
        event: SignalEvent::DisplayRemoved,
        env,
        app: None,
        title: None,
        active: None,
    };
    assert(r@.env =~= notices::of_display(SignalEvent::DisplayRemoved, did).env);
    r
}

impl AppState {
    /// The signals that fire when a display was added.
    pub fn display_added_signal(&self, did: u32) -> (r: SignalCall)
        requires
            self.wf(),
        ensures
            r@ == display_added(
                did,
                self@.topology.display_index(did, self@.config.display_arrangement_order),
            ),
    {
        let place = self.display_index(did);
        let mut env = vec![("YABAI_DISPLAY_ID", text::decimal_string(did as u64))];
        if let Some(i) = place {
            env.push(("YABAI_DISPLAY_INDEX", text::decimal_string(i as u64)));
        }
        let r = SignalCall {
            event: SignalEvent::DisplayAdded,
            env,
            app: None,
            title: None,
            active: None,
        };
        assert(r@.env =~= display_added(
            did,
            self@.topology.display_index(did, self@.config.display_arrangement_order),
        ).env);
        r
    }

    fn take_in_spaces(&mut self, did: u32, usable: &Area, list: &Vec<u64>)
        requires
            old(self).wf(),
        ensures
            final(self).wf(),
            final(self)@ == old(self)@.with_live_spaces(did, *usable, list@, list@.len() as int),
    {
        let ghost pre = self@;
        let mut i: usize = 0;
        while i < list.len()
            invariant
                self.wf(),
                i <= list@.len(),
                self@ == pre.with_live_spaces(did, *usable, list@, i as int),
            decreases list.len() - i,
        {
            self.add_space_to_display(list[i], did, usable.copy());
            let _ = self.set_space_frame(list[i], usable.copy());
            i += 1;
        }
    }

    fn take_in_display(&mut self, d: &LiveDisplay)
        requires
            old(self).wf(),
        ensures
            final(self).wf(),
            final(self)@ == old(self)@.with_live_display(*d),
    {
        self.add_display(d.id, d.info.copy());
        let list = live_list(d);
        self.take_in_spaces(d.id, &d.usable, &list);
        if let Some(sid) = d.current {
            if self.space(sid).is_some() {
                self.set_display_active_space(d.id, sid);
            }
        }
    }

    fn drop_dead_spaces(&mut self, live: &IdMap<u64, bool>)
        requires
            old(self).wf(),
            live.wf(),
        ensures
            final(self).wf(),
            final(self)@ == old(self)@.without_dead_spaces(
                idmap::ids_of(old(self)@.tiling.spaces.dom()),
                idmap::ids_of(old(self)@.tiling.spaces.dom()).len() as int,
                live@.dom(),
            ),
    {
        let ghost pre = self@;
        let ids = self.space_ids();
        let mut i: usize = 0;
        while i < ids.len()
            invariant
                self.wf(),
                live.wf(),
                i <= ids@.len(),
                self@ == pre.without_dead_spaces(ids@, i as int, live@.dom()),
            decreases ids.len() - i,
        {
            if !live.contains(ids[i]) {
                self.remove_space(ids[i]);
            }
            i += 1;
        }
    }

    fn drop_dead_displays(&mut self, live: &IdMap<u32, bool>)
        requires
            old(self).wf(),
            live.wf(),
        ensures
            final(self).wf(),
            final(self)@ == old(self)@.without_dead_displays(
                topology::arrangement(
                    old(self)@.topology.displays,
                    old(self)@.config.display_arrangement_order,
                ),
                topology::arrangement(
                    old(self)@.topology.displays,
                    old(self)@.config.display_arrangement_order,
                ).len() as int,
                live@.dom(),
            ),
    {
        let ghost pre = self@;
        let ids = self.display_ids();
        let mut i: usize = 0;
        while i < ids.len()
            invariant
                self.wf(),
                live.wf(),
                i <= ids@.len(),
                self@ == pre.without_dead_displays(ids@, i as int, live@.dom()),
            decreases ids.len() - i,
        {
            if !live.contains(ids[i]) {
                self.remove_display(ids[i]);
            }
            i += 1;
        }
    }

    /// Take in the live displays and their spaces, and tell what changed.
    pub fn refresh_topology(&mut self, main: u32, displays: &Vec<LiveDisplay>) -> (r: TopologyChange)
        requires
            old(self).wf(),
        ensures
            final(self).wf(),
            final(self)@ == old(self)@.refreshed(main, displays@),
            r.created_spaces@ == missing_from(
                idmap::ids_of(live_spaces(displays@)),
                old(self)@.tiling.spaces.dom(),
            ),
            r.destroyed_spaces@ == (if is_complete(displays@) {
                missing_from(
                    idmap::ids_of(old(self)@.tiling.spaces.dom()),
                    live_spaces(displays@),
                )
            } else {
                Seq::empty()
            }),
            r.added_displays@ == missing_from(
                idmap::ids_of(live_ids(displays@)),
                old(self)@.topology.displays.dom(),
            ),
            r.removed_displays@ == missing_from(
                topology::arrangement(
                    old(self)@.topology.displays,
                    old(self)@.config.display_arrangement_order,
                ),
                live_ids(displays@),
            ),
            tells_change(old(self)@, displays@, r),
    {
        let ghost pre = self@;
        let prior_displays = self.display_ids();
        let prior_spaces = self.space_ids();
        let known_spaces = as_set(&prior_spaces);
        let known_displays = as_set(&prior_displays);
        proof {
            assert(known_spaces@.dom() =~= pre.tiling.spaces.dom());
            assert(known_displays@.dom() =~= pre.topology.displays.dom());
        }
        self.set_main_display(main);
        let ghost start = self@;
        let mut spaces: IdMap<u64, bool> = IdMap::new();
        let mut ids: IdMap<u32, bool> = IdMap::new();
        let mut complete = true;
        let mut i: usize = 0;
        proof {
            assert(spaces@.dom() =~= Set::<u64>::empty());
            assert(ids@.dom() =~= Set::<u32>::empty());
        }
        while i < displays.len()
            invariant
                self.wf(),
                spaces.wf(),
                ids.wf(),
                i <= displays@.len(),
                self@ == start.with_live_displays(displays@, i as int),
                spaces@.dom() == live_spaces(displays@.take(i as int)),
                ids@.dom() == live_ids(displays@.take(i as int)),
                complete == (forall|k: int|
                    0 <= k < i ==> (#[trigger] displays@[k]).spaces is Some),
            decreases displays.len() - i,
        {
            proof {
                assert(displays@.take(i + 1).drop_last() =~= displays@.take(i as int));
                assert(displays@.take(i + 1).last() == displays@[i as int]);
            }
            let d = &displays[i];
            if d.spaces.is_none() {
                complete = false;
            }
            self.take_in_display(d);
            add_all(&mut spaces, &live_list(d));
            ids.insert(d.id, true);
            proof {
                assert(ids@.dom() =~= live_ids(displays@.take(i + 1)));
            }
            i += 1;
        }
        assert(displays@.take(displays@.len() as int) =~= displays@);
        if complete {
            self.drop_dead_spaces(&spaces);
        }
        self.drop_dead_displays(&ids);
        let destroyed_spaces = if complete {
            pick_missing(&prior_spaces, &spaces)
        } else {
            Vec::new()
        };
        TopologyChange {
            created_spaces: pick_missing(&spaces.keys(), &known_spaces),
            destroyed_spaces,
            added_displays: pick_missing(&ids.keys(), &known_displays),
            removed_displays: pick_missing(&prior_displays, &ids),
        }
    }

    /// Start with the live displays and their spaces.
    pub fn seed(&mut self, displays: &Vec<LiveDisplay>)
        requires
            old(self).wf(),
        ensures
            final(self).wf(),
            final(self)@ == old(self)@.seeded(displays@),
    {
        let ghost pre = self@;
        let mut i: usize = 0;
        while i < displays.len()
            invariant
                self.wf(),
                i <= displays@.len(),
                pre == old(self)@,
                self@ == pre.with_bare_displays(displays@, i as int),
            decreases displays.len() - i,
        {
            self.add_display(displays[i].id, displays[i].info.copy());
            i += 1;
        }
        let ghost bare = self@;
        i = 0;
        while i < displays.len()
            invariant
                self.wf(),
                i <= displays@.len(),
                pre == old(self)@,
                bare == pre.with_bare_displays(displays@, displays@.len() as int),
                self@ == bare.with_seeded_spaces(displays@, i as int),
            decreases displays.len() - i,
        {
            let d = &displays[i];
            let list = live_list(d);
            self.place_spaces(d.id, &d.usable, &list);
            if let Some(sid) = d.current {
                self.set_display_active_space(d.id, sid);
            }
            i += 1;
        }
    }

    fn place_spaces(&mut self, did: u32, usable: &Area, list: &Vec<u64>)
        requires
            old(self).wf(),
        ensures
            final(self).wf(),
            final(self)@ == old(self)@.with_spaces_on(did, *usable, list@, list@.len() as int),
    {
        let ghost pre = self@;
        let mut i: usize = 0;
        while i < list.len()
            invariant
                self.wf(),
                i <= list@.len(),
                self@ == pre.with_spaces_on(did, *usable, list@, i as int),
            decreases list.len() - i,
        {
            self.add_space_to_display(list[i], did, usable.copy());
            i += 1;
        }
    }

    fn frame_spaces(&mut self, list: &Vec<u64>, usable: &Area)
        requires
            old(self).wf(),
        ensures
            final(self).wf(),
            final(self)@ == old(self)@.with_frames(list@, *usable, list@.len() as int),
    {
        let ghost pre = self@;
        let mut i: usize = 0;
        while i < list.len()
            invariant
                self.wf(),
                i <= list@.len(),
                self@ == pre.with_frames(list@, *usable, i as int),
            decreases list.len() - i,
        {
            let _ = self.set_space_frame(list[i], usable.copy());
            i += 1;
        }
    }

    /// Give the spaces that the daemon started with their frames, and make one
    /// of them active; which one is returned.
    pub fn start_tiling(&mut self, displays: &Vec<LiveDisplay>, cursor: Option<u32>) -> (r: Option<
        u64,
    >)
        requires
            old(self).wf(),
        ensures
            final(self).wf(),
            r == old(self)@.with_seeded_frames(displays@, displays@.len() as int).first_active(
                cursor,
                displays@,
            ),
            final(self)@ == (match r {
                Some(sid) => State {
                    tiling: old(self)@.with_seeded_frames(
                        displays@,
                        displays@.len() as int,
                    ).tiling.activated(sid),
                    ..old(self)@.with_seeded_frames(displays@, displays@.len() as int)
                },
                None => old(self)@.with_seeded_frames(displays@, displays@.len() as int),
            }),
    {
        let ghost pre = self@;
        let mut i: usize = 0;
        while i < displays.len()
            invariant
                self.wf(),
                i <= displays@.len(),
                self@ == pre.with_seeded_frames(displays@, i as int),
            decreases displays.len() - i,
        {
            let d = &displays[i];
            let list = live_list(d);
            self.frame_spaces(&list, &d.usable);
            i += 1;
        }
        let under = match cursor {
            Some(did) => self.display_active_space_id(did),
            None => None,
        };
        let first = match under {
            Some(sid) => Some(sid),
            None => if displays.len() > 0 {
                self.display_active_space_id(displays[0].id)
            } else {
                None
            },
        };
        if let Some(sid) = first {
            self.set_active_space(sid);
        }
        first
    }

    /// Note the space that a display shows; whether it has a layout and is
    /// another one than before.
    pub fn note_shown_space(&mut self, did: u32, sid: u64) -> (r: bool)
        requires
            old(self).wf(),
        ensures
            final(self).wf(),
            r == (old(self)@.tiling.spaces.dom().contains(sid) && old(self)@.topology.shown_on(did)
                != Some(sid)),
            final(self)@ == (if r {
                old(self)@.showing(did, sid)
            } else {
                old(self)@
            }),
    {
        if self.space(sid).is_none() {
            return false;
        }
        if let Some(shown) = self.display_active_space_id(did) {
            if shown == sid {
                return false;
            }
        }
        self.set_display_active_space(did, sid);
        true
    }

    /// Take in a window of an application that was found on a space. A new
    /// window opens where the settings say, and goes through the rules; its
    /// space and the effects of the rules are returned.
    pub fn take_in_window(
        &mut self,
        id: u32,
        meta: WindowMeta,
        physical_sid: u64,
        is_new: bool,
        cursor_display: Option<u32>,
    ) -> (r: (u64, Option<RuleEffects>))
        requires
            old(self).wf(),
        ensures
            final(self).wf(),
            r.0 == (if is_new {
                old(self)@.origin_space(physical_sid, cursor_display)
            } else {
                physical_sid
            }),
            final(self)@ == old(self)@.with_found_window(id, meta, r.0, is_new),
            match r.1 {
                Some(effects) => is_new && effects == rules::combined(
                    old(self)@.rules,
                    rules::Traits { app: meta.app@, title: meta.title@, role: ""@, subrole: ""@ },
                    true,
                ),
                None => !is_new,
            },
    {
        let sid = if is_new {
            self.origin_space_for_new_window(physical_sid, cursor_display)
        } else {
            physical_sid
        };
        let app = meta.app.clone();
        let title = meta.title.clone();
        self.set_window_meta(id, meta);
        let _ = self.handle_event(StateEvent::WindowAssignedToSpace { window_id: id, sid });
        if is_new {
            let effects = self.apply_new_window_rules(
                id,
                app.as_str(),
                title.as_str(),
                "",
                "",
                sid,
            );
            (sid, Some(effects))
        } else {
            (sid, None)
        }
    }

    /// Take in that a window was not found with its application. `held_by` is
    /// the space that still holds it; whether the window is kept is returned.
    pub fn lose_window(&mut self, id: u32, held_by: Option<u64>) -> (r: bool)
        requires
            old(self).wf(),
        ensures
            final(self).wf(),
            r == (held_by is Some),
            final(self)@ == old(self)@.with_lost_window(id, held_by),
    {
        match held_by {
            Some(sid) => {
                let _ = self.handle_event(StateEvent::WindowAssignedToSpace { window_id: id, sid });
                true
            },
            None => {
                self.remove_window_meta(id);
                let _ = self.handle_event(StateEvent::WindowDestroyed { window_id: id });
                false
            },
        }
    }

    /// Take in that a window got the focus by itself. `found` is the space that
    /// it was found on, for a window whose space is not known.
    pub fn observe_focus(&mut self, id: u32, found: Option<u64>)
        requires
            old(self).wf(),
        ensures
            final(self).wf(),
            final(self)@ == old(self)@.with_observed_focus(id, found),
    {
        let known = self.window_known_space_id(id);
        let sid = match known {
            Some(sid) => Some(sid),
            None => found,
        };
        if let Some(sid) = sid {
            if known.is_none() {
                let _ = self.handle_event(StateEvent::WindowAssignedToSpace { window_id: id, sid });
            }
            self.set_active_space(sid);
        }
        self.set_focused_window(Some(id));
    }

    /// The space that a window is taken to be on by the spaces it is told to be
    /// on.
    pub fn managed_space_among(&self, candidates: &Vec<u64>) -> (r: Option<u64>)
        requires
            self.wf(),
        ensures
            r == self@.likely_space(candidates@),
    {
        if let Some(active) = self.active_space_id() {
            if contains_sid(candidates, active) {
                return Some(active);
            }
        }
        let mut found: Option<u64> = None;
        let mut i: usize = 0;
        while i < candidates.len()
            invariant
                self.wf(),
                i <= candidates@.len(),
                found == first_with_layout(
                    self@.tiling.spaces.dom(),
                    candidates@.take(i as int),
                ),
            decreases candidates.len() - i,
        {
            proof {
                assert(candidates@.take(i + 1).drop_last() =~= candidates@.take(i as int));
            }
            if found.is_none() && self.space(candidates[i]).is_some() {
                found = Some(candidates[i]);
            }
            i += 1;
        }
        assert(candidates@.take(candidates@.len() as int) =~= candidates@);
        found
    }
}

fn add_all(set: &mut IdMap<u64, bool>, ids: &Vec<u64>)
    requires
        old(set).wf(),
    ensures
        final(set).wf(),
        final(set)@.dom() == old(set)@.dom().union(ids@.to_set()),
{
    let ghost pre = set@.dom();
    let mut i: usize = 0;
    assert(set@.dom() =~= pre.union(ids@.take(0).to_set()));
    while i < ids.len()
        invariant
            i <= ids@.len(),
            set.wf(),
            set@.dom() == pre.union(ids@.take(i as int).to_set()),
        decreases ids.len() - i,
    {
        set.insert(ids[i], true);
        proof {
            idmap::lemma_take_step(ids@, i as int);
            assert(set@.dom() =~= pre.union(ids@.take(i + 1).to_set()));
        }
        i += 1;
    }
    assert(ids@.take(ids@.len() as int) =~= ids@);
}

proof fn lemma_live_spaces_taken_in(s: State, did: u32, usable: Area, list: Seq<u64>, k: int)
    requires
        0 <= k <= list.len(),
    ensures
        ({
            let t = s.with_live_spaces(did, usable, list, k);
            &&& forall|sid: u64| #[trigger]
                t.tiling.spaces.dom().contains(sid) <==> s.tiling.spaces.dom().contains(sid)
                    || exists|i: int| 0 <= i < k && #[trigger] list[i] == sid
            &&& forall|sid: u64|
                s.tiling.spaces.dom().contains(sid) ==> #[trigger] t.tiling.spaces[sid]
                    == s.tiling.spaces[sid]
            &&& forall|i: int|
                0 <= i < k ==> t.topology.space_displays.dom().contains(#[trigger] list[i])
                    && t.topology.space_displays[list[i]] == did && t.usable.dom().contains(list[i])
                    && t.usable[list[i]] == usable
            &&& t.topology.displays == s.topology.displays
            &&& t.topology.main_display == s.topology.main_display
            &&& t.topology.display_active_space == s.topology.display_active_space
            &&& t.config == s.config
            &&& t.tiling.spaces.dom().finite() == s.tiling.spaces.dom().finite()
        }),
    decreases k,
{
    if k > 0 {
        lemma_live_spaces_taken_in(s, did, usable, list, k - 1);
        let before = s.with_live_spaces(did, usable, list, k - 1);
        let t = s.with_live_spaces(did, usable, list, k);
        let new = list[k - 1];
        assert forall|sid: u64| #[trigger] t.tiling.spaces.dom().contains(sid) <==> s.tiling.spaces.dom().contains(
            sid,
        ) || exists|i: int| 0 <= i < k && #[trigger] list[i] == sid by {
            assert(t.tiling.spaces.dom().contains(sid) <==> before.tiling.spaces.dom().contains(sid)
                || sid == new);
            if before.tiling.spaces.dom().contains(sid) && !s.tiling.spaces.dom().contains(sid) {
                let i = choose|i: int| 0 <= i < k - 1 && #[trigger] list[i] == sid;
                assert(list[i] == sid);
            }
        }
        if before.tiling.spaces.dom().contains(new) {
            assert(t.tiling.spaces.dom() =~= before.tiling.spaces.dom());
        } else {
            assert(t.tiling.spaces.dom() =~= before.tiling.spaces.dom().insert(new));
            if t.tiling.spaces.dom().finite() {
                assert(before.tiling.spaces.dom() =~= t.tiling.spaces.dom().remove(new));
            }
        }
    }
}

/// A live display taken in is known with its frame, its spaces all have a layout and
/// belong to it, and layouts that were there stay; it shows the space that it tells.
pub proof fn law_live_display_taken_in(s: State, d: LiveDisplay)
    ensures
        ({
            let t = s.with_live_display(d);
            &&& t.topology.displays == s.topology.displays.insert(d.id, d.info)
            &&& forall|sid: u64| #[trigger]
                t.tiling.spaces.dom().contains(sid) <==> s.tiling.spaces.dom().contains(sid)
                    || d.current == Some(sid) || d.spaces is Some && d.spaces->0@.contains(sid)
            &&& forall|sid: u64|
                d.current == Some(sid) || d.spaces is Some && d.spaces->0@.contains(sid)
                    ==> t.topology.space_displays.dom().contains(sid)
                    && #[trigger] t.topology.space_displays[sid] == d.id && t.usable[sid]
                    == d.usable
            &&& forall|sid: u64|
                s.tiling.spaces.dom().contains(sid) ==> #[trigger] t.tiling.spaces[sid]
                    == s.tiling.spaces[sid]
            &&& d.current matches Some(sid) ==> t.topology.display_active_space
                == s.topology.display_active_space.insert(d.id, sid)
            &&& d.current is None ==> t.topology.display_active_space
                == s.topology.display_active_space
            &&& t.topology.main_display == s.topology.main_display
            &&& t.config == s.config
            &&& t.tiling.spaces.dom().finite() == s.tiling.spaces.dom().finite()
        }),
{
    let there = State {
        topology: topology::TopologyModel {
            displays: s.topology.displays.insert(d.id, d.info),
            ..s.topology
        },
        ..s
    };
    let list = spaces_of(d);
    lemma_live_spaces_taken_in(there, d.id, d.usable, list, list.len() as int);
    let t = s.with_live_display(d);
    let u = there.with_live_spaces(d.id, d.usable, list, list.len() as int);
    lemma_spaces_of(d);
    assert forall|sid: u64|
        #![trigger t.topology.space_displays.dom().contains(sid)]
        #![trigger t.topology.space_displays[sid]]
        #![trigger t.usable[sid]]
        (d.current == Some(sid) || d.spaces is Some && d.spaces->0@.contains(
            sid,
        )) implies t.topology.space_displays.dom().contains(sid)
        && t.topology.space_displays[sid] == d.id && t.usable[sid] == d.usable by {
        assert(list.contains(sid));
        let i = choose|i: int| 0 <= i < list.len() && list[i] == sid;
        assert(u.topology.space_displays[list[i]] == d.id);
    }
    assert forall|sid: u64| #[trigger] t.tiling.spaces.dom().contains(sid) <==> s.tiling.spaces.dom().contains(
        sid,
    ) || d.current == Some(sid) || d.spaces is Some && d.spaces->0@.contains(sid) by {
        assert(t.tiling.spaces.dom().contains(sid) == u.tiling.spaces.dom().contains(sid));
        assert(list.contains(sid) <==> exists|i: int| 0 <= i < list.len() && #[trigger] list[i]
            == sid);
    }
    assert(t.tiling == u.tiling);
    if d.current is Some {
        assert(u.tiling.spaces.dom().contains(d.current->0));
        assert(t == u.showing(d.id, d.current->0));
    }
}

proof fn lemma_spaces_of(d: LiveDisplay)
    ensures
        forall|sid: u64| #[trigger]
            spaces_of(d).contains(sid) <==> d.current == Some(sid) || d.spaces is Some
                && d.spaces->0@.contains(sid),
{
    let list = match d.spaces {
        Some(l) => l@,
        None => Seq::empty(),
    };
    assert forall|sid: u64| #[trigger] spaces_of(d).contains(sid) <==> d.current == Some(sid)
        || d.spaces is Some && d.spaces->0@.contains(sid) by {
        if d.current is Some && !list.contains(d.current->0) {
            let all = list.push(d.current->0);
            assert(all[all.len() - 1] == d.current->0);
            if list.contains(sid) {
                let i = choose|i: int| 0 <= i < list.len() && list[i] == sid;
                assert(all[i] == sid);
            }
            if all.contains(sid) {
                let i = choose|i: int| 0 <= i < all.len() && all[i] == sid;
                if i < list.len() {
                    assert(list[i] == sid);
                }
            }
        }
    }
}

/// A space is live if some display tells it among its spaces or as the one shown; a
/// display is live if it is told.
pub proof fn law_what_is_live(ds: Seq<LiveDisplay>)
    ensures
        forall|sid: u64| #[trigger]
            live_spaces(ds).contains(sid) <==> exists|i: int|
                0 <= i < ds.len() && ((#[trigger] ds[i]).current == Some(sid) || ds[i].spaces is Some
                    && ds[i].spaces->0@.contains(sid)),
        forall|did: u32| #[trigger]
            live_ids(ds).contains(did) <==> exists|i: int|
                0 <= i < ds.len() && (#[trigger] ds[i]).id == did,
        live_spaces(ds).finite(),
        live_ids(ds).finite(),
    decreases ds.len(),
{
    if ds.len() > 0 {
        let less = ds.drop_last();
        let last = ds.last();
        law_what_is_live(less);
        lemma_spaces_of(last);
        assert(ds[ds.len() - 1] == last);
        assert(spaces_of(last).to_set().finite()) by {
            vstd::seq_lib::seq_to_set_is_finite(spaces_of(last));
        }
        assert forall|sid: u64| #[trigger] live_spaces(ds).contains(sid) <==> exists|i: int|
            0 <= i < ds.len() && ((#[trigger] ds[i]).current == Some(sid) || ds[i].spaces is Some
                && ds[i].spaces->0@.contains(sid)) by {
            assert(live_spaces(ds).contains(sid) <==> live_spaces(less).contains(sid)
                || spaces_of(last).contains(sid));
            if live_spaces(less).contains(sid) {
                let i = choose|i: int|
                    0 <= i < less.len() && ((#[trigger] less[i]).current == Some(sid)
                        || less[i].spaces is Some && less[i].spaces->0@.contains(sid));
                assert(ds[i] == less[i]);
            }
            if exists|i: int|
                0 <= i < ds.len() && ((#[trigger] ds[i]).current == Some(sid)
                    || ds[i].spaces is Some && ds[i].spaces->0@.contains(sid)) {
                let i = choose|i: int|
                    0 <= i < ds.len() && ((#[trigger] ds[i]).current == Some(sid)
                        || ds[i].spaces is Some && ds[i].spaces->0@.contains(sid));
                if i < less.len() {
                    assert(less[i] == ds[i]);
                }
            }
        }
        assert forall|did: u32| #[trigger] live_ids(ds).contains(did) <==> exists|i: int|
            0 <= i < ds.len() && (#[trigger] ds[i]).id == did by {
            if live_ids(less).contains(did) {
                let i = choose|i: int| 0 <= i < less.len() && (#[trigger] less[i]).id == did;
                assert(ds[i] == less[i]);
            }
            if exists|i: int| 0 <= i < ds.len() && (#[trigger] ds[i]).id == did {
                let i = choose|i: int| 0 <= i < ds.len() && (#[trigger] ds[i]).id == did;
                if i < less.len() {
                    assert(less[i] == ds[i]);
                }
            }
        }
    }
}

proof fn lemma_live_displays_taken_in(s: State, ds: Seq<LiveDisplay>, k: int)
    requires
        0 <= k <= ds.len(),
    ensures
        ({
            let t = s.with_live_displays(ds, k);
            &&& forall|sid: u64| #[trigger]
                t.tiling.spaces.dom().contains(sid) <==> s.tiling.spaces.dom().contains(sid)
                    || live_spaces(ds.take(k)).contains(sid)
            &&& forall|sid: u64|
                s.tiling.spaces.dom().contains(sid) ==> #[trigger] t.tiling.spaces[sid]
                    == s.tiling.spaces[sid]
            &&& t.topology.displays.dom() == s.topology.displays.dom().union(live_ids(ds.take(k)))
            &&& t.topology.main_display == s.topology.main_display
            &&& t.config == s.config
            &&& t.tiling.spaces.dom().finite() == s.tiling.spaces.dom().finite()
        }),
    decreases k,
{
    if k <= 0 {
        assert(ds.take(0) =~= Seq::<LiveDisplay>::empty());
        assert(s.topology.displays.dom().union(Set::<u32>::empty()) =~= s.topology.displays.dom());
    } else {
        lemma_live_displays_taken_in(s, ds, k - 1);
        let before = s.with_live_displays(ds, k - 1);
        let d = ds[k - 1];
        law_live_display_taken_in(before, d);
        lemma_spaces_of(d);
        assert(ds.take(k).drop_last() =~= ds.take(k - 1));
        assert(ds.take(k).last() == d);
        let t = s.with_live_displays(ds, k);
        assert(t.topology.displays.dom() =~= s.topology.displays.dom().union(
            live_ids(ds.take(k)),
        ));
    }
}

proof fn lemma_dead_spaces_dropped(s: State, ids: Seq<u64>, k: int, live: Set<u64>)
    requires
        0 <= k <= ids.len(),
    ensures
        ({
            let t = s.without_dead_spaces(ids, k, live);
            &&& forall|sid: u64| #[trigger]
                t.tiling.spaces.dom().contains(sid) <==> s.tiling.spaces.dom().contains(sid) && !(
                !live.contains(sid) && exists|i: int| 0 <= i < k && #[trigger] ids[i] == sid)
            &&& forall|sid: u64|
                t.tiling.spaces.dom().contains(sid) ==> #[trigger] t.tiling.spaces[sid]
                    == s.tiling.spaces[sid]
            &&& t.topology.displays == s.topology.displays
            &&& t.topology.main_display == s.topology.main_display
            &&& t.config == s.config
        }),
    decreases k,
{
    if k > 0 {
        lemma_dead_spaces_dropped(s, ids, k - 1, live);
        let before = s.without_dead_spaces(ids, k - 1, live);
        let t = s.without_dead_spaces(ids, k, live);
        let dead = ids[k - 1];
        assert forall|sid: u64| #[trigger] t.tiling.spaces.dom().contains(sid) <==> s.tiling.spaces.dom().contains(
            sid,
        ) && !(!live.contains(sid) && exists|i: int| 0 <= i < k && #[trigger] ids[i] == sid) by {
            if exists|i: int| 0 <= i < k - 1 && #[trigger] ids[i] == sid {
                let i = choose|i: int| 0 <= i < k - 1 && #[trigger] ids[i] == sid;
                assert(0 <= i < k && ids[i] == sid);
            }
            if exists|i: int| 0 <= i < k && #[trigger] ids[i] == sid {
                let i = choose|i: int| 0 <= i < k && #[trigger] ids[i] == sid;
                assert(i < k - 1 || sid == dead);
            }
        }
    }
}

proof fn lemma_dead_displays_dropped(s: State, ids: Seq<u32>, k: int, live: Set<u32>)
    requires
        0 <= k <= ids.len(),
    ensures
        ({
            let t = s.without_dead_displays(ids, k, live);
            &&& forall|did: u32| #[trigger]
                t.topology.displays.dom().contains(did) <==> s.topology.displays.dom().contains(did)
                    && !(!live.contains(did) && exists|i: int| 0 <= i < k && #[trigger] ids[i]
                    == did)
            &&& t.tiling == s.tiling
            &&& t.topology.main_display == s.topology.main_display
        }),
    decreases k,
{
    if k > 0 {
        lemma_dead_displays_dropped(s, ids, k - 1, live);
        let t = s.without_dead_displays(ids, k, live);
        let dead = ids[k - 1];
        assert forall|did: u32| #[trigger] t.topology.displays.dom().contains(did)
            <==> s.topology.displays.dom().contains(did) && !(!live.contains(did) && exists|i: int|
            0 <= i < k && #[trigger] ids[i] == did) by {
            if exists|i: int| 0 <= i < k - 1 && #[trigger] ids[i] == did {
                let i = choose|i: int| 0 <= i < k - 1 && #[trigger] ids[i] == did;
                assert(0 <= i < k && ids[i] == did);
            }
            if exists|i: int| 0 <= i < k && #[trigger] ids[i] == did {
                let i = choose|i: int| 0 <= i < k && #[trigger] ids[i] == did;
                assert(i < k - 1 || did == dead);
            }
        }
    }
}

/// After the live displays were taken in exactly these are known, and the main one is
/// the one told. If all told their spaces, exactly those have a layout; else those
/// that had one keep it too. A layout that stays is the one it was.
pub proof fn law_refresh_follows_what_is_live(s: State, main: u32, ds: Seq<LiveDisplay>)
    requires
        s.tiling.spaces.dom().finite(),
        s.topology.displays.dom().finite(),
    ensures
        ({
            let t = s.refreshed(main, ds);
            &&& t.topology.main_display == Some(main)
            &&& forall|did: u32| #[trigger]
                t.topology.displays.dom().contains(did) <==> exists|i: int|
                    0 <= i < ds.len() && (#[trigger] ds[i]).id == did
            &&& (forall|i: int| 0 <= i < ds.len() ==> (#[trigger] ds[i]).spaces is Some)
                ==> forall|sid: u64| #[trigger]
                t.tiling.spaces.dom().contains(sid) <==> live_spaces(ds).contains(sid)
            &&& (exists|i: int| 0 <= i < ds.len() && (#[trigger] ds[i]).spaces is None)
                ==> forall|sid: u64| #[trigger]
                t.tiling.spaces.dom().contains(sid) <==> s.tiling.spaces.dom().contains(sid)
                    || live_spaces(ds).contains(sid)
            &&& forall|sid: u64|
                s.tiling.spaces.dom().contains(sid) && live_spaces(ds).contains(sid)
                    ==> #[trigger] t.tiling.spaces[sid] == s.tiling.spaces[sid]
        }),
{
    law_what_is_live(ds);
    let start = State {
        topology: topology::TopologyModel { main_display: Some(main), ..s.topology },
        ..s
    };
    let n = ds.len() as int;
    lemma_live_displays_taken_in(start, ds, n);
    assert(ds.take(n) =~= ds);
    let a = start.with_live_displays(ds, n);
    let ids = idmap::ids_of(a.tiling.spaces.dom());
    idmap::lemma_listing_exists(a.tiling.spaces.dom());
    lemma_dead_spaces_dropped(a, ids, ids.len() as int, live_spaces(ds));
    let t = if is_complete(ds) {
        a.without_dead_spaces(ids, ids.len() as int, live_spaces(ds))
    } else {
        a
    };
    let order = t.config.display_arrangement_order;
    let dids = topology::arrangement(t.topology.displays, order);
    topology::lemma_arranged(t.topology.displays, order);
    lemma_dead_displays_dropped(t, dids, dids.len() as int, live_ids(ds));
    let u = s.refreshed(main, ds);
    assert forall|did: u32| #[trigger] u.topology.displays.dom().contains(did) <==> exists|i: int|
        0 <= i < ds.len() && (#[trigger] ds[i]).id == did by {
        assert(t.topology.displays.dom().contains(did) <==> s.topology.displays.dom().contains(did)
            || live_ids(ds).contains(did));
        if t.topology.displays.dom().contains(did) {
            assert(dids.contains(did));
            let i = choose|i: int| 0 <= i < dids.len() && dids[i] == did;
            assert(dids[i] == did);
        }
    }
    assert forall|sid: u64| a.tiling.spaces.dom().contains(sid) implies exists|i: int|
        0 <= i < ids.len() && #[trigger] ids[i] == sid by {
        assert(ids.contains(sid));
    }
}

/// The ids of a list that a set does not have: all of them, no others, in the order
/// of the list.
pub proof fn law_missing_ids<K>(ids: Seq<K>, set: Set<K>, id: K)
    ensures
        missing_from(Seq::empty(), set) == Seq::<K>::empty(),
        set.contains(id) ==> missing_from(ids.push(id), set) == missing_from(ids, set),
        !set.contains(id) ==> missing_from(ids.push(id), set) == missing_from(ids, set).push(id),
{
    reveal(Seq::filter);
    assert(ids.push(id).drop_last() =~= ids);
}

/// A window found is known as it was listed, and is tiled on its space where windows
/// are managed; a new one goes through the rules, one-shot rules among them.
pub proof fn law_found_window(s: State, id: u32, meta: WindowMeta, sid: u64)
    requires
        s.tiling.wf(),
    ensures
        ({
            let seen = s.with_found_window(id, meta, sid, false);
            let new = s.with_found_window(id, meta, sid, true);
            &&& seen.meta == s.meta.insert(id, meta)
            &&& !s.config.manage ==> seen.tiling == s.tiling
            &&& s.config.manage && s.tiling.spaces.dom().contains(sid) && !s.tiling.floating.contains(
                id,
            ) && !s.tiling.sticky.contains(id) ==> seen.tiling.spaces[sid].windows.contains(id)
            &&& seen.rules == s.rules
            &&& new == seen.with_new_window(
                id,
                sid,
                rules::Traits { app: meta.app@, title: meta.title@, role: ""@, subrole: ""@ },
            )
        }),
{
    dispatch::law_window_events(State { meta: s.meta.insert(id, meta), ..s }, id, sid);
}

/// A window not found is forgotten, unless a space still holds it: then it goes with
/// that space.
pub proof fn law_lost_window(s: State, id: u32, sid: u64)
    requires
        s.tiling.wf(),
        s.tiling.active_space is Some,
    ensures
        ({
            let t = s.with_lost_window(id, None);
            &&& t.meta == s.meta.remove(id)
            &&& t.tiling.focused_window != Some(id)
            &&& !t.scratchpads.dom().contains(id)
            &&& forall|k: u64|
                t.tiling.spaces.dom().contains(k) ==> !(
                #[trigger] t.tiling.spaces[k]).windows.contains(id)
        }),
        ({
            let t = s.with_lost_window(id, Some(sid));
            &&& t.meta == s.meta
            &&& !s.config.manage ==> t == s
            &&& s.config.manage && s.tiling.spaces.dom().contains(sid) && !s.tiling.floating.contains(
                id,
            ) && !s.tiling.sticky.contains(id) ==> t.tiling.spaces[sid].windows.contains(id)
        }),
{
    dispatch::law_window_events(s, id, sid);
    dispatch::law_window_events(State { meta: s.meta.remove(id), ..s }, id, sid);
}

/// A window that gets the focus has it, and its space is the active one: the one it is
/// known to be on, or else the one it was found on.
pub proof fn law_observed_focus(s: State, id: u32, found: Option<u64>)
    ensures
        ({
            let t = s.with_observed_focus(id, found);
            &&& t.tiling.focused_window == Some(id)
            &&& s.known_space(id) is Some ==> t.tiling.active_space == s.known_space(id)
                && t.tiling.spaces == s.tiling.spaces
            &&& s.known_space(id) is None && found is Some ==> t.tiling.active_space == found
            &&& s.known_space(id) is None && found is None ==> t.tiling.active_space
                == s.tiling.active_space && t.tiling.spaces == s.tiling.spaces
            &&& t.meta == s.meta
            &&& t.topology == s.topology
        }),
{
}

/// Of the spaces that a window is told to be on the active one is taken if it is
/// among them, else the first that has a layout.
pub proof fn law_likely_space(s: State, candidates: Seq<u64>, i: int)
    ensures
        s.tiling.active_space is Some && candidates.contains(s.tiling.active_space->0)
            ==> s.likely_space(candidates) == s.tiling.active_space,
        !(s.tiling.active_space is Some && candidates.contains(s.tiling.active_space->0)) && 0 <= i
            < candidates.len() && s.tiling.spaces.dom().contains(candidates[i]) && (forall|j: int|
            0 <= j < i ==> !s.tiling.spaces.dom().contains(#[trigger] candidates[j]))
            ==> s.likely_space(candidates) == Some(candidates[i]),
        !(s.tiling.active_space is Some && candidates.contains(s.tiling.active_space->0)) && (
        forall|j: int|
            0 <= j < candidates.len() ==> !s.tiling.spaces.dom().contains(#[trigger] candidates[j]))
            ==> s.likely_space(candidates) is None,
{
    let spaces = s.tiling.spaces.dom();
    if 0 <= i < candidates.len() && spaces.contains(candidates[i]) && (forall|j: int|
        0 <= j < i ==> !spaces.contains(#[trigger] candidates[j])) {
        lemma_first_with_layout(spaces, candidates, i);
    }
    if forall|j: int| 0 <= j < candidates.len() ==> !spaces.contains(#[trigger] candidates[j]) {
        lemma_none_with_layout(spaces, candidates);
    }
}

proof fn lemma_none_with_layout(spaces: Set<u64>, candidates: Seq<u64>)
    requires
        forall|j: int| 0 <= j < candidates.len() ==> !spaces.contains(#[trigger] candidates[j]),
    ensures
        first_with_layout(spaces, candidates) is None,
    decreases candidates.len(),
{
    if candidates.len() > 0 {
        lemma_none_with_layout(spaces, candidates.drop_last());
        assert(candidates.last() == candidates[candidates.len() - 1]);
    }
}

proof fn lemma_first_with_layout(spaces: Set<u64>, candidates: Seq<u64>, i: int)
    requires
        0 <= i < candidates.len(),
        spaces.contains(candidates[i]),
        forall|j: int| 0 <= j < i ==> !spaces.contains(#[trigger] candidates[j]),
    ensures
        first_with_layout(spaces, candidates) == Some(candidates[i]),
    decreases candidates.len(),
{
    if i == candidates.len() - 1 {
        lemma_none_with_layout(spaces, candidates.drop_last());
    } else {
        lemma_first_with_layout(spaces, candidates.drop_last(), i);
    }
}

/// The space active at first is the one that the display under the cursor shows, or
/// else the one that the first display shows.
pub proof fn law_first_active_space(s: State, cursor: Option<u32>, ds: Seq<LiveDisplay>)
    ensures
        cursor is Some && s.topology.display_active_space.dom().contains(cursor->0)
            ==> s.first_active(cursor, ds) == Some(s.topology.display_active_space[cursor->0]),
        !(cursor is Some && s.topology.display_active_space.dom().contains(cursor->0)) && ds.len()
            > 0 && s.topology.display_active_space.dom().contains(ds[0].id) ==> s.first_active(
            cursor,
            ds,
        ) == Some(s.topology.display_active_space[ds[0].id]),
        !(cursor is Some && s.topology.display_active_space.dom().contains(cursor->0)) && (ds.len()
            == 0 || !s.topology.display_active_space.dom().contains(ds[0].id)) ==> s.first_active(
            cursor,
            ds,
        ) is None,
{
}

/// A space created is told of with its place in the overview; a display added with its
/// place in the arrangement, if it has one.
pub proof fn law_topology_calls(order: Seq<u64>, sid: u64, did: u32, place: Option<int>)
    ensures
        space_created(order, sid) == (notices::Call {
            event: SignalEvent::SpaceCreated,
            env: seq![
                ("YABAI_SPACE_ID"@, text::decimal(sid as nat)),
                ("YABAI_SPACE_INDEX"@, text::decimal(spaces::place_in(order, sid))),
            ],
            app: None,
            title: None,
            active: None,
        }),
        place is None ==> display_added(did, place) == (notices::Call {
            event: SignalEvent::DisplayAdded,
            env: seq![("YABAI_DISPLAY_ID"@, text::decimal(did as nat))],
            app: None,
            title: None,
            active: None,
        }),
        place is Some ==> display_added(did, place) == (notices::Call {
            event: SignalEvent::DisplayAdded,
            env: seq![
                ("YABAI_DISPLAY_ID"@, text::decimal(did as nat)),
                ("YABAI_DISPLAY_INDEX"@, text::decimal(place->0 as nat)),
            ],
            app: None,
            title: None,
            active: None,
        }),
{
    if place is Some {
        assert(display_added(did, place).env =~= seq![
            ("YABAI_DISPLAY_ID"@, text::decimal(did as nat)),
            ("YABAI_DISPLAY_INDEX"@, text::decimal(place->0 as nat)),
        ]);
    }
}

proof fn lemma_seeded_displays(s: State, ds: Seq<LiveDisplay>, k: int)
    requires
        0 <= k <= ds.len(),
    ensures
        ({
            let t = s.with_bare_displays(ds, k);
            &&& t.topology.displays.dom() == s.topology.displays.dom().union(live_ids(ds.take(k)))
            &&& t.tiling == s.tiling
            &&& t.topology.display_active_space == s.topology.display_active_space
            &&& t.topology.space_displays == s.topology.space_displays
        }),
    decreases k,
{
    if k <= 0 {
        assert(ds.take(0) =~= Seq::<LiveDisplay>::empty());
        assert(s.topology.displays.dom().union(Set::<u32>::empty()) =~= s.topology.displays.dom());
    } else {
        lemma_seeded_displays(s, ds, k - 1);
        assert(ds.take(k).drop_last() =~= ds.take(k - 1));
        assert(ds.take(k).last() == ds[k - 1]);
        let t = s.with_bare_displays(ds, k);
        assert(t.topology.displays.dom() =~= s.topology.displays.dom().union(live_ids(ds.take(k))));
    }
}

proof fn lemma_spaces_placed(s: State, did: u32, usable: Area, list: Seq<u64>, k: int)
    requires
        0 <= k <= list.len(),
    ensures
        ({
            let t = s.with_spaces_on(did, usable, list, k);
            &&& forall|sid: u64| #[trigger]
                t.tiling.spaces.dom().contains(sid) <==> s.tiling.spaces.dom().contains(sid)
                    || exists|i: int| 0 <= i < k && #[trigger] list[i] == sid
            &&& forall|i: int|
                0 <= i < k ==> t.topology.space_displays.dom().contains(#[trigger] list[i])
                    && t.topology.space_displays[list[i]] == did
            &&& t.topology.displays == s.topology.displays
            &&& t.topology.display_active_space == s.topology.display_active_space
        }),
    decreases k,
{
    if k > 0 {
        lemma_spaces_placed(s, did, usable, list, k - 1);
        let before = s.with_spaces_on(did, usable, list, k - 1);
        let t = s.with_spaces_on(did, usable, list, k);
        let new = list[k - 1];
        assert forall|sid: u64| #[trigger] t.tiling.spaces.dom().contains(sid) <==> s.tiling.spaces.dom().contains(
            sid,
        ) || exists|i: int| 0 <= i < k && #[trigger] list[i] == sid by {
            assert(t.tiling.spaces.dom().contains(sid) <==> before.tiling.spaces.dom().contains(sid)
                || sid == new);
            if before.tiling.spaces.dom().contains(sid) && !s.tiling.spaces.dom().contains(sid) {
                let i = choose|i: int| 0 <= i < k - 1 && #[trigger] list[i] == sid;
                assert(list[i] == sid);
            }
        }
    }
}

proof fn lemma_seeded_spaces(s: State, ds: Seq<LiveDisplay>, k: int)
    requires
        0 <= k <= ds.len(),
    ensures
        ({
            let t = s.with_seeded_spaces(ds, k);
            &&& forall|sid: u64| #[trigger]
                t.tiling.spaces.dom().contains(sid) <==> s.tiling.spaces.dom().contains(sid)
                    || live_spaces(ds.take(k)).contains(sid)
            &&& t.topology.displays == s.topology.displays
            &&& k > 0 && ds[k - 1].current is Some
                ==> t.topology.display_active_space.dom().contains(ds[k - 1].id)
                && t.topology.display_active_space[ds[k - 1].id] == ds[k - 1].current->0
        }),
    decreases k,
{
    if k <= 0 {
        assert(ds.take(0) =~= Seq::<LiveDisplay>::empty());
    } else {
        lemma_seeded_spaces(s, ds, k - 1);
        let d = ds[k - 1];
        let before = s.with_seeded_spaces(ds, k - 1);
        let list = spaces_of(d);
        lemma_spaces_placed(before, d.id, d.usable, list, list.len() as int);
        assert(ds.take(k).drop_last() =~= ds.take(k - 1));
        assert(ds.take(k).last() == d);
        let t = s.with_seeded_spaces(ds, k);
        assert forall|sid: u64| #[trigger] t.tiling.spaces.dom().contains(sid) <==> s.tiling.spaces.dom().contains(
            sid,
        ) || live_spaces(ds.take(k)).contains(sid) by {
            assert(list.contains(sid) <==> exists|i: int|
                0 <= i < list.len() && #[trigger] list[i] == sid);
        }
    }
}

/// A daemon starts with the displays and the spaces that are live, each space with a
/// layout; the last display told shows the space that it tells.
pub proof fn law_daemon_starts_with_what_is_live(s: State, ds: Seq<LiveDisplay>)
    ensures
        ({
            let t = s.seeded(ds);
            &&& forall|sid: u64| #[trigger]
                t.tiling.spaces.dom().contains(sid) <==> s.tiling.spaces.dom().contains(sid)
                    || live_spaces(ds).contains(sid)
            &&& t.topology.displays.dom() == s.topology.displays.dom().union(live_ids(ds))
            &&& ds.len() > 0 && ds[ds.len() - 1].current is Some
                ==> t.topology.display_active_space[ds[ds.len() - 1].id] == ds[ds.len()
                - 1].current->0
        }),
{
    let n = ds.len() as int;
    assert(ds.take(n) =~= ds);
    lemma_seeded_displays(s, ds, n);
    lemma_seeded_spaces(s.with_bare_displays(ds, n), ds, n);
}

/// The spaces of a display are given its usable frame, one after the other.
pub proof fn law_spaces_get_their_frames(s: State, list: Seq<u64>, usable: Area, k: int)
    requires
        0 <= k <= list.len(),
    ensures
        forall|i: int|
            0 <= i < k ==> s.with_frames(list, usable, k).usable.dom().contains(#[trigger] list[i])
                && s.with_frames(list, usable, k).usable[list[i]] == usable,
        s.with_frames(list, usable, k).tiling.spaces == s.tiling.spaces,
        forall|sid: u64|
            !list.contains(sid) ==> s.with_frames(list, usable, k).usable.dom().contains(sid)
                == #[trigger] s.usable.dom().contains(sid),
    decreases k,
{
    if k > 0 {
        law_spaces_get_their_frames(s, list, usable, k - 1);
        assert(list.contains(list[k - 1]));
    }
}

proof fn lemma_missing<K>(ids: Seq<K>, set: Set<K>, id: K)
    ensures
        missing_from(ids, set).contains(id) <==> ids.contains(id) && !set.contains(id),
    decreases ids.len(),
{
    if ids.len() > 0 {
        let less = ids.drop_last();
        let last = ids.last();
        lemma_missing(less, set, id);
        assert(less.push(last) =~= ids);
        law_missing_ids(less, set, last);
        let kept = missing_from(ids, set);
        let earlier = missing_from(less, set);
        assert(ids[ids.len() - 1] == last);
        if ids.contains(id) {
            let k = choose|k: int| 0 <= k < ids.len() && ids[k] == id;
            if k < less.len() {
                assert(less[k] == id);
            }
        }
        if less.contains(id) {
            let k = choose|k: int| 0 <= k < less.len() && less[k] == id;
            assert(ids[k] == id);
        }
        if earlier.contains(id) {
            let k = choose|k: int| 0 <= k < earlier.len() && earlier[k] == id;
            assert(kept[k] == id);
        }
        if kept.contains(id) {
            let k = choose|k: int| 0 <= k < kept.len() && kept[k] == id;
            if k < earlier.len() {
                assert(earlier[k] == id);
            }
        }
        if !set.contains(last) {
            assert(kept[kept.len() - 1] == last);
        }
    } else {
        law_missing_ids(ids, set, id);
        assert(ids =~= Seq::<K>::empty());
    }
}

/// What is told of a change: the spaces that are live and had no layout are created, and
/// those that had one and are not live are destroyed, if every display told its spaces;
/// the displays that are live and were not known are added, and those known and not live
/// are removed.
pub proof fn law_what_changed(
    before: State,
    ds: Seq<LiveDisplay>,
    r: TopologyChange,
    sid: u64,
    did: u32,
)
    requires
        tells_change(before, ds, r),
        before.tiling.spaces.dom().finite(),
        before.topology.displays.dom().finite(),
    ensures
        r.created_spaces@.contains(sid) <==> live_spaces(ds).contains(sid)
            && !before.tiling.spaces.dom().contains(sid),
        (forall|i: int| 0 <= i < ds.len() ==> (#[trigger] ds[i]).spaces is Some) ==> (
        r.destroyed_spaces@.contains(sid) <==> before.tiling.spaces.dom().contains(sid)
            && !live_spaces(ds).contains(sid)),
        (exists|i: int| 0 <= i < ds.len() && (#[trigger] ds[i]).spaces is None)
            ==> r.destroyed_spaces@.len() == 0,
        r.added_displays@.contains(did) <==> live_ids(ds).contains(did)
            && !before.topology.displays.dom().contains(did),
        r.removed_displays@.contains(did) <==> before.topology.displays.dom().contains(did)
            && !live_ids(ds).contains(did),
{
    law_what_is_live(ds);
    let spaces = before.tiling.spaces.dom();
    let displays = before.topology.displays;
    let order = before.config.display_arrangement_order;
    idmap::lemma_listing_exists(live_spaces(ds));
    idmap::lemma_listing_exists(spaces);
    idmap::lemma_listing_exists(live_ids(ds));
    topology::lemma_arranged(displays, order);
    lemma_missing(idmap::ids_of(live_spaces(ds)), spaces, sid);
    lemma_missing(idmap::ids_of(spaces), live_spaces(ds), sid);
    lemma_missing(idmap::ids_of(live_ids(ds)), displays.dom(), did);
    lemma_missing(topology::arrangement(displays, order), live_ids(ds), did);
}

} // verus!
