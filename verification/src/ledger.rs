//! What the daemon remembers of applications and their windows between events.
use vstd::prelude::*;

use crate::idmap;
use crate::idmap::{Id, IdMap};
use crate::notices;
use crate::notices::SignalCall;
use crate::refresh;
use crate::rules;
use crate::signals::SignalEvent;
use crate::state::WindowMeta;
use crate::text;
use crate::types::Area;

verus! {

/// What the daemon remembers between events.
pub struct Ledger {
    observed: IdMap<i32, ()>,
    windows: IdMap<i32, Vec<u32>>,
    listings: IdMap<i32, IdMap<u32, WindowMeta>>,
    minimized: IdMap<u32, i32>,
    fullscreen: IdMap<u32, i32>,
    windowed: IdMap<u32, Area>,
}

/// What a ledger says.
#[verifier::ext_equal]
pub ghost struct LedgerModel {
    /// The applications whose windows are followed.
    pub observed: Set<i32>,
    /// The windows of each application when it was last looked at.
    pub windows: Map<i32, Seq<u32>>,
    /// The windows of each application that signals were fired about.
    pub listings: Map<i32, Map<u32, WindowMeta>>,
    /// The minimized windows and their applications.
    pub minimized: Map<u32, i32>,
    /// The windows in native fullscreen and their applications.
    pub fullscreen: Map<u32, i32>,
    /// The windows that fill their display, and where they were before.
    pub windowed: Map<u32, Area>,
}

/// Which windows belong to an application.
pub open spec fn belongs(map: Map<u32, i32>, pid: i32) -> spec_fn(u32) -> bool {
    |id: u32| map[id] == pid
}

/// The windows of an application in a map from windows to applications.
pub open spec fn of_app(map: Map<u32, i32>, pid: i32) -> Seq<u32> {
    idmap::ids_of(map.dom()).filter(belongs(map, pid))
}

/// A map from windows to applications without those of an application.
pub open spec fn without_app(map: Map<u32, i32>, pid: i32) -> Map<u32, i32> {
    Map::new(|id: u32| map.dom().contains(id) && map[id] != pid, |id: u32| map[id])
}

/// What the toggle of a window's filling its display asks for.
#[derive(Debug)]
pub enum WindowedStep {
    /// Put the window back where it was.
    Restore(Area),
    /// Make the window fill its display.
    Fill,
}

/// What the toggle asks for, by where the window was before it filled its
/// display, if it does.
pub fn next_windowed_step(saved: Option<Area>) -> (r: WindowedStep)
    ensures
        r == (match saved {
            Some(frame) => WindowedStep::Restore(frame),
            None => WindowedStep::Fill,
        }),
{
    match saved {
        Some(frame) => WindowedStep::Restore(frame),
        None => WindowedStep::Fill,
    }
}

impl LedgerModel {
    /// Where a window was before it filled its display, if it fills it.
    pub open spec fn saved_frame(self, id: u32) -> Option<Area> {
        if self.windowed.dom().contains(id) {
            Some(self.windowed[id])
        } else {
            None
        }
    }

    /// The toggle of a window's filling its display carried out, or tried in vain.
    pub open spec fn after_windowed(self, id: u32, frame: Area, placed: bool) -> LedgerModel {
        if !placed {
            self
        } else if self.windowed.dom().contains(id) {
            LedgerModel { windowed: self.windowed.remove(id), ..self }
        } else {
            LedgerModel { windowed: self.windowed.insert(id, frame), ..self }
        }
    }

    /// The windows of an application when it was last looked at.
    pub open spec fn windows_of(self, pid: i32) -> Seq<u32> {
        if self.windows.dom().contains(pid) {
            self.windows[pid]
        } else {
            Seq::empty()
        }
    }

    /// The windows of an application that signals were fired about.
    pub open spec fn listing_of(self, pid: i32) -> Map<u32, WindowMeta> {
        if self.listings.dom().contains(pid) {
            self.listings[pid]
        } else {
            Map::empty()
        }
    }

    /// The ledger after an application ended: nothing of it is left.
    pub open spec fn without(self, pid: i32) -> LedgerModel {
        LedgerModel {
            observed: self.observed.remove(pid),
            windows: self.windows.remove(pid),
            listings: self.listings.remove(pid),
            minimized: without_app(self.minimized, pid),
            fullscreen: without_app(self.fullscreen, pid),
            windowed: self.windowed,
        }
    }
}

/// The calls about windows that were listed with an application that is gone.
pub open spec fn farewell_calls(
    known: Map<u32, WindowMeta>,
    focused: Option<u32>,
) -> Seq<notices::Call> {
    notices::calls_on_gone(
        known,
        idmap::ids_of(known.dom()),
        idmap::ids_of(known.dom()).len() as int,
        Set::empty(),
        focused,
    )
}

/// What is to be done when an application ended.
pub struct Farewell {
    /// The signals about the windows that were listed with it.
    pub signals: Vec<SignalCall>,
    /// Its minimized windows.
    pub minimized: Vec<u32>,
    /// Its windows in native fullscreen.
    pub fullscreen: Vec<u32>,
    /// Its other windows, if it was ever looked at.
    pub windows: Option<Vec<u32>>,
}

fn contains_id(ids: &Vec<u32>, id: u32) -> (r: bool)
    ensures
        r == ids@.contains(id),
{
    let mut i: usize = 0;
    while i < ids.len()
        invariant
            i <= ids@.len(),
            forall|j: int| 0 <= j < i ==> ids@[j] != id,
        decreases ids.len() - i,
    {
        if ids[i] == id {
            return true;
        }
        i += 1;
    }
    false
}

fn take_app(map: &mut IdMap<u32, i32>, pid: i32) -> (r: Vec<u32>)
    requires
        old(map).wf(),
    ensures
        final(map).wf(),
        r@ == of_app(old(map)@, pid),
        final(map)@ == without_app(old(map)@, pid),
{
    let ghost pre = map@;
    let ghost keep = belongs(pre, pid);
    let ids = map.keys();
    let mut out: Vec<u32> = Vec::new();
    let mut i: usize = 0;
    proof {
        reveal(Seq::filter);
        assert(ids@.take(0).filter(keep) =~= Seq::<u32>::empty());
    }
    while i < ids.len()
        invariant
            i <= ids@.len(),
            map.wf(),
            pre == old(map)@,
            idmap::lists(ids@, pre.dom()),
            ids@ == idmap::ids_of(pre.dom()),
            keep == belongs(pre, pid),
            out@ == ids@.take(i as int).filter(keep),
            forall|id: u32| #[trigger]
                map@.dom().contains(id) <==> pre.dom().contains(id) && !(pre[id] == pid && exists|
                    j: int,
                |
                    0 <= j < i && #[trigger] ids@[j] == id),
            forall|id: u32| #[trigger] map@.dom().contains(id) ==> map@[id] == pre[id],
        decreases ids.len() - i,
    {
        proof {
            rules::lemma_filter_step(ids@, i as int, keep);
            assert(ids@.contains(ids@[i as int]));
            assert(pre.dom().contains(ids@[i as int]));
            assert forall|j: int| 0 <= j < i implies #[trigger] ids@[j] != ids@[i as int] by {
                assert(ids@[j].rank() < ids@[i as int].rank());
            }
            assert(map@.dom().contains(ids@[i as int]));
        }
        let owner = match map.get(ids[i]) {
            Some(owner) => *owner,
            None => pid,
        };
        if owner == pid {
            let _ = map.remove(ids[i]);
            out.push(ids[i]);
        }
        i += 1;
    }
    proof {
        assert(ids@.take(ids@.len() as int) =~= ids@);
        assert forall|id: u32| pre.dom().contains(id) implies exists|j: int|
            0 <= j < ids@.len() && #[trigger] ids@[j] == id by {
            assert(ids@.contains(id));
        }
        assert(map@ =~= without_app(pre, pid));
    }
    out
}

impl View for Ledger {
    type V = LedgerModel;

    closed spec fn view(&self) -> LedgerModel {
        LedgerModel {
            observed: self.observed@.dom(),
            windows: self.windows@.map_values(|ids: Vec<u32>| ids@),
            listings: self.listings@.map_values(|m: IdMap<u32, WindowMeta>| m@),
            minimized: self.minimized@,
            fullscreen: self.fullscreen@,
            windowed: self.windowed@,
        }
    }
}

impl Ledger {
    /// The parts of the ledger are in order.
    pub closed spec fn wf(&self) -> bool {
        &&& self.observed.wf()
        &&& self.windows.wf()
        &&& self.listings.wf()
        &&& forall|pid: i32| #[trigger]
            self.listings@.dom().contains(pid) ==> self.listings@[pid].wf()
        &&& self.minimized.wf()
        &&& self.fullscreen.wf()
        &&& self.windowed.wf()
    }

    /// An empty ledger.
    pub fn new() -> (r: Self)
        ensures
            r.wf(),
            r@ == (LedgerModel {
                observed: Set::empty(),
                windows: Map::empty(),
                listings: Map::empty(),
                minimized: Map::empty(),
                fullscreen: Map::empty(),
                windowed: Map::empty(),
            }),
    {
        let r = Ledger {
            observed: IdMap::new(),
            windows: IdMap::new(),
            listings: IdMap::new(),
            minimized: IdMap::new(),
            fullscreen: IdMap::new(),
            windowed: IdMap::new(),
        };
        proof {
            assert(r@.observed =~= Set::empty());
            assert(r@.windows =~= Map::empty());
            assert(r@.listings =~= Map::empty());
        }
        r
    }

    /// Follow the windows of an application; whether that is new.
    pub fn observe(&mut self, pid: i32) -> (r: bool)
        requires
            old(self).wf(),
        ensures
            final(self).wf(),
            r == !old(self)@.observed.contains(pid),
            final(self)@ == (LedgerModel {
                observed: old(self)@.observed.insert(pid),
                ..old(self)@
            }),
    {
        let fresh = !self.observed.contains(pid);
        self.observed.insert(pid, ());
        assert(self@.observed =~= old(self)@.observed.insert(pid));
        fresh
    }

    /// The applications whose windows are followed, by ascending number.
    pub fn observed_apps(&self) -> (r: Vec<i32>)
        requires
            self.wf(),
        ensures
            r@ == idmap::ids_of(self@.observed),
    {
        self.observed.keys()
    }

    /// Whether a window is new to its application.
    pub fn is_new(&self, pid: i32, id: u32) -> (r: bool)
        requires
            self.wf(),
        ensures
            r == !self@.windows_of(pid).contains(id),
    {
        match self.windows.get(pid) {
            Some(ids) => !contains_id(ids, id),
            None => true,
        }
    }

    /// The windows of an application that were not found this time.
    pub fn missing(&self, pid: i32, found: &Vec<u32>) -> (r: Vec<u32>)
        requires
            self.wf(),
        ensures
            r@ == refresh::missing_from(self@.windows_of(pid), found@.to_set()),
    {
        let ghost keep = |id: u32| !found@.to_set().contains(id);
        let mut out: Vec<u32> = Vec::new();
        proof {
            reveal(Seq::filter);
            assert(Seq::<u32>::empty().filter(keep) =~= Seq::<u32>::empty());
        }
        if let Some(ids) = self.windows.get(pid) {
            let mut i: usize = 0;
            assert(ids@.take(0).filter(keep) =~= Seq::<u32>::empty());
            while i < ids.len()
                invariant
                    i <= ids@.len(),
                    keep == (|id: u32| !found@.to_set().contains(id)),
                    out@ == ids@.take(i as int).filter(keep),
                decreases ids.len() - i,
            {
                proof {
                    rules::lemma_filter_step(ids@, i as int, keep);
                }
                if !contains_id(found, ids[i]) {
                    out.push(ids[i]);
                }
                i += 1;
            }
            assert(ids@.take(ids@.len() as int) =~= ids@);
        }
        out
    }

    /// Note the windows of an application.
    pub fn settle(&mut self, pid: i32, found: Vec<u32>)
        requires
            old(self).wf(),
        ensures
            final(self).wf(),
            final(self)@ == (LedgerModel {
                windows: old(self)@.windows.insert(pid, found@),
                ..old(self)@
            }),
    {
        self.windows.insert(pid, found);
        assert(self@.windows =~= old(self)@.windows.insert(pid, found@));
    }

    /// Take in what the system lists of an application's windows, and tell the
    /// signals to fire.
    pub fn take_listing(
        &mut self,
        pid: i32,
        infos: &Vec<(u32, WindowMeta)>,
        focused: Option<u32>,
    ) -> (r: Vec<SignalCall>)
        requires
            old(self).wf(),
        ensures
            final(self).wf(),
            final(self)@ == (LedgerModel {
                listings: old(self)@.listings.insert(pid, notices::listed(infos@)),
                ..old(self)@
            }),
            notices::calls(r@) == notices::calls_on_listed(
                old(self)@.listing_of(pid),
                infos@,
                focused,
            ) + notices::calls_on_gone(
                old(self)@.listing_of(pid),
                idmap::ids_of(old(self)@.listing_of(pid).dom()),
                idmap::ids_of(old(self)@.listing_of(pid).dom()).len() as int,
                notices::listed(infos@).dom(),
                focused,
            ),
    {
        let known = match self.listings.remove(pid) {
            Some(known) => known,
            None => IdMap::new(),
        };
        assert(known@ =~= old(self)@.listing_of(pid));
        let calls = notices::lifecycle_signals(&known, infos, focused);
        self.listings.insert(pid, notices::listed_windows(infos));
        assert(self@.listings =~= old(self)@.listings.insert(pid, notices::listed(infos@)));
        calls
    }

    /// What was last listed of a window with its application.
    pub fn listed(&self, pid: i32, id: u32) -> (r: Option<&WindowMeta>)
        requires
            self.wf(),
        ensures
            match r {
                Some(meta) => self@.listing_of(pid).dom().contains(id) && *meta
                    == self@.listing_of(pid)[id],
                None => !self@.listing_of(pid).dom().contains(id),
            },
    {
        match self.listings.get(pid) {
            Some(known) => known.get(id),
            None => None,
        }
    }

    /// Note that a window was minimized.
    pub fn note_minimized(&mut self, id: u32, pid: i32)
        requires
            old(self).wf(),
        ensures
            final(self).wf(),
            final(self)@ == (LedgerModel {
                minimized: old(self)@.minimized.insert(id, pid),
                ..old(self)@
            }),
    {
        self.minimized.insert(id, pid);
    }

    /// The application of a minimized window.
    pub fn minimized_app(&self, id: u32) -> (r: Option<i32>)
        requires
            self.wf(),
        ensures
            r == (if self@.minimized.dom().contains(id) {
                Some(self@.minimized[id])
            } else {
                None
            }),
    {
        match self.minimized.get(id) {
            Some(pid) => Some(*pid),
            None => None,
        }
    }

    /// Take in whether a minimized window was brought back. One that could not be
    /// is left as it was, so that it can be tried again.
    pub fn settle_minimized(&mut self, id: u32, restored: bool)
        requires
            old(self).wf(),
        ensures
            final(self).wf(),
            final(self)@ == (if restored {
                LedgerModel { minimized: old(self)@.minimized.remove(id), ..old(self)@ }
            } else {
                old(self)@
            }),
    {
        if restored {
            let _ = self.minimized.remove(id);
            assert(self@.minimized =~= old(self)@.minimized.remove(id));
        }
    }

    /// Note that a window entered native fullscreen.
    pub fn note_fullscreen(&mut self, id: u32, pid: i32)
        requires
            old(self).wf(),
        ensures
            final(self).wf(),
            final(self)@ == (LedgerModel {
                fullscreen: old(self)@.fullscreen.insert(id, pid),
                ..old(self)@
            }),
    {
        self.fullscreen.insert(id, pid);
    }

    /// The application of a window in native fullscreen.
    pub fn fullscreen_app(&self, id: u32) -> (r: Option<i32>)
        requires
            self.wf(),
        ensures
            r == (if self@.fullscreen.dom().contains(id) {
                Some(self@.fullscreen[id])
            } else {
                None
            }),
    {
        match self.fullscreen.get(id) {
            Some(pid) => Some(*pid),
            None => None,
        }
    }

    /// Take in whether a window left native fullscreen. One that could not is left
    /// as it was, so that it can be tried again.
    pub fn settle_fullscreen(&mut self, id: u32, left: bool)
        requires
            old(self).wf(),
        ensures
            final(self).wf(),
            final(self)@ == (if left {
                LedgerModel { fullscreen: old(self)@.fullscreen.remove(id), ..old(self)@ }
            } else {
                old(self)@
            }),
    {
        if left {
            let _ = self.fullscreen.remove(id);
            assert(self@.fullscreen =~= old(self)@.fullscreen.remove(id));
        }
    }

    /// Where a window was before it filled its display, if it fills it.
    pub fn windowed_frame(&self, id: u32) -> (r: Option<Area>)
        requires
            self.wf(),
        ensures
            r == self@.saved_frame(id),
    {
        match self.windowed.get(id) {
            Some(frame) => Some(frame.copy()),
            None => None,
        }
    }

    /// Take in whether a window was placed when its filling of the display was
    /// toggled. A window that filled it and was put back is forgotten; one that did
    /// not, and fills it now, is noted with its former frame. A window that could
    /// not be placed is left as it was, so that the toggle can be tried again.
    pub fn settle_windowed(&mut self, id: u32, frame: Area, placed: bool)
        requires
            old(self).wf(),
        ensures
            final(self).wf(),
            final(self)@ == old(self)@.after_windowed(id, frame, placed),
    {
        if !placed {
            return;
        }
        if self.windowed.contains(id) {
            let _ = self.windowed.remove(id);
            assert(self@.windowed =~= old(self)@.windowed.remove(id));
        } else {
            self.windowed.insert(id, frame);
        }
    }

    /// Forget an application that ended, and tell what is to be done. Nothing is
    /// if its windows were not followed.
    pub fn terminate(&mut self, pid: i32, focused: Option<u32>) -> (r: Option<Farewell>)
        requires
            old(self).wf(),
        ensures
            final(self).wf(),
            if old(self)@.observed.contains(pid) {
                &&& final(self)@ == old(self)@.without(pid)
                &&& r matches Some(f)
                &&& notices::calls(f.signals@) == farewell_calls(
                    old(self)@.listing_of(pid),
                    focused,
                )
                &&& f.minimized@ == of_app(old(self)@.minimized, pid)
                &&& f.fullscreen@ == of_app(old(self)@.fullscreen, pid)
                &&& match f.windows {
                    Some(ids) => old(self)@.windows.dom().contains(pid) && ids@
                        == old(self)@.windows[pid],
                    None => !old(self)@.windows.dom().contains(pid),
                }
            } else {
                final(self)@ == old(self)@ && r is None
            },
    {
        if !self.observed.contains(pid) {
            return None;
        }
        let _ = self.observed.remove(pid);
        let minimized = take_app(&mut self.minimized, pid);
        let fullscreen = take_app(&mut self.fullscreen, pid);
        let known = match self.listings.remove(pid) {
            Some(known) => known,
            None => IdMap::new(),
        };
        assert(known@ =~= old(self)@.listing_of(pid));
        let none: Vec<(u32, WindowMeta)> = Vec::new();
        let signals = notices::lifecycle_signals(&known, &none, focused);
        let windows = self.windows.remove(pid);
        proof {
            assert(notices::listed(none@).dom() =~= Set::<u32>::empty());
            assert(notices::calls_on_listed(known@, none@, focused) + farewell_calls(
                known@,
                focused,
            ) =~= farewell_calls(known@, focused));
            assert(self@ =~= old(self)@.without(pid));
        }
        Some(Farewell { signals, minimized, fullscreen, windows })
    }
}

/// A window that was found with its application is not new the next time, and
/// is not missed if it is found again.
pub proof fn law_found_windows_are_known(m: LedgerModel, pid: i32, found: Seq<u32>, id: u32)
    requires
        found.contains(id),
    ensures
        (LedgerModel { windows: m.windows.insert(pid, found), ..m }).windows_of(pid).contains(id),
        refresh::missing_from(
            (LedgerModel { windows: m.windows.insert(pid, found), ..m }).windows_of(pid),
            found.to_set(),
        ) == Seq::<u32>::empty(),
{
    let keep = |w: u32| !found.to_set().contains(w);
    lemma_none_kept(found, found, keep);
}

proof fn lemma_none_kept(s: Seq<u32>, found: Seq<u32>, keep: spec_fn(u32) -> bool)
    requires
        forall|i: int| 0 <= i < s.len() ==> found.contains(#[trigger] s[i]),
        forall|w: u32| #[trigger] keep(w) == !found.to_set().contains(w),
    ensures
        s.filter(keep) == Seq::<u32>::empty(),
    decreases s.len(),
{
    reveal(Seq::filter);
    if s.len() > 0 {
        assert(found.contains(s.last()));
        lemma_none_kept(s.drop_last(), found, keep);
    }
}

/// Of an application that ended nothing is left.
pub proof fn law_ended_application_is_forgotten(m: LedgerModel, pid: i32, id: u32)
    ensures
        !m.without(pid).observed.contains(pid),
        m.without(pid).windows_of(pid) == Seq::<u32>::empty(),
        m.without(pid).listing_of(pid) == Map::<u32, WindowMeta>::empty(),
        m.without(pid).minimized.dom().contains(id) ==> m.without(pid).minimized[id] != pid,
        m.without(pid).fullscreen.dom().contains(id) ==> m.without(pid).fullscreen[id] != pid,
{
}

/// A window made to fill its display is put back where it was by the next toggle,
/// and the ledger is then what it was before.
pub proof fn law_windowed_toggle_restores(m: LedgerModel, id: u32, frame: Area, bounds: Area)
    requires
        m.saved_frame(id) is None,
    ensures
        m.after_windowed(id, frame, true).saved_frame(id) == Some(frame),
        m.after_windowed(id, frame, true).after_windowed(id, bounds, false).saved_frame(id) == Some(
            frame,
        ),
        m.after_windowed(id, frame, true).after_windowed(id, bounds, true) == m,
{
    assert(m.after_windowed(id, frame, true).after_windowed(id, bounds, true).windowed
        =~= m.windowed);
}

/// An application that ended takes along its own windows alone.
pub proof fn law_ended_application_spares_others(m: LedgerModel, pid: i32, other: i32, id: u32)
    requires
        other != pid,
    ensures
        m.without(pid).observed.contains(other) == m.observed.contains(other),
        m.without(pid).windows_of(other) == m.windows_of(other),
        m.without(pid).listing_of(other) == m.listing_of(other),
        m.minimized.dom().contains(id) && m.minimized[id] != pid ==> m.without(
            pid,
        ).minimized.dom().contains(id) && m.without(pid).minimized[id] == m.minimized[id],
        m.fullscreen.dom().contains(id) && m.fullscreen[id] != pid ==> m.without(
            pid,
        ).fullscreen.dom().contains(id) && m.without(pid).fullscreen[id] == m.fullscreen[id],
        m.without(pid).windowed == m.windowed,
{
}

/// The windows that belong to an application are those that the map says are its own.
pub proof fn law_windows_of_an_application(map: Map<u32, i32>, pid: i32, id: u32)
    requires
        map.dom().finite(),
    ensures
        of_app(map, pid).contains(id) <==> map.dom().contains(id) && map[id] == pid,
        without_app(map, pid).dom().contains(id) <==> map.dom().contains(id) && map[id] != pid,
{
    let ids = idmap::ids_of(map.dom());
    idmap::lemma_listing_exists(map.dom());
    lemma_kept(ids, belongs(map, pid), id);
}

proof fn lemma_kept(ids: Seq<u32>, keep: spec_fn(u32) -> bool, id: u32)
    ensures
        ids.filter(keep).contains(id) <==> ids.contains(id) && keep(id),
    decreases ids.len(),
{
    reveal(Seq::filter);
    if ids.len() > 0 {
        let less = ids.drop_last();
        lemma_kept(less, keep, id);
        let kept = ids.filter(keep);
        let earlier = less.filter(keep);
        assert(ids[ids.len() - 1] == ids.last());
        if ids.contains(id) {
            let k = choose|k: int| 0 <= k < ids.len() && ids[k] == id;
            if k < less.len() {
                assert(less[k] == id);
            }
        }
        if less.contains(id) {
            let k = choose|k: int| 0 <= k < less.len() && less[k] == id;
            assert(ids[k] == id);
        }
        if earlier.contains(id) {
            let k = choose|k: int| 0 <= k < earlier.len() && earlier[k] == id;
            assert(kept[k] == id);
        }
        if kept.contains(id) {
            let k = choose|k: int| 0 <= k < kept.len() && kept[k] == id;
            if k < earlier.len() {
                assert(earlier[k] == id);
            }
        }
        if keep(ids.last()) {
            assert(kept[kept.len() - 1] == ids.last());
        }
    }
}

/// When an application ends, each window that was listed with it is told of as gone,
/// by ascending id, and nothing else is told.
pub proof fn law_farewells(known: Map<u32, WindowMeta>, focused: Option<u32>, i: int)
    requires
        known.dom().finite(),
        0 <= i < idmap::ids_of(known.dom()).len(),
    ensures
        ({
            let id = idmap::ids_of(known.dom())[i];
            &&& farewell_calls(known, focused).len() == idmap::ids_of(known.dom()).len()
            &&& farewell_calls(known, focused)[i] == (notices::Call {
                event: SignalEvent::WindowDestroyed,
                env: seq![("YABAI_WINDOW_ID"@, text::decimal(id as nat))],
                app: Some(known[id].app@),
                title: None,
                active: Some(focused == Some(id)),
            })
        }),
{
    let ids = idmap::ids_of(known.dom());
    lemma_farewells(known, ids, ids.len() as int, focused, i);
}

proof fn lemma_farewells(
    known: Map<u32, WindowMeta>,
    ids: Seq<u32>,
    k: int,
    focused: Option<u32>,
    i: int,
)
    requires
        0 <= k <= ids.len(),
    ensures
        notices::calls_on_gone(known, ids, k, Set::empty(), focused).len() == k,
        0 <= i < k ==> notices::calls_on_gone(known, ids, k, Set::empty(), focused)[i]
            == notices::gone(ids[i], known[ids[i]], focused),
    decreases k,
{
    if k > 0 {
        lemma_farewells(known, ids, k - 1, focused, i);
    }
}

} // verus!
