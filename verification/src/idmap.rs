//! Hash maps keyed by numeric identifiers, whose keys are listed in ascending
//! order.
use std::collections::HashMap;
use std::hash::Hash;

use vstd::prelude::*;
use vstd::std_specs::hash;
use vstd::std_specs::iter::IteratorSpec;

verus! {

/// A numeric identifier: its rank orders it and determines it, and hash tables can
/// be keyed by it.
pub trait Id: Copy + Eq + Hash {
    spec fn rank(self) -> int;

    proof fn can_be_hashed()
        ensures
            hash::obeys_key_model::<Self>(),
    ;

    proof fn rank_injective(a: Self, b: Self)
        requires
            a.rank() == b.rank(),
        ensures
            a == b,
    ;

    fn below(self, other: Self) -> (r: bool)
        ensures
            r == (self.rank() < other.rank()),
    ;
}

impl Id for u32 {
    open spec fn rank(self) -> int {
        self as int
    }

    proof fn can_be_hashed() {
        broadcast use hash::group_hash_axioms;

    }

    proof fn rank_injective(a: Self, b: Self) {
    }

    fn below(self, other: Self) -> (r: bool) {
        self < other
    }
}

impl Id for u64 {
    open spec fn rank(self) -> int {
        self as int
    }

    proof fn can_be_hashed() {
        broadcast use hash::group_hash_axioms;

    }

    proof fn rank_injective(a: Self, b: Self) {
    }

    fn below(self, other: Self) -> (r: bool) {
        self < other
    }
}

impl Id for i32 {
    open spec fn rank(self) -> int {
        self as int
    }

    proof fn can_be_hashed() {
        broadcast use hash::group_hash_axioms;

    }

    proof fn rank_injective(a: Self, b: Self) {
    }

    fn below(self, other: Self) -> (r: bool) {
        self < other
    }
}

/// Strictly ascending identifiers.
pub open spec fn ascending<K: Id>(s: Seq<K>) -> bool {
    forall|i: int, j: int| 0 <= i < j < s.len() ==> #[trigger] s[i].rank() < #[trigger] s[j].rank()
}

/// `s` lists the identifiers of `set` in ascending order.
pub open spec fn lists<K: Id>(s: Seq<K>, set: Set<K>) -> bool {
    &&& ascending(s)
    &&& forall|k: K| s.contains(k) <==> set.contains(k)
}

/// The identifiers of a finite set in ascending order.
pub open spec fn ids_of<K: Id>(set: Set<K>) -> Seq<K> {
    choose|s: Seq<K>| lists(s, set)
}

/// A set has at most one ascending listing.
pub proof fn lemma_lists_unique<K: Id>(s: Seq<K>, t: Seq<K>, set: Set<K>)
    requires
        lists(s, set),
        lists(t, set),
    ensures
        s == t,
    decreases s.len(),
{
    if s.len() == 0 {
        if t.len() > 0 {
            assert(t.contains(t[0]));
            assert(s.contains(t[0]));
        }
        assert(s =~= t);
    } else {
        assert(s.contains(s.last()));
        assert(t.contains(s.last()));
        let a = choose|a: int| 0 <= a < t.len() && t[a] == s.last();
        assert(t.contains(t.last()));
        assert(s.contains(t.last()));
        let b = choose|b: int| 0 <= b < s.len() && s[b] == t.last();
        assert(t.last() == s.last()) by {
            if a < t.len() - 1 {
                assert(t[a].rank() < t[t.len() - 1].rank());
                if b < s.len() - 1 {
                    assert(s[b].rank() < s[s.len() - 1].rank());
                }
            }
        }
        let set2 = set.remove(s.last());
        let s2 = s.drop_last();
        let t2 = t.drop_last();
        lemma_drop_last_lists(s, set);
        lemma_drop_last_lists(t, set);
        lemma_lists_unique(s2, t2, set2);
        assert(s =~= s2.push(s.last()));
        assert(t =~= t2.push(t.last()));
    }
}

proof fn lemma_drop_last_lists<K: Id>(s: Seq<K>, set: Set<K>)
    requires
        lists(s, set),
        s.len() > 0,
    ensures
        lists(s.drop_last(), set.remove(s.last())),
{
    let s2 = s.drop_last();
    assert forall|i: int, j: int| 0 <= i < j < s2.len() implies #[trigger] s2[i].rank()
        < #[trigger] s2[j].rank() by {
        assert(s2[i] == s[i] && s2[j] == s[j]);
    }
    assert forall|k: K| s2.contains(k) <==> set.remove(s.last()).contains(k) by {
        if s2.contains(k) {
            let i = choose|i: int| 0 <= i < s2.len() && s2[i] == k;
            assert(s[i] == k);
            assert(s.contains(k));
            assert(s[i].rank() < s[s.len() - 1].rank());
        }
        if set.remove(s.last()).contains(k) {
            assert(s.contains(k));
            let i = choose|i: int| 0 <= i < s.len() && s[i] == k;
            assert(s2[i] == k);
        }
    }
}

/// An ascending listing is the listing.
pub proof fn lemma_ids_of<K: Id>(s: Seq<K>, set: Set<K>)
    requires
        lists(s, set),
    ensures
        ids_of(set) == s,
{
    lemma_lists_unique(s, ids_of(set), set);
}

/// What a prefix holds after one element more.
pub proof fn lemma_take_step<A>(s: Seq<A>, i: int)
    requires
        0 <= i < s.len(),
    ensures
        forall|x: A| #[trigger] s.take(i + 1).contains(x) <==> s.take(i).contains(x) || x == s[i],
        s.take(i + 1).contains(s[i]),
{
    let a = s.take(i);
    let b = s.take(i + 1);
    assert(b[i] == s[i]);
    assert forall|x: A| #[trigger] b.contains(x) <==> a.contains(x) || x == s[i] by {
        if a.contains(x) {
            let j = choose|j: int| 0 <= j < a.len() && a[j] == x;
            assert(b[j] == x);
        }
        if b.contains(x) && x != s[i] {
            let j = choose|j: int| 0 <= j < b.len() && b[j] == x;
            assert(a[j] == x);
        }
    }
}

/// Strictly ascending by a measure.
pub open spec fn sorted_by<K>(s: Seq<K>, f: spec_fn(K) -> int) -> bool {
    forall|i: int, j: int| 0 <= i < j < s.len() ==> f(#[trigger] s[i]) < f(#[trigger] s[j])
}

/// `s` lists the elements of `set`, ascending by a measure.
pub open spec fn lists_by<K>(s: Seq<K>, set: Set<K>, f: spec_fn(K) -> int) -> bool {
    &&& sorted_by(s, f)
    &&& forall|k: K| s.contains(k) <==> set.contains(k)
}

/// A set has at most one listing that ascends by a given measure.
pub proof fn lemma_lists_by_unique<K>(s: Seq<K>, t: Seq<K>, set: Set<K>, f: spec_fn(K) -> int)
    requires
        lists_by(s, set, f),
        lists_by(t, set, f),
    ensures
        s == t,
    decreases s.len(),
{
    if s.len() == 0 {
        if t.len() > 0 {
            assert(t.contains(t[0]));
            assert(s.contains(t[0]));
        }
        assert(s =~= t);
    } else {
        assert(s.contains(s.last()));
        assert(t.contains(s.last()));
        let a = choose|a: int| 0 <= a < t.len() && t[a] == s.last();
        assert(t.contains(t.last()));
        assert(s.contains(t.last()));
        let b = choose|b: int| 0 <= b < s.len() && s[b] == t.last();
        assert(t.last() == s.last()) by {
            if a < t.len() - 1 {
                assert(f(t[a]) < f(t[t.len() - 1]));
                if b < s.len() - 1 {
                    assert(f(s[b]) < f(s[s.len() - 1]));
                }
            }
        }
        lemma_drop_last_lists_by(s, set, f);
        lemma_drop_last_lists_by(t, set, f);
        lemma_lists_by_unique(s.drop_last(), t.drop_last(), set.remove(s.last()), f);
        assert(s =~= s.drop_last().push(s.last()));
        assert(t =~= t.drop_last().push(t.last()));
    }
}

proof fn lemma_drop_last_lists_by<K>(s: Seq<K>, set: Set<K>, f: spec_fn(K) -> int)
    requires
        lists_by(s, set, f),
        s.len() > 0,
    ensures
        lists_by(s.drop_last(), set.remove(s.last()), f),
{
    let s2 = s.drop_last();
    assert forall|i: int, j: int| 0 <= i < j < s2.len() implies f(#[trigger] s2[i]) < f(
        #[trigger] s2[j],
    ) by {
        assert(s2[i] == s[i] && s2[j] == s[j]);
    }
    assert forall|k: K| s2.contains(k) <==> set.remove(s.last()).contains(k) by {
        if s2.contains(k) {
            let i = choose|i: int| 0 <= i < s2.len() && s2[i] == k;
            assert(s[i] == k);
            assert(s.contains(k));
            assert(f(s[i]) < f(s[s.len() - 1]));
        }
        if set.remove(s.last()).contains(k) {
            assert(s.contains(k));
            let i = choose|i: int| 0 <= i < s.len() && s[i] == k;
            assert(s2[i] == k);
        }
    }
}

/// Every finite set of identifiers has an ascending listing.
pub proof fn lemma_listing_exists<K: Id>(set: Set<K>)
    requires
        set.finite(),
    ensures
        lists(ids_of(set), set),
    decreases set.len(),
{
    if set.len() == 0 {
        assert(set =~= Set::<K>::empty());
        assert(lists(Seq::<K>::empty(), set));
    } else {
        let top = lemma_greatest(set);
        let rest = set.remove(top);
        lemma_listing_exists(rest);
        let s = ids_of(rest);
        let t = s.push(top);
        assert forall|i: int, j: int| 0 <= i < j < t.len() implies #[trigger] t[i].rank()
            < #[trigger] t[j].rank() by {
            if j == s.len() {
                assert(s.contains(s[i]));
                assert(rest.contains(s[i]));
                if t[i].rank() == top.rank() {
                    K::rank_injective(t[i], top);
                }
            }
        }
        assert forall|k: K| t.contains(k) <==> set.contains(k) by {
            if t.contains(k) {
                let i = choose|i: int| 0 <= i < t.len() && t[i] == k;
                if i < s.len() {
                    assert(s.contains(s[i]));
                }
            }
            if set.contains(k) {
                if k == top {
                    assert(t[s.len() as int] == k);
                } else {
                    assert(s.contains(k));
                    let i = choose|i: int| 0 <= i < s.len() && s[i] == k;
                    assert(t[i] == k);
                }
            }
        }
        assert(lists(t, set));
    }
}

proof fn lemma_greatest<K: Id>(set: Set<K>) -> (top: K)
    requires
        set.finite(),
        set.len() > 0,
    ensures
        set.contains(top),
        forall|k: K| #[trigger] set.contains(k) ==> k.rank() <= top.rank(),
    decreases set.len(),
{
    let a = set.choose();
    let rest = set.remove(a);
    if rest.len() == 0 {
        assert forall|k: K| #[trigger] set.contains(k) implies k.rank() <= a.rank() by {
            if k != a {
                assert(rest.contains(k));
                assert(rest =~= Set::<K>::empty());
            }
        }
        a
    } else {
        let b = lemma_greatest(rest);
        let top = if a.rank() < b.rank() {
            b
        } else {
            a
        };
        assert forall|k: K| #[trigger] set.contains(k) implies k.rank() <= top.rank() by {
            if k != a {
                assert(rest.contains(k));
            }
        }
        top
    }
}

/// What a listing holds with one identifier more, put before the first that is
/// not below it.
proof fn lemma_listed<K: Id>(s: Seq<K>, set: Set<K>, k: K, i: int)
    requires
        lists(s, set),
        !set.contains(k),
        0 <= i <= s.len(),
        forall|j: int| 0 <= j < i ==> (#[trigger] s[j]).rank() < k.rank(),
        i < s.len() ==> s[i].rank() >= k.rank(),
    ensures
        lists(s.insert(i, k), set.insert(k)),
{
    let t = s.insert(i, k);
    assert forall|a: int, b: int| 0 <= a < b < t.len() implies #[trigger] t[a].rank()
        < #[trigger] t[b].rank() by {
        if b > i && a <= i {
            let behind = s[b - 1];
            assert(s.contains(behind));
            if behind.rank() == k.rank() {
                K::rank_injective(behind, k);
            }
            if i < b - 1 {
                assert(s[i].rank() < s[b - 1].rank());
            }
        }
        if a > i {
            assert(s[a - 1].rank() < s[b - 1].rank());
        }
    }
    assert forall|q: K| t.contains(q) <==> set.insert(k).contains(q) by {
        assert(t[i] == k);
        if t.contains(q) && q != k {
            let j = choose|j: int| 0 <= j < t.len() && t[j] == q;
            assert(s[if j < i { j } else { j - 1 }] == q);
        }
        if s.contains(q) {
            let j = choose|j: int| 0 <= j < s.len() && s[j] == q;
            assert(t[if j < i { j } else { j + 1 }] == q);
        }
    }
}

/// A hash map keyed by identifiers.
pub struct IdMap<K, V> {
    map: HashMap<K, V>,
}

impl<K: Id, V> View for IdMap<K, V> {
    type V = Map<K, V>;

    closed spec fn view(&self) -> Map<K, V> {
        self.map@
    }
}

impl<K: Id, V> IdMap<K, V> {
    /// Hash tables can be keyed by the identifiers.
    pub closed spec fn wf(&self) -> bool {
        hash::obeys_key_model::<K>() && hash::builds_valid_hashers::<
            std::hash::RandomState,
        >()
    }

    /// The empty map.
    pub fn new() -> (r: Self)
        ensures
            r.wf(),
            r@ == Map::<K, V>::empty(),
    {
        broadcast use hash::group_hash_axioms;

        proof {
            K::can_be_hashed();
        }
        IdMap { map: HashMap::new() }
    }

    /// Whether there is no key.
    pub fn is_empty(&self) -> (r: bool)
        requires
            self.wf(),
        ensures
            r == (self@.dom() == Set::<K>::empty()),
    {
        assert(self@.is_empty() ==> self@.dom() =~= Set::<K>::empty());
        self.map.is_empty()
    }

    /// Whether a key is there.
    pub fn contains(&self, k: K) -> (r: bool)
        requires
            self.wf(),
        ensures
            r == self@.dom().contains(k),
    {
        broadcast use hash::group_hash_axioms;

        self.map.contains_key(&k)
    }

    /// The value of a key.
    pub fn get(&self, k: K) -> (r: Option<&V>)
        requires
            self.wf(),
        ensures
            match r {
                Some(v) => self@.dom().contains(k) && *v == self@[k],
                None => !self@.dom().contains(k),
            },
    {
        broadcast use hash::group_hash_axioms;

        self.map.get(&k)
    }

    /// Bind a key, replacing any value it had.
    pub fn insert(&mut self, k: K, v: V)
        requires
            old(self).wf(),
        ensures
            final(self).wf(),
            final(self)@ == old(self)@.insert(k, v),
    {
        broadcast use hash::group_hash_axioms;

        let _ = self.map.insert(k, v);
    }

    /// Unbind a key and hand its value back.
    pub fn remove(&mut self, k: K) -> (r: Option<V>)
        requires
            old(self).wf(),
        ensures
            final(self).wf(),
            final(self)@ == old(self)@.remove(k),
            r == (if old(self)@.dom().contains(k) {
                Some(old(self)@[k])
            } else {
                None
            }),
    {
        broadcast use hash::group_hash_axioms;

        let ghost pre = self@;
        let r = self.map.remove(&k);
        assert(self@ =~= pre.remove(k));
        r
    }

    /// The keys in ascending order.
    pub fn keys(&self) -> (r: Vec<K>)
        requires
            self.wf(),
        ensures
            r@ == ids_of(self@.dom()),
            lists(r@, self@.dom()),
    {
        broadcast use hash::group_hash_axioms;

        let mut out: Vec<K> = Vec::new();
        let ghost all = self.map.keys().remaining();
        let ghost mut seen: Set<K> = Set::empty();
        for k in iter: self.map.keys()
            invariant
                iter.seq() == all,
                all.no_duplicates(),
                lists(out@, seen),
                forall|q: K| #[trigger]
                    seen.contains(q) <==> exists|j: int|
                        0 <= j < iter.index() && *(#[trigger] all[j]) == q,
        {
            let k = *k;
            let i = place(&out, k);
            proof {
                lemma_listed(out@, seen, k, i as int);
                seen = seen.insert(k);
            }
            out.insert(i, k);
        }
        proof {
            assert forall|q: K| self@.dom().contains(q) <==> seen.contains(q) by {
                assert(all.unref().to_set().contains(q) <==> self@.dom().contains(q));
                if all.unref().contains(q) {
                    let j = choose|j: int| 0 <= j < all.unref().len() && all.unref()[j] == q;
                    assert(*all[j] == q);
                }
                if seen.contains(q) {
                    let j = choose|j: int| 0 <= j < all.len() && *(#[trigger] all[j]) == q;
                    assert(all.unref()[j] == q);
                }
            }
        }
        assert(seen =~= self@.dom());
        proof {
            lemma_ids_of(out@, self@.dom());
        }
        out
    }
}

/// Where an identifier belongs in an ascending list: before the first that is not
/// below it.
fn place<K: Id>(ids: &Vec<K>, k: K) -> (i: usize)
    ensures
        i <= ids@.len(),
        forall|j: int| 0 <= j < i ==> (#[trigger] ids@[j]).rank() < k.rank(),
        i < ids@.len() ==> ids@[i as int].rank() >= k.rank(),
{
    let mut i: usize = 0;
    while i < ids.len() && ids[i].below(k)
        invariant
            i <= ids@.len(),
            forall|j: int| 0 <= j < i ==> (#[trigger] ids@[j]).rank() < k.rank(),
        decreases ids@.len() - i,
    {
        i += 1;
    }
    i
}

proof fn lemma_greatest_by<K>(set: Set<K>, f: spec_fn(K) -> int) -> (top: K)
    requires
        set.finite(),
        set.len() > 0,
    ensures
        set.contains(top),
        forall|k: K| #[trigger] set.contains(k) ==> f(k) <= f(top),
    decreases set.len(),
{
    let one = set.choose();
    let rest = set.remove(one);
    if rest.len() == 0 {
        assert forall|k: K| #[trigger] set.contains(k) implies f(k) <= f(one) by {
            if k != one {
                assert(rest.contains(k));
                assert(rest =~= Set::<K>::empty());
            }
        }
        one
    } else {
        let top = lemma_greatest_by(rest, f);
        let best = if f(top) < f(one) {
            one
        } else {
            top
        };
        assert forall|k: K| #[trigger] set.contains(k) implies f(k) <= f(best) by {
            if k != one {
                assert(rest.contains(k));
            }
        }
        best
    }
}

/// Every finite set has a listing that ascends by a measure that tells its elements
/// apart.
pub proof fn lemma_lists_by_exists<K>(set: Set<K>, f: spec_fn(K) -> int) -> (s: Seq<K>)
    requires
        set.finite(),
        forall|a: K, b: K|
            set.contains(a) && set.contains(b) && #[trigger] f(a) == #[trigger] f(b) ==> a == b,
    ensures
        lists_by(s, set, f),
    decreases set.len(),
{
    if set.len() == 0 {
        assert(set =~= Set::<K>::empty());
        Seq::empty()
    } else {
        let top = lemma_greatest_by(set, f);
        let rest = set.remove(top);
        let s = lemma_lists_by_exists(rest, f);
        let t = s.push(top);
        assert forall|i: int, j: int| 0 <= i < j < t.len() implies #[trigger] f(t[i])
            < #[trigger] f(t[j]) by {
            if j == s.len() {
                assert(s.contains(s[i]));
                assert(rest.contains(s[i]));
            }
        }
        assert forall|k: K| t.contains(k) <==> set.contains(k) by {
            if t.contains(k) {
                let i = choose|i: int| 0 <= i < t.len() && t[i] == k;
                if i < s.len() {
                    assert(s.contains(s[i]));
                }
            }
            if set.contains(k) {
                if k == top {
                    assert(t[s.len() as int] == k);
                } else {
                    assert(rest.contains(k));
                    assert(s.contains(k));
                    let i = choose|i: int| 0 <= i < s.len() && s[i] == k;
                    assert(t[i] == k);
                }
            }
        }
        t
    }
}

} // verus!
