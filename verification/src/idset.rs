//! Sets of identifiers.
//!
//! The working sets of the algorithms and the three sets of a selection are hash sets of
//! the `hashbrown` crate over raw identifiers. Verus does not look inside one: what it
//! holds is named by a specification function, and every operation on it is a small
//! function whose contract is taken from the hash set's documentation and is not proved
//! here. The typed sets on top of it are verified.
//!
//! The order in which a hash set hands out its items differs from process to process.
//! Nothing is stated of it.

use vstd::prelude::*;
use vstd::set_lib::lemma_map_size;
use crate::ids::{FaceId, HalfedgeId, VertexId};

verus! {

/// A `hashbrown::HashSet` of raw identifiers.
#[verifier::external_body]
pub struct RawIdSet {
    set: hashbrown::HashSet<u64>,
}

/// The raw identifiers that a set holds.
pub uninterp spec fn raw_id_set(set: RawIdSet) -> Set<u64>;

impl RawIdSet {
    /// `HashSet::new`: the new set holds nothing.
    #[verifier::external_body]
    pub(crate) fn new() -> (created: Self)
        ensures
            raw_id_set(created) == Set::<u64>::empty(),
    {
        RawIdSet { set: hashbrown::HashSet::new() }
    }

    /// `HashSet::len`: the number of items.
    #[verifier::external_body]
    pub(crate) fn len(&self) -> (n: usize)
        ensures
            n == raw_id_set(*self).len(),
    {
        self.set.len()
    }

    /// `HashSet::contains`.
    #[verifier::external_body]
    pub(crate) fn contains(&self, raw: u64) -> (held: bool)
        ensures
            held == raw_id_set(*self).contains(raw),
    {
        self.set.contains(&raw)
    }

    /// `HashSet::insert`: adds `raw`, and says whether the set did not hold it before.
    /// Hashing an integer does not panic, so the call returns.
    #[verifier::external_body]
    pub(crate) fn insert(&mut self, raw: u64) -> (added: bool)
        ensures
            raw_id_set(*final(self)) == raw_id_set(*old(self)).insert(raw),
            added == !raw_id_set(*old(self)).contains(raw),
        no_unwind
    {
        self.set.insert(raw)
    }

    /// `HashSet::remove`: takes `raw` out, and says whether the set held it. Hashing an
    /// integer does not panic, so the call returns.
    #[verifier::external_body]
    pub(crate) fn remove(&mut self, raw: u64) -> (removed: bool)
        ensures
            raw_id_set(*final(self)) == raw_id_set(*old(self)).remove(raw),
            removed == raw_id_set(*old(self)).contains(raw),
        no_unwind
    {
        self.set.remove(&raw)
    }

    /// `HashSet::iter`, collected: every item, each once, in the order the hash set
    /// walks them, which is not stated.
    #[verifier::external_body]
    pub(crate) fn to_vec(&self) -> (items: Vec<u64>)
        ensures
            items@.no_duplicates(),
            items@.to_set() == raw_id_set(*self),
    {
        self.set.iter().copied().collect()
    }
}

/// A set of vertex identifiers.
pub struct VertexSet {
    pub(crate) raw: RawIdSet,
}

impl View for VertexSet {
    type V = Set<VertexId>;

    open(crate) spec fn view(&self) -> Set<VertexId> {
        Set::new(|id: VertexId| raw_id_set(self.raw).contains(id.raw))
    }
}

impl VertexSet {
    /// A hash set holds finitely many items.
    #[verifier::type_invariant]
    spec fn finite_raw(self) -> bool {
        raw_id_set(self.raw).finite()
    }

    /// An empty set.
    pub fn new() -> (created: Self)
        ensures
            created@ == Set::<VertexId>::empty(),
    {
        let created = VertexSet { raw: RawIdSet::new() };
        proof {
            assert(created@ =~= Set::<VertexId>::empty());
        }
        created
    }

    /// The number of identifiers in the set.
    pub fn len(&self) -> (n: usize)
        ensures
            self@.finite(),
            n == self@.len(),
    {
        let n = self.raw.len();
        proof {
            use_type_invariant(self);
            let f = |raw: u64| VertexId { raw };
            assert(raw_id_set(self.raw).map(f) =~= self@) by {
                assert forall|id: VertexId| self@.contains(id) implies raw_id_set(self.raw).map(f).contains(id) by {
                    assert(raw_id_set(self.raw).contains(id.raw) && id == f(id.raw));
                }
            }
            assert(vstd::relations::injective_on(f, raw_id_set(self.raw)));
            lemma_map_size(raw_id_set(self.raw), self@, f);
        }
        n
    }

    /// Whether the set holds nothing.
    pub fn is_empty(&self) -> (empty: bool)
        ensures
            empty == (self@.len() == 0),
            self@.finite(),
    {
        self.len() == 0
    }

    /// Whether the set holds `id`.
    pub fn contains(&self, id: VertexId) -> (held: bool)
        ensures
            held == self@.contains(id),
    {
        self.raw.contains(id.raw)
    }

    /// Adds `id`, and says whether the set did not hold it before.
    pub fn insert(&mut self, id: VertexId) -> (added: bool)
        ensures
            final(self)@ == old(self)@.insert(id),
            added == !old(self)@.contains(id),
    {
        proof {
            use_type_invariant(&*self);
        }
        let added = self.raw.insert(id.raw);
        proof {
            assert(final(self)@ =~= old(self)@.insert(id));
        }
        added
    }

    /// Takes `id` out, and says whether the set held it.
    pub fn remove(&mut self, id: VertexId) -> (removed: bool)
        ensures
            final(self)@ == old(self)@.remove(id),
            removed == old(self)@.contains(id),
    {
        proof {
            use_type_invariant(&*self);
        }
        let removed = self.raw.remove(id.raw);
        proof {
            assert(final(self)@ =~= old(self)@.remove(id));
        }
        removed
    }

    /// Every identifier in the set, each once, in no stated order.
    pub fn to_vec(&self) -> (ids: Vec<VertexId>)
        ensures
            ids@.no_duplicates(),
            ids@.to_set() == self@,
    {
        let raws = self.raw.to_vec();
        let mut ids: Vec<VertexId> = Vec::new();
        let mut i: usize = 0;
        while i < raws.len()
            invariant
                i <= raws.len(),
                ids@.len() == i,
                forall|k: int| 0 <= k < i ==> (#[trigger] ids@[k]).raw == raws@[k],
            decreases raws.len() - i,
        {
            ids.push(VertexId { raw: raws[i] });
            i = i + 1;
        }
        proof {
            assert forall|a: int, b: int| 0 <= a < ids@.len() && 0 <= b < ids@.len() && a != b implies ids@[a] != ids@[b] by {
                assert(raws@[a] != raws@[b]);
            }
            assert(ids@.to_set() =~= self@) by {
                assert forall|id: VertexId| self@.contains(id) implies ids@.to_set().contains(id) by {
                    assert(raws@.to_set().contains(id.raw));
                    let k = choose|k: int| 0 <= k < raws@.len() && raws@[k] == id.raw;
                    assert(ids@[k] == id);
                }
                assert forall|id: VertexId| ids@.to_set().contains(id) implies self@.contains(id) by {
                    let k = choose|k: int| 0 <= k < ids@.len() && ids@[k] == id;
                    assert(raws@.to_set().contains(raws@[k]));
                }
            }
        }
        ids
    }

    /// A set that holds the identifiers of `ids`.
    pub fn from_vec(ids: &Vec<VertexId>) -> (created: Self)
        ensures
            created@ == ids@.to_set(),
    {
        let mut created = VertexSet::new();
        let mut i: usize = 0;
        while i < ids.len()
            invariant
                i <= ids.len(),
                created@ == ids@.take(i as int).to_set(),
            decreases ids.len() - i,
        {
            created.insert(ids[i]);
            proof {
                assert(ids@.take(i as int + 1) =~= ids@.take(i as int).push(ids@[i as int]));
                assert(ids@.take(i as int).push(ids@[i as int]).to_set() =~= ids@.take(i as int).to_set().insert(ids@[i as int])) by {
                    let s = ids@.take(i as int);
                    let e = ids@[i as int];
                    assert forall|x: VertexId| s.push(e).to_set().contains(x) implies s.to_set().insert(e).contains(x) by {
                        let k = choose|k: int| 0 <= k < s.push(e).len() && s.push(e)[k] == x;
                        if k < s.len() {
                            assert(s[k] == x);
                        }
                    }
                    assert forall|x: VertexId| s.to_set().insert(e).contains(x) implies s.push(e).to_set().contains(x) by {
                        if x == e {
                            assert(s.push(e)[s.len() as int] == e);
                        } else {
                            let k = choose|k: int| 0 <= k < s.len() && s[k] == x;
                            assert(s.push(e)[k] == x);
                        }
                    }
                }
            }
            i = i + 1;
        }
        proof {
            assert(ids@.take(ids@.len() as int) =~= ids@);
        }
        created
    }

    /// A copy of the set.
    pub fn copy(&self) -> (created: Self)
        ensures
            created@ == self@,
    {
        let ids = self.to_vec();
        VertexSet::from_vec(&ids)
    }

    /// Adds every identifier of `ids`.
    pub fn extend_from(&mut self, ids: &Vec<VertexId>)
        ensures
            final(self)@ == old(self)@.union(ids@.to_set()),
    {
        proof {
            assert(ids@.take(0) =~= Seq::empty());
            assert(self@ =~= old(self)@.union(ids@.take(0).to_set()));
        }
        let mut i: usize = 0;
        while i < ids.len()
            invariant
                i <= ids.len(),
                self@ == old(self)@.union(ids@.take(i as int).to_set()),
            decreases ids.len() - i,
        {
            self.insert(ids[i]);
            proof {
                let shorter = ids@.take(i as int);
                let longer = ids@.take(i as int + 1);
                assert(longer =~= shorter.push(ids@[i as int]));
                lemma_push_to_set(shorter, ids@[i as int]);
                assert(self@ =~= old(self)@.union(longer.to_set()));
            }
            i = i + 1;
        }
        proof {
            assert(ids@.take(ids@.len() as int) =~= ids@);
        }
    }
}

/// A set of halfedge identifiers.
pub struct HalfedgeSet {
    pub(crate) raw: RawIdSet,
}

impl View for HalfedgeSet {
    type V = Set<HalfedgeId>;

    open(crate) spec fn view(&self) -> Set<HalfedgeId> {
        Set::new(|id: HalfedgeId| raw_id_set(self.raw).contains(id.raw))
    }
}

impl HalfedgeSet {
    /// A hash set holds finitely many items.
    #[verifier::type_invariant]
    spec fn finite_raw(self) -> bool {
        raw_id_set(self.raw).finite()
    }

    /// An empty set.
    pub fn new() -> (created: Self)
        ensures
            created@ == Set::<HalfedgeId>::empty(),
    {
        let created = HalfedgeSet { raw: RawIdSet::new() };
        proof {
            assert(created@ =~= Set::<HalfedgeId>::empty());
        }
        created
    }

    /// The number of identifiers in the set.
    pub fn len(&self) -> (n: usize)
        ensures
            self@.finite(),
            n == self@.len(),
    {
        let n = self.raw.len();
        proof {
            use_type_invariant(self);
            let f = |raw: u64| HalfedgeId { raw };
            assert(raw_id_set(self.raw).map(f) =~= self@) by {
                assert forall|id: HalfedgeId| self@.contains(id) implies raw_id_set(self.raw).map(f).contains(id) by {
                    assert(raw_id_set(self.raw).contains(id.raw) && id == f(id.raw));
                }
            }
            assert(vstd::relations::injective_on(f, raw_id_set(self.raw)));
            lemma_map_size(raw_id_set(self.raw), self@, f);
        }
        n
    }

    /// Whether the set holds nothing.
    pub fn is_empty(&self) -> (empty: bool)
        ensures
            empty == (self@.len() == 0),
            self@.finite(),
    {
        self.len() == 0
    }

    /// Whether the set holds `id`.
    pub fn contains(&self, id: HalfedgeId) -> (held: bool)
        ensures
            held == self@.contains(id),
    {
        self.raw.contains(id.raw)
    }

    /// Adds `id`, and says whether the set did not hold it before.
    pub fn insert(&mut self, id: HalfedgeId) -> (added: bool)
        ensures
            final(self)@ == old(self)@.insert(id),
            added == !old(self)@.contains(id),
    {
        proof {
            use_type_invariant(&*self);
        }
        let added = self.raw.insert(id.raw);
        proof {
            assert(final(self)@ =~= old(self)@.insert(id));
        }
        added
    }

    /// Takes `id` out, and says whether the set held it.
    pub fn remove(&mut self, id: HalfedgeId) -> (removed: bool)
        ensures
            final(self)@ == old(self)@.remove(id),
            removed == old(self)@.contains(id),
    {
        proof {
            use_type_invariant(&*self);
        }
        let removed = self.raw.remove(id.raw);
        proof {
            assert(final(self)@ =~= old(self)@.remove(id));
        }
        removed
    }

    /// Every identifier in the set, each once, in no stated order.
    pub fn to_vec(&self) -> (ids: Vec<HalfedgeId>)
        ensures
            ids@.no_duplicates(),
            ids@.to_set() == self@,
    {
        let raws = self.raw.to_vec();
        let mut ids: Vec<HalfedgeId> = Vec::new();
        let mut i: usize = 0;
        while i < raws.len()
            invariant
                i <= raws.len(),
                ids@.len() == i,
                forall|k: int| 0 <= k < i ==> (#[trigger] ids@[k]).raw == raws@[k],
            decreases raws.len() - i,
        {
            ids.push(HalfedgeId { raw: raws[i] });
            i = i + 1;
        }
        proof {
            assert forall|a: int, b: int| 0 <= a < ids@.len() && 0 <= b < ids@.len() && a != b implies ids@[a] != ids@[b] by {
                assert(raws@[a] != raws@[b]);
            }
            assert(ids@.to_set() =~= self@) by {
                assert forall|id: HalfedgeId| self@.contains(id) implies ids@.to_set().contains(id) by {
                    assert(raws@.to_set().contains(id.raw));
                    let k = choose|k: int| 0 <= k < raws@.len() && raws@[k] == id.raw;
                    assert(ids@[k] == id);
                }
                assert forall|id: HalfedgeId| ids@.to_set().contains(id) implies self@.contains(id) by {
                    let k = choose|k: int| 0 <= k < ids@.len() && ids@[k] == id;
                    assert(raws@.to_set().contains(raws@[k]));
                }
            }
        }
        ids
    }

    /// A set that holds the identifiers of `ids`.
    pub fn from_vec(ids: &Vec<HalfedgeId>) -> (created: Self)
        ensures
            created@ == ids@.to_set(),
    {
        let mut created = HalfedgeSet::new();
        let mut i: usize = 0;
        while i < ids.len()
            invariant
                i <= ids.len(),
                created@ == ids@.take(i as int).to_set(),
            decreases ids.len() - i,
        {
            created.insert(ids[i]);
            proof {
                assert(ids@.take(i as int + 1) =~= ids@.take(i as int).push(ids@[i as int]));
                assert(ids@.take(i as int).push(ids@[i as int]).to_set() =~= ids@.take(i as int).to_set().insert(ids@[i as int])) by {
                    let s = ids@.take(i as int);
                    let e = ids@[i as int];
                    assert forall|x: HalfedgeId| s.push(e).to_set().contains(x) implies s.to_set().insert(e).contains(x) by {
                        let k = choose|k: int| 0 <= k < s.push(e).len() && s.push(e)[k] == x;
                        if k < s.len() {
                            assert(s[k] == x);
                        }
                    }
                    assert forall|x: HalfedgeId| s.to_set().insert(e).contains(x) implies s.push(e).to_set().contains(x) by {
                        if x == e {
                            assert(s.push(e)[s.len() as int] == e);
                        } else {
                            let k = choose|k: int| 0 <= k < s.len() && s[k] == x;
                            assert(s.push(e)[k] == x);
                        }
                    }
                }
            }
            i = i + 1;
        }
        proof {
            assert(ids@.take(ids@.len() as int) =~= ids@);
        }
        created
    }

    /// A copy of the set.
    pub fn copy(&self) -> (created: Self)
        ensures
            created@ == self@,
    {
        let ids = self.to_vec();
        HalfedgeSet::from_vec(&ids)
    }

    /// Adds every identifier of `ids`.
    pub fn extend_from(&mut self, ids: &Vec<HalfedgeId>)
        ensures
            final(self)@ == old(self)@.union(ids@.to_set()),
    {
        proof {
            assert(ids@.take(0) =~= Seq::empty());
            assert(self@ =~= old(self)@.union(ids@.take(0).to_set()));
        }
        let mut i: usize = 0;
        while i < ids.len()
            invariant
                i <= ids.len(),
                self@ == old(self)@.union(ids@.take(i as int).to_set()),
            decreases ids.len() - i,
        {
            self.insert(ids[i]);
            proof {
                let shorter = ids@.take(i as int);
                let longer = ids@.take(i as int + 1);
                assert(longer =~= shorter.push(ids@[i as int]));
                lemma_push_to_set(shorter, ids@[i as int]);
                assert(self@ =~= old(self)@.union(longer.to_set()));
            }
            i = i + 1;
        }
        proof {
            assert(ids@.take(ids@.len() as int) =~= ids@);
        }
    }
}

/// A set of face identifiers.
pub struct FaceSet {
    pub(crate) raw: RawIdSet,
}

impl View for FaceSet {
    type V = Set<FaceId>;

    open(crate) spec fn view(&self) -> Set<FaceId> {
        Set::new(|id: FaceId| raw_id_set(self.raw).contains(id.raw))
    }
}

impl FaceSet {
    /// A hash set holds finitely many items.
    #[verifier::type_invariant]
    spec fn finite_raw(self) -> bool {
        raw_id_set(self.raw).finite()
    }

    /// An empty set.
    pub fn new() -> (created: Self)
        ensures
            created@ == Set::<FaceId>::empty(),
    {
        let created = FaceSet { raw: RawIdSet::new() };
        proof {
            assert(created@ =~= Set::<FaceId>::empty());
        }
        created
    }

    /// The number of identifiers in the set.
    pub fn len(&self) -> (n: usize)
        ensures
            self@.finite(),
            n == self@.len(),
    {
        let n = self.raw.len();
        proof {
            use_type_invariant(self);
            let f = |raw: u64| FaceId { raw };
            assert(raw_id_set(self.raw).map(f) =~= self@) by {
                assert forall|id: FaceId| self@.contains(id) implies raw_id_set(self.raw).map(f).contains(id) by {
                    assert(raw_id_set(self.raw).contains(id.raw) && id == f(id.raw));
                }
            }
            assert(vstd::relations::injective_on(f, raw_id_set(self.raw)));
            lemma_map_size(raw_id_set(self.raw), self@, f);
        }
        n
    }

    /// Whether the set holds nothing.
    pub fn is_empty(&self) -> (empty: bool)
        ensures
            empty == (self@.len() == 0),
            self@.finite(),
    {
        self.len() == 0
    }

    /// Whether the set holds `id`.
    pub fn contains(&self, id: FaceId) -> (held: bool)
        ensures
            held == self@.contains(id),
    {
        self.raw.contains(id.raw)
    }

    /// Adds `id`, and says whether the set did not hold it before.
    pub fn insert(&mut self, id: FaceId) -> (added: bool)
        ensures
            final(self)@ == old(self)@.insert(id),
            added == !old(self)@.contains(id),
    {
        proof {
            use_type_invariant(&*self);
        }
        let added = self.raw.insert(id.raw);
        proof {
            assert(final(self)@ =~= old(self)@.insert(id));
        }
        added
    }

    /// Takes `id` out, and says whether the set held it.
    pub fn remove(&mut self, id: FaceId) -> (removed: bool)
        ensures
            final(self)@ == old(self)@.remove(id),
            removed == old(self)@.contains(id),
    {
        proof {
            use_type_invariant(&*self);
        }
        let removed = self.raw.remove(id.raw);
        proof {
            assert(final(self)@ =~= old(self)@.remove(id));
        }
        removed
    }

    /// Every identifier in the set, each once, in no stated order.
    pub fn to_vec(&self) -> (ids: Vec<FaceId>)
        ensures
            ids@.no_duplicates(),
            ids@.to_set() == self@,
    {
        let raws = self.raw.to_vec();
        let mut ids: Vec<FaceId> = Vec::new();
        let mut i: usize = 0;
        while i < raws.len()
            invariant
                i <= raws.len(),
                ids@.len() == i,
                forall|k: int| 0 <= k < i ==> (#[trigger] ids@[k]).raw == raws@[k],
            decreases raws.len() - i,
        {
            ids.push(FaceId { raw: raws[i] });
            i = i + 1;
        }
        proof {
            assert forall|a: int, b: int| 0 <= a < ids@.len() && 0 <= b < ids@.len() && a != b implies ids@[a] != ids@[b] by {
                assert(raws@[a] != raws@[b]);
            }
            assert(ids@.to_set() =~= self@) by {
                assert forall|id: FaceId| self@.contains(id) implies ids@.to_set().contains(id) by {
                    assert(raws@.to_set().contains(id.raw));
                    let k = choose|k: int| 0 <= k < raws@.len() && raws@[k] == id.raw;
                    assert(ids@[k] == id);
                }
                assert forall|id: FaceId| ids@.to_set().contains(id) implies self@.contains(id) by {
                    let k = choose|k: int| 0 <= k < ids@.len() && ids@[k] == id;
                    assert(raws@.to_set().contains(raws@[k]));
                }
            }
        }
        ids
    }

    /// A set that holds the identifiers of `ids`.
    pub fn from_vec(ids: &Vec<FaceId>) -> (created: Self)
        ensures
            created@ == ids@.to_set(),
    {
        let mut created = FaceSet::new();
        let mut i: usize = 0;
        while i < ids.len()
            invariant
                i <= ids.len(),
                created@ == ids@.take(i as int).to_set(),
            decreases ids.len() - i,
        {
            created.insert(ids[i]);
            proof {
                assert(ids@.take(i as int + 1) =~= ids@.take(i as int).push(ids@[i as int]));
                assert(ids@.take(i as int).push(ids@[i as int]).to_set() =~= ids@.take(i as int).to_set().insert(ids@[i as int])) by {
                    let s = ids@.take(i as int);
                    let e = ids@[i as int];
                    assert forall|x: FaceId| s.push(e).to_set().contains(x) implies s.to_set().insert(e).contains(x) by {
                        let k = choose|k: int| 0 <= k < s.push(e).len() && s.push(e)[k] == x;
                        if k < s.len() {
                            assert(s[k] == x);
                        }
                    }
                    assert forall|x: FaceId| s.to_set().insert(e).contains(x) implies s.push(e).to_set().contains(x) by {
                        if x == e {
                            assert(s.push(e)[s.len() as int] == e);
                        } else {
                            let k = choose|k: int| 0 <= k < s.len() && s[k] == x;
                            assert(s.push(e)[k] == x);
                        }
                    }
                }
            }
            i = i + 1;
        }
        proof {
            assert(ids@.take(ids@.len() as int) =~= ids@);
        }
        created
    }

    /// A copy of the set.
    pub fn copy(&self) -> (created: Self)
        ensures
            created@ == self@,
    {
        let ids = self.to_vec();
        FaceSet::from_vec(&ids)
    }

    /// Adds every identifier of `ids`.
    pub fn extend_from(&mut self, ids: &Vec<FaceId>)
        ensures
            final(self)@ == old(self)@.union(ids@.to_set()),
    {
        proof {
            assert(ids@.take(0) =~= Seq::empty());
            assert(self@ =~= old(self)@.union(ids@.take(0).to_set()));
        }
        let mut i: usize = 0;
        while i < ids.len()
            invariant
                i <= ids.len(),
                self@ == old(self)@.union(ids@.take(i as int).to_set()),
            decreases ids.len() - i,
        {
            self.insert(ids[i]);
            proof {
                let shorter = ids@.take(i as int);
                let longer = ids@.take(i as int + 1);
                assert(longer =~= shorter.push(ids@[i as int]));
                lemma_push_to_set(shorter, ids@[i as int]);
                assert(self@ =~= old(self)@.union(longer.to_set()));
            }
            i = i + 1;
        }
        proof {
            assert(ids@.take(ids@.len() as int) =~= ids@);
        }
    }
}

/// The items of a sequence with one more at its end are the items of the sequence and
/// that one.
pub proof fn lemma_push_to_set<A>(s: Seq<A>, e: A)
    ensures
        s.push(e).to_set() == s.to_set().insert(e),
{
    assert forall|x: A| s.push(e).to_set().contains(x) implies s.to_set().insert(e).contains(x) by {
        let k = choose|k: int| 0 <= k < s.push(e).len() && s.push(e)[k] == x;
        if k < s.len() {
            assert(s[k] == x);
        }
    }
    assert forall|x: A| s.to_set().insert(e).contains(x) implies s.push(e).to_set().contains(x) by {
        if x == e {
            assert(s.push(e)[s.len() as int] == e);
        } else {
            let k = choose|k: int| 0 <= k < s.len() && s[k] == x;
            assert(s.push(e)[k] == x);
        }
    }
    assert(s.push(e).to_set() =~= s.to_set().insert(e));
}

} // verus!
