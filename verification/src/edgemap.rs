//! A table of edge lengths.
//!
//! The drivers that collapse and subdivide keep their candidates in a hash map of the
//! `hashbrown` crate, from the raw identifier of a halfedge to the bit pattern of its
//! squared length. The same kind of map numbers the vertices when a mesh is laid out in
//! flat buffers. Verus does not look inside: what the map holds is named by a
//! specification function, and every operation on it is a small function whose contract
//! is taken from the hash map's documentation and is not proved here. The typed table on
//! top of it is verified.
//!
//! The order in which a hash map hands out its entries differs from process to process.
//! Nothing is stated of it.

use vstd::prelude::*;
use crate::ids::HalfedgeId;

verus! {

/// A `hashbrown::HashMap` from raw identifiers to bit patterns.
#[verifier::external_body]
pub struct RawLengthMap {
    map: hashbrown::HashMap<u64, u32>,
}

/// The entries that a map holds.
pub uninterp spec fn raw_lengths(map: RawLengthMap) -> Map<u64, u32>;

impl RawLengthMap {
    /// `HashMap::new`: the new map holds nothing.
    #[verifier::external_body]
    pub(crate) fn new() -> (created: Self)
        ensures
            raw_lengths(created) == (Map::<u64, u32>::empty()),
    {
        RawLengthMap { map: hashbrown::HashMap::new() }
    }

    /// `HashMap::insert`: stores `bits` under `raw`, over an earlier entry if there is
    /// one.
    #[verifier::external_body]
    pub(crate) fn insert(&mut self, raw: u64, bits: u32)
        ensures
            raw_lengths(*final(self)) == raw_lengths(*old(self)).insert(raw, bits),
    {
        self.map.insert(raw, bits);
    }

    /// `HashMap::remove`: drops the entry under `raw`, if there is one.
    #[verifier::external_body]
    pub(crate) fn remove(&mut self, raw: u64)
        ensures
            raw_lengths(*final(self)) == raw_lengths(*old(self)).remove(raw),
    {
        self.map.remove(&raw);
    }

    /// `HashMap::get`, copied: the bit pattern stored under `raw`, if there is one.
    #[verifier::external_body]
    pub(crate) fn get(&self, raw: u64) -> (found: Option<u32>)
        ensures
            found == (if raw_lengths(*self).dom().contains(raw) {
                Some(raw_lengths(*self)[raw])
            } else {
                None
            }),
    {
        self.map.get(&raw).copied()
    }

    /// `HashMap::contains_key`.
    #[verifier::external_body]
    pub(crate) fn contains_key(&self, raw: u64) -> (held: bool)
        ensures
            held == raw_lengths(*self).dom().contains(raw),
    {
        self.map.contains_key(&raw)
    }

    /// `HashMap::iter`, collected: every entry of the map, and nothing else, in the
    /// order the hash map walks them, which is not stated.
    #[verifier::external_body]
    pub(crate) fn entries(&self) -> (entries: Vec<(u64, u32)>)
        ensures
            forall|i: int| 0 <= i < entries@.len() ==> raw_lengths(*self).dom().contains((#[trigger] entries@[i]).0) && raw_lengths(*self)[entries@[i].0]
                == entries@[i].1,
            forall|raw: u64| #[trigger] raw_lengths(*self).dom().contains(raw) ==> exists|i: int| 0 <= i < entries@.len() && (#[trigger] entries@[i]).0 == raw,
    {
        self.map.iter().map(|(raw, bits)| (*raw, *bits)).collect()
    }
}

/// Squared lengths, as bit patterns, by halfedge.
pub struct EdgeLengths {
    pub(crate) raw: RawLengthMap,
}

impl View for EdgeLengths {
    type V = Map<HalfedgeId, u32>;

    open(crate) spec fn view(&self) -> Map<HalfedgeId, u32> {
        Map::new(
            |id: HalfedgeId| raw_lengths(self.raw).dom().contains(id.raw),
            |id: HalfedgeId| raw_lengths(self.raw)[id.raw],
        )
    }
}

impl EdgeLengths {
    /// An empty table.
    pub fn new() -> (created: Self)
        ensures
            created@ == Map::<HalfedgeId, u32>::empty(),
    {
        let created = EdgeLengths { raw: RawLengthMap::new() };
        proof {
            assert(created@ =~= Map::<HalfedgeId, u32>::empty());
        }
        created
    }

    /// Stores `bits` for `id`.
    pub fn insert(&mut self, id: HalfedgeId, bits: u32)
        ensures
            final(self)@ == old(self)@.insert(id, bits),
    {
        self.raw.insert(id.raw, bits);
        proof {
            assert(final(self)@ =~= old(self)@.insert(id, bits));
        }
    }

    /// Drops the entry for `id`.
    pub fn remove(&mut self, id: HalfedgeId)
        ensures
            final(self)@ == old(self)@.remove(id),
    {
        self.raw.remove(id.raw);
        proof {
            assert(final(self)@ =~= old(self)@.remove(id));
        }
    }

    /// Whether the table has an entry for `id`.
    pub fn contains_key(&self, id: HalfedgeId) -> (held: bool)
        ensures
            held == self@.dom().contains(id),
    {
        self.raw.contains_key(id.raw)
    }

    /// Every entry of the table, in no stated order.
    pub fn entries(&self) -> (entries: Vec<(HalfedgeId, u32)>)
        ensures
            forall|i: int| 0 <= i < entries@.len() ==> self@.dom().contains((#[trigger] entries@[i]).0) && self@[entries@[i].0] == entries@[i].1,
            forall|id: HalfedgeId| #[trigger] self@.dom().contains(id) ==> exists|i: int| 0 <= i < entries@.len() && (#[trigger] entries@[i]).0 == id,
            entries@.len() == 0 <==> self@ == Map::<HalfedgeId, u32>::empty(),
    {
        let raws = self.raw.entries();
        let mut entries: Vec<(HalfedgeId, u32)> = Vec::new();
        let mut i: usize = 0;
        while i < raws.len()
            invariant
                i <= raws.len(),
                entries@.len() == i,
                forall|k: int| 0 <= k < i ==> (#[trigger] entries@[k]).0.raw == raws@[k].0 && entries@[k].1 == raws@[k].1,
            decreases raws.len() - i,
        {
            entries.push((HalfedgeId { raw: raws[i].0 }, raws[i].1));
            i = i + 1;
        }
        proof {
            assert forall|id: HalfedgeId| #[trigger] self@.dom().contains(id) implies exists|i: int| 0 <= i < entries@.len() && (#[trigger] entries@[i]).0 == id by {
                assert(raw_lengths(self.raw).dom().contains(id.raw));
                let k = choose|k: int| 0 <= k < raws@.len() && (#[trigger] raws@[k]).0 == id.raw;
                assert(entries@[k].0 == id);
            }
            assert forall|k: int| 0 <= k < entries@.len() implies self@.dom().contains((#[trigger] entries@[k]).0) && self@[entries@[k].0] == entries@[k].1 by {
                assert(raw_lengths(self.raw).dom().contains(raws@[k].0));
            }
            if entries@.len() == 0 {
                assert(self@ =~= Map::<HalfedgeId, u32>::empty());
            } else {
                assert(self@.dom().contains(entries@[0].0));
            }
        }
        entries
    }
}

} // verus!
