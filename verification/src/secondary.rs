//! Per-vertex side tables.
//!
//! Positions, normals and the lists of outgoing halfedges live in secondary maps of the
//! `slotmap` crate, keyed like the vertex arena. Verus does not look inside: what a
//! table holds is named by a specification function, and every operation on it is a
//! small function whose contract is taken from the secondary map's source and is not
//! proved here.
//!
//! A secondary map stores one entry per slot. `insert` is only called here with a key
//! whose slot holds no entry under another key, so it never drops or refuses an entry.

use vstd::prelude::*;
use crate::ids::{HalfedgeId, VertexId, SLOT_MASK};

verus! {

/// Table of one vector per vertex: a `slotmap::SecondaryMap` of `glam::Vec3`.
#[verifier::external_body]
pub struct VectorMap {
    slots: slotmap::SecondaryMap<slotmap::DefaultKey, glam::Vec3>,
}

/// The vectors that a table holds, by vertex.
pub uninterp spec fn vector_slots(table: VectorMap) -> Map<VertexId, glam::Vec3>;

/// Table of one list of halfedges per vertex: a `slotmap::SecondaryMap` of `Vec`.
#[verifier::external_body]
pub struct AdjacencyMap {
    slots: slotmap::SecondaryMap<slotmap::DefaultKey, Vec<HalfedgeId>>,
}

/// The lists that a table holds, by vertex.
pub uninterp spec fn adjacency_slots(table: AdjacencyMap) -> Map<VertexId, Seq<HalfedgeId>>;

impl VectorMap {
    /// `SecondaryMap::new`: the new table holds nothing.
    #[verifier::external_body]
    pub(crate) fn new() -> (created: Self)
        ensures
            vector_slots(created) == (Map::<VertexId, glam::Vec3>::empty()),
    {
        VectorMap { slots: slotmap::SecondaryMap::new() }
    }

    /// `SecondaryMap::len`: the number of entries.
    #[verifier::external_body]
    pub(crate) fn len(&self) -> (n: usize)
        ensures
            n == vector_slots(*self).dom().len(),
    {
        self.slots.len()
    }

    /// `SecondaryMap::get`: the vector stored for `id`, if there is one.
    #[verifier::external_body]
    pub(crate) fn get(&self, id: VertexId) -> (found: Option<glam::Vec3>)
        requires
            id.canonical(),
        ensures
            found == (if vector_slots(*self).dom().contains(id) {
                Some(vector_slots(*self)[id])
            } else {
                None
            }),
    {
        self.slots.get(slotmap::DefaultKey::from(slotmap::KeyData::from_ffi(id.raw))).copied()
    }

    /// `SecondaryMap::insert`: stores `value` for `id`, over an earlier entry for `id`
    /// if there is one. Asked for: `id` is not a placeholder, and no entry sits in its
    /// slot under another key; the secondary map then neither drops nor refuses.
    #[verifier::external_body]
    pub(crate) fn insert(&mut self, id: VertexId, value: glam::Vec3)
        requires
            id.canonical(),
            id.slot() != SLOT_MASK,
            forall|other: VertexId| #[trigger] vector_slots(*old(self)).dom().contains(other) ==> other == id || other.slot() != id.slot(),
        ensures
            vector_slots(*final(self)) == vector_slots(*old(self)).insert(id, value),
    {
        self.slots.insert(slotmap::DefaultKey::from(slotmap::KeyData::from_ffi(id.raw)), value);
    }

    /// `SecondaryMap::remove`: drops the entry for `id`, if there is one.
    #[verifier::external_body]
    pub(crate) fn remove(&mut self, id: VertexId)
        requires
            id.canonical(),
        ensures
            vector_slots(*final(self)) == vector_slots(*old(self)).remove(id),
    {
        self.slots.remove(slotmap::DefaultKey::from(slotmap::KeyData::from_ffi(id.raw)));
    }

    /// `SecondaryMap::keys`, collected: every vertex with an entry, each once. The order
    /// is the secondary map's own and is not stated.
    #[verifier::external_body]
    pub(crate) fn keys(&self) -> (ids: Vec<VertexId>)
        ensures
            ids@.no_duplicates(),
            ids@.to_set() == vector_slots(*self).dom(),
    {
        self.slots.keys().map(|key| VertexId { raw: slotmap::Key::data(&key).as_ffi() }).collect()
    }
}

impl AdjacencyMap {
    /// `SecondaryMap::new`: the new table holds nothing.
    #[verifier::external_body]
    pub(crate) fn new() -> (created: Self)
        ensures
            adjacency_slots(created) == (Map::<VertexId, Seq<HalfedgeId>>::empty()),
    {
        AdjacencyMap { slots: slotmap::SecondaryMap::new() }
    }

    /// `SecondaryMap::get`, cloned: the list stored for `id`, if there is one.
    #[verifier::external_body]
    pub(crate) fn get(&self, id: VertexId) -> (found: Option<Vec<HalfedgeId>>)
        requires
            id.canonical(),
        ensures
            found is Some == adjacency_slots(*self).dom().contains(id),
            found is Some ==> found->0@ == adjacency_slots(*self)[id],
    {
        self.slots.get(slotmap::DefaultKey::from(slotmap::KeyData::from_ffi(id.raw))).cloned()
    }

    /// `SecondaryMap::insert`: stores `list` for `id`, over an earlier entry for `id` if
    /// there is one. Asked for: `id` is not a placeholder, and no entry sits in its slot
    /// under another key; the secondary map then neither drops nor refuses.
    #[verifier::external_body]
    pub(crate) fn insert(&mut self, id: VertexId, list: Vec<HalfedgeId>)
        requires
            id.canonical(),
            id.slot() != SLOT_MASK,
            forall|other: VertexId| #[trigger] adjacency_slots(*old(self)).dom().contains(other) ==> other == id || other.slot() != id.slot(),
        ensures
            adjacency_slots(*final(self)) == adjacency_slots(*old(self)).insert(id, list@),
    {
        self.slots.insert(slotmap::DefaultKey::from(slotmap::KeyData::from_ffi(id.raw)), list);
    }

    /// `SecondaryMap::remove`: drops the entry for `id`, if there is one.
    #[verifier::external_body]
    pub(crate) fn remove(&mut self, id: VertexId)
        requires
            id.canonical(),
        ensures
            adjacency_slots(*final(self)) == adjacency_slots(*old(self)).remove(id),
    {
        self.slots.remove(slotmap::DefaultKey::from(slotmap::KeyData::from_ffi(id.raw)));
    }
}

} // verus!
