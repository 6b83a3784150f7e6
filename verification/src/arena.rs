//! The three element arenas.
//!
//! Each arena is a generational slot map of the `slotmap` crate, keyed by that crate's
//! default key. Verus does not look inside: what an arena holds is named by a
//! specification function, and every operation on it is a small function whose contract
//! is taken from the slot map's source and is not proved here.

use vstd::prelude::*;
use crate::elements::{Face, Halfedge, Vertex};
use crate::ids::{FaceId, HalfedgeId, VertexId, SLOT_MASK};

verus! {

/// The largest number of elements an arena can hold before an insertion may fail.
pub const ARENA_LIMIT: usize = 0xFFFF_FFFE;

/// Arena of vertex records: a `slotmap::SlotMap` keyed by `slotmap::DefaultKey`.
#[verifier::external_body]
pub struct VertexArena {
    slots: slotmap::SlotMap<slotmap::DefaultKey, Vertex>,
}

/// The records that a vertex arena holds, by identifier.
pub uninterp spec fn vertex_slots(arena: VertexArena) -> Map<VertexId, Vertex>;

/// The keys that a vertex arena will hand out for the slots that were left and not taken
/// again, the one that was left last at the end.
pub uninterp spec fn vertex_vacated(arena: VertexArena) -> Seq<u64>;

/// The number of slots that a vertex arena has made, the unused first one counted.
pub uninterp spec fn vertex_made(arena: VertexArena) -> nat;

impl VertexArena {
    /// `SlotMap::new`: the new arena holds nothing.
    #[verifier::external_body]
    pub(crate) fn new() -> (created: Self)
        ensures
            vertex_slots(created) == (Map::<VertexId, Vertex>::empty()),
            vertex_vacated(created) == Seq::<u64>::empty(),
            vertex_made(created) == 1,
    {
        VertexArena { slots: slotmap::SlotMap::new() }
    }

    /// `SlotMap::len`: the number of records held.
    #[verifier::external_body]
    pub(crate) fn len(&self) -> (n: usize)
        ensures
            n == vertex_slots(*self).dom().len(),
    {
        self.slots.len()
    }

    /// `SlotMap::get`: the record stored under `id`, if the arena holds one. The key is
    /// rebuilt from its 64-bit form, which is exact for a canonical identifier.
    #[verifier::external_body]
    pub(crate) fn get(&self, id: VertexId) -> (found: Option<Vertex>)
        requires
            id.canonical(),
        ensures
            found == (if vertex_slots(*self).dom().contains(id) {
                Some(vertex_slots(*self)[id])
            } else {
                None
            }),
    {
        self.slots.get(slotmap::DefaultKey::from(slotmap::KeyData::from_ffi(id.raw))).copied()
    }

    /// `SlotMap::insert`: stores `value` under a key that the arena did not hold, in a
    /// slot that no held key names. The key is canonical and not the placeholder. The
    /// slot map panics only when every slot index is taken, which the bound excludes.
    #[verifier::external_body]
    pub(crate) fn insert(&mut self, value: Vertex) -> (id: VertexId)
        requires
            vertex_slots(*old(self)).dom().finite(),
            vertex_slots(*old(self)).dom().len() < ARENA_LIMIT,
        ensures
            vertex_slots(*final(self)) == vertex_slots(*old(self)).insert(id, value),
            !vertex_slots(*old(self)).dom().contains(id),
            id.canonical(),
            id.slot() != SLOT_MASK,
            forall|other: VertexId| #[trigger] vertex_slots(*old(self)).dom().contains(other) ==> other.slot() != id.slot(),
            id.raw == handed_next(vertex_vacated(*old(self)), vertex_made(*old(self))),
            vertex_vacated(*final(self)) == vacated_then(vertex_vacated(*old(self))),
            vertex_made(*final(self)) == made_then(vertex_vacated(*old(self)), vertex_made(*old(self))),
            vertex_made(*final(self)) <= 0xFFFF_FFFF,
    {
        VertexId { raw: slotmap::Key::data(&self.slots.insert(value)).as_ffi() }
    }

    /// `SlotMap::get_mut` followed by a store: replaces the record under `id` where the
    /// arena holds one, and changes nothing otherwise.
    #[verifier::external_body]
    pub(crate) fn set(&mut self, id: VertexId, value: Vertex)
        requires
            id.canonical(),
        ensures
            vertex_slots(*final(self)) == (if vertex_slots(*old(self)).dom().contains(id) {
                vertex_slots(*old(self)).insert(id, value)
            } else {
                vertex_slots(*old(self))
            }),
            vertex_vacated(*final(self)) == vertex_vacated(*old(self)),
            vertex_made(*final(self)) == vertex_made(*old(self)),
    {
        if let Some(slot) = self.slots.get_mut(slotmap::DefaultKey::from(slotmap::KeyData::from_ffi(id.raw))) {
            *slot = value;
        }
    }

    /// `SlotMap::remove`: takes the record under `id` out of the arena and returns it,
    /// or returns `None` and changes nothing where there is none.
    #[verifier::external_body]
    pub(crate) fn remove(&mut self, id: VertexId) -> (removed: Option<Vertex>)
        requires
            id.canonical(),
        ensures
            vertex_slots(*final(self)) == vertex_slots(*old(self)).remove(id),
            vertex_vacated(*final(self)) == (if vertex_slots(*old(self)).dom().contains(id) {
                vertex_vacated(*old(self)).push(bumped(id.raw))
            } else {
                vertex_vacated(*old(self))
            }),
            vertex_made(*final(self)) == vertex_made(*old(self)),
            removed == (if vertex_slots(*old(self)).dom().contains(id) {
                Some(vertex_slots(*old(self))[id])
            } else {
                None
            }),
    {
        self.slots.remove(slotmap::DefaultKey::from(slotmap::KeyData::from_ffi(id.raw)))
    }

    /// `SlotMap::keys`, collected: every identifier the arena holds, each once. The
    /// order is the slot map's own and is not stated.
    #[verifier::external_body]
    pub(crate) fn keys(&self) -> (ids: Vec<VertexId>)
        ensures
            ids@.no_duplicates(),
            ids@.to_set() == vertex_slots(*self).dom(),
    {
        self.slots.keys().map(|key| VertexId { raw: slotmap::Key::data(&key).as_ffi() }).collect()
    }
}

/// The 64-bit form of the key of the slot `slot` in the generation `generation`.
pub open spec fn key_raw(slot: u64, generation: u64) -> u64 {
    (generation << 32) | slot
}

/// The key that a slot map hands out for a slot that the key `raw` has left: the same
/// slot, two generations on; the generation goes round to one behind the last.
pub open spec fn bumped(raw: u64) -> u64 {
    key_raw(raw & 0xFFFF_FFFF, ((((raw >> 32) + 1) as u64) & 0xFFFF_FFFF) | 1)
}

/// The key that a slot map hands out next: the one of the slot that was left last and
/// has not been taken again, or the first key of a new slot behind those made so far.
pub open spec fn handed_next(vacated: Seq<u64>, made: nat) -> u64 {
    if vacated.len() > 0 {
        vacated.last()
    } else {
        key_raw(made as u64, 1)
    }
}

/// The slots that were left and not taken again, once a key has been handed out.
pub open spec fn vacated_then(vacated: Seq<u64>) -> Seq<u64> {
    if vacated.len() > 0 {
        vacated.drop_last()
    } else {
        vacated
    }
}

/// The number of slots made, once a key has been handed out.
pub open spec fn made_then(vacated: Seq<u64>, made: nat) -> nat {
    if vacated.len() > 0 {
        made
    } else {
        made + 1
    }
}

/// Arena of halfedge records: a `slotmap::SlotMap` keyed by `slotmap::DefaultKey`.
#[verifier::external_body]
pub struct HalfedgeArena {
    slots: slotmap::SlotMap<slotmap::DefaultKey, Halfedge>,
}

/// The records that a halfedge arena holds, by identifier.
pub uninterp spec fn halfedge_slots(arena: HalfedgeArena) -> Map<HalfedgeId, Halfedge>;

/// The keys that a halfedge arena will hand out for the slots that were left and not
/// taken again, the one that was left last at the end.
pub uninterp spec fn halfedge_vacated(arena: HalfedgeArena) -> Seq<u64>;

/// The number of slots that a halfedge arena has made, the unused first one counted.
pub uninterp spec fn halfedge_made(arena: HalfedgeArena) -> nat;

impl HalfedgeArena {
    /// `SlotMap::new`: the new arena holds nothing.
    #[verifier::external_body]
    pub(crate) fn new() -> (created: Self)
        ensures
            halfedge_slots(created) == (Map::<HalfedgeId, Halfedge>::empty()),
            halfedge_vacated(created) == Seq::<u64>::empty(),
            halfedge_made(created) == 1,
    {
        HalfedgeArena { slots: slotmap::SlotMap::new() }
    }

    /// `SlotMap::len`: the number of records held.
    #[verifier::external_body]
    pub(crate) fn len(&self) -> (n: usize)
        ensures
            n == halfedge_slots(*self).dom().len(),
    {
        self.slots.len()
    }

    /// `SlotMap::get`: the record stored under `id`, if the arena holds one. The key is
    /// rebuilt from its 64-bit form, which is exact for a canonical identifier.
    #[verifier::external_body]
    pub(crate) fn get(&self, id: HalfedgeId) -> (found: Option<Halfedge>)
        requires
            id.canonical(),
        ensures
            found == (if halfedge_slots(*self).dom().contains(id) {
                Some(halfedge_slots(*self)[id])
            } else {
                None
            }),
    {
        self.slots.get(slotmap::DefaultKey::from(slotmap::KeyData::from_ffi(id.raw))).copied()
    }

    /// `SlotMap::insert`: stores `value` under a key that the arena did not hold, in a
    /// slot that no held key names. The key is canonical and not the placeholder. It is
    /// the key of the slot that was left last and not taken again, or the first key of
    /// a new slot. The slot map panics only when every slot index is taken, which the
    /// bound excludes.
    #[verifier::external_body]
    pub(crate) fn insert(&mut self, value: Halfedge) -> (id: HalfedgeId)
        requires
            halfedge_slots(*old(self)).dom().finite(),
            halfedge_slots(*old(self)).dom().len() < ARENA_LIMIT,
        ensures
            halfedge_slots(*final(self)) == halfedge_slots(*old(self)).insert(id, value),
            !halfedge_slots(*old(self)).dom().contains(id),
            id.canonical(),
            id.slot() != SLOT_MASK,
            forall|other: HalfedgeId| #[trigger] halfedge_slots(*old(self)).dom().contains(other) ==> other.slot() != id.slot(),
            id.raw == handed_next(halfedge_vacated(*old(self)), halfedge_made(*old(self))),
            halfedge_vacated(*final(self)) == vacated_then(halfedge_vacated(*old(self))),
            halfedge_made(*final(self)) == made_then(halfedge_vacated(*old(self)), halfedge_made(*old(self))),
            halfedge_made(*final(self)) <= 0xFFFF_FFFF,
    {
        HalfedgeId { raw: slotmap::Key::data(&self.slots.insert(value)).as_ffi() }
    }

    /// `SlotMap::get_mut` followed by a store: replaces the record under `id` where the
    /// arena holds one, and changes nothing otherwise.
    #[verifier::external_body]
    pub(crate) fn set(&mut self, id: HalfedgeId, value: Halfedge)
        requires
            id.canonical(),
        ensures
            halfedge_slots(*final(self)) == (if halfedge_slots(*old(self)).dom().contains(id) {
                halfedge_slots(*old(self)).insert(id, value)
            } else {
                halfedge_slots(*old(self))
            }),
            halfedge_vacated(*final(self)) == halfedge_vacated(*old(self)),
            halfedge_made(*final(self)) == halfedge_made(*old(self)),
    {
        if let Some(slot) = self.slots.get_mut(slotmap::DefaultKey::from(slotmap::KeyData::from_ffi(id.raw))) {
            *slot = value;
        }
    }

    /// `SlotMap::remove`: takes the record under `id` out of the arena and returns it,
    /// or returns `None` and changes nothing where there is none. The slot that is left
    /// is the one that is taken next, two generations on.
    #[verifier::external_body]
    pub(crate) fn remove(&mut self, id: HalfedgeId) -> (removed: Option<Halfedge>)
        requires
            id.canonical(),
        ensures
            halfedge_slots(*final(self)) == halfedge_slots(*old(self)).remove(id),
            halfedge_vacated(*final(self)) == (if halfedge_slots(*old(self)).dom().contains(id) {
                halfedge_vacated(*old(self)).push(bumped(id.raw))
            } else {
                halfedge_vacated(*old(self))
            }),
            halfedge_made(*final(self)) == halfedge_made(*old(self)),
            removed == (if halfedge_slots(*old(self)).dom().contains(id) {
                Some(halfedge_slots(*old(self))[id])
            } else {
                None
            }),
    {
        self.slots.remove(slotmap::DefaultKey::from(slotmap::KeyData::from_ffi(id.raw)))
    }

    /// `SlotMap::keys`, collected: every identifier the arena holds, each once. The
    /// order is the slot map's own and is not stated.
    #[verifier::external_body]
    pub(crate) fn keys(&self) -> (ids: Vec<HalfedgeId>)
        ensures
            ids@.no_duplicates(),
            ids@.to_set() == halfedge_slots(*self).dom(),
    {
        self.slots.keys().map(|key| HalfedgeId { raw: slotmap::Key::data(&key).as_ffi() }).collect()
    }
}

/// Arena of face records: a `slotmap::SlotMap` keyed by `slotmap::DefaultKey`.
#[verifier::external_body]
pub struct FaceArena {
    slots: slotmap::SlotMap<slotmap::DefaultKey, Face>,
}

/// The records that a face arena holds, by identifier.
pub uninterp spec fn face_slots(arena: FaceArena) -> Map<FaceId, Face>;

/// The keys that a face arena will hand out for the slots that were left and not taken
/// again, the one that was left last at the end.
pub uninterp spec fn face_vacated(arena: FaceArena) -> Seq<u64>;

/// The number of slots that a face arena has made, the unused first one counted.
pub uninterp spec fn face_made(arena: FaceArena) -> nat;

impl FaceArena {
    /// `SlotMap::new`: the new arena holds nothing.
    #[verifier::external_body]
    pub(crate) fn new() -> (created: Self)
        ensures
            face_slots(created) == (Map::<FaceId, Face>::empty()),
            face_vacated(created) == Seq::<u64>::empty(),
            face_made(created) == 1,
    {
        FaceArena { slots: slotmap::SlotMap::new() }
    }

    /// `SlotMap::len`: the number of records held.
    #[verifier::external_body]
    pub(crate) fn len(&self) -> (n: usize)
        ensures
            n == face_slots(*self).dom().len(),
    {
        self.slots.len()
    }

    /// `SlotMap::get`: the record stored under `id`, if the arena holds one. The key is
    /// rebuilt from its 64-bit form, which is exact for a canonical identifier.
    #[verifier::external_body]
    pub(crate) fn get(&self, id: FaceId) -> (found: Option<Face>)
        requires
            id.canonical(),
        ensures
            found == (if face_slots(*self).dom().contains(id) {
                Some(face_slots(*self)[id])
            } else {
                None
            }),
    {
        self.slots.get(slotmap::DefaultKey::from(slotmap::KeyData::from_ffi(id.raw))).copied()
    }

    /// `SlotMap::insert_with_key`: stores a face that records its own identifier, under
    /// a key that the arena did not hold, in a slot that no held key names. The key is
    /// canonical and not the placeholder. The slot map panics only when every slot
    /// index is taken, which the bound excludes.
    #[verifier::external_body]
    pub(crate) fn insert(&mut self, halfedge: HalfedgeId, index: u32) -> (id: FaceId)
        requires
            face_slots(*old(self)).dom().finite(),
            face_slots(*old(self)).dom().len() < ARENA_LIMIT,
        ensures
            face_slots(*final(self)) == face_slots(*old(self)).insert(id, (Face { halfedge, index, id })),
            !face_slots(*old(self)).dom().contains(id),
            id.canonical(),
            id.slot() != SLOT_MASK,
            forall|other: FaceId| #[trigger] face_slots(*old(self)).dom().contains(other) ==> other.slot() != id.slot(),
            id.raw == handed_next(face_vacated(*old(self)), face_made(*old(self))),
            face_vacated(*final(self)) == vacated_then(face_vacated(*old(self))),
            face_made(*final(self)) == made_then(face_vacated(*old(self)), face_made(*old(self))),
            face_made(*final(self)) <= 0xFFFF_FFFF,
    {
        let key = self.slots.insert_with_key(|key| Face {
            halfedge,
            index,
            id: FaceId { raw: slotmap::Key::data(&key).as_ffi() },
        });
        FaceId { raw: slotmap::Key::data(&key).as_ffi() }
    }

    /// `SlotMap::get_mut` followed by a store: replaces the record under `id` where the
    /// arena holds one, and changes nothing otherwise.
    #[verifier::external_body]
    pub(crate) fn set(&mut self, id: FaceId, value: Face)
        requires
            id.canonical(),
        ensures
            face_slots(*final(self)) == (if face_slots(*old(self)).dom().contains(id) {
                face_slots(*old(self)).insert(id, value)
            } else {
                face_slots(*old(self))
            }),
            face_vacated(*final(self)) == face_vacated(*old(self)),
            face_made(*final(self)) == face_made(*old(self)),
    {
        if let Some(slot) = self.slots.get_mut(slotmap::DefaultKey::from(slotmap::KeyData::from_ffi(id.raw))) {
            *slot = value;
        }
    }

    /// `SlotMap::remove`: takes the record under `id` out of the arena and returns it,
    /// or returns `None` and changes nothing where there is none.
    #[verifier::external_body]
    pub(crate) fn remove(&mut self, id: FaceId) -> (removed: Option<Face>)
        requires
            id.canonical(),
        ensures
            face_slots(*final(self)) == face_slots(*old(self)).remove(id),
            face_vacated(*final(self)) == (if face_slots(*old(self)).dom().contains(id) {
                face_vacated(*old(self)).push(bumped(id.raw))
            } else {
                face_vacated(*old(self))
            }),
            face_made(*final(self)) == face_made(*old(self)),
            removed == (if face_slots(*old(self)).dom().contains(id) {
                Some(face_slots(*old(self))[id])
            } else {
                None
            }),
    {
        self.slots.remove(slotmap::DefaultKey::from(slotmap::KeyData::from_ffi(id.raw)))
    }

    /// `SlotMap::keys`, collected: every identifier the arena holds, each once. The
    /// order is the slot map's own and is not stated.
    #[verifier::external_body]
    pub(crate) fn keys(&self) -> (ids: Vec<FaceId>)
        ensures
            ids@.no_duplicates(),
            ids@.to_set() == face_slots(*self).dom(),
    {
        self.slots.keys().map(|key| FaceId { raw: slotmap::Key::data(&key).as_ffi() }).collect()
    }
}

} // verus!
