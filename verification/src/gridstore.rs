//! The collections behind the hash grid of a plane slice.
//!
//! The polylines live in a slot map of the `slotmap` crate, the cells that hold an end
//! of a polyline in a secondary map keyed like it, and the entries of each cell in a hash
//! map of the `hashbrown` crate. Verus does not look inside: what each collection holds
//! is named by a specification function, and every operation on it is a small function
//! whose contract is taken from the source of the collection and is not proved here.

use vstd::prelude::*;
use crate::arena::ARENA_LIMIT;
use crate::ids::{PolygonId, SLOT_MASK};
use crate::polygon::{Polygon2, PolygonTerminal};

verus! {

/// Arena of polylines: a `slotmap::SlotMap` keyed by `slotmap::DefaultKey`.
#[verifier::external_body]
pub struct PolygonArena {
    slots: slotmap::SlotMap<slotmap::DefaultKey, Polygon2>,
}

/// The points of the polylines that an arena holds, by identifier.
pub uninterp spec fn polygon_slots(arena: PolygonArena) -> Map<PolygonId, Seq<glam::Vec2>>;

/// For each polyline, the cells that hold one of its ends: a `slotmap::SecondaryMap`.
#[verifier::external_body]
pub struct PolygonCells {
    slots: slotmap::SecondaryMap<slotmap::DefaultKey, Vec<(i32, i32)>>,
}

/// The lists of cells that a table holds, by polyline.
pub uninterp spec fn polygon_cell_slots(table: PolygonCells) -> Map<PolygonId, Seq<(i32, i32)>>;

/// For each cell, the ends of polylines that lie in it: a `hashbrown::HashMap`.
#[verifier::external_body]
pub struct CellMap {
    map: hashbrown::HashMap<(i32, i32), Vec<(PolygonTerminal, PolygonId)>>,
}

/// The lists of ends that a map holds, by cell.
pub uninterp spec fn cell_lists(map: CellMap) -> Map<(i32, i32), Seq<(PolygonTerminal, PolygonId)>>;

impl PolygonArena {
    /// `SlotMap::new`: the new arena holds nothing.
    #[verifier::external_body]
    pub(crate) fn new() -> (created: Self)
        ensures
            polygon_slots(created) == (Map::<PolygonId, Seq<glam::Vec2>>::empty()),
    {
        PolygonArena { slots: slotmap::SlotMap::new() }
    }

    /// `SlotMap::len`: the number of polylines held.
    #[verifier::external_body]
    pub(crate) fn len(&self) -> (n: usize)
        ensures
            n == polygon_slots(*self).dom().len(),
    {
        self.slots.len()
    }

    /// `SlotMap::get`, cloned: the polyline stored under `id`, if the arena holds one.
    #[verifier::external_body]
    pub(crate) fn get(&self, id: PolygonId) -> (found: Option<Polygon2>)
        requires
            id.canonical(),
        ensures
            found is Some == polygon_slots(*self).dom().contains(id),
            found is Some ==> found->0@ == polygon_slots(*self)[id],
    {
        self.slots.get(slotmap::DefaultKey::from(slotmap::KeyData::from_ffi(id.raw))).cloned()
    }

    /// `SlotMap::insert`: stores `polygon` under a key that the arena did not hold, in a
    /// slot that no held key names. The key is canonical and not the placeholder. The
    /// slot map panics only when every slot index is taken, which the bound excludes.
    #[verifier::external_body]
    pub(crate) fn insert(&mut self, polygon: Polygon2) -> (id: PolygonId)
        requires
            polygon_slots(*old(self)).dom().finite(),
            polygon_slots(*old(self)).dom().len() < ARENA_LIMIT,
        ensures
            polygon_slots(*final(self)) == polygon_slots(*old(self)).insert(id, polygon@),
            !polygon_slots(*old(self)).dom().contains(id),
            id.canonical(),
            id.slot() != SLOT_MASK,
            forall|other: PolygonId| #[trigger] polygon_slots(*old(self)).dom().contains(other) ==> other.slot() != id.slot(),
    {
        PolygonId { raw: slotmap::Key::data(&self.slots.insert(polygon)).as_ffi() }
    }

    /// `SlotMap::get_mut` followed by a store: replaces the polyline under `id` where
    /// the arena holds one, and changes nothing otherwise.
    #[verifier::external_body]
    pub(crate) fn set(&mut self, id: PolygonId, polygon: Polygon2)
        requires
            id.canonical(),
        ensures
            polygon_slots(*final(self)) == (if polygon_slots(*old(self)).dom().contains(id) {
                polygon_slots(*old(self)).insert(id, polygon@)
            } else {
                polygon_slots(*old(self))
            }),
    {
        if let Some(slot) = self.slots.get_mut(slotmap::DefaultKey::from(slotmap::KeyData::from_ffi(id.raw))) {
            *slot = polygon;
        }
    }

    /// `SlotMap::remove`: takes the polyline under `id` out of the arena and returns it,
    /// or returns `None` and changes nothing where there is none.
    #[verifier::external_body]
    pub(crate) fn remove(&mut self, id: PolygonId) -> (removed: Option<Polygon2>)
        requires
            id.canonical(),
        ensures
            polygon_slots(*final(self)) == polygon_slots(*old(self)).remove(id),
            removed is Some == polygon_slots(*old(self)).dom().contains(id),
            removed is Some ==> removed->0@ == polygon_slots(*old(self))[id],
    {
        self.slots.remove(slotmap::DefaultKey::from(slotmap::KeyData::from_ffi(id.raw)))
    }

    /// `SlotMap::keys`, collected: every identifier the arena holds, each once. The
    /// order is the slot map's own and is not stated.
    #[verifier::external_body]
    pub(crate) fn keys(&self) -> (ids: Vec<PolygonId>)
        ensures
            ids@.no_duplicates(),
            ids@.to_set() == polygon_slots(*self).dom(),
    {
        self.slots.keys().map(|key| PolygonId { raw: slotmap::Key::data(&key).as_ffi() }).collect()
    }
}

impl PolygonCells {
    /// `SecondaryMap::new`: the new table holds nothing.
    #[verifier::external_body]
    pub(crate) fn new() -> (created: Self)
        ensures
            polygon_cell_slots(created) == (Map::<PolygonId, Seq<(i32, i32)>>::empty()),
    {
        PolygonCells { slots: slotmap::SecondaryMap::new() }
    }

    /// `SecondaryMap::get`, cloned: the list stored for `id`, if there is one.
    #[verifier::external_body]
    pub(crate) fn get(&self, id: PolygonId) -> (found: Option<Vec<(i32, i32)>>)
        requires
            id.canonical(),
        ensures
            found is Some == polygon_cell_slots(*self).dom().contains(id),
            found is Some ==> found->0@ == polygon_cell_slots(*self)[id],
    {
        self.slots.get(slotmap::DefaultKey::from(slotmap::KeyData::from_ffi(id.raw))).cloned()
    }

    /// `SecondaryMap::insert`: stores `list` for `id`, over an earlier entry for `id` if
    /// there is one. Asked for: `id` is not a placeholder, and no entry sits in its slot
    /// under another key; the secondary map then neither drops nor refuses.
    #[verifier::external_body]
    pub(crate) fn insert(&mut self, id: PolygonId, list: Vec<(i32, i32)>)
        requires
            id.canonical(),
            id.slot() != SLOT_MASK,
            forall|other: PolygonId| #[trigger] polygon_cell_slots(*old(self)).dom().contains(other) ==> other == id || other.slot() != id.slot(),
        ensures
            polygon_cell_slots(*final(self)) == polygon_cell_slots(*old(self)).insert(id, list@),
    {
        self.slots.insert(slotmap::DefaultKey::from(slotmap::KeyData::from_ffi(id.raw)), list);
    }

    /// `SecondaryMap::remove`: drops the entry for `id`, if there is one.
    #[verifier::external_body]
    pub(crate) fn remove(&mut self, id: PolygonId)
        requires
            id.canonical(),
        ensures
            polygon_cell_slots(*final(self)) == polygon_cell_slots(*old(self)).remove(id),
    {
        self.slots.remove(slotmap::DefaultKey::from(slotmap::KeyData::from_ffi(id.raw)));
    }
}

impl CellMap {
    /// `HashMap::new`: the new map holds nothing.
    #[verifier::external_body]
    pub(crate) fn new() -> (created: Self)
        ensures
            cell_lists(created) == (Map::<(i32, i32), Seq<(PolygonTerminal, PolygonId)>>::empty()),
    {
        CellMap { map: hashbrown::HashMap::new() }
    }

    /// `HashMap::get`, cloned: the list stored for `cell`, if there is one.
    #[verifier::external_body]
    pub(crate) fn get(&self, cell: (i32, i32)) -> (found: Option<Vec<(PolygonTerminal, PolygonId)>>)
        ensures
            found is Some == cell_lists(*self).dom().contains(cell),
            found is Some ==> found->0@ == cell_lists(*self)[cell],
    {
        self.map.get(&cell).cloned()
    }

    /// `HashMap::insert`: stores `list` for `cell`, over an earlier entry if there is
    /// one.
    #[verifier::external_body]
    pub(crate) fn insert(&mut self, cell: (i32, i32), list: Vec<(PolygonTerminal, PolygonId)>)
        ensures
            cell_lists(*final(self)) == cell_lists(*old(self)).insert(cell, list@),
    {
        self.map.insert(cell, list);
    }
}

} // verus!
