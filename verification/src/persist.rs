//! Taking a mesh apart into plain records and putting it together again.
//!
//! What is kept of a mesh is its elements by identifier, its positions and its normals.
//! The spatial index, the slot table and the lists of outgoing halfedges are not kept:
//! they are made anew when the mesh is put together.
//!
//! An arena hands out its keys slot by slot and generation by generation. To give an
//! element the identifier it had, the arena is led to that key: slots that are in the
//! way are filled and emptied again afterwards, and a slot is emptied and refilled until
//! it has reached the generation that is wanted.

use vstd::prelude::*;
use crate::arena::ARENA_LIMIT;
use crate::elements::{Halfedge, Vertex};
use crate::geometry::{alike, alike_or_absent, copy_point, identical};
use crate::ids::{FaceId, HalfedgeId, VertexId, SLOT_MASK};
use crate::mesh::{MeshGraph, MeshModel};
use crate::secondary::VectorMap;

verus! {

/// The most rounds that leading an arena to one key may take.
pub const RESTORE_ROUNDS: u64 = 0x1_0000_0000;

/// A vertex as it is kept.
pub struct VertexRecord {
    pub id: VertexId,
    pub vertex: Vertex,
    pub position: glam::Vec3,
    pub normal: Option<glam::Vec3>,
}

/// A halfedge as it is kept.
#[derive(Clone, Copy)]
pub struct HalfedgeRecord {
    pub id: HalfedgeId,
    pub halfedge: Halfedge,
}

/// A face as it is kept. The slot of the face in the spatial index is not kept.
#[derive(Clone, Copy)]
pub struct FaceRecord {
    pub id: FaceId,
    pub halfedge: HalfedgeId,
}

/// The records of a mesh.
pub struct MeshRecords {
    pub vertices: Vec<VertexRecord>,
    pub halfedges: Vec<HalfedgeRecord>,
    pub faces: Vec<FaceRecord>,
    /// Whether normals were kept.
    pub with_normals: bool,
}

impl MeshRecords {
    /// The identifiers of the vertex records, in their order, as raw keys.
    pub open spec fn vertex_raws(self) -> Seq<u64> {
        Seq::new(self.vertices@.len(), |k: int| self.vertices@[k].id.raw)
    }

    /// The identifiers of the halfedge records, in their order, as raw keys.
    pub open spec fn halfedge_raws(self) -> Seq<u64> {
        Seq::new(self.halfedges@.len(), |k: int| self.halfedges@[k].id.raw)
    }

    /// The identifiers of the face records, in their order, as raw keys.
    pub open spec fn face_raws(self) -> Seq<u64> {
        Seq::new(self.faces@.len(), |k: int| self.faces@[k].id.raw)
    }

    /// Whether no vertex record has a normal though none are kept.
    pub open spec fn normals_fit(self) -> bool {
        forall|k: int| 0 <= k < self.vertices@.len() && (#[trigger] self.vertices@[k]).normal is Some ==> self.with_normals
    }

    /// Whether a mesh can be put together from the records: the arenas, which start
    /// empty, can be led to the identifiers of each kind in the order of the records,
    /// and no vertex has a normal where none are kept.
    ///
    /// An arena can be led to a key that is well formed and not the placeholder, whose
    /// slot lies behind the slots of the keys before it, within the rounds and the room
    /// that `leadable` names.
    pub open spec fn restorable(self) -> bool {
        &&& led(self.vertex_raws(), self.vertices@.len()) is Some
        &&& led(self.halfedge_raws(), self.halfedges@.len()) is Some
        &&& led(self.face_raws(), self.faces@.len()) is Some
        &&& self.normals_fit()
    }

    /// Whether there is no record at all.
    pub open spec fn is_empty(self) -> bool {
        self.vertices@.len() == 0 && self.halfedges@.len() == 0 && self.faces@.len() == 0
    }
}

impl MeshModel {
    /// Whether `records` are the vertices of this mesh: one record for each vertex, with
    /// its identifier, its record and its position, and with its normal where normals
    /// are kept and the vertex has one.
    pub open spec fn vertices_recorded(self, records: Seq<VertexRecord>) -> bool {
        &&& records.len() == self.vertices.dom().len()
        &&& forall|i: int, j: int| 0 <= i < j < records.len() ==> records[i].id != records[j].id
        &&& forall|i: int| 0 <= i < records.len() ==> {
            let r = #[trigger] records[i];
            &&& self.vertices.dom().contains(r.id)
            &&& self.vertices[r.id] == r.vertex
            &&& alike(self.positions[r.id], r.position)
            &&& alike_or_absent(
                r.normal,
                match self.normals {
                    Some(normals) => normals.get(r.id),
                    None => None,
                },
            )
        }
    }

    /// Whether the vertex of the record `r` is live and as the record says: with its
    /// record, its position, and its normal where it has one.
    pub open spec fn kept_as(self, r: VertexRecord) -> bool {
        &&& self.vertices.dom().contains(r.id)
        &&& self.vertices[r.id] == r.vertex
        &&& alike(self.positions[r.id], r.position)
        &&& alike_or_absent(
            r.normal,
            match self.normals {
                Some(normals) => normals.get(r.id),
                None => None,
            },
        )
    }

    /// Whether `records` are the halfedges of this mesh.
    pub open spec fn halfedges_recorded(self, records: Seq<HalfedgeRecord>) -> bool {
        &&& records.len() == self.halfedges.dom().len()
        &&& forall|i: int, j: int| 0 <= i < j < records.len() ==> records[i].id != records[j].id
        &&& forall|i: int| 0 <= i < records.len() ==> self.halfedges.dom().contains((#[trigger] records[i]).id) && self.halfedges[records[i].id]
            == records[i].halfedge
    }

    /// Whether the lists of outgoing halfedges are what the halfedges say: every live
    /// vertex lists, each once, the live halfedges that start at it.
    pub open spec fn listed_by_start(self) -> bool {
        &&& forall|v: VertexId| #[trigger] self.vertices.dom().contains(v) ==> self.outgoing[v].no_duplicates()
        &&& forall|v: VertexId, he: HalfedgeId|
            self.vertices.dom().contains(v) ==> (#[trigger] self.outgoing[v].contains(he) <==> self.halfedges.dom().contains(he) && self.start_of(he)
                == Some(v))
    }

    /// Whether `after` has every vertex of this mesh as it is here: with its record, its
    /// position and its list of outgoing halfedges.
    pub open spec fn vertices_kept(self, after: MeshModel) -> bool {
        forall|v: VertexId| #[trigger]
            self.vertices.dom().contains(v) ==> after.vertices.dom().contains(v) && after.vertices[v] == self.vertices[v] && after.positions[v]
                == self.positions[v] && after.outgoing[v] == self.outgoing[v]
    }

    /// Whether `records` are the faces of this mesh.
    pub open spec fn faces_recorded(self, records: Seq<FaceRecord>) -> bool {
        &&& records.len() == self.faces.dom().len()
        &&& forall|i: int, j: int| 0 <= i < j < records.len() ==> records[i].id != records[j].id
        &&& forall|i: int| 0 <= i < records.len() ==> self.faces.dom().contains((#[trigger] records[i]).id) && self.faces[records[i].id].halfedge
            == records[i].halfedge
    }
}

/// Whether an arena that has made `made` slots, has left none of them, and holds `live`
/// records can be led to hand out the key `raw`: the key is well formed and not the
/// placeholder, its slot is not made yet or is the next one, the number of keys that
/// have to be taken on the way is within the rounds allowed, and there is room for
/// the records that fill the slots before it.
pub open spec fn leadable(raw: u64, made: nat, live: nat) -> bool {
    &&& crate::ids::raw_is_canonical(raw)
    &&& (raw & SLOT_MASK) != SLOT_MASK
    &&& made <= (raw & SLOT_MASK)
    &&& ((raw & SLOT_MASK) - made) + ((raw >> 32) + 1) / 2 <= RESTORE_ROUNDS
    &&& live + ((raw & SLOT_MASK) - made) < ARENA_LIMIT
}

/// What an arena that starts empty has come to when it has been led to the first `n`
/// keys of `raws`, one after the other: the number of slots made and the number of
/// records held, those that fill the slots between the keys counted. Nothing where it
/// cannot be led to one of them.
pub open spec fn led(raws: Seq<u64>, n: nat) -> Option<(nat, nat)>
    decreases n,
{
    if n == 0 || n > raws.len() {
        Some((1nat, 0nat))
    } else {
        match led(raws, (n - 1) as nat) {
            Some(state) => if leadable(raws[n - 1], state.0, state.1) {
                Some((((raws[n - 1] & SLOT_MASK) + 1) as nat, (state.1 + ((raws[n - 1] & SLOT_MASK) - state.0) + 1) as nat))
            } else {
                None
            },
            None => None,
        }
    }
}

/// An arena that cannot be led to the first keys cannot be led to more of them.
pub proof fn lemma_led_stays_lost(raws: Seq<u64>, n: nat, m: nat)
    requires
        led(raws, n) is None,
        n <= m <= raws.len(),
    ensures
        led(raws, m) is None,
    decreases m,
{
    if m > n {
        lemma_led_stays_lost(raws, n, (m - 1) as nat);
    }
}

/// The two halves of a key are its slot and its generation.
pub proof fn lemma_key_parts(slot: u64, generation: u64)
    requires
        slot <= 0xFFFF_FFFF,
        generation <= 0xFFFF_FFFF,
    ensures
        crate::arena::key_raw(slot, generation) & 0xFFFF_FFFF == slot,
        crate::arena::key_raw(slot, generation) >> 32 == generation,
{
    assert(((generation << 32) | slot) & 0xFFFF_FFFF == slot && ((generation << 32) | slot) >> 32 == generation) by (bit_vector)
        requires
            slot <= 0xFFFF_FFFF,
            generation <= 0xFFFF_FFFF,
    ;
}

/// A key is made of its slot and its generation, which is odd where the key is well
/// formed.
pub proof fn lemma_key_whole(raw: u64)
    ensures
        crate::arena::key_raw(raw & 0xFFFF_FFFF, raw >> 32) == raw,
        raw & 0xFFFF_FFFF <= 0xFFFF_FFFF,
        raw >> 32 <= 0xFFFF_FFFF,
        crate::ids::raw_is_canonical(raw) ==> (raw >> 32) % 2 == 1,
{
    assert((((raw >> 32) << 32) | (raw & 0xFFFF_FFFF)) == raw && raw & 0xFFFF_FFFF <= 0xFFFF_FFFF && raw >> 32 <= 0xFFFF_FFFF) by (bit_vector);
    assert(raw & 0x1_0000_0000 != 0 ==> (raw >> 32) % 2 == 1) by (bit_vector);
}

/// The key of a slot that was left names the same slot.
pub proof fn lemma_bumped_slot(raw: u64)
    ensures
        crate::arena::bumped(raw) & 0xFFFF_FFFF == raw & 0xFFFF_FFFF,
{
    let slot = raw & 0xFFFF_FFFF;
    let generation = ((((raw >> 32) + 1) as u64) & 0xFFFF_FFFF) | 1;
    assert(slot <= 0xFFFF_FFFF) by (bit_vector)
        requires
            slot == raw & 0xFFFF_FFFF,
    ;
    let next = ((raw >> 32) + 1) as u64;
    assert((next & 0xFFFF_FFFF) | 1 <= 0xFFFF_FFFF) by (bit_vector);
    lemma_key_parts(slot, generation);
}

/// The key of a slot that was left is the key of the same slot two generations on.
pub proof fn lemma_bumped(slot: u64, generation: u64)
    requires
        slot <= 0xFFFF_FFFF,
        generation < 0xFFFF_FFFF,
        generation % 2 == 1,
    ensures
        crate::arena::bumped(crate::arena::key_raw(slot, generation)) == crate::arena::key_raw(slot, (generation + 2) as u64),
{
    lemma_key_parts(slot, generation);
    let next = (generation + 1) as u64;
    assert((next & 0xFFFF_FFFF) | 1 == next + 1) by (bit_vector)
        requires
            next <= 0xFFFF_FFFF,
            next % 2 == 0,
    ;
}

/// Whether `id` is one of the first `n` items of `list`.
pub open spec fn taken_among<A>(list: Seq<A>, n: int, id: A) -> bool {
    exists|q: int| 0 <= q < n && q < list.len() && list[q] == id
}

/// Whether one of the first `n` face records has the identifier `id`.
pub open spec fn face_named_among(records: Seq<FaceRecord>, n: int, id: FaceId) -> bool {
    exists|k: int| 0 <= k < n && k < records.len() && (#[trigger] records[k]).id == id
}

/// Whether one of the first `n` vertex records has the identifier `id`.
pub open spec fn vertex_named_among(records: Seq<VertexRecord>, n: int, id: VertexId) -> bool {
    exists|k: int| 0 <= k < n && k < records.len() && (#[trigger] records[k]).id == id
}

/// Whether one of the first `n` halfedge records has the identifier `id`.
pub open spec fn named_among(records: Seq<HalfedgeRecord>, n: int, id: HalfedgeId) -> bool {
    exists|k: int| 0 <= k < n && k < records.len() && (#[trigger] records[k]).id == id
}

/// Whether `id` is one of the items of `list` from position `from` on.
pub open spec fn new_among<A>(list: Seq<A>, from: int, id: A) -> bool {
    exists|k: int| from <= k < list.len() && list[k] == id
}

/// A vertex that is put in and taken out again leaves the mesh as it was.
pub proof fn lemma_vertex_comes_and_goes(m: MeshModel, id: VertexId, position: glam::Vec3)
    requires
        m.wf(),
        !m.vertices.dom().contains(id),
    ensures
        m.add_vertex(id, position).drop_vertex(id) == m,
{
    let back = m.add_vertex(id, position).drop_vertex(id);
    assert(back.vertices =~= m.vertices);
    assert(back.positions =~= m.positions);
    assert(back.outgoing =~= m.outgoing);
    match m.normals {
        Some(normals) => {
            assert(!normals.dom().contains(id));
            assert(back.normals->0 =~= normals);
        },
        None => {},
    }
}

/// The generation half of a raw key.
pub fn generation_of(raw: u64) -> (generation: u64)
    ensures
        generation == raw >> 32,
{
    raw >> 32
}

/// The slot half of a raw key.
pub fn slot_of(raw: u64) -> (slot: u64)
    ensures
        slot == raw & SLOT_MASK,
{
    raw & SLOT_MASK
}

impl MeshGraph {
    /// The records of the mesh: every element with its identifier, in no stated order.
    #[verifier::rlimit(50)]
    pub fn to_records(&self) -> (records: MeshRecords)
        requires
            self.wf(),
        ensures
            self@.vertices_recorded(records.vertices@),
            self@.halfedges_recorded(records.halfedges@),
            self@.faces_recorded(records.faces@),
            records.with_normals == (self@.normals is Some),
    {
        let vertex_ids = self.vertex_ids();
        let mut vertices: Vec<VertexRecord> = Vec::new();
        let mut i: usize = 0;
        while i < vertex_ids.len()
            invariant
                i <= vertex_ids.len(),
                self.wf(),
                vertex_ids@.no_duplicates(),
                vertex_ids@.to_set() == self@.vertices.dom(),
                vertices@.len() == i,
                forall|k: int| 0 <= k < i ==> {
                    let r = #[trigger] vertices@[k];
                    &&& r.id == vertex_ids@[k]
                    &&& self@.vertices.dom().contains(r.id)
                    &&& self@.vertices[r.id] == r.vertex
                    &&& alike(self@.positions[r.id], r.position)
                    &&& alike_or_absent(
                        r.normal,
                        match self@.normals {
                            Some(normals) => normals.get(r.id),
                            None => None,
                        },
                    )
                },
            decreases vertex_ids.len() - i,
        {
            let id = vertex_ids[i];
            proof {
                assert(vertex_ids@.to_set().contains(id));
            }
            match (self.vertex(id), self.position(id)) {
                (Some(vertex), Some(position)) => {
                    vertices.push(VertexRecord { id, vertex, position, normal: self.vertex_normal(id) });
                },
                _ => {
                    proof {
                        assert(false);
                    }
                },
            }
            i = i + 1;
        }
        let halfedge_ids = self.halfedge_ids();
        let mut halfedges: Vec<HalfedgeRecord> = Vec::new();
        let mut j: usize = 0;
        while j < halfedge_ids.len()
            invariant
                j <= halfedge_ids.len(),
                self.wf(),
                halfedge_ids@.to_set() == self@.halfedges.dom(),
                halfedges@.len() == j,
                forall|k: int| 0 <= k < j ==> (#[trigger] halfedges@[k]).id == halfedge_ids@[k] && self@.halfedges.dom().contains(halfedges@[k].id)
                    && self@.halfedges[halfedges@[k].id] == halfedges@[k].halfedge,
            decreases halfedge_ids.len() - j,
        {
            let id = halfedge_ids[j];
            proof {
                assert(halfedge_ids@.to_set().contains(id));
            }
            match self.halfedge(id) {
                Some(halfedge) => {
                    halfedges.push(HalfedgeRecord { id, halfedge });
                },
                None => {
                    proof {
                        assert(false);
                    }
                },
            }
            j = j + 1;
        }
        let face_ids = self.face_ids();
        let mut faces: Vec<FaceRecord> = Vec::new();
        let mut f: usize = 0;
        while f < face_ids.len()
            invariant
                f <= face_ids.len(),
                self.wf(),
                face_ids@.to_set() == self@.faces.dom(),
                faces@.len() == f,
                forall|k: int| 0 <= k < f ==> (#[trigger] faces@[k]).id == face_ids@[k] && self@.faces.dom().contains(faces@[k].id) && self@.faces[faces@[k].id].halfedge
                    == faces@[k].halfedge,
            decreases face_ids.len() - f,
        {
            let id = face_ids[f];
            proof {
                assert(face_ids@.to_set().contains(id));
            }
            match self.face(id) {
                Some(face) => {
                    faces.push(FaceRecord { id, halfedge: face.halfedge });
                },
                None => {
                    proof {
                        assert(false);
                    }
                },
            }
            f = f + 1;
        }
        proof {
            vertex_ids@.unique_seq_to_set();
            halfedge_ids@.unique_seq_to_set();
            face_ids@.unique_seq_to_set();
        }
        MeshRecords { vertices, halfedges, faces, with_normals: self.has_vertex_normals() }
    }

    /// Leads the vertex arena to hand out `wanted`, and stores a vertex without
    /// canonical halfedge, at `position`, under it. The slots that had to be filled on
    /// the way are noted in `fillers`. Says whether the arena could be led there.
    pub(crate) fn restore_vertex(&mut self, wanted: VertexId, position: &glam::Vec3, fillers: &mut Vec<VertexId>) -> (restored: bool)
        requires
            old(self).wf(),
            old(self)@.halfedges.dom().len() == 0,
            old(self)@.faces.dom().len() == 0,
            old(self)@.slots.len() == 0,
        ensures
            final(self).wf(),
            final(self)@.halfedges == old(self)@.halfedges,
            final(self)@.faces == old(self)@.faces,
            final(self)@.slots == old(self)@.slots,
            final(self)@.normals == old(self)@.normals,
            restored ==> final(self)@.vertices.dom().contains(wanted),
            !wanted.canonical() || wanted.slot() == SLOT_MASK ==> !restored && final(self)@ == old(self)@ && final(fillers)@ == old(fillers)@,
            old(self)@.vertices_kept(final(self)@),
            old(fillers)@.is_prefix_of(final(fillers)@),
            forall|v: VertexId| #[trigger]
                final(self)@.vertices.dom().contains(v) <==> old(self)@.vertices.dom().contains(v) || (restored && v == wanted) || new_among(
                    final(fillers)@,
                    old(fillers)@.len() as int,
                    v,
                ),
            forall|k: int| old(fillers)@.len() <= k < final(fillers)@.len() ==> !old(self)@.vertices.dom().contains(#[trigger] final(fillers)@[k]),
            forall|k: int| old(fillers)@.len() <= k < final(fillers)@.len() ==> #[trigger] final(fillers)@[k] != wanted,
            restored ==> !old(self)@.vertices.dom().contains(wanted) && final(self)@.vertices[wanted] == (Vertex { outgoing_halfedge: None })
                && final(self)@.positions[wanted] == *position && final(self)@.outgoing[wanted] == Seq::<HalfedgeId>::empty(),
            old(self).vertex_keys().0.len() == 0 ==> (restored <==> leadable(wanted.raw, old(self).vertex_keys().1, old(self)@.vertices.dom().len())),
            old(self).vertex_keys().0.len() == 0 && restored ==> final(self).vertex_keys() == (Seq::<u64>::empty(), (wanted.slot() + 1) as nat)
                && final(self)@.vertices.dom().len() == old(self)@.vertices.dom().len() + (wanted.slot() - old(self).vertex_keys().1) + 1
                && final(fillers)@.len() == old(fillers)@.len() + (wanted.slot() - old(self).vertex_keys().1),
            final(self).halfedge_keys() == old(self).halfedge_keys(),
            final(self).face_keys() == old(self).face_keys(),
    {
        proof {
            lemma_key_whole(wanted.raw);
        }
        if !wanted.is_canonical() || slot_of(wanted.raw) == SLOT_MASK {
            return false;
        }
        let mut rounds: u64 = RESTORE_ROUNDS;
        let ghost start = fillers@.len() as int;
        let ghost clean = old(self).vertex_keys().0.len() == 0;
        let ghost made0 = old(self).vertex_keys().1;
        let ghost live0 = old(self)@.vertices.dom().len();
        let ghost slot = (wanted.raw & SLOT_MASK) as nat;
        let ghost generation = (wanted.raw >> 32) as nat;
        let ghost mut cycling = false;
        let ghost mut turn: nat = 1;
        let ghost mut filled: nat = 0;
        while rounds > 0
            invariant
                self.wf(),
                self.halfedge_keys() == old(self).halfedge_keys(),
                self.face_keys() == old(self).face_keys(),
                clean == (old(self).vertex_keys().0.len() == 0),
                made0 == old(self).vertex_keys().1,
                live0 == old(self)@.vertices.dom().len(),
                slot == wanted.raw & SLOT_MASK,
                generation == wanted.raw >> 32,
                generation % 2 == 1,
                generation <= 0xFFFF_FFFF,
                slot < 0xFFFF_FFFF,
                wanted.raw == crate::arena::key_raw(slot as u64, generation as u64),
                clean ==> {
                    &&& fillers@.len() == start + filled
                    &&& self@.vertices.dom().len() == live0 + filled
                    &&& !cycling ==> self.vertex_keys() == (Seq::<u64>::empty(), made0 + filled) && (made0 <= slot ==> made0 + filled <= slot)
                        && RESTORE_ROUNDS - rounds == filled
                    &&& cycling ==> made0 <= slot && filled == slot - made0 && turn % 2 == 1 && 3 <= turn <= generation && self.vertex_keys() == (
                        seq![crate::arena::key_raw(slot as u64, turn as u64)],
                        slot + 1,
                    ) && RESTORE_ROUNDS - rounds == filled + (turn - 1) / 2
                },
                self@.halfedges == old(self)@.halfedges,
                self@.faces == old(self)@.faces,
                self@.slots == old(self)@.slots,
                self@.normals == old(self)@.normals,
                start == old(fillers)@.len(),
                wanted.canonical() && wanted.slot() != SLOT_MASK,
                old(self)@.vertices_kept(self@),
                old(fillers)@.is_prefix_of(fillers@),
                forall|v: VertexId| #[trigger] self@.vertices.dom().contains(v) <==> old(self)@.vertices.dom().contains(v) || new_among(fillers@, start, v),
                forall|k: int| start <= k < fillers@.len() ==> !old(self)@.vertices.dom().contains(#[trigger] fillers@[k]),
                forall|k: int| start <= k < fillers@.len() ==> #[trigger] fillers@[k] != wanted,
            decreases rounds,
        {
            rounds = rounds - 1;
            if !self.has_room(1, 0, 0) {
                return false;
            }
            let ghost before = self@;
            let ghost listed = fillers@;
            let id = self.insert_vertex(copy_point(position));
            proof {
                if clean {
                    if cycling {
                        lemma_key_parts(slot as u64, turn as u64);
                        assert(id.raw == crate::arena::key_raw(slot as u64, turn as u64));
                        assert(self.vertex_keys().0 =~= Seq::<u64>::empty());
                    } else {
                        lemma_key_parts((made0 + filled) as u64, 1);
                        assert(id.raw == crate::arena::key_raw((made0 + filled) as u64, 1));
                    }
                }
            }
            if id == wanted {
                proof {
                    if clean {
                        if cycling {
                            assert(turn == generation);
                        } else {
                            assert(made0 + filled == slot && generation == 1);
                        }
                    }
                }
                return true;
            }
            if slot_of(id.raw) > slot_of(wanted.raw) {
                self.delete_only_vertex(id);
                proof {
                    lemma_vertex_comes_and_goes(before, id, *position);
                }
                return false;
            } else if slot_of(id.raw) < slot_of(wanted.raw) {
                fillers.push(id);
                proof {
                    filled = filled + 1;
                }
                proof {
                    assert forall|v: VertexId| #[trigger] self@.vertices.dom().contains(v) <==> old(self)@.vertices.dom().contains(v) || new_among(
                        fillers@,
                        start,
                        v,
                    ) by {
                        if new_among(listed, start, v) {
                            let k = choose|k: int| start <= k < listed.len() && listed[k] == v;
                            assert(fillers@[k] == v);
                        }
                        if new_among(fillers@, start, v) {
                            let k = choose|k: int| start <= k < fillers@.len() && fillers@[k] == v;
                            if k < listed.len() {
                                assert(listed[k] == v);
                            }
                        }
                        if v == id {
                            assert(fillers@[listed.len() as int] == v);
                        }
                    }
                }
            } else {
                if generation_of(id.raw) > generation_of(wanted.raw) {
                    self.delete_only_vertex(id);
                    proof {
                        lemma_vertex_comes_and_goes(before, id, *position);
                    }
                    return false;
                }
                self.delete_only_vertex(id);
                proof {
                    lemma_vertex_comes_and_goes(before, id, *position);
                    if clean {
                        let was: nat = if cycling {
                            turn
                        } else {
                            1
                        };
                        assert(id.raw == crate::arena::key_raw(slot as u64, was as u64));
                        assert(was != generation) by {
                            if was == generation {
                                assert(id.raw == wanted.raw);
                            }
                        }
                        assert(was < generation);
                        lemma_bumped(slot as u64, was as u64);
                        assert(self.vertex_keys().0 =~= seq![crate::arena::key_raw(slot as u64, (was + 2) as u64)]);
                        cycling = true;
                        turn = was + 2;
                    }
                }
            }
        }
        false
    }

    /// Leads the halfedge arena to hand out `wanted`, and stores `halfedge` under it.
    pub(crate) fn restore_halfedge(&mut self, wanted: HalfedgeId, halfedge: Halfedge, fillers: &mut Vec<HalfedgeId>) -> (restored: bool)
        requires
            old(self).wf(),
        ensures
            final(self).wf(),
            final(self)@.vertices == old(self)@.vertices,
            final(self)@.positions == old(self)@.positions,
            final(self)@.normals == old(self)@.normals,
            final(self)@.outgoing == old(self)@.outgoing,
            final(self)@.faces == old(self)@.faces,
            final(self)@.slots == old(self)@.slots,
            restored ==> final(self)@.halfedges.dom().contains(wanted) && final(self)@.halfedges[wanted] == halfedge,
            !wanted.canonical() || wanted.slot() == SLOT_MASK ==> !restored && final(self)@ == old(self)@ && final(fillers)@ == old(fillers)@,
            forall|h: HalfedgeId| #[trigger] old(self)@.halfedges.dom().contains(h) ==> final(self)@.halfedges.dom().contains(h) && final(self)@.halfedges[h]
                == old(self)@.halfedges[h],
            old(fillers)@.is_prefix_of(final(fillers)@),
            forall|h: HalfedgeId| #[trigger]
                final(self)@.halfedges.dom().contains(h) <==> old(self)@.halfedges.dom().contains(h) || (restored && h == wanted) || new_among(
                    final(fillers)@,
                    old(fillers)@.len() as int,
                    h,
                ),
            forall|k: int| old(fillers)@.len() <= k < final(fillers)@.len() ==> !old(self)@.halfedges.dom().contains(#[trigger] final(fillers)@[k]),
            forall|k: int| old(fillers)@.len() <= k < final(fillers)@.len() ==> #[trigger] final(fillers)@[k] != wanted,
            restored ==> !old(self)@.halfedges.dom().contains(wanted),
            final(self).vertex_keys() == old(self).vertex_keys(),
            final(self).face_keys() == old(self).face_keys(),
            old(self).halfedge_keys().0.len() == 0 ==> (restored <==> leadable(wanted.raw, old(self).halfedge_keys().1, old(self)@.halfedges.dom().len())),
            old(self).halfedge_keys().0.len() == 0 && restored ==> final(self).halfedge_keys() == (Seq::<u64>::empty(), (wanted.slot() + 1) as nat)
                && final(self)@.halfedges.dom().len() == old(self)@.halfedges.dom().len() + (wanted.slot() - old(self).halfedge_keys().1) + 1
                && final(fillers)@.len() == old(fillers)@.len() + (wanted.slot() - old(self).halfedge_keys().1),
    {
        proof {
            lemma_key_whole(wanted.raw);
        }
        if !wanted.is_canonical() || slot_of(wanted.raw) == SLOT_MASK {
            return false;
        }
        let mut rounds: u64 = RESTORE_ROUNDS;
        let ghost start = fillers@.len() as int;
        let ghost clean = old(self).halfedge_keys().0.len() == 0;
        let ghost made0 = old(self).halfedge_keys().1;
        let ghost live0 = old(self)@.halfedges.dom().len();
        let ghost slot = (wanted.raw & SLOT_MASK) as nat;
        let ghost generation = (wanted.raw >> 32) as nat;
        let ghost mut cycling = false;
        let ghost mut turn: nat = 1;
        let ghost mut filled: nat = 0;
        while rounds > 0
            invariant
                self.wf(),
                self.vertex_keys() == old(self).vertex_keys(),
                self.face_keys() == old(self).face_keys(),
                clean == (old(self).halfedge_keys().0.len() == 0),
                made0 == old(self).halfedge_keys().1,
                live0 == old(self)@.halfedges.dom().len(),
                slot == wanted.raw & SLOT_MASK,
                generation == wanted.raw >> 32,
                generation % 2 == 1,
                generation <= 0xFFFF_FFFF,
                slot < 0xFFFF_FFFF,
                wanted.raw == crate::arena::key_raw(slot as u64, generation as u64),
                clean ==> {
                    &&& fillers@.len() == start + filled
                    &&& self@.halfedges.dom().len() == live0 + filled
                    &&& !cycling ==> self.halfedge_keys() == (Seq::<u64>::empty(), made0 + filled) && (made0 <= slot ==> made0 + filled <= slot)
                        && RESTORE_ROUNDS - rounds == filled
                    &&& cycling ==> made0 <= slot && filled == slot - made0 && turn % 2 == 1 && 3 <= turn <= generation && self.halfedge_keys() == (
                        seq![crate::arena::key_raw(slot as u64, turn as u64)],
                        slot + 1,
                    ) && RESTORE_ROUNDS - rounds == filled + (turn - 1) / 2
                },
                self@.vertices == old(self)@.vertices,
                self@.positions == old(self)@.positions,
                self@.normals == old(self)@.normals,
                self@.outgoing == old(self)@.outgoing,
                self@.faces == old(self)@.faces,
                self@.slots == old(self)@.slots,
                start == old(fillers)@.len(),
                wanted.canonical() && wanted.slot() != SLOT_MASK,
                forall|h: HalfedgeId| #[trigger] old(self)@.halfedges.dom().contains(h) ==> self@.halfedges.dom().contains(h) && self@.halfedges[h]
                    == old(self)@.halfedges[h],
                old(fillers)@.is_prefix_of(fillers@),
                forall|h: HalfedgeId| #[trigger] self@.halfedges.dom().contains(h) <==> old(self)@.halfedges.dom().contains(h) || new_among(fillers@, start, h),
                forall|k: int| start <= k < fillers@.len() ==> !old(self)@.halfedges.dom().contains(#[trigger] fillers@[k]),
                forall|k: int| start <= k < fillers@.len() ==> #[trigger] fillers@[k] != wanted,
            decreases rounds,
        {
            rounds = rounds - 1;
            if !self.has_room(0, 1, 0) {
                return false;
            }
            let ghost before = self@;
            let ghost listed = fillers@;
            let id = self.halfedges.insert(halfedge);
            proof {
                if clean {
                    if cycling {
                        lemma_key_parts(slot as u64, turn as u64);
                        assert(id.raw == crate::arena::key_raw(slot as u64, turn as u64));
                        assert(self.halfedge_keys().0 =~= Seq::<u64>::empty());
                    } else {
                        assert(crate::arena::halfedge_made(self.halfedges) <= 0xFFFF_FFFF);
                        lemma_key_parts((made0 + filled) as u64, 1);
                        assert(id.raw == crate::arena::key_raw((made0 + filled) as u64, 1));
                    }
                }
            }
            if id == wanted {
                proof {
                    if clean {
                        if cycling {
                            assert(turn == generation);
                        } else {
                            assert(made0 + filled == slot && generation == 1);
                        }
                    }
                }
                return true;
            }
            if slot_of(id.raw) > slot_of(wanted.raw) {
                self.erase_halfedge(id);
                proof {
                    assert(self@.halfedges =~= before.halfedges);
                }
                return false;
            } else if slot_of(id.raw) < slot_of(wanted.raw) {
                fillers.push(id);
                proof {
                    filled = filled + 1;
                }
                proof {
                    assert forall|h: HalfedgeId| #[trigger] self@.halfedges.dom().contains(h) <==> old(self)@.halfedges.dom().contains(h) || new_among(
                        fillers@,
                        start,
                        h,
                    ) by {
                        if new_among(listed, start, h) {
                            let k = choose|k: int| start <= k < listed.len() && listed[k] == h;
                            assert(fillers@[k] == h);
                        }
                        if new_among(fillers@, start, h) {
                            let k = choose|k: int| start <= k < fillers@.len() && fillers@[k] == h;
                            if k < listed.len() {
                                assert(listed[k] == h);
                            }
                        }
                        if h == id {
                            assert(fillers@[listed.len() as int] == h);
                        }
                    }
                }
            } else {
                if generation_of(id.raw) > generation_of(wanted.raw) {
                    self.erase_halfedge(id);
                    proof {
                        assert(self@.halfedges =~= before.halfedges);
                    }
                    return false;
                }
                self.erase_halfedge(id);
                proof {
                    assert(self@.halfedges =~= before.halfedges);
                    if clean {
                        let was: nat = if cycling {
                            turn
                        } else {
                            1
                        };
                        assert(id.raw == crate::arena::key_raw(slot as u64, was as u64));
                        assert(was != generation) by {
                            if was == generation {
                                assert(id.raw == wanted.raw);
                            }
                        }
                        assert(was < generation);
                        lemma_bumped(slot as u64, was as u64);
                        assert(self.halfedge_keys().0 =~= seq![crate::arena::key_raw(slot as u64, (was + 2) as u64)]);
                        cycling = true;
                        turn = was + 2;
                    }
                }
            }
        }
        false
    }

    /// Leads the face arena to hand out `wanted`, and stores a face on `halfedge`
    /// under it, filed under the next free slot of the spatial index.
    #[verifier::rlimit(50)]
    pub(crate) fn restore_face(&mut self, wanted: FaceId, halfedge: HalfedgeId, fillers: &mut Vec<FaceId>) -> (restored: bool)
        requires
            old(self).wf(),
        ensures
            final(self).wf(),
            final(self)@.vertices == old(self)@.vertices,
            final(self)@.positions == old(self)@.positions,
            final(self)@.normals == old(self)@.normals,
            final(self)@.outgoing == old(self)@.outgoing,
            final(self)@.halfedges == old(self)@.halfedges,
            restored ==> final(self)@.faces.dom().contains(wanted) && final(self)@.faces[wanted].halfedge == halfedge,
            !wanted.canonical() || wanted.slot() == SLOT_MASK ==> !restored && final(self)@ == old(self)@ && final(fillers)@ == old(fillers)@,
            forall|f: FaceId| #[trigger] old(self)@.faces.dom().contains(f) ==> final(self)@.faces.dom().contains(f) && final(self)@.faces[f]
                == old(self)@.faces[f],
            old(self)@.slots.is_prefix_of(final(self)@.slots),
            old(fillers)@.is_prefix_of(final(fillers)@),
            forall|f: FaceId| #[trigger]
                final(self)@.faces.dom().contains(f) <==> old(self)@.faces.dom().contains(f) || (restored && f == wanted) || new_among(
                    final(fillers)@,
                    old(fillers)@.len() as int,
                    f,
                ),
            forall|k: int| old(fillers)@.len() <= k < final(fillers)@.len() ==> !old(self)@.faces.dom().contains(#[trigger] final(fillers)@[k]),
            forall|k: int| old(fillers)@.len() <= k < final(fillers)@.len() ==> #[trigger] final(fillers)@[k] != wanted,
            restored ==> !old(self)@.faces.dom().contains(wanted),
            final(self).vertex_keys() == old(self).vertex_keys(),
            final(self).halfedge_keys() == old(self).halfedge_keys(),
            old(self).face_keys().0.len() == 0 && old(self)@.slots.len() == old(self)@.faces.dom().len() ==> (restored <==> leadable(
                wanted.raw,
                old(self).face_keys().1,
                old(self)@.faces.dom().len(),
            )),
            old(self).face_keys().0.len() == 0 && old(self)@.slots.len() == old(self)@.faces.dom().len() && restored ==> final(self).face_keys() == (
                Seq::<u64>::empty(),
                (wanted.slot() + 1) as nat,
            ) && final(self)@.faces.dom().len() == old(self)@.faces.dom().len() + (wanted.slot() - old(self).face_keys().1) + 1 && final(fillers)@.len() == old(fillers)@.len() + (wanted.slot() - old(self).face_keys().1) && final(self)@.slots.len() == final(self)@.faces.dom().len(),
    {
        proof {
            lemma_key_whole(wanted.raw);
        }
        if !wanted.is_canonical() || slot_of(wanted.raw) == SLOT_MASK {
            return false;
        }
        let mut rounds: u64 = RESTORE_ROUNDS;
        let ghost start = fillers@.len() as int;
        let ghost clean = old(self).face_keys().0.len() == 0 && old(self)@.slots.len() == old(self)@.faces.dom().len();
        let ghost made0 = old(self).face_keys().1;
        let ghost live0 = old(self)@.faces.dom().len();
        let ghost slot = (wanted.raw & SLOT_MASK) as nat;
        let ghost generation = (wanted.raw >> 32) as nat;
        let ghost mut cycling = false;
        let ghost mut turn: nat = 1;
        let ghost mut filled: nat = 0;
        while rounds > 0
            invariant
                self.wf(),
                self.vertex_keys() == old(self).vertex_keys(),
                self.halfedge_keys() == old(self).halfedge_keys(),
                clean == (old(self).face_keys().0.len() == 0 && old(self)@.slots.len() == old(self)@.faces.dom().len()),
                made0 == old(self).face_keys().1,
                live0 == old(self)@.faces.dom().len(),
                slot == wanted.raw & SLOT_MASK,
                generation == wanted.raw >> 32,
                generation % 2 == 1,
                generation <= 0xFFFF_FFFF,
                slot < 0xFFFF_FFFF,
                wanted.raw == crate::arena::key_raw(slot as u64, generation as u64),
                clean ==> {
                    &&& fillers@.len() == start + filled
                    &&& self@.faces.dom().len() == live0 + filled
                    &&& self@.slots.len() == live0 + filled
                    &&& !cycling ==> self.face_keys() == (Seq::<u64>::empty(), made0 + filled) && (made0 <= slot ==> made0 + filled <= slot)
                        && RESTORE_ROUNDS - rounds == filled
                    &&& cycling ==> made0 <= slot && filled == slot - made0 && turn % 2 == 1 && 3 <= turn <= generation && self.face_keys() == (
                        seq![crate::arena::key_raw(slot as u64, turn as u64)],
                        slot + 1,
                    ) && RESTORE_ROUNDS - rounds == filled + (turn - 1) / 2
                },
                self@.vertices == old(self)@.vertices,
                self@.positions == old(self)@.positions,
                self@.normals == old(self)@.normals,
                self@.outgoing == old(self)@.outgoing,
                self@.halfedges == old(self)@.halfedges,
                start == old(fillers)@.len(),
                wanted.canonical() && wanted.slot() != SLOT_MASK,
                forall|f: FaceId| #[trigger] old(self)@.faces.dom().contains(f) ==> self@.faces.dom().contains(f) && self@.faces[f] == old(self)@.faces[f],
                old(self)@.slots.is_prefix_of(self@.slots),
                old(fillers)@.is_prefix_of(fillers@),
                forall|f: FaceId| #[trigger] self@.faces.dom().contains(f) <==> old(self)@.faces.dom().contains(f) || new_among(fillers@, start, f),
                forall|k: int| start <= k < fillers@.len() ==> !old(self)@.faces.dom().contains(#[trigger] fillers@[k]),
                forall|k: int| start <= k < fillers@.len() ==> #[trigger] fillers@[k] != wanted,
            decreases rounds,
        {
            rounds = rounds - 1;
            if !self.has_room(0, 0, 1) {
                return false;
            }
            let ghost before = self@;
            let ghost listed = fillers@;
            let index = self.index_to_face_id.len() as u32;
            let id = self.faces.insert(halfedge, index);
            let ghost was: nat = if cycling {
                turn
            } else {
                1
            };
            let ghost at: nat = if cycling {
                slot
            } else {
                made0 + filled
            };
            proof {
                if clean {
                    lemma_key_parts(at as u64, was as u64);
                    assert(id.raw == crate::arena::key_raw(at as u64, was as u64));
                    assert(self.face_keys().0 =~= Seq::<u64>::empty());
                }
            }
            if id == wanted {
                proof {
                    if clean {
                        assert(at == slot && was == generation);
                    }
                }
                self.index_to_face_id.push(id);
                proof {
                    assert forall|f: FaceId| #[trigger] self@.faces.dom().contains(f) implies {
                        &&& self@.faces[f].id == f
                        &&& (self@.faces[f].index as int) < self@.slots.len()
                        &&& self@.slots[self@.faces[f].index as int] == f
                    } by {
                        if f != id {
                            assert(before.faces.dom().contains(f));
                        }
                    }
                }
                return true;
            }
            self.faces.remove(id);
            proof {
                assert(self@.faces =~= before.faces);
                if clean {
                    assert(was < 0xFFFF_FFFF) by {
                        if cycling {
                            assert(was != generation) by {
                                if was == generation {
                                    assert(id.raw == wanted.raw);
                                }
                            }
                        }
                    }
                    lemma_bumped(at as u64, was as u64);
                    assert(self.face_keys().0 =~= seq![crate::arena::key_raw(at as u64, (was + 2) as u64)]);
                }
            }
            if slot_of(id.raw) > slot_of(wanted.raw) {
                return false;
            } else if slot_of(id.raw) < slot_of(wanted.raw) {
                // fill the slot, so that the arena moves on to the next
                let filler = self.faces.insert(halfedge, index);
                proof {
                    assert(filler.raw == crate::arena::bumped(id.raw));
                    lemma_bumped_slot(id.raw);
                    assert(filler != wanted);
                    if clean {
                        assert(self.face_keys().0 =~= Seq::<u64>::empty());
                        filled = filled + 1;
                    }
                }
                self.index_to_face_id.push(filler);
                proof {
                    assert forall|f: FaceId| #[trigger] self@.faces.dom().contains(f) implies {
                        &&& self@.faces[f].id == f
                        &&& (self@.faces[f].index as int) < self@.slots.len()
                        &&& self@.slots[self@.faces[f].index as int] == f
                    } by {
                        if f != filler {
                            assert(before.faces.dom().contains(f));
                        }
                    }
                }
                fillers.push(filler);
                proof {
                    assert forall|f: FaceId| #[trigger] self@.faces.dom().contains(f) <==> old(self)@.faces.dom().contains(f) || new_among(
                        fillers@,
                        start,
                        f,
                    ) by {
                        if new_among(listed, start, f) {
                            let k = choose|k: int| start <= k < listed.len() && listed[k] == f;
                            assert(fillers@[k] == f);
                        }
                        if new_among(fillers@, start, f) {
                            let k = choose|k: int| start <= k < fillers@.len() && fillers@[k] == f;
                            if k < listed.len() {
                                assert(listed[k] == f);
                            }
                        }
                        if f == filler {
                            assert(fillers@[listed.len() as int] == f);
                        }
                    }
                }
            } else if generation_of(id.raw) > generation_of(wanted.raw) {
                return false;
            } else {
                proof {
                    if clean {
                        assert(was != generation) by {
                            if was == generation {
                                assert(id.raw == wanted.raw);
                            }
                        }
                        cycling = true;
                        turn = was + 2;
                    }
                }
            }
        }
        false
    }

    /// Leads the halfedge arena, which has handed out nothing yet, to the identifiers of
    /// the halfedge records, one after the other, stores the records under them, and
    /// takes out again what filled the slots between them. Says whether the arena could
    /// be led to every identifier; stops at the first to which it cannot.
    #[verifier::rlimit(100)]
    pub(crate) fn restore_halfedges(&mut self, records: &MeshRecords) -> (done: bool)
        requires
            old(self).wf(),
            old(self)@.halfedges.dom().len() == 0,
            old(self).halfedge_keys() == (Seq::<u64>::empty(), 1nat),
        ensures
            final(self).wf(),
            final(self)@ == (MeshModel { halfedges: final(self)@.halfedges, ..old(self)@ }),
            final(self).vertex_keys() == old(self).vertex_keys(),
            final(self).face_keys() == old(self).face_keys(),
            done <==> led(records.halfedge_raws(), records.halfedges@.len()) is Some,
            done ==> final(self)@.halfedges_recorded(records.halfedges@),
    {
        let mut fillers: Vec<HalfedgeId> = Vec::new();
        let ghost raws = records.halfedge_raws();
        let ghost recs = records.halfedges@;
        proof {
            old(self)@.halfedges.dom().lemma_len0_is_empty();
        }
        let mut j: usize = 0;
        while j < records.halfedges.len()
            invariant
                j <= records.halfedges.len(),
                raws == records.halfedge_raws(),
                recs == records.halfedges@,
                self.wf(),
                self@ == (MeshModel { halfedges: self@.halfedges, ..old(self)@ }),
                self.vertex_keys() == old(self).vertex_keys(),
                self.face_keys() == old(self).face_keys(),
                self.halfedge_keys().0.len() == 0,
                led(raws, j as nat) == Some((self.halfedge_keys().1, self@.halfedges.dom().len())),
                forall|k: int| 0 <= k < j ==> self@.halfedges.dom().contains((#[trigger] recs[k]).id) && self@.halfedges[recs[k].id] == recs[k].halfedge,
                forall|a: int, b: int| 0 <= a < b < j ==> recs[a].id != recs[b].id,
                forall|h: HalfedgeId| #[trigger] self@.halfedges.dom().contains(h) <==> named_among(recs, j as int, h) || new_among(fillers@, 0, h),
                forall|k: int, q: int| 0 <= k < j && 0 <= q < fillers@.len() ==> #[trigger] fillers@[q] != (#[trigger] recs[k]).id,
            decreases records.halfedges.len() - j,
        {
            let record = records.halfedges[j];
            let ghost before = self@;
            let ghost listed = fillers@;
            let restored = self.restore_halfedge(record.id, record.halfedge, &mut fillers);
            proof {
                assert(raws[j as int] == record.id.raw);
            }
            if !restored {
                proof {
                    assert(led(raws, (j + 1) as nat) is None);
                    lemma_led_stays_lost(raws, (j + 1) as nat, raws.len());
                }
                return false;
            }
            proof {
                assert(led(raws, (j + 1) as nat) == Some((self.halfedge_keys().1, self@.halfedges.dom().len())));
                assert forall|h: HalfedgeId| #[trigger] self@.halfedges.dom().contains(h) <==> named_among(recs, j + 1, h) || new_among(fillers@, 0, h) by {
                    if named_among(recs, j as int, h) {
                        let k = choose|k: int| 0 <= k < j && (#[trigger] recs[k]).id == h;
                        assert(0 <= k < j + 1 && recs[k].id == h);
                    }
                    if named_among(recs, j + 1, h) {
                        let k = choose|k: int| 0 <= k < j + 1 && (#[trigger] recs[k]).id == h;
                        if k < j {
                            assert(named_among(recs, j as int, h));
                        }
                    }
                    if new_among(listed, 0, h) {
                        let q = choose|q: int| 0 <= q < listed.len() && listed[q] == h;
                        assert(fillers@[q] == h);
                    }
                    if new_among(fillers@, listed.len() as int, h) {
                        let q = choose|q: int| listed.len() <= q < fillers@.len() && fillers@[q] == h;
                        assert(0 <= q < fillers@.len() && fillers@[q] == h);
                    }
                    if new_among(fillers@, 0, h) {
                        let q = choose|q: int| 0 <= q < fillers@.len() && fillers@[q] == h;
                        if q < listed.len() {
                            assert(listed[q] == h);
                            assert(new_among(listed, 0, h));
                        } else {
                            assert(new_among(fillers@, listed.len() as int, h));
                        }
                    }
                    if h == record.id {
                        assert(recs[j as int].id == h);
                    }
                }
                assert forall|k: int, q: int| 0 <= k < j + 1 && 0 <= q < fillers@.len() implies #[trigger] fillers@[q] != (#[trigger] recs[k]).id by {
                    if q < listed.len() {
                        assert(fillers@[q] == listed[q]);
                        if k == j {
                            assert(new_among(listed, 0, listed[q]));
                            assert(before.halfedges.dom().contains(listed[q]));
                        }
                    } else {
                        if k < j {
                            assert(before.halfedges.dom().contains(recs[k].id));
                        }
                    }
                }
                assert forall|a: int, b: int| 0 <= a < b < j + 1 implies recs[a].id != recs[b].id by {
                    if b == j {
                        assert(before.halfedges.dom().contains(recs[a].id));
                    }
                }
            }
            j = j + 1;
        }
        let mut b: usize = 0;
        while b < fillers.len()
            invariant
                b <= fillers.len(),
                recs == records.halfedges@,
                self.wf(),
                self@ == (MeshModel { halfedges: self@.halfedges, ..old(self)@ }),
                self.vertex_keys() == old(self).vertex_keys(),
                self.face_keys() == old(self).face_keys(),
                forall|k: int| 0 <= k < recs.len() ==> self@.halfedges.dom().contains((#[trigger] recs[k]).id) && self@.halfedges[recs[k].id] == recs[k].halfedge,
                forall|a: int, b: int| 0 <= a < b < recs.len() ==> recs[a].id != recs[b].id,
                forall|h: HalfedgeId| #[trigger]
                    self@.halfedges.dom().contains(h) <==> named_among(recs, recs.len() as int, h) || (new_among(fillers@, 0, h) && !taken_among(
                        fillers@,
                        b as int,
                        h,
                    )),
                forall|k: int, q: int| 0 <= k < recs.len() && 0 <= q < fillers@.len() ==> #[trigger] fillers@[q] != (#[trigger] recs[k]).id,
            decreases fillers.len() - b,
        {
            let ghost before = self@;
            self.erase_halfedge(fillers[b]);
            proof {
                assert forall|h: HalfedgeId| #[trigger]
                    self@.halfedges.dom().contains(h) <==> named_among(recs, recs.len() as int, h) || (new_among(fillers@, 0, h) && !taken_among(
                        fillers@,
                        b + 1,
                        h,
                    )) by {
                    if taken_among(fillers@, b as int, h) {
                        let q = choose|q: int| 0 <= q < b && fillers@[q] == h;
                        assert(0 <= q < b + 1 && fillers@[q] == h);
                    }
                    if taken_among(fillers@, b + 1, h) {
                        let q = choose|q: int| 0 <= q < b + 1 && fillers@[q] == h;
                        if q < b {
                            assert(taken_among(fillers@, b as int, h));
                        }
                    }
                    if h == fillers@[b as int] {
                        assert(taken_among(fillers@, b + 1, h));
                        if named_among(recs, recs.len() as int, h) {
                            let k = choose|k: int| 0 <= k < recs.len() && (#[trigger] recs[k]).id == h;
                            assert(fillers@[b as int] != recs[k].id);
                        }
                    }
                }
            }
            b = b + 1;
        }
        proof {
            let ids = Seq::new(recs.len(), |k: int| recs[k].id);
            assert(ids.no_duplicates());
            assert(ids.to_set() =~= self@.halfedges.dom()) by {
                assert forall|h: HalfedgeId| ids.to_set().contains(h) implies self@.halfedges.dom().contains(h) by {
                    let k = choose|k: int| 0 <= k < ids.len() && ids[k] == h;
                    assert(recs[k].id == h);
                }
                assert forall|h: HalfedgeId| self@.halfedges.dom().contains(h) implies ids.to_set().contains(h) by {
                    if new_among(fillers@, 0, h) && !taken_among(fillers@, fillers@.len() as int, h) {
                        let q = choose|q: int| 0 <= q < fillers@.len() && fillers@[q] == h;
                        assert(taken_among(fillers@, fillers@.len() as int, h));
                    }
                    let k = choose|k: int| 0 <= k < recs.len() && (#[trigger] recs[k]).id == h;
                    assert(ids[k] == h);
                }
            }
            ids.unique_seq_to_set();
        }
        true
    }

    /// Leads the face arena, which has handed out nothing yet, to the identifiers of
    /// the face records, one after the other, stores the records under them, and
    /// takes out again what filled the slots between them. Says whether the arena could
    /// be led to every identifier; stops at the first to which it cannot.
    #[verifier::rlimit(100)]
    pub(crate) fn restore_faces(&mut self, records: &MeshRecords) -> (done: bool)
        requires
            old(self).wf(),
            old(self)@.faces.dom().len() == 0,
            old(self).face_keys() == (Seq::<u64>::empty(), 1nat),
            old(self)@.slots.len() == 0,
        ensures
            final(self).wf(),
            final(self)@ == (MeshModel { faces: final(self)@.faces, slots: final(self)@.slots, ..old(self)@ }),
            final(self).vertex_keys() == old(self).vertex_keys(),
            final(self).halfedge_keys() == old(self).halfedge_keys(),
            done <==> led(records.face_raws(), records.faces@.len()) is Some,
            done ==> final(self)@.faces_recorded(records.faces@),
    {
        let mut fillers: Vec<FaceId> = Vec::new();
        let ghost raws = records.face_raws();
        let ghost recs = records.faces@;
        proof {
            old(self)@.faces.dom().lemma_len0_is_empty();
        }
        let mut j: usize = 0;
        while j < records.faces.len()
            invariant
                j <= records.faces.len(),
                raws == records.face_raws(),
                recs == records.faces@,
                self.wf(),
                self@ == (MeshModel { faces: self@.faces, slots: self@.slots, ..old(self)@ }),
                self.vertex_keys() == old(self).vertex_keys(),
                self.halfedge_keys() == old(self).halfedge_keys(),
                self.face_keys().0.len() == 0,
                self@.slots.len() == self@.faces.dom().len(),
                led(raws, j as nat) == Some((self.face_keys().1, self@.faces.dom().len())),
                forall|k: int| 0 <= k < j ==> self@.faces.dom().contains((#[trigger] recs[k]).id) && self@.faces[recs[k].id].halfedge == recs[k].halfedge,
                forall|a: int, b: int| 0 <= a < b < j ==> recs[a].id != recs[b].id,
                forall|h: FaceId| #[trigger] self@.faces.dom().contains(h) <==> face_named_among(recs, j as int, h) || new_among(fillers@, 0, h),
                forall|k: int, q: int| 0 <= k < j && 0 <= q < fillers@.len() ==> #[trigger] fillers@[q] != (#[trigger] recs[k]).id,
            decreases records.faces.len() - j,
        {
            let record = records.faces[j];
            let ghost before = self@;
            let ghost listed = fillers@;
            let restored = self.restore_face(record.id, record.halfedge, &mut fillers);
            proof {
                assert(raws[j as int] == record.id.raw);
            }
            if !restored {
                proof {
                    assert(led(raws, (j + 1) as nat) is None);
                    lemma_led_stays_lost(raws, (j + 1) as nat, raws.len());
                }
                return false;
            }
            proof {
                assert(led(raws, (j + 1) as nat) == Some((self.face_keys().1, self@.faces.dom().len())));
                assert forall|h: FaceId| #[trigger] self@.faces.dom().contains(h) <==> face_named_among(recs, j + 1, h) || new_among(fillers@, 0, h) by {
                    if face_named_among(recs, j as int, h) {
                        let k = choose|k: int| 0 <= k < j && (#[trigger] recs[k]).id == h;
                        assert(0 <= k < j + 1 && recs[k].id == h);
                    }
                    if face_named_among(recs, j + 1, h) {
                        let k = choose|k: int| 0 <= k < j + 1 && (#[trigger] recs[k]).id == h;
                        if k < j {
                            assert(face_named_among(recs, j as int, h));
                        }
                    }
                    if new_among(listed, 0, h) {
                        let q = choose|q: int| 0 <= q < listed.len() && listed[q] == h;
                        assert(fillers@[q] == h);
                    }
                    if new_among(fillers@, listed.len() as int, h) {
                        let q = choose|q: int| listed.len() <= q < fillers@.len() && fillers@[q] == h;
                        assert(0 <= q < fillers@.len() && fillers@[q] == h);
                    }
                    if new_among(fillers@, 0, h) {
                        let q = choose|q: int| 0 <= q < fillers@.len() && fillers@[q] == h;
                        if q < listed.len() {
                            assert(listed[q] == h);
                            assert(new_among(listed, 0, h));
                        } else {
                            assert(new_among(fillers@, listed.len() as int, h));
                        }
                    }
                    if h == record.id {
                        assert(recs[j as int].id == h);
                    }
                }
                assert forall|k: int, q: int| 0 <= k < j + 1 && 0 <= q < fillers@.len() implies #[trigger] fillers@[q] != (#[trigger] recs[k]).id by {
                    if q < listed.len() {
                        assert(fillers@[q] == listed[q]);
                        if k == j {
                            assert(new_among(listed, 0, listed[q]));
                            assert(before.faces.dom().contains(listed[q]));
                        }
                    } else {
                        if k < j {
                            assert(before.faces.dom().contains(recs[k].id));
                        }
                    }
                }
                assert forall|a: int, b: int| 0 <= a < b < j + 1 implies recs[a].id != recs[b].id by {
                    if b == j {
                        assert(before.faces.dom().contains(recs[a].id));
                    }
                }
            }
            j = j + 1;
        }
        let mut b: usize = 0;
        while b < fillers.len()
            invariant
                b <= fillers.len(),
                recs == records.faces@,
                self.wf(),
                self@ == (MeshModel { faces: self@.faces, slots: self@.slots, ..old(self)@ }),
                self.vertex_keys() == old(self).vertex_keys(),
                self.halfedge_keys() == old(self).halfedge_keys(),
                forall|k: int| 0 <= k < recs.len() ==> self@.faces.dom().contains((#[trigger] recs[k]).id) && self@.faces[recs[k].id].halfedge == recs[k].halfedge,
                forall|a: int, b: int| 0 <= a < b < recs.len() ==> recs[a].id != recs[b].id,
                forall|h: FaceId| #[trigger]
                    self@.faces.dom().contains(h) <==> face_named_among(recs, recs.len() as int, h) || (new_among(fillers@, 0, h) && !taken_among(
                        fillers@,
                        b as int,
                        h,
                    )),
                forall|k: int, q: int| 0 <= k < recs.len() && 0 <= q < fillers@.len() ==> #[trigger] fillers@[q] != (#[trigger] recs[k]).id,
            decreases fillers.len() - b,
        {
            let ghost before = self@;
            self.erase_face(fillers[b]);
            proof {
                assert forall|h: FaceId| #[trigger]
                    self@.faces.dom().contains(h) <==> face_named_among(recs, recs.len() as int, h) || (new_among(fillers@, 0, h) && !taken_among(
                        fillers@,
                        b + 1,
                        h,
                    )) by {
                    if taken_among(fillers@, b as int, h) {
                        let q = choose|q: int| 0 <= q < b && fillers@[q] == h;
                        assert(0 <= q < b + 1 && fillers@[q] == h);
                    }
                    if taken_among(fillers@, b + 1, h) {
                        let q = choose|q: int| 0 <= q < b + 1 && fillers@[q] == h;
                        if q < b {
                            assert(taken_among(fillers@, b as int, h));
                        }
                    }
                    if h == fillers@[b as int] {
                        assert(taken_among(fillers@, b + 1, h));
                        if face_named_among(recs, recs.len() as int, h) {
                            let k = choose|k: int| 0 <= k < recs.len() && (#[trigger] recs[k]).id == h;
                            assert(fillers@[b as int] != recs[k].id);
                        }
                    }
                }
            }
            b = b + 1;
        }
        proof {
            let ids = Seq::new(recs.len(), |k: int| recs[k].id);
            assert(ids.no_duplicates());
            assert(ids.to_set() =~= self@.faces.dom()) by {
                assert forall|h: FaceId| ids.to_set().contains(h) implies self@.faces.dom().contains(h) by {
                    let k = choose|k: int| 0 <= k < ids.len() && ids[k] == h;
                    assert(recs[k].id == h);
                }
                assert forall|h: FaceId| self@.faces.dom().contains(h) implies ids.to_set().contains(h) by {
                    if new_among(fillers@, 0, h) && !taken_among(fillers@, fillers@.len() as int, h) {
                        let q = choose|q: int| 0 <= q < fillers@.len() && fillers@[q] == h;
                        assert(taken_among(fillers@, fillers@.len() as int, h));
                    }
                    let k = choose|k: int| 0 <= k < recs.len() && (#[trigger] recs[k]).id == h;
                    assert(ids[k] == h);
                }
            }
            ids.unique_seq_to_set();
        }
        true
    }

    /// Leads the vertex arena, which has handed out nothing yet, to the identifiers of
    /// the vertex records, one after the other, stores the records under them, and takes
    /// out again what filled the slots between them. Says whether the arena could be led
    /// to every identifier and no record has a normal where none are kept; stops at the
    /// first record for which that is not so.
    #[verifier::rlimit(100)]
    pub(crate) fn restore_vertices(&mut self, records: &MeshRecords) -> (done: bool)
        requires
            old(self).wf(),
            old(self)@.vertices.dom().len() == 0,
            old(self).vertex_keys() == (Seq::<u64>::empty(), 1nat),
            (old(self)@.normals is Some) == records.with_normals,
            old(self)@.halfedges.dom().len() == 0,
            old(self)@.faces.dom().len() == 0,
            old(self)@.slots.len() == 0,
            old(self)@.normals is Some ==> old(self)@.normals->0.dom().len() == 0,
        ensures
            final(self).wf(),
            final(self)@.halfedges == old(self)@.halfedges,
            final(self)@.faces == old(self)@.faces,
            final(self)@.slots == old(self)@.slots,
            (final(self)@.normals is Some) == (old(self)@.normals is Some),
            final(self).halfedge_keys() == old(self).halfedge_keys(),
            final(self).face_keys() == old(self).face_keys(),
            done <==> led(records.vertex_raws(), records.vertices@.len()) is Some && records.normals_fit(),
            done ==> final(self)@.vertices_recorded(records.vertices@),
    {
        let mut fillers: Vec<VertexId> = Vec::new();
        let ghost raws = records.vertex_raws();
        let ghost recs = records.vertices@;
        proof {
            old(self)@.vertices.dom().lemma_len0_is_empty();
        }
        let mut j: usize = 0;
        while j < records.vertices.len()
            invariant
                j <= records.vertices.len(),
                raws == records.vertex_raws(),
                recs == records.vertices@,
                self.wf(),
                self@.halfedges == old(self)@.halfedges,
                self@.faces == old(self)@.faces,
                self@.slots == old(self)@.slots,
                (self@.normals is Some) == records.with_normals,
                (old(self)@.normals is Some) == records.with_normals,
                old(self)@.halfedges.dom().len() == 0,
                old(self)@.faces.dom().len() == 0,
                old(self)@.slots.len() == 0,
                self.halfedge_keys() == old(self).halfedge_keys(),
                self.face_keys() == old(self).face_keys(),
                self.vertex_keys().0.len() == 0,
                led(raws, j as nat) == Some((self.vertex_keys().1, self@.vertices.dom().len())),
                forall|k: int| 0 <= k < j ==> self@.kept_as(#[trigger] recs[k]),
                forall|k: int| 0 <= k < j && (#[trigger] recs[k]).normal is Some ==> records.with_normals,
                forall|a: int, b: int| 0 <= a < b < j ==> recs[a].id != recs[b].id,
                forall|h: VertexId| #[trigger] self@.vertices.dom().contains(h) <==> vertex_named_among(recs, j as int, h) || new_among(fillers@, 0, h),
                forall|k: int, q: int| 0 <= k < j && 0 <= q < fillers@.len() ==> #[trigger] fillers@[q] != (#[trigger] recs[k]).id,
            decreases records.vertices.len() - j,
        {
            let record = &records.vertices[j];
            if record.normal.is_some() && !records.with_normals {
                return false;
            }
            let ghost before = self@;
            let ghost listed = fillers@;
            let restored = self.restore_vertex(record.id, &record.position, &mut fillers);
            proof {
                assert(raws[j as int] == record.id.raw);
            }
            if !restored {
                proof {
                    assert(led(raws, (j + 1) as nat) is None);
                    lemma_led_stays_lost(raws, (j + 1) as nat, raws.len());
                }
                return false;
            }
            let ghost led_to = self@;
            self.set_vertex(record.id, record.vertex);
            match &record.normal {
                Some(normal) => {
                    self.set_vertex_normal(record.id, copy_point(normal));
                },
                None => {},
            }
            proof {
                assert(self@.vertices.dom() =~= led_to.vertices.dom());
                assert(!before.vertices.dom().contains(record.id));
                assert(self@.kept_as(recs[j as int]));
                assert forall|k: int| 0 <= k < j implies self@.kept_as(#[trigger] recs[k]) by {
                    assert(before.kept_as(recs[k]));
                    assert(recs[k].id != record.id);
                }
                assert(led(raws, (j + 1) as nat) == Some((self.vertex_keys().1, self@.vertices.dom().len())));
                assert forall|h: VertexId| #[trigger] self@.vertices.dom().contains(h) <==> vertex_named_among(recs, j + 1, h) || new_among(fillers@, 0, h) by {
                    if vertex_named_among(recs, j as int, h) {
                        let k = choose|k: int| 0 <= k < j && (#[trigger] recs[k]).id == h;
                        assert(0 <= k < j + 1 && recs[k].id == h);
                    }
                    if vertex_named_among(recs, j + 1, h) {
                        let k = choose|k: int| 0 <= k < j + 1 && (#[trigger] recs[k]).id == h;
                        if k < j {
                            assert(vertex_named_among(recs, j as int, h));
                        }
                    }
                    if new_among(listed, 0, h) {
                        let q = choose|q: int| 0 <= q < listed.len() && listed[q] == h;
                        assert(fillers@[q] == h);
                    }
                    if new_among(fillers@, listed.len() as int, h) {
                        let q = choose|q: int| listed.len() <= q < fillers@.len() && fillers@[q] == h;
                        assert(0 <= q < fillers@.len() && fillers@[q] == h);
                    }
                    if new_among(fillers@, 0, h) {
                        let q = choose|q: int| 0 <= q < fillers@.len() && fillers@[q] == h;
                        if q < listed.len() {
                            assert(listed[q] == h);
                            assert(new_among(listed, 0, h));
                        } else {
                            assert(new_among(fillers@, listed.len() as int, h));
                        }
                    }
                    if h == record.id {
                        assert(recs[j as int].id == h);
                    }
                }
                assert forall|k: int, q: int| 0 <= k < j + 1 && 0 <= q < fillers@.len() implies #[trigger] fillers@[q] != (#[trigger] recs[k]).id by {
                    if q < listed.len() {
                        assert(fillers@[q] == listed[q]);
                        if k == j {
                            assert(new_among(listed, 0, listed[q]));
                            assert(before.vertices.dom().contains(listed[q]));
                        }
                    } else {
                        if k < j {
                            assert(before.vertices.dom().contains(recs[k].id));
                        }
                    }
                }
                assert forall|a: int, b: int| 0 <= a < b < j + 1 implies recs[a].id != recs[b].id by {
                    if b == j {
                        assert(before.vertices.dom().contains(recs[a].id));
                    }
                }
            }
            j = j + 1;
        }
        let mut b: usize = 0;
        while b < fillers.len()
            invariant
                b <= fillers.len(),
                recs == records.vertices@,
                self.wf(),
                self@.halfedges == old(self)@.halfedges,
                self@.faces == old(self)@.faces,
                self@.slots == old(self)@.slots,
                (self@.normals is Some) == records.with_normals,
                (old(self)@.normals is Some) == records.with_normals,
                old(self)@.halfedges.dom().len() == 0,
                old(self)@.faces.dom().len() == 0,
                old(self)@.slots.len() == 0,
                self.halfedge_keys() == old(self).halfedge_keys(),
                self.face_keys() == old(self).face_keys(),
                forall|k: int| 0 <= k < recs.len() ==> self@.kept_as(#[trigger] recs[k]),
                forall|a: int, b: int| 0 <= a < b < recs.len() ==> recs[a].id != recs[b].id,
                forall|h: VertexId| #[trigger]
                    self@.vertices.dom().contains(h) <==> vertex_named_among(recs, recs.len() as int, h) || (new_among(fillers@, 0, h) && !taken_among(
                        fillers@,
                        b as int,
                        h,
                    )),
                forall|k: int, q: int| 0 <= k < recs.len() && 0 <= q < fillers@.len() ==> #[trigger] fillers@[q] != (#[trigger] recs[k]).id,
            decreases fillers.len() - b,
        {
            let ghost before = self@;
            self.delete_only_vertex(fillers[b]);
            proof {
                assert forall|k: int| 0 <= k < recs.len() implies self@.kept_as(#[trigger] recs[k]) by {
                    assert(before.kept_as(recs[k]));
                    assert(fillers@[b as int] != recs[k].id);
                }
                assert forall|h: VertexId| #[trigger]
                    self@.vertices.dom().contains(h) <==> vertex_named_among(recs, recs.len() as int, h) || (new_among(fillers@, 0, h) && !taken_among(
                        fillers@,
                        b + 1,
                        h,
                    )) by {
                    if taken_among(fillers@, b as int, h) {
                        let q = choose|q: int| 0 <= q < b && fillers@[q] == h;
                        assert(0 <= q < b + 1 && fillers@[q] == h);
                    }
                    if taken_among(fillers@, b + 1, h) {
                        let q = choose|q: int| 0 <= q < b + 1 && fillers@[q] == h;
                        if q < b {
                            assert(taken_among(fillers@, b as int, h));
                        }
                    }
                    if h == fillers@[b as int] {
                        assert(taken_among(fillers@, b + 1, h));
                        if vertex_named_among(recs, recs.len() as int, h) {
                            let k = choose|k: int| 0 <= k < recs.len() && (#[trigger] recs[k]).id == h;
                            assert(fillers@[b as int] != recs[k].id);
                        }
                    }
                }
            }
            b = b + 1;
        }
        proof {
            let ids = Seq::new(recs.len(), |k: int| recs[k].id);
            assert(ids.no_duplicates());
            assert(ids.to_set() =~= self@.vertices.dom()) by {
                assert forall|h: VertexId| ids.to_set().contains(h) implies self@.vertices.dom().contains(h) by {
                    let k = choose|k: int| 0 <= k < ids.len() && ids[k] == h;
                    assert(recs[k].id == h);
                }
                assert forall|h: VertexId| self@.vertices.dom().contains(h) implies ids.to_set().contains(h) by {
                    if new_among(fillers@, 0, h) && !taken_among(fillers@, fillers@.len() as int, h) {
                        let q = choose|q: int| 0 <= q < fillers@.len() && fillers@[q] == h;
                        assert(taken_among(fillers@, fillers@.len() as int, h));
                    }
                    let k = choose|k: int| 0 <= k < recs.len() && (#[trigger] recs[k]).id == h;
                    assert(ids[k] == h);
                }
            }
            ids.unique_seq_to_set();
        }
        true
    }

    /// Puts a mesh together from its records, every element under the identifier it
    /// had. The lists of outgoing halfedges are made from the halfedges, each listed
    /// with the vertex it starts at; the faces are given new slots of the spatial
    /// index, and the spatial index is built.
    ///
    /// Gives nothing where an arena cannot be led to an identifier of the records, or
    /// a vertex record has a normal though none are kept. An arena, which starts
    /// empty, is led to a key by filling the slots before the slot of the key and by
    /// taking the slot again and again until it has the generation of the key. So the
    /// records of each kind must come in the order of their slots, no identifier may be
    /// the placeholder or occur twice, and the rounds and the room of the arena must
    /// suffice.
    #[verifier::rlimit(50)]
    pub fn from_records(records: &MeshRecords) -> (restored: Option<MeshGraph>)
        ensures
            restored is Some <==> records.restorable(),
            records.is_empty() ==> restored is Some,
            restored is Some ==> {
                let mesh = restored->0;
                &&& mesh.wf()
                &&& mesh@.vertices_recorded(records.vertices@)
                &&& mesh@.halfedges_recorded(records.halfedges@)
                &&& mesh@.faces_recorded(records.faces@)
                &&& (mesh@.normals is Some) == records.with_normals
                &&& mesh@.listed_by_start()
                &&& mesh@.slots.no_duplicates()
                &&& mesh@.slots.to_set() == mesh@.faces.dom()
                &&& exists|order: Seq<FaceId>| #[trigger] mesh@.bounds_filed(order, mesh.filed())
            },
    {
        let mut mesh = MeshGraph::new();
        if records.with_normals {
            mesh.vertex_normals = Some(VectorMap::new());
        }
        proof {
            if records.is_empty() {
                assert(records.restorable());
            }
        }
        if !mesh.restore_vertices(records) {
            return None;
        }
        if !mesh.restore_halfedges(records) {
            return None;
        }
        if !mesh.restore_faces(records) {
            return None;
        }
        mesh.relist_outgoing_halfedges();
        if !mesh.matches_records(records) {
            return None;
        }
        mesh.rebuild_qbvh();
        Some(mesh)
    }

    /// Makes the lists of outgoing halfedges anew: every live halfedge whose start is
    /// a live vertex is listed with that vertex.
    pub(crate) fn relist_outgoing_halfedges(&mut self)
        requires
            old(self).wf(),
        ensures
            final(self).wf(),
            final(self)@ == (MeshModel { outgoing: final(self)@.outgoing, ..old(self)@ }),
            final(self)@.listed_by_start(),
    {
        let vertex_ids = self.vertex_ids();
        let mut v: usize = 0;
        while v < vertex_ids.len()
            invariant
                v <= vertex_ids.len(),
                self.wf(),
                self@ == (MeshModel { outgoing: self@.outgoing, ..old(self)@ }),
                vertex_ids@.to_set() == self@.vertices.dom(),
                forall|k: int| 0 <= k < v ==> self@.outgoing[#[trigger] vertex_ids@[k]].len() == 0,
            decreases vertex_ids.len() - v,
        {
            let ghost before = self@;
            self.set_outgoing_halfedge_list(vertex_ids[v], Vec::new());
            proof {
                assert forall|k: int| 0 <= k < v + 1 implies self@.outgoing[#[trigger] vertex_ids@[k]].len() == 0 by {
                    assert(vertex_ids@.to_set().contains(vertex_ids@[k]));
                    assert(vertex_ids@.to_set().contains(vertex_ids@[v as int]));
                    if k < v && vertex_ids@[k] != vertex_ids@[v as int] {
                        assert(before.outgoing[vertex_ids@[k]].len() == 0);
                    }
                }
            }
            v = v + 1;
        }
        proof {
            assert forall|w: VertexId| #[trigger] self@.vertices.dom().contains(w) implies self@.outgoing[w].len() == 0 by {
                assert(vertex_ids@.to_set().contains(w));
                let k = choose|k: int| 0 <= k < vertex_ids@.len() && vertex_ids@[k] == w;
                assert(self@.outgoing[vertex_ids@[k]].len() == 0);
            }
        }
        let halfedge_ids = self.halfedge_ids();
        let mut h: usize = 0;
        while h < halfedge_ids.len()
            invariant
                h <= halfedge_ids.len(),
                self.wf(),
                self@ == (MeshModel { outgoing: self@.outgoing, ..old(self)@ }),
                halfedge_ids@.no_duplicates(),
                halfedge_ids@.to_set() == self@.halfedges.dom(),
                forall|w: VertexId| #[trigger] self@.vertices.dom().contains(w) ==> self@.outgoing[w].no_duplicates(),
                forall|w: VertexId, he: HalfedgeId|
                    self@.vertices.dom().contains(w) ==> (#[trigger] self@.outgoing[w].contains(he) <==> self@.start_of(he) == Some(w) && exists|k: int|
                        0 <= k < h && halfedge_ids@[k] == he),
            decreases halfedge_ids.len() - h,
        {
            let ghost before = self@;
            let he_id = halfedge_ids[h];
            let start = match self.halfedge(he_id) {
                Some(he) => he.start_vertex(self),
                None => None,
            };
            match start {
                Some(start) => match self.outgoing_halfedge_list(start) {
                    Some(list) => {
                        let mut list = list;
                        proof {
                            assert(!list@.contains(he_id)) by {
                                if before.outgoing[start].contains(he_id) {
                                    let k = choose|k: int| 0 <= k < h && halfedge_ids@[k] == he_id;
                                    assert(halfedge_ids@[k] == halfedge_ids@[h as int]);
                                }
                            }
                        }
                        list.push(he_id);
                        self.set_outgoing_halfedge_list(start, list);
                        proof {
                            assert(self@.outgoing[start] == before.outgoing[start].push(he_id));
                            assert forall|he: HalfedgeId| #[trigger] self@.outgoing[start].contains(he) <==> (before.outgoing[start].contains(he) || he == he_id) by {
                                if self@.outgoing[start].contains(he) {
                                    let q = choose|q: int| 0 <= q < self@.outgoing[start].len() && self@.outgoing[start][q] == he;
                                    if q < before.outgoing[start].len() {
                                        assert(before.outgoing[start][q] == he);
                                    }
                                }
                                if before.outgoing[start].contains(he) {
                                    let q = choose|q: int| 0 <= q < before.outgoing[start].len() && before.outgoing[start][q] == he;
                                    assert(self@.outgoing[start][q] == he);
                                }
                                if he == he_id {
                                    assert(self@.outgoing[start][before.outgoing[start].len() as int] == he);
                                }
                            }
                        }
                    },
                    None => {},
                },
                None => {},
            }
            proof {
                assert forall|w: VertexId, he: HalfedgeId| self@.vertices.dom().contains(w) implies (#[trigger] self@.outgoing[w].contains(he)
                    <==> self@.start_of(he) == Some(w) && exists|k: int| 0 <= k < h + 1 && halfedge_ids@[k] == he) by {
                    if before.outgoing[w].contains(he) {
                        let k = choose|k: int| 0 <= k < h && halfedge_ids@[k] == he;
                        assert(0 <= k < h + 1 && halfedge_ids@[k] == he);
                    }
                    if self@.start_of(he) == Some(w) && exists|k: int| 0 <= k < h + 1 && halfedge_ids@[k] == he {
                        let k = choose|k: int| 0 <= k < h + 1 && halfedge_ids@[k] == he;
                        if k < h {
                            assert(before.outgoing[w].contains(he));
                        } else {
                            assert(he == he_id);
                        }
                    }
                }
            }
            h = h + 1;
        }
        proof {
            assert forall|w: VertexId, he: HalfedgeId| self@.vertices.dom().contains(w) implies (#[trigger] self@.outgoing[w].contains(he)
                <==> self@.halfedges.dom().contains(he) && self@.start_of(he) == Some(w)) by {
                if self@.halfedges.dom().contains(he) {
                    assert(halfedge_ids@.to_set().contains(he));
                    let k = choose|k: int| 0 <= k < halfedge_ids@.len() && halfedge_ids@[k] == he;
                    assert(halfedge_ids@[k] == he);
                }
                if self@.outgoing[w].contains(he) {
                    let k = choose|k: int| 0 <= k < h && halfedge_ids@[k] == he;
                    assert(halfedge_ids@.to_set().contains(halfedge_ids@[k]));
                }
            }
        }
    }

    /// Whether the mesh holds exactly the elements of the records.
    #[verifier::rlimit(50)]
    pub(crate) fn matches_records(&self, records: &MeshRecords) -> (matches: bool)
        requires
            self.wf(),
        ensures
            matches == (self@.vertices_recorded(records.vertices@) && self@.halfedges_recorded(records.halfedges@) && self@.faces_recorded(
                records.faces@,
            )),
    {
        if self.vertex_count() != records.vertices.len() || self.halfedge_count() != records.halfedges.len() || self.face_count()
            != records.faces.len() {
            return false;
        }
        let mut i: usize = 0;
        while i < records.vertices.len()
            invariant
                i <= records.vertices.len(),
                self.wf(),
                forall|a: int, b: int| 0 <= a < b < i ==> records.vertices@[a].id != records.vertices@[b].id,
                forall|k: int| 0 <= k < i ==> {
                    let r = #[trigger] records.vertices@[k];
                    &&& self@.vertices.dom().contains(r.id)
                    &&& self@.vertices[r.id] == r.vertex
                    &&& alike(self@.positions[r.id], r.position)
                    &&& alike_or_absent(
                        r.normal,
                        match self@.normals {
                            Some(normals) => normals.get(r.id),
                            None => None,
                        },
                    )
                },
            decreases records.vertices.len() - i,
        {
            let record = &records.vertices[i];
            let mut k: usize = 0;
            while k < i
                invariant
                    k <= i,
                    i < records.vertices.len(),
                    record.id == records.vertices@[i as int].id,
                    forall|a: int| 0 <= a < k ==> records.vertices@[a].id != records.vertices@[i as int].id,
                decreases i - k,
            {
                if records.vertices[k].id == record.id {
                    return false;
                }
                k = k + 1;
            }
            let same = match (self.vertex(record.id), self.position(record.id)) {
                (Some(vertex), Some(position)) => {
                    let canonical = crate::ops::delete::same_halfedge(vertex.outgoing_halfedge, record.vertex.outgoing_halfedge);
                    let placed = identical(&position, &record.position);
                    let normal = match (self.vertex_normal(record.id), &record.normal) {
                        (Some(mine), Some(kept)) => identical(&mine, kept),
                        (None, None) => true,
                        _ => false,
                    };
                    canonical && placed && normal
                },
                _ => false,
            };
            if !same {
                return false;
            }
            i = i + 1;
        }
        let mut j: usize = 0;
        while j < records.halfedges.len()
            invariant
                j <= records.halfedges.len(),
                self.wf(),
                forall|a: int, b: int| 0 <= a < b < j ==> records.halfedges@[a].id != records.halfedges@[b].id,
                forall|k: int| 0 <= k < j ==> self@.halfedges.dom().contains((#[trigger] records.halfedges@[k]).id) && self@.halfedges[records.halfedges@[k].id]
                    == records.halfedges@[k].halfedge,
            decreases records.halfedges.len() - j,
        {
            let record = records.halfedges[j];
            let mut k: usize = 0;
            while k < j
                invariant
                    k <= j,
                    j < records.halfedges.len(),
                    record == records.halfedges@[j as int],
                    forall|a: int| 0 <= a < k ==> records.halfedges@[a].id != record.id,
                decreases j - k,
            {
                if records.halfedges[k].id == record.id {
                    return false;
                }
                k = k + 1;
            }
            match self.halfedge(record.id) {
                Some(he) => {
                    if he != record.halfedge {
                        return false;
                    }
                },
                None => {
                    return false;
                },
            }
            j = j + 1;
        }
        let mut f: usize = 0;
        while f < records.faces.len()
            invariant
                f <= records.faces.len(),
                self.wf(),
                forall|a: int, b: int| 0 <= a < b < f ==> records.faces@[a].id != records.faces@[b].id,
                forall|k: int| 0 <= k < f ==> self@.faces.dom().contains((#[trigger] records.faces@[k]).id) && self@.faces[records.faces@[k].id].halfedge
                    == records.faces@[k].halfedge,
            decreases records.faces.len() - f,
        {
            let record = records.faces[f];
            let mut k: usize = 0;
            while k < f
                invariant
                    k <= f,
                    f < records.faces.len(),
                    record == records.faces@[f as int],
                    forall|a: int| 0 <= a < k ==> records.faces@[a].id != record.id,
                decreases f - k,
            {
                if records.faces[k].id == record.id {
                    return false;
                }
                k = k + 1;
            }
            match self.face(record.id) {
                Some(face) => {
                    if face.halfedge != record.halfedge {
                        return false;
                    }
                },
                None => {
                    return false;
                },
            }
            f = f + 1;
        }
        true
    }
}

} // verus!
