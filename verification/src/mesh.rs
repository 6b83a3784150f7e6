//! The mesh container and its mathematical model.

use vstd::prelude::*;
use crate::arena::{face_slots, halfedge_slots, vertex_slots, FaceArena, HalfedgeArena, VertexArena, ARENA_LIMIT};
use crate::elements::{Face, Halfedge, Vertex};
use crate::ids::{FaceId, HalfedgeId, VertexId, SLOT_MASK};
use crate::secondary::{adjacency_slots, vector_slots, AdjacencyMap, VectorMap};
use crate::spatial::SpatialIndex;

verus! {

/// A triangle mesh in halfedge form.
///
/// The three arenas own the elements; positions, normals and the full lists of outgoing
/// halfedges are kept per vertex; the slot table maps a slot of the spatial index back
/// to the face that was given it.
pub struct MeshGraph {
    pub(crate) vertices: VertexArena,
    pub(crate) halfedges: HalfedgeArena,
    pub(crate) faces: FaceArena,
    pub(crate) positions: VectorMap,
    pub(crate) vertex_normals: Option<VectorMap>,
    pub(crate) outgoing_halfedges: AdjacencyMap,
    pub(crate) index_to_face_id: Vec<FaceId>,
    pub(crate) bvh: SpatialIndex,
}

/// What a mesh is, as mathematics: its elements by identifier, the per-vertex tables,
/// and the table of face slots. The next free slot of the spatial index is the length of
/// `slots`.
pub struct MeshModel {
    pub vertices: Map<VertexId, Vertex>,
    pub halfedges: Map<HalfedgeId, Halfedge>,
    pub faces: Map<FaceId, Face>,
    pub positions: Map<VertexId, glam::Vec3>,
    pub normals: Option<Map<VertexId, glam::Vec3>>,
    pub outgoing: Map<VertexId, Seq<HalfedgeId>>,
    pub slots: Seq<FaceId>,
}

impl MeshModel {
    /// The bookkeeping that every operation keeps, also in the middle of an edit:
    /// identifiers are well formed, every live vertex has a position and a list of
    /// outgoing halfedges and nothing else has, normals belong to live vertices, and
    /// every live face records its own identifier and owns its slot.
    ///
    /// Nothing is said here of how halfedges are linked: links may dangle while an
    /// algorithm runs, and every lookup checks for that.
    pub open spec fn wf(self) -> bool {
        &&& self.vertices.dom().finite()
        &&& self.halfedges.dom().finite()
        &&& self.faces.dom().finite()
        &&& self.vertices.dom().len() <= ARENA_LIMIT
        &&& self.halfedges.dom().len() <= ARENA_LIMIT
        &&& self.faces.dom().len() <= ARENA_LIMIT
        &&& forall|v: VertexId| #[trigger] self.vertices.dom().contains(v) ==> v.canonical() && v.slot() != SLOT_MASK
        &&& forall|h: HalfedgeId| #[trigger] self.halfedges.dom().contains(h) ==> h.canonical() && h.slot() != SLOT_MASK
        &&& forall|f: FaceId| #[trigger] self.faces.dom().contains(f) ==> f.canonical() && f.slot() != SLOT_MASK
        &&& forall|v: VertexId, w: VertexId| #[trigger] self.vertices.dom().contains(v) && #[trigger] self.vertices.dom().contains(w) && v.slot() == w.slot() ==> v == w
        &&& self.positions.dom() == self.vertices.dom()
        &&& self.outgoing.dom() == self.vertices.dom()
        &&& self.normals is Some ==> self.normals->0.dom().subset_of(self.vertices.dom())
        &&& self.slots.len() <= u32::MAX
        &&& forall|f: FaceId| #[trigger] self.faces.dom().contains(f) ==> {
                &&& self.faces[f].id == f
                &&& (self.faces[f].index as int) < self.slots.len()
                &&& self.slots[self.faces[f].index as int] == f
            }
    }

    /// Whether the arenas and the slot table can still take this many new vertices,
    /// halfedges and faces. The arenas are limited to `ARENA_LIMIT` elements each, the
    /// slot table to `u32::MAX` entries.
    pub open spec fn has_room(self, vertices: nat, halfedges: nat, faces: nat) -> bool {
        &&& self.vertices.dom().len() + vertices <= ARENA_LIMIT
        &&& self.halfedges.dom().len() + halfedges <= ARENA_LIMIT
        &&& self.faces.dom().len() + faces <= ARENA_LIMIT
        &&& self.slots.len() + faces <= u32::MAX
    }

    /// The mesh with the record of the live vertex `id` replaced; unchanged where `id`
    /// is not live.
    pub open spec fn put_vertex(self, id: VertexId, vertex: Vertex) -> MeshModel {
        if self.vertices.dom().contains(id) {
            MeshModel { vertices: self.vertices.insert(id, vertex), ..self }
        } else {
            self
        }
    }

    /// The mesh with the record of the live halfedge `id` replaced; unchanged where
    /// `id` is not live.
    pub open spec fn put_halfedge(self, id: HalfedgeId, halfedge: Halfedge) -> MeshModel {
        if self.halfedges.dom().contains(id) {
            MeshModel { halfedges: self.halfedges.insert(id, halfedge), ..self }
        } else {
            self
        }
    }

    /// The mesh with `canonical` as the canonical outgoing halfedge of the live vertex
    /// `id`; unchanged where `id` is not live.
    pub open spec fn put_canonical(self, id: VertexId, canonical: Option<HalfedgeId>) -> MeshModel {
        self.put_vertex(id, Vertex { outgoing_halfedge: canonical })
    }

    /// The mesh with `twin` as the twin of the live halfedge `id`.
    pub open spec fn put_twin(self, id: HalfedgeId, twin: Option<HalfedgeId>) -> MeshModel {
        if self.halfedges.dom().contains(id) {
            self.put_halfedge(id, Halfedge { twin, ..self.halfedges[id] })
        } else {
            self
        }
    }

    /// The mesh with `next` as the successor of the live halfedge `id`.
    pub open spec fn put_next(self, id: HalfedgeId, next: Option<HalfedgeId>) -> MeshModel {
        if self.halfedges.dom().contains(id) {
            self.put_halfedge(id, Halfedge { next, ..self.halfedges[id] })
        } else {
            self
        }
    }

    /// The mesh with `face` as the face of the live halfedge `id`.
    pub open spec fn put_face(self, id: HalfedgeId, face: Option<FaceId>) -> MeshModel {
        if self.halfedges.dom().contains(id) {
            self.put_halfedge(id, Halfedge { face, ..self.halfedges[id] })
        } else {
            self
        }
    }

    /// The mesh with `end_vertex` as the end of the live halfedge `id`.
    pub open spec fn put_end(self, id: HalfedgeId, end_vertex: VertexId) -> MeshModel {
        if self.halfedges.dom().contains(id) {
            self.put_halfedge(id, Halfedge { end_vertex, ..self.halfedges[id] })
        } else {
            self
        }
    }

    /// The mesh with `list` as the full list of outgoing halfedges of the live vertex
    /// `id`; unchanged where `id` is not live.
    pub open spec fn put_outgoing(self, id: VertexId, list: Seq<HalfedgeId>) -> MeshModel {
        if self.vertices.dom().contains(id) {
            MeshModel { outgoing: self.outgoing.insert(id, list), ..self }
        } else {
            self
        }
    }

    /// The mesh with the live vertex `id` moved to `position`; unchanged where `id` is
    /// not live.
    pub open spec fn put_position(self, id: VertexId, position: glam::Vec3) -> MeshModel {
        if self.vertices.dom().contains(id) {
            MeshModel { positions: self.positions.insert(id, position), ..self }
        } else {
            self
        }
    }

    /// The mesh with `halfedge` as the representative of the live face `id`; unchanged
    /// where `id` is not live.
    pub open spec fn put_representative(self, id: FaceId, halfedge: HalfedgeId) -> MeshModel {
        if self.faces.dom().contains(id) {
            MeshModel { faces: self.faces.insert(id, Face { halfedge, ..self.faces[id] }), ..self }
        } else {
            self
        }
    }

    /// The mesh with `normal` as the normal of the live vertex `id`; unchanged where
    /// `id` is not live or no normals are kept.
    pub open spec fn put_normal(self, id: VertexId, normal: glam::Vec3) -> MeshModel {
        match self.normals {
            Some(normals) => if self.vertices.dom().contains(id) {
                MeshModel { normals: Some(normals.insert(id, normal)), ..self }
            } else {
                self
            },
            None => self,
        }
    }

    /// The mesh with nothing in it.
    pub open spec fn empty() -> MeshModel {
        MeshModel {
            vertices: Map::empty(),
            halfedges: Map::empty(),
            faces: Map::empty(),
            positions: Map::empty(),
            normals: None,
            outgoing: Map::empty(),
            slots: Seq::empty(),
        }
    }
}

impl View for MeshGraph {
    type V = MeshModel;

    open(crate) spec fn view(&self) -> MeshModel {
        MeshModel {
            vertices: vertex_slots(self.vertices),
            halfedges: halfedge_slots(self.halfedges),
            faces: face_slots(self.faces),
            positions: vector_slots(self.positions),
            normals: match self.vertex_normals {
                Some(table) => Some(vector_slots(table)),
                None => None,
            },
            outgoing: adjacency_slots(self.outgoing_halfedges),
            slots: self.index_to_face_id@,
        }
    }
}

impl MeshGraph {
    /// See [`MeshModel::wf`].
    pub open spec fn wf(&self) -> bool {
        self@.wf()
    }

    /// The keys that the vertex arena will hand out for slots that were left, and the
    /// number of slots that it has made.
    pub open(crate) spec fn vertex_keys(&self) -> (Seq<u64>, nat) {
        (crate::arena::vertex_vacated(self.vertices), crate::arena::vertex_made(self.vertices))
    }

    /// The keys that the face arena will hand out for slots that were left, and the
    /// number of slots that it has made.
    pub open(crate) spec fn face_keys(&self) -> (Seq<u64>, nat) {
        (crate::arena::face_vacated(self.faces), crate::arena::face_made(self.faces))
    }

    /// The keys that the halfedge arena will hand out for slots that were left, and the
    /// number of slots that it has made.
    pub open(crate) spec fn halfedge_keys(&self) -> (Seq<u64>, nat) {
        (crate::arena::halfedge_vacated(self.halfedges), crate::arena::halfedge_made(self.halfedges))
    }

    /// What is filed in the spatial index: for every slot that has a leaf there, the
    /// bounding box of the leaf.
    pub open(crate) spec fn filed(&self) -> Map<u32, parry3d::bounding_volume::Aabb> {
        self.bvh.leaves()
    }

    /// An empty mesh.
    pub fn new() -> (mesh: MeshGraph)
        ensures
            mesh@ == MeshModel::empty(),
            mesh.wf(),
            mesh.filed() == (Map::<u32, parry3d::bounding_volume::Aabb>::empty()),
            mesh.vertex_keys() == (Seq::<u64>::empty(), 1nat),
            mesh.halfedge_keys() == (Seq::<u64>::empty(), 1nat),
            mesh.face_keys() == (Seq::<u64>::empty(), 1nat),
    {
        MeshGraph {
            vertices: VertexArena::new(),
            halfedges: HalfedgeArena::new(),
            faces: FaceArena::new(),
            positions: VectorMap::new(),
            vertex_normals: None,
            outgoing_halfedges: AdjacencyMap::new(),
            index_to_face_id: Vec::new(),
            bvh: SpatialIndex::new(),
        }
    }

    /// Whether the mesh can still take this many new vertices, halfedges and faces.
    pub fn has_room(&self, vertices: usize, halfedges: usize, faces: usize) -> (fits: bool)
        requires
            self.wf(),
        ensures
            fits == self@.has_room(vertices as nat, halfedges as nat, faces as nat),
    {
        vertices <= ARENA_LIMIT && self.vertices.len() <= ARENA_LIMIT - vertices
            && halfedges <= ARENA_LIMIT && self.halfedges.len() <= ARENA_LIMIT - halfedges
            && faces <= ARENA_LIMIT && self.faces.len() <= ARENA_LIMIT - faces
            && faces <= 0xFFFF_FFFF && self.index_to_face_id.len() <= 0xFFFF_FFFF - faces
    }

    /// The number of live vertices.
    pub fn vertex_count(&self) -> (n: usize)
        ensures
            n == self@.vertices.dom().len(),
    {
        self.vertices.len()
    }

    /// The number of live halfedges.
    pub fn halfedge_count(&self) -> (n: usize)
        ensures
            n == self@.halfedges.dom().len(),
    {
        self.halfedges.len()
    }

    /// The number of live faces.
    pub fn face_count(&self) -> (n: usize)
        ensures
            n == self@.faces.dom().len(),
    {
        self.faces.len()
    }

    /// The number of stored positions.
    pub fn position_count(&self) -> (n: usize)
        ensures
            n == self@.positions.dom().len(),
    {
        self.positions.len()
    }

    /// The vertex named by `id`, if it is live.
    pub fn vertex(&self, id: VertexId) -> (found: Option<Vertex>)
        requires
            self.wf(),
        ensures
            found == self@.vertices.get(id),
    {
        if id.is_canonical() {
            self.vertices.get(id)
        } else {
            None
        }
    }

    /// The halfedge named by `id`, if it is live.
    pub fn halfedge(&self, id: HalfedgeId) -> (found: Option<Halfedge>)
        requires
            self.wf(),
        ensures
            found == self@.halfedges.get(id),
    {
        if id.is_canonical() {
            self.halfedges.get(id)
        } else {
            None
        }
    }

    /// The face named by `id`, if it is live.
    pub fn face(&self, id: FaceId) -> (found: Option<Face>)
        requires
            self.wf(),
        ensures
            found == self@.faces.get(id),
    {
        if id.is_canonical() {
            self.faces.get(id)
        } else {
            None
        }
    }

    /// The position of the vertex named by `id`, if it is live.
    pub fn position(&self, id: VertexId) -> (found: Option<glam::Vec3>)
        requires
            self.wf(),
        ensures
            found == self@.positions.get(id),
    {
        if id.is_canonical() {
            self.positions.get(id)
        } else {
            None
        }
    }

    /// Whether vertex normals are tracked.
    pub fn has_vertex_normals(&self) -> (kept: bool)
        ensures
            kept == (self@.normals is Some),
    {
        self.vertex_normals.is_some()
    }

    /// The normal stored for the vertex named by `id`, if normals are tracked and it
    /// has one.
    pub fn vertex_normal(&self, id: VertexId) -> (found: Option<glam::Vec3>)
        requires
            self.wf(),
        ensures
            found == (match self@.normals {
                Some(normals) => normals.get(id),
                None => None,
            }),
    {
        match &self.vertex_normals {
            Some(table) => {
                if id.is_canonical() {
                    table.get(id)
                } else {
                    None
                }
            },
            None => None,
        }
    }

    /// The full list of halfedges recorded as starting at `id`, if the vertex is live.
    pub fn outgoing_halfedge_list(&self, id: VertexId) -> (found: Option<Vec<HalfedgeId>>)
        requires
            self.wf(),
        ensures
            found is Some == self@.outgoing.dom().contains(id),
            found is Some ==> found->0@ == self@.outgoing[id],
    {
        if id.is_canonical() {
            self.outgoing_halfedges.get(id)
        } else {
            None
        }
    }

    /// The face that was given `slot` in the spatial index, live or not.
    pub fn face_of_slot(&self, slot: u32) -> (found: Option<FaceId>)
        ensures
            found == (if (slot as int) < self@.slots.len() {
                Some(self@.slots[slot as int])
            } else {
                None
            }),
    {
        if (slot as usize) < self.index_to_face_id.len() {
            Some(self.index_to_face_id[slot as usize])
        } else {
            None
        }
    }

    /// Every live vertex, each once, in no stated order.
    pub fn vertex_ids(&self) -> (ids: Vec<VertexId>)
        ensures
            ids@.no_duplicates(),
            ids@.to_set() == self@.vertices.dom(),
    {
        self.vertices.keys()
    }

    /// Every live halfedge, each once, in no stated order.
    pub fn halfedge_ids(&self) -> (ids: Vec<HalfedgeId>)
        ensures
            ids@.no_duplicates(),
            ids@.to_set() == self@.halfedges.dom(),
    {
        self.halfedges.keys()
    }

    /// Every live face, each once, in no stated order.
    pub fn face_ids(&self) -> (ids: Vec<FaceId>)
        ensures
            ids@.no_duplicates(),
            ids@.to_set() == self@.faces.dom(),
    {
        self.faces.keys()
    }

    /// Replaces the record of a live vertex; changes nothing where `id` is not live.
    pub fn set_vertex(&mut self, id: VertexId, vertex: Vertex)
        requires
            old(self).wf(),
        ensures
            final(self).wf(),
            final(self).filed() == old(self).filed(),
            final(self).vertex_keys() == old(self).vertex_keys(),
            final(self).halfedge_keys() == old(self).halfedge_keys(),
            final(self).face_keys() == old(self).face_keys(),
            final(self)@ == old(self)@.put_vertex(id, vertex),
    {
        if id.is_canonical() {
            self.vertices.set(id, vertex);
        }
        proof {
            if old(self)@.vertices.dom().contains(id) {
                assert(final(self)@.vertices.dom() =~= old(self)@.vertices.dom());
            }
        }
    }

    /// Replaces the record of a live halfedge; changes nothing where `id` is not live.
    pub fn set_halfedge(&mut self, id: HalfedgeId, halfedge: Halfedge)
        requires
            old(self).wf(),
        ensures
            final(self).wf(),
            final(self).filed() == old(self).filed(),
            final(self)@ == old(self)@.put_halfedge(id, halfedge),
    {
        if id.is_canonical() {
            self.halfedges.set(id, halfedge);
        }
        proof {
            if old(self)@.halfedges.dom().contains(id) {
                assert(final(self)@.halfedges.dom() =~= old(self)@.halfedges.dom());
            }
        }
    }

    /// Makes `halfedge` the representative of a live face; changes nothing where `id`
    /// is not live.
    pub fn set_face_halfedge(&mut self, id: FaceId, halfedge: HalfedgeId)
        requires
            old(self).wf(),
        ensures
            final(self).wf(),
            final(self).filed() == old(self).filed(),
            final(self)@ == old(self)@.put_representative(id, halfedge),
    {
        match self.face(id) {
            Some(face) => {
                self.faces.set(id, Face { halfedge, index: face.index, id: face.id });
                proof {
                    assert(final(self)@.faces.dom() =~= old(self)@.faces.dom());
                }
            },
            None => {},
        }
    }

    /// Moves a live vertex to `position`; changes nothing where `id` is not live.
    pub fn set_position(&mut self, id: VertexId, position: glam::Vec3)
        requires
            old(self).wf(),
        ensures
            final(self).wf(),
            final(self).filed() == old(self).filed(),
            final(self)@ == old(self)@.put_position(id, position),
    {
        match self.vertex(id) {
            Some(_) => {
                self.positions.insert(id, position);
                proof {
                    assert(final(self)@.positions.dom() =~= old(self)@.positions.dom());
                }
            },
            None => {},
        }
    }

    /// Replaces the full list of outgoing halfedges of a live vertex; changes nothing
    /// where `id` is not live.
    pub fn set_outgoing_halfedge_list(&mut self, id: VertexId, list: Vec<HalfedgeId>)
        requires
            old(self).wf(),
        ensures
            final(self).wf(),
            final(self).filed() == old(self).filed(),
            final(self)@ == old(self)@.put_outgoing(id, list@),
    {
        match self.vertex(id) {
            Some(_) => {
                self.outgoing_halfedges.insert(id, list);
                proof {
                    assert(final(self)@.outgoing.dom() =~= old(self)@.outgoing.dom());
                }
            },
            None => {},
        }
    }
    /// Sets the canonical outgoing halfedge of a live vertex.
    pub(crate) fn set_canonical(&mut self, id: VertexId, canonical: Option<HalfedgeId>)
        requires
            old(self).wf(),
        ensures
            final(self).wf(),
            final(self).filed() == old(self).filed(),
            final(self)@ == old(self)@.put_canonical(id, canonical),
    {
        self.set_vertex(id, Vertex { outgoing_halfedge: canonical });
    }

    /// Sets the twin of a live halfedge.
    pub(crate) fn set_twin(&mut self, id: HalfedgeId, twin: Option<HalfedgeId>)
        requires
            old(self).wf(),
        ensures
            final(self).wf(),
            final(self).filed() == old(self).filed(),
            final(self)@ == old(self)@.put_twin(id, twin),
    {
        match self.halfedge(id) {
            Some(h) => {
                self.set_halfedge(id, Halfedge { end_vertex: h.end_vertex, face: h.face, twin, next: h.next });
            },
            None => {},
        }
    }

    /// Sets the successor of a live halfedge.
    pub(crate) fn set_next(&mut self, id: HalfedgeId, next: Option<HalfedgeId>)
        requires
            old(self).wf(),
        ensures
            final(self).wf(),
            final(self).filed() == old(self).filed(),
            final(self)@ == old(self)@.put_next(id, next),
    {
        match self.halfedge(id) {
            Some(h) => {
                self.set_halfedge(id, Halfedge { end_vertex: h.end_vertex, face: h.face, twin: h.twin, next });
            },
            None => {},
        }
    }

    /// Sets the face of a live halfedge.
    pub(crate) fn set_face(&mut self, id: HalfedgeId, face: Option<FaceId>)
        requires
            old(self).wf(),
        ensures
            final(self).wf(),
            final(self).filed() == old(self).filed(),
            final(self)@ == old(self)@.put_face(id, face),
    {
        match self.halfedge(id) {
            Some(h) => {
                self.set_halfedge(id, Halfedge { end_vertex: h.end_vertex, face, twin: h.twin, next: h.next });
            },
            None => {},
        }
    }

    /// Sets the end vertex of a live halfedge.
    pub(crate) fn set_end(&mut self, id: HalfedgeId, end_vertex: VertexId)
        requires
            old(self).wf(),
        ensures
            final(self).wf(),
            final(self).filed() == old(self).filed(),
            final(self)@ == old(self)@.put_end(id, end_vertex),
    {
        match self.halfedge(id) {
            Some(h) => {
                self.set_halfedge(id, Halfedge { end_vertex, face: h.face, twin: h.twin, next: h.next });
            },
            None => {},
        }
    }
}

} // verus!
