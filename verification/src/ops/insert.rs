//! Inserting single elements.

use vstd::prelude::*;
use crate::elements::{Face, Halfedge, Vertex};
use crate::ids::{FaceId, HalfedgeId, VertexId};
use crate::mesh::{MeshGraph, MeshModel};

verus! {

/// What `insert_or_get_edge` found or made.
#[derive(Clone, Copy, Debug, PartialEq, Eq, Structural)]
pub struct InsertOrGetEdge {
    /// The halfedge from the start vertex to the end vertex.
    pub start_to_end_he_id: HalfedgeId,
    /// The halfedge from the end vertex to the start vertex.
    pub twin_he_id: HalfedgeId,
    /// Whether the halfedge from start to end was made by the call.
    pub new_start_to_end: bool,
    /// Whether the halfedge from end to start was made by the call.
    pub new_twin: bool,
}

impl InsertOrGetEdge {
    /// The halfedges that the call made: the one from start to end first.
    pub open spec fn created(self) -> Seq<HalfedgeId> {
        if self.new_start_to_end && self.new_twin {
            seq![self.start_to_end_he_id, self.twin_he_id]
        } else if self.new_start_to_end {
            seq![self.start_to_end_he_id]
        } else if self.new_twin {
            seq![self.twin_he_id]
        } else {
            Seq::empty()
        }
    }

    /// The halfedges that the call made: the one from start to end first.
    pub fn created_he_ids(&self) -> (he_ids: Vec<HalfedgeId>)
        ensures
            he_ids@ == self.created(),
    {
        let mut he_ids: Vec<HalfedgeId> = Vec::new();
        if self.new_start_to_end {
            he_ids.push(self.start_to_end_he_id);
        }
        if self.new_twin {
            he_ids.push(self.twin_he_id);
        }
        proof {
            assert(he_ids@ =~= self.created());
        }
        he_ids
    }
}

impl MeshModel {
    /// The mesh with a new vertex `id` at `position`, with no canonical halfedge and an
    /// empty list of outgoing halfedges.
    pub open spec fn add_vertex(self, id: VertexId, position: glam::Vec3) -> MeshModel {
        MeshModel {
            vertices: self.vertices.insert(id, Vertex { outgoing_halfedge: None }),
            positions: self.positions.insert(id, position),
            outgoing: self.outgoing.insert(id, Seq::empty()),
            ..self
        }
    }

    /// The mesh with a new halfedge `id` to `end`, without twin, successor or face,
    /// appended to the list of outgoing halfedges of `start` where `start` is live.
    pub open spec fn add_halfedge(self, id: HalfedgeId, start: VertexId, end: VertexId) -> MeshModel {
        MeshModel {
            halfedges: self.halfedges.insert(id, Halfedge::detached(end)),
            outgoing: if self.vertices.dom().contains(start) {
                self.outgoing.insert(start, self.outgoing[start].push(id))
            } else {
                self.outgoing
            },
            ..self
        }
    }

    /// The mesh with the live halfedge `he` put into `face`, followed by `next`.
    pub open spec fn attach(self, he: HalfedgeId, face: FaceId, next: HalfedgeId) -> MeshModel {
        if self.halfedges.dom().contains(he) {
            self.put_halfedge(he, Halfedge { face: Some(face), next: Some(next), ..self.halfedges[he] })
        } else {
            self
        }
    }

    /// The mesh with a new face `id` on the halfedges `he1`, `he2`, `he3`, in that
    /// order round the face, filed under the next free slot.
    #[verifier::opaque]
    pub open spec fn add_face(self, id: FaceId, he1: HalfedgeId, he2: HalfedgeId, he3: HalfedgeId) -> MeshModel {
        (MeshModel {
            faces: self.faces.insert(id, Face { halfedge: he1, index: self.slots.len() as u32, id }),
            slots: self.slots.push(id),
            ..self
        }).attach(he1, id, he2).attach(he2, id, he3).attach(he3, id, he1)
    }

    /// The first halfedge of `list` from position `from` on that is live and ends at
    /// `end`.
    pub open spec fn first_edge_to(self, list: Seq<HalfedgeId>, end: VertexId, from: nat) -> Option<HalfedgeId>
        decreases list.len() - from,
    {
        if from >= list.len() {
            None
        } else if self.end_of(list[from as int]) == Some(end) {
            Some(list[from as int])
        } else {
            self.first_edge_to(list, end, from + 1)
        }
    }

    /// The halfedge from `start` to `end`: the first one in the list of outgoing
    /// halfedges of `start` that is live and ends at `end`.
    pub open spec fn halfedge_from_to(self, start: VertexId, end: VertexId) -> Option<HalfedgeId> {
        if self.outgoing.dom().contains(start) {
            self.first_edge_to(self.outgoing[start], end, 0)
        } else {
            None
        }
    }

    /// Whether `edge` is what looking for the two halfedges between `start` and `end`
    /// gives: each halfedge is the one that the lists of outgoing halfedges hold, or,
    /// where they hold none, an identifier that names no halfedge yet.
    pub open spec fn edge_found_or_made(self, start: VertexId, end: VertexId, edge: InsertOrGetEdge) -> bool {
        &&& edge.new_start_to_end == (self.halfedge_from_to(start, end) is None)
        &&& edge.new_twin == (self.halfedge_from_to(end, start) is None)
        &&& !edge.new_start_to_end ==> self.halfedge_from_to(start, end) == Some(edge.start_to_end_he_id)
        &&& !edge.new_twin ==> self.halfedge_from_to(end, start) == Some(edge.twin_he_id)
        &&& edge.new_start_to_end ==> !self.halfedges.dom().contains(edge.start_to_end_he_id)
        &&& edge.new_twin ==> !self.halfedges.dom().contains(edge.twin_he_id)
        &&& edge.new_start_to_end && edge.new_twin ==> edge.start_to_end_he_id != edge.twin_he_id
    }

    /// The mesh after the edge between `start` and `end` has been found or made:
    /// the halfedges that were missing are added, the two are made twins of each other,
    /// and each is made the canonical outgoing halfedge of the vertex it starts at.
    #[verifier::opaque]
    pub open spec fn with_edge(self, start: VertexId, end: VertexId, edge: InsertOrGetEdge) -> MeshModel {
        let first = if edge.new_start_to_end {
            self.add_halfedge(edge.start_to_end_he_id, start, end)
        } else {
            self
        };
        let second = if edge.new_twin {
            first.add_halfedge(edge.twin_he_id, end, start)
        } else {
            first
        };
        second.put_twin(edge.start_to_end_he_id, Some(edge.twin_he_id)).put_twin(
            edge.twin_he_id,
            Some(edge.start_to_end_he_id),
        ).put_canonical(start, Some(edge.start_to_end_he_id)).put_canonical(end, Some(edge.twin_he_id))
    }
}

impl MeshGraph {
    /// Inserts a vertex at `position`, not connected to anything.
    pub fn insert_vertex(&mut self, position: glam::Vec3) -> (id: VertexId)
        requires
            old(self).wf(),
            old(self)@.has_room(1, 0, 0),
        ensures
            final(self).wf(),
            final(self).filed() == old(self).filed(),
            id.raw == crate::arena::handed_next(old(self).vertex_keys().0, old(self).vertex_keys().1),
            final(self).vertex_keys() == (
                crate::arena::vacated_then(old(self).vertex_keys().0),
                crate::arena::made_then(old(self).vertex_keys().0, old(self).vertex_keys().1),
            ),
            final(self).vertex_keys().1 <= 0xFFFF_FFFF,
            final(self).halfedge_keys() == old(self).halfedge_keys(),
            final(self).face_keys() == old(self).face_keys(),
            !old(self)@.vertices.dom().contains(id),
            final(self)@ == old(self)@.add_vertex(id, position),
    {
        let id = self.vertices.insert(Vertex { outgoing_halfedge: None });
        self.positions.insert(id, position);
        self.outgoing_halfedges.insert(id, Vec::new());
        proof {
            assert(final(self)@.outgoing =~= old(self)@.add_vertex(id, position).outgoing);
        }
        id
    }

    /// The halfedge from `start_vertex_id` to `end_vertex_id`, if the list of outgoing
    /// halfedges of the start vertex holds one.
    pub fn halfedge_from_to(&self, start_vertex_id: VertexId, end_vertex_id: VertexId) -> (found: Option<HalfedgeId>)
        requires
            self.wf(),
        ensures
            found == self@.halfedge_from_to(start_vertex_id, end_vertex_id),
    {
        match self.outgoing_halfedge_list(start_vertex_id) {
            Some(list) => {
                let mut i: usize = 0;
                while i < list.len()
                    invariant
                        self.wf(),
                        i <= list.len(),
                        self@.outgoing.dom().contains(start_vertex_id),
                        list@ == self@.outgoing[start_vertex_id],
                        self@.first_edge_to(list@, end_vertex_id, 0) == self@.first_edge_to(list@, end_vertex_id, i as nat),
                    decreases list.len() - i,
                {
                    match self.halfedge(list[i]) {
                        Some(h) => {
                            if h.end_vertex == end_vertex_id {
                                proof {
                                    assert(self@.end_of(list@[i as int]) == Some(end_vertex_id));
                                    assert(self@.first_edge_to(list@, end_vertex_id, i as nat) == Some(list@[i as int]));
                                }
                                return Some(list[i]);
                            }
                        },
                        None => {},
                    }
                    i = i + 1;
                }
                None
            },
            None => None,
        }
    }

    /// Inserts a halfedge to `end_vertex` without twin, successor or face, and appends
    /// it to the list of outgoing halfedges of `start_vertex`. Where `start_vertex` is
    /// not live, no list takes the halfedge.
    pub fn insert_halfedge(&mut self, start_vertex: VertexId, end_vertex: VertexId) -> (id: HalfedgeId)
        requires
            old(self).wf(),
            old(self)@.has_room(0, 1, 0),
        ensures
            final(self).wf(),
            final(self).filed() == old(self).filed(),
            !old(self)@.halfedges.dom().contains(id),
            final(self)@ == old(self)@.add_halfedge(id, start_vertex, end_vertex),
    {
        let id = self.halfedges.insert(Halfedge { end_vertex, face: None, twin: None, next: None });
        match self.outgoing_halfedge_list(start_vertex) {
            Some(list) => {
                let mut list = list;
                list.push(id);
                self.outgoing_halfedges.insert(start_vertex, list);
                proof {
                    assert(final(self)@.outgoing.dom() =~= old(self)@.outgoing.dom());
                }
            },
            None => {},
        }
        id
    }

    /// Finds the two halfedges between `start_vertex_id` and `end_vertex_id`, makes the
    /// ones that are missing, pairs the two as twins and makes each the canonical
    /// outgoing halfedge of the vertex it starts at.
    #[verifier::rlimit(50)]
    pub fn insert_or_get_edge(&mut self, start_vertex_id: VertexId, end_vertex_id: VertexId) -> (edge: InsertOrGetEdge)
        requires
            old(self).wf(),
            old(self)@.has_room(0, 2, 0),
        ensures
            final(self).wf(),
            final(self).filed() == old(self).filed(),
            old(self)@.edge_found_or_made(start_vertex_id, end_vertex_id, edge),
            final(self)@ == old(self)@.with_edge(start_vertex_id, end_vertex_id, edge),
            final(self)@.halfedges.dom().contains(edge.start_to_end_he_id),
            final(self)@.halfedges.dom().contains(edge.twin_he_id),
            final(self)@.halfedges.dom() == old(self)@.halfedges.dom().insert(edge.start_to_end_he_id).insert(edge.twin_he_id),
            final(self)@.halfedges.dom().len() <= old(self)@.halfedges.dom().len() + 2,
            final(self)@.vertices.dom() == old(self)@.vertices.dom(),
            final(self)@.faces == old(self)@.faces,
            final(self)@.slots == old(self)@.slots,
            final(self)@.positions == old(self)@.positions,
            final(self)@.normals == old(self)@.normals,
    {
        let found1 = self.halfedge_from_to(start_vertex_id, end_vertex_id);
        let found2 = self.halfedge_from_to(end_vertex_id, start_vertex_id);
        let (he1, new1) = match found1 {
            Some(he) => (he, false),
            None => (self.insert_halfedge(start_vertex_id, end_vertex_id), true),
        };
        let (he2, new2) = match found2 {
            Some(he) => (he, false),
            None => (self.insert_halfedge(end_vertex_id, start_vertex_id), true),
        };
        self.set_twin(he1, Some(he2));
        self.set_twin(he2, Some(he1));
        self.set_canonical(start_vertex_id, Some(he1));
        self.set_canonical(end_vertex_id, Some(he2));
        proof {
            reveal(MeshModel::with_edge);
            lemma_first_edge_is_live(old(self)@, start_vertex_id, end_vertex_id);
            lemma_first_edge_is_live(old(self)@, end_vertex_id, start_vertex_id);
            assert(self@.halfedges.dom() =~= old(self)@.halfedges.dom().insert(he1).insert(he2));
            assert(self@.vertices.dom() =~= old(self)@.vertices.dom());
        }
        InsertOrGetEdge { start_to_end_he_id: he1, twin_he_id: he2, new_start_to_end: new1, new_twin: new2 }
    }

    /// Inserts a face on `he1_id`, `he2_id`, `he3_id`: files it under the next free
    /// slot of the spatial index, links the three halfedges round it in that order and
    /// sets their face. The spatial index itself is not touched.
    #[verifier::rlimit(50)]
    pub fn insert_face(&mut self, he1_id: HalfedgeId, he2_id: HalfedgeId, he3_id: HalfedgeId) -> (id: FaceId)
        requires
            old(self).wf(),
            old(self)@.has_room(0, 0, 1),
        ensures
            final(self).wf(),
            final(self).filed() == old(self).filed(),
            !old(self)@.faces.dom().contains(id),
            final(self)@ == old(self)@.add_face(id, he1_id, he2_id, he3_id),
            final(self)@.faces == old(self)@.faces.insert(id, (Face { halfedge: he1_id, index: old(self)@.slots.len() as u32, id })),
            final(self)@.slots == old(self)@.slots.push(id),
            final(self)@.halfedges.dom() == old(self)@.halfedges.dom(),
            final(self)@.vertices == old(self)@.vertices,
            final(self)@.positions == old(self)@.positions,
            final(self)@.normals == old(self)@.normals,
            final(self)@.outgoing == old(self)@.outgoing,
    {
        let index = self.index_to_face_id.len() as u32;
        let id = self.faces.insert(he1_id, index);
        self.index_to_face_id.push(id);
        proof {
            reveal(MeshModel::add_face);
            assert forall|f: FaceId| #[trigger] self@.faces.dom().contains(f) implies {
                &&& self@.faces[f].id == f
                &&& (self@.faces[f].index as int) < self@.slots.len()
                &&& self@.slots[self@.faces[f].index as int] == f
            } by {
                if f != id {
                    assert(old(self)@.faces.dom().contains(f));
                }
            }
        }
        self.attach(he1_id, id, he2_id);
        self.attach(he2_id, id, he3_id);
        self.attach(he3_id, id, he1_id);
        proof {
            assert(self@.halfedges.dom() =~= old(self)@.halfedges.dom());
        }
        id
    }

    /// Puts a live halfedge into `face`, followed by `next`.
    pub(crate) fn attach(&mut self, he: HalfedgeId, face: FaceId, next: HalfedgeId)
        requires
            old(self).wf(),
        ensures
            final(self).wf(),
            final(self).filed() == old(self).filed(),
            final(self)@ == old(self)@.attach(he, face, next),
    {
        match self.halfedge(he) {
            Some(h) => {
                self.set_halfedge(he, Halfedge { end_vertex: h.end_vertex, face: Some(face), twin: h.twin, next: Some(next) });
            },
            None => {},
        }
    }
}

/// The halfedge that the lookup from `start` to `end` finds is live and ends at `end`.
pub proof fn lemma_first_edge_is_live(m: MeshModel, start: VertexId, end: VertexId)
    ensures
        m.halfedge_from_to(start, end) is Some ==> m.halfedges.dom().contains(m.halfedge_from_to(start, end)->0)
            && m.halfedges[m.halfedge_from_to(start, end)->0].end_vertex == end,
{
    if m.outgoing.dom().contains(start) {
        lemma_first_edge_from(m, m.outgoing[start], end, 0);
    }
}

/// The halfedge that the search of a list finds is live and ends at `end`.
pub proof fn lemma_first_edge_from(m: MeshModel, list: Seq<HalfedgeId>, end: VertexId, from: nat)
    ensures
        m.first_edge_to(list, end, from) is Some ==> m.halfedges.dom().contains(m.first_edge_to(list, end, from)->0)
            && m.halfedges[m.first_edge_to(list, end, from)->0].end_vertex == end,
    decreases list.len() - from,
{
    if from < list.len() && m.end_of(list[from as int]) != Some(end) {
        lemma_first_edge_from(m, list, end, from + 1);
    }
}

/// What making both halfedges of an edge between two distinct live vertices does.
pub proof fn lemma_with_new_edge(m: MeshModel, start: VertexId, end: VertexId, edge: InsertOrGetEdge)
    requires
        m.vertices.dom().contains(start),
        m.vertices.dom().contains(end),
        start != end,
        edge.new_start_to_end,
        edge.new_twin,
        edge.start_to_end_he_id != edge.twin_he_id,
    ensures
        m.with_edge(start, end, edge) == (MeshModel {
            halfedges: m.halfedges.insert(
                edge.start_to_end_he_id,
                Halfedge { end_vertex: end, face: None, twin: Some(edge.twin_he_id), next: None },
            ).insert(edge.twin_he_id, Halfedge { end_vertex: start, face: None, twin: Some(edge.start_to_end_he_id), next: None }),
            outgoing: m.outgoing.insert(start, m.outgoing[start].push(edge.start_to_end_he_id)).insert(
                end,
                m.outgoing[end].push(edge.twin_he_id),
            ),
            vertices: m.vertices.insert(start, Vertex { outgoing_halfedge: Some(edge.start_to_end_he_id) }).insert(
                end,
                Vertex { outgoing_halfedge: Some(edge.twin_he_id) },
            ),
            ..m
        }),
{
    reveal(MeshModel::with_edge);
    let target = MeshModel {
        halfedges: m.halfedges.insert(
            edge.start_to_end_he_id,
            Halfedge { end_vertex: end, face: None, twin: Some(edge.twin_he_id), next: None },
        ).insert(edge.twin_he_id, Halfedge { end_vertex: start, face: None, twin: Some(edge.start_to_end_he_id), next: None }),
        outgoing: m.outgoing.insert(start, m.outgoing[start].push(edge.start_to_end_he_id)).insert(
            end,
            m.outgoing[end].push(edge.twin_he_id),
        ),
        vertices: m.vertices.insert(start, Vertex { outgoing_halfedge: Some(edge.start_to_end_he_id) }).insert(
            end,
            Vertex { outgoing_halfedge: Some(edge.twin_he_id) },
        ),
        ..m
    };
    let got = m.with_edge(start, end, edge);
    assert(got.halfedges =~= target.halfedges);
    assert(got.outgoing =~= target.outgoing);
    assert(got.vertices =~= target.vertices);
}

/// What putting a face on three distinct live halfedges does.
pub proof fn lemma_add_face_on_live(m: MeshModel, id: FaceId, he1: HalfedgeId, he2: HalfedgeId, he3: HalfedgeId)
    requires
        m.halfedges.dom().contains(he1),
        m.halfedges.dom().contains(he2),
        m.halfedges.dom().contains(he3),
        he1 != he2,
        he2 != he3,
        he3 != he1,
    ensures
        m.add_face(id, he1, he2, he3) == (MeshModel {
            faces: m.faces.insert(id, Face { halfedge: he1, index: m.slots.len() as u32, id }),
            slots: m.slots.push(id),
            halfedges: m.halfedges.insert(he1, Halfedge { face: Some(id), next: Some(he2), ..m.halfedges[he1] }).insert(
                he2,
                Halfedge { face: Some(id), next: Some(he3), ..m.halfedges[he2] },
            ).insert(he3, Halfedge { face: Some(id), next: Some(he1), ..m.halfedges[he3] }),
            ..m
        }),
{
    reveal(MeshModel::add_face);
    let target = MeshModel {
        faces: m.faces.insert(id, Face { halfedge: he1, index: m.slots.len() as u32, id }),
        slots: m.slots.push(id),
        halfedges: m.halfedges.insert(he1, Halfedge { face: Some(id), next: Some(he2), ..m.halfedges[he1] }).insert(
            he2,
            Halfedge { face: Some(id), next: Some(he3), ..m.halfedges[he2] },
        ).insert(he3, Halfedge { face: Some(id), next: Some(he1), ..m.halfedges[he3] }),
        ..m
    };
    assert(m.add_face(id, he1, he2, he3).halfedges =~= target.halfedges);
}

/// A vertex with an empty list of outgoing halfedges has no halfedge to anywhere.
pub proof fn lemma_no_edge_from_empty_list(m: MeshModel, start: VertexId, end: VertexId)
    requires
        m.outgoing.dom().contains(start) ==> m.outgoing[start].len() == 0,
    ensures
        m.halfedge_from_to(start, end) is None,
{
}

/// A vertex whose list of outgoing halfedges holds one halfedge, which ends elsewhere,
/// has no halfedge to `end`.
pub proof fn lemma_no_edge_from_single(m: MeshModel, start: VertexId, end: VertexId, he: HalfedgeId)
    requires
        m.outgoing.dom().contains(start),
        m.outgoing[start] == seq![he],
        m.end_of(he) != Some(end),
    ensures
        m.halfedge_from_to(start, end) is None,
{
    assert(m.first_edge_to(seq![he], end, 1) is None);
    assert(m.first_edge_to(seq![he], end, 0) is None);
}

} // verus!
