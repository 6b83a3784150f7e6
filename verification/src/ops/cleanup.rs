//! Telling whether elements lie on top of one another.
//!
//! All four tests compare positions, not identifiers: two vertices at the same place
//! count as the same. An element whose position is not found lies on top of nothing.

use vstd::prelude::*;
use crate::geometry::{points_equal, vec3_equal};
use crate::ids::{FaceId, HalfedgeId, VertexId};
use crate::mesh::{MeshGraph, MeshModel};

verus! {

impl MeshModel {
    /// Whether both vertices have a position and the two positions are equal.
    pub open spec fn same_place(self, v1: VertexId, v2: VertexId) -> bool {
        &&& self.positions.dom().contains(v1)
        &&& self.positions.dom().contains(v2)
        &&& vec3_equal(self.positions[v1], self.positions[v2])
    }

    /// Whether both halfedges are live, the start of each is found, and the two run from
    /// the same place to the same place.
    pub open spec fn same_run(self, h1: HalfedgeId, h2: HalfedgeId) -> bool {
        &&& self.halfedges.dom().contains(h1)
        &&& self.halfedges.dom().contains(h2)
        &&& self.start_of(h1) is Some
        &&& self.start_of(h2) is Some
        &&& self.same_place(self.start_of(h1)->0, self.start_of(h2)->0)
        &&& self.same_place(self.halfedges[h1].end_vertex, self.halfedges[h2].end_vertex)
    }

    /// Whether both faces are live and some halfedge of the first runs from and to the
    /// same places as some halfedge of the second.
    pub open spec fn share_edge(self, f1: FaceId, f2: FaceId) -> bool {
        &&& self.faces.dom().contains(f1)
        &&& self.faces.dom().contains(f2)
        &&& exists|i: int, j: int| 0 <= i < self.face_halfedges(self.faces[f1]).len() && 0 <= j < self.face_halfedges(self.faces[f2]).len()
                && #[trigger] self.same_run(self.face_halfedges(self.faces[f1])[i], self.face_halfedges(self.faces[f2])[j])
    }

    /// Whether `v` lies at the place of one of `corners`.
    pub open spec fn placed_among(self, v: VertexId, corners: Seq<VertexId>) -> bool {
        exists|j: int| 0 <= j < corners.len() && #[trigger] self.same_place(v, corners[j])
    }

    /// Whether both faces are live and every corner of the first lies at the place of
    /// some corner of the second.
    pub open spec fn share_all_vertices(self, f1: FaceId, f2: FaceId) -> bool {
        &&& self.faces.dom().contains(f1)
        &&& self.faces.dom().contains(f2)
        &&& forall|i: int| 0 <= i < self.face_vertices(self.faces[f1]).len() ==> self.placed_among(
            #[trigger] self.face_vertices(self.faces[f1])[i],
            self.face_vertices(self.faces[f2]),
        )
    }
}

impl MeshGraph {
    /// Whether two vertices have the same position.
    pub fn vertices_share_position(&self, vertex_id1: VertexId, vertex_id2: VertexId) -> (shared: bool)
        requires
            self.wf(),
        ensures
            shared == self@.same_place(vertex_id1, vertex_id2),
    {
        match self.position(vertex_id1) {
            Some(place1) => match self.position(vertex_id2) {
                Some(place2) => points_equal(&place1, &place2),
                None => false,
            },
            None => false,
        }
    }

    /// Whether two halfedges run from the same place to the same place.
    pub fn halfedges_share_all_vertices(&self, halfedge_id1: HalfedgeId, halfedge_id2: HalfedgeId) -> (shared: bool)
        requires
            self.wf(),
        ensures
            shared == self@.same_run(halfedge_id1, halfedge_id2),
    {
        let he1 = match self.halfedge(halfedge_id1) {
            Some(he) => he,
            None => {
                return false;
            },
        };
        let he2 = match self.halfedge(halfedge_id2) {
            Some(he) => he,
            None => {
                return false;
            },
        };
        let start1 = match he1.start_vertex(self) {
            Some(v) => v,
            None => {
                return false;
            },
        };
        let start2 = match he2.start_vertex(self) {
            Some(v) => v,
            None => {
                return false;
            },
        };
        self.vertices_share_position(start1, start2) && self.vertices_share_position(he1.end_vertex, he2.end_vertex)
    }

    /// Whether two faces have an edge in common: some halfedge of the one runs from and
    /// to the same places as some halfedge of the other.
    pub fn faces_share_edge(&self, face_id1: FaceId, face_id2: FaceId) -> (shared: bool)
        requires
            self.wf(),
        ensures
            shared == self@.share_edge(face_id1, face_id2),
    {
        let face1 = match self.face(face_id1) {
            Some(face) => face,
            None => {
                return false;
            },
        };
        let face2 = match self.face(face_id2) {
            Some(face) => face,
            None => {
                return false;
            },
        };
        let edges1 = face1.halfedges(self);
        let edges2 = face2.halfedges(self);
        let mut i: usize = 0;
        while i < edges1.len()
            invariant
                i <= edges1.len(),
                self.wf(),
                self@.faces.dom().contains(face_id1),
                self@.faces.dom().contains(face_id2),
                edges1@ == self@.face_halfedges(self@.faces[face_id1]),
                edges2@ == self@.face_halfedges(self@.faces[face_id2]),
                forall|a: int, b: int| 0 <= a < i && 0 <= b < edges2@.len() ==> !#[trigger] self@.same_run(edges1@[a], edges2@[b]),
            decreases edges1.len() - i,
        {
            let mut j: usize = 0;
            while j < edges2.len()
                invariant
                    j <= edges2.len(),
                    i < edges1.len(),
                    self.wf(),
                    self@.faces.dom().contains(face_id1),
                    self@.faces.dom().contains(face_id2),
                    edges1@ == self@.face_halfedges(self@.faces[face_id1]),
                    edges2@ == self@.face_halfedges(self@.faces[face_id2]),
                    forall|a: int, b: int| 0 <= a < i && 0 <= b < edges2@.len() ==> !#[trigger] self@.same_run(edges1@[a], edges2@[b]),
                    forall|b: int| 0 <= b < j ==> !#[trigger] self@.same_run(edges1@[i as int], edges2@[b]),
                decreases edges2.len() - j,
            {
                if self.halfedges_share_all_vertices(edges1[i], edges2[j]) {
                    proof {
                        assert(self@.same_run(edges1@[i as int], edges2@[j as int]));
                    }
                    return true;
                }
                j = j + 1;
            }
            i = i + 1;
        }
        false
    }

    /// Whether the vertex lies at the place of one of `corners`.
    pub(crate) fn placed_among(&self, vertex_id: VertexId, corners: &Vec<VertexId>) -> (found: bool)
        requires
            self.wf(),
        ensures
            found == self@.placed_among(vertex_id, corners@),
    {
        let mut j: usize = 0;
        while j < corners.len()
            invariant
                j <= corners.len(),
                self.wf(),
                forall|b: int| 0 <= b < j ==> !#[trigger] self@.same_place(vertex_id, corners@[b]),
            decreases corners.len() - j,
        {
            if self.vertices_share_position(vertex_id, corners[j]) {
                return true;
            }
            j = j + 1;
        }
        false
    }

    /// Whether every corner of the first face lies at the place of some corner of the
    /// second: the two triangles lie on top of each other.
    pub fn faces_share_all_vertices(&self, face_id1: FaceId, face_id2: FaceId) -> (shared: bool)
        requires
            self.wf(),
        ensures
            shared == self@.share_all_vertices(face_id1, face_id2),
    {
        let face1 = match self.face(face_id1) {
            Some(face) => face,
            None => {
                return false;
            },
        };
        let face2 = match self.face(face_id2) {
            Some(face) => face,
            None => {
                return false;
            },
        };
        let corners1 = face1.vertices(self);
        let corners2 = face2.vertices(self);
        let mut i: usize = 0;
        while i < corners1.len()
            invariant
                i <= corners1.len(),
                self.wf(),
                self@.faces.dom().contains(face_id1),
                self@.faces.dom().contains(face_id2),
                corners1@ == self@.face_vertices(self@.faces[face_id1]),
                corners2@ == self@.face_vertices(self@.faces[face_id2]),
                forall|a: int| 0 <= a < i ==> self@.placed_among(#[trigger] corners1@[a], corners2@),
            decreases corners1.len() - i,
        {
            if !self.placed_among(corners1[i], &corners2) {
                return false;
            }
            i = i + 1;
        }
        true
    }
}

} // verus!
