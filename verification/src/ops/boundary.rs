//! Keeping the canonical outgoing halfedge of a vertex on the boundary.

use vstd::prelude::*;
use crate::ids::{HalfedgeId, VertexId};
use crate::mesh::{MeshGraph, MeshModel};

verus! {

impl MeshModel {
    /// The first halfedge of `list` from position `from` on that is live and has no
    /// face.
    pub open spec fn first_boundary(self, list: Seq<HalfedgeId>, from: nat) -> Option<HalfedgeId>
        decreases list.len() - from,
    {
        if from >= list.len() {
            None
        } else if self.is_free(Some(list[from as int])) {
            Some(list[from as int])
        } else {
            self.first_boundary(list, from + 1)
        }
    }

    /// The mesh with the canonical outgoing halfedge of `v` moved to the first boundary
    /// halfedge in its list of outgoing halfedges, where `v` is live and the list has
    /// one.
    pub open spec fn preferring_boundary(self, v: VertexId) -> MeshModel {
        if self.vertices.dom().contains(v) {
            match self.first_boundary(self.outgoing[v], 0) {
                Some(he) => self.put_canonical(v, Some(he)),
                None => self,
            }
        } else {
            self
        }
    }

    /// Whether `after` is this mesh with the canonical outgoing halfedge of every
    /// vertex that starts a boundary halfedge moved to such a halfedge, and nothing
    /// else changed.
    pub open spec fn boundary_preferred(self, after: MeshModel) -> bool {
        &&& after == (MeshModel { vertices: after.vertices, ..self })
        &&& after.vertices.dom() == self.vertices.dom()
        &&& forall|v: VertexId| #[trigger]
            after.vertices.dom().contains(v) ==> {
                ||| after.vertices[v] == self.vertices[v]
                ||| (after.vertices[v].outgoing_halfedge is Some && self.is_boundary_from(after.vertices[v].outgoing_halfedge->0, v))
            }
        &&& forall|v: VertexId, he: HalfedgeId| #[trigger]
            after.vertices.dom().contains(v) && #[trigger] self.is_boundary_from(he, v) ==> after.vertices[v].outgoing_halfedge is Some
                && self.is_boundary_from(after.vertices[v].outgoing_halfedge->0, v)
    }

    /// Whether `he` is a live boundary halfedge that starts at `v`.
    pub open spec fn is_boundary_from(self, he: HalfedgeId, v: VertexId) -> bool {
        self.is_free(Some(he)) && self.start_of(he) == Some(v)
    }
}

impl MeshGraph {
    /// Makes the first boundary halfedge in the list of outgoing halfedges of a vertex
    /// its canonical outgoing halfedge, so that the vertex is seen to lie on the
    /// boundary. Nothing changes where the vertex is not live or the list has no
    /// boundary halfedge.
    pub fn make_outgoing_halfedge_boundary_if_possible(&mut self, vertex_id: VertexId)
        requires
            old(self).wf(),
        ensures
            final(self).wf(),
            final(self)@ == old(self)@.preferring_boundary(vertex_id),
    {
        let fan = match self.outgoing_halfedge_list(vertex_id) {
            Some(list) => list,
            None => {
                return ;
            },
        };
        let mut i: usize = 0;
        while i < fan.len()
            invariant
                i <= fan.len(),
                self.wf(),
                self@ == old(self)@,
                self@.vertices.dom().contains(vertex_id),
                fan@ == self@.outgoing[vertex_id],
                self@.first_boundary(fan@, 0) == self@.first_boundary(fan@, i as nat),
            decreases fan.len() - i,
        {
            if self.is_free(Some(fan[i])) {
                self.set_canonical(vertex_id, Some(fan[i]));
                return ;
            }
            i = i + 1;
        }
    }

    /// Moves the canonical outgoing halfedge of every vertex that starts a boundary
    /// halfedge to such a halfedge. Which one it is, where a vertex starts several, is
    /// not stated. Nothing but canonical halfedges changes.
    #[verifier::rlimit(50)]
    pub fn make_all_outgoing_halfedges_boundary_if_possible(&mut self)
        requires
            old(self).wf(),
        ensures
            final(self).wf(),
            old(self)@.boundary_preferred(final(self)@),
    {
        let ids = self.halfedge_ids();
        let mut i: usize = 0;
        while i < ids.len()
            invariant
                i <= ids.len(),
                self.wf(),
                ids@.to_set() == old(self)@.halfedges.dom(),
                self@.halfedges == old(self)@.halfedges,
                self@.faces == old(self)@.faces,
                self@.positions == old(self)@.positions,
                self@.normals == old(self)@.normals,
                self@.outgoing == old(self)@.outgoing,
                self@.slots == old(self)@.slots,
                self@.vertices.dom() == old(self)@.vertices.dom(),
                forall|v: VertexId| #[trigger] self@.vertices.dom().contains(v) ==> {
                    ||| self@.vertices[v] == old(self)@.vertices[v]
                    ||| (self@.vertices[v].outgoing_halfedge is Some && old(self)@.is_boundary_from(self@.vertices[v].outgoing_halfedge->0, v))
                },
                forall|v: VertexId, k: int| #[trigger] self@.vertices.dom().contains(v) && 0 <= k < i && old(self)@.is_boundary_from(#[trigger] ids@[k], v)
                    ==> self@.vertices[v].outgoing_halfedge is Some && old(self)@.is_boundary_from(self@.vertices[v].outgoing_halfedge->0, v),
            decreases ids.len() - i,
        {
            let he_id = ids[i];
            let ghost before = self@;
            match self.halfedge(he_id) {
                Some(he) => {
                    if he.is_boundary() {
                        match he.start_vertex(self) {
                            Some(start) => {
                                self.set_canonical(start, Some(he_id));
                                proof {
                                    assert(self@.vertices.dom() =~= before.vertices.dom());
                                }
                            },
                            None => {},
                        }
                    }
                },
                None => {},
            }
            i = i + 1;
        }
        proof {
            assert forall|v: VertexId, he: HalfedgeId| #[trigger] self@.vertices.dom().contains(v) && #[trigger] old(self)@.is_boundary_from(he, v) implies self@.vertices[v].outgoing_halfedge is Some
                && old(self)@.is_boundary_from(self@.vertices[v].outgoing_halfedge->0, v) by {
                assert(ids@.to_set().contains(he));
                let k = choose|k: int| 0 <= k < ids@.len() && ids@[k] == he;
                assert(old(self)@.is_boundary_from(ids@[k], v));
            }
        }
    }
}

} // verus!
