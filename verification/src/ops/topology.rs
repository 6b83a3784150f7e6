//! Relabelling edges: pairing twins, repointing a vertex, flipping an edge.

use vstd::prelude::*;
use crate::ids::{HalfedgeId, VertexId};
use crate::mesh::{MeshGraph, MeshModel};
use crate::ops::delete::survivors;
use crate::traverse::filter_map_prefix;

verus! {

/// The halfedges and vertices round an edge between two triangles.
pub struct FlipParts {
    pub prev: HalfedgeId,
    pub next: HalfedgeId,
    pub twin: HalfedgeId,
    pub twin_prev: HalfedgeId,
    pub twin_next: HalfedgeId,
    pub start_vertex: VertexId,
    pub opposite_vertex: VertexId,
    pub twin_start_vertex: VertexId,
    pub twin_opposite_vertex: VertexId,
    pub prev_twin: HalfedgeId,
    pub next_twin: HalfedgeId,
    pub twin_prev_twin: HalfedgeId,
    pub twin_next_twin: HalfedgeId,
}

impl MeshModel {
    /// The mesh with `he1` and `he2` made twins of each other. Where `he1` is not live
    /// nothing changes; where only `he2` is not live, `he1` still gets its twin.
    pub open spec fn twinned(self, he1: HalfedgeId, he2: HalfedgeId) -> MeshModel {
        if self.halfedges.dom().contains(he1) {
            self.put_twin(he1, Some(he2)).put_twin(he2, Some(he1))
        } else {
            self
        }
    }

    /// The mesh with `new_halfedge` as canonical outgoing halfedge of the live vertex
    /// `v`: the list of outgoing halfedges of `v` loses the canonical halfedge it had
    /// and gets the new one at its end.
    pub open spec fn repointed(self, v: VertexId, new_halfedge: HalfedgeId) -> MeshModel {
        if self.vertices.dom().contains(v) {
            let kept = match self.vertices[v].outgoing_halfedge {
                Some(prior) => survivors(self.outgoing[v], set![prior]),
                None => self.outgoing[v],
            };
            self.put_canonical(v, Some(new_halfedge)).put_outgoing(v, kept.push(new_halfedge))
        } else {
            self
        }
    }

    /// What stands round the edge of `he`, where all of it is found: the halfedge is
    /// live, it and its twin have a successor and a predecessor, and these four have
    /// twins.
    pub open spec fn flip_parts(self, he: HalfedgeId) -> Option<FlipParts> {
        if !self.halfedges.dom().contains(he) {
            None
        } else {
            let h = self.halfedges[he];
            if self.prev_of(h) is None || !self.halfedges.dom().contains(self.prev_of(h)->0)
                || self.halfedges[self.prev_of(h)->0].twin is None || h.next is None
                || !self.halfedges.dom().contains(h.next->0) || self.halfedges[h.next->0].twin is None
                || h.twin is None || !self.halfedges.dom().contains(h.twin->0) {
                None
            } else {
                let t = self.halfedges[h.twin->0];
                if self.prev_of(t) is None || !self.halfedges.dom().contains(self.prev_of(t)->0)
                    || self.halfedges[self.prev_of(t)->0].twin is None || t.next is None
                    || !self.halfedges.dom().contains(t.next->0) || self.halfedges[t.next->0].twin is None {
                    None
                } else {
                    Some(
                        FlipParts {
                            prev: self.prev_of(h)->0,
                            next: h.next->0,
                            twin: h.twin->0,
                            twin_prev: self.prev_of(t)->0,
                            twin_next: t.next->0,
                            start_vertex: self.halfedges[self.prev_of(h)->0].end_vertex,
                            opposite_vertex: self.halfedges[h.next->0].end_vertex,
                            twin_start_vertex: self.halfedges[self.prev_of(t)->0].end_vertex,
                            twin_opposite_vertex: self.halfedges[t.next->0].end_vertex,
                            prev_twin: self.halfedges[self.prev_of(h)->0].twin->0,
                            next_twin: self.halfedges[h.next->0].twin->0,
                            twin_prev_twin: self.halfedges[self.prev_of(t)->0].twin->0,
                            twin_next_twin: self.halfedges[t.next->0].twin->0,
                        },
                    )
                }
            }
        }
    }

    /// The first half of a flip: the halfedge and the two other halfedges of its
    /// triangle get their new ends and twins, and the two vertices are repointed.
    pub open spec fn flipped_near(self, he: HalfedgeId, p: FlipParts) -> MeshModel {
        self.put_end(he, p.opposite_vertex).put_end(p.prev, p.twin_opposite_vertex).twinned(p.prev, p.twin_next_twin).put_end(
            p.next,
            p.start_vertex,
        ).twinned(p.next, p.prev_twin).repointed(p.start_vertex, p.prev).repointed(p.opposite_vertex, p.next)
    }

    /// The second half of a flip: the same for the twin and its triangle.
    pub open spec fn flipped_far(self, p: FlipParts) -> MeshModel {
        self.put_end(p.twin, p.twin_opposite_vertex).put_end(p.twin_prev, p.opposite_vertex).twinned(p.twin_prev, p.next_twin).put_end(
            p.twin_next,
            p.twin_start_vertex,
        ).twinned(p.twin_next, p.twin_prev_twin).repointed(p.twin_start_vertex, p.twin_prev).repointed(
            p.twin_opposite_vertex,
            p.twin_next,
        )
    }

    /// The mesh with the edge of `he` flipped; unchanged where the parts round the edge
    /// are not all found.
    pub open spec fn flipped(self, he: HalfedgeId) -> MeshModel {
        match self.flip_parts(he) {
            Some(p) => self.flipped_near(he, p).flipped_far(p),
            None => self,
        }
    }
}

impl MeshGraph {
    /// Makes two halfedges twins of each other, and changes nothing else.
    pub fn make_twins(&mut self, he_id1: HalfedgeId, he_id2: HalfedgeId)
        requires
            old(self).wf(),
        ensures
            final(self).wf(),
            final(self).filed() == old(self).filed(),
            final(self)@ == old(self)@.twinned(he_id1, he_id2),
    {
        match self.halfedge(he_id1) {
            Some(_) => {
                self.set_twin(he_id1, Some(he_id2));
                self.set_twin(he_id2, Some(he_id1));
            },
            None => {},
        }
    }

    /// Makes `new_halfedge_id` the canonical outgoing halfedge of a vertex, takes the
    /// canonical halfedge that the vertex had out of its list of outgoing halfedges,
    /// and appends the new one to the list.
    pub fn change_outgoing_halfedge(&mut self, vertex_id: VertexId, new_halfedge_id: HalfedgeId)
        requires
            old(self).wf(),
        ensures
            final(self).wf(),
            final(self).filed() == old(self).filed(),
            final(self)@ == old(self)@.repointed(vertex_id, new_halfedge_id),
    {
        let vertex = match self.vertex(vertex_id) {
            Some(vertex) => vertex,
            None => {
                return ;
            },
        };
        let list = match self.outgoing_halfedge_list(vertex_id) {
            Some(list) => list,
            None => {
                return ;
            },
        };
        self.set_canonical(vertex_id, Some(new_halfedge_id));
        let mut kept: Vec<HalfedgeId> = match vertex.outgoing_halfedge {
            Some(prior) => {
                let mut kept: Vec<HalfedgeId> = Vec::new();
                let ghost f = |h: HalfedgeId| if set![prior].contains(h) { None } else { Some(h) };
                let mut i: usize = 0;
                while i < list.len()
                    invariant
                        i <= list.len(),
                        f == |h: HalfedgeId| if set![prior].contains(h) { None } else { Some(h) },
                        kept@ == filter_map_prefix(list@, f, i as nat),
                    decreases list.len() - i,
                {
                    if list[i] != prior {
                        kept.push(list[i]);
                    }
                    i = i + 1;
                }
                kept
            },
            None => list,
        };
        kept.push(new_halfedge_id);
        self.set_outgoing_halfedge_list(vertex_id, kept);
    }

    /// What stands round the edge of `halfedge_id`, where all of it is found.
    pub fn flip_parts(&self, halfedge_id: HalfedgeId) -> (parts: Option<FlipParts>)
        requires
            self.wf(),
        ensures
            parts == self@.flip_parts(halfedge_id),
    {
        let he = match self.halfedge(halfedge_id) {
            Some(he) => he,
            None => {
                return None;
            },
        };
        let prev = match he.prev(self) {
            Some(prev) => prev,
            None => {
                return None;
            },
        };
        let prev_he = match self.halfedge(prev) {
            Some(h) => h,
            None => {
                return None;
            },
        };
        let prev_twin = match prev_he.twin {
            Some(t) => t,
            None => {
                return None;
            },
        };
        let next = match he.next {
            Some(next) => next,
            None => {
                return None;
            },
        };
        let next_he = match self.halfedge(next) {
            Some(h) => h,
            None => {
                return None;
            },
        };
        let next_twin = match next_he.twin {
            Some(t) => t,
            None => {
                return None;
            },
        };
        let twin = match he.twin {
            Some(t) => t,
            None => {
                return None;
            },
        };
        let twin_he = match self.halfedge(twin) {
            Some(h) => h,
            None => {
                return None;
            },
        };
        let twin_prev = match twin_he.prev(self) {
            Some(prev) => prev,
            None => {
                return None;
            },
        };
        let twin_prev_he = match self.halfedge(twin_prev) {
            Some(h) => h,
            None => {
                return None;
            },
        };
        let twin_prev_twin = match twin_prev_he.twin {
            Some(t) => t,
            None => {
                return None;
            },
        };
        let twin_next = match twin_he.next {
            Some(next) => next,
            None => {
                return None;
            },
        };
        let twin_next_he = match self.halfedge(twin_next) {
            Some(h) => h,
            None => {
                return None;
            },
        };
        let twin_next_twin = match twin_next_he.twin {
            Some(t) => t,
            None => {
                return None;
            },
        };
        Some(
            FlipParts {
                prev,
                next,
                twin,
                twin_prev,
                twin_next,
                start_vertex: prev_he.end_vertex,
                opposite_vertex: next_he.end_vertex,
                twin_start_vertex: twin_prev_he.end_vertex,
                twin_opposite_vertex: twin_next_he.end_vertex,
                prev_twin,
                next_twin,
                twin_prev_twin,
                twin_next_twin,
            },
        )
    }

    /// Flips the edge between two triangles, so that it joins the two corners that
    /// were opposite it. The halfedge and its twin get the opposite corners as ends;
    /// the other two halfedges of each triangle get new ends and are paired with the
    /// twins that the other triangle's halfedges had; the four corners are repointed.
    /// Faces and successors stay as they are. Nothing happens where a successor, a
    /// predecessor or a twin round the edge is missing.
    #[verifier::rlimit(50)]
    pub fn flip_edge(&mut self, halfedge_id: HalfedgeId)
        requires
            old(self).wf(),
        ensures
            final(self).wf(),
            final(self)@ == old(self)@.flipped(halfedge_id),
    {
        let p = match self.flip_parts(halfedge_id) {
            Some(p) => p,
            None => {
                return ;
            },
        };
        self.set_end(halfedge_id, p.opposite_vertex);
        self.set_end(p.prev, p.twin_opposite_vertex);
        self.make_twins(p.prev, p.twin_next_twin);
        self.set_end(p.next, p.start_vertex);
        self.make_twins(p.next, p.prev_twin);
        self.change_outgoing_halfedge(p.start_vertex, p.prev);
        self.change_outgoing_halfedge(p.opposite_vertex, p.next);
        self.set_end(p.twin, p.twin_opposite_vertex);
        self.set_end(p.twin_prev, p.opposite_vertex);
        self.make_twins(p.twin_prev, p.next_twin);
        self.set_end(p.twin_next, p.twin_start_vertex);
        self.make_twins(p.twin_next, p.twin_prev_twin);
        self.change_outgoing_halfedge(p.twin_start_vertex, p.twin_prev);
        self.change_outgoing_halfedge(p.twin_opposite_vertex, p.twin_next);
    }
}

/// A flip leaves the slot table, the faces and the sets of live elements as they are.
pub proof fn lemma_flip_keeps_slots(m: MeshModel, he: HalfedgeId)
    ensures
        m.flipped(he).slots == m.slots,
        m.flipped(he).faces == m.faces,
{
}

} // verus!
