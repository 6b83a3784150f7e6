//! Collapsing edges.

use vstd::prelude::*;
use crate::edgemap::EdgeLengths;
use crate::geometry::{midpoint, vec3_midpoint};
use crate::ids::{FaceId, HalfedgeId, VertexId};
use crate::idset::{HalfedgeSet, VertexSet};
use crate::mesh::{MeshGraph, MeshModel};
use crate::ops::delete::same_halfedge;
use crate::ops::manifold::lemma_faces_gone_carries;
use crate::selection::{Selection, SelectionOps};
use crate::traverse::{filter_map_prefix, filter_map_seq};

verus! {

/// What the collapse of an edge took away and split.
pub struct CollapseEdge {
    /// The vertices that were deleted.
    pub removed_vertices: Vec<VertexId>,
    /// The halfedges that were deleted. The twin of the collapsed halfedge is listed
    /// twice.
    pub removed_halfedges: Vec<HalfedgeId>,
    /// The faces that were deleted.
    pub removed_faces: Vec<FaceId>,
    /// For every split that the repair of the neighbourhood made, the vertex that was
    /// split and then its duplicate.
    pub split_vertices: Vec<VertexId>,
}

/// A face that was taken out beside a collapsing halfedge, with the two halfedges that
/// went with it.
pub struct RemovedFace {
    pub face: FaceId,
    pub next: HalfedgeId,
    pub prev: HalfedgeId,
}

impl MeshModel {
    /// Whether the edge of `he` can be collapsed: the halfedge is live, its start is
    /// found, its end is a live vertex, and both have a position.
    pub open spec fn collapsible(self, he: HalfedgeId) -> bool {
        &&& self.halfedges.dom().contains(he)
        &&& self.start_of(he) is Some
        &&& self.positions.dom().contains(self.start_of(he)->0)
        &&& self.vertices.dom().contains(self.halfedges[he].end_vertex)
    }

    /// Whether the face beside `he` can be taken out: the halfedge is live and has a
    /// live face, a live successor and a live predecessor, both of which have live
    /// twins; the start of the predecessor is found; and the three corners are live.
    pub open spec fn face_removable(self, he: HalfedgeId) -> bool {
        &&& self.halfedges.dom().contains(he)
        &&& self.halfedges[he].face is Some
        &&& self.faces.dom().contains(self.halfedges[he].face->0)
        &&& self.halfedges[he].next is Some
        &&& self.halfedges.dom().contains(self.halfedges[he].next->0)
        &&& self.prev_of(self.halfedges[he]) is Some
        &&& self.halfedges.dom().contains(self.prev_of(self.halfedges[he])->0)
        &&& self.twin_of(self.halfedges[he].next->0) is Some
        &&& self.halfedges.dom().contains(self.twin_of(self.halfedges[he].next->0)->0)
        &&& self.twin_of(self.prev_of(self.halfedges[he])->0) is Some
        &&& self.halfedges.dom().contains(self.twin_of(self.prev_of(self.halfedges[he])->0)->0)
        &&& self.start_of(self.prev_of(self.halfedges[he])->0) is Some
        &&& self.vertices.dom().contains(self.start_of(self.prev_of(self.halfedges[he])->0)->0)
        &&& self.vertices.dom().contains(self.halfedges[self.halfedges[he].next->0].end_vertex)
        &&& self.vertices.dom().contains(self.halfedges[self.prev_of(self.halfedges[he])->0].end_vertex)
    }

    /// The mesh without the face beside `he`, which can be taken out.
    ///
    /// The corner that the successor of `he` ends at gets the successor of that
    /// successor as canonical halfedge, and the corner that the predecessor ends at
    /// gets the successor of the predecessor. Where the start of the predecessor then
    /// has the predecessor as canonical halfedge, it gets the neighbour of the
    /// predecessor counter-clockwise round it, or clockwise where there is none. The
    /// successor and the predecessor leave the lists of their start vertices and are
    /// gone, and so is the face. Their twins are twins of each other.
    pub open spec fn face_taken_out(self, he: HalfedgeId) -> MeshModel {
        let h = self.halfedges[he];
        let next_id = h.next->0;
        let prev_id = self.prev_of(h)->0;
        let next = self.halfedges[next_id];
        let prev = self.halfedges[prev_id];
        let corner = self.start_of(prev_id)->0;
        let repointed = self.put_canonical(next.end_vertex, next.next).put_canonical(prev.end_vertex, prev.next);
        let settled = if repointed.vertices[corner].outgoing_halfedge == Some(prev_id) {
            repointed.put_canonical(
                corner,
                match self.ccw_rotated_of(prev) {
                    Some(neighbour) => Some(neighbour),
                    None => self.cw_rotated_of(prev),
                },
            )
        } else {
            repointed
        };
        let unlisted = (match self.start_vertex_of(next) {
            Some(start) => settled.unlist(start, next_id),
            None => settled,
        }).unlist(corner, prev_id);
        let cut = MeshModel { halfedges: unlisted.halfedges.remove(next_id).remove(prev_id), faces: unlisted.faces.remove(h.face->0), ..unlisted };
        cut.put_twin(next.twin->0, prev.twin).put_twin(prev.twin->0, next.twin)
    }
}

impl MeshModel {
    /// Whether the face beside the live halfedge `he`, if it has one, can be taken out.
    pub open spec fn side_clearable(self, he: HalfedgeId) -> bool {
        self.halfedges.dom().contains(he) && (self.halfedges[he].face is Some ==> self.face_removable(he))
    }

    /// The mesh without the face beside `he`, if it has one.
    pub open spec fn side_cleared(self, he: HalfedgeId) -> MeshModel {
        if self.halfedges[he].face is Some {
            self.face_taken_out(he)
        } else {
            self
        }
    }

    /// The face beside `he`, if it has one.
    pub open spec fn side_faces(self, he: HalfedgeId) -> Seq<FaceId> {
        match self.halfedges[he].face {
            Some(face) => seq![face],
            None => Seq::empty(),
        }
    }

    /// The successor and the predecessor of `he`, if it has a face.
    pub open spec fn side_halfedges(self, he: HalfedgeId) -> Seq<HalfedgeId> {
        if self.halfedges[he].face is Some {
            seq![self.halfedges[he].next->0, self.prev_of(self.halfedges[he])->0]
        } else {
            Seq::empty()
        }
    }

    /// Whether, once the face beside `he` is gone, the twin of `he` is live and the
    /// face beside it can be taken out.
    pub open spec fn far_side_clearable(self, he: HalfedgeId) -> bool {
        &&& self.halfedges[he].twin is Some
        &&& self.side_cleared(he).side_clearable(self.halfedges[he].twin->0)
    }

    /// The mesh in which the first `n` halfedges of `list` end at `to`.
    pub open spec fn led_to(self, list: Seq<HalfedgeId>, to: VertexId, n: nat) -> MeshModel
        decreases n,
    {
        if n == 0 || n > list.len() {
            self
        } else {
            self.led_to(list, to, (n - 1) as nat).put_end(list[n - 1], to)
        }
    }

    /// The list of outgoing halfedges of `v`; empty where it has none.
    pub open spec fn own_list(self, v: VertexId) -> Seq<HalfedgeId> {
        if self.outgoing.dom().contains(v) {
            self.outgoing[v]
        } else {
            Seq::empty()
        }
    }

    /// The choice that keeps a halfedge where it is live and neither `a` nor `b`.
    pub open spec fn keeps_but(self, a: HalfedgeId, b: HalfedgeId) -> spec_fn(HalfedgeId) -> Option<HalfedgeId> {
        |x: HalfedgeId| if x != a && x != b && self.halfedges.dom().contains(x) { Some(x) } else { None }
    }

    /// The live halfedges of `list` but `a` and `b`, in their order.
    pub open spec fn live_but(self, list: Seq<HalfedgeId>, a: HalfedgeId, b: HalfedgeId) -> Seq<HalfedgeId> {
        filter_map_seq(list, self.keeps_but(a, b))
    }

    /// The first live halfedge of `list` from position `from` on.
    pub open spec fn first_live(self, list: Seq<HalfedgeId>, from: nat) -> Option<HalfedgeId>
        decreases list.len() - from,
    {
        if from >= list.len() {
            None
        } else if self.halfedges.dom().contains(list[from as int]) {
            Some(list[from as int])
        } else {
            self.first_live(list, from + 1)
        }
    }

    /// The faces that the collapse of `he` takes out before the repair.
    pub open spec fn faces_before_repair(self, he: HalfedgeId) -> Seq<FaceId> {
        self.side_faces(he) + self.side_cleared(he).side_faces(self.halfedges[he].twin->0)
    }

    /// The halfedges that the collapse of `he` lists as removed before the repair: those
    /// of the face beside `he`, `he`, those of the face beside its twin, and the twin
    /// twice.
    pub open spec fn halfedges_before_repair(self, he: HalfedgeId) -> Seq<HalfedgeId> {
        let twin = self.halfedges[he].twin->0;
        self.side_halfedges(he).push(he) + self.side_cleared(he).side_halfedges(twin).push(twin).push(twin)
    }

    /// The mesh after the collapse of the edge of `he` into its start vertex, before
    /// the neighbourhood of that vertex is repaired.
    ///
    /// The faces on the two sides are taken out. The halfedges that ended at the end
    /// vertex end at the start vertex. The start vertex lists, behind its own outgoing
    /// halfedges, those of the end vertex that are live and are not of the edge. The
    /// end vertex and the two halfedges of the edge are gone. The start vertex lies in
    /// the middle of the edge, and its canonical halfedge is the first halfedge in the
    /// fan of the end vertex that is still live.
    pub open spec fn collapsed_unrepaired(self, he: HalfedgeId) -> MeshModel {
        let start = self.start_of(he)->0;
        let end = self.halfedges[he].end_vertex;
        let twin = self.halfedges[he].twin->0;
        let cleared = self.side_cleared(he).side_cleared(twin);
        let incoming = self.incoming_fan(self.vertices[end]);
        let led = cleared.led_to(incoming, start, incoming.len());
        let listed = led.put_outgoing(start, led.own_list(start) + led.live_but(self.outgoing[end], he, twin)).drop_vertex(end).unlist(start, he);
        let cut = MeshModel { halfedges: listed.halfedges.remove(he).remove(twin), ..listed };
        let moved = cut.put_position(start, vec3_midpoint(self.positions[start], self.positions[end]));
        moved.put_canonical(start, moved.first_live(self.fan(self.vertices[end]), 0))
    }
    /// Whether the collapse of the edge of `he` turns this mesh into `after` and gives
    /// `collapsed`.
    ///
    /// Nothing happens where the edge cannot be collapsed or the face beside `he`
    /// cannot be taken out. Where the twin of `he` is not live, or the face beside the
    /// twin cannot be taken out, only the face beside `he` goes. Otherwise `after` has
    /// come from the collapsed mesh by the repair of the neighbourhood of the start
    /// vertex, which only takes elements away; the lists of `collapsed` start with what
    /// went before the repair; and where the collapsed mesh needs no repair, `after`
    /// is that mesh and the lists hold nothing more.
    pub open spec fn collapse_gives(self, he: HalfedgeId, after: MeshModel, collapsed: CollapseEdge) -> bool {
        &&& after.wf()
        &&& after.pruned_from(self)
        &&& after.faces_gone(collapsed.removed_faces@, 0)
        &&& collapsed.split_vertices@.len() % 2 == 0
        &&& !(self.collapsible(he) && self.side_clearable(he)) ==> after == self && collapsed.removed_vertices@.len() == 0
            && collapsed.removed_halfedges@.len() == 0 && collapsed.removed_faces@.len() == 0 && collapsed.split_vertices@.len() == 0
        &&& self.collapsible(he) && self.side_clearable(he) && !self.far_side_clearable(he) ==> {
            &&& after == self.side_cleared(he)
            &&& collapsed.removed_vertices@.len() == 0
            &&& collapsed.removed_halfedges@ == self.side_halfedges(he).push(he)
            &&& collapsed.removed_faces@ == self.side_faces(he)
            &&& collapsed.split_vertices@.len() == 0
        }
        &&& self.collapsible(he) && self.side_clearable(he) && self.far_side_clearable(he) ==> {
            let merged = self.collapsed_unrepaired(he);
            &&& after.pruned_from(merged)
            &&& seq![self.halfedges[he].end_vertex].is_prefix_of(collapsed.removed_vertices@)
            &&& self.halfedges_before_repair(he).is_prefix_of(collapsed.removed_halfedges@)
            &&& self.faces_before_repair(he).is_prefix_of(collapsed.removed_faces@)
            &&& after.halfedges_gone(collapsed.removed_halfedges@, self.halfedges_before_repair(he).len() as int)
            &&& merged.coincidence_free(self.start_of(he)->0) ==> {
                &&& after == merged
                &&& collapsed.removed_vertices@ == seq![self.halfedges[he].end_vertex]
                &&& collapsed.removed_halfedges@ == self.halfedges_before_repair(he)
                &&& collapsed.removed_faces@ == self.faces_before_repair(he)
                &&& collapsed.split_vertices@.len() == 0
            }
        }
    }

    /// Whether `later` has come from this mesh by `n` collapses of edges, one after the
    /// other.
    pub open spec fn collapses_to(self, later: MeshModel, n: nat) -> bool
        decreases n,
    {
        if n == 0 {
            later == self
        } else {
            exists|he: HalfedgeId, before: MeshModel, collapsed: CollapseEdge|
                self.collapses_to(before, (n - 1) as nat) && #[trigger] before.collapse_gives(he, later, collapsed)
        }
    }
}

impl MeshModel {
    /// Whether a length lies beyond a threshold: below it where short edges are asked
    /// for, above it where long ones are. Both are bit patterns of squared lengths.
    pub open spec fn beyond(length: u32, threshold: u32, shorter: bool) -> bool {
        if shorter {
            length < threshold
        } else {
            threshold < length <= crate::geometry::INFINITE
        }
    }

    /// Whether `he` is live and its length lies beyond the threshold.
    pub open spec fn is_candidate(self, he: HalfedgeId, threshold: u32, shorter: bool) -> bool {
        self.halfedges.dom().contains(he) && Self::beyond(self.length_squared_of(self.halfedges[he]), threshold, shorter)
    }

    /// Whether `he` is the halfedge of `resolved` whose length lies furthest beyond the
    /// threshold: it is live, its length lies beyond the threshold, and no such
    /// halfedge of `resolved` is shorter where short ones are asked for, or longer where
    /// long ones are.
    pub open spec fn furthest(self, resolved: Set<HalfedgeId>, threshold: u32, shorter: bool, he: HalfedgeId) -> bool {
        &&& resolved.contains(he)
        &&& self.is_candidate(he, threshold, shorter)
        &&& forall|other: HalfedgeId| #[trigger]
            resolved.contains(other) && self.is_candidate(other, threshold, shorter) ==> (if shorter {
                self.length_squared_of(self.halfedges[he]) <= self.length_squared_of(self.halfedges[other])
            } else {
                self.length_squared_of(self.halfedges[he]) >= self.length_squared_of(self.halfedges[other])
            })
    }

    /// Whether `he` is the halfedge that a driver takes first: where the table of
    /// candidates that it starts from holds any, the one of them whose length lies
    /// furthest beyond the threshold; else the halfedge of `resolved` whose length does.
    pub open spec fn first_pick(self, resolved: Set<HalfedgeId>, threshold: u32, shorter: bool, he: HalfedgeId) -> bool {
        &&& resolved.contains(he)
        &&& self.is_candidate(he, threshold, shorter)
        &&& exists|candidates: Map<HalfedgeId, u32>| #[trigger]
            self.one_per_edge(resolved, threshold, shorter, candidates) && Self::picked_from(candidates, shorter, he) || (candidates
                == Map::<HalfedgeId, u32>::empty() && self.one_per_edge(resolved, threshold, shorter, candidates) && self.furthest(
                resolved,
                threshold,
                shorter,
                he,
            ))
    }

    /// Whether `he` is the candidate of the table whose length lies furthest beyond the
    /// threshold: the least where short ones are asked for, the greatest where long
    /// ones are.
    pub open spec fn picked_from(candidates: Map<HalfedgeId, u32>, shorter: bool, he: HalfedgeId) -> bool {
        &&& candidates.dom().contains(he)
        &&& forall|other: HalfedgeId| #[trigger]
            candidates.dom().contains(other) ==> (if shorter {
                candidates[he] <= candidates[other]
            } else {
                candidates[he] >= candidates[other]
            })
    }

    /// Whether `candidates` holds one halfedge for each edge of `resolved` whose length
    /// lies beyond the threshold.
    ///
    /// Every candidate is a live halfedge of `resolved` whose length lies beyond the
    /// threshold, with that length. Every such halfedge is a candidate, unless its twin
    /// is in `resolved` too and stands for the edge: as a candidate, or as a halfedge
    /// that is none. No two candidates are twins of each other.
    pub open spec fn one_per_edge(self, resolved: Set<HalfedgeId>, threshold: u32, shorter: bool, candidates: Map<HalfedgeId, u32>) -> bool {
        &&& forall|he: HalfedgeId| #[trigger]
            candidates.dom().contains(he) ==> resolved.contains(he) && self.is_candidate(he, threshold, shorter) && candidates[he]
                == self.length_squared_of(self.halfedges[he])
        &&& forall|he: HalfedgeId| #[trigger]
            resolved.contains(he) && self.is_candidate(he, threshold, shorter) ==> candidates.dom().contains(he) || (self.twin_of(he) is Some
                && resolved.contains(self.twin_of(he)->0) && (candidates.dom().contains(self.twin_of(he)->0) || !self.is_candidate(
                self.twin_of(he)->0,
                threshold,
                shorter,
            )))
        &&& forall|a: HalfedgeId, b: HalfedgeId|
            a != b && #[trigger] candidates.dom().contains(a) && #[trigger] candidates.dom().contains(b) ==> !(self.twin_of(a) == Some(b)
                && self.twin_of(b) == Some(a))
    }

    /// The candidates after the halfedge `he` has been looked at again: where it is
    /// live, it is a candidate with its length where that lies beyond the threshold and
    /// none otherwise, and its twin is no candidate.
    pub open spec fn edge_reconsidered(self, candidates: Map<HalfedgeId, u32>, he: HalfedgeId, threshold: u32, shorter: bool) -> Map<HalfedgeId, u32> {
        if self.halfedges.dom().contains(he) {
            let length = self.length_squared_of(self.halfedges[he]);
            let own = if Self::beyond(length, threshold, shorter) {
                candidates.insert(he, length)
            } else {
                candidates.remove(he)
            };
            match self.halfedges[he].twin {
                Some(twin) => own.remove(twin),
                None => own,
            }
        } else {
            candidates
        }
    }

    /// The candidates after the first `n` halfedges of `fan` have been looked at again,
    /// one after the other.
    pub open spec fn edges_reconsidered(self, candidates: Map<HalfedgeId, u32>, fan: Seq<HalfedgeId>, n: nat, threshold: u32, shorter: bool) -> Map<
        HalfedgeId,
        u32,
    >
        decreases n,
    {
        if n == 0 || n > fan.len() {
            candidates
        } else {
            self.edge_reconsidered(self.edges_reconsidered(candidates, fan, (n - 1) as nat, threshold, shorter), fan[n - 1], threshold, shorter)
        }
    }

    /// The live halfedges in the fan of the vertex `v`; none where it is not live.
    pub open spec fn live_fan(self, v: VertexId) -> Set<HalfedgeId> {
        Set::new(|he: HalfedgeId| self.vertices.dom().contains(v) && self.fan(self.vertices[v]).contains(he) && self.halfedges.dom().contains(he))
    }

    /// Whether no live halfedge that the selection resolves to is shorter than
    /// `min_length_squared`, both as bit patterns of squared lengths.
    pub open spec fn no_short_edge(self, resolved: Set<HalfedgeId>, min_length_squared: u32) -> bool {
        forall|he: HalfedgeId| #[trigger] resolved.contains(he) ==> !self.is_candidate(he, min_length_squared, true)
    }
}

impl MeshGraph {
    /// Removes one face record from the arena; nothing else changes.
    pub(crate) fn erase_face(&mut self, face_id: FaceId)
        requires
            old(self).wf(),
        ensures
            final(self).wf(),
            final(self).filed() == old(self).filed(),
            final(self).vertex_keys() == old(self).vertex_keys(),
            final(self).halfedge_keys() == old(self).halfedge_keys(),
            final(self).face_keys() == (if old(self)@.faces.dom().contains(face_id) {
                (old(self).face_keys().0.push(crate::arena::bumped(face_id.raw)), old(self).face_keys().1)
            } else {
                old(self).face_keys()
            }),
            final(self)@ == (MeshModel { faces: old(self)@.faces.remove(face_id), ..old(self)@ }),
    {
        if face_id.is_canonical() {
            self.faces.remove(face_id);
        } else {
            proof {
                assert(self@.faces =~= self@.faces.remove(face_id));
            }
        }
    }

    /// Takes out the face beside a halfedge that is about to collapse: the other two
    /// halfedges of the triangle are deleted, their twins are paired with each other,
    /// and the corners that pointed at a deleted halfedge are repointed. The halfedge
    /// itself stays. Gives nothing, and changes nothing, where a part is missing.
    #[verifier::rlimit(50)]
    pub(crate) fn remove_halfedge_face(&mut self, halfedge_id: HalfedgeId) -> (removed: Option<RemovedFace>)
        requires
            old(self).wf(),
        ensures
            final(self).wf(),
            final(self)@.pruned_from(old(self)@),
            final(self)@.vertices.dom() == old(self)@.vertices.dom(),
            final(self)@.positions == old(self)@.positions,
            final(self)@.normals == old(self)@.normals,
            removed is Some <==> old(self)@.face_removable(halfedge_id),
            removed is None ==> final(self)@ == old(self)@,
            removed is Some ==> {
                &&& removed->0.face == old(self)@.halfedges[halfedge_id].face->0
                &&& removed->0.next == old(self)@.halfedges[halfedge_id].next->0
                &&& removed->0.prev == old(self)@.prev_of(old(self)@.halfedges[halfedge_id])->0
                &&& final(self)@.faces == old(self)@.faces.remove(removed->0.face)
                &&& final(self)@.halfedges.dom() == old(self)@.halfedges.dom().remove(removed->0.next).remove(removed->0.prev)
                &&& final(self)@ == old(self)@.face_taken_out(halfedge_id)
            },
    {
        let he = match self.halfedge(halfedge_id) {
            Some(he) => he,
            None => {
                return None;
            },
        };
        let face_id = match he.face {
            Some(face) => face,
            None => {
                return None;
            },
        };
        let face = match self.face(face_id) {
            Some(face) => face,
            None => {
                return None;
            },
        };
        let next_id = match he.next {
            Some(next) => next,
            None => {
                return None;
            },
        };
        let prev_id = match he.prev(self) {
            Some(prev) => prev,
            None => {
                return None;
            },
        };
        let next_he = match self.halfedge(next_id) {
            Some(h) => h,
            None => {
                return None;
            },
        };
        let prev_he = match self.halfedge(prev_id) {
            Some(h) => h,
            None => {
                return None;
            },
        };
        let next_twin_id = match next_he.twin {
            Some(twin) => twin,
            None => {
                return None;
            },
        };
        let prev_twin_id = match prev_he.twin {
            Some(twin) => twin,
            None => {
                return None;
            },
        };
        if self.halfedge(next_twin_id).is_none() || self.halfedge(prev_twin_id).is_none() {
            return None;
        }
        let prev_start_id = match prev_he.start_vertex(self) {
            Some(start) => start,
            None => {
                return None;
            },
        };
        let prev_start = match self.vertex(prev_start_id) {
            Some(vertex) => vertex,
            None => {
                return None;
            },
        };
        let next_end_id = next_he.end_vertex;
        let prev_end_id = prev_he.end_vertex;
        if self.vertex(next_end_id).is_none() || self.vertex(prev_end_id).is_none() {
            return None;
        }
        let next_start = next_he.start_vertex(self);
        self.set_canonical(next_end_id, next_he.next);
        self.set_canonical(prev_end_id, prev_he.next);
        let pointed_at_prev = match self.vertex(prev_start_id) {
            Some(vertex) => same_halfedge(vertex.outgoing_halfedge, Some(prev_id)),
            None => false,
        };
        if pointed_at_prev {
            let replacement = match prev_he.ccw_rotated_neighbour(self) {
                Some(he) => Some(he),
                None => prev_he.cw_rotated_neighbour(self),
            };
            self.set_canonical(prev_start_id, replacement);
        }
        proof {
            assert(self@.vertices.dom() =~= old(self)@.vertices.dom());
        }
        self.bvh.remove(face.index);
        match next_start {
            Some(start) => {
                self.unlist(start, next_id);
            },
            None => {},
        }
        self.unlist(prev_start_id, prev_id);
        self.erase_halfedge(next_id);
        self.erase_halfedge(prev_id);
        self.erase_face(face_id);
        self.set_twin(next_twin_id, Some(prev_twin_id));
        self.set_twin(prev_twin_id, Some(next_twin_id));
        proof {
            assert(self@.vertices.dom() =~= old(self)@.vertices.dom());
            assert(self@.halfedges.dom() =~= old(self)@.halfedges.dom().remove(next_id).remove(prev_id));
        }
        Some(RemovedFace { face: face_id, next: next_id, prev: prev_id })
    }

    /// Collapses the edge of a halfedge into its start vertex.
    ///
    /// The faces on the two sides of the edge are taken out; every halfedge that ended
    /// at the end vertex is led to the start vertex, and the outgoing halfedges of the
    /// end vertex are listed with the start vertex; the end vertex and the two
    /// halfedges of the edge are deleted; the start vertex moves to the middle of the
    /// edge and gets a surviving outgoing halfedge of the end vertex as canonical one;
    /// and the neighbourhood of the start vertex is made manifold.
    ///
    /// Nothing happens where the edge cannot be collapsed, or the face beside the
    /// halfedge cannot be taken out. The work stops when that face is gone, where the
    /// halfedge has no live twin or the face beside the twin cannot be taken out.
    ///
    /// The result lists first what went before the repair, then what the repair took.
    /// Where the collapse leaves a neighbourhood that needs no repair, the mesh is
    /// exactly the collapsed one and the lists hold nothing more.
    #[verifier::rlimit(100)]
    pub fn collapse_edge(&mut self, halfedge_id: HalfedgeId) -> (collapsed: CollapseEdge)
        requires
            old(self).wf(),
        ensures
            final(self).wf(),
            old(self)@.collapse_gives(halfedge_id, final(self)@, collapsed),
    {
        let mut removed_vertices: Vec<VertexId> = Vec::new();
        let mut removed_halfedges: Vec<HalfedgeId> = Vec::new();
        let mut removed_faces: Vec<FaceId> = Vec::new();
        let he = match self.halfedge(halfedge_id) {
            Some(he) => he,
            None => {
                return CollapseEdge { removed_vertices, removed_halfedges, removed_faces, split_vertices: Vec::new() };
            },
        };
        let start_vert_id = match he.start_vertex(self) {
            Some(start) => start,
            None => {
                return CollapseEdge { removed_vertices, removed_halfedges, removed_faces, split_vertices: Vec::new() };
            },
        };
        let end_vert_id = he.end_vertex;
        let end_vertex = match self.vertex(end_vert_id) {
            Some(vertex) => vertex,
            None => {
                return CollapseEdge { removed_vertices, removed_halfedges, removed_faces, split_vertices: Vec::new() };
            },
        };
        let start_pos = match self.position(start_vert_id) {
            Some(position) => position,
            None => {
                return CollapseEdge { removed_vertices, removed_halfedges, removed_faces, split_vertices: Vec::new() };
            },
        };
        let end_pos = match self.position(end_vert_id) {
            Some(position) => position,
            None => {
                return CollapseEdge { removed_vertices, removed_halfedges, removed_faces, split_vertices: Vec::new() };
            },
        };
        proof {
            assert(old(self)@.collapsible(halfedge_id));
        }
        let end_outgoing_halfedges = end_vertex.outgoing_halfedges(self);
        let end_incoming_halfedges = end_vertex.incoming_halfedges(self);
        let end_listed = match self.outgoing_halfedge_list(end_vert_id) {
            Some(list) => list,
            None => Vec::new(),
        };
        let center_pos = midpoint(&start_pos, &end_pos);

        if !he.is_boundary() {
            match self.remove_halfedge_face(halfedge_id) {
                Some(removed) => {
                    removed_faces.push(removed.face);
                    removed_halfedges.push(removed.next);
                    removed_halfedges.push(removed.prev);
                },
                None => {
                    return CollapseEdge { removed_vertices, removed_halfedges, removed_faces, split_vertices: Vec::new() };
                },
            }
        }
        removed_halfedges.push(halfedge_id);
        let ghost near = self@;
        proof {
            assert(near == old(self)@.side_cleared(halfedge_id));
            assert(removed_halfedges@ =~= old(self)@.side_halfedges(halfedge_id).push(halfedge_id));
            assert(removed_faces@ =~= old(self)@.side_faces(halfedge_id));
        }
        let twin_id = match he.twin {
            Some(twin) => twin,
            None => {
                return CollapseEdge { removed_vertices, removed_halfedges, removed_faces, split_vertices: Vec::new() };
            },
        };
        let twin = match self.halfedge(twin_id) {
            Some(twin) => twin,
            None => {
                return CollapseEdge { removed_vertices, removed_halfedges, removed_faces, split_vertices: Vec::new() };
            },
        };
        if !twin.is_boundary() {
            let ghost faces_before = removed_faces@;
            match self.remove_halfedge_face(twin_id) {
                Some(removed) => {
                    removed_faces.push(removed.face);
                    removed_halfedges.push(removed.next);
                    removed_halfedges.push(removed.prev);
                    proof {
                        lemma_faces_gone_carries(near, self@, faces_before, removed_faces@, 0);
                    }
                },
                None => {
                    return CollapseEdge { removed_vertices, removed_halfedges, removed_faces, split_vertices: Vec::new() };
                },
            }
        }
        removed_halfedges.push(twin_id);
        let ghost cleared = self@;
        proof {
            assert(old(self)@.far_side_clearable(halfedge_id));
            assert(cleared == near.side_cleared(twin_id));
            assert(removed_faces@ =~= old(self)@.faces_before_repair(halfedge_id));
        }

        let mut i: usize = 0;
        while i < end_incoming_halfedges.len()
            invariant
                i <= end_incoming_halfedges.len(),
                self.wf(),
                self@.pruned_from(old(self)@),
                self@.faces_gone(removed_faces@, 0),
                self@ == cleared.led_to(end_incoming_halfedges@, start_vert_id, i as nat),
            decreases end_incoming_halfedges.len() - i,
        {
            let ghost before = self@;
            self.set_end(end_incoming_halfedges[i], start_vert_id);
            proof {
                assert(self@.halfedges.dom() =~= before.halfedges.dom());
            }
            i = i + 1;
        }
        let ghost led = self@;
        let mut inherited = match self.outgoing_halfedge_list(start_vert_id) {
            Some(list) => list,
            None => Vec::new(),
        };
        let ghost own = inherited@;
        let ghost keep = led.keeps_but(halfedge_id, twin_id);
        let mut k: usize = 0;
        while k < end_listed.len()
            invariant
                k <= end_listed.len(),
                self.wf(),
                self@ == led,
                keep == led.keeps_but(halfedge_id, twin_id),
                inherited@ == own + filter_map_prefix(end_listed@, keep, k as nat),
            decreases end_listed.len() - k,
        {
            let listed = end_listed[k];
            if listed != twin_id && listed != halfedge_id && self.halfedge(listed).is_some() {
                inherited.push(listed);
            }
            proof {
                assert(inherited@ =~= own + filter_map_prefix(end_listed@, keep, (k + 1) as nat));
            }
            k = k + 1;
        }
        proof {
            assert(inherited@ == led.own_list(start_vert_id) + led.live_but(end_listed@, halfedge_id, twin_id));
        }
        self.set_outgoing_halfedge_list(start_vert_id, inherited);
        self.delete_only_vertex(end_vert_id);
        self.unlist(start_vert_id, halfedge_id);
        self.erase_halfedge(halfedge_id);
        self.erase_halfedge(twin_id);
        removed_halfedges.push(twin_id);
        self.set_position(start_vert_id, center_pos);
        let ghost moved = self@;

        let mut canonical: Option<HalfedgeId> = None;
        let mut j: usize = 0;
        while j < end_outgoing_halfedges.len() && canonical.is_none()
            invariant
                j <= end_outgoing_halfedges.len(),
                self.wf(),
                self@ == moved,
                moved.first_live(end_outgoing_halfedges@, 0) == (if canonical is Some {
                    canonical
                } else {
                    moved.first_live(end_outgoing_halfedges@, j as nat)
                }),
            decreases end_outgoing_halfedges.len() - j,
        {
            if self.halfedge(end_outgoing_halfedges[j]).is_some() {
                canonical = Some(end_outgoing_halfedges[j]);
            }
            j = j + 1;
        }
        self.set_canonical(start_vert_id, canonical);
        removed_vertices.push(end_vert_id);

        let ghost before = self@;
        let ghost vertices_before = removed_vertices@;
        let ghost halfedges_before = removed_halfedges@;
        let ghost faces_before = removed_faces@;
        proof {
            assert(before == old(self)@.collapsed_unrepaired(halfedge_id));
            assert(halfedges_before =~= old(self)@.halfedges_before_repair(halfedge_id));
            assert(vertices_before =~= seq![end_vert_id]);
        }
        let mut cleanup = self.make_vertex_neighborhood_manifold(start_vert_id);
        let ghost repaired_halfedges = cleanup.removed_halfedges@;
        removed_vertices.append(&mut cleanup.removed_vertices);
        removed_halfedges.append(&mut cleanup.removed_halfedges);
        proof {
            assert(self@.faces_gone(faces_before, 0)) by {
                assert forall|q: int| 0 <= q < faces_before.len() implies !self@.faces.dom().contains(#[trigger] faces_before[q]) by {
                    assert(!before.faces.dom().contains(faces_before[q]));
                }
            }
            lemma_faces_append_gone(self@, faces_before, cleanup.removed_faces@);
            assert forall|q: int| halfedges_before.len() <= q < removed_halfedges@.len() implies !self@.halfedges.dom().contains(
                #[trigger] removed_halfedges@[q],
            ) by {
                assert(removed_halfedges@[q] == repaired_halfedges[q - halfedges_before.len()]);
            }
        }
        removed_faces.append(&mut cleanup.removed_faces);
        proof {
            assert(removed_vertices@.len() == vertices_before.len() ==> removed_vertices@ =~= vertices_before);
            assert(removed_halfedges@.len() == halfedges_before.len() ==> removed_halfedges@ =~= halfedges_before);
            assert(removed_faces@.len() == faces_before.len() ==> removed_faces@ =~= faces_before);
        }
        CollapseEdge { removed_vertices, removed_halfedges, removed_faces, split_vertices: cleanup.split_vertices }
    }

    /// Looks again at the outgoing halfedges of a vertex after a collapse: each live
    /// one becomes a candidate where it is shorter than the threshold and stops being
    /// one otherwise, its twin stops being a candidate, the bounding box of its face is
    /// filed anew, and the halfedge is selected.
    pub(crate) fn reconsider_edges_at(
        &mut self,
        vertex_id: VertexId,
        min_length_squared: u32,
        candidates: &mut EdgeLengths,
        selection: &mut Selection,
    )
        requires
            old(self).wf(),
        ensures
            final(self)@ == old(self)@,
            final(selection)@.vertices == old(selection)@.vertices,
            final(selection)@.faces == old(selection)@.faces,
            old(selection)@.halfedges.subset_of(final(selection)@.halfedges),
            final(selection)@.halfedges.subset_of(old(selection)@.halfedges.union(old(self)@.halfedges.dom())),
            final(selection)@.halfedges == old(selection)@.halfedges.union(old(self)@.live_fan(vertex_id)),
            final(candidates)@ == (if old(self)@.vertices.dom().contains(vertex_id) {
                old(self)@.edges_reconsidered(
                    old(candidates)@,
                    old(self)@.fan(old(self)@.vertices[vertex_id]),
                    old(self)@.fan(old(self)@.vertices[vertex_id]).len(),
                    min_length_squared,
                    true,
                )
            } else {
                old(candidates)@
            }),
    {
        let vertex = match self.vertex(vertex_id) {
            Some(vertex) => vertex,
            None => {
                proof {
                    assert(selection@.halfedges =~= old(selection)@.halfedges.union(old(self)@.live_fan(vertex_id)));
                }
                return ;
            },
        };
        let fan = vertex.outgoing_halfedges(self);
        let mut i: usize = 0;
        while i < fan.len()
            invariant
                i <= fan.len(),
                self.wf(),
                self@ == old(self)@,
                self@.vertices.dom().contains(vertex_id),
                fan@ == self@.fan(self@.vertices[vertex_id]),
                selection@.vertices == old(selection)@.vertices,
                selection@.faces == old(selection)@.faces,
                old(selection)@.halfedges.subset_of(selection@.halfedges),
                selection@.halfedges.subset_of(old(selection)@.halfedges.union(old(self)@.halfedges.dom())),
                forall|he: HalfedgeId| #[trigger]
                    selection@.halfedges.contains(he) <==> old(selection)@.halfedges.contains(he) || (self@.halfedges.dom().contains(he) && exists|k: int|
                        0 <= k < i && fan@[k] == he),
                candidates@ == self@.edges_reconsidered(old(candidates)@, fan@, i as nat, min_length_squared, true),
            decreases fan.len() - i,
        {
            let he_id = fan[i];
            let ghost selected = selection@.halfedges;
            match self.halfedge(he_id) {
                Some(he) => {
                    let len = he.length_squared(self);
                    if len < min_length_squared {
                        candidates.insert(he_id, len);
                    } else {
                        candidates.remove(he_id);
                    }
                    match he.twin {
                        Some(twin) => {
                            candidates.remove(twin);
                        },
                        None => {},
                    }
                    match he.face {
                        Some(face_id) => {
                            self.update_face_bounds(face_id);
                        },
                        None => {},
                    }
                    selection.insert(he_id);
                },
                None => {},
            }
            proof {
                let n = (i + 1) as nat;
                assert(self@.edges_reconsidered(old(candidates)@, fan@, n, min_length_squared, true) == self@.edge_reconsidered(
                    self@.edges_reconsidered(old(candidates)@, fan@, (n - 1) as nat, min_length_squared, true),
                    fan@[n - 1],
                    min_length_squared,
                    true,
                ));
                assert forall|he: HalfedgeId| #[trigger]
                    selection@.halfedges.contains(he) <==> old(selection)@.halfedges.contains(he) || (self@.halfedges.dom().contains(he) && exists|k: int|
                        0 <= k < i + 1 && fan@[k] == he) by {
                    if selected.contains(he) && !old(selection)@.halfedges.contains(he) {
                        let k = choose|k: int| 0 <= k < i && fan@[k] == he;
                        assert(0 <= k < i + 1 && fan@[k] == he);
                    }
                    if self@.halfedges.dom().contains(he) && exists|k: int| 0 <= k < i + 1 && fan@[k] == he {
                        let k = choose|k: int| 0 <= k < i + 1 && fan@[k] == he;
                        if k < i {
                            assert(selected.contains(he));
                        }
                    }
                }
            }
            i = i + 1;
        }
        proof {
            assert(selection@.halfedges =~= old(selection)@.halfedges.union(old(self)@.live_fan(vertex_id))) by {
                assert forall|he: HalfedgeId| old(self)@.live_fan(vertex_id).contains(he) implies selection@.halfedges.contains(he) by {
                    let k = choose|k: int| 0 <= k < fan@.len() && fan@[k] == he;
                    assert(0 <= k < i && fan@[k] == he);
                }
            }
        }
    }

    /// The halfedges that a selection resolves to, one for each edge, with the squared
    /// length of each that is shorter than the threshold.
    pub(crate) fn short_edges(&self, min_length_squared: u32, selection: &Selection) -> (candidates: EdgeLengths)
        requires
            self.wf(),
        ensures
            self@.no_short_edge(selection@.resolved_halfedges(self@), min_length_squared) ==> candidates@ == Map::<HalfedgeId, u32>::empty(),
            forall|he: HalfedgeId| #[trigger] candidates@.dom().contains(he) ==> selection@.resolved_halfedges(self@).contains(he)
                && self@.halfedges.dom().contains(he) && candidates@[he] == self@.length_squared_of(self@.halfedges[he]) && candidates@[he]
                < min_length_squared,
            self@.one_per_edge(selection@.resolved_halfedges(self@), min_length_squared, true, candidates@),
    {
        let candidates = self.edges_beyond(min_length_squared, true, selection);
        proof {
            if self@.no_short_edge(selection@.resolved_halfedges(self@), min_length_squared) {
                assert(candidates@ =~= Map::<HalfedgeId, u32>::empty());
            }
        }
        candidates
    }

    /// One halfedge for each edge that a selection resolves to and whose length lies
    /// beyond the threshold, with its squared length: of two twins, the one that the
    /// walk through the resolved halfedges comes to first. In which order the walk
    /// goes is not stated.
    #[verifier::rlimit(50)]
    pub(crate) fn edges_beyond(&self, threshold: u32, shorter: bool, selection: &Selection) -> (candidates: EdgeLengths)
        requires
            self.wf(),
        ensures
            self@.one_per_edge(selection@.resolved_halfedges(self@), threshold, shorter, candidates@),
    {
        let resolved = selection.resolve_to_halfedges(self);
        let list = resolved.to_vec();
        let mut dedup = HalfedgeSet::new();
        let mut i: usize = 0;
        while i < list.len()
            invariant
                i <= list.len(),
                self.wf(),
                dedup@.subset_of(list@.to_set()),
                forall|j: int|
                    0 <= j < i ==> dedup@.contains(#[trigger] list@[j]) || (self@.twin_of(list@[j]) is Some && dedup@.contains(self@.twin_of(list@[j])->0)),
                forall|a: HalfedgeId, b: HalfedgeId|
                    a != b && #[trigger] dedup@.contains(a) && #[trigger] dedup@.contains(b) ==> !(self@.twin_of(a) == Some(b) && self@.twin_of(b)
                        == Some(a)),
            decreases list.len() - i,
        {
            let twin_already_in = match self.halfedge(list[i]) {
                Some(he) => match he.twin {
                    Some(twin) => dedup.contains(twin),
                    None => false,
                },
                None => false,
            };
            if !twin_already_in {
                proof {
                    assert(list@.to_set().contains(list@[i as int]));
                }
                dedup.insert(list[i]);
            }
            i = i + 1;
        }
        let singles = dedup.to_vec();
        let mut candidates = EdgeLengths::new();
        let mut k: usize = 0;
        while k < singles.len()
            invariant
                k <= singles.len(),
                self.wf(),
                singles@.to_set() == dedup@,
                forall|he: HalfedgeId| #[trigger]
                    candidates@.dom().contains(he) <==> self@.is_candidate(he, threshold, shorter) && exists|j: int| 0 <= j < k && singles@[j] == he,
                forall|he: HalfedgeId| #[trigger] candidates@.dom().contains(he) ==> candidates@[he] == self@.length_squared_of(self@.halfedges[he]),
            decreases singles.len() - k,
        {
            let ghost before = candidates@;
            match self.halfedge(singles[k]) {
                Some(he) => {
                    let len = he.length_squared(self);
                    let wanted = if shorter {
                        len < threshold
                    } else {
                        len > threshold && len <= crate::geometry::INFINITE
                    };
                    if wanted {
                        candidates.insert(singles[k], len);
                    }
                },
                None => {},
            }
            proof {
                assert forall|he: HalfedgeId| #[trigger]
                    candidates@.dom().contains(he) <==> self@.is_candidate(he, threshold, shorter) && exists|j: int|
                        0 <= j < k + 1 && singles@[j] == he by {
                    if before.dom().contains(he) {
                        let j = choose|j: int| 0 <= j < k && singles@[j] == he;
                        assert(0 <= j < k + 1 && singles@[j] == he);
                    }
                    if self@.is_candidate(he, threshold, shorter) && exists|j: int| 0 <= j < k + 1 && singles@[j] == he {
                        let j = choose|j: int| 0 <= j < k + 1 && singles@[j] == he;
                        if j < k {
                            assert(before.dom().contains(he));
                        }
                    }
                }
            }
            k = k + 1;
        }
        proof {
            let wanted = selection@.resolved_halfedges(self@);
            assert forall|he: HalfedgeId| #[trigger] candidates@.dom().contains(he) implies dedup@.contains(he) by {
                let j = choose|j: int| 0 <= j < k && singles@[j] == he;
                assert(singles@.to_set().contains(singles@[j]));
            }
            assert forall|he: HalfedgeId| dedup@.contains(he) && self@.is_candidate(he, threshold, shorter) implies candidates@.dom().contains(he) by {
                assert(singles@.to_set().contains(he));
                let j = choose|j: int| 0 <= j < singles@.len() && singles@[j] == he;
                assert(0 <= j < k && singles@[j] == he);
            }
            assert forall|he: HalfedgeId| #[trigger] wanted.contains(he) && self@.is_candidate(he, threshold, shorter) implies candidates@.dom().contains(he)
                || (self@.twin_of(he) is Some && wanted.contains(self@.twin_of(he)->0) && (candidates@.dom().contains(self@.twin_of(he)->0)
                || !self@.is_candidate(self@.twin_of(he)->0, threshold, shorter))) by {
                assert(list@.to_set().contains(he));
                let j = choose|j: int| 0 <= j < list@.len() && list@[j] == he;
                assert(dedup@.contains(list@[j]) || (self@.twin_of(list@[j]) is Some && dedup@.contains(self@.twin_of(list@[j])->0)));
            }
        }
        candidates
    }

    /// The live halfedge that a selection resolves to whose length lies furthest beyond
    /// the threshold: the shortest of the short ones, or the longest of the long ones.
    /// Nothing where the length of none lies beyond it. Which one it is among several
    /// of the same length is not stated.
    pub(crate) fn furthest_beyond(&self, threshold: u32, shorter: bool, selection: &Selection) -> (found: Option<HalfedgeId>)
        requires
            self.wf(),
        ensures
            found is None ==> forall|he: HalfedgeId| #[trigger]
                selection@.resolved_halfedges(self@).contains(he) ==> !self@.is_candidate(he, threshold, shorter),
            found is Some ==> self@.furthest(selection@.resolved_halfedges(self@), threshold, shorter, found->0),
    {
        let list = selection.resolve_to_halfedges(self).to_vec();
        let mut best: Option<HalfedgeId> = None;
        let mut best_len: u32 = 0;
        let mut i: usize = 0;
        while i < list.len()
            invariant
                i <= list.len(),
                self.wf(),
                list@.to_set() == selection@.resolved_halfedges(self@),
                best is None ==> forall|k: int| 0 <= k < i ==> !self@.is_candidate(#[trigger] list@[k], threshold, shorter),
                best is Some ==> {
                    &&& list@.to_set().contains(best->0)
                    &&& self@.is_candidate(best->0, threshold, shorter)
                    &&& best_len == self@.length_squared_of(self@.halfedges[best->0])
                    &&& forall|k: int|
                        0 <= k < i && self@.is_candidate(#[trigger] list@[k], threshold, shorter) ==> (if shorter {
                            best_len <= self@.length_squared_of(self@.halfedges[list@[k]])
                        } else {
                            best_len >= self@.length_squared_of(self@.halfedges[list@[k]])
                        })
                },
            decreases list.len() - i,
        {
            match self.halfedge(list[i]) {
                Some(he) => {
                    let len = he.length_squared(self);
                    let wanted = if shorter {
                        len < threshold
                    } else {
                        len > threshold && len <= crate::geometry::INFINITE
                    };
                    let better = match best {
                        Some(_) => if shorter {
                            len < best_len
                        } else {
                            len > best_len
                        },
                        None => true,
                    };
                    if wanted && better {
                        proof {
                            assert(list@.to_set().contains(list@[i as int]));
                        }
                        best = Some(list[i]);
                        best_len = len;
                    }
                },
                None => {},
            }
            i = i + 1;
        }
        proof {
            let resolved = selection@.resolved_halfedges(self@);
            assert forall|he: HalfedgeId| #[trigger] resolved.contains(he) && self@.is_candidate(he, threshold, shorter) implies best is Some && (if shorter {
                best_len <= self@.length_squared_of(self@.halfedges[he])
            } else {
                best_len >= self@.length_squared_of(self@.halfedges[he])
            }) by {
                assert(list@.to_set().contains(he));
                let k = choose|k: int| 0 <= k < list@.len() && list@[k] == he;
                assert(self@.is_candidate(list@[k], threshold, shorter));
            }
        }
        best
    }

    /// Collapses the edge of `he` and notes what that did: the removed elements leave
    /// the selection and the candidates, the vertices that the repair split are
    /// marked, and the edges at the surviving vertex and at the split ones are looked at
    /// again.
    #[verifier::rlimit(50)]
    pub(crate) fn collapse_and_note(
        &mut self,
        he_id: HalfedgeId,
        min_length_squared: u32,
        candidates: &mut EdgeLengths,
        selection: &mut Selection,
        marked_vertices: &mut VertexSet,
    ) -> (collapsed: CollapseEdge)
        requires
            old(self).wf(),
        ensures
            final(self).wf(),
            old(self)@.collapse_gives(he_id, final(self)@, collapsed),
            old(marked_vertices)@.subset_of(final(marked_vertices)@),
            final(selection)@.vertices.subset_of(old(selection)@.vertices),
            final(selection)@.faces.subset_of(old(selection)@.faces),
            final(selection)@.halfedges.subset_of(old(selection)@.halfedges.union(old(self)@.halfedges.dom())),
    {
        let start_vertex = match self.halfedge(he_id) {
            Some(he) => he.start_vertex(self),
            None => None,
        };
        let collapsed = self.collapse_edge(he_id);
        let ghost after = self@;
        candidates.remove(he_id);
        let mut a: usize = 0;
        while a < collapsed.removed_vertices.len()
            invariant
                a <= collapsed.removed_vertices.len(),
                selection@.vertices.subset_of(old(selection)@.vertices),
                selection@.faces.subset_of(old(selection)@.faces),
                selection@.halfedges.subset_of(old(selection)@.halfedges.union(old(self)@.halfedges.dom())),
            decreases collapsed.removed_vertices.len() - a,
        {
            selection.remove(collapsed.removed_vertices[a]);
            a = a + 1;
        }
        let mut b: usize = 0;
        while b < collapsed.removed_halfedges.len()
            invariant
                b <= collapsed.removed_halfedges.len(),
                selection@.vertices.subset_of(old(selection)@.vertices),
                selection@.faces.subset_of(old(selection)@.faces),
                selection@.halfedges.subset_of(old(selection)@.halfedges.union(old(self)@.halfedges.dom())),
            decreases collapsed.removed_halfedges.len() - b,
        {
            selection.remove(collapsed.removed_halfedges[b]);
            candidates.remove(collapsed.removed_halfedges[b]);
            b = b + 1;
        }
        let mut c: usize = 0;
        while c < collapsed.removed_faces.len()
            invariant
                c <= collapsed.removed_faces.len(),
                selection@.vertices.subset_of(old(selection)@.vertices),
                selection@.faces.subset_of(old(selection)@.faces),
                selection@.halfedges.subset_of(old(selection)@.halfedges.union(old(self)@.halfedges.dom())),
            decreases collapsed.removed_faces.len() - c,
        {
            selection.remove(collapsed.removed_faces[c]);
            c = c + 1;
        }
        match start_vertex {
            Some(start) => {
                self.reconsider_edges_at(start, min_length_squared, candidates, selection);
            },
            None => {},
        }
        let mut d: usize = 0;
        while d < collapsed.split_vertices.len()
            invariant
                d <= collapsed.split_vertices.len(),
                self.wf(),
                self@ == after,
                after.pruned_from(old(self)@),
                old(marked_vertices)@.subset_of(marked_vertices@),
                selection@.vertices.subset_of(old(selection)@.vertices),
                selection@.faces.subset_of(old(selection)@.faces),
                selection@.halfedges.subset_of(old(selection)@.halfedges.union(old(self)@.halfedges.dom())),
            decreases collapsed.split_vertices.len() - d,
        {
            marked_vertices.insert(collapsed.split_vertices[d]);
            self.reconsider_edges_at(collapsed.split_vertices[d], min_length_squared, candidates, selection);
            d = d + 1;
        }
        collapsed
    }

    /// Collapses the edges of a selection until none is shorter than the threshold.
    ///
    /// The threshold is the bit pattern of a squared length that is a number and not
    /// negative. One halfedge of each selected edge that is shorter than the threshold
    /// is a candidate. The shortest candidate is collapsed, again and again; which one
    /// it is among several of the same length is not stated. After each collapse the
    /// removed elements leave the selection and the candidates, the vertices that the
    /// repair split are marked, and the edges at the surviving vertex and at the marked
    /// ones are looked at again. When no candidate is left, the selection is gone
    /// through once more, and the shortest halfedge that is still shorter than the
    /// threshold is collapsed in the same way, until there is none. The work never
    /// takes more collapses than the mesh had halfedges, and one.
    ///
    /// The spatial index is updated for the faces that were touched; refitting it is
    /// left to the caller. Where no selected edge is shorter than the threshold,
    /// nothing changes.
    #[verifier::rlimit(100)]
    pub fn collapse_until_edges_above_min_length(&mut self, min_length_squared: u32, selection: &mut Selection, marked_vertices: &mut VertexSet)
        requires
            old(self).wf(),
            min_length_squared <= crate::geometry::INFINITE,
        ensures
            final(self).wf(),
            final(self)@.pruned_from(old(self)@),
            exists|n: nat| #[trigger]
                old(self)@.collapses_to(final(self)@, n) && n <= old(self)@.halfedges.dom().len() + 1 && (n == old(self)@.halfedges.dom().len() + 1
                    || final(self)@.no_short_edge(final(selection)@.resolved_halfedges(final(self)@), min_length_squared)),
            !old(self)@.no_short_edge(old(selection)@.resolved_halfedges(old(self)@), min_length_squared) ==> exists|
                he: HalfedgeId,
                mid: MeshModel,
                collapsed: CollapseEdge,
                n: nat,
            |
                #![trigger old(self)@.collapse_gives(he, mid, collapsed), mid.collapses_to(final(self)@, n)]
                old(self)@.first_pick(old(selection)@.resolved_halfedges(old(self)@), min_length_squared, true, he) && old(self)@.collapse_gives(
                    he,
                    mid,
                    collapsed,
                ) && mid.collapses_to(final(self)@, n),
            old(marked_vertices)@.subset_of(final(marked_vertices)@),
            final(selection)@.vertices.subset_of(old(selection)@.vertices),
            final(selection)@.faces.subset_of(old(selection)@.faces),
            final(selection)@.halfedges.subset_of(old(selection)@.halfedges.union(old(self)@.halfedges.dom())),
            old(self)@.no_short_edge(old(selection)@.resolved_halfedges(old(self)@), min_length_squared) ==> final(self)@ == old(self)@
                && final(selection)@ == old(selection)@ && final(marked_vertices)@ == old(marked_vertices)@,
    {
        let mut candidates = self.short_edges(min_length_squared, selection);
        let mut rounds: usize = self.halfedge_count() + 1;
        let mut finished = false;
        let mut touched = false;
        let ghost bound = old(self)@.halfedges.dom().len() + 1;
        let ghost start_resolved = old(selection)@.resolved_halfedges(old(self)@);
        let ghost mut done: nat = 0;
        let ghost mut first_he: HalfedgeId = HalfedgeId { raw: 0 };
        let ghost mut first_mid: MeshModel = old(self)@;
        let ghost mut first_collapsed: Option<CollapseEdge> = None;
        let ghost mut later: nat = 0;
        while rounds > 0 && !finished
            invariant
                self.wf(),
                min_length_squared <= crate::geometry::INFINITE,
                self@.pruned_from(old(self)@),
                old(self)@.collapses_to(self@, done),
                done + rounds == bound,
                bound == old(self)@.halfedges.dom().len() + 1,
                start_resolved == old(selection)@.resolved_halfedges(old(self)@),
                old(marked_vertices)@.subset_of(marked_vertices@),
                selection@.vertices.subset_of(old(selection)@.vertices),
                selection@.faces.subset_of(old(selection)@.faces),
                selection@.halfedges.subset_of(old(selection)@.halfedges.union(old(self)@.halfedges.dom())),
                !touched ==> self@ == old(self)@ && selection@ == old(selection)@ && marked_vertices@ == old(marked_vertices)@ && old(self)@.one_per_edge(
                    start_resolved,
                    min_length_squared,
                    true,
                    candidates@,
                ),
                touched <==> first_collapsed is Some,
                !touched ==> done == 0,
                touched ==> old(self)@.first_pick(start_resolved, min_length_squared, true, first_he) && old(self)@.collapse_gives(
                    first_he,
                    first_mid,
                    first_collapsed->0,
                ) && first_mid.collapses_to(self@, later),
                old(self)@.no_short_edge(start_resolved, min_length_squared) ==> !touched && candidates@ == Map::<HalfedgeId, u32>::empty(),
                finished ==> candidates@ == Map::<HalfedgeId, u32>::empty(),
            decreases rounds + (if finished { 0int } else { 1int }),
        {
            let entries = candidates.entries();
            if entries.len() == 0 {
                finished = true;
            } else {
                rounds = rounds - 1;
                let mut min_len: u32 = crate::geometry::INFINITE;
                let mut min_he = entries[0].0;
                let mut e: usize = 0;
                let ghost mut at: int = 0;
                while e < entries.len()
                    invariant
                        e <= entries.len(),
                        entries@.len() > 0,
                        0 <= at < entries@.len(),
                        entries@[at].0 == min_he,
                        min_len <= crate::geometry::INFINITE,
                        forall|k: int| 0 <= k < e ==> min_len <= (#[trigger] entries@[k]).1,
                        e == 0 ==> min_len == crate::geometry::INFINITE,
                        e > 0 && entries@[0].1 < crate::geometry::INFINITE ==> entries@[at].1 == min_len,
                    decreases entries.len() - e,
                {
                    if entries[e].1 < min_len {
                        min_len = entries[e].1;
                        min_he = entries[e].0;
                        proof {
                            at = e as int;
                        }
                    }
                    e = e + 1;
                }
                proof {
                    if !touched {
                        let cands = candidates@;
                        assert(cands.dom().contains(entries@[0].0));
                        assert(entries@[0].1 < crate::geometry::INFINITE);
                        assert(cands.dom().contains(entries@[at].0));
                        assert(cands.dom().contains(min_he) && cands[min_he] == min_len);
                        assert forall|other: HalfedgeId| #[trigger] cands.dom().contains(other) implies cands[min_he] <= cands[other] by {
                            let q = choose|q: int| 0 <= q < entries@.len() && (#[trigger] entries@[q]).0 == other;
                            assert(min_len <= entries@[q].1);
                        }
                        assert(MeshModel::picked_from(cands, true, min_he));
                        assert(old(self)@.first_pick(start_resolved, min_length_squared, true, min_he));
                    }
                }
                let ghost before = self@;
                let collapsed = self.collapse_and_note(min_he, min_length_squared, &mut candidates, selection, marked_vertices);
                proof {
                    assert(before.collapse_gives(min_he, self@, collapsed));
                    done = done + 1;
                    assert(old(self)@.collapses_to(self@, done));
                    if !touched {
                        let k = choose|k: int| 0 <= k < entries@.len() && (#[trigger] entries@[k]).0 == min_he;
                        first_he = min_he;
                        first_mid = self@;
                        first_collapsed = Some(collapsed);
                        later = 0;
                    } else {
                        later = later + 1;
                        assert(first_mid.collapses_to(self@, later));
                    }
                }
                touched = true;
            }
        }
        let mut clean = false;
        while rounds > 0 && !clean
            invariant
                self.wf(),
                self@.pruned_from(old(self)@),
                old(self)@.collapses_to(self@, done),
                done + rounds == bound,
                bound == old(self)@.halfedges.dom().len() + 1,
                start_resolved == old(selection)@.resolved_halfedges(old(self)@),
                old(marked_vertices)@.subset_of(marked_vertices@),
                selection@.vertices.subset_of(old(selection)@.vertices),
                selection@.faces.subset_of(old(selection)@.faces),
                selection@.halfedges.subset_of(old(selection)@.halfedges.union(old(self)@.halfedges.dom())),
                !touched ==> self@ == old(self)@ && selection@ == old(selection)@ && marked_vertices@ == old(marked_vertices)@ && candidates@
                    == Map::<HalfedgeId, u32>::empty() && old(self)@.one_per_edge(start_resolved, min_length_squared, true, candidates@),
                touched <==> first_collapsed is Some,
                !touched ==> done == 0,
                !touched && !old(self)@.no_short_edge(start_resolved, min_length_squared) ==> !clean,
                touched ==> old(self)@.first_pick(start_resolved, min_length_squared, true, first_he) && old(self)@.collapse_gives(
                    first_he,
                    first_mid,
                    first_collapsed->0,
                ) && first_mid.collapses_to(self@, later),
                old(self)@.no_short_edge(start_resolved, min_length_squared) ==> !touched,
                clean ==> self@.no_short_edge(selection@.resolved_halfedges(self@), min_length_squared),
            decreases rounds + (if clean { 0int } else { 1int }),
        {
            match self.furthest_beyond(min_length_squared, true, selection) {
                None => {
                    clean = true;
                },
                Some(he_id) => {
                    rounds = rounds - 1;
                    let ghost before = self@;
                    let collapsed = self.collapse_and_note(he_id, min_length_squared, &mut candidates, selection, marked_vertices);
                    proof {
                        assert(before.collapse_gives(he_id, self@, collapsed));
                        done = done + 1;
                        assert(old(self)@.collapses_to(self@, done));
                        if !touched {
                            first_he = he_id;
                            first_mid = self@;
                            first_collapsed = Some(collapsed);
                            later = 0;
                        } else {
                            later = later + 1;
                            assert(first_mid.collapses_to(self@, later));
                        }
                    }
                    touched = true;
                },
            }
        }
        proof {
            if !old(self)@.no_short_edge(start_resolved, min_length_squared) {
                assert(touched);
                assert(old(self)@.collapse_gives(first_he, first_mid, first_collapsed->0) && first_mid.collapses_to(self@, later));
            }
        }
    }
}

/// Two lists of faces that are gone, one behind the other, are a list of faces that are
/// gone.
pub proof fn lemma_faces_append_gone(m: MeshModel, list: Seq<FaceId>, more: Seq<FaceId>)
    requires
        m.faces_gone(list, 0),
        m.faces_gone(more, 0),
    ensures
        m.faces_gone(list + more, 0),
{
    assert forall|i: int| 0 <= i < (list + more).len() implies !m.faces.dom().contains(#[trigger] (list + more)[i]) by {
        if i < list.len() {
            assert((list + more)[i] == list[i]);
        } else {
            assert((list + more)[i] == more[i - list.len()]);
        }
    }
}

} // verus!
