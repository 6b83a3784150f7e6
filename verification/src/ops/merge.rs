//! Merging two vertices by stitching their one-rings together.
//!
//! The faces round the two vertices are taken out, which leaves two holes, and the rims
//! of the holes are joined by new triangles. Vertices that the two rims have in common
//! divide the rims into stretches that are stitched one by one.

use vstd::prelude::*;
use crate::geometry::{distance_squared, vec3_distance_squared};
use crate::ids::{FaceId, HalfedgeId, VertexId};
use crate::idset::{HalfedgeSet, VertexSet};
use crate::mesh::{MeshGraph, MeshModel};
use crate::ops::collapse::CollapseEdge;
use crate::ops::create::CreateFace;
use crate::ops::insert::InsertOrGetEdge;
use crate::ops::manifold::VertexNeighborhoodCleanup;
use crate::ops::merge_plan::{
    corners_of, lemma_corners_of_concat, lemma_ring_step, lemma_strip_unfolds, preceding, shared_run, sought, stitching, stretch_between,
    stretches_of, strip, walked_stretches, ConnectPair, IndexRange, Pairing, PlannedFace, RingWalk, Stretch,
};
use crate::traverse::filter_map_prefix;
use crate::traverse::filter_map_seq;

verus! {

/// What a merge of two vertices took away and added.
pub struct MergeVerticesOneRing {
    pub removed_vertices: Vec<VertexId>,
    pub removed_halfedges: Vec<HalfedgeId>,
    pub removed_faces: Vec<FaceId>,
    pub added_halfedges: Vec<HalfedgeId>,
    pub added_faces: Vec<FaceId>,
    pub added_vertices: Vec<VertexId>,
}

/// The bit pattern of the single-precision infinity, above every squared length that is
/// a number.
pub const INFINITE_LENGTH: u32 = 2139095040;

/// What the lists of a merge hold.
pub struct MergeLists {
    pub removed_vertices: Seq<VertexId>,
    pub removed_halfedges: Seq<HalfedgeId>,
    pub removed_faces: Seq<FaceId>,
    pub added_halfedges: Seq<HalfedgeId>,
    pub added_faces: Seq<FaceId>,
    pub added_vertices: Seq<VertexId>,
}

impl View for MergeVerticesOneRing {
    type V = MergeLists;

    open spec fn view(&self) -> MergeLists {
        MergeLists {
            removed_vertices: self.removed_vertices@,
            removed_halfedges: self.removed_halfedges@,
            removed_faces: self.removed_faces@,
            added_halfedges: self.added_halfedges@,
            added_faces: self.added_faces@,
            added_vertices: self.added_vertices@,
        }
    }
}

/// The first duplicate that a repair made, where it split a vertex.
pub open spec fn first_duplicate(split_vertices: Seq<VertexId>) -> Seq<VertexId> {
    if split_vertices.len() >= 2 {
        seq![split_vertices[1]]
    } else {
        Seq::empty()
    }
}

impl MergeLists {
    /// Six empty lists.
    pub open spec fn empty() -> MergeLists {
        MergeLists {
            removed_vertices: Seq::empty(),
            removed_halfedges: Seq::empty(),
            removed_faces: Seq::empty(),
            added_halfedges: Seq::empty(),
            added_faces: Seq::empty(),
            added_vertices: Seq::empty(),
        }
    }

    /// The lists with what a collapse took away and split: of the vertices that were
    /// split, the first duplicate is listed as added.
    pub open spec fn with_collapsed(self, collapsed: CollapseEdge) -> MergeLists {
        MergeLists {
            removed_vertices: self.removed_vertices + collapsed.removed_vertices@,
            removed_halfedges: self.removed_halfedges + collapsed.removed_halfedges@,
            removed_faces: self.removed_faces + collapsed.removed_faces@,
            added_vertices: self.added_vertices + first_duplicate(collapsed.split_vertices@),
            ..self
        }
    }

    /// The lists with the deleted face `f` and the vertices and halfedges that went
    /// with it.
    pub open spec fn with_deleted(self, f: FaceId, gone_vertices: Seq<VertexId>, gone_halfedges: Seq<HalfedgeId>) -> MergeLists {
        MergeLists {
            removed_vertices: self.removed_vertices + gone_vertices,
            removed_halfedges: self.removed_halfedges + gone_halfedges,
            removed_faces: self.removed_faces.push(f),
            ..self
        }
    }

    /// The lists with the new face `face` and the halfedges that were made for it.
    pub open spec fn with_made(self, face: FaceId, created: Seq<HalfedgeId>) -> MergeLists {
        MergeLists { added_halfedges: self.added_halfedges + created, added_faces: self.added_faces.push(face), ..self }
    }

    /// The lists with what a repair took away and split.
    pub open spec fn with_repaired(self, cleanup: VertexNeighborhoodCleanup) -> MergeLists {
        MergeLists {
            removed_vertices: self.removed_vertices + cleanup.removed_vertices@,
            removed_halfedges: self.removed_halfedges + cleanup.removed_halfedges@,
            removed_faces: self.removed_faces + cleanup.removed_faces@,
            added_vertices: self.added_vertices + first_duplicate(cleanup.split_vertices@),
            ..self
        }
    }
}

/// The stages that a merge goes through.
pub struct MergeStages {
    /// The stretches that the two rings were divided into.
    pub pairs: Seq<ConnectPair>,
    /// The mesh when the stretches were found, and the lists then.
    pub found: MeshModel,
    pub taken: MergeLists,
    /// The mesh when the faces round the two vertices were deleted, and the lists then.
    pub cleared: MeshModel,
    pub gone: MergeLists,
    /// How many of the planned triangles were stitched in, the mesh after that, and
    /// the lists then.
    pub stitched_count: nat,
    pub stitched: MeshModel,
    pub added: MergeLists,
}

/// `ring` from its last vertex to its first.
pub open spec fn reversed(ring: Seq<VertexId>) -> Seq<VertexId> {
    Seq::new(ring.len(), |i: int| ring[ring.len() - 1 - i])
}

impl MergeVerticesOneRing {
    /// Whether all six lists are empty.
    pub open spec fn is_empty(self) -> bool {
        &&& self.removed_vertices@.len() == 0
        &&& self.removed_halfedges@.len() == 0
        &&& self.removed_faces@.len() == 0
        &&& self.added_halfedges@.len() == 0
        &&& self.added_faces@.len() == 0
        &&& self.added_vertices@.len() == 0
    }

    /// A result with six empty lists.
    pub fn new() -> (created: Self)
        ensures
            created.is_empty(),
    {
        MergeVerticesOneRing {
            removed_vertices: Vec::new(),
            removed_halfedges: Vec::new(),
            removed_faces: Vec::new(),
            added_halfedges: Vec::new(),
            added_faces: Vec::new(),
            added_vertices: Vec::new(),
        }
    }
}

/// Whether every corner of `face` is a vertex of one of the two rings.
pub open spec fn within_rings(face: PlannedFace, ring1: Seq<VertexId>, ring2: Seq<VertexId>) -> bool {
    forall|j: int| 0 <= j < 3 ==> ring1.contains(#[trigger] face.0@[j]) || ring2.contains(face.0@[j])
}

/// The vertex at a position of a ring, taken round the ring, is a vertex of the ring.
pub proof fn lemma_at_is_in_ring(ring: Seq<VertexId>, position: int)
    requires
        ring.len() > 0,
        position >= 0,
    ensures
        ring.contains(Pairing::at(ring, position)),
{
    vstd::arithmetic::div_mod::lemma_mod_bound(position, ring.len() as int);
    assert(ring[position % (ring.len() as int)] == Pairing::at(ring, position));
}

impl MeshModel {
    /// The vertices of the one-ring of the vertex `v`: the end of each halfedge
    /// opposite it, counter-clockwise; none where the vertex is not live.
    pub open spec fn ring_vertices(self, v: VertexId) -> Seq<VertexId> {
        if self.vertices.dom().contains(v) {
            filter_map_seq(self.one_ring(self.vertices[v]), |he: HalfedgeId| self.end_of(he))
        } else {
            Seq::empty()
        }
    }

    /// Whether the two vertices can be merged at all: both are live and each has a
    /// one-ring of at least three vertices.
    pub open spec fn mergeable(self, v1: VertexId, v2: VertexId) -> bool {
        &&& self.vertices.dom().contains(v1)
        &&& self.vertices.dom().contains(v2)
        &&& self.ring_vertices(v1).len() >= 3
        &&& self.ring_vertices(v2).len() >= 3
    }

    /// Whether the corners opposite the edge of `he` on its two sides are both found,
    /// and no further apart than `threshold`, the bit pattern of a squared distance.
    pub open spec fn close_across(self, he: HalfedgeId, threshold: u32) -> bool {
        &&& self.halfedges.dom().contains(he)
        &&& self.halfedges[he].twin is Some
        &&& self.halfedges.dom().contains(self.halfedges[he].twin->0)
        &&& self.opposite_of(he) is Some
        &&& self.opposite_of(self.halfedges[he].twin->0) is Some
        &&& self.positions.dom().contains(self.opposite_of(he)->0)
        &&& self.positions.dom().contains(self.opposite_of(self.halfedges[he].twin->0)->0)
        &&& self.gap(self.opposite_of(he)->0, self.opposite_of(self.halfedges[he].twin->0)->0) <= threshold
    }

    /// Whether the two vertices at the edge of `he` were merged at once: the corners
    /// opposite the edge are close, and `after` is this mesh with the edge flipped and
    /// then collapsed, which `result` has taken up.
    pub open spec fn merged_at_once(
        self,
        he: HalfedgeId,
        threshold: u32,
        after: MeshModel,
        before: MergeLists,
        result: MergeLists,
    ) -> bool {
        self.close_across(he, threshold) && exists|collapsed: CollapseEdge| #[trigger]
            self.flipped(he).collapse_gives(he, after, collapsed) && result == before.with_collapsed(collapsed)
    }

    /// Whether the rings share exactly two vertices, joined by an edge that is found
    /// from the one to the other and whose opposite corners are close, and the two
    /// were merged at once along it.
    pub open spec fn took_shortcut(
        self,
        common: Set<VertexId>,
        threshold: u32,
        after: MeshModel,
        before: MergeLists,
        result: MergeLists,
    ) -> bool {
        exists|a: VertexId, b: VertexId|
            common == set![a, b] && a != b && (#[trigger] self.halfedge_from_to(a, b)) is Some && self.merged_at_once(
                self.halfedge_from_to(a, b)->0,
                threshold,
                after,
                before,
                result,
            )
    }

    /// Whether there is no merging at once: the rings do not share exactly two
    /// vertices, or from one of the two to the other no edge is found whose opposite
    /// corners are close.
    pub open spec fn no_shortcut(self, common: Set<VertexId>, threshold: u32) -> bool {
        common.len() != 2 || exists|a: VertexId, b: VertexId|
            common == set![a, b] && a != b && !((#[trigger] self.halfedge_from_to(a, b)) is Some && self.close_across(
                self.halfedge_from_to(a, b)->0,
                threshold,
            ))
    }

    /// Whether `start` is where the walk of the two rings starts.
    ///
    /// Where the rings share a vertex, it is the anchor behind one of the shared
    /// vertices. Else it is the start of the first ring and the vertex of the second
    /// ring nearest to it; there is none where a position is missing.
    pub open spec fn walk_start(self, ring1: Seq<VertexId>, ring2: Seq<VertexId>, common: Set<VertexId>, start: Option<(usize, usize)>) -> bool {
        &&& start is Some ==> (start->0).0 < ring1.len() && (start->0).1 < ring2.len()
        &&& common != Set::<VertexId>::empty() ==> exists|v: VertexId| common.contains(v) && start == #[trigger] anchor_behind(ring1, ring2, common, v)
        &&& common == Set::<VertexId>::empty() ==> (start is Some <==> self.all_placed(ring1, ring2))
        &&& common == Set::<VertexId>::empty() && start is Some ==> (start->0).0 == 0 && self.nearest_in(ring2, ring1[0], (start->0).1 as int)
    }

    /// Whether `pairs` are the stretches that the two rings are divided into, `after`
    /// the mesh and `result` the lists after that.
    ///
    /// Where the two vertices were merged at once, there are no stretches. Else mesh
    /// and lists are as before, and the stretches are those walked from the start;
    /// there is none where no start is found, or a ring is longer than a quarter of
    /// what the machine can count.
    pub open spec fn stretches_found(
        self,
        ring1: Seq<VertexId>,
        ring2: Seq<VertexId>,
        common: Set<VertexId>,
        threshold: u32,
        after: MeshModel,
        before: MergeLists,
        result: MergeLists,
        pairs: Seq<ConnectPair>,
    ) -> bool {
        let too_long = ring1.len() > usize::MAX / 4 || ring2.len() > usize::MAX / 4;
        ||| !too_long && pairs.len() == 0 && self.took_shortcut(common, threshold, after, before, result)
        ||| too_long && pairs.len() == 0 && after == self && result == before
        ||| {
            &&& !too_long
            &&& after == self
            &&& result == before
            &&& self.no_shortcut(common, threshold)
            &&& exists|start: Option<(usize, usize)>| #[trigger]
                self.walk_start(ring1, ring2, common, start) && match start {
                    Some(origin) => stretches_of(pairs) == walked_stretches(ring1, ring2, common, origin.0 as int, origin.1 as int),
                    None => pairs.len() == 0,
                }
        }
    }

    /// The faces round the vertex `v`; none where it is not live.
    pub open spec fn faces_round(self, v: VertexId) -> Seq<FaceId> {
        if self.vertices.dom().contains(v) {
            self.vertex_faces(self.vertices[v])
        } else {
            Seq::empty()
        }
    }

    /// Whether the deletion of the face `f` turns this mesh into `after`, takes the
    /// vertices `gone_vertices` and the halfedges `gone_halfedges` with it and turns the
    /// lists `before` into `lists`.
    pub open spec fn face_deleted(
        self,
        f: FaceId,
        after: MeshModel,
        before: MergeLists,
        lists: MergeLists,
        gone_vertices: Seq<VertexId>,
        gone_halfedges: Seq<HalfedgeId>,
    ) -> bool {
        self.delete_gives(f, after, gone_vertices, gone_halfedges) && lists == before.with_deleted(f, gone_vertices, gone_halfedges)
    }

    /// Whether the deletion of the first `n` faces of `faces`, one after the other,
    /// turns this mesh into `after` and the lists `before` into `lists`.
    pub open spec fn faces_deleted(self, faces: Seq<FaceId>, n: nat, after: MeshModel, before: MergeLists, lists: MergeLists) -> bool
        decreases n,
    {
        if n == 0 || n > faces.len() {
            after == self && lists == before
        } else {
            exists|mid: MeshModel, so_far: MergeLists, gone_vertices: Seq<VertexId>, gone_halfedges: Seq<HalfedgeId>|
                self.faces_deleted(faces, (n - 1) as nat, mid, before, so_far) && #[trigger] mid.face_deleted(
                    faces[n - 1],
                    after,
                    so_far,
                    lists,
                    gone_vertices,
                    gone_halfedges,
                )
        }
    }

    /// The corners of a planned triangle, turned to run along the boundary: the first
    /// of its three sides for which a halfedge is found is put in the order in which
    /// the boundary side of that edge runs. Nothing where no side has a halfedge.
    pub open spec fn turned(self, corners: Seq<VertexId>) -> Option<Seq<VertexId>> {
        let a = corners[0];
        let b = corners[1];
        let c = corners[2];
        if self.halfedge_from_to(a, b) is Some {
            Some(seq![self.boundary_order(a, b)[0], self.boundary_order(a, b)[1], c])
        } else if self.halfedge_from_to(b, c) is Some {
            Some(seq![a, self.boundary_order(b, c)[0], self.boundary_order(b, c)[1]])
        } else if self.halfedge_from_to(c, a) is Some {
            Some(seq![self.boundary_order(c, a)[1], b, self.boundary_order(c, a)[0]])
        } else {
            None
        }
    }

    /// Whether the live halfedge `he` joins a vertex of `set1` and a vertex of `set2`.
    pub open spec fn is_seam(self, he: HalfedgeId, set1: Set<VertexId>, set2: Set<VertexId>) -> bool {
        &&& self.halfedges.dom().contains(he)
        &&& self.start_of(he) is Some
        &&& (set1.contains(self.start_of(he)->0) && set2.contains(self.halfedges[he].end_vertex)) || (set2.contains(self.start_of(he)->0)
            && set1.contains(self.halfedges[he].end_vertex))
    }

    /// The halfedges among the first `n` of `list` that join `set1` and `set2`.
    pub open spec fn seams_among(self, list: Seq<HalfedgeId>, n: int, set1: Set<VertexId>, set2: Set<VertexId>) -> Set<HalfedgeId> {
        Set::new(|he: HalfedgeId| self.is_seam(he, set1, set2) && exists|k: int| 0 <= k < n && k < list.len() && list[k] == he)
    }

    /// Whether stitching in the planned triangle on `corners` turns this mesh into
    /// `after`, the lists `before` into `lists` and the marked halfedges `marked_before`
    /// into `marked`.
    ///
    /// The triangle is turned to run along the boundary and put in; the halfedges made
    /// for it that join the two rings are marked. A triangle of which no side has a
    /// halfedge yet is left out.
    pub open spec fn face_stitched(
        self,
        corners: Seq<VertexId>,
        set1: Set<VertexId>,
        set2: Set<VertexId>,
        after: MeshModel,
        before: MergeLists,
        lists: MergeLists,
        marked_before: Set<HalfedgeId>,
        marked: Set<HalfedgeId>,
    ) -> bool {
        match self.turned(corners) {
            Some(turned) => exists|e1: InsertOrGetEdge, e2: InsertOrGetEdge, e3: InsertOrGetEdge, face: FaceId, created: Seq<HalfedgeId>| #[trigger]
                self.triangle_made(turned[0], turned[1], turned[2], e1, e2, e3, face, after, created) && lists == before.with_made(face, created)
                    && marked == marked_before.union(after.seams_among(created, created.len() as int, set1, set2)),
            None => after == self && lists == before && marked == marked_before,
        }
    }

    /// Whether stitching in the first `n` of the planned triangles, one after the
    /// other, turns this mesh into `after`, the lists `before` into `lists` and the
    /// marked halfedges `marked_before` into `marked`.
    pub open spec fn faces_stitched(
        self,
        planned: Seq<Seq<VertexId>>,
        n: nat,
        set1: Set<VertexId>,
        set2: Set<VertexId>,
        after: MeshModel,
        before: MergeLists,
        lists: MergeLists,
        marked_before: Set<HalfedgeId>,
        marked: Set<HalfedgeId>,
    ) -> bool
        decreases n,
    {
        if n == 0 || n > planned.len() {
            after == self && lists == before && marked == marked_before
        } else {
            exists|mid: MeshModel, so_far: MergeLists, marked_so_far: Set<HalfedgeId>|
                self.faces_stitched(planned, (n - 1) as nat, set1, set2, mid, before, so_far, marked_before, marked_so_far) && #[trigger] mid.face_stitched(
                    planned[n - 1],
                    set1,
                    set2,
                    after,
                    so_far,
                    lists,
                    marked_so_far,
                    marked,
                )
        }
    }

    /// Whether the repair of the neighbourhood of `v`, where it is live, turns this mesh
    /// into `after`, the lists `before` into `lists` and the marked vertices
    /// `marked_before` into `marked`: the vertices that a split names are marked.
    pub open spec fn vertex_repaired(
        self,
        v: VertexId,
        after: MeshModel,
        before: MergeLists,
        lists: MergeLists,
        marked_before: Set<VertexId>,
        marked: Set<VertexId>,
    ) -> bool {
        if self.vertices.dom().contains(v) {
            exists|cleanup: VertexNeighborhoodCleanup| #[trigger]
                self.repair_gives(v, after, cleanup) && lists == before.with_repaired(cleanup) && marked == (if cleanup.split_vertices@.len() >= 2 {
                    marked_before.union(cleanup.split_vertices@.to_set())
                } else {
                    marked_before
                })
        } else {
            after == self && lists == before && marked == marked_before
        }
    }

    /// Whether the repair of the neighbourhoods of the first `n` vertices of `rim`, one
    /// after the other, turns this mesh into `after`, the lists `before` into `lists`
    /// and the marked vertices `marked_before` into `marked`.
    pub open spec fn rim_repaired(
        self,
        rim: Seq<VertexId>,
        n: nat,
        after: MeshModel,
        before: MergeLists,
        lists: MergeLists,
        marked_before: Set<VertexId>,
        marked: Set<VertexId>,
    ) -> bool
        decreases n,
    {
        if n == 0 || n > rim.len() {
            after == self && lists == before && marked == marked_before
        } else {
            exists|mid: MeshModel, so_far: MergeLists, marked_so_far: Set<VertexId>|
                self.rim_repaired(rim, (n - 1) as nat, mid, before, so_far, marked_before, marked_so_far) && #[trigger] mid.vertex_repaired(
                    rim[n - 1],
                    after,
                    so_far,
                    lists,
                    marked_so_far,
                    marked,
                )
        }
    }

    /// Whether the merge of the vertices `v1` and `v2` went through the stages
    /// `stages` and gave the mesh `after`, the lists `lists`, the marked halfedges
    /// `halfedges_marked` and the marked vertices `vertices_marked`.
    ///
    /// The one-ring of `v1` and the one-ring of `v2` backwards are divided into
    /// stretches. Where there is none, the merge is over with that. Else the faces
    /// round `v1` and then those round `v2` are deleted, the planned triangles are
    /// stitched in, and the neighbourhood of every vertex of the two rings is
    /// repaired. The stitching stops where the mesh has no room for another triangle,
    /// and the merge is over there.
    pub open spec fn merged_by(
        self,
        v1: VertexId,
        v2: VertexId,
        threshold: u32,
        stages: MergeStages,
        after: MeshModel,
        lists: MergeLists,
        halfedges_marked_before: Set<HalfedgeId>,
        halfedges_marked: Set<HalfedgeId>,
        vertices_marked_before: Set<VertexId>,
        vertices_marked: Set<VertexId>,
    ) -> bool {
        let ring1 = self.ring_vertices(v1);
        let ring2 = reversed(self.ring_vertices(v2));
        let set1 = ring1.to_set();
        let set2 = ring2.to_set();
        let planned = stitching(stages.pairs, ring1, ring2, stages.pairs.len());
        &&& self.stretches_found(ring1, ring2, set1.intersect(set2), threshold, stages.found, MergeLists::empty(), stages.taken, stages.pairs)
        &&& if stages.pairs.len() == 0 {
            after == stages.found && lists == stages.taken && halfedges_marked == halfedges_marked_before && vertices_marked == vertices_marked_before
        } else {
            &&& stages.found.faces_deleted(
                self.faces_round(v1) + self.faces_round(v2),
                (self.faces_round(v1) + self.faces_round(v2)).len(),
                stages.cleared,
                stages.taken,
                stages.gone,
            )
            &&& stages.stitched_count <= planned.len()
            &&& stages.cleared.faces_stitched(
                planned,
                stages.stitched_count,
                set1,
                set2,
                stages.stitched,
                stages.gone,
                stages.added,
                halfedges_marked_before,
                halfedges_marked,
            )
            &&& if stages.stitched_count < planned.len() {
                !stages.stitched.has_room(0, 6, 1) && after == stages.stitched && lists == stages.added && vertices_marked == vertices_marked_before
            } else {
                stages.stitched.rim_repaired(
                    ring1 + ring2,
                    (ring1 + ring2).len(),
                    after,
                    stages.added,
                    lists,
                    vertices_marked_before,
                    vertices_marked,
                )
            }
        }
    }

    /// The bit pattern of the squared distance between the vertices `a` and `b`.
    pub open spec fn gap(self, a: VertexId, b: VertexId) -> u32 {
        vec3_distance_squared(self.positions[a], self.positions[b])
    }

    /// Whether the first vertex of `ring1` and every vertex of `ring2` has a position.
    pub open spec fn all_placed(self, ring1: Seq<VertexId>, ring2: Seq<VertexId>) -> bool {
        &&& self.positions.dom().contains(ring1[0])
        &&& forall|j: int| 0 <= j < ring2.len() ==> self.positions.dom().contains(#[trigger] ring2[j])
    }

    /// Whether position `idx` of `ring` holds the vertex that lies nearest to `target`:
    /// the first of those at the least distance, where that distance is a number;
    /// position nought where no vertex of the ring is at a distance that is a number.
    pub open spec fn nearest_in(self, ring: Seq<VertexId>, target: VertexId, idx: int) -> bool {
        &&& 0 <= idx < ring.len()
        &&& forall|j: int| 0 <= j < ring.len() && #[trigger] self.gap(ring[j], target) < INFINITE_LENGTH ==> self.gap(ring[idx], target) <= self.gap(
            ring[j],
            target,
        )
        &&& forall|j: int| 0 <= j < idx ==> #[trigger] self.gap(ring[j], target) > self.gap(ring[idx], target)
        &&& self.gap(ring[idx], target) >= INFINITE_LENGTH ==> idx == 0
    }

    /// The corner opposite the live halfedge `he` in its face: the end of its
    /// successor.
    pub open spec fn opposite_of(self, he: HalfedgeId) -> Option<VertexId> {
        match self.next_of(he) {
            Some(next) => self.end_of(next),
            None => None,
        }
    }
}

/// The position after `index` in a ring of `len` positions.
pub fn ring_next(index: usize, len: usize) -> (next: usize)
    requires
        index < len,
    ensures
        next < len,
        next == (index + 1) % (len as int),
{
    if index + 1 == len {
        assert((len as int) % (len as int) == 0) by (nonlinear_arith)
            requires
                len > 0,
        ;
        0
    } else {
        assert((index as int + 1) % (len as int) == index as int + 1) by (nonlinear_arith)
            requires
                0 <= index as int + 1 < len,
        ;
        index + 1
    }
}

/// The position before `index` in a ring of `len` positions.
pub fn ring_prev(index: usize, len: usize) -> (prev: usize)
    requires
        index < len,
    ensures
        prev < len,
        prev == preceding(index as int, len as int),
{
    if index == 0 {
        len - 1
    } else {
        index - 1
    }
}

/// The first position of `ring` from `from` on that holds `v`.
pub open spec fn first_position(ring: Seq<VertexId>, v: VertexId, from: nat) -> Option<nat>
    decreases ring.len() - from,
{
    if from >= ring.len() {
        None
    } else if ring[from as int] == v {
        Some(from)
    } else {
        first_position(ring, v, from + 1)
    }
}

/// Where the walk of two rings starts that share the vertex `v`: on each ring at the
/// last vertex of the run of shared vertices that begins at the first position of `v`
/// in the first ring. Nothing where one of the rings does not hold `v`.
pub open spec fn anchor_behind(ring1: Seq<VertexId>, ring2: Seq<VertexId>, common: Set<VertexId>, v: VertexId) -> Option<(usize, usize)> {
    match first_position(ring1, v, 0) {
        Some(at1) => match first_position(ring2, v, 0) {
            Some(at2) => {
                let run = shared_run(ring1, common, at1 as int, ring1.len());
                Some(
                    (
                        preceding(((at1 + run) as int) % (ring1.len() as int), ring1.len() as int) as usize,
                        preceding(((at2 + run) as int) % (ring2.len() as int), ring2.len() as int) as usize,
                    ),
                )
            },
            None => None,
        },
        None => None,
    }
}

/// The position `steps` positions after `index` in a ring of `len` positions.
pub fn ring_add(index: usize, steps: usize, len: usize) -> (reached: usize)
    requires
        index < len,
        len <= usize::MAX / 4,
    ensures
        reached < len,
        reached == (index + steps) % (len as int),
{
    let sum = index + steps % len;
    proof {
        vstd::arithmetic::div_mod::lemma_add_mod_noop_right(index as int, steps as int, len as int);
        if sum >= len {
            vstd::arithmetic::div_mod::lemma_mod_add_multiples_vanish(sum - len, len as int);
            vstd::arithmetic::div_mod::lemma_small_mod((sum - len) as nat, len as nat);
        } else {
            vstd::arithmetic::div_mod::lemma_small_mod(sum as nat, len as nat);
        }
    }
    if sum >= len {
        sum - len
    } else {
        sum
    }
}

/// Searches round `ring` from position `from` for `v`: gives the first position that
/// holds it, or `from` again where the ring does not hold it.
pub fn seek(ring: &Vec<VertexId>, from: usize, v: VertexId) -> (reached: usize)
    requires
        from < ring@.len(),
    ensures
        reached < ring@.len(),
        reached == sought(ring@, from as int, v, ring@.len()),
{
    let len = ring.len();
    let mut at = from;
    let mut current = ring[at];
    let mut steps: usize = 0;
    proof {
        vstd::arithmetic::div_mod::lemma_small_mod(from as nat, len as nat);
    }
    while current != v && steps < len
        invariant
            len == ring@.len(),
            steps <= len,
            at < len,
            at == (from + steps) % (len as int),
            current == Pairing::at(ring@, from + steps),
            sought(ring@, from as int, v, len as nat) == sought(ring@, from + steps, v, (len - steps) as nat),
        decreases len - steps,
    {
        proof {
            lemma_ring_step(from + steps, len as int);
        }
        at = ring_next(at, len);
        current = ring[at];
        steps = steps + 1;
    }
    at
}

/// The number of vertices of `common` that follow one another in `ring` from position
/// `from` on, taken round the ring once at most.
pub fn pass_shared(ring: &Vec<VertexId>, common: &VertexSet, from: usize) -> (run: usize)
    requires
        from < ring@.len(),
    ensures
        run <= ring@.len(),
        run == shared_run(ring@, common@, from as int, ring@.len()),
{
    let len = ring.len();
    let mut at = from;
    let mut current = ring[at];
    let mut steps: usize = 0;
    proof {
        vstd::arithmetic::div_mod::lemma_small_mod(from as nat, len as nat);
    }
    while common.contains(current) && steps < len
        invariant
            len == ring@.len(),
            steps <= len,
            at < len,
            at == (from + steps) % (len as int),
            current == Pairing::at(ring@, from + steps),
            shared_run(ring@, common@, from as int, len as nat) == steps + shared_run(ring@, common@, from + steps, (len - steps) as nat),
        decreases len - steps,
    {
        proof {
            lemma_ring_step(from + steps, len as int);
        }
        at = ring_next(at, len);
        current = ring[at];
        steps = steps + 1;
    }
    steps
}

/// The first position of `ring` that holds `v`.
pub fn position_of(ring: &Vec<VertexId>, v: VertexId) -> (found: Option<usize>)
    ensures
        found is Some ==> found->0 < ring@.len() && ring@[found->0 as int] == v,
        found is None ==> !ring@.contains(v),
        match found {
            Some(index) => first_position(ring@, v, 0) == Some(index as nat),
            None => first_position(ring@, v, 0) is None,
        },
{
    let mut i: usize = 0;
    while i < ring.len()
        invariant
            i <= ring.len(),
            forall|k: int| 0 <= k < i ==> ring@[k] != v,
            first_position(ring@, v, 0) == first_position(ring@, v, i as nat),
        decreases ring.len() - i,
    {
        if ring[i] == v {
            return Some(i);
        }
        i = i + 1;
    }
    None
}

/// A planned triangle whose three corners are vertices of the rings lies within the
/// rings.
pub proof fn lemma_listed_corners(face: PlannedFace, ring1: Seq<VertexId>, ring2: Seq<VertexId>)
    requires
        ring1.contains(face.0@[0]) || ring2.contains(face.0@[0]),
        ring1.contains(face.0@[1]) || ring2.contains(face.0@[1]),
        ring1.contains(face.0@[2]) || ring2.contains(face.0@[2]),
    ensures
        within_rings(face, ring1, ring2),
{
}

/// The single vertex of a pairing and the vertex at any position of its paired run are
/// vertices of the rings.
pub proof fn lemma_pairing_in_rings(pairing: Pairing, ring1: Seq<VertexId>, ring2: Seq<VertexId>, position: int)
    requires
        ring1.len() > 0,
        ring2.len() > 0,
        position >= 0,
    ensures
        ring1.contains(pairing.single_vertex(ring1, ring2)) || ring2.contains(pairing.single_vertex(ring1, ring2)),
        ring1.contains(Pairing::at(pairing.other_ring(ring1, ring2), position)) || ring2.contains(
            Pairing::at(pairing.other_ring(ring1, ring2), position),
        ),
{
    lemma_at_is_in_ring(pairing.single_ring(ring1, ring2), pairing.single_idx_in_range as int);
    lemma_at_is_in_ring(pairing.other_ring(ring1, ring2), position);
}

/// Every triangle of the bridge from a joint within the rings to a pairing lies within
/// the rings.
pub proof fn lemma_bridge_within_rings(pairing: Pairing, ring1: Seq<VertexId>, ring2: Seq<VertexId>, prev: Option<(VertexId, VertexId)>, bridge: Seq<PlannedFace>)
    requires
        ring1.len() > 0,
        ring2.len() > 0,
        prev is Some ==> (ring1.contains((prev->0).0) || ring2.contains((prev->0).0)) && (ring1.contains((prev->0).1) || ring2.contains((prev->0).1)),
        corners_of(bridge) == pairing.bridge(ring1, ring2, prev),
    ensures
        forall|k: int| 0 <= k < bridge.len() ==> within_rings(#[trigger] bridge[k], ring1, ring2),
{
    let corners = corners_of(bridge);
    lemma_pairing_in_rings(pairing, ring1, ring2, pairing.other_range.start as int);
    assert forall|k: int| 0 <= k < bridge.len() implies within_rings(#[trigger] bridge[k], ring1, ring2) by {
        assert(corners.len() == bridge.len());
        assert(bridge[k].0@ == corners[k]);
        assert(prev is Some);
        let triple = pairing.bridge(ring1, ring2, prev)[k];
        if k == 0 {
            assert(triple == seq![(prev->0).0, pairing.first_joint(ring1, ring2).0, (prev->0).1]);
        } else {
            assert(triple == seq![(prev->0).1, pairing.first_joint(ring1, ring2).0, pairing.first_joint(ring1, ring2).1]);
        }
        lemma_listed_corners(bridge[k], ring1, ring2);
    }
}

/// Every triangle of the fan of a pairing lies within the rings.
pub proof fn lemma_fan_within_rings(pairing: Pairing, ring1: Seq<VertexId>, ring2: Seq<VertexId>, fan: Seq<PlannedFace>)
    requires
        ring1.len() > 0,
        ring2.len() > 0,
        corners_of(fan) == pairing.fan(ring1, ring2),
    ensures
        forall|k: int| 0 <= k < fan.len() ==> within_rings(#[trigger] fan[k], ring1, ring2),
{
    let corners = corners_of(fan);
    assert forall|k: int| 0 <= k < fan.len() implies within_rings(#[trigger] fan[k], ring1, ring2) by {
        assert(corners.len() == fan.len());
        assert(pairing.fan(ring1, ring2).len() == fan.len());
        assert(fan[k].0@ == corners[k]);
        let triple = pairing.fan(ring1, ring2)[k];
        assert(triple[0] == pairing.single_vertex(ring1, ring2));
        assert(triple[1] == Pairing::at(pairing.other_ring(ring1, ring2), pairing.other_range.start + k + 1));
        assert(triple[2] == Pairing::at(pairing.other_ring(ring1, ring2), pairing.other_range.start + k));
        lemma_pairing_in_rings(pairing, ring1, ring2, pairing.other_range.start + k);
        lemma_pairing_in_rings(pairing, ring1, ring2, pairing.other_range.start + k + 1);
        lemma_listed_corners(fan[k], ring1, ring2);
    }
}

/// The two triangles at the shared ends of a closed stretch; none for an open one.
pub fn corner_faces(pair: &ConnectPair, ring1: &Vec<VertexId>, ring2: &Vec<VertexId>) -> (faces: Vec<PlannedFace>)
    requires
        ring1@.len() > 0,
        ring2@.len() > 0,
    ensures
        corners_of(faces@) == pair.corners(ring1@, ring2@),
        forall|k: int| 0 <= k < faces@.len() ==> within_rings(#[trigger] faces@[k], ring1@, ring2@),
{
    let mut faces: Vec<PlannedFace> = Vec::new();
    if pair.closed {
        let len1 = ring1.len();
        let len2 = ring2.len();
        let first = pair.ranges[0];
        let second = pair.ranges[1];
        let start1_idx = first.start % len1;
        let corner = PlannedFace::new(ring1[start1_idx], ring1[ring_next(start1_idx, len1)], ring2[ring_next(second.start % len2, len2)]);
        proof {
            lemma_listed_corners(corner, ring1@, ring2@);
        }
        faces.push(corner);
        let end1_idx = first.end % len1;
        let corner2 = PlannedFace::new(ring1[ring_prev(end1_idx, len1)], ring1[end1_idx], ring2[ring_prev(second.end % len2, len2)]);
        proof {
            lemma_listed_corners(corner2, ring1@, ring2@);
        }
        faces.push(corner2);
    }
    proof {
        assert(corners_of(faces@) =~= pair.corners(ring1@, ring2@));
    }
    faces
}

/// The joint that the first pairing of an open stretch is bridged to: that of its last
/// pairing. None for a closed stretch or one without pairings.
pub fn lead_of(pair: &ConnectPair, pairings: &Vec<Pairing>, ring1: &Vec<VertexId>, ring2: &Vec<VertexId>) -> (lead: Option<(VertexId, VertexId)>)
    requires
        ring1@.len() > 0,
        ring2@.len() > 0,
        pairings@ == pair.pairings(),
        pair.spread_by(pairings@),
    ensures
        lead == pair.lead(ring1@, ring2@),
        lead is Some ==> (ring1@.contains((lead->0).0) || ring2@.contains((lead->0).0)) && (ring1@.contains((lead->0).1) || ring2@.contains(
            (lead->0).1,
        )),
{
    if !pair.closed && pairings.len() > 0 {
        let last_pairing = pairings[pairings.len() - 1];
        proof {
            assert(last_pairing == pairings@[pairings@.len() - 1]);
            lemma_pairing_in_rings(last_pairing, ring1@, ring2@, last_pairing.other_range.end as int);
        }
        Some(last_pairing.last_pair(ring1, ring2))
    } else {
        None
    }
}

impl PlannedFace {
    /// Turns the triangle so that it runs along the boundary: the first of its three
    /// sides for which the mesh has a halfedge is put in the order in which the
    /// boundary side of that edge runs. Says whether such a side was found.
    pub fn make_ccw(&mut self, mesh_graph: &MeshGraph) -> (oriented: bool)
        requires
            mesh_graph.wf(),
        ensures
            oriented == (mesh_graph@.turned(old(self).0@) is Some),
            oriented ==> final(self).0@ == mesh_graph@.turned(old(self).0@)->0,
            !oriented ==> final(self).0@ == old(self).0@,
    {
        let a = self.0[0];
        let b = self.0[1];
        let c = self.0[2];
        if mesh_graph.halfedge_from_to(a, b).is_some() {
            let order = mesh_graph.boundary_vertex_order(a, b);
            self.0 = [order[0], order[1], c];
            proof {
                assert(self.0@ =~= seq![mesh_graph@.boundary_order(a, b)[0], mesh_graph@.boundary_order(a, b)[1], c]);
            }
            true
        } else if mesh_graph.halfedge_from_to(b, c).is_some() {
            let order = mesh_graph.boundary_vertex_order(b, c);
            self.0 = [a, order[0], order[1]];
            proof {
                assert(self.0@ =~= seq![a, mesh_graph@.boundary_order(b, c)[0], mesh_graph@.boundary_order(b, c)[1]]);
            }
            true
        } else if mesh_graph.halfedge_from_to(c, a).is_some() {
            let order = mesh_graph.boundary_vertex_order(c, a);
            self.0 = [order[1], b, order[0]];
            proof {
                assert(self.0@ =~= seq![mesh_graph@.boundary_order(c, a)[1], b, mesh_graph@.boundary_order(c, a)[0]]);
            }
            true
        } else {
            false
        }
    }

    /// Builds the triangle in the mesh, on its three corners in their order.
    pub fn insert_into_meshgraph(&self, mesh_graph: &mut MeshGraph) -> (made: CreateFace)
        requires
            old(mesh_graph).wf(),
            old(mesh_graph)@.has_room(0, 6, 1),
        ensures
            final(mesh_graph).wf(),
            final(mesh_graph)@.vertices.dom() == old(mesh_graph)@.vertices.dom(),
            old(mesh_graph)@.halfedges.dom().subset_of(final(mesh_graph)@.halfedges.dom()),
            final(mesh_graph)@.faces.dom() == old(mesh_graph)@.faces.dom().insert(made.face_id),
            final(mesh_graph)@.slots == old(mesh_graph)@.slots.push(made.face_id),
            exists|e1: InsertOrGetEdge, e2: InsertOrGetEdge, e3: InsertOrGetEdge| #[trigger]
                old(mesh_graph)@.triangle_made(self.0@[0], self.0@[1], self.0@[2], e1, e2, e3, made.face_id, final(mesh_graph)@, made.halfedge_ids@),
    {
        mesh_graph.create_face_from_vertices(self.0[0], self.0[1], self.0[2])
    }
}

impl MeshGraph {
    /// The vertices of the one-ring of a vertex, counter-clockwise.
    pub fn one_ring_vertices(&self, vertex_id: VertexId) -> (ring: Vec<VertexId>)
        requires
            self.wf(),
        ensures
            ring@ == self@.ring_vertices(vertex_id),
    {
        let vertex = match self.vertex(vertex_id) {
            Some(vertex) => vertex,
            None => {
                return Vec::new();
            },
        };
        let opposite = vertex.one_ring(self);
        let mut ring: Vec<VertexId> = Vec::new();
        let ghost f = |he: HalfedgeId| self@.end_of(he);
        let mut i: usize = 0;
        while i < opposite.len()
            invariant
                i <= opposite.len(),
                self.wf(),
                f == |he: HalfedgeId| self@.end_of(he),
                ring@ == filter_map_prefix(opposite@, f, i as nat),
            decreases opposite.len() - i,
        {
            match self.halfedge(opposite[i]) {
                Some(he) => {
                    ring.push(he.end_vertex);
                },
                None => {},
            }
            i = i + 1;
        }
        ring
    }

    /// The corner opposite a halfedge in its face.
    pub fn opposite_vertex(&self, he_id: HalfedgeId) -> (corner: Option<VertexId>)
        requires
            self.wf(),
        ensures
            corner == self@.opposite_of(he_id),
    {
        match self.halfedge(he_id) {
            Some(he) => match he.next {
                Some(next) => match self.halfedge(next) {
                    Some(n) => Some(n.end_vertex),
                    None => None,
                },
                None => None,
            },
            None => None,
        }
    }

    /// Deletes every face round the two vertices and notes what went: first the faces
    /// that were round the first vertex, then those that were round the second.
    pub(crate) fn delete_neighbour_faces(&mut self, vertex_id1: VertexId, vertex_id2: VertexId, result: &mut MergeVerticesOneRing)
        requires
            old(self).wf(),
        ensures
            final(self).wf(),
            final(self)@.pruned_from(old(self)@),
            final(self)@.vertices.dom().subset_of(old(self)@.vertices.dom()),
            final(result).added_faces@ == old(result).added_faces@,
            old(self)@.faces_deleted(
                old(self)@.faces_round(vertex_id1) + old(self)@.faces_round(vertex_id2),
                (old(self)@.faces_round(vertex_id1) + old(self)@.faces_round(vertex_id2)).len(),
                final(self)@,
                old(result)@,
                final(result)@,
            ),
    {
        let mut face_ids = match self.vertex(vertex_id1) {
            Some(vertex) => vertex.faces(self),
            None => Vec::new(),
        };
        let mut more = match self.vertex(vertex_id2) {
            Some(vertex) => vertex.faces(self),
            None => Vec::new(),
        };
        face_ids.append(&mut more);
        let ghost list = old(self)@.faces_round(vertex_id1) + old(self)@.faces_round(vertex_id2);
        proof {
            assert(face_ids@ =~= list);
        }
        let mut i: usize = 0;
        while i < face_ids.len()
            invariant
                i <= face_ids.len(),
                face_ids@ == list,
                self.wf(),
                self@.pruned_from(old(self)@),
                self@.vertices.dom().subset_of(old(self)@.vertices.dom()),
                result.added_faces@ == old(result).added_faces@,
                old(self)@.faces_deleted(list, i as nat, self@, old(result)@, result@),
            decreases face_ids.len() - i,
        {
            let ghost mid = self@;
            let ghost so_far = result@;
            let (mut gone_vertices, mut gone_halfedges) = self.delete_face(face_ids[i]);
            let ghost gone_v = gone_vertices@;
            let ghost gone_h = gone_halfedges@;
            result.removed_faces.push(face_ids[i]);
            result.removed_vertices.append(&mut gone_vertices);
            result.removed_halfedges.append(&mut gone_halfedges);
            proof {
                let n = (i + 1) as nat;
                assert(mid.delete_gives(list[n - 1], self@, gone_v, gone_h));
                assert(result@.removed_faces =~= so_far.removed_faces.push(list[n - 1]));
                assert(result@ == so_far.with_deleted(list[n - 1], gone_v, gone_h));
                assert(old(self)@.faces_deleted(list, (n - 1) as nat, mid, old(result)@, so_far));
                assert(mid.face_deleted(list[n - 1], self@, so_far, result@, gone_v, gone_h));
                assert(old(self)@.faces_deleted(list, n, self@, old(result)@, result@));
            }
            i = i + 1;
        }
    }

    /// Where the two rings share exactly one edge and the corners opposite it on its
    /// two sides are no further apart than the threshold, flips that edge and collapses
    /// it, which merges the two vertices at once. Says whether it did.
    pub(crate) fn flip_and_collapse_single_shared_edge_if_smaller(
        &mut self,
        single_shared_he_id: HalfedgeId,
        flip_threshold_sqr: u32,
        result: &mut MergeVerticesOneRing,
    ) -> (done: bool)
        requires
            old(self).wf(),
        ensures
            final(self).wf(),
            old(self)@.slots == final(self)@.slots,
            final(result).added_faces@ == old(result).added_faces@,
            !done ==> final(self)@ == old(self)@ && *final(result) == *old(result),
            done == old(self)@.close_across(single_shared_he_id, flip_threshold_sqr),
            done ==> old(self)@.merged_at_once(single_shared_he_id, flip_threshold_sqr, final(self)@, old(result)@, final(result)@),
    {
        let he = match self.halfedge(single_shared_he_id) {
            Some(he) => he,
            None => {
                return false;
            },
        };
        let twin_id = match he.twin {
            Some(twin) => twin,
            None => {
                return false;
            },
        };
        if self.halfedge(twin_id).is_none() {
            return false;
        }
        let other_v_id1 = match self.opposite_vertex(single_shared_he_id) {
            Some(v) => v,
            None => {
                return false;
            },
        };
        let other_v_id2 = match self.opposite_vertex(twin_id) {
            Some(v) => v,
            None => {
                return false;
            },
        };
        let pos1 = match self.position(other_v_id1) {
            Some(position) => position,
            None => {
                return false;
            },
        };
        let pos2 = match self.position(other_v_id2) {
            Some(position) => position,
            None => {
                return false;
            },
        };
        if distance_squared(&pos1, &pos2) <= flip_threshold_sqr {
            self.flip_edge(single_shared_he_id);
            proof {
                crate::ops::topology::lemma_flip_keeps_slots(old(self)@, single_shared_he_id);
            }
            let mut collapsed = self.collapse_edge(single_shared_he_id);
            let ghost taken = collapsed;
            if collapsed.split_vertices.len() >= 2 {
                result.added_vertices.push(collapsed.split_vertices[1]);
            }
            result.removed_vertices.append(&mut collapsed.removed_vertices);
            result.removed_halfedges.append(&mut collapsed.removed_halfedges);
            result.removed_faces.append(&mut collapsed.removed_faces);
            proof {
                assert(old(self)@.flipped(single_shared_he_id).collapse_gives(single_shared_he_id, self@, taken));
                assert(result.added_vertices@ =~= old(result).added_vertices@ + first_duplicate(taken.split_vertices@));
                assert(result@ =~= old(result)@.with_collapsed(taken));
            }
            true
        } else {
            false
        }
    }

    /// Where the two rings start to be walked: behind a shared vertex where there is
    /// one, on each ring at the last vertex of the run of shared vertices that holds
    /// it; else at the start of the first ring and at the vertex of the second ring
    /// that lies nearest to it. Which shared vertex is taken is not stated. Nothing
    /// where a position is missing or the shared vertex is not found in both rings.
    pub(crate) fn find_start_indices(&self, ring1: &Vec<VertexId>, ring2: &Vec<VertexId>, common: &VertexSet) -> (start: Option<(usize, usize)>)
        requires
            self.wf(),
            ring1@.len() > 0,
            ring2@.len() > 0,
        ensures
            self@.walk_start(ring1@, ring2@, common@, start),
    {
        let shared = common.to_vec();
        proof {
            if shared@.len() == 0 {
                assert(common@ =~= Set::<VertexId>::empty());
            } else {
                assert(shared@.to_set().contains(shared@[0]));
            }
        }
        if shared.len() > 0 {
            let v_id = shared[0];
            let mut start_idx1 = match position_of(ring1, v_id) {
                Some(index) => index,
                None => {
                    proof {
                        assert(anchor_behind(ring1@, ring2@, common@, v_id) is None);
                    }
                    return None;
                },
            };
            let mut start_idx2 = match position_of(ring2, v_id) {
                Some(index) => index,
                None => {
                    proof {
                        assert(anchor_behind(ring1@, ring2@, common@, v_id) is None);
                    }
                    return None;
                },
            };
            let len1 = ring1.len();
            let len2 = ring2.len();
            let ghost at1 = start_idx1 as int;
            let ghost at2 = start_idx2 as int;
            let mut current = v_id;
            let mut steps: usize = 0;
            proof {
                vstd::arithmetic::div_mod::lemma_small_mod(start_idx1 as nat, len1 as nat);
                vstd::arithmetic::div_mod::lemma_small_mod(start_idx2 as nat, len2 as nat);
            }
            while common.contains(current) && steps < len1
                invariant
                    steps <= len1,
                    len1 == ring1@.len(),
                    len2 == ring2@.len(),
                    len1 > 0,
                    len2 > 0,
                    start_idx1 < len1,
                    start_idx2 < len2,
                    start_idx1 == (at1 + steps) % (len1 as int),
                    start_idx2 == (at2 + steps) % (len2 as int),
                    current == Pairing::at(ring1@, at1 + steps),
                    shared_run(ring1@, common@, at1, len1 as nat) == steps + shared_run(ring1@, common@, at1 + steps, (len1 - steps) as nat),
                decreases len1 - steps,
            {
                proof {
                    lemma_ring_step(at1 + steps, len1 as int);
                    lemma_ring_step(at2 + steps, len2 as int);
                }
                start_idx1 = ring_next(start_idx1, len1);
                start_idx2 = ring_next(start_idx2, len2);
                current = ring1[start_idx1];
                steps = steps + 1;
            }
            proof {
                assert(shared_run(ring1@, common@, at1, len1 as nat) == steps);
            }
            Some((ring_prev(start_idx1, len1), ring_prev(start_idx2, len2)))
        } else {
            let first_pos = match self.position(ring1[0]) {
                Some(position) => position,
                None => {
                    return None;
                },
            };
            let mut min_dist_sqr: u32 = INFINITE_LENGTH;
            let mut start_idx2: usize = 0;
            let mut idx: usize = 0;
            while idx < ring2.len()
                invariant
                    idx <= ring2.len(),
                    start_idx2 < ring2.len(),
                    self.wf(),
                    ring1@.len() > 0,
                    common@ == Set::<VertexId>::empty(),
                    self@.positions.dom().contains(ring1@[0]),
                    first_pos == self@.positions[ring1@[0]],
                    forall|j: int| 0 <= j < idx ==> self@.positions.dom().contains(#[trigger] ring2@[j]),
                    min_dist_sqr <= INFINITE_LENGTH,
                    forall|j: int| 0 <= j < idx ==> #[trigger] self@.gap(ring2@[j], ring1@[0]) >= min_dist_sqr,
                    min_dist_sqr == INFINITE_LENGTH ==> start_idx2 == 0,
                    min_dist_sqr < INFINITE_LENGTH ==> {
                        &&& start_idx2 < idx
                        &&& self@.gap(ring2@[start_idx2 as int], ring1@[0]) == min_dist_sqr
                        &&& forall|j: int| 0 <= j < start_idx2 ==> #[trigger] self@.gap(ring2@[j], ring1@[0]) > min_dist_sqr
                    },
                decreases ring2.len() - idx,
            {
                let pos = match self.position(ring2[idx]) {
                    Some(position) => position,
                    None => {
                        return None;
                    },
                };
                let dist_sqr = distance_squared(&pos, &first_pos);
                if dist_sqr < min_dist_sqr {
                    min_dist_sqr = dist_sqr;
                    start_idx2 = idx;
                }
                idx = idx + 1;
            }
            Some((0, start_idx2))
        }
    }

    /// Walks the two rings side by side from the positions `origin1` and `origin2` and
    /// divides them into stretches at the vertices of `common`.
    #[verifier::rlimit(100)]
    pub fn walk_stretches(ring1: &Vec<VertexId>, ring2: &Vec<VertexId>, common: &VertexSet, origin1: usize, origin2: usize) -> (pairs: Vec<
        ConnectPair,
    >)
        requires
            0 < ring1@.len() <= usize::MAX / 4,
            0 < ring2@.len() <= usize::MAX / 4,
            origin1 < ring1@.len(),
            origin2 < ring2@.len(),
        ensures
            stretches_of(pairs@) == walked_stretches(ring1@, ring2@, common@, origin1 as int, origin2 as int),
            pairs@.len() > 0,
            forall|k: int| 0 <= k < pairs@.len() ==> (#[trigger] pairs@[k]).ranges@[0].end <= 2 * ring1@.len() && pairs@[k].ranges@[1].end <= 2
                * ring2@.len(),
    {
        let mut pairs: Vec<ConnectPair> = Vec::new();
        let len1 = ring1.len();
        let len2 = ring2.len();
        let shared_any = !common.is_empty();
        let mut start_idx1 = origin1;
        let mut start_idx2 = origin2;
        let mut end_idx1 = ring_next(start_idx1, len1);
        let mut end_idx2 = ring_next(start_idx2, len2);
        let mut rounds: usize = len1 + len2 + 1;
        let mut stopped = false;
        let ghost target = RingWalk::begun(ring1@, ring2@, origin1 as int, origin2 as int).run(ring1@, ring2@, common@, origin1 as int, rounds as nat);
        proof {
            assert(stretches_of(pairs@) =~= Seq::<Stretch>::empty());
        }
        while end_idx1 != origin1 && rounds > 0 && !stopped
            invariant
                len1 == ring1@.len(),
                len2 == ring2@.len(),
                0 < len1 <= usize::MAX / 4,
                0 < len2 <= usize::MAX / 4,
                start_idx1 < len1,
                start_idx2 < len2,
                end_idx1 < len1,
                end_idx2 < len2,
                origin1 < len1,
                forall|k: int| 0 <= k < pairs@.len() ==> (#[trigger] pairs@[k]).ranges@[0].end <= 2 * len1 && pairs@[k].ranges@[1].end <= 2 * len2,
                target == (RingWalk {
                    start1: start_idx1 as int,
                    start2: start_idx2 as int,
                    end1: end_idx1 as int,
                    end2: end_idx2 as int,
                    done: stretches_of(pairs@),
                    stopped,
                }).run(ring1@, ring2@, common@, origin1 as int, rounds as nat),
            decreases rounds + (if stopped { 0int } else { 1int }),
        {
            let ghost now = RingWalk {
                start1: start_idx1 as int,
                start2: start_idx2 as int,
                end1: end_idx1 as int,
                end2: end_idx2 as int,
                done: stretches_of(pairs@),
                stopped,
            };
            rounds = rounds - 1;
            let v_id1 = ring1[end_idx1];
            let v_id2 = ring2[end_idx2];
            if common.contains(v_id1) || common.contains(v_id2) {
                if common.contains(v_id1) {
                    end_idx2 = seek(ring2, end_idx2, v_id1);
                } else {
                    end_idx1 = seek(ring1, end_idx1, v_id2);
                }
                let pair = ConnectPair::new(
                    IndexRange { start: start_idx1, end: end_idx1 },
                    len1,
                    IndexRange { start: start_idx2, end: end_idx2 },
                    len2,
                    true,
                );
                let ghost before = pairs@;
                pairs.push(pair);
                proof {
                    assert(stretches_of(pairs@) =~= stretches_of(before).push(
                        stretch_between(start_idx1 as int, end_idx1 as int, len1, start_idx2 as int, end_idx2 as int, len2, true),
                    ));
                }
                let run = pass_shared(ring1, common, end_idx1);
                end_idx1 = ring_add(end_idx1, run, len1);
                end_idx2 = ring_add(end_idx2, run, len2);
                start_idx1 = ring_prev(end_idx1, len1);
                start_idx2 = ring_prev(end_idx2, len2);
                if start_idx1 == origin1 {
                    stopped = true;
                }
            } else {
                end_idx1 = ring_next(end_idx1, len1);
                end_idx2 = ring_next(end_idx2, len2);
            }
            proof {
                assert((RingWalk {
                    start1: start_idx1 as int,
                    start2: start_idx2 as int,
                    end1: end_idx1 as int,
                    end2: end_idx2 as int,
                    done: stretches_of(pairs@),
                    stopped,
                }) == now.next(ring1@, ring2@, common@, origin1 as int));
            }
        }
        let ghost ended = RingWalk {
            start1: start_idx1 as int,
            start2: start_idx2 as int,
            end1: end_idx1 as int,
            end2: end_idx2 as int,
            done: stretches_of(pairs@),
            stopped,
        };
        proof {
            assert(target == ended);
        }
        let diff1 = if start_idx1 > end_idx1 {
            start_idx1 - end_idx1
        } else {
            end_idx1 - start_idx1
        };
        let diff1 = if diff1 < len1 - diff1 {
            diff1
        } else {
            len1 - diff1
        };
        let diff2 = if start_idx2 > end_idx2 {
            start_idx2 - end_idx2
        } else {
            end_idx2 - start_idx2
        };
        let diff2 = if diff2 < len2 - diff2 {
            diff2
        } else {
            len2 - diff2
        };
        let ghost before = pairs@;
        if pairs.len() == 0 {
            let pair = ConnectPair::new(
                IndexRange { start: origin1, end: ring_prev(origin1, len1) },
                len1,
                IndexRange { start: origin2, end: ring_prev(origin2, len2) },
                len2,
                shared_any,
            );
            pairs.push(pair);
            proof {
                assert(stretches_of(pairs@) =~= seq![
                    stretch_between(
                        origin1 as int,
                        preceding(origin1 as int, len1 as int),
                        len1,
                        origin2 as int,
                        preceding(origin2 as int, len2 as int),
                        len2,
                        shared_any,
                    ),
                ]);
            }
        } else if diff1 > 1 || diff2 > 1 {
            let pair = ConnectPair::new(
                IndexRange { start: start_idx1, end: end_idx1 },
                len1,
                IndexRange { start: start_idx2, end: end_idx2 },
                len2,
                shared_any,
            );
            pairs.push(pair);
            proof {
                assert(stretches_of(pairs@) =~= stretches_of(before).push(
                    stretch_between(start_idx1 as int, end_idx1 as int, len1, start_idx2 as int, end_idx2 as int, len2, shared_any),
                ));
            }
        }
        proof {
            assert(stretches_of(pairs@) == ended.stretches(ring1@, ring2@, origin1 as int, origin2 as int, shared_any));
        }
        pairs
    }

    /// Divides the two rings into the stretches that are to be stitched.
    ///
    /// Where the rings share exactly two vertices that are joined by an edge, the merge
    /// may be done at once by flipping and collapsing that edge; no stretch is given
    /// then. Otherwise the rings are walked side by side from the start positions; at
    /// every shared vertex the stretch walked so far is closed off, and the walk goes
    /// on behind the run of shared vertices. What is left at the end, or the whole of
    /// the rings where nothing is shared, is the last stretch. No stretch is given
    /// where no start is found, or a ring is longer than a quarter of what the machine
    /// can count.
    #[verifier::rlimit(50)]
    pub(crate) fn compute_range_pairs_to_connect(
        &mut self,
        ring1: &Vec<VertexId>,
        ring2: &Vec<VertexId>,
        set1: &VertexSet,
        set2: &VertexSet,
        flip_threshold_sqr: u32,
        result: &mut MergeVerticesOneRing,
    ) -> (pairs: Vec<ConnectPair>)
        requires
            old(self).wf(),
            ring1@.len() > 0,
            ring2@.len() > 0,
        ensures
            final(self).wf(),
            final(self)@.slots == old(self)@.slots,
            final(result).added_faces@ == old(result).added_faces@,
            pairs@.len() > 0 ==> final(self)@ == old(self)@ && *final(result) == *old(result),
            old(self)@.stretches_found(
                ring1@,
                ring2@,
                set1@.intersect(set2@),
                flip_threshold_sqr,
                final(self)@,
                old(result)@,
                final(result)@,
                pairs@,
            ),
            forall|k: int| 0 <= k < pairs@.len() ==> (#[trigger] pairs@[k]).ranges@[0].end <= 2 * ring1@.len() && pairs@[k].ranges@[1].end <= 2
                * ring2@.len(),
    {
        let len1 = ring1.len();
        let len2 = ring2.len();
        if len1 > usize::MAX / 4 || len2 > usize::MAX / 4 {
            return Vec::new();
        }
        let mut common = VertexSet::new();
        let members = set1.to_vec();
        let mut m: usize = 0;
        while m < members.len()
            invariant
                m <= members.len(),
                members@.to_set() == set1@,
                forall|v: VertexId| #[trigger] common@.contains(v) <==> set2@.contains(v) && exists|k: int| 0 <= k < m && members@[k] == v,
            decreases members.len() - m,
        {
            if set2.contains(members[m]) {
                common.insert(members[m]);
            }
            m = m + 1;
        }
        proof {
            assert(common@ =~= set1@.intersect(set2@)) by {
                assert forall|v: VertexId| set1@.intersect(set2@).contains(v) implies common@.contains(v) by {
                    assert(members@.to_set().contains(v));
                    let k = choose|k: int| 0 <= k < members@.len() && members@[k] == v;
                    assert(members@[k] == v);
                }
                assert forall|v: VertexId| common@.contains(v) implies set1@.intersect(set2@).contains(v) by {
                    let k = choose|k: int| 0 <= k < m && members@[k] == v;
                    assert(members@.to_set().contains(members@[k]));
                }
            }
        }
        let shared = common.to_vec();
        proof {
            shared@.unique_seq_to_set();
        }
        if shared.len() == 2 {
            proof {
                assert(common@ =~= set![shared@[0], shared@[1]]) by {
                    assert forall|v: VertexId| common@.contains(v) implies set![shared@[0], shared@[1]].contains(v) by {
                        assert(shared@.to_set().contains(v));
                        let k = choose|k: int| 0 <= k < shared@.len() && shared@[k] == v;
                        assert(k == 0 || k == 1);
                    }
                    assert(shared@.to_set().contains(shared@[0]));
                    assert(shared@.to_set().contains(shared@[1]));
                }
            }
            match self.halfedge_from_to(shared[0], shared[1]) {
                Some(he_id) => {
                    if self.flip_and_collapse_single_shared_edge_if_smaller(he_id, flip_threshold_sqr, result) {
                        return Vec::new();
                    }
                },
                None => {},
            }
            proof {
                assert(old(self)@.halfedge_from_to(shared@[0], shared@[1]) is Some ==> !old(self)@.close_across(
                    old(self)@.halfedge_from_to(shared@[0], shared@[1])->0,
                    flip_threshold_sqr,
                ));
            }
        }
        proof {
            assert(old(self)@.no_shortcut(common@, flip_threshold_sqr));
        }
        let start = self.find_start_indices(ring1, ring2, &common);
        let (origin1, origin2) = match start {
            Some(start) => start,
            None => {
                return Vec::new();
            },
        };
        let pairs = Self::walk_stretches(ring1, ring2, &common, origin1, origin2);
        proof {
            assert(old(self)@.walk_start(ring1@, ring2@, common@, start));
        }
        pairs
    }

    /// The triangles that stitch the stretches together.
    ///
    /// For each stretch the longer side is spread over the vertices of the shorter
    /// one. Each vertex of the shorter side gets the fan over its run of the longer
    /// side, and two triangles join it to the vertex before it. A closed stretch
    /// starts with the two triangles at its shared ends; an open one is joined round
    /// from its last vertex to its first.
    #[verifier::rlimit(50)]
    pub fn plan_new_faces(&self, range_pairs_to_connect: &Vec<ConnectPair>, ring1: &Vec<VertexId>, ring2: &Vec<VertexId>) -> (planned: Vec<
        PlannedFace,
    >)
        requires
            ring1@.len() > 0,
            ring2@.len() > 0,
            forall|k: int| 0 <= k < range_pairs_to_connect@.len() ==> (#[trigger] range_pairs_to_connect@[k]).ranges@[0].end < usize::MAX
                && range_pairs_to_connect@[k].ranges@[1].end < usize::MAX,
        ensures
            corners_of(planned@) == stitching(range_pairs_to_connect@, ring1@, ring2@, range_pairs_to_connect@.len()),
            forall|k: int| 0 <= k < planned@.len() ==> within_rings(#[trigger] planned@[k], ring1@, ring2@),
            range_pairs_to_connect@.len() == 0 ==> planned@.len() == 0,
    {
        let mut planned: Vec<PlannedFace> = Vec::new();
        let len1 = ring1.len();
        let len2 = ring2.len();
        let mut r: usize = 0;
        proof {
            assert(corners_of(planned@) =~= stitching(range_pairs_to_connect@, ring1@, ring2@, 0));
        }
        while r < range_pairs_to_connect.len()
            invariant
                r <= range_pairs_to_connect.len(),
                len1 == ring1@.len(),
                len2 == ring2@.len(),
                len1 > 0,
                len2 > 0,
                forall|k: int| 0 <= k < range_pairs_to_connect@.len() ==> (#[trigger] range_pairs_to_connect@[k]).ranges@[0].end < usize::MAX
                    && range_pairs_to_connect@[k].ranges@[1].end < usize::MAX,
                forall|k: int| 0 <= k < planned@.len() ==> within_rings(#[trigger] planned@[k], ring1@, ring2@),
                r == 0 ==> planned@.len() == 0,
                corners_of(planned@) == stitching(range_pairs_to_connect@, ring1@, ring2@, r as nat),
            decreases range_pairs_to_connect.len() - r,
        {
            let pair = range_pairs_to_connect[r];
            let ghost done = corners_of(planned@);
            proof {
                let working = pair.working_ranges();
                assert(pair.ranges@[0].end < usize::MAX && pair.ranges@[1].end < usize::MAX);
                assert(working.0.end < usize::MAX && working.1.end < usize::MAX);
            }
            let pairings = pair.compute_pairings();
            let ghost before = planned@;
            let mut corners = corner_faces(&pair, ring1, ring2);
            proof {
                lemma_corners_of_concat(before, corners@);
            }
            planned.append(&mut corners);
            let mut prev = lead_of(&pair, &pairings, ring1, ring2);
            proof {
                assert(corners_of(planned@) =~= done + pair.corners(ring1@, ring2@));
            }
            let ghost target = done + pair.faces(ring1@, ring2@);
            proof {
                assert(corners_of(planned@) + strip(pairings@, ring1@, ring2@, prev, 0) =~= target);
            }
            let mut p: usize = 0;
            while p < pairings.len()
                invariant
                    p <= pairings.len(),
                    len1 == ring1@.len(),
                    len2 == ring2@.len(),
                    len1 > 0,
                    len2 > 0,
                    pair.spread_by(pairings@),
                    forall|k: int| 0 <= k < planned@.len() ==> within_rings(#[trigger] planned@[k], ring1@, ring2@),
                    prev is Some ==> (ring1@.contains((prev->0).0) || ring2@.contains((prev->0).0)) && (ring1@.contains((prev->0).1) || ring2@.contains(
                        (prev->0).1,
                    )),
                    corners_of(planned@) + strip(pairings@, ring1@, ring2@, prev, p as nat) == target,
                decreases pairings.len() - p,
            {
                let pairing = pairings[p];
                let ghost before = planned@;
                proof {
                    assert(pairing == pairings@[p as int]);
                    lemma_pairing_in_rings(pairing, ring1@, ring2@, pairing.other_range.start as int);
                    lemma_pairing_in_rings(pairing, ring1@, ring2@, pairing.other_range.end as int);
                    lemma_strip_unfolds(pairings@, ring1@, ring2@, prev, p as nat, corners_of(before));
                }
                let mut bridge = pairing.bridge_faces(ring1, ring2, prev);
                proof {
                    lemma_bridge_within_rings(pairing, ring1@, ring2@, prev, bridge@);
                    lemma_corners_of_concat(before, bridge@);
                }
                planned.append(&mut bridge);
                let ghost bridged = planned@;
                let mut fan = pairing.fill_faces(ring1, ring2);
                proof {
                    lemma_fan_within_rings(pairing, ring1@, ring2@, fan@);
                    lemma_corners_of_concat(bridged, fan@);
                }
                planned.append(&mut fan);
                prev = Some(pairing.last_pair(ring1, ring2));
                p = p + 1;
            }
            proof {
                assert(strip(pairings@, ring1@, ring2@, prev, p as nat) =~= Seq::<Seq<VertexId>>::empty());
                assert(corners_of(planned@) =~= target);
                assert(pair == range_pairs_to_connect@[r as int]);
            }
            r = r + 1;
        }
        planned
    }

    /// Stitches the planned triangles in, one after the other: each is turned to run
    /// along the boundary and put in, and the halfedges made for it that join the two
    /// rings are marked. A triangle of which no side has a halfedge yet is left out.
    /// Stops where the mesh has no room for another triangle, and says how many
    /// triangles it has dealt with.
    #[verifier::rlimit(100)]
    pub(crate) fn stitch_faces(
        &mut self,
        planned: &Vec<PlannedFace>,
        set1: &VertexSet,
        set2: &VertexSet,
        marked_halfedges: &mut HalfedgeSet,
        result: &mut MergeVerticesOneRing,
    ) -> (count: usize)
        requires
            old(self).wf(),
        ensures
            final(self).wf(),
            count <= planned@.len(),
            count < planned@.len() ==> !final(self)@.has_room(0, 6, 1),
            old(self)@.faces_stitched(
                corners_of(planned@),
                count as nat,
                set1@,
                set2@,
                final(self)@,
                old(result)@,
                final(result)@,
                old(marked_halfedges)@,
                final(marked_halfedges)@,
            ),
            old(marked_halfedges)@.subset_of(final(marked_halfedges)@),
            old(result)@.added_faces.is_prefix_of(final(result)@.added_faces),
            final(self)@.slots == old(self)@.slots + final(result)@.added_faces.skip(old(result)@.added_faces.len() as int),
    {
        let mut i: usize = 0;
        proof {
            assert(result@.added_faces.skip(old(result)@.added_faces.len() as int) =~= Seq::<FaceId>::empty());
            assert(self@.slots =~= old(self)@.slots + Seq::<FaceId>::empty());
        }
        while i < planned.len()
            invariant
                i <= planned.len(),
                self.wf(),
                old(marked_halfedges)@.subset_of(marked_halfedges@),
                old(result)@.added_faces.is_prefix_of(result@.added_faces),
                self@.slots == old(self)@.slots + result@.added_faces.skip(old(result)@.added_faces.len() as int),
                old(self)@.faces_stitched(corners_of(planned@), i as nat, set1@, set2@, self@, old(result)@, result@, old(marked_halfedges)@, marked_halfedges@),
            decreases planned.len() - i,
        {
            if !self.has_room(0, 6, 1) {
                return i;
            }
            let ghost mid = self@;
            let ghost so_far = result@;
            let ghost marked_so_far = marked_halfedges@;
            self.stitch_face(&planned[i], set1, set2, marked_halfedges, result);
            proof {
                let start = old(result)@.added_faces.len() as int;
                let middle = so_far.added_faces.len() as int;
                assert(result@.added_faces.skip(start) =~= so_far.added_faces.skip(start) + result@.added_faces.skip(middle));
                assert(self@.slots =~= old(self)@.slots + result@.added_faces.skip(start));
                let n = (i + 1) as nat;
                assert(corners_of(planned@)[n - 1] == planned@[i as int].0@);
                assert(old(self)@.faces_stitched(
                    corners_of(planned@),
                    (n - 1) as nat,
                    set1@,
                    set2@,
                    mid,
                    old(result)@,
                    so_far,
                    old(marked_halfedges)@,
                    marked_so_far,
                ));
                assert(mid.face_stitched(corners_of(planned@)[n - 1], set1@, set2@, self@, so_far, result@, marked_so_far, marked_halfedges@));
                assert(old(self)@.faces_stitched(
                    corners_of(planned@),
                    n,
                    set1@,
                    set2@,
                    self@,
                    old(result)@,
                    result@,
                    old(marked_halfedges)@,
                    marked_halfedges@,
                ));
            }
            i = i + 1;
        }
        i
    }

    /// Stitches one planned triangle in: turns it to run along the boundary, puts it in
    /// and marks the halfedges made for it that join the two rings. Leaves it out where
    /// none of its sides has a halfedge yet.
    #[verifier::rlimit(100)]
    pub(crate) fn stitch_face(
        &mut self,
        planned: &PlannedFace,
        set1: &VertexSet,
        set2: &VertexSet,
        marked_halfedges: &mut HalfedgeSet,
        result: &mut MergeVerticesOneRing,
    )
        requires
            old(self).wf(),
            old(self)@.has_room(0, 6, 1),
        ensures
            final(self).wf(),
            old(self)@.face_stitched(planned.0@, set1@, set2@, final(self)@, old(result)@, final(result)@, old(marked_halfedges)@, final(marked_halfedges)@),
            old(marked_halfedges)@.subset_of(final(marked_halfedges)@),
            old(result)@.added_faces.is_prefix_of(final(result)@.added_faces),
            final(self)@.slots == old(self)@.slots + final(result)@.added_faces.skip(old(result)@.added_faces.len() as int),
    {
        let mut planned_face = *planned;
        proof {
            assert(result@.added_faces.skip(result@.added_faces.len() as int) =~= Seq::<FaceId>::empty());
            assert(self@.slots =~= self@.slots + Seq::<FaceId>::empty());
        }
        if !planned_face.make_ccw(self) {
            return ;
        }
        let mut inserted = planned_face.insert_into_meshgraph(self);
        let ghost created = inserted.halfedge_ids@;
        let mut k: usize = 0;
        proof {
            assert(marked_halfedges@ =~= old(marked_halfedges)@.union(self@.seams_among(created, 0, set1@, set2@)));
        }
        while k < inserted.halfedge_ids.len()
            invariant
                k <= inserted.halfedge_ids.len(),
                inserted.halfedge_ids@ == created,
                self.wf(),
                marked_halfedges@ == old(marked_halfedges)@.union(self@.seams_among(created, k as int, set1@, set2@)),
            decreases inserted.halfedge_ids.len() - k,
        {
            let he_id = inserted.halfedge_ids[k];
            let ghost before = marked_halfedges@;
            match self.halfedge(he_id) {
                Some(he) => match he.start_vertex(self) {
                    Some(start_v_id) => {
                        let end_v_id = he.end_vertex;
                        if (set1.contains(start_v_id) && set2.contains(end_v_id)) || (set2.contains(start_v_id) && set1.contains(end_v_id)) {
                            marked_halfedges.insert(he_id);
                        }
                    },
                    None => {},
                },
                None => {},
            }
            proof {
                assert(marked_halfedges@ == (if self@.is_seam(he_id, set1@, set2@) {
                    before.insert(he_id)
                } else {
                    before
                }));
                assert(marked_halfedges@ =~= old(marked_halfedges)@.union(self@.seams_among(created, k + 1, set1@, set2@))) by {
                    assert forall|h: HalfedgeId| self@.seams_among(created, k + 1, set1@, set2@).contains(h) <==> (self@.seams_among(
                        created,
                        k as int,
                        set1@,
                        set2@,
                    ).contains(h) || (h == he_id && self@.is_seam(he_id, set1@, set2@))) by {
                        if self@.seams_among(created, k + 1, set1@, set2@).contains(h) {
                            let q = choose|q: int| 0 <= q < k + 1 && q < created.len() && created[q] == h;
                            if q < k {
                                assert(self@.seams_among(created, k as int, set1@, set2@).contains(h));
                            }
                        }
                        if self@.seams_among(created, k as int, set1@, set2@).contains(h) {
                            let q = choose|q: int| 0 <= q < k && q < created.len() && created[q] == h;
                            assert(0 <= q < k + 1 && created[q] == h);
                        }
                        if h == he_id && self@.is_seam(he_id, set1@, set2@) {
                            assert(created[k as int] == h);
                        }
                    }
                }
            }
            k = k + 1;
        }
        result.added_halfedges.append(&mut inserted.halfedge_ids);
        result.added_faces.push(inserted.face_id);
        proof {
            assert(result@.added_faces =~= old(result)@.added_faces.push(inserted.face_id));
            assert(result@ == old(result)@.with_made(inserted.face_id, created));
            assert(result@.added_faces.skip(old(result)@.added_faces.len() as int) =~= seq![inserted.face_id]);
            assert(self@.slots =~= old(self)@.slots + seq![inserted.face_id]);
        }
    }

    /// Repairs the neighbourhood of every live vertex of `rim`, one after the other, and
    /// notes what went; the vertices that a split names are marked.
    pub(crate) fn repair_rim(&mut self, rim: &Vec<VertexId>, marked_vertices: &mut VertexSet, result: &mut MergeVerticesOneRing)
        requires
            old(self).wf(),
        ensures
            final(self).wf(),
            final(self)@.slots == old(self)@.slots,
            final(result)@.added_faces == old(result)@.added_faces,
            old(marked_vertices)@.subset_of(final(marked_vertices)@),
            old(self)@.rim_repaired(rim@, rim@.len(), final(self)@, old(result)@, final(result)@, old(marked_vertices)@, final(marked_vertices)@),
    {
        let mut j: usize = 0;
        while j < rim.len()
            invariant
                j <= rim.len(),
                self.wf(),
                self@.slots == old(self)@.slots,
                result@.added_faces == old(result)@.added_faces,
                old(marked_vertices)@.subset_of(marked_vertices@),
                old(self)@.rim_repaired(rim@, j as nat, self@, old(result)@, result@, old(marked_vertices)@, marked_vertices@),
            decreases rim.len() - j,
        {
            let ghost mid = self@;
            let ghost so_far = result@;
            let ghost marked_so_far = marked_vertices@;
            if self.vertex(rim[j]).is_some() {
                let mut cleanup = self.make_vertex_neighborhood_manifold(rim[j]);
                let ghost repaired = cleanup;
                if cleanup.split_vertices.len() >= 2 {
                    result.added_vertices.push(cleanup.split_vertices[1]);
                    marked_vertices.extend_from(&cleanup.split_vertices);
                }
                result.removed_vertices.append(&mut cleanup.removed_vertices);
                result.removed_halfedges.append(&mut cleanup.removed_halfedges);
                result.removed_faces.append(&mut cleanup.removed_faces);
                proof {
                    assert(mid.repair_gives(rim@[j as int], self@, repaired));
                    assert(result@.added_vertices =~= so_far.added_vertices + first_duplicate(repaired.split_vertices@));
                    assert(result@ =~= so_far.with_repaired(repaired));
                }
            }
            proof {
                let n = (j + 1) as nat;
                assert(old(self)@.rim_repaired(rim@, (n - 1) as nat, mid, old(result)@, so_far, old(marked_vertices)@, marked_so_far));
                assert(mid.vertex_repaired(rim@[n - 1], self@, so_far, result@, marked_so_far, marked_vertices@));
                assert(old(self)@.rim_repaired(rim@, n, self@, old(result)@, result@, old(marked_vertices)@, marked_vertices@));
            }
            j = j + 1;
        }
    }

    /// Merges two vertices by joining their one-rings.
    ///
    /// The one-ring of the first vertex and the one-ring of the second, taken
    /// backwards, are divided into stretches; where they share exactly two vertices
    /// that are joined by a short enough diagonal, the merge is done at once by
    /// flipping and collapsing that edge. Otherwise the faces round the two vertices
    /// are deleted, and with them the two vertices. The rims of the two holes are
    /// stitched together by new triangles, each turned to run along the boundary it is
    /// built on. Every new halfedge that joins a vertex of the one rim to a vertex of
    /// the other is put into `marked_halfedges`. Then the neighbourhood of every vertex
    /// of the two rims is made manifold; the vertices that this splits and their
    /// duplicates are put into `marked_vertices`.
    ///
    /// `flip_threshold_sqr` is the bit pattern of a squared length. Nothing happens
    /// where one of the vertices is not live or has a one-ring of fewer than three
    /// vertices. The stitching stops early where the mesh has no room for another
    /// triangle. The faces that were added are the faces that the slot table has
    /// gained, in their order.
    #[verifier::rlimit(100)]
    pub fn merge_vertices_one_rings(
        &mut self,
        vertex_id1: VertexId,
        vertex_id2: VertexId,
        flip_threshold_sqr: u32,
        marked_halfedges: &mut HalfedgeSet,
        marked_vertices: &mut VertexSet,
    ) -> (result: MergeVerticesOneRing)
        requires
            old(self).wf(),
            flip_threshold_sqr <= INFINITE_LENGTH,
        ensures
            final(self).wf(),
            final(self)@.slots == old(self)@.slots + result.added_faces@,
            old(marked_halfedges)@.subset_of(final(marked_halfedges)@),
            old(marked_vertices)@.subset_of(final(marked_vertices)@),
            !old(self)@.mergeable(vertex_id1, vertex_id2) ==> final(self)@ == old(self)@ && result.is_empty() && final(marked_halfedges)@ == old(
                marked_halfedges,
            )@ && final(marked_vertices)@ == old(marked_vertices)@,
            old(self)@.mergeable(vertex_id1, vertex_id2) ==> exists|stages: MergeStages| #[trigger]
                old(self)@.merged_by(
                    vertex_id1,
                    vertex_id2,
                    flip_threshold_sqr,
                    stages,
                    final(self)@,
                    result@,
                    old(marked_halfedges)@,
                    final(marked_halfedges)@,
                    old(marked_vertices)@,
                    final(marked_vertices)@,
                ),
    {
        let mut result = MergeVerticesOneRing::new();
        if self.vertex(vertex_id1).is_none() || self.vertex(vertex_id2).is_none() {
            return result;
        }
        let ring1 = self.one_ring_vertices(vertex_id1);
        let backwards = self.one_ring_vertices(vertex_id2);
        if ring1.len() < 3 || backwards.len() < 3 {
            return result;
        }
        proof {
            assert(old(self)@.mergeable(vertex_id1, vertex_id2));
            assert(result@.removed_vertices =~= Seq::<VertexId>::empty());
            assert(result@.removed_halfedges =~= Seq::<HalfedgeId>::empty());
            assert(result@.removed_faces =~= Seq::<FaceId>::empty());
            assert(result@.added_halfedges =~= Seq::<HalfedgeId>::empty());
            assert(result@.added_faces =~= Seq::<FaceId>::empty());
            assert(result@.added_vertices =~= Seq::<VertexId>::empty());
            assert(result@ == MergeLists::empty());
        }
        let mut ring2: Vec<VertexId> = Vec::new();
        let mut b: usize = backwards.len();
        while b > 0
            invariant
                b <= backwards.len(),
                ring2@.len() == backwards.len() - b,
                forall|k: int| 0 <= k < ring2@.len() ==> ring2@[k] == backwards@[backwards@.len() - 1 - k],
            decreases b,
        {
            b = b - 1;
            ring2.push(backwards[b]);
        }
        proof {
            assert(ring2@ =~= reversed(backwards@));
        }
        let set1 = VertexSet::from_vec(&ring1);
        let set2 = VertexSet::from_vec(&ring2);
        let range_pairs_to_connect = self.compute_range_pairs_to_connect(&ring1, &ring2, &set1, &set2, flip_threshold_sqr, &mut result);
        let ghost found = self@;
        let ghost taken = result@;
        if range_pairs_to_connect.len() == 0 {
            proof {
                let stages = MergeStages {
                    pairs: range_pairs_to_connect@,
                    found,
                    taken,
                    cleared: found,
                    gone: taken,
                    stitched_count: 0,
                    stitched: found,
                    added: taken,
                };
                assert(old(self)@.merged_by(
                    vertex_id1,
                    vertex_id2,
                    flip_threshold_sqr,
                    stages,
                    self@,
                    result@,
                    old(marked_halfedges)@,
                    marked_halfedges@,
                    old(marked_vertices)@,
                    marked_vertices@,
                ));
            }
            return result;
        }
        let planned_faces = self.plan_new_faces(&range_pairs_to_connect, &ring1, &ring2);
        self.delete_neighbour_faces(vertex_id1, vertex_id2, &mut result);
        let ghost cleared = self@;
        let ghost gone = result@;
        let count = self.stitch_faces(&planned_faces, &set1, &set2, marked_halfedges, &mut result);
        let ghost stitched = self@;
        let ghost added = result@;
        proof {
            assert(result@.added_faces.skip(0) =~= result@.added_faces);
        }
        if count == planned_faces.len() {
            let mut rim = ring1;
            let mut rest = ring2;
            rim.append(&mut rest);
            self.repair_rim(&rim, marked_vertices, &mut result);
        }
        proof {
            let stages = MergeStages { pairs: range_pairs_to_connect@, found, taken, cleared, gone, stitched_count: count as nat, stitched, added };
            assert(old(self)@.merged_by(
                vertex_id1,
                vertex_id2,
                flip_threshold_sqr,
                stages,
                self@,
                result@,
                old(marked_halfedges)@,
                marked_halfedges@,
                old(marked_vertices)@,
                marked_vertices@,
            ));
        }
        result
    }
}

} // verus!
