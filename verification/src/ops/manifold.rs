//! Making the neighbourhood of a vertex manifold again.
//!
//! After an edit, triangles round a vertex may lie on top of one another. Three repairs
//! are tried in turn on a vertex: two coincident triangles that are neighbours round
//! the vertex are removed and the gap is closed; two coincident triangles that are not
//! neighbours split the vertex in two; two coincident edges at the vertex split it
//! likewise. The repairs only ever take faces and halfedges away; the only elements
//! they add are the duplicates of split vertices.

use vstd::prelude::*;
use crate::elements::Face;
use crate::idset::HalfedgeSet;
use crate::ids::{FaceId, HalfedgeId, VertexId};
use crate::mesh::{MeshGraph, MeshModel};

verus! {

/// What a repair of a neighbourhood took away and split.
pub struct VertexNeighborhoodCleanup {
    /// The vertices that were deleted.
    pub removed_vertices: Vec<VertexId>,
    /// The halfedges that were deleted.
    pub removed_halfedges: Vec<HalfedgeId>,
    /// The faces that were deleted.
    pub removed_faces: Vec<FaceId>,
    /// For every split, the vertex that was split and then its duplicate.
    pub split_vertices: Vec<VertexId>,
}

/// The position after `k` round a fan of `n` halfedges.
pub open spec fn next_round(k: int, n: int) -> int {
    if k + 1 == n {
        0
    } else {
        k + 1
    }
}

/// The halfedges of `fan` from position `k` round to position `i`, both included; no
/// more than `fuel` of them.
pub open spec fn handed_list(fan: Seq<HalfedgeId>, k: int, i: int, fuel: nat) -> Seq<HalfedgeId>
    decreases fuel,
{
    if fuel == 0 {
        Seq::empty()
    } else if k == i {
        seq![fan[k]]
    } else {
        seq![fan[k]] + handed_list(fan, next_round(k, fan.len() as int), i, (fuel - 1) as nat)
    }
}

impl MeshModel {
    /// Whether the halfedge `he` is live and lies in the face `f`.
    pub open spec fn lies_in(self, he: HalfedgeId, f: FaceId) -> bool {
        self.halfedges.dom().contains(he) && self.halfedges[he].face == Some(f)
    }

    /// The first position of `fan` from `k` on whose halfedge lies in the face `f`.
    pub open spec fn first_in_face(self, fan: Seq<HalfedgeId>, f: FaceId, k: nat) -> Option<nat>
        decreases fan.len() - k,
    {
        if k >= fan.len() {
            None
        } else if self.lies_in(fan[k as int], f) {
            Some(k)
        } else {
            self.first_in_face(fan, f, k + 1)
        }
    }

    /// Where the first side of a cut at the faces `f1` and `f2` starts: behind the first
    /// halfedge of the fan that lies in `f1`, or at the start of the fan where none
    /// does.
    pub open spec fn cut_start(self, fan: Seq<HalfedgeId>, f1: FaceId) -> int {
        match self.first_in_face(fan, f1, 0) {
            Some(k) => next_round(k as int, fan.len() as int),
            None => 0,
        }
    }

    /// The halfedges of `fan` from position `at` round to the first that lies in the
    /// face `f`, which is the last of them, and the position of that one; nothing where
    /// none of the next `fuel` halfedges lies in it.
    pub open spec fn run_to_face(self, fan: Seq<HalfedgeId>, f: FaceId, at: int, fuel: nat) -> Option<(Seq<HalfedgeId>, int)>
        decreases fuel,
    {
        if fuel == 0 {
            None
        } else if self.lies_in(fan[at], f) {
            Some((seq![fan[at]], at))
        } else {
            match self.run_to_face(fan, f, next_round(at, fan.len() as int), (fuel - 1) as nat) {
                Some(found) => Some((seq![fan[at]] + found.0, found.1)),
                None => None,
            }
        }
    }

    /// The two sides into which the fan of a vertex is cut at the faces `f1` and `f2`:
    /// the first runs from behind the halfedge of `f1` to the halfedge of `f2`, the
    /// second from the halfedge of `f2` on round to where the first began. Both are
    /// empty where the fan is empty or no halfedge of `f2` is come to.
    pub open spec fn sides_cut(self, fan: Seq<HalfedgeId>, f1: FaceId, f2: FaceId) -> (Seq<HalfedgeId>, Seq<HalfedgeId>) {
        if fan.len() == 0 {
            (Seq::empty(), Seq::empty())
        } else {
            let start = self.cut_start(fan, f1);
            match self.run_to_face(fan, f2, start, fan.len()) {
                Some(found) => (found.0, run_round(fan, found.1, start, fan.len())),
                None => (Seq::empty(), Seq::empty()),
            }
        }
    }

    /// The mesh without the face `f` where it is live; as it is otherwise.
    pub open spec fn face_gone(self, f: FaceId) -> MeshModel {
        if self.faces.dom().contains(f) {
            self.without_face(f)
        } else {
            self
        }
    }
}

/// The halfedges of `fan` from position `at` round to the position before `stop`; no
/// more than `fuel` of them.
pub open spec fn run_round(fan: Seq<HalfedgeId>, at: int, stop: int, fuel: nat) -> Seq<HalfedgeId>
    decreases fuel,
{
    if fuel == 0 || at == stop {
        Seq::empty()
    } else {
        seq![fan[at]] + run_round(fan, next_round(at, fan.len() as int), stop, (fuel - 1) as nat)
    }
}

/// The three lists of what a repair took away.
pub struct RepairLists {
    pub vertices: Seq<VertexId>,
    pub halfedges: Seq<HalfedgeId>,
    pub faces: Seq<FaceId>,
}

/// The three lists as one.
pub open spec fn repair_lists(vertices: Seq<VertexId>, halfedges: Seq<HalfedgeId>, faces: Seq<FaceId>) -> RepairLists {
    RepairLists { vertices, halfedges, faces }
}

/// Where a repair of a neighbourhood stands between two rounds.
pub struct RepairRun {
    pub mesh: MeshModel,
    /// The vertices that are still to be repaired; the first is repaired next.
    pub queue: Seq<VertexId>,
    /// What was taken away so far.
    pub lists: RepairLists,
    /// For every split so far, the vertex that was split and its duplicate.
    pub splits: Seq<VertexId>,
}

impl RepairRun {
    /// Whether nothing was added to the lists between `before` and this run.
    pub open spec fn lists_as(self, before: RepairRun) -> bool {
        self.lists.vertices.len() == before.lists.vertices.len() && self.lists.halfedges.len() == before.lists.halfedges.len()
            && self.lists.faces.len() == before.lists.faces.len()
    }

    /// Whether one round on the vertex at the head of the queue leads from this run to
    /// `next`. A round that splits the vertex puts the duplicate at the end of the
    /// queue and notes the split; a round that takes nothing away takes the vertex out
    /// of the queue; any other round leaves the queue as it is.
    pub open spec fn steps_to(self, next: RepairRun) -> bool {
        self.queue.len() > 0 && exists|duplicate: Option<VertexId>| #[trigger]
            self.mesh.round_gives(self.queue[0], next.mesh, self.lists, next.lists, duplicate) && (match duplicate {
                Some(made) => next.splits == self.splits.push(self.queue[0]).push(made) && next.queue == self.queue.push(made),
                None => next.splits == self.splits && next.queue == (if next.lists_as(self) {
                    self.queue.remove(0)
                } else {
                    self.queue
                }),
            })
    }

    /// Whether `n` rounds, one after the other, lead from this run to `end`.
    pub open spec fn runs_to(self, end: RepairRun, n: nat) -> bool
        decreases n,
    {
        if n == 0 {
            end == self
        } else {
            exists|mid: RepairRun| self.runs_to(mid, (n - 1) as nat) && #[trigger] mid.steps_to(end)
        }
    }
}

/// The steps of one round of the repairs on a vertex.
pub struct RoundSteps {
    /// The mesh and the lists when the flaps were removed.
    pub flaps: MeshModel,
    pub flap_lists: RepairLists,
    /// The mesh when the coincident faces were dealt with, and the duplicate that this
    /// made.
    pub faces: MeshModel,
    pub face_duplicate: Option<VertexId>,
}

/// The steps of a split of a vertex at two coincident faces.
pub struct FaceSplitParts {
    /// The mesh when the vertex was split, or when the split stopped.
    pub split: MeshModel,
    /// The duplicate, where the vertex was split.
    pub made: Option<VertexId>,
    /// The halfedges that went with the first face, and those that went with the
    /// second, each once, in no stated order.
    pub gone_halfedges1: Seq<HalfedgeId>,
    pub gone_halfedges2: Seq<HalfedgeId>,
}

/// The steps of the removal of two coincident faces.
pub struct FlapParts {
    /// The mesh when the first face was deleted, and what went with the face.
    pub first_gone: MeshModel,
    pub gone_vertices1: Seq<VertexId>,
    pub gone_halfedges1: Seq<HalfedgeId>,
    /// The mesh when the second face was deleted, and what went with the face.
    pub second_gone: MeshModel,
    pub gone_vertices2: Seq<VertexId>,
    pub gone_halfedges2: Seq<HalfedgeId>,
    /// The halfedges of the two faces that have outlived the two deletions, each once.
    pub left: Seq<HalfedgeId>,
}

impl FlapParts {
    /// The halfedges that closing the gap took away; none where the gap was not closed.
    pub open spec fn closed_away(self) -> Seq<HalfedgeId> {
        if self.left.len() == 2 {
            self.second_gone.gap_halfedges(self.left[0], self.left[1])
        } else {
            Seq::empty()
        }
    }
}

/// The pairs of neighbours round a ring: each item with the one after it, the last with
/// the first.
pub open spec fn ring_pairs(ring: Seq<FaceId>) -> Seq<(FaceId, FaceId)> {
    Seq::new(ring.len(), |i: int| (ring[i], ring[(i + 1) % (ring.len() as int)]))
}

impl MeshModel {
    /// Whether this mesh has come from `earlier` by taking faces and halfedges away:
    /// it has no face and no halfedge that `earlier` has not, and the same slot table.
    pub open spec fn pruned_from(self, earlier: MeshModel) -> bool {
        &&& self.faces.dom().subset_of(earlier.faces.dom())
        &&& self.halfedges.dom().subset_of(earlier.halfedges.dom())
        &&& self.slots == earlier.slots
    }

    /// Whether none of the halfedges of `list` from position `from` on is live.
    pub open spec fn halfedges_gone(self, list: Seq<HalfedgeId>, from: int) -> bool {
        forall|i: int| from <= i < list.len() ==> !self.halfedges.dom().contains(#[trigger] list[i])
    }

    /// Whether none of the faces of `list` from position `from` on is live.
    pub open spec fn faces_gone(self, list: Seq<FaceId>, from: int) -> bool {
        forall|i: int| from <= i < list.len() ==> !self.faces.dom().contains(#[trigger] list[i])
    }

    /// Whether no two different faces that are neighbours round the live vertex `v` lie
    /// on top of each other.
    pub open spec fn no_flaps(self, v: VertexId) -> bool {
        self.vertices.dom().contains(v) ==> {
            let pairs = ring_pairs(self.vertex_faces(self.vertices[v]));
            forall|k: int| 0 <= k < pairs.len() && (#[trigger] pairs[k]).0 != pairs[k].1 ==> !self.share_all_vertices(pairs[k].0, pairs[k].1)
        }
    }

    /// Whether no two different faces round the live vertex `v` lie on top of each
    /// other.
    pub open spec fn no_folded_faces(self, v: VertexId) -> bool {
        self.vertices.dom().contains(v) ==> {
            let faces = self.vertex_faces(self.vertices[v]);
            forall|i: int, j: int| 0 <= i < j < faces.len() && faces[i] != faces[j] ==> !#[trigger] self.share_all_vertices(faces[i], faces[j])
        }
    }

    /// Whether no two different outgoing halfedges in the fan of the live vertex `v`
    /// run to the same place.
    pub open spec fn no_folded_edges(self, v: VertexId) -> bool {
        self.vertices.dom().contains(v) ==> {
            let fan = self.fan(self.vertices[v]);
            forall|i: int, j: int| 0 <= i < j < fan.len() && fan[i] != fan[j] ==> !#[trigger] self.same_run(fan[i], fan[j])
        }
    }

    /// Whether nothing round the vertex `v` lies on top of anything else: the
    /// neighbourhood needs no repair.
    pub open spec fn coincidence_free(self, v: VertexId) -> bool {
        self.no_flaps(v) && self.no_folded_faces(v) && self.no_folded_edges(v)
    }
    /// Whether the first part of a weld can be done: `he2` is live and has a twin and a
    /// live predecessor.
    pub open spec fn weld_begins(self, he2: HalfedgeId) -> bool {
        &&& self.halfedges.dom().contains(he2)
        &&& self.halfedges[he2].twin is Some
        &&& self.prev_of(self.halfedges[he2]) is Some
        &&& self.halfedges.dom().contains(self.prev_of(self.halfedges[he2])->0)
    }

    /// Whether `he2` can be welded into `he1`: the first part can be done, `he1` is
    /// live and has a twin, and the twin of `he2` is live.
    pub open spec fn weldable(self, he1: HalfedgeId, he2: HalfedgeId) -> bool {
        &&& self.weld_begins(he2)
        &&& self.halfedges.dom().contains(he1)
        &&& self.halfedges[he1].twin is Some
        &&& self.halfedges.dom().contains(self.halfedges[he2].twin->0)
    }

    /// The halfedges that the weld of `he2` into `he1` takes away: `he2` and the twin
    /// that `he1` had.
    pub open spec fn welded_away(self, he1: HalfedgeId, he2: HalfedgeId) -> Seq<HalfedgeId> {
        if self.weldable(he1, he2) {
            seq![he2, self.halfedges[he1].twin->0]
        } else {
            Seq::empty()
        }
    }

    /// The mesh with the halfedge `he2`, which starts at `start`, welded into `he1`.
    ///
    /// The predecessor of `he2` is followed by `he1`. Then `he1` and the twin of `he2`
    /// are twins of each other, `he2` and the twin that `he1` had have left the lists of
    /// their start vertices and are gone, and `he1` is the canonical outgoing halfedge
    /// of `start`. The work stops behind its first part where `he1` cannot be welded,
    /// and nothing happens where the first part cannot be done.
    pub open spec fn welded(self, start: VertexId, he1: HalfedgeId, he2: HalfedgeId) -> MeshModel {
        if !self.weld_begins(he2) {
            self
        } else {
            let linked = self.put_next(self.prev_of(self.halfedges[he2])->0, Some(he1));
            if !self.weldable(he1, he2) {
                linked
            } else {
                let twin1 = self.halfedges[he1].twin->0;
                let twin2 = self.halfedges[he2].twin->0;
                let paired = linked.put_twin(twin2, Some(he1)).put_twin(he1, Some(twin2)).unlist(start, he2).unlist(
                    self.halfedges[he1].end_vertex,
                    twin1,
                );
                (MeshModel { halfedges: paired.halfedges.remove(he2).remove(twin1), ..paired }).put_canonical(start, Some(he1))
            }
        }
    }

    /// Whether the gap between the halfedges `he1` and `he2` can be closed: both are
    /// live and have live twins.
    pub open spec fn gap_closable(self, he1: HalfedgeId, he2: HalfedgeId) -> bool {
        &&& self.halfedges.dom().contains(he1)
        &&& self.halfedges[he1].twin is Some
        &&& self.halfedges.dom().contains(he2)
        &&& self.halfedges[he2].twin is Some
        &&& self.halfedges.dom().contains(self.halfedges[he1].twin->0)
        &&& self.halfedges.dom().contains(self.halfedges[he2].twin->0)
    }

    /// The halfedges that closing the gap between `he1` and `he2` takes away: the two.
    pub open spec fn gap_halfedges(self, he1: HalfedgeId, he2: HalfedgeId) -> Seq<HalfedgeId> {
        if self.gap_closable(he1, he2) {
            seq![he1, he2]
        } else {
            Seq::empty()
        }
    }

    /// The mesh with the gap between the halfedges `he1` and `he2` at the vertex `v`
    /// closed.
    ///
    /// The twins of the two are twins of each other, and the two are deleted. The
    /// canonical outgoing halfedge of `v` is that of the two twins that does not end at
    /// `v`, and the vertex at its end gets its twin as canonical outgoing halfedge.
    /// Where the twin of `he2` is not live, only the twin of `he1` is paired; nothing
    /// happens where a halfedge or the twin of `he1` is missing.
    pub open spec fn gap_closed(self, v: VertexId, he1: HalfedgeId, he2: HalfedgeId) -> MeshModel {
        if !(self.halfedges.dom().contains(he1) && self.halfedges[he1].twin is Some && self.halfedges.dom().contains(he2)
            && self.halfedges[he2].twin is Some && self.halfedges.dom().contains(self.halfedges[he1].twin->0)) {
            self
        } else {
            let twin1 = self.halfedges[he1].twin->0;
            let twin2 = self.halfedges[he2].twin->0;
            let half = self.put_twin(twin1, Some(twin2));
            if !half.halfedges.dom().contains(twin2) {
                half
            } else {
                let cut = half.put_twin(twin2, Some(twin1)).drop_halfedge(he1).drop_halfedge(he2);
                if !cut.halfedges.dom().contains(twin1) {
                    cut
                } else {
                    let outgoing = if cut.halfedges[twin1].end_vertex == v {
                        twin2
                    } else {
                        twin1
                    };
                    let pointed = cut.put_canonical(v, Some(outgoing));
                    if pointed.halfedges.dom().contains(outgoing) {
                        pointed.put_canonical(pointed.halfedges[outgoing].end_vertex, pointed.halfedges[outgoing].twin)
                    } else {
                        pointed
                    }
                }
            }
        }
    }

    /// Whether `he` is live and has a live twin.
    pub open spec fn twinned_live(self, he: HalfedgeId) -> bool {
        &&& self.halfedges.dom().contains(he)
        &&& self.halfedges[he].twin is Some
        &&& self.halfedges.dom().contains(self.halfedges[he].twin->0)
    }

    /// The mesh with the first `n` halfedges of `list`, which start at `v`, taken over
    /// by `duplicate`: the twin of each ends at `duplicate`, and each has left the list
    /// of `v`.
    pub open spec fn taken_over(self, v: VertexId, duplicate: VertexId, list: Seq<HalfedgeId>, n: nat) -> MeshModel
        decreases n,
    {
        if n == 0 || n > list.len() {
            self
        } else {
            let before = self.taken_over(v, duplicate, list, (n - 1) as nat);
            before.put_end(before.halfedges[list[n - 1]].twin->0, duplicate).unlist(v, list[n - 1])
        }
    }

    /// The mesh after the first part of a split of the vertex `v` between the halfedges
    /// of `side_one` and those of `side_two`: the last halfedge of the first side is
    /// welded into the first.
    pub open spec fn first_welded(self, v: VertexId, side_one: Seq<HalfedgeId>) -> MeshModel {
        self.welded(v, side_one[0], side_one[side_one.len() - 1])
    }

    /// Whether the vertex `v` can be split between the two sides: each side has two
    /// halfedges at least, and once the first side is welded the vertex has a position,
    /// there is room for one more vertex, and every halfedge of the second side is live
    /// and has a live twin.
    pub open spec fn vertex_splittable(self, v: VertexId, side_one: Seq<HalfedgeId>, side_two: Seq<HalfedgeId>) -> bool {
        &&& side_one.len() >= 2
        &&& side_two.len() >= 2
        &&& self.first_welded(v, side_one).positions.dom().contains(v)
        &&& self.first_welded(v, side_one).has_room(1, 0, 0)
        &&& forall|q: int| 0 <= q < side_two.len() ==> #[trigger] self.first_welded(v, side_one).twinned_live(side_two[q])
    }

    /// The mesh before the second weld of a split: the first side is welded, the
    /// duplicate lies where `v` lies, and the halfedges of the second side are taken
    /// over by it, make its list, and the first of them is its canonical halfedge.
    pub open spec fn split_before_weld(self, v: VertexId, side_one: Seq<HalfedgeId>, side_two: Seq<HalfedgeId>, duplicate: VertexId) -> MeshModel {
        let welded = self.first_welded(v, side_one);
        welded.add_vertex(duplicate, welded.positions[v]).taken_over(v, duplicate, side_two, side_two.len()).put_outgoing(duplicate, side_two).put_canonical(
            duplicate,
            Some(side_two[0]),
        )
    }

    /// The mesh with the vertex `v` split between the two sides, which can be done,
    /// with `duplicate` as the new vertex: on the side of the duplicate, too, the last
    /// halfedge is welded into the first.
    pub open spec fn vertex_split_at(self, v: VertexId, side_one: Seq<HalfedgeId>, side_two: Seq<HalfedgeId>, duplicate: VertexId) -> MeshModel {
        self.split_before_weld(v, side_one, side_two, duplicate).welded(duplicate, side_two[0], side_two[side_two.len() - 1])
    }

    /// The halfedges that the split takes away: those of the two welds.
    pub open spec fn split_away(self, v: VertexId, side_one: Seq<HalfedgeId>, side_two: Seq<HalfedgeId>, duplicate: VertexId) -> Seq<HalfedgeId> {
        self.welded_away(side_one[0], side_one[side_one.len() - 1]) + self.split_before_weld(v, side_one, side_two, duplicate).welded_away(
            side_two[0],
            side_two[side_two.len() - 1],
        )
    }

    /// The halfedges that a split that stops takes away: those of the first weld, where
    /// it came to that.
    pub open spec fn stopped_away(self, side_one: Seq<HalfedgeId>, side_two: Seq<HalfedgeId>) -> Seq<HalfedgeId> {
        if side_one.len() >= 2 && side_two.len() >= 2 {
            self.welded_away(side_one[0], side_one[side_one.len() - 1])
        } else {
            Seq::empty()
        }
    }

    /// Whether `after` is the mesh in which the split stopped at position `q` of the
    /// second side, with `duplicate` made already: the halfedge there is not live or
    /// has no live twin, the ones before it are taken over.
    pub open spec fn stopped_at(self, v: VertexId, side_one: Seq<HalfedgeId>, side_two: Seq<HalfedgeId>, duplicate: VertexId, q: int, after: MeshModel) -> bool {
        let welded = self.first_welded(v, side_one);
        &&& 0 <= q < side_two.len()
        &&& !welded.vertices.dom().contains(duplicate)
        &&& !welded.twinned_live(side_two[q])
        &&& forall|p: int| 0 <= p < q ==> #[trigger] welded.twinned_live(side_two[p])
        &&& after == welded.add_vertex(duplicate, welded.positions[v]).taken_over(v, duplicate, side_two, q as nat)
    }

    /// Whether `after` is the mesh in which a split that could not be done has
    /// stopped.
    ///
    /// Nothing has happened where a side has fewer than two halfedges. Else the first
    /// side is welded; and where the vertex has a position and there is room, a
    /// duplicate is made and the halfedges of the second side are taken over up to the
    /// first that is not live or has no live twin.
    pub open spec fn split_stopped(self, v: VertexId, side_one: Seq<HalfedgeId>, side_two: Seq<HalfedgeId>, after: MeshModel) -> bool {
        if side_one.len() < 2 || side_two.len() < 2 {
            after == self
        } else if !(self.first_welded(v, side_one).positions.dom().contains(v) && self.first_welded(v, side_one).has_room(1, 0, 0)) {
            after == self.first_welded(v, side_one)
        } else {
            exists|duplicate: VertexId, q: int| #[trigger] self.stopped_at(v, side_one, side_two, duplicate, q, after)
        }
    }

    /// Whether the halfedges at the positions `a` and `b` of `fan` are two different
    /// halfedges that run to the same place.
    pub open spec fn folded_at(self, fan: Seq<HalfedgeId>, a: int, b: int) -> bool {
        fan[a] != fan[b] && self.same_run(fan[a], fan[b])
    }

    /// Whether the positions `i` and `j` are the first two positions of the fan of the
    /// live vertex `v` that hold coincident halfedges: no earlier position has one
    /// behind it, and position `i` has none before `j`.
    pub open spec fn first_folded(self, v: VertexId, i: int, j: int) -> bool {
        let fan = self.fan(self.vertices[v]);
        &&& self.vertices.dom().contains(v)
        &&& 0 <= i < j < fan.len()
        &&& self.folded_at(fan, i, j)
        &&& forall|a: int, b: int| 0 <= a < i && a < b < fan.len() ==> !#[trigger] self.folded_at(fan, a, b)
        &&& forall|b: int| i < b < j ==> !#[trigger] self.folded_at(fan, i, b)
    }

    /// Whether the vertex `v` can be split at the coincident halfedges at the positions
    /// `i` and `j` of its fan: the vertex has a position, there is room for one more
    /// vertex, and the two halfedges are live and have a face, as have their twins,
    /// which are live too.
    pub open spec fn edge_splittable(self, v: VertexId, fan: Seq<HalfedgeId>, i: int, j: int) -> bool {
        &&& self.positions.dom().contains(v)
        &&& self.has_room(1, 0, 0)
        &&& self.sided(fan[i])
        &&& self.sided(fan[j])
    }

    /// Whether `he` is live and has a face, and its twin is live and has a face.
    pub open spec fn sided(self, he: HalfedgeId) -> bool {
        &&& self.halfedges.dom().contains(he)
        &&& self.halfedges[he].face is Some
        &&& self.halfedges[he].twin is Some
        &&& self.halfedges.dom().contains(self.halfedges[he].twin->0)
        &&& self.halfedges[self.halfedges[he].twin->0].face is Some
    }

    /// The mesh with the outgoing halfedge `he` of `v` handed over to `duplicate`: the
    /// predecessor of `he`, where it has one, ends at `duplicate`, and `he` has left the
    /// list of `v`.
    pub open spec fn handed_over(self, v: VertexId, duplicate: VertexId, he: HalfedgeId) -> MeshModel {
        (if self.halfedges.dom().contains(he) && self.prev_of(self.halfedges[he]) is Some {
            self.put_end(self.prev_of(self.halfedges[he])->0, duplicate)
        } else {
            self
        }).unlist(v, he)
    }

    /// The mesh with the halfedges of `fan` from position `k` round to position `i`
    /// handed over to `duplicate`, one after the other; no more than `fuel` of them.
    pub open spec fn retargeted(self, v: VertexId, duplicate: VertexId, fan: Seq<HalfedgeId>, k: int, i: int, fuel: nat) -> MeshModel
        decreases fuel,
    {
        if fuel == 0 {
            self
        } else if k == i {
            self.handed_over(v, duplicate, fan[k])
        } else {
            self.handed_over(v, duplicate, fan[k]).retargeted(v, duplicate, fan, next_round(k, fan.len() as int), i, (fuel - 1) as nat)
        }
    }

    /// The mesh with the two faces joined along the edge between `v_a` and `v_b` where
    /// both are live and have a halfedge between the two vertices; as it is otherwise.
    pub open spec fn welded_where_possible(self, v_a: VertexId, v_b: VertexId, f1: FaceId, f2: FaceId) -> MeshModel {
        if self.faces.dom().contains(f1) && self.faces.dom().contains(f2) && self.edge_in_face(self.faces[f1], v_a, v_b) is Some
            && self.edge_in_face(self.faces[f2], v_a, v_b) is Some {
            self.faces_welded(v_a, v_b, f1, f2)
        } else {
            self
        }
    }

    /// The mesh with the vertex `v` split at the coincident halfedges at the positions
    /// `i` and `j` of its fan, which can be done, with `duplicate` as the new vertex.
    ///
    /// The duplicate lies where `v` lies. The halfedges of the fan behind position `j`
    /// round to position `i` are handed over to it and make its list. The duplicate
    /// gets the halfedge at `i` as canonical outgoing halfedge, `v` the one at `j`. On
    /// either side of the cut the two faces that meet there are joined along the edge,
    /// where they can be.
    pub open spec fn edge_split_at(self, v: VertexId, fan: Seq<HalfedgeId>, i: int, j: int, duplicate: VertexId) -> MeshModel {
        let n = fan.len() as int;
        let start = next_round(j, n);
        let first = self.halfedges[fan[i]];
        let second = self.halfedges[fan[j]];
        let moved = self.add_vertex(duplicate, self.positions[v]).retargeted(v, duplicate, fan, start, i, fan.len());
        let listed = moved.put_outgoing(duplicate, handed_list(fan, start, i, fan.len())).put_canonical(duplicate, Some(fan[i])).put_canonical(
            v,
            Some(fan[j]),
        );
        listed.welded_where_possible(v, first.end_vertex, self.halfedges[first.twin->0].face->0, second.face->0).welded_where_possible(
            duplicate,
            second.end_vertex,
            self.halfedges[second.twin->0].face->0,
            first.face->0,
        )
    }

    /// Whether the positions `i` and `j` are the first two positions among the faces
    /// round the live vertex `v` that hold two different faces which lie on top of each
    /// other.
    pub open spec fn first_folded_faces(self, v: VertexId, i: int, j: int) -> bool {
        let faces = self.vertex_faces(self.vertices[v]);
        &&& self.vertices.dom().contains(v)
        &&& 0 <= i < j < faces.len()
        &&& faces[i] != faces[j] && self.share_all_vertices(faces[i], faces[j])
        &&& forall|a: int, b: int| 0 <= a < i && a < b < faces.len() && faces[a] != faces[b] ==> !#[trigger] self.share_all_vertices(faces[a], faces[b])
        &&& forall|b: int| i < b < j && faces[i] != faces[b] ==> !#[trigger] self.share_all_vertices(faces[i], faces[b])
    }

    /// Whether the second repair of the neighbourhood of `v` turns this mesh into
    /// `after` and the lists `before` into `lists`, and gives `duplicate`: the vertex is
    /// split at the first two coincident faces round it; nothing happens where there
    /// are none.
    pub open spec fn faces_unfolded(self, v: VertexId, after: MeshModel, before: RepairLists, lists: RepairLists, duplicate: Option<VertexId>) -> bool {
        &&& forall|i: int, j: int| #[trigger]
            self.first_folded_faces(v, i, j) ==> self.faces_split(
                v,
                self.vertex_faces(self.vertices[v])[i],
                self.vertex_faces(self.vertices[v])[j],
                after,
                before,
                lists,
                duplicate,
            )
        &&& self.no_folded_faces(v) ==> after == self && lists == before && duplicate is None
        &&& !self.no_folded_faces(v) ==> exists|i: int, j: int| #[trigger] self.first_folded_faces(v, i, j)
    }

    /// Whether the third repair of the neighbourhood of `v` turns this mesh into `after`
    /// and gives `duplicate`: the vertex is split at the first two coincident halfedges
    /// of its fan, where that can be done; nothing happens otherwise.
    pub open spec fn edges_unfolded(self, v: VertexId, after: MeshModel, duplicate: Option<VertexId>) -> bool {
        &&& duplicate is None ==> after == self
        &&& duplicate is Some ==> exists|i: int, j: int| #[trigger] self.first_folded(v, i, j)
        &&& forall|i: int, j: int| #[trigger]
            self.first_folded(v, i, j) ==> {
                &&& duplicate is Some <==> self.edge_splittable(v, self.fan(self.vertices[v]), i, j)
                &&& duplicate is Some ==> after == self.edge_split_at(v, self.fan(self.vertices[v]), i, j, duplicate->0)
            }
        &&& self.no_folded_edges(v) ==> duplicate is None
        &&& duplicate is None ==> self.no_folded_edges(v) || exists|i: int, j: int|
            #[trigger] self.first_folded(v, i, j) && !self.edge_splittable(v, self.fan(self.vertices[v]), i, j)
    }

    /// Whether the repairs have nothing left to do at the vertex `v`: no two different
    /// faces round it lie on top of each other, and either no two different halfedges
    /// of its fan run to the same place, or the vertex cannot be split at the first two
    /// that do.
    pub open spec fn settled(self, v: VertexId) -> bool {
        &&& self.no_flaps(v)
        &&& self.no_folded_faces(v)
        &&& self.no_folded_edges(v) || exists|i: int, j: int|
            #[trigger] self.first_folded(v, i, j) && !self.edge_splittable(v, self.fan(self.vertices[v]), i, j)
    }

    /// Whether one round of the repairs on the vertex `v` went by the steps `steps`,
    /// turned this mesh into `after` and the lists `before` into `lists`, and gave
    /// `duplicate`.
    ///
    /// The flaps are removed; then the vertex is split at coincident faces; and where
    /// that has made no duplicate, it is split at coincident halfedges.
    pub open spec fn round_went(
        self,
        v: VertexId,
        steps: RoundSteps,
        after: MeshModel,
        before: RepairLists,
        lists: RepairLists,
        duplicate: Option<VertexId>,
    ) -> bool {
        &&& self.flaps_cleared(v, steps.flaps, before, steps.flap_lists)
        &&& steps.flaps.faces_unfolded(v, steps.faces, steps.flap_lists, lists, steps.face_duplicate)
        &&& if steps.face_duplicate is Some {
            after == steps.faces && duplicate == steps.face_duplicate
        } else {
            steps.faces.edges_unfolded(v, after, duplicate)
        }
    }

    /// Whether one round of the repairs on the vertex `v` turned this mesh into `after`
    /// and the lists `before` into `lists`, and gave `duplicate`. Nothing happens where
    /// the vertex is not live.
    pub open spec fn round_gives(self, v: VertexId, after: MeshModel, before: RepairLists, lists: RepairLists, duplicate: Option<VertexId>) -> bool {
        if self.vertices.dom().contains(v) {
            exists|steps: RoundSteps| #[trigger] self.round_went(v, steps, after, before, lists, duplicate)
        } else {
            after == self && lists == before && duplicate is None
        }
    }

    /// The vertices that go with the face `f`; none where it is not live.
    pub open spec fn vertices_lost(self, f: FaceId) -> Seq<VertexId> {
        if self.faces.dom().contains(f) {
            self.vertices_gone_with(f)
        } else {
            Seq::empty()
        }
    }

    /// Whether `gone` lists the halfedges that go with the face `f`, each once; none
    /// where the face is not live.
    pub open spec fn halfedges_lost(self, f: FaceId, gone: Seq<HalfedgeId>) -> bool {
        if self.faces.dom().contains(f) {
            gone.no_duplicates() && gone.to_set() == self.doomed_with(f)
        } else {
            gone.len() == 0
        }
    }

    /// The fan of the vertex `v`; empty where it is not live.
    pub open spec fn fan_of(self, v: VertexId) -> Seq<HalfedgeId> {
        if self.vertices.dom().contains(v) {
            self.fan(self.vertices[v])
        } else {
            Seq::empty()
        }
    }

    /// Whether the split of the vertex `v` at the coincident faces `f1` and `f2` went by
    /// the steps `parts`, turned this mesh into `after` and the lists `before` into
    /// `lists`, and gave `duplicate`.
    ///
    /// The fan of the vertex is cut into two sides at the two faces, and the vertex is
    /// split between them where that can be done. Then the first face is deleted and
    /// then the second. The duplicate is given where it was made and has outlived the
    /// deletions.
    pub open spec fn faces_split_by(
        self,
        v: VertexId,
        f1: FaceId,
        f2: FaceId,
        parts: FaceSplitParts,
        after: MeshModel,
        before: RepairLists,
        lists: RepairLists,
        duplicate: Option<VertexId>,
    ) -> bool {
        let sides = self.sides_cut(self.fan_of(v), f1, f2);
        &&& parts.made is Some <==> self.vertex_splittable(v, sides.0, sides.1)
        &&& match parts.made {
            Some(made) => !self.vertices.dom().contains(made) && parts.split == self.vertex_split_at(v, sides.0, sides.1, made),
            None => self.split_stopped(v, sides.0, sides.1, parts.split),
        }
        &&& after == parts.split.face_gone(f1).face_gone(f2)
        &&& parts.split.halfedges_lost(f1, parts.gone_halfedges1)
        &&& parts.split.face_gone(f1).halfedges_lost(f2, parts.gone_halfedges2)
        &&& lists.vertices == before.vertices + parts.split.vertices_lost(f1) + parts.split.face_gone(f1).vertices_lost(f2)
        &&& lists.halfedges == before.halfedges + (match parts.made {
            Some(made) => self.split_away(v, sides.0, sides.1, made),
            None => self.stopped_away(sides.0, sides.1),
        }) + parts.gone_halfedges1 + parts.gone_halfedges2
        &&& lists.faces == before.faces.push(f1).push(f2)
        &&& duplicate == (match parts.made {
            Some(made) => if after.vertices.dom().contains(made) {
                Some(made)
            } else {
                None
            },
            None => None,
        })
    }

    /// Whether the split of the vertex `v` at the coincident faces `f1` and `f2` turned
    /// this mesh into `after` and the lists `before` into `lists`, and gave `duplicate`.
    pub open spec fn faces_split(
        self,
        v: VertexId,
        f1: FaceId,
        f2: FaceId,
        after: MeshModel,
        before: RepairLists,
        lists: RepairLists,
        duplicate: Option<VertexId>,
    ) -> bool {
        exists|parts: FaceSplitParts| #[trigger] self.faces_split_by(v, f1, f2, parts, after, before, lists, duplicate)
    }

    /// Whether the removal of the coincident faces `f1` and `f2` round the vertex `v`
    /// went by the steps `parts` and turned this mesh into `after` and the lists
    /// `before` into `lists`.
    ///
    /// The first face is deleted and then the second. Where exactly two halfedges of
    /// the two faces are left, the gap between them is closed.
    pub open spec fn flap_removed_by(
        self,
        v: VertexId,
        f1: FaceId,
        f2: FaceId,
        parts: FlapParts,
        after: MeshModel,
        before: RepairLists,
        lists: RepairLists,
    ) -> bool {
        &&& self.delete_gives(f1, parts.first_gone, parts.gone_vertices1, parts.gone_halfedges1)
        &&& parts.first_gone.delete_gives(f2, parts.second_gone, parts.gone_vertices2, parts.gone_halfedges2)
        &&& parts.left.no_duplicates()
        &&& parts.left.to_set() == self.halfedges_of_face(f1).union(self.halfedges_of_face(f2)).difference(
            parts.gone_halfedges1.to_set().union(parts.gone_halfedges2.to_set()),
        )
        &&& after == (if parts.left.len() == 2 {
            parts.second_gone.gap_closed(v, parts.left[0], parts.left[1])
        } else {
            parts.second_gone
        })
        &&& lists.vertices == before.vertices + parts.gone_vertices1 + parts.gone_vertices2
        &&& lists.halfedges == before.halfedges + parts.gone_halfedges1 + parts.gone_halfedges2 + parts.closed_away()
        &&& lists.faces == before.faces.push(f1).push(f2)
    }

    /// Whether the removal of the coincident faces `f1` and `f2` round the vertex `v`
    /// turned this mesh into `after` and the lists `before` into `lists`.
    pub open spec fn flap_removed(self, v: VertexId, f1: FaceId, f2: FaceId, after: MeshModel, before: RepairLists, lists: RepairLists) -> bool {
        exists|parts: FlapParts| #[trigger] self.flap_removed_by(v, f1, f2, parts, after, before, lists)
    }

    /// Whether going through the pairs of neighbouring faces `pairs` round the vertex
    /// `v`, from the last to the first, turns this mesh into `after` and the lists
    /// `before` into `lists`.
    ///
    /// Where the two faces of the pair taken are different and lie on top of each
    /// other, they are removed as a flap, and the pair before it is passed over; where
    /// that was the first pair taken at all (`first`), the pair at the other end is
    /// passed over too.
    pub open spec fn flaps_removed(
        self,
        v: VertexId,
        pairs: Seq<(FaceId, FaceId)>,
        first: bool,
        after: MeshModel,
        before: RepairLists,
        lists: RepairLists,
    ) -> bool
        decreases pairs.len(),
    {
        if pairs.len() == 0 {
            after == self && lists == before
        } else {
            let pair = pairs.last();
            let rest = pairs.drop_last();
            if pair.0 != pair.1 && self.share_all_vertices(pair.0, pair.1) {
                let passed = if rest.len() > 0 {
                    rest.drop_last()
                } else {
                    rest
                };
                let next = if first && passed.len() > 0 {
                    passed.remove(0)
                } else {
                    passed
                };
                exists|mid: MeshModel, so_far: RepairLists| #[trigger]
                    self.flap_removed(v, pair.0, pair.1, mid, before, so_far) && mid.flaps_removed(v, next, false, after, so_far, lists)
            } else {
                self.flaps_removed(v, rest, false, after, before, lists)
            }
        }
    }

    /// Whether the first repair of the neighbourhood of `v` turns this mesh into `after`
    /// and the lists `before` into `lists`: the pairs of neighbouring faces round the
    /// vertex are gone through; nothing happens where the vertex is not live.
    pub open spec fn flaps_cleared(self, v: VertexId, after: MeshModel, before: RepairLists, lists: RepairLists) -> bool {
        if self.vertices.dom().contains(v) {
            self.flaps_removed(v, ring_pairs(self.vertex_faces(self.vertices[v])), true, after, before, lists)
        } else {
            after == self && lists == before
        }
    }

    /// The mesh with the two live faces joined along the edge between `v_a` and `v_b`:
    /// the halfedges of the two faces that run between the two vertices are twins of
    /// each other, and each of the two, the first before the second, is the canonical
    /// outgoing halfedge of the vertex it starts at.
    pub open spec fn faces_welded(self, v_a: VertexId, v_b: VertexId, f1: FaceId, f2: FaceId) -> MeshModel {
        let he1 = self.edge_in_face(self.faces[f1], v_a, v_b)->0;
        let he2 = self.edge_in_face(self.faces[f2], v_a, v_b)->0;
        let paired = self.twinned(he1, he2);
        let first = match paired.start_of(he1) {
            Some(start) => paired.put_canonical(start, Some(he1)),
            None => paired,
        };
        match first.start_of(he2) {
            Some(start) => first.put_canonical(start, Some(he2)),
            None => first,
        }
    }

    /// Whether the repair of the neighbourhood of `v` turns this mesh into `after` and
    /// gives `cleanup`.
    ///
    /// The repair only takes faces and halfedges away, and those that it lists are
    /// gone. The split vertices are listed in twos. Where nothing round the vertex lies
    /// on top of anything else, nothing happens and the lists are empty. Where two
    /// different faces round the vertex lie on top of each other, faces are taken away.
    pub open spec fn repair_gives(self, v: VertexId, after: MeshModel, cleanup: VertexNeighborhoodCleanup) -> bool {
        &&& after.wf()
        &&& after.pruned_from(self)
        &&& after.halfedges_gone(cleanup.removed_halfedges@, 0)
        &&& after.faces_gone(cleanup.removed_faces@, 0)
        &&& cleanup.split_vertices@.len() % 2 == 0
        &&& self.coincidence_free(v) ==> after == self && cleanup.removed_vertices@.len() == 0 && cleanup.removed_halfedges@.len() == 0
            && cleanup.removed_faces@.len() == 0 && cleanup.split_vertices@.len() == 0
        &&& !(self.no_flaps(v) && self.no_folded_faces(v)) ==> cleanup.removed_faces@.len() >= 2
        &&& forall|k: int| 0 <= k < cleanup.removed_faces@.len() ==> self.faces.dom().contains(#[trigger] cleanup.removed_faces@[k])
        &&& exists|end: RepairRun, n: nat| #[trigger] self.repair_ran(v, end, n, after, cleanup)
    }

    /// The most rounds that a repair of a neighbourhood of this mesh takes.
    pub open spec fn round_bound(self) -> nat {
        self.faces.dom().len() + 3 * self.halfedges.dom().len() + 2
    }

    /// Whether the repair of the neighbourhood of `v` ran `n` rounds to `end`, which
    /// holds the mesh `after` and what `cleanup` lists.
    ///
    /// The repair starts with `v` alone in the queue and ends when the queue is empty
    /// or the bound on the rounds is reached. Where the queue is empty and no vertex
    /// was split, the repairs have nothing left to do at `v`.
    pub open spec fn repair_ran(self, v: VertexId, end: RepairRun, n: nat, after: MeshModel, cleanup: VertexNeighborhoodCleanup) -> bool {
        &&& (RepairRun { mesh: self, queue: seq![v], lists: repair_lists(Seq::empty(), Seq::empty(), Seq::empty()), splits: Seq::empty() }).runs_to(end, n)
        &&& end.mesh == after
        &&& end.lists == repair_lists(cleanup.removed_vertices@, cleanup.removed_halfedges@, cleanup.removed_faces@)
        &&& end.splits == cleanup.split_vertices@
        &&& n <= self.round_bound()
        &&& end.queue.len() == 0 || n == self.round_bound()
        &&& end.queue.len() == 0 && end.splits.len() == 0 ==> after.settled(v)
    }
}

impl MeshModel {
    /// Whether the live halfedge `he` runs between `v_a` and `v_b`, in either direction.
    pub open spec fn runs_between(self, he: HalfedgeId, v_a: VertexId, v_b: VertexId) -> bool {
        &&& self.halfedges.dom().contains(he)
        &&& ((self.start_of(he) == Some(v_a) && self.halfedges[he].end_vertex == v_b) || (self.start_of(he) == Some(v_b)
            && self.halfedges[he].end_vertex == v_a))
    }

    /// The first halfedge of `list` from position `from` on that runs between `v_a` and
    /// `v_b`.
    pub open spec fn first_between(self, list: Seq<HalfedgeId>, v_a: VertexId, v_b: VertexId, from: nat) -> Option<HalfedgeId>
        decreases list.len() - from,
    {
        if from >= list.len() {
            None
        } else if self.runs_between(list[from as int], v_a, v_b) {
            Some(list[from as int])
        } else {
            self.first_between(list, v_a, v_b, from + 1)
        }
    }

    /// The halfedge of the face `f` that runs between `v_a` and `v_b`.
    pub open spec fn edge_in_face(self, f: Face, v_a: VertexId, v_b: VertexId) -> Option<HalfedgeId> {
        self.first_between(self.face_halfedges(f), v_a, v_b, 0)
    }
}

impl Face {
    /// The halfedge of this face whose two ends are `v_a` and `v_b`, in either
    /// direction.
    pub fn halfedge_between(&self, mesh_graph: &MeshGraph, v_a: VertexId, v_b: VertexId) -> (found: Option<HalfedgeId>)
        requires
            mesh_graph.wf(),
        ensures
            found == mesh_graph@.edge_in_face(*self, v_a, v_b),
    {
        let around = self.halfedges(mesh_graph);
        let mut i: usize = 0;
        while i < around.len()
            invariant
                i <= around.len(),
                mesh_graph.wf(),
                around@ == mesh_graph@.face_halfedges(*self),
                mesh_graph@.first_between(around@, v_a, v_b, 0) == mesh_graph@.first_between(around@, v_a, v_b, i as nat),
            decreases around.len() - i,
        {
            match mesh_graph.halfedge(around[i]) {
                Some(he) => match he.start_vertex(mesh_graph) {
                    Some(start) => {
                        if (start == v_a && he.end_vertex == v_b) || (start == v_b && he.end_vertex == v_a) {
                            return Some(around[i]);
                        }
                    },
                    None => {},
                },
                None => {},
            }
            i = i + 1;
        }
        None
    }
}

/// The pairs of neighbours round a ring of faces.
pub fn circular_pairs(ring: &Vec<FaceId>) -> (pairs: Vec<(FaceId, FaceId)>)
    ensures
        pairs@ == ring_pairs(ring@),
{
    let mut pairs: Vec<(FaceId, FaceId)> = Vec::new();
    let n = ring.len();
    let mut i: usize = 0;
    while i < n
        invariant
            i <= n,
            n == ring.len(),
            pairs@.len() == i,
            forall|k: int| 0 <= k < i ==> #[trigger] pairs@[k] == ring_pairs(ring@)[k],
        decreases n - i,
    {
        let next = if i + 1 == n {
            0
        } else {
            i + 1
        };
        assert((i as int + 1) % (n as int) == next as int) by {
            if i + 1 == n {
                assert((n as int) % (n as int) == 0) by (nonlinear_arith)
                    requires
                        n > 0,
                ;
            } else {
                assert((i as int + 1) % (n as int) == i as int + 1) by (nonlinear_arith)
                    requires
                        0 <= i as int + 1 < n,
                ;
            }
        }
        pairs.push((ring[i], ring[next]));
        i = i + 1;
    }
    proof {
        assert(pairs@ =~= ring_pairs(ring@));
    }
    pairs
}

impl MeshGraph {
    /// Merges two coincident halfedges that start at `start_vertex_id` into the first:
    /// the predecessor of the second is followed by the first, the first is paired
    /// with the twin that the second had, the second and the old twin of the first are
    /// deleted, and the first becomes the canonical outgoing halfedge of the vertex.
    /// Stops at the first link that is missing.
    pub(crate) fn weld_halfedges(
        &mut self,
        start_vertex_id: VertexId,
        he_id1: HalfedgeId,
        he_id2: HalfedgeId,
        removed_halfedges: &mut Vec<HalfedgeId>,
    ) -> (welded: bool)
        requires
            old(self).wf(),
        ensures
            final(self).wf(),
            final(self)@.pruned_from(old(self)@),
            final(self)@.faces == old(self)@.faces,
            final(self)@.vertices.dom() == old(self)@.vertices.dom(),
            final(self)@.positions == old(self)@.positions,
            final(self)@.normals == old(self)@.normals,
            old(removed_halfedges)@.is_prefix_of(final(removed_halfedges)@),
            final(self)@.halfedges_gone(final(removed_halfedges)@, old(removed_halfedges)@.len() as int),
            welded == old(self)@.weldable(he_id1, he_id2),
            final(self)@ == old(self)@.welded(start_vertex_id, he_id1, he_id2),
            final(removed_halfedges)@ == old(removed_halfedges)@ + old(self)@.welded_away(he_id1, he_id2),
    {
        proof {
            assert(removed_halfedges@ + Seq::<HalfedgeId>::empty() =~= removed_halfedges@);
        }
        let he2 = match self.halfedge(he_id2) {
            Some(he) => he,
            None => {
                return false;
            },
        };
        let twin2_id = match he2.twin {
            Some(twin) => twin,
            None => {
                return false;
            },
        };
        let prev_id = match he2.prev(self) {
            Some(prev) => prev,
            None => {
                return false;
            },
        };
        if self.halfedge(prev_id).is_none() {
            return false;
        }
        self.set_next(prev_id, Some(he_id1));
        let he1 = match self.halfedge(he_id1) {
            Some(he) => he,
            None => {
                return false;
            },
        };
        let twin1_id = match he1.twin {
            Some(twin) => twin,
            None => {
                return false;
            },
        };
        if self.halfedge(twin2_id).is_none() {
            return false;
        }
        self.set_twin(twin2_id, Some(he_id1));
        self.set_twin(he_id1, Some(twin2_id));
        self.unlist(start_vertex_id, he_id2);
        self.unlist(he1.end_vertex, twin1_id);
        self.erase_halfedge(he_id2);
        self.erase_halfedge(twin1_id);
        removed_halfedges.push(he_id2);
        removed_halfedges.push(twin1_id);
        self.set_canonical(start_vertex_id, Some(he_id1));
        proof {
            assert(self@.vertices.dom() =~= old(self)@.vertices.dom());
            assert(removed_halfedges@ =~= old(removed_halfedges)@ + seq![he_id2, twin1_id]);
        }
        true
    }

    /// Removes two coincident neighbouring faces and closes the gap they leave: where
    /// exactly two halfedges of the faces outlive the deletion, these are deleted as
    /// well, their twins are paired with each other, and the canonical outgoing
    /// halfedges of the vertex and of the vertex at the other end of the closed edge
    /// are set anew. In which order the two are taken is not stated.
    #[verifier::rlimit(100)]
    pub(crate) fn remove_flap(
        &mut self,
        vertex_id: VertexId,
        face_id1: FaceId,
        face_id2: FaceId,
        removed_vertices: &mut Vec<VertexId>,
        removed_halfedges: &mut Vec<HalfedgeId>,
        removed_faces: &mut Vec<FaceId>,
    )
        requires
            old(self).wf(),
        ensures
            final(self).wf(),
            final(self)@.pruned_from(old(self)@),
            final(self)@.vertices.dom().subset_of(old(self)@.vertices.dom()),
            old(removed_vertices)@.is_prefix_of(final(removed_vertices)@),
            old(removed_halfedges)@.is_prefix_of(final(removed_halfedges)@),
            old(removed_faces)@.is_prefix_of(final(removed_faces)@),
            final(self)@.halfedges_gone(final(removed_halfedges)@, old(removed_halfedges)@.len() as int),
            final(self)@.faces_gone(final(removed_faces)@, old(removed_faces)@.len() as int),
            final(removed_faces)@.len() == old(removed_faces)@.len() + 2,
            final(removed_faces)@ == old(removed_faces)@.push(face_id1).push(face_id2),
            old(self)@.flap_removed(
                vertex_id,
                face_id1,
                face_id2,
                final(self)@,
                repair_lists(old(removed_vertices)@, old(removed_halfedges)@, old(removed_faces)@),
                repair_lists(final(removed_vertices)@, final(removed_halfedges)@, final(removed_faces)@),
            ),
    {
        let mut leftovers = HalfedgeSet::new();
        match self.face(face_id1) {
            Some(face) => {
                let around = face.halfedges(self);
                leftovers.extend_from(&around);
            },
            None => {},
        }
        match self.face(face_id2) {
            Some(face) => {
                let around = face.halfedges(self);
                leftovers.extend_from(&around);
            },
            None => {},
        }
        let ghost all = old(self)@.halfedges_of_face(face_id1).union(old(self)@.halfedges_of_face(face_id2));
        proof {
            assert(leftovers@ =~= all);
        }
        let ghost start_halfedges = removed_halfedges@.len() as int;
        let ghost start_faces = removed_faces@.len() as int;

        let (mut gone_vertices, mut gone_halfedges) = self.delete_face(face_id1);
        let ghost gone_vertices1 = gone_vertices@;
        let ghost gone_halfedges1 = gone_halfedges@;
        let ghost first_gone = self@;
        let mut i: usize = 0;
        while i < gone_halfedges.len()
            invariant
                i <= gone_halfedges.len(),
                leftovers@ == all.difference(gone_halfedges@.take(i as int).to_set()),
            decreases gone_halfedges.len() - i,
        {
            proof {
                assert(gone_halfedges@.take(i + 1) =~= gone_halfedges@.take(i as int).push(gone_halfedges@[i as int]));
                crate::idset::lemma_push_to_set(gone_halfedges@.take(i as int), gone_halfedges@[i as int]);
            }
            leftovers.remove(gone_halfedges[i]);
            proof {
                assert(leftovers@ =~= all.difference(gone_halfedges@.take(i + 1).to_set()));
            }
            i = i + 1;
        }
        proof {
            assert(gone_halfedges@.take(gone_halfedges@.len() as int) =~= gone_halfedges@);
        }
        removed_vertices.append(&mut gone_vertices);
        proof {
            lemma_append_gone(self@, removed_halfedges@, gone_halfedges@, start_halfedges);
        }
        removed_halfedges.append(&mut gone_halfedges);
        removed_faces.push(face_id1);
        let ghost mid = self@;

        let (mut gone_vertices, mut gone_halfedges) = self.delete_face(face_id2);
        let ghost gone_vertices2 = gone_vertices@;
        let ghost gone_halfedges2 = gone_halfedges@;
        let ghost second_gone = self@;
        let ghost halved = all.difference(gone_halfedges1.to_set());
        let mut i: usize = 0;
        while i < gone_halfedges.len()
            invariant
                i <= gone_halfedges.len(),
                leftovers@ == halved.difference(gone_halfedges@.take(i as int).to_set()),
            decreases gone_halfedges.len() - i,
        {
            proof {
                assert(gone_halfedges@.take(i + 1) =~= gone_halfedges@.take(i as int).push(gone_halfedges@[i as int]));
                crate::idset::lemma_push_to_set(gone_halfedges@.take(i as int), gone_halfedges@[i as int]);
            }
            leftovers.remove(gone_halfedges[i]);
            proof {
                assert(leftovers@ =~= halved.difference(gone_halfedges@.take(i + 1).to_set()));
            }
            i = i + 1;
        }
        proof {
            assert(gone_halfedges@.take(gone_halfedges@.len() as int) =~= gone_halfedges@);
        }
        removed_vertices.append(&mut gone_vertices);
        proof {
            assert(self@.halfedges_gone(removed_halfedges@, start_halfedges)) by {
                assert forall|k: int| start_halfedges <= k < removed_halfedges@.len() implies !self@.halfedges.dom().contains(#[trigger] removed_halfedges@[k]) by {
                    assert(!mid.halfedges.dom().contains(removed_halfedges@[k]));
                }
            }
            lemma_append_gone(self@, removed_halfedges@, gone_halfedges@, start_halfedges);
        }
        removed_halfedges.append(&mut gone_halfedges);
        removed_faces.push(face_id2);
        proof {
            assert(self@.faces_gone(removed_faces@, start_faces));
        }

        let rest = leftovers.to_vec();
        if rest.len() == 2 {
            self.close_gap(vertex_id, rest[0], rest[1], removed_halfedges);
        }
        proof {
            let parts = FlapParts {
                first_gone,
                gone_vertices1,
                gone_halfedges1,
                second_gone,
                gone_vertices2,
                gone_halfedges2,
                left: rest@,
            };
            let before = repair_lists(old(removed_vertices)@, old(removed_halfedges)@, old(removed_faces)@);
            let lists = repair_lists(removed_vertices@, removed_halfedges@, removed_faces@);
            assert(rest@.to_set() =~= all.difference(gone_halfedges1.to_set().union(gone_halfedges2.to_set())));
            assert(lists.vertices =~= before.vertices + gone_vertices1 + gone_vertices2);
            assert(lists.faces =~= before.faces.push(face_id1).push(face_id2));
            assert(lists.halfedges =~= before.halfedges + gone_halfedges1 + gone_halfedges2 + parts.closed_away());
            assert(old(self)@.flap_removed_by(vertex_id, face_id1, face_id2, parts, self@, before, lists));
        }
    }

    /// Deletes two boundary halfedges that lie on top of each other and pairs their
    /// twins with each other.
    pub(crate) fn close_gap(&mut self, vertex_id: VertexId, he_id1: HalfedgeId, he_id2: HalfedgeId, removed_halfedges: &mut Vec<HalfedgeId>)
        requires
            old(self).wf(),
        ensures
            final(self).wf(),
            final(self)@.pruned_from(old(self)@),
            final(self)@.faces == old(self)@.faces,
            final(self)@.vertices.dom() == old(self)@.vertices.dom(),
            final(self)@.positions == old(self)@.positions,
            final(self)@.normals == old(self)@.normals,
            old(removed_halfedges)@.is_prefix_of(final(removed_halfedges)@),
            forall|from: int| 0 <= from <= old(removed_halfedges)@.len() && old(self)@.halfedges_gone(old(removed_halfedges)@, from)
                ==> final(self)@.halfedges_gone(final(removed_halfedges)@, from),
            final(self)@ == old(self)@.gap_closed(vertex_id, he_id1, he_id2),
            final(removed_halfedges)@ == old(removed_halfedges)@ + old(self)@.gap_halfedges(he_id1, he_id2),
    {
        proof {
            assert(removed_halfedges@ + Seq::<HalfedgeId>::empty() =~= removed_halfedges@);
        }
        let twin_id1 = match self.halfedge(he_id1) {
            Some(he) => match he.twin {
                Some(twin) => twin,
                None => {
                    return ;
                },
            },
            None => {
                return ;
            },
        };
        let twin_id2 = match self.halfedge(he_id2) {
            Some(he) => match he.twin {
                Some(twin) => twin,
                None => {
                    return ;
                },
            },
            None => {
                return ;
            },
        };
        if self.halfedge(twin_id1).is_none() {
            return ;
        }
        self.set_twin(twin_id1, Some(twin_id2));
        if self.halfedge(twin_id2).is_none() {
            return ;
        }
        self.set_twin(twin_id2, Some(twin_id1));
        self.delete_only_halfedge(he_id1);
        self.delete_only_halfedge(he_id2);
        removed_halfedges.push(he_id1);
        removed_halfedges.push(he_id2);
        proof {
            assert(removed_halfedges@ =~= old(removed_halfedges)@ + seq![he_id1, he_id2]);
            assert(self@.vertices.dom() =~= old(self)@.vertices.dom());
            assert(!self@.halfedges.dom().contains(he_id1));
            assert(!self@.halfedges.dom().contains(he_id2));
            assert forall|from: int| 0 <= from <= old(removed_halfedges)@.len() && old(self)@.halfedges_gone(old(removed_halfedges)@, from)
                implies self@.halfedges_gone(removed_halfedges@, from) by {
                assert forall|k: int| from <= k < removed_halfedges@.len() implies !self@.halfedges.dom().contains(#[trigger] removed_halfedges@[k]) by {
                    if k < old(removed_halfedges)@.len() {
                        assert(removed_halfedges@[k] == old(removed_halfedges)@[k]);
                        assert(!old(self)@.halfedges.dom().contains(old(removed_halfedges)@[k]));
                    }
                }
            }
        }
        let new_outgoing = match self.halfedge(twin_id1) {
            Some(twin1) => if twin1.end_vertex == vertex_id {
                twin_id2
            } else {
                twin_id1
            },
            None => {
                return ;
            },
        };
        self.set_canonical(vertex_id, Some(new_outgoing));
        match self.halfedge(new_outgoing) {
            Some(he) => {
                self.set_canonical(he.end_vertex, he.twin);
            },
            None => {},
        }
        proof {
            assert(self@.vertices.dom() =~= old(self)@.vertices.dom());
        }
    }
    /// The first repair: removes coincident faces that are neighbours round the vertex.
    ///
    /// The pairs of neighbouring faces are taken from the last to the first. Where the
    /// two faces of a pair are different and lie on top of each other, both are removed
    /// and the gap is closed; the pair taken next holds a removed face and is skipped,
    /// and so is, for the first pair taken, the pair at the other end of the ring.
    #[verifier::rlimit(50)]
    pub(crate) fn remove_neighboring_flaps(
        &mut self,
        vertex_id: VertexId,
        removed_vertices: &mut Vec<VertexId>,
        removed_halfedges: &mut Vec<HalfedgeId>,
        removed_faces: &mut Vec<FaceId>,
    )
        requires
            old(self).wf(),
        ensures
            final(self).wf(),
            final(self)@.pruned_from(old(self)@),
            final(self)@.vertices.dom().subset_of(old(self)@.vertices.dom()),
            old(removed_vertices)@.is_prefix_of(final(removed_vertices)@),
            old(removed_halfedges)@.is_prefix_of(final(removed_halfedges)@),
            old(removed_faces)@.is_prefix_of(final(removed_faces)@),
            final(self)@.halfedges_gone(final(removed_halfedges)@, old(removed_halfedges)@.len() as int),
            final(self)@.faces_gone(final(removed_faces)@, old(removed_faces)@.len() as int),
            old(self)@.no_flaps(vertex_id) ==> final(self)@ == old(self)@ && final(removed_vertices)@ == old(removed_vertices)@
                && final(removed_halfedges)@ == old(removed_halfedges)@ && final(removed_faces)@ == old(removed_faces)@,
            final(removed_faces)@.len() == old(removed_faces)@.len() ==> final(self)@ == old(self)@ && final(removed_vertices)@ == old(removed_vertices)@ && final(removed_halfedges)@ == old(removed_halfedges)@,
            !old(self)@.no_flaps(vertex_id) ==> final(removed_faces)@.len() >= old(removed_faces)@.len() + 2,
            forall|k: int|
                old(removed_faces)@.len() <= k < final(removed_faces)@.len() ==> old(self)@.faces.dom().contains(#[trigger] final(removed_faces)@[k]),
            old(self)@.flaps_cleared(
                vertex_id,
                final(self)@,
                repair_lists(old(removed_vertices)@, old(removed_halfedges)@, old(removed_faces)@),
                repair_lists(final(removed_vertices)@, final(removed_halfedges)@, final(removed_faces)@),
            ),
    {
        let vertex = match self.vertex(vertex_id) {
            Some(vertex) => vertex,
            None => {
                return ;
            },
        };
        let faces = vertex.faces(self);
        let mut face_tuples = circular_pairs(&faces);
        let ghost all_pairs = face_tuples@;
        let ghost start_halfedges = removed_halfedges@.len() as int;
        let ghost start_faces = removed_faces@.len() as int;
        let mut first = true;
        let mut touched = false;
        let ghost old_lists = repair_lists(old(removed_vertices)@, old(removed_halfedges)@, old(removed_faces)@);
        while face_tuples.len() > 0
            invariant
                self.wf(),
                old(self).wf(),
                old_lists == repair_lists(old(removed_vertices)@, old(removed_halfedges)@, old(removed_faces)@),
                forall|after: MeshModel, lists: RepairLists| #[trigger]
                    self@.flaps_removed(vertex_id, face_tuples@, first, after, repair_lists(removed_vertices@, removed_halfedges@, removed_faces@), lists)
                        ==> old(self)@.flaps_removed(vertex_id, all_pairs, true, after, old_lists, lists),
                self@.pruned_from(old(self)@),
                self@.vertices.dom().subset_of(old(self)@.vertices.dom()),
                old(removed_vertices)@.is_prefix_of(removed_vertices@),
                old(removed_halfedges)@.is_prefix_of(removed_halfedges@),
                old(removed_faces)@.is_prefix_of(removed_faces@),
                start_halfedges == old(removed_halfedges)@.len(),
                start_faces == old(removed_faces)@.len(),
                self@.halfedges_gone(removed_halfedges@, start_halfedges),
                self@.faces_gone(removed_faces@, start_faces),
                all_pairs == ring_pairs(old(self)@.vertex_faces(old(self)@.vertices[vertex_id])),
                old(self)@.vertices.dom().contains(vertex_id),
                !touched ==> self@ == old(self)@ && removed_vertices@ == old(removed_vertices)@ && removed_halfedges@ == old(removed_halfedges)@ && removed_faces@ == old(removed_faces)@ && face_tuples@ == all_pairs.take(face_tuples@.len() as int),
                touched ==> removed_faces@.len() >= old(removed_faces)@.len() + 2,
                forall|k: int| old(removed_faces)@.len() <= k < removed_faces@.len() ==> old(self)@.faces.dom().contains(#[trigger] removed_faces@[k]),
                old(self)@.no_flaps(vertex_id) ==> !touched,
                face_tuples@.len() <= all_pairs.len(),
                !touched ==> forall|k: int|
                    face_tuples@.len() <= k < all_pairs.len() && (#[trigger] all_pairs[k]).0 != all_pairs[k].1 ==> !old(self)@.share_all_vertices(
                        all_pairs[k].0,
                        all_pairs[k].1,
                    ),
            decreases face_tuples.len(),
        {
            let ghost before = self@;
            let ghost position = face_tuples@.len() - 1;
            let ghost pairs_before = face_tuples@;
            let ghost first_before = first;
            let ghost lists_before = repair_lists(removed_vertices@, removed_halfedges@, removed_faces@);
            let pair = face_tuples.pop();
            match pair {
                Some((face_id1, face_id2)) => {
                    if face_id1 != face_id2 && self.faces_share_all_vertices(face_id1, face_id2) {
                        proof {
                            if !touched {
                                assert(all_pairs.take(position + 1)[position] == all_pairs[position]);
                                assert(all_pairs[position] == (face_id1, face_id2));
                            }
                        }
                        let ghost halfedges_before = removed_halfedges@;
                        let ghost faces_before = removed_faces@;
                        self.remove_flap(vertex_id, face_id1, face_id2, removed_vertices, removed_halfedges, removed_faces);
                        proof {
                            assert(before.faces.dom().contains(face_id1) && before.faces.dom().contains(face_id2));
                            assert(removed_faces@ =~= faces_before.push(face_id1).push(face_id2));
                            lemma_gone_carries(before, self@, halfedges_before, removed_halfedges@, start_halfedges);
                            lemma_faces_gone_carries(before, self@, faces_before, removed_faces@, start_faces);
                        }
                        touched = true;
                        face_tuples.pop();
                        if first && face_tuples.len() > 0 {
                            face_tuples.remove(0);
                        }
                        proof {
                            assert(face_tuples@.len() <= all_pairs.len());
                        }
                    } else {
                        proof {
                            if !touched {
                                assert(face_tuples@ =~= all_pairs.take(face_tuples@.len() as int));
                                assert(all_pairs.take(position + 1)[position] == all_pairs[position]);
                                assert(all_pairs[position] == (face_id1, face_id2));
                            }
                        }
                    }
                },
                None => {},
            }
            first = false;
            proof {
                let lists_now = repair_lists(removed_vertices@, removed_halfedges@, removed_faces@);
                assert forall|after: MeshModel, lists: RepairLists| #[trigger]
                    self@.flaps_removed(vertex_id, face_tuples@, first, after, lists_now, lists) implies old(self)@.flaps_removed(
                    vertex_id,
                    all_pairs,
                    true,
                    after,
                    old_lists,
                    lists,
                ) by {
                    assert(before.flaps_removed(vertex_id, pairs_before, first_before, after, lists_before, lists));
                }
            }
        }
        proof {
            let lists_now = repair_lists(removed_vertices@, removed_halfedges@, removed_faces@);
            assert(self@.flaps_removed(vertex_id, face_tuples@, first, self@, lists_now, lists_now));
        }
    }
    /// Splits a vertex into two: the halfedges of `side_one` stay with the vertex, those
    /// of `side_two` go to a duplicate at the same place, and on either side the first
    /// and the last halfedge, which lie on top of each other, are welded into one.
    /// Gives the duplicate, or nothing where a side has fewer than two halfedges, the
    /// vertex has no position, the arena is full or a link is missing.
    #[verifier::rlimit(50)]
    pub(crate) fn split_regions_at_vertex(
        &mut self,
        vertex_id: VertexId,
        side_one: &Vec<HalfedgeId>,
        side_two: &Vec<HalfedgeId>,
        removed_halfedges: &mut Vec<HalfedgeId>,
    ) -> (duplicate: Option<VertexId>)
        requires
            old(self).wf(),
        ensures
            final(self).wf(),
            final(self)@.pruned_from(old(self)@),
            final(self)@.faces == old(self)@.faces,
            old(self)@.vertices.dom().subset_of(final(self)@.vertices.dom()),
            final(self)@.vertices.dom().len() <= old(self)@.vertices.dom().len() + 1,
            old(removed_halfedges)@.is_prefix_of(final(removed_halfedges)@),
            final(self)@.halfedges_gone(final(removed_halfedges)@, old(removed_halfedges)@.len() as int),
            duplicate is Some ==> !old(self)@.vertices.dom().contains(duplicate->0) && final(self)@.vertices.dom().contains(duplicate->0),
            duplicate is Some <==> old(self)@.vertex_splittable(vertex_id, side_one@, side_two@),
            duplicate is Some ==> final(self)@ == old(self)@.vertex_split_at(vertex_id, side_one@, side_two@, duplicate->0),
            duplicate is Some ==> final(removed_halfedges)@ == old(removed_halfedges)@ + old(self)@.split_away(
                vertex_id,
                side_one@,
                side_two@,
                duplicate->0,
            ),
            duplicate is None ==> old(self)@.split_stopped(vertex_id, side_one@, side_two@, final(self)@),
            duplicate is None ==> final(removed_halfedges)@ == old(removed_halfedges)@ + old(self)@.stopped_away(side_one@, side_two@),
    {
        proof {
            assert(removed_halfedges@ + Seq::<HalfedgeId>::empty() =~= removed_halfedges@);
        }
        if side_one.len() < 2 || side_two.len() < 2 {
            return None;
        }
        let ghost start = removed_halfedges@.len() as int;
        self.weld_halfedges(vertex_id, side_one[0], side_one[side_one.len() - 1], removed_halfedges);
        let position = match self.position(vertex_id) {
            Some(position) => position,
            None => {
                return None;
            },
        };
        if !self.has_room(1, 0, 0) {
            return None;
        }
        let ghost welded = self@;
        let ghost welded_list = removed_halfedges@;
        let new_vertex_id = self.insert_vertex(position);
        let ghost grown = self@;
        proof {
            assert(grown.vertices.dom() =~= welded.vertices.dom().insert(new_vertex_id));
        }
        let mut moved: Vec<HalfedgeId> = Vec::new();
        let mut i: usize = 0;
        proof {
            assert(moved@ =~= side_two@.take(0));
        }
        while i < side_two.len()
            invariant
                i <= side_two.len(),
                side_one@.len() >= 2,
                side_two@.len() >= 2,
                welded == old(self)@.welded(vertex_id, side_one@[0], side_one@[side_one@.len() - 1]),
                welded.positions.dom().contains(vertex_id),
                welded.has_room(1, 0, 0),
                !welded.vertices.dom().contains(new_vertex_id),
                grown == welded.add_vertex(new_vertex_id, welded.positions[vertex_id]),
                welded_list == old(removed_halfedges)@ + old(self)@.welded_away(side_one@[0], side_one@[side_one@.len() - 1]),
                moved@ == side_two@.take(i as int),
                self@ == grown.taken_over(vertex_id, new_vertex_id, side_two@, i as nat),
                forall|q: int| 0 <= q < i ==> #[trigger] welded.twinned_live(side_two@[q]),
                self.wf(),
                self@.halfedges.dom() == grown.halfedges.dom(),
                self@.faces == grown.faces,
                self@.slots == grown.slots,
                self@.vertices.dom() == grown.vertices.dom(),
                grown.pruned_from(old(self)@),
                grown.faces == old(self)@.faces,
                old(self)@.vertices.dom().subset_of(grown.vertices.dom()),
                grown.vertices.dom().len() <= old(self)@.vertices.dom().len() + 1,
                removed_halfedges@ == welded_list,
                old(removed_halfedges)@.is_prefix_of(welded_list),
                grown.halfedges_gone(welded_list, old(removed_halfedges)@.len() as int),
            decreases side_two.len() - i,
        {
            let he_id = side_two[i];
            let twin = match self.halfedge(he_id) {
                Some(he) => he.twin,
                None => None,
            };
            proof {
                assert(self@.halfedges.dom() == welded.halfedges.dom());
                lemma_taken_over_keeps_twins(grown, vertex_id, new_vertex_id, side_two@, i as nat, he_id);
            }
            match twin {
                Some(twin_id) => {
                    if self.halfedge(twin_id).is_none() {
                        proof {
                            assert(!welded.twinned_live(side_two@[i as int]));
                            assert(old(self)@.stopped_at(vertex_id, side_one@, side_two@, new_vertex_id, i as int, self@));
                        }
                        return None;
                    }
                    let ghost before = self@;
                    self.set_end(twin_id, new_vertex_id);
                    self.unlist(vertex_id, he_id);
                    proof {
                        assert(self@.halfedges.dom() =~= before.halfedges.dom());
                        assert(self@.vertices.dom() =~= before.vertices.dom());
                        assert(welded.twinned_live(side_two@[i as int]));
                    }
                    moved.push(he_id);
                    proof {
                        assert(moved@ =~= side_two@.take(i + 1));
                    }
                },
                None => {
                    proof {
                        assert(!welded.twinned_live(side_two@[i as int]));
                        assert(old(self)@.stopped_at(vertex_id, side_one@, side_two@, new_vertex_id, i as int, self@));
                    }
                    return None;
                },
            }
            i = i + 1;
        }
        let ghost before = self@;
        self.set_outgoing_halfedge_list(new_vertex_id, moved);
        self.set_canonical(new_vertex_id, Some(side_two[0]));
        proof {
            assert(self@.vertices.dom() =~= before.vertices.dom());
        }
        let ghost retargeted = self@;
        proof {
            assert(moved@ =~= side_two@);
        }
        self.weld_halfedges(new_vertex_id, side_two[0], side_two[side_two.len() - 1], removed_halfedges);
        proof {
            lemma_gone_carries(retargeted, self@, welded_list, removed_halfedges@, start);
            assert(removed_halfedges@ =~= old(removed_halfedges)@ + old(self)@.split_away(vertex_id, side_one@, side_two@, new_vertex_id));
        }
        Some(new_vertex_id)
    }

    /// The second repair: looks for two different faces round the vertex that lie on
    /// top of each other. For the first such pair, the fan of the vertex is cut at the
    /// two faces, the vertex is split between the two sides, and the two faces are
    /// deleted. Gives the duplicate of the vertex where it was split.
    pub(crate) fn remove_degenerate_faces(
        &mut self,
        vertex_id: VertexId,
        removed_vertices: &mut Vec<VertexId>,
        removed_halfedges: &mut Vec<HalfedgeId>,
        removed_faces: &mut Vec<FaceId>,
    ) -> (duplicate: Option<VertexId>)
        requires
            old(self).wf(),
        ensures
            final(self).wf(),
            final(self)@.pruned_from(old(self)@),
            final(self)@.vertices.dom().len() <= old(self)@.vertices.dom().len() + 1,
            old(removed_vertices)@.is_prefix_of(final(removed_vertices)@),
            old(removed_halfedges)@.is_prefix_of(final(removed_halfedges)@),
            old(removed_faces)@.is_prefix_of(final(removed_faces)@),
            final(self)@.halfedges_gone(final(removed_halfedges)@, old(removed_halfedges)@.len() as int),
            final(self)@.faces_gone(final(removed_faces)@, old(removed_faces)@.len() as int),
            duplicate is Some ==> final(self)@.vertices.dom().contains(duplicate->0) && final(removed_faces)@.len() > old(removed_faces)@.len(),
            old(self)@.no_folded_faces(vertex_id) ==> duplicate is None,
            final(removed_faces)@.len() == old(removed_faces)@.len() ==> final(self)@ == old(self)@ && final(removed_vertices)@ == old(removed_vertices)@ && final(removed_halfedges)@ == old(removed_halfedges)@ && duplicate is None,
            old(self)@.no_folded_faces(vertex_id) ==> final(removed_faces)@.len() == old(removed_faces)@.len(),
            !old(self)@.no_folded_faces(vertex_id) ==> final(removed_faces)@.len() == old(removed_faces)@.len() + 2,
            forall|k: int|
                old(removed_faces)@.len() <= k < final(removed_faces)@.len() ==> old(self)@.faces.dom().contains(#[trigger] final(removed_faces)@[k]),
            old(self)@.faces_unfolded(
                vertex_id,
                final(self)@,
                repair_lists(old(removed_vertices)@, old(removed_halfedges)@, old(removed_faces)@),
                repair_lists(final(removed_vertices)@, final(removed_halfedges)@, final(removed_faces)@),
                duplicate,
            ),
    {
        let vertex = match self.vertex(vertex_id) {
            Some(vertex) => vertex,
            None => {
                return None;
            },
        };
        let faces = vertex.faces(self);
        let mut i: usize = 0;
        while i < faces.len()
            invariant
                i <= faces.len(),
                self.wf(),
                self@ == old(self)@,
                removed_vertices@ == old(removed_vertices)@,
                removed_halfedges@ == old(removed_halfedges)@,
                removed_faces@ == old(removed_faces)@,
                self@.vertices.dom().contains(vertex_id),
                faces@ == self@.vertex_faces(self@.vertices[vertex_id]),
                forall|a: int, b: int| 0 <= a < i && a < b < faces@.len() && faces@[a] != faces@[b] ==> !#[trigger] self@.share_all_vertices(faces@[a], faces@[b]),
            decreases faces.len() - i,
        {
            let mut j: usize = i + 1;
            while j < faces.len()
                invariant
                    i < j <= faces.len(),
                    self.wf(),
                    self@ == old(self)@,
                    removed_vertices@ == old(removed_vertices)@,
                    removed_halfedges@ == old(removed_halfedges)@,
                    removed_faces@ == old(removed_faces)@,
                    self@.vertices.dom().contains(vertex_id),
                    faces@ == self@.vertex_faces(self@.vertices[vertex_id]),
                    forall|a: int, b: int| 0 <= a < i && a < b < faces@.len() && faces@[a] != faces@[b] ==> !#[trigger] self@.share_all_vertices(faces@[a], faces@[b]),
                    forall|b: int| i < b < j && faces@[i as int] != faces@[b] ==> !#[trigger] self@.share_all_vertices(faces@[i as int], faces@[b]),
                decreases faces.len() - j,
            {
                if faces[i] != faces[j] && self.faces_share_all_vertices(faces[i], faces[j]) {
                    proof {
                        assert(!old(self)@.no_folded_faces(vertex_id));
                        assert(old(self)@.first_folded_faces(vertex_id, i as int, j as int));
                        assert forall|a: int, b: int| #[trigger] old(self)@.first_folded_faces(vertex_id, a, b) implies a == i && b == j by {
                            if a < i {
                                assert(!old(self)@.share_all_vertices(faces@[a], faces@[b]));
                            } else if a == i {
                                if b < j {
                                    assert(!old(self)@.share_all_vertices(faces@[i as int], faces@[b]));
                                }
                            }
                        }
                    }
                    return self.split_at_faces(vertex_id, faces[i], faces[j], removed_vertices, removed_halfedges, removed_faces);
                }
                j = j + 1;
            }
            i = i + 1;
        }
        None
    }

    /// The two sides into which the fan of a vertex is cut at two faces.
    pub(crate) fn cut_sides(&self, fan: &Vec<HalfedgeId>, face_id1: FaceId, face_id2: FaceId) -> (sides: (Vec<HalfedgeId>, Vec<HalfedgeId>))
        requires
            self.wf(),
        ensures
            (sides.0@, sides.1@) == self@.sides_cut(fan@, face_id1, face_id2),
    {
        let n = fan.len();
        let mut side_one: Vec<HalfedgeId> = Vec::new();
        let mut side_two: Vec<HalfedgeId> = Vec::new();
        if n == 0 {
            return (side_one, side_two);
        }
        let mut start_idx: usize = 0;
        let mut k: usize = 0;
        let mut seeking = true;
        while k < n && seeking
            invariant
                k <= n,
                n == fan.len(),
                start_idx < n,
                self.wf(),
                seeking ==> start_idx == 0 && self@.first_in_face(fan@, face_id1, 0) == self@.first_in_face(fan@, face_id1, k as nat),
                !seeking ==> start_idx == self@.cut_start(fan@, face_id1),
            decreases n - k + (if seeking { 1int } else { 0int }),
        {
            match self.halfedge(fan[k]) {
                Some(he) => {
                    if same_face(he.face, Some(face_id1)) {
                        start_idx = if k + 1 == n {
                            0
                        } else {
                            k + 1
                        };
                        seeking = false;
                    }
                },
                None => {},
            }
            if seeking {
                k = k + 1;
            }
        }
        let mut end_idx = start_idx;
        let mut steps: usize = 0;
        let mut found = false;
        let ghost whole = self@.run_to_face(fan@, face_id2, start_idx as int, n as nat);
        proof {
            assert(side_one@ =~= Seq::<HalfedgeId>::empty());
        }
        while steps < n && !found
            invariant
                steps <= n,
                n == fan.len(),
                end_idx < n,
                self.wf(),
                !found ==> whole == (match self@.run_to_face(fan@, face_id2, end_idx as int, (n - steps) as nat) {
                    Some(rest) => Some((side_one@ + rest.0, rest.1)),
                    None => None,
                }),
                found ==> whole == Some((side_one@, end_idx as int)),
            decreases n - steps + (if found { 0int } else { 1int }),
        {
            let ghost before = side_one@;
            side_one.push(fan[end_idx]);
            match self.halfedge(fan[end_idx]) {
                Some(he) => {
                    if same_face(he.face, Some(face_id2)) {
                        found = true;
                    }
                },
                None => {},
            }
            proof {
                if found {
                    assert(before + seq![fan@[end_idx as int]] =~= side_one@);
                }
            }
            if !found {
                let ghost at = end_idx as int;
                end_idx = if end_idx + 1 == n {
                    0
                } else {
                    end_idx + 1
                };
                steps = steps + 1;
                proof {
                    assert(end_idx as int == next_round(at, n as int));
                    match self@.run_to_face(fan@, face_id2, end_idx as int, (n - steps) as nat) {
                        Some(rest) => {
                            assert(before + (seq![fan@[at]] + rest.0) =~= side_one@ + rest.0);
                        },
                        None => {},
                    }
                }
            }
        }
        if found {
            let mut steps: usize = 0;
            let ghost all = run_round(fan@, end_idx as int, start_idx as int, n as nat);
            proof {
                assert(side_two@ + all =~= all);
            }
            while end_idx != start_idx && steps < n
                invariant
                    steps <= n,
                    n == fan.len(),
                    end_idx < n,
                    all == side_two@ + run_round(fan@, end_idx as int, start_idx as int, (n - steps) as nat),
                decreases n - steps,
            {
                let ghost before = side_two@;
                let ghost at = end_idx as int;
                side_two.push(fan[end_idx]);
                end_idx = if end_idx + 1 == n {
                    0
                } else {
                    end_idx + 1
                };
                steps = steps + 1;
                proof {
                    assert(end_idx as int == next_round(at, n as int));
                    assert(before + (seq![fan@[at]] + run_round(fan@, end_idx as int, start_idx as int, (n - steps) as nat)) =~= side_two@ + run_round(
                        fan@,
                        end_idx as int,
                        start_idx as int,
                        (n - steps) as nat,
                    ));
                }
            }
            proof {
                assert(side_two@ + Seq::<HalfedgeId>::empty() =~= side_two@);
            }
            (side_one, side_two)
        } else {
            (Vec::new(), side_two)
        }
    }

    /// Cuts the fan of a vertex at two coincident faces, splits the vertex between the
    /// two sides and deletes the two faces.
    #[verifier::rlimit(50)]
    pub(crate) fn split_at_faces(
        &mut self,
        vertex_id: VertexId,
        face_id1: FaceId,
        face_id2: FaceId,
        removed_vertices: &mut Vec<VertexId>,
        removed_halfedges: &mut Vec<HalfedgeId>,
        removed_faces: &mut Vec<FaceId>,
    ) -> (duplicate: Option<VertexId>)
        requires
            old(self).wf(),
        ensures
            final(self).wf(),
            final(self)@.pruned_from(old(self)@),
            final(self)@.vertices.dom().len() <= old(self)@.vertices.dom().len() + 1,
            old(removed_vertices)@.is_prefix_of(final(removed_vertices)@),
            old(removed_halfedges)@.is_prefix_of(final(removed_halfedges)@),
            old(removed_faces)@.is_prefix_of(final(removed_faces)@),
            final(self)@.halfedges_gone(final(removed_halfedges)@, old(removed_halfedges)@.len() as int),
            final(self)@.faces_gone(final(removed_faces)@, old(removed_faces)@.len() as int),
            duplicate is Some ==> final(self)@.vertices.dom().contains(duplicate->0),
            final(removed_faces)@.len() == old(removed_faces)@.len() + 2,
            final(removed_faces)@ == old(removed_faces)@.push(face_id1).push(face_id2),
            old(self)@.faces_split(
                vertex_id,
                face_id1,
                face_id2,
                final(self)@,
                repair_lists(old(removed_vertices)@, old(removed_halfedges)@, old(removed_faces)@),
                repair_lists(final(removed_vertices)@, final(removed_halfedges)@, final(removed_faces)@),
                duplicate,
            ),
    {
        let ghost start_halfedges = removed_halfedges@.len() as int;
        let ghost start_faces = removed_faces@.len() as int;
        let fan = match self.vertex(vertex_id) {
            Some(vertex) => vertex.outgoing_halfedges(self),
            None => Vec::new(),
        };
        let (side_one, side_two) = self.cut_sides(&fan, face_id1, face_id2);
        let duplicate = self.split_regions_at_vertex(vertex_id, &side_one, &side_two, removed_halfedges);
        let ghost split = self@;
        let ghost split_list = removed_halfedges@;

        let (mut gone_vertices, mut gone_halfedges) = self.delete_face(face_id1);
        let ghost gone_halfedges1 = gone_halfedges@;
        let ghost gone_vertices1 = gone_vertices@;
        removed_vertices.append(&mut gone_vertices);
        proof {
            lemma_gone_carries(split, self@, split_list, split_list, start_halfedges);
            lemma_append_gone(self@, removed_halfedges@, gone_halfedges@, start_halfedges);
        }
        removed_halfedges.append(&mut gone_halfedges);
        removed_faces.push(face_id1);
        let ghost mid = self@;
        let ghost mid_list = removed_halfedges@;

        let (mut gone_vertices, mut gone_halfedges) = self.delete_face(face_id2);
        let ghost gone_halfedges2 = gone_halfedges@;
        let ghost gone_vertices2 = gone_vertices@;
        removed_vertices.append(&mut gone_vertices);
        proof {
            lemma_gone_carries(mid, self@, mid_list, mid_list, start_halfedges);
            lemma_append_gone(self@, removed_halfedges@, gone_halfedges@, start_halfedges);
        }
        removed_halfedges.append(&mut gone_halfedges);
        removed_faces.push(face_id2);
        proof {
            assert(self@.faces_gone(removed_faces@, start_faces));
            vstd::set_lib::lemma_len_subset(self@.vertices.dom(), split.vertices.dom());
        }
        let kept = match duplicate {
            Some(id) => {
                if self.vertex(id).is_some() {
                    Some(id)
                } else {
                    None
                }
            },
            None => None,
        };
        proof {
            let parts = FaceSplitParts { split, made: duplicate, gone_halfedges1, gone_halfedges2 };
            let before = repair_lists(old(removed_vertices)@, old(removed_halfedges)@, old(removed_faces)@);
            let lists = repair_lists(removed_vertices@, removed_halfedges@, removed_faces@);
            assert(lists.vertices =~= before.vertices + gone_vertices1 + gone_vertices2);
            assert(lists.halfedges =~= split_list + gone_halfedges1 + gone_halfedges2);
            assert(lists.faces =~= before.faces.push(face_id1).push(face_id2));
            assert(old(self)@.faces_split_by(vertex_id, face_id1, face_id2, parts, self@, before, lists, kept));
        }
        kept
    }
    /// Joins two faces along the edge between `v_a` and `v_b`: the halfedge of each face
    /// that runs between the two vertices is found, the two are made twins, and each
    /// becomes the canonical outgoing halfedge of the vertex it starts at. Nothing
    /// happens where a face is not live or has no such halfedge.
    pub fn weld_faces_at(&mut self, v_a: VertexId, v_b: VertexId, face_id1: FaceId, face_id2: FaceId) -> (welded: bool)
        requires
            old(self).wf(),
        ensures
            final(self).wf(),
            final(self)@.halfedges.dom() == old(self)@.halfedges.dom(),
            final(self)@.vertices.dom() == old(self)@.vertices.dom(),
            final(self)@.faces == old(self)@.faces,
            final(self)@.slots == old(self)@.slots,
            final(self)@.positions == old(self)@.positions,
            final(self)@.normals == old(self)@.normals,
            final(self)@.outgoing == old(self)@.outgoing,
            welded <==> old(self)@.faces.dom().contains(face_id1) && old(self)@.faces.dom().contains(face_id2) && old(self)@.edge_in_face(
                old(self)@.faces[face_id1],
                v_a,
                v_b,
            ) is Some && old(self)@.edge_in_face(old(self)@.faces[face_id2], v_a, v_b) is Some,
            !welded ==> final(self)@ == old(self)@,
            welded ==> final(self)@ == old(self)@.faces_welded(v_a, v_b, face_id1, face_id2),
    {
        let he1 = match self.face(face_id1) {
            Some(face) => match face.halfedge_between(self, v_a, v_b) {
                Some(he) => he,
                None => {
                    return false;
                },
            },
            None => {
                return false;
            },
        };
        let he2 = match self.face(face_id2) {
            Some(face) => match face.halfedge_between(self, v_a, v_b) {
                Some(he) => he,
                None => {
                    return false;
                },
            },
            None => {
                return false;
            },
        };
        self.make_twins(he1, he2);
        proof {
            assert(self@.halfedges.dom() =~= old(self)@.halfedges.dom());
        }
        match self.halfedge(he1) {
            Some(h) => match h.start_vertex(self) {
                Some(start) => {
                    self.set_canonical(start, Some(he1));
                },
                None => {},
            },
            None => {},
        }
        match self.halfedge(he2) {
            Some(h) => match h.start_vertex(self) {
                Some(start) => {
                    self.set_canonical(start, Some(he2));
                },
                None => {},
            },
            None => {},
        }
        proof {
            assert(self@.vertices.dom() =~= old(self)@.vertices.dom());
        }
        true
    }

    /// Splits a vertex at two coincident edges of its fan, `fan[i]` and `fan[j]` with
    /// `i < j`: a duplicate of the vertex takes the halfedges of the fan behind `fan[j]`
    /// and up to `fan[i]`, the halfedges that end at the vertex in their faces are led
    /// to the duplicate, and on either side the two faces at the cut are joined along
    /// the edge. Gives the duplicate, or nothing where the vertex has no position, the
    /// arena is full or a face or twin at the cut is missing; nothing changes then.
    #[verifier::rlimit(50)]
    pub(crate) fn split_regions_at_edge(&mut self, vertex_id: VertexId, fan: &Vec<HalfedgeId>, i: usize, j: usize) -> (duplicate: Option<VertexId>)
        requires
            old(self).wf(),
            i < j < fan.len(),
        ensures
            final(self).wf(),
            final(self)@.halfedges.dom() == old(self)@.halfedges.dom(),
            final(self)@.faces == old(self)@.faces,
            final(self)@.slots == old(self)@.slots,
            old(self)@.vertices.dom().subset_of(final(self)@.vertices.dom()),
            final(self)@.vertices.dom().len() <= old(self)@.vertices.dom().len() + 1,
            duplicate is Some ==> !old(self)@.vertices.dom().contains(duplicate->0) && final(self)@.vertices.dom().contains(duplicate->0),
            duplicate is None ==> final(self)@ == old(self)@,
            duplicate is Some <==> old(self)@.edge_splittable(vertex_id, fan@, i as int, j as int),
            duplicate is Some ==> final(self)@ == old(self)@.edge_split_at(vertex_id, fan@, i as int, j as int, duplicate->0),
    {
        let position = match self.position(vertex_id) {
            Some(position) => position,
            None => {
                return None;
            },
        };
        if !self.has_room(1, 0, 0) {
            return None;
        }
        let he_i = match self.halfedge(fan[i]) {
            Some(he) => he,
            None => {
                return None;
            },
        };
        let he_j = match self.halfedge(fan[j]) {
            Some(he) => he,
            None => {
                return None;
            },
        };
        let face_b2 = match he_i.face {
            Some(face) => face,
            None => {
                return None;
            },
        };
        let face_a2 = match he_j.face {
            Some(face) => face,
            None => {
                return None;
            },
        };
        let face_a1 = match he_i.twin {
            Some(twin) => match self.halfedge(twin) {
                Some(t) => match t.face {
                    Some(face) => face,
                    None => {
                        return None;
                    },
                },
                None => {
                    return None;
                },
            },
            None => {
                return None;
            },
        };
        let face_b1 = match he_j.twin {
            Some(twin) => match self.halfedge(twin) {
                Some(t) => match t.face {
                    Some(face) => face,
                    None => {
                        return None;
                    },
                },
                None => {
                    return None;
                },
            },
            None => {
                return None;
            },
        };
        let other_end_one = he_i.end_vertex;
        let other_end_two = he_j.end_vertex;
        let new_vertex_id = self.insert_vertex(position);
        let ghost grown = self@;
        proof {
            assert(grown.vertices.dom() =~= old(self)@.vertices.dom().insert(new_vertex_id));
        }
        let n = fan.len();
        let mut moved: Vec<HalfedgeId> = Vec::new();
        let mut k: usize = if j + 1 == n {
            0
        } else {
            j + 1
        };
        let mut steps: usize = 0;
        let mut finished = false;
        let ghost all_moved = grown.retargeted(vertex_id, new_vertex_id, fan@, k as int, i as int, n as nat);
        let ghost all_handed = handed_list(fan@, k as int, i as int, n as nat);
        proof {
            assert(moved@ + all_handed =~= all_handed);
        }
        while steps < n && !finished
            invariant
                steps <= n,
                n == fan.len(),
                k < n,
                i < n,
                self.wf(),
                self@.halfedges.dom() == grown.halfedges.dom(),
                self@.faces == grown.faces,
                self@.slots == grown.slots,
                self@.vertices.dom() == grown.vertices.dom(),
                all_moved == (if finished {
                    self@
                } else {
                    self@.retargeted(vertex_id, new_vertex_id, fan@, k as int, i as int, (n - steps) as nat)
                }),
                all_handed == moved@ + (if finished {
                    Seq::<HalfedgeId>::empty()
                } else {
                    handed_list(fan@, k as int, i as int, (n - steps) as nat)
                }),
            decreases n - steps + (if finished { 0int } else { 1int }),
        {
            let he_id = fan[k];
            let ghost before = self@;
            let ghost listed = moved@;
            let ghost rest = handed_list(fan@, k as int, i as int, (n - steps) as nat);
            match self.halfedge(he_id) {
                Some(he) => match he.prev(self) {
                    Some(prev) => {
                        self.set_end(prev, new_vertex_id);
                    },
                    None => {},
                },
                None => {},
            }
            self.unlist(vertex_id, he_id);
            proof {
                assert(self@.halfedges.dom() =~= before.halfedges.dom());
                assert(self@.vertices.dom() =~= before.vertices.dom());
            }
            moved.push(he_id);
            proof {
                assert(self@ == before.handed_over(vertex_id, new_vertex_id, he_id));
            }
            if k == i {
                finished = true;
                proof {
                    assert(rest =~= seq![he_id]);
                    assert(listed + rest =~= moved@ + Seq::<HalfedgeId>::empty());
                }
            } else {
                let ghost at = k as int;
                k = if k + 1 == n {
                    0
                } else {
                    k + 1
                };
                steps = steps + 1;
                proof {
                    let further = handed_list(fan@, k as int, i as int, (n - steps) as nat);
                    assert(k as int == next_round(at, n as int));
                    assert(rest =~= seq![he_id] + further);
                    assert(listed + rest =~= moved@ + further);
                }
            }
        }
        proof {
            if !finished {
                assert(moved@ + Seq::<HalfedgeId>::empty() =~= moved@);
            } else {
                assert(moved@ + Seq::<HalfedgeId>::empty() =~= moved@);
            }
            assert(moved@ == all_handed);
            assert(self@ == all_moved);
        }
        let ghost before = self@;
        self.set_outgoing_halfedge_list(new_vertex_id, moved);
        self.set_canonical(new_vertex_id, Some(fan[i]));
        self.set_canonical(vertex_id, Some(fan[j]));
        proof {
            assert(self@.vertices.dom() =~= before.vertices.dom());
        }
        self.weld_faces_at(vertex_id, other_end_one, face_a1, face_a2);
        self.weld_faces_at(new_vertex_id, other_end_two, face_b1, face_b2);
        Some(new_vertex_id)
    }

    /// The third repair: looks for two different halfedges in the fan of the vertex that
    /// run to the same place. For the first such pair the vertex is split at the two
    /// edges. Gives the duplicate of the vertex where it was split. No element is
    /// deleted.
    pub(crate) fn remove_degenerate_edges(&mut self, vertex_id: VertexId) -> (duplicate: Option<VertexId>)
        requires
            old(self).wf(),
        ensures
            final(self).wf(),
            final(self)@.halfedges.dom() == old(self)@.halfedges.dom(),
            final(self)@.faces == old(self)@.faces,
            final(self)@.slots == old(self)@.slots,
            final(self)@.vertices.dom().len() <= old(self)@.vertices.dom().len() + 1,
            duplicate is Some ==> final(self)@.vertices.dom().contains(duplicate->0),
            duplicate is None ==> final(self)@ == old(self)@,
            old(self)@.no_folded_edges(vertex_id) ==> duplicate is None,
            old(self)@.edges_unfolded(vertex_id, final(self)@, duplicate),
            duplicate is Some ==> exists|i: int, j: int| #[trigger] old(self)@.first_folded(vertex_id, i, j),
            forall|i: int, j: int| #[trigger]
                old(self)@.first_folded(vertex_id, i, j) ==> {
                    let fan = old(self)@.fan(old(self)@.vertices[vertex_id]);
                    &&& duplicate is Some <==> old(self)@.edge_splittable(vertex_id, fan, i, j)
                    &&& duplicate is Some ==> final(self)@ == old(self)@.edge_split_at(vertex_id, fan, i, j, duplicate->0)
                },
    {
        let vertex = match self.vertex(vertex_id) {
            Some(vertex) => vertex,
            None => {
                return None;
            },
        };
        let fan = vertex.outgoing_halfedges(self);
        let mut i: usize = 0;
        while i < fan.len()
            invariant
                i <= fan.len(),
                self.wf(),
                self@ == old(self)@,
                self@.vertices.dom().contains(vertex_id),
                fan@ == self@.fan(self@.vertices[vertex_id]),
                forall|a: int, b: int| 0 <= a < i && a < b < fan@.len() ==> !#[trigger] self@.folded_at(fan@, a, b),
            decreases fan.len() - i,
        {
            let mut j: usize = i + 1;
            while j < fan.len()
                invariant
                    i < j <= fan.len(),
                    self.wf(),
                    self@ == old(self)@,
                    self@.vertices.dom().contains(vertex_id),
                    fan@ == self@.fan(self@.vertices[vertex_id]),
                    forall|a: int, b: int| 0 <= a < i && a < b < fan@.len() ==> !#[trigger] self@.folded_at(fan@, a, b),
                    forall|b: int| i < b < j ==> !#[trigger] self@.folded_at(fan@, i as int, b),
                decreases fan.len() - j,
            {
                if fan[i] != fan[j] && self.halfedges_share_all_vertices(fan[i], fan[j]) {
                    proof {
                        assert(!old(self)@.no_folded_edges(vertex_id));
                        assert(old(self)@.folded_at(fan@, i as int, j as int));
                        assert(old(self)@.first_folded(vertex_id, i as int, j as int));
                        assert forall|a: int, b: int| #[trigger] old(self)@.first_folded(vertex_id, a, b) implies a == i && b == j by {
                            if a < i {
                                assert(!old(self)@.folded_at(fan@, a, b));
                            } else if a == i {
                                if b < j {
                                    assert(!old(self)@.folded_at(fan@, i as int, b));
                                } else if b > j {
                                    assert(old(self)@.folded_at(fan@, i as int, j as int));
                                }
                            } else {
                                assert(old(self)@.folded_at(fan@, i as int, j as int));
                            }
                        }
                    }
                    return self.split_regions_at_edge(vertex_id, &fan, i, j);
                }
                j = j + 1;
            }
            i = i + 1;
        }
        proof {
            assert forall|a: int, b: int| !#[trigger] old(self)@.first_folded(vertex_id, a, b) by {
                if old(self)@.first_folded(vertex_id, a, b) {
                    assert(old(self)@.folded_at(fan@, a, b));
                }
            }
            assert(old(self)@.no_folded_edges(vertex_id)) by {
                assert forall|a: int, b: int| 0 <= a < b < fan@.len() && fan@[a] != fan@[b] implies !#[trigger] old(self)@.same_run(fan@[a], fan@[b]) by {
                    assert(!old(self)@.folded_at(fan@, a, b));
                }
            }
        }
        None
    }

    /// One round of the three repairs on a vertex. The removed elements are appended to
    /// the three lists. Gives the duplicate of the vertex where a repair split it; the
    /// repairs after the one that split are left for the next round.
    pub fn make_vertex_neighborhood_manifold_inner(
        &mut self,
        vertex_id: VertexId,
        removed_vertices: &mut Vec<VertexId>,
        removed_halfedges: &mut Vec<HalfedgeId>,
        removed_faces: &mut Vec<FaceId>,
    ) -> (duplicate: Option<VertexId>)
        requires
            old(self).wf(),
        ensures
            final(self).wf(),
            final(self)@.pruned_from(old(self)@),
            old(removed_vertices)@.is_prefix_of(final(removed_vertices)@),
            old(removed_halfedges)@.is_prefix_of(final(removed_halfedges)@),
            old(removed_faces)@.is_prefix_of(final(removed_faces)@),
            final(self)@.halfedges_gone(final(removed_halfedges)@, old(removed_halfedges)@.len() as int),
            final(self)@.faces_gone(final(removed_faces)@, old(removed_faces)@.len() as int),
            duplicate is Some ==> final(self)@.vertices.dom().contains(duplicate->0),
            (duplicate is None && final(removed_faces)@.len() == old(removed_faces)@.len()) ==> final(self)@ == old(self)@ && final(removed_vertices)@ == old(removed_vertices)@ && final(removed_halfedges)@ == old(removed_halfedges)@,
            old(self)@.coincidence_free(vertex_id) ==> duplicate is None && final(removed_faces)@.len() == old(removed_faces)@.len(),
            !(old(self)@.no_flaps(vertex_id) && old(self)@.no_folded_faces(vertex_id)) ==> final(removed_faces)@.len() >= old(removed_faces)@.len() + 2,
            forall|k: int|
                old(removed_faces)@.len() <= k < final(removed_faces)@.len() ==> old(self)@.faces.dom().contains(#[trigger] final(removed_faces)@[k]),
            duplicate is None && final(removed_faces)@.len() == old(removed_faces)@.len() ==> old(self)@.settled(vertex_id),
            old(self)@.round_gives(
                vertex_id,
                final(self)@,
                repair_lists(old(removed_vertices)@, old(removed_halfedges)@, old(removed_faces)@),
                repair_lists(final(removed_vertices)@, final(removed_halfedges)@, final(removed_faces)@),
                duplicate,
            ),
    {
        if self.vertex(vertex_id).is_none() {
            return None;
        }
        let ghost first_lists = repair_lists(removed_vertices@, removed_halfedges@, removed_faces@);
        let ghost start_halfedges = removed_halfedges@.len() as int;
        let ghost start_faces = removed_faces@.len() as int;
        self.remove_neighboring_flaps(vertex_id, removed_vertices, removed_halfedges, removed_faces);
        let ghost after_flaps = self@;
        let ghost halfedges_after_flaps = removed_halfedges@;
        let ghost faces_after_flaps = removed_faces@;
        let ghost flap_lists = repair_lists(removed_vertices@, removed_halfedges@, removed_faces@);
        let split = self.remove_degenerate_faces(vertex_id, removed_vertices, removed_halfedges, removed_faces);
        let ghost unfolded = self@;
        let ghost face_lists = repair_lists(removed_vertices@, removed_halfedges@, removed_faces@);
        proof {
            lemma_gone_carries(after_flaps, self@, halfedges_after_flaps, removed_halfedges@, start_halfedges);
            lemma_faces_gone_carries(after_flaps, self@, faces_after_flaps, removed_faces@, start_faces);
        }
        if split.is_some() {
            proof {
                let steps = RoundSteps { flaps: after_flaps, flap_lists, faces: unfolded, face_duplicate: split };
                assert(old(self)@.round_went(vertex_id, steps, self@, first_lists, face_lists, split));
            }
            return split;
        }
        let duplicate = self.remove_degenerate_edges(vertex_id);
        proof {
            let steps = RoundSteps { flaps: after_flaps, flap_lists, faces: unfolded, face_duplicate: split };
            assert(old(self)@.round_went(vertex_id, steps, self@, first_lists, face_lists, duplicate));
        }
        duplicate
    }

    /// Makes the neighbourhood of a vertex manifold.
    ///
    /// The vertex is repaired round by round. A round that splits the vertex puts the
    /// duplicate behind it in the queue; a round that changes nothing takes the vertex
    /// at the head of the queue out. The work ends when the queue is empty, or when as
    /// many rounds have been run as a mesh of this size can need.
    ///
    /// A neighbourhood in which nothing lies on top of anything else is left as it is,
    /// and the four lists of the result are empty.
    #[verifier::rlimit(50)]
    pub fn make_vertex_neighborhood_manifold(&mut self, vertex_id: VertexId) -> (cleanup: VertexNeighborhoodCleanup)
        requires
            old(self).wf(),
        ensures
            final(self).wf(),
            old(self)@.repair_gives(vertex_id, final(self)@, cleanup),
    {
        let mut removed_vertices: Vec<VertexId> = Vec::new();
        let mut removed_halfedges: Vec<HalfedgeId> = Vec::new();
        let mut removed_faces: Vec<FaceId> = Vec::new();
        let mut split_vertices: Vec<VertexId> = Vec::new();
        let mut queue: Vec<VertexId> = Vec::new();
        queue.push(vertex_id);
        let faces = self.face_count() as u64;
        let halfedges = self.halfedge_count() as u64;
        let mut rounds: u64 = faces + 3 * halfedges + 2;
        let mut touched = false;
        let ghost begun = RepairRun {
            mesh: old(self)@,
            queue: seq![vertex_id],
            lists: repair_lists(Seq::empty(), Seq::empty(), Seq::empty()),
            splits: Seq::empty(),
        };
        let ghost mut done: nat = 0;
        proof {
            assert(queue@ =~= seq![vertex_id]);
            assert(repair_lists(removed_vertices@, removed_halfedges@, removed_faces@) == begun.lists) by {
                assert(removed_vertices@ =~= Seq::<VertexId>::empty());
                assert(removed_halfedges@ =~= Seq::<HalfedgeId>::empty());
                assert(removed_faces@ =~= Seq::<FaceId>::empty());
            }
            assert(split_vertices@ =~= Seq::<VertexId>::empty());
        }
        while queue.len() > 0 && rounds > 0
            invariant
                self.wf(),
                begun == (RepairRun {
                    mesh: old(self)@,
                    queue: seq![vertex_id],
                    lists: repair_lists(Seq::empty(), Seq::empty(), Seq::empty()),
                    splits: Seq::empty(),
                }),
                begun.runs_to(
                    RepairRun {
                        mesh: self@,
                        queue: queue@,
                        lists: repair_lists(removed_vertices@, removed_halfedges@, removed_faces@),
                        splits: split_vertices@,
                    },
                    done,
                ),
                done + rounds == old(self)@.round_bound(),
                forall|k: int| 0 <= k < removed_faces@.len() ==> old(self)@.faces.dom().contains(#[trigger] removed_faces@[k]),
                split_vertices@.len() == 0 ==> queue@ =~= seq![vertex_id] || (queue@.len() == 0 && self@.settled(vertex_id)),
                self@.pruned_from(old(self)@),
                self@.halfedges_gone(removed_halfedges@, 0),
                self@.faces_gone(removed_faces@, 0),
                split_vertices@.len() % 2 == 0,
                !touched ==> self@ == old(self)@ && removed_vertices@.len() == 0 && removed_halfedges@.len() == 0 && removed_faces@.len() == 0
                    && split_vertices@.len() == 0 && (queue@.len() > 0 ==> queue@ == seq![vertex_id]),
                old(self)@.coincidence_free(vertex_id) ==> !touched,
                !(old(self)@.no_flaps(vertex_id) && old(self)@.no_folded_faces(vertex_id)) ==> (if touched {
                    removed_faces@.len() >= 2
                } else {
                    rounds > 0 && queue@.len() > 0
                }),
            decreases rounds,
        {
            rounds = rounds - 1;
            let current = queue[0];
            let ghost before = self@;
            let ghost run_before = RepairRun {
                mesh: self@,
                queue: queue@,
                lists: repair_lists(removed_vertices@, removed_halfedges@, removed_faces@),
                splits: split_vertices@,
            };
            let ghost halfedges_before = removed_halfedges@;
            let ghost faces_before = removed_faces@;
            let count_vertices = removed_vertices.len();
            let count_halfedges = removed_halfedges.len();
            let count_faces = removed_faces.len();
            let duplicate = self.make_vertex_neighborhood_manifold_inner(current, &mut removed_vertices, &mut removed_halfedges, &mut removed_faces);
            proof {
                lemma_gone_carries(before, self@, halfedges_before, removed_halfedges@, 0);
                lemma_faces_gone_carries(before, self@, faces_before, removed_faces@, 0);
            }
            let unchanged = removed_vertices.len() == count_vertices && removed_halfedges.len() == count_halfedges && removed_faces.len()
                == count_faces;
            match duplicate {
                Some(new_vertex_id) => {
                    split_vertices.push(current);
                    split_vertices.push(new_vertex_id);
                    queue.push(new_vertex_id);
                    touched = true;
                },
                None => {
                    if unchanged {
                        queue.remove(0);
                    } else {
                        touched = true;
                    }
                },
            }
            proof {
                let run_now = RepairRun {
                    mesh: self@,
                    queue: queue@,
                    lists: repair_lists(removed_vertices@, removed_halfedges@, removed_faces@),
                    splits: split_vertices@,
                };
                assert(run_before.mesh.round_gives(run_before.queue[0], run_now.mesh, run_before.lists, run_now.lists, duplicate));
                assert(run_before.steps_to(run_now));
                done = done + 1;
                assert(begun.runs_to(run_now, done));
                assert forall|k: int| 0 <= k < removed_faces@.len() implies old(self)@.faces.dom().contains(#[trigger] removed_faces@[k]) by {
                    if k >= faces_before.len() {
                        assert(before.faces.dom().contains(removed_faces@[k]));
                    } else {
                        assert(removed_faces@[k] == faces_before[k]);
                    }
                }
            }
        }
        let cleanup = VertexNeighborhoodCleanup { removed_vertices, removed_halfedges, removed_faces, split_vertices };
        proof {
            let end = RepairRun {
                mesh: self@,
                queue: queue@,
                lists: repair_lists(cleanup.removed_vertices@, cleanup.removed_halfedges@, cleanup.removed_faces@),
                splits: cleanup.split_vertices@,
            };
            assert(old(self)@.repair_ran(vertex_id, end, done, self@, cleanup));
        }
        cleanup
    }
}

/// Taking halfedges over changes neither which halfedges are live nor their twins.
pub proof fn lemma_taken_over_keeps_twins(m: MeshModel, v: VertexId, duplicate: VertexId, list: Seq<HalfedgeId>, n: nat, he: HalfedgeId)
    ensures
        m.taken_over(v, duplicate, list, n).halfedges.dom() == m.halfedges.dom(),
        m.halfedges.dom().contains(he) ==> m.taken_over(v, duplicate, list, n).halfedges[he].twin == m.halfedges[he].twin,
    decreases n,
{
    if n == 0 || n > list.len() {
    } else {
        lemma_taken_over_keeps_twins(m, v, duplicate, list, (n - 1) as nat, he);
        let before = m.taken_over(v, duplicate, list, (n - 1) as nat);
        let twin = before.halfedges[list[n - 1]].twin->0;
        assert(before.put_end(twin, duplicate).halfedges.dom() =~= before.halfedges.dom());
        assert(before.put_end(twin, duplicate).unlist(v, list[n - 1]).halfedges == before.put_end(twin, duplicate).halfedges);
    }
}

/// A list of halfedges that are gone, with more halfedges that are gone at its end, is
/// a list of halfedges that are gone.
pub proof fn lemma_append_gone(m: MeshModel, list: Seq<HalfedgeId>, more: Seq<HalfedgeId>, from: int)
    requires
        m.halfedges_gone(list, from),
        m.halfedges_gone(more, 0),
        0 <= from <= list.len(),
    ensures
        m.halfedges_gone(list + more, from),
{
    assert forall|i: int| from <= i < (list + more).len() implies !m.halfedges.dom().contains(#[trigger] (list + more)[i]) by {
        if i < list.len() {
            assert((list + more)[i] == list[i]);
        } else {
            assert((list + more)[i] == more[i - list.len()]);
        }
    }
}

/// Halfedges that were gone stay gone when the mesh is pruned further, and a list that
/// grows by halfedges that are gone is a list of halfedges that are gone.
pub proof fn lemma_gone_carries(before: MeshModel, after: MeshModel, list: Seq<HalfedgeId>, grown: Seq<HalfedgeId>, from: int)
    requires
        after.halfedges.dom().subset_of(before.halfedges.dom()),
        before.halfedges_gone(list, from),
        list.is_prefix_of(grown),
        after.halfedges_gone(grown, list.len() as int),
        0 <= from <= list.len(),
    ensures
        after.halfedges_gone(grown, from),
{
    assert forall|i: int| from <= i < grown.len() implies !after.halfedges.dom().contains(#[trigger] grown[i]) by {
        if i < list.len() {
            assert(grown[i] == list[i]);
            assert(!before.halfedges.dom().contains(list[i]));
        }
    }
}

/// Faces that were gone stay gone when the mesh is pruned further, and a list that grows
/// by faces that are gone is a list of faces that are gone.
pub proof fn lemma_faces_gone_carries(before: MeshModel, after: MeshModel, list: Seq<FaceId>, grown: Seq<FaceId>, from: int)
    requires
        after.faces.dom().subset_of(before.faces.dom()),
        before.faces_gone(list, from),
        list.is_prefix_of(grown),
        after.faces_gone(grown, list.len() as int),
        0 <= from <= list.len(),
    ensures
        after.faces_gone(grown, from),
{
    assert forall|i: int| from <= i < grown.len() implies !after.faces.dom().contains(#[trigger] grown[i]) by {
        if i < list.len() {
            assert(grown[i] == list[i]);
            assert(!before.faces.dom().contains(list[i]));
        }
    }
}

/// Whether two optional face identifiers are the same.
pub(crate) fn same_face(a: Option<FaceId>, b: Option<FaceId>) -> (same: bool)
    ensures
        same == (a == b),
{
    match a {
        Some(x) => match b {
            Some(y) => x == y,
            None => false,
        },
        None => b.is_none(),
    }
}

} // verus!
