//! Building a mesh from triangles, and keeping its normals and its spatial index.

use vstd::prelude::*;
use crate::arena::ARENA_LIMIT;
use crate::elements::Face;
use crate::geometry::{
    copy_point, cross, difference, distance_squared, normalized, sum, sum_from_nought, vec3_cross, vec3_difference, vec3_distance_squared,
    vec3_normalized, vec3_sum, vec3_sum_from_nought,
};
use crate::ids::{FaceId, HalfedgeId, VertexId};
use crate::ops::insert::InsertOrGetEdge;
use crate::mesh::{MeshGraph, MeshModel};
use crate::secondary::VectorMap;
use crate::spatial::SlotTriangle;

verus! {

/// Two positions closer than this, as the bit pattern of a squared distance, are taken
/// for one vertex when a mesh is built from loose triangles: a hundred-thousandth.
pub const MERGE_DISTANCE_SQUARED: u32 = 925353388;

/// Whether the three indices of the triangle that starts at position `at` of `indices`
/// are three different ones.
pub open spec fn proper_triple(indices: Seq<usize>, at: int) -> bool {
    indices[at] != indices[at + 1] && indices[at + 1] != indices[at + 2] && indices[at + 2] != indices[at]
}

/// The number of the first `triples` triangles of `indices` whose three indices are
/// three different ones.
pub open spec fn proper_triples(indices: Seq<usize>, triples: nat) -> nat
    decreases triples,
{
    if triples == 0 {
        0
    } else {
        proper_triples(indices, (triples - 1) as nat) + (if proper_triple(indices, 3 * (triples - 1)) {
            1nat
        } else {
            0nat
        })
    }
}

/// Whether `unique` and `indices` are what merging near positions makes of `positions`:
/// every position is given the first entry of `unique` that lies within the merge
/// distance of it, and where there is none it becomes a new entry itself.
pub open spec fn merged_positions(positions: Seq<glam::Vec3>, unique: Seq<glam::Vec3>, indices: Seq<usize>) -> bool {
    &&& indices.len() == positions.len()
    &&& forall|i: int| 0 <= i < indices.len() ==> {
        let j = #[trigger] indices[i];
        &&& j < unique.len()
        &&& vec3_distance_squared(unique[j as int], positions[i]) < MERGE_DISTANCE_SQUARED || unique[j as int] == positions[i]
        &&& forall|k: int| 0 <= k < j ==> !(vec3_distance_squared(#[trigger] unique[k], positions[i]) < MERGE_DISTANCE_SQUARED)
    }
}

/// Merges positions that lie within the merge distance of one another.
#[verifier::rlimit(50)]
pub fn merge_near_positions(positions: &Vec<glam::Vec3>) -> (merged: (Vec<glam::Vec3>, Vec<usize>))
    ensures
        merged_positions(positions@, merged.0@, merged.1@),
        merged.0@.len() <= positions@.len(),
{
    let mut unique: Vec<glam::Vec3> = Vec::new();
    let mut indices: Vec<usize> = Vec::new();
    let mut i: usize = 0;
    while i < positions.len()
        invariant
            i <= positions.len(),
            indices@.len() == i,
            unique@.len() <= i,
            forall|a: int| 0 <= a < i ==> {
                let j = #[trigger] indices@[a];
                &&& j < unique@.len()
                &&& vec3_distance_squared(unique@[j as int], positions@[a]) < MERGE_DISTANCE_SQUARED || unique@[j as int] == positions@[a]
                &&& forall|k: int| 0 <= k < j ==> !(vec3_distance_squared(#[trigger] unique@[k], positions@[a]) < MERGE_DISTANCE_SQUARED)
            },
        decreases positions.len() - i,
    {
        let mut found: Option<usize> = None;
        let mut j: usize = 0;
        while j < unique.len() && found.is_none()
            invariant
                j <= unique.len(),
                i < positions.len(),
                found is None ==> forall|k: int| 0 <= k < j ==> !(vec3_distance_squared(#[trigger] unique@[k], positions@[i as int]) < MERGE_DISTANCE_SQUARED),
                found is Some ==> found->0 < unique@.len() && vec3_distance_squared(unique@[found->0 as int], positions@[i as int])
                    < MERGE_DISTANCE_SQUARED && forall|k: int| 0 <= k < found->0 ==> !(vec3_distance_squared(#[trigger] unique@[k], positions@[i as int])
                    < MERGE_DISTANCE_SQUARED),
            decreases unique.len() - j + (if found is None { 1int } else { 0int }),
        {
            if distance_squared(&unique[j], &positions[i]) < MERGE_DISTANCE_SQUARED {
                found = Some(j);
            } else {
                j = j + 1;
            }
        }
        let index = match found {
            Some(index) => index,
            None => {
                let ghost before = unique@;
                unique.push(copy_point(&positions[i]));
                proof {
                    assert forall|a: int| 0 <= a < i implies {
                        let j = #[trigger] indices@[a];
                        &&& j < unique@.len()
                        &&& vec3_distance_squared(unique@[j as int], positions@[a]) < MERGE_DISTANCE_SQUARED || unique@[j as int] == positions@[a]
                        &&& forall|k: int| 0 <= k < j ==> !(vec3_distance_squared(#[trigger] unique@[k], positions@[a]) < MERGE_DISTANCE_SQUARED)
                    } by {
                        let j = indices@[a];
                        assert(unique@[j as int] == before[j as int]);
                        assert forall|k: int| 0 <= k < j implies !(vec3_distance_squared(#[trigger] unique@[k], positions@[a]) < MERGE_DISTANCE_SQUARED) by {
                            assert(unique@[k] == before[k]);
                        }
                    }
                    assert forall|k: int| 0 <= k < unique@.len() - 1 implies !(vec3_distance_squared(#[trigger] unique@[k], positions@[i as int])
                        < MERGE_DISTANCE_SQUARED) by {
                        assert(unique@[k] == before[k]);
                    }
                }
                unique.len() - 1
            },
        };
        indices.push(index);
        i = i + 1;
    }
    (unique, indices)
}

impl MeshModel {
    /// What is filed in an empty spatial index once the bounding boxes of the first `n`
    /// faces of `order` have been filed, one after the other.
    pub open spec fn all_bounds(self, order: Seq<FaceId>, n: nat) -> Map<u32, parry3d::bounding_volume::Aabb>
        decreases n,
    {
        if n == 0 || n > order.len() {
            Map::empty()
        } else {
            self.with_bounds(self.all_bounds(order, (n - 1) as nat), order[n - 1])
        }
    }

    /// Whether `filed` is what the spatial index holds when it has been built anew, the
    /// faces taken in the order `order`, which names every live face once: under the
    /// slot of every live face of which three corner positions are found, the box round
    /// these.
    pub open spec fn bounds_filed(self, order: Seq<FaceId>, filed: Map<u32, parry3d::bounding_volume::Aabb>) -> bool {
        &&& order.no_duplicates()
        &&& order.to_set() == self.faces.dom()
        &&& filed == self.all_bounds(order, order.len())
    }

    /// Whether `after` is this mesh with its live faces given new slots: the slot table
    /// lists the live faces, each once, every face is filed under the slot at which it
    /// is listed, and nothing else has changed.
    pub open spec fn recounted(self, after: MeshModel) -> bool {
        &&& after == (MeshModel { faces: after.faces, slots: after.slots, ..self })
        &&& after.faces.dom() == self.faces.dom()
        &&& after.slots.no_duplicates()
        &&& after.slots.to_set() == self.faces.dom()
        &&& after.slots.len() == self.faces.dom().len()
        &&& forall|f: FaceId| #[trigger]
            after.faces.dom().contains(f) ==> after.faces[f].halfedge == self.faces[f].halfedge && after.faces[f].id == f && (
            after.faces[f].index as int) < after.slots.len() && after.slots[after.faces[f].index as int] == f
    }

    /// The mesh that holds nothing but the first `n` of the vertices `ids`, each at its
    /// position.
    pub open spec fn of_vertices(ids: Seq<VertexId>, positions: Seq<glam::Vec3>, n: nat) -> MeshModel
        decreases n,
    {
        if n == 0 {
            MeshModel::empty()
        } else {
            Self::of_vertices(ids, positions, (n - 1) as nat).add_vertex(ids[n - 1], positions[n - 1])
        }
    }

    /// Whether `after` is this mesh with a triangle put on the vertices `a`, `b`, `c`:
    /// its three edges found or made, in that order, and a new face on them.
    pub open spec fn triangle_added(self, a: VertexId, b: VertexId, c: VertexId, after: MeshModel) -> bool {
        exists|e1: InsertOrGetEdge, e2: InsertOrGetEdge, e3: InsertOrGetEdge, face: FaceId, created: Seq<HalfedgeId>| #[trigger]
            self.triangle_made(a, b, c, e1, e2, e3, face, after, created)
    }

    /// Whether `after` is this mesh with the triangle number `t` of `indices` put in,
    /// on the vertices that `ids` gives for its three indices; a triangle that names an
    /// index twice is left out.
    pub open spec fn triple_built(self, ids: Seq<VertexId>, indices: Seq<usize>, t: int, after: MeshModel) -> bool {
        if proper_triple(indices, 3 * t) {
            self.triangle_added(ids[indices[3 * t] as int], ids[indices[3 * t + 1] as int], ids[indices[3 * t + 2] as int], after)
        } else {
            after == self
        }
    }

    /// Whether `after` is this mesh with the first `n` triangles of `indices` put in,
    /// one after the other.
    pub open spec fn triangles_built(self, ids: Seq<VertexId>, indices: Seq<usize>, n: nat, after: MeshModel) -> bool
        decreases n,
    {
        if n == 0 {
            after == self
        } else {
            exists|mid: MeshModel| self.triangles_built(ids, indices, (n - 1) as nat, mid) && #[trigger] mid.triple_built(ids, indices, n - 1, after)
        }
    }

    /// Whether this mesh has been built from `positions` and `indices` by way of
    /// `built` and `fixed`: the vertices `ids` are made, one for each position and no
    /// two the same; the triangles are put in, which gives `built`; the canonical
    /// halfedges of the vertices on the boundary are moved to the boundary, which gives
    /// `fixed`; and the faces are given new slots.
    pub open spec fn built_from(
        self,
        positions: Seq<glam::Vec3>,
        indices: Seq<usize>,
        ids: Seq<VertexId>,
        built: MeshModel,
        fixed: MeshModel,
    ) -> bool {
        &&& ids.len() == positions.len()
        &&& ids.no_duplicates()
        &&& Self::of_vertices(ids, positions, ids.len()).triangles_built(ids, indices, indices.len() / 3, built)
        &&& built.boundary_preferred(fixed)
        &&& fixed.recounted(self)
    }

    /// The three corners that the normal of the live face `f` is taken from: the start
    /// and the end of its representative halfedge and the end of the halfedge after
    /// that. Nothing where a link is missing.
    pub open spec fn normal_corners(self, f: FaceId) -> Option<(VertexId, VertexId, VertexId)> {
        if self.faces.dom().contains(f) && self.halfedges.dom().contains(self.faces[f].halfedge) {
            let first = self.halfedges[self.faces[f].halfedge];
            if first.next is Some && self.halfedges.dom().contains(first.next->0) && self.start_vertex_of(first) is Some {
                Some((self.start_vertex_of(first)->0, first.end_vertex, self.halfedges[first.next->0].end_vertex))
            } else {
                None
            }
        } else {
            None
        }
    }

    /// The table of sums with `part` added to the entry of the live vertex `v`: to what
    /// the entry held, or to nought where there was none.
    pub open spec fn added_to(self, sums: Map<VertexId, glam::Vec3>, v: VertexId, part: glam::Vec3) -> Map<VertexId, glam::Vec3> {
        if self.vertices.dom().contains(v) {
            sums.insert(
                v,
                if sums.dom().contains(v) {
                    vec3_sum(sums[v], part)
                } else {
                    vec3_sum_from_nought(part)
                },
            )
        } else {
            sums
        }
    }

    /// The table of sums with the normal of the face `f` added to the entries of its
    /// three corners, one after the other. The normal is the cross product of the
    /// sides from the first and from the second corner to the third; it is not
    /// normalized. Nothing is added where a corner or its position is not found.
    pub open spec fn face_summed(self, sums: Map<VertexId, glam::Vec3>, f: FaceId) -> Map<VertexId, glam::Vec3> {
        match self.normal_corners(f) {
            Some(corners) => if self.positions.dom().contains(corners.0) && self.positions.dom().contains(corners.1) && self.positions.dom().contains(
                corners.2,
            ) {
                let normal = vec3_cross(
                    vec3_difference(self.positions[corners.2], self.positions[corners.0]),
                    vec3_difference(self.positions[corners.2], self.positions[corners.1]),
                );
                self.added_to(self.added_to(self.added_to(sums, corners.0, normal), corners.1, normal), corners.2, normal)
            } else {
                sums
            },
            None => sums,
        }
    }

    /// The table of the sums of the normals of the first `n` faces of `order`.
    pub open spec fn normal_sums(self, order: Seq<FaceId>, n: nat) -> Map<VertexId, glam::Vec3>
        decreases n,
    {
        if n == 0 || n > order.len() {
            Map::empty()
        } else {
            self.face_summed(self.normal_sums(order, (n - 1) as nat), order[n - 1])
        }
    }

    /// Whether `normals` are the vertex normals of this mesh, summed over its faces in
    /// the order `order`, which names every live face once: for every vertex that is a
    /// corner of a face, the normalized sum of the normals of its faces.
    pub open spec fn normals_summed(self, order: Seq<FaceId>, normals: Map<VertexId, glam::Vec3>) -> bool {
        &&& order.no_duplicates()
        &&& order.to_set() == self.faces.dom()
        &&& normals.dom() == self.normal_sums(order, order.len()).dom()
        &&& forall|v: VertexId| #[trigger] normals.dom().contains(v) ==> normals[v] == vec3_normalized(self.normal_sums(order, order.len())[v])
    }

    /// Whether this mesh has been built from the loose triangles on `positions`: near
    /// positions are merged, which gives `unique` and `indices`, and the mesh is built
    /// from these.
    pub open spec fn built_from_loose(
        self,
        positions: Seq<glam::Vec3>,
        unique: Seq<glam::Vec3>,
        indices: Seq<usize>,
        ids: Seq<VertexId>,
        built: MeshModel,
        fixed: MeshModel,
    ) -> bool {
        merged_positions(positions, unique, indices) && self.built_from(unique, indices, ids, built, fixed)
    }

    /// Whether `ids` are the vertices of this mesh, in the order of `positions`: one
    /// vertex for each position, at that position, and no other vertex.
    pub open spec fn placed_at(self, ids: Seq<VertexId>, positions: Seq<glam::Vec3>) -> bool {
        &&& ids.len() == positions.len()
        &&& ids.no_duplicates()
        &&& ids.to_set() == self.vertices.dom()
        &&& forall|i: int| 0 <= i < ids.len() ==> self.positions[#[trigger] ids[i]] == positions[i]
    }
}

/// What filing the first `n` triangles makes does not depend on what comes behind them
/// in the list.
pub proof fn lemma_filed_from_grows(triangles: Seq<SlotTriangle>, more: SlotTriangle, n: nat)
    requires
        n <= triangles.len(),
    ensures
        crate::spatial::filed_from(triangles.push(more), n) == crate::spatial::filed_from(triangles, n),
    decreases n,
{
    if n > 0 {
        lemma_filed_from_grows(triangles, more, (n - 1) as nat);
        assert(triangles.push(more)[n - 1] == triangles[n - 1]);
    }
}

/// The mesh of the first `n` vertices does not depend on what comes behind them in the
/// list of vertices.
pub proof fn lemma_of_vertices_grows(ids: Seq<VertexId>, id: VertexId, positions: Seq<glam::Vec3>, n: nat)
    requires
        n <= ids.len(),
    ensures
        MeshModel::of_vertices(ids.push(id), positions, n) == MeshModel::of_vertices(ids, positions, n),
    decreases n,
{
    if n > 0 {
        lemma_of_vertices_grows(ids, id, positions, (n - 1) as nat);
        assert(ids.push(id)[n - 1] == ids[n - 1]);
    }
}

impl MeshGraph {
    /// Builds a mesh from positions and triangles over them.
    ///
    /// One vertex is made for each position. Every three indices name a triangle; a
    /// triangle that names a vertex twice is left out, and indices behind the last full
    /// three are not looked at. The edges of a triangle are found or made and the face
    /// is put on them. At the end the canonical outgoing halfedge of every vertex on
    /// the boundary is moved to the boundary, and the spatial index is built.
    #[verifier::rlimit(50)]
    pub fn indexed_triangles(vertex_positions: &Vec<glam::Vec3>, face_indices: &Vec<usize>) -> (mesh: MeshGraph)
        requires
            vertex_positions@.len() <= ARENA_LIMIT,
            2 * face_indices@.len() <= ARENA_LIMIT,
            forall|i: int| 0 <= i < face_indices@.len() ==> #[trigger] face_indices@[i] < vertex_positions@.len(),
        ensures
            mesh.wf(),
            exists|ids: Seq<VertexId>, built: MeshModel, fixed: MeshModel| #[trigger] mesh@.built_from(vertex_positions@, face_indices@, ids, built, fixed),
            exists|order: Seq<FaceId>| #[trigger] mesh@.bounds_filed(order, mesh.filed()),
            exists|ids: Seq<VertexId>| #[trigger] mesh@.placed_at(ids, vertex_positions@),
            mesh@.vertices.dom().len() == vertex_positions@.len(),
            mesh@.faces.dom().len() == proper_triples(face_indices@, face_indices@.len() / 3),
            mesh@.slots.len() == mesh@.faces.dom().len(),
            mesh@.normals is None,
    {
        let mut mesh = MeshGraph::new();
        let mut vertex_ids: Vec<VertexId> = Vec::new();
        proof {
            assert(vertex_ids@.to_set() =~= mesh@.vertices.dom());
            assert(vertex_positions@.take(0) =~= Seq::<glam::Vec3>::empty());
        }
        let mut i: usize = 0;
        while i < vertex_positions.len()
            invariant
                i <= vertex_positions.len(),
                vertex_positions@.len() <= ARENA_LIMIT,
                mesh.wf(),
                vertex_ids@.len() == i,
                mesh@.halfedges.dom().len() == 0,
                mesh@.faces.dom().len() == 0,
                mesh@.slots.len() == 0,
                mesh@.normals is None,
                mesh@.vertices.dom().len() == i,
                mesh@.placed_at(vertex_ids@, vertex_positions@.take(i as int)),
                mesh@ == MeshModel::of_vertices(vertex_ids@, vertex_positions@, i as nat),
            decreases vertex_positions.len() - i,
        {
            let ghost before = mesh@;
            let ghost earlier = vertex_ids@;
            let id = mesh.insert_vertex(copy_point(&vertex_positions[i]));
            vertex_ids.push(id);
            proof {
                crate::idset::lemma_push_to_set(earlier, id);
                assert(mesh@.vertices.dom() =~= before.vertices.dom().insert(id));
                assert(!earlier.contains(id)) by {
                    if earlier.contains(id) {
                        assert(earlier.to_set().contains(id));
                    }
                }
                assert(vertex_ids@.no_duplicates());
                lemma_of_vertices_grows(earlier, id, vertex_positions@, i as nat);
                assert(vertex_positions@.take(i as int + 1) =~= vertex_positions@.take(i as int).push(vertex_positions@[i as int]));
                assert forall|k: int| 0 <= k < vertex_ids@.len() implies mesh@.positions[#[trigger] vertex_ids@[k]] == vertex_positions@.take(i as int + 1)[k] by {
                    if k < i {
                        assert(vertex_ids@[k] == earlier[k]);
                        assert(earlier.to_set().contains(earlier[k]));
                    }
                }
            }
            i = i + 1;
        }
        proof {
            assert(vertex_positions@.take(vertex_positions@.len() as int) =~= vertex_positions@);
        }
        let triangles = face_indices.len() / 3;
        let ghost start = mesh@;
        let mut t: usize = 0;
        while t < triangles
            invariant
                t <= triangles,
                start.triangles_built(vertex_ids@, face_indices@, t as nat, mesh@),
                triangles == face_indices@.len() / 3,
                2 * face_indices@.len() <= ARENA_LIMIT,
                forall|i: int| 0 <= i < face_indices@.len() ==> #[trigger] face_indices@[i] < vertex_positions@.len(),
                mesh.wf(),
                vertex_ids@.len() == vertex_positions@.len(),
                mesh@.normals is None,
                mesh@.placed_at(vertex_ids@, vertex_positions@),
                mesh@.vertices.dom().len() == vertex_positions@.len(),
                mesh@.halfedges.dom().len() <= 6 * t,
                mesh@.faces.dom().len() == proper_triples(face_indices@, t as nat),
                mesh@.faces.dom().len() <= t,
                mesh@.slots.len() == mesh@.faces.dom().len(),
            decreases triangles - t,
        {
            let ia = face_indices[3 * t];
            let ib = face_indices[3 * t + 1];
            let ic = face_indices[3 * t + 2];
            let a = vertex_ids[ia];
            let b = vertex_ids[ib];
            let c = vertex_ids[ic];
            proof {
                assert((a == b) == (ia == ib));
                assert((b == c) == (ib == ic));
                assert((c == a) == (ic == ia));
            }
            let ghost mid = mesh@;
            if !(a == b || b == c || c == a) {
                let ghost before = mesh@;
                proof {
                    assert(6 * (t + 1) <= 2 * face_indices@.len()) by (nonlinear_arith)
                        requires
                            t < triangles,
                            triangles == face_indices@.len() / 3,
                    ;
                }
                mesh.create_face_from_vertices(a, b, c);
                proof {
                    assert forall|k: int| 0 <= k < vertex_ids@.len() implies mesh@.positions[#[trigger] vertex_ids@[k]] == vertex_positions@[k] by {
                        assert(before.positions[vertex_ids@[k]] == vertex_positions@[k]);
                    }
                    assert(before.triangle_added(a, b, c, mesh@));
                }
            }
            proof {
                let n = (t + 1) as nat;
                assert(proper_triple(face_indices@, 3 * (n - 1)) == !(a == b || b == c || c == a));
                assert(start.triangles_built(vertex_ids@, face_indices@, (n - 1) as nat, mid));
                assert(mid.triple_built(vertex_ids@, face_indices@, n - 1, mesh@));
                assert(start.triangles_built(vertex_ids@, face_indices@, n, mesh@));
            }
            t = t + 1;
        }
        let ghost built = mesh@;
        mesh.make_all_outgoing_halfedges_boundary_if_possible();
        let ghost fixed = mesh@;
        mesh.rebuild_qbvh();
        proof {
            assert(mesh@.placed_at(vertex_ids@, vertex_positions@));
            assert(mesh@.built_from(vertex_positions@, face_indices@, vertex_ids@, built, fixed));
        }
        mesh
    }

    /// Builds a mesh from loose triangles: every three positions are one triangle, and
    /// positions that lie within the merge distance of one another become one vertex.
    pub fn triangles(vertex_positions: &Vec<glam::Vec3>) -> (mesh: MeshGraph)
        requires
            vertex_positions@.len() % 3 == 0,
            2 * vertex_positions@.len() <= ARENA_LIMIT,
        ensures
            mesh.wf(),
            exists|unique: Seq<glam::Vec3>, indices: Seq<usize>, ids: Seq<VertexId>| #[trigger] merged_positions(vertex_positions@, unique, indices)
                && #[trigger] mesh@.placed_at(ids, unique) && mesh@.faces.dom().len() == proper_triples(indices, indices.len() / 3),
            exists|unique: Seq<glam::Vec3>, indices: Seq<usize>, ids: Seq<VertexId>, built: MeshModel, fixed: MeshModel| #[trigger]
                mesh@.built_from_loose(vertex_positions@, unique, indices, ids, built, fixed),
            exists|order: Seq<FaceId>| #[trigger] mesh@.bounds_filed(order, mesh.filed()),
            mesh@.slots.len() == mesh@.faces.dom().len(),
            mesh@.normals is None,
    {
        let (unique_positions, face_indices) = merge_near_positions(vertex_positions);
        let mesh = MeshGraph::indexed_triangles(&unique_positions, &face_indices);
        proof {
            let (made, built, fixed) = choose|made: Seq<VertexId>, built: MeshModel, fixed: MeshModel| #[trigger]
                mesh@.built_from(unique_positions@, face_indices@, made, built, fixed);
            assert(mesh@.built_from_loose(vertex_positions@, unique_positions@, face_indices@, made, built, fixed));
            let ids = choose|ids: Seq<VertexId>| #[trigger] mesh@.placed_at(ids, unique_positions@);
            assert(merged_positions(vertex_positions@, unique_positions@, face_indices@) && mesh@.placed_at(ids, unique_positions@));
        }
        mesh
    }

    /// Computes a normal for every vertex that is a corner of a live face: the sum of
    /// the cross products of two edges of each such face, normalized. The faces are
    /// summed in the order in which the arena hands them out, which is not stated, so
    /// the last bits of a normal are not either. Nothing but the normals changes.
    pub fn compute_vertex_normals(&mut self)
        requires
            old(self).wf(),
        ensures
            final(self).wf(),
            final(self)@.normals is Some,
            final(self)@ == (MeshModel { normals: final(self)@.normals, ..old(self)@ }),
            exists|order: Seq<FaceId>| #[trigger] old(self)@.normals_summed(order, final(self)@.normals->0),
    {
        let mut normals = VectorMap::new();
        let face_ids = self.face_ids();
        let mut i: usize = 0;
        while i < face_ids.len()
            invariant
                i <= face_ids.len(),
                self.wf(),
                self@ == old(self)@,
                crate::secondary::vector_slots(normals).dom().subset_of(self@.vertices.dom()),
                crate::secondary::vector_slots(normals) == self@.normal_sums(face_ids@, i as nat),
            decreases face_ids.len() - i,
        {
            match self.face_corners_for_normal(face_ids[i]) {
                Some((a, b, c)) => {
                    match (self.position(a), self.position(b), self.position(c)) {
                        (Some(pa), Some(pb), Some(pc)) => {
                            let diff_a = difference(&pc, &pa);
                            let diff_b = difference(&pc, &pb);
                            let face_normal = cross(&diff_a, &diff_b);
                            self.accumulate(&mut normals, a, &face_normal);
                            self.accumulate(&mut normals, b, &face_normal);
                            self.accumulate(&mut normals, c, &face_normal);
                        },
                        _ => {},
                    }
                },
                None => {},
            }
            proof {
                let n = (i + 1) as nat;
                assert(self@.normal_sums(face_ids@, n) == self@.face_summed(self@.normal_sums(face_ids@, (n - 1) as nat), face_ids@[n - 1]));
            }
            i = i + 1;
        }
        self.vertex_normals = Some(normals);
        self.normalize_vertex_normals();
        proof {
            assert(old(self)@.normals_summed(face_ids@, self@.normals->0));
        }
    }

    /// The start and the end of the representative halfedge of a face, and the end of
    /// the halfedge after it.
    pub(crate) fn face_corners_for_normal(&self, face_id: FaceId) -> (corners: Option<(VertexId, VertexId, VertexId)>)
        requires
            self.wf(),
        ensures
            corners == self@.normal_corners(face_id),
    {
        let face = match self.face(face_id) {
            Some(face) => face,
            None => {
                return None;
            },
        };
        let he_a = match self.halfedge(face.halfedge) {
            Some(he) => he,
            None => {
                return None;
            },
        };
        let he_b = match he_a.next {
            Some(next) => match self.halfedge(next) {
                Some(he) => he,
                None => {
                    return None;
                },
            },
            None => {
                return None;
            },
        };
        match he_a.start_vertex(self) {
            Some(a) => Some((a, he_a.end_vertex, he_b.end_vertex)),
            None => None,
        }
    }

    /// Adds `part` to the entry of a live vertex in a table of sums.
    pub(crate) fn accumulate(&self, sums: &mut VectorMap, vertex_id: VertexId, part: &glam::Vec3)
        requires
            self.wf(),
            crate::secondary::vector_slots(*old(sums)).dom().subset_of(self@.vertices.dom()),
        ensures
            crate::secondary::vector_slots(*final(sums)).dom().subset_of(self@.vertices.dom()),
            crate::secondary::vector_slots(*final(sums)) == self@.added_to(crate::secondary::vector_slots(*old(sums)), vertex_id, *part),
    {
        if self.vertex(vertex_id).is_none() {
            return ;
        }
        let total = match sums.get(vertex_id) {
            Some(so_far) => sum(&so_far, part),
            None => sum_from_nought(part),
        };
        sums.insert(vertex_id, total);
    }

    /// Normalizes every stored vertex normal. Nothing happens where no normals are
    /// kept; nothing but the normals changes.
    #[verifier::rlimit(50)]
    pub fn normalize_vertex_normals(&mut self)
        requires
            old(self).wf(),
        ensures
            final(self).wf(),
            final(self)@ == (MeshModel { normals: final(self)@.normals, ..old(self)@ }),
            old(self)@.normals is None ==> final(self)@.normals is None,
            old(self)@.normals is Some ==> final(self)@.normals is Some && final(self)@.normals->0.dom() == old(self)@.normals->0.dom()
                && forall|v: VertexId| #[trigger] final(self)@.normals->0.dom().contains(v) ==> final(self)@.normals->0[v] == crate::geometry::vec3_normalized(
                old(self)@.normals->0[v],
            ),
    {
        match &mut self.vertex_normals {
            Some(table) => {
                let ghost start = crate::secondary::vector_slots(*table);
                let ids = table.keys();
                let mut i: usize = 0;
                while i < ids.len()
                    invariant
                        i <= ids.len(),
                        ids@.no_duplicates(),
                        ids@.to_set() == start.dom(),
                        crate::secondary::vector_slots(*table).dom() == start.dom(),
                        forall|v: VertexId| start.dom().contains(v) ==> v.canonical() && v.slot() != crate::ids::SLOT_MASK,
                        forall|v: VertexId, w: VertexId| start.dom().contains(v) && start.dom().contains(w) && v.slot() == w.slot() ==> v == w,
                        forall|k: int| 0 <= k < i ==> crate::secondary::vector_slots(*table)[#[trigger] ids@[k]] == crate::geometry::vec3_normalized(
                            start[ids@[k]],
                        ),
                        forall|k: int| i <= k < ids@.len() ==> crate::secondary::vector_slots(*table)[#[trigger] ids@[k]] == start[ids@[k]],
                    decreases ids.len() - i,
                {
                    proof {
                        assert(ids@.to_set().contains(ids@[i as int]));
                    }
                    match table.get(ids[i]) {
                        Some(normal) => {
                            table.insert(ids[i], normalized(&normal));
                            proof {
                                assert(crate::secondary::vector_slots(*table).dom() =~= start.dom());
                                assert forall|k: int| 0 <= k < i implies crate::secondary::vector_slots(*table)[#[trigger] ids@[k]] == crate::geometry::vec3_normalized(
                                    start[ids@[k]],
                                ) by {
                                    assert(ids@[k] != ids@[i as int]);
                                }
                            }
                        },
                        None => {},
                    }
                    i = i + 1;
                }
                proof {
                    assert forall|v: VertexId| #[trigger] crate::secondary::vector_slots(*table).dom().contains(v) implies crate::secondary::vector_slots(
                        *table,
                    )[v] == crate::geometry::vec3_normalized(start[v]) by {
                        assert(ids@.to_set().contains(v));
                        let k = choose|k: int| 0 <= k < ids@.len() && ids@[k] == v;
                        assert(ids@[k] == v);
                    }
                }
            },
            None => {},
        }
    }

    /// One round of incremental rebalancing of the spatial index. The mesh itself does
    /// not change.
    pub fn rebalance_qbvh(&mut self)
        ensures
            final(self)@ == old(self)@,
            final(self).filed() == old(self).filed(),
    {
        self.bvh.optimize();
    }

    /// Recomputes the boxes of the spatial index from its leaves. To be called after
    /// positions have moved and before the index is asked again. The mesh itself does
    /// not change.
    pub fn refit_qbvh(&mut self)
        ensures
            final(self)@ == old(self)@,
            final(self).filed() == old(self).filed(),
    {
        self.bvh.refit();
    }

    /// The corners of the face that was given `slot` in the spatial index, where the
    /// face is live and its three corner positions are found.
    pub fn triangle(&self, slot: u32) -> (corners: Option<SlotTriangle>)
        requires
            self.wf(),
        ensures
            corners == (if (slot as int) < self@.slots.len() && self@.faces.dom().contains(self@.slots[slot as int]) && self@.face_positions(
                self@.faces[self@.slots[slot as int]],
            ).len() >= 3 {
                let positions = self@.face_positions(self@.faces[self@.slots[slot as int]]);
                Some(SlotTriangle { slot, a: positions[0], b: positions[1], c: positions[2] })
            } else {
                None
            }),
    {
        let face_id = match self.face_of_slot(slot) {
            Some(face_id) => face_id,
            None => {
                return None;
            },
        };
        let face = match self.face(face_id) {
            Some(face) => face,
            None => {
                return None;
            },
        };
        let positions = face.vertex_positions(self);
        if positions.len() < 3 {
            return None;
        }
        Some(SlotTriangle { slot, a: copy_point(&positions[0]), b: copy_point(&positions[1]), c: copy_point(&positions[2]) })
    }

    /// Gives the live faces new slots, one after the other from nought in the order in
    /// which the arena hands the faces out, and forgets the slots of faces that are
    /// gone.
    pub(crate) fn recount_faces(&mut self)
        requires
            old(self).wf(),
        ensures
            final(self).wf(),
            old(self)@.recounted(final(self)@),
    {
        let ids = self.face_ids();
        self.index_to_face_id = Vec::new();
        let mut k: usize = 0;
        proof {
            ids@.unique_seq_to_set();
        }
        while k < ids.len()
            invariant
                k <= ids.len(),
                old(self).wf(),
                ids@.no_duplicates(),
                ids@.to_set() == old(self)@.faces.dom(),
                ids@.len() == old(self)@.faces.dom().len(),
                self@ == (MeshModel { faces: self@.faces, slots: self@.slots, ..old(self)@ }),
                self@.faces.dom() == old(self)@.faces.dom(),
                self@.slots == ids@.take(k as int),
                forall|j: int| 0 <= j < k ==> self@.faces[#[trigger] ids@[j]] == (Face { halfedge: old(self)@.faces[ids@[j]].halfedge, index: j as u32, id: ids@[j] }),
                forall|j: int| k <= j < ids@.len() ==> self@.faces[#[trigger] ids@[j]] == old(self)@.faces[ids@[j]],
            decreases ids.len() - k,
        {
            let id = ids[k];
            proof {
                assert(ids@.to_set().contains(id));
            }
            match self.faces.get(id) {
                Some(face) => {
                    let ghost before = self@;
                    self.faces.set(id, Face { halfedge: face.halfedge, index: k as u32, id });
                    self.index_to_face_id.push(id);
                    proof {
                        assert(self@.faces.dom() =~= before.faces.dom());
                        assert(self@.slots =~= ids@.take(k + 1));
                        assert forall|j: int| 0 <= j < k + 1 implies self@.faces[#[trigger] ids@[j]] == (Face {
                            halfedge: old(self)@.faces[ids@[j]].halfedge,
                            index: j as u32,
                            id: ids@[j],
                        }) by {
                            if j < k {
                                assert(ids@[j] != ids@[k as int]);
                            }
                        }
                        assert forall|j: int| k + 1 <= j < ids@.len() implies self@.faces[#[trigger] ids@[j]] == old(self)@.faces[ids@[j]] by {
                            assert(ids@[j] != ids@[k as int]);
                        }
                    }
                },
                None => {
                    proof {
                        assert(false);
                    }
                },
            }
            k = k + 1;
        }
        proof {
            assert(self@.slots =~= ids@);
            assert forall|f: FaceId| #[trigger] self@.faces.dom().contains(f) implies {
                &&& self@.faces[f].id == f
                &&& (self@.faces[f].index as int) < self@.slots.len()
                &&& self@.slots[self@.faces[f].index as int] == f
                &&& self@.faces[f].halfedge == old(self)@.faces[f].halfedge
            } by {
                assert(ids@.to_set().contains(f));
                let j = choose|j: int| 0 <= j < ids@.len() && ids@[j] == f;
                assert(self@.faces[ids@[j]].index == j as u32);
            }
        }
    }

    /// Builds the spatial index anew: the live faces are given new slots, and the
    /// bounding box of every live face whose three corner positions are found is filed
    /// under its slot. Nothing else changes.
    pub fn rebuild_qbvh(&mut self)
        requires
            old(self).wf(),
        ensures
            final(self).wf(),
            old(self)@.recounted(final(self)@),
            exists|order: Seq<FaceId>| #[trigger] final(self)@.bounds_filed(order, final(self).filed()),
    {
        self.recount_faces();
        let face_ids = self.face_ids();
        let mut triangles: Vec<SlotTriangle> = Vec::new();
        let mut i: usize = 0;
        let ghost recounted = self@;
        while i < face_ids.len()
            invariant
                i <= face_ids.len(),
                self.wf(),
                self@ == recounted,
                old(self)@.recounted(self@),
                face_ids@.no_duplicates(),
                face_ids@.to_set() == self@.faces.dom(),
                crate::spatial::filed_from(triangles@, triangles@.len()) == self@.all_bounds(face_ids@, i as nat),
            decreases face_ids.len() - i,
        {
            let ghost before = triangles@;
            match self.face(face_ids[i]) {
                Some(face) => {
                    let positions = face.vertex_positions(self);
                    if positions.len() >= 3 {
                        triangles.push(
                            SlotTriangle { slot: face.index, a: copy_point(&positions[0]), b: copy_point(&positions[1]), c: copy_point(&positions[2]) },
                        );
                        proof {
                            lemma_filed_from_grows(before, triangles@[before.len() as int], before.len());
                            assert(triangles@ =~= before.push(triangles@[before.len() as int]));
                        }
                    }
                },
                None => {},
            }
            proof {
                let n = (i + 1) as nat;
                assert(self@.all_bounds(face_ids@, n) == self@.with_bounds(self@.all_bounds(face_ids@, (n - 1) as nat), face_ids@[n - 1]));
            }
            i = i + 1;
        }
        self.bvh.rebuild(triangles);
        proof {
            assert(self@.bounds_filed(face_ids@, self.filed()));
        }
    }
}

} // verus!
