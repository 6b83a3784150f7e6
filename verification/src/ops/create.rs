//! Building faces.

use vstd::prelude::*;
use crate::ids::{FaceId, HalfedgeId, VertexId};
use crate::mesh::{MeshGraph, MeshModel};
use crate::ops::insert::InsertOrGetEdge;
use crate::traverse::{lemma_triangle_corners, lemma_triangle_walk};

verus! {

/// What a face builder made.
pub struct CreateFace {
    /// The new face.
    pub face_id: FaceId,
    /// The halfedges that were made for it, in the order in which they were made.
    pub halfedge_ids: Vec<HalfedgeId>,
    /// The vertices that were made for it, in the order in which they were made.
    pub vertex_ids: Vec<VertexId>,
}

/// Two halfedges to run round a new face, and the ends of the edge that closes the
/// triangle behind them.
pub struct BridgePlan {
    pub first: HalfedgeId,
    pub second: HalfedgeId,
    pub from: VertexId,
    pub to: VertexId,
}

impl MeshModel {
    /// The side of the edge of `he` on which a face can still be put: `he` itself where
    /// it has no face, else its twin where that has none.
    pub open spec fn boundary_of(self, he: HalfedgeId) -> Option<HalfedgeId> {
        match self.halfedges.get(he) {
            Some(h) => if h.face is None {
                Some(he)
            } else {
                match h.twin {
                    Some(twin) => match self.halfedges.get(twin) {
                        Some(t) => if t.face is None {
                            Some(twin)
                        } else {
                            None
                        },
                        None => None,
                    },
                    None => None,
                }
            },
            None => None,
        }
    }

    /// `v1` and `v2` in the order in which the boundary side of their edge runs:
    /// swapped where the halfedge from `v1` to `v2` has a face.
    pub open spec fn boundary_order(self, v1: VertexId, v2: VertexId) -> Seq<VertexId> {
        match self.halfedge_from_to(v1, v2) {
            Some(he) => if self.halfedges[he].face is None {
                seq![v1, v2]
            } else {
                seq![v2, v1]
            },
            None => seq![v1, v2],
        }
    }

    /// What is filed in the spatial index once the bounding box of the face `f` has been
    /// filed anew: the box round the first three corner positions of the face, under the
    /// slot of the face, in place of what was filed there. Nothing changes where the
    /// face is not live or fewer than three corner positions are found.
    pub open spec fn with_bounds(self, filed: Map<u32, parry3d::bounding_volume::Aabb>, f: FaceId) -> Map<u32, parry3d::bounding_volume::Aabb> {
        if self.faces.dom().contains(f) && self.face_positions(self.faces[f]).len() >= 3 {
            let corners = self.face_positions(self.faces[f]);
            filed.insert(self.faces[f].index, crate::spatial::triangle_box(corners[0], corners[1], corners[2]))
        } else {
            filed
        }
    }

    /// Whether every live halfedge ends at a live vertex.
    pub open spec fn ends_are_live(self) -> bool {
        forall|he: HalfedgeId| #[trigger] self.halfedges.dom().contains(he) ==> self.vertices.dom().contains(self.halfedges[he].end_vertex)
    }

    /// Whether every halfedge in a list of outgoing halfedges is live.
    pub open spec fn lists_are_live(self) -> bool {
        forall|v: VertexId, i: int| #[trigger] self.vertices.dom().contains(v) && 0 <= i < self.outgoing[v].len() ==> self.halfedges.dom().contains(#[trigger] self.outgoing[v][i])
    }

    /// Whether `after` is this mesh with the triangle `v1`, `v2`, `v3` put in: the three
    /// edges found or made in that order, as `e1`, `e2`, `e3` say, and the new face
    /// `face` on the halfedges from `v1` to `v2`, from `v2` to `v3` and from `v3` to `v1`;
    /// and whether `created` lists the halfedges that were made, in that order.
    pub open spec fn triangle_made(
        self,
        v1: VertexId,
        v2: VertexId,
        v3: VertexId,
        e1: InsertOrGetEdge,
        e2: InsertOrGetEdge,
        e3: InsertOrGetEdge,
        face: FaceId,
        after: MeshModel,
        created: Seq<HalfedgeId>,
    ) -> bool {
        let m1 = self.with_edge(v1, v2, e1);
        let m2 = m1.with_edge(v2, v3, e2);
        let m3 = m2.with_edge(v3, v1, e3);
        &&& self.edge_found_or_made(v1, v2, e1)
        &&& m1.edge_found_or_made(v2, v3, e2)
        &&& m2.edge_found_or_made(v3, v1, e3)
        &&& !m3.faces.dom().contains(face)
        &&& after == m3.add_face(face, e1.start_to_end_he_id, e2.start_to_end_he_id, e3.start_to_end_he_id)
        &&& created == e1.created() + e2.created() + e3.created()
    }

    /// Whether `after` is this mesh with a face put on the boundary halfedge `base`,
    /// which runs from `start` to `end`, and on the two edges that join it to `apex`,
    /// found or made as `e2` and `e3` say; and whether `created` lists the halfedges
    /// that were made, in that order.
    pub open spec fn attached(
        self,
        base: HalfedgeId,
        start: VertexId,
        end: VertexId,
        apex: VertexId,
        e2: InsertOrGetEdge,
        e3: InsertOrGetEdge,
        face: FaceId,
        after: MeshModel,
        created: Seq<HalfedgeId>,
    ) -> bool {
        let m1 = self.with_edge(end, apex, e2);
        let m2 = m1.with_edge(apex, start, e3);
        &&& self.edge_found_or_made(end, apex, e2)
        &&& m1.edge_found_or_made(apex, start, e3)
        &&& !m2.faces.dom().contains(face)
        &&& after == m2.add_face(face, base, e2.start_to_end_he_id, e3.start_to_end_he_id)
        &&& created == e2.created() + e3.created()
    }

    /// The boundary halfedge on which a face can be put on the edge of `he`, with the
    /// vertices it runs between, where both are found.
    pub open spec fn attach_base(self, he: HalfedgeId) -> Option<(HalfedgeId, VertexId, VertexId)> {
        match self.boundary_of(he) {
            Some(base) => match self.start_vertex_of(self.halfedges[base]) {
                Some(start) => Some((base, start, self.halfedges[base].end_vertex)),
                None => None,
            },
            None => None,
        }
    }

    /// Whether `after` is this mesh with a face put on the two halfedges of `plan` and
    /// on the edge that closes the triangle, found or made as `e` says; and whether
    /// `created` lists the halfedges that were made.
    pub open spec fn bridged(
        self,
        plan: BridgePlan,
        e: InsertOrGetEdge,
        face: FaceId,
        after: MeshModel,
        created: Seq<HalfedgeId>,
    ) -> bool {
        let m1 = self.with_edge(plan.from, plan.to, e);
        &&& self.edge_found_or_made(plan.from, plan.to, e)
        &&& !m1.faces.dom().contains(face)
        &&& after == m1.add_face(face, plan.first, plan.second, e.start_to_end_he_id)
        &&& created == e.created()
    }

    /// Whether `he` is live and has no face.
    pub open spec fn is_free(self, he: Option<HalfedgeId>) -> bool {
        match he {
            Some(id) => self.halfedges.dom().contains(id) && self.halfedges[id].face is None,
            None => false,
        }
    }

    /// How two halfedges are bridged by a triangle, if they can be.
    ///
    /// Each is first replaced by the boundary side of its edge. Where the first starts
    /// at the end of the second, the triangle runs along the second, then the first.
    /// Where the two start at the same vertex, or end at the same vertex, one of them
    /// is run against its direction, on its twin: the second if its twin has no face,
    /// else the first if its twin has none. Where the second starts at the end of the
    /// first, the triangle runs along the first, then the second. Two edges that share
    /// no vertex are not bridged.
    pub open spec fn bridge_plan(self, he1: HalfedgeId, he2: HalfedgeId) -> Option<BridgePlan> {
        match (self.boundary_of(he1), self.boundary_of(he2)) {
            (Some(b1), Some(b2)) => {
                let h1 = self.halfedges[b1];
                let h2 = self.halfedges[b2];
                match (self.start_vertex_of(h1), self.start_vertex_of(h2)) {
                    (Some(s1), Some(s2)) => {
                        let e1 = h1.end_vertex;
                        let e2 = h2.end_vertex;
                        if s1 == e2 {
                            Some(BridgePlan { first: b2, second: b1, from: e1, to: s2 })
                        } else if s1 == s2 {
                            if self.is_free(h2.twin) {
                                Some(BridgePlan { first: h2.twin->0, second: b1, from: e1, to: e2 })
                            } else if self.is_free(h1.twin) {
                                Some(BridgePlan { first: h1.twin->0, second: b2, from: e2, to: e1 })
                            } else {
                                None
                            }
                        } else if e1 == e2 {
                            if self.is_free(h2.twin) {
                                Some(BridgePlan { first: b1, second: h2.twin->0, from: s2, to: s1 })
                            } else if self.is_free(h1.twin) {
                                Some(BridgePlan { first: b2, second: h1.twin->0, from: s1, to: s2 })
                            } else {
                                None
                            }
                        } else if e1 == s2 {
                            Some(BridgePlan { first: b1, second: b2, from: e2, to: s1 })
                        } else {
                            None
                        }
                    },
                    _ => None,
                }
            },
            _ => None,
        }
    }
}

impl MeshGraph {
    /// The side of the edge of `he_id` that has no face yet, if there is one.
    pub fn boundary_he(&self, he_id: HalfedgeId) -> (side: Option<HalfedgeId>)
        requires
            self.wf(),
        ensures
            side == self@.boundary_of(he_id),
    {
        match self.halfedge(he_id) {
            Some(he) => {
                if he.is_boundary() {
                    Some(he_id)
                } else {
                    match he.twin {
                        Some(twin_id) => match self.halfedge(twin_id) {
                            Some(twin) => if twin.is_boundary() {
                                Some(twin_id)
                            } else {
                                None
                            },
                            None => None,
                        },
                        None => None,
                    }
                }
            },
            None => None,
        }
    }

    /// `v1` and `v2` in the order of the boundary side of their edge: as given where
    /// the halfedge from `v1` to `v2` has no face or does not exist, swapped otherwise.
    pub fn boundary_vertex_order(&self, v1: VertexId, v2: VertexId) -> (order: [VertexId; 2])
        requires
            self.wf(),
        ensures
            order@ == self@.boundary_order(v1, v2),
    {
        let found = self.halfedge_from_to(v1, v2);
        proof {
            crate::ops::insert::lemma_first_edge_is_live(self@, v1, v2);
        }
        let order = match found {
            Some(he_id) => match self.halfedge(he_id) {
                Some(he) => if he.is_boundary() {
                    [v1, v2]
                } else {
                    [v2, v1]
                },
                None => [v1, v2],
            },
            None => [v1, v2],
        };
        proof {
            assert(order@ =~= self@.boundary_order(v1, v2));
        }
        order
    }

    /// Files the bounding box of a live face in the spatial index, under the slot of
    /// the face. Nothing is filed where fewer than three corner positions are found.
    pub fn update_face_bounds(&mut self, face_id: FaceId)
        requires
            old(self).wf(),
        ensures
            final(self)@ == old(self)@,
            final(self).filed() == old(self)@.with_bounds(old(self).filed(), face_id),
    {
        match self.face(face_id) {
            Some(face) => {
                let corners = face.vertex_positions(self);
                if corners.len() >= 3 {
                    self.bvh.insert_or_update(face.index, &corners[0], &corners[1], &corners[2]);
                }
            },
            None => {},
        }
    }

    /// Builds a face on three vertices: finds or makes the edges from `v1` to `v2`,
    /// from `v2` to `v3` and from `v3` to `v1`, in that order, and puts the face on
    /// them. Nothing is checked of the side on which the reused edges are free.
    #[verifier::rlimit(50)]
    pub fn create_face_from_vertices(&mut self, v1: VertexId, v2: VertexId, v3: VertexId) -> (made: CreateFace)
        requires
            old(self).wf(),
            old(self)@.has_room(0, 6, 1),
        ensures
            final(self).wf(),
            final(self).filed() == final(self)@.with_bounds(old(self).filed(), made.face_id),
            exists|e1: InsertOrGetEdge, e2: InsertOrGetEdge, e3: InsertOrGetEdge| #[trigger] old(self)@.triangle_made(v1, v2, v3, e1, e2, e3, made.face_id, final(self)@, made.halfedge_ids@),
            made.vertex_ids@.len() == 0,
            made.halfedge_ids@.len() <= 6,
            final(self)@.vertices.dom() == old(self)@.vertices.dom(),
            final(self)@.positions == old(self)@.positions,
            final(self)@.normals == old(self)@.normals,
            old(self)@.halfedges.dom().subset_of(final(self)@.halfedges.dom()),
            final(self)@.halfedges.dom().len() <= old(self)@.halfedges.dom().len() + 6,
            !old(self)@.faces.dom().contains(made.face_id),
            final(self)@.faces.dom() == old(self)@.faces.dom().insert(made.face_id),
            forall|f: FaceId| #[trigger] old(self)@.faces.dom().contains(f) ==> final(self)@.faces[f] == old(self)@.faces[f],
            final(self)@.slots == old(self)@.slots.push(made.face_id),
    {
        let e1 = self.insert_or_get_edge(v1, v2);
        let e2 = self.insert_or_get_edge(v2, v3);
        let e3 = self.insert_or_get_edge(v3, v1);
        let ghost m3 = self@;
        let face_id = self.insert_face(e1.start_to_end_he_id, e2.start_to_end_he_id, e3.start_to_end_he_id);
        proof {
            assert(self@.halfedges.dom() =~= m3.halfedges.dom());
            assert(self@.faces.dom() =~= old(self)@.faces.dom().insert(face_id));
        }
        self.update_face_bounds(face_id);
        let mut halfedge_ids = e1.created_he_ids();
        let mut second = e2.created_he_ids();
        let mut third = e3.created_he_ids();
        halfedge_ids.append(&mut second);
        halfedge_ids.append(&mut third);
        proof {
            assert(halfedge_ids@ =~= e1.created() + e2.created() + e3.created());
            assert(old(self)@.triangle_made(v1, v2, v3, e1, e2, e3, face_id, self@, halfedge_ids@));
        }
        let made = CreateFace { face_id, halfedge_ids, vertex_ids: Vec::new() };
        proof {
            assert(old(self)@.triangle_made(v1, v2, v3, e1, e2, e3, made.face_id, self@, made.halfedge_ids@));
            assert(self@ == final(self)@);
        }
        made
    }

    /// Builds a face on three new vertices at `a`, `b` and `c`.
    #[verifier::rlimit(50)]
    pub fn create_face_from_positions(&mut self, a: glam::Vec3, b: glam::Vec3, c: glam::Vec3) -> (made: CreateFace)
        requires
            old(self).wf(),
            old(self)@.has_room(3, 6, 1),
        ensures
            final(self).wf(),
            made.vertex_ids@.len() == 3,
            made.vertex_ids@.no_duplicates(),
            forall|i: int| 0 <= i < 3 ==> !old(self)@.vertices.dom().contains(#[trigger] made.vertex_ids@[i]),
            exists|e1: InsertOrGetEdge, e2: InsertOrGetEdge, e3: InsertOrGetEdge| #[trigger] old(self)@.add_vertex(made.vertex_ids@[0], a).add_vertex(made.vertex_ids@[1], b).add_vertex(made.vertex_ids@[2], c).triangle_made(
                    made.vertex_ids@[0],
                    made.vertex_ids@[1],
                    made.vertex_ids@[2],
                    e1,
                    e2,
                    e3,
                    made.face_id,
                    final(self)@,
                    made.halfedge_ids@,
                ),
            made.halfedge_ids@.len() == 6,
            forall|i: int| 0 <= i < 6 ==> !old(self)@.halfedges.dom().contains(#[trigger] made.halfedge_ids@[i]),
            final(self)@.faces.dom().contains(made.face_id),
            final(self)@.face_halfedges(final(self)@.faces[made.face_id]) == seq![made.halfedge_ids@[0], made.halfedge_ids@[2], made.halfedge_ids@[4]],
            final(self)@.face_vertices(final(self)@.faces[made.face_id]) == seq![made.vertex_ids@[1], made.vertex_ids@[2], made.vertex_ids@[0]],
            forall|i: int| 0 <= i < 3 ==> final(self)@.vertices.dom().contains(#[trigger] made.vertex_ids@[i])
                && final(self)@.vertices[made.vertex_ids@[i]].outgoing_halfedge is Some,
            final(self)@.vertices.dom().len() == old(self)@.vertices.dom().len() + 3,
            final(self)@.positions.dom().len() == old(self)@.positions.dom().len() + 3,
            final(self)@.halfedges.dom().len() == old(self)@.halfedges.dom().len() + 6,
            final(self)@.faces.dom().len() == old(self)@.faces.dom().len() + 1,
    {
        let a_id = self.insert_vertex(a);
        let b_id = self.insert_vertex(b);
        let c_id = self.insert_vertex(c);
        let ghost base = self@;
        let made = self.create_face_from_vertices(a_id, b_id, c_id);
        proof {
            let (e1, e2, e3) = choose|e1: InsertOrGetEdge, e2: InsertOrGetEdge, e3: InsertOrGetEdge| #[trigger] base.triangle_made(a_id, b_id, c_id, e1, e2, e3, made.face_id, self@, made.halfedge_ids@);
            lemma_new_triangle(base, a_id, b_id, c_id, e1, e2, e3, made.face_id, self@, made.halfedge_ids@);
            assert(base.vertices.dom() =~= old(self)@.vertices.dom().insert(a_id).insert(b_id).insert(c_id));
            assert(self@.positions.dom() =~= self@.vertices.dom());
            assert(old(self)@.positions.dom() =~= old(self)@.vertices.dom());
            assert(base.halfedges == old(self)@.halfedges);
        }
        let mut vertex_ids: Vec<VertexId> = Vec::new();
        vertex_ids.push(a_id);
        vertex_ids.push(b_id);
        vertex_ids.push(c_id);
        let ghost (e1, e2, e3) = choose|e1: InsertOrGetEdge, e2: InsertOrGetEdge, e3: InsertOrGetEdge| #[trigger] base.triangle_made(a_id, b_id, c_id, e1, e2, e3, made.face_id, self@, made.halfedge_ids@);
        let all = CreateFace { face_id: made.face_id, halfedge_ids: made.halfedge_ids, vertex_ids };
        proof {
            assert(base == old(self)@.add_vertex(all.vertex_ids@[0], a).add_vertex(all.vertex_ids@[1], b).add_vertex(all.vertex_ids@[2], c));
            assert(base.triangle_made(all.vertex_ids@[0], all.vertex_ids@[1], all.vertex_ids@[2], e1, e2, e3, all.face_id, self@, all.halfedge_ids@));
            assert(self@ == final(self)@);
        }
        all
    }
    /// Builds a face on the free side of the edge of `he_id` and on the vertex
    /// `vertex_id`: finds or makes the two edges that join the ends of the halfedge to
    /// the vertex, and puts the face on the three. Gives `None`, and changes nothing,
    /// where the edge has a face on both sides or the start of its free side is not
    /// found.
    #[verifier::rlimit(50)]
    pub fn create_face_from_halfedge_and_vertex(&mut self, he_id: HalfedgeId, vertex_id: VertexId) -> (made: Option<CreateFace>)
        requires
            old(self).wf(),
            old(self)@.has_room(0, 4, 1),
        ensures
            final(self).wf(),
            made is Some <==> old(self)@.attach_base(he_id) is Some,
            made is None ==> final(self)@ == old(self)@,
            made is Some ==> {
                let found = old(self)@.attach_base(he_id)->0;
                &&& exists|e2: InsertOrGetEdge, e3: InsertOrGetEdge| #[trigger] old(self)@.attached(found.0, found.1, found.2, vertex_id, e2, e3, made->0.face_id, final(self)@, made->0.halfedge_ids@)
                &&& made->0.vertex_ids@.len() == 0
                &&& made->0.halfedge_ids@.len() <= 4
                &&& final(self)@.vertices.dom() == old(self)@.vertices.dom()
                &&& final(self)@.positions == old(self)@.positions
                &&& final(self)@.normals == old(self)@.normals
                &&& old(self)@.halfedges.dom().subset_of(final(self)@.halfedges.dom())
                &&& final(self)@.halfedges.dom().len() <= old(self)@.halfedges.dom().len() + 4
                &&& !old(self)@.faces.dom().contains(made->0.face_id)
                &&& final(self)@.faces.dom() == old(self)@.faces.dom().insert(made->0.face_id)
                &&& final(self)@.slots == old(self)@.slots.push(made->0.face_id)
            },
    {
        let base = match self.boundary_he(he_id) {
            Some(base) => base,
            None => {
                return None;
            },
        };
        let base_he = match self.halfedge(base) {
            Some(h) => h,
            None => {
                return None;
            },
        };
        let start = match base_he.start_vertex(self) {
            Some(start) => start,
            None => {
                return None;
            },
        };
        let end = base_he.end_vertex;
        let e2 = self.insert_or_get_edge(end, vertex_id);
        let e3 = self.insert_or_get_edge(vertex_id, start);
        let face_id = self.insert_face(base, e2.start_to_end_he_id, e3.start_to_end_he_id);
        proof {
            assert(self@.faces.dom() =~= old(self)@.faces.dom().insert(face_id));
        }
        self.update_face_bounds(face_id);
        let mut halfedge_ids = e2.created_he_ids();
        let mut more = e3.created_he_ids();
        halfedge_ids.append(&mut more);
        let made = CreateFace { face_id, halfedge_ids, vertex_ids: Vec::new() };
        proof {
            assert(made.halfedge_ids@ =~= e2.created() + e3.created());
            let found = old(self)@.attach_base(he_id)->0;
            assert(found == (base, start, end));
            assert(old(self)@.attached(found.0, found.1, found.2, vertex_id, e2, e3, made.face_id, self@, made.halfedge_ids@));
            assert(self@ == final(self)@);
        }
        Some(made)
    }

    /// Builds a face on the free side of the edge of `he_id` and on a new vertex at
    /// `position`. Gives `None`, and changes nothing, where the edge has a face on both
    /// sides or the start of its free side is not found.
    ///
    /// Where every halfedge ends at a live vertex, the lists of outgoing halfedges hold
    /// live halfedges only and the free side of the edge is no loop, the new face costs
    /// one vertex, four halfedges and one face, whichever of the two halfedges of the
    /// edge is given.
    #[verifier::rlimit(50)]
    pub fn create_face_from_halfedge_and_position(&mut self, he_id: HalfedgeId, position: glam::Vec3) -> (made: Option<CreateFace>)
        requires
            old(self).wf(),
            old(self)@.has_room(1, 4, 1),
        ensures
            final(self).wf(),
            made is Some <==> old(self)@.attach_base(he_id) is Some,
            made is None ==> final(self)@ == old(self)@,
            made is Some ==> {
                let found = old(self)@.attach_base(he_id)->0;
                &&& made->0.vertex_ids@.len() == 1
                &&& !old(self)@.vertices.dom().contains(made->0.vertex_ids@[0])
                &&& exists|e2: InsertOrGetEdge, e3: InsertOrGetEdge| #[trigger] old(self)@.add_vertex(made->0.vertex_ids@[0], position).attached(
                        found.0,
                        found.1,
                        found.2,
                        made->0.vertex_ids@[0],
                        e2,
                        e3,
                        made->0.face_id,
                        final(self)@,
                        made->0.halfedge_ids@,
                    )
                &&& made->0.halfedge_ids@.len() <= 4
                &&& final(self)@.vertices.dom() == old(self)@.vertices.dom().insert(made->0.vertex_ids@[0])
                &&& final(self)@.vertices.dom().len() == old(self)@.vertices.dom().len() + 1
                &&& final(self)@.positions.dom().len() == old(self)@.positions.dom().len() + 1
                &&& old(self)@.halfedges.dom().subset_of(final(self)@.halfedges.dom())
                &&& final(self)@.halfedges.dom().len() <= old(self)@.halfedges.dom().len() + 4
                &&& old(self)@.ends_are_live() && old(self)@.lists_are_live() && found.1 != found.2 ==> final(self)@.halfedges.dom().len()
                        == old(self)@.halfedges.dom().len() + 4 && made->0.halfedge_ids@.len() == 4
                &&& !old(self)@.faces.dom().contains(made->0.face_id)
                &&& final(self)@.faces.dom() == old(self)@.faces.dom().insert(made->0.face_id)
                &&& final(self)@.faces.dom().len() == old(self)@.faces.dom().len() + 1
                &&& final(self)@.slots == old(self)@.slots.push(made->0.face_id)
            },
    {
        let base = match self.boundary_he(he_id) {
            Some(base) => base,
            None => {
                return None;
            },
        };
        let base_he = match self.halfedge(base) {
            Some(h) => h,
            None => {
                return None;
            },
        };
        match base_he.start_vertex(self) {
            Some(_) => {},
            None => {
                return None;
            },
        }
        let apex = self.insert_vertex(position);
        let ghost grown = self@;
        proof {
            assert(grown.boundary_of(he_id) == old(self)@.boundary_of(he_id));
            assert(grown.attach_base(he_id) == old(self)@.attach_base(he_id));
        }
        match self.create_face_from_halfedge_and_vertex(he_id, apex) {
            Some(made) => {
                let mut vertex_ids: Vec<VertexId> = Vec::new();
                vertex_ids.push(apex);
                let all = CreateFace { face_id: made.face_id, halfedge_ids: made.halfedge_ids, vertex_ids };
                proof {
                    let found = old(self)@.attach_base(he_id)->0;
                    let b = found.0;
                    let start = found.1;
                    let end = found.2;
                    let (e2, e3) = choose|e2: InsertOrGetEdge, e3: InsertOrGetEdge| #[trigger] grown.attached(found.0, found.1, found.2, apex, e2, e3, made.face_id, self@, made.halfedge_ids@);
                    assert(grown.attached(found.0, found.1, found.2, all.vertex_ids@[0], e2, e3, all.face_id, self@, all.halfedge_ids@));
                    assert(self@.vertices.dom() =~= old(self)@.vertices.dom().insert(apex));
                    assert(self@.positions.dom() =~= self@.vertices.dom());
                    assert(old(self)@.positions.dom() =~= old(self)@.vertices.dom());
                    if old(self)@.ends_are_live() && old(self)@.lists_are_live() && start != end {
                        assert(old(self)@.halfedges.dom().contains(b));
                        assert forall|i: int| 0 <= i < grown.outgoing[start].len() implies grown.halfedges.dom().contains(#[trigger] grown.outgoing[start][i]) by {
                            assert(old(self)@.vertices.dom().contains(start));
                            assert(grown.outgoing[start] == old(self)@.outgoing[start]);
                            assert(old(self)@.halfedges.dom().contains(old(self)@.outgoing[start][i]));
                        }
                        assert(old(self)@.vertices.dom().contains(end));
                        assert(old(self)@.halfedges.dom().contains(old(self)@.halfedges[b].twin->0));
                        assert(old(self)@.vertices.dom().contains(start));
                        lemma_edges_to_fresh_vertex(grown, b, start, end, apex, e2, e3, made.face_id, self@, made.halfedge_ids@);
                    }
                    assert(self@ == final(self)@);
                }
                Some(all)
            },
            None => None,
        }
    }

    /// How `he_id1` and `he_id2` are bridged by a triangle, if they can be.
    pub fn plan_bridge(&self, he_id1: HalfedgeId, he_id2: HalfedgeId) -> (plan: Option<BridgePlan>)
        requires
            self.wf(),
        ensures
            plan == self@.bridge_plan(he_id1, he_id2),
    {
        let b1 = match self.boundary_he(he_id1) {
            Some(b) => b,
            None => {
                return None;
            },
        };
        let b2 = match self.boundary_he(he_id2) {
            Some(b) => b,
            None => {
                return None;
            },
        };
        let h1 = match self.halfedge(b1) {
            Some(h) => h,
            None => {
                return None;
            },
        };
        let h2 = match self.halfedge(b2) {
            Some(h) => h,
            None => {
                return None;
            },
        };
        let s1 = match h1.start_vertex(self) {
            Some(s) => s,
            None => {
                return None;
            },
        };
        let s2 = match h2.start_vertex(self) {
            Some(s) => s,
            None => {
                return None;
            },
        };
        let e1 = h1.end_vertex;
        let e2 = h2.end_vertex;
        if s1 == e2 {
            Some(BridgePlan { first: b2, second: b1, from: e1, to: s2 })
        } else if s1 == s2 {
            if self.is_free(h2.twin) {
                match h2.twin {
                    Some(t2) => Some(BridgePlan { first: t2, second: b1, from: e1, to: e2 }),
                    None => None,
                }
            } else if self.is_free(h1.twin) {
                match h1.twin {
                    Some(t1) => Some(BridgePlan { first: t1, second: b2, from: e2, to: e1 }),
                    None => None,
                }
            } else {
                None
            }
        } else if e1 == e2 {
            if self.is_free(h2.twin) {
                match h2.twin {
                    Some(t2) => Some(BridgePlan { first: b1, second: t2, from: s2, to: s1 }),
                    None => None,
                }
            } else if self.is_free(h1.twin) {
                match h1.twin {
                    Some(t1) => Some(BridgePlan { first: b2, second: t1, from: s1, to: s2 }),
                    None => None,
                }
            } else {
                None
            }
        } else if e1 == s2 {
            Some(BridgePlan { first: b1, second: b2, from: e2, to: s1 })
        } else {
            None
        }
    }

    /// Whether `he` names a live halfedge without a face.
    pub(crate) fn is_free(&self, he: Option<HalfedgeId>) -> (free: bool)
        requires
            self.wf(),
        ensures
            free == self@.is_free(he),
    {
        match he {
            Some(id) => match self.halfedge(id) {
                Some(h) => h.is_boundary(),
                None => false,
            },
            None => false,
        }
    }

    /// Bridges two boundary edges with a triangle: finds or makes the one edge that is
    /// missing and puts a face on the three. Which halfedges the face runs along is
    /// said by [`MeshModel::bridge_plan`]; it depends on the two edges only, not on
    /// which of their halfedges is given. Gives `None`, and changes nothing, where
    /// there is no plan.
    #[verifier::rlimit(50)]
    pub fn create_face_from_halfedges(&mut self, he_id1: HalfedgeId, he_id2: HalfedgeId) -> (made: Option<CreateFace>)
        requires
            old(self).wf(),
            old(self)@.has_room(0, 2, 1),
        ensures
            final(self).wf(),
            made is Some <==> old(self)@.bridge_plan(he_id1, he_id2) is Some,
            made is None ==> final(self)@ == old(self)@,
            made is Some ==> {
                &&& exists|e: InsertOrGetEdge| #[trigger] old(self)@.bridged(old(self)@.bridge_plan(he_id1, he_id2)->0, e, made->0.face_id, final(self)@, made->0.halfedge_ids@)
                &&& made->0.vertex_ids@.len() == 0
                &&& made->0.halfedge_ids@.len() <= 2
                &&& final(self)@.vertices.dom() == old(self)@.vertices.dom()
                &&& final(self)@.positions == old(self)@.positions
                &&& final(self)@.normals == old(self)@.normals
                &&& old(self)@.halfedges.dom().subset_of(final(self)@.halfedges.dom())
                &&& final(self)@.halfedges.dom().len() <= old(self)@.halfedges.dom().len() + 2
                &&& !old(self)@.faces.dom().contains(made->0.face_id)
                &&& final(self)@.faces.dom() == old(self)@.faces.dom().insert(made->0.face_id)
                &&& final(self)@.faces.dom().len() == old(self)@.faces.dom().len() + 1
                &&& final(self)@.slots == old(self)@.slots.push(made->0.face_id)
            },
    {
        let plan = match self.plan_bridge(he_id1, he_id2) {
            Some(plan) => plan,
            None => {
                return None;
            },
        };
        let e = self.insert_or_get_edge(plan.from, plan.to);
        let face_id = self.insert_face(plan.first, plan.second, e.start_to_end_he_id);
        proof {
            assert(self@.faces.dom() =~= old(self)@.faces.dom().insert(face_id));
        }
        self.update_face_bounds(face_id);
        let halfedge_ids = e.created_he_ids();
        let made = CreateFace { face_id, halfedge_ids, vertex_ids: Vec::new() };
        proof {
            assert(old(self)@.bridged(plan, e, made.face_id, self@, made.halfedge_ids@));
            assert(self@ == final(self)@);
        }
        Some(made)
    }
}

/// A triangle put on three distinct live vertices that have no halfedges yet: all six
/// halfedges are new, the walk round the face yields the three inner ones, and every
/// corner gets a canonical outgoing halfedge.
#[verifier::rlimit(50)]
pub proof fn lemma_new_triangle(
    base: MeshModel,
    a: VertexId,
    b: VertexId,
    c: VertexId,
    e1: InsertOrGetEdge,
    e2: InsertOrGetEdge,
    e3: InsertOrGetEdge,
    face: FaceId,
    after: MeshModel,
    created: Seq<HalfedgeId>,
)
    requires
        base.halfedges.dom().finite(),
        base.outgoing.dom() == base.vertices.dom(),
        base.vertices.dom().contains(a),
        base.vertices.dom().contains(b),
        base.vertices.dom().contains(c),
        a != b,
        b != c,
        c != a,
        base.outgoing[a].len() == 0,
        base.outgoing[b].len() == 0,
        base.outgoing[c].len() == 0,
        base.triangle_made(a, b, c, e1, e2, e3, face, after, created),
    ensures
        created == seq![
            e1.start_to_end_he_id,
            e1.twin_he_id,
            e2.start_to_end_he_id,
            e2.twin_he_id,
            e3.start_to_end_he_id,
            e3.twin_he_id,
        ],
        e1.new_start_to_end && e1.new_twin && e2.new_start_to_end && e2.new_twin && e3.new_start_to_end && e3.new_twin,
        after.halfedges.dom() == base.halfedges.dom().insert(e1.start_to_end_he_id).insert(e1.twin_he_id).insert(
            e2.start_to_end_he_id,
        ).insert(e2.twin_he_id).insert(e3.start_to_end_he_id).insert(e3.twin_he_id),
        after.halfedges.dom().len() == base.halfedges.dom().len() + 6,
        seq![
            e1.start_to_end_he_id,
            e1.twin_he_id,
            e2.start_to_end_he_id,
            e2.twin_he_id,
            e3.start_to_end_he_id,
            e3.twin_he_id,
        ].no_duplicates(),
        !base.halfedges.dom().contains(e1.start_to_end_he_id),
        !base.halfedges.dom().contains(e1.twin_he_id),
        !base.halfedges.dom().contains(e2.start_to_end_he_id),
        !base.halfedges.dom().contains(e2.twin_he_id),
        !base.halfedges.dom().contains(e3.start_to_end_he_id),
        !base.halfedges.dom().contains(e3.twin_he_id),
        after.faces.dom().contains(face),
        after.face_halfedges(after.faces[face]) == seq![e1.start_to_end_he_id, e2.start_to_end_he_id, e3.start_to_end_he_id],
        after.face_vertices(after.faces[face]) == seq![b, c, a],
        after.vertices.dom() == base.vertices.dom(),
        after.vertices[a].outgoing_halfedge is Some,
        after.vertices[b].outgoing_halfedge is Some,
        after.vertices[c].outgoing_halfedge is Some,
{
    let h_ab = e1.start_to_end_he_id;
    let t_ab = e1.twin_he_id;
    let h_bc = e2.start_to_end_he_id;
    let t_bc = e2.twin_he_id;
    let h_ca = e3.start_to_end_he_id;
    let t_ca = e3.twin_he_id;
    crate::ops::insert::lemma_no_edge_from_empty_list(base, a, b);
    crate::ops::insert::lemma_no_edge_from_empty_list(base, b, a);
    let m1 = base.with_edge(a, b, e1);
    crate::ops::insert::lemma_with_new_edge(base, a, b, e1);
    assert(m1.outgoing[b] =~= seq![t_ab]);
    assert(m1.outgoing[a] =~= seq![h_ab]);
    assert(m1.outgoing[c] =~= Seq::<HalfedgeId>::empty());
    crate::ops::insert::lemma_no_edge_from_single(m1, b, c, t_ab);
    crate::ops::insert::lemma_no_edge_from_empty_list(m1, c, b);
    let m2 = m1.with_edge(b, c, e2);
    crate::ops::insert::lemma_with_new_edge(m1, b, c, e2);
    assert(m2.outgoing[c] =~= seq![t_bc]);
    assert(m2.outgoing[a] =~= seq![h_ab]);
    crate::ops::insert::lemma_no_edge_from_single(m2, c, a, t_bc);
    crate::ops::insert::lemma_no_edge_from_single(m2, a, c, h_ab);
    let m3 = m2.with_edge(c, a, e3);
    crate::ops::insert::lemma_with_new_edge(m2, c, a, e3);
    crate::ops::insert::lemma_add_face_on_live(m3, face, h_ab, h_bc, h_ca);
    assert(m3.halfedges.dom() =~= base.halfedges.dom().insert(h_ab).insert(t_ab).insert(h_bc).insert(t_bc).insert(h_ca).insert(t_ca));
    assert(after.halfedges.dom() =~= m3.halfedges.dom());
    assert(after.vertices.dom() =~= base.vertices.dom());
    lemma_triangle_walk(after, h_ab, h_bc, h_ca);
    lemma_triangle_corners(after, after.faces[face], h_ab, h_bc, h_ca);
    assert(created =~= seq![h_ab, t_ab, h_bc, t_bc, h_ca, t_ca]);
}

/// Where no live halfedge ends at a vertex that has just been added, and the list of
/// outgoing halfedges of `start` holds live halfedges only, both edges to the new
/// vertex are new: four halfedges are made.
#[verifier::rlimit(50)]
pub proof fn lemma_edges_to_fresh_vertex(
    grown: MeshModel,
    base: HalfedgeId,
    start: VertexId,
    end: VertexId,
    apex: VertexId,
    e2: InsertOrGetEdge,
    e3: InsertOrGetEdge,
    face: FaceId,
    after: MeshModel,
    created: Seq<HalfedgeId>,
)
    requires
        grown.halfedges.dom().finite(),
        grown.outgoing.dom() == grown.vertices.dom(),
        grown.vertices.dom().contains(apex),
        grown.outgoing[apex].len() == 0,
        forall|he: HalfedgeId| #[trigger] grown.halfedges.dom().contains(he) ==> grown.halfedges[he].end_vertex != apex,
        start != apex,
        end != apex,
        start != end,
        grown.vertices.dom().contains(start),
        forall|i: int| 0 <= i < grown.outgoing[start].len() ==> grown.halfedges.dom().contains(#[trigger] grown.outgoing[start][i]),
        grown.attached(base, start, end, apex, e2, e3, face, after, created),
    ensures
        created.len() == 4,
        after.halfedges.dom().len() == grown.halfedges.dom().len() + 4,
{
    reveal(MeshModel::with_edge);
    reveal(MeshModel::add_face);
    crate::ops::insert::lemma_no_edge_from_empty_list(grown, apex, end);
    crate::ops::insert::lemma_first_edge_is_live(grown, end, apex);
    let m1 = grown.with_edge(end, apex, e2);
    assert(m1.halfedges.dom() =~= grown.halfedges.dom().insert(e2.start_to_end_he_id).insert(e2.twin_he_id));
    crate::ops::insert::lemma_first_edge_is_live(m1, start, apex);
    crate::ops::insert::lemma_first_edge_is_live(m1, apex, start);
    assert(e2.new_start_to_end && e2.new_twin);
    assert(m1.halfedges[e2.twin_he_id].end_vertex == end);
    assert(m1.halfedges[e2.start_to_end_he_id].end_vertex == apex);
    assert(m1.outgoing[apex] =~= seq![e2.twin_he_id]);
    crate::ops::insert::lemma_no_edge_from_single(m1, apex, start, e2.twin_he_id);
    assert(e3.new_start_to_end);
    assert(e3.new_twin) by {
        if m1.halfedge_from_to(start, apex) is Some {
            let found = m1.halfedge_from_to(start, apex)->0;
            assert(m1.halfedges.dom().contains(found) && m1.halfedges[found].end_vertex == apex);
            assert(found == e2.start_to_end_he_id);
            assert(m1.outgoing[start] == grown.outgoing[start]);
            assert(!m1.outgoing[start].contains(found)) by {
                if m1.outgoing[start].contains(found) {
                    let i = choose|i: int| 0 <= i < m1.outgoing[start].len() && m1.outgoing[start][i] == found;
                    assert(grown.halfedges.dom().contains(grown.outgoing[start][i]));
                }
            }
            lemma_not_listed_not_found(m1, start, apex, found);
        }
    }
    let m2 = m1.with_edge(apex, start, e3);
    assert(m2.halfedges.dom() =~= m1.halfedges.dom().insert(e3.start_to_end_he_id).insert(e3.twin_he_id));
    assert(after.halfedges.dom() =~= m2.halfedges.dom());
}

/// A halfedge that the list of outgoing halfedges of `start` does not hold is not what
/// the lookup from `start` finds.
pub proof fn lemma_not_listed_not_found(m: MeshModel, start: VertexId, end: VertexId, he: HalfedgeId)
    requires
        m.outgoing.dom().contains(start) ==> !m.outgoing[start].contains(he),
    ensures
        m.halfedge_from_to(start, end) != Some(he),
{
    if m.outgoing.dom().contains(start) {
        lemma_found_is_listed(m, m.outgoing[start], end, 0);
    }
}

/// What the search of a list finds is in the list.
pub proof fn lemma_found_is_listed(m: MeshModel, list: Seq<HalfedgeId>, end: VertexId, from: nat)
    ensures
        m.first_edge_to(list, end, from) is Some ==> list.contains(m.first_edge_to(list, end, from)->0),
    decreases list.len() - from,
{
    if from < list.len() && m.end_of(list[from as int]) != Some(end) {
        lemma_found_is_listed(m, list, end, from + 1);
    }
}

} // verus!
