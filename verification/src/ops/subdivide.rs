//! Subdividing edges.

use vstd::prelude::*;
use crate::arena::ARENA_LIMIT;
use crate::edgemap::EdgeLengths;
use crate::geometry::{midpoint, normalized, sum, vec3_midpoint, vec3_normalized, vec3_sum};
use crate::ids::{FaceId, HalfedgeId, VertexId};
use crate::mesh::{MeshGraph, MeshModel};
use crate::selection::{Selection, SelectionModel, SelectionOps};

verus! {

impl MeshModel {
    /// Whether the edge of `he` can be subdivided: the halfedge is live and has a twin,
    /// its start is found, and both ends have a position.
    pub open spec fn splittable(self, he: HalfedgeId) -> bool {
        &&& self.halfedges.dom().contains(he)
        &&& self.halfedges[he].twin is Some
        &&& self.start_of(he) is Some
        &&& self.positions.dom().contains(self.start_of(he)->0)
        &&& self.positions.dom().contains(self.halfedges[he].end_vertex)
    }

    /// Whether this mesh has come from `earlier` by adding elements: every vertex,
    /// halfedge and face of `earlier` is still live, and the slot table has only grown.
    pub open spec fn grown_from(self, earlier: MeshModel) -> bool {
        &&& earlier.vertices.dom().subset_of(self.vertices.dom())
        &&& earlier.halfedges.dom().subset_of(self.halfedges.dom())
        &&& earlier.faces.dom().subset_of(self.faces.dom())
        &&& earlier.slots.is_prefix_of(self.slots)
    }

    /// Whether no live halfedge that the selection resolves to is longer than
    /// `max_length_squared`, both as bit patterns of squared lengths.
    pub open spec fn no_long_edge(self, resolved: Set<HalfedgeId>, max_length_squared: u32) -> bool {
        forall|he: HalfedgeId| #[trigger] resolved.contains(he) ==> !self.is_candidate(he, max_length_squared, false)
    }
}

/// The elements that the split of a face makes.
pub struct FaceSplit {
    /// The new halfedge from the middle of the split edge to the opposite corner.
    pub spoke: HalfedgeId,
    /// The twin of the spoke.
    pub back: HalfedgeId,
    /// The new face.
    pub face: FaceId,
}

/// The elements that the subdivision of an edge makes.
pub struct EdgeSplit {
    /// The new vertex in the middle of the edge.
    pub center: VertexId,
    /// The new halfedge from the middle to the end of the subdivided halfedge.
    pub onward: HalfedgeId,
    /// The new halfedge from the middle to the start of the subdivided halfedge.
    pub backward: HalfedgeId,
    /// What the split of the face beside the halfedge made, where it was split.
    pub near: Option<FaceSplit>,
    /// What the split of the face beside the twin made, where it was split.
    pub far: Option<FaceSplit>,
}

impl EdgeSplit {
    /// The halfedges that the subdivision gives back: the onward halfedge, then the
    /// spoke of each side that was split.
    pub open spec fn listed(self) -> Seq<HalfedgeId> {
        seq![self.onward] + (match self.near {
            Some(split) => seq![split.spoke],
            None => Seq::empty(),
        }) + (match self.far {
            Some(split) => seq![split.spoke],
            None => Seq::empty(),
        })
    }
}

impl MeshModel {
    /// Whether the face beside `he` can be split: the halfedge is live and has a live
    /// face and a live successor that has a successor.
    pub open spec fn side_splittable(self, he: HalfedgeId) -> bool {
        &&& self.halfedges.dom().contains(he)
        &&& self.halfedges[he].face is Some
        &&& self.faces.dom().contains(self.halfedges[he].face->0)
        &&& self.halfedges[he].next is Some
        &&& self.halfedges.dom().contains(self.halfedges[he].next->0)
        &&& self.halfedges[self.halfedges[he].next->0].next is Some
    }

    /// The mesh in which the face beside `existing` is split by the elements of
    /// `parts`.
    ///
    /// The halfedge `existing` ends at `center`, is the representative of its face and
    /// is followed by the spoke. The spoke runs from `center` to the opposite corner in
    /// the old face, followed by the former predecessor of `existing`. Its twin `back`
    /// runs the other way in the new face, which lies on `onward`, the former
    /// successor of `existing` and `back`.
    pub open spec fn face_split(self, existing: HalfedgeId, onward: HalfedgeId, center: VertexId, parts: FaceSplit) -> MeshModel {
        let face = self.halfedges[existing].face->0;
        let ended = self.put_end(existing, center);
        let next = self.halfedges[existing].next->0;
        let last = self.halfedges[next].next->0;
        let third = ended.halfedges[next].end_vertex;
        ended.put_representative(face, existing).add_halfedge(parts.spoke, center, third).put_next(existing, Some(parts.spoke)).put_next(
            parts.spoke,
            Some(last),
        ).put_face(parts.spoke, Some(face)).add_halfedge(parts.back, third, center).add_face(parts.face, onward, next, parts.back).put_twin(
            parts.back,
            Some(parts.spoke),
        ).put_twin(parts.spoke, Some(parts.back))
    }

    /// The mesh in which the side of `existing` is split by `parts`, or, where there is
    /// nothing to split it by, `existing` just ends at `center`.
    pub open spec fn side_split(self, existing: HalfedgeId, onward: HalfedgeId, center: VertexId, parts: Option<FaceSplit>) -> MeshModel {
        match parts {
            Some(split) => self.face_split(existing, onward, center, split),
            None => self.put_end(existing, center),
        }
    }

    /// What is filed in the spatial index when the side of `existing` has been split by
    /// `parts`: the bounding boxes of the two halves are filed anew, that of the old
    /// face before that of the new one. Nothing is filed where the side was not split.
    pub open spec fn side_filed(
        self,
        filed: Map<u32, parry3d::bounding_volume::Aabb>,
        existing: HalfedgeId,
        onward: HalfedgeId,
        center: VertexId,
        parts: Option<FaceSplit>,
    ) -> Map<u32, parry3d::bounding_volume::Aabb> {
        match parts {
            Some(split) => {
                let after = self.face_split(existing, onward, center, split);
                after.with_bounds(after.with_bounds(filed, self.halfedges[existing].face->0), split.face)
            },
            None => filed,
        }
    }

    /// What is filed in the spatial index when the edge of `he` has been subdivided by
    /// the elements of `parts`: the halves of the face beside `he` are filed, and then
    /// those of the face beside its twin.
    pub open spec fn edge_filed(self, filed: Map<u32, parry3d::bounding_volume::Aabb>, he: HalfedgeId, parts: EdgeSplit) -> Map<
        u32,
        parry3d::bounding_volume::Aabb,
    > {
        let near = self.with_onward(he, parts).side_filed(filed, he, parts.onward, parts.center, parts.near);
        self.with_backward(he, parts).side_filed(near, self.halfedges[he].twin->0, parts.backward, parts.center, parts.far)
    }

    /// The mesh with the new vertex `center` in the middle of the edge of `he`; where
    /// normals are kept and both ends have one, its normal is their normalized sum.
    pub open spec fn with_middle(self, he: HalfedgeId, center: VertexId) -> MeshModel {
        let start = self.start_of(he)->0;
        let end = self.halfedges[he].end_vertex;
        let placed = self.add_vertex(center, vec3_midpoint(self.positions[start], self.positions[end]));
        match self.normals {
            Some(normals) => if normals.dom().contains(start) && normals.dom().contains(end) {
                placed.put_normal(center, vec3_normalized(vec3_sum(normals[start], normals[end])))
            } else {
                placed
            },
            None => placed,
        }
    }

    /// The mesh before the face beside `he` is split: with the middle vertex and the
    /// onward halfedge, which is the canonical halfedge of the middle vertex.
    pub open spec fn with_onward(self, he: HalfedgeId, parts: EdgeSplit) -> MeshModel {
        self.with_middle(he, parts.center).add_halfedge(parts.onward, parts.center, self.halfedges[he].end_vertex).put_canonical(
            parts.center,
            Some(parts.onward),
        )
    }

    /// The mesh before the face beside the twin of `he` is split: the near side is done
    /// and the backward halfedge is there.
    pub open spec fn with_backward(self, he: HalfedgeId, parts: EdgeSplit) -> MeshModel {
        self.with_onward(he, parts).side_split(he, parts.onward, parts.center, parts.near).add_halfedge(
            parts.backward,
            parts.center,
            self.start_of(he)->0,
        )
    }

    /// The mesh in which the edge of `he` is subdivided by the elements of `parts`:
    /// both sides are done, the onward halfedge and the former twin of `he` are twins,
    /// and so are `he` and the backward halfedge.
    pub open spec fn edge_split(self, he: HalfedgeId, parts: EdgeSplit) -> MeshModel {
        let twin = self.halfedges[he].twin->0;
        self.with_backward(he, parts).side_split(twin, parts.backward, parts.center, parts.far).put_twin(parts.onward, Some(twin)).put_twin(
            twin,
            Some(parts.onward),
        ).put_twin(he, Some(parts.backward)).put_twin(parts.backward, Some(he))
    }

    /// The faces on the two sides of the halfedge `he`: its own, and that of its twin.
    pub open spec fn faces_beside(self, he: HalfedgeId) -> Set<FaceId> {
        (match self.face_of(he) {
            Some(face) => set![face],
            None => Set::empty(),
        }).union(
            match self.twin_of(he) {
                Some(twin) => match self.face_of(twin) {
                    Some(face) => set![face],
                    None => Set::empty(),
                },
                None => Set::empty(),
            },
        )
    }

    /// Whether `part` is no halfedge of this mesh.
    pub open spec fn new_halfedge(self, part: HalfedgeId) -> bool {
        !self.halfedges.dom().contains(part)
    }

    /// Whether the subdivision of the edge of `he` by the elements of `parts` gives the
    /// mesh `after` and the halfedges `listed`.
    ///
    /// Every element of `parts` is new where it is put in. A side is split exactly
    /// where it can be.
    pub open spec fn subdivided_by(self, he: HalfedgeId, parts: EdgeSplit, after: MeshModel, listed: Seq<HalfedgeId>) -> bool {
        let twin = self.halfedges[he].twin->0;
        let first = self.with_onward(he, parts);
        let second = self.with_backward(he, parts);
        &&& !self.vertices.dom().contains(parts.center)
        &&& self.new_halfedge(parts.onward)
        &&& (parts.near is Some <==> first.side_splittable(he))
        &&& parts.near is Some ==> first.new_halfedge(parts.near->0.spoke) && first.new_halfedge(parts.near->0.back) && parts.near->0.spoke
            != parts.near->0.back && !first.faces.dom().contains(parts.near->0.face)
        &&& !first.side_split(he, parts.onward, parts.center, parts.near).halfedges.dom().contains(parts.backward)
        &&& (parts.far is Some <==> second.side_splittable(twin))
        &&& parts.far is Some ==> second.new_halfedge(parts.far->0.spoke) && second.new_halfedge(parts.far->0.back) && parts.far->0.spoke
            != parts.far->0.back && !second.faces.dom().contains(parts.far->0.face)
        &&& after == self.edge_split(he, parts)
        &&& listed == parts.listed()
    }

    /// Whether the subdivision of the edge of `he` turns this mesh into `after` and
    /// gives the halfedges `listed`.
    ///
    /// Nothing happens where the edge cannot be subdivided. Otherwise there are new
    /// elements by which the edge is subdivided: one vertex, one to three listed
    /// halfedges, at most six halfedges and two faces in all.
    pub open spec fn subdivide_gives(self, he: HalfedgeId, after: MeshModel, listed: Seq<HalfedgeId>) -> bool {
        &&& after.wf()
        &&& after.grown_from(self)
        &&& !self.splittable(he) ==> after == self && listed.len() == 0
        &&& self.splittable(he) ==> exists|parts: EdgeSplit| #[trigger] self.subdivided_by(he, parts, after, listed)
        &&& self.splittable(he) ==> 1 <= listed.len() <= 3 && after.vertices.dom().len() == self.vertices.dom().len() + 1
        &&& forall|i: int| 0 <= i < listed.len() ==> !self.halfedges.dom().contains(#[trigger] listed[i]) && after.halfedges.dom().contains(listed[i])
        &&& after.halfedges.dom().len() <= self.halfedges.dom().len() + 6
        &&& after.faces.dom().len() <= self.faces.dom().len() + 2
        &&& after.slots.len() <= self.slots.len() + 2
    }

    /// Whether `later` has come from this mesh by `n` subdivisions of edges, one after
    /// the other.
    pub open spec fn subdivides_to(self, later: MeshModel, n: nat) -> bool
        decreases n,
    {
        if n == 0 {
            later == self
        } else {
            exists|he: HalfedgeId, before: MeshModel, listed: Seq<HalfedgeId>|
                self.subdivides_to(before, (n - 1) as nat) && #[trigger] before.subdivide_gives(he, later, listed)
        }
    }
}

impl MeshGraph {
    /// Sets the normal of a live vertex, where normals are kept.
    pub(crate) fn set_vertex_normal(&mut self, vertex_id: VertexId, normal: glam::Vec3)
        requires
            old(self).wf(),
        ensures
            final(self).wf(),
            final(self).filed() == old(self).filed(),
            final(self).vertex_keys() == old(self).vertex_keys(),
            final(self).halfedge_keys() == old(self).halfedge_keys(),
            final(self).face_keys() == old(self).face_keys(),
            final(self)@ == old(self)@.put_normal(vertex_id, normal),
    {
        if self.vertex(vertex_id).is_none() {
            return ;
        }
        match &mut self.vertex_normals {
            Some(table) => {
                table.insert(vertex_id, normal);
            },
            None => {},
        }
    }

    /// Splits the triangle beside `existing_halfedge_id` in two, along a new edge from
    /// the vertex `center_v` in the middle of that halfedge to the corner opposite it.
    /// The old face keeps the half at the start of the halfedge; the new face, on
    /// `new_halfedge_id`, takes the half at its end. Gives the new elements, or nothing
    /// where the halfedge has no face or a link round the face is missing; a live
    /// halfedge ends at `center_v` either way.
    #[verifier::rlimit(50)]
    pub(crate) fn subdivide_face(&mut self, existing_halfedge_id: HalfedgeId, new_halfedge_id: HalfedgeId, center_v: VertexId) -> (split: Option<
        FaceSplit,
    >)
        requires
            old(self).wf(),
            old(self)@.has_room(0, 2, 1),
        ensures
            final(self).wf(),
            final(self)@.grown_from(old(self)@),
            final(self)@.vertices.dom() == old(self)@.vertices.dom(),
            final(self)@.positions == old(self)@.positions,
            final(self)@.normals == old(self)@.normals,
            split is Some <==> old(self)@.side_splittable(existing_halfedge_id),
            final(self)@ == old(self)@.side_split(existing_halfedge_id, new_halfedge_id, center_v, split),
            final(self).filed() == old(self)@.side_filed(old(self).filed(), existing_halfedge_id, new_halfedge_id, center_v, split),
            split is Some ==> {
                &&& !old(self)@.halfedges.dom().contains(split->0.spoke)
                &&& !old(self)@.halfedges.dom().contains(split->0.back)
                &&& split->0.spoke != split->0.back
                &&& !old(self)@.faces.dom().contains(split->0.face)
                &&& final(self)@.halfedges.dom() == old(self)@.halfedges.dom().insert(split->0.spoke).insert(split->0.back)
                &&& final(self)@.faces.dom() == old(self)@.faces.dom().insert(split->0.face)
                &&& final(self)@.slots == old(self)@.slots.push(split->0.face)
            },
            split is None ==> {
                &&& final(self)@.halfedges.dom() == old(self)@.halfedges.dom()
                &&& final(self)@.faces == old(self)@.faces
                &&& final(self)@.slots == old(self)@.slots
            },
    {
        let he = match self.halfedge(existing_halfedge_id) {
            Some(he) => he,
            None => {
                return None;
            },
        };
        let ghost start = self@;
        self.set_end(existing_halfedge_id, center_v);
        proof {
            assert(self@.halfedges.dom() =~= start.halfedges.dom());
        }
        let face_id = match he.face {
            Some(face) => face,
            None => {
                return None;
            },
        };
        if self.face(face_id).is_none() {
            return None;
        }
        let next_he = match he.next {
            Some(next) => next,
            None => {
                return None;
            },
        };
        let next = match self.halfedge(next_he) {
            Some(next) => next,
            None => {
                return None;
            },
        };
        let last_he = match next.next {
            Some(last) => last,
            None => {
                return None;
            },
        };
        proof {
            assert(old(self)@.side_splittable(existing_halfedge_id));
        }
        let ghost before = self@;
        self.set_face_halfedge(face_id, existing_halfedge_id);
        proof {
            assert(self@.faces.dom() =~= before.faces.dom());
        }
        let third = next.end_vertex;
        let new_he = self.insert_halfedge(center_v, third);
        let ghost before = self@;
        self.set_next(existing_halfedge_id, Some(new_he));
        self.set_next(new_he, Some(last_he));
        self.set_face(new_he, Some(face_id));
        proof {
            assert(self@.halfedges.dom() =~= before.halfedges.dom());
        }
        let new_twin = self.insert_halfedge(third, center_v);
        let ghost before = self@;
        let new_face_id = self.insert_face(new_halfedge_id, next_he, new_twin);
        self.set_twin(new_twin, Some(new_he));
        self.set_twin(new_he, Some(new_twin));
        proof {
            assert(self@.halfedges.dom() =~= before.halfedges.dom());
            assert(self@.faces.dom() =~= old(self)@.faces.dom().insert(new_face_id));
            assert(self@.halfedges.dom() =~= old(self)@.halfedges.dom().insert(new_he).insert(new_twin));
        }
        self.update_face_bounds(face_id);
        self.update_face_bounds(new_face_id);
        Some(FaceSplit { spoke: new_he, back: new_twin, face: new_face_id })
    }

    /// Subdivides the edge of a halfedge at its middle.
    ///
    /// A new vertex is put at the middle of the edge; where normals are kept, it gets
    /// the normalized sum of the normals of the two ends. The halfedge and its twin
    /// are shortened to end at the new vertex, two new halfedges run on from it to the
    /// old ends, and the triangle on either side is split in two by a new edge to the
    /// opposite corner.
    ///
    /// Returns the new halfedge that runs from the middle to the end of the halfedge,
    /// and for each side that has a face the new halfedge from the middle to the
    /// opposite corner: one to three halfedges. Nothing happens, and nothing is
    /// returned, where the edge cannot be subdivided.
    #[verifier::rlimit(100)]
    pub fn subdivide_edge(&mut self, halfedge_id: HalfedgeId) -> (new_halfedges: Vec<HalfedgeId>)
        requires
            old(self).wf(),
            old(self)@.has_room(1, 6, 2),
        ensures
            final(self).wf(),
            old(self)@.subdivide_gives(halfedge_id, final(self)@, new_halfedges@),
            !old(self)@.splittable(halfedge_id) ==> final(self).filed() == old(self).filed(),
            old(self)@.splittable(halfedge_id) ==> exists|parts: EdgeSplit| #[trigger]
                old(self)@.subdivided_by(halfedge_id, parts, final(self)@, new_halfedges@) && final(self).filed() == old(self)@.edge_filed(
                    old(self).filed(),
                    halfedge_id,
                    parts,
                ),
    {
        let mut new_halfedges: Vec<HalfedgeId> = Vec::new();
        let he = match self.halfedge(halfedge_id) {
            Some(he) => he,
            None => {
                return new_halfedges;
            },
        };
        let twin_id = match he.twin {
            Some(twin) => twin,
            None => {
                return new_halfedges;
            },
        };
        let start_v = match he.start_vertex(self) {
            Some(start) => start,
            None => {
                return new_halfedges;
            },
        };
        let end_v = he.end_vertex;
        let start_pos = match self.position(start_v) {
            Some(position) => position,
            None => {
                return new_halfedges;
            },
        };
        let end_pos = match self.position(end_v) {
            Some(position) => position,
            None => {
                return new_halfedges;
            },
        };
        let center_pos = midpoint(&start_pos, &end_pos);
        let start_normal = self.vertex_normal(start_v);
        let end_normal = self.vertex_normal(end_v);
        let center_v = self.insert_vertex(center_pos);
        proof {
            assert(self@.vertices.dom() =~= old(self)@.vertices.dom().insert(center_v));
        }
        match start_normal {
            Some(a) => match end_normal {
                Some(b) => {
                    let total = sum(&a, &b);
                    self.set_vertex_normal(center_v, normalized(&total));
                },
                None => {},
            },
            None => {},
        }
        let ghost centered = self@;
        proof {
            assert(centered == old(self)@.with_middle(halfedge_id, center_v));
        }
        let new_he = self.insert_halfedge(center_v, end_v);
        let ghost before = self@;
        self.set_canonical(center_v, Some(new_he));
        proof {
            assert(self@.vertices.dom() =~= before.vertices.dom());
            assert(self@.halfedges.dom() =~= old(self)@.halfedges.dom().insert(new_he));
        }
        new_halfedges.push(new_he);
        let near = self.subdivide_face(halfedge_id, new_he, center_v);
        match near {
            Some(split) => {
                new_halfedges.push(split.spoke);
            },
            None => {},
        }
        let ghost second = self@;
        let new_twin = self.insert_halfedge(center_v, start_v);
        let ghost third = self@;
        let far = self.subdivide_face(twin_id, new_twin, center_v);
        match far {
            Some(split) => {
                new_halfedges.push(split.spoke);
            },
            None => {},
        }
        let ghost before = self@;
        self.set_twin(new_he, Some(twin_id));
        self.set_twin(twin_id, Some(new_he));
        self.set_twin(halfedge_id, Some(new_twin));
        self.set_twin(new_twin, Some(halfedge_id));
        proof {
            assert(self@.halfedges.dom() =~= before.halfedges.dom());
            assert(third.halfedges.dom() =~= second.halfedges.dom().insert(new_twin));
            let parts = EdgeSplit { center: center_v, onward: new_he, backward: new_twin, near, far };
            assert(new_halfedges@ =~= parts.listed());
            assert(old(self)@.subdivided_by(halfedge_id, parts, self@, new_halfedges@));
        }
        new_halfedges
    }

    /// The halfedges that a selection resolves to, one for each edge, with the squared
    /// length of each that is longer than the threshold.
    pub(crate) fn long_edges(&self, max_length_squared: u32, selection: &Selection) -> (candidates: EdgeLengths)
        requires
            self.wf(),
        ensures
            self@.no_long_edge(selection@.resolved_halfedges(self@), max_length_squared) ==> candidates@ == Map::<HalfedgeId, u32>::empty(),
            self@.one_per_edge(selection@.resolved_halfedges(self@), max_length_squared, false, candidates@),
    {
        let candidates = self.edges_beyond(max_length_squared, false, selection);
        proof {
            if self@.no_long_edge(selection@.resolved_halfedges(self@), max_length_squared) {
                assert(candidates@ =~= Map::<HalfedgeId, u32>::empty());
            }
        }
        candidates
    }

    /// Selects the faces on the two sides of a halfedge, and notes them as affected.
    pub(crate) fn select_faces_beside(&self, he_id: HalfedgeId, selection: &mut Selection, affected: &mut Selection)
        requires
            self.wf(),
        ensures
            final(selection)@ == (SelectionModel { faces: old(selection)@.faces.union(self@.faces_beside(he_id)), ..old(selection)@ }),
            final(affected)@ == (SelectionModel { faces: old(affected)@.faces.union(self@.faces_beside(he_id)), ..old(affected)@ }),
    {

        match self.halfedge(he_id) {
            Some(he) => {
                match he.face {
                    Some(face_id) => {
                        selection.insert(face_id);
                        affected.insert(face_id);
                    },
                    None => {},
                }
                match he.twin {
                    Some(twin_id) => match self.halfedge(twin_id) {
                        Some(twin) => match twin.face {
                            Some(face_id) => {
                                selection.insert(face_id);
                                affected.insert(face_id);
                            },
                            None => {},
                        },
                        None => {},
                    },
                    None => {},
                }
            },
            None => {},
        }
        proof {
            assert(selection@.faces =~= old(selection)@.faces.union(self@.faces_beside(he_id)));
            assert(affected@.faces =~= old(affected)@.faces.union(self@.faces_beside(he_id)));
        }
    }

    /// Subdivides the edge of `he` and notes what that did: the faces beside the edge
    /// and beside the new halfedges are selected, and every edge of these faces that is
    /// longer than the threshold and whose twin is no candidate becomes one.
    #[verifier::rlimit(50)]
    pub(crate) fn subdivide_and_note(&mut self, he_id: HalfedgeId, max_length_squared: u32, candidates: &mut EdgeLengths, selection: &mut Selection) -> (listed: Vec<
        HalfedgeId,
    >)
        requires
            old(self).wf(),
            old(self)@.has_room(1, 6, 2),
        ensures
            final(self).wf(),
            old(self)@.subdivide_gives(he_id, final(self)@, listed@),
            final(selection)@.vertices == old(selection)@.vertices,
            final(selection)@.halfedges == old(selection)@.halfedges,
            old(selection)@.faces.subset_of(final(selection)@.faces),
    {
        candidates.remove(he_id);
        let mut affected_faces = Selection::default();
        self.select_faces_beside(he_id, selection, &mut affected_faces);
        let new_edges = self.subdivide_edge(he_id);
        let ghost after = self@;
        let mut n: usize = 0;
        while n < new_edges.len()
            invariant
                n <= new_edges.len(),
                self.wf(),
                self@ == after,
                selection@.vertices == old(selection)@.vertices,
                selection@.halfedges == old(selection)@.halfedges,
                old(selection)@.faces.subset_of(selection@.faces),
            decreases new_edges.len() - n,
        {
            self.select_faces_beside(new_edges[n], selection, &mut affected_faces);
            n = n + 1;
        }
        let exposed = affected_faces.resolve_to_halfedges(self).to_vec();
        let mut x: usize = 0;
        while x < exposed.len()
            invariant
                x <= exposed.len(),
                self.wf(),
                self@ == after,
            decreases exposed.len() - x,
        {
            match self.halfedge(exposed[x]) {
                Some(he) => {
                    let twin_is_candidate = match he.twin {
                        Some(twin) => candidates.contains_key(twin),
                        None => false,
                    };
                    if !twin_is_candidate {
                        let len = he.length_squared(self);
                        if len > max_length_squared && len <= crate::geometry::INFINITE {
                            candidates.insert(exposed[x], len);
                        }
                    }
                },
                None => {},
            }
            x = x + 1;
        }
        new_edges
    }

    /// Subdivides the edges of a selection until none is longer than the threshold.
    ///
    /// The threshold is the bit pattern of a squared length that is a number and not
    /// negative. One halfedge of each selected edge that is longer than the threshold is
    /// a candidate. The longest candidate is subdivided, again and again; which one it
    /// is among several of the same length is not stated. The faces beside the
    /// subdivided edge and beside the new halfedges are selected, and every edge of
    /// these faces that is longer than the threshold and whose twin is no candidate
    /// becomes one. When no candidate is left, the selection is gone through once more,
    /// and the longest halfedge that is still longer than the threshold is subdivided
    /// in the same way, until there is none. The work ends, too, when the mesh has no
    /// room for another subdivision, or as many subdivisions were made as an arena can
    /// hold elements.
    ///
    /// The spatial index is updated for the faces that were split; refitting it is
    /// left to the caller. Where no selected edge is longer than the threshold,
    /// nothing changes.
    #[verifier::rlimit(100)]
    pub fn subdivide_until_edges_below_max_length(&mut self, max_length_squared: u32, selection: &mut Selection)
        requires
            old(self).wf(),
            max_length_squared <= crate::geometry::INFINITE,
        ensures
            final(self).wf(),
            final(self)@.grown_from(old(self)@),
            exists|n: nat| #[trigger]
                old(self)@.subdivides_to(final(self)@, n) && n <= ARENA_LIMIT && (n == ARENA_LIMIT || !final(self)@.has_room(1, 6, 2) || final(self)@.no_long_edge(final(selection)@.resolved_halfedges(final(self)@), max_length_squared)),
            !old(self)@.no_long_edge(old(selection)@.resolved_halfedges(old(self)@), max_length_squared) && old(self)@.has_room(1, 6, 2) ==> exists|
                he: HalfedgeId,
                mid: MeshModel,
                listed: Seq<HalfedgeId>,
                n: nat,
            |
                #![trigger old(self)@.subdivide_gives(he, mid, listed), mid.subdivides_to(final(self)@, n)]
                old(self)@.first_pick(old(selection)@.resolved_halfedges(old(self)@), max_length_squared, false, he) && old(self)@.subdivide_gives(
                    he,
                    mid,
                    listed,
                ) && mid.subdivides_to(final(self)@, n),
            final(selection)@.vertices == old(selection)@.vertices,
            final(selection)@.halfedges == old(selection)@.halfedges,
            old(selection)@.faces.subset_of(final(selection)@.faces),
            old(self)@.no_long_edge(old(selection)@.resolved_halfedges(old(self)@), max_length_squared) ==> final(self)@ == old(self)@
                && final(selection)@ == old(selection)@,
    {
        let mut candidates = self.long_edges(max_length_squared, selection);
        let mut rounds: usize = ARENA_LIMIT;
        let mut finished = false;
        let mut touched = false;
        let ghost start_resolved = old(selection)@.resolved_halfedges(old(self)@);
        let ghost mut done: nat = 0;
        let ghost mut first_he: HalfedgeId = HalfedgeId { raw: 0 };
        let ghost mut first_mid: MeshModel = old(self)@;
        let ghost mut first_listed: Option<Seq<HalfedgeId>> = None;
        let ghost mut later: nat = 0;
        while rounds > 0 && !finished
            invariant
                self.wf(),
                self@.grown_from(old(self)@),
                old(self)@.subdivides_to(self@, done),
                done + rounds == ARENA_LIMIT,
                start_resolved == old(selection)@.resolved_halfedges(old(self)@),
                selection@.vertices == old(selection)@.vertices,
                selection@.halfedges == old(selection)@.halfedges,
                old(selection)@.faces.subset_of(selection@.faces),
                !touched ==> self@ == old(self)@ && selection@ == old(selection)@ && old(self)@.one_per_edge(
                    start_resolved,
                    max_length_squared,
                    false,
                    candidates@,
                ),
                touched <==> first_listed is Some,
                !touched ==> done == 0,
                touched ==> old(self)@.first_pick(start_resolved, max_length_squared, false, first_he) && old(self)@.subdivide_gives(
                    first_he,
                    first_mid,
                    first_listed->0,
                ) && first_mid.subdivides_to(self@, later),
                old(self)@.no_long_edge(start_resolved, max_length_squared) ==> !touched && candidates@ == Map::<HalfedgeId, u32>::empty(),
                finished && !touched && old(self)@.has_room(1, 6, 2) ==> candidates@ == Map::<HalfedgeId, u32>::empty(),
            decreases rounds + (if finished { 0int } else { 1int }),
        {
            let entries = candidates.entries();
            if entries.len() == 0 || !self.has_room(1, 6, 2) {
                finished = true;
            } else {
                rounds = rounds - 1;
                let mut max_len: u32 = 0;
                let mut max_he_id = entries[0].0;
                let mut e: usize = 0;
                let ghost mut at: int = 0;
                while e < entries.len()
                    invariant
                        e <= entries.len(),
                        entries@.len() > 0,
                        0 <= at < entries@.len(),
                        entries@[at].0 == max_he_id,
                        forall|k: int| 0 <= k < e ==> max_len >= (#[trigger] entries@[k]).1,
                        e == 0 ==> max_len == 0,
                        e > 0 && entries@[0].1 > 0 ==> entries@[at].1 == max_len,
                    decreases entries.len() - e,
                {
                    if entries[e].1 > max_len {
                        max_len = entries[e].1;
                        max_he_id = entries[e].0;
                        proof {
                            at = e as int;
                        }
                    }
                    e = e + 1;
                }
                proof {
                    if !touched {
                        let cands = candidates@;
                        assert(cands.dom().contains(entries@[0].0));
                        assert(entries@[0].1 > 0);
                        assert(cands.dom().contains(entries@[at].0));
                        assert(cands.dom().contains(max_he_id) && cands[max_he_id] == max_len);
                        assert forall|other: HalfedgeId| #[trigger] cands.dom().contains(other) implies cands[max_he_id] >= cands[other] by {
                            let q = choose|q: int| 0 <= q < entries@.len() && (#[trigger] entries@[q]).0 == other;
                            assert(max_len >= entries@[q].1);
                        }
                        assert(MeshModel::picked_from(cands, false, max_he_id));
                        assert(old(self)@.first_pick(start_resolved, max_length_squared, false, max_he_id));
                    }
                }
                let ghost before = self@;
                let listed = self.subdivide_and_note(max_he_id, max_length_squared, &mut candidates, selection);
                proof {
                    assert(before.subdivide_gives(max_he_id, self@, listed@));
                    done = done + 1;
                    assert(old(self)@.subdivides_to(self@, done));
                    if !touched {
                        let k = choose|k: int| 0 <= k < entries@.len() && (#[trigger] entries@[k]).0 == max_he_id;
                        first_he = max_he_id;
                        first_mid = self@;
                        first_listed = Some(listed@);
                        later = 0;
                    } else {
                        later = later + 1;
                        assert(first_mid.subdivides_to(self@, later));
                    }
                }
                touched = true;
            }
        }
        let mut clean = false;
        let mut full = false;
        while rounds > 0 && !clean && !full
            invariant
                self.wf(),
                self@.grown_from(old(self)@),
                old(self)@.subdivides_to(self@, done),
                done + rounds == ARENA_LIMIT,
                start_resolved == old(selection)@.resolved_halfedges(old(self)@),
                selection@.vertices == old(selection)@.vertices,
                selection@.halfedges == old(selection)@.halfedges,
                old(selection)@.faces.subset_of(selection@.faces),
                !touched ==> self@ == old(self)@ && selection@ == old(selection)@,
                !touched && old(self)@.has_room(1, 6, 2) ==> candidates@ == Map::<HalfedgeId, u32>::empty() && old(self)@.one_per_edge(
                    start_resolved,
                    max_length_squared,
                    false,
                    candidates@,
                ),
                touched <==> first_listed is Some,
                !touched ==> done == 0,
                !touched && !old(self)@.no_long_edge(start_resolved, max_length_squared) && old(self)@.has_room(1, 6, 2) ==> !clean && !full,
                touched ==> old(self)@.first_pick(start_resolved, max_length_squared, false, first_he) && old(self)@.subdivide_gives(
                    first_he,
                    first_mid,
                    first_listed->0,
                ) && first_mid.subdivides_to(self@, later),
                old(self)@.no_long_edge(start_resolved, max_length_squared) ==> !touched,
                clean ==> self@.no_long_edge(selection@.resolved_halfedges(self@), max_length_squared),
                full ==> !self@.has_room(1, 6, 2),
            decreases rounds + (if clean || full { 0int } else { 1int }),
        {
            if !self.has_room(1, 6, 2) {
                full = true;
            } else {
                match self.furthest_beyond(max_length_squared, false, selection) {
                    None => {
                        clean = true;
                    },
                    Some(he_id) => {
                        rounds = rounds - 1;
                        let ghost before = self@;
                        let listed = self.subdivide_and_note(he_id, max_length_squared, &mut candidates, selection);
                        proof {
                            assert(before.subdivide_gives(he_id, self@, listed@));
                            done = done + 1;
                            assert(old(self)@.subdivides_to(self@, done));
                            if !touched {
                                first_he = he_id;
                                first_mid = self@;
                                first_listed = Some(listed@);
                                later = 0;
                            } else {
                                later = later + 1;
                                assert(first_mid.subdivides_to(self@, later));
                            }
                        }
                        touched = true;
                    },
                }
            }
        }
        proof {
            if !old(self)@.no_long_edge(start_resolved, max_length_squared) && old(self)@.has_room(1, 6, 2) {
                assert(touched);
                assert(old(self)@.subdivide_gives(first_he, first_mid, first_listed->0) && first_mid.subdivides_to(self@, later));
            }
        }
    }
}

} // verus!
