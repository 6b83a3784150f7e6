//! Working sets of vertices, halfedges and faces.

use vstd::prelude::*;
use crate::idset::{FaceSet, HalfedgeSet, VertexSet};
use crate::ids::{FaceId, HalfedgeId, VertexId};
use crate::mesh::{MeshGraph, MeshModel};

verus! {

/// Three sets of identifiers, one of each kind. They need not agree with one another,
/// and they may name elements that are gone.
pub struct Selection {
    pub vertices: VertexSet,
    pub halfedges: HalfedgeSet,
    pub faces: FaceSet,
}

/// What a selection holds.
pub struct SelectionModel {
    pub vertices: Set<VertexId>,
    pub halfedges: Set<HalfedgeId>,
    pub faces: Set<FaceId>,
}

impl View for Selection {
    type V = SelectionModel;

    open spec fn view(&self) -> SelectionModel {
        SelectionModel { vertices: self.vertices@, halfedges: self.halfedges@, faces: self.faces@ }
    }
}

/// Everything that `part` gives for some key of `keys`.
pub open spec fn union_over<A, B>(keys: Set<A>, part: spec_fn(A) -> Set<B>) -> Set<B> {
    Set::new(|item: B| exists|key: A| keys.contains(key) && #[trigger] part(key).contains(item))
}

impl MeshModel {
    /// The halfedges of the face `f`; none where it is not live.
    pub open spec fn halfedges_of_face(self, f: FaceId) -> Set<HalfedgeId> {
        if self.faces.dom().contains(f) {
            self.face_halfedges(self.faces[f]).to_set()
        } else {
            Set::empty()
        }
    }

    /// The fan of outgoing halfedges of the vertex `v`; none where it is not live.
    pub open spec fn halfedges_of_vertex(self, v: VertexId) -> Set<HalfedgeId> {
        if self.vertices.dom().contains(v) {
            self.fan(self.vertices[v]).to_set()
        } else {
            Set::empty()
        }
    }

    /// The end of the halfedge `he`, and its start where that is found; none where the
    /// halfedge is not live.
    pub open spec fn vertices_of_halfedge(self, he: HalfedgeId) -> Set<VertexId> {
        if self.halfedges.dom().contains(he) {
            match self.start_of(he) {
                Some(start) => set![self.halfedges[he].end_vertex, start],
                None => set![self.halfedges[he].end_vertex],
            }
        } else {
            Set::empty()
        }
    }

    /// The corners of the face `f`; none where it is not live.
    pub open spec fn vertices_of_face(self, f: FaceId) -> Set<VertexId> {
        if self.faces.dom().contains(f) {
            self.face_vertices(self.faces[f]).to_set()
        } else {
            Set::empty()
        }
    }

    /// The vertices joined to the vertex `v` by an edge; none where it is not live.
    pub open spec fn neighbours_of(self, v: VertexId) -> Set<VertexId> {
        if self.vertices.dom().contains(v) {
            self.neighbours(self.vertices[v]).to_set()
        } else {
            Set::empty()
        }
    }
}

impl SelectionModel {
    /// The selected halfedges, the halfedges of the selected faces and the outgoing
    /// halfedges of the selected vertices.
    pub open spec fn resolved_halfedges(self, m: MeshModel) -> Set<HalfedgeId> {
        self.halfedges.union(union_over(self.faces, |f: FaceId| m.halfedges_of_face(f))).union(
            union_over(self.vertices, |v: VertexId| m.halfedges_of_vertex(v)),
        )
    }

    /// The selected vertices, the ends of the selected halfedges and the corners of the
    /// selected faces.
    pub open spec fn resolved_vertices(self, m: MeshModel) -> Set<VertexId> {
        self.vertices.union(union_over(self.halfedges, |he: HalfedgeId| m.vertices_of_halfedge(he))).union(
            union_over(self.faces, |f: FaceId| m.vertices_of_face(f)),
        )
    }

    /// The vertices next to the resolved ones that are not among them.
    pub open spec fn rim(self, m: MeshModel) -> Set<VertexId> {
        union_over(self.resolved_vertices(m), |v: VertexId| m.neighbours_of(v)).difference(self.resolved_vertices(m))
    }
}

/// Adding to and taking from a selection, for each kind of identifier.
pub trait SelectionOps<T> {
    /// Whether the selection holds `item` in the set of its kind.
    spec fn holds(&self, item: T) -> bool;

    /// Adds `item` to the set of its kind.
    fn insert(&mut self, item: T)
        ensures
            final(self).holds(item),
            forall|other: T| other != item ==> final(self).holds(other) == old(self).holds(other),
    ;

    /// Takes `item` out of the set of its kind.
    fn remove(&mut self, item: T)
        ensures
            !final(self).holds(item),
            forall|other: T| other != item ==> final(self).holds(other) == old(self).holds(other),
    ;
}

impl SelectionOps<VertexId> for Selection {
    open spec fn holds(&self, item: VertexId) -> bool {
        self@.vertices.contains(item)
    }

    fn insert(&mut self, item: VertexId)
        ensures
            final(self)@ == (SelectionModel { vertices: old(self)@.vertices.insert(item), ..old(self)@ }),
    {
        self.vertices.insert(item);
    }

    fn remove(&mut self, item: VertexId)
        ensures
            final(self)@ == (SelectionModel { vertices: old(self)@.vertices.remove(item), ..old(self)@ }),
    {
        self.vertices.remove(item);
    }
}

impl SelectionOps<HalfedgeId> for Selection {
    open spec fn holds(&self, item: HalfedgeId) -> bool {
        self@.halfedges.contains(item)
    }

    fn insert(&mut self, item: HalfedgeId)
        ensures
            final(self)@ == (SelectionModel { halfedges: old(self)@.halfedges.insert(item), ..old(self)@ }),
    {
        self.halfedges.insert(item);
    }

    fn remove(&mut self, item: HalfedgeId)
        ensures
            final(self)@ == (SelectionModel { halfedges: old(self)@.halfedges.remove(item), ..old(self)@ }),
    {
        self.halfedges.remove(item);
    }
}

impl SelectionOps<FaceId> for Selection {
    open spec fn holds(&self, item: FaceId) -> bool {
        self@.faces.contains(item)
    }

    fn insert(&mut self, item: FaceId)
        ensures
            final(self)@ == (SelectionModel { faces: old(self)@.faces.insert(item), ..old(self)@ }),
    {
        self.faces.insert(item);
    }

    fn remove(&mut self, item: FaceId)
        ensures
            final(self)@ == (SelectionModel { faces: old(self)@.faces.remove(item), ..old(self)@ }),
    {
        self.faces.remove(item);
    }
}

impl Default for Selection {
    fn default() -> (created: Self)
        ensures
            created@ == (SelectionModel { vertices: Set::empty(), halfedges: Set::empty(), faces: Set::empty() }),
    {
        Selection { vertices: VertexSet::new(), halfedges: HalfedgeSet::new(), faces: FaceSet::new() }
    }
}

impl From<VertexId> for Selection {
    fn from(value: VertexId) -> (created: Self)
        ensures
            created@ == (SelectionModel { vertices: set![value], halfedges: Set::empty(), faces: Set::empty() }),
    {
        let mut created = Selection::default();
        created.vertices.insert(value);
        created
    }
}

impl vstd::std_specs::convert::FromSpecImpl<VertexId> for Selection {
    open spec fn obeys_from_spec() -> bool {
        false
    }

    open spec fn from_spec(value: VertexId) -> Selection {
        arbitrary()
    }
}

impl From<HalfedgeId> for Selection {
    fn from(value: HalfedgeId) -> (created: Self)
        ensures
            created@ == (SelectionModel { vertices: Set::empty(), halfedges: set![value], faces: Set::empty() }),
    {
        let mut created = Selection::default();
        created.halfedges.insert(value);
        created
    }
}

impl vstd::std_specs::convert::FromSpecImpl<HalfedgeId> for Selection {
    open spec fn obeys_from_spec() -> bool {
        false
    }

    open spec fn from_spec(value: HalfedgeId) -> Selection {
        arbitrary()
    }
}

impl From<FaceId> for Selection {
    fn from(value: FaceId) -> (created: Self)
        ensures
            created@ == (SelectionModel { vertices: Set::empty(), halfedges: Set::empty(), faces: set![value] }),
    {
        let mut created = Selection::default();
        created.faces.insert(value);
        created
    }
}

impl vstd::std_specs::convert::FromSpecImpl<FaceId> for Selection {
    open spec fn obeys_from_spec() -> bool {
        false
    }

    open spec fn from_spec(value: FaceId) -> Selection {
        arbitrary()
    }
}

impl Selection {
    /// A selection of the vertices of `ids`.
    pub fn from_vertices(ids: &Vec<VertexId>) -> (created: Self)
        ensures
            created@ == (SelectionModel { vertices: ids@.to_set(), halfedges: Set::empty(), faces: Set::empty() }),
    {
        Selection { vertices: VertexSet::from_vec(ids), halfedges: HalfedgeSet::new(), faces: FaceSet::new() }
    }

    /// A selection of the halfedges of `ids`.
    pub fn from_halfedges(ids: &Vec<HalfedgeId>) -> (created: Self)
        ensures
            created@ == (SelectionModel { vertices: Set::empty(), halfedges: ids@.to_set(), faces: Set::empty() }),
    {
        Selection { vertices: VertexSet::new(), halfedges: HalfedgeSet::from_vec(ids), faces: FaceSet::new() }
    }

    /// A selection of the faces of `ids`.
    pub fn from_faces(ids: &Vec<FaceId>) -> (created: Self)
        ensures
            created@ == (SelectionModel { vertices: Set::empty(), halfedges: Set::empty(), faces: ids@.to_set() }),
    {
        Selection { vertices: VertexSet::new(), halfedges: HalfedgeSet::new(), faces: FaceSet::from_vec(ids) }
    }

    /// A selection of every face of the mesh, and of nothing else.
    pub fn select_all(mesh_graph: &MeshGraph) -> (created: Self)
        ensures
            created@ == (SelectionModel { vertices: Set::empty(), halfedges: Set::empty(), faces: mesh_graph@.faces.dom() }),
    {
        let ids = mesh_graph.face_ids();
        Selection::from_faces(&ids)
    }

    /// The selected halfedges, with the halfedges of every selected face and the
    /// outgoing halfedges of every selected vertex. An identifier that names no live
    /// element gives nothing.
    #[verifier::rlimit(50)]
    pub fn resolve_to_halfedges(&self, mesh_graph: &MeshGraph) -> (resolved: HalfedgeSet)
        requires
            mesh_graph.wf(),
        ensures
            resolved@ == self@.resolved_halfedges(mesh_graph@),
            self@.halfedges.subset_of(resolved@),
            forall|f: FaceId, i: int| self@.faces.contains(f) && mesh_graph@.faces.dom().contains(f) && 0 <= i < mesh_graph@.face_halfedges(mesh_graph@.faces[f]).len()
                ==> resolved@.contains(#[trigger] mesh_graph@.face_halfedges(mesh_graph@.faces[f])[i]),
            forall|v: VertexId, i: int| self@.vertices.contains(v) && mesh_graph@.vertices.dom().contains(v) && 0 <= i < mesh_graph@.fan(mesh_graph@.vertices[v]).len()
                ==> resolved@.contains(#[trigger] mesh_graph@.fan(mesh_graph@.vertices[v])[i]),
    {
        let mut resolved = self.halfedges.copy();
        let ghost from_faces = |f: FaceId| mesh_graph@.halfedges_of_face(f);
        let faces = self.faces.to_vec();
        proof {
            assert(faces@.take(0) =~= Seq::<FaceId>::empty());
            assert(resolved@ =~= self@.halfedges.union(union_over(faces@.take(0).to_set(), from_faces)));
        }
        let mut i: usize = 0;
        while i < faces.len()
            invariant
                i <= faces.len(),
                mesh_graph.wf(),
                from_faces == |f: FaceId| mesh_graph@.halfedges_of_face(f),
                resolved@ == self@.halfedges.union(union_over(faces@.take(i as int).to_set(), from_faces)),
            decreases faces.len() - i,
        {
            match mesh_graph.face(faces[i]) {
                Some(face) => {
                    let around = face.halfedges(mesh_graph);
                    resolved.extend_from(&around);
                },
                None => {},
            }
            proof {
                lemma_union_over_push(faces@.take(i as int), faces@[i as int], from_faces);
                assert(faces@.take(i as int + 1) =~= faces@.take(i as int).push(faces@[i as int]));
                assert(resolved@ =~= self@.halfedges.union(union_over(faces@.take(i as int + 1).to_set(), from_faces)));
            }
            i = i + 1;
        }
        proof {
            assert(faces@.take(faces@.len() as int) =~= faces@);
        }
        let ghost with_faces = resolved@;
        let ghost from_vertices = |v: VertexId| mesh_graph@.halfedges_of_vertex(v);
        let vertices = self.vertices.to_vec();
        proof {
            assert(vertices@.take(0) =~= Seq::<VertexId>::empty());
            assert(resolved@ =~= with_faces.union(union_over(vertices@.take(0).to_set(), from_vertices)));
        }
        let mut j: usize = 0;
        while j < vertices.len()
            invariant
                j <= vertices.len(),
                mesh_graph.wf(),
                from_vertices == |v: VertexId| mesh_graph@.halfedges_of_vertex(v),
                resolved@ == with_faces.union(union_over(vertices@.take(j as int).to_set(), from_vertices)),
            decreases vertices.len() - j,
        {
            match mesh_graph.vertex(vertices[j]) {
                Some(vertex) => {
                    let fan = vertex.outgoing_halfedges(mesh_graph);
                    resolved.extend_from(&fan);
                },
                None => {},
            }
            proof {
                lemma_union_over_push(vertices@.take(j as int), vertices@[j as int], from_vertices);
                assert(vertices@.take(j as int + 1) =~= vertices@.take(j as int).push(vertices@[j as int]));
                assert(resolved@ =~= with_faces.union(union_over(vertices@.take(j as int + 1).to_set(), from_vertices)));
            }
            j = j + 1;
        }
        proof {
            assert(vertices@.take(vertices@.len() as int) =~= vertices@);
            assert forall|f: FaceId, k: int| self@.faces.contains(f) && mesh_graph@.faces.dom().contains(f) && 0 <= k < mesh_graph@.face_halfedges(mesh_graph@.faces[f]).len()
                implies resolved@.contains(#[trigger] mesh_graph@.face_halfedges(mesh_graph@.faces[f])[k]) by {
                let he = mesh_graph@.face_halfedges(mesh_graph@.faces[f])[k];
                assert(from_faces(f).contains(he));
            }
            assert forall|v: VertexId, k: int| self@.vertices.contains(v) && mesh_graph@.vertices.dom().contains(v) && 0 <= k < mesh_graph@.fan(mesh_graph@.vertices[v]).len()
                implies resolved@.contains(#[trigger] mesh_graph@.fan(mesh_graph@.vertices[v])[k]) by {
                let he = mesh_graph@.fan(mesh_graph@.vertices[v])[k];
                assert(from_vertices(v).contains(he));
            }
        }
        resolved
    }

    /// The selected vertices, with the start and the end of every selected halfedge and
    /// the corners of every selected face. An identifier that names no live element
    /// gives nothing.
    #[verifier::rlimit(50)]
    pub fn resolve_to_vertices(&self, mesh_graph: &MeshGraph) -> (resolved: VertexSet)
        requires
            mesh_graph.wf(),
        ensures
            resolved@ == self@.resolved_vertices(mesh_graph@),
            self@.vertices.subset_of(resolved@),
            forall|he: HalfedgeId| #[trigger] self@.halfedges.contains(he) && mesh_graph@.halfedges.dom().contains(he) ==> resolved@.contains(
                mesh_graph@.halfedges[he].end_vertex,
            ) && (mesh_graph@.start_of(he) is Some ==> resolved@.contains(mesh_graph@.start_of(he)->0)),
            forall|f: FaceId, i: int| self@.faces.contains(f) && mesh_graph@.faces.dom().contains(f) && 0 <= i < mesh_graph@.face_vertices(mesh_graph@.faces[f]).len()
                ==> resolved@.contains(#[trigger] mesh_graph@.face_vertices(mesh_graph@.faces[f])[i]),
    {
        let mut resolved = self.vertices.copy();
        let ghost from_halfedges = |he: HalfedgeId| mesh_graph@.vertices_of_halfedge(he);
        let halfedges = self.halfedges.to_vec();
        proof {
            assert(halfedges@.take(0) =~= Seq::<HalfedgeId>::empty());
            assert(resolved@ =~= self@.vertices.union(union_over(halfedges@.take(0).to_set(), from_halfedges)));
        }
        let mut i: usize = 0;
        while i < halfedges.len()
            invariant
                i <= halfedges.len(),
                mesh_graph.wf(),
                from_halfedges == |he: HalfedgeId| mesh_graph@.vertices_of_halfedge(he),
                resolved@ == self@.vertices.union(union_over(halfedges@.take(i as int).to_set(), from_halfedges)),
            decreases halfedges.len() - i,
        {
            let ghost before = resolved@;
            match mesh_graph.halfedge(halfedges[i]) {
                Some(he) => {
                    match he.start_vertex(mesh_graph) {
                        Some(start) => {
                            resolved.insert(start);
                        },
                        None => {},
                    }
                    resolved.insert(he.end_vertex);
                },
                None => {},
            }
            proof {
                assert(resolved@ =~= before.union(from_halfedges(halfedges@[i as int])));
                lemma_union_over_push(halfedges@.take(i as int), halfedges@[i as int], from_halfedges);
                assert(halfedges@.take(i as int + 1) =~= halfedges@.take(i as int).push(halfedges@[i as int]));
                assert(resolved@ =~= self@.vertices.union(union_over(halfedges@.take(i as int + 1).to_set(), from_halfedges)));
            }
            i = i + 1;
        }
        proof {
            assert(halfedges@.take(halfedges@.len() as int) =~= halfedges@);
        }
        let ghost with_halfedges = resolved@;
        let ghost from_faces = |f: FaceId| mesh_graph@.vertices_of_face(f);
        let faces = self.faces.to_vec();
        proof {
            assert(faces@.take(0) =~= Seq::<FaceId>::empty());
            assert(resolved@ =~= with_halfedges.union(union_over(faces@.take(0).to_set(), from_faces)));
        }
        let mut j: usize = 0;
        while j < faces.len()
            invariant
                j <= faces.len(),
                mesh_graph.wf(),
                from_faces == |f: FaceId| mesh_graph@.vertices_of_face(f),
                resolved@ == with_halfedges.union(union_over(faces@.take(j as int).to_set(), from_faces)),
            decreases faces.len() - j,
        {
            match mesh_graph.face(faces[j]) {
                Some(face) => {
                    let corners = face.vertices(mesh_graph);
                    resolved.extend_from(&corners);
                },
                None => {},
            }
            proof {
                lemma_union_over_push(faces@.take(j as int), faces@[j as int], from_faces);
                assert(faces@.take(j as int + 1) =~= faces@.take(j as int).push(faces@[j as int]));
                assert(resolved@ =~= with_halfedges.union(union_over(faces@.take(j as int + 1).to_set(), from_faces)));
            }
            j = j + 1;
        }
        proof {
            assert(faces@.take(faces@.len() as int) =~= faces@);
            assert forall|he: HalfedgeId| #[trigger] self@.halfedges.contains(he) && mesh_graph@.halfedges.dom().contains(he) implies resolved@.contains(
                mesh_graph@.halfedges[he].end_vertex,
            ) && (mesh_graph@.start_of(he) is Some ==> resolved@.contains(mesh_graph@.start_of(he)->0)) by {
                assert(from_halfedges(he).contains(mesh_graph@.halfedges[he].end_vertex));
                if mesh_graph@.start_of(he) is Some {
                    assert(from_halfedges(he).contains(mesh_graph@.start_of(he)->0));
                }
            }
            assert forall|f: FaceId, k: int| self@.faces.contains(f) && mesh_graph@.faces.dom().contains(f) && 0 <= k < mesh_graph@.face_vertices(mesh_graph@.faces[f]).len()
                implies resolved@.contains(#[trigger] mesh_graph@.face_vertices(mesh_graph@.faces[f])[k]) by {
                let v = mesh_graph@.face_vertices(mesh_graph@.faces[f])[k];
                assert(from_faces(f).contains(v));
            }
        }
        resolved
    }

    /// Grows the selection by one ring: adds every vertex next to a resolved vertex that
    /// is not itself resolved, and returns the vertices that were added.
    #[verifier::rlimit(50)]
    pub fn grow(&mut self, mesh_graph: &MeshGraph) -> (added: VertexSet)
        requires
            mesh_graph.wf(),
        ensures
            added@ == old(self)@.rim(mesh_graph@),
            final(self)@ == (SelectionModel { vertices: old(self)@.vertices.union(added@), ..old(self)@ }),
    {
        let existing = self.resolve_to_vertices(mesh_graph);
        let mut added = VertexSet::new();
        let ghost next_to = |v: VertexId| mesh_graph@.neighbours_of(v);
        let list = existing.to_vec();
        proof {
            assert(list@.take(0) =~= Seq::<VertexId>::empty());
            assert(added@ =~= union_over(list@.take(0).to_set(), next_to).difference(existing@));
            assert(self@.vertices =~= old(self)@.vertices.union(added@));
        }
        let mut i: usize = 0;
        while i < list.len()
            invariant
                i <= list.len(),
                mesh_graph.wf(),
                next_to == |v: VertexId| mesh_graph@.neighbours_of(v),
                existing@ == old(self)@.resolved_vertices(mesh_graph@),
                list@.to_set() == existing@,
                added@ == union_over(list@.take(i as int).to_set(), next_to).difference(existing@),
                self@.vertices == old(self)@.vertices.union(added@),
                self@.halfedges == old(self)@.halfedges,
                self@.faces == old(self)@.faces,
            decreases list.len() - i,
        {
            let ghost added_before = added@;
            match mesh_graph.vertex(list[i]) {
                Some(vertex) => {
                    let neighbours = vertex.neighbours(mesh_graph);
                    let mut k: usize = 0;
                    while k < neighbours.len()
                        invariant
                            k <= neighbours.len(),
                            added@ == added_before.union(neighbours@.take(k as int).to_set().difference(existing@)),
                            self@.vertices == old(self)@.vertices.union(added@),
                            self@.halfedges == old(self)@.halfedges,
                            self@.faces == old(self)@.faces,
                        decreases neighbours.len() - k,
                    {
                        let ghost shorter = neighbours@.take(k as int);
                        if !existing.contains(neighbours[k]) {
                            added.insert(neighbours[k]);
                            self.vertices.insert(neighbours[k]);
                        }
                        proof {
                            crate::idset::lemma_push_to_set(shorter, neighbours@[k as int]);
                            assert(neighbours@.take(k as int + 1) =~= shorter.push(neighbours@[k as int]));
                            assert(added@ =~= added_before.union(neighbours@.take(k as int + 1).to_set().difference(existing@)));
                            assert(self@.vertices =~= old(self)@.vertices.union(added@));
                        }
                        k = k + 1;
                    }
                    proof {
                        assert(neighbours@.take(neighbours@.len() as int) =~= neighbours@);
                    }
                },
                None => {},
            }
            proof {
                assert(added@ =~= added_before.union(next_to(list@[i as int]).difference(existing@)));
                lemma_union_over_push(list@.take(i as int), list@[i as int], next_to);
                assert(list@.take(i as int + 1) =~= list@.take(i as int).push(list@[i as int]));
                assert(added@ =~= union_over(list@.take(i as int + 1).to_set(), next_to).difference(existing@));
            }
            i = i + 1;
        }
        proof {
            assert(list@.take(list@.len() as int) =~= list@);
        }
        added
    }
}

/// What the keys of a sequence with one more at its end give is what the keys of the
/// sequence give and what that one gives.
pub proof fn lemma_union_over_push<A, B>(keys: Seq<A>, key: A, part: spec_fn(A) -> Set<B>)
    ensures
        union_over(keys.push(key).to_set(), part) == union_over(keys.to_set(), part).union(part(key)),
{
    crate::idset::lemma_push_to_set(keys, key);
    let longer = union_over(keys.push(key).to_set(), part);
    let joined = union_over(keys.to_set(), part).union(part(key));
    assert forall|item: B| longer.contains(item) implies joined.contains(item) by {
        let k = choose|k: A| keys.push(key).to_set().contains(k) && #[trigger] part(k).contains(item);
        if k != key {
            assert(keys.to_set().contains(k));
        }
    }
    assert forall|item: B| joined.contains(item) implies longer.contains(item) by {
        if part(key).contains(item) {
            assert(keys.push(key).to_set().contains(key));
        } else {
            let k = choose|k: A| keys.to_set().contains(k) && #[trigger] part(k).contains(item);
            assert(keys.push(key).to_set().contains(k));
        }
    }
    assert(longer =~= joined);
}

} // verus!
