//! Deleting elements.

use vstd::prelude::*;
use crate::elements::Halfedge;
use crate::idset::HalfedgeSet;
use crate::ids::{FaceId, HalfedgeId, VertexId};
use crate::mesh::{MeshGraph, MeshModel};
use crate::traverse::filter_map_prefix;
use crate::traverse::filter_map_seq;

verus! {

/// `list` without the halfedges of `doomed`, in the same order.
pub open spec fn survivors(list: Seq<HalfedgeId>, doomed: Set<HalfedgeId>) -> Seq<HalfedgeId> {
    filter_map_seq(list, |he: HalfedgeId| if doomed.contains(he) { None } else { Some(he) })
}

impl MeshModel {
    /// The mesh without the vertex `id`: its record, position, normal and list of
    /// outgoing halfedges are gone. Halfedges that name it are left as they are.
    pub open spec fn drop_vertex(self, id: VertexId) -> MeshModel {
        MeshModel {
            vertices: self.vertices.remove(id),
            positions: self.positions.remove(id),
            normals: match self.normals {
                Some(normals) => Some(normals.remove(id)),
                None => None,
            },
            outgoing: self.outgoing.remove(id),
            ..self
        }
    }

    /// The mesh with `he` taken out of the list of outgoing halfedges of the live
    /// vertex `v`.
    pub open spec fn unlist(self, v: VertexId, he: HalfedgeId) -> MeshModel {
        if self.vertices.dom().contains(v) {
            self.put_outgoing(v, survivors(self.outgoing[v], set![he]))
        } else {
            self
        }
    }

    /// The mesh without the halfedge `id`: its record is gone, and the list of
    /// outgoing halfedges of its start vertex no longer holds it. Its twin, and
    /// whatever else names it, are left as they are.
    pub open spec fn drop_halfedge(self, id: HalfedgeId) -> MeshModel {
        let unlisted = match self.start_of(id) {
            Some(start) => self.unlist(start, id),
            None => self,
        };
        MeshModel { halfedges: unlisted.halfedges.remove(id), ..unlisted }
    }

    /// The mesh without the halfedge `id` and without its twin.
    pub open spec fn drop_halfedge_and_twin(self, id: HalfedgeId) -> MeshModel {
        match self.twin_of(id) {
            Some(twin) => self.drop_halfedge(id).drop_halfedge(twin),
            None => self.drop_halfedge(id),
        }
    }

    /// The record of the live halfedge `he` with face and successor cleared.
    pub open spec fn detached_record(self, he: HalfedgeId) -> Halfedge {
        Halfedge { face: None, next: None, ..self.halfedges[he] }
    }

    /// The mesh and the doomed halfedges after the first `n` halfedges of `around` have
    /// been loosened from their face, one after the other.
    ///
    /// A live halfedge whose twin is live is doomed together with its twin where the
    /// twin has no face, is doomed alone where the twin does not point back at it, and
    /// otherwise stays, without face and successor. A live halfedge without a live twin
    /// is doomed. A halfedge that is not live is passed over.
    pub open spec fn face_loosened(self, around: Seq<HalfedgeId>, n: nat) -> (MeshModel, Set<HalfedgeId>)
        decreases n,
    {
        if n == 0 || n > around.len() {
            (self, Set::empty())
        } else {
            let before = self.face_loosened(around, (n - 1) as nat);
            let m = before.0;
            let he = around[n - 1];
            if !m.halfedges.dom().contains(he) {
                before
            } else if m.halfedges[he].twin is Some && m.halfedges.dom().contains(m.halfedges[he].twin->0) {
                let twin = m.halfedges[he].twin->0;
                if m.halfedges[twin].face is None {
                    (m, before.1.insert(he).insert(twin))
                } else if m.halfedges[twin].twin != Some(he) {
                    (m, before.1.insert(he))
                } else {
                    (m.put_halfedge(he, Halfedge { face: None, next: None, ..m.halfedges[he] }), before.1)
                }
            } else {
                (m, before.1.insert(he))
            }
        }
    }

    /// The mesh after the corner `v` of a deleted face has been settled, and whether
    /// the corner went.
    ///
    /// A live corner whose listed outgoing halfedges are all doomed is deleted. One
    /// that keeps some loses the doomed ones from its list, and gets the first
    /// halfedge left in the list as canonical one where its canonical one is doomed.
    pub open spec fn corner_settled(self, v: VertexId, doomed: Set<HalfedgeId>) -> (MeshModel, bool) {
        if !self.outgoing.dom().contains(v) {
            (self, false)
        } else {
            let kept = survivors(self.outgoing[v], doomed);
            if kept.len() == 0 {
                (self.drop_vertex(v), true)
            } else {
                let listed = self.put_outgoing(v, kept);
                if listed.vertices[v].outgoing_halfedge is Some && doomed.contains(listed.vertices[v].outgoing_halfedge->0) {
                    (listed.put_canonical(v, Some(kept[0])), false)
                } else {
                    (listed, false)
                }
            }
        }
    }

    /// The mesh after the first `n` corners of `corners` have been settled, one after
    /// the other, and the corners that went, in their order.
    pub open spec fn corners_settled(self, corners: Seq<VertexId>, doomed: Set<HalfedgeId>, n: nat) -> (MeshModel, Seq<VertexId>)
        decreases n,
    {
        if n == 0 || n > corners.len() {
            (self, Seq::empty())
        } else {
            let before = self.corners_settled(corners, doomed, (n - 1) as nat);
            let step = before.0.corner_settled(corners[n - 1], doomed);
            (
                step.0,
                if step.1 {
                    before.1.push(corners[n - 1])
                } else {
                    before.1
                },
            )
        }
    }

    /// The halfedges that go with the live face `f`.
    pub open spec fn doomed_with(self, f: FaceId) -> Set<HalfedgeId> {
        self.face_loosened(self.face_halfedges(self.faces[f]), self.face_halfedges(self.faces[f]).len()).1
    }

    /// The vertices that go with the live face `f`, in the order of its corners.
    pub open spec fn vertices_gone_with(self, f: FaceId) -> Seq<VertexId> {
        let face = self.faces[f];
        let loose = self.face_loosened(self.face_halfedges(face), self.face_halfedges(face).len());
        loose.0.corners_settled(self.face_vertices(face), loose.1, self.face_vertices(face).len()).1
    }

    /// The mesh without the live face `f`: its halfedges are loosened, its corners are
    /// settled, the doomed halfedges are gone, and so is the face.
    pub open spec fn without_face(self, f: FaceId) -> MeshModel {
        let face = self.faces[f];
        let loose = self.face_loosened(self.face_halfedges(face), self.face_halfedges(face).len());
        let settled = loose.0.corners_settled(self.face_vertices(face), loose.1, self.face_vertices(face).len()).0;
        MeshModel { halfedges: settled.halfedges.remove_keys(loose.1), faces: settled.faces.remove(f), ..settled }
    }

    /// Whether the deletion of the face `f` turns this mesh into `after` and gives the
    /// deleted vertices `gone_vertices` and the deleted halfedges `gone_halfedges`.
    ///
    /// The face is gone, and so is every element of the two lists; nothing else is.
    /// Nothing happens where the face is not live. A halfedge of the face that stays
    /// has lost its face and its successor, and every other halfedge is as it was. The
    /// deleted halfedges are halfedges of the face or twins of such, the deleted
    /// vertices corners of the face. A corner that stays has lost the deleted halfedges
    /// from its list; every other vertex is as it was; no vertex is moved.
    pub open spec fn delete_gives(self, f: FaceId, after: MeshModel, gone_vertices: Seq<VertexId>, gone_halfedges: Seq<HalfedgeId>) -> bool {
        &&& after.wf()
        &&& !after.faces.dom().contains(f)
        &&& forall|i: int| 0 <= i < gone_vertices.len() ==> !after.vertices.dom().contains(#[trigger] gone_vertices[i])
        &&& forall|i: int| 0 <= i < gone_halfedges.len() ==> !after.halfedges.dom().contains(#[trigger] gone_halfedges[i])
        &&& !self.faces.dom().contains(f) ==> after == self && gone_vertices.len() == 0 && gone_halfedges.len() == 0
        &&& after.faces == self.faces.remove(f)
        &&& after.slots == self.slots
        &&& gone_vertices.no_duplicates()
        &&& gone_halfedges.no_duplicates()
        &&& gone_vertices.to_set().subset_of(self.vertices.dom())
        &&& gone_halfedges.to_set().subset_of(self.halfedges.dom())
        &&& after.vertices.dom() == self.vertices.dom().difference(gone_vertices.to_set())
        &&& after.halfedges.dom() == self.halfedges.dom().difference(gone_halfedges.to_set())
        &&& self.faces.dom().contains(f) ==> after == self.without_face(f) && gone_vertices == self.vertices_gone_with(f) && gone_halfedges.to_set()
            == self.doomed_with(f)
        &&& self.faces.dom().contains(f) ==> {
            let face = self.faces[f];
            let around = self.face_halfedges(face);
            let corners = self.face_vertices(face);
            &&& forall|he: HalfedgeId| #[trigger]
                after.halfedges.dom().contains(he) ==> after.halfedges[he] == (if around.contains(he) {
                    self.detached_record(he)
                } else {
                    self.halfedges[he]
                })
            &&& forall|i: int|
                0 <= i < gone_halfedges.len() ==> around.contains(#[trigger] gone_halfedges[i]) || exists|k: int|
                    0 <= k < around.len() && self.twin_of(#[trigger] around[k]) == Some(gone_halfedges[i])
            &&& forall|i: int| 0 <= i < gone_vertices.len() ==> corners.contains(#[trigger] gone_vertices[i])
            &&& forall|v: VertexId| #[trigger]
                after.vertices.dom().contains(v) ==> {
                    &&& after.positions[v] == self.positions[v]
                    &&& !corners.contains(v) ==> after.vertices[v] == self.vertices[v] && after.outgoing[v] == self.outgoing[v]
                    &&& corners.contains(v) ==> after.outgoing[v] == survivors(self.outgoing[v], gone_halfedges.to_set())
                }
        }
    }
}

impl MeshGraph {
    /// Erases a vertex with its position, its normal and its list of outgoing
    /// halfedges, without looking at the halfedges that may still name it.
    pub fn delete_only_vertex(&mut self, vertex_id: VertexId)
        requires
            old(self).wf(),
        ensures
            final(self).wf(),
            final(self).filed() == old(self).filed(),
            final(self).vertex_keys() == (if old(self)@.vertices.dom().contains(vertex_id) {
                (old(self).vertex_keys().0.push(crate::arena::bumped(vertex_id.raw)), old(self).vertex_keys().1)
            } else {
                old(self).vertex_keys()
            }),
            final(self).halfedge_keys() == old(self).halfedge_keys(),
            final(self).face_keys() == old(self).face_keys(),
            final(self)@ == old(self)@.drop_vertex(vertex_id),
    {
        if vertex_id.is_canonical() {
            self.vertices.remove(vertex_id);
            self.positions.remove(vertex_id);
            self.outgoing_halfedges.remove(vertex_id);
            match &mut self.vertex_normals {
                Some(table) => {
                    table.remove(vertex_id);
                },
                None => {},
            }
        }
        proof {
            let target = old(self)@.drop_vertex(vertex_id);
            assert(self@.vertices =~= target.vertices);
            assert(self@.positions =~= target.positions);
            assert(self@.outgoing =~= target.outgoing);
            if old(self)@.normals is Some {
                assert(self@.normals->0 =~= target.normals->0);
            }
        }
    }

    /// Takes `he` out of the list of outgoing halfedges of a live vertex.
    pub(crate) fn unlist(&mut self, vertex_id: VertexId, he: HalfedgeId)
        requires
            old(self).wf(),
        ensures
            final(self).wf(),
            final(self).filed() == old(self).filed(),
            final(self)@ == old(self)@.unlist(vertex_id, he),
    {
        match self.outgoing_halfedge_list(vertex_id) {
            Some(list) => {
                let mut kept: Vec<HalfedgeId> = Vec::new();
                let ghost f = |h: HalfedgeId| if set![he].contains(h) { None } else { Some(h) };
                let mut i: usize = 0;
                while i < list.len()
                    invariant
                        i <= list.len(),
                        f == |h: HalfedgeId| if set![he].contains(h) { None } else { Some(h) },
                        kept@ == filter_map_prefix(list@, f, i as nat),
                    decreases list.len() - i,
                {
                    if list[i] != he {
                        kept.push(list[i]);
                    }
                    i = i + 1;
                }
                self.set_outgoing_halfedge_list(vertex_id, kept);
            },
            None => {},
        }
    }

    /// Removes one halfedge from its arena and from the list of outgoing halfedges of
    /// its start vertex. Twin, successor and face are not looked at.
    pub fn delete_only_halfedge(&mut self, he_id: HalfedgeId)
        requires
            old(self).wf(),
        ensures
            final(self).wf(),
            final(self).filed() == old(self).filed(),
            final(self)@ == old(self)@.drop_halfedge(he_id),
    {
        match self.halfedge(he_id) {
            Some(he) => {
                match he.start_vertex(self) {
                    Some(start) => {
                        self.unlist(start, he_id);
                    },
                    None => {},
                }
                self.halfedges.remove(he_id);
            },
            None => {
                proof {
                    assert(self@.halfedges =~= self@.halfedges.remove(he_id));
                }
            },
        }
    }

    /// Removes one halfedge and its twin, each as `delete_only_halfedge` does.
    pub fn delete_only_halfedge_and_twin(&mut self, he_id: HalfedgeId)
        requires
            old(self).wf(),
        ensures
            final(self).wf(),
            final(self).filed() == old(self).filed(),
            final(self)@ == old(self)@.drop_halfedge_and_twin(he_id),
    {
        let twin = match self.halfedge(he_id) {
            Some(he) => he.twin,
            None => None,
        };
        self.delete_only_halfedge(he_id);
        match twin {
            Some(twin_id) => {
                self.delete_only_halfedge(twin_id);
            },
            None => {},
        }
    }
    /// Removes one halfedge record from the arena; nothing else changes.
    pub(crate) fn erase_halfedge(&mut self, he_id: HalfedgeId)
        requires
            old(self).wf(),
        ensures
            final(self).wf(),
            final(self).filed() == old(self).filed(),
            final(self).vertex_keys() == old(self).vertex_keys(),
            final(self).face_keys() == old(self).face_keys(),
            final(self).halfedge_keys() == (if old(self)@.halfedges.dom().contains(he_id) {
                (old(self).halfedge_keys().0.push(crate::arena::bumped(he_id.raw)), old(self).halfedge_keys().1)
            } else {
                old(self).halfedge_keys()
            }),
            final(self)@ == (MeshModel { halfedges: old(self)@.halfedges.remove(he_id), ..old(self)@ }),
    {
        if he_id.is_canonical() {
            self.halfedges.remove(he_id);
        } else {
            proof {
                assert(self@.halfedges =~= self@.halfedges.remove(he_id));
            }
        }
    }

    /// Deletes a face.
    ///
    /// Each halfedge of the face goes with its twin where the twin has no face; goes
    /// alone where it has no live twin or its twin does not point back; and otherwise
    /// stays, without face and successor, as a new boundary halfedge. A corner of the
    /// face whose listed outgoing halfedges all go is deleted with them; a corner that
    /// stays loses the gone halfedges from its list, and gets the first halfedge left
    /// in the list as canonical one where its canonical one is gone. The slot of the
    /// face is taken out of the spatial index.
    ///
    /// Returns the deleted vertices and the deleted halfedges. Where the face is not
    /// live nothing happens.
    #[verifier::rlimit(50)]
    pub fn delete_face(&mut self, face_id: FaceId) -> (removed: (Vec<VertexId>, Vec<HalfedgeId>))
        requires
            old(self).wf(),
        ensures
            final(self).wf(),
            old(self)@.delete_gives(face_id, final(self)@, removed.0@, removed.1@),
            final(self).filed() == (if old(self)@.faces.dom().contains(face_id) {
                old(self).filed().remove(old(self)@.faces[face_id].index)
            } else {
                old(self).filed()
            }),
    {
        let face = match self.face(face_id) {
            Some(face) => face,
            None => {
                proof {
                    assert(self@.faces =~= self@.faces.remove(face_id));
                    assert(self@.vertices.dom() =~= self@.vertices.dom().difference(Seq::<VertexId>::empty().to_set()));
                    assert(self@.halfedges.dom() =~= self@.halfedges.dom().difference(Seq::<HalfedgeId>::empty().to_set()));
                }
                return (Vec::new(), Vec::new());
            },
        };
        let around = face.halfedges(self);
        let corners = face.vertices(self);
        let mut doomed = HalfedgeSet::new();

        let mut i: usize = 0;
        while i < around.len()
            invariant
                i <= around.len(),
                self.filed() == old(self).filed(),
                self.wf(),
                old(self).wf(),
                around@ == old(self)@.face_halfedges(face),
                self@.vertices == old(self)@.vertices,
                self@.faces == old(self)@.faces,
                self@.positions == old(self)@.positions,
                self@.normals == old(self)@.normals,
                self@.outgoing == old(self)@.outgoing,
                self@.slots == old(self)@.slots,
                self@.halfedges.dom() == old(self)@.halfedges.dom(),
                doomed@.finite(),
                doomed@.subset_of(old(self)@.halfedges.dom()),
                (self@, doomed@) == old(self)@.face_loosened(around@, i as nat),
                forall|he: HalfedgeId| #[trigger] doomed@.contains(he) ==> around@.contains(he) || exists|k: int| 0 <= k < around@.len() && old(self)@.twin_of(#[trigger] around@[k]) == Some(he),
                forall|he: HalfedgeId| #[trigger] self@.halfedges.dom().contains(he) ==> {
                    &&& self@.halfedges[he] == old(self)@.halfedges[he] || (around@.contains(he) && self@.halfedges[he] == old(self)@.detached_record(he))
                    &&& self@.halfedges[he].twin == old(self)@.halfedges[he].twin
                },
                forall|k: int| 0 <= k < i && self@.halfedges.dom().contains(#[trigger] around@[k]) ==> doomed@.contains(around@[k]) || self@.halfedges[around@[k]] == old(self)@.detached_record(around@[k]),
            decreases around.len() - i,
        {
            let he_id = around[i];
            let ghost before = self@;
            match self.halfedge(he_id) {
                Some(he) => {
                    let twin = match he.twin {
                        Some(twin_id) => match self.halfedge(twin_id) {
                            Some(twin_he) => Some((twin_id, twin_he)),
                            None => None,
                        },
                        None => None,
                    };
                    match twin {
                        Some((twin_id, twin_he)) => {
                            if twin_he.is_boundary() {
                                doomed.insert(he_id);
                                doomed.insert(twin_id);
                                proof {
                                    assert(old(self)@.twin_of(around@[i as int]) == Some(twin_id));
                                }
                            } else if !same_halfedge(twin_he.twin, Some(he_id)) {
                                doomed.insert(he_id);
                            } else {
                                self.set_halfedge(he_id, Halfedge { end_vertex: he.end_vertex, face: None, twin: he.twin, next: None });
                                proof {
                                    assert(self@.halfedges.dom() =~= before.halfedges.dom());
                                    assert(before.halfedges[he_id].end_vertex == old(self)@.halfedges[he_id].end_vertex);
                                    assert(self@.halfedges[he_id] == old(self)@.detached_record(he_id));
                                }
                            }
                        },
                        None => {
                            doomed.insert(he_id);
                        },
                    }
                },
                None => {},
            }
            i = i + 1;
        }

        let ghost mid = self@;
        let doomed_list = doomed.to_vec();
        let mut deleted_vertices: Vec<VertexId> = Vec::new();
        let mut j: usize = 0;
        while j < corners.len()
            invariant
                j <= corners.len(),
                self.filed() == old(self).filed(),
                (self@, deleted_vertices@) == mid.corners_settled(corners@, doomed@, j as nat),
                self.wf(),
                old(self).wf(),
                corners@ == old(self)@.face_vertices(face),
                doomed_list@.to_set() == doomed@,
                self@.halfedges == mid.halfedges,
                self@.faces == old(self)@.faces,
                self@.slots == old(self)@.slots,
                deleted_vertices@.no_duplicates(),
                deleted_vertices@.to_set().subset_of(old(self)@.vertices.dom()),
                self@.vertices.dom() == old(self)@.vertices.dom().difference(deleted_vertices@.to_set()),
                forall|k: int| 0 <= k < deleted_vertices@.len() ==> corners@.contains(#[trigger] deleted_vertices@[k]),
                forall|v: VertexId| #[trigger] self@.vertices.dom().contains(v) ==> {
                    &&& self@.positions[v] == old(self)@.positions[v]
                    &&& !corners@.contains(v) ==> self@.vertices[v] == old(self)@.vertices[v]
                            && self@.outgoing[v] == old(self)@.outgoing[v]
                    &&& self@.outgoing[v] == old(self)@.outgoing[v] || self@.outgoing[v] == survivors(old(self)@.outgoing[v], doomed@)
                },
                forall|k: int| 0 <= k < j && self@.vertices.dom().contains(#[trigger] corners@[k]) ==> self@.outgoing[corners@[k]] == survivors(old(self)@.outgoing[corners@[k]], doomed@),
            decreases corners.len() - j,
        {
            let v = corners[j];
            let ghost before = self@;
            match self.outgoing_halfedge_list(v) {
                Some(list) => {
                    let mut kept: Vec<HalfedgeId> = Vec::new();
                    let ghost f = |h: HalfedgeId| if doomed@.contains(h) { None } else { Some(h) };
                    let mut k: usize = 0;
                    while k < list.len()
                        invariant
                            k <= list.len(),
                            f == |h: HalfedgeId| if doomed@.contains(h) { None } else { Some(h) },
                            kept@ == filter_map_prefix(list@, f, k as nat),
                        decreases list.len() - k,
                    {
                        if !doomed.contains(list[k]) {
                            kept.push(list[k]);
                        }
                        k = k + 1;
                    }
                    proof {
                        assert(kept@ == survivors(list@, doomed@));
                        lemma_survivors_idempotent(old(self)@.outgoing[v], doomed@);
                    }
                    if kept.len() == 0 {
                        self.delete_only_vertex(v);
                        proof {
                            assert(!deleted_vertices@.contains(v)) by {
                                if deleted_vertices@.contains(v) {
                                    assert(deleted_vertices@.to_set().contains(v));
                                }
                            }
                        }
                        let ghost earlier = deleted_vertices@;
                        deleted_vertices.push(v);
                        proof {
                            let grown = deleted_vertices@;
                            let shorter = grown.drop_last();
                            assert(shorter =~= earlier);
                            assert(self@.vertices.dom() =~= before.vertices.dom().remove(v));
                            assert(grown.to_set() =~= shorter.to_set().insert(v)) by {
                                assert forall|x: VertexId| grown.to_set().contains(x) implies shorter.to_set().insert(v).contains(x) by {
                                    let q = choose|q: int| 0 <= q < grown.len() && grown[q] == x;
                                    if q < shorter.len() {
                                        assert(shorter[q] == x);
                                    }
                                }
                                assert forall|x: VertexId| shorter.to_set().insert(v).contains(x) implies grown.to_set().contains(x) by {
                                    if x == v {
                                        assert(grown[grown.len() - 1] == v);
                                    } else {
                                        let q = choose|q: int| 0 <= q < shorter.len() && shorter[q] == x;
                                        assert(grown[q] == x);
                                    }
                                }
                            }
                            assert(self@.vertices.dom() =~= old(self)@.vertices.dom().difference(grown.to_set()));
                            assert(corners@[j as int] == v);
                        }
                    } else {
                        let first_kept = kept[0];
                        self.set_outgoing_halfedge_list(v, kept);
                        match self.vertex(v) {
                            Some(vertex) => match vertex.outgoing_halfedge {
                                Some(canonical) => {
                                    if doomed.contains(canonical) {
                                        self.set_canonical(v, Some(first_kept));
                                    }
                                },
                                None => {},
                            },
                            None => {},
                        }
                        proof {
                            assert(self@.vertices.dom() =~= before.vertices.dom());
                            assert(corners@[j as int] == v);
                        }
                    }
                },
                None => {},
            }
            j = j + 1;
        }

        let ghost late = self@;
        let mut m: usize = 0;
        while m < doomed_list.len()
            invariant
                m <= doomed_list.len(),
                self.filed() == old(self).filed(),
                self.wf(),
                doomed_list@.no_duplicates(),
                doomed_list@.to_set().subset_of(mid.halfedges.dom()),
                self@.vertices == late.vertices,
                self@.faces == late.faces,
                self@.positions == late.positions,
                self@.normals == late.normals,
                self@.outgoing == late.outgoing,
                self@.slots == late.slots,
                self@.halfedges.dom() == mid.halfedges.dom().difference(doomed_list@.take(m as int).to_set()),
                late.halfedges == mid.halfedges,
                forall|he: HalfedgeId| #[trigger] self@.halfedges.dom().contains(he) ==> self@.halfedges[he] == mid.halfedges[he],
            decreases doomed_list.len() - m,
        {
            self.erase_halfedge(doomed_list[m]);
            proof {
                let taken = doomed_list@.take(m as int);
                let more = doomed_list@.take(m as int + 1);
                assert(more =~= taken.push(doomed_list@[m as int]));
                assert(more.to_set() =~= taken.to_set().insert(doomed_list@[m as int])) by {
                    assert forall|x: HalfedgeId| more.to_set().contains(x) implies taken.to_set().insert(doomed_list@[m as int]).contains(x) by {
                        let q = choose|q: int| 0 <= q < more.len() && more[q] == x;
                        if q < taken.len() {
                            assert(taken[q] == x);
                        }
                    }
                    assert forall|x: HalfedgeId| taken.to_set().insert(doomed_list@[m as int]).contains(x) implies more.to_set().contains(x) by {
                        if x == doomed_list@[m as int] {
                            assert(more[m as int] == x);
                        } else {
                            let q = choose|q: int| 0 <= q < taken.len() && taken[q] == x;
                            assert(more[q] == x);
                        }
                    }
                }
                assert(self@.halfedges.dom() =~= mid.halfedges.dom().difference(more.to_set()));
            }
            m = m + 1;
        }
        proof {
            assert(doomed_list@.take(doomed_list@.len() as int) =~= doomed_list@);
        }

        self.bvh.remove(face.index);
        self.faces.remove(face_id);
        proof {
            assert(self@.halfedges =~= late.halfedges.remove_keys(doomed@));
            assert(self@ == old(self)@.without_face(face_id));
        }
        proof {
            assert forall|i: int| 0 <= i < deleted_vertices@.len() implies !self@.vertices.dom().contains(#[trigger] deleted_vertices@[i]) by {
                assert(deleted_vertices@.to_set().contains(deleted_vertices@[i]));
            }
            assert forall|i: int| 0 <= i < doomed_list@.len() implies !self@.halfedges.dom().contains(#[trigger] doomed_list@[i]) by {
                assert(doomed_list@.to_set().contains(doomed_list@[i]));
            }
            assert forall|i: int| 0 <= i < doomed_list@.len() implies around@.contains(#[trigger] doomed_list@[i]) || exists|k: int| 0 <= k < around@.len() && old(self)@.twin_of(#[trigger] around@[k]) == Some(doomed_list@[i]) by {
                assert(doomed_list@.to_set().contains(doomed_list@[i]));
                assert(doomed@.contains(doomed_list@[i]));
            }
            assert forall|he: HalfedgeId| #[trigger] self@.halfedges.dom().contains(he) implies self@.halfedges[he] == (
                if around@.contains(he) {
                    old(self)@.detached_record(he)
                } else {
                    old(self)@.halfedges[he]
                }) by {
                assert(mid.halfedges.dom().contains(he));
                assert(!doomed@.contains(he));
                if around@.contains(he) {
                    let k = choose|k: int| 0 <= k < around@.len() && around@[k] == he;
                    assert(mid.halfedges.dom().contains(around@[k]));
                }
            }
            assert forall|v: VertexId| #[trigger] self@.vertices.dom().contains(v) && corners@.contains(v) implies self@.outgoing[v] == survivors(old(self)@.outgoing[v], doomed_list@.to_set()) by {
                let k = choose|k: int| 0 <= k < corners@.len() && corners@[k] == v;
                assert(late.vertices.dom().contains(corners@[k]));
            }
        }
        (deleted_vertices, doomed_list)
    }
}

/// Whether two optional halfedge identifiers are the same.
pub(crate) fn same_halfedge(a: Option<HalfedgeId>, b: Option<HalfedgeId>) -> (same: bool)
    ensures
        same == (a == b),
{
    match a {
        Some(x) => match b {
            Some(y) => x == y,
            None => false,
        },
        None => b.is_none(),
    }
}

/// Taking the same halfedges out a second time changes nothing.
pub proof fn lemma_survivors_idempotent(list: Seq<HalfedgeId>, doomed: Set<HalfedgeId>)
    ensures
        survivors(survivors(list, doomed), doomed) == survivors(list, doomed),
{
    let f = |he: HalfedgeId| if doomed.contains(he) { None } else { Some(he) };
    lemma_filter_map_kept(list, f, list.len());
    let once = survivors(list, doomed);
    lemma_filter_map_all_kept(once, f, once.len());
    assert(survivors(once, doomed) =~= once);
}

/// Every item that a filter lets through is one of the items and passes the filter.
pub proof fn lemma_filter_map_kept(list: Seq<HalfedgeId>, f: spec_fn(HalfedgeId) -> Option<HalfedgeId>, n: nat)
    requires
        n <= list.len(),
        forall|he: HalfedgeId| f(he) is Some ==> f(he) == Some(he),
    ensures
        forall|k: int| 0 <= k < filter_map_prefix(list, f, n).len() ==> f(#[trigger] filter_map_prefix(list, f, n)[k]) is Some,
    decreases n,
{
    if n > 0 {
        lemma_filter_map_kept(list, f, (n - 1) as nat);
        let before = filter_map_prefix(list, f, (n - 1) as nat);
        let now = filter_map_prefix(list, f, n);
        assert forall|k: int| 0 <= k < now.len() implies f(#[trigger] now[k]) is Some by {
            if k < before.len() {
                assert(now[k] == before[k]);
            } else {
                let last = list[n - 1];
                assert(f(last) is Some);
                assert(f(last) == Some(last));
                assert(now == before.push(last));
                assert(now[k] == last);
            }
        }
    }
}

/// A filter that lets every item of a list through gives the list back.
pub proof fn lemma_filter_map_all_kept(list: Seq<HalfedgeId>, f: spec_fn(HalfedgeId) -> Option<HalfedgeId>, n: nat)
    requires
        n <= list.len(),
        forall|k: int| 0 <= k < list.len() ==> f(#[trigger] list[k]) == Some(list[k]),
    ensures
        filter_map_prefix(list, f, n) == list.take(n as int),
    decreases n,
{
    if n > 0 {
        lemma_filter_map_all_kept(list, f, (n - 1) as nat);
        assert(list.take(n as int) =~= list.take(n as int - 1).push(list[n as int - 1]));
    } else {
        assert(list.take(0) =~= Seq::<HalfedgeId>::empty());
    }
}

} // verus!
