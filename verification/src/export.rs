//! Laying a mesh out in flat buffers, and handing out its spatial index.

use vstd::prelude::*;
use crate::edgemap::{raw_lengths, RawLengthMap};
use crate::geometry::zero_vector;
use crate::ids::VertexId;
use crate::mesh::{MeshGraph, MeshModel};

verus! {

/// A mesh as a list of triangles: one position and one normal for each vertex, and three
/// positions in these lists for each face.
pub struct VertexIndexBuffers {
    pub positions: Vec<glam::Vec3>,
    pub normals: Vec<glam::Vec3>,
    pub indices: Vec<u32>,
}

impl MeshModel {
    /// Whether the three numbers at `at` in `indices` name the corners of a live face,
    /// in their order round it, by the place of each corner in `ids`.
    pub open spec fn triangle_listed(self, ids: Seq<VertexId>, indices: Seq<u32>, at: int) -> bool {
        exists|f: crate::ids::FaceId| #[trigger] self.faces.dom().contains(f) && self.face_vertices(self.faces[f]).len() >= 3 && forall|j: int| 0 <= j < 3
            ==> (indices[at + j] as int) < ids.len() && ids[#[trigger] indices[at + j] as int] == self.face_vertices(self.faces[f])[j]
    }

    /// Whether `buffers` lay this mesh out, with its vertices in the order of `ids`:
    /// the positions are those of the vertices, there is a normal for each position,
    /// and every three indices name the corners of a live face.
    pub open spec fn laid_out(self, ids: Seq<VertexId>, positions: Seq<glam::Vec3>, normals: Seq<glam::Vec3>, indices: Seq<u32>) -> bool {
        &&& self.placed_at(ids, positions)
        &&& normals.len() == positions.len()
        &&& forall|k: int| 0 <= k < ids.len() && self.normals is Some && self.normals->0.dom().contains(#[trigger] ids[k]) ==> normals[k]
            == self.normals->0[ids[k]]
        &&& indices.len() % 3 == 0
        &&& forall|t: int| 0 <= t < indices.len() / 3 ==> #[trigger] self.triangle_listed(ids, indices, 3 * t)
    }
}

impl MeshGraph {
    /// The bounding-volume hierarchy of the mesh, for queries: the very index that the
    /// operations of the mesh file the bounding boxes of its faces in.
    pub fn bvh(&self) -> (index: &parry3d::partitioning::Bvh)
        ensures
            crate::spatial::hierarchy_leaves(*index) == self.filed(),
    {
        &self.bvh.bvh
    }

    /// Lays the mesh out in flat buffers. The vertices come in the order in which the
    /// arena hands them out, which is not stated. A vertex without a stored normal
    /// gets the zero vector; a face of which fewer than three corners are live
    /// vertices is left out.
    #[verifier::rlimit(50)]
    pub fn to_buffers(&self) -> (buffers: VertexIndexBuffers)
        requires
            self.wf(),
        ensures
            exists|ids: Seq<VertexId>| #[trigger] self@.laid_out(ids, buffers.positions@, buffers.normals@, buffers.indices@),
            buffers.indices@.len() <= 3 * self@.faces.dom().len(),
    {
        let ids = self.vertex_ids();
        let mut positions: Vec<glam::Vec3> = Vec::new();
        let mut normals: Vec<glam::Vec3> = Vec::new();
        let mut numbers = RawLengthMap::new();
        proof {
            ids@.unique_seq_to_set();
        }
        let mut i: usize = 0;
        while i < ids.len()
            invariant
                i <= ids.len(),
                self.wf(),
                ids@.no_duplicates(),
                ids@.to_set() == self@.vertices.dom(),
                ids@.len() == self@.vertices.dom().len(),
                positions@.len() == i,
                normals@.len() == i,
                forall|k: int| 0 <= k < i ==> positions@[k] == self@.positions[#[trigger] ids@[k]],
                forall|k: int| 0 <= k < i && self@.normals is Some && self@.normals->0.dom().contains(#[trigger] ids@[k]) ==> normals@[k]
                    == self@.normals->0[ids@[k]],
                forall|k: int| 0 <= k < i ==> raw_lengths(numbers).dom().contains((#[trigger] ids@[k]).raw) && raw_lengths(numbers)[ids@[k].raw] == k,
                forall|raw: u64| #[trigger] raw_lengths(numbers).dom().contains(raw) ==> exists|k: int| 0 <= k < i && (#[trigger] ids@[k]).raw == raw,
            decreases ids.len() - i,
        {
            let id = ids[i];
            proof {
                assert(ids@.to_set().contains(id));
            }
            match self.position(id) {
                Some(position) => {
                    positions.push(position);
                },
                None => {
                    proof {
                        assert(false);
                    }
                },
            }
            match self.vertex_normal(id) {
                Some(normal) => {
                    normals.push(normal);
                },
                None => {
                    normals.push(zero_vector());
                },
            }
            let ghost before = raw_lengths(numbers);
            numbers.insert(id.raw, i as u32);
            proof {
                assert forall|k: int| 0 <= k < i + 1 implies raw_lengths(numbers).dom().contains((#[trigger] ids@[k]).raw) && raw_lengths(numbers)[ids@[k].raw] == k by {
                    if k < i {
                        assert(ids@[k] != ids@[i as int]);
                        assert(ids@[k].raw != id.raw);
                    }
                }
                assert forall|raw: u64| #[trigger] raw_lengths(numbers).dom().contains(raw) implies exists|k: int| 0 <= k < i + 1 && (#[trigger] ids@[k]).raw == raw by {
                    if raw == id.raw {
                        assert(ids@[i as int].raw == raw);
                    } else {
                        assert(before.dom().contains(raw));
                        let k = choose|k: int| 0 <= k < i && (#[trigger] ids@[k]).raw == raw;
                        assert(ids@[k].raw == raw);
                    }
                }
            }
            i = i + 1;
        }
        let face_ids = self.face_ids();
        proof {
            face_ids@.unique_seq_to_set();
        }
        let mut indices: Vec<u32> = Vec::new();
        let mut f: usize = 0;
        while f < face_ids.len()
            invariant
                f <= face_ids.len(),
                self.wf(),
                face_ids@.to_set() == self@.faces.dom(),
                face_ids@.len() == self@.faces.dom().len(),
                ids@.len() == self@.vertices.dom().len(),
                indices@.len() % 3 == 0,
                indices@.len() <= 3 * f,
                forall|k: int| 0 <= k < ids@.len() ==> raw_lengths(numbers).dom().contains((#[trigger] ids@[k]).raw) && raw_lengths(numbers)[ids@[k].raw] == k,
                forall|raw: u64| #[trigger] raw_lengths(numbers).dom().contains(raw) ==> exists|k: int| 0 <= k < ids@.len() && (#[trigger] ids@[k]).raw == raw,
                forall|t: int| 0 <= t < indices@.len() / 3 ==> #[trigger] self@.triangle_listed(ids@, indices@, 3 * t),
            decreases face_ids.len() - f,
        {
            proof {
                assert(face_ids@.to_set().contains(face_ids@[f as int]));
            }
            match self.face(face_ids[f]) {
                Some(face) => {
                    let corners = face.vertices(self);
                    if corners.len() >= 3 {
                        match (numbers.get(corners[0].raw), numbers.get(corners[1].raw), numbers.get(corners[2].raw)) {
                            (Some(a), Some(b), Some(c)) => {
                                let ghost before = indices@;
                                indices.push(a);
                                indices.push(b);
                                indices.push(c);
                                proof {
                                    let at = before.len() as int;
                                    let ka = choose|k: int| 0 <= k < ids@.len() && (#[trigger] ids@[k]).raw == corners@[0].raw;
                                    let kb = choose|k: int| 0 <= k < ids@.len() && (#[trigger] ids@[k]).raw == corners@[1].raw;
                                    let kc = choose|k: int| 0 <= k < ids@.len() && (#[trigger] ids@[k]).raw == corners@[2].raw;
                                    assert(ids@[ka] == corners@[0] && a == ka);
                                    assert(ids@[kb] == corners@[1] && b == kb);
                                    assert(ids@[kc] == corners@[2] && c == kc);
                                    assert(self@.triangle_listed(ids@, indices@, at)) by {
                                        let face_id = face_ids@[f as int];
                                        assert(self@.faces.dom().contains(face_id));
                                        assert forall|j: int| 0 <= j < 3 implies (indices@[at + j] as int) < ids@.len() && ids@[#[trigger] indices@[at + j] as int]
                                            == self@.face_vertices(self@.faces[face_id])[j] by {
                                            if j == 0 {
                                                assert(indices@[at] == a);
                                            } else if j == 1 {
                                                assert(indices@[at + 1] == b);
                                            } else {
                                                assert(indices@[at + 2] == c);
                                            }
                                        }
                                    }
                                    assert forall|t: int| 0 <= t < indices@.len() / 3 implies #[trigger] self@.triangle_listed(ids@, indices@, 3 * t) by {
                                        if 3 * t < at {
                                            assert(self@.triangle_listed(ids@, before, 3 * t));
                                            let face_id = choose|face_id: crate::ids::FaceId| #[trigger] self@.faces.dom().contains(face_id) && self@.face_vertices(
                                                self@.faces[face_id],
                                            ).len() >= 3 && forall|j: int| 0 <= j < 3 ==> (before[3 * t + j] as int) < ids@.len() && ids@[#[trigger] before[3 * t
                                                + j] as int] == self@.face_vertices(self@.faces[face_id])[j];
                                            assert forall|j: int| 0 <= j < 3 implies (indices@[3 * t + j] as int) < ids@.len() && ids@[#[trigger] indices@[3 * t
                                                + j] as int] == self@.face_vertices(self@.faces[face_id])[j] by {
                                                assert(indices@[3 * t + j] == before[3 * t + j]);
                                            }
                                        }
                                    }
                                }
                            },
                            _ => {},
                        }
                    }
                },
                None => {},
            }
            f = f + 1;
        }
        let buffers = VertexIndexBuffers { positions, normals, indices };
        proof {
            assert(self@.laid_out(ids@, buffers.positions@, buffers.normals@, buffers.indices@));
        }
        buffers
    }
}

} // verus!
