//! The three kinds of element that a mesh is made of.

use vstd::prelude::*;
use crate::ids::{FaceId, HalfedgeId, VertexId};

verus! {

/// A corner point of the mesh.
#[derive(Clone, Copy, Debug, PartialEq, Eq, Structural)]
pub struct Vertex {
    /// One of the halfedges that start at this vertex; a boundary halfedge where the
    /// boundary fix-up has run and the vertex has one.
    pub outgoing_halfedge: Option<HalfedgeId>,
}

/// A directed edge, part of at most one face.
#[derive(Clone, Copy, Debug, PartialEq, Eq, Structural)]
pub struct Halfedge {
    /// The vertex this halfedge points to.
    pub end_vertex: VertexId,
    /// The face on this side of the edge; `None` for a boundary halfedge.
    pub face: Option<FaceId>,
    /// The halfedge that runs the other way between the same two vertices.
    pub twin: Option<HalfedgeId>,
    /// The halfedge that follows this one around its face.
    pub next: Option<HalfedgeId>,
}

/// A triangle.
#[derive(Clone, Copy, Debug, PartialEq, Eq, Structural)]
pub struct Face {
    /// One of the three halfedges of the face.
    pub halfedge: HalfedgeId,
    /// The slot of this face in the spatial index.
    pub index: u32,
    /// The face's own identifier.
    pub id: FaceId,
}

impl Default for Vertex {
    fn default() -> (r: Self)
        ensures
            r == (Vertex { outgoing_halfedge: None }),
    {
        Vertex { outgoing_halfedge: None }
    }
}

impl Default for Face {
    fn default() -> (r: Self)
        ensures
            r == (Face { halfedge: HalfedgeId::null(), index: 0, id: FaceId::null() }),
    {
        Face { halfedge: HalfedgeId::default(), index: 0, id: FaceId::default() }
    }
}

impl Halfedge {
    /// The twin of this halfedge, for use where it is known to have one: in a mesh
    /// that has been built completely every halfedge has.
    pub fn twin(&self) -> (twin: HalfedgeId)
        requires
            self.twin is Some,
        ensures
            self.twin == Some(twin),
    {
        match self.twin {
            Some(twin) => twin,
            None => HalfedgeId::default(),
        }
    }

    /// A halfedge to `end_vertex` with no twin, no successor and no face.
    pub open spec fn detached(end_vertex: VertexId) -> Halfedge {
        Halfedge { end_vertex, face: None, twin: None, next: None }
    }

    /// Whether no face lies on this side of the edge.
    pub fn is_boundary(&self) -> (r: bool)
        ensures
            r == (self.face is None),
    {
        self.face.is_none()
    }
}

} // verus!
