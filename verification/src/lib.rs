//! A halfedge structure for triangle meshes, with stable identifiers, a spatial index
//! and topology-editing operations.

pub mod ids;
pub mod elements;

pub use crate::elements::{Face, Halfedge, Vertex};
pub use crate::ids::{FaceId, HalfedgeId, VertexId};
pub mod arena;
pub mod geometry;
pub mod secondary;
pub mod spatial;
pub mod mesh;

pub use crate::mesh::{MeshGraph, MeshModel};
pub mod traverse;

pub use crate::traverse::WalkStep;
pub mod ops;

pub use crate::ops::insert::InsertOrGetEdge;
pub mod idset;

pub use crate::idset::{FaceSet, HalfedgeSet, VertexSet};
pub use crate::ops::create::{BridgePlan, CreateFace};
pub use crate::ops::topology::FlipParts;
pub mod laws;
pub mod selection;

pub use crate::selection::{Selection, SelectionModel, SelectionOps};
pub use crate::ops::merge_plan::{ConnectPair, IndexRange, Pairing, PlannedFace};
pub use crate::ops::manifold::VertexNeighborhoodCleanup;
pub mod edgemap;

pub use crate::edgemap::EdgeLengths;
pub mod measure;
pub use crate::ops::collapse::{CollapseEdge, RemovedFace};
pub use crate::ops::merge::MergeVerticesOneRing;
pub mod construct;

pub use crate::spatial::SlotTriangle;
pub mod polygon;

pub use crate::ids::PolygonId;
pub use crate::polygon::{Polygon2, Polygon3, PolygonTerminal};
pub mod gridstore;
pub mod hash_grid;

pub use crate::hash_grid::{stitch_segments, GridModel, HashGrid, Segment2};
pub mod persist;

pub use crate::persist::{FaceRecord, HalfedgeRecord, MeshRecords, VertexRecord};
pub mod export;

pub use crate::export::VertexIndexBuffers;
pub mod tetra;

pub use crate::tetra::{boundary_faces_of_tetrahedra, BoundaryFace};
