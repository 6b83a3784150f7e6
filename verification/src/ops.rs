//! The operations that edit a mesh.

pub mod insert;
pub mod delete;
pub mod create;
pub mod topology;
pub mod boundary;
pub mod merge_plan;
pub mod cleanup;
pub mod manifold;
pub mod collapse;
pub mod subdivide;
pub mod merge;
