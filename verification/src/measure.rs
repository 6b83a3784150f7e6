//! Lengths and normals of elements.
//!
//! A length is handed out as the bit pattern of a single-precision number. A squared
//! length is never negative, so two of them that are numbers compare as their bit
//! patterns do.

use vstd::prelude::*;
use crate::elements::{Face, Halfedge};
use crate::geometry::{
    cross, difference, distance, distance_squared, length_squared, normalized, vec3_cross, vec3_difference, vec3_distance,
    vec3_distance_squared, vec3_length_squared, vec3_normalized,
};
use crate::mesh::{MeshGraph, MeshModel};

verus! {

impl MeshModel {
    /// The positions of the start and of the end of `h`, where both are found.
    pub open spec fn span_of(self, h: Halfedge) -> Option<(glam::Vec3, glam::Vec3)> {
        match self.start_vertex_of(h) {
            Some(start) => if self.positions.dom().contains(start) && self.positions.dom().contains(h.end_vertex) {
                Some((self.positions[start], self.positions[h.end_vertex]))
            } else {
                None
            },
            None => None,
        }
    }

    /// The squared length of `h` as a bit pattern; nought where an end is not found.
    pub open spec fn length_squared_of(self, h: Halfedge) -> u32 {
        match self.span_of(h) {
            Some(span) => vec3_distance_squared(span.0, span.1),
            None => 0,
        }
    }

    /// The length of `h` as a bit pattern; nought where an end is not found.
    pub open spec fn length_of(self, h: Halfedge) -> u32 {
        match self.span_of(h) {
            Some(span) => vec3_distance(span.0, span.1),
            None => 0,
        }
    }

    /// The cross product of the two edges that leave the first corner of a triangle.
    pub open spec fn edge_cross(corners: Seq<glam::Vec3>) -> glam::Vec3 {
        vec3_cross(vec3_difference(corners[1], corners[0]), vec3_difference(corners[2], corners[0]))
    }

    /// The normal of the face `f`: the normalized cross product of the two edges that
    /// leave its first corner; nothing where fewer than three corner positions are
    /// found.
    pub open spec fn normal_of(self, f: Face) -> Option<glam::Vec3> {
        if self.face_positions(f).len() < 3 {
            None
        } else {
            Some(vec3_normalized(Self::edge_cross(self.face_positions(f))))
        }
    }

    /// Whether the face `f` has three corner positions of which two are closer than
    /// `epsilon_squared`, or whose edge cross product is shorter than that, all in
    /// squared lengths.
    pub open spec fn degenerate(self, f: Face, epsilon_squared: u32) -> bool {
        let corners = self.face_positions(f);
        corners.len() >= 3 && (vec3_distance_squared(corners[0], corners[1]) < epsilon_squared || vec3_distance_squared(
            corners[1],
            corners[2],
        ) < epsilon_squared || vec3_distance_squared(corners[2], corners[0]) < epsilon_squared || vec3_length_squared(
            Self::edge_cross(corners),
        ) < epsilon_squared)
    }
}

impl Halfedge {
    /// The squared length of this halfedge, as a bit pattern; nought where the position
    /// of an end is not found.
    pub fn length_squared(&self, mesh_graph: &MeshGraph) -> (bits: u32)
        requires
            mesh_graph.wf(),
        ensures
            bits == mesh_graph@.length_squared_of(*self),
    {
        match self.start_vertex(mesh_graph) {
            Some(start) => match mesh_graph.position(start) {
                Some(from) => match mesh_graph.position(self.end_vertex) {
                    Some(to) => distance_squared(&from, &to),
                    None => 0,
                },
                None => 0,
            },
            None => 0,
        }
    }

    /// The length of this halfedge, as a bit pattern; nought where the position of an
    /// end is not found.
    pub fn length(&self, mesh_graph: &MeshGraph) -> (bits: u32)
        requires
            mesh_graph.wf(),
        ensures
            bits == mesh_graph@.length_of(*self),
    {
        match self.start_vertex(mesh_graph) {
            Some(start) => match mesh_graph.position(start) {
                Some(from) => match mesh_graph.position(self.end_vertex) {
                    Some(to) => distance(&from, &to),
                    None => 0,
                },
                None => 0,
            },
            None => 0,
        }
    }
}

impl Face {
    /// The normal of this triangle; nothing where fewer than three corner positions
    /// are found.
    pub fn normal(&self, mesh_graph: &MeshGraph) -> (normal: Option<glam::Vec3>)
        requires
            mesh_graph.wf(),
        ensures
            normal == mesh_graph@.normal_of(*self),
    {
        let corners = self.vertex_positions(mesh_graph);
        if corners.len() < 3 {
            return None;
        }
        let a = difference(&corners[1], &corners[0]);
        let b = difference(&corners[2], &corners[0]);
        let product = cross(&a, &b);
        Some(normalized(&product))
    }

    /// The bounding box of this triangle: the box round its first three corner
    /// positions; nothing where fewer than three are found.
    pub fn aabb(&self, mesh_graph: &MeshGraph) -> (bounds: Option<parry3d::bounding_volume::Aabb>)
        requires
            mesh_graph.wf(),
        ensures
            bounds == (if mesh_graph@.face_positions(*self).len() >= 3 {
                Some(
                    crate::spatial::triangle_box(
                        mesh_graph@.face_positions(*self)[0],
                        mesh_graph@.face_positions(*self)[1],
                        mesh_graph@.face_positions(*self)[2],
                    ),
                )
            } else {
                None
            }),
    {
        let corners = self.vertex_positions(mesh_graph);
        if corners.len() < 3 {
            return None;
        }
        Some(crate::spatial::box_round(&corners[0], &corners[1], &corners[2]))
    }

    /// Whether this triangle has no area to speak of: two of its corners are closer
    /// than the tolerance, or its corners lie on a line. The tolerance is the bit
    /// pattern of a squared length.
    pub fn is_degenerate(&self, mesh_graph: &MeshGraph, epsilon_squared: u32) -> (degenerate: bool)
        requires
            mesh_graph.wf(),
            epsilon_squared <= crate::geometry::INFINITE,
        ensures
            degenerate == mesh_graph@.degenerate(*self, epsilon_squared),
    {
        let corners = self.vertex_positions(mesh_graph);
        if corners.len() < 3 {
            return false;
        }
        if distance_squared(&corners[0], &corners[1]) < epsilon_squared {
            return true;
        }
        if distance_squared(&corners[1], &corners[2]) < epsilon_squared {
            return true;
        }
        if distance_squared(&corners[2], &corners[0]) < epsilon_squared {
            return true;
        }
        let a = difference(&corners[1], &corners[0]);
        let b = difference(&corners[2], &corners[0]);
        let product = cross(&a, &b);
        length_squared(&product) < epsilon_squared
    }
}

} // verus!
