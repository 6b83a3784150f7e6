use glam::{vec3, Mat4, Quat, Vec3};
use mesh_graph::{HalfedgeSet, MeshGraph, VertexId, VertexSet};

fn extend_outer_corners(
    meshgraph: &mut MeshGraph,
    new_vertex_ids: &mut Vec<VertexId>,
    outer_vertex_ids: &[VertexId],
    scalar: f32,
    steps: usize,
) {
    if steps == 0 {
        return;
    }

    let mut corner_vertex_ids = Vec::with_capacity(outer_vertex_ids.len());

    // mesh star corners to make the mesh larger
    for i in 0..outer_vertex_ids.len() {
        let point_1 = meshgraph.position(outer_vertex_ids[i]).unwrap();
        let point_2 = meshgraph
            .position(outer_vertex_ids[(i + 1) % outer_vertex_ids.len()])
            .unwrap();

        let point_3 = point_1
            + ((point_2 - point_1) * 0.5)
            + (point_1 + point_2).normalize() * scalar / steps as f32;
        let vertex_id = meshgraph.insert_vertex(point_3);
        corner_vertex_ids.push(vertex_id);
    }

    for cv_i in 0..corner_vertex_ids.len() {
        let corner_vertex_id = corner_vertex_ids[cv_i];
        let vertex_id = outer_vertex_ids[cv_i];
        let next_vertext_id = outer_vertex_ids[(cv_i + 1) % outer_vertex_ids.len()];
        let halfedge_vertex_to_corner_id = meshgraph
            .insert_or_get_edge(vertex_id, corner_vertex_id)
            .start_to_end_he_id;
        let halfedge_vertex_to_next_vertex_id = meshgraph
            .insert_or_get_edge(vertex_id, next_vertext_id)
            .start_to_end_he_id;

        meshgraph
            .create_face_from_halfedges(
                halfedge_vertex_to_corner_id,
                halfedge_vertex_to_next_vertex_id,
            )
            .unwrap();

        let halfedge_corner_to_next_vertex_id = meshgraph
            .insert_or_get_edge(corner_vertex_id, next_vertext_id)
            .start_to_end_he_id;

        let halfedge_next_vertex_to_next_corner_vertex_id = meshgraph
            .insert_or_get_edge(
                next_vertext_id,
                corner_vertex_ids[(cv_i + 1) % corner_vertex_ids.len()],
            )
            .start_to_end_he_id;

        meshgraph
            .create_face_from_halfedges(
                halfedge_corner_to_next_vertex_id,
                halfedge_next_vertex_to_next_corner_vertex_id,
            )
            .unwrap();
    }

    extend_outer_corners(
        meshgraph,
        new_vertex_ids,
        &corner_vertex_ids,
        scalar,
        steps - 1,
    );

    new_vertex_ids.extend(corner_vertex_ids);
}

/// Extend a mesh graph with new points.
/// Expects the first point to be the geometrical center of the new vertices.
/// Mesh then extends further by `steps` iterations from the center outward.
fn extend_with(
    meshgraph: &mut MeshGraph,
    center_and_points: &[Vec3],
    matrix: Mat4,
    scalar: f32,
    steps: usize,
) -> VertexId {
    let (center, points) = center_and_points.split_first().unwrap();
    let center_id = meshgraph.insert_vertex(*center);

    let mut vertex_ids = Vec::new();
    let mut halfedge_ids = Vec::new();

    for point in points {
        let vertex_id = meshgraph.insert_vertex(*point);
        let halfedge_id = meshgraph
            .insert_or_get_edge(center_id, vertex_id)
            .start_to_end_he_id;

        vertex_ids.push(vertex_id);
        halfedge_ids.push(halfedge_id);
    }

    for i in 0..points.len() {
        meshgraph
            .create_face_from_halfedges(halfedge_ids[i], halfedge_ids[(i + 1) % points.len()])
            .unwrap();
    }

    let mut new_vertex_ids = vertex_ids.clone();
    extend_outer_corners(meshgraph, &mut new_vertex_ids, &vertex_ids, scalar, steps);
    new_vertex_ids.push(center_id);

    for new_vertex_id in new_vertex_ids {
        if let Some(pos) = meshgraph.position(new_vertex_id) {
            meshgraph.set_position(new_vertex_id, matrix.project_point3(pos));
        };
    }

    center_id
}

fn mirror_mat() -> Mat4 {
    Mat4::from_rotation_translation(
        Quat::from_rotation_x(std::f32::consts::PI)
            .mul_quat(Quat::from_rotation_z(std::f32::consts::PI * 0.5)),
        vec3(0.0, 0.0, 3.0),
    )
}

#[test]
fn test_vertex_merge_equal_count() {
    let mut meshgraph = MeshGraph::new();
    let p_c = vec3(0.0, 0.0, 1.0);
    let p_1 = vec3(0.0, 1.0, 0.0);
    let p_2 = vec3(-1.0, 0.5, 0.0);
    let p_3 = vec3(-1.0, -0.5, 0.0);
    let p_4 = vec3(0.0, -1.0, 0.0);
    let p_5 = vec3(1.0, -0.5, 0.0);
    let p_6 = vec3(1.0, 0.5, 0.0);

    let points = vec![p_c, p_1, p_2, p_3, p_4, p_5, p_6];
    let v_c_id = extend_with(&mut meshgraph, &points.clone(), Mat4::default(), 2.0, 1);

    // duplicates a mirrored version of the mesh above
    let v_c_m_id = extend_with(&mut meshgraph, &points, mirror_mat(), 2.0, 1);

    let mut marked_halfedges = HalfedgeSet::new();
    let mut marked_vertices = VertexSet::new();

    let result = meshgraph.merge_vertices_one_rings(
        v_c_id,
        v_c_m_id,
        1.0f32.to_bits(),
        &mut marked_halfedges,
        &mut marked_vertices,
    );

    assert_eq!(result.removed_faces.len(), 12);
    assert_eq!(result.removed_halfedges.len(), 24);
    assert_eq!(result.removed_vertices.len(), 2);

    assert_eq!(result.added_faces.len(), 12);
    assert_eq!(result.added_halfedges.len(), 24);

    assert_eq!(marked_halfedges.len(), 24);
    assert_eq!(marked_vertices.len(), 0);
}

#[test]
fn test_vertex_merge_different_count() {
    let mut meshgraph = MeshGraph::new();
    let p_c = vec3(0.0, 0.0, 1.0);
    let p_1 = vec3(0.0, 1.0, 0.0);
    let p_2 = vec3(-1.0, 0.5, 0.0);
    let p_3 = vec3(-1.0, -0.5, 0.0);
    let p_4 = vec3(0.0, -1.0, 0.0);
    let p_5 = vec3(1.0, -0.5, 0.0);
    let p_6 = vec3(1.0, 0.5, 0.0);

    let v_c_id = extend_with(
        &mut meshgraph,
        &[p_c, p_1, p_2, p_3, p_4, p_5, p_6],
        Mat4::default(),
        2.0,
        1,
    );

    let p_1 = vec3(0.0, 1.0, 0.0);
    let p_2 = vec3(-1.0, 0.0, 0.0);
    let p_3 = vec3(-0.5, -1.0, 0.0);
    let p_4 = vec3(0.5, -1.0, 0.0);
    let p_5 = vec3(1.0, 0.0, 0.0);

    let v_c_m_id = extend_with(
        &mut meshgraph,
        &[p_c, p_1, p_2, p_3, p_4, p_5],
        mirror_mat(),
        2.0,
        1,
    );

    let mut marked_halfedges = HalfedgeSet::new();
    let mut marked_vertices = VertexSet::new();

    let result = meshgraph.merge_vertices_one_rings(
        v_c_id,
        v_c_m_id,
        1.0f32.to_bits(),
        &mut marked_halfedges,
        &mut marked_vertices,
    );

    assert_eq!(result.removed_faces.len(), 11);
    assert_eq!(result.removed_halfedges.len(), 22);
    assert_eq!(result.removed_vertices.len(), 2);

    assert_eq!(result.added_faces.len(), 11);
    assert_eq!(result.added_halfedges.len(), 22);

    assert_eq!(marked_halfedges.len(), 22);
    assert_eq!(marked_vertices.len(), 0);
}

// Two hexagonal fans side by side that share the edge between (1,1,0) and (1,-1,0).
fn two_fans() -> (MeshGraph, VertexId, VertexId) {
    let positions = vec![
        vec3(0.0, 0.0, 0.0),
        vec3(1.0, 1.0, 0.0),
        vec3(0.0, 1.5, 0.0),
        vec3(-1.0, 1.0, 0.0),
        vec3(-1.0, -1.0, 0.0),
        vec3(0.0, -1.5, 0.0),
        vec3(1.0, -1.0, 0.0),
        vec3(2.0, 0.0, 0.0),
        vec3(3.0, 1.0, 0.0),
        vec3(2.0, 1.5, 0.0),
        vec3(2.0, -1.5, 0.0),
        vec3(3.0, -1.0, 0.0),
    ];
    let indices: Vec<usize> = vec![
        0, 1, 2, 0, 2, 3, 0, 3, 4, 0, 4, 5, 0, 5, 6, 0, 6, 1, // round the first centre
        7, 8, 9, 7, 9, 1, 7, 1, 6, 7, 6, 10, 7, 10, 11, 7, 11, 8, // round the second
    ];
    let mesh_graph = MeshGraph::indexed_triangles(&positions, &indices);
    let find = |position: Vec3| {
        mesh_graph
            .vertex_ids()
            .into_iter()
            .find(|id| mesh_graph.position(*id) == Some(position))
            .unwrap()
    };
    let first = find(positions[0]);
    let second = find(positions[7]);
    (mesh_graph, first, second)
}

#[test]
fn two_fans_share_one_edge() {
    let (mesh_graph, first, second) = two_fans();
    assert_eq!(mesh_graph.vertex_count(), 12);
    assert_eq!(mesh_graph.face_count(), 12);
    assert_eq!(mesh_graph.halfedge_count(), 46);
    assert_eq!(mesh_graph.one_ring_vertices(first).len(), 6);
    assert_eq!(mesh_graph.one_ring_vertices(second).len(), 6);
}

#[test]
fn vertices_across_a_short_shared_edge_are_merged_at_once() {
    let (mut mesh_graph, first, second) = two_fans();
    let mut marked_halfedges = HalfedgeSet::new();
    let mut marked_vertices = VertexSet::new();

    // the two centres are 2 apart: within the threshold of 3 squared
    let result = mesh_graph.merge_vertices_one_rings(first, second, 9.0f32.to_bits(), &mut marked_halfedges, &mut marked_vertices);

    // the shared edge was flipped to join the centres and then collapsed
    assert_eq!(result.removed_vertices.len(), 1);
    assert_eq!(result.removed_faces.len(), 2);
    assert!(result.added_faces.is_empty());
    assert!(result.added_halfedges.is_empty());
    assert!(result.added_vertices.is_empty());
    assert_eq!(marked_halfedges.len(), 0);
    assert_eq!(marked_vertices.len(), 0);
    assert_eq!(mesh_graph.vertex_count(), 11);
    assert_eq!(mesh_graph.face_count(), 10);
    assert_eq!(mesh_graph.halfedge_count(), 40);

    // one of the centres is left, in the middle between the two
    let gone = result.removed_vertices[0];
    assert!(gone == first || gone == second);
    let kept = if gone == first { second } else { first };
    assert_eq!(mesh_graph.position(kept), Some(vec3(1.0, 0.0, 0.0)));
    assert!(mesh_graph.vertex(gone).is_none());
    for face in &result.removed_faces {
        assert!(mesh_graph.face(*face).is_none());
    }
}

#[test]
fn a_vertex_with_a_small_ring_is_not_merged() {
    let mut mesh_graph = MeshGraph::new();
    let made = mesh_graph.create_face_from_positions(vec3(0.0, 0.0, 0.0), vec3(1.0, 0.0, 0.0), vec3(0.0, 1.0, 0.0));
    let mut marked_halfedges = HalfedgeSet::new();
    let mut marked_vertices = VertexSet::new();

    let result = mesh_graph.merge_vertices_one_rings(
        made.vertex_ids[0],
        made.vertex_ids[1],
        1.0f32.to_bits(),
        &mut marked_halfedges,
        &mut marked_vertices,
    );

    assert!(result.removed_vertices.is_empty() && result.removed_halfedges.is_empty() && result.removed_faces.is_empty());
    assert!(result.added_vertices.is_empty() && result.added_halfedges.is_empty() && result.added_faces.is_empty());
    assert_eq!(mesh_graph.vertex_count(), 3);
    assert_eq!(mesh_graph.halfedge_count(), 6);
    assert_eq!(mesh_graph.face_count(), 1);
}
