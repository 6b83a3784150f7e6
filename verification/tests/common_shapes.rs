use glam::Vec3;
use mesh_graph::{MeshGraph, VertexId};

// Two triangles that share the edge between (1,0,0) and (0,1,0).
fn quad() -> MeshGraph {
    let positions = vec![
        Vec3::new(0.0, 0.0, 0.0),
        Vec3::new(1.0, 0.0, 0.0),
        Vec3::new(0.0, 1.0, 0.0),
        Vec3::new(1.0, 1.0, 0.0),
    ];
    let indices: Vec<usize> = vec![0, 1, 2, 1, 3, 2];
    MeshGraph::indexed_triangles(&positions, &indices)
}

fn vertex_at(mesh_graph: &MeshGraph, position: Vec3) -> VertexId {
    mesh_graph
        .vertex_ids()
        .into_iter()
        .find(|id| mesh_graph.position(*id) == Some(position))
        .unwrap()
}

#[test]
fn indexed_triangles_builds_a_quad() {
    let mesh_graph = quad();
    assert_eq!(mesh_graph.vertex_count(), 4);
    assert_eq!(mesh_graph.position_count(), 4);
    assert_eq!(mesh_graph.halfedge_count(), 10);
    assert_eq!(mesh_graph.face_count(), 2);
    assert!(!mesh_graph.has_vertex_normals());
    // every vertex of the quad lies on the boundary, and is seen to
    for v in mesh_graph.vertex_ids() {
        assert!(mesh_graph.vertex(v).unwrap().is_boundary(&mesh_graph));
    }
    for he_id in mesh_graph.halfedge_ids() {
        let he = mesh_graph.halfedge(he_id).unwrap();
        assert_eq!(mesh_graph.halfedge(he.twin.unwrap()).unwrap().twin, Some(he_id));
    }
}

#[test]
fn indexed_triangles_skips_a_triangle_that_names_a_vertex_twice() {
    let positions = vec![
        Vec3::new(0.0, 0.0, 0.0),
        Vec3::new(1.0, 0.0, 0.0),
        Vec3::new(0.0, 1.0, 0.0),
    ];
    let indices: Vec<usize> = vec![0, 1, 1, 0, 1, 2, 2, 0];
    let mesh_graph = MeshGraph::indexed_triangles(&positions, &indices);
    assert_eq!(mesh_graph.vertex_count(), 3);
    assert_eq!(mesh_graph.face_count(), 1);
    assert_eq!(mesh_graph.halfedge_count(), 6);
}

#[test]
fn triangles_merges_positions_that_are_near() {
    let positions = vec![
        Vec3::new(0.0, 0.0, 0.0),
        Vec3::new(1.0, 0.0, 0.0),
        Vec3::new(0.0, 1.0, 0.0),
        Vec3::new(1.0, 0.0, 0.0),
        Vec3::new(1.0, 1.0, 0.0),
        Vec3::new(0.0, 1.0, 0.001),
    ];
    let mesh_graph = MeshGraph::triangles(&positions);
    assert_eq!(mesh_graph.vertex_count(), 4);
    assert_eq!(mesh_graph.face_count(), 2);
    assert_eq!(mesh_graph.halfedge_count(), 10);
    // the first of two near positions is the one that is kept
    assert!(mesh_graph
        .vertex_ids()
        .into_iter()
        .any(|v| mesh_graph.position(v) == Some(Vec3::new(0.0, 1.0, 0.0))));
}

#[test]
fn triangles_keeps_positions_that_are_just_too_far() {
    let positions = vec![
        Vec3::new(0.0, 0.0, 0.0),
        Vec3::new(1.0, 0.0, 0.0),
        Vec3::new(0.0, 1.0, 0.0),
        Vec3::new(1.0, 0.0, 0.0),
        Vec3::new(1.0, 1.0, 0.0),
        Vec3::new(0.0, 1.0, 0.01),
    ];
    let mesh_graph = MeshGraph::triangles(&positions);
    assert_eq!(mesh_graph.vertex_count(), 5);
    assert_eq!(mesh_graph.face_count(), 2);
}

#[test]
fn vertex_normals_of_a_flat_quad_point_up() {
    let mut mesh_graph = quad();
    mesh_graph.compute_vertex_normals();
    assert!(mesh_graph.has_vertex_normals());
    for v in mesh_graph.vertex_ids() {
        assert_eq!(mesh_graph.vertex_normal(v), Some(Vec3::new(0.0, 0.0, 1.0)));
    }
}

#[test]
fn normals_are_absent_until_computed() {
    let mesh_graph = quad();
    for v in mesh_graph.vertex_ids() {
        assert_eq!(mesh_graph.vertex_normal(v), None);
    }
}

#[test]
fn triangle_of_slot_gives_the_corners() {
    let mut mesh_graph = quad();
    let first = mesh_graph.triangle(0).unwrap();
    assert_eq!(first.slot, 0);
    let mut corners = vec![first.a, first.b, first.c];
    corners.sort_by(|p, q| (p.x, p.y).partial_cmp(&(q.x, q.y)).unwrap());
    assert_eq!(
        corners,
        vec![Vec3::new(0.0, 0.0, 0.0), Vec3::new(0.0, 1.0, 0.0), Vec3::new(1.0, 0.0, 0.0)]
    );
    assert!(mesh_graph.triangle(1).is_some());
    assert!(mesh_graph.triangle(2).is_none());
    let face = mesh_graph.face_of_slot(1).unwrap();
    mesh_graph.delete_face(face);
    assert!(mesh_graph.triangle(1).is_none());
    mesh_graph.refit_qbvh();
    mesh_graph.rebalance_qbvh();
    mesh_graph.rebuild_qbvh();
    assert_eq!(mesh_graph.face_count(), 1);
}

#[test]
fn lengths_are_bit_patterns_of_the_numbers() {
    let mut mesh_graph = MeshGraph::new();
    let a = mesh_graph.insert_vertex(Vec3::new(0.0, 0.0, 0.0));
    let b = mesh_graph.insert_vertex(Vec3::new(3.0, 4.0, 0.0));
    let edge = mesh_graph.insert_or_get_edge(a, b);
    let he = mesh_graph.halfedge(edge.start_to_end_he_id).unwrap();
    assert_eq!(he.length_squared(&mesh_graph), 25.0f32.to_bits());
    assert_eq!(he.length(&mesh_graph), 5.0f32.to_bits());
    let lone = mesh_graph.insert_halfedge(a, b);
    let lone = mesh_graph.halfedge(lone).unwrap();
    assert_eq!(lone.length_squared(&mesh_graph), 0.0f32.to_bits());
    assert_eq!(lone.length(&mesh_graph), 0);
}

#[test]
fn face_normal_and_degeneracy() {
    let mesh_graph = quad();
    let origin = vertex_at(&mesh_graph, Vec3::new(0.0, 0.0, 0.0));
    let face_id = mesh_graph.vertex(origin).unwrap().faces(&mesh_graph)[0];
    let face = mesh_graph.face(face_id).unwrap();
    assert_eq!(face.normal(&mesh_graph), Some(Vec3::new(0.0, 0.0, 1.0)));
    assert!(!face.is_degenerate(&mesh_graph, 0.0001f32.to_bits()));
    // two corners are one unit apart: closer than a squared distance of two
    assert!(face.is_degenerate(&mesh_graph, 2.0f32.to_bits()));

    let flat = MeshGraph::indexed_triangles(
        &vec![Vec3::new(0.0, 0.0, 0.0), Vec3::new(1.0, 0.0, 0.0), Vec3::new(2.0, 0.0, 0.0)],
        &vec![0, 1, 2],
    );
    let face = flat.face(flat.face_ids()[0]).unwrap();
    assert!(face.is_degenerate(&flat, 0.0001f32.to_bits()));
}

#[test]
fn coincidence_tests_compare_positions() {
    let mut mesh_graph = MeshGraph::new();
    let first = mesh_graph.create_face_from_positions(
        Vec3::new(0.0, 0.0, 0.0),
        Vec3::new(1.0, 0.0, 0.0),
        Vec3::new(0.0, 1.0, 0.0),
    );
    let second = mesh_graph.create_face_from_positions(
        Vec3::new(0.0, 1.0, 0.0),
        Vec3::new(0.0, 0.0, 0.0),
        Vec3::new(1.0, 0.0, 0.0),
    );
    let third = mesh_graph.create_face_from_positions(
        Vec3::new(0.0, 0.0, 0.0),
        Vec3::new(1.0, 0.0, 0.0),
        Vec3::new(0.0, 0.0, 1.0),
    );
    let fourth = mesh_graph.create_face_from_positions(
        Vec3::new(5.0, 0.0, 0.0),
        Vec3::new(6.0, 0.0, 0.0),
        Vec3::new(5.0, 0.0, 1.0),
    );
    assert!(mesh_graph.faces_share_all_vertices(first.face_id, second.face_id));
    assert!(mesh_graph.faces_share_all_vertices(first.face_id, first.face_id));
    assert!(!mesh_graph.faces_share_all_vertices(first.face_id, third.face_id));
    assert!(!mesh_graph.faces_share_all_vertices(first.face_id, Default::default()));
    assert!(mesh_graph.faces_share_edge(first.face_id, second.face_id));
    assert!(mesh_graph.faces_share_edge(first.face_id, third.face_id));
    assert!(!mesh_graph.faces_share_edge(first.face_id, fourth.face_id));
    assert!(mesh_graph.vertices_share_position(first.vertex_ids[0], second.vertex_ids[1]));
    assert!(!mesh_graph.vertices_share_position(first.vertex_ids[0], second.vertex_ids[0]));
    assert!(!mesh_graph.vertices_share_position(first.vertex_ids[0], Default::default()));
    // the first halfedge of the first and of the third face both run from the origin to (1,0,0)
    assert!(mesh_graph.halfedges_share_all_vertices(first.halfedge_ids[0], third.halfedge_ids[0]));
    assert!(!mesh_graph.halfedges_share_all_vertices(first.halfedge_ids[0], first.halfedge_ids[1]));
    assert!(!mesh_graph.halfedges_share_all_vertices(first.halfedge_ids[0], third.halfedge_ids[2]));
}

#[test]
fn a_sum_of_normals_starts_from_nought() {
    // one triangle: every corner has the normal of that one face, added to nought,
    // and nought plus a negative nought is a positive nought
    let candidates = [
        [Vec3::new(0.0, 0.0, 0.0), Vec3::new(1.0, 0.0, 0.0), Vec3::new(0.0, 1.0, 0.0)],
        [Vec3::new(0.0, 1.0, 0.0), Vec3::new(0.0, 0.0, 0.0), Vec3::new(1.0, 0.0, 0.0)],
        [Vec3::new(1.0, 0.0, 0.0), Vec3::new(0.0, 1.0, 0.0), Vec3::new(0.0, 0.0, 0.0)],
        [Vec3::new(2.0, 3.0, 0.0), Vec3::new(5.0, -1.0, 0.0), Vec3::new(-4.0, 7.0, 0.0)],
    ];
    let mut negative_noughts = 0;
    for corners in candidates {
        let mut mesh_graph = MeshGraph::indexed_triangles(&corners.to_vec(), &vec![0, 1, 2]);
        let face = mesh_graph.face(mesh_graph.face_ids()[0]).unwrap();
        let first = mesh_graph.halfedge(face.halfedge).unwrap();
        let second = mesh_graph.halfedge(first.next.unwrap()).unwrap();
        let a = mesh_graph.position(first.start_vertex(&mesh_graph).unwrap()).unwrap();
        let b = mesh_graph.position(first.end_vertex).unwrap();
        let c = mesh_graph.position(second.end_vertex).unwrap();
        let raw = (c - a).cross(c - b);
        let expected = (Vec3::ZERO + raw).normalize();

        mesh_graph.compute_vertex_normals();

        for v in mesh_graph.vertex_ids() {
            let normal = mesh_graph.vertex_normal(v).unwrap();
            assert_eq!(normal.to_array().map(f32::to_bits), expected.to_array().map(f32::to_bits));
            assert_eq!(normal.x.to_bits(), 0.0f32.to_bits());
            assert_eq!(normal.y.to_bits(), 0.0f32.to_bits());
            assert_eq!(normal.z.abs(), 1.0);
        }
        if (raw.x == 0.0 && raw.x.is_sign_negative()) || (raw.y == 0.0 && raw.y.is_sign_negative()) {
            negative_noughts += 1;
        }
    }
    assert!(negative_noughts > 0);
}

#[test]
fn rebuilding_the_index_gives_the_faces_new_slots() {
    let mut mesh_graph = quad();
    let faces = mesh_graph.face_ids();
    let first = *faces.iter().find(|f| mesh_graph.face(**f).unwrap().index == 0).unwrap();
    let second = *faces.iter().find(|f| mesh_graph.face(**f).unwrap().index == 1).unwrap();

    mesh_graph.delete_face(first);
    // the slot of the deleted face is still on record, and the other face keeps its own
    assert_eq!(mesh_graph.face_of_slot(0), Some(first));
    assert_eq!(mesh_graph.face(second).unwrap().index, 1);

    mesh_graph.rebuild_qbvh();

    assert_eq!(mesh_graph.face(second).unwrap().index, 0);
    assert_eq!(mesh_graph.face_of_slot(0), Some(second));
    assert_eq!(mesh_graph.face_of_slot(1), None);
    let corners = mesh_graph.triangle(0).unwrap();
    assert_eq!(corners.slot, 0);
    assert!(mesh_graph.triangle(1).is_none());
}

#[test]
fn a_length_that_is_no_number_has_one_pattern() {
    for bits in [0x7FC0_0000u32, 0xFFC0_0001, 0x7F80_0001, 0xFFFF_FFFF] {
        let mut mesh_graph = MeshGraph::new();
        let odd = f32::from_bits(bits);
        assert!(odd.is_nan());
        let a = mesh_graph.insert_vertex(Vec3::new(odd, 0.0, 0.0));
        let b = mesh_graph.insert_vertex(Vec3::new(1.0, 0.0, 0.0));
        let edge = mesh_graph.insert_or_get_edge(a, b);
        let he = mesh_graph.halfedge(edge.start_to_end_he_id).unwrap();
        assert_eq!(he.length_squared(&mesh_graph), 0x7FC0_0000);
        assert_eq!(he.length(&mesh_graph), 0x7FC0_0000);
    }
    // the pattern of a number is handed on as it is
    let mut mesh_graph = MeshGraph::new();
    let a = mesh_graph.insert_vertex(Vec3::new(0.0, 0.0, 0.0));
    let b = mesh_graph.insert_vertex(Vec3::new(f32::INFINITY, 0.0, 0.0));
    let edge = mesh_graph.insert_or_get_edge(a, b);
    let he = mesh_graph.halfedge(edge.start_to_end_he_id).unwrap();
    assert_eq!(he.length_squared(&mesh_graph), f32::INFINITY.to_bits());
}
