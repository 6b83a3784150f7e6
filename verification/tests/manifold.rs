use glam::Vec3;
use mesh_graph::{MeshGraph, VertexId};

fn hexagon() -> MeshGraph {
    let mut positions = vec![Vec3::new(0.0, 0.0, 0.0)];
    let rim = [(1.0, 0.0), (0.5, 1.0), (-0.5, 1.0), (-1.0, 0.0), (-0.5, -1.0), (0.5, -1.0)];
    for (x, y) in rim {
        positions.push(Vec3::new(x, y, 0.0));
    }
    let mut indices: Vec<usize> = vec![];
    for i in 0..6 {
        indices.extend([0, 1 + i, 1 + (i + 1) % 6]);
    }
    MeshGraph::indexed_triangles(&positions, &indices)
}

fn vertex_with(mesh_graph: &MeshGraph, position: Vec3, degree: usize) -> VertexId {
    mesh_graph
        .vertex_ids()
        .into_iter()
        .find(|id| {
            mesh_graph.position(*id) == Some(position)
                && mesh_graph.outgoing_halfedge_list(*id).unwrap().len() == degree
        })
        .unwrap()
}

#[test]
fn a_clean_neighbourhood_is_left_alone() {
    let mut mesh_graph = hexagon();
    let records: Vec<_> = mesh_graph.halfedge_ids().into_iter().map(|h| (h, mesh_graph.halfedge(h))).collect();
    let vertices: Vec<_> = mesh_graph.vertex_ids().into_iter().map(|v| (v, mesh_graph.vertex(v))).collect();

    for (v, _) in &vertices {
        let cleanup = mesh_graph.make_vertex_neighborhood_manifold(*v);
        assert!(cleanup.removed_vertices.is_empty());
        assert!(cleanup.removed_halfedges.is_empty());
        assert!(cleanup.removed_faces.is_empty());
        assert!(cleanup.split_vertices.is_empty());
    }
    let again = mesh_graph.make_vertex_neighborhood_manifold(vertices[0].0);
    assert!(again.removed_faces.is_empty());

    assert_eq!(mesh_graph.vertex_count(), 7);
    assert_eq!(mesh_graph.halfedge_count(), 24);
    assert_eq!(mesh_graph.face_count(), 6);
    for (h, record) in records {
        assert_eq!(mesh_graph.halfedge(h), record);
    }
    for (v, record) in vertices {
        assert_eq!(mesh_graph.vertex(v), record);
    }
}

#[test]
fn an_unknown_vertex_is_left_alone() {
    let mut mesh_graph = hexagon();
    let cleanup = mesh_graph.make_vertex_neighborhood_manifold(Default::default());
    assert!(cleanup.removed_vertices.is_empty());
    assert!(cleanup.removed_halfedges.is_empty());
    assert!(cleanup.removed_faces.is_empty());
    assert!(cleanup.split_vertices.is_empty());
    assert_eq!(mesh_graph.face_count(), 6);
}

/// Four faces round the origin. The two in the middle lie on top of each other: they
/// share the edge from the origin to (0,1,0), and their third corners are two
/// vertices at (1,0,0).
fn flap() -> MeshGraph {
    let positions = vec![
        Vec3::new(0.0, 0.0, 0.0),  // v
        Vec3::new(1.0, 0.0, 0.0),  // a
        Vec3::new(0.0, 1.0, 0.0),  // b
        Vec3::new(1.0, 0.0, 0.0),  // a, a second time
        Vec3::new(0.5, -1.0, 0.0), // x
        Vec3::new(0.5, -1.0, 0.5), // y
    ];
    let indices: Vec<usize> = vec![
        0, 1, 2, // the first leaf of the flap
        0, 2, 3, // the second leaf
        0, 4, 1, // the neighbour of the first leaf
        0, 3, 5, // the neighbour of the second leaf
    ];
    MeshGraph::indexed_triangles(&positions, &indices)
}

#[test]
fn a_flap_is_removed_and_the_gap_closed() {
    let mut mesh_graph = flap();
    assert_eq!(mesh_graph.vertex_count(), 6);
    assert_eq!(mesh_graph.face_count(), 4);
    assert_eq!(mesh_graph.halfedge_count(), 18);
    let v = vertex_with(&mesh_graph, Vec3::new(0.0, 0.0, 0.0), 5);
    let b = vertex_with(&mesh_graph, Vec3::new(0.0, 1.0, 0.0), 3);

    let cleanup = mesh_graph.make_vertex_neighborhood_manifold(v);

    assert_eq!(cleanup.removed_faces.len(), 2);
    assert_eq!(cleanup.removed_vertices, vec![b]);
    assert_eq!(cleanup.removed_halfedges.len(), 8);
    assert!(cleanup.split_vertices.is_empty());
    assert_eq!(mesh_graph.face_count(), 2);
    assert_eq!(mesh_graph.vertex_count(), 5);
    assert_eq!(mesh_graph.halfedge_count(), 10);
    for face in &cleanup.removed_faces {
        assert!(mesh_graph.face(*face).is_none());
    }
    for he in &cleanup.removed_halfedges {
        assert!(mesh_graph.halfedge(*he).is_none());
    }
    // the two faces that are left are neighbours now
    let left = mesh_graph.face_ids();
    for face_id in &left {
        let face = mesh_graph.face(*face_id).unwrap();
        let around = face.halfedges(&mesh_graph);
        assert_eq!(around.len(), 3);
        let neighbours: Vec<_> = around
            .iter()
            .filter_map(|he| mesh_graph.halfedge(*he).unwrap().twin)
            .filter_map(|twin| mesh_graph.halfedge(twin).unwrap().face)
            .collect();
        assert_eq!(neighbours.len(), 1);
        assert_ne!(neighbours[0], *face_id);
    }
    let canonical = mesh_graph.vertex(v).unwrap().outgoing_halfedge.unwrap();
    assert!(mesh_graph.halfedge(canonical).is_some());

    // nothing is left to repair
    let again = mesh_graph.make_vertex_neighborhood_manifold(v);
    assert!(again.removed_faces.is_empty());
    assert!(again.removed_halfedges.is_empty());
    assert!(again.removed_vertices.is_empty());
    assert!(again.split_vertices.is_empty());
    assert_eq!(mesh_graph.face_count(), 2);
}

#[test]
fn a_fan_with_doubled_spokes_is_repaired_without_panic() {
    // A fan round a centre in which two spokes exist twice, at duplicated vertices that
    // are then led to the originals.
    let mut mesh_graph = MeshGraph::new();
    let center = mesh_graph.insert_vertex(Vec3::new(0.0, 0.0, 1.0));
    let v1 = mesh_graph.insert_vertex(Vec3::new(-0.2, 0.0, 0.0));
    let he_c_1 = mesh_graph.insert_or_get_edge(center, v1).start_to_end_he_id;
    let v1p = mesh_graph.insert_vertex(Vec3::new(-0.2, 0.0, 0.0));
    let edge_c_1p = mesh_graph.insert_or_get_edge(center, v1p);
    let v2 = mesh_graph.insert_vertex(Vec3::new(-1.0, 1.0, 0.0));
    let he_c_2 = mesh_graph.insert_or_get_edge(center, v2).start_to_end_he_id;
    let v3 = mesh_graph.insert_vertex(Vec3::new(-1.0, -1.0, 0.0));
    let he_c_3 = mesh_graph.insert_or_get_edge(center, v3).start_to_end_he_id;
    let v4 = mesh_graph.insert_vertex(Vec3::new(0.2, 0.0, 0.0));
    let he_c_4 = mesh_graph.insert_or_get_edge(center, v4).start_to_end_he_id;
    let v4p = mesh_graph.insert_vertex(Vec3::new(0.2, 0.0, 0.0));
    let edge_c_4p = mesh_graph.insert_or_get_edge(center, v4p);
    let v5 = mesh_graph.insert_vertex(Vec3::new(1.0, -1.0, 0.0));
    let he_c_5 = mesh_graph.insert_or_get_edge(center, v5).start_to_end_he_id;
    let v6 = mesh_graph.insert_vertex(Vec3::new(1.0, 1.0, 0.0));
    let he_c_6 = mesh_graph.insert_or_get_edge(center, v6).start_to_end_he_id;
    let he_c_1p = edge_c_1p.start_to_end_he_id;
    let he_c_4p = edge_c_4p.start_to_end_he_id;

    for (first, second) in [
        (he_c_1, he_c_2),
        (he_c_2, he_c_3),
        (he_c_3, he_c_1p),
        (he_c_1p, he_c_4p),
        (he_c_4p, he_c_5),
        (he_c_5, he_c_6),
        (he_c_6, he_c_4),
        (he_c_1, he_c_4),
    ] {
        mesh_graph.create_face_from_halfedges(first, second).unwrap();
    }
    assert_eq!(mesh_graph.face_count(), 8);

    let retarget = |mesh_graph: &mut MeshGraph, he, to| {
        let mut record = mesh_graph.halfedge(he).unwrap();
        record.end_vertex = to;
        mesh_graph.set_halfedge(he, record);
    };
    retarget(&mut mesh_graph, he_c_1p, v1);
    retarget(&mut mesh_graph, he_c_4p, v4);
    let edge_1p_4p = mesh_graph.insert_or_get_edge(v1p, v4p);
    retarget(&mut mesh_graph, edge_1p_4p.start_to_end_he_id, v4);
    retarget(&mut mesh_graph, edge_1p_4p.twin_he_id, v1);
    let edge_3_1p = mesh_graph.insert_or_get_edge(v3, v1p);
    retarget(&mut mesh_graph, edge_3_1p.start_to_end_he_id, v1);
    let edge_4p_5 = mesh_graph.insert_or_get_edge(v4p, v5);
    retarget(&mut mesh_graph, edge_4p_5.twin_he_id, v4);

    let mut list = mesh_graph.outgoing_halfedge_list(v1).unwrap();
    list.extend([edge_1p_4p.start_to_end_he_id, edge_c_1p.twin_he_id, edge_3_1p.twin_he_id]);
    mesh_graph.set_outgoing_halfedge_list(v1, list);
    let mut list = mesh_graph.outgoing_halfedge_list(v4).unwrap();
    list.extend([edge_1p_4p.twin_he_id, edge_c_4p.twin_he_id, edge_4p_5.start_to_end_he_id]);
    mesh_graph.set_outgoing_halfedge_list(v4, list);
    mesh_graph.delete_only_vertex(v1p);
    mesh_graph.delete_only_vertex(v4p);

    let faces_before = mesh_graph.face_count();
    let halfedges_before = mesh_graph.halfedge_count();
    let cleanup = mesh_graph.make_vertex_neighborhood_manifold(center);

    assert!(mesh_graph.face_count() <= faces_before);
    assert!(mesh_graph.halfedge_count() <= halfedges_before);
    assert_eq!(mesh_graph.face_count() + cleanup.removed_faces.len(), faces_before);
    assert_eq!(cleanup.split_vertices.len() % 2, 0);
    for face in &cleanup.removed_faces {
        assert!(mesh_graph.face(*face).is_none());
    }
    for he in &cleanup.removed_halfedges {
        assert!(mesh_graph.halfedge(*he).is_none());
    }
}

#[test]
fn joining_two_faces_along_an_edge() {
    // two triangles on the same two vertices that are not neighbours yet
    let mut mesh_graph = MeshGraph::new();
    let a = mesh_graph.insert_vertex(Vec3::ZERO);
    let b = mesh_graph.insert_vertex(Vec3::X);
    let c = mesh_graph.insert_vertex(Vec3::Y);
    let d = mesh_graph.insert_vertex(-Vec3::Y);
    let ab = mesh_graph.insert_halfedge(a, b);
    let bc = mesh_graph.insert_or_get_edge(b, c).start_to_end_he_id;
    let ca = mesh_graph.insert_or_get_edge(c, a).start_to_end_he_id;
    let ba = mesh_graph.insert_halfedge(b, a);
    let ad = mesh_graph.insert_or_get_edge(a, d).start_to_end_he_id;
    let db = mesh_graph.insert_or_get_edge(d, b).start_to_end_he_id;
    // each lone halfedge needs a twin for its start to be known
    let ab_twin = mesh_graph.insert_halfedge(b, a);
    let ba_twin = mesh_graph.insert_halfedge(a, b);
    mesh_graph.make_twins(ab, ab_twin);
    mesh_graph.make_twins(ba, ba_twin);
    let upper = mesh_graph.insert_face(ab, bc, ca);
    let lower = mesh_graph.insert_face(ba, ad, db);

    assert!(mesh_graph.weld_faces_at(a, b, upper, lower));

    assert_eq!(mesh_graph.halfedge(ab).unwrap().twin, Some(ba));
    assert_eq!(mesh_graph.halfedge(ba).unwrap().twin, Some(ab));
    assert_eq!(mesh_graph.vertex(a).unwrap().outgoing_halfedge, Some(ab));
    assert_eq!(mesh_graph.vertex(b).unwrap().outgoing_halfedge, Some(ba));
    assert!(!mesh_graph.weld_faces_at(a, c, upper, lower));
    assert!(!mesh_graph.weld_faces_at(a, b, upper, Default::default()));
}
