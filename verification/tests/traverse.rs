use glam::Vec3;
use mesh_graph::{MeshGraph, VertexId, WalkStep};

// A fan of six triangles round an inner vertex.
fn hexagon() -> (MeshGraph, Vec<Vec3>) {
    let mut positions = vec![Vec3::new(0.0, 0.0, 0.0)];
    let rim = [(1.0, 0.0), (0.5, 1.0), (-0.5, 1.0), (-1.0, 0.0), (-0.5, -1.0), (0.5, -1.0)];
    for (x, y) in rim {
        positions.push(Vec3::new(x, y, 0.0));
    }
    let mut indices: Vec<usize> = vec![];
    for i in 0..6 {
        indices.extend([0, 1 + i, 1 + (i + 1) % 6]);
    }
    (MeshGraph::indexed_triangles(&positions, &indices), positions)
}

fn vertex_at(mesh_graph: &MeshGraph, position: Vec3) -> VertexId {
    mesh_graph
        .vertex_ids()
        .into_iter()
        .find(|id| mesh_graph.position(*id) == Some(position))
        .unwrap()
}

#[test]
fn walks_round_an_inner_vertex() {
    let (mesh_graph, positions) = hexagon();
    let center_id = vertex_at(&mesh_graph, positions[0]);
    let center = mesh_graph.vertex(center_id).unwrap();

    assert!(!center.is_boundary(&mesh_graph));
    assert_eq!(center.degree(&mesh_graph), 6);
    let outgoing = center.outgoing_halfedges(&mesh_graph);
    assert_eq!(outgoing.len(), 6);
    assert_eq!(outgoing[0], center.outgoing_halfedge.unwrap());
    for he in &outgoing {
        assert_eq!(mesh_graph.halfedge(*he).unwrap().start_vertex(&mesh_graph), Some(center_id));
    }
    let incoming = center.incoming_halfedges(&mesh_graph);
    assert_eq!(incoming.len(), 6);
    for he in &incoming {
        assert_eq!(mesh_graph.halfedge(*he).unwrap().end_vertex, center_id);
    }
    assert_eq!(
        center.incoming_halfedge(&mesh_graph),
        mesh_graph.halfedge(center.outgoing_halfedge.unwrap()).unwrap().twin
    );
    assert_eq!(center.faces(&mesh_graph).len(), 6);
    let mut neighbours = center.neighbours(&mesh_graph);
    neighbours.sort_by_key(|v| v.raw);
    neighbours.dedup();
    assert_eq!(neighbours.len(), 6);
    assert!(!neighbours.contains(&center_id));
}

#[test]
fn the_fan_runs_clockwise_and_the_ring_counter_clockwise() {
    let (mesh_graph, positions) = hexagon();
    let center_id = vertex_at(&mesh_graph, positions[0]);
    let center = mesh_graph.vertex(center_id).unwrap();

    let angle_of = |v: VertexId| {
        let p = mesh_graph.position(v).unwrap();
        p.y.atan2(p.x)
    };
    let turn = |from: f32, to: f32| {
        let mut d = to - from;
        while d <= -std::f32::consts::PI {
            d += 2.0 * std::f32::consts::PI;
        }
        while d > std::f32::consts::PI {
            d -= 2.0 * std::f32::consts::PI;
        }
        d
    };
    let neighbours = center.neighbours(&mesh_graph);
    for i in 0..6 {
        assert!(turn(angle_of(neighbours[i]), angle_of(neighbours[(i + 1) % 6])) < 0.0);
    }
    let ring = center.one_ring(&mesh_graph);
    assert_eq!(ring.len(), 6);
    let ring_ends: Vec<VertexId> = ring.iter().map(|he| mesh_graph.halfedge(*he).unwrap().end_vertex).collect();
    for i in 0..6 {
        assert!(turn(angle_of(ring_ends[i]), angle_of(ring_ends[(i + 1) % 6])) > 0.0);
        // a halfedge of the ring lies opposite the centre
        let he = mesh_graph.halfedge(ring[i]).unwrap();
        assert_ne!(he.end_vertex, center_id);
        assert_ne!(he.start_vertex(&mesh_graph), Some(center_id));
    }
    assert_eq!(mesh_graph.one_ring_vertices(center_id), ring_ends);
}

#[test]
fn rotations_are_inverse_to_each_other_inside_the_fan() {
    let (mesh_graph, positions) = hexagon();
    let center_id = vertex_at(&mesh_graph, positions[0]);
    let center = mesh_graph.vertex(center_id).unwrap();
    for he_id in center.outgoing_halfedges(&mesh_graph) {
        let he = mesh_graph.halfedge(he_id).unwrap();
        let cw = he.cw_rotated_neighbour(&mesh_graph).unwrap();
        let back = mesh_graph.halfedge(cw).unwrap().ccw_rotated_neighbour(&mesh_graph);
        assert_eq!(back, Some(he_id));
        let prev = he.prev(&mesh_graph).unwrap();
        assert_eq!(mesh_graph.halfedge(prev).unwrap().next, he.next.and_then(|n| mesh_graph.halfedge(n).unwrap().next).and_then(|p| mesh_graph.halfedge(p).unwrap().next).and_then(|_| Some(he_id)));
        assert_eq!(mesh_graph.step(WalkStep::CwRotated, he_id), Some(cw));
        assert_eq!(mesh_graph.step(WalkStep::Next, he_id), he.next);
    }
}

#[test]
fn walks_on_the_boundary_stop() {
    let (mesh_graph, positions) = hexagon();
    let rim_id = vertex_at(&mesh_graph, positions[1]);
    let rim = mesh_graph.vertex(rim_id).unwrap();
    assert!(rim.is_boundary(&mesh_graph));
    let canonical = mesh_graph.halfedge(rim.outgoing_halfedge.unwrap()).unwrap();
    assert!(canonical.is_boundary());
    assert!(canonical.is_adjacent_to_boundary(&mesh_graph));
    assert_eq!(canonical.prev(&mesh_graph), None);
    assert_eq!(canonical.ccw_rotated_neighbour(&mesh_graph), None);
    // the walk from the boundary halfedge covers the whole fan of three halfedges
    assert_eq!(rim.outgoing_halfedges(&mesh_graph).len(), 3);
    assert_eq!(rim.faces(&mesh_graph).len(), 2);
    assert_eq!(rim.degree(&mesh_graph), 3);

    // a spoke joins the inner vertex to the rim
    let center_id = vertex_at(&mesh_graph, positions[0]);
    let spoke = mesh_graph.halfedge_from_to(center_id, rim_id).unwrap();
    assert!(mesh_graph.halfedge(spoke).unwrap().is_adjacent_to_boundary(&mesh_graph));
}

#[test]
fn circular_walk_without_a_start_is_empty() {
    let (mesh_graph, _) = hexagon();
    assert!(mesh_graph.circular_walk(WalkStep::Next, None).is_empty());
    assert_eq!(mesh_graph.circular_walk(WalkStep::Next, Some(Default::default())), vec![Default::default()]);
}

#[test]
fn faces_are_triangles() {
    let (mesh_graph, _) = hexagon();
    for face_id in mesh_graph.face_ids() {
        let face = mesh_graph.face(face_id).unwrap();
        let halfedges = face.halfedges(&mesh_graph);
        assert_eq!(halfedges.len(), 3);
        assert_eq!(halfedges[0], face.halfedge);
        for he in &halfedges {
            assert_eq!(mesh_graph.halfedge(*he).unwrap().face, Some(face_id));
        }
        let vertices = face.vertices(&mesh_graph);
        assert_eq!(vertices.len(), 3);
        let positions = face.vertex_positions(&mesh_graph);
        assert_eq!(positions.len(), 3);
        for i in 0..3 {
            assert_eq!(mesh_graph.position(vertices[i]), Some(positions[i]));
            assert_eq!(mesh_graph.halfedge(halfedges[i]).unwrap().end_vertex, vertices[i]);
        }
        let between = face.halfedge_between(&mesh_graph, vertices[0], vertices[1]).unwrap();
        assert_eq!(between, halfedges[1]);
        assert_eq!(face.halfedge_between(&mesh_graph, vertices[1], vertices[0]), Some(between));
        assert_eq!(face.halfedge_between(&mesh_graph, vertices[0], vertices[0]), None);
    }
}
