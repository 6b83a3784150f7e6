use glam::Vec3;
use mesh_graph::{MeshGraph, VertexId};

fn quad() -> MeshGraph {
    let positions = vec![
        Vec3::new(0.0, 0.0, 0.0),
        Vec3::new(1.0, 0.0, 0.0),
        Vec3::new(0.0, 1.0, 0.0),
        Vec3::new(1.0, 1.0, 0.0),
    ];
    let indices: Vec<usize> = vec![0, 1, 2, 1, 3, 2];
    MeshGraph::indexed_triangles(&positions, &indices)
}

fn vertex_at(mesh_graph: &MeshGraph, x: f32, y: f32) -> VertexId {
    mesh_graph
        .vertex_ids()
        .into_iter()
        .find(|id| mesh_graph.position(*id) == Some(Vec3::new(x, y, 0.0)))
        .unwrap()
}

#[test]
fn make_twins_sets_both_twins_and_nothing_else() {
    let mut mesh_graph = MeshGraph::new();
    let a = mesh_graph.insert_vertex(Vec3::ZERO);
    let b = mesh_graph.insert_vertex(Vec3::X);
    let forth = mesh_graph.insert_halfedge(a, b);
    let back = mesh_graph.insert_halfedge(b, a);

    mesh_graph.make_twins(forth, back);

    assert_eq!(mesh_graph.halfedge(forth).unwrap().twin, Some(back));
    assert_eq!(mesh_graph.halfedge(back).unwrap().twin, Some(forth));
    assert_eq!(mesh_graph.halfedge(forth).unwrap().end_vertex, b);
    assert_eq!(mesh_graph.vertex(a).unwrap().outgoing_halfedge, None);

    mesh_graph.make_twins(Default::default(), back);
    assert_eq!(mesh_graph.halfedge(back).unwrap().twin, Some(forth));
    mesh_graph.make_twins(back, Default::default());
    assert_eq!(mesh_graph.halfedge(back).unwrap().twin, Some(Default::default()));
}

#[test]
fn change_outgoing_halfedge_drops_the_prior_one_from_the_list() {
    let mut mesh_graph = MeshGraph::new();
    let a = mesh_graph.insert_vertex(Vec3::ZERO);
    let b = mesh_graph.insert_vertex(Vec3::X);
    let c = mesh_graph.insert_vertex(Vec3::Y);
    let ab = mesh_graph.insert_or_get_edge(a, b).start_to_end_he_id;
    let ac = mesh_graph.insert_or_get_edge(a, c).start_to_end_he_id;
    assert_eq!(mesh_graph.vertex(a).unwrap().outgoing_halfedge, Some(ac));
    assert_eq!(mesh_graph.outgoing_halfedge_list(a), Some(vec![ab, ac]));

    mesh_graph.change_outgoing_halfedge(a, ab);

    assert_eq!(mesh_graph.vertex(a).unwrap().outgoing_halfedge, Some(ab));
    // the prior canonical halfedge leaves the list although it still starts at the vertex
    assert_eq!(mesh_graph.outgoing_halfedge_list(a), Some(vec![ab, ab]));
    assert_eq!(mesh_graph.halfedge_count(), 4);
}

#[test]
fn flip_edge_turns_the_diagonal() {
    let mut mesh_graph = quad();
    let right = vertex_at(&mesh_graph, 1.0, 0.0);
    let upper = vertex_at(&mesh_graph, 0.0, 1.0);
    let origin = vertex_at(&mesh_graph, 0.0, 0.0);
    let p11 = vertex_at(&mesh_graph, 1.0, 1.0);
    let diagonal = mesh_graph.halfedge_from_to(right, upper).unwrap();
    let twin = mesh_graph.halfedge(diagonal).unwrap().twin.unwrap();

    mesh_graph.flip_edge(diagonal);

    let flipped = mesh_graph.halfedge(diagonal).unwrap();
    let flipped_twin = mesh_graph.halfedge(twin).unwrap();
    let mut ends = vec![flipped.end_vertex, flipped_twin.end_vertex];
    ends.sort_by_key(|v| v.raw);
    let mut expected = vec![origin, p11];
    expected.sort_by_key(|v| v.raw);
    assert_eq!(ends, expected);
    assert_eq!(mesh_graph.vertex_count(), 4);
    assert_eq!(mesh_graph.halfedge_count(), 10);
    assert_eq!(mesh_graph.face_count(), 2);
    // faces and successors are as they were
    for face_id in mesh_graph.face_ids() {
        assert_eq!(mesh_graph.face(face_id).unwrap().halfedges(&mesh_graph).len(), 3);
    }
}

#[test]
fn flip_edge_of_a_boundary_edge_does_nothing() {
    let mut mesh_graph = quad();
    let origin = vertex_at(&mesh_graph, 0.0, 0.0);
    let right = vertex_at(&mesh_graph, 1.0, 0.0);
    let rim = mesh_graph.halfedge_from_to(origin, right).unwrap();
    let before: Vec<_> = mesh_graph.halfedge_ids().into_iter().map(|h| (h, mesh_graph.halfedge(h))).collect();

    mesh_graph.flip_edge(rim);
    mesh_graph.flip_edge(Default::default());

    for (h, record) in before {
        assert_eq!(mesh_graph.halfedge(h), record);
    }
}

#[test]
fn boundary_he_finds_the_free_side() {
    let mesh_graph = quad();
    let origin = vertex_at(&mesh_graph, 0.0, 0.0);
    let right = vertex_at(&mesh_graph, 1.0, 0.0);
    let upper = vertex_at(&mesh_graph, 0.0, 1.0);
    let inner = mesh_graph.halfedge_from_to(origin, right).unwrap();
    let outer = mesh_graph.halfedge_from_to(right, origin).unwrap();
    assert_eq!(mesh_graph.boundary_he(inner), Some(outer));
    assert_eq!(mesh_graph.boundary_he(outer), Some(outer));
    let diagonal = mesh_graph.halfedge_from_to(right, upper).unwrap();
    assert_eq!(mesh_graph.boundary_he(diagonal), None);
    assert_eq!(mesh_graph.boundary_he(Default::default()), None);
}

#[test]
fn boundary_vertex_order_follows_the_free_side() {
    let mesh_graph = quad();
    let origin = vertex_at(&mesh_graph, 0.0, 0.0);
    let right = vertex_at(&mesh_graph, 1.0, 0.0);
    let p11 = vertex_at(&mesh_graph, 1.0, 1.0);
    // the halfedge from (0,0) to (1,0) has a face: the boundary runs the other way
    assert_eq!(mesh_graph.boundary_vertex_order(origin, right), [right, origin]);
    assert_eq!(mesh_graph.boundary_vertex_order(right, origin), [right, origin]);
    // no edge joins the two
    assert_eq!(mesh_graph.boundary_vertex_order(origin, p11), [origin, p11]);
}

#[test]
fn faces_cannot_be_put_on_a_full_edge() {
    let mut mesh_graph = quad();
    let right = vertex_at(&mesh_graph, 1.0, 0.0);
    let upper = vertex_at(&mesh_graph, 0.0, 1.0);
    let origin = vertex_at(&mesh_graph, 0.0, 0.0);
    let diagonal = mesh_graph.halfedge_from_to(right, upper).unwrap();
    assert!(mesh_graph.create_face_from_halfedge_and_position(diagonal, Vec3::Z).is_none());
    assert!(mesh_graph.create_face_from_halfedge_and_vertex(diagonal, origin).is_none());
    let rim = mesh_graph.halfedge_from_to(origin, right).unwrap();
    assert!(mesh_graph.create_face_from_halfedges(diagonal, rim).is_none());
    assert_eq!(mesh_graph.vertex_count(), 4);
    assert_eq!(mesh_graph.halfedge_count(), 10);
    assert_eq!(mesh_graph.face_count(), 2);
}

#[test]
fn a_face_on_an_edge_and_a_vertex_reuses_what_is_there() {
    let mut mesh_graph = MeshGraph::new();
    let a = mesh_graph.insert_vertex(Vec3::ZERO);
    let b = mesh_graph.insert_vertex(Vec3::X);
    let c = mesh_graph.insert_vertex(Vec3::Y);
    let ab = mesh_graph.insert_or_get_edge(a, b);
    let bc = mesh_graph.insert_or_get_edge(b, c);

    let made = mesh_graph.create_face_from_halfedge_and_vertex(ab.start_to_end_he_id, c).unwrap();

    assert_eq!(made.halfedge_ids.len(), 2);
    assert!(made.vertex_ids.is_empty());
    assert_eq!(mesh_graph.halfedge_count(), 6);
    let around = mesh_graph.face(made.face_id).unwrap().halfedges(&mesh_graph);
    assert_eq!(around[0], ab.start_to_end_he_id);
    assert_eq!(around[1], bc.start_to_end_he_id);
    assert_eq!(mesh_graph.halfedge(around[2]).unwrap().end_vertex, a);
}

#[test]
fn a_face_on_three_vertices_runs_in_their_order() {
    let mut mesh_graph = MeshGraph::new();
    let a = mesh_graph.insert_vertex(Vec3::ZERO);
    let b = mesh_graph.insert_vertex(Vec3::X);
    let c = mesh_graph.insert_vertex(Vec3::Y);
    let made = mesh_graph.create_face_from_vertices(a, b, c);
    assert_eq!(made.halfedge_ids.len(), 6);
    assert_eq!(mesh_graph.face(made.face_id).unwrap().vertices(&mesh_graph), vec![b, c, a]);
    assert_eq!(mesh_graph.face_count(), 1);
    assert!(mesh_graph.triangle(0).is_some());
}

#[test]
fn the_boundary_fix_up_moves_the_canonical_halfedge() {
    let mut mesh_graph = MeshGraph::new();
    let made = mesh_graph.create_face_from_positions(Vec3::ZERO, Vec3::X, Vec3::Y);
    let b = made.vertex_ids[1];
    // after the face was built the second corner points along the face
    let canonical = mesh_graph.vertex(b).unwrap().outgoing_halfedge.unwrap();
    assert!(!mesh_graph.halfedge(canonical).unwrap().is_boundary());
    assert!(!mesh_graph.vertex(b).unwrap().is_boundary(&mesh_graph));

    mesh_graph.make_outgoing_halfedge_boundary_if_possible(b);

    let canonical = mesh_graph.vertex(b).unwrap().outgoing_halfedge.unwrap();
    assert!(mesh_graph.halfedge(canonical).unwrap().is_boundary());
    assert_eq!(mesh_graph.halfedge(canonical).unwrap().start_vertex(&mesh_graph), Some(b));
    assert!(mesh_graph.vertex(b).unwrap().is_boundary(&mesh_graph));

    mesh_graph.make_all_outgoing_halfedges_boundary_if_possible();
    for v in made.vertex_ids {
        assert!(mesh_graph.vertex(v).unwrap().is_boundary(&mesh_graph));
    }
}
