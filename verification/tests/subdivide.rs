use glam::Vec3;
use mesh_graph::{MeshGraph, Selection, VertexId};

fn quad() -> MeshGraph {
    let positions = vec![
        Vec3::new(0.0, 0.0, 0.0),
        Vec3::new(2.0, 0.0, 0.0),
        Vec3::new(0.0, 2.0, 0.0),
        Vec3::new(2.0, 2.0, 0.0),
    ];
    let indices: Vec<usize> = vec![0, 1, 2, 1, 3, 2];
    MeshGraph::indexed_triangles(&positions, &indices)
}

fn vertex_at(mesh_graph: &MeshGraph, x: f32, y: f32) -> VertexId {
    mesh_graph
        .vertex_ids()
        .into_iter()
        .find(|id| mesh_graph.position(*id) == Some(Vec3::new(x, y, 0.0)))
        .unwrap()
}

fn check_links(mesh_graph: &MeshGraph) {
    for he_id in mesh_graph.halfedge_ids() {
        let he = mesh_graph.halfedge(he_id).unwrap();
        let twin = mesh_graph.halfedge(he.twin.unwrap()).unwrap();
        assert_eq!(twin.twin, Some(he_id));
        assert_eq!(he.start_vertex(mesh_graph), Some(twin.end_vertex));
        assert!(mesh_graph.vertex(he.end_vertex).is_some());
        if let Some(face) = he.face {
            assert!(mesh_graph.face(face).unwrap().halfedges(mesh_graph).contains(&he_id));
        }
        let start = he.start_vertex(mesh_graph).unwrap();
        assert!(mesh_graph.outgoing_halfedge_list(start).unwrap().contains(&he_id));
    }
    for face_id in mesh_graph.face_ids() {
        assert_eq!(mesh_graph.face(face_id).unwrap().halfedges(mesh_graph).len(), 3);
        assert_eq!(mesh_graph.face_of_slot(mesh_graph.face(face_id).unwrap().index), Some(face_id));
    }
}

#[test]
fn subdividing_the_diagonal_splits_both_triangles() {
    let mut mesh_graph = quad();
    let p20 = vertex_at(&mesh_graph, 2.0, 0.0);
    let p02 = vertex_at(&mesh_graph, 0.0, 2.0);
    let diagonal = mesh_graph.halfedge_from_to(p20, p02).unwrap();

    let new_halfedges = mesh_graph.subdivide_edge(diagonal);

    assert_eq!(new_halfedges.len(), 3);
    assert_eq!(mesh_graph.vertex_count(), 5);
    assert_eq!(mesh_graph.face_count(), 4);
    assert_eq!(mesh_graph.halfedge_count(), 16);
    let middle = vertex_at(&mesh_graph, 1.0, 1.0);
    for he in &new_halfedges {
        assert_eq!(mesh_graph.halfedge(*he).unwrap().start_vertex(&mesh_graph), Some(middle));
    }
    assert_eq!(mesh_graph.halfedge(new_halfedges[0]).unwrap().end_vertex, p02);
    assert_eq!(mesh_graph.halfedge(diagonal).unwrap().end_vertex, middle);
    assert_eq!(mesh_graph.vertex(middle).unwrap().degree(&mesh_graph), 4);
    check_links(&mesh_graph);
}

#[test]
fn subdividing_a_boundary_edge_splits_one_triangle() {
    let mut mesh_graph = quad();
    let p00 = vertex_at(&mesh_graph, 0.0, 0.0);
    let p20 = vertex_at(&mesh_graph, 2.0, 0.0);
    let rim = mesh_graph.halfedge_from_to(p00, p20).unwrap();

    let new_halfedges = mesh_graph.subdivide_edge(rim);

    assert_eq!(new_halfedges.len(), 2);
    assert_eq!(mesh_graph.vertex_count(), 5);
    assert_eq!(mesh_graph.face_count(), 3);
    assert_eq!(mesh_graph.halfedge_count(), 14);
    let middle = vertex_at(&mesh_graph, 1.0, 0.0);
    assert_eq!(mesh_graph.halfedge(rim).unwrap().end_vertex, middle);
    check_links(&mesh_graph);
}

#[test]
fn subdividing_an_unknown_edge_changes_nothing() {
    let mut mesh_graph = quad();
    assert!(mesh_graph.subdivide_edge(Default::default()).is_empty());
    assert_eq!(mesh_graph.vertex_count(), 4);
    assert_eq!(mesh_graph.halfedge_count(), 10);
    assert_eq!(mesh_graph.face_count(), 2);
}

#[test]
fn a_new_vertex_gets_the_normal_between_its_ends() {
    let mut mesh_graph = quad();
    mesh_graph.compute_vertex_normals();
    let p20 = vertex_at(&mesh_graph, 2.0, 0.0);
    let p02 = vertex_at(&mesh_graph, 0.0, 2.0);
    let diagonal = mesh_graph.halfedge_from_to(p20, p02).unwrap();
    mesh_graph.subdivide_edge(diagonal);
    let middle = vertex_at(&mesh_graph, 1.0, 1.0);
    assert_eq!(mesh_graph.vertex_normal(middle), Some(Vec3::new(0.0, 0.0, 1.0)));
}

#[test]
fn subdivide_until_edges_below_max_length() {
    let mut mesh_graph = quad();
    let mut selection = Selection::select_all(&mesh_graph);

    // the sides have squared length 4, the diagonal 8
    mesh_graph.subdivide_until_edges_below_max_length(5.0f32.to_bits(), &mut selection);

    assert_eq!(mesh_graph.vertex_count(), 5);
    assert_eq!(mesh_graph.face_count(), 4);
    assert_eq!(selection.faces.len(), 4);
    for he_id in mesh_graph.halfedge_ids() {
        let he = mesh_graph.halfedge(he_id).unwrap();
        assert!(f32::from_bits(he.length_squared(&mesh_graph)) <= 5.0);
    }
    check_links(&mesh_graph);

    mesh_graph.subdivide_until_edges_below_max_length(1.5f32.to_bits(), &mut selection);
    for he_id in mesh_graph.halfedge_ids() {
        let he = mesh_graph.halfedge(he_id).unwrap();
        assert!(f32::from_bits(he.length_squared(&mesh_graph)) <= 1.5);
    }
    assert_eq!(selection.faces.len(), mesh_graph.face_count());
    check_links(&mesh_graph);
}

#[test]
fn subdivide_until_leaves_short_edges_alone() {
    let mut mesh_graph = quad();
    let mut selection = Selection::select_all(&mesh_graph);
    mesh_graph.subdivide_until_edges_below_max_length(8.0f32.to_bits(), &mut selection);
    assert_eq!(mesh_graph.vertex_count(), 4);
    assert_eq!(mesh_graph.face_count(), 2);
    assert_eq!(selection.faces.len(), 2);
}
