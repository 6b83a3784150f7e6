use glam::Vec3;
use mesh_graph::{MeshGraph, Selection, VertexId, VertexSet};

fn vertex_at(mesh_graph: &MeshGraph, position: Vec3) -> VertexId {
    mesh_graph
        .vertex_ids()
        .into_iter()
        .find(|id| mesh_graph.position(*id) == Some(position))
        .unwrap()
}

/// A hexagon with two inner vertices that are joined by an edge: eight faces, eight
/// vertices, thirty halfedges.
fn hexagon_with_inner_edge() -> (MeshGraph, Vec3, Vec3) {
    let p1 = Vec3::new(-1.0, 1.0, 0.0);
    let p2 = Vec3::new(-2.0, 0.0, 0.0);
    let p3 = Vec3::new(-1.0, -1.0, 0.0);
    let p4 = Vec3::new(1.0, -1.0, 0.0);
    let p5 = Vec3::new(2.0, 0.0, 0.0);
    let p6 = Vec3::new(1.0, 1.0, 0.0);
    let a = Vec3::new(-0.5, 0.0, 0.0);
    let b = Vec3::new(0.5, 0.0, 0.0);
    let positions = vec![p1, p2, p3, p4, p5, p6, a, b];
    let indices: Vec<usize> = vec![
        6, 0, 1, //
        6, 1, 2, //
        6, 2, 7, //
        6, 7, 5, //
        6, 5, 0, //
        7, 2, 3, //
        7, 3, 4, //
        7, 4, 5,
    ];
    (MeshGraph::indexed_triangles(&positions, &indices), a, b)
}

#[test]
fn test_collapse() {
    let (mut mesh_graph, a, b) = hexagon_with_inner_edge();

    assert_eq!(mesh_graph.vertex_count(), 8);
    assert_eq!(mesh_graph.halfedge_count(), 30);
    assert_eq!(mesh_graph.face_count(), 8);

    let a_id = vertex_at(&mesh_graph, a);
    let b_id = vertex_at(&mesh_graph, b);
    let edge = mesh_graph.halfedge_from_to(a_id, b_id).unwrap();

    let collapsed = mesh_graph.collapse_edge(edge);

    assert_eq!(collapsed.removed_vertices.len(), 1);
    assert_eq!(collapsed.removed_halfedges.len(), 7);
    assert_eq!(collapsed.removed_faces.len(), 2);
    assert_eq!(collapsed.split_vertices.len(), 0);

    assert_eq!(mesh_graph.vertex_count(), 7);
    assert_eq!(mesh_graph.halfedge_count(), 24);
    assert_eq!(mesh_graph.face_count(), 6);
}

#[test]
fn collapse_moves_start_to_midpoint_and_removes_end() {
    let (mut mesh_graph, a, b) = hexagon_with_inner_edge();
    let a_id = vertex_at(&mesh_graph, a);
    let b_id = vertex_at(&mesh_graph, b);
    let edge = mesh_graph.halfedge_from_to(a_id, b_id).unwrap();

    let collapsed = mesh_graph.collapse_edge(edge);

    assert_eq!(collapsed.removed_vertices, vec![b_id]);
    assert!(mesh_graph.vertex(b_id).is_none());
    assert!(mesh_graph.position(b_id).is_none());
    assert_eq!(mesh_graph.position(a_id), Some(Vec3::new(0.0, 0.0, 0.0)));
    for he in &collapsed.removed_halfedges {
        assert!(mesh_graph.halfedge(*he).is_none());
    }
    for face in &collapsed.removed_faces {
        assert!(mesh_graph.face(*face).is_none());
    }
    // the surviving vertex is joined to all six corners of the hexagon
    let survivor = mesh_graph.vertex(a_id).unwrap();
    assert_eq!(survivor.degree(&mesh_graph), 6);
    assert_eq!(survivor.faces(&mesh_graph).len(), 6);
    // every halfedge has a live twin that points back
    for he_id in mesh_graph.halfedge_ids() {
        let he = mesh_graph.halfedge(he_id).unwrap();
        let twin = mesh_graph.halfedge(he.twin.unwrap()).unwrap();
        assert_eq!(twin.twin, Some(he_id));
    }
}

#[test]
fn collapse_of_unknown_halfedge_changes_nothing() {
    let (mut mesh_graph, _, _) = hexagon_with_inner_edge();
    let collapsed = mesh_graph.collapse_edge(Default::default());
    assert!(collapsed.removed_vertices.is_empty());
    assert!(collapsed.removed_halfedges.is_empty());
    assert!(collapsed.removed_faces.is_empty());
    assert_eq!(mesh_graph.vertex_count(), 8);
    assert_eq!(mesh_graph.halfedge_count(), 30);
    assert_eq!(mesh_graph.face_count(), 8);
}

#[test]
fn collapse_until_edges_above_min_length_collapses_the_short_edge() {
    let (mut mesh_graph, a, b) = hexagon_with_inner_edge();
    let a_id = vertex_at(&mesh_graph, a);
    let b_id = vertex_at(&mesh_graph, b);
    let mut selection = Selection::select_all(&mesh_graph);
    let mut marked = VertexSet::new();

    // the inner edge has squared length 1, every other edge is longer than 1.1
    mesh_graph.collapse_until_edges_above_min_length(1.1f32.to_bits(), &mut selection, &mut marked);

    assert_eq!(mesh_graph.vertex_count(), 7);
    assert_eq!(mesh_graph.halfedge_count(), 24);
    assert_eq!(mesh_graph.face_count(), 6);
    assert_eq!(marked.len(), 0);
    assert!(mesh_graph.vertex(a_id).is_some() != mesh_graph.vertex(b_id).is_some());
    for he_id in mesh_graph.halfedge_ids() {
        let he = mesh_graph.halfedge(he_id).unwrap();
        assert!(f32::from_bits(he.length_squared(&mesh_graph)) >= 1.1);
    }
}

#[test]
fn collapse_until_edges_above_min_length_leaves_long_edges_alone() {
    let (mut mesh_graph, _, _) = hexagon_with_inner_edge();
    let mut selection = Selection::select_all(&mesh_graph);
    let mut marked = VertexSet::new();

    mesh_graph.collapse_until_edges_above_min_length(0.5f32.to_bits(), &mut selection, &mut marked);

    assert_eq!(mesh_graph.vertex_count(), 8);
    assert_eq!(mesh_graph.halfedge_count(), 30);
    assert_eq!(mesh_graph.face_count(), 8);
    assert_eq!(selection.faces.len(), 8);
    assert_eq!(selection.halfedges.len(), 0);
}
