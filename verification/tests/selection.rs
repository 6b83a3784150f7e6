use glam::Vec3;
use mesh_graph::{MeshGraph, Selection, SelectionOps, VertexId};

fn hexagon() -> (MeshGraph, Vec<Vec3>) {
    let mut positions = vec![Vec3::new(0.0, 0.0, 0.0)];
    let rim = [(1.0, 0.0), (0.5, 1.0), (-0.5, 1.0), (-1.0, 0.0), (-0.5, -1.0), (0.5, -1.0)];
    for (x, y) in rim {
        positions.push(Vec3::new(x, y, 0.0));
    }
    let mut indices: Vec<usize> = vec![];
    for i in 0..6 {
        indices.extend([0, 1 + i, 1 + (i + 1) % 6]);
    }
    (MeshGraph::indexed_triangles(&positions, &indices), positions)
}

fn vertex_at(mesh_graph: &MeshGraph, position: Vec3) -> VertexId {
    mesh_graph
        .vertex_ids()
        .into_iter()
        .find(|id| mesh_graph.position(*id) == Some(position))
        .unwrap()
}

#[test]
fn select_all_selects_the_faces_only() {
    let (mesh_graph, _) = hexagon();
    let selection = Selection::select_all(&mesh_graph);
    assert_eq!(selection.faces.len(), 6);
    assert_eq!(selection.halfedges.len(), 0);
    assert_eq!(selection.vertices.len(), 0);
    for f in mesh_graph.face_ids() {
        assert!(selection.faces.contains(f));
    }
    assert_eq!(selection.resolve_to_vertices(&mesh_graph).len(), 7);
    assert_eq!(selection.resolve_to_halfedges(&mesh_graph).len(), 18);
}

#[test]
fn insert_and_remove_go_to_the_set_of_their_kind() {
    let (mesh_graph, _) = hexagon();
    let v = mesh_graph.vertex_ids()[0];
    let he = mesh_graph.halfedge_ids()[0];
    let f = mesh_graph.face_ids()[0];
    let mut selection = Selection::default();
    selection.insert(v);
    selection.insert(he);
    selection.insert(f);
    selection.insert(f);
    assert_eq!(selection.vertices.to_vec(), vec![v]);
    assert_eq!(selection.halfedges.to_vec(), vec![he]);
    assert_eq!(selection.faces.to_vec(), vec![f]);
    selection.remove(he);
    selection.remove(he);
    assert!(selection.halfedges.is_empty());
    assert!(selection.vertices.contains(v));
    assert!(selection.faces.contains(f));
    selection.remove(v);
    selection.remove(f);
    assert!(selection.vertices.is_empty());
    assert!(selection.faces.is_empty());
}

#[test]
fn a_selected_face_resolves_to_its_corners_and_halfedges() {
    let (mesh_graph, _) = hexagon();
    let f = mesh_graph.face_ids()[0];
    let face = mesh_graph.face(f).unwrap();
    let selection = Selection::from_faces(&vec![f]);

    let vertices = selection.resolve_to_vertices(&mesh_graph);
    assert_eq!(vertices.len(), 3);
    for v in face.vertices(&mesh_graph) {
        assert!(vertices.contains(v));
    }
    let halfedges = selection.resolve_to_halfedges(&mesh_graph);
    assert_eq!(halfedges.len(), 3);
    for he in face.halfedges(&mesh_graph) {
        assert!(halfedges.contains(he));
    }
}

#[test]
fn a_selected_halfedge_resolves_to_its_two_ends() {
    let (mesh_graph, positions) = hexagon();
    let center = vertex_at(&mesh_graph, positions[0]);
    let rim = vertex_at(&mesh_graph, positions[3]);
    let he = mesh_graph.halfedge_from_to(center, rim).unwrap();
    let selection = Selection::from_halfedges(&vec![he]);

    let mut vertices = selection.resolve_to_vertices(&mesh_graph).to_vec();
    vertices.sort_by_key(|v| v.raw);
    let mut expected = vec![center, rim];
    expected.sort_by_key(|v| v.raw);
    assert_eq!(vertices, expected);
    assert_eq!(selection.resolve_to_halfedges(&mesh_graph).to_vec(), vec![he]);
}

#[test]
fn a_selected_vertex_resolves_to_its_fan() {
    let (mesh_graph, positions) = hexagon();
    let center = vertex_at(&mesh_graph, positions[0]);
    let selection = Selection::from_vertices(&vec![center]);

    assert_eq!(selection.resolve_to_vertices(&mesh_graph).to_vec(), vec![center]);
    let halfedges = selection.resolve_to_halfedges(&mesh_graph);
    assert_eq!(halfedges.len(), 6);
    for he in mesh_graph.vertex(center).unwrap().outgoing_halfedges(&mesh_graph) {
        assert!(halfedges.contains(he));
    }
}

#[test]
fn identifiers_of_deleted_elements_resolve_to_nothing() {
    let (mut mesh_graph, _) = hexagon();
    let f = mesh_graph.face_ids()[0];
    let he = mesh_graph.face(f).unwrap().halfedge;
    let mut selection = Selection::from_faces(&vec![f]);
    selection.insert(he);
    selection.insert(VertexId::default());
    mesh_graph.delete_face(f);
    mesh_graph.delete_only_halfedge(he);

    assert_eq!(selection.resolve_to_vertices(&mesh_graph).to_vec(), vec![VertexId::default()]);
    assert_eq!(selection.resolve_to_halfedges(&mesh_graph).to_vec(), vec![he]);
}

#[test]
fn grow_adds_the_next_ring() {
    let (mesh_graph, positions) = hexagon();
    let center = vertex_at(&mesh_graph, positions[0]);
    let mut selection = Selection::from_vertices(&vec![center]);

    let added = selection.grow(&mesh_graph);
    assert_eq!(added.len(), 6);
    assert!(!added.contains(center));
    assert_eq!(selection.vertices.len(), 7);

    let added = selection.grow(&mesh_graph);
    assert_eq!(added.len(), 0);
    assert_eq!(selection.vertices.len(), 7);
}

#[test]
fn grow_starts_from_the_resolved_vertices() {
    let (mesh_graph, positions) = hexagon();
    let center = vertex_at(&mesh_graph, positions[0]);
    let rim = vertex_at(&mesh_graph, positions[1]);
    let he = mesh_graph.halfedge_from_to(center, rim).unwrap();
    let mut selection = Selection::from_halfedges(&vec![he]);

    let added = selection.grow(&mesh_graph);
    // the two ends are resolved; the other five rim vertices are new
    assert_eq!(added.len(), 5);
    assert!(!added.contains(center));
    assert!(!added.contains(rim));
    assert_eq!(selection.vertices.len(), 5);
    assert_eq!(selection.halfedges.to_vec(), vec![he]);
}
