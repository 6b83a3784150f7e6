use glam::Vec3;
use mesh_graph::{Halfedge, InsertOrGetEdge, MeshGraph, VertexId};

fn two_vertices(mesh_graph: &mut MeshGraph) -> (VertexId, VertexId) {
    let a = mesh_graph.insert_vertex(Vec3::new(0.0, 0.0, 0.0));
    let b = mesh_graph.insert_vertex(Vec3::new(1.0, 0.0, 0.0));
    (a, b)
}

#[test]
fn insert_vertex_records_position_and_empty_list() {
    let mut mesh_graph = MeshGraph::new();
    let v = mesh_graph.insert_vertex(Vec3::new(1.0, 2.0, 3.0));

    assert_eq!(mesh_graph.vertex_count(), 1);
    assert_eq!(mesh_graph.position_count(), 1);
    assert_eq!(mesh_graph.position(v), Some(Vec3::new(1.0, 2.0, 3.0)));
    assert_eq!(mesh_graph.vertex(v).unwrap().outgoing_halfedge, None);
    assert_eq!(mesh_graph.outgoing_halfedge_list(v), Some(vec![]));
    assert_ne!(v, VertexId::default());
}

#[test]
fn default_ids_name_nothing() {
    let mut mesh_graph = MeshGraph::new();
    two_vertices(&mut mesh_graph);
    assert!(mesh_graph.vertex(Default::default()).is_none());
    assert!(mesh_graph.halfedge(Default::default()).is_none());
    assert!(mesh_graph.face(Default::default()).is_none());
    assert!(mesh_graph.position(Default::default()).is_none());
    // an identifier that no arena can have handed out
    assert!(mesh_graph.vertex(VertexId { raw: 1 }).is_none());
}

#[test]
fn insert_halfedge_is_detached_and_listed_at_its_start() {
    let mut mesh_graph = MeshGraph::new();
    let (a, b) = two_vertices(&mut mesh_graph);
    let he = mesh_graph.insert_halfedge(a, b);

    assert_eq!(
        mesh_graph.halfedge(he),
        Some(Halfedge { end_vertex: b, face: None, twin: None, next: None })
    );
    assert_eq!(mesh_graph.outgoing_halfedge_list(a), Some(vec![he]));
    assert_eq!(mesh_graph.outgoing_halfedge_list(b), Some(vec![]));
    assert_eq!(mesh_graph.vertex(a).unwrap().outgoing_halfedge, None);
    assert_eq!(mesh_graph.halfedge_from_to(a, b), Some(he));
    assert_eq!(mesh_graph.halfedge_from_to(b, a), None);
    assert!(mesh_graph.halfedge(he).unwrap().is_boundary());
}

#[test]
fn insert_or_get_edge_makes_both_halfedges_once() {
    let mut mesh_graph = MeshGraph::new();
    let (a, b) = two_vertices(&mut mesh_graph);

    let first = mesh_graph.insert_or_get_edge(a, b);
    assert!(first.new_start_to_end);
    assert!(first.new_twin);
    assert_eq!(first.created_he_ids(), vec![first.start_to_end_he_id, first.twin_he_id]);
    assert_eq!(mesh_graph.halfedge_count(), 2);

    let second = mesh_graph.insert_or_get_edge(a, b);
    assert_eq!(
        second,
        InsertOrGetEdge {
            start_to_end_he_id: first.start_to_end_he_id,
            twin_he_id: first.twin_he_id,
            new_start_to_end: false,
            new_twin: false,
        }
    );
    assert!(second.created_he_ids().is_empty());
    assert_eq!(mesh_graph.halfedge_count(), 2);

    let swapped = mesh_graph.insert_or_get_edge(b, a);
    assert_eq!(
        swapped,
        InsertOrGetEdge {
            start_to_end_he_id: first.twin_he_id,
            twin_he_id: first.start_to_end_he_id,
            new_start_to_end: false,
            new_twin: false,
        }
    );
    assert_eq!(mesh_graph.halfedge_count(), 2);
}

#[test]
fn insert_or_get_edge_pairs_twins_and_repoints_vertices() {
    let mut mesh_graph = MeshGraph::new();
    let (a, b) = two_vertices(&mut mesh_graph);
    let edge = mesh_graph.insert_or_get_edge(a, b);

    let forth = mesh_graph.halfedge(edge.start_to_end_he_id).unwrap();
    let back = mesh_graph.halfedge(edge.twin_he_id).unwrap();
    assert_eq!(forth.twin, Some(edge.twin_he_id));
    assert_eq!(back.twin, Some(edge.start_to_end_he_id));
    assert_eq!(forth.end_vertex, b);
    assert_eq!(back.end_vertex, a);
    assert_eq!(forth.start_vertex(&mesh_graph), Some(a));
    assert_eq!(back.start_vertex(&mesh_graph), Some(b));
    assert_eq!(mesh_graph.vertex(a).unwrap().outgoing_halfedge, Some(edge.start_to_end_he_id));
    assert_eq!(mesh_graph.vertex(b).unwrap().outgoing_halfedge, Some(edge.twin_he_id));
}

#[test]
fn insert_or_get_edge_completes_a_lone_halfedge() {
    let mut mesh_graph = MeshGraph::new();
    let (a, b) = two_vertices(&mut mesh_graph);
    let lone = mesh_graph.insert_halfedge(b, a);

    let edge = mesh_graph.insert_or_get_edge(a, b);
    assert!(edge.new_start_to_end);
    assert!(!edge.new_twin);
    assert_eq!(edge.twin_he_id, lone);
    assert_eq!(edge.created_he_ids(), vec![edge.start_to_end_he_id]);
    assert_eq!(mesh_graph.halfedge_count(), 2);
}

#[test]
fn insert_face_links_the_three_halfedges() {
    let mut mesh_graph = MeshGraph::new();
    let a = mesh_graph.insert_vertex(Vec3::new(0.0, 0.0, 0.0));
    let b = mesh_graph.insert_vertex(Vec3::new(1.0, 0.0, 0.0));
    let c = mesh_graph.insert_vertex(Vec3::new(0.0, 1.0, 0.0));
    let ab = mesh_graph.insert_or_get_edge(a, b).start_to_end_he_id;
    let bc = mesh_graph.insert_or_get_edge(b, c).start_to_end_he_id;
    let ca = mesh_graph.insert_or_get_edge(c, a).start_to_end_he_id;

    let f = mesh_graph.insert_face(ab, bc, ca);
    let g = mesh_graph.insert_face(ab, bc, ca);

    let face = mesh_graph.face(f).unwrap();
    assert_eq!(face.halfedge, ab);
    assert_eq!(face.id, f);
    assert_eq!(face.index, 0);
    assert_eq!(mesh_graph.face(g).unwrap().index, 1);
    assert_eq!(mesh_graph.face_of_slot(0), Some(f));
    assert_eq!(mesh_graph.face_of_slot(1), Some(g));
    assert_eq!(mesh_graph.face_of_slot(2), None);
    assert_eq!(mesh_graph.halfedge(ab).unwrap().next, Some(bc));
    assert_eq!(mesh_graph.halfedge(bc).unwrap().next, Some(ca));
    assert_eq!(mesh_graph.halfedge(ca).unwrap().next, Some(ab));
    assert_eq!(mesh_graph.halfedge(ab).unwrap().face, Some(g));
    assert!(!mesh_graph.halfedge(ab).unwrap().is_boundary());
}
