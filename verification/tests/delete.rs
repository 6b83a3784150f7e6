use glam::Vec3;
use mesh_graph::{FaceId, MeshGraph};

fn triangle(mesh_graph: &mut MeshGraph) -> FaceId {
    mesh_graph
        .create_face_from_positions(
            Vec3::new(0.0, 0.0, 0.0),
            Vec3::new(1.0, 0.0, 0.0),
            Vec3::new(0.0, 1.0, 0.0),
        )
        .face_id
}

#[test]
fn delete_face_of_lone_triangle_empties_the_mesh() {
    let mut mesh_graph = MeshGraph::new();
    let face = triangle(&mut mesh_graph);

    let (vertices, halfedges) = mesh_graph.delete_face(face);

    assert_eq!(vertices.len(), 3);
    assert_eq!(halfedges.len(), 6);
    assert_eq!(mesh_graph.vertex_count(), 0);
    assert_eq!(mesh_graph.position_count(), 0);
    assert_eq!(mesh_graph.halfedge_count(), 0);
    assert_eq!(mesh_graph.face_count(), 0);
    assert!(mesh_graph.face(face).is_none());
    for v in vertices {
        assert!(mesh_graph.vertex(v).is_none());
        assert!(mesh_graph.outgoing_halfedge_list(v).is_none());
    }
    for he in halfedges {
        assert!(mesh_graph.halfedge(he).is_none());
    }
}

#[test]
fn delete_face_keeps_what_a_neighbour_needs() {
    let mut mesh_graph = MeshGraph::new();
    let face1 = triangle(&mut mesh_graph);
    let shared = mesh_graph.face(face1).unwrap().halfedges(&mesh_graph)[1];
    let face2 = mesh_graph
        .create_face_from_halfedge_and_position(shared, Vec3::new(1.0, 1.0, 0.0))
        .unwrap()
        .face_id;
    assert_eq!(mesh_graph.halfedge_count(), 10);

    let (vertices, halfedges) = mesh_graph.delete_face(face2);

    // the apex of the second face and its two edges go, the shared edge stays
    assert_eq!(vertices.len(), 1);
    assert_eq!(halfedges.len(), 4);
    assert_eq!(mesh_graph.vertex_count(), 3);
    assert_eq!(mesh_graph.halfedge_count(), 6);
    assert_eq!(mesh_graph.face_count(), 1);
    assert!(mesh_graph.face(face2).is_none());
    assert!(mesh_graph.face(face1).is_some());
    let twin_of_shared = mesh_graph.halfedge(shared).unwrap().twin.unwrap();
    let detached = mesh_graph.halfedge(twin_of_shared).unwrap();
    assert!(detached.is_boundary());
    assert_eq!(detached.next, None);
    assert_eq!(mesh_graph.halfedge(shared).unwrap().face, Some(face1));
    for v in mesh_graph.vertex_ids() {
        for he in mesh_graph.outgoing_halfedge_list(v).unwrap() {
            assert!(mesh_graph.halfedge(he).is_some());
        }
        let canonical = mesh_graph.vertex(v).unwrap().outgoing_halfedge.unwrap();
        assert!(mesh_graph.halfedge(canonical).is_some());
    }
}

#[test]
fn delete_face_twice_is_harmless() {
    let mut mesh_graph = MeshGraph::new();
    let face = triangle(&mut mesh_graph);
    mesh_graph.delete_face(face);
    let (vertices, halfedges) = mesh_graph.delete_face(face);
    assert!(vertices.is_empty());
    assert!(halfedges.is_empty());
}

#[test]
fn delete_only_vertex_leaves_halfedges_alone() {
    let mut mesh_graph = MeshGraph::new();
    let face = triangle(&mut mesh_graph);
    let v = mesh_graph.face(face).unwrap().vertices(&mesh_graph)[0];

    mesh_graph.delete_only_vertex(v);

    assert!(mesh_graph.vertex(v).is_none());
    assert!(mesh_graph.position(v).is_none());
    assert!(mesh_graph.outgoing_halfedge_list(v).is_none());
    assert_eq!(mesh_graph.vertex_count(), 2);
    assert_eq!(mesh_graph.position_count(), 2);
    assert_eq!(mesh_graph.halfedge_count(), 6);
    assert_eq!(mesh_graph.face_count(), 1);
}

#[test]
fn delete_only_halfedge_unlists_it_and_keeps_its_twin() {
    let mut mesh_graph = MeshGraph::new();
    let face = triangle(&mut mesh_graph);
    let he = mesh_graph.face(face).unwrap().halfedge;
    let record = mesh_graph.halfedge(he).unwrap();
    let start = record.start_vertex(&mesh_graph).unwrap();
    let twin = record.twin.unwrap();

    mesh_graph.delete_only_halfedge(he);

    assert!(mesh_graph.halfedge(he).is_none());
    assert_eq!(mesh_graph.halfedge_count(), 5);
    assert!(!mesh_graph.outgoing_halfedge_list(start).unwrap().contains(&he));
    // the twin still names the halfedge that is gone
    assert_eq!(mesh_graph.halfedge(twin).unwrap().twin, Some(he));
    assert_eq!(mesh_graph.halfedge(twin).unwrap().start_vertex(&mesh_graph), None);
}

#[test]
fn delete_only_halfedge_and_twin_removes_the_pair() {
    let mut mesh_graph = MeshGraph::new();
    let face = triangle(&mut mesh_graph);
    let he = mesh_graph.face(face).unwrap().halfedge;
    let twin = mesh_graph.halfedge(he).unwrap().twin.unwrap();

    mesh_graph.delete_only_halfedge_and_twin(he);

    assert!(mesh_graph.halfedge(he).is_none());
    assert!(mesh_graph.halfedge(twin).is_none());
    assert_eq!(mesh_graph.halfedge_count(), 4);
    assert_eq!(mesh_graph.face_count(), 1);
}
