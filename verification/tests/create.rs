use glam::Vec3;
use mesh_graph::{FaceId, MeshGraph};

fn create_face(mesh_graph: &mut MeshGraph) -> FaceId {
    let triangle = (
        Vec3::new(0.0, 0.0, 0.0),
        Vec3::new(1.0, 0.0, 0.0),
        Vec3::new(0.0, 1.0, 0.0),
    );

    mesh_graph
        .create_face_from_positions(triangle.0, triangle.1, triangle.2)
        .face_id
}

fn add_face_to_edge(
    mesh_graph: &mut MeshGraph,
    face_id: FaceId,
    pos: Vec3,
    use_twin: bool,
) -> Option<FaceId> {
    let mut associated_he_id = mesh_graph.face(face_id).unwrap().halfedges(mesh_graph)[1];

    if use_twin {
        associated_he_id = mesh_graph.halfedge(associated_he_id).unwrap().twin.unwrap();
    }

    mesh_graph
        .create_face_from_halfedge_and_position(associated_he_id, pos)
        .map(|made| made.face_id)
}

fn fill_face(
    mesh_graph: &mut MeshGraph,
    face_id_1: FaceId,
    face_id_2: FaceId,
    use_twin: bool,
) -> Option<FaceId> {
    let mut he_id_1 = mesh_graph.face(face_id_1).unwrap().halfedges(mesh_graph)[0];
    let mut he_id_2 = mesh_graph.face(face_id_2).unwrap().halfedges(mesh_graph)[1];

    if use_twin {
        he_id_1 = mesh_graph.halfedge(he_id_1).unwrap().twin.unwrap();
        he_id_2 = mesh_graph.halfedge(he_id_2).unwrap().twin.unwrap();
    }

    mesh_graph
        .create_face_from_halfedges(he_id_1, he_id_2)
        .map(|made| made.face_id)
}

fn init_fill_face(mesh_graph: &mut MeshGraph) -> (FaceId, Option<FaceId>, Option<FaceId>) {
    let f1 = create_face(mesh_graph);
    let f2 = add_face_to_edge(mesh_graph, f1, Vec3::new(1.0, 1.0, 0.0), false);
    let f3 = add_face_to_edge(mesh_graph, f2.unwrap(), Vec3::new(0.5, 0.5, 1.0), false);
    (f1, f2, f3)
}

fn check_vertices(mesh_graph: &MeshGraph, face: FaceId) {
    let vertices = mesh_graph.face(face).unwrap().vertices(mesh_graph);
    let mut vertices = vertices.into_iter();

    let vertex = vertices.next();
    assert!(vertex.is_some());
    assert!(mesh_graph
        .vertex(vertex.unwrap())
        .unwrap()
        .outgoing_halfedge
        .is_some());

    let vertex = vertices.next();
    assert!(vertex.is_some());
    assert!(mesh_graph
        .vertex(vertex.unwrap())
        .unwrap()
        .outgoing_halfedge
        .is_some());

    let vertex = vertices.next();
    assert!(vertex.is_some());
    assert!(mesh_graph
        .vertex(vertex.unwrap())
        .unwrap()
        .outgoing_halfedge
        .is_some());

    assert!(vertices.next().is_none());
}

fn check_halfedges(mesh_graph: &MeshGraph, face: FaceId) {
    let halfedges = mesh_graph.face(face).unwrap().halfedges(mesh_graph);
    let mut halfedges = halfedges.into_iter();

    assert!(halfedges.next().is_some());
    assert!(halfedges.next().is_some());
    assert!(halfedges.next().is_some());
    assert!(halfedges.next().is_none());
}

#[test]
fn test_create_face() {
    let mut mesh_graph = MeshGraph::new();
    let face1 = create_face(&mut mesh_graph);

    assert_eq!(mesh_graph.vertex_count(), 3);
    assert_eq!(mesh_graph.position_count(), 3);
    assert_eq!(mesh_graph.halfedge_count(), 6);
    assert_eq!(mesh_graph.face_count(), 1);

    check_vertices(&mesh_graph, face1);
    check_halfedges(&mesh_graph, face1);
}

#[test]
fn test_add_face_to_edge() {
    let mut mesh_graph = MeshGraph::new();
    let face1 = create_face(&mut mesh_graph);

    let face2 = add_face_to_edge(&mut mesh_graph, face1, Vec3::new(1.0, 1.0, 0.0), false);

    assert!(face2.is_some());
    assert_eq!(mesh_graph.vertex_count(), 4);
    assert_eq!(mesh_graph.position_count(), 4);
    assert_eq!(mesh_graph.halfedge_count(), 10);
    assert_eq!(mesh_graph.face_count(), 2);

    check_vertices(&mesh_graph, face2.unwrap());
    check_halfedges(&mesh_graph, face2.unwrap());
}

#[test]
fn test_add_face_to_twin_edge() {
    let mut mesh_graph = MeshGraph::new();
    let face1 = create_face(&mut mesh_graph);

    let face2 = add_face_to_edge(&mut mesh_graph, face1, Vec3::new(1.0, 1.0, 0.0), true);

    assert!(face2.is_some());
    assert_eq!(mesh_graph.vertex_count(), 4);
    assert_eq!(mesh_graph.position_count(), 4);
    assert_eq!(mesh_graph.halfedge_count(), 10);
    assert_eq!(mesh_graph.face_count(), 2);

    check_vertices(&mesh_graph, face2.unwrap());
    check_halfedges(&mesh_graph, face2.unwrap());
}

#[test]
fn test_fill_face() {
    let mut mesh_graph = MeshGraph::new();
    let (face1, _face2, face3) = init_fill_face(&mut mesh_graph);

    let face4 = fill_face(&mut mesh_graph, face1, face3.unwrap(), false);

    assert!(face4.is_some());
    assert_eq!(mesh_graph.vertex_count(), 5);
    assert_eq!(mesh_graph.position_count(), 5);
    assert_eq!(mesh_graph.halfedge_count(), 16);
    assert_eq!(mesh_graph.face_count(), 4);

    check_vertices(&mesh_graph, face4.unwrap());
    check_halfedges(&mesh_graph, face4.unwrap());
}

#[test]
fn test_fill_face_from_twin_edges() {
    let mut mesh_graph = MeshGraph::new();
    let (face1, _face2, face3) = init_fill_face(&mut mesh_graph);

    let face4 = fill_face(&mut mesh_graph, face1, face3.unwrap(), true);

    assert!(face4.is_some());
    assert_eq!(mesh_graph.vertex_count(), 5);
    assert_eq!(mesh_graph.position_count(), 5);
    assert_eq!(mesh_graph.halfedge_count(), 16);
    assert_eq!(mesh_graph.face_count(), 4);

    check_vertices(&mesh_graph, face4.unwrap());
    check_halfedges(&mesh_graph, face4.unwrap());
}
