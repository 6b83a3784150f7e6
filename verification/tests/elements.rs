use mesh_graph::{Face, FaceId, Halfedge, HalfedgeId, MeshGraph, Selection, SelectionOps, Vertex, VertexId};

#[test]
fn the_twin_of_a_built_halfedge_is_at_hand() {
    let mut mesh_graph = MeshGraph::new();
    let a = mesh_graph.insert_vertex(glam::Vec3::new(0.0, 0.0, 0.0));
    let b = mesh_graph.insert_vertex(glam::Vec3::new(1.0, 0.0, 0.0));
    let edge = mesh_graph.insert_or_get_edge(a, b);

    let forward = mesh_graph.halfedge(edge.start_to_end_he_id).unwrap();
    let backward = mesh_graph.halfedge(edge.twin_he_id).unwrap();

    assert_eq!(forward.twin(), edge.twin_he_id);
    assert_eq!(backward.twin(), edge.start_to_end_he_id);
}

#[test]
fn a_halfedge_without_face_is_on_the_boundary() {
    let free = Halfedge { end_vertex: VertexId::default(), face: None, twin: None, next: None };
    assert!(free.is_boundary());
    let bound = Halfedge { face: Some(FaceId::default()), ..free };
    assert!(!bound.is_boundary());
}

#[test]
fn defaults_name_nothing() {
    assert_eq!(Vertex::default().outgoing_halfedge, None);
    let face = Face::default();
    assert_eq!(face.halfedge, HalfedgeId::default());
    assert_eq!(face.id, FaceId::default());
    assert_eq!(face.index, 0);
    assert!(MeshGraph::new().face(face.id).is_none());
    assert!(MeshGraph::new().halfedge(face.halfedge).is_none());
}

#[test]
fn a_selection_is_made_from_one_identifier() {
    let v = VertexId { raw: 0x1_0000_0003 };
    let he = HalfedgeId { raw: 0x1_0000_0004 };
    let f = FaceId { raw: 0x1_0000_0005 };

    let of_vertex = Selection::from(v);
    assert!(of_vertex.vertices.contains(v));
    assert_eq!((of_vertex.vertices.len(), of_vertex.halfedges.len(), of_vertex.faces.len()), (1, 0, 0));

    let of_halfedge = Selection::from(he);
    assert!(of_halfedge.halfedges.contains(he));
    assert_eq!((of_halfedge.vertices.len(), of_halfedge.halfedges.len(), of_halfedge.faces.len()), (0, 1, 0));

    let mut of_face = Selection::from(f);
    assert!(of_face.faces.contains(f));
    assert_eq!((of_face.vertices.len(), of_face.halfedges.len(), of_face.faces.len()), (0, 0, 1));

    of_face.insert(v);
    of_face.remove(f);
    assert_eq!((of_face.vertices.len(), of_face.halfedges.len(), of_face.faces.len()), (1, 0, 0));
}
