use glam::Vec3;
use mesh_graph::{MeshGraph, MeshRecords, Vertex, VertexId, VertexRecord};

fn hexagon() -> MeshGraph {
    let mut positions = vec![Vec3::new(0.0, 0.0, 0.0)];
    let rim = [(1.0, 0.0), (0.5, 1.0), (-0.5, 1.0), (-1.0, 0.0), (-0.5, -1.0), (0.5, -1.0)];
    for (x, y) in rim {
        positions.push(Vec3::new(x, y, 0.0));
    }
    let mut indices: Vec<usize> = vec![];
    for i in 0..6 {
        indices.extend([0, 1 + i, 1 + (i + 1) % 6]);
    }
    MeshGraph::indexed_triangles(&positions, &indices)
}

fn assert_same(mesh_graph: &MeshGraph, restored: &MeshGraph) {
    assert_eq!(restored.vertex_count(), mesh_graph.vertex_count());
    assert_eq!(restored.halfedge_count(), mesh_graph.halfedge_count());
    assert_eq!(restored.face_count(), mesh_graph.face_count());
    assert_eq!(restored.has_vertex_normals(), mesh_graph.has_vertex_normals());
    for v in mesh_graph.vertex_ids() {
        assert_eq!(restored.vertex(v), mesh_graph.vertex(v));
        assert_eq!(restored.position(v), mesh_graph.position(v));
        assert_eq!(restored.vertex_normal(v), mesh_graph.vertex_normal(v));
        let mut listed = restored.outgoing_halfedge_list(v).unwrap();
        let mut expected: Vec<_> = mesh_graph
            .halfedge_ids()
            .into_iter()
            .filter(|he| mesh_graph.halfedge(*he).unwrap().start_vertex(mesh_graph) == Some(v))
            .collect();
        listed.sort_by_key(|he| he.raw);
        expected.sort_by_key(|he| he.raw);
        assert_eq!(listed, expected);
    }
    for he in mesh_graph.halfedge_ids() {
        assert_eq!(restored.halfedge(he), mesh_graph.halfedge(he));
    }
    for f in mesh_graph.face_ids() {
        let face = restored.face(f).unwrap();
        assert_eq!(face.halfedge, mesh_graph.face(f).unwrap().halfedge);
        assert_eq!(face.id, f);
        assert_eq!(restored.face_of_slot(face.index), Some(f));
        assert!(restored.triangle(face.index).is_some());
    }
}

#[test]
fn a_mesh_comes_back_from_its_records() {
    let mut mesh_graph = hexagon();
    mesh_graph.compute_vertex_normals();
    let records = mesh_graph.to_records();
    assert_eq!(records.vertices.len(), 7);
    assert_eq!(records.halfedges.len(), 24);
    assert_eq!(records.faces.len(), 6);
    assert!(records.with_normals);

    let restored = MeshGraph::from_records(&records).unwrap();
    assert_same(&mesh_graph, &restored);
}

#[test]
fn identifiers_of_later_generations_come_back_too() {
    let mut mesh_graph = hexagon();
    // take two faces out and put new elements into the slots that this frees
    let faces = mesh_graph.face_ids();
    mesh_graph.delete_face(faces[1]);
    mesh_graph.delete_face(faces[2]);
    let rim: Vec<VertexId> = mesh_graph
        .vertex_ids()
        .into_iter()
        .filter(|v| mesh_graph.vertex(*v).unwrap().is_boundary(&mesh_graph))
        .collect();
    let free = mesh_graph.vertex(rim[0]).unwrap().outgoing_halfedge.unwrap();
    mesh_graph
        .create_face_from_halfedge_and_position(free, Vec3::new(3.0, 3.0, 0.0))
        .unwrap();
    let faces = mesh_graph.face_ids();
    mesh_graph.delete_face(faces[0]);

    let records = mesh_graph.to_records();
    assert!(!records.with_normals);
    let restored = MeshGraph::from_records(&records).unwrap();
    assert_same(&mesh_graph, &restored);
    // an identifier that was gone is still gone
    assert!(restored.face(faces[0]).is_none());
}

#[test]
fn records_that_no_arena_can_have_made_are_refused() {
    let mesh_graph = hexagon();
    let mut records = mesh_graph.to_records();
    let twice = records.faces[0];
    records.faces.push(twice);
    assert!(MeshGraph::from_records(&records).is_none());

    let mut records = mesh_graph.to_records();
    records.vertices[0].id = VertexId::default();
    assert!(MeshGraph::from_records(&records).is_none());

    let mut records = mesh_graph.to_records();
    records.halfedges.swap(0, 5);
    assert!(MeshGraph::from_records(&records).is_none());

    let empty = MeshRecords { vertices: vec![], halfedges: vec![], faces: vec![], with_normals: false };
    let restored = MeshGraph::from_records(&empty).unwrap();
    assert_eq!(restored.vertex_count(), 0);
}

#[test]
fn buffers_list_every_face_once() {
    let mut mesh_graph = hexagon();
    let buffers = mesh_graph.to_buffers();
    assert_eq!(buffers.positions.len(), 7);
    assert_eq!(buffers.normals.len(), 7);
    assert_eq!(buffers.indices.len(), 18);
    assert!(buffers.normals.iter().all(|n| *n == Vec3::ZERO));
    for triangle in buffers.indices.chunks(3) {
        let a = buffers.positions[triangle[0] as usize];
        let b = buffers.positions[triangle[1] as usize];
        let c = buffers.positions[triangle[2] as usize];
        // every face of the fan runs counter-clockwise
        assert!((b - a).cross(c - a).z > 0.0);
    }

    mesh_graph.compute_vertex_normals();
    let buffers = mesh_graph.to_buffers();
    assert!(buffers.normals.iter().all(|n| *n == Vec3::new(0.0, 0.0, 1.0)));
    let _ = mesh_graph.bvh();
}

#[test]
fn no_records_give_an_empty_mesh() {
    let records = MeshRecords { vertices: Vec::new(), halfedges: Vec::new(), faces: Vec::new(), with_normals: false };
    let mesh_graph = MeshGraph::from_records(&records).unwrap();
    assert_eq!(mesh_graph.vertex_count(), 0);
    assert_eq!(mesh_graph.halfedge_count(), 0);
    assert_eq!(mesh_graph.face_count(), 0);
    assert!(!mesh_graph.has_vertex_normals());

    let records = MeshRecords { vertices: Vec::new(), halfedges: Vec::new(), faces: Vec::new(), with_normals: true };
    assert!(MeshGraph::from_records(&records).unwrap().has_vertex_normals());
}

fn lone_vertex(raw: u64) -> VertexRecord {
    VertexRecord { id: VertexId { raw }, vertex: Vertex { outgoing_halfedge: None }, position: Vec3::new(1.0, 2.0, 3.0), normal: None }
}

fn of_vertices(vertices: Vec<VertexRecord>) -> MeshRecords {
    MeshRecords { vertices, halfedges: Vec::new(), faces: Vec::new(), with_normals: false }
}

#[test]
fn a_key_behind_a_gap_and_in_a_later_generation_is_reached() {
    // slot 3 in its third generation: the slots 1 and 2 are filled on the way and
    // emptied again, and slot 3 is taken three times
    let wanted = (5u64 << 32) | 3;
    let mesh_graph = MeshGraph::from_records(&of_vertices(vec![lone_vertex(wanted)])).unwrap();
    assert_eq!(mesh_graph.vertex_count(), 1);
    assert_eq!(mesh_graph.vertex_ids(), vec![VertexId { raw: wanted }]);
    assert_eq!(mesh_graph.position(VertexId { raw: wanted }), Some(Vec3::new(1.0, 2.0, 3.0)));
}

#[test]
fn records_in_the_order_of_their_slots_are_restored() {
    let first = (1u64 << 32) | 2;
    let second = (3u64 << 32) | 4;
    let mesh_graph = MeshGraph::from_records(&of_vertices(vec![lone_vertex(first), lone_vertex(second)])).unwrap();
    assert_eq!(mesh_graph.vertex_count(), 2);
    assert!(mesh_graph.vertex(VertexId { raw: first }).is_some());
    assert!(mesh_graph.vertex(VertexId { raw: second }).is_some());
}

#[test]
fn records_out_of_the_order_of_their_slots_are_refused() {
    let first = (1u64 << 32) | 2;
    let second = (3u64 << 32) | 4;
    assert!(MeshGraph::from_records(&of_vertices(vec![lone_vertex(second), lone_vertex(first)])).is_none());
    // the same identifier twice
    assert!(MeshGraph::from_records(&of_vertices(vec![lone_vertex(first), lone_vertex(first)])).is_none());
    // a generation that no arena hands out, the unused first slot, the placeholder
    assert!(MeshGraph::from_records(&of_vertices(vec![lone_vertex((2u64 << 32) | 1)])).is_none());
    assert!(MeshGraph::from_records(&of_vertices(vec![lone_vertex(1u64 << 32)])).is_none());
    assert!(MeshGraph::from_records(&of_vertices(vec![lone_vertex(0x1_FFFF_FFFF)])).is_none());
}

#[test]
fn a_normal_where_none_are_kept_is_refused() {
    let mut record = lone_vertex((1u64 << 32) | 1);
    record.normal = Some(Vec3::new(0.0, 0.0, 1.0));
    assert!(MeshGraph::from_records(&of_vertices(vec![record])).is_none());

    let mut record = lone_vertex((1u64 << 32) | 1);
    record.normal = Some(Vec3::new(0.0, 0.0, 1.0));
    let records = MeshRecords { vertices: vec![record], halfedges: Vec::new(), faces: Vec::new(), with_normals: true };
    let mesh_graph = MeshGraph::from_records(&records).unwrap();
    assert_eq!(mesh_graph.vertex_normal(VertexId { raw: (1u64 << 32) | 1 }), Some(Vec3::new(0.0, 0.0, 1.0)));
}
