use glam::Vec3;
use mesh_graph::MeshGraph;
use parry3d::bounding_volume::Aabb;

fn quad() -> MeshGraph {
    let positions = vec![
        Vec3::new(0.0, 0.0, 0.0),
        Vec3::new(1.0, 0.0, 0.0),
        Vec3::new(0.0, 1.0, 0.0),
        Vec3::new(1.0, 1.0, 2.0),
    ];
    let indices: Vec<usize> = vec![0, 1, 2, 1, 3, 2];
    MeshGraph::indexed_triangles(&positions, &indices)
}

fn box_of(mesh_graph: &MeshGraph, slot: u32) -> Aabb {
    let corners = mesh_graph.triangle(slot).unwrap();
    Aabb::from_points([corners.a, corners.b, corners.c])
}

#[test]
fn an_empty_mesh_has_nothing_filed() {
    let mesh_graph = MeshGraph::new();
    assert_eq!(mesh_graph.bvh().leaf_count(), 0);
    assert!(mesh_graph.bvh().leaf_node(0).is_none());
}

#[test]
fn a_built_mesh_has_the_box_of_every_face_filed_under_its_slot() {
    let mesh_graph = quad();
    assert_eq!(mesh_graph.bvh().leaf_count(), 2);
    for slot in 0..2u32 {
        let leaf = mesh_graph.bvh().leaf_node(slot).unwrap();
        assert_eq!(leaf.aabb(), box_of(&mesh_graph, slot));
    }
    assert!(mesh_graph.bvh().leaf_node(2).is_none());
}

#[test]
fn filing_the_bounds_of_a_face_anew_replaces_its_box() {
    let mut mesh_graph = quad();
    let face_id = mesh_graph.face_of_slot(1).unwrap();
    let before = mesh_graph.bvh().leaf_node(1).unwrap().aabb();
    let corner = mesh_graph
        .vertex_ids()
        .into_iter()
        .find(|v| mesh_graph.position(*v) == Some(Vec3::new(1.0, 1.0, 2.0)))
        .unwrap();

    mesh_graph.set_position(corner, Vec3::new(1.0, 1.0, 5.0));
    // moving a vertex files nothing
    assert_eq!(mesh_graph.bvh().leaf_node(1).unwrap().aabb(), before);

    mesh_graph.update_face_bounds(face_id);

    let after = mesh_graph.bvh().leaf_node(1).unwrap().aabb();
    assert_eq!(after, box_of(&mesh_graph, 1));
    assert_ne!(after, before);
    assert_eq!(mesh_graph.bvh().leaf_count(), 2);

    // refitting and rebalancing keep what is filed
    mesh_graph.refit_qbvh();
    mesh_graph.rebalance_qbvh();
    assert_eq!(mesh_graph.bvh().leaf_count(), 2);
    assert_eq!(mesh_graph.bvh().leaf_node(1).unwrap().aabb(), after);
    assert_eq!(mesh_graph.bvh().leaf_node(0).unwrap().aabb(), box_of(&mesh_graph, 0));
}

#[test]
fn a_face_that_is_not_live_files_nothing() {
    let mut mesh_graph = quad();
    let face_id = mesh_graph.face_of_slot(0).unwrap();
    mesh_graph.delete_face(face_id);
    assert_eq!(mesh_graph.bvh().leaf_count(), 1);
    assert!(mesh_graph.bvh().leaf_node(0).is_none());

    mesh_graph.update_face_bounds(face_id);

    assert_eq!(mesh_graph.bvh().leaf_count(), 1);
    assert!(mesh_graph.bvh().leaf_node(0).is_none());
}

#[test]
fn a_rebuilt_index_holds_the_live_faces_under_their_new_slots() {
    let mut mesh_graph = quad();
    let first = mesh_graph.face_of_slot(0).unwrap();
    let second = mesh_graph.face_of_slot(1).unwrap();
    mesh_graph.delete_face(first);

    mesh_graph.rebuild_qbvh();

    assert_eq!(mesh_graph.face(second).unwrap().index, 0);
    assert_eq!(mesh_graph.bvh().leaf_count(), 1);
    assert_eq!(mesh_graph.bvh().leaf_node(0).unwrap().aabb(), box_of(&mesh_graph, 0));
    assert!(mesh_graph.bvh().leaf_node(1).is_none());
}
