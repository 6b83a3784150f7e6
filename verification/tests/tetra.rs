use mesh_graph::boundary_faces_of_tetrahedra;

fn corners(cells: &Vec<[usize; 4]>) -> Vec<((usize, usize, usize), usize)> {
    let mut faces: Vec<_> = boundary_faces_of_tetrahedra(cells)
        .into_iter()
        .map(|face| (face.corners, face.cell))
        .collect();
    faces.sort();
    faces
}

#[test]
fn a_lone_tetrahedron_is_all_surface() {
    assert_eq!(
        corners(&vec![[7, 3, 9, 1]]),
        vec![((1, 3, 7), 0), ((1, 3, 9), 0), ((1, 7, 9), 0), ((3, 7, 9), 0)]
    );
}

#[test]
fn a_shared_face_lies_inside() {
    // two tetrahedra on the face 1, 2, 3
    let cells = vec![[0, 1, 2, 3], [3, 2, 1, 4]];
    assert_eq!(
        corners(&cells),
        vec![
            ((0, 1, 2), 0),
            ((0, 1, 3), 0),
            ((0, 2, 3), 0),
            ((1, 2, 4), 1),
            ((1, 3, 4), 1),
            ((2, 3, 4), 1),
        ]
    );
}

#[test]
fn no_tetrahedra_no_surface() {
    assert!(boundary_faces_of_tetrahedra(&vec![]).is_empty());
    // the same tetrahedron twice has every face twice
    assert!(boundary_faces_of_tetrahedra(&vec![[0, 1, 2, 3], [3, 1, 0, 2]]).is_empty());
}
