use mesh_graph::{ConnectPair, IndexRange, MeshGraph, Pairing, PlannedFace, VertexId, VertexSet};

fn ids(raws: &[u64]) -> Vec<VertexId> {
    raws.iter().map(|raw| VertexId { raw: *raw }).collect()
}

fn runs(pairings: &[Pairing]) -> Vec<(usize, usize, usize, usize)> {
    pairings
        .iter()
        .map(|p| (p.single_range_idx, p.single_idx_in_range, p.other_range.start, p.other_range.end))
        .collect()
}

#[test]
fn a_run_that_wraps_is_unwrapped() {
    let pair = ConnectPair::new(IndexRange { start: 4, end: 1 }, 6, IndexRange { start: 2, end: 3 }, 5, true);
    assert!(pair.closed);
    assert_eq!(pair.ranges[0], IndexRange { start: 4, end: 7 });
    assert_eq!(pair.ranges[1], IndexRange { start: 2, end: 3 });
}

#[test]
fn equal_runs_are_paired_one_to_one() {
    let pair = ConnectPair::new(IndexRange { start: 0, end: 5 }, 6, IndexRange { start: 2, end: 1 }, 6, false);
    let pairings = pair.compute_pairings();
    assert_eq!(
        runs(&pairings),
        vec![(0, 0, 2, 2), (0, 1, 3, 3), (0, 2, 4, 4), (0, 3, 5, 5), (0, 4, 6, 6), (0, 5, 7, 7)]
    );
}

#[test]
fn the_longer_run_is_spread_over_the_shorter() {
    // six positions against five: the shorter run is the second one
    let pair = ConnectPair::new(IndexRange { start: 0, end: 5 }, 6, IndexRange { start: 0, end: 4 }, 5, false);
    let pairings = pair.compute_pairings();
    assert_eq!(
        runs(&pairings),
        vec![(1, 0, 0, 0), (1, 1, 1, 1), (1, 2, 2, 3), (1, 3, 4, 4), (1, 4, 5, 5)]
    );

    // two positions against five
    let pair = ConnectPair::new(IndexRange { start: 3, end: 4 }, 9, IndexRange { start: 10, end: 14 }, 20, false);
    let pairings = pair.compute_pairings();
    assert_eq!(runs(&pairings), vec![(0, 3, 10, 11), (0, 4, 12, 13)]);
}

#[test]
fn a_closed_pair_leaves_its_ends_out() {
    let pair = ConnectPair::new(IndexRange { start: 0, end: 3 }, 6, IndexRange { start: 1, end: 4 }, 6, true);
    let pairings = pair.compute_pairings();
    assert_eq!(runs(&pairings), vec![(0, 1, 2, 2), (0, 2, 3, 3)]);

    let pair = ConnectPair::new(IndexRange { start: 0, end: 1 }, 6, IndexRange { start: 1, end: 4 }, 6, true);
    assert!(pair.compute_pairings().is_empty());
}

#[test]
fn pairs_and_fans_of_a_pairing() {
    let first = ids(&[10, 11, 12]);
    let second = ids(&[20, 21, 22, 23]);
    let pairing = Pairing { single_range_idx: 0, single_idx_in_range: 4, other_range: IndexRange { start: 3, end: 5 } };

    assert_eq!(pairing.first_pair(&first, &second), (VertexId { raw: 11 }, VertexId { raw: 23 }));
    assert_eq!(pairing.last_pair(&first, &second), (VertexId { raw: 11 }, VertexId { raw: 21 }));
    let fan: Vec<[VertexId; 3]> = pairing.fill_faces(&first, &second).iter().map(|f| f.0).collect();
    assert_eq!(
        fan,
        vec![
            [VertexId { raw: 11 }, VertexId { raw: 20 }, VertexId { raw: 23 }],
            [VertexId { raw: 11 }, VertexId { raw: 21 }, VertexId { raw: 20 }],
        ]
    );

    let other_way = Pairing { single_range_idx: 1, single_idx_in_range: 0, other_range: IndexRange { start: 2, end: 2 } };
    assert_eq!(other_way.first_pair(&first, &second), (VertexId { raw: 20 }, VertexId { raw: 12 }));
    assert!(other_way.fill_faces(&first, &second).is_empty());
}

#[test]
fn a_planned_face_keeps_its_corners() {
    let face = PlannedFace::new(VertexId { raw: 1 }, VertexId { raw: 2 }, VertexId { raw: 3 });
    assert_eq!(face.0, [VertexId { raw: 1 }, VertexId { raw: 2 }, VertexId { raw: 3 }]);
}

fn stretches(pairs: &[ConnectPair]) -> Vec<(bool, usize, usize, usize, usize)> {
    pairs
        .iter()
        .map(|p| (p.closed, p.ranges[0].start, p.ranges[0].end, p.ranges[1].start, p.ranges[1].end))
        .collect()
}

#[test]
fn rings_that_share_nothing_are_one_open_stretch() {
    let first = ids(&[10, 11, 12]);
    let second = ids(&[20, 21, 22]);
    let common = VertexSet::new();

    let pairs = MeshGraph::walk_stretches(&first, &second, &common, 0, 1);

    // the whole of both rings, the second from the place that goes with the start
    assert_eq!(stretches(&pairs), vec![(false, 0, 2, 1, 3)]);
}

#[test]
fn rings_that_share_one_vertex_are_one_closed_stretch() {
    let first = ids(&[10, 11, 12, 13]);
    let second = ids(&[20, 12, 21, 22]);
    let common = VertexSet::from_vec(&ids(&[12]));

    // the walk starts at the shared vertex and comes round to it
    let pairs = MeshGraph::walk_stretches(&first, &second, &common, 2, 1);

    assert_eq!(stretches(&pairs), vec![(true, 2, 5, 1, 4)]);
}

#[test]
fn rings_are_divided_at_every_shared_vertex() {
    let first = ids(&[10, 11, 12, 13, 14, 15]);
    let second = ids(&[20, 12, 21, 15, 22, 23]);
    let common = VertexSet::from_vec(&ids(&[12, 15]));

    let pairs = MeshGraph::walk_stretches(&first, &second, &common, 2, 1);

    // from the one shared vertex to the other, and from there round to the first
    assert_eq!(stretches(&pairs), vec![(true, 2, 5, 1, 3), (true, 5, 8, 3, 6)]);
}

#[test]
fn a_run_of_shared_vertices_is_passed_over() {
    let first = ids(&[10, 11, 12, 13, 14]);
    let second = ids(&[20, 11, 12, 21, 22]);
    let common = VertexSet::from_vec(&ids(&[11, 12]));

    // the walk starts at the last vertex of the shared run
    let pairs = MeshGraph::walk_stretches(&first, &second, &common, 2, 2);

    // it meets the shared run at its first vertex and passes over it
    assert_eq!(stretches(&pairs), vec![(true, 2, 6, 2, 6)]);
}

#[test]
fn an_open_stretch_is_stitched_round() {
    let first = ids(&[10, 11, 12]);
    let second = ids(&[20, 21, 22]);
    let pair = ConnectPair::new(IndexRange { start: 0, end: 2 }, 3, IndexRange { start: 0, end: 2 }, 3, false);

    let planned = MeshGraph::new().plan_new_faces(&vec![pair], &first, &second);

    let corners: Vec<[u64; 3]> = planned.iter().map(|face| [face.0[0].raw, face.0[1].raw, face.0[2].raw]).collect();
    assert_eq!(
        corners,
        vec![
            [12, 10, 22],
            [22, 10, 20],
            [10, 11, 20],
            [20, 11, 21],
            [11, 12, 21],
            [21, 12, 22],
        ]
    );
}

#[test]
fn a_closed_stretch_starts_with_its_corners() {
    let first = ids(&[10, 11, 12, 13]);
    let second = ids(&[10, 21, 22, 13]);
    let pair = ConnectPair::new(IndexRange { start: 0, end: 3 }, 4, IndexRange { start: 0, end: 3 }, 4, true);

    let planned = MeshGraph::new().plan_new_faces(&vec![pair], &first, &second);

    let corners: Vec<[u64; 3]> = planned.iter().map(|face| [face.0[0].raw, face.0[1].raw, face.0[2].raw]).collect();
    assert_eq!(
        corners,
        vec![
            // the corners at the two shared ends
            [10, 11, 21],
            [12, 13, 22],
            // the inner vertices, one to one, with the two triangles between them
            [11, 12, 21],
            [21, 12, 22],
        ]
    );
}

#[test]
fn no_stretch_gives_no_triangle() {
    let first = ids(&[10, 11, 12]);
    let second = ids(&[20, 21, 22]);
    assert!(MeshGraph::new().plan_new_faces(&Vec::new(), &first, &second).is_empty());
}
