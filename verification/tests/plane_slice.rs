use glam::{Mat4, Vec2, Vec3};
use mesh_graph::{stitch_segments, HashGrid, Polygon2, Polygon3, PolygonTerminal, Segment2};

fn polygon(points: &[(f32, f32)]) -> Polygon2 {
    Polygon2 { vertices: points.iter().map(|(x, y)| Vec2::new(*x, *y)).collect() }
}

fn points(polygon: &Polygon2) -> Vec<(f32, f32)> {
    polygon.vertices.iter().map(|p| (p.x, p.y)).collect()
}

#[test]
fn the_ends_of_a_polyline() {
    let line = polygon(&[(0.0, 0.0), (1.0, 0.0), (2.0, 1.0)]);
    assert_eq!(line.terminal(PolygonTerminal::Start), Vec2::new(0.0, 0.0));
    assert_eq!(line.terminal(PolygonTerminal::End), Vec2::new(2.0, 1.0));
    let segment = Polygon2::segment(Vec2::new(1.0, 2.0), Vec2::new(3.0, 4.0));
    assert_eq!(points(&segment), vec![(1.0, 2.0), (3.0, 4.0)]);
}

#[test]
fn a_polyline_grows_at_either_end() {
    let mut line = polygon(&[(0.0, 0.0), (1.0, 0.0)]);
    line.extend_by_line(PolygonTerminal::End, Vec2::new(2.0, 0.0));
    line.extend_by_line(PolygonTerminal::Start, Vec2::new(-1.0, 0.0));
    assert_eq!(points(&line), vec![(-1.0, 0.0), (0.0, 0.0), (1.0, 0.0), (2.0, 0.0)]);
}

#[test]
fn polylines_are_joined_end_to_end() {
    let other = [(5.0, 0.0), (6.0, 0.0)];

    let mut line = polygon(&[(0.0, 0.0), (1.0, 0.0)]);
    line.merge_polygon(PolygonTerminal::End, polygon(&other), PolygonTerminal::Start);
    assert_eq!(points(&line), vec![(0.0, 0.0), (1.0, 0.0), (5.0, 0.0), (6.0, 0.0)]);

    let mut line = polygon(&[(0.0, 0.0), (1.0, 0.0)]);
    line.merge_polygon(PolygonTerminal::End, polygon(&other), PolygonTerminal::End);
    assert_eq!(points(&line), vec![(0.0, 0.0), (1.0, 0.0), (6.0, 0.0), (5.0, 0.0)]);

    let mut line = polygon(&[(0.0, 0.0), (1.0, 0.0)]);
    line.merge_polygon(PolygonTerminal::Start, polygon(&other), PolygonTerminal::End);
    assert_eq!(points(&line), vec![(5.0, 0.0), (6.0, 0.0), (0.0, 0.0), (1.0, 0.0)]);

    let mut line = polygon(&[(0.0, 0.0), (1.0, 0.0)]);
    line.merge_polygon(PolygonTerminal::Start, polygon(&other), PolygonTerminal::Start);
    assert_eq!(points(&line), vec![(6.0, 0.0), (5.0, 0.0), (0.0, 0.0), (1.0, 0.0)]);
}

#[test]
fn closing_a_polyline() {
    let mut line = polygon(&[(0.0, 0.0), (1.0, 0.0), (0.0, 1.0)]);
    assert!(!line.is_closed());
    line.close();
    assert_eq!(points(&line), vec![(0.0, 0.0), (1.0, 0.0), (0.0, 1.0), (0.0, 0.0)]);
    assert!(line.is_closed());
    line.close();
    assert_eq!(line.vertices.len(), 4);

    // ends that are less than a thousandth apart meet, ends that are further apart do not
    assert!(polygon(&[(0.0, 0.0), (1.0, 0.0), (0.0005, 0.0)]).is_closed());
    assert!(!polygon(&[(0.0, 0.0), (1.0, 0.0), (0.002, 0.0)]).is_closed());
    assert!(!polygon(&[]).is_closed());
}

#[test]
fn a_polyline_is_taken_into_space() {
    let flat = polygon(&[(1.0, 2.0), (3.0, 4.0)]);
    let same = Polygon3::from_polygon2_with_transform(flat.clone(), Mat4::IDENTITY);
    assert_eq!(same.vertices, vec![Vec3::new(1.0, 2.0, 0.0), Vec3::new(3.0, 4.0, 0.0)]);
    let moved = Polygon3::from_polygon2_with_transform(flat, Mat4::from_translation(Vec3::new(0.0, 0.0, 5.0)));
    assert_eq!(moved.vertices, vec![Vec3::new(1.0, 2.0, 5.0), Vec3::new(3.0, 4.0, 5.0)]);
}

#[test]
fn points_fall_into_cells() {
    let grid = HashGrid::new(Vec2::new(-1.0, -1.0), Vec2::new(2.0, 0.5));
    assert_eq!(grid.vec2_to_grid(&Vec2::new(-1.0, -1.0)), (0, 0));
    assert_eq!(grid.vec2_to_grid(&Vec2::new(0.25, 3.5)), (2, 2));
    assert_eq!(grid.vec2_to_grid(&Vec2::new(-1.25, -1.5)), (-1, -1));
}

#[test]
fn a_segment_starts_lengthens_joins_or_closes() {
    let mut grid = HashGrid::new(Vec2::ZERO, Vec2::ONE);
    let a = Vec2::new(0.5, 0.5);
    let b = Vec2::new(1.5, 0.5);
    let c = Vec2::new(1.5, 1.5);
    let d = Vec2::new(0.5, 1.5);

    grid.insert_line(a, b);
    assert_eq!(grid.polygon_count(), 1);
    grid.insert_line(c, d);
    assert_eq!(grid.polygon_count(), 2);
    // lengthens the first polyline at its end
    grid.insert_line(b, Vec2::new(1.5, 1.0));
    assert_eq!(grid.polygon_count(), 2);
    // joins the two
    grid.insert_line(Vec2::new(1.5, 1.0), c);
    assert_eq!(grid.polygon_count(), 1);
    // closes the one that is left
    grid.insert_line(d, a);
    assert_eq!(grid.polygon_count(), 1);

    let polygons = grid.into_polygons();
    assert_eq!(polygons.len(), 1);
    assert!(polygons[0].is_closed());
    assert_eq!(
        points(&polygons[0]),
        vec![(0.5, 0.5), (1.5, 0.5), (1.5, 1.0), (1.5, 1.5), (0.5, 1.5), (0.5, 0.5)]
    );
}

#[test]
fn taking_an_end_out_of_its_cell() {
    let mut grid = HashGrid::new(Vec2::ZERO, Vec2::ONE);
    grid.insert_line(Vec2::new(0.5, 0.5), Vec2::new(2.5, 0.5));
    assert!(grid.try_take_connecting_polygon(Vec2::new(1.5, 0.5)).is_none());
    let (terminal, id) = grid.try_take_connecting_polygon(Vec2::new(2.5, 0.5)).unwrap();
    assert_eq!(terminal, PolygonTerminal::End);
    assert!(grid.polygon(id).is_some());
    // the end is not offered a second time
    assert!(grid.try_take_connecting_polygon(Vec2::new(2.5, 0.5)).is_none());
    let (terminal, other) = grid.try_take_connecting_polygon(Vec2::new(0.5, 0.5)).unwrap();
    assert_eq!(terminal, PolygonTerminal::Start);
    assert_eq!(other, id);

    grid.insert_polygon_by_terminal(PolygonTerminal::Start, id, Vec2::new(0.5, 0.5));
    assert!(grid.try_take_connecting_polygon(Vec2::new(0.5, 0.5)).is_some());
    grid.insert_polygon_by_terminal(PolygonTerminal::Start, id, Vec2::new(0.5, 0.5));
    grid.remove_polygon_from_cell(id, (0, 0));
    assert!(grid.try_take_connecting_polygon(Vec2::new(0.5, 0.5)).is_none());
}

#[test]
fn segments_in_any_order_make_the_same_loops() {
    let square = |x: f32, y: f32| {
        vec![
            (Vec2::new(x, y), Vec2::new(x + 1.0, y)),
            (Vec2::new(x + 1.0, y), Vec2::new(x + 1.0, y + 1.0)),
            (Vec2::new(x + 1.0, y + 1.0), Vec2::new(x, y + 1.0)),
            (Vec2::new(x, y + 1.0), Vec2::new(x, y)),
        ]
    };
    let mut segments = square(0.0, 0.0);
    segments.extend(square(5.0, 5.0));
    // a fixed shuffle
    let order = [6, 0, 3, 5, 2, 7, 1, 4];
    let shuffled: Vec<Segment2> = order
        .iter()
        .map(|i| Segment2 { start: segments[*i].0, end: segments[*i].1 })
        .collect();

    let polygons = stitch_segments(Vec2::ZERO, Vec2::ONE, &shuffled);

    assert_eq!(polygons.len(), 2);
    for polygon in &polygons {
        assert_eq!(polygon.vertices.len(), 5);
        assert!(polygon.is_closed());
    }
    assert!(stitch_segments(Vec2::ZERO, Vec2::ONE, &vec![]).is_empty());
}
