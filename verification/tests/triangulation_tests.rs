use gds_viewer::frac::Frac;
use gds_viewer::geometry::IntPoint;
use gds_viewer::triangulation::{
    shape_vertices_count, shapes_vertices_count, triangulate_path, triangulate_shape,
    triangulate_shapes, vertices_count,
};

fn frac_of(f: &Frac) -> (i64, i64) {
    (f.num, f.den)
}

#[test]
fn two_point_stroke_rectangles() {
    // Stroking the closed 2-point path [(0,0),(10,0)] at width 2 gives
    // one rectangle per directed edge (forward and implicit return),
    // each spanning the segment with half-width 1 on either side.
    let path = vec![IntPoint::new(0, 0), IntPoint::new(10, 0)];
    let mesh = triangulate_path(&path, &Frac::from_int(2));
    assert_eq!(mesh.points.len(), 8);
    assert_eq!(mesh.indices.len(), 12);
    let expect = [
        (10, 1),
        (10, -1),
        (0, -1),
        (0, 1),
        (0, -1),
        (0, 1),
        (10, 1),
        (10, -1),
    ];
    for (p, (ex, ey)) in mesh.points.iter().zip(expect.iter()) {
        assert_eq!(frac_of(&p.x), (*ex, 1));
        assert_eq!(frac_of(&p.y), (*ey, 1));
    }
    let expect_indices: [u32; 12] = [0, 2, 1, 0, 3, 2, 4, 6, 5, 4, 7, 6];
    assert_eq!(mesh.indices, expect_indices.to_vec());
}

#[test]
fn size_law_counts() {
    // 4N points and 6N indices for N vertices
    let square = vec![
        IntPoint::new(0, 0),
        IntPoint::new(0, 4),
        IntPoint::new(4, 4),
        IntPoint::new(4, 0),
    ];
    let mesh = triangulate_path(&square, &Frac::from_int(1));
    assert_eq!(mesh.points.len(), 16);
    assert_eq!(mesh.indices.len(), 24);
    for i in mesh.indices.iter() {
        assert!((*i as usize) < mesh.points.len());
    }
}

#[test]
fn degenerate_paths_give_empty_meshes() {
    let empty: Vec<IntPoint> = Vec::new();
    let mesh = triangulate_path(&empty, &Frac::from_int(2));
    assert!(mesh.points.is_empty() && mesh.indices.is_empty());

    let single = vec![IntPoint::new(3, 3)];
    let mesh = triangulate_path(&single, &Frac::from_int(2));
    assert!(mesh.points.is_empty() && mesh.indices.is_empty());

    let two = vec![IntPoint::new(0, 0), IntPoint::new(1, 0)];
    let mesh = triangulate_path(&two, &Frac::zero());
    assert!(mesh.points.is_empty() && mesh.indices.is_empty());
    let mesh = triangulate_path(&two, &Frac::from_int(-3));
    assert!(mesh.points.is_empty() && mesh.indices.is_empty());
}

#[test]
fn diagonal_edge_345() {
    // A 3-4-5 edge has a whole-number length, so the offset is exact:
    // edge (0,0) -> (3,4), width 10, half-width 5: t = (-4, 3).
    let path = vec![IntPoint::new(0, 0), IntPoint::new(3, 4)];
    let mesh = triangulate_path(&path, &Frac::from_int(10));
    // second edge is (0,0) -> (3,4): points 4..8 are a-t, a+t, b+t, b-t
    assert_eq!(frac_of(&mesh.points[4].x), (4, 1));
    assert_eq!(frac_of(&mesh.points[4].y), (-3, 1));
    assert_eq!(frac_of(&mesh.points[5].x), (-4, 1));
    assert_eq!(frac_of(&mesh.points[5].y), (3, 1));
    assert_eq!(frac_of(&mesh.points[6].x), (-1, 1));
    assert_eq!(frac_of(&mesh.points[6].y), (7, 1));
    assert_eq!(frac_of(&mesh.points[7].x), (7, 1));
    assert_eq!(frac_of(&mesh.points[7].y), (1, 1));
}

#[test]
fn unit_diagonal_offset_is_tight() {
    // A unit-diagonal edge has irrational length sqrt(2); the offset is
    // perpendicular and its length stays within one part in 65536 of the
    // half width: here t = (-65536, 65536) / 92681, since 92681 is the
    // rounded root of 2^33.
    let path = vec![IntPoint::new(0, 0), IntPoint::new(1, 1)];
    let mesh = triangulate_path(&path, &Frac::from_int(2));
    // second edge is (0,0) -> (1,1); its first vertex is a - t
    let p = &mesh.points[4];
    assert_eq!(frac_of(&p.x), (65536, 92681));
    assert_eq!(frac_of(&p.y), (-65536, 92681));
    // perpendicular to the edge, and squared length within the bound
    let tx = 65536.0f64 / 92681.0;
    let len2 = 2.0 * tx * tx;
    assert!((1.0..1.0001).contains(&len2));
}

#[test]
fn shape_skips_short_paths() {
    let shape = vec![
        vec![IntPoint::new(0, 0), IntPoint::new(5, 0)],
        vec![IntPoint::new(9, 9)],
        vec![IntPoint::new(0, 2), IntPoint::new(5, 2)],
    ];
    assert_eq!(shape_vertices_count(&shape), 5);
    let mesh = triangulate_shape(&shape, &Frac::from_int(2));
    // only the two 2-point paths contribute: 2 * 8 points, 2 * 12 indices
    assert_eq!(mesh.points.len(), 16);
    assert_eq!(mesh.indices.len(), 24);
    for i in mesh.indices.iter() {
        assert!((*i as usize) < mesh.points.len());
    }
}

#[test]
fn shapes_concatenate() {
    let a = vec![vec![IntPoint::new(0, 0), IntPoint::new(4, 0)]];
    let b = vec![vec![IntPoint::new(0, 5), IntPoint::new(4, 5)]];
    let shapes = vec![a, b];
    assert_eq!(shapes_vertices_count(&shapes), 4);
    let mesh = triangulate_shapes(&shapes, &Frac::from_int(2));
    assert_eq!(mesh.points.len(), 16);
    assert_eq!(mesh.indices.len(), 24);
    // the second shape's indices are re-based past the first's points
    assert_eq!(mesh.indices[12], 8);
    let single = vec![IntPoint::new(0, 0), IntPoint::new(4, 0)];
    assert_eq!(vertices_count(&single), 2);
}
