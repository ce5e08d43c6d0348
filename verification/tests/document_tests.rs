use gds_viewer::document::Document;
use gds_viewer::frac::Frac;
use gds_viewer::geometry::{IntPoint, Point, Rect, Size};
use gds_viewer::mesh::{BoxShape, Brush, ListMesh, Pencil};

#[test]
fn sample_document_shape() {
    let doc = Document::polygons();
    assert_eq!(doc.layers.len(), 2);
    // size is the bounding box of every vertex: 7 by 3 world units
    assert!(doc.size.width.rat_eq(&Frac::from_int(7)));
    assert!(doc.size.height.rat_eq(&Frac::from_int(3)));
    // red plus-and-ring layer, blue square layer
    assert!(doc.layers[0].brush.red.rat_eq(&Frac::one()));
    assert!(doc.layers[0].brush.alpha.rat_eq(&Frac::new(1, 5).unwrap()));
    assert!(doc.layers[1].brush.blue.rat_eq(&Frac::one()));
    assert_eq!(doc.layers[0].shapes.len(), 2);
    assert_eq!(doc.layers[1].shapes.len(), 1);
    // fill meshes are real triangulations of the shapes: non-empty,
    // whole triangles, every index addressing their own points
    for layer in doc.layers.iter() {
        assert!(!layer.fill_mesh.points.is_empty());
        assert!(!layer.fill_mesh.indices.is_empty());
        assert_eq!(layer.fill_mesh.indices.len() % 3, 0);
        for i in layer.fill_mesh.indices.iter() {
            assert!((*i as usize) < layer.fill_mesh.points.len());
        }
        assert!(layer.stroke_mesh.points.is_empty());
    }
}

#[test]
fn strokes_are_memoized_by_width() {
    let mut doc = Document::polygons();
    let width = Frac::from_int(2);
    assert!(doc.layers[1].build_strokes(&width));
    // the square has 4 vertices: 16 stroke points, 24 indices
    assert_eq!(doc.layers[1].stroke_mesh.points.len(), 16);
    assert_eq!(doc.layers[1].stroke_mesh.indices.len(), 24);
    // the same width again is a no-op
    assert!(!doc.layers[1].build_strokes(&Frac::new(4, 2).unwrap()));
    // a new width rebuilds
    assert!(doc.layers[1].build_strokes(&Frac::from_int(1)));
    assert_eq!(doc.layers[1].stroke_mesh.points.len(), 16);
}

#[test]
fn buffer_capacities_cover_fill_meshes() {
    let doc = Document::polygons();
    let (vertex_capacity, index_capacity) = doc.buffer_capacities();
    for layer in doc.layers.iter() {
        assert!(layer.fill_mesh.points.len() <= vertex_capacity);
        assert!(layer.fill_mesh.indices.len() <= index_capacity);
    }
}

#[test]
fn append_validates_triangulations() {
    let mut mesh = ListMesh::with_capacity(4);
    let points = vec![IntPoint::new(0, 0), IntPoint::new(1, 0), IntPoint::new(0, 1)];
    let good = vec![0usize, 1, 2];
    assert!(mesh.append_triangulation(&points, &good));
    assert_eq!(mesh.points.len(), 3);
    assert_eq!(mesh.indices, vec![0, 1, 2]);
    // a second batch is re-based onto the existing points
    assert!(mesh.append_triangulation(&points, &good));
    assert_eq!(mesh.indices, vec![0, 1, 2, 3, 4, 5]);
    // out-of-range indices are rejected, leaving the mesh unchanged
    let bad = vec![0usize, 1, 3];
    assert!(!mesh.append_triangulation(&points, &bad));
    assert_eq!(mesh.points.len(), 6);
    // ragged triangle counts are rejected
    let ragged = vec![0usize, 1];
    assert!(!mesh.append_triangulation(&points, &ragged));
}

#[test]
fn box_mesh_corners() {
    let rect = Rect::new(
        Point::new(Frac::from_int(1), Frac::from_int(2)),
        Point::new(Frac::from_int(5), Frac::from_int(8)),
    )
    .unwrap();
    let shape = BoxShape { rect, brush: 7 };
    let mesh = shape.mesh().unwrap();
    assert_eq!(mesh.points.len(), 4);
    assert_eq!(mesh.indices, vec![0, 3, 1, 2, 1, 3]);
    assert_eq!(mesh.brushes, vec![7, 7, 7, 7]);
    assert!(mesh.points[0].x.rat_eq(&Frac::from_int(1)));
    assert!(mesh.points[0].y.rat_eq(&Frac::from_int(2)));
    assert!(mesh.points[2].x.rat_eq(&Frac::from_int(5)));
    assert!(mesh.points[2].y.rat_eq(&Frac::from_int(8)));
}

#[test]
fn default_colors_are_opaque_white() {
    let b = Brush::default();
    assert!(b.red.rat_eq(&Frac::one()) && b.alpha.rat_eq(&Frac::one()));
    let p = Pencil::default();
    assert!(p.green.rat_eq(&Frac::one()) && p.alpha.rat_eq(&Frac::one()));
}
