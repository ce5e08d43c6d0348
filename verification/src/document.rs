//! The sample document: layered shapes with fill and stroke meshes.
//!
//! Fill meshes come from an outside polygon triangulator and are
//! validated before use; stroke meshes are rebuilt by the verified stroke
//! triangulator whenever the requested width changes.

use vstd::prelude::*;
use crate::frac::{Frac, Ratio};
use crate::geometry::{IntPoint, Size};
use crate::mesh::{spec_appended, Brush, ListMesh, Pencil};
use crate::triangulation::{
    shapes_paths, spec_shapes_vertices, spec_stroke_shapes, triangulate_shapes, IntPath,
    IntShape, IntShapes,
};

verus! {

/// One drawable layer: its source shapes, derived meshes and colors.
#[derive(Debug)]
pub struct Layer {
    pub fill_mesh: ListMesh,
    pub stroke_mesh: ListMesh,
    pub brush: Brush,
    pub pencil: Pencil,
    pub shapes: IntShapes,
    pub width: Frac,
}

impl Layer {
    pub open spec fn wf(self) -> bool {
        self.fill_mesh.wf() && self.stroke_mesh.wf() && self.width.wf()
            && spec_shapes_vertices(shapes_paths(self.shapes@), self.shapes@.len() as int)
            <= 0x0fff_ffff
    }

    /// Rebuild the stroke mesh for a new width; memoized by comparing the
    /// last-used width, so an unchanged width changes nothing.
    pub fn build_strokes(&mut self, width: &Frac) -> (r: bool)
        requires
            old(self).wf(),
            width.wf(),
        ensures
            final(self).wf(),
            old(self).width@.eq(width@) ==> *final(self) == *old(self) && !r,
            !old(self).width@.eq(width@) ==> r && final(self).width == *width && final(self).stroke_mesh.points@ == spec_stroke_shapes(
                shapes_paths(old(self).shapes@),
                *width,
            ).0 && final(self).stroke_mesh.indices@ == spec_stroke_shapes(
                shapes_paths(old(self).shapes@),
                *width,
            ).1 && final(self).fill_mesh == old(self).fill_mesh && final(self).shapes == old(self).shapes && final(self).brush == old(self).brush && final(self).pencil == old(self).pencil,
    {
        if self.width.rat_eq(width) {
            return false;
        }
        self.width = *width;
        self.stroke_mesh = triangulate_shapes(&self.shapes, width);
        true
    }
}

/// The whole document: its layers and its extent in world units.
#[derive(Debug)]
pub struct Document {
    pub layers: Vec<Layer>,
    pub size: Size,
}

/// The vertices the outside triangulator returns for a shape. The
/// algorithm is deterministic over the shape alone, so the result only
/// gets a name here; no contract says what it is on given values.
pub uninterp spec fn fill_points_of(shape: Seq<Seq<IntPoint>>) -> Seq<IntPoint>;

/// The triangle indices the outside triangulator returns for a shape.
pub uninterp spec fn fill_indices_of(shape: Seq<Seq<IntPoint>>) -> Seq<usize>;

/// Relies on i_triangle's `IntTriangulatable::triangulate`: a
/// triangulation of an integer shape (outer contour plus holes) after its
/// automatic validation and cleanup, returned as a flat point list and an
/// index list that comes in whole triangles (three indices are pushed per
/// triangle). The result depends on the shape alone and is named
/// `fill_points_of` / `fill_indices_of`; nothing more is assumed, and
/// callers validate the indices before use.
#[verifier::external_body]
fn triangulate_fill(shape: &IntShape) -> (r: (Vec<IntPoint>, Vec<usize>))
    ensures
        r.0@ == fill_points_of(shape@.map_values(|p: IntPath| p@)),
        r.1@ == fill_indices_of(shape@.map_values(|p: IntPath| p@)),
        r.1@.len() % 3 == 0,
{
    let converted: Vec<Vec<i_triangle::i_overlay::i_float::int::point::IntPoint<i32>>> = shape
        .iter()
        .map(|path| path.iter().map(|p| i_triangle::i_overlay::i_float::int::point::IntPoint::new(p.x, p.y)).collect())
        .collect();
    let raw = i_triangle::int::triangulatable::IntTriangulatable::triangulate(&converted);
    let t = raw.into_triangulation::<usize>();
    let points = t.points.iter().map(|p| IntPoint { x: p.x, y: p.y }).collect();
    (points, t.indices)
}

/// The extreme coordinates over a point list: `(min_x, max_x, min_y,
/// max_y)` of the first `k` points.
pub open spec fn spec_bounds(pts: Seq<IntPoint>, k: int) -> (int, int, int, int)
    decreases k,
{
    if k <= 1 {
        (pts[0].x as int, pts[0].x as int, pts[0].y as int, pts[0].y as int)
    } else {
        let p = spec_bounds(pts, k - 1);
        let x = pts[k - 1].x as int;
        let y = pts[k - 1].y as int;
        (
            if x < p.0 {
                x
            } else {
                p.0
            },
            if x > p.1 {
                x
            } else {
                p.1
            },
            if y < p.2 {
                y
            } else {
                p.2
            },
            if y > p.3 {
                y
            } else {
                p.3
            },
        )
    }
}

/// The bounding extremes of a nonempty point list.
fn bounds_of(pts: &Vec<IntPoint>) -> (r: (i32, i32, i32, i32))
    requires
        pts@.len() >= 1,
    ensures
        (r.0 as int, r.1 as int, r.2 as int, r.3 as int) == spec_bounds(
            pts@,
            pts@.len() as int,
        ),
{
    let mut min_x = pts[0].x;
    let mut max_x = pts[0].x;
    let mut min_y = pts[0].y;
    let mut max_y = pts[0].y;
    let mut i: usize = 1;
    while i < pts.len()
        invariant
            1 <= i <= pts@.len(),
            (min_x as int, max_x as int, min_y as int, max_y as int) == spec_bounds(
                pts@,
                i as int,
            ),
        decreases pts@.len() - i,
    {
        let p = pts[i];
        if p.x < min_x {
            min_x = p.x;
        }
        if p.x > max_x {
            max_x = p.x;
        }
        if p.y < min_y {
            min_y = p.y;
        }
        if p.y > max_y {
            max_y = p.y;
        }
        i = i + 1;
    }
    (min_x, max_x, min_y, max_y)
}

/// The sample red layer's first shape: the plus sign.
pub open spec fn plus_shape_paths() -> Seq<Seq<IntPoint>> {
    seq![plus_contour()]
}

/// The sample red layer's second shape: the ring with its hole.
pub open spec fn tor_shape_paths() -> Seq<Seq<IntPoint>> {
    seq![tor_outer_contour(), tor_hole_contour()]
}

/// The sample blue layer's shape: the square.
pub open spec fn square_shape_paths() -> Seq<Seq<IntPoint>> {
    seq![square_contour()]
}

/// The fold bounds are attained coordinates and bound every point.
proof fn lemma_bounds_char(pts: Seq<IntPoint>, k: int)
    requires
        1 <= k <= pts.len(),
    ensures
        forall|j: int|
            0 <= j < k ==> spec_bounds(pts, k).0 <= (#[trigger] pts[j]).x <= spec_bounds(
                pts,
                k,
            ).1 && spec_bounds(pts, k).2 <= pts[j].y <= spec_bounds(pts, k).3,
        exists|j: int| 0 <= j < k && (#[trigger] pts[j]).x == spec_bounds(pts, k).0,
        exists|j: int| 0 <= j < k && (#[trigger] pts[j]).x == spec_bounds(pts, k).1,
        exists|j: int| 0 <= j < k && (#[trigger] pts[j]).y == spec_bounds(pts, k).2,
        exists|j: int| 0 <= j < k && (#[trigger] pts[j]).y == spec_bounds(pts, k).3,
    decreases k,
{
    if k == 1 {
        assert(0 <= 0 < k && pts[0].x == spec_bounds(pts, k).0);
        assert(0 <= 0 < k && pts[0].x == spec_bounds(pts, k).1);
        assert(0 <= 0 < k && pts[0].y == spec_bounds(pts, k).2);
        assert(0 <= 0 < k && pts[0].y == spec_bounds(pts, k).3);
    } else {
        lemma_bounds_char(pts, k - 1);
        let p = spec_bounds(pts, k - 1);
        let j0 = choose|j: int| 0 <= j < k - 1 && (#[trigger] pts[j]).x == p.0;
        let j1 = choose|j: int| 0 <= j < k - 1 && (#[trigger] pts[j]).x == p.1;
        let j2 = choose|j: int| 0 <= j < k - 1 && (#[trigger] pts[j]).y == p.2;
        let j3 = choose|j: int| 0 <= j < k - 1 && (#[trigger] pts[j]).y == p.3;
        if (pts[k - 1].x as int) < p.0 {
            assert(0 <= k - 1 < k && pts[k - 1].x == spec_bounds(pts, k).0);
        } else {
            assert(0 <= j0 < k && pts[j0].x == spec_bounds(pts, k).0);
        }
        if (pts[k - 1].x as int) > p.1 {
            assert(0 <= k - 1 < k && pts[k - 1].x == spec_bounds(pts, k).1);
        } else {
            assert(0 <= j1 < k && pts[j1].x == spec_bounds(pts, k).1);
        }
        if (pts[k - 1].y as int) < p.2 {
            assert(0 <= k - 1 < k && pts[k - 1].y == spec_bounds(pts, k).2);
        } else {
            assert(0 <= j2 < k && pts[j2].y == spec_bounds(pts, k).2);
        }
        if (pts[k - 1].y as int) > p.3 {
            assert(0 <= k - 1 < k && pts[k - 1].y == spec_bounds(pts, k).3);
        } else {
            assert(0 <= j3 < k && pts[j3].y == spec_bounds(pts, k).3);
        }
    }
}

/// The sample plus-sign contour.
pub open spec fn plus_contour() -> Seq<IntPoint> {
    seq![
        IntPoint { x: 0, y: 1 },
        IntPoint { x: 0, y: 2 },
        IntPoint { x: 1, y: 2 },
        IntPoint { x: 1, y: 3 },
        IntPoint { x: 2, y: 3 },
        IntPoint { x: 2, y: 2 },
        IntPoint { x: 3, y: 2 },
        IntPoint { x: 3, y: 1 },
        IntPoint { x: 2, y: 1 },
        IntPoint { x: 2, y: 0 },
        IntPoint { x: 1, y: 0 },
        IntPoint { x: 1, y: 1 },
    ]
}

/// The sample ring's outer contour.
pub open spec fn tor_outer_contour() -> Seq<IntPoint> {
    seq![
        IntPoint { x: 5, y: 0 },
        IntPoint { x: 4, y: 1 },
        IntPoint { x: 4, y: 2 },
        IntPoint { x: 5, y: 3 },
        IntPoint { x: 6, y: 3 },
        IntPoint { x: 7, y: 2 },
        IntPoint { x: 7, y: 1 },
        IntPoint { x: 6, y: 0 },
    ]
}

/// The sample ring's hole.
pub open spec fn tor_hole_contour() -> Seq<IntPoint> {
    seq![
        IntPoint { x: 5, y: 1 },
        IntPoint { x: 6, y: 1 },
        IntPoint { x: 6, y: 2 },
        IntPoint { x: 5, y: 2 },
    ]
}

/// The sample square contour.
pub open spec fn square_contour() -> Seq<IntPoint> {
    seq![
        IntPoint { x: 2, y: 0 },
        IntPoint { x: 2, y: 3 },
        IntPoint { x: 5, y: 3 },
        IntPoint { x: 5, y: 0 },
    ]
}

/// The larger of two sizes.
pub open spec fn cap_max(a: int, b: int) -> int {
    if a >= b {
        a
    } else {
        b
    }
}

/// The buffer capacities over the first `k` layers: the running maxima
/// of each layer's current fill mesh sizes and of its stroke bounds,
/// four points and six indices per vertex.
pub open spec fn spec_capacities(layers: Seq<Layer>, k: int) -> (int, int)
    decreases k,
{
    if k <= 0 {
        (0, 0)
    } else {
        let prev = spec_capacities(layers, k - 1);
        let n = spec_shapes_vertices(
            shapes_paths(layers[k - 1].shapes@),
            layers[k - 1].shapes@.len() as int,
        );
        (
            cap_max(prev.0, cap_max(layers[k - 1].fill_mesh.points@.len() as int, 4 * n)),
            cap_max(prev.1, cap_max(layers[k - 1].fill_mesh.indices@.len() as int, 6 * n)),
        )
    }
}

impl Document {
    pub open spec fn wf(self) -> bool {
        (forall|i: int| 0 <= i < self.layers@.len() ==> (#[trigger] self.layers@[i]).wf())
            && self.size.wf()
    }

    /// The sample document: a plus sign and a ring on a red layer, and a
    /// square on a blue layer, with fill meshes from the outside
    /// triangulator and a size equal to the bounding box of all vertices.
    pub fn polygons() -> (r: Document)
        ensures
            r.wf(),
            r.layers@.len() == 2,
            r.layers@[0].shapes@.len() == 2,
            r.layers@[0].shapes@[0]@.len() == 1,
            r.layers@[0].shapes@[0]@[0]@ == plus_contour(),
            r.layers@[0].shapes@[1]@.len() == 2,
            r.layers@[0].shapes@[1]@[0]@ == tor_outer_contour(),
            r.layers@[0].shapes@[1]@[1]@ == tor_hole_contour(),
            r.layers@[1].shapes@.len() == 1,
            r.layers@[1].shapes@[0]@.len() == 1,
            r.layers@[1].shapes@[0]@[0]@ == square_contour(),
            forall|i: int|
                0 <= i < 2 ==> (#[trigger] r.layers@[i]).stroke_mesh.points@.len() == 0
                    && r.layers@[i].stroke_mesh.indices@.len() == 0 && r.layers@[i].width@
                    == (Ratio { n: 0, d: 1 }),
            r.layers@[0].brush == (Brush {
                red: Frac { num: 1, den: 1 },
                green: Frac { num: 0, den: 1 },
                blue: Frac { num: 0, den: 1 },
                alpha: Frac { num: 1, den: 5 },
            }),
            r.layers@[0].pencil == (Pencil {
                red: Frac { num: 1, den: 1 },
                green: Frac { num: 0, den: 1 },
                blue: Frac { num: 0, den: 1 },
                alpha: Frac { num: 1, den: 1 },
            }),
            r.layers@[1].brush == (Brush {
                red: Frac { num: 0, den: 1 },
                green: Frac { num: 0, den: 1 },
                blue: Frac { num: 1, den: 1 },
                alpha: Frac { num: 1, den: 5 },
            }),
            r.layers@[1].pencil == (Pencil {
                red: Frac { num: 0, den: 1 },
                green: Frac { num: 0, den: 1 },
                blue: Frac { num: 1, den: 1 },
                alpha: Frac { num: 1, den: 1 },
            }),
            r.size@.w == (Ratio { n: 7, d: 1 }),
            r.size@.h == (Ratio { n: 3, d: 1 }),
            ({
                let first = spec_appended(
                    Seq::empty(),
                    Seq::empty(),
                    fill_points_of(plus_shape_paths()),
                    fill_indices_of(plus_shape_paths()),
                );
                let both = spec_appended(
                    first.0,
                    first.1,
                    fill_points_of(tor_shape_paths()),
                    fill_indices_of(tor_shape_paths()),
                );
                r.layers@[0].fill_mesh.points@ == both.0 && r.layers@[0].fill_mesh.indices@
                    == both.1
            }),
            ({
                let only = spec_appended(
                    Seq::empty(),
                    Seq::empty(),
                    fill_points_of(square_shape_paths()),
                    fill_indices_of(square_shape_paths()),
                );
                r.layers@[1].fill_mesh.points@ == only.0 && r.layers@[1].fill_mesh.indices@
                    == only.1
            }),
    {
        let plus: IntShape = vec![
            vec![
                IntPoint::new(0, 1),
                IntPoint::new(0, 2),
                IntPoint::new(1, 2),
                IntPoint::new(1, 3),
                IntPoint::new(2, 3),
                IntPoint::new(2, 2),
                IntPoint::new(3, 2),
                IntPoint::new(3, 1),
                IntPoint::new(2, 1),
                IntPoint::new(2, 0),
                IntPoint::new(1, 0),
                IntPoint::new(1, 1),
            ],
        ];
        let tor: IntShape = vec![
            vec![
                IntPoint::new(5, 0),
                IntPoint::new(4, 1),
                IntPoint::new(4, 2),
                IntPoint::new(5, 3),
                IntPoint::new(6, 3),
                IntPoint::new(7, 2),
                IntPoint::new(7, 1),
                IntPoint::new(6, 0),
            ],
            vec![
                IntPoint::new(5, 1),
                IntPoint::new(6, 1),
                IntPoint::new(6, 2),
                IntPoint::new(5, 2),
            ],
        ];
        let square: IntShape = vec![
            vec![
                IntPoint::new(2, 0),
                IntPoint::new(2, 3),
                IntPoint::new(5, 3),
                IntPoint::new(5, 0),
            ],
        ];
        let all_points: Vec<IntPoint> = vec![
            IntPoint::new(0, 1),
            IntPoint::new(0, 2),
            IntPoint::new(1, 2),
            IntPoint::new(1, 3),
            IntPoint::new(2, 3),
            IntPoint::new(2, 2),
            IntPoint::new(3, 2),
            IntPoint::new(3, 1),
            IntPoint::new(2, 1),
            IntPoint::new(2, 0),
            IntPoint::new(1, 0),
            IntPoint::new(1, 1),
            IntPoint::new(5, 0),
            IntPoint::new(4, 1),
            IntPoint::new(4, 2),
            IntPoint::new(5, 3),
            IntPoint::new(6, 3),
            IntPoint::new(7, 2),
            IntPoint::new(7, 1),
            IntPoint::new(6, 0),
            IntPoint::new(5, 1),
            IntPoint::new(6, 1),
            IntPoint::new(6, 2),
            IntPoint::new(5, 2),
            IntPoint::new(2, 0),
            IntPoint::new(2, 3),
            IntPoint::new(5, 3),
            IntPoint::new(5, 0),
        ];
        let b = bounds_of(&all_points);
        proof {
            lemma_bounds_char(all_points@, all_points@.len() as int);
            assert(forall|j: int|
                0 <= j < all_points@.len() ==> 0 <= (#[trigger] all_points@[j]).x <= 7 && 0 <= (
                all_points@[j]).y <= 3);
            assert(all_points@[0].x == 0 && all_points@[17].x == 7 && all_points@[9].y == 0
                && all_points@[3].y == 3);
            assert(b.0 as int == 0 && b.1 as int == 7 && b.2 as int == 0 && b.3 as int == 3);
        }
        let width = Frac::from_int((b.1 - b.0) as i64);
        let height = Frac::from_int((b.3 - b.2) as i64);
        let size = Size { width, height };
        let mut layers: Vec<Layer> = Vec::new();
        proof {
            assert(plus@[0]@ =~= plus_contour());
            assert(tor@[0]@ =~= tor_outer_contour());
            assert(tor@[1]@ =~= tor_hole_contour());
            assert(square@[0]@ =~= square_contour());
            assert(plus@.map_values(|p: IntPath| p@) =~~= plus_shape_paths());
            assert(tor@.map_values(|p: IntPath| p@) =~~= tor_shape_paths());
            assert(square@.map_values(|p: IntPath| p@) =~~= square_shape_paths());
        }
        let plus_fill = triangulate_fill(&plus);
        let tor_fill = triangulate_fill(&tor);
        let mut fill_mesh = ListMesh::with_capacity(0);
        proof {
            assert(fill_mesh.points@ =~= Seq::<crate::geometry::Point>::empty());
            assert(fill_mesh.indices@ =~= Seq::<u32>::empty());
        }
        fill_mesh.append_triangulation(&plus_fill.0, &plus_fill.1);
        fill_mesh.append_triangulation(&tor_fill.0, &tor_fill.1);
        layers.push(
            Layer {
                fill_mesh,
                stroke_mesh: ListMesh { points: Vec::new(), indices: Vec::new() },
                brush: Brush {
                    red: Frac::one(),
                    green: Frac::zero(),
                    blue: Frac::zero(),
                    alpha: Frac { num: 1, den: 5 },
                },
                pencil: Pencil {
                    red: Frac::one(),
                    green: Frac::zero(),
                    blue: Frac::zero(),
                    alpha: Frac::one(),
                },
                shapes: vec![plus, tor],
                width: Frac::zero(),
            },
        );
        let square_fill = triangulate_fill(&square);
        let mut fill_mesh = ListMesh::with_capacity(0);
        proof {
            assert(fill_mesh.points@ =~= Seq::<crate::geometry::Point>::empty());
            assert(fill_mesh.indices@ =~= Seq::<u32>::empty());
        }
        fill_mesh.append_triangulation(&square_fill.0, &square_fill.1);
        layers.push(
            Layer {
                fill_mesh,
                stroke_mesh: ListMesh { points: Vec::new(), indices: Vec::new() },
                brush: Brush {
                    red: Frac::zero(),
                    green: Frac::zero(),
                    blue: Frac::one(),
                    alpha: Frac { num: 1, den: 5 },
                },
                pencil: Pencil {
                    red: Frac::zero(),
                    green: Frac::zero(),
                    blue: Frac::one(),
                    alpha: Frac::one(),
                },
                shapes: vec![square],
                width: Frac::zero(),
            },
        );
        proof {
            assert(layers@[0].shapes@[0]@[0]@ =~= plus_contour());
            assert(layers@[0].shapes@[1]@[0]@ =~= tor_outer_contour());
            assert(layers@[0].shapes@[1]@[1]@ =~= tor_hole_contour());
            assert(layers@[1].shapes@[0]@[0]@ =~= square_contour());
            let s0 = layers@[0].shapes@;
            let sss0 = shapes_paths(s0);
            assert(crate::triangulation::spec_shape_vertices(sss0[0], 0) == 0);
            assert(crate::triangulation::spec_shape_vertices(sss0[0], 1) == 12);
            assert(crate::triangulation::spec_shape_vertices(sss0[1], 0) == 0);
            assert(crate::triangulation::spec_shape_vertices(sss0[1], 1) == 8);
            assert(crate::triangulation::spec_shape_vertices(sss0[1], 2) == 12);
            assert(spec_shapes_vertices(sss0, 0) == 0);
            assert(spec_shapes_vertices(sss0, 1) == 12);
            assert(spec_shapes_vertices(sss0, 2) == 24);
            let s1 = layers@[1].shapes@;
            let sss1 = shapes_paths(s1);
            assert(crate::triangulation::spec_shape_vertices(sss1[0], 0) == 0);
            assert(crate::triangulation::spec_shape_vertices(sss1[0], 1) == 4);
            assert(spec_shapes_vertices(sss1, 0) == 0);
            assert(spec_shapes_vertices(sss1, 1) == 4);
        }
        Document { layers, size }
    }

    /// The largest fill and stroke buffer sizes any layer may need:
    /// exactly the maxima, over the layers, of the current fill mesh
    /// sizes and of the stroke bounds, four points and six indices per
    /// vertex.
    pub fn buffer_capacities(&self) -> (r: (usize, usize))
        requires
            self.wf(),
        ensures
            (r.0 as int, r.1 as int) == spec_capacities(
                self.layers@,
                self.layers@.len() as int,
            ),
            forall|i: int|
                0 <= i < self.layers@.len() ==> (#[trigger] self.layers@[i]).fill_mesh.points@.len()
                    <= r.0 && self.layers@[i].fill_mesh.indices@.len() <= r.1,
            forall|i: int|
                0 <= i < self.layers@.len() ==> {
                    let n = spec_shapes_vertices(
                        shapes_paths((#[trigger] self.layers@[i]).shapes@),
                        self.layers@[i].shapes@.len() as int,
                    );
                    4 * n <= r.0 && 6 * n <= r.1
                },
    {
        let mut vertex_capacity: usize = 0;
        let mut index_capacity: usize = 0;
        let mut i: usize = 0;
        while i < self.layers.len()
            invariant
                0 <= i <= self.layers@.len(),
                self.wf(),
                (vertex_capacity as int, index_capacity as int) == spec_capacities(
                    self.layers@,
                    i as int,
                ),
                forall|j: int|
                    0 <= j < i ==> (#[trigger] self.layers@[j]).fill_mesh.points@.len()
                        <= vertex_capacity && self.layers@[j].fill_mesh.indices@.len()
                        <= index_capacity,
                forall|j: int|
                    0 <= j < i ==> {
                        let n = spec_shapes_vertices(
                            shapes_paths((#[trigger] self.layers@[j]).shapes@),
                            self.layers@[j].shapes@.len() as int,
                        );
                        4 * n <= vertex_capacity && 6 * n <= index_capacity
                    },
            decreases self.layers@.len() - i,
        {
            proof {
                crate::triangulation::lemma_shapes_counts(
                    shapes_paths(self.layers@[i as int].shapes@),
                    self.layers@[i as int].shapes@.len() as int,
                );
            }
            let layer = &self.layers[i];
            let n = crate::triangulation::shapes_vertices_count(&layer.shapes);
            let pl = layer.fill_mesh.points.len();
            let il = layer.fill_mesh.indices.len();
            if pl > vertex_capacity {
                vertex_capacity = pl;
            }
            if 4 * n > vertex_capacity {
                vertex_capacity = 4 * n;
            }
            if il > index_capacity {
                index_capacity = il;
            }
            if 6 * n > index_capacity {
                index_capacity = 6 * n;
            }
            i = i + 1;
        }
        (vertex_capacity, index_capacity)
    }
}

} // verus!
