//! Renderable meshes: flat point/index buffers (triangle lists), the
//! per-shape color attributes, and the box-to-mesh helper.

use vstd::prelude::*;
use crate::frac::Frac;
use crate::geometry::{int_point_as_point, IntPoint, Point, Rect};

verus! {

/// A flat triangle-list mesh: points and indices, three per triangle.
#[derive(Debug)]
pub struct ListMesh {
    pub points: Vec<Point>,
    pub indices: Vec<u32>,
}

/// A triangulation batch can be appended onto `base` existing points
/// when its indices come in whole triangles and address its own points,
/// and the combined point count still fits an index.
pub open spec fn spec_batch_appendable(base: int, points: Seq<IntPoint>, indices: Seq<usize>) -> bool {
    indices.len() % 3 == 0 && (forall|i: int|
        0 <= i < indices.len() ==> (indices[i] as int) < points.len()) && base + points.len()
        <= u32::MAX
}

/// The point and index buffers after appending a triangulation batch:
/// the batch's points converted exactly and its indices re-based, or the
/// buffers unchanged when the batch is not appendable.
pub open spec fn spec_appended(
    cur_points: Seq<Point>,
    cur_indices: Seq<u32>,
    points: Seq<IntPoint>,
    indices: Seq<usize>,
) -> (Seq<Point>, Seq<u32>) {
    if spec_batch_appendable(cur_points.len() as int, points, indices) {
        (
            cur_points + points.map_values(|p: IntPoint| int_point_as_point(p)),
            cur_indices + indices.map_values(|i: usize| (cur_points.len() + i) as u32),
        )
    } else {
        (cur_points, cur_indices)
    }
}

impl ListMesh {
    /// Every index addresses a point, indices come in whole triangles,
    /// and every point is well formed.
    pub open spec fn wf(self) -> bool {
        self.indices@.len() % 3 == 0 && (forall|i: int|
            0 <= i < self.indices@.len() ==> (self.indices@[i] as int) < self.points@.len())
            && (forall|i: int| 0 <= i < self.points@.len() ==> (#[trigger] self.points@[i]).wf())
    }

    /// An empty mesh with room for `capacity` points and `3 * capacity`
    /// indices.
    pub fn with_capacity(capacity: usize) -> (r: ListMesh)
        requires
            capacity <= usize::MAX / 3,
        ensures
            r.points@.len() == 0,
            r.indices@.len() == 0,
            r.wf(),
    {
        ListMesh { points: Vec::with_capacity(capacity), indices: Vec::with_capacity(3 * capacity) }
    }

    /// A triangulation (as plain point and index lists) is appendable when
    /// its indices come in whole triangles and address its points, and the
    /// combined point count still fits an index.
    pub open spec fn spec_appendable(self, points: Seq<IntPoint>, indices: Seq<usize>) -> bool {
        spec_batch_appendable(self.points@.len() as int, points, indices)
    }

    /// Append an externally produced fill triangulation, re-based onto
    /// this mesh's points. Invalid input (an index out of range, a ragged
    /// triangle count, or overflow) leaves the mesh unchanged.
    #[verifier::loop_isolation(false)]
    pub fn append_triangulation(&mut self, points: &Vec<IntPoint>, indices: &Vec<usize>) -> (r:
        bool)
        requires
            old(self).wf(),
        ensures
            final(self).wf(),
            r <==> old(self).spec_appendable(points@, indices@),
            (final(self).points@, final(self).indices@) == spec_appended(
                old(self).points@,
                old(self).indices@,
                points@,
                indices@,
            ),
            !r ==> *final(self) == *old(self),
    {
        if indices.len() % 3 != 0 {
            return false;
        }
        let n = points.len();
        if n > u32::MAX as usize || self.points.len() > u32::MAX as usize - n {
            return false;
        }
        let mut i: usize = 0;
        while i < indices.len()
            invariant
                *self == *old(self),
                0 <= i <= indices@.len(),
                forall|j: int| 0 <= j < i ==> (indices@[j] as int) < points@.len(),
            decreases indices@.len() - i,
        {
            if indices[i] >= n {
                return false;
            }
            i = i + 1;
        }
        let offset = self.points.len() as u32;
        let mut k: usize = 0;
        while k < points.len()
            invariant
                0 <= k <= points@.len(),
                self.points@.len() == old(self).points@.len() + k,
                self.indices == old(self).indices,
                forall|j: int|
                    0 <= j < old(self).points@.len() ==> self.points@[j] == old(self).points@[j],
                forall|j: int|
                    old(self).points@.len() <= j < self.points@.len() ==> (
                    #[trigger] self.points@[j]) == int_point_as_point(
                        points@[j - old(self).points@.len()],
                    ),
            decreases points@.len() - k,
        {
            let p = Point::with_int_point(&points[k]);
            self.points.push(p);
            k = k + 1;
        }
        let mut k: usize = 0;
        while k < indices.len()
            invariant
                0 <= k <= indices@.len(),
                offset as int == old(self).points@.len(),
                self.points@.len() == old(self).points@.len() + points@.len(),
                points@.len() + old(self).points@.len() <= u32::MAX,
                forall|j: int| 0 <= j < indices@.len() ==> (indices@[j] as int) < points@.len(),
                forall|j: int|
                    0 <= j < old(self).points@.len() ==> self.points@[j] == old(self).points@[j],
                forall|j: int|
                    old(self).points@.len() <= j < self.points@.len() ==> (
                    #[trigger] self.points@[j]) == int_point_as_point(
                        points@[j - old(self).points@.len()],
                    ),
                self.indices@.len() == old(self).indices@.len() + k,
                forall|j: int|
                    0 <= j < old(self).indices@.len() ==> self.indices@[j] == old(self).indices@[j],
                forall|j: int|
                    old(self).indices@.len() <= j < self.indices@.len() ==> (
                    #[trigger] self.indices@[j]) as int == old(self).points@.len() + indices@[j
                        - old(self).indices@.len()],
            decreases indices@.len() - k,
        {
            let idx = indices[k] as u32 + offset;
            self.indices.push(idx);
            k = k + 1;
        }
        proof {
            vstd::arithmetic::div_mod::lemma_add_mod_noop(
                old(self).indices@.len() as int,
                indices@.len() as int,
                3,
            );
            assert forall|j: int|
                0 <= j < self.indices@.len() implies (self.indices@[j] as int)
                < self.points@.len() by {
                if j >= old(self).indices@.len() {
                    assert(self.indices@[j] as int == old(self).points@.len() + indices@[j - old(
                        self,
                    ).indices@.len()]);
                } else {
                    assert(self.indices@[j] == old(self).indices@[j]);
                }
            }
            assert forall|j: int|
                0 <= j < self.points@.len() implies (#[trigger] self.points@[j]).wf() by {
                if j < old(self).points@.len() {
                    assert(self.points@[j] == old(self).points@[j]);
                }
            }
            assert(self.points@ =~= old(self).points@ + points@.map_values(
                |p: IntPoint| int_point_as_point(p),
            ));
            assert(self.indices@ =~= old(self).indices@ + indices@.map_values(
                |i: usize| (old(self).points@.len() + i) as u32,
            ));
        }
        true
    }
}

/// A per-shape fill color with opacity, as exact rationals in `[0, 1]`.
#[derive(Clone, Copy, Debug, PartialEq, Eq, Structural)]
pub struct Brush {
    pub red: Frac,
    pub green: Frac,
    pub blue: Frac,
    pub alpha: Frac,
}

impl Default for Brush {
    /// Opaque white.
    fn default() -> (r: Brush)
        ensures
            r == (Brush {
                red: Frac { num: 1, den: 1 },
                green: Frac { num: 1, den: 1 },
                blue: Frac { num: 1, den: 1 },
                alpha: Frac { num: 1, den: 1 },
            }),
    {
        Brush {
            red: Frac::one(),
            green: Frac::one(),
            blue: Frac::one(),
            alpha: Frac::one(),
        }
    }
}

/// A per-shape stroke color with opacity.
#[derive(Clone, Copy, Debug, PartialEq, Eq, Structural)]
pub struct Pencil {
    pub red: Frac,
    pub green: Frac,
    pub blue: Frac,
    pub alpha: Frac,
}

impl Default for Pencil {
    /// Opaque white.
    fn default() -> (r: Pencil)
        ensures
            r == (Pencil {
                red: Frac { num: 1, den: 1 },
                green: Frac { num: 1, den: 1 },
                blue: Frac { num: 1, den: 1 },
                alpha: Frac { num: 1, den: 1 },
            }),
    {
        Pencil {
            red: Frac::one(),
            green: Frac::one(),
            blue: Frac::one(),
            alpha: Frac::one(),
        }
    }
}

/// A mesh with a per-vertex brush attribute.
#[derive(Debug)]
pub struct Mesh {
    pub points: Vec<Point>,
    pub brushes: Vec<u32>,
    pub indices: Vec<u32>,
}

/// An axis-aligned colored rectangle, rendered as two triangles.
#[derive(Clone, Copy, Debug)]
pub struct BoxShape {
    pub rect: Rect,
    pub brush: u32,
}

impl BoxShape {
    /// The rectangle's corners in the order min/min, min/max, max/max,
    /// max/min; `None` when a corner is unrepresentable.
    pub open spec fn spec_points(self) -> Option<(Point, Point, Point, Point)> {
        match (
            Rect::spec_min(self.rect.center.x, self.rect.size.width),
            Rect::spec_max(self.rect.center.x, self.rect.size.width),
            Rect::spec_min(self.rect.center.y, self.rect.size.height),
            Rect::spec_max(self.rect.center.y, self.rect.size.height),
        ) {
            (Some(x0), Some(x1), Some(y0), Some(y1)) => Some(
                (
                    Point { x: x0, y: y0 },
                    Point { x: x0, y: y1 },
                    Point { x: x1, y: y1 },
                    Point { x: x1, y: y0 },
                ),
            ),
            _ => None,
        }
    }

    fn points(&self) -> (r: Option<(Point, Point, Point, Point)>)
        requires
            self.rect.wf(),
        ensures
            r == self.spec_points(),
            r matches Some(q) ==> q.0.wf() && q.1.wf() && q.2.wf() && q.3.wf(),
    {
        let x0 = match self.rect.min_x() {
            Some(v) => v,
            None => {
                return None;
            },
        };
        let x1 = match self.rect.max_x() {
            Some(v) => v,
            None => {
                return None;
            },
        };
        let y0 = match self.rect.min_y() {
            Some(v) => v,
            None => {
                return None;
            },
        };
        let y1 = match self.rect.max_y() {
            Some(v) => v,
            None => {
                return None;
            },
        };
        Some(
            (
                Point { x: x0, y: y0 },
                Point { x: x0, y: y1 },
                Point { x: x1, y: y1 },
                Point { x: x1, y: y0 },
            ),
        )
    }

    /// The two-triangle mesh of this box, all four vertices carrying its
    /// brush index.
    pub fn mesh(&self) -> (r: Option<Mesh>)
        requires
            self.rect.wf(),
        ensures
            r is Some <==> self.spec_points() is Some,
            r matches Some(m) ==> {
                let q = self.spec_points()->Some_0;
                &&& m.points@ == seq![q.0, q.1, q.2, q.3]
                &&& m.indices@ == seq![0u32, 3u32, 1u32, 2u32, 1u32, 3u32]
                &&& m.brushes@ == seq![self.brush, self.brush, self.brush, self.brush]
            },
    {
        let q = match self.points() {
            Some(v) => v,
            None => {
                return None;
            },
        };
        let points = vec![q.0, q.1, q.2, q.3];
        let indices = vec![0u32, 3u32, 1u32, 2u32, 1u32, 3u32];
        let brushes = vec![self.brush, self.brush, self.brush, self.brush];
        Some(Mesh { points, brushes, indices })
    }
}

} // verus!
