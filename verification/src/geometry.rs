//! 2D geometric primitives over exact rationals: points, sizes and
//! center/extent rectangles, plus the integer points that paths are made of.

use vstd::prelude::*;
use crate::frac::{Frac, Ratio};

verus! {

/// Spec-level 2D vector of rationals.
pub ghost struct PointV {
    pub x: Ratio,
    pub y: Ratio,
}

/// Spec-level extent pair.
pub ghost struct SizeV {
    pub w: Ratio,
    pub h: Ratio,
}

/// Spec-level rectangle in center/extent form.
pub ghost struct RectV {
    pub center: PointV,
    pub size: SizeV,
}

/// A 2D vector in whichever space it currently lives (screen, world or
/// clip); callers track the space by context.
#[derive(Clone, Copy, Debug, PartialEq, Eq, Structural)]
pub struct Point {
    pub x: Frac,
    pub y: Frac,
}

impl View for Point {
    type V = PointV;

    open spec fn view(&self) -> PointV {
        PointV { x: self.x@, y: self.y@ }
    }
}

impl Point {
    pub open spec fn wf(self) -> bool {
        self.x.wf() && self.y.wf()
    }

    /// Checked componentwise addition.
    pub open spec fn spec_add(self, other: Point) -> Option<Point> {
        match (self.x.spec_add(other.x), self.y.spec_add(other.y)) {
            (Some(x), Some(y)) => Some(Point { x, y }),
            _ => None,
        }
    }

    /// Checked componentwise subtraction.
    pub open spec fn spec_sub(self, other: Point) -> Option<Point> {
        match (self.x.spec_sub(other.x), self.y.spec_sub(other.y)) {
            (Some(x), Some(y)) => Some(Point { x, y }),
            _ => None,
        }
    }

    pub fn new(x: Frac, y: Frac) -> (r: Point)
        ensures
            r == (Point { x, y }),
    {
        Point { x, y }
    }

    /// The origin.
    pub fn zero() -> (r: Point)
        ensures
            r.wf(),
            r@.x == Ratio::from_int(0),
            r@.y == Ratio::from_int(0),
    {
        Point { x: Frac::zero(), y: Frac::zero() }
    }

    pub fn add(&self, other: &Point) -> (r: Option<Point>)
        requires
            self.wf(),
            other.wf(),
        ensures
            r == self.spec_add(*other),
            r matches Some(p) ==> p.wf(),
    {
        match (self.x.add(&other.x), self.y.add(&other.y)) {
            (Some(x), Some(y)) => Some(Point { x, y }),
            _ => None,
        }
    }

    pub fn sub(&self, other: &Point) -> (r: Option<Point>)
        requires
            self.wf(),
            other.wf(),
        ensures
            r == self.spec_sub(*other),
            r matches Some(p) ==> p.wf(),
    {
        match (self.x.sub(&other.x), self.y.sub(&other.y)) {
            (Some(x), Some(y)) => Some(Point { x, y }),
            _ => None,
        }
    }

    /// Componentwise negation; exact and total.
    pub fn neg(&self) -> (r: Point)
        requires
            self.wf(),
        ensures
            r.wf(),
            r@.x == self@.x.neg(),
            r@.y == self@.y.neg(),
    {
        Point { x: self.x.neg(), y: self.y.neg() }
    }

    /// The point of an integer-grid path vertex, exactly.
    pub fn with_int_point(point: &IntPoint) -> (r: Point)
        ensures
            r.wf(),
            r == int_point_as_point(*point),
            r@.x == Ratio::from_int(point.x as int),
            r@.y == Ratio::from_int(point.y as int),
    {
        Point { x: Frac::from_int(point.x as i64), y: Frac::from_int(point.y as i64) }
    }
}

/// An integer-grid vertex as an exact rational point.
pub open spec fn int_point_as_point(p: IntPoint) -> Point {
    Point { x: Frac { num: p.x as i64, den: 1 }, y: Frac { num: p.y as i64, den: 1 } }
}

/// A vertex of an integer-grid path.
#[derive(Clone, Copy, Debug, PartialEq, Eq, Structural)]
pub struct IntPoint {
    pub x: i32,
    pub y: i32,
}

impl IntPoint {
    pub fn new(x: i32, y: i32) -> (r: IntPoint)
        ensures
            r == (IntPoint { x, y }),
    {
        IntPoint { x, y }
    }
}

/// Width/height extents.
#[derive(Clone, Copy, Debug, PartialEq, Eq, Structural)]
pub struct Size {
    pub width: Frac,
    pub height: Frac,
}

impl View for Size {
    type V = SizeV;

    open spec fn view(&self) -> SizeV {
        SizeV { w: self.width@, h: self.height@ }
    }
}

impl Size {
    pub open spec fn wf(self) -> bool {
        self.width.wf() && self.height.wf()
    }

    /// Checked uniform scaling.
    pub open spec fn spec_scaled(self, scale: Frac) -> Option<Size> {
        match (scale.spec_mul(self.width), scale.spec_mul(self.height)) {
            (Some(width), Some(height)) => Some(Size { width, height }),
            _ => None,
        }
    }

    pub fn new(width: Frac, height: Frac) -> (r: Size)
        ensures
            r == (Size { width, height }),
    {
        Size { width, height }
    }

    /// A size from pixel counts, exactly.
    pub fn new_uint(width: u32, height: u32) -> (r: Size)
        ensures
            r.wf(),
            r@.w == Ratio::from_int(width as int),
            r@.h == Ratio::from_int(height as int),
    {
        Size { width: Frac::from_int(width as i64), height: Frac::from_int(height as i64) }
    }

    pub fn scaled(&self, scale: &Frac) -> (r: Option<Size>)
        requires
            self.wf(),
            scale.wf(),
        ensures
            r == self.spec_scaled(*scale),
            r matches Some(ns) ==> ns.wf(),
    {
        match (scale.mul(&self.width), scale.mul(&self.height)) {
            (Some(width), Some(height)) => Some(Size { width, height }),
            _ => None,
        }
    }
}

/// An axis-aligned rectangle in center/extent form: it scales and
/// recenters without recomputing corners.
#[derive(Clone, Copy, Debug, PartialEq, Eq, Structural)]
pub struct Rect {
    pub center: Point,
    pub size: Size,
}

impl View for Rect {
    type V = RectV;

    open spec fn view(&self) -> RectV {
        RectV { center: self.center@, size: self.size@ }
    }
}

impl Rect {
    pub open spec fn wf(self) -> bool {
        self.center.wf() && self.size.wf()
    }

    /// One half, as an exact rational.
    pub open spec fn spec_half() -> Frac {
        Frac { num: 1, den: 2 }
    }

    /// Checked `center - extent/2` per axis.
    pub open spec fn spec_min(c: Frac, extent: Frac) -> Option<Frac> {
        match extent.spec_mul(Self::spec_half()) {
            Some(h) => c.spec_sub(h),
            None => None,
        }
    }

    /// Checked `center + extent/2` per axis.
    pub open spec fn spec_max(c: Frac, extent: Frac) -> Option<Frac> {
        match extent.spec_mul(Self::spec_half()) {
            Some(h) => c.spec_add(h),
            None => None,
        }
    }

    /// A rectangle whose minimum corner is the origin.
    pub open spec fn spec_with_size(size: Size) -> Option<Rect> {
        match (size.width.spec_mul(Self::spec_half()), size.height.spec_mul(Self::spec_half())) {
            (Some(x), Some(y)) => Some(Rect { center: Point { x, y }, size }),
            _ => None,
        }
    }

    /// The rectangle spanned by a minimum and a maximum corner.
    pub open spec fn spec_new(min: Point, max: Point) -> Option<Rect> {
        match (max.spec_sub(min), min.spec_add(max)) {
            (Some(diag), Some(sum)) => match (
                sum.x.spec_mul(Self::spec_half()),
                sum.y.spec_mul(Self::spec_half()),
            ) {
                (Some(cx), Some(cy)) => Some(
                    Rect {
                        center: Point { x: cx, y: cy },
                        size: Size { width: diag.x, height: diag.y },
                    },
                ),
                _ => None,
            },
            _ => None,
        }
    }

    /// Exact one half.
    pub fn half() -> (r: Frac)
        ensures
            r == Self::spec_half(),
            r.wf(),
    {
        Frac { num: 1, den: 2 }
    }

    /// A rectangle covering `[0, width] x [0, height]`.
    pub fn with_size(size: Size) -> (r: Option<Rect>)
        requires
            size.wf(),
        ensures
            r == Self::spec_with_size(size),
            r matches Some(rect) ==> rect.wf(),
    {
        let h = Self::half();
        match (size.width.mul(&h), size.height.mul(&h)) {
            (Some(x), Some(y)) => Some(Rect { center: Point { x, y }, size }),
            _ => None,
        }
    }

    /// The rectangle with the given minimum and maximum corners.
    pub fn new(min: Point, max: Point) -> (r: Option<Rect>)
        requires
            min.wf(),
            max.wf(),
        ensures
            r == Self::spec_new(min, max),
            r matches Some(rect) ==> rect.wf(),
    {
        let h = Self::half();
        match (max.sub(&min), min.add(&max)) {
            (Some(diag), Some(sum)) => match (sum.x.mul(&h), sum.y.mul(&h)) {
                (Some(cx), Some(cy)) => Some(
                    Rect {
                        center: Point { x: cx, y: cy },
                        size: Size { width: diag.x, height: diag.y },
                    },
                ),
                _ => None,
            },
            _ => None,
        }
    }

    pub fn min_x(&self) -> (r: Option<Frac>)
        requires
            self.wf(),
        ensures
            r == Self::spec_min(self.center.x, self.size.width),
            r matches Some(v) ==> v.wf(),
    {
        let h = Self::half();
        match self.size.width.mul(&h) {
            Some(half_w) => self.center.x.sub(&half_w),
            None => None,
        }
    }

    pub fn min_y(&self) -> (r: Option<Frac>)
        requires
            self.wf(),
        ensures
            r == Self::spec_min(self.center.y, self.size.height),
            r matches Some(v) ==> v.wf(),
    {
        let h = Self::half();
        match self.size.height.mul(&h) {
            Some(half_h) => self.center.y.sub(&half_h),
            None => None,
        }
    }

    pub fn max_x(&self) -> (r: Option<Frac>)
        requires
            self.wf(),
        ensures
            r == Self::spec_max(self.center.x, self.size.width),
            r matches Some(v) ==> v.wf(),
    {
        let h = Self::half();
        match self.size.width.mul(&h) {
            Some(half_w) => self.center.x.add(&half_w),
            None => None,
        }
    }

    pub fn max_y(&self) -> (r: Option<Frac>)
        requires
            self.wf(),
        ensures
            r == Self::spec_max(self.center.y, self.size.height),
            r matches Some(v) ==> v.wf(),
    {
        let h = Self::half();
        match self.size.height.mul(&h) {
            Some(half_h) => self.center.y.add(&half_h),
            None => None,
        }
    }

    /// Uniform scaling about the rectangle's own center.
    pub fn scaled(&self, scale: &Frac) -> (r: Option<Rect>)
        requires
            self.wf(),
            scale.wf(),
        ensures
            r matches Some(s) ==> self.size.spec_scaled(*scale) == Some(s.size) && s.center
                == self.center && s.wf(),
            r is Some <==> self.size.spec_scaled(*scale) is Some,
    {
        match self.size.scaled(scale) {
            Some(size) => Some(Rect { center: self.center, size }),
            None => None,
        }
    }
}

} // verus!
