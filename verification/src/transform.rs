//! The axis-aligned affine transform (scale + translate, no rotation or
//! shear) that the camera derives, and its 4x4 column-major matrix form.

use vstd::prelude::*;
use crate::frac::{Frac, Ratio};
use crate::geometry::{Point, PointV};

verus! {

/// Spec-level transform: `p -> (sx*p.x + tx, sy*p.y + ty)`.
pub ghost struct XformV {
    pub sx: Ratio,
    pub sy: Ratio,
    pub tx: Ratio,
    pub ty: Ratio,
}

/// What the ideal transform does to a point, exactly.
pub open spec fn ideal_apply(t: XformV, p: PointV) -> PointV {
    PointV { x: t.sx.mul(p.x).add(t.tx), y: t.sy.mul(p.y).add(t.ty) }
}

/// An axis-aligned scale-and-translate transform.
#[derive(Clone, Copy, Debug, PartialEq, Eq, Structural)]
pub struct OrthoNoRotTransformer {
    pub sx: Frac,
    pub sy: Frac,
    pub tx: Frac,
    pub ty: Frac,
}

impl View for OrthoNoRotTransformer {
    type V = XformV;

    open spec fn view(&self) -> XformV {
        XformV { sx: self.sx@, sy: self.sy@, tx: self.tx@, ty: self.ty@ }
    }
}

impl OrthoNoRotTransformer {
    pub open spec fn wf(self) -> bool {
        self.sx.wf() && self.sy.wf() && self.tx.wf() && self.ty.wf()
    }

    /// Checked application: scale then translate, per axis.
    pub open spec fn spec_transform(self, point: Point) -> Option<Point> {
        match (self.sx.spec_mul(point.x), self.sy.spec_mul(point.y)) {
            (Some(mx), Some(my)) => match (mx.spec_add(self.tx), my.spec_add(self.ty)) {
                (Some(x), Some(y)) => Some(Point { x, y }),
                _ => None,
            },
            _ => None,
        }
    }

    /// The identity transform.
    pub fn empty() -> (r: OrthoNoRotTransformer)
        ensures
            r.wf(),
            r@.sx == Ratio::from_int(1),
            r@.sy == Ratio::from_int(1),
            r@.tx == Ratio::from_int(0),
            r@.ty == Ratio::from_int(0),
    {
        OrthoNoRotTransformer {
            sx: Frac::one(),
            sy: Frac::one(),
            tx: Frac::zero(),
            ty: Frac::zero(),
        }
    }

    /// Apply the transform to a point.
    pub fn transform(&self, point: &Point) -> (r: Option<Point>)
        requires
            self.wf(),
            point.wf(),
        ensures
            r == self.spec_transform(*point),
            r matches Some(p) ==> p.wf(),
    {
        match (self.sx.mul(&point.x), self.sy.mul(&point.y)) {
            (Some(mx), Some(my)) => match (mx.add(&self.tx), my.add(&self.ty)) {
                (Some(x), Some(y)) => Some(Point { x, y }),
                _ => None,
            },
            _ => None,
        }
    }

    /// Checked application to a vector: scale only, no translation.
    pub open spec fn spec_transform_vector(self, vector: Point) -> Option<Point> {
        match (self.sx.spec_mul(vector.x), self.sy.spec_mul(vector.y)) {
            (Some(x), Some(y)) => Some(Point { x, y }),
            _ => None,
        }
    }

    /// Apply only the scale part of the transform, for direction vectors.
    pub fn transform_vector(&self, vector: &Point) -> (r: Option<Point>)
        requires
            self.wf(),
            vector.wf(),
        ensures
            r == self.spec_transform_vector(*vector),
            r matches Some(p) ==> p.wf(),
    {
        match (self.sx.mul(&vector.x), self.sy.mul(&vector.y)) {
            (Some(x), Some(y)) => Some(Point { x, y }),
            _ => None,
        }
    }

    /// The 4x4 column-major matrix of this transform, with identity on the
    /// z axis, laid out for GPU consumption.
    pub fn to_matrix(&self) -> (r: Vec<Frac>)
        requires
            self.wf(),
        ensures
            r@.len() == 16,
            r@[0] == self.sx,
            r@[5] == self.sy,
            r@[12] == self.tx,
            r@[13] == self.ty,
            r@[10]@ == Ratio::from_int(1),
            r@[15]@ == Ratio::from_int(1),
            forall|i: int|
                0 <= i < 16 && i != 0 && i != 5 && i != 10 && i != 12 && i != 13 && i != 15
                    ==> #[trigger] r@[i]@ == Ratio::from_int(0),
    {
        let o = Frac::one();
        let z = Frac::zero();
        let mut m: Vec<Frac> = Vec::new();
        m.push(self.sx);
        m.push(z);
        m.push(z);
        m.push(z);
        m.push(z);
        m.push(self.sy);
        m.push(z);
        m.push(z);
        m.push(z);
        m.push(z);
        m.push(o);
        m.push(z);
        m.push(self.tx);
        m.push(self.ty);
        m.push(z);
        m.push(o);
        m
    }
}

} // verus!
