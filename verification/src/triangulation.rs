//! The stroke triangulator: a constant-width quad mesh around every edge
//! of one or more closed integer-grid paths.
//!
//! For each edge `(a, b)`, including the implicit closing edge from the
//! last vertex back to the first, the edge's perpendicular scaled to the
//! half width gives four vertices `a-t, a+t, b+t, b-t` and two triangles.
//! Adjacent edge rectangles are not mitered or joined; they simply
//! overlap or gap at corners. The perpendicular's length divides by the
//! rounded-down square root of the squared edge length scaled by 2^32,
//! so it is exact whenever the edge length is whole (in particular for
//! axis-aligned edges) and otherwise at least the half width and over by
//! less than one part in 65536 (`lemma_tangent_accuracy`). A zero-length
//! edge, or an offset that cannot be represented, degenerates to a
//! zero-area rectangle on the edge itself.

use vstd::prelude::*;
use vstd::arithmetic::mul::lemma_mul_unary_negation;
use crate::frac::{
    lemma_ac3, lemma_add_congruence, lemma_eq_trans, lemma_mul_congruence, lemma_pos_prod,
    lemma_ratio_ops_wf, lemma_reduced_some, reduce, reduced, Frac, Ratio,
};
use crate::geometry::{IntPoint, Point};
use crate::mesh::ListMesh;

verus! {

pub type IntPath = Vec<IntPoint>;

pub type IntShape = Vec<IntPath>;

pub type IntShapes = Vec<IntShape>;

/// `s` is the integer square root of `n`, rounded down.
pub open spec fn is_sqrt(s: nat, n: nat) -> bool {
    s * s <= n && n < (s + 1) * (s + 1)
}

/// The integer square root, rounded down.
pub open spec fn sqrt_floor(n: nat) -> nat {
    choose|s: nat| is_sqrt(s, n)
}

/// The rounded-down square root is unique.
proof fn lemma_sqrt_unique(n: nat, s1: nat, s2: nat)
    requires
        is_sqrt(s1, n),
        is_sqrt(s2, n),
    ensures
        s1 == s2,
{
    assert(!(s1 < s2) && !(s2 < s1)) by (nonlinear_arith)
        requires
            s1 * s1 <= n < (s1 + 1) * (s1 + 1),
            s2 * s2 <= n < (s2 + 1) * (s2 + 1),
    ;
}

/// Every natural number has a rounded-down square root.
proof fn lemma_sqrt_exists(n: nat)
    ensures
        is_sqrt(sqrt_floor(n), n),
    decreases n,
{
    if n == 0 {
        assert(is_sqrt(0, 0)) by (nonlinear_arith);
        assert(exists|s: nat| is_sqrt(s, n));
    } else {
        lemma_sqrt_exists((n - 1) as nat);
        let r = sqrt_floor((n - 1) as nat);
        if n < (r + 1) * (r + 1) {
            assert(is_sqrt(r, n));
        } else {
            assert(is_sqrt(r + 1, n)) by (nonlinear_arith)
                requires
                    n == (r + 1) * (r + 1),
            ;
        }
        assert(exists|s: nat| is_sqrt(s, n));
    }
}

/// Binary-search integer square root.
fn isqrt(n: u128) -> (s: u128)
    requires
        n < 0x4_0000_0000_0000_0000_0000_0000,
    ensures
        is_sqrt(s as nat, n as nat),
        s as nat == sqrt_floor(n as nat),
{
    let mut lo: u128 = 0;
    let mut hi: u128 = 0x2_0000_0000_0000;
    proof {
        assert((0x2_0000_0000_0000 as int) * (0x2_0000_0000_0000 as int)
            == 0x4_0000_0000_0000_0000_0000_0000);
    }
    while lo + 1 < hi
        invariant
            lo < hi <= 0x2_0000_0000_0000,
            (lo as nat) * (lo as nat) <= n as nat,
            (n as nat) < (hi as nat) * (hi as nat),
        decreases hi - lo,
    {
        let mid = lo + (hi - lo) / 2;
        proof {
            assert((mid as nat) * (mid as nat) < 0x4_0000_0000_0000_0000_0000_0000)
                by (nonlinear_arith)
                requires
                    mid < 0x2_0000_0000_0000,
            ;
        }
        if mid * mid <= n {
            lo = mid;
        } else {
            hi = mid;
        }
    }
    proof {
        assert(is_sqrt(lo as nat, n as nat));
        let w = choose|s: nat| is_sqrt(s, n as nat);
        assert(is_sqrt(w, n as nat));
        lemma_sqrt_unique(n as nat, lo as nat, w);
    }
    lo
}

/// The stroke offset of the edge `a -> b`: the edge vector rotated a
/// quarter turn, scaled to the half-width `r` times 65536 and divided by
/// the rounded square root of the squared edge length times `2^32` (so
/// the offset carries the edge length to 1/65536 precision). `None` when
/// the reduced exact components do not fit; a zero-length edge gives the
/// zero offset.
pub open spec fn spec_tangent(a: IntPoint, b: IntPoint, r: Frac) -> Option<(Frac, Frac)> {
    let dx = b.x as int - a.x as int;
    let dy = b.y as int - a.y as int;
    let s = sqrt_floor(((dx * dx + dy * dy) * 0x1_0000_0000) as nat) as int;
    if s == 0 {
        Some((Frac { num: 0, den: 1 }, Frac { num: 0, den: 1 }))
    } else {
        match (
            reduced(Ratio { n: -(((r.num as int) * dy) * 0x1_0000), d: (r.den as int) * s }),
            reduced(Ratio { n: ((r.num as int) * dx) * 0x1_0000, d: (r.den as int) * s }),
        ) {
            (Some(tx), Some(ty)) => Some((tx, ty)),
            _ => None,
        }
    }
}

/// The scaled root brackets the edge length tightly: for a nonzero edge,
/// `s` (the rounded root of `2^32` times the squared length) satisfies
/// `s*s <= 2^32 * l2 < (s+1)*(s+1)` and `s >= 65536`. The offset's
/// length is therefore at least the half width and exceeds it by less
/// than one part in 65536.
pub proof fn lemma_tangent_accuracy(a: IntPoint, b: IntPoint)
    requires
        a.x != b.x || a.y != b.y,
    ensures
        ({
            let dx = b.x as int - a.x as int;
            let dy = b.y as int - a.y as int;
            let l2 = dx * dx + dy * dy;
            let s = sqrt_floor((l2 * 0x1_0000_0000) as nat) as int;
            &&& s * s <= l2 * 0x1_0000_0000
            &&& l2 * 0x1_0000_0000 < (s + 1) * (s + 1)
            &&& s >= 0x1_0000
        }),
{
    let dx = b.x as int - a.x as int;
    let dy = b.y as int - a.y as int;
    let l2 = dx * dx + dy * dy;
    assert(dx * dx >= 0 && dy * dy >= 0 && (dx != 0 ==> dx * dx >= 1) && (dy != 0 ==> dy * dy
        >= 1)) by (nonlinear_arith);
    assert(l2 >= 1);
    lemma_sqrt_exists((l2 * 0x1_0000_0000) as nat);
    let s = sqrt_floor((l2 * 0x1_0000_0000) as nat) as int;
    assert(s >= 0x1_0000) by (nonlinear_arith)
        requires
            l2 >= 1,
            s >= 0,
            l2 * 0x1_0000_0000 < (s + 1) * (s + 1),
    ;
}

/// The stroke offset is exactly perpendicular to its edge: its dot
/// product with the edge vector is zero.
pub proof fn lemma_tangent_perpendicular(a: IntPoint, b: IntPoint, r: Frac)
    requires
        r.wf(),
        spec_tangent(a, b, r) is Some,
    ensures
        ({
            let t = spec_tangent(a, b, r)->Some_0;
            let dx = Ratio { n: b.x as int - a.x as int, d: 1 };
            let dy = Ratio { n: b.y as int - a.y as int, d: 1 };
            t.0@.mul(dx).add(t.1@.mul(dy)).eq(Ratio { n: 0, d: 1 })
        }),
{
    let t = spec_tangent(a, b, r)->Some_0;
    let dxi = b.x as int - a.x as int;
    let dyi = b.y as int - a.y as int;
    let dx = Ratio { n: dxi, d: 1 };
    let dy = Ratio { n: dyi, d: 1 };
    let s = sqrt_floor(((dxi * dxi + dyi * dyi) * 0x1_0000_0000) as nat) as int;
    let zero = Ratio { n: 0, d: 1 };
    if s == 0 {
        assert(t.0@.mul(dx).add(t.1@.mul(dy)).eq(zero));
    } else {
        let rn = r.num as int;
        let d = (r.den as int) * s;
        lemma_pos_prod(r.den as int, s);
        let rx = Ratio { n: -((rn * dyi) * 0x1_0000), d };
        let ry = Ratio { n: (rn * dxi) * 0x1_0000, d };
        lemma_reduced_some(rx);
        lemma_reduced_some(ry);
        lemma_ratio_ops_wf(rx, dx);
        lemma_ratio_ops_wf(ry, dy);
        lemma_ratio_ops_wf(t.0@, dx);
        lemma_ratio_ops_wf(t.1@, dy);
        lemma_mul_congruence(t.0@, dx, rx, dx);
        lemma_mul_congruence(t.1@, dy, ry, dy);
        lemma_add_congruence(t.0@.mul(dx), t.1@.mul(dy), rx.mul(dx), ry.mul(dy));
        // the cross terms cancel exactly
        lemma_ac3(rn * dyi, 0x1_0000, dxi);
        lemma_ac3(rn, dyi, dxi);
        lemma_ac3(rn * dxi, dyi, 0x1_0000);
        lemma_mul_unary_negation((rn * dyi) * 0x1_0000, dxi);
        assert(rx.mul(dx).n == -(ry.mul(dy).n));
        lemma_ratio_ops_wf(rx.mul(dx), ry.mul(dy));
        assert(rx.mul(dx).add(ry.mul(dy)).n == 0) by {
            assert(rx.mul(dx).d == ry.mul(dy).d);
            lemma_mul_unary_negation(ry.mul(dy).n, ry.mul(dy).d);
        }
        assert(rx.mul(dx).add(ry.mul(dy)).eq(zero));
        lemma_ratio_ops_wf(t.0@.mul(dx), t.1@.mul(dy));
        lemma_eq_trans(t.0@.mul(dx).add(t.1@.mul(dy)), rx.mul(dx).add(ry.mul(dy)), zero);
    }
}

fn tangent(a: &IntPoint, b: &IntPoint, r: &Frac) -> (t: Option<(Frac, Frac)>)
    requires
        r.wf(),
    ensures
        t == spec_tangent(*a, *b, *r),
        t matches Some(p) ==> p.0.wf() && p.1.wf(),
{
    let dx = b.x as i64 - a.x as i64;
    let dy = b.y as i64 - a.y as i64;
    proof {
        assert((dx as i128) * (dx as i128) < 0x1_0000_0000_0000_0000 && (dy as i128) * (dy
            as i128) < 0x1_0000_0000_0000_0000 && (dx as i128) * (dx as i128) >= 0 && (dy
            as i128) * (dy as i128) >= 0) by (nonlinear_arith)
            requires
                -0x1_0000_0000 < (dx as i128) && (dx as i128) < 0x1_0000_0000,
                -0x1_0000_0000 < (dy as i128) && (dy as i128) < 0x1_0000_0000,
        ;
    }
    let l2 = ((dx as i128) * (dx as i128) + (dy as i128) * (dy as i128)) as u128;
    let s = isqrt(l2 * 0x1_0000_0000);
    if s == 0 {
        Some((Frac::zero(), Frac::zero()))
    } else {
        proof {
            assert((s as nat) * (s as nat) <= (l2 * 0x1_0000_0000) as nat);
            assert(s < 0x2_0000_0000_0000) by (nonlinear_arith)
                requires
                    (s as nat) * (s as nat) <= (l2 * 0x1_0000_0000) as nat,
                    ((l2 * 0x1_0000_0000) as nat) < 0x4_0000_0000_0000_0000_0000_0000,
            ;
            assert(-0x8000_0000_0000_0000_0000_0000_0000 <= ((r.num as i128) * (dy as i128))
                * 0x1_0000 && ((r.num as i128) * (dy as i128)) * 0x1_0000
                <= 0x8000_0000_0000_0000_0000_0000_0000) by (nonlinear_arith)
                requires
                    -0x8000_0000_0000_0000 < (r.num as i128) && (r.num as i128)
                        < 0x8000_0000_0000_0000,
                    -0x1_0000_0000 < (dy as i128) && (dy as i128) < 0x1_0000_0000,
            ;
            assert(-0x8000_0000_0000_0000_0000_0000_0000 <= ((r.num as i128) * (dx as i128))
                * 0x1_0000 && ((r.num as i128) * (dx as i128)) * 0x1_0000
                <= 0x8000_0000_0000_0000_0000_0000_0000) by (nonlinear_arith)
                requires
                    -0x8000_0000_0000_0000 < (r.num as i128) && (r.num as i128)
                        < 0x8000_0000_0000_0000,
                    -0x1_0000_0000 < (dx as i128) && (dx as i128) < 0x1_0000_0000,
            ;
            assert(0 < (r.den as i128) * (s as i128) && (r.den as i128) * (s as i128)
                < 0x1_0000_0000_0000_0000_0000_0000_0000) by (nonlinear_arith)
                requires
                    0 < (r.den as i128) && (r.den as i128) < 0x8000_0000_0000_0000,
                    0 < (s as i128) && (s as i128) < 0x2_0000_0000_0000,
            ;
        }
        let d = (r.den as i128) * (s as i128);
        let nx = -(((r.num as i128) * (dy as i128)) * 0x1_0000);
        let ny = ((r.num as i128) * (dx as i128)) * 0x1_0000;
        match (reduce(nx, d), reduce(ny, d)) {
            (Some(tx), Some(ty)) => Some((tx, ty)),
            _ => None,
        }
    }
}

/// The four stroke vertices of the edge `a -> b`: `a-t, a+t, b+t, b-t`,
/// falling back to the degenerate `a, a, b, b` when the offset cannot be
/// represented.
pub open spec fn spec_quad(a: IntPoint, b: IntPoint, r: Frac) -> (Point, Point, Point, Point) {
    let pa = Point {
        x: Frac { num: a.x as i64, den: 1 },
        y: Frac { num: a.y as i64, den: 1 },
    };
    let pb = Point {
        x: Frac { num: b.x as i64, den: 1 },
        y: Frac { num: b.y as i64, den: 1 },
    };
    match spec_tangent(a, b, r) {
        Some(t) => {
            let tp = Point { x: t.0, y: t.1 };
            match (pa.spec_sub(tp), pa.spec_add(tp), pb.spec_add(tp), pb.spec_sub(tp)) {
                (Some(p0), Some(p1), Some(p2), Some(p3)) => (p0, p1, p2, p3),
                _ => (pa, pa, pb, pb),
            }
        },
        None => (pa, pa, pb, pb),
    }
}

/// The components of a representable stroke offset are well formed.
proof fn lemma_tangent_wf(a: IntPoint, b: IntPoint, r: Frac)
    requires
        r.wf(),
    ensures
        spec_tangent(a, b, r) matches Some(t) ==> t.0.wf() && t.1.wf(),
{
    let dx = b.x as int - a.x as int;
    let dy = b.y as int - a.y as int;
    let s = sqrt_floor(((dx * dx + dy * dy) * 0x1_0000_0000) as nat) as int;
    if s != 0 {
        crate::frac::lemma_pos_prod(r.den as int, s);
        let rx = Ratio { n: -(((r.num as int) * dy) * 0x1_0000), d: (r.den as int) * s };
        let ry = Ratio { n: ((r.num as int) * dx) * 0x1_0000, d: (r.den as int) * s };
        if reduced(rx) is Some {
            crate::frac::lemma_reduced_some(rx);
        }
        if reduced(ry) is Some {
            crate::frac::lemma_reduced_some(ry);
        }
    }
}

/// All four quad corners are well formed.
proof fn lemma_quad_wf(a: IntPoint, b: IntPoint, r: Frac)
    requires
        r.wf(),
    ensures
        spec_quad(a, b, r).0.wf(),
        spec_quad(a, b, r).1.wf(),
        spec_quad(a, b, r).2.wf(),
        spec_quad(a, b, r).3.wf(),
{
    let pa = Point {
        x: Frac { num: a.x as i64, den: 1 },
        y: Frac { num: a.y as i64, den: 1 },
    };
    let pb = Point {
        x: Frac { num: b.x as i64, den: 1 },
        y: Frac { num: b.y as i64, den: 1 },
    };
    lemma_tangent_wf(a, b, r);
    match spec_tangent(a, b, r) {
        Some(t) => {
            let tp = Point { x: t.0, y: t.1 };
            crate::frac::lemma_spec_ops_some(pa.x, tp.x);
            crate::frac::lemma_spec_ops_some(pa.y, tp.y);
            crate::frac::lemma_spec_ops_some(pb.x, tp.x);
            crate::frac::lemma_spec_ops_some(pb.y, tp.y);
        },
        None => {},
    }
}

fn quad(a: &IntPoint, b: &IntPoint, r: &Frac) -> (q: (Point, Point, Point, Point))
    requires
        r.wf(),
    ensures
        q == spec_quad(*a, *b, *r),
        q.0.wf() && q.1.wf() && q.2.wf() && q.3.wf(),
{
    let pa = Point::with_int_point(a);
    let pb = Point::with_int_point(b);
    let t = match tangent(a, b, r) {
        Some(t) => t,
        None => {
            return (pa, pa, pb, pb);
        },
    };
    let tp = Point { x: t.0, y: t.1 };
    match (pa.sub(&tp), pa.add(&tp), pb.add(&tp), pb.sub(&tp)) {
        (Some(p0), Some(p1), Some(p2), Some(p3)) => (p0, p1, p2, p3),
        _ => (pa, pa, pb, pb),
    }
}

/// The path vertex an edge starts at: the predecessor of vertex `i`,
/// wrapping to the last vertex for the closing edge.
pub open spec fn edge_start(path: Seq<IntPoint>, i: int) -> IntPoint {
    if i == 0 {
        path[path.len() as int - 1]
    } else {
        path[i - 1]
    }
}

/// The stroke points of the first `k` edges of a path, four per edge.
pub open spec fn stroke_points(path: Seq<IntPoint>, r: Frac, k: int) -> Seq<Point>
    decreases k,
{
    if k <= 0 {
        Seq::empty()
    } else {
        let q = spec_quad(edge_start(path, k - 1), path[k - 1], r);
        stroke_points(path, r, k - 1) + seq![q.0, q.1, q.2, q.3]
    }
}

/// The stroke indices of the first `k` edges, six per edge, with vertex
/// numbers starting at `base`: per edge `n, n+2, n+1, n, n+3, n+2`.
pub open spec fn stroke_indices(base: int, k: int) -> Seq<u32>
    decreases k,
{
    if k <= 0 {
        Seq::empty()
    } else {
        let n = base + 4 * (k - 1);
        stroke_indices(base, k - 1) + seq![
            n as u32,
            (n + 2) as u32,
            (n + 1) as u32,
            n as u32,
            (n + 3) as u32,
            (n + 2) as u32,
        ]
    }
}

/// Four points and six indices per edge.
pub proof fn lemma_stroke_lens(path: Seq<IntPoint>, r: Frac, base: int, k: int)
    requires
        k >= 0,
    ensures
        stroke_points(path, r, k).len() == 4 * k,
        stroke_indices(base, k).len() == 6 * k,
    decreases k,
{
    if k > 0 {
        lemma_stroke_lens(path, r, base, k - 1);
    }
}

/// Every stroke point is well formed, and every stroke index lies below
/// `base + 4k`.
pub proof fn lemma_stroke_wf(path: Seq<IntPoint>, r: Frac, base: int, k: int)
    requires
        k >= 0,
        r.wf(),
        0 <= base,
        base + 4 * k <= u32::MAX,
    ensures
        forall|j: int|
            0 <= j < stroke_points(path, r, k).len() ==> (#[trigger] stroke_points(
                path,
                r,
                k,
            )[j]).wf(),
        forall|j: int|
            0 <= j < stroke_indices(base, k).len() ==> base <= ((#[trigger] stroke_indices(
                base,
                k,
            )[j]) as int) && ((stroke_indices(base, k)[j]) as int) < base + 4 * k,
    decreases k,
{
    if k > 0 {
        lemma_stroke_wf(path, r, base, k - 1);
        lemma_stroke_lens(path, r, base, k - 1);
        lemma_quad_wf(edge_start(path, k - 1), path[k - 1], r);
    }
}

/// Stroke one path into the shared buffers: four points and six indices
/// per edge, the implicit closing edge included.
fn feed(points: &mut Vec<Point>, indices: &mut Vec<u32>, path: &IntPath, r: &Frac)
    requires
        path@.len() >= 2,
        r.wf(),
        old(points)@.len() + 4 * path@.len() <= u32::MAX,
    ensures
        final(points)@ == old(points)@ + stroke_points(path@, *r, path@.len() as int),
        final(indices)@ == old(indices)@ + stroke_indices(
            old(points)@.len() as int,
            path@.len() as int,
        ),
{
    let ghost base = points@.len() as int;
    let mut a: IntPoint = path[path.len() - 1];
    let mut n: u32 = points.len() as u32;
    let mut i: usize = 0;
    proof {
        assert(points@ =~= old(points)@ + stroke_points(path@, *r, 0));
        assert(indices@ =~= old(indices)@ + stroke_indices(base, 0));
    }
    while i < path.len()
        invariant
            path@.len() >= 2,
            r.wf(),
            base == old(points)@.len(),
            base + 4 * path@.len() <= u32::MAX,
            0 <= i <= path@.len(),
            n as int == base + 4 * i,
            a == edge_start(path@, i as int),
            points@ == old(points)@ + stroke_points(path@, *r, i as int),
            indices@ == old(indices)@ + stroke_indices(base, i as int),
        decreases path@.len() - i,
    {
        let b = path[i];
        let q = quad(&a, &b, r);
        points.push(q.0);
        points.push(q.1);
        points.push(q.2);
        points.push(q.3);
        indices.push(n);
        indices.push(n + 2);
        indices.push(n + 1);
        indices.push(n);
        indices.push(n + 3);
        indices.push(n + 2);
        proof {
            lemma_stroke_lens(path@, *r, base, i as int);
            assert(points@ =~= old(points)@ + stroke_points(path@, *r, i as int + 1));
            assert(indices@ =~= old(indices)@ + stroke_indices(base, i as int + 1));
        }
        a = b;
        n = n + 4;
        i = i + 1;
    }
}

/// What stroking a single path produces: empty for fewer than two
/// vertices, a non-positive width, or an unrepresentable half width.
pub open spec fn spec_stroke_path(path: Seq<IntPoint>, width: Frac) -> (Seq<Point>, Seq<u32>) {
    let half = Frac { num: 1, den: 2 };
    if path.len() < 2 || !(Ratio { n: 0, d: 1 }).lt(width@) {
        (Seq::empty(), Seq::empty())
    } else {
        match width.spec_mul(half) {
            Some(r) => (
                stroke_points(path, r, path.len() as int),
                stroke_indices(0, path.len() as int),
            ),
            None => (Seq::empty(), Seq::empty()),
        }
    }
}

/// Stroke a single closed path into a fresh mesh.
///
/// A path of `n >= 2` vertices and a positive width yields exactly `4n`
/// points and `6n` indices; fewer vertices, or a width of zero or below,
/// yields the empty mesh.
pub fn triangulate_path(path: &IntPath, width: &Frac) -> (mesh: ListMesh)
    requires
        width.wf(),
        path@.len() <= 0x0fff_ffff,
    ensures
        mesh.points@ == spec_stroke_path(path@, *width).0,
        mesh.indices@ == spec_stroke_path(path@, *width).1,
        mesh.wf(),
{
    let n = vertices_count(path);
    let zero = Frac::zero();
    let half = crate::geometry::Rect::half();
    if n < 2 || !zero.lt(width) {
        return ListMesh { points: Vec::new(), indices: Vec::new() };
    }
    let r = match width.mul(&half) {
        Some(v) => v,
        None => {
            return ListMesh { points: Vec::new(), indices: Vec::new() };
        },
    };
    let mut points: Vec<Point> = Vec::with_capacity(4 * n);
    let mut indices: Vec<u32> = Vec::with_capacity(6 * n);
    feed(&mut points, &mut indices, path, &r);
    proof {
        lemma_stroke_lens(path@, r, 0, path@.len() as int);
        lemma_stroke_wf(path@, r, 0, path@.len() as int);
        assert(points@ =~= stroke_points(path@, r, path@.len() as int));
        assert(indices@ =~= stroke_indices(0, path@.len() as int));
    }
    ListMesh { points, indices }
}

/// The number of vertices of one path.
pub fn vertices_count(path: &IntPath) -> (r: usize)
    ensures
        r == path@.len(),
{
    path.len()
}

/// The total vertex count over a shape's paths.
pub open spec fn spec_shape_vertices(shape: Seq<Seq<IntPoint>>, k: int) -> int
    decreases k,
{
    if k <= 0 {
        0
    } else {
        spec_shape_vertices(shape, k - 1) + shape[k - 1].len()
    }
}

/// The vertex counts are nonnegative and grow with `k`.
pub proof fn lemma_shape_vertices_bounds(shape: Seq<Seq<IntPoint>>, k: int)
    requires
        0 <= k <= shape.len(),
    ensures
        0 <= spec_shape_vertices(shape, k),
        forall|j: int|
            0 <= j <= k ==> #[trigger] spec_shape_vertices(shape, j) <= spec_shape_vertices(
                shape,
                k,
            ),
    decreases k,
{
    if k > 0 {
        lemma_shape_vertices_bounds(shape, k - 1);
    }
}

/// The number of vertices over all paths of a shape.
pub fn shape_vertices_count(shape: &IntShape) -> (r: usize)
    requires
        spec_shape_vertices(shape@.map_values(|p: IntPath| p@), shape@.len() as int)
            <= usize::MAX,
    ensures
        r == spec_shape_vertices(shape@.map_values(|p: IntPath| p@), shape@.len() as int),
{
    let ghost paths = shape@.map_values(|p: IntPath| p@);
    let mut total: usize = 0;
    let mut i: usize = 0;
    while i < shape.len()
        invariant
            0 <= i <= shape@.len(),
            paths == shape@.map_values(|p: IntPath| p@),
            spec_shape_vertices(paths, paths.len() as int) <= usize::MAX,
            total == spec_shape_vertices(paths, i as int),
        decreases shape@.len() - i,
    {
        proof {
            lemma_shape_vertices_bounds(paths, paths.len() as int);
            assert(spec_shape_vertices(paths, i as int + 1) == spec_shape_vertices(
                paths,
                i as int,
            ) + paths[i as int].len());
        }
        total = total + shape[i].len();
        i = i + 1;
    }
    total
}

/// The vertices of a shape's first `k` paths that contribute stroke
/// geometry: paths with fewer than two vertices contribute nothing.
pub open spec fn spec_contrib_vertices(paths: Seq<Seq<IntPoint>>, k: int) -> int
    decreases k,
{
    if k <= 0 {
        0
    } else {
        spec_contrib_vertices(paths, k - 1) + (if paths[k - 1].len() >= 2 {
            paths[k - 1].len() as int
        } else {
            0
        })
    }
}

/// Contributing vertices are nonnegative, monotone in `k`, and no more
/// than the raw vertex count.
pub proof fn lemma_contrib_bounds(paths: Seq<Seq<IntPoint>>, k: int)
    requires
        0 <= k,
    ensures
        0 <= spec_contrib_vertices(paths, k),
        spec_contrib_vertices(paths, k) <= spec_shape_vertices(paths, k),
        forall|j: int|
            0 <= j <= k ==> #[trigger] spec_contrib_vertices(paths, j)
                <= spec_contrib_vertices(paths, k),
    decreases k,
{
    if k > 0 {
        lemma_contrib_bounds(paths, k - 1);
    }
}

/// The stroke points of a shape's first `k` paths.
pub open spec fn shape_stroke_points(paths: Seq<Seq<IntPoint>>, r: Frac, k: int) -> Seq<Point>
    decreases k,
{
    if k <= 0 {
        Seq::empty()
    } else {
        shape_stroke_points(paths, r, k - 1) + (if paths[k - 1].len() >= 2 {
            stroke_points(paths[k - 1], r, paths[k - 1].len() as int)
        } else {
            Seq::empty()
        })
    }
}

/// The stroke indices of a shape's first `k` paths, with vertex numbers
/// starting at `base`.
pub open spec fn shape_stroke_indices(paths: Seq<Seq<IntPoint>>, base: int, k: int) -> Seq<
    u32,
>
    decreases k,
{
    if k <= 0 {
        Seq::empty()
    } else {
        shape_stroke_indices(paths, base, k - 1) + (if paths[k - 1].len() >= 2 {
            stroke_indices(
                base + 4 * spec_contrib_vertices(paths, k - 1),
                paths[k - 1].len() as int,
            )
        } else {
            Seq::empty()
        })
    }
}

/// Four points and six indices per contributing vertex.
pub proof fn lemma_shape_stroke_lens(paths: Seq<Seq<IntPoint>>, r: Frac, base: int, k: int)
    requires
        0 <= k,
    ensures
        shape_stroke_points(paths, r, k).len() == 4 * spec_contrib_vertices(paths, k),
        shape_stroke_indices(paths, base, k).len() == 6 * spec_contrib_vertices(paths, k),
    decreases k,
{
    if k > 0 {
        lemma_shape_stroke_lens(paths, r, base, k - 1);
        if paths[k - 1].len() >= 2 {
            lemma_stroke_lens(paths[k - 1], r, base + 4 * spec_contrib_vertices(paths, k - 1),
                paths[k - 1].len() as int);
        }
    }
}

/// Shape-level stroke buffers are well formed: points well formed and
/// indices within `[base, base + 4 * contributing)`.
pub proof fn lemma_shape_stroke_wf(paths: Seq<Seq<IntPoint>>, r: Frac, base: int, k: int)
    requires
        0 <= k,
        r.wf(),
        0 <= base,
        base + 4 * spec_contrib_vertices(paths, k) <= u32::MAX,
    ensures
        forall|j: int|
            0 <= j < shape_stroke_points(paths, r, k).len() ==> (#[trigger] shape_stroke_points(
                paths,
                r,
                k,
            )[j]).wf(),
        forall|j: int|
            0 <= j < shape_stroke_indices(paths, base, k).len() ==> base <= ((
            #[trigger] shape_stroke_indices(paths, base, k)[j]) as int) && ((shape_stroke_indices(
                paths,
                base,
                k,
            )[j]) as int) < base + 4 * spec_contrib_vertices(paths, k),
    decreases k,
{
    lemma_contrib_bounds(paths, k);
    if k > 0 {
        lemma_contrib_bounds(paths, k - 1);
        lemma_shape_stroke_wf(paths, r, base, k - 1);
        lemma_shape_stroke_lens(paths, r, base, k - 1);
        if paths[k - 1].len() >= 2 {
            let inner_base = base + 4 * spec_contrib_vertices(paths, k - 1);
            lemma_stroke_lens(paths[k - 1], r, inner_base, paths[k - 1].len() as int);
            lemma_stroke_wf(paths[k - 1], r, inner_base, paths[k - 1].len() as int);
        }
    }
}

/// Stroke every path of a shape into the shared buffers.
fn feed_shape(points: &mut Vec<Point>, indices: &mut Vec<u32>, shape: &IntShape, r: &Frac)
    requires
        r.wf(),
        old(points)@.len() + 4 * spec_shape_vertices(
            shape@.map_values(|p: IntPath| p@),
            shape@.len() as int,
        ) <= u32::MAX,
    ensures
        final(points)@ == old(points)@ + shape_stroke_points(
            shape@.map_values(|p: IntPath| p@),
            *r,
            shape@.len() as int,
        ),
        final(indices)@ == old(indices)@ + shape_stroke_indices(
            shape@.map_values(|p: IntPath| p@),
            old(points)@.len() as int,
            shape@.len() as int,
        ),
{
    let ghost paths = shape@.map_values(|p: IntPath| p@);
    let ghost base = points@.len() as int;
    let mut i: usize = 0;
    proof {
        lemma_shape_vertices_bounds(paths, paths.len() as int);
        assert(points@ =~= old(points)@ + shape_stroke_points(paths, *r, 0));
        assert(indices@ =~= old(indices)@ + shape_stroke_indices(paths, base, 0));
    }
    while i < shape.len()
        invariant
            r.wf(),
            paths == shape@.map_values(|p: IntPath| p@),
            base == old(points)@.len(),
            base + 4 * spec_shape_vertices(paths, paths.len() as int) <= u32::MAX,
            0 <= i <= shape@.len(),
            points@ == old(points)@ + shape_stroke_points(paths, *r, i as int),
            indices@ == old(indices)@ + shape_stroke_indices(paths, base, i as int),
        decreases shape@.len() - i,
    {
        proof {
            lemma_contrib_bounds(paths, i as int);
            lemma_contrib_bounds(paths, paths.len() as int);
            lemma_shape_vertices_bounds(paths, paths.len() as int);
            lemma_shape_stroke_lens(paths, *r, base, i as int);
            assert(spec_contrib_vertices(paths, i as int + 1) <= spec_shape_vertices(
                paths,
                paths.len() as int,
            )) by {
                lemma_contrib_bounds(paths, i as int + 1);
                assert(spec_contrib_vertices(paths, i as int + 1) <= spec_shape_vertices(
                    paths,
                    i as int + 1,
                ));
                assert(spec_shape_vertices(paths, i as int + 1) <= spec_shape_vertices(
                    paths,
                    paths.len() as int,
                ));
            }
        }
        let path = &shape[i];
        if path.len() >= 2 {
            feed(points, indices, path, r);
        }
        proof {
            assert(points@ =~= old(points)@ + shape_stroke_points(paths, *r, i as int + 1));
            assert(indices@ =~= old(indices)@ + shape_stroke_indices(paths, base, i as int + 1));
        }
        i = i + 1;
    }
}

/// What stroking a shape (outer boundary plus holes, each independently)
/// produces.
pub open spec fn spec_stroke_shape(paths: Seq<Seq<IntPoint>>, width: Frac) -> (
    Seq<Point>,
    Seq<u32>,
) {
    let half = Frac { num: 1, den: 2 };
    if !(Ratio { n: 0, d: 1 }).lt(width@) {
        (Seq::empty(), Seq::empty())
    } else {
        match width.spec_mul(half) {
            Some(r) => (
                shape_stroke_points(paths, r, paths.len() as int),
                shape_stroke_indices(paths, 0, paths.len() as int),
            ),
            None => (Seq::empty(), Seq::empty()),
        }
    }
}

/// Stroke every path of a shape into a fresh mesh; paths with fewer than
/// two vertices, or a non-positive width, contribute nothing.
pub fn triangulate_shape(shape: &IntShape, width: &Frac) -> (mesh: ListMesh)
    requires
        width.wf(),
        spec_shape_vertices(shape@.map_values(|p: IntPath| p@), shape@.len() as int)
            <= 0x0fff_ffff,
    ensures
        mesh.points@ == spec_stroke_shape(shape@.map_values(|p: IntPath| p@), *width).0,
        mesh.indices@ == spec_stroke_shape(shape@.map_values(|p: IntPath| p@), *width).1,
        mesh.wf(),
{
    let ghost paths = shape@.map_values(|p: IntPath| p@);
    let n = shape_vertices_count(shape);
    let zero = Frac::zero();
    let half = crate::geometry::Rect::half();
    if !zero.lt(width) {
        return ListMesh { points: Vec::new(), indices: Vec::new() };
    }
    let r = match width.mul(&half) {
        Some(v) => v,
        None => {
            return ListMesh { points: Vec::new(), indices: Vec::new() };
        },
    };
    let mut points: Vec<Point> = Vec::with_capacity(4 * n);
    let mut indices: Vec<u32> = Vec::with_capacity(6 * n);
    feed_shape(&mut points, &mut indices, shape, &r);
    proof {
        lemma_contrib_bounds(paths, paths.len() as int);
        lemma_shape_stroke_lens(paths, r, 0, paths.len() as int);
        lemma_shape_stroke_wf(paths, r, 0, paths.len() as int);
        assert(points@ =~= shape_stroke_points(paths, r, paths.len() as int));
        assert(indices@ =~= shape_stroke_indices(paths, 0, paths.len() as int));
        vstd::arithmetic::div_mod::lemma_mod_multiples_basic(
            2 * spec_contrib_vertices(paths, paths.len() as int),
            3,
        );
    }
    ListMesh { points, indices }
}

/// The nested path sequences of a shape collection.
pub open spec fn shapes_paths(shapes: Seq<IntShape>) -> Seq<Seq<Seq<IntPoint>>> {
    shapes.map_values(|s: IntShape| s@.map_values(|p: IntPath| p@))
}

/// The raw vertex count over the first `k` shapes.
pub open spec fn spec_shapes_vertices(sss: Seq<Seq<Seq<IntPoint>>>, k: int) -> int
    decreases k,
{
    if k <= 0 {
        0
    } else {
        spec_shapes_vertices(sss, k - 1) + spec_shape_vertices(
            sss[k - 1],
            sss[k - 1].len() as int,
        )
    }
}

/// The contributing vertex count over the first `k` shapes.
pub open spec fn spec_shapes_contrib(sss: Seq<Seq<Seq<IntPoint>>>, k: int) -> int
    decreases k,
{
    if k <= 0 {
        0
    } else {
        spec_shapes_contrib(sss, k - 1) + spec_contrib_vertices(
            sss[k - 1],
            sss[k - 1].len() as int,
        )
    }
}

/// Bounds and monotonicity of the collection-level vertex counts.
pub proof fn lemma_shapes_counts(sss: Seq<Seq<Seq<IntPoint>>>, k: int)
    requires
        0 <= k,
    ensures
        0 <= spec_shapes_contrib(sss, k),
        spec_shapes_contrib(sss, k) <= spec_shapes_vertices(sss, k),
        0 <= spec_shapes_vertices(sss, k),
        forall|j: int|
            0 <= j <= k ==> #[trigger] spec_shapes_vertices(sss, j) <= spec_shapes_vertices(
                sss,
                k,
            ),
        forall|j: int|
            0 <= j <= k ==> #[trigger] spec_shapes_contrib(sss, j) <= spec_shapes_contrib(
                sss,
                k,
            ),
    decreases k,
{
    if k > 0 {
        lemma_shapes_counts(sss, k - 1);
        lemma_contrib_bounds(sss[k - 1], sss[k - 1].len() as int);
        lemma_shape_vertices_bounds(sss[k - 1], sss[k - 1].len() as int);
    }
}

/// The stroke points of the first `k` shapes.
pub open spec fn shapes_stroke_points(sss: Seq<Seq<Seq<IntPoint>>>, r: Frac, k: int) -> Seq<
    Point,
>
    decreases k,
{
    if k <= 0 {
        Seq::empty()
    } else {
        shapes_stroke_points(sss, r, k - 1) + shape_stroke_points(
            sss[k - 1],
            r,
            sss[k - 1].len() as int,
        )
    }
}

/// The stroke indices of the first `k` shapes, with vertex numbers
/// starting at `base`.
pub open spec fn shapes_stroke_indices(sss: Seq<Seq<Seq<IntPoint>>>, base: int, k: int) -> Seq<
    u32,
>
    decreases k,
{
    if k <= 0 {
        Seq::empty()
    } else {
        shapes_stroke_indices(sss, base, k - 1) + shape_stroke_indices(
            sss[k - 1],
            base + 4 * spec_shapes_contrib(sss, k - 1),
            sss[k - 1].len() as int,
        )
    }
}

/// Four points and six indices per contributing vertex, over a collection.
pub proof fn lemma_shapes_stroke_lens(sss: Seq<Seq<Seq<IntPoint>>>, r: Frac, base: int, k: int)
    requires
        0 <= k,
    ensures
        shapes_stroke_points(sss, r, k).len() == 4 * spec_shapes_contrib(sss, k),
        shapes_stroke_indices(sss, base, k).len() == 6 * spec_shapes_contrib(sss, k),
    decreases k,
{
    if k > 0 {
        lemma_shapes_stroke_lens(sss, r, base, k - 1);
        lemma_shape_stroke_lens(
            sss[k - 1],
            r,
            base + 4 * spec_shapes_contrib(sss, k - 1),
            sss[k - 1].len() as int,
        );
    }
}

/// Collection-level stroke buffers are well formed.
pub proof fn lemma_shapes_stroke_wf(sss: Seq<Seq<Seq<IntPoint>>>, r: Frac, base: int, k: int)
    requires
        0 <= k,
        r.wf(),
        0 <= base,
        base + 4 * spec_shapes_contrib(sss, k) <= u32::MAX,
    ensures
        forall|j: int|
            0 <= j < shapes_stroke_points(sss, r, k).len() ==> (
            #[trigger] shapes_stroke_points(sss, r, k)[j]).wf(),
        forall|j: int|
            0 <= j < shapes_stroke_indices(sss, base, k).len() ==> base <= ((
            #[trigger] shapes_stroke_indices(sss, base, k)[j]) as int) && ((
            shapes_stroke_indices(sss, base, k)[j]) as int) < base + 4 * spec_shapes_contrib(
                sss,
                k,
            ),
    decreases k,
{
    lemma_shapes_counts(sss, k);
    if k > 0 {
        lemma_shapes_counts(sss, k - 1);
        lemma_contrib_bounds(sss[k - 1], sss[k - 1].len() as int);
        lemma_shapes_stroke_wf(sss, r, base, k - 1);
        lemma_shapes_stroke_lens(sss, r, base, k - 1);
        let inner_base = base + 4 * spec_shapes_contrib(sss, k - 1);
        lemma_shape_stroke_lens(sss[k - 1], r, inner_base, sss[k - 1].len() as int);
        lemma_shape_stroke_wf(sss[k - 1], r, inner_base, sss[k - 1].len() as int);
    }
}

/// The number of vertices over all shapes of a collection.
pub fn shapes_vertices_count(shapes: &IntShapes) -> (r: usize)
    requires
        spec_shapes_vertices(shapes_paths(shapes@), shapes@.len() as int) <= usize::MAX,
    ensures
        r == spec_shapes_vertices(shapes_paths(shapes@), shapes@.len() as int),
{
    let ghost sss = shapes_paths(shapes@);
    let mut total: usize = 0;
    let mut i: usize = 0;
    while i < shapes.len()
        invariant
            0 <= i <= shapes@.len(),
            sss == shapes_paths(shapes@),
            spec_shapes_vertices(sss, sss.len() as int) <= usize::MAX,
            total == spec_shapes_vertices(sss, i as int),
        decreases shapes@.len() - i,
    {
        proof {
            lemma_shapes_counts(sss, sss.len() as int);
            lemma_shapes_counts(sss, i as int + 1);
            lemma_shape_vertices_bounds(sss[i as int], sss[i as int].len() as int);
        }
        let c = shape_vertices_count(&shapes[i]);
        total = total + c;
        i = i + 1;
    }
    total
}

/// What stroking a whole shape collection produces.
pub open spec fn spec_stroke_shapes(sss: Seq<Seq<Seq<IntPoint>>>, width: Frac) -> (
    Seq<Point>,
    Seq<u32>,
) {
    let half = Frac { num: 1, den: 2 };
    if !(Ratio { n: 0, d: 1 }).lt(width@) {
        (Seq::empty(), Seq::empty())
    } else {
        match width.spec_mul(half) {
            Some(r) => (
                shapes_stroke_points(sss, r, sss.len() as int),
                shapes_stroke_indices(sss, 0, sss.len() as int),
            ),
            None => (Seq::empty(), Seq::empty()),
        }
    }
}

/// Stroke every path of every shape of a collection into a fresh mesh.
pub fn triangulate_shapes(shapes: &IntShapes, width: &Frac) -> (mesh: ListMesh)
    requires
        width.wf(),
        spec_shapes_vertices(shapes_paths(shapes@), shapes@.len() as int) <= 0x0fff_ffff,
    ensures
        mesh.points@ == spec_stroke_shapes(shapes_paths(shapes@), *width).0,
        mesh.indices@ == spec_stroke_shapes(shapes_paths(shapes@), *width).1,
        mesh.wf(),
{
    let ghost sss = shapes_paths(shapes@);
    let n = shapes_vertices_count(shapes);
    let zero = Frac::zero();
    let half = crate::geometry::Rect::half();
    if !zero.lt(width) {
        return ListMesh { points: Vec::new(), indices: Vec::new() };
    }
    let r = match width.mul(&half) {
        Some(v) => v,
        None => {
            return ListMesh { points: Vec::new(), indices: Vec::new() };
        },
    };
    let mut points: Vec<Point> = Vec::with_capacity(4 * n);
    let mut indices: Vec<u32> = Vec::with_capacity(6 * n);
    let mut i: usize = 0;
    proof {
        assert(points@ =~= shapes_stroke_points(sss, r, 0));
        assert(indices@ =~= shapes_stroke_indices(sss, 0, 0));
    }
    while i < shapes.len()
        invariant
            r.wf(),
            sss == shapes_paths(shapes@),
            spec_shapes_vertices(sss, sss.len() as int) <= 0x0fff_ffff,
            0 <= i <= shapes@.len(),
            points@ == shapes_stroke_points(sss, r, i as int),
            indices@ == shapes_stroke_indices(sss, 0, i as int),
        decreases shapes@.len() - i,
    {
        proof {
            lemma_shapes_counts(sss, sss.len() as int);
            lemma_shapes_counts(sss, i as int);
            lemma_shapes_counts(sss, i as int + 1);
            lemma_shapes_stroke_lens(sss, r, 0, i as int);
            lemma_contrib_bounds(sss[i as int], sss[i as int].len() as int);
            lemma_shape_vertices_bounds(sss[i as int], sss[i as int].len() as int);
            assert(sss[i as int] == shapes@[i as int]@.map_values(|p: IntPath| p@));
        }
        feed_shape(&mut points, &mut indices, &shapes[i], &r);
        proof {
            assert(points@ =~= shapes_stroke_points(sss, r, i as int + 1));
            assert(indices@ =~= shapes_stroke_indices(sss, 0, i as int + 1));
        }
        i = i + 1;
    }
    proof {
        lemma_shapes_counts(sss, sss.len() as int);
        lemma_shapes_stroke_lens(sss, r, 0, sss.len() as int);
        lemma_shapes_stroke_wf(sss, r, 0, sss.len() as int);
        vstd::arithmetic::div_mod::lemma_mod_multiples_basic(
            2 * spec_shapes_contrib(sss, sss.len() as int),
            3,
        );
    }
    ListMesh { points, indices }
}

/// Triangulation size law: stroking a path of `n` vertices at a positive,
/// representable width yields exactly `4n` points and `6n` indices for
/// `n >= 2`, and the empty mesh for `n <= 1`.
pub proof fn lemma_triangulation_size_law(path: Seq<IntPoint>, width: Frac)
    requires
        width.wf(),
        (Ratio { n: 0, d: 1 }).lt(width@),
        width.spec_mul(Frac { num: 1, den: 2 }) is Some,
    ensures
        path.len() >= 2 ==> spec_stroke_path(path, width).0.len() == 4 * path.len()
            && spec_stroke_path(path, width).1.len() == 6 * path.len(),
        path.len() <= 1 ==> spec_stroke_path(path, width).0.len() == 0 && spec_stroke_path(
            path,
            width,
        ).1.len() == 0,
{
    if path.len() >= 2 {
        let r = width.spec_mul(Frac { num: 1, den: 2 })->Some_0;
        lemma_stroke_lens(path, r, 0, path.len() as int);
    }
}


} // verus!
