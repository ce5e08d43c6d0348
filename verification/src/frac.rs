//! Exact rational arithmetic over `i64` numerator / denominator pairs.
//!
//! The mathematical model of a `Frac` is a `Ratio`: an unbounded integer
//! pair with a positive denominator. Spec-level operations on `Ratio` are
//! exact and never fail; the executable operations on `Frac` compute the
//! exact result in `i128`, reduce it by the greatest common divisor, and
//! report failure (`None`) exactly when even the reduced result does not
//! fit in `i64`.

use vstd::prelude::*;
use vstd::arithmetic::div_mod::{
    lemma_fundamental_div_mod, lemma_mod_multiples_basic, lemma_mod_self_0, lemma_small_mod,
};
use vstd::arithmetic::mul::{
    lemma_mul_is_associative, lemma_mul_is_commutative, lemma_mul_is_distributive_add,
    lemma_mul_is_distributive_add_other_way, lemma_mul_is_distributive_sub_other_way,
    lemma_mul_inequality, lemma_mul_inequality_converse, lemma_mul_strict_inequality,
    lemma_mul_strict_inequality_converse, lemma_mul_unary_negation,
};

verus! {

/// Mathematical model of a rational number: `n / d` with `d > 0`.
pub ghost struct Ratio {
    pub n: int,
    pub d: int,
}

impl Ratio {
    /// A ratio is well formed when its denominator is positive.
    pub open spec fn wf(self) -> bool {
        self.d > 0
    }

    /// Exact equality of the rationals `a.n/a.d` and `b.n/b.d`.
    pub open spec fn eq(self, other: Ratio) -> bool {
        self.n * other.d == other.n * self.d
    }

    /// `self <= other` as rationals (meaningful when both are well formed).
    pub open spec fn le(self, other: Ratio) -> bool {
        self.n * other.d <= other.n * self.d
    }

    /// `self < other` as rationals (meaningful when both are well formed).
    pub open spec fn lt(self, other: Ratio) -> bool {
        self.n * other.d < other.n * self.d
    }

    pub open spec fn add(self, other: Ratio) -> Ratio {
        Ratio { n: self.n * other.d + other.n * self.d, d: self.d * other.d }
    }

    pub open spec fn sub(self, other: Ratio) -> Ratio {
        Ratio { n: self.n * other.d - other.n * self.d, d: self.d * other.d }
    }

    pub open spec fn mul(self, other: Ratio) -> Ratio {
        Ratio { n: self.n * other.n, d: self.d * other.d }
    }

    /// Exact division; the divisor's sign moves into the numerator so the
    /// result keeps a positive denominator.
    pub open spec fn div(self, other: Ratio) -> Ratio {
        if other.n >= 0 {
            Ratio { n: self.n * other.d, d: self.d * other.n }
        } else {
            Ratio { n: -(self.n * other.d), d: self.d * -other.n }
        }
    }

    pub open spec fn neg(self) -> Ratio {
        Ratio { n: -self.n, d: self.d }
    }

    pub open spec fn from_int(i: int) -> Ratio {
        Ratio { n: i, d: 1 }
    }
}

/// Well-formedness of the exact operations: a positive denominator is
/// preserved by addition, subtraction, multiplication and negation.
pub proof fn lemma_ratio_ops_wf(a: Ratio, b: Ratio)
    requires
        a.wf(),
        b.wf(),
    ensures
        a.add(b).wf(),
        a.sub(b).wf(),
        a.mul(b).wf(),
        a.neg().wf(),
        b.n != 0 ==> a.div(b).wf(),
{
    lemma_pos_prod(a.d, b.d);
    if b.n > 0 {
        lemma_pos_prod(a.d, b.n);
    }
    if b.n < 0 {
        lemma_pos_prod(a.d, -b.n);
    }
}

/// Equal rationals have numerators of the same sign.
pub proof fn lemma_eq_pos(a: Ratio, b: Ratio)
    requires
        a.wf(),
        b.wf(),
        a.eq(b),
    ensures
        (a.n > 0) == (b.n > 0),
        (a.n == 0) == (b.n == 0),
{
    assert(((a.n > 0) == (b.n > 0)) && ((a.n == 0) == (b.n == 0))) by (nonlinear_arith)
        requires
            a.n * b.d == b.n * a.d,
            a.d > 0,
            b.d > 0,
    ;
}

/// Rational equality is transitive (through a well-formed middle term).
pub proof fn lemma_eq_trans(a: Ratio, b: Ratio, c: Ratio)
    requires
        a.wf(),
        b.wf(),
        c.wf(),
        a.eq(b),
        b.eq(c),
    ensures
        a.eq(c),
{
    assert(a.n * c.d == c.n * a.d) by (nonlinear_arith)
        requires
            a.n * b.d == b.n * a.d,
            b.n * c.d == c.n * b.d,
            b.d > 0,
    ;
}





/// Rearrangement of a product of four factors: `(p*q)*(r*s) == (p*r)*(q*s)`.
pub(crate) proof fn lemma_ac4(p: int, q: int, r: int, s: int)
    ensures
        (p * q) * (r * s) == (p * r) * (q * s),
{
    lemma_mul_is_associative(p, q, r * s);
    lemma_mul_is_associative(q, r, s);
    lemma_mul_is_commutative(q, r);
    lemma_mul_is_associative(r, q, s);
    lemma_mul_is_associative(p, r, q * s);
}

/// Rearrangement of a product of four factors: `(p*q)*(r*s) == (p*s)*(r*q)`.
proof fn lemma_ac4_swap(p: int, q: int, r: int, s: int)
    ensures
        (p * q) * (r * s) == (p * s) * (r * q),
{
    lemma_ac4(p, q, r, s);
    lemma_mul_is_commutative(q, s);
    lemma_ac4(p, r, s, q);
}

/// Rearrangement of a product of three factors: `(p*q)*r == (p*r)*q`.
pub(crate) proof fn lemma_ac3(p: int, q: int, r: int)
    ensures
        (p * q) * r == (p * r) * q,
{
    lemma_mul_is_associative(p, q, r);
    lemma_mul_is_commutative(q, r);
    lemma_mul_is_associative(p, r, q);
}

/// Addition respects rational equality.
pub proof fn lemma_add_congruence(a: Ratio, b: Ratio, x: Ratio, y: Ratio)
    requires
        a.wf(),
        b.wf(),
        x.wf(),
        y.wf(),
        a.eq(x),
        b.eq(y),
    ensures
        a.add(b).eq(x.add(y)),
{
    lemma_mul_is_distributive_add_other_way(x.d * y.d, a.n * b.d, b.n * a.d);
    lemma_ac4(a.n, b.d, x.d, y.d);
    lemma_mul_is_commutative(x.d, y.d);
    lemma_ac4(b.n, a.d, y.d, x.d);
    assert((a.n * x.d) * (b.d * y.d) == (x.n * a.d) * (b.d * y.d));
    assert((b.n * y.d) * (a.d * x.d) == (y.n * b.d) * (a.d * x.d));
    lemma_mul_is_commutative(b.d, y.d);
    lemma_ac4(x.n, a.d, y.d, b.d);
    lemma_mul_is_commutative(a.d, x.d);
    lemma_ac4(y.n, b.d, x.d, a.d);
    lemma_mul_is_commutative(b.d, a.d);
    lemma_mul_is_distributive_add_other_way(a.d * b.d, x.n * y.d, y.n * x.d);
}

/// Subtraction respects rational equality.
pub proof fn lemma_sub_congruence(a: Ratio, b: Ratio, x: Ratio, y: Ratio)
    requires
        a.wf(),
        b.wf(),
        x.wf(),
        y.wf(),
        a.eq(x),
        b.eq(y),
    ensures
        a.sub(b).eq(x.sub(y)),
{
    lemma_mul_is_distributive_sub_other_way(x.d * y.d, a.n * b.d, b.n * a.d);
    lemma_ac4(a.n, b.d, x.d, y.d);
    lemma_mul_is_commutative(x.d, y.d);
    lemma_ac4(b.n, a.d, y.d, x.d);
    assert((a.n * x.d) * (b.d * y.d) == (x.n * a.d) * (b.d * y.d));
    assert((b.n * y.d) * (a.d * x.d) == (y.n * b.d) * (a.d * x.d));
    lemma_mul_is_commutative(b.d, y.d);
    lemma_ac4(x.n, a.d, y.d, b.d);
    lemma_mul_is_commutative(a.d, x.d);
    lemma_ac4(y.n, b.d, x.d, a.d);
    lemma_mul_is_commutative(b.d, a.d);
    lemma_mul_is_distributive_sub_other_way(a.d * b.d, x.n * y.d, y.n * x.d);
}

/// Multiplication respects rational equality.
pub proof fn lemma_mul_congruence(a: Ratio, b: Ratio, x: Ratio, y: Ratio)
    requires
        a.wf(),
        b.wf(),
        x.wf(),
        y.wf(),
        a.eq(x),
        b.eq(y),
    ensures
        a.mul(b).eq(x.mul(y)),
{
    lemma_ac4(a.n, b.n, x.d, y.d);
    assert((a.n * x.d) * (b.n * y.d) == (x.n * a.d) * (y.n * b.d));
    lemma_ac4(x.n, a.d, y.n, b.d);
    lemma_mul_is_commutative(a.d, y.n);
    lemma_ac4(x.n, y.n, a.d, b.d);
}

/// Division respects rational equality (for nonzero divisors).
pub proof fn lemma_div_congruence(a: Ratio, b: Ratio, x: Ratio, y: Ratio)
    requires
        a.wf(),
        b.wf(),
        x.wf(),
        y.wf(),
        a.eq(x),
        b.eq(y),
        b.n != 0,
        y.n != 0,
    ensures
        a.div(b).eq(x.div(y)),
{
    assert((b.n > 0 && y.n > 0) || (b.n < 0 && y.n < 0)) by (nonlinear_arith)
        requires
            b.n * y.d == y.n * b.d,
            b.d > 0,
            y.d > 0,
            b.n != 0,
            y.n != 0,
    ;
    if b.n > 0 {
        lemma_ac4(a.n, b.d, x.d, y.n);
        assert((a.n * x.d) * (b.d * y.n) == (x.n * a.d) * (b.d * y.n));
        lemma_mul_is_commutative(b.d, y.n);
        assert((x.n * a.d) * (y.n * b.d) == (x.n * a.d) * (b.n * y.d));
        lemma_ac4(x.n, a.d, b.n, y.d);
        lemma_ac4_swap(x.n, b.n, a.d, y.d);
        assert((a.n * b.d) * (x.d * y.n) == (x.n * y.d) * (a.d * b.n));
    } else {
        lemma_ac4(a.n, b.d, x.d, -y.n);
        assert((a.n * x.d) * (b.d * -y.n) == (x.n * a.d) * (b.d * -y.n));
        lemma_mul_is_commutative(b.d, -y.n);
        lemma_mul_unary_negation(y.n, b.d);
        lemma_mul_unary_negation(b.n, y.d);
        assert((-y.n) * b.d == (-b.n) * y.d);
        lemma_ac4(x.n, a.d, -b.n, y.d);
        lemma_ac4_swap(x.n, -b.n, a.d, y.d);
        assert((a.n * b.d) * (x.d * -y.n) == (x.n * y.d) * (a.d * -b.n));
        lemma_mul_unary_negation(a.n * b.d, x.d * -y.n);
        lemma_mul_unary_negation(x.n * y.d, a.d * -b.n);
        assert((-(a.n * b.d)) * (x.d * -y.n) == (-(x.n * y.d)) * (a.d * -b.n));
    }
}

/// The order relations respect rational equality.
pub proof fn lemma_lt_congruence(a: Ratio, b: Ratio, x: Ratio, y: Ratio)
    requires
        a.wf(),
        b.wf(),
        x.wf(),
        y.wf(),
        a.eq(x),
        b.eq(y),
    ensures
        a.lt(b) == x.lt(y),
        a.le(b) == x.le(y),
{
    lemma_pos_prod(x.d, y.d);
    lemma_pos_prod(a.d, b.d);
    lemma_ac4(a.n, b.d, x.d, y.d);
    lemma_mul_is_commutative(x.d, y.d);
    lemma_ac4(b.n, a.d, y.d, x.d);
    assert((a.n * x.d) * (b.d * y.d) == (x.n * a.d) * (b.d * y.d));
    assert((b.n * y.d) * (a.d * x.d) == (y.n * b.d) * (a.d * x.d));
    lemma_mul_is_commutative(b.d, y.d);
    lemma_ac4(x.n, a.d, y.d, b.d);
    lemma_mul_is_commutative(a.d, x.d);
    lemma_ac4(y.n, b.d, x.d, a.d);
    lemma_mul_is_commutative(b.d, a.d);
    // Now: (a.n*b.d)*(x.d*y.d) == (x.n*y.d)*(a.d*b.d)
    //  and (b.n*a.d)*(x.d*y.d) == (y.n*x.d)*(a.d*b.d)
    if a.n * b.d < b.n * a.d {
        lemma_mul_strict_inequality(a.n * b.d, b.n * a.d, x.d * y.d);
        lemma_mul_strict_inequality_converse(x.n * y.d, y.n * x.d, a.d * b.d);
    }
    if x.n * y.d < y.n * x.d {
        lemma_mul_strict_inequality(x.n * y.d, y.n * x.d, a.d * b.d);
        lemma_mul_strict_inequality_converse(a.n * b.d, b.n * a.d, x.d * y.d);
    }
    if a.n * b.d <= b.n * a.d {
        lemma_mul_inequality(a.n * b.d, b.n * a.d, x.d * y.d);
        lemma_mul_inequality_converse(x.n * y.d, y.n * x.d, a.d * b.d);
    }
    if x.n * y.d <= y.n * x.d {
        lemma_mul_inequality(x.n * y.d, y.n * x.d, a.d * b.d);
        lemma_mul_inequality_converse(a.n * b.d, b.n * a.d, x.d * y.d);
    }
}

/// `b + (a - b) == a`, exactly.
pub proof fn lemma_add_of_diff(a: Ratio, b: Ratio)
    requires
        a.wf(),
        b.wf(),
    ensures
        b.add(a.sub(b)).eq(a),
{
    lemma_mul_is_distributive_sub_other_way(b.d, a.n * b.d, b.n * a.d);
    lemma_mul_is_associative(b.n, a.d, b.d);
    lemma_mul_is_associative(a.n, b.d, b.d);
    lemma_mul_is_associative(a.n, b.d * b.d, a.d);
    lemma_mul_is_associative(b.d, a.d, b.d);
    lemma_ac3(b.d, a.d, b.d);
    lemma_mul_is_associative(b.d, b.d, a.d);
    lemma_mul_is_commutative(a.d, b.d * b.d);
    lemma_mul_is_commutative(b.d * b.d, a.d);
    assert(b.add(a.sub(b)).n == (a.n * b.d) * b.d);
    assert(b.add(a.sub(b)).n * a.d == a.n * b.add(a.sub(b)).d);
}

/// Addition is associative up to rational equality.
pub proof fn lemma_add_assoc(a: Ratio, b: Ratio, c: Ratio)
    requires
        a.wf(),
        b.wf(),
        c.wf(),
    ensures
        a.add(b.add(c)).eq(a.add(b).add(c)),
{
    lemma_mul_is_associative(a.d, b.d, c.d);
    lemma_mul_is_distributive_add_other_way(a.d, b.n * c.d, c.n * b.d);
    lemma_mul_is_distributive_add_other_way(c.d, a.n * b.d, b.n * a.d);
    lemma_mul_is_associative(a.n, b.d, c.d);
    lemma_ac3(b.n, c.d, a.d);
    lemma_mul_is_associative(b.n, a.d, c.d);
    lemma_ac3(c.n, b.d, a.d);
    lemma_mul_is_associative(c.n, b.d, a.d);
    lemma_mul_is_commutative(b.d, a.d);
    lemma_mul_is_associative(c.n, a.d, b.d);
    assert(a.add(b.add(c)).n == a.add(b).add(c).n);
    assert(a.add(b.add(c)).d == a.add(b).add(c).d);
}

/// `(a + d) - b == (a - b) + d`, exactly.
pub proof fn lemma_shift_sub(a: Ratio, b: Ratio, d: Ratio)
    requires
        a.wf(),
        b.wf(),
        d.wf(),
    ensures
        a.add(d).sub(b).eq(a.sub(b).add(d)),
{
    lemma_mul_is_distributive_add_other_way(b.d, a.n * d.d, d.n * a.d);
    lemma_mul_is_distributive_sub_other_way(d.d, a.n * b.d, b.n * a.d);
    lemma_ac3(a.n, d.d, b.d);
    lemma_mul_is_associative(d.n, a.d, b.d);
    lemma_mul_is_associative(b.n, a.d, d.d);
    lemma_ac3(a.d, d.d, b.d);
    assert(a.add(d).sub(b).n == a.sub(b).add(d).n);
    assert(a.add(d).sub(b).d == a.sub(b).add(d).d);
}

/// Negation respects rational equality.
pub proof fn lemma_neg_congruence(a: Ratio, x: Ratio)
    requires
        a.eq(x),
    ensures
        a.neg().eq(x.neg()),
{
    assert((-a.n) * x.d == (-x.n) * a.d) by (nonlinear_arith)
        requires
            a.n * x.d == x.n * a.d,
    ;
}






/// Greatest common divisor by Euclid's algorithm.
pub open spec fn gcd(a: nat, b: nat) -> nat
    decreases b,
{
    if b == 0 {
        a
    } else {
        gcd(b, a % b)
    }
}

/// The gcd of two naturals, not both zero, is positive and divides both.
pub proof fn lemma_gcd_divides(a: nat, b: nat)
    requires
        a > 0 || b > 0,
    ensures
        gcd(a, b) > 0,
        a % gcd(a, b) == 0,
        b % gcd(a, b) == 0,
    decreases b,
{
    if b == 0 {
        lemma_mod_self_0(a as int);
        lemma_small_mod(0, a);
    } else {
        lemma_gcd_divides(b, a % b);
        let g = gcd(b, a % b) as int;
        let ai = a as int;
        let bi = b as int;
        let r = ai % bi;
        lemma_fundamental_div_mod(ai, bi);
        // a == b * (a / b) + r
        lemma_fundamental_div_mod(bi, g);
        assert(bi == g * (bi / g));
        lemma_fundamental_div_mod(r, g);
        assert(r == g * (r / g));
        let q = ai / bi;
        assert(bi * q == (g * (bi / g)) * q);
        lemma_mul_is_associative(g, bi / g, q);
        assert(ai == g * ((bi / g) * q) + g * (r / g));
        lemma_mul_is_distributive_add(g, (bi / g) * q, r / g);
        assert(ai == g * ((bi / g) * q + r / g));
        lemma_mul_is_commutative(g, (bi / g) * q + r / g);
        lemma_mod_multiples_basic((bi / g) * q + r / g, g);
    }
}

/// The canonical reduced `Frac` of a ratio, when it fits in `i64`.
///
/// Mirrors exactly what the executable reduction computes: divide the
/// magnitude of the numerator and the denominator by their gcd, and fail
/// if either reduced component exceeds `i64::MAX`.
pub open spec fn reduced(r: Ratio) -> Option<Frac>
    recommends
        r.wf(),
{
    let a = if r.n >= 0 {
        r.n
    } else {
        -r.n
    };
    let g = gcd(a as nat, r.d as nat) as int;
    let rn = a / g;
    let rd = r.d / g;
    if rn <= i64::MAX && rd <= i64::MAX {
        Some(
            Frac {
                num: (if r.n >= 0 {
                    rn
                } else {
                    -rn
                }) as i64,
                den: rd as i64,
            },
        )
    } else {
        None
    }
}

/// A successful reduction yields a well-formed `Frac` equal, as a
/// rational, to the ratio it was reduced from.
pub proof fn lemma_reduced_some(r: Ratio)
    requires
        r.wf(),
        reduced(r) is Some,
    ensures
        reduced(r)->Some_0.wf(),
        reduced(r)->Some_0@.eq(r),
{
    let a = if r.n >= 0 {
        r.n
    } else {
        -r.n
    };
    lemma_gcd_divides(a as nat, r.d as nat);
    let g = gcd(a as nat, r.d as nat) as int;
    let rn = a / g;
    let rd = r.d / g;
    lemma_fundamental_div_mod(a, g);
    assert(a == g * rn);
    lemma_fundamental_div_mod(r.d, g);
    assert(r.d == g * rd);
    assert(rd > 0) by (nonlinear_arith)
        requires
            r.d == g * rd,
            r.d > 0,
            g > 0,
    ;
    assert(rn >= 0) by (nonlinear_arith)
        requires
            a == g * rn,
            a >= 0,
            g > 0,
    ;
    let f = reduced(r)->Some_0;
    assert(f@.n * r.d == r.n * f@.d) by (nonlinear_arith)
        requires
            a == g * rn,
            r.d == g * rd,
            g > 0,
            f@.n == (if r.n >= 0 {
                rn
            } else {
                -rn
            }),
            f@.d == rd,
            a == (if r.n >= 0 {
                r.n
            } else {
                -r.n
            }),
    ;
}

/// A successful checked operation yields a well-formed value equal, as a
/// rational, to the exact result.
pub proof fn lemma_spec_ops_some(a: Frac, b: Frac)
    requires
        a.wf(),
        b.wf(),
    ensures
        a.spec_add(b) matches Some(c) ==> c.wf() && c@.eq(a@.add(b@)),
        a.spec_sub(b) matches Some(c) ==> c.wf() && c@.eq(a@.sub(b@)),
        a.spec_mul(b) matches Some(c) ==> c.wf() && c@.eq(a@.mul(b@)),
        b.num != 0 ==> (a.spec_div(b) matches Some(c) ==> c.wf() && c@.eq(a@.div(b@))),
{
    lemma_ratio_ops_wf(a@, b@);
    if a.spec_add(b) is Some {
        lemma_reduced_some(a@.add(b@));
    }
    if a.spec_sub(b) is Some {
        lemma_reduced_some(a@.sub(b@));
    }
    if a.spec_mul(b) is Some {
        lemma_reduced_some(a@.mul(b@));
    }
    if b.num != 0 && a.spec_div(b) is Some {
        lemma_reduced_some(a@.div(b@));
    }
}

/// `f` is a well-formed representation of the rational `r`.
pub open spec fn frac_is(f: Frac, r: Ratio) -> bool {
    f.wf() && r.wf() && f@.eq(r)
}

/// Addition is commutative up to rational equality.
pub proof fn lemma_add_comm(a: Ratio, b: Ratio)
    requires
        a.wf(),
        b.wf(),
    ensures
        a.add(b).eq(b.add(a)),
{
    lemma_mul_is_commutative(a.d, b.d);
    assert(a.add(b).n == b.add(a).n);
    assert(a.add(b).d == b.add(a).d);
}

/// The last two summands of a double addition can swap.
pub proof fn lemma_swap_add(a: Ratio, b: Ratio, c: Ratio)
    requires
        a.wf(),
        b.wf(),
        c.wf(),
    ensures
        a.add(b).add(c).eq(a.add(c).add(b)),
{
    lemma_ratio_ops_wf(a, b);
    lemma_ratio_ops_wf(b, c);
    lemma_ratio_ops_wf(c, b);
    lemma_ratio_ops_wf(a, c);
    lemma_ratio_ops_wf(a.add(b), c);
    lemma_ratio_ops_wf(a, b.add(c));
    lemma_ratio_ops_wf(a, c.add(b));
    lemma_ratio_ops_wf(a.add(c), b);
    lemma_add_assoc(a, b, c);
    lemma_add_comm(b, c);
    lemma_add_congruence(a, b.add(c), a, c.add(b));
    lemma_add_assoc(a, c, b);
    lemma_eq_trans(a.add(b).add(c), a.add(b.add(c)), a.add(c.add(b)));
    lemma_eq_trans(a.add(b).add(c), a.add(c.add(b)), a.add(c).add(b));
}

/// `a + (-a) == 0`, exactly.
pub proof fn lemma_add_neg(a: Ratio)
    requires
        a.wf(),
    ensures
        a.add(a.neg()).eq(Ratio { n: 0, d: 1 }),
        a.neg().add(a).eq(Ratio { n: 0, d: 1 }),
{
    lemma_mul_unary_negation(a.n, a.d);
}

/// `0 + a == a`, exactly.
pub proof fn lemma_zero_add(a: Ratio)
    requires
        a.wf(),
    ensures
        (Ratio { n: 0, d: 1 }).add(a).eq(a),
        a.add(Ratio { n: 0, d: 1 }).eq(a),
{
    lemma_mul_is_commutative(a.n, a.d);
}

/// `(a - b) + b == a`, exactly.
pub proof fn lemma_sub_add_cancel(a: Ratio, b: Ratio)
    requires
        a.wf(),
        b.wf(),
    ensures
        a.sub(b).add(b).eq(a),
{
    lemma_ratio_ops_wf(a, b);
    lemma_ratio_ops_wf(a.sub(b), b);
    lemma_ratio_ops_wf(b, a.sub(b));
    lemma_add_comm(a.sub(b), b);
    lemma_add_of_diff(a, b);
    lemma_eq_trans(a.sub(b).add(b), b.add(a.sub(b)), a);
}

/// Multiplication of ratios is commutative and associative, literally.
pub proof fn lemma_ratio_mul_comm(a: Ratio, b: Ratio)
    ensures
        a.mul(b) == b.mul(a),
{
    lemma_mul_is_commutative(a.n, b.n);
    lemma_mul_is_commutative(a.d, b.d);
}

/// Multiplication of ratios is associative, literally.
pub proof fn lemma_ratio_mul_assoc(a: Ratio, b: Ratio, c: Ratio)
    ensures
        a.mul(b.mul(c)) == a.mul(b).mul(c),
{
    lemma_mul_is_associative(a.n, b.n, c.n);
    lemma_mul_is_associative(a.d, b.d, c.d);
}

/// Negation moves freely through multiplication.
pub proof fn lemma_neg_mul(a: Ratio, b: Ratio)
    ensures
        a.neg().mul(b) == a.mul(b).neg(),
{
    lemma_mul_unary_negation(a.n, b.n);
}

/// Dividing by a positive ratio and multiplying it back restores the
/// value, exactly.
pub proof fn lemma_div_mul_cancel(a: Ratio, b: Ratio)
    requires
        a.wf(),
        b.wf(),
        b.n > 0,
    ensures
        a.div(b).mul(b).eq(a),
{
    lemma_ac4(a.n, b.d, b.n, a.d);
    lemma_mul_is_commutative(b.n, a.d);
    lemma_ac4(a.n, a.d, b.n, b.d);
    lemma_mul_is_commutative(a.d, b.n);
    lemma_ac3(a.n, a.d, b.n * b.d);
    lemma_mul_is_associative(a.n, a.d, b.n * b.d);
    lemma_ac4(a.d, b.n, b.d, 1);
    assert(((a.n * b.d) * b.n) * a.d == a.n * ((a.d * b.n) * b.d)) by {
        lemma_ac4(a.n, b.d, b.n, a.d);
        lemma_mul_is_associative(a.n, b.n, a.d);
        lemma_mul_is_commutative(b.d, b.n);
        lemma_mul_is_associative(a.d, b.n, b.d);
        lemma_mul_is_commutative(a.d, b.n);
        lemma_mul_is_associative(b.n, a.d, b.d);
        lemma_mul_is_commutative(a.d, b.d);
        lemma_mul_is_associative(b.n, b.d, a.d);
        lemma_mul_is_commutative(b.n * b.d, a.d);
        lemma_mul_is_associative(a.n, b.n * b.d, a.d);
        lemma_ac4(a.n, b.d, b.n, a.d);
        assert((a.n * b.d) * (b.n * a.d) == (a.n * b.n) * (b.d * a.d));
        lemma_mul_is_associative(a.n * b.d, b.n, a.d);
        lemma_mul_is_associative(a.n, b.n, b.d * a.d);
        lemma_mul_is_commutative(b.d, a.d);
        lemma_ac4(a.n, b.n, a.d, b.d);
        lemma_mul_is_associative(a.n, a.d * b.n, b.d);
        lemma_mul_is_associative(a.d, b.n, b.d);
        lemma_ac4(a.n, a.d, b.n, b.d);
        assert((a.n * a.d) * (b.n * b.d) == a.n * ((a.d * b.n) * b.d)) by {
            lemma_mul_is_associative(a.n, a.d, b.n * b.d);
            lemma_mul_is_associative(a.d, b.n, b.d);
        }
    }
}

/// Multiplying after a division is dividing the product:
/// `(a/b) * m == (a*m) / b`.
pub proof fn lemma_div_mul_exchange(a: Ratio, b: Ratio, m: Ratio)
    requires
        a.wf(),
        b.wf(),
        m.wf(),
        b.n > 0,
    ensures
        a.div(b).mul(m).eq(a.mul(m).div(b)),
{
    lemma_ac3(a.n, b.d, m.n);
    lemma_ac3(a.d, m.d, b.n);
}

/// A common positive factor of numerator and denominator cancels:
/// `(a*h) / (b*h) == a / b`.
pub proof fn lemma_div_cancel_factor(a: Ratio, b: Ratio, h: Ratio)
    requires
        a.wf(),
        b.wf(),
        h.wf(),
        b.n > 0,
        h.n > 0,
    ensures
        a.mul(h).div(b.mul(h)).eq(a.div(b)),
{
    lemma_pos_prod(b.n, h.n);
    lemma_ac4(a.n, h.n, b.d, h.d);
    lemma_ac4(a.d, h.d, b.n, h.n);
    lemma_ac3(a.n * b.d, h.n * h.d, a.d * b.n);
    lemma_mul_is_commutative(h.d, h.n);
    lemma_mul_is_associative(a.n * b.d, a.d * b.n, h.n * h.d);
}

/// Twice the half restores the whole: `2 * (a/2) == a`.
pub proof fn lemma_two_halves(a: Ratio)
    requires
        a.wf(),
    ensures
        (Ratio { n: 2, d: 1 }).mul(a.mul(Ratio { n: 1, d: 2 })).eq(a),
{
    let x = (Ratio { n: 2, d: 1 }).mul(a.mul(Ratio { n: 1, d: 2 }));
    lemma_mul_is_associative(2, a.n, 1);
    lemma_mul_is_commutative(2, a.n);
    lemma_mul_is_associative(a.n, 2, a.d);
    lemma_mul_is_commutative(2, a.d);
    lemma_mul_is_associative(a.n, a.d, 2);
    assert(x.n * a.d == a.n * x.d) by {
        assert(x.n == 2 * (a.n * 1));
        assert(x.d == 1 * (a.d * 2));
        lemma_mul_is_associative(2, a.n * 1, a.d);
        lemma_mul_is_commutative(2, a.n * 1);
        lemma_mul_is_associative(a.n * 1, a.d, 2);
        lemma_mul_is_associative(a.n, a.d, 2);
    }
}

/// A positive ratio divided by itself is one.
pub proof fn lemma_div_self(a: Ratio)
    requires
        a.wf(),
        a.n > 0,
    ensures
        a.div(a).eq(Ratio { n: 1, d: 1 }),
{
    lemma_mul_is_commutative(a.n, a.d);
}

/// A quotient with a positive divisor is at most one exactly when the
/// dividend is at most the divisor.
pub proof fn lemma_div_le_one(a: Ratio, b: Ratio)
    requires
        a.wf(),
        b.wf(),
        b.n > 0,
    ensures
        a.div(b).le(Ratio { n: 1, d: 1 }) == a.le(b),
{
    lemma_mul_is_commutative(a.d, b.n);
}

/// Half plus half makes the whole, exactly.
pub proof fn lemma_halves(a: Ratio)
    requires
        a.wf(),
    ensures
        a.mul(Ratio { n: 1, d: 2 }).add(a.mul(Ratio { n: 1, d: 2 })).eq(a),
{
    let h = a.mul(Ratio { n: 1, d: 2 });
    assert(h.add(h).n * a.d == a.n * h.add(h).d) by (nonlinear_arith)
        requires
            h.n == a.n * 1,
            h.d == a.d * 2,
            h.add(h) == (Ratio { n: h.n * h.d + h.n * h.d, d: h.d * h.d }),
    ;
}

/// Multiplying both sides by a positive ratio neither creates nor
/// destroys an ordering.
pub proof fn lemma_mul_lt_cancel(c: Ratio, a: Ratio, b: Ratio)
    requires
        a.wf(),
        b.wf(),
        c.wf(),
        c.n > 0,
    ensures
        c.mul(a).lt(c.mul(b)) == a.lt(b),
        c.mul(a).le(c.mul(b)) == a.le(b),
{
    lemma_ac4(c.n, a.n, c.d, b.d);
    lemma_ac4(c.n, b.n, c.d, a.d);
    lemma_pos_prod(c.n, c.d);
    if a.n * b.d < b.n * a.d {
        lemma_mul_strict_inequality(a.n * b.d, b.n * a.d, c.n * c.d);
        lemma_mul_is_commutative(a.n * b.d, c.n * c.d);
        lemma_mul_is_commutative(b.n * a.d, c.n * c.d);
        lemma_ac4(c.n, c.d, a.n, b.d);
        lemma_ac4(c.n, c.d, b.n, a.d);
        assert((c.n * a.n) * (c.d * b.d) < (c.n * b.n) * (c.d * a.d));
    }
    if (c.n * a.n) * (c.d * b.d) < (c.n * b.n) * (c.d * a.d) {
        lemma_ac4(c.n, c.d, a.n, b.d);
        lemma_ac4(c.n, c.d, b.n, a.d);
        lemma_mul_is_commutative(c.n * c.d, a.n * b.d);
        lemma_mul_is_commutative(c.n * c.d, b.n * a.d);
        lemma_mul_strict_inequality_converse(a.n * b.d, b.n * a.d, c.n * c.d);
    }
    if a.n * b.d <= b.n * a.d {
        lemma_mul_inequality(a.n * b.d, b.n * a.d, c.n * c.d);
        lemma_ac4(c.n, c.d, a.n, b.d);
        lemma_ac4(c.n, c.d, b.n, a.d);
        lemma_mul_is_commutative(a.n * b.d, c.n * c.d);
        lemma_mul_is_commutative(b.n * a.d, c.n * c.d);
    }
    if (c.n * a.n) * (c.d * b.d) <= (c.n * b.n) * (c.d * a.d) {
        lemma_ac4(c.n, c.d, a.n, b.d);
        lemma_ac4(c.n, c.d, b.n, a.d);
        lemma_mul_is_commutative(c.n * c.d, a.n * b.d);
        lemma_mul_is_commutative(c.n * c.d, b.n * a.d);
        lemma_mul_inequality_converse(a.n * b.d, b.n * a.d, c.n * c.d);
    }
}

/// Adding the same ratio on the left preserves order.
pub proof fn lemma_le_add_left(c: Ratio, a: Ratio, b: Ratio)
    requires
        a.wf(),
        b.wf(),
        c.wf(),
        a.le(b),
    ensures
        c.add(a).le(c.add(b)),
{
    lemma_mul_is_distributive_add_other_way(c.d * b.d, c.n * a.d, a.n * c.d);
    lemma_mul_is_distributive_add_other_way(c.d * a.d, c.n * b.d, b.n * c.d);
    lemma_ac4(c.n, a.d, c.d, b.d);
    lemma_ac4(c.n, b.d, c.d, a.d);
    lemma_mul_is_commutative(c.d, b.d);
    lemma_mul_is_commutative(c.d, a.d);
    lemma_ac4(c.n, c.d, a.d, b.d);
    lemma_ac4(c.n, c.d, b.d, a.d);
    lemma_mul_is_commutative(a.d, b.d);
    lemma_ac4(a.n, c.d, c.d, b.d);
    lemma_ac4(b.n, c.d, c.d, a.d);
    lemma_pos_prod(c.d, c.d);
    lemma_mul_inequality(a.n * b.d, b.n * a.d, c.d * c.d);
    lemma_mul_is_commutative(a.n * b.d, c.d * c.d);
    lemma_mul_is_commutative(b.n * a.d, c.d * c.d);
    lemma_ac4(c.d, c.d, a.n, b.d);
    lemma_ac4(c.d, c.d, b.n, a.d);
    lemma_mul_is_commutative(c.d, a.n);
    lemma_mul_is_commutative(c.d, b.n);
    assert((a.n * c.d) * (c.d * b.d) <= (b.n * c.d) * (c.d * a.d)) by {
        lemma_ac4(a.n, c.d, c.d, b.d);
        lemma_ac4(b.n, c.d, c.d, a.d);
        assert((a.n * c.d) * (c.d * b.d) == (a.n * c.d) * (c.d * b.d));
        assert((a.n * c.d) * (c.d * b.d) == (c.d * c.d) * (a.n * b.d)) by {
            lemma_ac4(a.n, c.d, c.d, b.d);
            lemma_mul_is_commutative(a.n, c.d);
            lemma_ac4(c.d, a.n, c.d, b.d);
            lemma_ac4(c.d, c.d, a.n, b.d);
        }
        assert((b.n * c.d) * (c.d * a.d) == (c.d * c.d) * (b.n * a.d)) by {
            lemma_mul_is_commutative(b.n, c.d);
            lemma_ac4(c.d, b.n, c.d, a.d);
            lemma_ac4(c.d, c.d, b.n, a.d);
        }
        lemma_mul_inequality(a.n * b.d, b.n * a.d, c.d * c.d);
        lemma_mul_is_commutative(c.d * c.d, a.n * b.d);
        lemma_mul_is_commutative(c.d * c.d, b.n * a.d);
    }
}

/// Subtraction is addition of the negation, literally.
pub proof fn lemma_sub_as_add_neg(a: Ratio, b: Ratio)
    ensures
        a.sub(b) == a.add(b.neg()),
{
    lemma_mul_unary_negation(b.n, a.d);
}

/// Negation reverses the order.
pub proof fn lemma_le_neg(a: Ratio, b: Ratio)
    requires
        a.wf(),
        b.wf(),
        a.le(b),
    ensures
        b.neg().le(a.neg()),
{
    lemma_mul_unary_negation(b.n, a.d);
    lemma_mul_unary_negation(a.n, b.d);
}

/// `(-x) + (y + x) == y`, exactly.
pub proof fn lemma_neg_add_restore(x: Ratio, y: Ratio)
    requires
        x.wf(),
        y.wf(),
    ensures
        x.neg().add(y.add(x)).eq(y),
{
    lemma_ratio_ops_wf(x, y);
    lemma_ratio_ops_wf(y, x);
    lemma_ratio_ops_wf(x.neg(), y.add(x));
    lemma_ratio_ops_wf(x.neg(), x.add(y));
    lemma_ratio_ops_wf(x.neg(), x);
    lemma_ratio_ops_wf(x.neg().add(x), y);
    lemma_add_comm(y, x);
    lemma_add_congruence(x.neg(), y.add(x), x.neg(), x.add(y));
    lemma_add_assoc(x.neg(), x, y);
    lemma_add_neg(x);
    lemma_add_congruence(x.neg().add(x), y, Ratio { n: 0, d: 1 }, y);
    lemma_zero_add(y);
    lemma_ratio_ops_wf(Ratio { n: 0, d: 1 }, y);
    lemma_eq_trans(x.neg().add(y.add(x)), x.neg().add(x.add(y)), x.neg().add(x).add(y));
    lemma_eq_trans(
        x.neg().add(y.add(x)),
        x.neg().add(x).add(y),
        (Ratio { n: 0, d: 1 }).add(y),
    );
    lemma_eq_trans(x.neg().add(y.add(x)), (Ratio { n: 0, d: 1 }).add(y), y);
}

/// `(-x) + (y + x/2) == y - x/2`, exactly.
pub proof fn lemma_shift_halves_down(x: Ratio, y: Ratio)
    requires
        x.wf(),
        y.wf(),
    ensures
        ({
            let h = x.mul(Ratio { n: 1, d: 2 });
            x.neg().add(y.add(h)).eq(y.sub(h))
        }),
{
    let h = x.mul(Ratio { n: 1, d: 2 });
    let t = y.sub(h);
    lemma_ratio_ops_wf(x, Ratio { n: 1, d: 2 });
    lemma_ratio_ops_wf(y, h);
    lemma_ratio_ops_wf(t, h);
    lemma_ratio_ops_wf(t.add(h), h);
    lemma_ratio_ops_wf(h, h);
    lemma_ratio_ops_wf(t, h.add(h));
    lemma_ratio_ops_wf(t, x);
    lemma_ratio_ops_wf(x.neg(), y.add(h));
    lemma_ratio_ops_wf(x.neg(), t.add(x));
    lemma_sub_add_cancel(y, h);
    lemma_add_congruence(t.add(h), h, y, h);
    lemma_add_assoc(t, h, h);
    lemma_halves(x);
    lemma_add_congruence(t, h.add(h), t, x);
    lemma_eq_trans(y.add(h), t.add(h).add(h), t.add(h.add(h)));
    lemma_eq_trans(y.add(h), t.add(h.add(h)), t.add(x));
    lemma_add_congruence(x.neg(), y.add(h), x.neg(), t.add(x));
    lemma_neg_add_restore(x, t);
    lemma_eq_trans(x.neg().add(y.add(h)), x.neg().add(t.add(x)), t);
}

/// `x + (y - x/2) == y + x/2`, exactly.
pub proof fn lemma_shift_halves_up(x: Ratio, y: Ratio)
    requires
        x.wf(),
        y.wf(),
    ensures
        ({
            let h = x.mul(Ratio { n: 1, d: 2 });
            x.add(y.sub(h)).eq(y.add(h))
        }),
{
    let h = x.mul(Ratio { n: 1, d: 2 });
    let t = y.sub(h);
    lemma_ratio_ops_wf(x, Ratio { n: 1, d: 2 });
    lemma_ratio_ops_wf(y, h);
    lemma_ratio_ops_wf(t, h);
    lemma_ratio_ops_wf(h, h);
    lemma_ratio_ops_wf(h, t);
    lemma_ratio_ops_wf(x, t);
    lemma_ratio_ops_wf(h.add(h), t);
    lemma_ratio_ops_wf(h, h.add(t));
    lemma_halves(x);
    lemma_add_congruence(x, t, h.add(h), t);
    lemma_add_assoc(h, h, t);
    lemma_add_of_diff(y, h);
    lemma_add_congruence(h, h.add(t), h, y);
    lemma_ratio_ops_wf(h, y);
    lemma_add_comm(h, y);
    lemma_eq_trans(x.add(t), h.add(h).add(t), h.add(h.add(t)));
    lemma_eq_trans(x.add(t), h.add(h.add(t)), h.add(y));
    lemma_eq_trans(x.add(t), h.add(y), y.add(h));
}

/// A representable checked sum represents the exact sum.
pub proof fn lemma_add_is(a: Frac, b: Frac, ra: Ratio, rb: Ratio)
    requires
        frac_is(a, ra),
        frac_is(b, rb),
        a.spec_add(b) is Some,
    ensures
        frac_is(a.spec_add(b)->Some_0, ra.add(rb)),
{
    lemma_spec_ops_some(a, b);
    lemma_ratio_ops_wf(a@, b@);
    lemma_ratio_ops_wf(ra, rb);
    lemma_add_congruence(a@, b@, ra, rb);
    lemma_eq_trans(a.spec_add(b)->Some_0@, a@.add(b@), ra.add(rb));
}

/// A representable checked difference represents the exact difference.
pub proof fn lemma_sub_is(a: Frac, b: Frac, ra: Ratio, rb: Ratio)
    requires
        frac_is(a, ra),
        frac_is(b, rb),
        a.spec_sub(b) is Some,
    ensures
        frac_is(a.spec_sub(b)->Some_0, ra.sub(rb)),
{
    lemma_spec_ops_some(a, b);
    lemma_ratio_ops_wf(a@, b@);
    lemma_ratio_ops_wf(ra, rb);
    lemma_sub_congruence(a@, b@, ra, rb);
    lemma_eq_trans(a.spec_sub(b)->Some_0@, a@.sub(b@), ra.sub(rb));
}

/// A representable checked product represents the exact product.
pub proof fn lemma_mul_is(a: Frac, b: Frac, ra: Ratio, rb: Ratio)
    requires
        frac_is(a, ra),
        frac_is(b, rb),
        a.spec_mul(b) is Some,
    ensures
        frac_is(a.spec_mul(b)->Some_0, ra.mul(rb)),
{
    lemma_spec_ops_some(a, b);
    lemma_ratio_ops_wf(a@, b@);
    lemma_ratio_ops_wf(ra, rb);
    lemma_mul_congruence(a@, b@, ra, rb);
    lemma_eq_trans(a.spec_mul(b)->Some_0@, a@.mul(b@), ra.mul(rb));
}

/// A representable checked quotient represents the exact quotient.
pub proof fn lemma_div_is(a: Frac, b: Frac, ra: Ratio, rb: Ratio)
    requires
        frac_is(a, ra),
        frac_is(b, rb),
        rb.n != 0,
        a.spec_div(b) is Some,
    ensures
        b.num != 0,
        frac_is(a.spec_div(b)->Some_0, ra.div(rb)),
{
    lemma_eq_pos(b@, rb);
    assert(b.num != 0) by (nonlinear_arith)
        requires
            (b.num as int) * rb.d == rb.n * (b.den as int),
            rb.n != 0,
            rb.d > 0,
            b.den > 0,
    ;
    lemma_spec_ops_some(a, b);
    lemma_ratio_ops_wf(a@, b@);
    lemma_ratio_ops_wf(ra, rb);
    lemma_div_congruence(a@, b@, ra, rb);
    lemma_eq_trans(a.spec_div(b)->Some_0@, a@.div(b@), ra.div(rb));
}

/// The negated representation represents the exact negation.
pub proof fn lemma_neg_is(a: Frac, ra: Ratio)
    requires
        frac_is(a, ra),
    ensures
        frac_is(a.spec_neg(), ra.neg()),
{
    lemma_neg_congruence(a@, ra);
    assert(a.spec_neg()@ == a@.neg());
}

/// An exact rational number held in executable code: `num / den`.
///
/// Well-formed values have `den > 0` and `num > i64::MIN`, so that the
/// numerator can always be negated without overflow.
#[derive(Clone, Copy, Debug, PartialEq, Eq, Structural)]
pub struct Frac {
    pub num: i64,
    pub den: i64,
}

impl View for Frac {
    type V = Ratio;

    open spec fn view(&self) -> Ratio {
        Ratio { n: self.num as int, d: self.den as int }
    }
}

/// Bound on the magnitude of a product of two `i64` values, each of
/// magnitude at most `i64::MAX`: half of `i128::MAX`, so a sum of two
/// such products still fits in `i128`.
proof fn lemma_prod_i64_bound(x: int, y: int)
    requires
        -0x7fff_ffff_ffff_ffff <= x <= 0x7fff_ffff_ffff_ffff,
        -0x7fff_ffff_ffff_ffff <= y <= 0x7fff_ffff_ffff_ffff,
    ensures
        -0x3fff_ffff_ffff_ffff_0000_0000_0000_0001 <= x * y
            <= 0x3fff_ffff_ffff_ffff_0000_0000_0000_0001,
{
    assert(-0x3fff_ffff_ffff_ffff_0000_0000_0000_0001 <= x * y
        <= 0x3fff_ffff_ffff_ffff_0000_0000_0000_0001) by (nonlinear_arith)
        requires
            -0x7fff_ffff_ffff_ffff <= x <= 0x7fff_ffff_ffff_ffff,
            -0x7fff_ffff_ffff_ffff <= y <= 0x7fff_ffff_ffff_ffff,
    ;
}

/// The product of two positive integers is positive.
pub proof fn lemma_pos_prod(x: int, y: int)
    requires
        x > 0,
        y > 0,
    ensures
        x * y > 0,
{
    assert(x * y > 0) by (nonlinear_arith)
        requires
            x > 0,
            y > 0,
    ;
}

/// Reduce the exact ratio `n / d` to a `Frac`, failing only when the
/// reduced numerator or denominator exceeds `i64::MAX`.
pub(crate) fn reduce(n: i128, d: i128) -> (r: Option<Frac>)
    requires
        d > 0,
        n > i128::MIN,
    ensures
        r == reduced(Ratio { n: n as int, d: d as int }),
        r matches Some(c) ==> c.wf() && c@.eq(Ratio { n: n as int, d: d as int }),
{
    proof {
        if reduced(Ratio { n: n as int, d: d as int }) is Some {
            lemma_reduced_some(Ratio { n: n as int, d: d as int });
        }
    }
    let un: u128 = if n >= 0 {
        n as u128
    } else {
        (-n) as u128
    };
    let g = gcd_u128(un, d as u128);
    proof {
        lemma_gcd_divides(un as nat, d as nat);
    }
    let rn = un / g;
    let rd = (d as u128) / g;
    if rn <= i64::MAX as u128 && rd <= i64::MAX as u128 {
        let num: i64 = if n >= 0 {
            rn as i64
        } else {
            -(rn as i64)
        };
        Some(Frac { num, den: rd as i64 })
    } else {
        None
    }
}

/// Euclid's algorithm.
fn gcd_u128(a: u128, b: u128) -> (g: u128)
    ensures
        g as nat == gcd(a as nat, b as nat),
{
    let mut x = a;
    let mut y = b;
    while y != 0
        invariant
            gcd(x as nat, y as nat) == gcd(a as nat, b as nat),
        decreases y,
    {
        let t = x % y;
        x = y;
        y = t;
    }
    x
}

impl Frac {
    /// Denominator positive, numerator strictly above `i64::MIN`.
    pub open spec fn wf(self) -> bool {
        self.den > 0 && self.num > i64::MIN
    }

    /// The negated representation (meaningful for well-formed values).
    pub open spec fn spec_neg(self) -> Frac {
        Frac { num: (-(self.num as int)) as i64, den: self.den }
    }

    /// What the checked addition returns: the reduced exact sum, if it fits.
    pub open spec fn spec_add(self, other: Frac) -> Option<Frac> {
        reduced(self@.add(other@))
    }

    pub open spec fn spec_sub(self, other: Frac) -> Option<Frac> {
        reduced(self@.sub(other@))
    }

    pub open spec fn spec_mul(self, other: Frac) -> Option<Frac> {
        reduced(self@.mul(other@))
    }

    pub open spec fn spec_div(self, other: Frac) -> Option<Frac> {
        reduced(self@.div(other@))
    }

    /// The integer `i` as a rational.
    pub fn from_int(i: i64) -> (r: Frac)
        requires
            i > i64::MIN,
        ensures
            r.wf(),
            r == (Frac { num: i, den: 1 }),
            r@ == Ratio::from_int(i as int),
    {
        Frac { num: i, den: 1 }
    }

    pub fn zero() -> (r: Frac)
        ensures
            r.wf(),
            r@ == Ratio::from_int(0),
    {
        Frac { num: 0, den: 1 }
    }

    pub fn one() -> (r: Frac)
        ensures
            r.wf(),
            r@ == Ratio::from_int(1),
    {
        Frac { num: 1, den: 1 }
    }

    /// Build the rational `num / den` in reduced form; `None` exactly when
    /// `den` is zero or the reduced value does not fit.
    pub fn new(num: i64, den: i64) -> (r: Option<Frac>)
        ensures
            den != 0 ==> r == reduced(Self::ratio_of(num as int, den as int)),
            den == 0 ==> r is None,
            r matches Some(c) ==> c.wf() && den != 0 && c@.eq(
                Self::ratio_of(num as int, den as int),
            ),
    {
        if den == 0 {
            return None;
        }
        let n: i128 = num as i128;
        let d: i128 = den as i128;
        if d > 0 {
            reduce(n, d)
        } else {
            reduce(-n, -d)
        }
    }

    /// The ratio denoted by a numerator/denominator pair with `den != 0`:
    /// a negative denominator's sign moves into the numerator.
    pub open spec fn ratio_of(num: int, den: int) -> Ratio {
        if den > 0 {
            Ratio { n: num, d: den }
        } else {
            Ratio { n: -num, d: -den }
        }
    }

    /// Exact comparison `self < other` by cross multiplication.
    pub fn lt(&self, other: &Frac) -> (r: bool)
        requires
            self.wf(),
            other.wf(),
        ensures
            r == self@.lt(other@),
    {
        proof {
            lemma_prod_i64_bound(self.num as int, other.den as int);
            lemma_prod_i64_bound(other.num as int, self.den as int);
        }
        (self.num as i128) * (other.den as i128) < (other.num as i128) * (self.den as i128)
    }

    /// Exact comparison `self <= other` by cross multiplication.
    pub fn le(&self, other: &Frac) -> (r: bool)
        requires
            self.wf(),
            other.wf(),
        ensures
            r == self@.le(other@),
    {
        proof {
            lemma_prod_i64_bound(self.num as int, other.den as int);
            lemma_prod_i64_bound(other.num as int, self.den as int);
        }
        (self.num as i128) * (other.den as i128) <= (other.num as i128) * (self.den as i128)
    }

    /// Exact equality of the rationals represented (not of representations).
    pub fn rat_eq(&self, other: &Frac) -> (r: bool)
        requires
            self.wf(),
            other.wf(),
        ensures
            r == self@.eq(other@),
    {
        proof {
            lemma_prod_i64_bound(self.num as int, other.den as int);
            lemma_prod_i64_bound(other.num as int, self.den as int);
        }
        (self.num as i128) * (other.den as i128) == (other.num as i128) * (self.den as i128)
    }

    /// Exact negation; never fails thanks to `num > i64::MIN`.
    pub fn neg(&self) -> (r: Frac)
        requires
            self.wf(),
        ensures
            r.wf(),
            r@ == self@.neg(),
            r == self.spec_neg(),
    {
        Frac { num: -self.num, den: self.den }
    }

    /// Checked exact addition: reduced result, or `None` if it cannot fit.
    pub fn add(&self, other: &Frac) -> (r: Option<Frac>)
        requires
            self.wf(),
            other.wf(),
        ensures
            r == self.spec_add(*other),
            r matches Some(c) ==> c.wf() && c@.eq(self@.add(other@)),
    {
        proof {
            lemma_prod_i64_bound(self.num as int, other.den as int);
            lemma_prod_i64_bound(other.num as int, self.den as int);
            lemma_pos_prod(self.den as int, other.den as int);
            lemma_prod_i64_bound(self.den as int, other.den as int);
        }
        let n = (self.num as i128) * (other.den as i128) + (other.num as i128) * (self.den
            as i128);
        let d = (self.den as i128) * (other.den as i128);
        reduce(n, d)
    }

    /// Checked exact subtraction.
    pub fn sub(&self, other: &Frac) -> (r: Option<Frac>)
        requires
            self.wf(),
            other.wf(),
        ensures
            r == self.spec_sub(*other),
            r matches Some(c) ==> c.wf() && c@.eq(self@.sub(other@)),
    {
        proof {
            lemma_prod_i64_bound(self.num as int, other.den as int);
            lemma_prod_i64_bound(other.num as int, self.den as int);
            lemma_pos_prod(self.den as int, other.den as int);
            lemma_prod_i64_bound(self.den as int, other.den as int);
        }
        let n = (self.num as i128) * (other.den as i128) - (other.num as i128) * (self.den
            as i128);
        let d = (self.den as i128) * (other.den as i128);
        reduce(n, d)
    }

    /// Checked exact multiplication.
    pub fn mul(&self, other: &Frac) -> (r: Option<Frac>)
        requires
            self.wf(),
            other.wf(),
        ensures
            r == self.spec_mul(*other),
            r matches Some(c) ==> c.wf() && c@.eq(self@.mul(other@)),
    {
        proof {
            lemma_prod_i64_bound(self.num as int, other.num as int);
            lemma_pos_prod(self.den as int, other.den as int);
            lemma_prod_i64_bound(self.den as int, other.den as int);
        }
        let n = (self.num as i128) * (other.num as i128);
        let d = (self.den as i128) * (other.den as i128);
        reduce(n, d)
    }

    /// Checked exact division by a nonzero rational.
    pub fn div(&self, other: &Frac) -> (r: Option<Frac>)
        requires
            self.wf(),
            other.wf(),
            other.num != 0,
        ensures
            r == self.spec_div(*other),
            r matches Some(c) ==> c.wf() && c@.eq(self@.div(other@)),
    {
        proof {
            lemma_prod_i64_bound(self.num as int, other.den as int);
            lemma_prod_i64_bound(self.den as int, other.num as int);
        }
        let n = (self.num as i128) * (other.den as i128);
        let d = (self.den as i128) * (other.num as i128);
        if other.num >= 0 {
            proof {
                lemma_pos_prod(self.den as int, other.num as int);
            }
            reduce(n, d)
        } else {
            proof {
                lemma_pos_prod(self.den as int, -(other.num as int));
                assert(-((self.den as int) * (other.num as int)) == (self.den as int) * (-(
                other.num as int))) by (nonlinear_arith);
            }
            reduce(-n, -d)
        }
    }

    /// Clamp `self` into the closed interval `[lo, hi]`.
    pub fn clamp(&self, lo: &Frac, hi: &Frac) -> (r: Frac)
        requires
            self.wf(),
            lo.wf(),
            hi.wf(),
            lo@.le(hi@),
        ensures
            r.wf(),
            r == (if self@.lt(lo@) {
                *lo
            } else if hi@.lt(self@) {
                *hi
            } else {
                *self
            }),
    {
        if self.lt(lo) {
            *lo
        } else if hi.lt(self) {
            *hi
        } else {
            *self
        }
    }

    /// The larger of the two rationals (first on ties).
    pub fn max(&self, other: &Frac) -> (r: Frac)
        requires
            self.wf(),
            other.wf(),
        ensures
            r.wf(),
            r == (if self@.lt(other@) {
                *other
            } else {
                *self
            }),
    {
        if self.lt(other) {
            *other
        } else {
            *self
        }
    }
}


} // verus!
