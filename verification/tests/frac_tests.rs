use gds_viewer::frac::Frac;

fn f(num: i64, den: i64) -> Frac {
    Frac::new(num, den).unwrap()
}

#[test]
fn construction_reduces() {
    let half = Frac::new(2, 4).unwrap();
    assert_eq!(half.num, 1);
    assert_eq!(half.den, 2);
    let neg = Frac::new(3, -6).unwrap();
    assert_eq!(neg.num, -1);
    assert_eq!(neg.den, 2);
    assert!(Frac::new(1, 0).is_none());
}

#[test]
fn exact_arithmetic() {
    let a = f(1, 3);
    let b = f(1, 6);
    let sum = a.add(&b).unwrap();
    assert_eq!((sum.num, sum.den), (1, 2));
    let diff = a.sub(&b).unwrap();
    assert_eq!((diff.num, diff.den), (1, 6));
    let prod = a.mul(&b).unwrap();
    assert_eq!((prod.num, prod.den), (1, 18));
    let quot = a.div(&b).unwrap();
    assert_eq!((quot.num, quot.den), (2, 1));
    let quot_neg = a.div(&f(-1, 6)).unwrap();
    assert_eq!((quot_neg.num, quot_neg.den), (-2, 1));
}

#[test]
fn overflow_is_reported() {
    let big = Frac::from_int(i64::MAX);
    // MAX + MAX does not fit an i64 numerator
    assert!(big.add(&big).is_none());
    // but MAX * 2/2 reduces back to MAX and fits
    let two_halves = f(2, 2);
    assert_eq!((two_halves.num, two_halves.den), (1, 1));
    assert!(big.mul(&two_halves).is_some());
}

#[test]
fn comparisons_are_exact() {
    assert!(f(1, 3).lt(&f(34, 100)));
    assert!(!f(1, 3).lt(&f(33, 100)));
    assert!(f(1, 3).le(&f(1, 3)));
    assert!(f(2, 6).rat_eq(&f(1, 3)));
    assert!(!f(2, 6).rat_eq(&f(1, 2)));
}

#[test]
fn clamp_and_max() {
    let lo = f(1, 10);
    let hi = f(10, 1);
    assert_eq!(f(1, 100).clamp(&lo, &hi), lo);
    assert_eq!(f(100, 1).clamp(&lo, &hi), hi);
    assert_eq!(f(1, 2).clamp(&lo, &hi), f(1, 2));
    assert_eq!(f(1, 2).max(&f(1, 3)), f(1, 2));
    assert_eq!(f(1, 3).max(&f(1, 2)), f(1, 2));
}

#[test]
fn negation() {
    let a = f(3, 7);
    let n = a.neg();
    assert_eq!((n.num, n.den), (-3, 7));
    assert!(n.add(&a).unwrap().rat_eq(&Frac::zero()));
}
