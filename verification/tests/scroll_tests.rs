use gds_viewer::frac::Frac;
use gds_viewer::geometry::{Point, Size};
use gds_viewer::navigation::NavigationEvent;
use gds_viewer::scroll::{ScrollControl, ScrollDelta, TouchPhase};

fn f(num: i64, den: i64) -> Frac {
    Frac::new(num, den).unwrap()
}

fn origin() -> Point {
    Point::new(Frac::zero(), Frac::zero())
}

#[test]
fn scale_formula() {
    let mut sc = ScrollControl::new();
    let size = Size::new(Frac::from_int(100), Frac::from_int(200));
    assert!(sc.update_size(&size));
    // scrolling down by 100 lines accumulates +100; scale = 1 + 100/200
    let delta = ScrollDelta::Line {
        x: Frac::zero(),
        y: Frac::from_int(-100),
    };
    match sc.on_scroll(&delta, TouchPhase::Started, origin()) {
        NavigationEvent::StartZoom(z) => assert!(z.scale.rat_eq(&f(3, 2))),
        _ => panic!("expected StartZoom"),
    }
    // a further +100 doubles the offset; scale = 1 + 200/200
    match sc.on_scroll(&delta, TouchPhase::Moved, origin()) {
        NavigationEvent::ProcessZoom(z) => assert!(z.scale.rat_eq(&Frac::from_int(2))),
        _ => panic!("expected ProcessZoom"),
    }
    match sc.on_scroll(&delta, TouchPhase::Ended, origin()) {
        NavigationEvent::EndZoom(z) => assert!(z.scale.rat_eq(&f(5, 2))),
        _ => panic!("expected EndZoom"),
    }
}

#[test]
fn scale_is_floored() {
    let mut sc = ScrollControl::new();
    let size = Size::new(Frac::from_int(100), Frac::from_int(100));
    assert!(sc.update_size(&size));
    // scrolling up by 1000 pixels accumulates -1000; 1 - 10 floors at 1/100
    let delta = ScrollDelta::Pixel {
        x: Frac::zero(),
        y: Frac::from_int(1000),
    };
    match sc.on_scroll(&delta, TouchPhase::Started, origin()) {
        NavigationEvent::StartZoom(z) => assert!(z.scale.rat_eq(&f(1, 100))),
        _ => panic!("expected StartZoom"),
    }
}

#[test]
fn cancelled_resets_to_unit_scale() {
    // P-style scenario: any Started/Moved history, then Cancelled
    let mut sc = ScrollControl::new();
    let size = Size::new(Frac::from_int(50), Frac::from_int(50));
    assert!(sc.update_size(&size));
    let delta = ScrollDelta::Line {
        x: Frac::from_int(3),
        y: Frac::from_int(-25),
    };
    let _ = sc.on_scroll(&delta, TouchPhase::Started, origin());
    let _ = sc.on_scroll(&delta, TouchPhase::Moved, origin());
    let _ = sc.on_scroll(&delta, TouchPhase::Moved, origin());
    match sc.on_scroll(&delta, TouchPhase::Cancelled, origin()) {
        NavigationEvent::CancelZoom(z) => {
            assert_eq!((z.scale.num, z.scale.den), (1, 1));
        }
        _ => panic!("expected CancelZoom"),
    }
    // the accumulator is cleared: the cancelled delta was not applied
    assert!(sc.scroll.x.rat_eq(&Frac::zero()));
    assert!(sc.scroll.y.rat_eq(&Frac::zero()));
}

#[test]
fn zero_size_is_ignored() {
    let mut sc = ScrollControl::new();
    let before = sc;
    assert!(!sc.update_size(&Size::new(Frac::zero(), Frac::from_int(10))));
    assert_eq!(sc, before);
}
