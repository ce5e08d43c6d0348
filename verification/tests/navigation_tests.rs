use gds_viewer::frac::Frac;
use gds_viewer::geometry::{Point, Size};
use gds_viewer::navigation::{
    ElementState, InputEvent, MouseButton, NavigationControl, NavigationEvent,
};
use gds_viewer::scroll::{ScrollDelta, TouchPhase};

fn ip(x: i64, y: i64) -> Point {
    Point::new(Frac::from_int(x), Frac::from_int(y))
}

#[test]
fn drag_lifecycle() {
    let mut nav = NavigationControl::new();
    // moving without a pressed button emits nothing but tracks the cursor
    assert!(nav
        .process_event(InputEvent::CursorMoved { position: ip(10, 20) })
        .is_none());
    // left press starts the drag at the current cursor
    match nav.process_event(InputEvent::MouseInput {
        state: ElementState::Pressed,
        button: MouseButton::Left,
    }) {
        Some(NavigationEvent::StartDragged(d)) => {
            assert_eq!((d.start.x.num, d.start.y.num), (10, 20));
            assert_eq!((d.current.x.num, d.current.y.num), (10, 20));
        }
        _ => panic!("expected StartDragged"),
    }
    // moves now report start and current
    match nav.process_event(InputEvent::CursorMoved { position: ip(15, 25) }) {
        Some(NavigationEvent::MoveDragged(d)) => {
            assert_eq!((d.start.x.num, d.start.y.num), (10, 20));
            assert_eq!((d.current.x.num, d.current.y.num), (15, 25));
        }
        _ => panic!("expected MoveDragged"),
    }
    // release ends the drag
    match nav.process_event(InputEvent::MouseInput {
        state: ElementState::Released,
        button: MouseButton::Left,
    }) {
        Some(NavigationEvent::EndDragged(d)) => {
            assert_eq!((d.start.x.num, d.start.y.num), (10, 20));
            assert_eq!((d.current.x.num, d.current.y.num), (15, 25));
        }
        _ => panic!("expected EndDragged"),
    }
    assert!(nav
        .process_event(InputEvent::CursorMoved { position: ip(0, 0) })
        .is_none());
}

#[test]
fn non_left_buttons_are_ignored() {
    let mut nav = NavigationControl::new();
    assert!(nav
        .process_event(InputEvent::MouseInput {
            state: ElementState::Pressed,
            button: MouseButton::Right,
        })
        .is_none());
    assert!(nav
        .process_event(InputEvent::MouseInput {
            state: ElementState::Pressed,
            button: MouseButton::Middle,
        })
        .is_none());
    assert!(nav.process_event(InputEvent::Other).is_none());
}

#[test]
fn wheel_uses_current_cursor() {
    let mut nav = NavigationControl::new();
    let size = Size::new(Frac::from_int(100), Frac::from_int(100));
    assert!(nav.update_size(size));
    // update_size recenters the cursor at (50, 50)
    let delta = ScrollDelta::Line {
        x: Frac::zero(),
        y: Frac::from_int(-50),
    };
    match nav.process_event(InputEvent::MouseWheel {
        delta,
        phase: TouchPhase::Started,
    }) {
        Some(NavigationEvent::StartZoom(z)) => {
            assert!(z.cursor.x.rat_eq(&Frac::from_int(50)));
            assert!(z.cursor.y.rat_eq(&Frac::from_int(50)));
            assert!(z.scale.rat_eq(&Frac::new(3, 2).unwrap()));
        }
        _ => panic!("expected StartZoom"),
    }
}
