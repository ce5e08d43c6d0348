use gds_viewer::camera::OrthoNoRotCamera;
use gds_viewer::frac::Frac;
use gds_viewer::geometry::{Point, Rect, Size};
use gds_viewer::navigation::{DraggedEvent, NavigationEvent, ZoomEvent};
use gds_viewer::painter::PainterCore;

fn fp(x: i64, y: i64) -> Point {
    Point::new(Frac::from_int(x), Frac::from_int(y))
}

fn sample_core() -> PainterCore {
    let view_box = Rect::new(fp(0, 0), fp(8, 8)).unwrap();
    let screen = Size::new(Frac::from_int(4), Frac::from_int(4));
    PainterCore::new(OrthoNoRotCamera::new(screen, view_box).unwrap())
}

#[test]
fn zoom_gesture_composes_with_start_zoom() {
    let mut core = sample_core();
    let cursor = fp(2, 2);
    // a start at scale 3/2 multiplies the zoom captured at gesture start
    assert!(core.navigation_event(&NavigationEvent::StartZoom(ZoomEvent {
        scale: Frac::new(3, 2).unwrap(),
        cursor,
    })));
    assert!(core.camera.zoom().rat_eq(&Frac::new(3, 2).unwrap()));
    // further events scale from the same gesture start, not cumulatively
    assert!(core.navigation_event(&NavigationEvent::ProcessZoom(ZoomEvent {
        scale: Frac::from_int(2),
        cursor,
    })));
    assert!(core.camera.zoom().rat_eq(&Frac::from_int(2)));
    assert!(core.navigation_event(&NavigationEvent::EndZoom(ZoomEvent {
        scale: Frac::from_int(4),
        cursor,
    })));
    assert!(core.camera.zoom().rat_eq(&Frac::from_int(4)));
}

#[test]
fn drag_pans_the_view_box() {
    let mut core = sample_core();
    // screen->world scale is 2 (8 world units over 4 pixels), y flipped
    assert!(core.navigation_event(&NavigationEvent::StartDragged(DraggedEvent {
        start: fp(1, 1),
        current: fp(1, 1),
    })));
    // dragging 1 pixel right moves start - current = (-1, 0): the world
    // moves by -2 on x from the anchor center (4, 4)
    assert!(core.navigation_event(&NavigationEvent::MoveDragged(DraggedEvent {
        start: fp(1, 1),
        current: fp(2, 1),
    })));
    let pos = core.camera.world_position();
    assert!(pos.x.rat_eq(&Frac::from_int(2)));
    assert!(pos.y.rat_eq(&Frac::from_int(4)));
    // ending the drag changes nothing
    let before = core.camera.world_position();
    assert!(core.navigation_event(&NavigationEvent::EndDragged(DraggedEvent {
        start: fp(1, 1),
        current: fp(2, 1),
    })));
    assert_eq!(core.camera.world_position(), before);
}

#[test]
fn stroke_width_converts_to_world_units() {
    let core = sample_core();
    // default 2-pixel stroke at scale 2 is 4 world units
    let width = core.stroke_world_width().unwrap();
    assert!(width.rat_eq(&Frac::from_int(4)));
}

#[test]
fn resize_refits_camera() {
    let mut core = sample_core();
    let t0 = core.camera.timestamp();
    assert!(core.update_size(Size::new(Frac::from_int(8), Frac::from_int(8))));
    assert_eq!(core.camera.timestamp(), t0 + 1);
    // now one pixel is one world unit
    let width = core.stroke_world_width().unwrap();
    assert!(width.rat_eq(&Frac::from_int(2)));
}
