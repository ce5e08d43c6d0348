use gds_viewer::camera::OrthoNoRotCamera;
use gds_viewer::frac::Frac;
use gds_viewer::geometry::{Point, Rect, Size};

fn fr(num: i64, den: i64) -> Frac {
    Frac::new(num, den).unwrap()
}

fn int_point(x: i64, y: i64) -> Point {
    Point::new(Frac::from_int(x), Frac::from_int(y))
}

fn as_f64(f: &Frac) -> f64 {
    f.num as f64 / f.den as f64
}

fn assert_points_eq(p1: Point, p2: Point, epsilon: f64) {
    assert!(
        (as_f64(&p1.x) - as_f64(&p2.x)).abs() < epsilon,
        "X coordinates differ: left = {}/{}, right = {}/{}",
        p1.x.num,
        p1.x.den,
        p2.x.num,
        p2.x.den
    );
    assert!(
        (as_f64(&p1.y) - as_f64(&p2.y)).abs() < epsilon,
        "Y coordinates differ: left = {}/{}, right = {}/{}",
        p1.y.num,
        p1.y.den,
        p2.y.num,
        p2.y.den
    );
}

fn sample_camera() -> OrthoNoRotCamera {
    let view_box = Rect::new(int_point(3, 1), int_point(9, 5)).unwrap();
    let screen = Size::new(Frac::from_int(3), Frac::from_int(2));
    OrthoNoRotCamera::new(screen, view_box).unwrap()
}

#[test]
fn test_0() {
    let camera = sample_camera();
    let world = camera
        .convert_screen_to_world(&Point::new(fr(1, 1), fr(1, 2)))
        .unwrap();
    assert_points_eq(world, int_point(5, 4), 0.0001);
}

#[test]
fn test_1() {
    let mut camera = sample_camera();
    assert!(camera.set_zoom(Frac::from_int(2), Point::new(fr(3, 2), fr(1, 1))));
    let world = camera
        .convert_screen_to_world(&Point::new(fr(5, 4), fr(3, 4)))
        .unwrap();
    assert_points_eq(world, int_point(5, 4), 0.0001);
}

#[test]
fn test_2() {
    let camera = sample_camera();
    let clip = camera
        .world_to_clip
        .transform(&int_point(5, 4))
        .unwrap();
    assert_points_eq(clip, Point::new(fr(-1, 3), fr(1, 2)), 0.0001);
}

#[test]
fn test_3() {
    let mut camera = sample_camera();
    assert!(camera.set_zoom(Frac::from_int(2), Point::new(fr(3, 2), fr(1, 1))));
    let clip = camera
        .world_to_clip
        .transform(&int_point(5, 4))
        .unwrap();
    assert_points_eq(clip, Point::new(fr(-1, 6), fr(1, 4)), 0.0001);
}

#[test]
fn zoom_anchor_is_exact() {
    // The anchor invariant holds exactly, not only to tolerance: the
    // world point under the cursor is identical before and after a zoom.
    let mut camera = sample_camera();
    let cursor = Point::new(fr(7, 4), fr(5, 8));
    let before = camera.convert_screen_to_world(&cursor).unwrap();
    assert!(camera.set_zoom(fr(7, 3), cursor));
    let after = camera.convert_screen_to_world(&cursor).unwrap();
    assert!(before.x.rat_eq(&after.x));
    assert!(before.y.rat_eq(&after.y));
}

#[test]
fn clip_center_is_origin() {
    let camera = sample_camera();
    let center = camera.world_position();
    let clip = camera.world_to_clip.transform(&center).unwrap();
    assert!(clip.x.rat_eq(&Frac::zero()));
    assert!(clip.y.rat_eq(&Frac::zero()));
}

#[test]
fn fit_constrained_axis_is_exact() {
    // Screen 3x2, box 6x4: the tie goes to the vertical branch, where
    // the y axis maps 1:1: screen y=0 hits the box top, y=2 its bottom.
    let camera = sample_camera();
    let top = camera
        .convert_screen_to_world(&Point::new(fr(0, 1), fr(0, 1)))
        .unwrap();
    let bottom = camera
        .convert_screen_to_world(&Point::new(fr(0, 1), fr(2, 1)))
        .unwrap();
    assert!(top.y.rat_eq(&Frac::from_int(5)));
    assert!(bottom.y.rat_eq(&Frac::from_int(1)));
}

#[test]
fn slack_axis_centers_with_equal_margin() {
    // Screen 3x1 and a 4x2 box centered at (10,5): the y axis is
    // constrained (1:1), the x axis has slack. The screen center maps to
    // the box center, and the margins beyond the box are equal: screen
    // x=0 lands one world unit left of the box, x=3 one unit right.
    let view_box = Rect::new(int_point(8, 4), int_point(12, 6)).unwrap();
    let screen = Size::new(Frac::from_int(3), Frac::from_int(1));
    let camera = OrthoNoRotCamera::new(screen, view_box).unwrap();
    let center = camera
        .convert_screen_to_world(&Point::new(fr(3, 2), fr(1, 2)))
        .unwrap();
    assert!(center.x.rat_eq(&Frac::from_int(10)));
    assert!(center.y.rat_eq(&Frac::from_int(5)));
    let left = camera
        .convert_screen_to_world(&Point::new(fr(0, 1), fr(0, 1)))
        .unwrap();
    let right = camera
        .convert_screen_to_world(&Point::new(fr(3, 1), fr(1, 1)))
        .unwrap();
    assert!(left.x.rat_eq(&Frac::from_int(7)));
    assert!(right.x.rat_eq(&Frac::from_int(13)));
    // the constrained axis is exact: screen y=0 at the box top, y=1 at
    // its bottom
    assert!(left.y.rat_eq(&Frac::from_int(6)));
    assert!(right.y.rat_eq(&Frac::from_int(4)));
}

#[test]
fn timestamps_strictly_increase() {
    let mut camera = sample_camera();
    let t0 = camera.timestamp();
    assert!(camera.set_screen(Size::new(Frac::from_int(4), Frac::from_int(2))));
    let t1 = camera.timestamp();
    assert!(t1 > t0);
    assert!(camera.move_to(int_point(0, 0)));
    let t2 = camera.timestamp();
    assert!(t2 > t1);
    assert!(camera.set_zoom(Frac::from_int(3), int_point(1, 1)));
    let t3 = camera.timestamp();
    assert!(t3 > t2);
    let view_box = Rect::new(int_point(0, 0), int_point(2, 2)).unwrap();
    assert!(camera.set_view_box(view_box));
    let t4 = camera.timestamp();
    assert!(t4 > t3);
    // reads do not move the timestamp
    let _ = camera.zoom();
    let _ = camera.clip_matrix();
    let _ = camera.world_position();
    assert_eq!(camera.timestamp(), t4);
}

#[test]
fn degenerate_screen_is_rejected() {
    let view_box = Rect::new(int_point(0, 0), int_point(4, 4)).unwrap();
    let screen = Size::new(Frac::zero(), Frac::from_int(2));
    assert!(OrthoNoRotCamera::new(screen, view_box).is_none());

    let mut camera = sample_camera();
    let before_box = camera.view_box;
    let t0 = camera.timestamp();
    // a zero-width screen keeps the previous view; only the timestamp moves
    assert!(!camera.set_screen(Size::new(Frac::zero(), Frac::from_int(2))));
    assert_eq!(camera.view_box, before_box);
    assert_eq!(camera.timestamp(), t0 + 1);
}

#[test]
fn zoom_is_clamped() {
    let mut camera = sample_camera();
    assert!(camera.set_zoom(Frac::from_int(10_000_000), int_point(1, 1)));
    assert!(camera.zoom().rat_eq(&Frac::from_int(1_000_000)));
    assert!(camera.set_zoom(Frac::zero(), int_point(1, 1)));
    assert!(camera.zoom().rat_eq(&fr(1, 10_000_000)));
}

#[test]
fn clip_matrix_layout() {
    let camera = sample_camera();
    let m = camera.clip_matrix();
    assert_eq!(m.len(), 16);
    assert!(m[0].rat_eq(&camera.world_to_clip.sx));
    assert!(m[5].rat_eq(&camera.world_to_clip.sy));
    assert!(m[12].rat_eq(&camera.world_to_clip.tx));
    assert!(m[13].rat_eq(&camera.world_to_clip.ty));
    assert!(m[10].rat_eq(&Frac::one()));
    assert!(m[15].rat_eq(&Frac::one()));
    assert!(m[1].rat_eq(&Frac::zero()));
}
