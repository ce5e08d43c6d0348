//! The verified heart of the painter: it owns the camera and the gesture
//! bookkeeping (zoom at gesture start, drag anchor, stroke width in
//! pixels) and applies semantic navigation events to the camera. The
//! GPU-facing half of a painter delegates here.

use vstd::prelude::*;
use crate::camera::{spec_set_zoom, spec_transforms, OrthoNoRotCamera};
use crate::frac::Frac;
use crate::geometry::{Point, Rect, Size};
use crate::navigation::NavigationEvent;

verus! {

/// Well-formedness of the rationals an event carries.
pub open spec fn event_wf(event: NavigationEvent) -> bool {
    match event {
        NavigationEvent::StartZoom(z) | NavigationEvent::ProcessZoom(z)
            | NavigationEvent::EndZoom(z) | NavigationEvent::CancelZoom(z) => z.scale.wf()
            && z.cursor.wf(),
        NavigationEvent::StartDragged(d) | NavigationEvent::EndDragged(d)
            | NavigationEvent::MoveDragged(d) => d.start.wf() && d.current.wf(),
    }
}

/// The camera after a zoom-to-cursor request for `target`, plus whether
/// the view actually changed (the timestamp moves either way).
pub open spec fn spec_apply_zoom(cam: OrthoNoRotCamera, target: Frac, cursor: Point) -> (
    OrthoNoRotCamera,
    bool,
) {
    match spec_set_zoom(cam.screen, cam.view_box, cam.screen_to_world, target, cursor) {
        Some(t) => (
            OrthoNoRotCamera {
                screen: cam.screen,
                view_box: t.1,
                zoom: t.0,
                screen_to_world: t.2,
                world_to_clip: t.3,
                timestamp: (cam.timestamp + 2) as usize,
            },
            true,
        ),
        None => (OrthoNoRotCamera { timestamp: (cam.timestamp + 2) as usize, ..cam }, false),
    }
}

/// The camera after a pan to `position`.
pub open spec fn spec_apply_move(cam: OrthoNoRotCamera, position: Point) -> (
    OrthoNoRotCamera,
    bool,
) {
    let moved = Rect { center: position, size: cam.view_box.size };
    match spec_transforms(cam.screen, moved, cam.zoom) {
        Some(t) => (
            OrthoNoRotCamera {
                screen: cam.screen,
                view_box: moved,
                zoom: cam.zoom,
                screen_to_world: t.0,
                world_to_clip: t.1,
                timestamp: (cam.timestamp + 1) as usize,
            },
            true,
        ),
        None => (OrthoNoRotCamera { timestamp: (cam.timestamp + 1) as usize, ..cam }, false),
    }
}

/// Camera plus gesture bookkeeping.
#[derive(Clone, Copy, Debug)]
pub struct PainterCore {
    pub camera: OrthoNoRotCamera,
    pub start_zoom: Frac,
    pub start_dragged: Point,
    pub stroke_width: Frac,
}

impl PainterCore {
    pub open spec fn wf(self) -> bool {
        self.camera.wf() && self.start_zoom.wf() && self.start_dragged.wf()
            && self.stroke_width.wf()
    }

    /// Wrap a camera with fresh gesture state and a 2-pixel stroke width.
    pub fn new(camera: OrthoNoRotCamera) -> (r: PainterCore)
        requires
            camera.wf(),
        ensures
            r.wf(),
            r.camera == camera,
            r.start_zoom == (Frac { num: 1, den: 1 }),
            r.start_dragged == (Point {
                x: Frac { num: 0, den: 1 },
                y: Frac { num: 0, den: 1 },
            }),
            r.stroke_width == (Frac { num: 2, den: 1 }),
    {
        PainterCore {
            camera,
            start_zoom: Frac::one(),
            start_dragged: Point::zero(),
            stroke_width: Frac { num: 2, den: 1 },
        }
    }

    /// The window was resized: refit the camera.
    pub fn update_size(&mut self, size: Size) -> (r: bool)
        requires
            old(self).wf(),
            size.wf(),
            old(self).camera.timestamp < usize::MAX,
        ensures
            final(self).wf(),
            final(self).camera.timestamp == old(self).camera.timestamp + 1,
            r <==> spec_transforms(size, old(self).camera.view_box, old(self).camera.zoom)
                is Some,
            r ==> final(self).camera.screen == size,
            !r ==> final(self).camera.screen == old(self).camera.screen,
            final(self).camera.view_box == old(self).camera.view_box,
            final(self).camera.zoom == old(self).camera.zoom,
            final(self).start_zoom == old(self).start_zoom,
            final(self).start_dragged == old(self).start_dragged,
            final(self).stroke_width == old(self).stroke_width,
    {
        self.camera.set_screen(size)
    }

    /// The configured pixel stroke width in world units, under the current
    /// transform.
    pub fn stroke_world_width(&self) -> (r: Option<Frac>)
        requires
            self.wf(),
        ensures
            r == self.camera.screen_to_world.sx.spec_mul(self.stroke_width),
            r matches Some(v) ==> v.wf(),
    {
        self.camera.convert_size_screen_to_world(&self.stroke_width)
    }

    /// Apply one navigation event to the camera.
    ///
    /// Zoom events multiply the zoom captured at gesture start by the
    /// event's relative scale and zoom to the cursor; drag events pan
    /// from the world position captured when the drag began. Returns
    /// whether the event was applied in full; an unrepresentable exact
    /// intermediate leaves the camera's view unchanged.
    pub fn navigation_event(&mut self, event: &NavigationEvent) -> (r: bool)
        requires
            old(self).wf(),
            event_wf(*event),
            old(self).camera.timestamp < usize::MAX - 1,
        ensures
            final(self).wf(),
            final(self).stroke_width == old(self).stroke_width,
            match *event {
                NavigationEvent::StartZoom(z) => {
                    &&& final(self).start_zoom == old(self).camera.zoom
                    &&& final(self).start_dragged == old(self).start_dragged
                    &&& match old(self).camera.zoom.spec_mul(z.scale) {
                        Some(target) => (final(self).camera, r) == spec_apply_zoom(
                            old(self).camera,
                            target,
                            z.cursor,
                        ),
                        None => final(self).camera == old(self).camera && !r,
                    }
                },
                NavigationEvent::ProcessZoom(z) | NavigationEvent::EndZoom(z)
                    | NavigationEvent::CancelZoom(z) => {
                    &&& final(self).start_zoom == old(self).start_zoom
                    &&& final(self).start_dragged == old(self).start_dragged
                    &&& match old(self).start_zoom.spec_mul(z.scale) {
                        Some(target) => (final(self).camera, r) == spec_apply_zoom(
                            old(self).camera,
                            target,
                            z.cursor,
                        ),
                        None => final(self).camera == old(self).camera && !r,
                    }
                },
                NavigationEvent::StartDragged(d) => {
                    &&& final(self).camera == old(self).camera
                    &&& final(self).start_zoom == old(self).start_zoom
                    &&& final(self).start_dragged == old(self).camera.view_box.center
                    &&& r
                },
                NavigationEvent::EndDragged(d) => {
                    &&& *final(self) == *old(self)
                    &&& r
                },
                NavigationEvent::MoveDragged(d) => {
                    &&& final(self).start_zoom == old(self).start_zoom
                    &&& final(self).start_dragged == old(self).start_dragged
                    &&& match d.start.spec_sub(d.current) {
                        Some(delta) => match old(
                            self,
                        ).camera.screen_to_world.spec_transform_vector(delta) {
                            Some(wdelta) => match old(self).start_dragged.spec_add(wdelta) {
                                Some(position) => (final(self).camera, r) == spec_apply_move(
                                    old(self).camera,
                                    position,
                                ),
                                None => final(self).camera == old(self).camera && !r,
                            },
                            None => final(self).camera == old(self).camera && !r,
                        },
                        None => final(self).camera == old(self).camera && !r,
                    }
                },
            },
    {
        match event {
            NavigationEvent::StartZoom(z) => {
                self.start_zoom = self.camera.zoom();
                match self.start_zoom.mul(&z.scale) {
                    Some(target) => self.camera.set_zoom(target, z.cursor),
                    None => false,
                }
            },
            NavigationEvent::ProcessZoom(z) | NavigationEvent::EndZoom(z)
                | NavigationEvent::CancelZoom(z) => {
                match self.start_zoom.mul(&z.scale) {
                    Some(target) => self.camera.set_zoom(target, z.cursor),
                    None => false,
                }
            },
            NavigationEvent::StartDragged(_d) => {
                self.start_dragged = self.camera.world_position();
                true
            },
            NavigationEvent::EndDragged(_d) => true,
            NavigationEvent::MoveDragged(d) => {
                let delta = match d.start.sub(&d.current) {
                    Some(v) => v,
                    None => {
                        return false;
                    },
                };
                let wdelta = match self.camera.convert_vector_screen_to_world(&delta) {
                    Some(v) => v,
                    None => {
                        return false;
                    },
                };
                let position = match self.start_dragged.add(&wdelta) {
                    Some(v) => v,
                    None => {
                        return false;
                    },
                };
                self.camera.move_to(position)
            },
        }
    }
}

} // verus!
