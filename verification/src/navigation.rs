//! The input state machine: raw pointer/wheel events become semantic
//! navigation events. State is minimal: current cursor, left-button flag,
//! drag anchor, and the nested scroll accumulator.

use vstd::prelude::*;
use crate::frac::Frac;
use crate::geometry::{Point, Size};
use crate::scroll::{ScrollControl, ScrollDelta, TouchPhase};

verus! {

/// A zoom intent: scale relative to the gesture's start, anchored at the
/// cursor.
#[derive(Clone, Copy, Debug)]
pub struct ZoomEvent {
    pub scale: Frac,
    pub cursor: Point,
}

/// A drag intent: where the drag started and where the pointer is now.
#[derive(Clone, Copy, Debug)]
pub struct DraggedEvent {
    pub start: Point,
    pub current: Point,
}

/// Semantic navigation events, carrying enough to reproduce the gesture
/// without querying controller state.
#[derive(Clone, Copy, Debug)]
pub enum NavigationEvent {
    StartZoom(ZoomEvent),
    ProcessZoom(ZoomEvent),
    EndZoom(ZoomEvent),
    CancelZoom(ZoomEvent),
    StartDragged(DraggedEvent),
    EndDragged(DraggedEvent),
    MoveDragged(DraggedEvent),
}

/// Pressed or released, for a pointer button.
#[derive(Clone, Copy, Debug, PartialEq, Eq, Structural)]
pub enum ElementState {
    Pressed,
    Released,
}

/// The pointer button a press/release event concerns.
#[derive(Clone, Copy, Debug, PartialEq, Eq, Structural)]
pub enum MouseButton {
    Left,
    Right,
    Middle,
    Back,
    Forward,
    Other,
}

/// The closed set of raw input events the controller understands; anything
/// else is `Other` and produces no navigation event.
#[derive(Clone, Copy, Debug)]
pub enum InputEvent {
    MouseWheel { delta: ScrollDelta, phase: TouchPhase },
    CursorMoved { position: Point },
    MouseInput { state: ElementState, button: MouseButton },
    Other,
}

impl InputEvent {
    pub open spec fn wf(self) -> bool {
        match self {
            InputEvent::MouseWheel { delta, phase } => delta.wf(),
            InputEvent::CursorMoved { position } => position.wf(),
            InputEvent::MouseInput { state, button } => true,
            InputEvent::Other => true,
        }
    }
}

/// The top-level input state machine.
#[derive(Clone, Copy, Debug)]
pub struct NavigationControl {
    pub size: Size,
    pub cursor: Point,
    pub scroll_control: ScrollControl,
    pub start_dragged: Point,
    pub is_left_mouse_pressed: bool,
}

impl NavigationControl {
    pub open spec fn wf(self) -> bool {
        self.size.wf() && self.cursor.wf() && self.scroll_control.wf()
            && self.start_dragged.wf()
    }

    pub fn new() -> (r: NavigationControl)
        ensures
            r.wf(),
            r.size == (Size { width: Frac { num: 1, den: 1 }, height: Frac { num: 1, den: 1 } }),
            r.cursor == (Point { x: Frac { num: 0, den: 1 }, y: Frac { num: 0, den: 1 } }),
            r.start_dragged == (Point {
                x: Frac { num: 0, den: 1 },
                y: Frac { num: 0, den: 1 },
            }),
            !r.is_left_mouse_pressed,
            r.scroll_control == ScrollControl::initial(),
    {
        NavigationControl {
            size: Size { width: Frac::one(), height: Frac::one() },
            cursor: Point::zero(),
            scroll_control: ScrollControl::new(),
            start_dragged: Point::zero(),
            is_left_mouse_pressed: false,
        }
    }

    /// A new window size: the cursor resets to the screen center and the
    /// scroll accumulator adopts the new per-axis normalization. On an
    /// unrepresentable intermediate nothing changes.
    pub fn update_size(&mut self, size: Size) -> (r: bool)
        requires
            old(self).wf(),
            size.wf(),
        ensures
            final(self).wf(),
            r <==> (Self::spec_center(size) is Some && ScrollControl::spec_factors(
                size,
            ) is Some),
            r ==> final(self).size == size && Some(final(self).cursor) == Self::spec_center(
                size,
            ) && final(self).scroll_control == (ScrollControl {
                scroll: old(self).scroll_control.scroll,
                sx: ScrollControl::spec_factors(size)->Some_0.0,
                sy: ScrollControl::spec_factors(size)->Some_0.1,
            }),
            !r ==> *final(self) == *old(self),
            final(self).start_dragged == old(self).start_dragged,
            final(self).is_left_mouse_pressed == old(self).is_left_mouse_pressed,
    {
        let h = crate::geometry::Rect::half();
        let cx = match size.width.mul(&h) {
            Some(v) => v,
            None => {
                return false;
            },
        };
        let cy = match size.height.mul(&h) {
            Some(v) => v,
            None => {
                return false;
            },
        };
        let mut sc = self.scroll_control;
        if !sc.update_size(&size) {
            return false;
        }
        self.size = size;
        self.cursor = Point { x: cx, y: cy };
        self.scroll_control = sc;
        true
    }

    /// The screen center: half the size on each axis.
    pub open spec fn spec_center(size: Size) -> Option<Point> {
        match (
            size.width.spec_mul(crate::geometry::Rect::spec_half()),
            size.height.spec_mul(crate::geometry::Rect::spec_half()),
        ) {
            (Some(x), Some(y)) => Some(Point { x, y }),
            _ => None,
        }
    }

    /// Process one raw input event, returning at most one navigation event.
    ///
    /// Pointer moves update the cursor and, during a drag, emit
    /// `MoveDragged`; a left press starts a drag, a left release ends it;
    /// wheel events go to the scroll accumulator; everything else is
    /// silently ignored.
    pub fn process_event(&mut self, event: InputEvent) -> (r: Option<NavigationEvent>)
        requires
            old(self).wf(),
            event.wf(),
        ensures
            final(self).wf(),
            final(self).size == old(self).size,
            match event {
                InputEvent::MouseWheel { delta, phase } => {
                    let (sc, ev) = ScrollControl::spec_on_scroll(
                        old(self).scroll_control,
                        delta,
                        phase,
                        old(self).cursor,
                    );
                    &&& final(self).scroll_control == sc
                    &&& final(self).cursor == old(self).cursor
                    &&& final(self).start_dragged == old(self).start_dragged
                    &&& final(self).is_left_mouse_pressed == old(self).is_left_mouse_pressed
                    &&& r == Some(ev)
                },
                InputEvent::CursorMoved { position } => {
                    &&& final(self).cursor == position
                    &&& final(self).scroll_control == old(self).scroll_control
                    &&& final(self).start_dragged == old(self).start_dragged
                    &&& final(self).is_left_mouse_pressed == old(self).is_left_mouse_pressed
                    &&& (old(self).is_left_mouse_pressed ==> r == Some(
                        NavigationEvent::MoveDragged(
                            DraggedEvent { start: old(self).start_dragged, current: position },
                        ),
                    ))
                    &&& (!old(self).is_left_mouse_pressed ==> r is None)
                },
                InputEvent::MouseInput { state, button } => {
                    if button != MouseButton::Left {
                        &&& *final(self) == *old(self)
                        &&& r is None
                    } else if state == ElementState::Pressed {
                        &&& final(self).is_left_mouse_pressed
                        &&& final(self).start_dragged == old(self).cursor
                        &&& final(self).cursor == old(self).cursor
                        &&& final(self).scroll_control == old(self).scroll_control
                        &&& r == Some(
                            NavigationEvent::StartDragged(
                                DraggedEvent {
                                    start: old(self).cursor,
                                    current: old(self).cursor,
                                },
                            ),
                        )
                    } else {
                        &&& !final(self).is_left_mouse_pressed
                        &&& final(self).start_dragged == old(self).start_dragged
                        &&& final(self).cursor == old(self).cursor
                        &&& final(self).scroll_control == old(self).scroll_control
                        &&& r == Some(
                            NavigationEvent::EndDragged(
                                DraggedEvent {
                                    start: old(self).start_dragged,
                                    current: old(self).cursor,
                                },
                            ),
                        )
                    }
                },
                InputEvent::Other => {
                    &&& *final(self) == *old(self)
                    &&& r is None
                },
            },
    {
        match event {
            InputEvent::MouseWheel { delta, phase } => {
                let cursor = self.cursor;
                Some(self.scroll_control.on_scroll(&delta, phase, cursor))
            },
            InputEvent::CursorMoved { position } => {
                self.cursor = position;
                if self.is_left_mouse_pressed {
                    Some(
                        NavigationEvent::MoveDragged(
                            DraggedEvent { start: self.start_dragged, current: self.cursor },
                        ),
                    )
                } else {
                    None
                }
            },
            InputEvent::MouseInput { state, button } => {
                if button != MouseButton::Left {
                    return None;
                }
                match state {
                    ElementState::Pressed => {
                        self.start_dragged = self.cursor;
                        self.is_left_mouse_pressed = true;
                        Some(
                            NavigationEvent::StartDragged(
                                DraggedEvent { start: self.start_dragged, current: self.cursor },
                            ),
                        )
                    },
                    ElementState::Released => {
                        self.is_left_mouse_pressed = false;
                        Some(
                            NavigationEvent::EndDragged(
                                DraggedEvent { start: self.start_dragged, current: self.cursor },
                            ),
                        )
                    },
                }
            },
            InputEvent::Other => None,
        }
    }
}

} // verus!
