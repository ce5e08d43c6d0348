//! The scroll/zoom accumulator: a sequence of wheel deltas, partitioned
//! into gesture phases, becomes a single multiplicative zoom scale
//! relative to the gesture's start.

use vstd::prelude::*;
use vstd::arithmetic::div_mod::lemma_div_by_self;
use crate::frac::{gcd, reduced, Frac, Ratio};
use crate::geometry::{Point, Size};
use crate::navigation::{NavigationEvent, ZoomEvent};

verus! {

/// A wheel delta: line-based or pixel-based; both accumulate the same way.
#[derive(Clone, Copy, Debug)]
pub enum ScrollDelta {
    Line { x: Frac, y: Frac },
    Pixel { x: Frac, y: Frac },
}

impl ScrollDelta {
    pub open spec fn wf(self) -> bool {
        match self {
            ScrollDelta::Line { x, y } => x.wf() && y.wf(),
            ScrollDelta::Pixel { x, y } => x.wf() && y.wf(),
        }
    }
}

/// Progress of one continuous wheel gesture.
#[derive(Clone, Copy, Debug, PartialEq, Eq, Structural)]
pub enum TouchPhase {
    Started,
    Moved,
    Ended,
    Cancelled,
}

/// Running accumulated scroll offset plus per-axis normalization factors
/// (`1/width`, `1/height`) so a full-screen-height scroll gives a fixed
/// zoom range regardless of window size.
#[derive(Clone, Copy, Debug, PartialEq, Eq, Structural)]
pub struct ScrollControl {
    pub scroll: Point,
    pub sx: Frac,
    pub sy: Frac,
}

impl ScrollControl {
    pub open spec fn wf(self) -> bool {
        self.scroll.wf() && self.sx.wf() && self.sy.wf()
    }

    /// The freshly-created accumulator: zero offset, unit factors.
    pub open spec fn initial() -> ScrollControl {
        ScrollControl {
            scroll: Point { x: Frac { num: 0, den: 1 }, y: Frac { num: 0, den: 1 } },
            sx: Frac { num: 1, den: 1 },
            sy: Frac { num: 1, den: 1 },
        }
    }

    /// The accumulator with its offset cleared.
    pub open spec fn spec_reset(s: ScrollControl) -> ScrollControl {
        ScrollControl {
            scroll: Point { x: Frac { num: 0, den: 1 }, y: Frac { num: 0, den: 1 } },
            sx: s.sx,
            sy: s.sy,
        }
    }

    /// The normalization factors for a screen size: `(1/w, 1/h)`, when
    /// the size is nonzero and the factors are representable.
    pub open spec fn spec_factors(size: Size) -> Option<(Frac, Frac)> {
        if size.width.num == 0 || size.height.num == 0 {
            None
        } else {
            match (
                (Frac { num: 1, den: 1 }).spec_div(size.width),
                (Frac { num: 1, den: 1 }).spec_div(size.height),
            ) {
                (Some(sx), Some(sy)) => Some((sx, sy)),
                _ => None,
            }
        }
    }

    /// Both deltas subtract from the running offset (scrolling one way
    /// accumulates the opposite sign); an unrepresentable exact offset
    /// leaves the accumulator unchanged.
    pub open spec fn spec_accumulate(s: ScrollControl, delta: ScrollDelta) -> ScrollControl {
        let d = match delta {
            ScrollDelta::Line { x, y } => Point { x, y },
            ScrollDelta::Pixel { x, y } => Point { x, y },
        };
        match s.scroll.spec_sub(d) {
            Some(scroll) => ScrollControl { scroll, sx: s.sx, sy: s.sy },
            None => s,
        }
    }

    /// The zoom scale of the current offset:
    /// `max(1 + sy * scroll.y, 1/100)`, with a neutral `1` when the exact
    /// intermediate cannot be represented.
    pub open spec fn spec_value(s: ScrollControl) -> Frac {
        let one = Frac { num: 1, den: 1 };
        let floor = Frac { num: 1, den: 100 };
        match s.sy.spec_mul(s.scroll.y) {
            Some(m) => match one.spec_add(m) {
                Some(v) => if v@.lt(floor@) {
                    floor
                } else {
                    v
                },
                None => one,
            },
            None => one,
        }
    }

    /// One wheel event: the next accumulator state and the emitted event.
    ///
    /// `Started` resets then applies the delta; `Moved`/`Ended` apply it;
    /// `Cancelled` drops the delta, resets, and reports the scale of the
    /// reset accumulator, which is exactly `1` (no net zoom).
    pub open spec fn spec_on_scroll(
        s: ScrollControl,
        delta: ScrollDelta,
        phase: TouchPhase,
        cursor: Point,
    ) -> (ScrollControl, NavigationEvent) {
        match phase {
            TouchPhase::Started => {
                let s1 = Self::spec_accumulate(Self::spec_reset(s), delta);
                (
                    s1,
                    NavigationEvent::StartZoom(
                        ZoomEvent { scale: Self::spec_value(s1), cursor },
                    ),
                )
            },
            TouchPhase::Moved => {
                let s1 = Self::spec_accumulate(s, delta);
                (
                    s1,
                    NavigationEvent::ProcessZoom(
                        ZoomEvent { scale: Self::spec_value(s1), cursor },
                    ),
                )
            },
            TouchPhase::Ended => {
                let s1 = Self::spec_accumulate(s, delta);
                (
                    s1,
                    NavigationEvent::EndZoom(ZoomEvent { scale: Self::spec_value(s1), cursor }),
                )
            },
            TouchPhase::Cancelled => {
                let s1 = Self::spec_reset(s);
                (
                    s1,
                    NavigationEvent::CancelZoom(
                        ZoomEvent { scale: Self::spec_value(s1), cursor },
                    ),
                )
            },
        }
    }

    pub fn new() -> (r: ScrollControl)
        ensures
            r == Self::initial(),
            r.wf(),
    {
        ScrollControl {
            scroll: Point { x: Frac::zero(), y: Frac::zero() },
            sx: Frac::one(),
            sy: Frac::one(),
        }
    }

    /// Adopt a new screen size's normalization factors; the accumulated
    /// offset is kept. A zero or unrepresentable size changes nothing.
    pub fn update_size(&mut self, size: &Size) -> (r: bool)
        requires
            old(self).wf(),
            size.wf(),
        ensures
            final(self).wf(),
            r <==> Self::spec_factors(*size) is Some,
            r ==> *final(self) == (ScrollControl {
                scroll: old(self).scroll,
                sx: Self::spec_factors(*size)->Some_0.0,
                sy: Self::spec_factors(*size)->Some_0.1,
            }),
            !r ==> *final(self) == *old(self),
    {
        if size.width.num == 0 || size.height.num == 0 {
            return false;
        }
        let one = Frac::one();
        let sx = match one.div(&size.width) {
            Some(v) => v,
            None => {
                return false;
            },
        };
        let sy = match one.div(&size.height) {
            Some(v) => v,
            None => {
                return false;
            },
        };
        self.sx = sx;
        self.sy = sy;
        true
    }

    /// Subtract the delta from the running offset.
    fn accumulate(&mut self, delta: &ScrollDelta)
        requires
            old(self).wf(),
            delta.wf(),
        ensures
            final(self).wf(),
            *final(self) == Self::spec_accumulate(*old(self), *delta),
    {
        let d = match delta {
            ScrollDelta::Line { x, y } => Point { x: *x, y: *y },
            ScrollDelta::Pixel { x, y } => Point { x: *x, y: *y },
        };
        match self.scroll.sub(&d) {
            Some(scroll) => {
                self.scroll = scroll;
            },
            None => {},
        }
    }

    /// The zoom scale of the current offset.
    fn value(&self) -> (r: Frac)
        requires
            self.wf(),
        ensures
            r == Self::spec_value(*self),
            r.wf(),
    {
        let one = Frac::one();
        let floor = Frac { num: 1, den: 100 };
        match self.sy.mul(&self.scroll.y) {
            Some(m) => match one.add(&m) {
                Some(v) => v.max(&floor),
                None => one,
            },
            None => one,
        }
    }

    /// Feed one wheel event into the accumulator and emit the zoom event
    /// for the camera.
    pub fn on_scroll(&mut self, delta: &ScrollDelta, phase: TouchPhase, cursor: Point) -> (r:
        NavigationEvent)
        requires
            old(self).wf(),
            delta.wf(),
            cursor.wf(),
        ensures
            final(self).wf(),
            (*final(self), r) == Self::spec_on_scroll(*old(self), *delta, phase, cursor),
    {
        match phase {
            TouchPhase::Started => {
                self.scroll = Point { x: Frac::zero(), y: Frac::zero() };
                self.accumulate(delta);
                let scale = self.value();
                NavigationEvent::StartZoom(ZoomEvent { scale, cursor })
            },
            TouchPhase::Moved => {
                self.accumulate(delta);
                let scale = self.value();
                NavigationEvent::ProcessZoom(ZoomEvent { scale, cursor })
            },
            TouchPhase::Ended => {
                self.accumulate(delta);
                let scale = self.value();
                NavigationEvent::EndZoom(ZoomEvent { scale, cursor })
            },
            TouchPhase::Cancelled => {
                self.scroll = Point { x: Frac::zero(), y: Frac::zero() };
                let scale = self.value();
                NavigationEvent::CancelZoom(ZoomEvent { scale, cursor })
            },
        }
    }
}

/// The scale of a cleared accumulator is exactly one.
pub proof fn lemma_reset_scale_is_one(s: ScrollControl)
    requires
        s.wf(),
    ensures
        ScrollControl::spec_value(ScrollControl::spec_reset(s)) == (Frac { num: 1, den: 1 }),
{
    let d = s.sy.den as nat;
    assert(0nat % d == 0) by (nonlinear_arith)
        requires
            d > 0,
    ;
    assert(gcd(0, d) == gcd(d, 0));
    assert(gcd(d, 0) == d);
    lemma_div_by_self(d as int);
    assert(0int / (d as int) == 0) by (nonlinear_arith)
        requires
            d > 0,
    ;
    let r0 = Ratio { n: (s.sy.num as int) * 0, d: (s.sy.den as int) * 1 };
    assert(r0.n == 0 && r0.d == d);
    assert(reduced(r0) == Some(Frac { num: 0, den: 1 }));
    let sum = (Ratio { n: 1, d: 1 }).add(Ratio { n: 0, d: 1 });
    assert(sum.n == 1 && sum.d == 1);
    assert(gcd(1, 1) == gcd(1, 0));
    assert(gcd(1nat, 0nat) == 1);
    assert(1int / 1 == 1);
    assert(reduced(sum) == Some(Frac { num: 1, den: 1 }));
}

/// Scroll-phase reset law: whatever deltas were accumulated before, a
/// `Cancelled` phase clears the offset and reports an effective scale of
/// exactly one: no net zoom.
pub proof fn lemma_cancel_resets(s: ScrollControl, delta: ScrollDelta, cursor: Point)
    requires
        s.wf(),
    ensures
        ({
            let (s1, ev) = ScrollControl::spec_on_scroll(s, delta, TouchPhase::Cancelled, cursor);
            s1 == ScrollControl::spec_reset(s) && ev == NavigationEvent::CancelZoom(
                ZoomEvent { scale: Frac { num: 1, den: 1 }, cursor },
            )
        }),
{
    lemma_reset_scale_is_one(s);
}


} // verus!
