//! The orthographic, non-rotating camera.
//!
//! It owns a screen size, a world-space view box and a zoom factor, and
//! derives two affine transforms: screen-to-world (y flipped) and
//! world-to-clip. The fit policy maps the zoom-scaled view box into the
//! screen with uniform scale on both axes, the constrained axis exactly
//! 1:1 and the other centered; the branch comparison is strict, so a
//! tied aspect ratio takes the vertical branch (where both axes are
//! exact).
//!
//! Every mutation recomputes both transforms and bumps a timestamp that
//! an external renderer uses as a cheap dirty flag. All arithmetic is
//! exact; a mutation whose exact result cannot be represented leaves the
//! camera's view unchanged (only the timestamp moves), so the stored
//! transforms always match the stored parameters.

use vstd::prelude::*;
use crate::frac::{
    frac_is, lemma_add_assoc, lemma_add_congruence, lemma_add_is, lemma_add_neg,
    lemma_add_of_diff, lemma_div_is, lemma_div_mul_cancel, lemma_eq_trans, lemma_le_add_left,
    lemma_le_neg, lemma_lt_congruence, lemma_mul_congruence, lemma_mul_is, lemma_mul_lt_cancel,
    lemma_div_cancel_factor, lemma_div_congruence, lemma_div_le_one, lemma_div_mul_exchange,
    lemma_div_self,
    lemma_neg_add_restore, lemma_neg_is, lemma_neg_mul, lemma_ratio_mul_assoc,
    lemma_two_halves,
    lemma_ratio_mul_comm, lemma_ratio_ops_wf, lemma_shift_halves_down, lemma_shift_halves_up,
    lemma_shift_sub, lemma_sub_as_add_neg, lemma_sub_congruence, lemma_sub_is, lemma_swap_add,
    Frac, Ratio,
};
use crate::geometry::{Point, Rect, Size};
use crate::transform::{OrthoNoRotTransformer, XformV};

verus! {

/// Spec-level camera parameters.
pub ghost struct CameraV {
    pub screen: crate::geometry::SizeV,
    pub view_box: crate::geometry::RectV,
    pub zoom: Ratio,
}

impl CameraV {
    pub open spec fn wf(self) -> bool {
        self.screen.w.wf() && self.screen.h.wf() && self.view_box.center.x.wf()
            && self.view_box.center.y.wf() && self.view_box.size.w.wf()
            && self.view_box.size.h.wf() && self.zoom.wf()
    }

    /// Screen and view box have positive extents and the zoom is positive:
    /// the transforms are then well defined.
    pub open spec fn usable(self) -> bool {
        self.screen.w.n > 0 && self.screen.h.n > 0 && self.view_box.size.w.n > 0
            && self.view_box.size.h.n > 0 && self.zoom.n > 0
    }

    /// The fit takes the horizontal branch only when the view box is
    /// strictly wider, relative to the screen, than it is tall; a tie
    /// falls to the vertical branch.
    pub open spec fn horizontal(self) -> bool {
        self.screen.w.mul(self.view_box.size.h).lt(self.screen.h.mul(self.view_box.size.w))
    }

    /// Width of the zoom-scaled view box.
    pub open spec fn zw(self) -> Ratio {
        self.zoom.mul(self.view_box.size.w)
    }

    /// Height of the zoom-scaled view box.
    pub open spec fn zh(self) -> Ratio {
        self.zoom.mul(self.view_box.size.h)
    }

    /// World units per screen pixel: the constrained axis maps 1:1.
    pub open spec fn scale(self) -> Ratio {
        if self.horizontal() {
            self.zw().div(self.screen.w)
        } else {
            self.zh().div(self.screen.h)
        }
    }

    pub open spec fn half() -> Ratio {
        Ratio { n: 1, d: 2 }
    }

    pub open spec fn two() -> Ratio {
        Ratio { n: 2, d: 1 }
    }

    /// Minimum x of the zoom-scaled view box.
    pub open spec fn min_x(self) -> Ratio {
        self.view_box.center.x.sub(self.zw().mul(Self::half()))
    }

    /// Minimum y of the zoom-scaled view box.
    pub open spec fn min_y(self) -> Ratio {
        self.view_box.center.y.sub(self.zh().mul(Self::half()))
    }

    /// Maximum x of the zoom-scaled view box.
    pub open spec fn max_x(self) -> Ratio {
        self.view_box.center.x.add(self.zw().mul(Self::half()))
    }

    /// Maximum y of the zoom-scaled view box.
    pub open spec fn max_y(self) -> Ratio {
        self.view_box.center.y.add(self.zh().mul(Self::half()))
    }

    /// The ideal screen-to-world transform: uniform scale `s` with the
    /// y axis flipped (screen y grows downward, world y upward), and the
    /// screen center mapped to the view box center on both axes, so the
    /// slack axis centers with equal margin.
    pub open spec fn ideal_s2w(self) -> XformV {
        let s = self.scale();
        XformV {
            sx: s,
            sy: s.neg(),
            tx: self.view_box.center.x.sub(s.mul(self.screen.w).mul(Self::half())),
            ty: self.view_box.center.y.add(s.mul(self.screen.h).mul(Self::half())),
        }
    }

    /// The ideal world-to-clip transform: maps the zoom-scaled view box
    /// into the `[-1, 1]` clip square, centered, uniform on both axes.
    pub open spec fn ideal_w2c(self) -> XformV {
        let sx = if self.horizontal() {
            Self::two().div(self.zw())
        } else {
            Self::two().mul(self.screen.h).div(self.zh().mul(self.screen.w))
        };
        let sy = if self.horizontal() {
            Self::two().mul(self.screen.w).div(self.zw().mul(self.screen.h))
        } else {
            Self::two().div(self.zh())
        };
        XformV {
            sx,
            sy,
            tx: sx.mul(self.view_box.center.x).neg(),
            ty: sy.mul(self.view_box.center.y).neg(),
        }
    }
}

/// The intermediate quantities that both transforms are derived from.
#[derive(Clone, Copy, Debug)]
pub struct FitData {
    pub horizontal: bool,
    pub zw: Frac,
    pub zh: Frac,
}

impl FitData {
    pub open spec fn wf(self) -> bool {
        self.zw.wf() && self.zh.wf()
    }
}

/// The camera parameters as a spec-level value.
pub open spec fn camera_v(screen: Size, view_box: Rect, zoom: Frac) -> CameraV {
    CameraV { screen: screen@, view_box: view_box@, zoom: zoom@ }
}

/// Checked computation of the fit data; `None` when an extent is not
/// positive or an exact intermediate does not fit.
pub open spec fn spec_fit_data(screen: Size, view_box: Rect, zoom: Frac) -> Option<FitData> {
    if !camera_v(screen, view_box, zoom).usable() {
        None
    } else {
        match (screen.width.spec_mul(view_box.size.height), screen.height.spec_mul(
            view_box.size.width,
        )) {
            (Some(lhs), Some(rhs)) => match (zoom.spec_mul(view_box.size.width), zoom.spec_mul(
                view_box.size.height,
            )) {
                (Some(zw), Some(zh)) => Some(FitData { horizontal: lhs@.lt(rhs@), zw, zh }),
                _ => None,
            },
            _ => None,
        }
    }
}

/// Checked derivation of the screen-to-world transform from the fit
/// data: the screen center maps to the view box center on both axes.
pub open spec fn spec_s2w_from(screen: Size, view_box: Rect, fit: FitData) -> Option<
    OrthoNoRotTransformer,
> {
    let s_opt = if fit.horizontal {
        if screen.width.num == 0 {
            None
        } else {
            fit.zw.spec_div(screen.width)
        }
    } else {
        if screen.height.num == 0 {
            None
        } else {
            fit.zh.spec_div(screen.height)
        }
    };
    match s_opt {
        Some(s) => match (s.spec_mul(screen.width), s.spec_mul(screen.height)) {
            (Some(sw), Some(sh)) => match (
                sw.spec_mul(Rect::spec_half()),
                sh.spec_mul(Rect::spec_half()),
            ) {
                (Some(kx), Some(ky)) => match (
                    view_box.center.x.spec_sub(kx),
                    view_box.center.y.spec_add(ky),
                ) {
                    (Some(tx), Some(ty)) => Some(
                        OrthoNoRotTransformer { sx: s, sy: s.spec_neg(), tx, ty },
                    ),
                    _ => None,
                },
                _ => None,
            },
            _ => None,
        },
        None => None,
    }
}

/// Checked derivation of the world-to-clip transform from the fit data.
pub open spec fn spec_w2c_from(screen: Size, view_box: Rect, fit: FitData) -> Option<
    OrthoNoRotTransformer,
> {
    let two = Frac { num: 2, den: 1 };
    let sxy = if fit.horizontal {
        if fit.zw.num == 0 {
            None
        } else {
            match two.spec_div(fit.zw) {
                Some(sx) => match two.spec_mul(screen.width) {
                    Some(num) => match fit.zw.spec_mul(screen.height) {
                        Some(den) => if den.num == 0 {
                            None
                        } else {
                            match num.spec_div(den) {
                                Some(sy) => Some((sx, sy)),
                                None => None,
                            }
                        },
                        None => None,
                    },
                    None => None,
                },
                None => None,
            }
        }
    } else {
        if fit.zh.num == 0 {
            None
        } else {
            match two.spec_mul(screen.height) {
                Some(num) => match fit.zh.spec_mul(screen.width) {
                    Some(den) => if den.num == 0 {
                        None
                    } else {
                        match num.spec_div(den) {
                            Some(sx) => match two.spec_div(fit.zh) {
                                Some(sy) => Some((sx, sy)),
                                None => None,
                            },
                            None => None,
                        }
                    },
                    None => None,
                },
                None => None,
            }
        }
    };
    match sxy {
        Some((sx, sy)) => match (sx.spec_mul(view_box.center.x), sy.spec_mul(
            view_box.center.y,
        )) {
            (Some(mx), Some(my)) => Some(
                OrthoNoRotTransformer { sx, sy, tx: mx.spec_neg(), ty: my.spec_neg() },
            ),
            _ => None,
        },
        None => None,
    }
}

/// Checked computation of both transforms.
pub open spec fn spec_transforms(screen: Size, view_box: Rect, zoom: Frac) -> Option<
    (OrthoNoRotTransformer, OrthoNoRotTransformer),
> {
    match spec_fit_data(screen, view_box, zoom) {
        Some(fit) => match (
            spec_s2w_from(screen, view_box, fit),
            spec_w2c_from(screen, view_box, fit),
        ) {
            (Some(s2w), Some(w2c)) => Some((s2w, w2c)),
            _ => None,
        },
        None => None,
    }
}

/// The zoom clamp: factors are kept within a safe strictly-positive range
/// so the transforms never degenerate.
pub open spec fn spec_zoom_clamped(zoom: Frac) -> Frac {
    let lo = Frac { num: 1, den: 10_000_000 };
    let hi = Frac { num: 1_000_000, den: 1 };
    if zoom@.lt(lo@) {
        lo
    } else if hi@.lt(zoom@) {
        hi
    } else {
        zoom
    }
}

/// Checked zoom-to-cursor step: clamp, measure the cursor's world point
/// under the old transform, re-fit with the new zoom, measure again, and
/// translate the view box center by the anchor error.
pub open spec fn spec_set_zoom(
    screen: Size,
    view_box: Rect,
    s2w: OrthoNoRotTransformer,
    zoom: Frac,
    cursor: Point,
) -> Option<(Frac, Rect, OrthoNoRotTransformer, OrthoNoRotTransformer)> {
    let z = spec_zoom_clamped(zoom);
    match s2w.spec_transform(cursor) {
        Some(w0) => match spec_transforms(screen, view_box, z) {
            Some(mid) => match mid.0.spec_transform(cursor) {
                Some(w1) => match w0.spec_sub(w1) {
                    Some(delta) => match view_box.center.spec_add(delta) {
                        Some(center) => {
                            let moved = Rect { center, size: view_box.size };
                            match spec_transforms(screen, moved, z) {
                                Some(fin) => Some((z, moved, fin.0, fin.1)),
                                None => None,
                            }
                        },
                        None => None,
                    },
                    None => None,
                },
                None => None,
            },
            None => None,
        },
        None => None,
    }
}

/// The camera: parameters, both derived transforms, and the change
/// timestamp the renderer polls.
#[derive(Clone, Copy, Debug)]
pub struct OrthoNoRotCamera {
    pub screen: Size,
    pub view_box: Rect,
    pub zoom: Frac,
    pub screen_to_world: OrthoNoRotTransformer,
    pub world_to_clip: OrthoNoRotTransformer,
    pub timestamp: usize,
}

impl OrthoNoRotCamera {
    /// Everything well formed, the zoom positive, and the stored
    /// transforms exactly those derived from the stored parameters.
    pub open spec fn wf(self) -> bool {
        self.screen.wf() && self.view_box.wf() && self.zoom.wf() && self.zoom@.n > 0
            && self.screen_to_world.wf() && self.world_to_clip.wf() && spec_transforms(
            self.screen,
            self.view_box,
            self.zoom,
        ) == Some((self.screen_to_world, self.world_to_clip))
    }

    /// The camera's parameters as a spec-level value.
    pub open spec fn v(self) -> CameraV {
        camera_v(self.screen, self.view_box, self.zoom)
    }

    /// A camera fitted to the given screen and view box at zoom 1;
    /// `None` exactly when the pair is degenerate or does not fit.
    pub fn new(screen: Size, view_box: Rect) -> (r: Option<OrthoNoRotCamera>)
        requires
            screen.wf(),
            view_box.wf(),
        ensures
            r is Some <==> spec_transforms(screen, view_box, Frac { num: 1, den: 1 }) is Some,
            r matches Some(c) ==> c.wf() && c.screen == screen && c.view_box == view_box
                && c.zoom == (Frac { num: 1, den: 1 }) && c.timestamp == 1,
    {
        let zoom = Frac::one();
        match Self::try_transforms(&screen, &view_box, &zoom) {
            Some((screen_to_world, world_to_clip)) => Some(
                OrthoNoRotCamera {
                    screen,
                    view_box,
                    zoom,
                    screen_to_world,
                    world_to_clip,
                    timestamp: 1,
                },
            ),
            None => None,
        }
    }

    /// Both transforms for the given parameters, mirroring the checked
    /// spec computation step for step.
    fn try_transforms(screen: &Size, view_box: &Rect, zoom: &Frac) -> (r: Option<
        (OrthoNoRotTransformer, OrthoNoRotTransformer),
    >)
        requires
            screen.wf(),
            view_box.wf(),
            zoom.wf(),
        ensures
            r == spec_transforms(*screen, *view_box, *zoom),
            r matches Some(t) ==> t.0.wf() && t.1.wf(),
    {
        match Self::fit_data(screen, view_box, zoom) {
            Some(fit) => match (
                Self::s2w_from(screen, view_box, &fit),
                Self::w2c_from(screen, view_box, &fit),
            ) {
                (Some(s2w), Some(w2c)) => Some((s2w, w2c)),
                _ => None,
            },
            None => None,
        }
    }

    fn fit_data(screen: &Size, view_box: &Rect, zoom: &Frac) -> (r: Option<FitData>)
        requires
            screen.wf(),
            view_box.wf(),
            zoom.wf(),
        ensures
            r == spec_fit_data(*screen, *view_box, *zoom),
            r matches Some(fit) ==> fit.wf(),
    {
        let zero = Frac::zero();
        if !(zero.lt(&screen.width) && zero.lt(&screen.height) && zero.lt(&view_box.size.width)
            && zero.lt(&view_box.size.height) && zero.lt(zoom)) {
            return None;
        }
        let lhs = match screen.width.mul(&view_box.size.height) {
            Some(v) => v,
            None => {
                return None;
            },
        };
        let rhs = match screen.height.mul(&view_box.size.width) {
            Some(v) => v,
            None => {
                return None;
            },
        };
        let zw = match zoom.mul(&view_box.size.width) {
            Some(v) => v,
            None => {
                return None;
            },
        };
        let zh = match zoom.mul(&view_box.size.height) {
            Some(v) => v,
            None => {
                return None;
            },
        };
        Some(FitData { horizontal: lhs.lt(&rhs), zw, zh })
    }

    fn s2w_from(screen: &Size, view_box: &Rect, fit: &FitData) -> (r: Option<
        OrthoNoRotTransformer,
    >)
        requires
            screen.wf(),
            view_box.wf(),
            fit.wf(),
        ensures
            r == spec_s2w_from(*screen, *view_box, *fit),
            r matches Some(t) ==> t.wf(),
    {
        let s = if fit.horizontal {
            if screen.width.num == 0 {
                return None;
            }
            match fit.zw.div(&screen.width) {
                Some(v) => v,
                None => {
                    return None;
                },
            }
        } else {
            if screen.height.num == 0 {
                return None;
            }
            match fit.zh.div(&screen.height) {
                Some(v) => v,
                None => {
                    return None;
                },
            }
        };
        let sw = match s.mul(&screen.width) {
            Some(v) => v,
            None => {
                return None;
            },
        };
        let sh = match s.mul(&screen.height) {
            Some(v) => v,
            None => {
                return None;
            },
        };
        let half = Rect::half();
        let kx = match sw.mul(&half) {
            Some(v) => v,
            None => {
                return None;
            },
        };
        let ky = match sh.mul(&half) {
            Some(v) => v,
            None => {
                return None;
            },
        };
        let tx = match view_box.center.x.sub(&kx) {
            Some(v) => v,
            None => {
                return None;
            },
        };
        let ty = match view_box.center.y.add(&ky) {
            Some(v) => v,
            None => {
                return None;
            },
        };
        Some(OrthoNoRotTransformer { sx: s, sy: s.neg(), tx, ty })
    }

    fn w2c_from(screen: &Size, view_box: &Rect, fit: &FitData) -> (r: Option<
        OrthoNoRotTransformer,
    >)
        requires
            screen.wf(),
            view_box.wf(),
            fit.wf(),
        ensures
            r == spec_w2c_from(*screen, *view_box, *fit),
            r matches Some(t) ==> t.wf(),
    {
        let two = Frac { num: 2, den: 1 };
        let (sx, sy) = if fit.horizontal {
            if fit.zw.num == 0 {
                return None;
            }
            let sx = match two.div(&fit.zw) {
                Some(v) => v,
                None => {
                    return None;
                },
            };
            let num = match two.mul(&screen.width) {
                Some(v) => v,
                None => {
                    return None;
                },
            };
            let den = match fit.zw.mul(&screen.height) {
                Some(v) => v,
                None => {
                    return None;
                },
            };
            if den.num == 0 {
                return None;
            }
            let sy = match num.div(&den) {
                Some(v) => v,
                None => {
                    return None;
                },
            };
            (sx, sy)
        } else {
            if fit.zh.num == 0 {
                return None;
            }
            let num = match two.mul(&screen.height) {
                Some(v) => v,
                None => {
                    return None;
                },
            };
            let den = match fit.zh.mul(&screen.width) {
                Some(v) => v,
                None => {
                    return None;
                },
            };
            if den.num == 0 {
                return None;
            }
            let sx = match num.div(&den) {
                Some(v) => v,
                None => {
                    return None;
                },
            };
            let sy = match two.div(&fit.zh) {
                Some(v) => v,
                None => {
                    return None;
                },
            };
            (sx, sy)
        };
        match (sx.mul(&view_box.center.x), sy.mul(&view_box.center.y)) {
            (Some(mx), Some(my)) => Some(
                OrthoNoRotTransformer { sx, sy, tx: mx.neg(), ty: my.neg() },
            ),
            _ => None,
        }
    }

    /// The change counter: strictly increased by every mutation, never by
    /// a read.
    pub fn timestamp(&self) -> (r: usize)
        ensures
            r == self.timestamp,
    {
        self.timestamp
    }

    pub fn zoom(&self) -> (r: Frac)
        ensures
            r == self.zoom,
    {
        self.zoom
    }

    /// The current view box center, in world space.
    pub fn world_position(&self) -> (r: Point)
        ensures
            r == self.view_box.center,
    {
        self.view_box.center
    }

    /// Replace the view parameters and recompute both transforms; on an
    /// unrepresentable or degenerate result only the timestamp moves.
    fn refresh(&mut self, screen: Size, view_box: Rect, zoom: Frac) -> (r: bool)
        requires
            old(self).wf(),
            screen.wf(),
            view_box.wf(),
            zoom.wf(),
            zoom@.n > 0,
            old(self).timestamp < usize::MAX,
        ensures
            final(self).wf(),
            final(self).timestamp == old(self).timestamp + 1,
            r <==> spec_transforms(screen, view_box, zoom) is Some,
            r ==> final(self).screen == screen && final(self).view_box == view_box && final(self).zoom == zoom,
            !r ==> final(self).screen == old(self).screen && final(self).view_box == old(self).view_box && final(self).zoom == old(self).zoom && final(self).screen_to_world
                == old(self).screen_to_world && final(self).world_to_clip == old(self).world_to_clip,
    {
        match Self::try_transforms(&screen, &view_box, &zoom) {
            Some((screen_to_world, world_to_clip)) => {
                self.screen = screen;
                self.view_box = view_box;
                self.zoom = zoom;
                self.screen_to_world = screen_to_world;
                self.world_to_clip = world_to_clip;
                self.timestamp = self.timestamp + 1;
                true
            },
            None => {
                self.timestamp = self.timestamp + 1;
                false
            },
        }
    }

    /// Adopt a new screen size. Returns whether the view was updated;
    /// a degenerate or unrepresentable fit keeps the previous view.
    pub fn set_screen(&mut self, screen: Size) -> (r: bool)
        requires
            old(self).wf(),
            screen.wf(),
            old(self).timestamp < usize::MAX,
        ensures
            final(self).wf(),
            final(self).timestamp == old(self).timestamp + 1,
            r <==> spec_transforms(screen, old(self).view_box, old(self).zoom) is Some,
            r ==> final(self).screen == screen && final(self).view_box == old(self).view_box
                && final(self).zoom == old(self).zoom,
            !r ==> final(self).screen == old(self).screen && final(self).view_box == old(self).view_box && final(self).zoom == old(self).zoom && final(self).screen_to_world
                == old(self).screen_to_world && final(self).world_to_clip == old(self).world_to_clip,
    {
        let view_box = self.view_box;
        let zoom = self.zoom;
        self.refresh(screen, view_box, zoom)
    }

    /// Adopt a new view box. Returns whether the view was updated.
    pub fn set_view_box(&mut self, view_box: Rect) -> (r: bool)
        requires
            old(self).wf(),
            view_box.wf(),
            old(self).timestamp < usize::MAX,
        ensures
            final(self).wf(),
            final(self).timestamp == old(self).timestamp + 1,
            r <==> spec_transforms(old(self).screen, view_box, old(self).zoom) is Some,
            r ==> final(self).screen == old(self).screen && final(self).view_box == view_box
                && final(self).zoom == old(self).zoom,
            !r ==> final(self).screen == old(self).screen && final(self).view_box == old(self).view_box && final(self).zoom == old(self).zoom && final(self).screen_to_world
                == old(self).screen_to_world && final(self).world_to_clip == old(self).world_to_clip,
    {
        let screen = self.screen;
        let zoom = self.zoom;
        self.refresh(screen, view_box, zoom)
    }

    /// Pan: move the view box center to the given world position.
    pub fn move_to(&mut self, position: Point) -> (r: bool)
        requires
            old(self).wf(),
            position.wf(),
            old(self).timestamp < usize::MAX,
        ensures
            final(self).wf(),
            final(self).timestamp == old(self).timestamp + 1,
            r <==> spec_transforms(
                old(self).screen,
                Rect { center: position, size: old(self).view_box.size },
                old(self).zoom,
            ) is Some,
            r ==> final(self).screen == old(self).screen && final(self).view_box == (Rect {
                center: position,
                size: old(self).view_box.size,
            }) && final(self).zoom == old(self).zoom,
            !r ==> final(self).screen == old(self).screen && final(self).view_box == old(self).view_box && final(self).zoom == old(self).zoom && final(self).screen_to_world
                == old(self).screen_to_world && final(self).world_to_clip == old(self).world_to_clip,
    {
        let screen = self.screen;
        let view_box = Rect { center: position, size: self.view_box.size };
        let zoom = self.zoom;
        self.refresh(screen, view_box, zoom)
    }

    /// The checked zoom-to-cursor computation, not yet committed.
    fn try_set_zoom(&self, zoom: Frac, cursor: Point) -> (r: Option<
        (Frac, Rect, OrthoNoRotTransformer, OrthoNoRotTransformer),
    >)
        requires
            self.wf(),
            zoom.wf(),
            cursor.wf(),
        ensures
            r == spec_set_zoom(
                self.screen,
                self.view_box,
                self.screen_to_world,
                zoom,
                cursor,
            ),
            r matches Some(t) ==> t.0.wf() && t.0@.n > 0 && t.1.wf() && t.2.wf() && t.3.wf(),
    {
        let lo = Frac { num: 1, den: 10_000_000 };
        let hi = Frac { num: 1_000_000, den: 1 };
        let z = zoom.clamp(&lo, &hi);
        let w0 = match self.screen_to_world.transform(&cursor) {
            Some(v) => v,
            None => {
                return None;
            },
        };
        let mid = match Self::try_transforms(&self.screen, &self.view_box, &z) {
            Some(v) => v,
            None => {
                return None;
            },
        };
        let w1 = match mid.0.transform(&cursor) {
            Some(v) => v,
            None => {
                return None;
            },
        };
        let delta = match w0.sub(&w1) {
            Some(v) => v,
            None => {
                return None;
            },
        };
        let center = match self.view_box.center.add(&delta) {
            Some(v) => v,
            None => {
                return None;
            },
        };
        let moved = Rect { center, size: self.view_box.size };
        match Self::try_transforms(&self.screen, &moved, &z) {
            Some((s2w, w2c)) => Some((z, moved, s2w, w2c)),
            None => None,
        }
    }

    /// Zoom-to-cursor: clamp the requested factor, then translate the view
    /// box so the world point under `cursor` stays under `cursor`.
    ///
    /// Two timestamp bumps: one for the zoom change, one for the anchor
    /// correction. Returns whether the view was updated; an
    /// unrepresentable exact result keeps the previous view.
    pub fn set_zoom(&mut self, zoom: Frac, cursor: Point) -> (r: bool)
        requires
            old(self).wf(),
            zoom.wf(),
            cursor.wf(),
            old(self).timestamp < usize::MAX - 1,
        ensures
            final(self).wf(),
            final(self).timestamp == old(self).timestamp + 2,
            final(self).screen == old(self).screen,
            r <==> spec_set_zoom(
                old(self).screen,
                old(self).view_box,
                old(self).screen_to_world,
                zoom,
                cursor,
            ) is Some,
            r ==> spec_set_zoom(
                old(self).screen,
                old(self).view_box,
                old(self).screen_to_world,
                zoom,
                cursor,
            ) == Some(
                (
                    final(self).zoom,
                    final(self).view_box,
                    final(self).screen_to_world,
                    final(self).world_to_clip,
                ),
            ),
            !r ==> final(self).view_box == old(self).view_box && final(self).zoom == old(self).zoom && final(self).screen_to_world == old(self).screen_to_world && final(self).world_to_clip == old(self).world_to_clip,
    {
        match self.try_set_zoom(zoom, cursor) {
            Some((zoom2, view_box, screen_to_world, world_to_clip)) => {
                self.zoom = zoom2;
                self.view_box = view_box;
                self.screen_to_world = screen_to_world;
                self.world_to_clip = world_to_clip;
                self.timestamp = self.timestamp + 2;
                true
            },
            None => {
                self.timestamp = self.timestamp + 2;
                false
            },
        }
    }

    /// Screen point to world point under the current transform.
    pub fn convert_screen_to_world(&self, point: &Point) -> (r: Option<Point>)
        requires
            self.wf(),
            point.wf(),
        ensures
            r == self.screen_to_world.spec_transform(*point),
            r matches Some(p) ==> p.wf(),
    {
        self.screen_to_world.transform(point)
    }

    /// Screen vector to world vector: the translation is ignored.
    pub fn convert_vector_screen_to_world(&self, vector: &Point) -> (r: Option<Point>)
        requires
            self.wf(),
            vector.wf(),
        ensures
            r == self.screen_to_world.spec_transform_vector(*vector),
            r matches Some(p) ==> p.wf(),
    {
        self.screen_to_world.transform_vector(vector)
    }

    /// A screen length as a world length: scaled by the uniform factor.
    pub fn convert_size_screen_to_world(&self, size: &Frac) -> (r: Option<Frac>)
        requires
            self.wf(),
            size.wf(),
        ensures
            r == self.screen_to_world.sx.spec_mul(*size),
            r matches Some(v) ==> v.wf(),
    {
        self.screen_to_world.sx.mul(size)
    }

    /// The world-to-clip transform as a 4x4 column-major matrix.
    pub fn clip_matrix(&self) -> (r: Vec<Frac>)
        requires
            self.wf(),
        ensures
            r@.len() == 16,
            r@[0] == self.world_to_clip.sx,
            r@[5] == self.world_to_clip.sy,
            r@[12] == self.world_to_clip.tx,
            r@[13] == self.world_to_clip.ty,
            r@[10]@ == Ratio::from_int(1),
            r@[15]@ == Ratio::from_int(1),
            forall|i: int|
                0 <= i < 16 && i != 0 && i != 5 && i != 10 && i != 12 && i != 13 && i != 15
                    ==> #[trigger] r@[i]@ == Ratio::from_int(0),
    {
        self.world_to_clip.to_matrix()
    }
}

/// The checked fit data, when it exists, represents the ideal fit
/// quantities exactly.
pub proof fn lemma_fit_bridge(screen: Size, view_box: Rect, zoom: Frac)
    requires
        screen.wf(),
        view_box.wf(),
        zoom.wf(),
        spec_fit_data(screen, view_box, zoom) is Some,
    ensures
        ({
            let c = camera_v(screen, view_box, zoom);
            let fit = spec_fit_data(screen, view_box, zoom)->Some_0;
            c.usable() && fit.wf() && fit.horizontal == c.horizontal() && frac_is(fit.zw, c.zw())
                && frac_is(fit.zh, c.zh())
        }),
{
    let c = camera_v(screen, view_box, zoom);
    let lhs = screen.width.spec_mul(view_box.size.height)->Some_0;
    let rhs = screen.height.spec_mul(view_box.size.width)->Some_0;
    lemma_mul_is(screen.width, view_box.size.height, screen.width@, view_box.size.height@);
    lemma_mul_is(screen.height, view_box.size.width, screen.height@, view_box.size.width@);
    lemma_ratio_ops_wf(c.screen.w, c.view_box.size.h);
    lemma_ratio_ops_wf(c.screen.h, c.view_box.size.w);
    lemma_lt_congruence(
        lhs@,
        rhs@,
        c.screen.w.mul(c.view_box.size.h),
        c.screen.h.mul(c.view_box.size.w),
    );
    lemma_mul_is(zoom, view_box.size.width, zoom@, view_box.size.width@);
    lemma_mul_is(zoom, view_box.size.height, zoom@, view_box.size.height@);
}

/// The checked screen-to-world transform, when it exists, represents the
/// ideal one exactly.
pub proof fn lemma_s2w_ideal(screen: Size, view_box: Rect, zoom: Frac)
    requires
        screen.wf(),
        view_box.wf(),
        zoom.wf(),
        spec_fit_data(screen, view_box, zoom) is Some,
        spec_s2w_from(screen, view_box, spec_fit_data(screen, view_box, zoom)->Some_0) is Some,
    ensures
        ({
            let c = camera_v(screen, view_box, zoom);
            let t = spec_s2w_from(
                screen,
                view_box,
                spec_fit_data(screen, view_box, zoom)->Some_0,
            )->Some_0;
            frac_is(t.sx, c.ideal_s2w().sx) && frac_is(t.sy, c.ideal_s2w().sy) && frac_is(
                t.tx,
                c.ideal_s2w().tx,
            ) && frac_is(t.ty, c.ideal_s2w().ty)
        }),
{
    let c = camera_v(screen, view_box, zoom);
    let fit = spec_fit_data(screen, view_box, zoom)->Some_0;
    lemma_fit_bridge(screen, view_box, zoom);
    lemma_ratio_ops_wf(c.zw(), c.screen.w);
    lemma_ratio_ops_wf(c.zh(), c.screen.h);
    let s = if fit.horizontal {
        fit.zw.spec_div(screen.width)->Some_0
    } else {
        fit.zh.spec_div(screen.height)->Some_0
    };
    if fit.horizontal {
        lemma_div_is(fit.zw, screen.width, c.zw(), c.screen.w);
    } else {
        lemma_div_is(fit.zh, screen.height, c.zh(), c.screen.h);
    }
    assert(frac_is(s, c.scale()));
    lemma_neg_is(s, c.scale());
    lemma_ratio_ops_wf(c.scale(), c.screen.w);
    lemma_ratio_ops_wf(c.scale(), c.screen.h);
    let sw = s.spec_mul(screen.width)->Some_0;
    let sh = s.spec_mul(screen.height)->Some_0;
    lemma_mul_is(s, screen.width, c.scale(), c.screen.w);
    lemma_mul_is(s, screen.height, c.scale(), c.screen.h);
    let half = Rect::spec_half();
    lemma_ratio_ops_wf(c.scale().mul(c.screen.w), CameraV::half());
    lemma_ratio_ops_wf(c.scale().mul(c.screen.h), CameraV::half());
    let kx = sw.spec_mul(half)->Some_0;
    let ky = sh.spec_mul(half)->Some_0;
    lemma_mul_is(sw, half, c.scale().mul(c.screen.w), CameraV::half());
    lemma_mul_is(sh, half, c.scale().mul(c.screen.h), CameraV::half());
    lemma_sub_is(
        view_box.center.x,
        kx,
        view_box.center.x@,
        c.scale().mul(c.screen.w).mul(CameraV::half()),
    );
    lemma_add_is(
        view_box.center.y,
        ky,
        view_box.center.y@,
        c.scale().mul(c.screen.h).mul(CameraV::half()),
    );
}

/// The checked world-to-clip transform, when it exists, represents the
/// ideal one exactly.
pub proof fn lemma_w2c_ideal(screen: Size, view_box: Rect, zoom: Frac)
    requires
        screen.wf(),
        view_box.wf(),
        zoom.wf(),
        spec_fit_data(screen, view_box, zoom) is Some,
        spec_w2c_from(screen, view_box, spec_fit_data(screen, view_box, zoom)->Some_0) is Some,
    ensures
        ({
            let c = camera_v(screen, view_box, zoom);
            let t = spec_w2c_from(
                screen,
                view_box,
                spec_fit_data(screen, view_box, zoom)->Some_0,
            )->Some_0;
            frac_is(t.sx, c.ideal_w2c().sx) && frac_is(t.sy, c.ideal_w2c().sy) && frac_is(
                t.tx,
                c.ideal_w2c().tx,
            ) && frac_is(t.ty, c.ideal_w2c().ty)
        }),
{
    let c = camera_v(screen, view_box, zoom);
    let fit = spec_fit_data(screen, view_box, zoom)->Some_0;
    lemma_fit_bridge(screen, view_box, zoom);
    let two = Frac { num: 2, den: 1 };
    crate::frac::lemma_pos_prod(c.zoom.n, c.view_box.size.w.n);
    crate::frac::lemma_pos_prod(c.zoom.n, c.view_box.size.h.n);
    lemma_ratio_ops_wf(CameraV::two(), c.zw());
    lemma_ratio_ops_wf(CameraV::two(), c.zh());
    lemma_ratio_ops_wf(CameraV::two(), c.screen.w);
    lemma_ratio_ops_wf(CameraV::two(), c.screen.h);
    lemma_ratio_ops_wf(c.zw(), c.screen.h);
    lemma_ratio_ops_wf(c.zh(), c.screen.w);
    let sx = if fit.horizontal {
        two.spec_div(fit.zw)->Some_0
    } else {
        (two.spec_mul(screen.height)->Some_0).spec_div(
            fit.zh.spec_mul(screen.width)->Some_0,
        )->Some_0
    };
    let sy = if fit.horizontal {
        (two.spec_mul(screen.width)->Some_0).spec_div(
            fit.zw.spec_mul(screen.height)->Some_0,
        )->Some_0
    } else {
        two.spec_div(fit.zh)->Some_0
    };
    if fit.horizontal {
        lemma_div_is(two, fit.zw, CameraV::two(), c.zw());
        let num = two.spec_mul(screen.width)->Some_0;
        let den = fit.zw.spec_mul(screen.height)->Some_0;
        lemma_mul_is(two, screen.width, CameraV::two(), c.screen.w);
        lemma_mul_is(fit.zw, screen.height, c.zw(), c.screen.h);
        crate::frac::lemma_pos_prod(c.zw().n, c.screen.h.n);
        lemma_div_is(num, den, CameraV::two().mul(c.screen.w), c.zw().mul(c.screen.h));
    } else {
        lemma_div_is(two, fit.zh, CameraV::two(), c.zh());
        let num = two.spec_mul(screen.height)->Some_0;
        let den = fit.zh.spec_mul(screen.width)->Some_0;
        lemma_mul_is(two, screen.height, CameraV::two(), c.screen.h);
        lemma_mul_is(fit.zh, screen.width, c.zh(), c.screen.w);
        crate::frac::lemma_pos_prod(c.zh().n, c.screen.w.n);
        lemma_div_is(num, den, CameraV::two().mul(c.screen.h), c.zh().mul(c.screen.w));
    }
    assert(frac_is(sx, c.ideal_w2c().sx));
    assert(frac_is(sy, c.ideal_w2c().sy));
    lemma_ratio_ops_wf(c.ideal_w2c().sx, c.view_box.center.x);
    lemma_ratio_ops_wf(c.ideal_w2c().sy, c.view_box.center.y);
    let mx = sx.spec_mul(view_box.center.x)->Some_0;
    let my = sy.spec_mul(view_box.center.y)->Some_0;
    lemma_mul_is(sx, view_box.center.x, c.ideal_w2c().sx, c.view_box.center.x);
    lemma_mul_is(sy, view_box.center.y, c.ideal_w2c().sy, c.view_box.center.y);
    lemma_neg_is(mx, c.ideal_w2c().sx.mul(c.view_box.center.x));
    lemma_neg_is(my, c.ideal_w2c().sy.mul(c.view_box.center.y));
}

/// Both checked transforms, when they exist, represent the ideal ones.
pub proof fn lemma_transforms_ideal(screen: Size, view_box: Rect, zoom: Frac)
    requires
        screen.wf(),
        view_box.wf(),
        zoom.wf(),
        spec_transforms(screen, view_box, zoom) is Some,
    ensures
        ({
            let c = camera_v(screen, view_box, zoom);
            let t = spec_transforms(screen, view_box, zoom)->Some_0;
            c.usable() && frac_is(t.0.sx, c.ideal_s2w().sx) && frac_is(t.0.sy, c.ideal_s2w().sy)
                && frac_is(t.0.tx, c.ideal_s2w().tx) && frac_is(t.0.ty, c.ideal_s2w().ty)
                && frac_is(t.1.sx, c.ideal_w2c().sx) && frac_is(t.1.sy, c.ideal_w2c().sy)
                && frac_is(t.1.tx, c.ideal_w2c().tx) && frac_is(t.1.ty, c.ideal_w2c().ty)
        }),
{
    lemma_fit_bridge(screen, view_box, zoom);
    lemma_s2w_ideal(screen, view_box, zoom);
    lemma_w2c_ideal(screen, view_box, zoom);
}

/// A checked transform application represents the ideal application.
pub proof fn lemma_apply_ideal(t: OrthoNoRotTransformer, tv: XformV, p: Point)
    requires
        p.wf(),
        frac_is(t.sx, tv.sx),
        frac_is(t.sy, tv.sy),
        frac_is(t.tx, tv.tx),
        frac_is(t.ty, tv.ty),
        t.spec_transform(p) is Some,
    ensures
        ({
            let w = t.spec_transform(p)->Some_0;
            frac_is(w.x, tv.sx.mul(p@.x).add(tv.tx)) && frac_is(w.y, tv.sy.mul(p@.y).add(tv.ty))
        }),
{
    let mx = t.sx.spec_mul(p.x)->Some_0;
    let my = t.sy.spec_mul(p.y)->Some_0;
    lemma_mul_is(t.sx, p.x, tv.sx, p@.x);
    lemma_mul_is(t.sy, p.y, tv.sy, p@.y);
    lemma_ratio_ops_wf(tv.sx.mul(p@.x), tv.tx);
    lemma_ratio_ops_wf(tv.sy.mul(p@.y), tv.ty);
    lemma_add_is(mx, t.tx, tv.sx.mul(p@.x), tv.tx);
    lemma_add_is(my, t.ty, tv.sy.mul(p@.y), tv.ty);
}

/// The algebraic heart of the zoom anchor: translating by the measured
/// anchor error restores the original world point, exactly.
proof fn lemma_anchor_axis(s: Ratio, t: Ratio, w0: Ratio, cur: Ratio)
    requires
        s.wf(),
        t.wf(),
        w0.wf(),
        cur.wf(),
    ensures
        ({
            let w1 = s.mul(cur).add(t);
            let delta = w0.sub(w1);
            s.mul(cur).add(t.add(delta)).eq(w0)
        }),
{
    let sc = s.mul(cur);
    let w1 = sc.add(t);
    let delta = w0.sub(w1);
    lemma_ratio_ops_wf(s, cur);
    lemma_ratio_ops_wf(sc, t);
    lemma_ratio_ops_wf(w0, w1);
    lemma_ratio_ops_wf(t, delta);
    lemma_ratio_ops_wf(sc, t.add(delta));
    lemma_ratio_ops_wf(w1, delta);
    lemma_add_assoc(sc, t, delta);
    lemma_add_of_diff(w0, w1);
    lemma_eq_trans(sc.add(t.add(delta)), w1.add(delta), w0);
}

/// Zoom-anchor law: for any camera, requested zoom factor and cursor, a
/// representable zoom-to-cursor step leaves the world point under the
/// cursor exactly where it was.
pub proof fn lemma_zoom_anchor(cam: OrthoNoRotCamera, zoom: Frac, cursor: Point)
    requires
        cam.wf(),
        zoom.wf(),
        cursor.wf(),
        spec_set_zoom(cam.screen, cam.view_box, cam.screen_to_world, zoom, cursor) is Some,
        ({
            let t = spec_set_zoom(
                cam.screen,
                cam.view_box,
                cam.screen_to_world,
                zoom,
                cursor,
            )->Some_0;
            t.2.spec_transform(cursor) is Some
        }),
    ensures
        ({
            let t = spec_set_zoom(
                cam.screen,
                cam.view_box,
                cam.screen_to_world,
                zoom,
                cursor,
            )->Some_0;
            let w0 = cam.screen_to_world.spec_transform(cursor)->Some_0;
            let w2 = t.2.spec_transform(cursor)->Some_0;
            w2@.x.eq(w0@.x) && w2@.y.eq(w0@.y)
        }),
{
    let z = spec_zoom_clamped(zoom);
    let w0 = cam.screen_to_world.spec_transform(cursor)->Some_0;
    let mid = spec_transforms(cam.screen, cam.view_box, z)->Some_0;
    let w1 = mid.0.spec_transform(cursor)->Some_0;
    let delta = w0.spec_sub(w1)->Some_0;
    let center = cam.view_box.center.spec_add(delta)->Some_0;
    let moved = Rect { center, size: cam.view_box.size };
    let fin = spec_transforms(cam.screen, moved, z)->Some_0;
    let w2 = fin.0.spec_transform(cursor)->Some_0;
    // the old camera and stored transform
    let c0 = cam.v();
    lemma_transforms_ideal(cam.screen, cam.view_box, cam.zoom);
    lemma_apply_ideal(cam.screen_to_world, c0.ideal_s2w(), cursor);
    let w0xr = c0.ideal_s2w().sx.mul(cursor@.x).add(c0.ideal_s2w().tx);
    let w0yr = c0.ideal_s2w().sy.mul(cursor@.y).add(c0.ideal_s2w().ty);
    // the mid camera, with the clamped zoom
    let cz = camera_v(cam.screen, cam.view_box, z);
    lemma_transforms_ideal(cam.screen, cam.view_box, z);
    lemma_apply_ideal(mid.0, cz.ideal_s2w(), cursor);
    let w1xr = cz.ideal_s2w().sx.mul(cursor@.x).add(cz.ideal_s2w().tx);
    let w1yr = cz.ideal_s2w().sy.mul(cursor@.y).add(cz.ideal_s2w().ty);
    lemma_ratio_ops_wf(cz.ideal_s2w().sx, cursor@.x);
    lemma_ratio_ops_wf(cz.ideal_s2w().sx.mul(cursor@.x), cz.ideal_s2w().tx);
    lemma_ratio_ops_wf(cz.ideal_s2w().sy, cursor@.y);
    lemma_ratio_ops_wf(cz.ideal_s2w().sy.mul(cursor@.y), cz.ideal_s2w().ty);
    // the measured error and the translated center
    lemma_sub_is(w0.x, w1.x, w0xr, w1xr);
    lemma_sub_is(w0.y, w1.y, w0yr, w1yr);
    let dxr = w0xr.sub(w1xr);
    let dyr = w0yr.sub(w1yr);
    lemma_add_is(cam.view_box.center.x, delta.x, cam.view_box.center.x@, dxr);
    lemma_add_is(cam.view_box.center.y, delta.y, cam.view_box.center.y@, dyr);
    // the final camera
    let c2 = camera_v(cam.screen, moved, z);
    lemma_transforms_ideal(cam.screen, moved, z);
    lemma_apply_ideal(fin.0, c2.ideal_s2w(), cursor);
    // the moved camera shares every size-derived quantity with `cz`
    assert(c2.zw() == cz.zw() && c2.zh() == cz.zh() && c2.horizontal() == cz.horizontal()
        && c2.scale() == cz.scale());
    let k1 = cz.scale().mul(cz.screen.w).mul(CameraV::half());
    let k2 = cz.scale().mul(cz.screen.h).mul(CameraV::half());
    let cx = cam.view_box.center.x@;
    let cy = cam.view_box.center.y@;
    assert(z.wf());
    lemma_ratio_ops_wf(cz.zoom, cz.view_box.size.w);
    lemma_ratio_ops_wf(cz.zoom, cz.view_box.size.h);
    lemma_ratio_ops_wf(cz.zw(), cz.screen.w);
    lemma_ratio_ops_wf(cz.zh(), cz.screen.h);
    lemma_ratio_ops_wf(cz.scale(), cz.screen.w);
    lemma_ratio_ops_wf(cz.scale(), cz.screen.h);
    lemma_ratio_ops_wf(cz.scale().mul(cz.screen.w), CameraV::half());
    lemma_ratio_ops_wf(cz.scale().mul(cz.screen.h), CameraV::half());
    lemma_ratio_ops_wf(c2.view_box.center.x, k1);
    lemma_ratio_ops_wf(c2.view_box.center.y, k2);
    lemma_ratio_ops_wf(cx, dxr);
    lemma_ratio_ops_wf(cy, dyr);
    lemma_ratio_ops_wf(cx, k1);
    lemma_ratio_ops_wf(cy, k2);
    lemma_ratio_ops_wf(cx.sub(k1), dxr);
    lemma_ratio_ops_wf(cy.add(k2), dyr);
    // x: the final translation equals the mid translation shifted by dx
    assert(c2.ideal_s2w().tx == c2.view_box.center.x.sub(k1));
    lemma_sub_congruence(c2.view_box.center.x, k1, cx.add(dxr), k1);
    lemma_ratio_ops_wf(cx.add(dxr), k1);
    lemma_shift_sub(cx, k1, dxr);
    lemma_eq_trans(c2.ideal_s2w().tx, cx.add(dxr).sub(k1), cx.sub(k1).add(dxr));
    // y: likewise, the error commutes past the centering offset
    assert(c2.ideal_s2w().ty == c2.view_box.center.y.add(k2));
    lemma_add_congruence(c2.view_box.center.y, k2, cy.add(dyr), k2);
    lemma_ratio_ops_wf(cy.add(dyr), k2);
    lemma_swap_add(cy, dyr, k2);
    lemma_eq_trans(c2.ideal_s2w().ty, cy.add(dyr).add(k2), cy.add(k2).add(dyr));
    // assemble both axes through the anchor identity
    let sxc = cz.ideal_s2w().sx.mul(cursor@.x);
    let syc = cz.ideal_s2w().sy.mul(cursor@.y);
    lemma_ratio_ops_wf(cz.ideal_s2w().tx, dxr);
    lemma_ratio_ops_wf(cz.ideal_s2w().ty, dyr);
    lemma_add_congruence(sxc, c2.ideal_s2w().tx, sxc, cz.ideal_s2w().tx.add(dxr));
    lemma_add_congruence(syc, c2.ideal_s2w().ty, syc, cz.ideal_s2w().ty.add(dyr));
    lemma_anchor_axis(cz.ideal_s2w().sx, cz.ideal_s2w().tx, w0xr, cursor@.x);
    lemma_anchor_axis(cz.ideal_s2w().sy, cz.ideal_s2w().ty, w0yr, cursor@.y);
    lemma_ratio_ops_wf(sxc, c2.ideal_s2w().tx);
    lemma_ratio_ops_wf(sxc, cz.ideal_s2w().tx.add(dxr));
    lemma_ratio_ops_wf(syc, c2.ideal_s2w().ty);
    lemma_ratio_ops_wf(syc, cz.ideal_s2w().ty.add(dyr));
    lemma_eq_trans(sxc.add(c2.ideal_s2w().tx), sxc.add(cz.ideal_s2w().tx.add(dxr)), w0xr);
    lemma_eq_trans(syc.add(c2.ideal_s2w().ty), syc.add(cz.ideal_s2w().ty.add(dyr)), w0yr);
    // connect the representations
    lemma_eq_trans(w2.x@, sxc.add(c2.ideal_s2w().tx), w0xr);
    lemma_eq_trans(w2.y@, syc.add(c2.ideal_s2w().ty), w0yr);
    lemma_eq_trans(w2.x@, w0xr, w0.x@);
    lemma_eq_trans(w2.y@, w0yr, w0.y@);
}

/// Clip round-trip law: the world point at the view box center maps to
/// clip-space `(0, 0)`, exactly, whenever the application is
/// representable.
pub proof fn lemma_clip_center(cam: OrthoNoRotCamera)
    requires
        cam.wf(),
        cam.world_to_clip.spec_transform(cam.view_box.center) is Some,
    ensures
        ({
            let p = cam.world_to_clip.spec_transform(cam.view_box.center)->Some_0;
            p@.x.eq(Ratio { n: 0, d: 1 }) && p@.y.eq(Ratio { n: 0, d: 1 })
        }),
{
    let c = cam.v();
    lemma_transforms_ideal(cam.screen, cam.view_box, cam.zoom);
    lemma_apply_ideal(cam.world_to_clip, c.ideal_w2c(), cam.view_box.center);
    let p = cam.world_to_clip.spec_transform(cam.view_box.center)->Some_0;
    let mx = c.ideal_w2c().sx.mul(c.view_box.center.x);
    let my = c.ideal_w2c().sy.mul(c.view_box.center.y);
    assert(c.ideal_w2c().tx == mx.neg() && c.ideal_w2c().ty == my.neg());
    lemma_ratio_ops_wf(c.ideal_w2c().sx, c.view_box.center.x);
    lemma_ratio_ops_wf(c.ideal_w2c().sy, c.view_box.center.y);
    lemma_add_neg(mx);
    lemma_add_neg(my);
    lemma_ratio_ops_wf(mx, mx.neg());
    lemma_ratio_ops_wf(my, my.neg());
    lemma_eq_trans(p@.x, mx.add(mx.neg()), Ratio { n: 0, d: 1 });
    lemma_eq_trans(p@.y, my.add(my.neg()), Ratio { n: 0, d: 1 });
}

/// The constrained axis spans the whole zoomed box: the screen extent,
/// scaled, covers at least the box extent on the other axis.
proof fn lemma_fit_margin(c: CameraV)
    requires
        c.wf(),
        c.usable(),
    ensures
        c.horizontal() ==> c.zh().le(c.scale().mul(c.screen.h)),
        !c.horizontal() ==> c.zw().le(c.scale().mul(c.screen.w)),
        c.horizontal() ==> c.screen.w.mul(c.zh()).lt(c.screen.h.mul(c.zw())),
        !c.horizontal() ==> c.screen.h.mul(c.zw()).le(c.screen.w.mul(c.zh())),
{
    let z = c.zoom;
    let bw = c.view_box.size.w;
    let bh = c.view_box.size.h;
    let w = c.screen.w;
    let h = c.screen.h;
    lemma_ratio_ops_wf(z, bw);
    lemma_ratio_ops_wf(z, bh);
    lemma_ratio_ops_wf(w, bh);
    lemma_ratio_ops_wf(h, bw);
    crate::frac::lemma_pos_prod(z.n, bw.n);
    crate::frac::lemma_pos_prod(z.n, bh.n);
    if c.horizontal() {
        let s = c.zw().div(w);
        lemma_ratio_ops_wf(c.zw(), w);
        lemma_ratio_ops_wf(s, h);
        lemma_ratio_ops_wf(w, c.zh());
        lemma_ratio_ops_wf(h, c.zw());
        lemma_ratio_ops_wf(w, s.mul(h));
        // scale the fit comparison by the (positive) zoom
        lemma_mul_lt_cancel(z, w.mul(bh), h.mul(bw));
        lemma_ratio_mul_assoc(z, w, bh);
        lemma_ratio_mul_comm(z, w);
        lemma_ratio_mul_assoc(w, z, bh);
        lemma_ratio_mul_assoc(z, h, bw);
        lemma_ratio_mul_comm(z, h);
        lemma_ratio_mul_assoc(h, z, bw);
        assert(w.mul(c.zh()).lt(h.mul(c.zw())));
        // the scaled screen extent equals the box width, restored
        lemma_div_mul_cancel(c.zw(), w);
        lemma_ratio_mul_comm(w, s);
        lemma_ratio_ops_wf(w, s);
        lemma_mul_congruence(w.mul(s), h, c.zw(), h);
        lemma_ratio_mul_assoc(w, s, h);
        lemma_ratio_mul_comm(c.zw(), h);
        lemma_ratio_ops_wf(w.mul(s), h);
        lemma_ratio_ops_wf(c.zw(), h);
        lemma_lt_congruence(w.mul(c.zh()), h.mul(c.zw()), w.mul(c.zh()), w.mul(s.mul(h)));
        lemma_mul_lt_cancel(w, c.zh(), s.mul(h));
    } else {
        let s = c.zh().div(h);
        lemma_ratio_ops_wf(c.zh(), h);
        lemma_ratio_ops_wf(s, w);
        lemma_ratio_ops_wf(h, c.zw());
        lemma_ratio_ops_wf(w, c.zh());
        lemma_ratio_ops_wf(h, s.mul(w));
        lemma_mul_lt_cancel(z, w.mul(bh), h.mul(bw));
        assert(h.mul(bw).le(w.mul(bh)));
        lemma_mul_lt_cancel(z, h.mul(bw), w.mul(bh));
        lemma_ratio_mul_assoc(z, h, bw);
        lemma_ratio_mul_comm(z, h);
        lemma_ratio_mul_assoc(h, z, bw);
        lemma_ratio_mul_assoc(z, w, bh);
        lemma_ratio_mul_comm(z, w);
        lemma_ratio_mul_assoc(w, z, bh);
        assert(h.mul(c.zw()).le(w.mul(c.zh())));
        lemma_div_mul_cancel(c.zh(), h);
        lemma_ratio_mul_comm(h, s);
        lemma_ratio_ops_wf(h, s);
        lemma_mul_congruence(h.mul(s), w, c.zh(), w);
        lemma_ratio_mul_assoc(h, s, w);
        lemma_ratio_mul_comm(c.zh(), w);
        lemma_ratio_ops_wf(h.mul(s), w);
        lemma_ratio_ops_wf(c.zh(), w);
        lemma_lt_congruence(h.mul(c.zw()), w.mul(c.zh()), h.mul(c.zw()), h.mul(s.mul(w)));
        lemma_mul_lt_cancel(h, c.zw(), s.mul(w));
    }
}

/// Fit law: the ideal screen-to-world transform scales both axes
/// uniformly (no distortion), maps the screen center to the view box
/// center on both axes (so the slack axis centers with equal margin),
/// maps the screen exactly onto the zoomed view box along the
/// constrained axis, and covers the box on the other axis.
pub proof fn lemma_fit_law(c: CameraV)
    requires
        c.wf(),
        c.usable(),
    ensures
        ({
            let t = c.ideal_s2w();
            // uniform scale, y flipped
            &&& t.sy == t.sx.neg()
            // the screen center maps to the view box center on both axes
            &&& t.sx.mul(c.screen.w.mul(CameraV::half())).add(t.tx).eq(c.view_box.center.x)
            &&& t.sy.mul(c.screen.h.mul(CameraV::half())).add(t.ty).eq(c.view_box.center.y)
            // constrained axis maps 1:1 onto the full box extent
            &&& (c.horizontal() ==> t.tx.eq(c.min_x()) && t.sx.mul(c.screen.w).add(t.tx).eq(
                c.max_x(),
            ))
            &&& (!c.horizontal() ==> t.ty.eq(c.max_y()) && t.sy.mul(c.screen.h).add(t.ty).eq(
                c.min_y(),
            ))
            // the slack axis covers the box, with equal margin on each side
            &&& (c.horizontal() ==> c.max_y().le(t.ty) && t.sy.mul(c.screen.h).add(t.ty).le(
                c.min_y(),
            ))
            &&& (!c.horizontal() ==> c.max_x().le(t.sx.mul(c.screen.w).add(t.tx)) && t.tx.le(
                c.min_x(),
            ))
        }),
{
    let t = c.ideal_s2w();
    let s = c.scale();
    let w = c.screen.w;
    let h = c.screen.h;
    let cx = c.view_box.center.x;
    let cy = c.view_box.center.y;
    let half = CameraV::half();
    let sw = s.mul(w);
    let sh = s.mul(h);
    let kx = sw.mul(half);
    let ky = sh.mul(half);
    let hw = c.zw().mul(half);
    let hh = c.zh().mul(half);
    lemma_ratio_ops_wf(c.zoom, c.view_box.size.w);
    lemma_ratio_ops_wf(c.zoom, c.view_box.size.h);
    crate::frac::lemma_pos_prod(c.zoom.n, c.view_box.size.w.n);
    crate::frac::lemma_pos_prod(c.zoom.n, c.view_box.size.h.n);
    lemma_ratio_ops_wf(c.zw(), w);
    lemma_ratio_ops_wf(c.zh(), h);
    lemma_ratio_ops_wf(s, w);
    lemma_ratio_ops_wf(s, h);
    lemma_ratio_ops_wf(sw, half);
    lemma_ratio_ops_wf(sh, half);
    lemma_ratio_ops_wf(c.zw(), half);
    lemma_ratio_ops_wf(c.zh(), half);
    lemma_ratio_ops_wf(cx, kx);
    lemma_ratio_ops_wf(cy, ky);
    lemma_ratio_ops_wf(cx, hw);
    lemma_ratio_ops_wf(cy, hh);
    // x-centering: sx * w/2 + tx == cx
    lemma_ratio_mul_assoc(s, w, half);
    lemma_add_of_diff(cx, kx);
    assert(t.sx.mul(w.mul(half)).add(t.tx).eq(cx));
    // y-centering: sy * h/2 + ty == cy
    lemma_neg_mul(s, h.mul(half));
    lemma_ratio_mul_assoc(s, h, half);
    lemma_neg_add_restore(ky, cy);
    assert(t.sy.mul(h.mul(half)).add(t.ty).eq(cy));
    // both slack-margin expressions, evaluated once
    lemma_neg_mul(s, h);
    lemma_shift_halves_down(sh, cy);
    assert(t.sy.mul(h).add(t.ty).eq(cy.sub(ky)));
    lemma_shift_halves_up(sw, cx);
    assert(t.sx.mul(w).add(t.tx).eq(cx.add(kx)));
    lemma_ratio_ops_wf(cy.sub(ky), Ratio { n: 0, d: 1 });
    lemma_ratio_ops_wf(cx.add(kx), Ratio { n: 0, d: 1 });
    if c.horizontal() {
        // the x axis is exact: s*w restores the zoomed box width
        lemma_div_mul_cancel(c.zw(), w);
        lemma_mul_congruence(sw, half, c.zw(), half);
        lemma_sub_congruence(cx, kx, cx, hw);
        assert(t.tx.eq(c.min_x()));
        lemma_add_congruence(cx, kx, cx, hw);
        lemma_ratio_ops_wf(t.sx.mul(w), t.tx);
        lemma_eq_trans(t.sx.mul(w).add(t.tx), cx.add(kx), cx.add(hw));
        // the y margin: hh <= ky, so the box sits inside on both sides
        lemma_fit_margin(c);
        lemma_mul_lt_cancel(half, c.zh(), sh);
        lemma_ratio_mul_comm(half, c.zh());
        lemma_ratio_mul_comm(half, sh);
        assert(hh.le(ky));
        lemma_le_add_left(cy, hh, ky);
        assert(c.max_y().le(t.ty));
        lemma_le_neg(hh, ky);
        lemma_le_add_left(cy, ky.neg(), hh.neg());
        lemma_sub_as_add_neg(cy, ky);
        lemma_sub_as_add_neg(cy, hh);
        assert(cy.sub(ky).le(c.min_y()));
        lemma_ratio_ops_wf(t.sy.mul(h), t.ty);
        lemma_lt_congruence(t.sy.mul(h).add(t.ty), c.min_y(), cy.sub(ky), c.min_y());
    } else {
        // the y axis is exact: s*h restores the zoomed box height
        lemma_div_mul_cancel(c.zh(), h);
        lemma_mul_congruence(sh, half, c.zh(), half);
        lemma_add_congruence(cy, ky, cy, hh);
        assert(t.ty.eq(c.max_y()));
        lemma_sub_congruence(cy, ky, cy, hh);
        lemma_ratio_ops_wf(t.sy.mul(h), t.ty);
        lemma_ratio_ops_wf(cy.sub(ky), hh);
        lemma_eq_trans(t.sy.mul(h).add(t.ty), cy.sub(ky), cy.sub(hh));
        // the x margin: hw <= kx, so the box sits inside on both sides
        lemma_fit_margin(c);
        lemma_mul_lt_cancel(half, c.zw(), sw);
        lemma_ratio_mul_comm(half, c.zw());
        lemma_ratio_mul_comm(half, sw);
        assert(hw.le(kx));
        lemma_le_add_left(cx, hw, kx);
        lemma_ratio_ops_wf(t.sx.mul(w), t.tx);
        lemma_lt_congruence(c.max_x(), t.sx.mul(w).add(t.tx), c.max_x(), cx.add(kx));
        lemma_le_neg(hw, kx);
        lemma_le_add_left(cx, kx.neg(), hw.neg());
        lemma_sub_as_add_neg(cx, kx);
        lemma_sub_as_add_neg(cx, hw);
        assert(t.tx.le(c.min_x()));
    }
}

/// Clip fit law: the world-to-clip transform follows the same
/// uniform-scale-then-center policy. The view box center maps to the
/// clip origin, the on-screen scale is uniform (`sy * h == sx * w`, so
/// the viewport aspect cancels), and the constrained half extent of the
/// zoomed box maps to exactly one clip unit.
pub proof fn lemma_clip_fit_law(c: CameraV)
    requires
        c.wf(),
        c.usable(),
    ensures
        ({
            let t = c.ideal_w2c();
            &&& t.sx.mul(c.view_box.center.x).add(t.tx).eq(Ratio { n: 0, d: 1 })
            &&& t.sy.mul(c.view_box.center.y).add(t.ty).eq(Ratio { n: 0, d: 1 })
            &&& t.sy.mul(c.screen.h).eq(t.sx.mul(c.screen.w))
            &&& (c.horizontal() ==> t.sx.mul(c.zw().mul(CameraV::half())).eq(
                Ratio { n: 1, d: 1 },
            ))
            &&& (!c.horizontal() ==> t.sy.mul(c.zh().mul(CameraV::half())).eq(
                Ratio { n: 1, d: 1 },
            ))
            &&& (c.horizontal() ==> t.sy.mul(c.zh().mul(CameraV::half())).le(
                Ratio { n: 1, d: 1 },
            ))
            &&& (!c.horizontal() ==> t.sx.mul(c.zw().mul(CameraV::half())).le(
                Ratio { n: 1, d: 1 },
            ))
        }),
{
    let t = c.ideal_w2c();
    let two = CameraV::two();
    let half = CameraV::half();
    let w = c.screen.w;
    let h = c.screen.h;
    lemma_ratio_ops_wf(c.zoom, c.view_box.size.w);
    lemma_ratio_ops_wf(c.zoom, c.view_box.size.h);
    crate::frac::lemma_pos_prod(c.zoom.n, c.view_box.size.w.n);
    crate::frac::lemma_pos_prod(c.zoom.n, c.view_box.size.h.n);
    let zw = c.zw();
    let zh = c.zh();
    lemma_ratio_ops_wf(zw, h);
    lemma_ratio_ops_wf(zh, w);
    crate::frac::lemma_pos_prod(zw.n, h.n);
    crate::frac::lemma_pos_prod(zh.n, w.n);
    lemma_ratio_ops_wf(two, zw);
    lemma_ratio_ops_wf(two, zh);
    lemma_ratio_ops_wf(two, w);
    lemma_ratio_ops_wf(two, h);
    lemma_ratio_ops_wf(zw, half);
    lemma_ratio_ops_wf(zh, half);
    if c.horizontal() {
        let x = two.mul(w);
        lemma_ratio_ops_wf(x, zw.mul(h));
        lemma_ratio_ops_wf(x, zw);
        lemma_ratio_ops_wf(x.div(zw.mul(h)), h);
        lemma_ratio_ops_wf(x, h);
        lemma_ratio_ops_wf(x.mul(h), zw.mul(h));
        lemma_ratio_ops_wf(two.div(zw), w);
        // uniform scale: sy * h and sx * w both equal (2w)/zw
        lemma_div_mul_exchange(x, zw.mul(h), h);
        lemma_div_cancel_factor(x, zw, h);
        lemma_eq_trans(t.sy.mul(h), x.mul(h).div(zw.mul(h)), x.div(zw));
        lemma_div_mul_exchange(two, zw, w);
        lemma_eq_trans(t.sy.mul(h), x.div(zw), t.sx.mul(w));
        // the half extent of the zoomed width maps to one clip unit
        let hw = zw.mul(half);
        lemma_ratio_ops_wf(two.div(zw), hw);
        lemma_ratio_ops_wf(two, hw);
        lemma_ratio_ops_wf(two.mul(hw), zw);
        lemma_ratio_ops_wf(zw, zw);
        lemma_div_mul_exchange(two, zw, hw);
        lemma_two_halves(zw);
        lemma_div_congruence(two.mul(hw), zw, zw, zw);
        lemma_div_self(zw);
        lemma_eq_trans(t.sx.mul(hw), two.mul(hw).div(zw), zw.div(zw));
        lemma_eq_trans(t.sx.mul(hw), zw.div(zw), Ratio { n: 1, d: 1 });
        lemma_ratio_ops_wf(two.div(zw), c.view_box.center.x);
        lemma_ratio_ops_wf(x.div(zw.mul(h)), c.view_box.center.y);
        // the slack half extent of the zoomed height stays within one
        // clip unit: w * zh < h * zw by the fit comparison
        lemma_fit_margin(c);
        let hh = zh.mul(half);
        lemma_ratio_ops_wf(x.div(zw.mul(h)), hh);
        lemma_ratio_ops_wf(x, hh);
        lemma_ratio_ops_wf(w, zh);
        lemma_ratio_ops_wf(x.mul(hh), zw.mul(h));
        lemma_ratio_ops_wf(w.mul(zh), zw.mul(h));
        lemma_div_mul_exchange(x, zw.mul(h), hh);
        lemma_ratio_mul_comm(two, w);
        lemma_ratio_mul_assoc(w, two, hh);
        lemma_two_halves(zh);
        lemma_ratio_ops_wf(two, hh);
        lemma_mul_congruence(w, two.mul(hh), w, zh);
        lemma_div_congruence(x.mul(hh), zw.mul(h), w.mul(zh), zw.mul(h));
        lemma_ratio_mul_comm(zw, h);
        lemma_div_le_one(w.mul(zh), zw.mul(h));
        lemma_eq_trans(t.sy.mul(hh), x.mul(hh).div(zw.mul(h)), w.mul(zh).div(zw.mul(h)));
        lemma_lt_congruence(
            t.sy.mul(hh),
            Ratio { n: 1, d: 1 },
            w.mul(zh).div(zw.mul(h)),
            Ratio { n: 1, d: 1 },
        );
    } else {
        let x = two.mul(h);
        lemma_ratio_ops_wf(x, zh.mul(w));
        lemma_ratio_ops_wf(x, zh);
        lemma_ratio_ops_wf(x.div(zh.mul(w)), w);
        lemma_ratio_ops_wf(x, w);
        lemma_ratio_ops_wf(x.mul(w), zh.mul(w));
        lemma_ratio_ops_wf(two.div(zh), h);
        // uniform scale: sx * w and sy * h both equal (2h)/zh
        lemma_div_mul_exchange(x, zh.mul(w), w);
        lemma_div_cancel_factor(x, zh, w);
        lemma_eq_trans(t.sx.mul(w), x.mul(w).div(zh.mul(w)), x.div(zh));
        lemma_div_mul_exchange(two, zh, h);
        lemma_eq_trans(t.sx.mul(w), x.div(zh), t.sy.mul(h));
        assert(t.sy.mul(h).eq(t.sx.mul(w)));
        // the half extent of the zoomed height maps to one clip unit
        let hh = zh.mul(half);
        lemma_ratio_ops_wf(two.div(zh), hh);
        lemma_ratio_ops_wf(two, hh);
        lemma_ratio_ops_wf(two.mul(hh), zh);
        lemma_ratio_ops_wf(zh, zh);
        lemma_div_mul_exchange(two, zh, hh);
        lemma_two_halves(zh);
        lemma_div_congruence(two.mul(hh), zh, zh, zh);
        lemma_div_self(zh);
        lemma_eq_trans(t.sy.mul(hh), two.mul(hh).div(zh), zh.div(zh));
        lemma_eq_trans(t.sy.mul(hh), zh.div(zh), Ratio { n: 1, d: 1 });
        lemma_ratio_ops_wf(x.div(zh.mul(w)), c.view_box.center.x);
        lemma_ratio_ops_wf(two.div(zh), c.view_box.center.y);
        // the slack half extent of the zoomed width stays within one
        // clip unit: h * zw <= w * zh by the fit comparison
        lemma_fit_margin(c);
        let hw = zw.mul(half);
        lemma_ratio_ops_wf(x.div(zh.mul(w)), hw);
        lemma_ratio_ops_wf(x, hw);
        lemma_ratio_ops_wf(h, zw);
        lemma_ratio_ops_wf(x.mul(hw), zh.mul(w));
        lemma_ratio_ops_wf(h.mul(zw), zh.mul(w));
        lemma_div_mul_exchange(x, zh.mul(w), hw);
        lemma_ratio_mul_comm(two, h);
        lemma_ratio_mul_assoc(h, two, hw);
        lemma_two_halves(zw);
        lemma_ratio_ops_wf(two, hw);
        lemma_mul_congruence(h, two.mul(hw), h, zw);
        lemma_div_congruence(x.mul(hw), zh.mul(w), h.mul(zw), zh.mul(w));
        lemma_ratio_mul_comm(zh, w);
        lemma_div_le_one(h.mul(zw), zh.mul(w));
        lemma_eq_trans(t.sx.mul(hw), x.mul(hw).div(zh.mul(w)), h.mul(zw).div(zh.mul(w)));
        lemma_lt_congruence(
            t.sx.mul(hw),
            Ratio { n: 1, d: 1 },
            h.mul(zw).div(zh.mul(w)),
            Ratio { n: 1, d: 1 },
        );
    }
    // center maps to the clip origin on both axes
    lemma_add_neg(t.sx.mul(c.view_box.center.x));
    lemma_add_neg(t.sy.mul(c.view_box.center.y));
}

/// Fit law, at the camera: a well-formed camera's stored screen-to-world
/// transform is the ideal one for its parameters, so the fit guarantees
/// of `lemma_fit_law` hold of what the camera actually uses.
pub proof fn lemma_camera_fit(cam: OrthoNoRotCamera)
    requires
        cam.wf(),
    ensures
        cam.v().usable(),
        frac_is(cam.screen_to_world.sx, cam.v().ideal_s2w().sx),
        frac_is(cam.screen_to_world.sy, cam.v().ideal_s2w().sy),
        frac_is(cam.screen_to_world.tx, cam.v().ideal_s2w().tx),
        frac_is(cam.screen_to_world.ty, cam.v().ideal_s2w().ty),
        cam.v().ideal_s2w().sy == cam.v().ideal_s2w().sx.neg(),
        cam.v().ideal_s2w().sx.mul(cam.v().screen.w.mul(CameraV::half())).add(
            cam.v().ideal_s2w().tx,
        ).eq(cam.v().view_box.center.x),
        cam.v().ideal_s2w().sy.mul(cam.v().screen.h.mul(CameraV::half())).add(
            cam.v().ideal_s2w().ty,
        ).eq(cam.v().view_box.center.y),
        cam.v().horizontal() ==> cam.v().ideal_s2w().tx.eq(cam.v().min_x())
            && cam.v().ideal_s2w().sx.mul(cam.v().screen.w).add(cam.v().ideal_s2w().tx).eq(
            cam.v().max_x(),
        ),
        !cam.v().horizontal() ==> cam.v().ideal_s2w().ty.eq(cam.v().max_y())
            && cam.v().ideal_s2w().sy.mul(cam.v().screen.h).add(cam.v().ideal_s2w().ty).eq(
            cam.v().min_y(),
        ),
        cam.v().horizontal() ==> cam.v().max_y().le(cam.v().ideal_s2w().ty)
            && cam.v().ideal_s2w().sy.mul(cam.v().screen.h).add(cam.v().ideal_s2w().ty).le(
            cam.v().min_y(),
        ),
        !cam.v().horizontal() ==> cam.v().max_x().le(
            cam.v().ideal_s2w().sx.mul(cam.v().screen.w).add(cam.v().ideal_s2w().tx),
        ) && cam.v().ideal_s2w().tx.le(cam.v().min_x()),
{
    lemma_transforms_ideal(cam.screen, cam.view_box, cam.zoom);
    lemma_fit_law(cam.v());
}

} // verus!
