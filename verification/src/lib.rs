//! An interactive 2D viewport engine: an orthographic camera mapping between
//! screen, world and clip coordinates, a navigation gesture state machine, and
//! a stroke triangulator producing renderable quad meshes.
//!
//! All coordinates are exact rationals, so the geometric invariants of the
//! camera (zoom anchoring, aspect-preserving fit, clip centering) are proved
//! as exact equalities rather than floating-point approximations.

pub mod camera;
pub mod document;
pub mod frac;
pub mod geometry;
pub mod mesh;
pub mod navigation;
pub mod painter;
pub mod scroll;
pub mod transform;
pub mod triangulation;
