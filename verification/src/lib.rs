//! A Julia set renderer.
//!
//! The pipeline maps a pixel grid onto a bounded window of the complex plane,
//! runs the quadratic Julia recurrence `z <- z * z + c` per pixel up to an
//! iteration budget, and turns the escape count into an RGBA color through a
//! hue-rotation scheme.
//!
//! All plane arithmetic is fixed-point: an `i64` value `v` stands for the real
//! number `v / SCALE`. This keeps every step of the pipeline in exactly
//! specified integer arithmetic.

use vstd::prelude::*;

pub mod color;
pub mod engine;
pub mod fixed;
pub mod render;
pub mod session;
pub mod viewport;

verus! {

/// Pixel width of the rendered surface.
pub const WIDTH: u32 = 800;

/// Pixel height of the rendered surface.
pub const HEIGHT: u32 = 600;

/// Iteration budget of the divergence test. Deliberately small: the renderer
/// recomputes the whole frame on every pointer move, so responsiveness wins
/// over color smoothness.
pub const MAX_ITER: u32 = 10;

/// Scale applied to the escape count before it is turned into a hue.
pub const COLOR_FACTOR: u32 = 100;

/// Default Julia parameter, real part (fixed-point; about -0.7).
pub const DEFAULT_C_RE: i64 = -45875;

/// Default Julia parameter, imaginary part (fixed-point; about 0.27015).
pub const DEFAULT_C_IM: i64 = 17704;

/// A point of the complex plane in fixed-point coordinates: `re` and `im`
/// each stand for the real number `value / SCALE`.
#[derive(Clone, Copy, Debug, PartialEq, Eq, Structural)]
pub struct Complex {
    pub re: i64,
    pub im: i64,
}

impl Complex {
    /// Both coordinates lie within the magnitude bound that keeps the
    /// iteration arithmetic inside `i64`.
    pub open spec fn in_range(self) -> bool {
        &&& -crate::fixed::COORD_LIMIT <= self.re <= crate::fixed::COORD_LIMIT
        &&& -crate::fixed::COORD_LIMIT <= self.im <= crate::fixed::COORD_LIMIT
    }
}

} // verus!
