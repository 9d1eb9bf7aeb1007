//! The viewport: a linear, aspect-ratio-preserving mapping from integer pixel
//! coordinates to fixed-point complex-plane coordinates.

use crate::fixed::abs_i;
use crate::fixed::mul_div;
use crate::fixed::mul_div_spec;
use crate::fixed::COORD_LIMIT;
use crate::Complex;
use vstd::arithmetic::div_mod::lemma_div_is_ordered;
use vstd::arithmetic::div_mod::lemma_div_multiples_vanish;
use vstd::arithmetic::div_mod::lemma_div_multiples_vanish_fancy;
use vstd::arithmetic::div_mod::lemma_div_nonincreasing;
use vstd::arithmetic::div_mod::lemma_div_of0;
use vstd::arithmetic::div_mod::lemma_div_pos_is_pos;
use vstd::arithmetic::div_mod::lemma_fundamental_div_mod;
use vstd::arithmetic::div_mod::lemma_mod_bound;
use vstd::prelude::*;

verus! {

/// Base plane window before aspect correction: x runs over [-2, 2],
/// so its range is 4.0 in fixed-point terms.
pub const BASE_X_RANGE: i64 = 262144;

/// Base plane window before aspect correction: y runs from 1 down to -1,
/// so its (top-to-bottom) range is 2.0 in fixed-point terms.
pub const BASE_Y_RANGE: i64 = 131072;

/// Largest accepted pixel dimension.
pub const MAX_DIM: u32 = 16384;

/// Magnitude bound on the pixel coordinates accepted by `pixel_to_plane`;
/// generous enough for any pointer position a host could report.
pub const PIXEL_LIMIT: i64 = 1048576;

/// The static mapping between the pixel grid and a window of the complex
/// plane. Ranges are stored as positive magnitudes: plane x grows to the
/// right, plane y shrinks downward.
#[derive(Clone, Copy, Debug, PartialEq, Eq, Structural)]
pub struct Viewport {
    pub width: u32,
    pub height: u32,
    pub x_start: i64,
    pub y_start: i64,
    pub x_range: i64,
    pub y_range: i64,
    pub x_inc: i64,
    pub y_inc: i64,
}

impl Viewport {
    /// Internal consistency: positive bounded dimensions and ranges, the
    /// window centered on the origin, and per-pixel increments derived from
    /// range and dimension, rounded up so that a full row (or column) of
    /// increments covers the whole range.
    pub open spec fn wf(self) -> bool {
        &&& 1 <= self.width <= MAX_DIM
        &&& 1 <= self.height <= MAX_DIM
        &&& 0 < self.x_range <= COORD_LIMIT
        &&& 0 < self.y_range <= COORD_LIMIT
        &&& self.x_start == -(self.x_range as int / 2)
        &&& self.y_start == self.y_range as int / 2
        &&& self.x_inc == (self.x_range + self.width - 1) as int / self.width as int
        &&& self.y_inc == (self.y_range + self.height - 1) as int / self.height as int
    }

    /// Plane x coordinate of pixel column `px`: `x_start + px * x_range /
    /// width`, the quotient truncated toward zero. Dividing after the
    /// multiplication keeps every column within one scaled unit of the exact
    /// linear map, across the whole row.
    pub open spec fn plane_x(self, px: int) -> int {
        self.x_start + mul_div_spec(px, self.x_range as int, self.width as int)
    }

    /// Plane y coordinate of pixel row `py`: `y_start - py * y_range /
    /// height`, the quotient truncated toward zero.
    pub open spec fn plane_y(self, py: int) -> int {
        self.y_start - mul_div_spec(py, self.y_range as int, self.height as int)
    }

    /// The aspect-correction policy of `build`: exactly the axis whose base
    /// range falls short of the pixel aspect ratio is expanded, the other
    /// keeps its base range. A grid at the base ratio exactly keeps both.
    pub open spec fn built_ranges(self, width: int, height: int) -> bool {
        &&& width > 2 * height ==> self.x_range == (width * BASE_Y_RANGE) / height
            && self.y_range == BASE_Y_RANGE
        &&& width <= 2 * height ==> self.x_range == BASE_X_RANGE && self.y_range == (height
            * BASE_X_RANGE) / width
    }

    /// Builds the viewport for a `width` by `height` pixel grid from the base
    /// plane window [-2, 2] x [1, -1]. Exactly one axis of the base window is
    /// expanded (never cropped) until the plane aspect ratio matches the pixel
    /// aspect ratio, and the window is then re-centered on the origin.
    ///
    /// The dimension bounds keep every product of the fixed-point mapping
    /// inside `i64`.
    pub fn build(width: u32, height: u32) -> (vp: Viewport)
        requires
            1 <= width <= MAX_DIM,
            1 <= height <= MAX_DIM,
            width <= 64 * height,
            height <= 64 * width,
        ensures
            vp.wf(),
            vp.width == width,
            vp.height == height,
            vp.built_ranges(width as int, height as int),
    {
        let w: u64 = width as u64;
        let h: u64 = height as u64;
        let wide: bool = w * (BASE_Y_RANGE as u64) > h * (BASE_X_RANGE as u64);
        let xr: u64 = if wide {
            (w * (BASE_Y_RANGE as u64)) / h
        } else {
            BASE_X_RANGE as u64
        };
        let yr: u64 = if wide {
            BASE_Y_RANGE as u64
        } else {
            (h * (BASE_X_RANGE as u64)) / w
        };
        proof {
            if wide {
                assert(w as int * 131072 <= (h as int) * 8388608) by (nonlinear_arith)
                    requires
                        w <= 64 * h,
                ;
                lemma_div_is_ordered(w as int * 131072, h as int * 8388608, h as int);
                lemma_div_multiples_vanish(8388608, h as int);
                assert(h as int <= w as int * 131072) by (nonlinear_arith)
                    requires
                        1 <= w,
                        h <= 16384,
                ;
                lemma_div_is_ordered(h as int, w as int * 131072, h as int);
                lemma_div_multiples_vanish(1, h as int);
            } else {
                assert(h as int * 262144 <= (w as int) * 16777216) by (nonlinear_arith)
                    requires
                        h <= 64 * w,
                ;
                lemma_div_is_ordered(h as int * 262144, w as int * 16777216, w as int);
                lemma_div_multiples_vanish(16777216, w as int);
                assert(w as int <= h as int * 262144) by (nonlinear_arith)
                    requires
                        1 <= h,
                        w <= 16384,
                ;
                lemma_div_is_ordered(w as int, h as int * 262144, w as int);
                lemma_div_multiples_vanish(1, w as int);
            }
        }
        Viewport {
            width,
            height,
            x_start: -((xr / 2) as i64),
            y_start: (yr / 2) as i64,
            x_range: xr as i64,
            y_range: yr as i64,
            x_inc: ((xr + w - 1) / w) as i64,
            y_inc: ((yr + h - 1) / h) as i64,
        }
    }

    /// Maps a pixel coordinate to the plane point it stands for. The mapping
    /// is a pure linear extrapolation: coordinates outside the pixel grid map
    /// to plane points outside the viewport window, exactly as the grid
    /// points do inside it.
    pub fn pixel_to_plane(&self, px: i64, py: i64) -> (p: Complex)
        requires
            self.wf(),
            -PIXEL_LIMIT <= px <= PIXEL_LIMIT,
            -PIXEL_LIMIT <= py <= PIXEL_LIMIT,
        ensures
            p.re == self.plane_x(px as int),
            p.im == self.plane_y(py as int),
    {
        let dx: i64 = mul_div(px, self.x_range, self.width as i64);
        let dy: i64 = mul_div(py, self.y_range, self.height as i64);
        proof {
            crate::fixed::lemma_mul_div_abs(px as int, self.x_range as int, self.width as int);
            crate::fixed::lemma_mul_div_abs(py as int, self.y_range as int, self.height as int);
            lemma_div_nonincreasing(abs_i(px as int) * self.x_range as int, self.width as int);
            lemma_div_nonincreasing(abs_i(py as int) * self.y_range as int, self.height as int);
            assert(abs_i(px as int) * self.x_range as int <= PIXEL_LIMIT * COORD_LIMIT)
                by (nonlinear_arith)
                requires
                    0 <= abs_i(px as int) <= PIXEL_LIMIT,
                    0 <= self.x_range <= COORD_LIMIT,
            ;
            assert(abs_i(py as int) * self.y_range as int <= PIXEL_LIMIT * COORD_LIMIT)
                by (nonlinear_arith)
                requires
                    0 <= abs_i(py as int) <= PIXEL_LIMIT,
                    0 <= self.y_range <= COORD_LIMIT,
            ;
        }
        Complex { re: self.x_start + dx, im: self.y_start - dy }
    }

    /// Every pixel of the grid maps to a plane point whose coordinates stay
    /// within one range magnitude of the origin, and so within the bound the
    /// divergence engine accepts.
    pub proof fn lemma_pixel_in_viewport(self, px: int, py: int)
        requires
            self.wf(),
            0 <= px < self.width,
            0 <= py < self.height,
        ensures
            abs_i(self.plane_x(px)) <= self.x_range,
            abs_i(self.plane_y(py)) <= self.y_range,
    {
        assert(0 <= px * self.x_range <= self.width as int * self.x_range) by (nonlinear_arith)
            requires
                0 <= px < self.width,
                0 < self.x_range,
        ;
        assert(0 <= py * self.y_range <= self.height as int * self.y_range) by (nonlinear_arith)
            requires
                0 <= py < self.height,
                0 < self.y_range,
        ;
        lemma_div_is_ordered(px * self.x_range, self.width as int * self.x_range, self.width as int);
        lemma_div_multiples_vanish(self.x_range as int, self.width as int);
        lemma_div_pos_is_pos(px * self.x_range, self.width as int);
        lemma_div_is_ordered(
            py * self.y_range,
            self.height as int * self.y_range,
            self.height as int,
        );
        lemma_div_multiples_vanish(self.y_range as int, self.height as int);
        lemma_div_pos_is_pos(py * self.y_range, self.height as int);
        lemma_div_nonincreasing(self.x_range as int, 2);
        lemma_div_nonincreasing(self.y_range as int, 2);
        lemma_div_pos_is_pos(self.x_range as int, 2);
        lemma_div_pos_is_pos(self.y_range as int, 2);
    }

    /// The top-left pixel maps exactly onto the top-left plane corner of the
    /// viewport window.
    pub proof fn lemma_top_left_corner(self)
        requires
            self.wf(),
        ensures
            self.plane_x(0) == self.x_start,
            self.plane_y(0) == self.y_start,
    {
        lemma_div_of0(self.width as int);
        lemma_div_of0(self.height as int);
    }

    /// The bottom-right pixel maps within one per-pixel increment of the
    /// bottom-right plane corner `(x_start + x_range, y_start - y_range)`:
    /// the gap on each axis is exactly one increment, as it should be for
    /// the last pixel before the window's edge.
    pub proof fn lemma_bottom_right_corner(self)
        requires
            self.wf(),
        ensures
            (self.x_start + self.x_range) - self.plane_x(self.width - 1) == self.x_inc,
            self.plane_y(self.height - 1) - (self.y_start - self.y_range) == self.y_inc,
            0 < self.x_inc,
            0 < self.y_inc,
    {
        lemma_last_step(self.x_range as int, self.width as int);
        lemma_last_step(self.y_range as int, self.height as int);
        assert((self.width - 1) * self.x_range >= 0) by (nonlinear_arith)
            requires
                1 <= self.width,
                0 < self.x_range,
        ;
        assert((self.height - 1) * self.y_range >= 0) by (nonlinear_arith)
            requires
                1 <= self.height,
                0 < self.y_range,
        ;
    }
}

/// For a positive range over a positive dimension, the last grid step —
/// from column `dim - 1` to the range's end — is exactly the rounded-up
/// per-pixel increment: `range - (dim - 1) * range / dim` equals
/// `(range + dim - 1) / dim`, and it is positive.
proof fn lemma_last_step(range: int, dim: int)
    requires
        0 < range,
        0 < dim,
    ensures
        range - ((dim - 1) * range) / dim == (range + dim - 1) / dim,
        0 < (range + dim - 1) / dim,
{
    let q = range / dim;
    let r = range % dim;
    lemma_fundamental_div_mod(range, dim);
    lemma_mod_bound(range, dim);
    if r == 0 {
        assert((dim - 1) * range == dim * (range - q)) by (nonlinear_arith)
            requires
                range == dim * q + r,
                r == 0,
        ;
        lemma_div_multiples_vanish(range - q, dim);
        assert(range + dim - 1 == dim * q + (dim - 1));
        lemma_div_multiples_vanish_fancy(q, dim - 1, dim);
        assert(1 <= q) by (nonlinear_arith)
            requires
                range == dim * q,
                0 < range,
                0 < dim,
        ;
    } else {
        assert((dim - 1) * range == dim * (range - q - 1) + (dim - r)) by (nonlinear_arith)
            requires
                range == dim * q + r,
        ;
        lemma_div_multiples_vanish_fancy(range - q - 1, dim - r, dim);
        assert(range + dim - 1 == dim * (q + 1) + (r - 1)) by (nonlinear_arith)
            requires
                range == dim * q + r,
        ;
        lemma_div_multiples_vanish_fancy(q + 1, r - 1, dim);
        lemma_div_pos_is_pos(range, dim);
    }
}

} // verus!
