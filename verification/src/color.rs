//! The colorizer: turns an escape count into an RGBA color through a
//! hue-rotation scheme and an HSB-to-RGB transform.
//!
//! Saturation and brightness are fixed-point values in `[0, COLOR_UNIT]`
//! standing for the real interval `[0.0, 1.0]`; the hue is an integer number
//! of degrees in `[0, 360)`.

use crate::fixed::abs_i;
use crate::COLOR_FACTOR;
use crate::MAX_ITER;
use vstd::arithmetic::div_mod::lemma_div_is_ordered;
use vstd::arithmetic::div_mod::lemma_div_multiples_vanish;
use vstd::arithmetic::div_mod::lemma_hoist_over_denominator;
use vstd::arithmetic::div_mod::lemma_mod_add_multiples_vanish;
use vstd::prelude::*;

verus! {

/// Fixed-point unit of saturation and brightness: the value `COLOR_UNIT`
/// stands for 1.0.
pub const COLOR_UNIT: u32 = 65536;

/// An opaque RGBA color, one byte per channel.
#[derive(Clone, Copy, Debug, PartialEq, Eq, Structural)]
pub struct Rgba {
    pub r: u8,
    pub g: u8,
    pub b: u8,
    pub a: u8,
}

/// The hue, in degrees of `[0, 360)`, assigned to an escape count:
/// `(color_factor * count / max_iter) mod 360`.
pub open spec fn hue_of(count: int, max_iter: int, color_factor: int) -> int {
    (color_factor * count / max_iter) % 360
}

/// HSB chroma: `brightness * saturation`, rescaled.
pub open spec fn chroma_of(sat: int, bri: int) -> int {
    bri * sat / (COLOR_UNIT as int)
}

/// The secondary HSB component: `chroma * (1 - |h' mod 2 - 1|)` for
/// `h' = hue / 60`, carried out on integer degrees.
pub open spec fn x_of(hue: int, sat: int, bri: int) -> int {
    chroma_of(sat, bri) * (60 - abs_i(hue % 120 - 60)) / 60
}

/// The pre-offset (r, g, b) triple selected by the sextant the hue falls in.
pub open spec fn sextant_of(hue: int, chroma: int, x: int) -> (int, int, int) {
    let s = hue / 60;
    if s == 0 {
        (chroma, x, 0)
    } else if s == 1 {
        (x, chroma, 0)
    } else if s == 2 {
        (0, chroma, x)
    } else if s == 3 {
        (0, x, chroma)
    } else if s == 4 {
        (x, 0, chroma)
    } else {
        (chroma, 0, x)
    }
}

/// A final 8-bit channel: `(component + m) * 255`, truncated back from
/// fixed-point.
pub open spec fn channel_of(comp: int, m: int) -> int {
    (comp + m) * 255 / (COLOR_UNIT as int)
}

/// The full HSB-to-RGB transform on fixed-point saturation and brightness
/// and an integer hue.
pub open spec fn rgb_spec(hue: int, sat: int, bri: int) -> (int, int, int) {
    let c = chroma_of(sat, bri);
    let x = x_of(hue, sat, bri);
    let m = bri - c;
    let triple = sextant_of(hue, c, x);
    (channel_of(triple.0, m), channel_of(triple.1, m), channel_of(triple.2, m))
}

/// The color of an escape count: opaque black for a count that exhausted the
/// budget (the point is taken as inside the set), otherwise the hue-rotated
/// fully saturated, fully bright color of the count.
pub open spec fn colorize_spec(count: int, max_iter: int, color_factor: int) -> (int, int, int, int) {
    if count == max_iter {
        (0, 0, 0, 255)
    } else {
        let rgb = rgb_spec(
            hue_of(count, max_iter, color_factor),
            COLOR_UNIT as int,
            COLOR_UNIT as int,
        );
        (rgb.0, rgb.1, rgb.2, 255)
    }
}

/// One 8-bit output channel of the HSB transform.
fn channel(comp: u32, m: u32) -> (r: u8)
    requires
        comp + m <= COLOR_UNIT,
    ensures
        r as int == channel_of(comp as int, m as int),
{
    proof {
        lemma_div_is_ordered((comp + m) as int * 255, 65536int * 255, 65536);
        lemma_div_multiples_vanish(255, 65536);
    }
    ((((comp + m) as u64) * 255) / 65536) as u8
}

/// Converts an HSB color with integer hue in `[0, 360)` and fixed-point
/// saturation and brightness in `[0, COLOR_UNIT]` to its RGB bytes, each
/// channel truncated toward zero.
pub fn hsb_to_rgb(hue: u32, sat: u32, bri: u32) -> (rgb: (u8, u8, u8))
    requires
        hue < 360,
        sat <= COLOR_UNIT,
        bri <= COLOR_UNIT,
    ensures
        (rgb.0 as int, rgb.1 as int, rgb.2 as int) == rgb_spec(hue as int, sat as int, bri as int),
{
    proof {
        assert(bri as int * sat as int <= bri as int * 65536) by (nonlinear_arith)
            requires
                0 <= bri,
                0 <= sat <= 65536,
        ;
        lemma_div_is_ordered(bri as int * sat as int, bri as int * 65536, 65536);
        assert(bri as int * 65536 == 65536 * bri as int) by (nonlinear_arith);
        lemma_div_multiples_vanish(bri as int, 65536);
        assert(0 <= bri as int * sat as int) by (nonlinear_arith)
            requires
                0 <= bri,
                0 <= sat,
        ;
        vstd::arithmetic::div_mod::lemma_div_pos_is_pos(bri as int * sat as int, 65536);
    }
    let c: u32 = (((bri as u64) * (sat as u64)) / 65536) as u32;
    let hm: u32 = hue % 120;
    let dist: u32 = if hm >= 60 {
        hm - 60
    } else {
        60 - hm
    };
    proof {
        assert(dist == abs_i(hue as int % 120 - 60));
        assert(c as int * (60 - dist) <= c as int * 60) by (nonlinear_arith)
            requires
                0 <= c,
                0 <= dist <= 60,
        ;
        lemma_div_is_ordered(c as int * (60 - dist), c as int * 60, 60);
        assert(c as int * 60 == 60 * c as int) by (nonlinear_arith);
        lemma_div_multiples_vanish(c as int, 60);
        assert(0 <= c as int * (60 - dist)) by (nonlinear_arith)
            requires
                0 <= c,
                dist <= 60,
        ;
        vstd::arithmetic::div_mod::lemma_div_pos_is_pos(c as int * (60 - dist), 60);
    }
    let x: u32 = (((c as u64) * ((60 - dist) as u64)) / 60) as u32;
    let m: u32 = bri - c;
    let s: u32 = hue / 60;
    let (r0, g0, b0): (u32, u32, u32) = if s == 0 {
        (c, x, 0)
    } else if s == 1 {
        (x, c, 0)
    } else if s == 2 {
        (0, c, x)
    } else if s == 3 {
        (0, x, c)
    } else if s == 4 {
        (x, 0, c)
    } else {
        (c, 0, x)
    };
    (channel(r0, m), channel(g0, m), channel(b0, m))
}

/// The RGBA color of the escape count `count` under iteration budget
/// `max_iter`: opaque black exactly when the count exhausted the budget,
/// otherwise the fully saturated, fully bright color of the count's hue.
pub fn colorize(count: u32, max_iter: u32, color_factor: u32) -> (color: Rgba)
    requires
        count <= max_iter,
    ensures
        (color.r as int, color.g as int, color.b as int, color.a as int) == colorize_spec(
            count as int,
            max_iter as int,
            color_factor as int,
        ),
        count == max_iter ==> color == (Rgba { r: 0, g: 0, b: 0, a: 255 }),
        color.a == 255,
{
    if count == max_iter {
        Rgba { r: 0, g: 0, b: 0, a: 255 }
    } else {
        proof {
            assert(0 <= color_factor as int * count as int) by (nonlinear_arith)
                requires
                    0 <= color_factor,
                    0 <= count,
            ;
            vstd::arithmetic::div_mod::lemma_div_pos_is_pos(
                color_factor as int * count as int,
                max_iter as int,
            );
            vstd::arithmetic::div_mod::lemma_mod_bound(
                color_factor as int * count as int / max_iter as int,
                360,
            );
            assert(color_factor as int * count as int <= 0xFFFF_FFFF * 0xFFFF_FFFF)
                by (nonlinear_arith)
                requires
                    0 <= color_factor <= 0xFFFF_FFFFu64,
                    0 <= count <= 0xFFFF_FFFFu64,
            ;
        }
        let hue: u32 = ((((color_factor as u64) * (count as u64)) / (max_iter as u64)) % 360) as u32;
        let rgb: (u8, u8, u8) = hsb_to_rgb(hue, COLOR_UNIT, COLOR_UNIT);
        Rgba { r: rgb.0, g: rgb.1, b: rgb.2, a: 255 }
    }
}

/// The color of an escape count under the fixed configuration of this
/// renderer: budget `MAX_ITER` and hue scale `COLOR_FACTOR`.
pub fn get_color(i: u32) -> (color: Rgba)
    requires
        i <= MAX_ITER,
    ensures
        (color.r as int, color.g as int, color.b as int, color.a as int) == colorize_spec(
            i as int,
            MAX_ITER as int,
            COLOR_FACTOR as int,
        ),
{
    colorize(i, MAX_ITER, COLOR_FACTOR)
}

/// The hue assigned to an escape count is periodic: counts a period apart
/// get the same hue, where the period satisfies
/// `color_factor * period == 360 * max_iter`.
pub proof fn lemma_hue_periodic(count: int, period: int, max_iter: int, color_factor: int)
    requires
        0 <= count,
        0 < period,
        0 < max_iter,
        color_factor * period == 360 * max_iter,
    ensures
        hue_of(count + period, max_iter, color_factor) == hue_of(count, max_iter, color_factor),
{
    assert(color_factor * (count + period) == color_factor * count + 360 * max_iter)
        by (nonlinear_arith)
        requires
            color_factor * period == 360 * max_iter,
    ;
    lemma_hoist_over_denominator(color_factor * count, 360, max_iter as nat);
    assert(color_factor * (count + period) / max_iter == color_factor * count / max_iter + 360) by {
        assert(360 * max_iter == max_iter * 360) by (nonlinear_arith);
    }
    lemma_mod_add_multiples_vanish(color_factor * count / max_iter, 360);
}

/// Counts a period apart get the same color, as long as neither exhausts the
/// iteration budget (a count equal to `max_iter` is colored black regardless
/// of its hue, so it is left out).
pub proof fn lemma_colorize_periodic(count: int, period: int, max_iter: int, color_factor: int)
    requires
        0 <= count,
        0 < period,
        count + period < max_iter,
        color_factor * period == 360 * max_iter,
    ensures
        colorize_spec(count + period, max_iter, color_factor) == colorize_spec(
            count,
            max_iter,
            color_factor,
        ),
{
    lemma_hue_periodic(count, period, max_iter, color_factor);
}

} // verus!
