//! The frame renderer: composes viewport mapping, divergence engine and
//! colorizer once per pixel, in row-major order, into an RGBA byte buffer.

use crate::color::colorize;
use crate::color::colorize_spec;
use crate::engine::escape;
use crate::engine::escape_spec;
use crate::viewport::Viewport;
use crate::Complex;
use crate::COLOR_FACTOR;
use vstd::arithmetic::div_mod::lemma_div_is_ordered;
use vstd::arithmetic::div_mod::lemma_div_multiples_vanish_fancy;
use vstd::arithmetic::div_mod::lemma_mod_bound;
use vstd::arithmetic::div_mod::lemma_mod_multiples_vanish;
use vstd::prelude::*;

verus! {

/// The color of the pixel with row-major index `i`: its grid coordinates are
/// mapped to the plane, iterated under `c`, and the escape count colorized
/// with the fixed hue scale `COLOR_FACTOR`.
pub open spec fn pixel_color(vp: Viewport, c: Complex, max_iter: nat, i: int) -> (
    int,
    int,
    int,
    int,
) {
    colorize_spec(
        escape_spec(
            vp.plane_x(i % (vp.width as int)),
            vp.plane_y(i / (vp.width as int)),
            c.re as int,
            c.im as int,
            max_iter,
        ) as int,
        max_iter as int,
        COLOR_FACTOR as int,
    )
}

/// Byte `j` of the rendered frame: the bytes of pixel `j / 4`, in R, G, B, A
/// order.
pub open spec fn frame_byte(vp: Viewport, c: Complex, max_iter: nat, j: int) -> int {
    let pc = pixel_color(vp, c, max_iter, j / 4);
    if j % 4 == 0 {
        pc.0
    } else if j % 4 == 1 {
        pc.1
    } else if j % 4 == 2 {
        pc.2
    } else {
        pc.3
    }
}

/// Renders a full frame: overwrites `buf` with the `width * height * 4` RGBA
/// bytes of the Julia set under parameter `c`, every pixel written, row by
/// row. Fully deterministic in `(vp, c, max_iter)`; nothing of the previous
/// buffer content survives.
pub fn render(buf: &mut Vec<u8>, vp: &Viewport, c: Complex, max_iter: u32)
    requires
        vp.wf(),
        c.in_range(),
    ensures
        final(buf)@.len() == vp.width as int * vp.height as int * 4,
        forall|j: int|
            0 <= j < vp.width as int * vp.height as int * 4 ==> final(buf)@[j] as int
                == frame_byte(*vp, c, max_iter as nat, j),
{
    proof {
        assert(vp.width as int * vp.height as int <= 0x1000_0000) by (nonlinear_arith)
            requires
                vp.width <= 16384,
                vp.height <= 16384,
        ;
        assert(0 < vp.width as int * vp.height as int) by (nonlinear_arith)
            requires
                1 <= vp.width,
                1 <= vp.height,
        ;
    }
    let total: u32 = vp.width * vp.height;
    buf.clear();
    let mut idx: u32 = 0;
    while idx < total
        invariant
            vp.wf(),
            c.in_range(),
            total == vp.width as int * vp.height as int,
            total <= 0x1000_0000,
            idx <= total,
            buf@.len() == 4 * idx,
            forall|j: int|
                0 <= j < 4 * idx ==> buf@[j] as int == frame_byte(*vp, c, max_iter as nat, j),
        decreases total - idx,
    {
        let x: u32 = idx % vp.width;
        let y: u32 = idx / vp.width;
        proof {
            lemma_mod_bound(idx as int, vp.width as int);
            lemma_div_multiples_vanish_fancy(
                vp.height as int - 1,
                vp.width as int - 1,
                vp.width as int,
            );
            assert(vp.width as int * (vp.height as int - 1) + (vp.width as int - 1) == vp.width
                as int * vp.height as int - 1) by (nonlinear_arith);
            lemma_div_is_ordered(
                idx as int,
                vp.width as int * vp.height as int - 1,
                vp.width as int,
            );
            vp.lemma_pixel_in_viewport(x as int, y as int);
        }
        let z: Complex = vp.pixel_to_plane(x as i64, y as i64);
        let count: u32 = escape(z, c, max_iter);
        let color: crate::color::Rgba = colorize(count, max_iter, COLOR_FACTOR);
        buf.push(color.r);
        buf.push(color.g);
        buf.push(color.b);
        buf.push(color.a);
        proof {
            lemma_div_multiples_vanish_fancy(idx as int, 0, 4);
            lemma_div_multiples_vanish_fancy(idx as int, 1, 4);
            lemma_div_multiples_vanish_fancy(idx as int, 2, 4);
            lemma_div_multiples_vanish_fancy(idx as int, 3, 4);
            lemma_mod_multiples_vanish(idx as int, 0, 4);
            lemma_mod_multiples_vanish(idx as int, 1, 4);
            lemma_mod_multiples_vanish(idx as int, 2, 4);
            lemma_mod_multiples_vanish(idx as int, 3, 4);
        }
        idx = idx + 1;
    }
    proof {
        assert(4 * total as int == vp.width as int * vp.height as int * 4);
    }
}

} // verus!
