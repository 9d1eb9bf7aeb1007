//! The interactive session: the viewport, fixed for the session, and the
//! Julia parameter `c`, rewritten on every pointer move and read on every
//! redraw. Both handlers run to completion on one event-loop turn, so a
//! redraw after a pointer move always sees the updated parameter.

use crate::render::frame_byte;
use crate::render::render;
use crate::viewport::Viewport;
use crate::Complex;
use crate::DEFAULT_C_IM;
use crate::DEFAULT_C_RE;
use vstd::prelude::*;

verus! {

/// A pointer coordinate clamped onto the pixel grid `[0, dim)`.
pub open spec fn clamp_pixel(p: int, dim: int) -> int {
    if p < 0 {
        0
    } else if p >= dim {
        dim - 1
    } else {
        p
    }
}

/// The pointer-to-parameter mapping: the pointer's pixel position, taken to
/// the plane point it hovers over.
///
/// A pointer position outside the pixel grid (hosts can report one near the
/// window edges) is clamped onto the grid first — the parameter always stays
/// inside the viewport window. This is a deliberate choice: the plain grid
/// mapping (`pixel_to_plane`) extrapolates instead.
pub fn plane_param(vp: &Viewport, px: i64, py: i64) -> (c: Complex)
    requires
        vp.wf(),
    ensures
        c.re == vp.plane_x(clamp_pixel(px as int, vp.width as int)),
        c.im == vp.plane_y(clamp_pixel(py as int, vp.height as int)),
        c.in_range(),
{
    let cx: i64 = if px < 0 {
        0
    } else if px >= vp.width as i64 {
        (vp.width - 1) as i64
    } else {
        px
    };
    let cy: i64 = if py < 0 {
        0
    } else if py >= vp.height as i64 {
        (vp.height - 1) as i64
    } else {
        py
    };
    proof {
        vp.lemma_pixel_in_viewport(cx as int, cy as int);
    }
    vp.pixel_to_plane(cx, cy)
}

/// The state a rendering session owns: the immutable viewport and the
/// current Julia parameter.
#[derive(Clone, Copy, Debug, PartialEq, Eq, Structural)]
pub struct Session {
    pub viewport: Viewport,
    pub c: Complex,
}

impl Session {
    /// The viewport is consistent and the parameter stays in the coordinate
    /// range the divergence engine accepts.
    pub open spec fn wf(self) -> bool {
        &&& self.viewport.wf()
        &&& self.c.in_range()
    }

    /// Opens a session for a `width` by `height` surface with the default
    /// Julia parameter, used until the first pointer move.
    pub fn new(width: u32, height: u32) -> (s: Session)
        requires
            1 <= width <= crate::viewport::MAX_DIM,
            1 <= height <= crate::viewport::MAX_DIM,
            width <= 64 * height,
            height <= 64 * width,
        ensures
            s.wf(),
            s.viewport.width == width,
            s.viewport.height == height,
            s.viewport.built_ranges(width as int, height as int),
            s.c.re == DEFAULT_C_RE,
            s.c.im == DEFAULT_C_IM,
    {
        Session {
            viewport: Viewport::build(width, height),
            c: Complex { re: DEFAULT_C_RE, im: DEFAULT_C_IM },
        }
    }

    /// Handles a pointer move: rewrites the Julia parameter to the plane
    /// point under the (clamped) pointer. The viewport never changes.
    pub fn pointer_moved(&mut self, px: i64, py: i64)
        requires
            old(self).wf(),
        ensures
            final(self).wf(),
            final(self).viewport == old(self).viewport,
            final(self).c.re == old(self).viewport.plane_x(
                clamp_pixel(px as int, old(self).viewport.width as int),
            ),
            final(self).c.im == old(self).viewport.plane_y(
                clamp_pixel(py as int, old(self).viewport.height as int),
            ),
    {
        self.c = plane_param(&self.viewport, px, py);
    }

    /// Handles a redraw: overwrites `buf` with the full frame for the
    /// session's viewport and current parameter.
    pub fn render_frame(&self, buf: &mut Vec<u8>, max_iter: u32)
        requires
            self.wf(),
        ensures
            final(buf)@.len() == self.viewport.width as int * self.viewport.height as int * 4,
            forall|j: int|
                0 <= j < self.viewport.width as int * self.viewport.height as int * 4
                    ==> final(buf)@[j] as int == frame_byte(self.viewport, self.c, max_iter as nat, j),
    {
        render(buf, &self.viewport, self.c, max_iter)
    }
}

} // verus!
