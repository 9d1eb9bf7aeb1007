//! The divergence engine: iterates the quadratic Julia recurrence
//! `z <- z * z + c` and reports the escape iteration count.

use crate::fixed::lemma_mul_fix_bound;
use crate::fixed::mul_fix;
use crate::fixed::mul_fix_spec;
use crate::fixed::COORD_LIMIT;
use crate::fixed::SCALE;
use crate::Complex;
use vstd::prelude::*;

verus! {

/// The point has left the escape radius 2: its squared magnitude exceeds 4.
/// Stated on raw scaled coordinates, so the products carry the factor
/// `SCALE * SCALE`.
pub open spec fn escaped(zre: int, zim: int) -> bool {
    zre * zre + zim * zim > 4 * (SCALE as int) * (SCALE as int)
}

/// One step of the Julia recurrence, real part: `re(z * z + c)`.
pub open spec fn step_re(zre: int, zim: int, cre: int) -> int {
    mul_fix_spec(zre, zre) - mul_fix_spec(zim, zim) + cre
}

/// One step of the Julia recurrence, imaginary part: `im(z * z + c)`.
pub open spec fn step_im(zre: int, zim: int, cim: int) -> int {
    2 * mul_fix_spec(zre, zim) + cim
}

/// The escape count: how many recurrence steps the point `(zre, zim)` takes
/// under parameter `(cre, cim)` before its squared magnitude exceeds 4, with
/// at most `fuel` steps. A count equal to `fuel` means the point never
/// escaped within the budget.
pub open spec fn escape_spec(zre: int, zim: int, cre: int, cim: int, fuel: nat) -> nat
    decreases fuel,
{
    if escaped(zre, zim) || fuel == 0 {
        0
    } else {
        1 + escape_spec(
            step_re(zre, zim, cre),
            step_im(zre, zim, cim),
            cre,
            cim,
            (fuel - 1) as nat,
        )
    }
}

/// The escape count never exceeds the budget.
pub proof fn lemma_escape_le_fuel(zre: int, zim: int, cre: int, cim: int, fuel: nat)
    ensures
        escape_spec(zre, zim, cre, cim, fuel) <= fuel,
    decreases fuel,
{
    if !escaped(zre, zim) && fuel > 0 {
        lemma_escape_le_fuel(
            step_re(zre, zim, cre),
            step_im(zre, zim, cim),
            cre,
            cim,
            (fuel - 1) as nat,
        );
    }
}

/// Raising the iteration budget never decreases the escape count; and a
/// count that came in under the smaller budget is already final: a larger
/// budget returns it unchanged.
pub proof fn lemma_escape_monotonic(
    zre: int,
    zim: int,
    cre: int,
    cim: int,
    fuel1: nat,
    fuel2: nat,
)
    requires
        fuel1 <= fuel2,
    ensures
        escape_spec(zre, zim, cre, cim, fuel1) <= escape_spec(zre, zim, cre, cim, fuel2),
        escape_spec(zre, zim, cre, cim, fuel1) < fuel1 ==> escape_spec(zre, zim, cre, cim, fuel2)
            == escape_spec(zre, zim, cre, cim, fuel1),
    decreases fuel1,
{
    if !escaped(zre, zim) && fuel1 > 0 {
        lemma_escape_monotonic(
            step_re(zre, zim, cre),
            step_im(zre, zim, cim),
            cre,
            cim,
            (fuel1 - 1) as nat,
            (fuel2 - 1) as nat,
        );
    }
}

/// The origin never escapes under the parameter 0: the recurrence keeps it
/// at the origin, so the escape count always equals the full budget.
pub proof fn lemma_origin_never_escapes(fuel: nat)
    ensures
        escape_spec(0, 0, 0, 0, fuel) == fuel,
    decreases fuel,
{
    if fuel > 0 {
        assert(mul_fix_spec(0, 0) == 0);
        lemma_origin_never_escapes((fuel - 1) as nat);
    }
}

/// Runs the Julia recurrence on `z` under parameter `c` and returns the
/// iteration at which `z` left the escape radius, or `max_iter` if it never
/// did within the budget.
pub fn escape(z: Complex, c: Complex, max_iter: u32) -> (count: u32)
    requires
        z.in_range(),
        c.in_range(),
    ensures
        count == escape_spec(z.re as int, z.im as int, c.re as int, c.im as int, max_iter as nat),
        count <= max_iter,
{
    let mut px: i64 = z.re;
    let mut py: i64 = z.im;
    let mut i: u32 = 0;
    proof {
        lemma_escape_le_fuel(z.re as int, z.im as int, c.re as int, c.im as int, max_iter as nat);
        assert(-17301504 <= px <= 17301504 && -17301504 <= py <= 17301504);
        assert(0 <= px as int * px as int <= 0x4_0000_0000_0000) by (nonlinear_arith)
            requires
                -17301504 <= px <= 17301504,
        ;
        assert(0 <= py as int * py as int <= 0x4_0000_0000_0000) by (nonlinear_arith)
            requires
                -17301504 <= py <= 17301504,
        ;
    }
    while px * px + py * py <= 4 * SCALE * SCALE && i < max_iter
        invariant
            i <= max_iter,
            c.in_range(),
            -COORD_LIMIT - 8 * SCALE <= px <= COORD_LIMIT + 8 * SCALE,
            -COORD_LIMIT - 8 * SCALE <= py <= COORD_LIMIT + 8 * SCALE,
            0 <= px as int * px as int <= 0x4_0000_0000_0000,
            0 <= py as int * py as int <= 0x4_0000_0000_0000,
            escape_spec(z.re as int, z.im as int, c.re as int, c.im as int, max_iter as nat) == i
                + escape_spec(px as int, py as int, c.re as int, c.im as int, (max_iter - i) as nat),
            escape_spec(px as int, py as int, c.re as int, c.im as int, (max_iter - i) as nat)
                <= max_iter - i,
        decreases max_iter - i,
    {
        proof {
            assert(-2 * SCALE <= px <= 2 * SCALE && -2 * SCALE <= py <= 2 * SCALE)
                by (nonlinear_arith)
                requires
                    px as int * px as int + py as int * py as int <= 4 * (SCALE as int) * (
                    SCALE as int),
            ;
            lemma_mul_fix_bound(px as int, px as int, 2 * SCALE as int, 2 * SCALE as int);
            lemma_mul_fix_bound(py as int, py as int, 2 * SCALE as int, 2 * SCALE as int);
            lemma_mul_fix_bound(px as int, py as int, 2 * SCALE as int, 2 * SCALE as int);
            assert((2 * SCALE as int * (2 * SCALE as int)) / (SCALE as int) == 4 * SCALE) by {
                vstd::arithmetic::div_mod::lemma_div_multiples_vanish(4 * SCALE as int, SCALE as int);
                assert(2 * SCALE as int * (2 * SCALE as int) == SCALE as int * (4 * SCALE as int))
                    by (nonlinear_arith);
            }
            assert(mul_fix_spec(px as int, px as int) >= 0 && mul_fix_spec(py as int, py as int)
                >= 0) by {
                crate::fixed::lemma_mul_fix_abs(px as int, px as int);
                crate::fixed::lemma_mul_fix_abs(py as int, py as int);
                assert(px as int * px as int >= 0 && py as int * py as int >= 0)
                    by (nonlinear_arith);
            }
        }
        let re2: i64 = mul_fix(px, px);
        let im2: i64 = mul_fix(py, py);
        let cross: i64 = mul_fix(px, py);
        let tmp: i64 = re2 - im2 + c.re;
        py = 2 * cross + c.im;
        px = tmp;
        i = i + 1;
        proof {
            assert(-17301504 <= px <= 17301504 && -17301504 <= py <= 17301504);
            assert(0 <= px as int * px as int <= 0x4_0000_0000_0000) by (nonlinear_arith)
                requires
                    -17301504 <= px <= 17301504,
            ;
            assert(0 <= py as int * py as int <= 0x4_0000_0000_0000) by (nonlinear_arith)
                requires
                    -17301504 <= py <= 17301504,
            ;
        }
    }
    i
}

} // verus!
