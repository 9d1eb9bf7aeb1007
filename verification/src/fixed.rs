//! Fixed-point arithmetic for plane coordinates.
//!
//! A coordinate is an `i64` whose real value is `v / SCALE`. Scaled products
//! and quotients are truncated toward zero, which the spec functions below
//! pin down exactly.

use vstd::arithmetic::div_mod::lemma_div_is_ordered;
use vstd::arithmetic::div_mod::lemma_div_nonincreasing;
use vstd::prelude::*;

verus! {

/// Fixed-point unit: a scaled value `v` stands for the real number
/// `v / SCALE`.
pub const SCALE: i64 = 65536;

/// Magnitude bound on scaled coordinates fed to the divergence engine
/// (256.0 in real terms). It keeps every product of the iteration inside
/// `i64`.
pub const COORD_LIMIT: i64 = 16777216;

/// Absolute value of a mathematical integer.
pub open spec fn abs_i(a: int) -> int {
    if a >= 0 {
        a
    } else {
        -a
    }
}

/// The product `a * b` divided by `d`, truncated toward zero: the one
/// rounding rule of this library's fixed-point arithmetic.
pub open spec fn mul_div_spec(a: int, b: int, d: int) -> int {
    if a * b >= 0 {
        (a * b) / d
    } else {
        -((-(a * b)) / d)
    }
}

/// The scaled product of two fixed-point values: the fixed-point counterpart
/// of real multiplication.
pub open spec fn mul_fix_spec(a: int, b: int) -> int {
    mul_div_spec(a, b, SCALE as int)
}

/// The magnitude of a truncated product-quotient is the quotient of the
/// magnitudes.
pub proof fn lemma_mul_div_abs(a: int, b: int, d: int)
    requires
        0 < d,
    ensures
        abs_i(mul_div_spec(a, b, d)) == (abs_i(a) * abs_i(b)) / d,
        mul_div_spec(a, b, d) == if a * b >= 0 {
            ((abs_i(a) * abs_i(b)) / d)
        } else {
            (-((abs_i(a) * abs_i(b)) / d))
        },
{
    assert(abs_i(a) * abs_i(b) == abs_i(a * b)) by (nonlinear_arith);
    if a * b >= 0 {
        assert((a * b) / d >= 0) by (nonlinear_arith)
            requires
                a * b >= 0,
                0 < d,
        ;
    } else {
        assert((-(a * b)) / d >= 0) by (nonlinear_arith)
            requires
                a * b < 0,
                0 < d,
        ;
    }
}

/// Specialization of `lemma_mul_div_abs` to the fixed-point scale.
pub proof fn lemma_mul_fix_abs(a: int, b: int)
    ensures
        abs_i(mul_fix_spec(a, b)) == (abs_i(a) * abs_i(b)) / (SCALE as int),
        mul_fix_spec(a, b) == if a * b >= 0 {
            ((abs_i(a) * abs_i(b)) / (SCALE as int))
        } else {
            (-((abs_i(a) * abs_i(b)) / (SCALE as int)))
        },
{
    lemma_mul_div_abs(a, b, SCALE as int);
}

/// An upper bound on the magnitude of a truncated scaled product.
pub proof fn lemma_mul_fix_bound(a: int, b: int, bound_a: int, bound_b: int)
    requires
        abs_i(a) <= bound_a,
        abs_i(b) <= bound_b,
        0 <= bound_a,
        0 <= bound_b,
    ensures
        abs_i(mul_fix_spec(a, b)) <= (bound_a * bound_b) / (SCALE as int),
{
    lemma_mul_fix_abs(a, b);
    assert(abs_i(a) * abs_i(b) <= bound_a * bound_b) by (nonlinear_arith)
        requires
            0 <= abs_i(a) <= bound_a,
            0 <= abs_i(b) <= bound_b,
    ;
    lemma_div_is_ordered(abs_i(a) * abs_i(b), bound_a * bound_b, SCALE as int);
}

/// Multiplies two scaled values and divides the product by `d`, truncating
/// toward zero.
pub fn mul_div(a: i64, b: i64, d: i64) -> (r: i64)
    requires
        -0x4000_0000 <= a <= 0x4000_0000,
        -0x4000_0000 <= b <= 0x4000_0000,
        0 < d,
    ensures
        r == mul_div_spec(a as int, b as int, d as int),
{
    let neg: bool = (a < 0) != (b < 0);
    let ua: u64 = if a < 0 {
        (-a) as u64
    } else {
        a as u64
    };
    let ub: u64 = if b < 0 {
        (-b) as u64
    } else {
        b as u64
    };
    proof {
        assert(ua == abs_i(a as int));
        assert(ub == abs_i(b as int));
        assert(ua * ub <= 0x4000_0000 * 0x4000_0000) by (nonlinear_arith)
            requires
                0 <= ua <= 0x4000_0000,
                0 <= ub <= 0x4000_0000,
        ;
    }
    let p: u64 = ua * ub;
    let q: u64 = p / (d as u64);
    proof {
        lemma_mul_div_abs(a as int, b as int, d as int);
        assert((a < 0) == ((a as int) < 0));
        if neg {
            assert(a as int * b as int <= 0) by (nonlinear_arith)
                requires
                    ((a as int) < 0) != ((b as int) < 0),
            ;
        } else {
            assert(a as int * b as int >= 0) by (nonlinear_arith)
                requires
                    ((a as int) < 0) == ((b as int) < 0),
            ;
        }
        lemma_div_nonincreasing(p as int, d as int);
    }
    if neg {
        -(q as i64)
    } else {
        q as i64
    }
}

/// Multiplies two fixed-point values and rescales the product, truncating
/// toward zero.
pub fn mul_fix(a: i64, b: i64) -> (r: i64)
    requires
        -0x4000_0000 <= a <= 0x4000_0000,
        -0x4000_0000 <= b <= 0x4000_0000,
    ensures
        r == mul_fix_spec(a as int, b as int),
{
    mul_div(a, b, SCALE)
}

} // verus!
