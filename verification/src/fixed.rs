//! Q16 fixed-point arithmetic shared by the ring buffer and the engine.
//!
//! A value `v: i64` stands for the real number `v / 65536`.  Division is
//! truncating (it rounds toward zero), which is the rounding every fixed-point
//! operation of this crate uses.

use vstd::prelude::*;

verus! {

/// One whole unit in Q16: values count multiples of `1 / FRAC_ONE`.
pub const FRAC_ONE: i64 = 65536;

/// Half of a unit in Q16.
pub const FRAC_HALF: i64 = 32768;

/// Largest magnitude a sample may take (`2^40`, about sixteen million whole
/// units).  The engine clamps every computed sample into
/// `[-SAMPLE_LIMIT, SAMPLE_LIMIT]`, so intermediate products stay well inside
/// `i64` and the output can never leave the finite sample range.
pub const SAMPLE_LIMIT: i64 = 1099511627776;

/// Truncating division: the quotient is rounded toward zero.
pub open spec fn div_trunc(a: int, b: int) -> int {
    if a >= 0 {
        a / b
    } else {
        -((-a) / b)
    }
}

/// Magnitude of an integer.
pub open spec fn abs_spec(v: int) -> int {
    if v >= 0 {
        v
    } else {
        -v
    }
}

/// `v` forced into `[lo, hi]`.
pub open spec fn clamp_spec(v: int, lo: int, hi: int) -> int {
    if v < lo {
        lo
    } else if v > hi {
        hi
    } else {
        v
    }
}

/// A sample the engine may store or emit.
pub open spec fn valid_sample(v: int) -> bool {
    -SAMPLE_LIMIT <= v <= SAMPLE_LIMIT
}

/// Linear interpolation between `v0` and `v1` at fractional weight
/// `f / FRAC_ONE`: the Q16 rounding of `(1 - f)*v0 + f*v1`.
pub open spec fn interp_spec(v0: int, v1: int, f: int) -> int {
    div_trunc((FRAC_ONE - f) * v0 + f * v1, FRAC_ONE as int)
}

/// Truncating division on machine integers.
pub fn div_fixed(num: i64, den: i64) -> (r: i64)
    requires
        1 <= den,
        -0x7fff_ffff_ffff_ffff <= num,
    ensures
        r as int == div_trunc(num as int, den as int),
{
    if num >= 0 {
        num / den
    } else {
        -((-num) / den)
    }
}

/// `v` forced into `[lo, hi]` on machine integers.
pub fn clamp_i64(v: i64, lo: i64, hi: i64) -> (r: i64)
    requires
        lo <= hi,
    ensures
        r as int == clamp_spec(v as int, lo as int, hi as int),
{
    if v < lo {
        lo
    } else if v > hi {
        hi
    } else {
        v
    }
}

/// Truncating division never enlarges a bound: if `|a| <= b * m` then
/// `|div_trunc(a, b)| <= m`.
pub proof fn lemma_div_trunc_bound(a: int, b: int, m: int)
    requires
        1 <= b,
        0 <= m,
        -(b * m) <= a <= b * m,
    ensures
        -m <= div_trunc(a, b) <= m,
{
    if a >= 0 {
        vstd::arithmetic::div_mod::lemma_div_pos_is_pos(a, b);
        vstd::arithmetic::div_mod::lemma_div_is_ordered(a, b * m, b);
        vstd::arithmetic::div_mod::lemma_div_multiples_vanish(m, b);
    } else {
        vstd::arithmetic::div_mod::lemma_div_pos_is_pos(-a, b);
        vstd::arithmetic::div_mod::lemma_div_is_ordered(-a, b * m, b);
        vstd::arithmetic::div_mod::lemma_div_multiples_vanish(m, b);
    }
}

/// Dividing an exact multiple of `b` by `b` gives the factor back.
pub proof fn lemma_div_trunc_multiple(k: int, b: int)
    requires
        1 <= b,
    ensures
        div_trunc(b * k, b) == k,
{
    if k >= 0 {
        vstd::arithmetic::div_mod::lemma_div_multiples_vanish(k, b);
    } else {
        vstd::arithmetic::div_mod::lemma_div_multiples_vanish(-k, b);
        assert(-(b * k) == b * (-k)) by (nonlinear_arith);
    }
}

/// Interpolation between two bounded values stays within their bound.
pub proof fn lemma_interp_bound(v0: int, v1: int, f: int, m: int)
    requires
        0 <= f <= FRAC_ONE,
        0 <= m,
        -m <= v0 <= m,
        -m <= v1 <= m,
    ensures
        -m <= interp_spec(v0, v1, f) <= m,
{
    let num = (FRAC_ONE - f) * v0 + f * v1;
    assert(-((FRAC_ONE as int) * m) <= num <= (FRAC_ONE as int) * m) by (nonlinear_arith)
        requires
            0 <= f <= FRAC_ONE as int,
            0 <= m,
            -m <= v0 <= m,
            -m <= v1 <= m,
            num == (FRAC_ONE - f) * v0 + f * v1,
    ;
    lemma_div_trunc_bound(num, FRAC_ONE as int, m);
}

} // verus!
