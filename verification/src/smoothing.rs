//! One-pole parameter smoothing.
//!
//! A one-pole low-pass filter `y' = (1/den)*target + (1 - 1/den)*y` avoids
//! audible discontinuities when a parameter changes.  In Q16 fixed point the
//! update is written `y' = y + (target - y) / den` with truncating division,
//! which is the same filter with its rounding made explicit.

use vstd::prelude::*;

use crate::fixed::abs_spec;

verus! {

/// Divisor of the delay-time smoothing filter (pole `0.9999`, a time constant
/// of about ten thousand samples).
pub const DELAY_SMOOTH_DEN: i64 = 10000;

/// Divisor of the feedback smoothing filter (pole `0.999`, a time constant of
/// about one thousand samples).
pub const FEEDBACK_SMOOTH_DEN: i64 = 1000;

/// One smoothing update: move `y` toward `target` by the truncated `1/den`
/// part of their distance.
pub open spec fn smooth_step(y: int, target: int, den: int) -> int {
    if target >= y {
        y + (target - y) / den
    } else {
        y - (y - target) / den
    }
}

/// The value after `n` smoothing updates toward a constant target.
pub open spec fn smooth_iter(y: int, target: int, den: int, n: nat) -> int
    decreases n,
{
    if n == 0 {
        y
    } else {
        smooth_step(smooth_iter(y, target, den, (n - 1) as nat), target, den)
    }
}

/// One smoothing update on machine integers.
pub fn smooth_toward(y: i64, target: i64, den: i64) -> (r: i64)
    requires
        1 <= den,
        -0x1000_0000_0000_0000 <= y <= 0x1000_0000_0000_0000,
        -0x1000_0000_0000_0000 <= target <= 0x1000_0000_0000_0000,
    ensures
        r as int == smooth_step(y as int, target as int, den as int),
{
    proof {
        lemma_smooth_step_bounds(y as int, target as int, den as int);
    }
    if target >= y {
        y + (target - y) / den
    } else {
        y - (y - target) / den
    }
}

/// A smoothing update never overshoots the target, and the distance to the
/// target shrinks by exactly its truncated `1/den` part.
pub proof fn lemma_smooth_step_bounds(y: int, target: int, den: int)
    requires
        1 <= den,
    ensures
        target >= y ==> y <= smooth_step(y, target, den) <= target,
        target <= y ==> target <= smooth_step(y, target, den) <= y,
        abs_spec(target - smooth_step(y, target, den)) == abs_spec(target - y) - abs_spec(
            target - y,
        ) / den,
        abs_spec(target - smooth_step(y, target, den)) <= abs_spec(target - y),
        abs_spec(target - y) >= den ==> abs_spec(target - smooth_step(y, target, den)) < abs_spec(
            target - y,
        ),
{
    if target >= y {
        let d = target - y;
        vstd::arithmetic::div_mod::lemma_div_pos_is_pos(d, den);
        vstd::arithmetic::div_mod::lemma_div_is_ordered_by_denominator(d, 1, den);
        vstd::arithmetic::div_mod::lemma_div_basics(d);
        if d >= den {
            vstd::arithmetic::div_mod::lemma_div_non_zero(d, den);
        }
    } else {
        let d = y - target;
        vstd::arithmetic::div_mod::lemma_div_pos_is_pos(d, den);
        vstd::arithmetic::div_mod::lemma_div_is_ordered_by_denominator(d, 1, den);
        vstd::arithmetic::div_mod::lemma_div_basics(d);
        if d >= den {
            vstd::arithmetic::div_mod::lemma_div_non_zero(d, den);
        }
    }
}

/// Holding the target constant, the smoothed sequence is monotonic toward the
/// target, never overshoots it, and its distance to the target shrinks by the
/// fixed pole factor (its truncated `1/den` part) at every sample.
pub proof fn lemma_smoothing_convergence(y: int, target: int, den: int, n: nat)
    requires
        1 <= den,
    ensures
        y <= target ==> y <= smooth_iter(y, target, den, n) <= smooth_iter(
            y,
            target,
            den,
            n + 1,
        ) <= target,
        target <= y ==> target <= smooth_iter(y, target, den, n + 1) <= smooth_iter(
            y,
            target,
            den,
            n,
        ) <= y,
        abs_spec(target - smooth_iter(y, target, den, n + 1)) == abs_spec(
            target - smooth_iter(y, target, den, n),
        ) - abs_spec(target - smooth_iter(y, target, den, n)) / den,
    decreases n,
{
    if n == 0 {
        lemma_smooth_step_bounds(y, target, den);
    } else {
        lemma_smoothing_convergence(y, target, den, (n - 1) as nat);
        lemma_smooth_step_bounds(smooth_iter(y, target, den, n), target, den);
    }
}

} // verus!
