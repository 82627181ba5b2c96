//! The fixed-capacity ring buffer with fractional-position read.
//!
//! The buffer behaves as an infinite history truncated to the most recent
//! `MAX_DELAY` samples: writes past the end wrap to the beginning and silently
//! overwrite the oldest samples.  Positions are Q16 fixed point, so a read at
//! a non-integer position interpolates linearly between the two nearest
//! stored samples, with wraparound.

use vstd::prelude::*;

use crate::fixed::{
    FRAC_HALF, FRAC_ONE, SAMPLE_LIMIT, div_fixed, interp_spec, lemma_div_trunc_multiple,
    lemma_interp_bound, valid_sample,
};

verus! {

/// Capacity of the ring buffer in samples (`2^24`).
pub const MAX_DELAY: usize = 16777216;

/// The capacity expressed as a Q16 position (`MAX_DELAY * FRAC_ONE`, `2^40`).
pub const MAX_DELAY_Q: i64 = 1099511627776;

/// `MAX_DELAY_Q` really is the capacity in Q16 steps.
pub proof fn lemma_capacity_q()
    ensures
        MAX_DELAY_Q == (MAX_DELAY as int) * (FRAC_ONE as int),
{
    assert(16777216int * 65536int == 1099511627776int) by (nonlinear_arith);
}

/// The interpolated value of `buf` at Q16 position `pos`: with
/// `i = pos / FRAC_ONE` and `f = pos % FRAC_ONE`, the Q16 rounding of
/// `(1-f)*buf[i mod MAX_DELAY] + f*buf[(i+1) mod MAX_DELAY]`.
pub open spec fn spec_evaluate(buf: Seq<i64>, pos: int) -> int {
    let i = pos / (FRAC_ONE as int);
    let f = pos % (FRAC_ONE as int);
    interp_spec(
        buf[i % (MAX_DELAY as int)] as int,
        buf[(i + 1) % (MAX_DELAY as int)] as int,
        f,
    )
}

/// A backward read position `wpq - delay` (both in Q16), normalized by adding
/// the capacity once when it falls below zero.
pub open spec fn normalize_read_position(wpq: int, delay: int) -> int {
    let rp = wpq - delay;
    if rp < 0 {
        rp + MAX_DELAY_Q
    } else {
        rp
    }
}

pub struct RingBuffer {
    buffer: Vec<i64>,
    write_pointer: usize,
}

impl RingBuffer {
    /// The stored samples, oldest overwritten first.
    pub closed spec fn contents(&self) -> Seq<i64> {
        self.buffer@
    }

    /// The index the next sample will be written to.
    pub closed spec fn wp(&self) -> int {
        self.write_pointer as int
    }

    /// Well-formed: full capacity allocated, write pointer in range, every
    /// stored sample within the sample range.
    pub open spec fn wf(&self) -> bool {
        &&& self.contents().len() == MAX_DELAY
        &&& 0 <= self.wp() < MAX_DELAY
        &&& forall|i: int|
            0 <= i < self.contents().len() ==> valid_sample(#[trigger] self.contents()[i] as int)
    }

    /// A zero-filled buffer with the write pointer at the start.
    pub fn new() -> (r: RingBuffer)
        ensures
            r.wf(),
            r.wp() == 0,
            forall|i: int| 0 <= i < r.contents().len() ==> #[trigger] r.contents()[i] == 0i64,
    {
        let mut buffer: Vec<i64> = Vec::new();
        let mut i: usize = 0;
        while i < MAX_DELAY
            invariant
                i <= MAX_DELAY,
                buffer@.len() == i,
                forall|j: int| 0 <= j < i ==> #[trigger] buffer@[j] == 0i64,
            decreases MAX_DELAY - i,
        {
            buffer.push(0);
            i = i + 1;
        }
        RingBuffer { buffer, write_pointer: 0 }
    }

    /// Store `value` at `index mod MAX_DELAY`.  There is no error path: any
    /// index is taken modulo the capacity.
    pub fn write(&mut self, index: usize, value: i64)
        requires
            old(self).wf(),
            valid_sample(value as int),
        ensures
            final(self).wf(),
            final(self).contents() == old(self).contents().update(
                (index as int) % (MAX_DELAY as int),
                value,
            ),
            final(self).wp() == old(self).wp(),
    {
        let i = index % MAX_DELAY;
        self.buffer.set(i, value);
        proof {
            assert forall|j: int|
                0 <= j < self.contents().len() implies valid_sample(
                #[trigger] self.contents()[j] as int,
            ) by {
                if j != i as int {
                    assert(self.contents()[j] == old(self).contents()[j]);
                }
            }
        }
    }

    /// The current write pointer.
    pub fn write_pointer(&self) -> (r: usize)
        ensures
            r as int == self.wp(),
    {
        self.write_pointer
    }

    /// Advance the write pointer by one position, wrapping to zero after the
    /// last index.
    pub fn advance(&mut self)
        requires
            old(self).wf(),
        ensures
            final(self).wf(),
            final(self).contents() == old(self).contents(),
            final(self).wp() == (old(self).wp() + 1) % (MAX_DELAY as int),
    {
        self.write_pointer = (self.write_pointer + 1) % MAX_DELAY;
    }

    /// Interpolated read at Q16 position `pos` (already normalized to be
    /// non-negative; the integer part wraps modulo the capacity).
    pub fn evaluate(&self, pos: i64) -> (r: i64)
        requires
            self.wf(),
            0 <= pos,
        ensures
            r as int == spec_evaluate(self.contents(), pos as int),
            valid_sample(r as int),
    {
        let p: u64 = pos as u64;
        let i: u64 = p / (FRAC_ONE as u64);
        let f: u64 = p % (FRAC_ONE as u64);
        let i0: usize = (i % (MAX_DELAY as u64)) as usize;
        let i1: usize = ((i + 1) % (MAX_DELAY as u64)) as usize;
        let v0: i64 = self.buffer[i0];
        let v1: i64 = self.buffer[i1];
        let a: i64 = FRAC_ONE - (f as i64);
        proof {
            assert(valid_sample(v0 as int));
            assert(valid_sample(v1 as int));
            assert((a as int) * (v0 as int) <= 0x100_0000_0000_0000 && (a as int) * (v0 as int)
                >= -0x100_0000_0000_0000) by (nonlinear_arith)
                requires
                    0 <= a as int <= 65536,
                    -0x100_0000_0000 <= v0 as int <= 0x100_0000_0000,
            ;
            assert((f as int) * (v1 as int) <= 0x100_0000_0000_0000 && (f as int) * (v1 as int)
                >= -0x100_0000_0000_0000) by (nonlinear_arith)
                requires
                    0 <= f as int <= 65536,
                    -0x100_0000_0000 <= v1 as int <= 0x100_0000_0000,
            ;
            lemma_interp_bound(v0 as int, v1 as int, f as int, SAMPLE_LIMIT as int);
        }
        let num: i64 = a * v0 + (f as i64) * v1;
        div_fixed(num, FRAC_ONE)
    }
}

/// Exact readback: after writing `v` at index `p`, evaluating at the integer
/// position `p` (fractional part zero) returns exactly `v`, for every `p` in
/// `[0, MAX_DELAY)`.
pub proof fn lemma_exact_readback(buf: Seq<i64>, p: int, v: i64)
    requires
        buf.len() == MAX_DELAY,
        0 <= p < MAX_DELAY,
    ensures
        spec_evaluate(buf.update(p, v), p * (FRAC_ONE as int)) == v,
{
    let s = FRAC_ONE as int;
    let n = MAX_DELAY as int;
    let pos = p * s;
    vstd::arithmetic::div_mod::lemma_fundamental_div_mod_converse(pos, s, p, 0);
    assert(pos / s == p && pos % s == 0);
    vstd::arithmetic::div_mod::lemma_small_mod(p as nat, MAX_DELAY as nat);
    assert(p % n == p);
    let b2 = buf.update(p, v);
    assert(b2[p % n] == v);
    lemma_div_trunc_multiple(v as int, s);
    assert((s - 0) * (v as int) + 0 * (b2[(p + 1) % n] as int) == s * (v as int));
}

/// Interpolation correctness: with `v0` stored at `p` and `v1` at `p + 1`,
/// evaluating at position `p + f/FRAC_ONE` yields the Q16 rounding of
/// `(1-f)*v0 + f*v1`, for any fractional part `f` in `[0, FRAC_ONE)`.
pub proof fn lemma_interpolation(buf: Seq<i64>, p: int, f: int)
    requires
        buf.len() == MAX_DELAY,
        0 <= p,
        p + 1 < MAX_DELAY,
        0 <= f < FRAC_ONE,
    ensures
        spec_evaluate(buf, p * (FRAC_ONE as int) + f) == interp_spec(
            buf[p] as int,
            buf[p + 1] as int,
            f,
        ),
{
    let s = FRAC_ONE as int;
    let n = MAX_DELAY as int;
    let pos = p * s + f;
    vstd::arithmetic::div_mod::lemma_fundamental_div_mod_converse(pos, s, p, f);
    assert(pos / s == p && pos % s == f);
    vstd::arithmetic::div_mod::lemma_small_mod(p as nat, MAX_DELAY as nat);
    vstd::arithmetic::div_mod::lemma_small_mod((p + 1) as nat, MAX_DELAY as nat);
}

/// At the exact midpoint of two stored values whose sum is even, the
/// interpolation is exactly their average `(v0 + v1) / 2`.
pub proof fn lemma_midpoint_average(v0: int, v1: int)
    requires
        (v0 + v1) % 2 == 0,
    ensures
        interp_spec(v0, v1, FRAC_HALF as int) == (v0 + v1) / 2,
{
    let s = FRAC_ONE as int;
    let h = FRAC_HALF as int;
    let avg = (v0 + v1) / 2;
    vstd::arithmetic::div_mod::lemma_fundamental_div_mod(v0 + v1, 2);
    assert(v0 + v1 == 2 * avg);
    assert((s - h) * v0 + h * v1 == s * avg) by (nonlinear_arith)
        requires
            v0 + v1 == 2 * avg,
            s == 65536,
            h == 32768,
    ;
    lemma_div_trunc_multiple(avg, s);
}

/// The write pointer after `k` single-position advances.
pub open spec fn wp_after(wp: int, k: nat) -> int
    decreases k,
{
    if k == 0 {
        wp
    } else {
        (wp_after(wp, (k - 1) as nat) + 1) % (MAX_DELAY as int)
    }
}

/// Closed form: `k` advances land on `(wp + k) mod MAX_DELAY`.
pub proof fn lemma_wp_after_closed(wp: int, k: nat)
    requires
        0 <= wp < MAX_DELAY,
    ensures
        wp_after(wp, k) == (wp + k) % (MAX_DELAY as int),
    decreases k,
{
    let n = MAX_DELAY as int;
    if k == 0 {
        vstd::arithmetic::div_mod::lemma_small_mod(wp as nat, MAX_DELAY as nat);
    } else {
        lemma_wp_after_closed(wp, (k - 1) as nat);
        vstd::arithmetic::div_mod::lemma_add_mod_noop(wp + (k - 1), 1, n);
        vstd::arithmetic::div_mod::lemma_small_mod(1nat, MAX_DELAY as nat);
        vstd::arithmetic::div_mod::lemma_mod_twice(wp + (k - 1), n);
    }
}

/// Wraparound: after exactly `MAX_DELAY` advances the write pointer is back
/// at its initial value.
pub proof fn lemma_write_pointer_wraparound(wp: int)
    requires
        0 <= wp < MAX_DELAY,
    ensures
        wp_after(wp, MAX_DELAY as nat) == wp,
{
    let n = MAX_DELAY as int;
    lemma_wp_after_closed(wp, MAX_DELAY as nat);
    vstd::arithmetic::div_mod::lemma_mod_add_multiples_vanish(wp, n);
    vstd::arithmetic::div_mod::lemma_small_mod(wp as nat, MAX_DELAY as nat);
}

/// Wraparound of reads: for any delay in `[0, MAX_DELAY_Q]`, the read
/// position `wp*FRAC_ONE - delay`, normalized by adding the capacity when
/// negative, is a valid Q16 position in `[0, MAX_DELAY_Q)`.
pub proof fn lemma_read_position_in_range(wp: int, delay: int)
    requires
        0 <= wp < MAX_DELAY,
        0 <= delay <= MAX_DELAY_Q,
    ensures
        0 <= normalize_read_position(wp * (FRAC_ONE as int), delay) < MAX_DELAY_Q,
{
    lemma_capacity_q();
    let s = FRAC_ONE as int;
    assert(0 <= wp * s <= (MAX_DELAY as int - 1) * s) by (nonlinear_arith)
        requires
            0 <= wp <= MAX_DELAY as int - 1,
            s == 65536,
    ;
    assert((MAX_DELAY as int - 1) * s == (MAX_DELAY as int) * s - s) by (nonlinear_arith);
}

} // verus!
