//! The delay-line feedback synthesis engine.
//!
//! The engine owns the ring buffer and the smoothed parameter state.  Once
//! per block it drains the parameter channel completely, then computes one
//! output sample per input sample: it smooths the delay and feedback targets,
//! reads a fed-back tap at a fractional position behind the write pointer
//! (the average of two adjacent interpolated reads — a deliberate timbral
//! choice: collapsing it to a single read would change the tone), mixes it
//! with the live input, and writes the result back into the buffer.
//!
//! Three defensive guards keep the core correct even if a collaborator
//! violates the nominal parameter ranges: the computed sample is clamped into
//! `[-SAMPLE_LIMIT, SAMPLE_LIMIT]`, the frequency target is clamped to a
//! strictly positive floor before the delay is derived from it, and the
//! feedback actually fed to the smoother is clamped into `[0, FRAC_ONE]`.
//! The stored targets themselves are kept exactly as the messages set them.
//! The output therefore always stays in the finite sample range, whatever
//! targets the control surface sends.

use vstd::prelude::*;

use crate::channel::drain_messages;
use crate::fixed::{
    FRAC_ONE, SAMPLE_LIMIT, clamp_i64, clamp_spec, div_fixed, div_trunc, lemma_div_trunc_bound,
    valid_sample,
};
use crate::message::{Message, apply_messages_spec};
use crate::ring::{
    MAX_DELAY, MAX_DELAY_Q, RingBuffer, lemma_capacity_q, lemma_read_position_in_range,
    normalize_read_position, spec_evaluate,
};
use crate::smoothing::{
    DELAY_SMOOTH_DEN, FEEDBACK_SMOOTH_DEN, lemma_smooth_step_bounds, smooth_step, smooth_toward,
};

verus! {

/// Strictly positive floor (1 Hz in Q16) that the frequency target is clamped
/// to before the delay is derived from it, so that a zero or negative target
/// can never corrupt the delay computation.
pub const FREQ_FLOOR_Q: i64 = 65536;

/// The mathematical state of the engine.
pub ghost struct EngineModel {
    /// Feedback target as last set by a control message (Q16, not clamped).
    pub feedback_target: int,
    /// Frequency target in Hz as last set by a control message (Q16, not
    /// clamped).
    pub frequency_target: int,
    /// Smoothed feedback actually applied to the tap (Q16, in `[0, FRAC_ONE]`).
    pub smoothed_feedback: int,
    /// Smoothed delay actually applied, in Q16 samples (in `[0, MAX_DELAY_Q]`).
    pub smoothed_delay: int,
    /// The ring buffer's stored samples.
    pub buffer: Seq<i64>,
    /// The ring buffer's write pointer.
    pub write_pointer: int,
}

/// Well-formedness of the engine state.
pub open spec fn model_wf(m: EngineModel) -> bool {
    &&& m.buffer.len() == MAX_DELAY
    &&& 0 <= m.write_pointer < MAX_DELAY
    &&& forall|i: int| 0 <= i < m.buffer.len() ==> valid_sample(#[trigger] m.buffer[i] as int)
    &&& 0 <= m.smoothed_feedback <= FRAC_ONE
    &&& 0 <= m.smoothed_delay <= MAX_DELAY_Q
}

/// The delay (in Q16 samples) equivalent to one period at the target
/// frequency: `sample_rate / frequency`, with the frequency first clamped to
/// the strictly positive floor and the result capped at the buffer capacity.
pub open spec fn delay_target(sample_rate: int, frequency_target: int) -> int {
    let f = if frequency_target < FREQ_FLOOR_Q {
        FREQ_FLOOR_Q as int
    } else {
        frequency_target
    };
    let raw = sample_rate * (FRAC_ONE as int) * (FRAC_ONE as int) / f;
    if raw > MAX_DELAY_Q {
        MAX_DELAY_Q as int
    } else {
        raw
    }
}

/// Guard against the numerical edge case: whatever the frequency target —
/// zero and negative values included — the derived delay target is finite
/// and within `[0, MAX_DELAY_Q]`, because the frequency is clamped to a
/// strictly positive floor before the division.
pub proof fn lemma_delay_target_guard(sample_rate: int, frequency_target: int)
    requires
        0 <= sample_rate,
    ensures
        0 <= delay_target(sample_rate, frequency_target) <= MAX_DELAY_Q,
{
    let f = if frequency_target < FREQ_FLOOR_Q {
        FREQ_FLOOR_Q as int
    } else {
        frequency_target
    };
    vstd::arithmetic::div_mod::lemma_div_pos_is_pos(
        sample_rate * (FRAC_ONE as int) * (FRAC_ONE as int),
        f,
    );
}

/// One sample of the engine recurrence: smooth the delay and feedback,
/// read the averaged two-tap fed-back sample behind the write pointer, mix
/// with the input, store the result, advance the write pointer.
pub open spec fn tick_model(m: EngineModel, sample_rate: int, x: i64) -> (EngineModel, i64) {
    let d = smooth_step(
        m.smoothed_delay,
        delay_target(sample_rate, m.frequency_target),
        DELAY_SMOOTH_DEN as int,
    );
    let fb = smooth_step(
        m.smoothed_feedback,
        clamp_spec(m.feedback_target, 0, FRAC_ONE as int),
        FEEDBACK_SMOOTH_DEN as int,
    );
    let rp = normalize_read_position(m.write_pointer * (FRAC_ONE as int), d);
    let tap = div_trunc(
        spec_evaluate(m.buffer, rp) + spec_evaluate(m.buffer, rp + FRAC_ONE),
        2,
    );
    let out = clamp_spec(
        x + div_trunc(fb * tap, FRAC_ONE as int),
        -(SAMPLE_LIMIT as int),
        SAMPLE_LIMIT as int,
    ) as i64;
    (
        EngineModel {
            feedback_target: m.feedback_target,
            frequency_target: m.frequency_target,
            smoothed_feedback: fb,
            smoothed_delay: d,
            buffer: m.buffer.update(m.write_pointer, out),
            write_pointer: (m.write_pointer + 1) % (MAX_DELAY as int),
        },
        out,
    )
}

/// The engine state and output block after processing `input` in order.
pub open spec fn run_model(m: EngineModel, sample_rate: int, input: Seq<i64>) -> (
    EngineModel,
    Seq<i64>,
)
    decreases input.len(),
{
    if input.len() == 0 {
        (m, Seq::empty())
    } else {
        let prev = run_model(m, sample_rate, input.drop_last());
        let step = tick_model(prev.0, sample_rate, input.last());
        (step.0, prev.1.push(step.1))
    }
}

/// The engine state after draining a sequence of messages, oldest first.
pub open spec fn apply_messages_model(m: EngineModel, ms: Seq<Message>) -> EngineModel {
    let p = apply_messages_spec(m.feedback_target, m.frequency_target, ms);
    EngineModel {
        feedback_target: p.0,
        frequency_target: p.1,
        smoothed_feedback: m.smoothed_feedback,
        smoothed_delay: m.smoothed_delay,
        buffer: m.buffer,
        write_pointer: m.write_pointer,
    }
}

/// One whole block: drain the messages first, then process every sample.
/// Parameter changes take effect from the block's first sample and never
/// mid-block.
pub open spec fn block_model(
    m: EngineModel,
    sample_rate: int,
    ms: Seq<Message>,
    input: Seq<i64>,
) -> (EngineModel, Seq<i64>) {
    run_model(apply_messages_model(m, ms), sample_rate, input)
}

/// The delay-line feedback engine.  Exclusively owned and mutated by the
/// processing context; the control context reaches it only through the
/// parameter channel whose receiving end the engine holds.
pub struct KpsEngine {
    feedback_target: i64,
    frequency_target: i64,
    smoothed_feedback: i64,
    smoothed_delay: i64,
    ring: RingBuffer,
    receiver: crossbeam::channel::Receiver<Message>,
}

impl View for KpsEngine {
    type V = EngineModel;

    closed spec fn view(&self) -> EngineModel {
        EngineModel {
            feedback_target: self.feedback_target as int,
            frequency_target: self.frequency_target as int,
            smoothed_feedback: self.smoothed_feedback as int,
            smoothed_delay: self.smoothed_delay as int,
            buffer: self.ring.contents(),
            write_pointer: self.ring.wp(),
        }
    }
}

impl KpsEngine {
    /// Well-formed engine state.
    pub open spec fn wf(&self) -> bool {
        model_wf(self@)
    }

    /// A fresh engine: zero-filled buffer, write pointer at the start,
    /// smoothed values at zero, targets as given.
    pub fn new(
        feedback: i64,
        frequency: i64,
        receiver: crossbeam::channel::Receiver<Message>,
    ) -> (engine: KpsEngine)
        ensures
            engine.wf(),
            engine@.feedback_target == feedback as int,
            engine@.frequency_target == frequency as int,
            engine@.smoothed_feedback == 0,
            engine@.smoothed_delay == 0,
            engine@.write_pointer == 0,
            engine@.buffer.len() == MAX_DELAY,
            forall|i: int| 0 <= i < engine@.buffer.len() ==> #[trigger] engine@.buffer[i] == 0i64,
    {
        let ring = RingBuffer::new();
        KpsEngine {
            feedback_target: feedback,
            frequency_target: frequency,
            smoothed_feedback: 0,
            smoothed_delay: 0,
            ring,
            receiver,
        }
    }

    /// The delay target for the current frequency target, computed with the
    /// frequency clamped to the strictly positive floor.
    fn delay_target_exec(&self, sample_rate: u32) -> (dt: i64)
        ensures
            dt as int == delay_target(sample_rate as int, self@.frequency_target),
            0 <= dt <= MAX_DELAY_Q,
    {
        let f: i64 = if self.frequency_target < FREQ_FLOOR_Q {
            FREQ_FLOOR_Q
        } else {
            self.frequency_target
        };
        let num: u128 = (sample_rate as u128) * 65536 * 65536;
        let q: u128 = num / (f as u128);
        if q > (MAX_DELAY_Q as u128) {
            MAX_DELAY_Q
        } else {
            q as i64
        }
    }

    /// Process one sample: the per-sample recurrence of the engine.
    fn tick(&mut self, sample_rate: u32, x: i64) -> (out: i64)
        requires
            old(self).wf(),
            valid_sample(x as int),
        ensures
            final(self).wf(),
            final(self)@ == tick_model(old(self)@, sample_rate as int, x).0,
            out == tick_model(old(self)@, sample_rate as int, x).1,
            valid_sample(out as int),
    {
        let dt = self.delay_target_exec(sample_rate);
        proof {
            lemma_smooth_step_bounds(self.smoothed_delay as int, dt as int, DELAY_SMOOTH_DEN as int);
        }
        self.smoothed_delay = smooth_toward(self.smoothed_delay, dt, DELAY_SMOOTH_DEN);
        let ft = clamp_i64(self.feedback_target, 0, FRAC_ONE);
        proof {
            lemma_smooth_step_bounds(
                self.smoothed_feedback as int,
                ft as int,
                FEEDBACK_SMOOTH_DEN as int,
            );
        }
        self.smoothed_feedback = smooth_toward(self.smoothed_feedback, ft, FEEDBACK_SMOOTH_DEN);
        let wp = self.ring.write_pointer();
        let wpq: i64 = (wp as i64) * FRAC_ONE;
        proof {
            lemma_read_position_in_range(wp as int, self.smoothed_delay as int);
            lemma_capacity_q();
        }
        let mut rp: i64 = wpq - self.smoothed_delay;
        if rp < 0 {
            rp = rp + MAX_DELAY_Q;
        }
        let e0 = self.ring.evaluate(rp);
        let e1 = self.ring.evaluate(rp + FRAC_ONE);
        let tap = div_fixed(e0 + e1, 2);
        proof {
            lemma_div_trunc_bound(e0 as int + e1 as int, 2, SAMPLE_LIMIT as int);
            assert((self.smoothed_feedback as int) * (tap as int) <= 0x100_0000_0000_0000 && (
            self.smoothed_feedback as int) * (tap as int) >= -0x100_0000_0000_0000)
                by (nonlinear_arith)
                requires
                    0 <= self.smoothed_feedback as int <= 65536,
                    -0x100_0000_0000 <= tap as int <= 0x100_0000_0000,
            ;
        }
        let prod: i64 = self.smoothed_feedback * tap;
        proof {
            lemma_div_trunc_bound(prod as int, FRAC_ONE as int, SAMPLE_LIMIT as int);
        }
        let contribution = div_fixed(prod, FRAC_ONE);
        let out = clamp_i64(x + contribution, -SAMPLE_LIMIT, SAMPLE_LIMIT);
        self.ring.write(wp, out);
        self.ring.advance();
        proof {
            vstd::arithmetic::div_mod::lemma_small_mod(wp as nat, MAX_DELAY as nat);
        }
        out
    }

    /// Update the control targets from a drained message sequence, in channel
    /// order: for each parameter the last message wins.
    pub fn apply_messages(&mut self, messages: &Vec<Message>)
        requires
            old(self).wf(),
        ensures
            final(self).wf(),
            final(self)@ == apply_messages_model(old(self)@, messages@),
    {
        let mut i: usize = 0;
        while i < messages.len()
            invariant
                i <= messages@.len(),
                self.wf(),
                self@ == apply_messages_model(old(self)@, messages@.take(i as int)),
            decreases messages@.len() - i,
        {
            match messages[i] {
                Message::FeedbackChanged(v) => {
                    self.feedback_target = v;
                },
                Message::FrequencyChanged(v) => {
                    self.frequency_target = v;
                },
            }
            proof {
                assert(messages@.take(i as int + 1).drop_last() =~= messages@.take(i as int));
                assert(messages@.take(i as int + 1).last() == messages@[i as int]);
            }
            i = i + 1;
        }
        proof {
            assert(messages@.take(messages@.len() as int) =~= messages@);
        }
    }

    /// Process one block against an explicit, already-drained message
    /// sequence.  The messages are applied first, in order, so the whole
    /// block uses the resulting targets from its first sample; then every
    /// input sample is processed in order.
    pub fn process_block_with(
        &mut self,
        sample_rate: u32,
        messages: &Vec<Message>,
        input: &Vec<i64>,
    ) -> (output: Vec<i64>)
        requires
            old(self).wf(),
            1 <= sample_rate,
            forall|i: int| 0 <= i < input@.len() ==> valid_sample(#[trigger] input@[i] as int),
        ensures
            final(self).wf(),
            final(self)@ == block_model(old(self)@, sample_rate as int, messages@, input@).0,
            output@ == block_model(old(self)@, sample_rate as int, messages@, input@).1,
            output@.len() == input@.len(),
            forall|i: int| 0 <= i < output@.len() ==> valid_sample(#[trigger] output@[i] as int),
    {
        self.apply_messages(messages);
        let ghost m1 = self@;
        let mut output: Vec<i64> = Vec::new();
        let mut i: usize = 0;
        while i < input.len()
            invariant
                i <= input@.len(),
                self.wf(),
                1 <= sample_rate,
                forall|j: int| 0 <= j < input@.len() ==> valid_sample(#[trigger] input@[j] as int),
                self@ == run_model(m1, sample_rate as int, input@.take(i as int)).0,
                output@ == run_model(m1, sample_rate as int, input@.take(i as int)).1,
                output@.len() == i,
                forall|j: int|
                    0 <= j < output@.len() ==> valid_sample(#[trigger] output@[j] as int),
            decreases input@.len() - i,
        {
            let x = input[i];
            let out = self.tick(sample_rate, x);
            output.push(out);
            proof {
                assert(input@.take(i as int + 1).drop_last() =~= input@.take(i as int));
                assert(input@.take(i as int + 1).last() == input@[i as int]);
            }
            i = i + 1;
        }
        proof {
            assert(input@.take(input@.len() as int) =~= input@);
        }
        output
    }

    /// Process one block as invoked by the audio host: drain the parameter
    /// channel completely and non-blockingly, then process every input
    /// sample.  Whatever messages were pending, the block is processed
    /// exactly as `block_model` describes for some message sequence, and
    /// every output sample stays within the finite sample range.
    pub fn process(&mut self, sample_rate: u32, input: &Vec<i64>) -> (output: Vec<i64>)
        requires
            old(self).wf(),
            1 <= sample_rate,
            forall|i: int| 0 <= i < input@.len() ==> valid_sample(#[trigger] input@[i] as int),
        ensures
            final(self).wf(),
            output@.len() == input@.len(),
            forall|i: int| 0 <= i < output@.len() ==> valid_sample(#[trigger] output@[i] as int),
            exists|ms: Seq<Message>|
                {
                    &&& final(self)@ == #[trigger] block_model(
                        old(self)@,
                        sample_rate as int,
                        ms,
                        input@,
                    ).0
                    &&& output@ == block_model(old(self)@, sample_rate as int, ms, input@).1
                },
    {
        let messages = drain_messages(&self.receiver);
        let output = self.process_block_with(sample_rate, &messages, input);
        proof {
            assert(self@ == block_model(old(self)@, sample_rate as int, messages@, input@).0);
        }
        output
    }

    /// The feedback target as last set by a control message (Q16).
    pub fn feedback_target(&self) -> (r: i64)
        ensures
            r as int == self@.feedback_target,
    {
        self.feedback_target
    }

    /// The frequency target as last set by a control message (Q16 Hz).
    pub fn frequency_target(&self) -> (r: i64)
        ensures
            r as int == self@.frequency_target,
    {
        self.frequency_target
    }

    /// The smoothed feedback currently applied (Q16).
    pub fn smoothed_feedback(&self) -> (r: i64)
        ensures
            r as int == self@.smoothed_feedback,
    {
        self.smoothed_feedback
    }

    /// The smoothed delay currently applied (Q16 samples).
    pub fn smoothed_delay(&self) -> (r: i64)
        ensures
            r as int == self@.smoothed_delay,
    {
        self.smoothed_delay
    }

    /// The ring buffer's write pointer.
    pub fn write_position(&self) -> (r: usize)
        ensures
            r as int == self@.write_pointer,
    {
        self.ring.write_pointer()
    }
}

} // verus!
