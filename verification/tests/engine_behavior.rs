//! Tests of the engine: message ordering, block-granularity parameter
//! changes, the guard against non-positive frequency targets, and the
//! end-to-end plucked-string decay.

use kps::engine::KpsEngine;
use kps::fixed::{FRAC_ONE, SAMPLE_LIMIT};
use kps::message::Message;
use kps::ring::MAX_DELAY_Q;

const SR: u32 = 48000;

fn q16(units: i64) -> i64 {
    units * FRAC_ONE
}

#[test]
fn message_ordering() {
    let (sender, receiver) = crossbeam::channel::unbounded();
    let mut engine = KpsEngine::new(32768, q16(220), receiver);
    sender.send(Message::FrequencyChanged(q16(300))).unwrap();
    sender.send(Message::FeedbackChanged(52429)).unwrap();
    sender.send(Message::FrequencyChanged(q16(400))).unwrap();
    let input = vec![0i64; 8];
    let _ = engine.process(SR, &input);
    // after draining, the last message per parameter wins
    assert_eq!(engine.frequency_target(), q16(400));
    assert_eq!(engine.feedback_target(), 52429);
}

#[test]
fn messages_take_effect_from_first_sample() {
    let (sender, receiver) = crossbeam::channel::unbounded();
    let mut engine = KpsEngine::new(0, q16(220), receiver);
    sender.send(Message::FrequencyChanged(q16(400))).unwrap();
    sender.send(Message::FeedbackChanged(FRAC_ONE)).unwrap();
    let input = vec![0i64];
    let _ = engine.process(SR, &input);
    // the single processed sample already smoothed toward the new targets:
    // delay target = 48000/400 = 120 samples, first step = (120*65536)/10000
    assert_eq!(engine.smoothed_delay(), q16(120) / 10000);
    // feedback target 1.0, first step = 65536/1000
    assert_eq!(engine.smoothed_feedback(), FRAC_ONE / 1000);
}

#[test]
fn apply_messages_last_value_wins() {
    let (_sender, receiver) = crossbeam::channel::unbounded();
    let mut engine = KpsEngine::new(0, q16(220), receiver);
    let messages = vec![
        Message::FeedbackChanged(40000),
        Message::FeedbackChanged(50000),
        Message::FrequencyChanged(q16(130)),
    ];
    engine.apply_messages(&messages);
    assert_eq!(engine.feedback_target(), 50000);
    assert_eq!(engine.frequency_target(), q16(130));
}

#[test]
fn empty_block() {
    let (_sender, receiver) = crossbeam::channel::unbounded();
    let mut engine = KpsEngine::new(32768, q16(220), receiver);
    let input: Vec<i64> = Vec::new();
    let output = engine.process(SR, &input);
    assert_eq!(output.len(), 0);
}

#[test]
fn silence_in_silence_out() {
    let (_sender, receiver) = crossbeam::channel::unbounded();
    let mut engine = KpsEngine::new(58982, q16(240), receiver);
    for _ in 0..5 {
        let output = engine.process(SR, &vec![0i64; 512]);
        assert_eq!(output.len(), 512);
        assert!(output.iter().all(|&x| x == 0));
    }
}

#[test]
fn first_sample_passes_input_through_empty_buffer() {
    let (_sender, receiver) = crossbeam::channel::unbounded();
    let mut engine = KpsEngine::new(58982, q16(240), receiver);
    let input = vec![5_000_000i64, 0, 0, 0];
    let output = engine.process(SR, &input);
    // the buffer is zero-filled, so the fed-back tap of the first sample is 0
    assert_eq!(output[0], 5_000_000);
}

#[test]
fn write_pointer_advances_once_per_sample() {
    let (_sender, receiver) = crossbeam::channel::unbounded();
    let mut engine = KpsEngine::new(58982, q16(240), receiver);
    assert_eq!(engine.write_position(), 0);
    let _ = engine.process(SR, &vec![0i64; 300]);
    assert_eq!(engine.write_position(), 300);
}

#[test]
fn guard_regression_zero_frequency() {
    let (_sender, receiver) = crossbeam::channel::unbounded();
    let mut engine = KpsEngine::new(58982, 0, receiver);
    let mut input = vec![0i64; 64];
    input[0] = 1 << 30;
    let output = engine.process(SR, &input);
    // every output sample stays in the finite sample range
    assert!(output.iter().all(|&x| x.abs() <= SAMPLE_LIMIT));
    // the frequency was clamped to the 1 Hz floor: the delay target is
    // 48000 samples, and the first smoothing step is (48000*65536)/10000
    assert!(engine.smoothed_delay() > 0);
    assert!(engine.smoothed_delay() <= MAX_DELAY_Q);
}

#[test]
fn guard_regression_negative_frequency() {
    let (_sender, receiver) = crossbeam::channel::unbounded();
    let mut engine = KpsEngine::new(58982, -q16(5), receiver);
    let mut input = vec![0i64; 1];
    input[0] = 1 << 30;
    let output = engine.process(SR, &input);
    assert!(output.iter().all(|&x| x.abs() <= SAMPLE_LIMIT));
    // exactly one smoothing step toward the clamped 1 Hz delay target
    assert_eq!(engine.smoothed_delay(), q16(48000) / 10000);
}

#[test]
fn clamped_output_never_leaves_sample_range() {
    let (_sender, receiver) = crossbeam::channel::unbounded();
    let mut engine = KpsEngine::new(FRAC_ONE, q16(240), receiver);
    let input = vec![SAMPLE_LIMIT; 2048];
    for _ in 0..4 {
        let output = engine.process(SR, &input);
        assert!(output.iter().all(|&x| x.abs() <= SAMPLE_LIMIT));
    }
}

#[test]
fn end_to_end_decay() {
    let (sender, receiver) = crossbeam::channel::unbounded();
    // feedback target ~0.9, frequency target 240 Hz: delay target
    // 48000/240 = 200 samples
    let mut engine = KpsEngine::new(58982, q16(240), receiver);
    drop(sender);

    // let the smoothing filters settle on zero input
    let zeros = vec![0i64; 1000];
    for _ in 0..80 {
        let out = engine.process(SR, &zeros);
        assert!(out.iter().all(|&x| x == 0));
    }
    let delay_target = q16(200);
    assert!((engine.smoothed_delay() - delay_target).abs() <= 10_000);
    assert!((engine.smoothed_feedback() - 58982).abs() <= 1000);

    // inject a single impulse and record 5000 samples
    let mut block = vec![0i64; 1000];
    block[0] = 1 << 30;
    let mut samples = engine.process(SR, &block);
    for _ in 0..4 {
        samples.extend(engine.process(SR, &zeros));
    }
    assert_eq!(samples.len(), 5000);
    assert!(samples.iter().all(|&x| 0 <= x && x <= SAMPLE_LIMIT));
    assert_eq!(samples[0], 1 << 30);

    // per-period pulse mass and peak position, in windows around k*200
    let mut masses: Vec<f64> = Vec::new();
    let mut peaks: Vec<usize> = Vec::new();
    for k in 1..=20usize {
        let lo = k * 200 - 100;
        let hi = k * 200 + 100;
        let mut mass = 0.0f64;
        let mut peak_pos = lo;
        let mut peak_val = -1i64;
        for (pos, &v) in samples[lo..hi].iter().enumerate() {
            mass += v as f64;
            if v > peak_val {
                peak_val = v;
                peak_pos = lo + pos;
            }
        }
        assert!(mass > 0.0, "no energy in period window {k}");
        masses.push(mass);
        peaks.push(peak_pos);
    }

    // the output decays periodically: the period converges to 200 samples
    let mut spacing_sum = 0.0f64;
    for k in 5..20 {
        let spacing = peaks[k] as f64 - peaks[k - 1] as f64;
        assert!((195.0..=205.0).contains(&spacing), "period spacing {spacing}");
        spacing_sum += spacing;
    }
    let mean_spacing = spacing_sum / 15.0;
    assert!((198.0..=202.0).contains(&mean_spacing), "mean period {mean_spacing}");

    // and the per-period amplitude ratio converges to the feedback ~0.9
    for k in 5..20 {
        let ratio = masses[k] / masses[k - 1];
        assert!((0.85..=0.93).contains(&ratio), "period {k} mass ratio {ratio}");
    }
}
