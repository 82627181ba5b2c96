//! Tests of the ring buffer: exact readback, interpolation, wraparound.

use kps::fixed::{FRAC_HALF, FRAC_ONE, SAMPLE_LIMIT};
use kps::ring::{MAX_DELAY, RingBuffer};

#[test]
fn exact_readback() {
    let mut rb = RingBuffer::new();
    let cases: [(usize, i64); 5] = [
        (0, 123456),
        (1, -789),
        (123456, SAMPLE_LIMIT),
        (9999999, -SAMPLE_LIMIT),
        (MAX_DELAY - 1, 42),
    ];
    for &(p, v) in cases.iter() {
        rb.write(p, v);
    }
    for &(p, v) in cases.iter() {
        let r = rb.evaluate((p as i64) * FRAC_ONE);
        assert_eq!(r, v, "readback at integer position {p}");
    }
}

#[test]
fn interpolation_midpoint() {
    let mut rb = RingBuffer::new();
    rb.write(10, 1000);
    rb.write(11, 3000);
    let r = rb.evaluate(10 * FRAC_ONE + FRAC_HALF);
    assert_eq!(r, 2000);
}

#[test]
fn interpolation_general() {
    let mut rb = RingBuffer::new();
    rb.write(10, 1000);
    rb.write(11, 2000);
    // f = 0.25 of a unit
    let quarter = FRAC_ONE / 4;
    let r = rb.evaluate(10 * FRAC_ONE + quarter);
    // ((FRAC_ONE - f)*v0 + f*v1) / FRAC_ONE, truncating
    let expected = ((FRAC_ONE - quarter) as i128 * 1000 + quarter as i128 * 2000)
        / FRAC_ONE as i128;
    assert_eq!(r as i128, expected);
    assert_eq!(r, 1250);

    // same weights on negative samples truncate toward zero
    rb.write(20, -1000);
    rb.write(21, -2000);
    let r2 = rb.evaluate(20 * FRAC_ONE + quarter);
    assert_eq!(r2, -1250);

    // matches the real-number interpolation to within one Q16 step
    let f = 0.25f64;
    let ideal = (1.0 - f) * 1000.0 + f * 2000.0;
    assert!((r as f64 - ideal).abs() <= 1.0);
}

#[test]
fn wraparound_write_pointer() {
    let mut rb = RingBuffer::new();
    let start = rb.write_pointer();
    assert_eq!(start, 0);
    for _ in 0..MAX_DELAY {
        rb.advance();
    }
    assert_eq!(rb.write_pointer(), start);
}

#[test]
fn wraparound_read_across_end() {
    let mut rb = RingBuffer::new();
    rb.write(MAX_DELAY - 1, 1000);
    rb.write(0, 3000);
    // halfway between the last index and index 0
    let r = rb.evaluate(((MAX_DELAY - 1) as i64) * FRAC_ONE + FRAC_HALF);
    assert_eq!(r, 2000);
}

#[test]
fn write_index_wraps_modulo_capacity() {
    let mut rb = RingBuffer::new();
    // an index past the end lands on index mod MAX_DELAY
    rb.write(MAX_DELAY + 7, 555);
    let r = rb.evaluate(7 * FRAC_ONE);
    assert_eq!(r, 555);
}

#[test]
fn interpolation_stays_within_sample_bound() {
    let mut rb = RingBuffer::new();
    rb.write(100, SAMPLE_LIMIT);
    rb.write(101, SAMPLE_LIMIT);
    let r = rb.evaluate(100 * FRAC_ONE + FRAC_HALF);
    assert_eq!(r, SAMPLE_LIMIT);
    let r2 = rb.evaluate(100 * FRAC_ONE + FRAC_ONE / 3);
    assert!(r2.abs() <= SAMPLE_LIMIT);
}
