//! A Karplus-Strong-style plucked-string synthesis engine.
//!
//! The engine owns a fixed-capacity ring buffer of samples, smooths
//! time-varying frequency and feedback targets with one-pole filters, and
//! computes one output sample per input sample by mixing live input with a
//! fed-back, interpolated delayed tap.  Control messages reach the engine
//! through a one-way, non-blocking channel that is drained once per block.
//!
//! Samples, parameters and buffer positions are Q16 fixed-point values:
//! an `i64` counts multiples of `1 / 65536`.  The host converts to and from
//! its own sample format at the boundary.

pub mod channel;
pub mod engine;
pub mod fixed;
pub mod message;
pub mod ring;
pub mod smoothing;
