//! Parameter-change messages sent from the control surface to the engine.

use vstd::prelude::*;

verus! {

/// A parameter change.  The payload is a Q16 fixed-point value: a feedback
/// amount (nominal range `[0.5, 1.0]`, i.e. `[32768, 65536]`) or a frequency
/// in hertz (nominal range `[130, 600]` Hz).  Each message is consumed exactly
/// once, in the order it was sent.
#[derive(Clone, Copy, Debug, PartialEq, Eq, Structural)]
pub enum Message {
    FeedbackChanged(i64),
    FrequencyChanged(i64),
}

/// The pair of control targets `(feedback, frequency)` after one message.
pub open spec fn apply_message_spec(feedback: int, frequency: int, m: Message) -> (int, int) {
    match m {
        Message::FeedbackChanged(v) => (v as int, frequency),
        Message::FrequencyChanged(v) => (feedback, v as int),
    }
}

/// The pair of control targets after a whole sequence of messages, applied
/// oldest first: for each parameter the last message wins.
pub open spec fn apply_messages_spec(feedback: int, frequency: int, ms: Seq<Message>) -> (int, int)
    decreases ms.len(),
{
    if ms.len() == 0 {
        (feedback, frequency)
    } else {
        let prev = apply_messages_spec(feedback, frequency, ms.drop_last());
        apply_message_spec(prev.0, prev.1, ms.last())
    }
}

} // verus!
