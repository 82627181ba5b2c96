//! The parameter channel: a one-way, ordered, non-blocking conduit from the
//! control context to the processing context.
//!
//! The channel itself is crossbeam's unbounded multi-producer channel.  The
//! engine only ever receives: it drains the queue once per block, without
//! blocking.  Which messages are pending depends on the sending thread, so
//! nothing is promised about the drained values themselves; everything the
//! engine then does with them is verified in [`crate::engine`].

use vstd::prelude::*;

use crate::message::Message;

verus! {

#[verifier::external_type_specification]
#[verifier::external_body]
#[verifier::reject_recursive_types(T)]
pub struct ExReceiver<T>(crossbeam::channel::Receiver<T>);

/// Relies on `crossbeam::channel::Receiver::try_recv`: it returns the oldest
/// pending message, or nothing when the queue is empty, and never blocks.
/// Which message (if any) is pending depends on the sending thread, so no
/// more can be said of the result.
#[verifier::external_body]
fn try_recv_message(receiver: &crossbeam::channel::Receiver<Message>) -> (r: Option<Message>) {
    match receiver.try_recv() {
        Ok(m) => Some(m),
        Err(_) => None,
    }
}

/// Relies on `crossbeam::channel::Receiver::len`: the number of messages in
/// the queue at the moment of the call.  Used only to bound the drain loop.
#[verifier::external_body]
fn pending_count(receiver: &crossbeam::channel::Receiver<Message>) -> (n: usize) {
    receiver.len()
}

/// Remove the pending messages from the channel, oldest first, without
/// blocking.  Messages that arrive while draining is already under way may be
/// left for the next block.
pub(crate) fn drain_messages(receiver: &crossbeam::channel::Receiver<Message>) -> (messages: Vec<
    Message,
>) {
    let n = pending_count(receiver);
    let mut messages: Vec<Message> = Vec::new();
    let mut i: usize = 0;
    let mut empty = false;
    while i < n && !empty
        invariant
            i <= n,
        decreases n - i,
    {
        match try_recv_message(receiver) {
            Some(m) => messages.push(m),
            None => empty = true,
        }
        i = i + 1;
    }
    messages
}

} // verus!
