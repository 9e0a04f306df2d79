//! The user-facing callback contract.
//!
//! A handler reacts to a channel's lifecycle and inbound messages. All four
//! hooks are optional: each defaults to a no-op. A channel owns exactly one
//! handler for the channel's whole lifetime, and this layer assumes the
//! transport serializes event delivery per channel, so no hook is entered
//! concurrently with another hook of the same channel.

use vstd::prelude::*;

verus! {

/// The four capability hooks a channel owner may implement.
#[allow(unused_variables)]
pub trait DataChannel {
    /// The channel became ready to carry messages.
    fn on_open(&mut self) {
    }

    /// The channel was closed; the handler must treat this as terminal.
    fn on_closed(&mut self) {
    }

    /// The transport reported a failure, described by `err`.
    fn on_error(&mut self, err: &str) {
    }

    /// One inbound message arrived, already decoded to its exact bytes.
    fn on_message(&mut self, msg: &[u8]) {
    }
}

/// A factory for handlers, used when the remote peer opens a channel and a
/// fresh handler must be attached on acceptance.
pub trait MakeDataChannel<D> where D: DataChannel {
    /// Produce the handler for one newly accepted channel.
    fn make(&self) -> D;
}

} // verus!
