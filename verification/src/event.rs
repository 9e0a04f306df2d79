//! Channel events, decoded once at the boundary.
//!
//! The transport's untyped callback data is decoded into `Event` before it
//! reaches any handler, so downstream code never sees the wire-level
//! distinction between terminated text and length-prefixed bytes.

use vstd::prelude::*;

verus! {

/// The mathematical value of an event, used in specifications and in each
/// channel's ghost delivery log.
pub enum EventV {
    Open,
    Closed,
    Error { text: Seq<char> },
    Message { bytes: Seq<u8> },
}

/// One decoded channel event, as delivered to a handler.
pub enum Event {
    /// The channel became ready.
    Open,
    /// The channel was closed.
    Closed,
    /// The transport reported a failure with this message.
    Error(String),
    /// One inbound message with these exact bytes.
    Message(Vec<u8>),
}

impl View for Event {
    type V = EventV;

    open spec fn view(&self) -> EventV {
        match self {
            Event::Open => EventV::Open,
            Event::Closed => EventV::Closed,
            Event::Error(s) => EventV::Error { text: s@ },
            Event::Message(m) => EventV::Message { bytes: m@ },
        }
    }
}

} // verus!
