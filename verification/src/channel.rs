//! One data channel: an identifier paired with its owning handler.
//!
//! The wrapper owns its identifier and its handler exclusively. Every
//! event it dispatches is recorded in a ghost delivery log, which is what
//! the routing contracts speak of: an event reaches a channel exactly when
//! it is appended to that channel's log.

use vstd::prelude::*;
use crate::event::{Event, EventV};
use crate::framing::{
    decode_c_text, make_frame, utf8_chars, DecodeError, OutFrame, SendError,
};
use crate::handler::DataChannel;
use crate::label::{fill_label_buffer, lemma_query_buffer_decodes, queried_label};

verus! {

/// A channel wrapper: the transport-issued identifier, the configured
/// label, and the user's handler, owned together.
pub struct RtcDataChannel<D> {
    id: i32,
    label: Vec<u8>,
    dc: D,
    delivered: Ghost<Seq<EventV>>,
}

impl<D> RtcDataChannel<D> where D: DataChannel {
    /// The transport-issued identifier this wrapper owns.
    pub closed spec fn cid(&self) -> i32 {
        self.id
    }

    /// The configured label bytes, as the transport stores them.
    pub closed spec fn label_bytes(&self) -> Seq<u8> {
        self.label@
    }

    /// Every event delivered to this channel's handler, in order.
    pub closed spec fn log(&self) -> Seq<EventV> {
        self.delivered@
    }

    /// Attach `dc` as the handler of the channel `id`, with `label` as the
    /// label the transport records for it. Nothing has been delivered yet.
    pub fn new(id: i32, label: Vec<u8>, dc: D) -> (c: Self)
        ensures
            c.cid() == id,
            c.label_bytes() == label@,
            c.log() == Seq::<EventV>::empty(),
    {
        RtcDataChannel { id, label, dc, delivered: Ghost(Seq::empty()) }
    }

    /// The identifier this wrapper owns.
    pub fn id(&self) -> (r: i32)
        ensures
            r == self.cid(),
    {
        self.id
    }

    /// Dispatch one decoded event to this channel's handler: the matching
    /// hook runs, and the event is appended to the delivery log. The
    /// identifier and label are untouched.
    pub fn handle_event(&mut self, ev: Event)
        ensures
            final(self).cid() == old(self).cid(),
            final(self).label_bytes() == old(self).label_bytes(),
            final(self).log() == old(self).log().push(ev@),
    {
        let ghost evv = ev@;
        match ev {
            Event::Open => self.dc.on_open(),
            Event::Closed => self.dc.on_closed(),
            Event::Error(s) => self.dc.on_error(s.as_str()),
            Event::Message(m) => self.dc.on_message(m.as_slice()),
        }
        self.delivered = Ghost(self.delivered@.push(evv));
    }

    /// Frame `msg` for transmission on this channel: the exact bytes with
    /// their explicit length, or an error where the payload cannot fit the
    /// transport's signed length field. The wrapper itself is unchanged.
    pub fn send(&mut self, msg: &[u8]) -> (r: Result<OutFrame, SendError>)
        ensures
            *final(self) == *old(self),
            match r {
                Ok(f) => msg@.len() <= i32::MAX as int && f.bytes@ == msg@ && f.len as int
                    == msg@.len(),
                Err(e) => e == SendError::MessageTooLong && msg@.len() > i32::MAX as int,
            },
    {
        make_frame(msg)
    }

    /// Query this channel's label through the fixed-capacity buffer: the
    /// result is the decoded, possibly truncated label, or an explicit
    /// error where the surfaced bytes are not valid text.
    pub fn label(&self) -> (r: Result<String, DecodeError>)
        ensures
            match r {
                Ok(s) => utf8_chars(queried_label(self.label_bytes())) == Some(s@),
                Err(e) => e == DecodeError::InvalidText && utf8_chars(
                    queried_label(self.label_bytes()),
                ) is None,
            },
    {
        let buf = fill_label_buffer(&self.label);
        proof {
            lemma_query_buffer_decodes(self.label@, buf@);
        }
        decode_c_text(&buf)
    }
}

} // verus!
