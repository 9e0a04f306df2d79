//! A verified model of a callback-driven data-channel wrapper: identifier
//! management, event decoding and dispatch, message framing, and
//! lifecycle/ownership accounting for peer-to-peer data channels.

pub mod channel;
pub mod event;
pub mod framing;
pub mod handler;
pub mod label;
pub mod session;

pub use channel::RtcDataChannel;
pub use session::Session;
pub use event::Event;
pub use framing::{decode_c_text, decode_message, DecodeError, OutFrame, SendError};
pub use handler::{DataChannel, MakeDataChannel};
