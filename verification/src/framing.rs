//! Wire-level framing for inbound messages.
//!
//! The transport delivers a message as a buffer plus a signed length. A
//! non-negative length means "exactly that many bytes, binary-safe"; a
//! negative length is the text sentinel: the payload runs up to (and
//! excludes) the first zero byte.

use vstd::prelude::*;

verus! {

/// A decoding failure surfaced to the caller instead of aborting.
#[derive(Clone, Copy, Debug, PartialEq, Eq, Structural)]
pub enum DecodeError {
    /// The bytes were not valid text where text was required.
    InvalidText,
}

/// Length of the prefix that precedes the first zero byte of `s`
/// (the whole of `s` if it holds no zero byte).
pub open spec fn c_scan(s: Seq<u8>) -> int
    decreases s.len(),
{
    if s.len() == 0 {
        0
    } else if s[0] == 0 {
        0
    } else {
        1 + c_scan(s.drop_first())
    }
}

/// The bytes of `s` before its first zero byte.
pub open spec fn c_prefix(s: Seq<u8>) -> Seq<u8> {
    s.take(c_scan(s))
}

/// The payload selected by the sign-encoded length convention: a
/// non-negative length takes exactly that many bytes; a negative length
/// takes the zero-terminated prefix.
pub open spec fn framed(buf: Seq<u8>, len: int) -> Seq<u8> {
    if len >= 0 {
        buf.take(len)
    } else {
        c_prefix(buf)
    }
}

/// `c_scan` never runs past the end of the sequence.
pub proof fn lemma_c_scan_bounds(s: Seq<u8>)
    ensures
        0 <= c_scan(s) <= s.len(),
    decreases s.len(),
{
    if s.len() == 0 {
    } else if s[0] == 0 {
    } else {
        lemma_c_scan_bounds(s.drop_first());
    }
}

/// `c_scan` is the unique index bounded by the first zero byte.
pub proof fn lemma_c_scan_unique(s: Seq<u8>, n: int)
    requires
        0 <= n <= s.len(),
        forall|k: int| 0 <= k < n ==> s[k] != 0,
        n < s.len() ==> s[n] == 0,
    ensures
        c_scan(s) == n,
    decreases n,
{
    if s.len() == 0 {
    } else if n == 0 {
    } else {
        assert(s[0] != 0);
        assert(forall|k: int| 0 <= k < n - 1 ==> s.drop_first()[k] == s[k + 1]);
        lemma_c_scan_unique(s.drop_first(), n - 1);
    }
}

/// Index of the first zero byte of `buf`, or its length if it has none.
pub fn scan_terminator(buf: &Vec<u8>) -> (n: usize)
    ensures
        n as int == c_scan(buf@),
{
    let mut i: usize = 0;
    while i < buf.len()
        invariant
            0 <= i <= buf@.len(),
            forall|k: int| 0 <= k < i ==> buf@[k] != 0,
        decreases buf@.len() - i,
    {
        if buf[i] == 0 {
            proof {
                lemma_c_scan_unique(buf@, i as int);
            }
            return i;
        }
        i = i + 1;
    }
    proof {
        lemma_c_scan_unique(buf@, i as int);
    }
    i
}

/// Decode one inbound message buffer under the sign-encoded length
/// convention: `len >= 0` selects exactly `len` bytes (binary-safe, zero
/// bytes included); `len < 0` selects the zero-terminated prefix, with the
/// terminator excluded.
pub fn decode_message(buf: &Vec<u8>, len: i32) -> (r: Vec<u8>)
    requires
        len >= 0 ==> len as int <= buf@.len(),
    ensures
        r@ == framed(buf@, len as int),
{
    let n: usize = if len >= 0 {
        len as usize
    } else {
        scan_terminator(buf)
    };
    proof {
        lemma_c_scan_bounds(buf@);
    }
    let mut out: Vec<u8> = Vec::new();
    let mut i: usize = 0;
    while i < n
        invariant
            0 <= i <= n,
            n as int <= buf@.len(),
            out@ == buf@.take(i as int),
        decreases n - i,
    {
        out.push(buf[i]);
        proof {
            assert(buf@.take(i + 1 as int) =~= buf@.take(i as int).push(buf@[i as int]));
        }
        i = i + 1;
    }
    proof {
        assert(out@ =~= framed(buf@, len as int));
    }
    out
}

/// The characters that UTF-8 decoding yields for `bytes`, or `None` where
/// the bytes are not valid UTF-8. The decoding itself is the standard
/// library's; only its determinism and its validity split are relied on.
pub uninterp spec fn utf8_chars(bytes: Seq<u8>) -> Option<Seq<char>>;

/// Relies on std's `String::from_utf8`: it returns the decoded string
/// exactly when the bytes are valid UTF-8, and an error otherwise; the
/// outcome depends on the bytes alone.
#[verifier::external_body]
fn string_from_utf8(v: Vec<u8>) -> (r: Option<String>)
    ensures
        match r {
            Some(s) => utf8_chars(v@) == Some(s@),
            None => utf8_chars(v@) is None,
        },
{
    match String::from_utf8(v) {
        Ok(s) => Some(s),
        Err(_) => None,
    }
}

/// Decode a zero-terminated text buffer: take the bytes before the first
/// zero byte and require them to be valid text, surfacing a failure as an
/// explicit error rather than aborting.
pub fn decode_c_text(buf: &Vec<u8>) -> (r: Result<String, DecodeError>)
    ensures
        match r {
            Ok(s) => utf8_chars(c_prefix(buf@)) == Some(s@),
            Err(e) => e == DecodeError::InvalidText && utf8_chars(c_prefix(buf@)) is None,
        },
{
    let payload = decode_message(buf, -1);
    match string_from_utf8(payload) {
        Some(s) => Ok(s),
        None => Err(DecodeError::InvalidText),
    }
}

/// A send that the transport cannot accept.
#[derive(Clone, Copy, Debug, PartialEq, Eq, Structural)]
pub enum SendError {
    /// The target channel has been deleted.
    ChannelClosed,
    /// The payload does not fit the transport's signed length field.
    MessageTooLong,
}

/// What the transport receives for one outbound send: the payload bytes
/// and their explicit, non-negative length.
#[derive(Debug)]
pub struct OutFrame {
    pub bytes: Vec<u8>,
    pub len: i32,
}

/// Build the outbound frame for `msg`: the exact bytes with their explicit
/// length, so that binary payloads (zero bytes included) round-trip.
pub(crate) fn make_frame(msg: &[u8]) -> (r: Result<OutFrame, SendError>)
    ensures
        match r {
            Ok(f) => msg@.len() <= i32::MAX as int && f.bytes@ == msg@ && f.len as int
                == msg@.len(),
            Err(e) => e == SendError::MessageTooLong && msg@.len() > i32::MAX as int,
        },
{
    if msg.len() > i32::MAX as usize {
        return Err(SendError::MessageTooLong);
    }
    let n: usize = msg.len();
    let mut out: Vec<u8> = Vec::new();
    let mut i: usize = 0;
    while i < n
        invariant
            0 <= i <= n,
            n == msg@.len(),
            out@ == msg@.take(i as int),
        decreases n - i,
    {
        out.push(msg[i]);
        proof {
            assert(msg@.take(i + 1 as int) =~= msg@.take(i as int).push(msg@[i as int]));
        }
        i = i + 1;
    }
    proof {
        assert(out@ =~= msg@);
    }
    Ok(OutFrame { bytes: out, len: n as i32 })
}

/// An outbound frame decodes at the receiver to exactly the bytes that
/// were sent: the explicit non-negative length sidesteps the text
/// sentinel, so embedded zero bytes survive the round trip.
pub proof fn lemma_send_round_trip(msg: Seq<u8>)
    requires
        msg.len() <= i32::MAX as int,
    ensures
        framed(msg, msg.len() as int) == msg,
{
    assert(framed(msg, msg.len() as int) =~= msg);
}

} // verus!
