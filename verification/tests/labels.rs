use datachannel::label::LABEL_CAPACITY;
use datachannel::{DataChannel, DecodeError, RtcDataChannel};

struct Quiet;

impl DataChannel for Quiet {
}

#[test]
fn label_round_trips() {
    let channel = RtcDataChannel::new(1, b"chat".to_vec(), Quiet);
    assert_eq!(channel.label(), Ok(String::from("chat")));
}

#[test]
fn empty_label_round_trips() {
    let channel = RtcDataChannel::new(1, Vec::new(), Quiet);
    assert_eq!(channel.label(), Ok(String::new()));
}

#[test]
fn long_label_is_truncated_to_the_buffer_bound() {
    let label: Vec<u8> = vec![b'a'; 600];
    let channel = RtcDataChannel::new(1, label, Quiet);
    let got = channel.label().unwrap();
    assert_eq!(got.len(), LABEL_CAPACITY - 1);
    assert!(got.bytes().all(|b| b == b'a'));
}

#[test]
fn label_at_the_bound_is_kept_whole() {
    let label: Vec<u8> = vec![b'x'; LABEL_CAPACITY - 1];
    let channel = RtcDataChannel::new(1, label.clone(), Quiet);
    assert_eq!(channel.label().unwrap().into_bytes(), label);
}

#[test]
fn label_with_invalid_text_is_an_explicit_error() {
    let channel = RtcDataChannel::new(1, vec![0xff, 0xff, 0xff], Quiet);
    assert_eq!(channel.label(), Err(DecodeError::InvalidText));
}

#[test]
fn truncation_mid_character_is_an_explicit_error() {
    // 510 ASCII bytes, then one two-byte character: the copy cuts it in half
    let mut label: Vec<u8> = vec![b'a'; LABEL_CAPACITY - 2];
    label.extend_from_slice("é".as_bytes());
    let channel = RtcDataChannel::new(1, label, Quiet);
    assert_eq!(channel.label(), Err(DecodeError::InvalidText));
}

#[test]
fn label_stops_at_an_embedded_zero_byte() {
    let channel = RtcDataChannel::new(1, b"ab\0cd".to_vec(), Quiet);
    assert_eq!(channel.label(), Ok(String::from("ab")));
}
