use datachannel::{decode_c_text, decode_message, DecodeError};

#[test]
fn binary_length_keeps_embedded_zero() {
    let buf: Vec<u8> = vec![1, 0, 2];
    let out = decode_message(&buf, 3);
    assert_eq!(out, vec![1, 0, 2]);
}

#[test]
fn binary_length_takes_exact_prefix() {
    let buf: Vec<u8> = vec![9, 8, 7, 6];
    let out = decode_message(&buf, 2);
    assert_eq!(out, vec![9, 8]);
}

#[test]
fn binary_length_zero_is_empty() {
    let buf: Vec<u8> = vec![1, 2, 3];
    let out = decode_message(&buf, 0);
    assert_eq!(out, Vec::<u8>::new());
}

#[test]
fn text_sentinel_excludes_terminator() {
    let buf: Vec<u8> = b"hello\0".to_vec();
    let out = decode_message(&buf, -1);
    assert_eq!(out, b"hello".to_vec());
}

#[test]
fn text_sentinel_stops_at_first_zero() {
    let buf: Vec<u8> = b"hi\0xyz".to_vec();
    let out = decode_message(&buf, -1);
    assert_eq!(out, b"hi".to_vec());
}

#[test]
fn text_sentinel_without_zero_takes_all() {
    let buf: Vec<u8> = b"abc".to_vec();
    let out = decode_message(&buf, -1);
    assert_eq!(out, b"abc".to_vec());
}

#[test]
fn c_text_decodes_valid_utf8() {
    let buf: Vec<u8> = b"negotiation failed\0junk".to_vec();
    assert_eq!(decode_c_text(&buf), Ok(String::from("negotiation failed")));
}

#[test]
fn c_text_rejects_invalid_utf8() {
    let buf: Vec<u8> = vec![0xff, 0xfe, 0];
    assert_eq!(decode_c_text(&buf), Err(DecodeError::InvalidText));
}
