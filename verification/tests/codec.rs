use ssl_injector::codec::{decode_payload, hex_decode, hex_encode, record_output, Decoded};
use ssl_injector::record::SslEntry;

#[test]
fn hex_encode_exact() {
    assert_eq!(hex_encode(&[0xAB, 0x00, 0xFF]), "AB00FF");
    assert_eq!(hex_encode(&[]), "");
    assert_eq!(hex_encode(&[0x01, 0x23, 0x45, 0x67, 0x89]), "0123456789");
}

#[test]
fn hex_round_trip() {
    let data: Vec<u8> = (0u16..=255u16).map(|b| b as u8).collect();
    let encoded = hex_encode(data.as_slice());
    let decoded = hex_decode(encoded.as_str()).expect("a rendering we produced must decode");
    assert_eq!(decoded, data);
}

#[test]
fn hex_decode_rejects_odd_length() {
    assert_eq!(hex_decode("ABC"), None);
}

#[test]
fn hex_decode_rejects_non_digit() {
    assert_eq!(hex_decode("AG"), None);
    assert_eq!(hex_decode("ab"), None);
}

#[test]
fn decode_text_payload() {
    match decode_payload(b"hello world".as_slice()) {
        Decoded::Text(s) => assert_eq!(s, "hello world"),
        Decoded::Hex(_) => panic!("valid text must take the text path"),
    }
}

#[test]
fn decode_non_ascii_text_payload() {
    let text = "gr\u{fc}\u{df}e, \u{4e16}\u{754c}";
    match decode_payload(text.as_bytes()) {
        Decoded::Text(s) => assert_eq!(s, text),
        Decoded::Hex(_) => panic!("valid text must take the text path"),
    }
}

#[test]
fn decode_binary_payload_falls_back_to_hex() {
    match decode_payload(&[0xFF, 0xFE, 0x00]) {
        Decoded::Hex(h) => assert_eq!(h, "FFFE00"),
        Decoded::Text(_) => panic!("invalid text must take the hex path"),
    }
}

#[test]
fn render_text_and_hex() {
    let d = decode_payload(b"hello world".as_slice());
    assert_eq!(d.render(), "hello world");
    let d = decode_payload(&[0xC3, 0x28]);
    assert_eq!(d.render(), "[HEX] C328");
}

#[test]
fn empty_record_is_skipped() {
    let e = SslEntry::new();
    assert!(record_output(&e).is_none());
}

#[test]
fn nonempty_record_is_decoded() {
    let e = SslEntry::from_payload(b"hi".as_slice());
    match record_output(&e) {
        Some(Decoded::Text(s)) => assert_eq!(s, "hi"),
        _ => panic!("a two-byte text record must decode as text"),
    }
}
