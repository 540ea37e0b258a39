use ssl_injector::record::{SslEntry, MAX_BUFFER_SIZE};

#[test]
fn capacity_leaves_room_for_the_size_field() {
    assert_eq!(MAX_BUFFER_SIZE, 7 * 1024 - 8);
}

#[test]
fn fresh_record_is_zeroed() {
    let e = SslEntry::new();
    assert_eq!(e.size, 0);
    assert_eq!(e.buffer.len(), MAX_BUFFER_SIZE);
    assert!(e.buffer.iter().all(|b| *b == 0));
    assert!(e.payload_bytes().is_empty());
}

#[test]
fn set_payload_keeps_exactly_the_bytes() {
    let mut e = SslEntry::new();
    e.set_payload(&[9, 8, 7]);
    assert_eq!(e.size, 3);
    assert_eq!(e.payload_bytes(), vec![9, 8, 7]);
    e.set_payload(&[1]);
    assert_eq!(e.size, 1);
    assert_eq!(e.payload_bytes(), vec![1]);
}

#[test]
fn wire_round_trip() {
    let e = SslEntry::from_payload(b"hello world".as_slice());
    let wire = e.to_bytes();
    assert_eq!(wire.len(), MAX_BUFFER_SIZE + 8);
    let back = SslEntry::from_bytes(wire.as_slice()).expect("our own wire form must parse");
    assert_eq!(back.size, e.size);
    assert_eq!(back.buffer, e.buffer);
    assert_eq!(back.payload_bytes(), b"hello world".to_vec());
}

#[test]
fn wire_parse_rejects_wrong_length() {
    assert!(SslEntry::from_bytes(&[0u8; 16]).is_none());
    let long = vec![0u8; MAX_BUFFER_SIZE + 9];
    assert!(SslEntry::from_bytes(long.as_slice()).is_none());
}

#[test]
fn wire_parse_rejects_oversized_size_field() {
    let mut wire = vec![0u8; MAX_BUFFER_SIZE + 8];
    let bad = (MAX_BUFFER_SIZE as u64) + 1;
    wire[MAX_BUFFER_SIZE..].copy_from_slice(&bad.to_le_bytes());
    assert!(SslEntry::from_bytes(wire.as_slice()).is_none());

    wire[MAX_BUFFER_SIZE..].copy_from_slice(&(11u64).to_le_bytes());
    let parsed = SslEntry::from_bytes(wire.as_slice()).expect("a size within capacity must parse");
    assert_eq!(parsed.size, 11);
}

#[test]
fn wire_size_field_is_little_endian() {
    let mut e = SslEntry::new();
    e.set_payload(&[1, 2, 3, 4, 5]);
    let wire = e.to_bytes();
    assert_eq!(&wire[MAX_BUFFER_SIZE..], &[5, 0, 0, 0, 0, 0, 0, 0]);
    assert_eq!(&wire[..5], &[1, 2, 3, 4, 5]);
}
