use ssl_injector::capture::{ReturnAction, SslCapture};
use ssl_injector::codec::{hex_encode, record_output, Decoded};
use ssl_injector::record::MAX_BUFFER_SIZE;

#[test]
fn captured_call_within_capacity() {
    let mut cap = SslCapture::new(1);
    assert!(cap.on_entry(42, 0x7000));
    let action = cap.return_action(42, 11);
    assert_eq!(
        action,
        ReturnAction::Read { addr: 0x7000, count: 11, truncated: false }
    );
    cap.commit_record(0, b"hello world".as_slice());
    let events = cap.take_events(0);
    assert_eq!(events.len(), 1);
    assert_eq!(events[0].size, 11);
    assert_eq!(events[0].payload_bytes(), b"hello world".to_vec());
    match record_output(&events[0]) {
        Some(Decoded::Text(s)) => assert_eq!(s, "hello world"),
        _ => panic!("the captured text must decode as text"),
    }
}

#[test]
fn oversized_call_is_truncated_once() {
    let len = MAX_BUFFER_SIZE + 100;
    let data: Vec<u8> = (0..len).map(|i| if i % 2 == 0 { 0xFF } else { i as u8 }).collect();
    let mut cap = SslCapture::new(1);
    assert!(cap.on_entry(7, 0x1234));
    let action = cap.return_action(7, len as i64);
    let (count, truncated) = match action {
        ReturnAction::Read { addr, count, truncated } => {
            assert_eq!(addr, 0x1234);
            (count, truncated)
        }
        ReturnAction::Skip => panic!("a correlated positive-length call must be captured"),
    };
    assert_eq!(count, MAX_BUFFER_SIZE);
    assert!(truncated, "exactly this call owes one truncation diagnostic");
    cap.commit_record(0, &data[..count]);
    let events = cap.take_events(0);
    assert_eq!(events.len(), 1);
    assert_eq!(events[0].size, MAX_BUFFER_SIZE);
    match record_output(&events[0]) {
        Some(Decoded::Hex(h)) => {
            assert_eq!(h.len(), 2 * MAX_BUFFER_SIZE);
            assert_eq!(h, hex_encode(&data[..MAX_BUFFER_SIZE]));
        }
        _ => panic!("a binary payload must decode as hex"),
    }
}

#[test]
fn error_return_emits_nothing() {
    let mut cap = SslCapture::new(1);
    assert!(cap.on_entry(9, 0x2000));
    let action = cap.return_action(9, -1);
    assert_eq!(action, ReturnAction::Skip);
    assert!(cap.take_events(0).is_empty());
}

#[test]
fn zero_return_emits_nothing() {
    let mut cap = SslCapture::new(1);
    assert!(cap.on_entry(9, 0x2000));
    assert_eq!(cap.return_action(9, 0), ReturnAction::Skip);
}

#[test]
fn uncorrelated_return_emits_nothing() {
    let mut cap = SslCapture::new(1);
    assert_eq!(cap.return_action(5, 128), ReturnAction::Skip);
    assert!(cap.take_events(0).is_empty());
}

#[test]
fn full_table_rejects_new_threads_only() {
    let mut cap = SslCapture::new(1);
    for t in 0..1024u64 {
        assert!(cap.on_entry(t, t + 0x1000));
    }
    assert!(!cap.on_entry(5000, 0x9999), "a full table must reject a new thread");
    assert!(cap.on_entry(3, 0x8888), "a known thread may always update its entry");
    assert_eq!(
        cap.return_action(3, 4),
        ReturnAction::Read { addr: 0x8888, count: 4, truncated: false }
    );
    assert_eq!(cap.return_action(5000, 4), ReturnAction::Skip);
}

#[test]
fn partitions_are_independent_and_drained_once() {
    let mut cap = SslCapture::new(3);
    cap.commit_record(0, b"zero".as_slice());
    cap.commit_record(2, b"two".as_slice());
    cap.commit_record(0, b"zero again".as_slice());

    let q1 = cap.take_events(1);
    assert!(q1.is_empty(), "an idle partition must stay empty");

    let q0 = cap.take_events(0);
    assert_eq!(q0.len(), 2);
    assert_eq!(q0[0].payload_bytes(), b"zero".to_vec());
    assert_eq!(q0[1].payload_bytes(), b"zero again".to_vec());

    let q2 = cap.take_events(2);
    assert_eq!(q2.len(), 1);
    assert_eq!(q2[0].payload_bytes(), b"two".to_vec());

    assert!(cap.take_events(0).is_empty(), "a drained partition hands nothing out twice");
    assert!(cap.take_events(2).is_empty(), "a drained partition hands nothing out twice");
}

#[test]
fn scratch_slot_is_reused_per_cpu() {
    let mut cap = SslCapture::new(1);
    cap.commit_record(0, b"first".as_slice());
    cap.commit_record(0, b"second, longer".as_slice());
    cap.commit_record(0, b"3rd".as_slice());
    let events = cap.take_events(0);
    assert_eq!(events.len(), 3);
    assert_eq!(events[0].payload_bytes(), b"first".to_vec());
    assert_eq!(events[1].payload_bytes(), b"second, longer".to_vec());
    assert_eq!(events[2].payload_bytes(), b"3rd".to_vec());
}
