use bytes::Bytes;
use vireon::topic::pattern_matches;
use vireon::wire::{
    encode_ack, encode_fetch, encode_publish, encode_resume, encode_rpc, encode_unsubscribe,
    get_be, parse_fetch_reply, parse_notify_offset, parse_publish, put_be, read_cid,
};

#[test]
fn big_endian_numbers() {
    let mut out = vec![7u8];
    put_be(&mut out, 0x0102_0304, 4);
    assert_eq!(out, &[7, 1, 2, 3, 4]);
    assert_eq!(get_be(&out, 1, 4), 0x0102_0304);
    let mut wide = Vec::new();
    put_be(&mut wide, u128::MAX, 16);
    assert_eq!(get_be(&wide, 0, 16), u128::MAX);
    // What does not fit is cut off at the top.
    let mut cut = Vec::new();
    put_be(&mut cut, 0x1_02, 1);
    assert_eq!(cut, &[2]);
}

#[test]
fn publish_is_read_back() {
    let p = Bytes::from(encode_publish("chat.hello", b"payload"));
    let (topic, body) = parse_publish(&p).unwrap();
    assert_eq!(topic.as_ref(), b"chat.hello");
    assert_eq!(body.as_ref(), b"payload");
}

#[test]
fn truncated_publishes() {
    assert!(parse_publish(&Bytes::from_static(&[])).is_none());
    assert!(parse_publish(&Bytes::from_static(&[0])).is_none());
    assert!(parse_publish(&Bytes::from_static(&[0, 3, b'a', b'b'])).is_none());
    let (t, b) = parse_publish(&Bytes::from_static(&[0, 0])).unwrap();
    assert!(t.is_empty() && b.is_empty());
}

#[test]
fn long_topics_saturate_their_length() {
    let topic = "x".repeat(70_000);
    let b = encode_publish(&topic, &[]);
    assert_eq!(&b[..2], &[0xFF, 0xFF]);
    assert_eq!(b.len(), 70_002);
}

#[test]
fn unsubscribe_layout() {
    assert_eq!(encode_unsubscribe("a.b"), &[0, 3, b'a', b'.', b'b']);
}

#[test]
fn fetch_layout() {
    assert_eq!(
        encode_fetch(b"t", 258),
        &[0, 1, b't', 0, 0, 0, 0, 0, 0, 1, 2, 0, 0, 0, 1]
    );
}

#[test]
fn ack_layout() {
    assert_eq!(encode_ack(0x0A0B), &[0, 0, 0, 0, 0, 0, 0x0A, 0x0B]);
}

#[test]
fn resume_layout() {
    let mut expected = vec![0, 0, 0, 0, 0, 0, 0, 42, 1];
    expected.extend_from_slice(&7u64.to_be_bytes());
    expected.extend_from_slice(&5u64.to_be_bytes());
    assert_eq!(encode_resume(42, &vec![(7, 5)]), expected);
    let many: Vec<(u64, u64)> = (0..300).map(|i| (i, i)).collect();
    let b = encode_resume(1, &many);
    assert_eq!(b[8], 255);
    assert_eq!(b.len(), 9 + 300 * 16);
}

#[test]
fn rpc_framing() {
    let b = encode_rpc(42, b"hi");
    assert_eq!(b.len(), 18);
    assert_eq!(b[15], 42);
    assert_eq!(&b[16..], b"hi");
    assert_eq!(read_cid(&b), Some(42));
    assert_eq!(read_cid(&b[..15]), None);
}

#[test]
fn notify_offset_parsing() {
    let mut p = vec![0, 1, b't'];
    p.extend_from_slice(&513u64.to_be_bytes());
    let (topic, offset) = parse_notify_offset(&Bytes::from(p.clone())).unwrap();
    assert_eq!(topic.as_ref(), b"t");
    assert_eq!(offset, 513);
    p.pop();
    assert!(parse_notify_offset(&Bytes::from(p)).is_none());
}

#[test]
fn fetch_reply_parsing() {
    let mut p = vec![0, 1, b't'];
    p.extend_from_slice(&1u64.to_be_bytes());
    p.extend_from_slice(&2u64.to_be_bytes());
    p.extend_from_slice(&3u32.to_be_bytes());
    p.extend_from_slice(b"abcX");
    let (topic, body) = parse_fetch_reply(&Bytes::from(p.clone())).unwrap();
    assert_eq!(topic.as_ref(), b"t");
    assert_eq!(body.as_ref(), b"abc");
    p.truncate(p.len() - 2);
    assert!(parse_fetch_reply(&Bytes::from(p.clone())).is_none());
    p.truncate(10);
    assert!(parse_fetch_reply(&Bytes::from(p)).is_none());
}

#[test]
fn documented_patterns() {
    assert!(pattern_matches("sensor.temp", "sensor.temp"));
    assert!(pattern_matches("sensor.*", "sensor.temp"));
    assert!(!pattern_matches("sensor.*", "sensor.temp.high"));
    assert!(pattern_matches("*.*.*", "a.b.c"));
    assert!(pattern_matches("sensor.*.high", "sensor.temp.high"));
    assert!(pattern_matches("*", ""));
    assert!(!pattern_matches("a*", "ab"));
    assert!(pattern_matches("a..b", "a..b"));
}
