use bytes::Bytes;
use tokio::sync::{mpsc, oneshot};
use vireon::client::RpcCids;
use vireon::frame::{Frame, MessageType};
use vireon::message::Message;
use vireon::routing::{StreamEntry, DEFAULT_STREAM};
use vireon::stream::DeliveryPolicy;
use vireon::task::TaskState;
use vireon::time::{backoff_for, Duration};
use vireon::topic::pattern_matches;
use vireon::wire::{encode_group_join, encode_group_leave, encode_publish, encode_subscribe};

fn make_state() -> TaskState {
    TaskState::new(8, 1024 * 1024, false, 32, 0)
}

fn make_reliable_state(ack_interval: u8) -> TaskState {
    TaskState::new(8, 1024 * 1024, true, ack_interval, 42)
}

fn make_publish_frame(topic: &str, body: &[u8]) -> Frame {
    let mut payload = Vec::with_capacity(2 + topic.len() + body.len());
    let topic_len = u16::try_from(topic.len()).unwrap_or(u16::MAX);
    payload.extend_from_slice(&topic_len.to_be_bytes());
    payload.extend_from_slice(topic.as_bytes());
    payload.extend_from_slice(body);
    Frame {
        msg_type: MessageType::Publish,
        seq: 1,
        ack_req: false,
        payload: Bytes::from(payload),
    }
}

/// A publish that asks for an acknowledgement, with the given number.
fn make_reliable_frame_with_seq(topic: &str, body: &[u8], seq: u64) -> Frame {
    let mut f = make_publish_frame(topic, body);
    f.seq = seq;
    f.ack_req = true;
    f
}

/// Registers stream 7, so that messages on it have somewhere to go.
fn register_stream(st: &mut TaskState) -> mpsc::Receiver<Message> {
    let (stx, srx) = mpsc::channel::<Message>(8);
    st.routing.streams.insert(
        7,
        StreamEntry {
            policy: DeliveryPolicy::ReliableUnordered,
            topic: Some("sensor.temp".into()),
            tx: stx,
        },
    );
    srx
}

#[test]
fn exact_match() {
    assert!(pattern_matches("sensor.temp", "sensor.temp"));
    assert!(!pattern_matches("sensor.temp", "sensor.humidity"));
}

#[test]
fn single_segment_wildcard() {
    assert!(pattern_matches("sensor.*", "sensor.temp"));
    assert!(pattern_matches("sensor.*", "sensor.humidity"));
    assert!(!pattern_matches("sensor.*", "sensor")); // segment count differs
    assert!(!pattern_matches("sensor.*", "sensor.nested.temp"));
}

#[test]
fn multi_segment_wildcard() {
    assert!(pattern_matches("*.*", "a.b"));
    assert!(!pattern_matches("*.*", "a.b.c"));
}

#[test]
fn subscribe_encode_roundtrip_layout() {
    let b = encode_subscribe("sensor.*", 1);
    assert_eq!(b.len(), 2 + "sensor.*".len() + 1);
    assert_eq!(u16::from_be_bytes([b[0], b[1]]), 8);
    assert_eq!(b[b.len() - 1], 1);
}

#[test]
fn publish_encode_layout() {
    let b = encode_publish("t", &[1, 2, 3]);
    assert_eq!(b, &[0, 1, b't', 1, 2, 3]);
}

#[test]
fn backoff_for_zero_returns_initial() {
    let initial = Duration::from_millis(100);
    let max = Duration::from_secs(10);
    // attempt 0: initial * 2^0 = initial
    assert_eq!(backoff_for(0, initial, max), initial);
}

#[test]
fn backoff_for_grows_exponentially() {
    let initial = Duration::from_millis(100);
    let max = Duration::from_secs(60);
    // attempt 3: 100ms * 2^3 = 800ms
    assert_eq!(backoff_for(3, initial, max), Duration::from_millis(800));
}

#[test]
fn backoff_for_clamps_at_max() {
    let initial = Duration::from_millis(500);
    let max = Duration::from_secs(1);
    // attempt 20 would be about 524288000 ms but clamps to 1s
    assert_eq!(backoff_for(20, initial, max), max);
}

#[test]
fn backoff_for_handles_max_zero_gracefully() {
    // The cap is at least a millisecond.
    let initial = Duration::from_millis(10);
    let max = Duration::from_millis(0);
    assert_eq!(backoff_for(5, initial, max), Duration::from_millis(1));
}

#[test]
fn backoff_for_does_not_panic_on_large_attempt() {
    // The doubling stops at 31.
    let initial = Duration::from_millis(1);
    let max = Duration::from_secs(60);
    let _ = backoff_for(u32::MAX, initial, max);
    let _ = backoff_for(31, initial, max);
}

#[test]
fn rpc_interceptor_routes_matching_reply_to_oneshot() {
    let mut st = make_state();
    let cid: u128 = 0x0123_4567_89AB_CDEF_0123_4567_89AB_CDEFu128;
    st.routing.rpc_reply_topics.push("svc.reply".into());

    let (tx, mut rx) = oneshot::channel();
    st.routing.pending_rpcs.insert(cid, tx);

    // Reply body = 16-byte cid BE + app payload "hello"
    let mut body = cid.to_be_bytes().to_vec();
    body.extend_from_slice(b"hello");
    st.dispatch(DEFAULT_STREAM, make_publish_frame("svc.reply", &body));

    let msg = rx.try_recv().expect("reply should arrive");
    assert_eq!(msg.payload.as_ref(), b"hello");
    assert_eq!(msg.stream_id, DEFAULT_STREAM);
    // Slot must be drained.
    assert!(st.routing.pending_rpcs.is_empty());
}

#[test]
fn rpc_interceptor_strips_cid_but_preserves_topic() {
    let mut st = make_state();
    let cid = 42u128;
    st.routing.rpc_reply_topics.push("_rpc.reply".into());
    let (tx, mut rx) = oneshot::channel();
    st.routing.pending_rpcs.insert(cid, tx);

    st.dispatch(
        DEFAULT_STREAM,
        make_publish_frame(
            "_rpc.reply",
            &[0, 0, 0, 0, 0, 0, 0, 0, 0, 0, 0, 0, 0, 0, 0, 42, 9, 9],
        ),
    );
    let msg = rx.try_recv().unwrap();
    // Topic is preserved verbatim; only the payload's cid prefix is stripped.
    assert_eq!(msg.topic.as_ref(), b"_rpc.reply");
    assert_eq!(msg.payload.as_ref(), &[9, 9]);
}

#[test]
fn rpc_interceptor_ignores_unmatched_cid_on_reply_topic() {
    let mut st = make_state();
    st.routing.rpc_reply_topics.push("svc.reply".into());
    let (tx, mut rx) = oneshot::channel();
    st.routing.pending_rpcs.insert(100u128, tx);

    // Wrong cid: falls through to normal fan-out, and the call stays pending.
    let wrong_cid = 999u128;
    st.dispatch(
        DEFAULT_STREAM,
        make_publish_frame("svc.reply", &wrong_cid.to_be_bytes()),
    );

    assert_eq!(
        rx.try_recv().err(),
        Some(oneshot::error::TryRecvError::Empty),
        "unmatched cid must not deliver"
    );
    assert_eq!(st.routing.pending_rpcs.len(), 1);
}

#[test]
fn rpc_interceptor_skipped_when_no_pending_rpc() {
    // With no call pending, a message on a reply topic takes the normal path.
    let mut st = make_state();
    st.routing.rpc_reply_topics.push("svc.reply".into());
    st.dispatch(DEFAULT_STREAM, make_publish_frame("svc.reply", &[0u8; 32]));
    assert!(st.routing.pending_rpcs.is_empty());
}

#[test]
fn rpc_interceptor_skipped_when_topic_not_registered() {
    // A message on an unrelated topic must not be taken for a reply, even if its first 16 bytes
    // happen to be the id of a pending call.
    let mut st = make_state();
    let cid = 7u128;
    let (tx, _rx) = oneshot::channel();
    st.routing.pending_rpcs.insert(cid, tx);

    st.dispatch(
        DEFAULT_STREAM,
        make_publish_frame("unrelated.topic", &cid.to_be_bytes()),
    );

    assert_eq!(st.routing.pending_rpcs.len(), 1);
}

#[test]
fn rpc_interceptor_handles_short_payload_gracefully() {
    // Less than 16 bytes cannot hold a correlation id.
    let mut st = make_state();
    st.routing.rpc_reply_topics.push("svc.reply".into());
    let (tx, _rx) = oneshot::channel();
    st.routing.pending_rpcs.insert(1u128, tx);

    st.dispatch(DEFAULT_STREAM, make_publish_frame("svc.reply", &[1, 2, 3]));
    assert_eq!(st.routing.pending_rpcs.len(), 1, "short payload must not match");
}

#[test]
fn next_rpc_cid_is_strictly_monotonic() {
    let mut cids = RpcCids::new();
    let a = cids.next_rpc_cid();
    let b = cids.next_rpc_cid();
    let c = cids.next_rpc_cid();
    assert!(b > a, "cid must increase: a={a}, b={b}");
    assert!(c > b, "cid must increase: b={b}, c={c}");
}

#[test]
fn group_join_encode_layout() {
    // topic="t", group="g", consumer="c", partitions=1
    let b = encode_group_join("t", "g", "c", 1);
    // Expected: 0,1,'t' | 0,1,'g' | 0,1,'c' | 0,0,0,1
    assert_eq!(b, &[0, 1, b't', 0, 1, b'g', 0, 1, b'c', 0, 0, 0, 1]);
}

#[test]
fn group_leave_encode_layout() {
    let b = encode_group_leave("t", "g", "c");
    assert_eq!(b, &[0, 1, b't', 0, 1, b'g', 0, 1, b'c']);
}

#[test]
fn group_join_matches_server_parse_prefix() {
    // The first three length-prefixed strings decode cleanly and leave a 4-byte tail.
    let b = encode_group_join("sensor.temp", "workers", "c1", 8);
    // topic
    let tlen = u16::from_be_bytes([b[0], b[1]]) as usize;
    assert_eq!(&b[2..2 + tlen], b"sensor.temp");
    // group
    let mut pos = 2 + tlen;
    let glen = u16::from_be_bytes([b[pos], b[pos + 1]]) as usize;
    pos += 2;
    assert_eq!(&b[pos..pos + glen], b"workers");
    // consumer
    pos += glen;
    let clen = u16::from_be_bytes([b[pos], b[pos + 1]]) as usize;
    pos += 2;
    assert_eq!(&b[pos..pos + clen], b"c1");
    // partitions tail
    pos += clen;
    assert_eq!(b.len() - pos, 4);
    assert_eq!(
        u32::from_be_bytes([b[pos], b[pos + 1], b[pos + 2], b[pos + 3]]),
        8
    );
}

#[test]
fn reliable_dispatch_accepts_monotonic_seq_and_queus_ack() {
    // ack_interval=1: every reliable frame queues an acknowledgement.
    let mut st = make_reliable_state(1);
    let _srx = register_stream(&mut st);
    st.dispatch(7, make_reliable_frame_with_seq("sensor.temp", b"a", 1));
    st.dispatch(7, make_reliable_frame_with_seq("sensor.temp", b"b", 2));
    st.dispatch(7, make_reliable_frame_with_seq("sensor.temp", b"c", 3));
    // Watermark advanced to 3.
    assert_eq!(st.reliability.highest_accepted.get(&7), Some(&3));
    // Three acks queued (one per frame, interval=1).
    assert_eq!(st.reliability.pending_ack_flush.len(), 3);
    // The last acked seq is 3.
    assert_eq!(st.reliability.pending_ack_flush.last().copied(), Some((7, 3)));
}

#[test]
fn reliable_dispatch_suppresses_duplicates_below_watermark() {
    let mut st = make_reliable_state(1);
    let _srx = register_stream(&mut st);
    // Accept 1..5.
    for s in 1..=5u64 {
        st.dispatch(7, make_reliable_frame_with_seq("sensor.temp", b"x", s));
    }
    // Now deliver a duplicate (seq 3, already accepted).
    st.dispatch(7, make_reliable_frame_with_seq("sensor.temp", b"dup", 3));
    // Duplicate counter incremented.
    assert_eq!(
        st.reliability.duplicates_detected, 1,
        "first duplicate should be counted"
    );
    // Watermark unchanged at 5.
    assert_eq!(st.reliability.highest_accepted.get(&7), Some(&5));
    // pending_acks still tracks the highest (5).
    assert_eq!(st.reliability.pending_acks.get(&7), Some(&5));
}

#[test]
fn reliable_ack_cadence_queues_every_nth_frame() {
    // ack_interval=3: one ack queued per 3 reliable frames.
    let mut st = make_reliable_state(3);
    let _srx = register_stream(&mut st);
    for s in 1..=7u64 {
        st.dispatch(7, make_reliable_frame_with_seq("sensor.temp", b"x", s));
    }
    // floor(7/3) = 2 acks queued (after frames 3 and 6).
    assert_eq!(
        st.reliability.pending_ack_flush.len(),
        2,
        "one ack per 3 frames → 2 acks for 7 frames"
    );
}

#[test]
fn reliable_resume_state_survives_replay_all_reset() {
    // A replay starts outgoing numbers over but must preserve dedup and ack state.
    let mut st = make_reliable_state(1);
    st.reliability.highest_accepted.insert(7, 5);
    st.reliability.pending_acks.insert(7, 5);
    let _ = st.next_seq(0);
    let _ = st.replay_all(true);
    assert_eq!(st.next_seq(0), 0);
    // Verify the watermark survived.
    assert_eq!(st.reliability.highest_accepted.get(&7), Some(&5));
    assert_eq!(st.reliability.pending_acks.get(&7), Some(&5));
}

#[test]
fn reliable_dispatch_ignores_frames_without_ack_req() {
    // Reliability is on, but the frame asks for no acknowledgement: it bypasses the watermark.
    let mut st = make_reliable_state(1);
    let _srx = register_stream(&mut st);
    let mut f = make_publish_frame("sensor.temp", b"x");
    f.seq = 1;
    st.dispatch(7, f);
    // No watermark update (frame bypassed dedup).
    assert!(st.reliability.highest_accepted.get(&7).is_none());
    // No ack queued.
    assert!(st.reliability.pending_ack_flush.is_empty());
}
