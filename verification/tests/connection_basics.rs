//! The connection task's scenarios once more, each under its module's name.
use bytes::Bytes;
use tokio::sync::oneshot;
use vireon::client::RpcCids;
use vireon::frame::{Frame, MessageType};
use vireon::routing::DEFAULT_STREAM;
use vireon::task::TaskState;
use vireon::time::{backoff_for, Duration};
use vireon::topic::pattern_matches;
use vireon::wire::{encode_publish, encode_subscribe};

fn make_state() -> TaskState {
    TaskState::new(8, 1024 * 1024, false, 32, 0)
}

fn make_publish_frame(topic: &str, body: &[u8]) -> Frame {
    let mut payload = Vec::with_capacity(2 + topic.len() + body.len());
    let topic_len = u16::try_from(topic.len()).unwrap_or(u16::MAX);
    payload.extend_from_slice(&topic_len.to_be_bytes());
    payload.extend_from_slice(topic.as_bytes());
    payload.extend_from_slice(body);
    Frame {
        msg_type: MessageType::Publish,
        seq: 1,
        ack_req: false,
        payload: Bytes::from(payload),
    }
}

#[test]
fn connection_exact_match() {
    assert!(pattern_matches("sensor.temp", "sensor.temp"));
    assert!(!pattern_matches("sensor.temp", "sensor.humidity"));
}

#[test]
fn connection_single_segment_wildcard() {
    assert!(pattern_matches("sensor.*", "sensor.temp"));
    assert!(pattern_matches("sensor.*", "sensor.humidity"));
    assert!(!pattern_matches("sensor.*", "sensor")); // segment count differs
    assert!(!pattern_matches("sensor.*", "sensor.nested.temp"));
}

#[test]
fn connection_multi_segment_wildcard() {
    assert!(pattern_matches("*.*", "a.b"));
    assert!(!pattern_matches("*.*", "a.b.c"));
}

#[test]
fn connection_subscribe_encode_roundtrip_layout() {
    let b = encode_subscribe("sensor.*", 1);
    assert_eq!(b.len(), 2 + "sensor.*".len() + 1);
    assert_eq!(u16::from_be_bytes([b[0], b[1]]), 8);
    assert_eq!(b[b.len() - 1], 1);
}

#[test]
fn connection_publish_encode_layout() {
    let b = encode_publish("t", &[1, 2, 3]);
    assert_eq!(b, &[0, 1, b't', 1, 2, 3]);
}

#[test]
fn connection_backoff_for_zero_returns_initial() {
    let initial = Duration::from_millis(100);
    let max = Duration::from_secs(10);
    // attempt 0: initial * 2^0 = initial
    assert_eq!(backoff_for(0, initial, max), initial);
}

#[test]
fn connection_backoff_for_grows_exponentially() {
    let initial = Duration::from_millis(100);
    let max = Duration::from_secs(60);
    // attempt 3: 100ms * 2^3 = 800ms
    assert_eq!(backoff_for(3, initial, max), Duration::from_millis(800));
}

#[test]
fn connection_backoff_for_clamps_at_max() {
    let initial = Duration::from_millis(500);
    let max = Duration::from_secs(1);
    // attempt 20 would be about 524288000 ms but clamps to 1s
    assert_eq!(backoff_for(20, initial, max), max);
}

#[test]
fn connection_backoff_for_handles_max_zero_gracefully() {
    // The cap is at least a millisecond.
    let initial = Duration::from_millis(10);
    let max = Duration::from_millis(0);
    assert_eq!(backoff_for(5, initial, max), Duration::from_millis(1));
}

#[test]
fn connection_backoff_for_does_not_panic_on_large_attempt() {
    // The doubling stops at 31.
    let initial = Duration::from_millis(1);
    let max = Duration::from_secs(60);
    let _ = backoff_for(u32::MAX, initial, max);
    let _ = backoff_for(31, initial, max);
}

#[test]
fn connection_rpc_interceptor_routes_matching_reply_to_oneshot() {
    let mut st = make_state();
    let cid: u128 = 0x0123_4567_89AB_CDEF_0123_4567_89AB_CDEFu128;
    st.routing.rpc_reply_topics.push("svc.reply".into());

    let (tx, mut rx) = oneshot::channel();
    st.routing.pending_rpcs.insert(cid, tx);

    // Reply body = 16-byte cid BE + app payload "hello"
    let mut body = cid.to_be_bytes().to_vec();
    body.extend_from_slice(b"hello");
    st.dispatch(DEFAULT_STREAM, make_publish_frame("svc.reply", &body));

    let msg = rx.try_recv().expect("reply should arrive");
    assert_eq!(msg.payload.as_ref(), b"hello");
    assert_eq!(msg.stream_id, DEFAULT_STREAM);
    // Slot must be drained.
    assert!(st.routing.pending_rpcs.is_empty());
}

#[test]
fn connection_rpc_interceptor_strips_cid_but_preserves_topic() {
    let mut st = make_state();
    let cid = 42u128;
    st.routing.rpc_reply_topics.push("_rpc.reply".into());
    let (tx, mut rx) = oneshot::channel();
    st.routing.pending_rpcs.insert(cid, tx);

    st.dispatch(
        DEFAULT_STREAM,
        make_publish_frame(
            "_rpc.reply",
            &[0, 0, 0, 0, 0, 0, 0, 0, 0, 0, 0, 0, 0, 0, 0, 42, 9, 9],
        ),
    );
    let msg = rx.try_recv().unwrap();
    // Topic is preserved verbatim; only the payload's cid prefix is stripped.
    assert_eq!(msg.topic.as_ref(), b"_rpc.reply");
    assert_eq!(msg.payload.as_ref(), &[9, 9]);
}

#[test]
fn connection_rpc_interceptor_ignores_unmatched_cid_on_reply_topic() {
    let mut st = make_state();
    st.routing.rpc_reply_topics.push("svc.reply".into());
    let (tx, mut rx) = oneshot::channel();
    st.routing.pending_rpcs.insert(100u128, tx);

    // Wrong cid: falls through to normal fan-out, and the call stays pending.
    let wrong_cid = 999u128;
    st.dispatch(
        DEFAULT_STREAM,
        make_publish_frame("svc.reply", &wrong_cid.to_be_bytes()),
    );

    assert_eq!(
        rx.try_recv().err(),
        Some(oneshot::error::TryRecvError::Empty),
        "unmatched cid must not deliver"
    );
    assert_eq!(st.routing.pending_rpcs.len(), 1);
}

#[test]
fn connection_rpc_interceptor_skipped_when_no_pending_rpc() {
    // With no call pending, a message on a reply topic takes the normal path.
    let mut st = make_state();
    st.routing.rpc_reply_topics.push("svc.reply".into());
    st.dispatch(DEFAULT_STREAM, make_publish_frame("svc.reply", &[0u8; 32]));
    assert!(st.routing.pending_rpcs.is_empty());
}

#[test]
fn connection_rpc_interceptor_skipped_when_topic_not_registered() {
    // A message on an unrelated topic must not be taken for a reply, even if its first 16 bytes
    // happen to be the id of a pending call.
    let mut st = make_state();
    let cid = 7u128;
    let (tx, _rx) = oneshot::channel();
    st.routing.pending_rpcs.insert(cid, tx);

    st.dispatch(
        DEFAULT_STREAM,
        make_publish_frame("unrelated.topic", &cid.to_be_bytes()),
    );

    assert_eq!(st.routing.pending_rpcs.len(), 1);
}

#[test]
fn connection_rpc_interceptor_handles_short_payload_gracefully() {
    // Less than 16 bytes cannot hold a correlation id.
    let mut st = make_state();
    st.routing.rpc_reply_topics.push("svc.reply".into());
    let (tx, _rx) = oneshot::channel();
    st.routing.pending_rpcs.insert(1u128, tx);

    st.dispatch(DEFAULT_STREAM, make_publish_frame("svc.reply", &[1, 2, 3]));
    assert_eq!(st.routing.pending_rpcs.len(), 1, "short payload must not match");
}

#[test]
fn connection_next_rpc_cid_is_strictly_monotonic() {
    let mut cids = RpcCids::new();
    let a = cids.next_rpc_cid();
    let b = cids.next_rpc_cid();
    let c = cids.next_rpc_cid();
    assert!(b > a, "cid must increase: a={a}, b={b}");
    assert!(c > b, "cid must increase: b={b}, c={c}");
}
