use bytes::Bytes;
use tokio::sync::{mpsc, oneshot};
use vireon::message::Message;
use vireon::routing::{Routing, StreamEntry, SubEntry};
use vireon::stream::DeliveryPolicy;

fn subscribe(r: &mut Routing, pattern: &str, depth: usize) -> mpsc::Receiver<Message> {
    let (tx, rx) = mpsc::channel(depth);
    r.subs.push(SubEntry { pattern: pattern.into(), qos: 0, tx });
    rx
}

fn open(r: &mut Routing, sid: u64, depth: usize) -> mpsc::Receiver<Message> {
    let (tx, rx) = mpsc::channel(depth);
    r.streams.insert(
        sid,
        StreamEntry { policy: DeliveryPolicy::LatestOnly, topic: None, tx },
    );
    rx
}

fn send(r: &mut Routing, sid: u64, topic: &'static str, body: &'static [u8], seq: u64) {
    r.fanout_message(
        sid,
        Bytes::from_static(topic.as_bytes()),
        Bytes::from_static(body),
        seq,
    );
}

#[test]
fn default_channel_goes_to_every_match() {
    let mut r = Routing::new();
    let mut a = subscribe(&mut r, "sensor.*", 4);
    let mut b = subscribe(&mut r, "sensor.temp", 4);
    let mut c = subscribe(&mut r, "other.*", 4);
    send(&mut r, 0, "sensor.temp", b"1", 5);
    let m = a.try_recv().unwrap();
    assert_eq!(m.topic.as_ref(), b"sensor.temp");
    assert_eq!(m.payload.as_ref(), b"1");
    assert_eq!((m.seq, m.stream_id), (5, 0));
    assert!(b.try_recv().is_ok());
    assert!(c.try_recv().is_err());
}

#[test]
fn dedicated_streams_are_isolated_and_ignore_topics() {
    let mut r = Routing::new();
    let mut sub = subscribe(&mut r, "*.*", 4);
    let mut s4 = open(&mut r, 4, 4);
    let mut s8 = open(&mut r, 8, 4);
    send(&mut r, 4, "any.thing", b"x", 0);
    send(&mut r, 4, "something.else", b"y", 1);
    assert_eq!(s4.try_recv().unwrap().payload.as_ref(), b"x");
    assert_eq!(s4.try_recv().unwrap().payload.as_ref(), b"y");
    assert!(s8.try_recv().is_err());
    assert!(sub.try_recv().is_err());
    // A stream that is not registered has no consumer.
    send(&mut r, 12, "a.b", b"z", 2);
    assert_eq!(r.stream_drops, 0);
}

#[test]
fn full_channels_drop_and_count() {
    let mut r = Routing::new();
    let mut a = subscribe(&mut r, "a.b", 1);
    let mut s = open(&mut r, 4, 1);
    for i in 0..3 {
        send(&mut r, 0, "a.b", b"d", i);
        send(&mut r, 4, "a.b", b"s", i);
    }
    assert_eq!(r.default_drops, 2);
    assert_eq!(r.stream_drops, 2);
    assert_eq!(a.try_recv().unwrap().seq, 0);
    assert_eq!(s.try_recv().unwrap().seq, 0);
}

#[test]
fn closed_channels_drop_without_counting() {
    let mut r = Routing::new();
    drop(subscribe(&mut r, "a.b", 1));
    drop(open(&mut r, 4, 1));
    send(&mut r, 0, "a.b", b"d", 0);
    send(&mut r, 4, "a.b", b"d", 0);
    assert_eq!((r.default_drops, r.stream_drops), (0, 0));
}

#[test]
fn topics_that_are_not_utf8() {
    let mut r = Routing::new();
    let mut a = subscribe(&mut r, "\u{FFFD}.x", 1);
    r.fanout_message(0, Bytes::from_static(&[0xFF, b'.', b'x']), Bytes::new(), 0);
    assert_eq!(a.try_recv().unwrap().topic.as_ref(), &[0xFF, b'.', b'x']);
}

#[test]
fn replies_reach_their_caller_only_once() {
    let mut r = Routing::new();
    let mut sub = subscribe(&mut r, "svc.reply", 4);
    r.rpc_reply_topics.push("svc.reply".into());
    let (tx, mut rx) = oneshot::channel();
    r.pending_rpcs.insert(3, tx);
    let mut body = 3u128.to_be_bytes().to_vec();
    body.extend_from_slice(b"ok");
    for _ in 0..2 {
        r.fanout_message(
            0,
            Bytes::from_static(b"svc.reply"),
            Bytes::from(body.clone()),
            1,
        );
    }
    assert_eq!(rx.try_recv().unwrap().payload.as_ref(), b"ok");
    // The second copy answers no call any more and is an ordinary message.
    assert_eq!(sub.try_recv().unwrap().payload.len(), 18);
    assert!(sub.try_recv().is_err());
}

#[test]
fn replies_nobody_waits_for() {
    let mut r = Routing::new();
    r.rpc_reply_topics.push("svc.reply".into());
    let (tx, rx) = oneshot::channel();
    drop(rx);
    r.pending_rpcs.insert(3, tx);
    r.fanout_message(
        0,
        Bytes::from_static(b"svc.reply"),
        Bytes::from(3u128.to_be_bytes().to_vec()),
        1,
    );
    assert!(r.pending_rpcs.is_empty());
}

#[test]
fn intercepted_replies_are_stripped() {
    let mut r = Routing::new();
    r.rpc_reply_topics.push("svc.reply".into());
    let (tx, _rx) = oneshot::channel();
    r.pending_rpcs.insert(8, tx);
    let mut body = 8u128.to_be_bytes().to_vec();
    body.push(77);
    let msg = Message {
        topic: Bytes::from_static(b"svc.reply"),
        payload: Bytes::from(body),
        seq: 2,
        stream_id: 0,
    };
    let (_, reply) = r.intercept_reply(&msg).unwrap();
    assert_eq!(reply.payload.as_ref(), &[77]);
    assert_eq!(reply.topic.as_ref(), b"svc.reply");
    assert!(r.intercept_reply(&msg).is_none());
    assert!(r.is_reply_topic("svc.reply"));
    assert!(!r.is_reply_topic("svc"));
}
