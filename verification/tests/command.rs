use bytes::Bytes;
use tokio::sync::oneshot;
use vireon::client::{
    group_join_cmd, group_leave_cmd, publish_cmd, subscribe_cmd, unsubscribe_cmd,
};
use vireon::command::{
    fail_cmd_not_connected, ConnCmd, Flush, Reply, Rest, Started, StreamSel,
};
use vireon::error::{ConnectError, GroupError, PublishError, StreamError, SubscribeError};
use vireon::frame::{Frame, FrameBody, MessageType, OutFrame};
use vireon::message::Qos;
use vireon::stream::{DeliveryPolicy, StreamSpec};
use vireon::task::TaskState;
use vireon::wire::{encode_group_join, encode_group_leave, encode_publish, encode_subscribe};

fn state() -> TaskState {
    TaskState::new(8, 16, false, 32, 0)
}

/// Hands out every frame of a started command, all of which are taken, and finishes it.
fn complete(st: &mut TaskState, s: Started) -> (Vec<OutFrame>, Reply) {
    let mut s = s;
    let mut out = Vec::new();
    while let Some(f) = st.next_frame(&mut s.batch) {
        s.batch.report(true);
        out.push(f);
    }
    let reply = st.finish(s.rest, s.batch.all_sent(), true);
    (out, reply)
}

/// Hands out frames until one is refused, and finishes the command.
fn fail(st: &mut TaskState, s: Started) -> (usize, Reply) {
    let mut s = s;
    let mut n = 0;
    while let Some(_f) = st.next_frame(&mut s.batch) {
        n += 1;
        s.batch.report(false);
    }
    let reply = st.finish(s.rest, s.batch.all_sent(), false);
    (n, reply)
}

fn raw(f: &OutFrame) -> &[u8] {
    match &f.frame.body {
        FrameBody::Raw(b) => b,
        FrameBody::Policy(_) => panic!("a policy is no payload"),
    }
}

fn publish_frame(topic: &str, body: &[u8], seq: u64) -> Frame {
    Frame {
        msg_type: MessageType::Publish,
        seq,
        ack_req: false,
        payload: Bytes::from(encode_publish(topic, body)),
    }
}

#[test]
fn publishing() {
    let mut st = state();
    let s = st.handle_cmd(publish_cmd("a.b", b"hi", StreamSel::Default));
    assert_eq!(s.flush, Flush::Never);
    let (frames, reply) = complete(&mut st, s);
    assert_eq!(frames.len(), 1);
    assert_eq!(frames[0].frame.msg_type, MessageType::Publish);
    assert_eq!(frames[0].frame.stream_id, 0);
    assert!(!frames[0].frame.ack_req);
    assert_eq!(raw(&frames[0]), encode_publish("a.b", b"hi"));
    assert!(matches!(reply, Reply::Publish(Ok(()))));

    let s = st.handle_cmd(publish_cmd("a.b", b"hi", StreamSel::Dedicated(8)));
    let (frames, _) = complete(&mut st, s);
    assert_eq!((frames[0].frame.stream_id, frames[0].seq), (8, 0));

    let s = st.handle_cmd(publish_cmd("a.b", b"hi", StreamSel::Default));
    let (n, reply) = fail(&mut st, s);
    assert_eq!(n, 1);
    assert!(matches!(reply, Reply::Publish(Err(PublishError::NotConnected))));
}

#[test]
fn publishing_too_much() {
    let mut st = state();
    let s = st.handle_cmd(publish_cmd("a.b", vec![0u8; 17], StreamSel::Default));
    let (frames, reply) = complete(&mut st, s);
    assert!(frames.is_empty());
    assert!(matches!(reply, Reply::Publish(Err(PublishError::TooLarge(17)))));
    let s = st.handle_cmd(publish_cmd("a.b", vec![0u8; 16], StreamSel::Default));
    let (frames, _) = complete(&mut st, s);
    assert_eq!(frames.len(), 1);
}

#[test]
fn reliable_publishes_ask_for_acknowledgement() {
    let mut st = TaskState::new(8, 16, true, 1, 1);
    let s = st.handle_cmd(publish_cmd("a.b", b"hi", StreamSel::Default));
    let (frames, _) = complete(&mut st, s);
    assert!(frames[0].frame.ack_req);
}

#[test]
fn subscribing_delivers() {
    let mut st = state();
    let s = st.handle_cmd(subscribe_cmd("sensor.*", Qos::AtLeastOnce));
    assert_eq!(s.flush, Flush::IfSent);
    let (frames, reply) = complete(&mut st, s);
    assert_eq!(raw(&frames[0]), encode_subscribe("sensor.*", 1));
    let mut sub = match reply {
        Reply::Subscribe(Ok(sub)) => sub,
        _ => panic!("no subscription"),
    };
    st.dispatch(0, publish_frame("sensor.temp", b"23", 4));
    assert_eq!(sub.rx.try_recv().unwrap().payload.as_ref(), b"23");
}

#[test]
fn subscribing_without_a_connection() {
    let mut st = state();
    let s = st.handle_cmd(subscribe_cmd("sensor.*", Qos::AtMostOnce));
    let (_, reply) = fail(&mut st, s);
    assert!(matches!(reply, Reply::Subscribe(Err(SubscribeError::NotConnected))));
    // A flush that fails counts as well.
    let mut s = st.handle_cmd(subscribe_cmd("x.y", Qos::AtMostOnce));
    while st.next_frame(&mut s.batch).is_some() {}
    let reply = st.finish(s.rest, true, false);
    assert!(matches!(reply, Reply::Subscribe(Err(SubscribeError::NotConnected))));
}

#[test]
fn unsubscribing_removes_the_first_match() {
    let mut st = state();
    for p in ["a.a", "b.b", "a.a", "c.c"] {
        let s = st.handle_cmd(subscribe_cmd(p, Qos::AtMostOnce));
        let _ = complete(&mut st, s);
    }
    let s = st.handle_cmd(unsubscribe_cmd("a.a"));
    let (frames, reply) = complete(&mut st, s);
    assert_eq!(frames[0].frame.msg_type, MessageType::Unsubscribe);
    assert!(matches!(reply, Reply::Unsubscribe(Ok(()))));
    let left: Vec<&str> = st.routing.subs.iter().map(|e| e.pattern.as_str()).collect();
    assert_eq!(left, ["b.b", "a.a", "c.c"]);
    let s = st.handle_cmd(unsubscribe_cmd("nothing.here"));
    let (n, reply) = fail(&mut st, s);
    assert_eq!(n, 1);
    assert!(matches!(reply, Reply::Unsubscribe(Err(SubscribeError::NotConnected))));
    assert_eq!(st.routing.subs.len(), 3);
}

#[test]
fn opening_streams() {
    let mut st = state();
    for expected in [4u64, 8, 12] {
        let spec = StreamSpec::new(DeliveryPolicy::LatestOnly).with_topic("cursor.move");
        let s = st.handle_cmd(ConnCmd::OpenStream { spec });
        assert_eq!(s.flush, Flush::IfSent);
        let (frames, reply) = complete(&mut st, s);
        assert_eq!(frames.len(), 2);
        assert_eq!(frames[0].frame.msg_type, MessageType::StreamOpen);
        assert!(matches!(
            frames[0].frame.body,
            FrameBody::Policy(DeliveryPolicy::LatestOnly)
        ));
        assert_eq!(raw(&frames[1]), encode_subscribe("cursor.move", 0));
        assert_eq!((frames[0].seq, frames[1].seq), (0, 1));
        let mut handle = match reply {
            Reply::OpenStream(Ok(h)) => h,
            _ => panic!("no stream"),
        };
        assert_eq!(handle.stream_id(), expected);
        assert!(handle.try_recv().is_none());
        st.dispatch(expected, publish_frame("cursor.move", b"p", 1));
        assert_eq!(handle.try_recv().unwrap().stream_id, expected);
    }
    // Without a topic everything is subscribed to.
    let s = st.handle_cmd(ConnCmd::OpenStream {
        spec: StreamSpec::new(DeliveryPolicy::ReliableOrdered),
    });
    let (frames, _) = complete(&mut st, s);
    assert_eq!(raw(&frames[1]), encode_subscribe("*", 0));
}

#[test]
fn running_out_of_stream_ids() {
    let mut st = state();
    st.next_bidi = u64::MAX - 3;
    let s = st.handle_cmd(ConnCmd::OpenStream {
        spec: StreamSpec::new(DeliveryPolicy::LatestOnly),
    });
    let (frames, reply) = complete(&mut st, s);
    assert!(frames.is_empty());
    assert!(matches!(reply, Reply::OpenStream(Err(StreamError::NoCapacity))));
    let s = st.handle_cmd(group_join_cmd("t.t", "g", "c", 1));
    let (_, reply) = complete(&mut st, s);
    match reply {
        Reply::GroupJoin(Err(GroupError::Rejected(why))) => assert_eq!(why, "no stream capacity"),
        _ => panic!("joined without a stream"),
    }
    st.next_bidi = u64::MAX - 4;
    let s = st.handle_cmd(ConnCmd::OpenStream {
        spec: StreamSpec::new(DeliveryPolicy::LatestOnly),
    });
    assert!(matches!(s.rest, Rest::OpenStream(_)));
}

#[test]
fn a_stream_that_cannot_be_announced() {
    let mut st = state();
    let s = st.handle_cmd(ConnCmd::OpenStream {
        spec: StreamSpec::new(DeliveryPolicy::LatestOnly),
    });
    let (n, reply) = fail(&mut st, s);
    // The second frame is given up and uses no number.
    assert_eq!(n, 1);
    assert_eq!(st.next_seq(4), 1);
    assert!(matches!(reply, Reply::OpenStream(Err(StreamError::NotConnected))));
}

#[test]
fn registering_remote_calls() {
    let mut st = state();
    let (tx, mut rx) = oneshot::channel();
    let s = st.handle_cmd(ConnCmd::RegisterRpcReply {
        cid: 5,
        reply_topic: "svc.reply".into(),
        resp: tx,
    });
    assert_eq!(s.flush, Flush::IfSent);
    let (frames, reply) = complete(&mut st, s);
    assert_eq!(raw(&frames[0]), encode_subscribe("svc.reply", 0));
    assert!(matches!(reply, Reply::RegisterRpc(Ok(()))));
    // The second call on the topic needs no frames.
    let (tx2, _rx2) = oneshot::channel();
    let s = st.handle_cmd(ConnCmd::RegisterRpcReply {
        cid: 6,
        reply_topic: "svc.reply".into(),
        resp: tx2,
    });
    let (frames, reply) = complete(&mut st, s);
    assert!(frames.is_empty());
    assert!(matches!(reply, Reply::RegisterRpc(Ok(()))));
    assert_eq!(st.routing.rpc_reply_topics.len(), 1);
    let mut body = 5u128.to_be_bytes().to_vec();
    body.extend_from_slice(b"fine");
    st.dispatch(0, publish_frame("svc.reply", &body, 1));
    assert_eq!(rx.try_recv().unwrap().payload.as_ref(), b"fine");
    let s = st.handle_cmd(ConnCmd::CancelRpc { cid: 6 });
    let _ = complete(&mut st, s);
    assert!(st.routing.pending_rpcs.is_empty());
}

#[test]
fn registering_without_a_connection_drops_the_caller() {
    let mut st = state();
    let (tx, mut rx) = oneshot::channel();
    let s = st.handle_cmd(ConnCmd::RegisterRpcReply {
        cid: 5,
        reply_topic: "svc.reply".into(),
        resp: tx,
    });
    let (_, reply) = fail(&mut st, s);
    assert!(matches!(reply, Reply::RegisterRpc(Err(SubscribeError::NotConnected))));
    assert_eq!(rx.try_recv().err(), Some(oneshot::error::TryRecvError::Closed));
    assert!(st.routing.rpc_reply_topics.is_empty());
}

#[test]
fn joining_and_leaving_groups() {
    let mut st = state();
    let s = st.handle_cmd(group_join_cmd("jobs.tasks", "workers", "w1", 0));
    let (frames, reply) = complete(&mut st, s);
    assert_eq!(frames.len(), 2);
    assert!(matches!(
        frames[0].frame.body,
        FrameBody::Policy(DeliveryPolicy::ReliableOrdered)
    ));
    // A partition count of zero asks for one.
    assert_eq!(raw(&frames[1]), encode_group_join("jobs.tasks", "workers", "w1", 1));
    let mut sub = match reply {
        Reply::GroupJoin(Ok(s)) => s,
        _ => panic!("not joined"),
    };
    st.dispatch(4, publish_frame("jobs.tasks", b"job", 1));
    assert_eq!(sub.rx.try_recv().unwrap().payload.as_ref(), b"job");
    assert_eq!(st.group_subs.len(), 1);

    let s = st.handle_cmd(group_leave_cmd("jobs.tasks", "workers", "w1"));
    assert_eq!(s.flush, Flush::Always);
    let (frames, reply) = complete(&mut st, s);
    assert_eq!(raw(&frames[0]), encode_group_leave("jobs.tasks", "workers", "w1"));
    assert_eq!(frames[0].frame.stream_id, 4);
    assert!(matches!(reply, Reply::GroupLeave(Ok(()))));
    assert!(st.group_subs.is_empty());
    assert!(st.routing.streams.is_empty());

    // Leaving once more is no error, and sends nothing.
    let s = st.handle_cmd(group_leave_cmd("jobs.tasks", "workers", "w1"));
    let (frames, reply) = complete(&mut st, s);
    assert!(frames.is_empty());
    assert!(matches!(reply, Reply::GroupLeave(Ok(()))));
}

#[test]
fn a_group_that_cannot_be_joined() {
    let mut st = state();
    let s = st.handle_cmd(group_join_cmd("t.t", "g", "c", 3));
    let (_, reply) = fail(&mut st, s);
    assert!(matches!(reply, Reply::GroupJoin(Err(GroupError::NotConnected))));
    assert!(st.group_subs.is_empty());
}

#[test]
fn closing_waits() {
    let mut st = state();
    let s = st.handle_cmd(ConnCmd::Close);
    assert!(matches!(s.rest, Rest::Exit));
    assert!(matches!(st.finish(s.rest, true, true), Reply::Nothing));
    assert!(matches!(st.answer_close(), Reply::Close(Ok(()))));
    assert!(matches!(st.answer_close(), Reply::Nothing));
}

#[test]
fn migrating() {
    let mut st = state();
    let s = st.handle_cmd(ConnCmd::Migrate { bind_addr: "0.0.0.0:0".into() });
    match s.rest {
        Rest::Rebind(addr) => assert_eq!(addr, "0.0.0.0:0"),
        _ => panic!("not rebound"),
    }
    let s = st.rebound(Ok(()));
    assert_eq!(s.flush, Flush::Always);
    // The probe may fail; the migration has succeeded.
    let (n, reply) = fail(&mut st, s);
    assert_eq!(n, 1);
    assert!(matches!(reply, Reply::Migrate(Ok(()))));
    let s = st.rebound(Err(ConnectError::Io("no such address".into())));
    let (frames, reply) = complete(&mut st, s);
    assert!(frames.is_empty());
    assert!(matches!(reply, Reply::Migrate(Err(ConnectError::Io(_)))));
}

#[test]
fn flushing_rules() {
    assert!(!Flush::Never.is_due(true));
    assert!(Flush::IfSent.is_due(true));
    assert!(!Flush::IfSent.is_due(false));
    assert!(Flush::Always.is_due(false));
}

#[test]
fn commands_without_a_connection() {
    assert!(matches!(
        fail_cmd_not_connected(publish_cmd("a", "b", StreamSel::Default)),
        Reply::Publish(Err(PublishError::NotConnected))
    ));
    assert!(matches!(
        fail_cmd_not_connected(subscribe_cmd("a", Qos::AtMostOnce)),
        Reply::Subscribe(Err(SubscribeError::NotConnected))
    ));
    assert!(matches!(
        fail_cmd_not_connected(unsubscribe_cmd("a")),
        Reply::Unsubscribe(Err(SubscribeError::NotConnected))
    ));
    assert!(matches!(
        fail_cmd_not_connected(ConnCmd::OpenStream {
            spec: StreamSpec::new(DeliveryPolicy::LatestOnly)
        }),
        Reply::OpenStream(Err(StreamError::NotConnected))
    ));
    assert!(matches!(
        fail_cmd_not_connected(group_join_cmd("a", "b", "c", 1)),
        Reply::GroupJoin(Err(GroupError::NotConnected))
    ));
    assert!(matches!(
        fail_cmd_not_connected(group_leave_cmd("a", "b", "c")),
        Reply::GroupLeave(Err(GroupError::NotConnected))
    ));
    assert!(matches!(fail_cmd_not_connected(ConnCmd::CancelRpc { cid: 1 }), Reply::Nothing));
    let (tx, mut rx) = oneshot::channel();
    let reply = fail_cmd_not_connected(ConnCmd::RegisterRpcReply {
        cid: 1,
        reply_topic: "r".into(),
        resp: tx,
    });
    assert!(matches!(reply, Reply::Nothing));
    assert_eq!(rx.try_recv().err(), Some(oneshot::error::TryRecvError::Closed));
    match fail_cmd_not_connected(ConnCmd::Close) {
        Reply::Close(Err(ConnectError::Closed(why))) => {
            assert_eq!(why, "close requested during reconnect backoff")
        }
        _ => panic!("closed"),
    }
    match fail_cmd_not_connected(ConnCmd::Migrate { bind_addr: "x".into() }) {
        Reply::Migrate(Err(ConnectError::Closed(why))) => {
            assert_eq!(why, "migrate requested during reconnect backoff")
        }
        _ => panic!("migrated"),
    }
}

#[test]
fn received_messages_are_taken_out() {
    let mut st = state();
    let spec = StreamSpec::new(DeliveryPolicy::ReliableOrdered);
    let s = st.handle_cmd(ConnCmd::OpenStream { spec });
    let (_, reply) = complete(&mut st, s);
    let mut handle = match reply {
        Reply::OpenStream(Ok(h)) => h,
        _ => panic!("no stream"),
    };
    st.dispatch(4, publish_frame("a.b", b"one", 1));
    st.dispatch(4, publish_frame("a.b", b"two", 2));
    assert_eq!(handle.try_recv().unwrap().payload.as_ref(), b"one");
    assert_eq!(handle.try_recv().unwrap().payload.as_ref(), b"two");
    assert!(handle.try_recv().is_none());
    assert_eq!(handle.stream_id(), 4);
}

#[test]
fn channels_hold_the_configured_number_of_messages() {
    let mut st = TaskState::new(2, 16, false, 32, 0);
    let s = st.handle_cmd(subscribe_cmd("a.b", Qos::AtMostOnce));
    let mut sub = match complete(&mut st, s).1 {
        Reply::Subscribe(Ok(sub)) => sub,
        _ => panic!("no subscription"),
    };
    let spec = StreamSpec::new(DeliveryPolicy::ReliableOrdered);
    let s = st.handle_cmd(ConnCmd::OpenStream { spec });
    let mut handle = match complete(&mut st, s).1 {
        Reply::OpenStream(Ok(h)) => h,
        _ => panic!("no stream"),
    };
    assert_eq!((sub.rx.max_capacity(), handle.rx.max_capacity()), (2, 2));
    for seq in 1..5 {
        st.dispatch(0, publish_frame("a.b", b"x", seq));
        st.dispatch(4, publish_frame("c.d", b"y", seq));
    }
    // The rest found the channels full.
    assert_eq!(sub.rx.try_recv().unwrap().seq, 1);
    assert_eq!(sub.rx.try_recv().unwrap().seq, 2);
    assert!(sub.rx.try_recv().is_err());
    assert_eq!(handle.try_recv().unwrap().seq, 1);
    assert_eq!(handle.try_recv().unwrap().seq, 2);
    assert!(handle.try_recv().is_none());
}
