use bytes::Bytes;
use tokio::sync::oneshot;
use vireon::client::{group_join_cmd, subscribe_cmd};
use vireon::command::ConnCmd;
use vireon::frame::{Batch, Frame, FrameBody, MessageType, OutFrame, Planned, SeqCounters};
use vireon::message::Qos;
use vireon::reliable::Reliability;
use vireon::stream::{DeliveryPolicy, StreamSpec};
use vireon::task::TaskState;
use vireon::wire::{encode_ack, encode_fetch, encode_group_join, encode_resume, encode_subscribe};

fn raw(f: &OutFrame) -> &[u8] {
    match &f.frame.body {
        FrameBody::Raw(b) => b,
        FrameBody::Policy(_) => panic!("a policy is no payload"),
    }
}

fn frame(msg_type: MessageType, payload: Vec<u8>, seq: u64, ack_req: bool) -> Frame {
    Frame { msg_type, seq, ack_req, payload: Bytes::from(payload) }
}

fn run(st: &mut TaskState, batch: Batch) -> Vec<OutFrame> {
    let mut batch = batch;
    let mut out = Vec::new();
    while let Some(f) = st.next_frame(&mut batch) {
        batch.report(true);
        out.push(f);
    }
    out
}

fn do_cmd(st: &mut TaskState, cmd: ConnCmd) {
    let s = st.handle_cmd(cmd);
    let _ = run(st, s.batch);
    let _ = st.finish(s.rest, true, true);
}

#[test]
fn sequence_numbers_count_per_stream() {
    let mut seqs = SeqCounters::new();
    assert_eq!(seqs.next_seq(0), 0);
    assert_eq!(seqs.next_seq(0), 1);
    assert_eq!(seqs.next_seq(4), 0);
    seqs.next.insert(8, u64::MAX);
    assert_eq!(seqs.next_seq(8), u64::MAX);
    assert_eq!(seqs.next_seq(8), 0);
}

#[test]
fn batches_stop_at_the_first_failure() {
    let mut seqs = SeqCounters::new();
    let mut batch = Batch::new();
    for i in 0..3u8 {
        batch.add_frame(Planned::plain(0, MessageType::Subscribe, vec![i]));
    }
    let f = batch.next_frame(&mut seqs).unwrap();
    assert_eq!((f.seq, raw(&f)), (0, &[0u8][..]));
    batch.report(true);
    let f = batch.next_frame(&mut seqs).unwrap();
    assert_eq!((f.seq, raw(&f)), (1, &[1u8][..]));
    batch.report(false);
    assert!(batch.next_frame(&mut seqs).is_none());
    assert!(!batch.all_sent());
    assert_eq!(seqs.next_seq(0), 2);
}

#[test]
fn offset_notifications_are_fetched() {
    let mut st = TaskState::new(8, 1024, false, 32, 0);
    for offset in [10u64, 11] {
        let mut p = vec![0, 3, b'a', b'.', b'b'];
        p.extend_from_slice(&offset.to_be_bytes());
        st.dispatch(4, frame(MessageType::NotifyOffset, p, 0, false));
    }
    assert_eq!(st.notify_offset_count, 2);
    // The latest notification is fetched first.
    let f = st.next_fetch().unwrap();
    assert_eq!(f.frame.msg_type, MessageType::Fetch);
    assert_eq!(f.frame.stream_id, 4);
    assert_eq!(raw(&f), encode_fetch(b"a.b", 11));
    assert_eq!(raw(&st.next_fetch().unwrap()), encode_fetch(b"a.b", 10));
    assert!(st.next_fetch().is_none());
    // A truncated notification is ignored.
    st.dispatch(4, frame(MessageType::NotifyOffset, vec![0, 1, b'x', 1], 0, false));
    assert_eq!(st.notify_offset_count, 2);
}

#[test]
fn fetch_replies_are_delivered() {
    let mut st = TaskState::new(8, 1024, false, 32, 0);
    let s = st.handle_cmd(subscribe_cmd("a.b", Qos::AtMostOnce));
    let mut sub = match st.finish(s.rest, true, true) {
        vireon::command::Reply::Subscribe(Ok(s)) => s,
        _ => panic!("no subscription"),
    };
    let mut p = vec![0, 3, b'a', b'.', b'b'];
    p.extend_from_slice(&1u64.to_be_bytes());
    p.extend_from_slice(&2u64.to_be_bytes());
    p.extend_from_slice(&4u32.to_be_bytes());
    p.extend_from_slice(b"body");
    st.dispatch(0, frame(MessageType::FetchReply, p, 6, false));
    assert_eq!(st.fetch_reply_count, 1);
    let m = sub.rx.try_recv().unwrap();
    assert_eq!((m.payload.as_ref(), m.seq), (&b"body"[..], 6));
    st.dispatch(0, frame(MessageType::FetchReply, vec![0, 0, 1], 7, false));
    assert_eq!(st.fetch_reply_count, 1);
}

#[test]
fn other_frames_change_nothing() {
    let mut st = TaskState::new(8, 1024, true, 1, 0);
    for t in [
        MessageType::ResumeOk,
        MessageType::ResumeUnavailable,
        MessageType::Ack,
        MessageType::Other,
    ] {
        st.dispatch(0, frame(t, vec![1, 2, 3], 1, true));
    }
    // Nor does a malformed publish.
    st.dispatch(0, frame(MessageType::Publish, vec![9], 1, true));
    assert!(st.reliability.highest_accepted.is_empty());
    assert!(st.next_ack().is_none());
    assert!(st.next_fetch().is_none());
}

#[test]
fn acknowledgements_go_out_on_their_stream() {
    let mut st = TaskState::new(8, 1024, true, 1, 0);
    let publish = |seq| frame(MessageType::Publish, vec![0, 1, b't'], seq, true);
    st.dispatch(4, publish(3));
    st.dispatch(8, publish(9));
    let a = st.next_ack().unwrap();
    assert_eq!((a.frame.stream_id, raw(&a)), (8, &encode_ack(9)[..]));
    let b = st.next_ack().unwrap();
    assert_eq!((b.frame.stream_id, raw(&b)), (4, &encode_ack(3)[..]));
    assert_eq!(b.frame.msg_type, MessageType::Ack);
    assert!(st.next_ack().is_none());
}

#[test]
fn reliability_counts_and_suppresses() {
    let mut r = Reliability::new(true, 0, 1);
    // An interval of zero acknowledges every frame.
    assert!(r.take_note(4, 2));
    assert!(!r.take_note(4, 2));
    assert!(!r.take_note(4, 1));
    assert!(r.take_note(8, 1));
    assert_eq!(r.duplicates_detected, 2);
    assert_eq!(r.pending_ack_flush, &[(4, 2), (4, 2), (4, 2), (8, 1)]);
    // Number 0 is never above the initial watermark.
    assert!(!r.take_note(12, 0));
    let mut off = Reliability::new(false, 1, 1);
    off.maybe_flush_ack(4);
    assert!(off.pending_ack_flush.is_empty());
}

#[test]
fn replay_sends_everything_in_order() {
    let mut st = TaskState::new(8, 1024, true, 1, 42);
    do_cmd(&mut st, subscribe_cmd("a.*", Qos::AtLeastOnce));
    do_cmd(&mut st, subscribe_cmd("b.*", Qos::AtMostOnce));
    do_cmd(
        &mut st,
        ConnCmd::OpenStream {
            spec: StreamSpec::new(DeliveryPolicy::LatestOnly).with_topic("c.d"),
        },
    );
    do_cmd(&mut st, group_join_cmd("jobs.t", "g", "c", 2));
    let (resp, _reply) = oneshot::channel();
    do_cmd(
        &mut st,
        ConnCmd::RegisterRpcReply { cid: 1, reply_topic: "svc.reply".into(), resp },
    );
    st.reliability.pending_acks.insert(8, 3);
    st.reliability.pending_acks.insert(4, 7);
    st.dispatch(
        4,
        frame(MessageType::NotifyOffset, vec![0, 0, 0, 0, 0, 0, 0, 0, 0, 1], 0, false),
    );
    let batch = st.replay_all(true);
    assert!(st.next_fetch().is_none());
    let frames = run(&mut st, batch);
    let kinds: Vec<(MessageType, u64, u64)> = frames
        .iter()
        .map(|f| (f.frame.msg_type, f.frame.stream_id, f.seq))
        .collect();
    assert_eq!(
        kinds,
        [
            (MessageType::Resume, 0, 0),
            (MessageType::Subscribe, 0, 1),
            (MessageType::Subscribe, 0, 2),
            (MessageType::Subscribe, 0, 3),
            (MessageType::StreamOpen, 4, 0),
            (MessageType::Subscribe, 4, 1),
            (MessageType::StreamOpen, 8, 0),
            (MessageType::Subscribe, 8, 1),
            (MessageType::ConsumerGroupJoin, 8, 2),
        ]
    );
    assert_eq!(raw(&frames[0]), encode_resume(42, &vec![(4, 7), (8, 3)]));
    assert_eq!(raw(&frames[1]), encode_subscribe("a.*", 1));
    assert_eq!(raw(&frames[3]), encode_subscribe("svc.reply", 0));
    assert_eq!(raw(&frames[5]), encode_subscribe("c.d", 0));
    assert_eq!(raw(&frames[7]), encode_subscribe("jobs.t", 0));
    assert_eq!(st.routing.rpc_reply_topics.len(), 1);
    assert_eq!(raw(&frames[8]), encode_group_join("jobs.t", "g", "c", 2));
}

#[test]
fn replay_without_resubscribing() {
    let mut st = TaskState::new(8, 1024, true, 1, 42);
    do_cmd(&mut st, subscribe_cmd("a.*", Qos::AtMostOnce));
    let (resp, _reply) = oneshot::channel();
    do_cmd(
        &mut st,
        ConnCmd::RegisterRpcReply { cid: 1, reply_topic: "svc.reply".into(), resp },
    );
    let batch = st.replay_all(false);
    // The next call has to subscribe to its reply topic again.
    assert!(st.routing.rpc_reply_topics.is_empty());
    assert_eq!(st.routing.pending_rpcs.len(), 1);
    let frames = run(&mut st, batch);
    assert_eq!(frames.len(), 1);
    assert_eq!(frames[0].frame.msg_type, MessageType::Resume);
    let mut plain = TaskState::new(8, 1024, false, 1, 42);
    let batch = plain.replay_all(false);
    assert!(run(&mut plain, batch).is_empty());
}

#[test]
fn hellos_and_heartbeats() {
    let mut st = TaskState::new(8, 1024, true, 1, 42);
    let batch = st.session_hello();
    let frames = run(&mut st, batch);
    assert_eq!(raw(&frames[0]), &[0, 0, 0, 0, 0, 0, 0, 42, 0]);
    do_cmd(&mut st, group_join_cmd("jobs.t", "g", "c", 2));
    let batch = st.heartbeat_probe();
    let frames = run(&mut st, batch);
    assert_eq!(raw(&frames[0]), encode_subscribe("_heartbeat.probe", 0));
    let batch = st.heartbeat_group_subs();
    let frames = run(&mut st, batch);
    assert_eq!(frames.len(), 1);
    assert_eq!(raw(&frames[0]), encode_group_join("jobs.t", "g", "c", 2));
    let quiet = TaskState::new(8, 1024, false, 1, 42);
    let mut other = TaskState::new(8, 1024, false, 1, 42);
    let batch = quiet.session_hello();
    assert!(run(&mut other, batch).is_empty());
}
