//! Inbound frames: who gets them, what is acknowledged and what is fetched.
use bytes::Bytes;
use tokio::sync::oneshot;
use vstd::prelude::*;
use vstd::utf8::encode_utf8;

use crate::buf::bytes_view;
use crate::channel::{answered, handed_in, linked, offers, polls, received, Offer};
use crate::command::{Started, StreamSel};
use crate::frame::{Frame, MessageType, OutFrame};
use crate::laws::commands::{bytes_of, carries, lemma_publishing};
use crate::laws::payloads::lemma_two_bytes;
use crate::message::{Message, MessageModel};
use crate::reliable::Reliability;
use crate::routing::{full_offers, routed, Routing, SubEntry};
use crate::stream::StreamHandle;
use crate::task::TaskState;
use crate::text::text_of;
use crate::topic::topic_matches;
use crate::wire::{be, field_parts, from_be, law_big_endian_roundtrip, lemma_be_len, lemma_capacities, lemma_from_be_bound};

verus! {

broadcast use {
    vstd::std_specs::btree::group_btree_axioms,
    vstd::std_specs::hash::group_hash_axioms,
};

/// The message answers the pending call `cid`: it came on a reply topic, and its first sixteen
/// bytes spell that id.
pub open spec fn answers(tables: Routing, msg: MessageModel, cid: u128) -> bool {
    &&& msg.payload.len() >= 16
    &&& from_be(msg.payload.take(16)) == cid
    &&& tables.pending_rpcs@.contains_key(cid)
    &&& exists|i: int|
        0 <= i < tables.rpc_reply_topics@.len() && (#[trigger] tables.rpc_reply_topics@[i])@
            == text_of(msg.topic)
}

/// Which pending call a message answers, in other words.
proof fn lemma_answers(tables: Routing, msg: MessageModel, cid: u128)
    ensures
        answers(tables, msg, cid) <==> tables.answered_call(msg) == Some(cid),
{
    if msg.payload.len() >= 16 {
        lemma_capacities();
        lemma_from_be_bound(msg.payload.take(16));
    }
}

/// A reply reaches the one who waits for it, without the id in front, and nobody else: every other
/// call stays pending, and no subscription and no stream hears of it.
pub proof fn law_replies_reach_their_caller(
    tables: &mut Routing,
    sid: u64,
    topic: Bytes,
    body: Bytes,
    seq: u64,
    cid: u128,
)
    requires
        call_ensures(Routing::fanout_message, (tables, sid, topic, body, seq), ()),
        answers(
            *old(tables),
            MessageModel {
                topic: bytes_view(topic),
                payload: bytes_view(body),
                seq,
                stream_id: sid,
            },
            cid,
        ),
    ensures
        answered(old(tables).pending_rpcs@[cid]).0 == (MessageModel {
            topic: bytes_view(topic),
            payload: bytes_view(body).skip(16),
            seq,
            stream_id: sid,
        }),
        final(tables).pending_rpcs@ == old(tables).pending_rpcs@.remove(cid),
        *final(tables) == (Routing { pending_rpcs: final(tables).pending_rpcs, ..*old(tables) }),
{
    lemma_answers(
        *old(tables),
        MessageModel { topic: bytes_view(topic), payload: bytes_view(body), seq, stream_id: sid },
        cid,
    );
}

/// What is picked out of the inbound messages is a reply to a pending call, without its id, with
/// the one who waits for it; everything else is left alone.
pub proof fn law_only_replies_are_picked_out(
    tables: &mut Routing,
    msg: &Message,
    r: Option<(oneshot::Sender<Message>, Message)>,
    cid: u128,
)
    requires
        call_ensures(Routing::intercept_reply, (tables, msg), r),
    ensures
        answers(*old(tables), msg@, cid) ==> {
            &&& r matches Some((tx, reply))
            &&& tx == old(tables).pending_rpcs@[cid]
            &&& reply@ == (MessageModel { payload: msg@.payload.skip(16), ..msg@ })
            &&& !final(tables).pending_rpcs@.contains_key(cid)
        },
        r is Some ==> exists|c: u128| #[trigger] answers(*old(tables), msg@, c),
        r is None ==> *final(tables) == *old(tables),
{
    lemma_answers(*old(tables), msg@, cid);
    if r is Some {
        let c = old(tables).answered_call(msg@)->0;
        lemma_answers(*old(tables), msg@, c);
    }
}

/// Counting the full channels is counting.
proof fn lemma_full_offers(outcomes: Seq<Option<Offer>>)
    ensures
        full_offers(outcomes) == outcomes.filter(|o: Option<Offer>| o == Some(Offer::Full)).len(),
    decreases outcomes.len(),
{
    reveal(Seq::filter);
    if outcomes.len() > 0 {
        lemma_full_offers(outcomes.drop_last());
    }
}

/// `after` is the sending half `before` once `msg` was handed in through it.
pub open spec fn heard(
    before: tokio::sync::mpsc::Sender<Message>,
    after: tokio::sync::mpsc::Sender<Message>,
    msg: MessageModel,
    o: Offer,
) -> bool {
    &&& offers(after) == offers(before).push((msg, o))
    &&& forall|rx: tokio::sync::mpsc::Receiver<Message>| #[trigger]
        linked(after, rx) == linked(before, rx)
}

/// The message was offered to exactly the subscriptions whose pattern matches its topic, with these
/// outcomes; the others are as they were.
pub open spec fn offered_to_matching(
    before: Seq<SubEntry>,
    after: Seq<SubEntry>,
    msg: MessageModel,
    outcomes: Seq<Option<Offer>>,
) -> bool {
    &&& outcomes.len() == before.len()
    &&& forall|i: int|
        0 <= i < before.len() ==> match #[trigger] outcomes[i] {
            Some(o) => {
                &&& topic_matches(before[i].pattern@, text_of(msg.topic))
                &&& heard(before[i].tx, after[i].tx, msg, o)
                &&& after[i].pattern == before[i].pattern
                &&& after[i].qos == before[i].qos
            },
            None => {
                &&& !topic_matches(before[i].pattern@, text_of(msg.topic))
                &&& after[i] == before[i]
            },
        }
}

/// A message on the default channel that answers no call is offered, as it is, to exactly the
/// subscriptions whose pattern matches its topic. Every full channel is counted once. Nothing else
/// changes.
pub proof fn law_matching_subscriptions_hear(
    tables: &mut Routing,
    topic: Bytes,
    body: Bytes,
    seq: u64,
)
    requires
        call_ensures(Routing::fanout_message, (tables, 0u64, topic, body, seq), ()),
        forall|cid: u128|
            !#[trigger] answers(
                *old(tables),
                MessageModel {
                    topic: bytes_view(topic),
                    payload: bytes_view(body),
                    seq,
                    stream_id: 0,
                },
                cid,
            ),
    ensures
        ({
            let msg = MessageModel {
                topic: bytes_view(topic),
                payload: bytes_view(body),
                seq,
                stream_id: 0,
            };
            let before = old(tables).subs@;
            let after = final(tables).subs@;
            &&& *final(tables) == (Routing {
                subs: final(tables).subs,
                default_drops: final(tables).default_drops,
                ..*old(tables)
            })
            &&& after.len() == before.len()
            &&& exists|outcomes: Seq<Option<Offer>>|
                {
                    &&& #[trigger] offered_to_matching(before, after, msg, outcomes)
                    &&& final(tables).default_drops == (old(tables).default_drops
                        + outcomes.filter(|o: Option<Offer>| o == Some(Offer::Full)).len())
                        % 0x1_0000_0000_0000_0000
                }
        }),
{
    let msg = MessageModel {
        topic: bytes_view(topic),
        payload: bytes_view(body),
        seq,
        stream_id: 0,
    };
    let pre = *old(tables);
    let post = *final(tables);
    if pre.answered_call(msg) is Some {
        lemma_answers(pre, msg, pre.answered_call(msg)->0);
    }
    let outcomes = choose|outcomes: Seq<Option<Offer>>|
        {
            &&& #[trigger] crate::routing::fanned_out(pre.subs@, post.subs@, outcomes, msg)
            &&& post.default_drops == (pre.default_drops + full_offers(outcomes))
                % 0x1_0000_0000_0000_0000
        };
    lemma_full_offers(outcomes);
    assert(offered_to_matching(pre.subs@, post.subs@, msg, outcomes));
}

/// A message on a dedicated stream that answers no call is offered, as it is, to that stream's
/// consumer, whatever its topic, and to nobody else; a full channel is counted. A stream that is
/// not registered has no consumer.
pub proof fn law_streams_hear_their_own(
    tables: &mut Routing,
    sid: u64,
    topic: Bytes,
    body: Bytes,
    seq: u64,
)
    requires
        sid != 0,
        call_ensures(Routing::fanout_message, (tables, sid, topic, body, seq), ()),
        forall|cid: u128|
            !#[trigger] answers(
                *old(tables),
                MessageModel {
                    topic: bytes_view(topic),
                    payload: bytes_view(body),
                    seq,
                    stream_id: sid,
                },
                cid,
            ),
    ensures
        ({
            let msg = MessageModel {
                topic: bytes_view(topic),
                payload: bytes_view(body),
                seq,
                stream_id: sid,
            };
            let before = old(tables).streams@;
            let after = final(tables).streams@;
            &&& *final(tables) == (Routing {
                streams: final(tables).streams,
                stream_drops: final(tables).stream_drops,
                ..*old(tables)
            })
            &&& !before.contains_key(sid) ==> after == before && final(tables).stream_drops == old(
                tables).stream_drops
            &&& before.contains_key(sid) ==> exists|o: Offer|
                {
                    &&& #[trigger] heard(before[sid].tx, after[sid].tx, msg, o)
                    &&& after == before.insert(sid, after[sid])
                    &&& after[sid].policy == before[sid].policy
                    &&& after[sid].topic == before[sid].topic
                    &&& final(tables).stream_drops == (old(tables).stream_drops + if o
                        == Offer::Full {
                        1int
                    } else {
                        0int
                    }) % 0x1_0000_0000_0000_0000
                }
        }),
{
    let msg = MessageModel {
        topic: bytes_view(topic),
        payload: bytes_view(body),
        seq,
        stream_id: sid,
    };
    let pre = *old(tables);
    let post = *final(tables);
    if pre.answered_call(msg) is Some {
        lemma_answers(pre, msg, pre.answered_call(msg)->0);
    }
    let made = choose|made: Option<Offer>|
        {
            &&& #[trigger] crate::routing::offered_on_stream(pre.streams@, post.streams@, made, msg)
            &&& post.stream_drops == if made == Some(Offer::Full) {
                pre.stream_drops.wrapping_add(1)
            } else {
                pre.stream_drops
            }
        };
    if pre.streams@.contains_key(sid) {
        let o = made->0;
        assert(heard(pre.streams@[sid].tx, post.streams@[sid].tx, msg, o));
    }
}

/// The highest number of a stream that was accepted, 0 where there was none.
pub open spec fn accepted_upto(st: TaskState, sid: u64) -> u64 {
    if st.reliability.highest_accepted@.contains_key(sid) {
        st.reliability.highest_accepted@[sid]
    } else {
        0
    }
}

/// An arriving publish is delivered as it is, with its number and its stream; a reliable one only
/// where its number lies above all that were accepted on its stream, and it is taken note of in any
/// case. One that is shorter than its length prefix says changes nothing.
pub proof fn law_publishes_are_delivered_once(st: &mut TaskState, sid: u64, frame: Frame)
    requires
        call_ensures(TaskState::dispatch, (st, sid, frame), ()),
        frame.msg_type == MessageType::Publish,
    ensures
        ({
            let p = bytes_view(frame.payload);
            let n = p[0] * 256 + p[1];
            let msg = MessageModel {
                topic: p.subrange(2, 2 + n),
                payload: p.skip(2 + n),
                seq: frame.seq,
                stream_id: sid,
            };
            let reliable = old(st).reliability.enabled && frame.ack_req;
            if p.len() < 2 || p.len() < 2 + n {
                *final(st) == *old(st)
            } else {
                &&& *final(st) == (TaskState {
                    routing: final(st).routing,
                    reliability: final(st).reliability,
                    ..*old(st)
                })
                &&& !reliable ==> final(st).reliability == old(st).reliability
                &&& reliable && frame.seq <= accepted_upto(*old(st), sid) ==> final(st).routing
                    == old(st).routing
                &&& !reliable || frame.seq > accepted_upto(*old(st), sid) ==> routed(
                    old(st).routing,
                    final(st).routing,
                    msg,
                )
                &&& reliable ==> noted(
                    old(st).reliability,
                    final(st).reliability,
                    sid,
                    frame.seq,
                )
            }
        }),
{
    let p = bytes_view(frame.payload);
    let n = p[0] * 256 + p[1];
    lemma_rest(p);
    if p.len() >= 2 && p.len() >= 2 + n && old(st).reliability.enabled && frame.ack_req {
        lemma_noted(old(st).reliability, final(st).reliability, sid, frame.seq);
    }
}

/// Where a payload that starts with a text has what follows it.
proof fn lemma_rest(p: Seq<u8>)
    ensures
        ({
            let n = p[0] * 256 + p[1];
            if p.len() < 2 || p.len() < 2 + n {
                field_parts(p) is None
            } else {
                field_parts(p) == Some((p.subrange(2, 2 + n), p.skip(2 + n)))
            }
        }),
{
    if p.len() >= 2 {
        lemma_two_bytes(p.take(2));
    }
}

/// An offset notification queues the log entry that it names, to be fetched on the stream it came
/// on, and is counted; one that is cut short changes nothing.
pub proof fn law_notified_entries_are_queued(st: &mut TaskState, sid: u64, frame: Frame)
    requires
        call_ensures(TaskState::dispatch, (st, sid, frame), ()),
        frame.msg_type == MessageType::NotifyOffset,
    ensures
        ({
            let p = bytes_view(frame.payload);
            let n = p[0] * 256 + p[1];
            let k = old(st).pending_fetches@.len() as int;
            let f = final(st).pending_fetches@[k]@;
            if p.len() < 2 || p.len() < 2 + n + 8 {
                *final(st) == *old(st)
            } else {
                &&& *final(st) == (TaskState {
                    pending_fetches: final(st).pending_fetches,
                    notify_offset_count: final(st).notify_offset_count,
                    ..*old(st)
                })
                &&& final(st).notify_offset_count == (old(st).notify_offset_count + 1)
                    % 0x1_0000_0000_0000_0000
                &&& final(st).pending_fetches@.len() == k + 1
                &&& forall|i: int|
                    0 <= i < k ==> (#[trigger] final(st).pending_fetches@[i])@ == old(
                        st).pending_fetches@[i]@
                &&& f.topic == p.subrange(2, 2 + n)
                &&& f.offset == from_be(p.subrange(2 + n, 10 + n))
                &&& f.stream_id == sid
            }
        }),
{
    let p = bytes_view(frame.payload);
    let n = p[0] * 256 + p[1];
    lemma_rest(p);
    if p.len() >= 2 && p.len() >= 2 + n + 8 {
        lemma_capacities();
        assert(p.skip(2 + n).take(8) =~= p.subrange(2 + n, 10 + n));
        lemma_from_be_bound(p.subrange(2 + n, 10 + n));
        let before = crate::task::fetches_of(old(st).pending_fetches@);
        let after = crate::task::fetches_of(final(st).pending_fetches@);
        assert(after.len() == before.len() + 1);
        assert forall|i: int| 0 <= i < before.len() implies (#[trigger] final(
            st).pending_fetches@[i])@ == old(st).pending_fetches@[i]@ by {
            assert(after[i] == before[i]);
        }
        assert(after[before.len() as int] == final(st).pending_fetches@[before.len() as int]@);
    }
}

/// A fetch reply is delivered like a message: its topic and its whole body, with its number and
/// its stream, and it is counted; one that is cut short changes nothing.
pub proof fn law_fetch_replies_are_delivered(st: &mut TaskState, sid: u64, frame: Frame)
    requires
        call_ensures(TaskState::dispatch, (st, sid, frame), ()),
        frame.msg_type == MessageType::FetchReply,
    ensures
        ({
            let p = bytes_view(frame.payload);
            let n = p[0] * 256 + p[1];
            let len = from_be(p.subrange(18 + n, 22 + n)) as int;
            if p.len() < 2 || p.len() < 22 + n || p.len() < 22 + n + len {
                *final(st) == *old(st)
            } else {
                &&& *final(st) == (TaskState {
                    routing: final(st).routing,
                    fetch_reply_count: final(st).fetch_reply_count,
                    ..*old(st)
                })
                &&& final(st).fetch_reply_count == (old(st).fetch_reply_count + 1)
                    % 0x1_0000_0000_0000_0000
                &&& routed(
                    old(st).routing,
                    final(st).routing,
                    MessageModel {
                        topic: p.subrange(2, 2 + n),
                        payload: p.subrange(22 + n, 22 + n + len),
                        seq: frame.seq,
                        stream_id: sid,
                    },
                )
            }
        }),
{
    let p = bytes_view(frame.payload);
    let n = p[0] * 256 + p[1];
    lemma_rest(p);
    if p.len() >= 2 && p.len() >= 22 + n {
        let rest = p.skip(2 + n);
        assert(rest.subrange(16, 20) =~= p.subrange(18 + n, 22 + n));
        let len = from_be(p.subrange(18 + n, 22 + n)) as int;
        if p.len() >= 22 + n + len {
            assert(rest.subrange(20, 20 + len) =~= p.subrange(22 + n, 22 + n + len));
        }
    }
}

/// Delivering a message routes it as it is, and counting a frame counts it; neither changes anything
/// else of the task.
pub proof fn law_the_task_delivers_and_counts(
    st: &mut TaskState,
    sid: u64,
    topic: Bytes,
    body: Bytes,
    seq: u64,
    counting: &mut TaskState,
)
    requires
        call_ensures(TaskState::fanout_message, (st, sid, topic, body, seq), ()),
        call_ensures(TaskState::maybe_flush_ack, (counting, sid), ()),
    ensures
        routed(
            old(st).routing,
            final(st).routing,
            MessageModel {
                topic: bytes_view(topic),
                payload: bytes_view(body),
                seq,
                stream_id: sid,
            },
        ),
        *final(st) == (TaskState { routing: final(st).routing, ..*old(st) }),
        frame_counted(old(counting).reliability, final(counting).reliability, sid),
        *final(counting) == (TaskState {
            reliability: final(counting).reliability,
            ..*old(counting)
        }),
{
    let before = old(counting).reliability;
    let after = final(counting).reliability;
    assert(after@ == before@.count_frame(sid));
    let queued = before.pending_ack_flush@.push((sid, number_on(after.pending_acks@, sid)));
    assert(queued =~= before.pending_ack_flush@ + seq![(sid, number_on(after.pending_acks@, sid))]);
}

/// Frames of every other kind change nothing.
pub proof fn law_other_frames_change_nothing(st: &mut TaskState, sid: u64, frame: Frame)
    requires
        call_ensures(TaskState::dispatch, (st, sid, frame), ()),
        frame.msg_type != MessageType::Publish,
        frame.msg_type != MessageType::NotifyOffset,
        frame.msg_type != MessageType::FetchReply,
    ensures
        *final(st) == *old(st),
{
}

/// What is published on one side is delivered on the other: the frame that leaves, dispatched as it
/// is, brings exactly that topic and that payload, on whatever stream. A topic takes at most 65535
/// bytes.
pub proof fn law_publishes_arrive_whole(
    sender: &TaskState,
    topic: &str,
    payload: &[u8],
    stream: StreamSel,
    s: Started,
    st: &mut TaskState,
    sid: u64,
    frame: Frame,
)
    requires
        call_ensures(TaskState::handle_publish, (sender, topic, payload, stream), s),
        payload@.len() <= sender.max_message_size,
        encode_utf8(topic@).len() <= 0xFFFF,
        frame.msg_type == s.batch@.left[0].msg_type,
        bytes_view(frame.payload) == bytes_of(s.batch@.left[0]),
        call_ensures(TaskState::dispatch, (st, sid, frame), ()),
        old(st).reliability.enabled && frame.ack_req ==> frame.seq > accepted_upto(*old(st), sid),
    ensures
        routed(
            old(st).routing,
            final(st).routing,
            MessageModel {
                topic: encode_utf8(topic@),
                payload: payload@,
                seq: frame.seq,
                stream_id: sid,
            },
        ),
{
    let out = match stream {
        StreamSel::Default => 0u64,
        StreamSel::Dedicated(id) => id,
    };
    lemma_publishing(sender.reliability.enabled, out, topic@, payload@);
    law_publishes_are_delivered_once(st, sid, frame);
}

/// What is published to a dedicated stream reaches the consumer of that stream: it is offered
/// exactly that topic and that payload.
pub proof fn law_stream_publishes_reach_the_consumer(
    sender: &TaskState,
    topic: &str,
    payload: &[u8],
    sid: u64,
    s: Started,
    st: &mut TaskState,
    frame: Frame,
)
    requires
        sid != 0,
        call_ensures(
            TaskState::handle_publish,
            (sender, topic, payload, StreamSel::Dedicated(sid)),
            s,
        ),
        payload@.len() <= sender.max_message_size,
        encode_utf8(topic@).len() <= 0xFFFF,
        frame.msg_type == s.batch@.left[0].msg_type,
        bytes_view(frame.payload) == bytes_of(s.batch@.left[0]),
        call_ensures(TaskState::dispatch, (st, s.batch@.left[0].stream_id, frame), ()),
        old(st).reliability.enabled && frame.ack_req ==> frame.seq > accepted_upto(*old(st), sid),
        old(st).routing.streams@.contains_key(sid),
        forall|cid: u128|
            !#[trigger] answers(
                old(st).routing,
                MessageModel {
                    topic: encode_utf8(topic@),
                    payload: payload@,
                    seq: frame.seq,
                    stream_id: sid,
                },
                cid,
            ),
    ensures
        exists|o: Offer|
            #[trigger] heard(
                old(st).routing.streams@[sid].tx,
                final(st).routing.streams@[sid].tx,
                MessageModel {
                    topic: encode_utf8(topic@),
                    payload: payload@,
                    seq: frame.seq,
                    stream_id: sid,
                },
                o,
            ),
{
    let msg = MessageModel {
        topic: encode_utf8(topic@),
        payload: payload@,
        seq: frame.seq,
        stream_id: sid,
    };
    law_publishes_arrive_whole(
        sender,
        topic,
        payload,
        StreamSel::Dedicated(sid),
        s,
        st,
        sid,
        frame,
    );
    let pre = old(st).routing;
    let post = final(st).routing;
    if pre.answered_call(msg) is Some {
        lemma_answers(pre, msg, pre.answered_call(msg)->0);
    }
    crate::routing::law_dedicated_streams_hear_every_topic(pre, post, msg);
    let o = choose|o: Offer| handed_in(pre.streams@[sid].tx, post.streams@[sid].tx, msg, o);
    assert(heard(pre.streams@[sid].tx, post.streams@[sid].tx, msg, o));
}

/// A message that a stream's handle takes out is one that the stream's channel was given and took,
/// and it is taken out once; without one nothing is.
pub proof fn law_handles_take_out_what_was_delivered(
    handle: &mut StreamHandle,
    r: Option<Message>,
)
    requires
        call_ensures(StreamHandle::try_recv, (handle,), r),
    ensures
        polls(final(handle).rx) == polls(old(handle).rx) + 1,
        r is None ==> received(final(handle).rx) == received(old(handle).rx),
        r matches Some(msg) ==> {
            &&& received(final(handle).rx) == received(old(handle).rx) + seq![msg@]
            &&& exists|tx: tokio::sync::mpsc::Sender<Message>| #[trigger]
                linked(tx, old(handle).rx) && offers(tx).contains((msg@, Offer::Accepted))
        },
        final(handle).stream_id == old(handle).stream_id,
{
    if let Some(msg) = r {
        assert(received(old(handle).rx).push(msg@) =~= received(old(handle).rx) + seq![msg@]);
    }
}

/// How many frames of a stream were counted towards its next acknowledgement.
pub open spec fn counted_on(r: Reliability, sid: u64) -> int {
    if r.reliable_since_flush@.contains_key(sid) {
        r.reliable_since_flush@[sid] as int
    } else {
        0
    }
}

/// What a table says of a stream, 0 where it says nothing.
pub open spec fn number_on(m: Map<u64, u64>, sid: u64) -> u64 {
    if m.contains_key(sid) {
        m[sid]
    } else {
        0
    }
}

/// Every so many reliable frames of a stream, as many as the interval says and at least one, the
/// stream's pending acknowledgement is queued and the count starts over; in between the count goes
/// up by one. Without reliable delivery nothing is counted.
pub open spec fn frame_counted(before: Reliability, after: Reliability, sid: u64) -> bool {
    let interval = if before.ack_interval == 0 {
        1int
    } else {
        before.ack_interval as int
    };
    let due = counted_on(before, sid) + 1 >= interval;
    &&& !before.enabled ==> after.reliable_since_flush@ == before.reliable_since_flush@
        && after.pending_ack_flush@ == before.pending_ack_flush@
    &&& before.enabled && due ==> {
        &&& counted_on(after, sid) == 0
        &&& after.pending_ack_flush@ == before.pending_ack_flush@ + seq![
            (sid, number_on(after.pending_acks@, sid)),
        ]
    }
    &&& before.enabled && !due ==> {
        &&& counted_on(after, sid) == counted_on(before, sid) + 1
        &&& after.pending_ack_flush@ == before.pending_ack_flush@
    }
    &&& forall|other: u64| other != sid ==> #[trigger] counted_on(after, other) == counted_on(
        before,
        other,
    )
    &&& after.enabled == before.enabled
    &&& after.ack_interval == before.ack_interval
    &&& after.logical_session_id == before.logical_session_id
}

/// A reliable frame was taken note of: above the highest accepted number of its stream it becomes
/// that, and is acknowledged next; any other is counted as a duplicate, and leaves the highest
/// number as it is. Either is counted towards the next acknowledgement. No other stream is affected.
pub open spec fn noted(before: Reliability, after: Reliability, sid: u64, seq: u64) -> bool {
    let high = number_on(before.highest_accepted@, sid);
    let ack = number_on(before.pending_acks@, sid);
    &&& number_on(after.highest_accepted@, sid) == if seq > high {
        seq
    } else {
        high
    }
    &&& number_on(after.pending_acks@, sid) == if seq > high || seq > ack {
        seq
    } else {
        ack
    }
    &&& after.duplicates_detected == (before.duplicates_detected + if seq > high {
        0int
    } else {
        1int
    }) % 0x1_0000_0000_0000_0000
    &&& forall|other: u64|
        other != sid ==> #[trigger] number_on(after.highest_accepted@, other) == number_on(
            before.highest_accepted@,
            other,
        )
    &&& forall|other: u64|
        other != sid ==> #[trigger] number_on(after.pending_acks@, other) == number_on(
            before.pending_acks@,
            other,
        )
    &&& frame_counted(before, after, sid)
}

/// What an arriving frame does, in other words.
proof fn lemma_noted(before: Reliability, after: Reliability, sid: u64, seq: u64)
    requires
        after@ == before@.arrive(sid, seq),
    ensures
        noted(before, after, sid, seq),
{
    let queued = before.pending_ack_flush@.push((sid, number_on(after.pending_acks@, sid)));
    assert(queued =~= before.pending_ack_flush@ + seq![(sid, number_on(after.pending_acks@, sid))]);
}

/// A reliable frame is to be delivered exactly where its number lies above the highest accepted one
/// of its stream; either way it is taken note of.
pub proof fn law_reliable_frames_are_noted(rel: &mut Reliability, sid: u64, seq: u64, r: bool)
    requires
        call_ensures(Reliability::take_note, (rel, sid, seq), r),
    ensures
        r <==> seq > number_on(old(rel).highest_accepted@, sid),
        noted(*old(rel), *final(rel), sid, seq),
{
    lemma_noted(*old(rel), *final(rel), sid, seq);
}

/// Counting a frame does nothing but count it.
pub proof fn law_frames_are_counted(rel: &mut Reliability, sid: u64)
    requires
        call_ensures(Reliability::maybe_flush_ack, (rel, sid), ()),
    ensures
        frame_counted(*old(rel), *final(rel), sid),
        final(rel).highest_accepted@ == old(rel).highest_accepted@,
        final(rel).pending_acks@ == old(rel).pending_acks@,
        final(rel).duplicates_detected == old(rel).duplicates_detected,
{
    let a = old(rel)@;
    let b = final(rel)@;
    assert(b == a.count_frame(sid));
    let queued = old(rel).pending_ack_flush@.push((sid, number_on(final(rel).pending_acks@, sid)));
    assert(queued =~= old(rel).pending_ack_flush@ + seq![
        (sid, number_on(final(rel).pending_acks@, sid)),
    ]);
}

/// The number that the next frame on a stream gets, and the one after it: streams count from 0, by
/// ones, each for itself.
pub open spec fn numbered(before: TaskState, after: TaskState, f: OutFrame) -> bool {
    let sid = f@.frame.stream_id;
    &&& f@.seq == number_on(before.seqs@, sid)
    &&& number_on(after.seqs@, sid) == (f@.seq + 1) % 0x1_0000_0000_0000_0000
    &&& forall|other: u64| other != sid ==> #[trigger] number_on(after.seqs@, other) == number_on(
        before.seqs@,
        other,
    )
}

/// The acknowledgement queued last goes out on the stream it is about and spells its number; the
/// others stay queued.
pub proof fn law_acks_go_out(st: &mut TaskState, r: Option<OutFrame>)
    requires
        call_ensures(TaskState::next_ack, (st,), r),
    ensures
        ({
            let queue = old(st).reliability.pending_ack_flush@;
            &&& r is Some <==> queue.len() > 0
            &&& r is None ==> *final(st) == *old(st)
            &&& r matches Some(f) ==> {
                let (sid, ack) = queue[queue.len() - 1];
                &&& carries(f@.frame, sid, MessageType::Ack, false)
                &&& bytes_of(f@.frame).len() == 8
                &&& from_be(bytes_of(f@.frame)) == ack
                &&& numbered(*old(st), *final(st), f)
                &&& final(st).reliability.pending_ack_flush@ == queue.take(queue.len() - 1)
                &&& final(st).reliability.highest_accepted@ == old(st).reliability.highest_accepted@
                &&& final(st).reliability.pending_acks@ == old(st).reliability.pending_acks@
                &&& final(st).routing == old(st).routing
            }
        }),
{
    let queue = old(st).reliability.pending_ack_flush@;
    assert(queue == old(st).reliability@.queue);
    if queue.len() > 0 {
        let (sid, ack) = queue[queue.len() - 1];
        lemma_capacities();
        lemma_be_len(ack as nat, 8);
        law_big_endian_roundtrip(ack as nat, 8);
        assert(queue.drop_last() =~= queue.take(queue.len() - 1));
        assert(final(st).reliability@.queue == queue.drop_last());
        assert(final(st).reliability@.highest == old(st).reliability@.highest);
        assert(final(st).reliability@.acks == old(st).reliability@.acks);
    }
}

/// The fetch queued last goes out on the stream that its notification came on and names topic and
/// offset, for one entry; the others stay queued. A topic takes at most 65535 bytes.
pub proof fn law_fetches_go_out(st: &mut TaskState, r: Option<OutFrame>)
    requires
        call_ensures(TaskState::next_fetch, (st,), r),
        old(st).pending_fetches@.len() > 0 ==> old(st).pending_fetches@.last()@.topic.len()
            <= 0xFFFF,
    ensures
        ({
            let queue = old(st).pending_fetches@;
            &&& r is Some <==> queue.len() > 0
            &&& r is None ==> *final(st) == *old(st)
            &&& r matches Some(f) ==> {
                let wanted = queue[queue.len() - 1]@;
                let n = wanted.topic.len() as int;
                let p = bytes_of(f@.frame);
                &&& carries(f@.frame, wanted.stream_id, MessageType::Fetch, false)
                &&& p.len() == 2 + n + 12
                &&& p[0] * 256 + p[1] == n
                &&& p.subrange(2, 2 + n) == wanted.topic
                &&& from_be(p.subrange(2 + n, 10 + n)) == wanted.offset
                &&& from_be(p.skip(10 + n)) == 1
                &&& numbered(*old(st), *final(st), f)
                &&& final(st).pending_fetches@ == queue.take(queue.len() - 1)
                &&& final(st).routing == old(st).routing
                &&& final(st).reliability == old(st).reliability
            }
        }),
{
    let queue = old(st).pending_fetches@;
    if queue.len() > 0 {
        let wanted = queue[queue.len() - 1]@;
        assert(queue.drop_last() =~= queue.take(queue.len() - 1));
        lemma_fetch(wanted.topic, wanted.offset);
    }
}

/// The layout of a fetch.
proof fn lemma_fetch(topic: Seq<u8>, offset: u64)
    requires
        topic.len() <= 0xFFFF,
    ensures
        ({
            let p = crate::wire::fetch_payload(topic, offset);
            let n = topic.len() as int;
            &&& p.len() == 2 + n + 12
            &&& p[0] * 256 + p[1] == n
            &&& p.subrange(2, 2 + n) == topic
            &&& from_be(p.subrange(2 + n, 10 + n)) == offset
            &&& from_be(p.skip(10 + n)) == 1
        }),
{
    let p = crate::wire::fetch_payload(topic, offset);
    let n = topic.len();
    lemma_capacities();
    lemma_be_len(n, 2);
    lemma_be_len(offset as nat, 8);
    lemma_be_len(1, 4);
    law_big_endian_roundtrip(n, 2);
    law_big_endian_roundtrip(offset as nat, 8);
    law_big_endian_roundtrip(1, 4);
    assert(p.take(2) =~= be(n, 2));
    lemma_two_bytes(p.take(2));
    assert(p.take(2)[0] == p[0] && p.take(2)[1] == p[1]);
    assert(p.subrange(2, 2 + n as int) =~= topic);
    assert(p.subrange(2 + n as int, 10 + n as int) =~= be(offset as nat, 8));
    assert(p.skip(10 + n as int) =~= be(1, 4));
}

/// The log entry that a notification names is the one that is fetched, on the same stream.
pub proof fn law_notified_entries_are_fetched(
    st: &mut TaskState,
    sid: u64,
    frame: Frame,
    topic: Seq<u8>,
    offset: u64,
    trailing: Seq<u8>,
    later: &mut TaskState,
    r: Option<OutFrame>,
)
    requires
        topic.len() <= 0xFFFF,
        frame.msg_type == MessageType::NotifyOffset,
        bytes_view(frame.payload) == be(topic.len(), 2) + topic + be(offset as nat, 8) + trailing,
        call_ensures(TaskState::dispatch, (st, sid, frame), ()),
        *old(later) == *final(st),
        call_ensures(TaskState::next_fetch, (later,), r),
    ensures
        r matches Some(f) && {
            let n = topic.len() as int;
            let p = bytes_of(f@.frame);
            &&& carries(f@.frame, sid, MessageType::Fetch, false)
            &&& p.len() == 2 + n + 12
            &&& p[0] * 256 + p[1] == n
            &&& p.subrange(2, 2 + n) == topic
            &&& from_be(p.subrange(2 + n, 10 + n)) == offset
            &&& from_be(p.skip(10 + n)) == 1
        },
        forall|i: int|
            0 <= i < old(st).pending_fetches@.len() ==> i < final(later).pending_fetches@.len()
                && (#[trigger] old(st).pending_fetches@[i])@ == final(later).pending_fetches@[i]@,
{
    let p = bytes_view(frame.payload);
    let n = topic.len() as int;
    lemma_capacities();
    lemma_be_len(topic.len(), 2);
    lemma_be_len(offset as nat, 8);
    law_big_endian_roundtrip(topic.len(), 2);
    law_big_endian_roundtrip(offset as nat, 8);
    assert(p.take(2) =~= be(topic.len(), 2));
    lemma_two_bytes(p.take(2));
    assert(p.take(2)[0] == p[0] && p.take(2)[1] == p[1]);
    assert(p.subrange(2, 2 + n) =~= topic);
    assert(p.subrange(2 + n, 10 + n) =~= be(offset as nat, 8));
    law_notified_entries_are_queued(st, sid, frame);
    law_fetches_go_out(later, r);
}

} // verus!
