//! The state of the connection task, and what inbound frames do to it.
use bytes::Bytes;
use vstd::prelude::*;

use crate::buf;
use crate::buf::bytes_view;
use crate::channel::{handed_in, max_capacity, Offer};
use crate::frame::{advanced, plain, upcoming, Batch, Frame, FrameModel, MessageType, OutFrame, Planned, SeqCounters};
use crate::message::MessageModel;
use crate::reliable::Reliability;
use crate::routing::{law_only_matching_subscriptions_hear, routed, Routing, DEFAULT_STREAM};
use crate::text::law_text_survives_encoding;
use crate::topic::topic_matches;
use crate::wire;
use crate::wire::{be, fetch_payload, fetch_reply_parts, field_parts, notify_parts, text_field};
use vstd::utf8::encode_utf8;

verus! {

/// The first dedicated stream. The ids that a client can open for both directions are 0, 4, 8
/// and so on; 0 is the default channel.
pub const FIRST_DEDICATED_STREAM: u64 = 4;

/// How far dedicated stream ids lie apart.
pub const STREAM_ID_STEP: u64 = 4;

/// One consumer-group membership, kept for heartbeats and for replay after a reconnect.
pub struct GroupSubEntry {
    /// The stream that the membership uses.
    pub sid: u64,
    /// The topic consumed.
    pub topic: String,
    /// The group joined.
    pub group: String,
    /// The consumer's id within the group.
    pub consumer: String,
    /// The partition hint.
    pub partitions: u32,
}

/// A log entry to be fetched: the topic, its offset in the log, and the stream to ask on.
pub struct PendingFetch {
    /// Topic bytes.
    pub topic: Bytes,
    /// Offset in the log.
    pub offset: u64,
    /// Stream the notification came on.
    pub stream_id: u64,
}

/// What a [`PendingFetch`] says.
pub struct FetchModel {
    pub topic: Seq<u8>,
    pub offset: u64,
    pub stream_id: u64,
}

impl View for PendingFetch {
    type V = FetchModel;

    open spec fn view(&self) -> FetchModel {
        FetchModel {
            topic: bytes_view(self.topic),
            offset: self.offset,
            stream_id: self.stream_id,
        }
    }
}

/// What the queued fetches say.
pub open spec fn fetches_of(fetches: Seq<PendingFetch>) -> Seq<FetchModel> {
    fetches.map_values(|f: PendingFetch| f@)
}

/// Connection-task state.
pub struct TaskState {
    /// Who gets which message.
    pub routing: Routing,
    /// Duplicate suppression and acknowledgements.
    pub reliability: Reliability,
    /// Outgoing sequence numbers.
    pub seqs: SeqCounters,
    /// Next dedicated stream id.
    pub next_bidi: u64,
    /// Depth of newly made subscriber channels.
    pub subscriber_buffer: usize,
    /// Largest payload that is published.
    pub max_message_size: usize,
    /// Active consumer-group memberships. Each one's stream is also among the dedicated
    /// streams, so that its messages need no pattern matching.
    pub group_subs: Vec<GroupSubEntry>,
    /// Log entries to be fetched.
    pub pending_fetches: Vec<PendingFetch>,
    /// Offset notifications received; wraps around.
    pub notify_offset_count: u64,
    /// Fetch replies received; wraps around.
    pub fetch_reply_count: u64,
    /// Whether the connection has been asked to close. The request is answered once pending
    /// writes have drained.
    pub close_requested: bool,
}

impl TaskState {
    /// Reply topics occur once each.
    pub open spec fn wf(self) -> bool {
        self.routing.topics_distinct()
    }

    /// Subscriber channels of the configured depth can be made.
    pub open spec fn channels_possible(self) -> bool {
        0 < self.subscriber_buffer <= max_capacity()
    }

    /// Dedicated stream ids are multiples of 4 above the default channel, and every registered
    /// stream is older than the next.
    pub open spec fn ids_fresh(self) -> bool {
        &&& self.next_bidi >= FIRST_DEDICATED_STREAM
        &&& self.next_bidi % STREAM_ID_STEP == 0
        &&& forall|sid: u64| #[trigger]
            self.routing.streams@.contains_key(sid) ==> FIRST_DEDICATED_STREAM <= sid
                < self.next_bidi && sid % STREAM_ID_STEP == 0
    }
}

/// The message that a frame on stream `sid` carries.
pub open spec fn inbound(sid: u64, seq: u64, topic: Seq<u8>, body: Seq<u8>) -> MessageModel {
    MessageModel { topic, payload: body, seq, stream_id: sid }
}

/// Whether a frame takes part in reliable delivery.
pub open spec fn reliably(pre: TaskState, frame: Frame) -> bool {
    pre.reliability.enabled && frame.ack_req
}

/// `post` is the state `pre` after a published message has arrived on `sid`: a duplicate is
/// counted and suppressed, anything else is routed. Frames that ask for no acknowledgement
/// bypass the watermark.
pub open spec fn published(
    pre: TaskState,
    post: TaskState,
    sid: u64,
    frame: Frame,
    topic: Seq<u8>,
    body: Seq<u8>,
) -> bool {
    &&& post == (TaskState { routing: post.routing, reliability: post.reliability, ..pre })
    &&& if reliably(pre, frame) {
        post.reliability@ == pre.reliability@.arrive(sid, frame.seq)
    } else {
        post.reliability == pre.reliability
    }
    &&& if reliably(pre, frame) && !pre.reliability@.is_new(sid, frame.seq) {
        post.routing == pre.routing
    } else {
        routed(pre.routing, post.routing, inbound(sid, frame.seq, topic, body))
    }
}

/// `post` is the state `pre` after `frame` has arrived on stream `sid`. Malformed frames and
/// kinds that the client does not act on change nothing.
pub open spec fn dispatched(pre: TaskState, post: TaskState, sid: u64, frame: Frame) -> bool {
    let payload = bytes_view(frame.payload);
    match frame.msg_type {
        MessageType::Publish => match field_parts(payload) {
            Some((topic, body)) => published(pre, post, sid, frame, topic, body),
            None => post == pre,
        },
        MessageType::NotifyOffset => match notify_parts(payload) {
            Some((topic, offset)) => {
                &&& post == (TaskState {
                    pending_fetches: post.pending_fetches,
                    notify_offset_count: pre.notify_offset_count.wrapping_add(1),
                    ..pre
                })
                &&& fetches_of(post.pending_fetches@) == fetches_of(pre.pending_fetches@).push(
                    FetchModel { topic, offset, stream_id: sid },
                )
            },
            None => post == pre,
        },
        MessageType::FetchReply => match fetch_reply_parts(payload) {
            Some((topic, body)) => {
                &&& post == (TaskState {
                    routing: post.routing,
                    fetch_reply_count: pre.fetch_reply_count.wrapping_add(1),
                    ..pre
                })
                &&& routed(pre.routing, post.routing, inbound(sid, frame.seq, topic, body))
            },
            None => post == pre,
        },
        _ => post == pre,
    }
}

impl TaskState {
    /// A task that has neither subscriptions nor streams.
    pub fn new(
        subscriber_buffer: usize,
        max_message_size: usize,
        reliable_enabled: bool,
        ack_interval_msgs: u8,
        logical_session_id: u64,
    ) -> (r: Self)
        ensures
            r.routing.subs@.len() == 0,
            r.routing.streams@ == Map::<u64, crate::routing::StreamEntry>::empty(),
            r.routing.pending_rpcs@.dom() == Set::<u128>::empty(),
            r.routing.rpc_reply_topics@.len() == 0,
            r.routing.default_drops == 0,
            r.routing.stream_drops == 0,
            r.reliability.enabled == reliable_enabled,
            r.reliability.ack_interval == ack_interval_msgs,
            r.reliability.logical_session_id == logical_session_id,
            r.reliability@.highest == Map::<u64, u64>::empty(),
            r.reliability@.acks == Map::<u64, u64>::empty(),
            r.reliability@.since_flush == Map::<u64, u8>::empty(),
            r.reliability@.queue.len() == 0,
            r.reliability@.duplicates == 0,
            r.seqs@ == Map::<u64, u64>::empty(),
            r.next_bidi == FIRST_DEDICATED_STREAM,
            r.subscriber_buffer == subscriber_buffer,
            r.max_message_size == max_message_size,
            r.group_subs@.len() == 0,
            r.pending_fetches@.len() == 0,
            r.notify_offset_count == 0,
            r.fetch_reply_count == 0,
            !r.close_requested,
            r.ids_fresh(),
            r.wf(),
    {
        TaskState {
            routing: Routing::new(),
            reliability: Reliability::new(reliable_enabled, ack_interval_msgs, logical_session_id),
            seqs: SeqCounters::new(),
            next_bidi: FIRST_DEDICATED_STREAM,
            subscriber_buffer,
            max_message_size,
            group_subs: Vec::new(),
            pending_fetches: Vec::new(),
            notify_offset_count: 0,
            fetch_reply_count: 0,
            close_requested: false,
        }
    }

    /// Next outgoing sequence number for `stream_id`.
    pub fn next_seq(&mut self, stream_id: u64) -> (r: u64)
        ensures
            r == upcoming(old(self).seqs@, stream_id),
            final(self).seqs@ == advanced(old(self).seqs@, stream_id),
            *final(self) == (TaskState { seqs: final(self).seqs, ..*old(self) }),
    {
        self.seqs.next_seq(stream_id)
    }

    /// Counts one reliable frame; see [`Reliability::maybe_flush_ack`].
    pub fn maybe_flush_ack(&mut self, stream_id: u64)
        ensures
            final(self).reliability@ == old(self).reliability@.count_frame(stream_id),
            *final(self) == (TaskState { reliability: final(self).reliability, ..*old(self) }),
    {
        self.reliability.maybe_flush_ack(stream_id);
    }

    /// Delivers a message that arrived on stream `sid`; see [`Routing::fanout_message`].
    pub fn fanout_message(&mut self, sid: u64, topic: Bytes, body: Bytes, seq: u64)
        ensures
            routed(
                old(self).routing,
                final(self).routing,
                inbound(sid, seq, bytes_view(topic), bytes_view(body)),
            ),
            *final(self) == (TaskState { routing: final(self).routing, ..*old(self) }),
    {
        self.routing.fanout_message(sid, topic, body, seq);
    }

    /// Routes a decoded inbound frame; see [`dispatched`].
    pub fn dispatch(&mut self, sid: u64, frame: Frame)
        ensures
            dispatched(*old(self), *final(self), sid, frame),
    {
        match frame.msg_type {
            MessageType::Publish => {
                match wire::parse_publish(&frame.payload) {
                    Some((topic, body)) => {
                        if self.reliability.enabled && frame.ack_req {
                            if !self.reliability.take_note(sid, frame.seq) {
                                return ;
                            }
                        }
                        self.fanout_message(sid, topic, body, frame.seq);
                    },
                    None => {},
                }
            },
            MessageType::NotifyOffset => {
                match wire::parse_notify_offset(&frame.payload) {
                    Some((topic, offset)) => {
                        let fetch = PendingFetch { topic, offset, stream_id: sid };
                        self.pending_fetches.push(fetch);
                        self.notify_offset_count = self.notify_offset_count.wrapping_add(1);
                        assert(fetches_of(self.pending_fetches@) =~= fetches_of(
                            old(self).pending_fetches@,
                        ).push(fetch@));
                    },
                    None => {},
                }
            },
            MessageType::FetchReply => {
                match wire::parse_fetch_reply(&frame.payload) {
                    Some((topic, body)) => {
                        self.fanout_message(sid, topic, body, frame.seq);
                        self.fetch_reply_count = self.fetch_reply_count.wrapping_add(1);
                    },
                    None => {},
                }
            },
            _ => {},
        }
    }

    /// The next frame of a batch, numbered from the task's counters.
    pub fn next_frame(&mut self, batch: &mut Batch) -> (r: Option<OutFrame>)
        ensures
            *final(self) == (TaskState { seqs: final(self).seqs, ..*old(self) }),
            old(batch)@.failed || old(batch)@.left.len() == 0 ==> {
                &&& r is None
                &&& final(batch)@ == old(batch)@
                &&& final(self).seqs@ == old(self).seqs@
            },
            !old(batch)@.failed && old(batch)@.left.len() > 0 ==> {
                let p = old(batch)@.left[0];
                &&& r is Some
                &&& r->0@ == (FrameModel { seq: upcoming(old(self).seqs@, p.stream_id), frame: p })
                &&& final(self).seqs@ == advanced(old(self).seqs@, p.stream_id)
                &&& final(batch)@.left == old(batch)@.left.skip(1)
                &&& !final(batch)@.failed
            },
    {
        batch.next_frame(&mut self.seqs)
    }

    /// Takes the fetch queued last and makes it a frame. The task sends fetches until none is
    /// left, after each round of inbound frames.
    pub fn next_fetch(&mut self) -> (r: Option<OutFrame>)
        ensures
            *final(self) == (TaskState {
                seqs: final(self).seqs,
                pending_fetches: final(self).pending_fetches,
                ..*old(self)
            }),
            old(self).pending_fetches@.len() == 0 ==> r is None && *final(self) == *old(self),
            old(self).pending_fetches@.len() > 0 ==> {
                let f = old(self).pending_fetches@.last()@;
                &&& r is Some
                &&& r->0@ == (FrameModel {
                    seq: upcoming(old(self).seqs@, f.stream_id),
                    frame: plain(
                        f.stream_id,
                        MessageType::Fetch,
                        fetch_payload(f.topic, f.offset),
                    ),
                })
                &&& final(self).seqs@ == advanced(old(self).seqs@, f.stream_id)
                &&& final(self).pending_fetches@ == old(self).pending_fetches@.drop_last()
            },
    {
        if self.pending_fetches.len() == 0 {
            return None;
        }
        match self.pending_fetches.pop() {
            Some(f) => {
                let bytes = wire::encode_fetch(buf::as_slice(&f.topic), f.offset);
                let frame = self.seqs.stamp(Planned::plain(f.stream_id, MessageType::Fetch, bytes));
                Some(frame)
            },
            None => None,
        }
    }

    /// Takes the acknowledgement queued last and makes it a frame on the stream it is about.
    pub fn next_ack(&mut self) -> (r: Option<OutFrame>)
        ensures
            *final(self) == (TaskState {
                seqs: final(self).seqs,
                reliability: final(self).reliability,
                ..*old(self)
            }),
            old(self).reliability@.queue.len() == 0 ==> r is None && *final(self) == *old(self),
            old(self).reliability@.queue.len() > 0 ==> {
                let (sid, ack) = old(self).reliability@.queue.last();
                &&& r is Some
                &&& r->0@ == (FrameModel {
                    seq: upcoming(old(self).seqs@, sid),
                    frame: plain(sid, MessageType::Ack, be(ack as nat, 8)),
                })
                &&& final(self).seqs@ == advanced(old(self).seqs@, sid)
                &&& final(self).reliability@ == (crate::reliable::ReliabilityModel {
                    queue: old(self).reliability@.queue.drop_last(),
                    ..old(self).reliability@
                })
            },
    {
        if self.reliability.pending_ack_flush.len() == 0 {
            return None;
        }
        match self.reliability.pending_ack_flush.pop() {
            Some((sid, ack)) => {
                let bytes = wire::encode_ack(ack);
                Some(self.seqs.stamp(Planned::plain(sid, MessageType::Ack, bytes)))
            },
            None => None,
        }
    }
}

/// A suppressed duplicate reaches nobody: subscriptions, streams and pending calls stay as they
/// were.
pub proof fn law_duplicates_reach_nobody(
    pre: TaskState,
    post: TaskState,
    sid: u64,
    frame: Frame,
)
    requires
        dispatched(pre, post, sid, frame),
        frame.msg_type == MessageType::Publish,
        reliably(pre, frame),
        !pre.reliability@.is_new(sid, frame.seq),
    ensures
        post.routing == pre.routing,
{
}

/// Frames that ask for no acknowledgement leave watermarks and acknowledgements alone.
pub proof fn law_plain_frames_bypass_the_watermark(
    pre: TaskState,
    post: TaskState,
    sid: u64,
    frame: Frame,
)
    requires
        dispatched(pre, post, sid, frame),
        !frame.ack_req,
    ensures
        post.reliability == pre.reliability,
{
}

/// Inbound frames never disturb what the task remembers for a reconnect besides the watermarks:
/// subscriptions keep their patterns, streams stay registered, and numbers, ids and groups are
/// untouched.
pub proof fn law_dispatch_keeps_registrations(
    pre: TaskState,
    post: TaskState,
    sid: u64,
    frame: Frame,
)
    requires
        dispatched(pre, post, sid, frame),
    ensures
        post.seqs == pre.seqs,
        post.next_bidi == pre.next_bidi,
        post.group_subs == pre.group_subs,
        post.routing.subs@.len() == pre.routing.subs@.len(),
        forall|i: int|
            0 <= i < pre.routing.subs@.len() ==> (#[trigger] post.routing.subs@[i]).pattern
                == pre.routing.subs@[i].pattern && post.routing.subs@[i].qos
                == pre.routing.subs@[i].qos,
        post.routing.streams@.dom() == pre.routing.streams@.dom(),
        post.routing.rpc_reply_topics == pre.routing.rpc_reply_topics,
        pre.wf() ==> post.wf(),
        pre.ids_fresh() ==> post.ids_fresh(),
{
    assert(post.routing.streams@.dom() =~= pre.routing.streams@.dom());
    if post.routing.subs != pre.routing.subs {
        assert forall|i: int| 0 <= i < pre.routing.subs@.len() implies (
        #[trigger] post.routing.subs@[i]).pattern == pre.routing.subs@[i].pattern
            && post.routing.subs@[i].qos == pre.routing.subs@[i].qos by {
            let payload = bytes_view(frame.payload);
            let parts = if frame.msg_type == MessageType::Publish {
                field_parts(payload)
            } else {
                fetch_reply_parts(payload)
            };
            let msg = inbound(sid, frame.seq, (parts->0).0, (parts->0).1);
            law_only_matching_subscriptions_hear(pre.routing, post.routing, msg, i);
        }
    }
}

/// What is published arrives: a publish of `payload` to `topic` that comes in on the default
/// channel, answers no call and is no duplicate, is offered with that topic and that payload to
/// every subscription whose pattern matches the topic, and to no other. A topic takes at most
/// 65535 bytes.
pub proof fn law_published_messages_arrive(
    pre: TaskState,
    post: TaskState,
    frame: Frame,
    topic: Seq<char>,
    payload: Seq<u8>,
    i: int,
)
    requires
        dispatched(pre, post, DEFAULT_STREAM, frame),
        frame.msg_type == MessageType::Publish,
        bytes_view(frame.payload) == text_field(topic) + payload,
        encode_utf8(topic).len() <= 0xFFFF,
        reliably(pre, frame) ==> pre.reliability@.is_new(DEFAULT_STREAM, frame.seq),
        pre.routing.answered_call(
            inbound(DEFAULT_STREAM, frame.seq, encode_utf8(topic), payload),
        ) is None,
        0 <= i < pre.routing.subs@.len(),
    ensures
        post.routing.subs@.len() == pre.routing.subs@.len(),
        ({
            let before = pre.routing.subs@[i];
            let after = post.routing.subs@[i];
            let msg = inbound(DEFAULT_STREAM, frame.seq, encode_utf8(topic), payload);
            if topic_matches(before.pattern@, topic) {
                exists|o: Offer| handed_in(before.tx, after.tx, msg, o)
            } else {
                after == before
            }
        }),
{
    wire::law_publish_roundtrip(topic, payload);
    law_text_survives_encoding(topic);
    law_only_matching_subscriptions_hear(
        pre.routing,
        post.routing,
        inbound(DEFAULT_STREAM, frame.seq, encode_utf8(topic), payload),
        i,
    );
}

} // verus!
