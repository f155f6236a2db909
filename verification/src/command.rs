//! Commands to the connection task.
//!
//! A command starts by changing the task's state and planning the frames it needs. The frames
//! are then sent one by one; once it is known how that went, the command finishes with a reply.
use bytes::Bytes;
use tokio::sync::oneshot;
use vstd::prelude::*;
use vstd::utf8::encode_utf8;

use crate::buf;
use crate::buf::bytes_view;
use crate::channel;
use crate::channel::{answered, depth, linked, offers, untouched, Offer};
use crate::error::{ConnectError, GroupError, PublishError, StreamError, SubscribeError};
use crate::frame::{opening, plain, Batch, BatchModel, BodyModel, Frame, FrameBody, MessageType, Planned, PlannedModel};
use crate::message::{Message, MessageModel};
use crate::routing::{holds_topic, law_dedicated_streams_hear_every_topic, law_reply_matches_its_call, Routing, StreamEntry, SubEntry, DEFAULT_STREAM};
use crate::stream::{DeliveryPolicy, GroupSubscription, StreamHandle, StreamSpec, Subscription};
use crate::task::{dispatched, inbound, law_published_messages_arrive, reliably, GroupSubEntry, TaskState, STREAM_ID_STEP};
use crate::text;
use crate::text::law_text_survives_encoding;
use crate::wire;
use crate::topic::topic_matches;
use crate::wire::{be, field_parts, group_prefix, text_field};

verus! {

broadcast use {
    vstd::std_specs::btree::group_btree_axioms,
    vstd::std_specs::hash::group_hash_axioms,
};

/// Which stream a publish leaves on.
#[derive(Clone, Copy, Debug, PartialEq, Eq, Structural)]
pub enum StreamSel {
    /// The shared default stream.
    Default,
    /// A dedicated stream opened before.
    Dedicated(u64),
}

impl StreamSel {
    /// The selected stream's id.
    pub open spec fn id(self) -> u64 {
        match self {
            StreamSel::Default => DEFAULT_STREAM,
            StreamSel::Dedicated(id) => id,
        }
    }
}

/// Commands from client handles to the connection task.
pub enum ConnCmd {
    /// Publish `payload` to `topic` on the selected stream.
    Publish { topic: String, payload: Bytes, stream: StreamSel },
    /// Subscribe to a pattern on the default channel.
    Subscribe { pattern: String, qos: u8 },
    /// Remove the first subscription with this pattern.
    Unsubscribe { pattern: String },
    /// Open a dedicated stream with a delivery policy.
    OpenStream { spec: StreamSpec },
    /// Wait for the reply to a remote call: the next message on `reply_topic` whose payload
    /// opens with `cid` goes to `resp`. The task subscribes to the topic on first use.
    RegisterRpcReply { cid: u128, reply_topic: String, resp: oneshot::Sender<Message> },
    /// Stop waiting for the reply to a remote call.
    CancelRpc { cid: u128 },
    /// Join a consumer group on `topic`, on a dedicated stream of its own.
    GroupJoin { topic: String, group: String, consumer: String, partitions: u32 },
    /// Leave a consumer group.
    GroupLeave { topic: String, group: String, consumer: String },
    /// Close the connection.
    Close,
    /// Move the connection to a new local address.
    Migrate { bind_addr: String },
}

/// Whether a command makes a subscriber channel.
pub open spec fn needs_channel(cmd: ConnCmd) -> bool {
    cmd is Subscribe || cmd is OpenStream || cmd is GroupJoin
}

/// How a command was answered.
pub enum Reply {
    Publish(Result<(), PublishError>),
    Subscribe(Result<Subscription, SubscribeError>),
    Unsubscribe(Result<(), SubscribeError>),
    OpenStream(Result<StreamHandle, StreamError>),
    /// Whether the task looks out for the reply to a remote call: its reply topic is subscribed to.
    RegisterRpc(Result<(), SubscribeError>),
    GroupJoin(Result<GroupSubscription, GroupError>),
    GroupLeave(Result<(), GroupError>),
    Close(Result<(), ConnectError>),
    Migrate(Result<(), ConnectError>),
    /// Nobody waits for an answer.
    Nothing,
}

/// Whether output is flushed once a command's frames have been handed over.
#[derive(Clone, Copy, Debug, PartialEq, Eq, Structural)]
pub enum Flush {
    /// Not for this command: the task flushes once per round.
    Never,
    /// If every frame was taken.
    IfSent,
    /// In any case.
    Always,
}

impl Flush {
    /// Whether to flush, given whether every frame was taken.
    pub open spec fn due(self, sent: bool) -> bool {
        self == Flush::Always || (self == Flush::IfSent && sent)
    }

    /// Whether to flush, given whether every frame was taken.
    pub fn is_due(self, sent: bool) -> (r: bool)
        ensures
            r == self.due(sent),
    {
        match self {
            Flush::Never => false,
            Flush::IfSent => sent,
            Flush::Always => true,
        }
    }
}

/// What is left to do of a command once its frames are out.
pub enum Rest {
    /// Answer, whatever became of the frames.
    Answer(Reply),
    /// Confirm a publish.
    Publish,
    /// Hand out a subscription.
    Subscribe(Subscription),
    /// Confirm an unsubscribe.
    Unsubscribe,
    /// Hand out a stream.
    OpenStream(StreamHandle),
    /// Remember who waits for a reply, and the reply topic if it is new.
    RegisterRpc { cid: u128, new_topic: Option<String>, resp: oneshot::Sender<Message> },
    /// Remember a membership and hand out its subscription.
    GroupJoin { entry: GroupSubEntry, subscription: GroupSubscription },
    /// Forget the stream of a membership.
    GroupLeave { sid: u64 },
    /// Bind a new socket to this address; see [`TaskState::rebound`].
    Rebind(String),
    /// Drain pending writes, close, and then answer.
    Exit,
}

/// A command that has been started.
pub struct Started {
    /// The frames it needs.
    pub batch: Batch,
    /// Whether to flush after them.
    pub flush: Flush,
    /// How it goes on.
    pub rest: Rest,
}

impl Started {
    /// The command needs these frames, none of which has been sent.
    pub open spec fn needs(self, frames: Seq<PlannedModel>, flush: Flush) -> bool {
        &&& self.batch@ == (BatchModel { left: frames, failed: false })
        &&& self.flush == flush
    }
}

/// The frame that publishes `payload` to `topic`. It asks for an acknowledgement when delivery
/// is reliable.
pub open spec fn publish_frame(
    reliable: bool,
    sid: u64,
    topic: Seq<char>,
    payload: Seq<u8>,
) -> PlannedModel {
    PlannedModel {
        stream_id: sid,
        msg_type: MessageType::Publish,
        ack_req: reliable,
        body: BodyModel::Raw(text_field(topic) + payload),
    }
}

/// The frame that subscribes to `pattern` on `sid`.
pub open spec fn subscribe_frame(sid: u64, pattern: Seq<char>, qos: u8) -> PlannedModel {
    plain(sid, MessageType::Subscribe, text_field(pattern).push(qos))
}

/// The frame that joins a group, or says that the member is still there.
pub open spec fn join_frame(
    sid: u64,
    topic: Seq<char>,
    group: Seq<char>,
    consumer: Seq<char>,
    partitions: u32,
) -> PlannedModel {
    plain(
        sid,
        MessageType::ConsumerGroupJoin,
        group_prefix(topic, group, consumer) + be(partitions as nat, 4),
    )
}

/// The pattern that a stream subscribes to.
pub open spec fn stream_pattern(topic: Option<String>) -> Seq<char> {
    match topic {
        Some(t) => t@,
        None => "*"@,
    }
}

/// The two frames that set up a dedicated stream: its policy, then its subscription.
pub open spec fn stream_frames(
    sid: u64,
    policy: DeliveryPolicy,
    topic: Option<String>,
) -> Seq<PlannedModel> {
    seq![opening(sid, policy), subscribe_frame(sid, stream_pattern(topic), 0)]
}

/// Subscription `i` is the first with this pattern.
pub open spec fn first_sub(subs: Seq<SubEntry>, pattern: Seq<char>, i: int) -> bool {
    &&& 0 <= i < subs.len()
    &&& subs[i].pattern@ == pattern
    &&& forall|j: int| 0 <= j < i ==> (#[trigger] subs[j]).pattern@ != pattern
}

/// Whether a membership is the one named.
pub open spec fn is_membership(
    e: GroupSubEntry,
    topic: Seq<char>,
    group: Seq<char>,
    consumer: Seq<char>,
) -> bool {
    e.topic@ == topic && e.group@ == group && e.consumer@ == consumer
}

/// Membership `i` is the first of that name.
pub open spec fn first_membership(
    groups: Seq<GroupSubEntry>,
    topic: Seq<char>,
    group: Seq<char>,
    consumer: Seq<char>,
    i: int,
) -> bool {
    &&& 0 <= i < groups.len()
    &&& is_membership(groups[i], topic, group, consumer)
    &&& forall|j: int|
        0 <= j < i ==> !is_membership(#[trigger] groups[j], topic, group, consumer)
}

/// No stream id is left.
pub open spec fn out_of_ids(pre: TaskState) -> bool {
    pre.next_bidi + STREAM_ID_STEP > u64::MAX
}

/// `post` is `pre` with a new dedicated stream under the next id, whose channel has the configured
/// depth and nothing delivered yet.
pub open spec fn stream_added(
    pre: TaskState,
    post: TaskState,
    policy: DeliveryPolicy,
    topic: Option<Seq<char>>,
) -> bool {
    let sid = pre.next_bidi;
    let e = post.routing.streams@[sid];
    &&& post == (TaskState {
        routing: post.routing,
        next_bidi: (pre.next_bidi + STREAM_ID_STEP) as u64,
        ..pre
    })
    &&& post.routing == (Routing { streams: post.routing.streams, ..pre.routing })
    &&& post.routing.streams@ == pre.routing.streams@.insert(sid, e)
    &&& e.policy == policy
    &&& match topic {
        Some(t) => e.topic is Some && e.topic->0@ == t,
        None => e.topic is None,
    }
    &&& offers(e.tx) == Seq::<(MessageModel, Offer)>::empty()
    &&& depth(e.tx) == pre.subscriber_buffer
}

/// The publish was refused or planned.
pub open spec fn publish_started(
    pre: TaskState,
    post: TaskState,
    topic: Seq<char>,
    payload: Seq<u8>,
    stream: StreamSel,
    s: Started,
) -> bool {
    &&& post == pre
    &&& if payload.len() > pre.max_message_size {
        &&& s.rest == Rest::Answer(
            Reply::Publish(Err(PublishError::TooLarge(payload.len() as usize))),
        )
        &&& s.needs(Seq::empty(), Flush::Never)
    } else {
        &&& s.rest == Rest::Publish
        &&& s.needs(
            seq![publish_frame(pre.reliability.enabled, stream.id(), topic, payload)],
            Flush::Never,
        )
    }
}

/// The subscription is registered before the server hears of it, with a channel of the configured
/// depth.
pub open spec fn subscribe_started(
    pre: TaskState,
    post: TaskState,
    pattern: Seq<char>,
    qos: u8,
    s: Started,
) -> bool {
    let e = post.routing.subs@.last();
    &&& post == (TaskState { routing: post.routing, ..pre })
    &&& post.routing == (Routing { subs: post.routing.subs, ..pre.routing })
    &&& post.routing.subs@ == pre.routing.subs@.push(e)
    &&& e.pattern@ == pattern
    &&& e.qos == qos
    &&& offers(e.tx) == Seq::<(MessageModel, Offer)>::empty()
    &&& depth(e.tx) == pre.subscriber_buffer
    &&& s.rest is Subscribe
    &&& linked(e.tx, s.rest->Subscribe_0.rx)
    &&& untouched(s.rest->Subscribe_0.rx)
    &&& s.needs(seq![subscribe_frame(DEFAULT_STREAM, pattern, qos)], Flush::IfSent)
}

/// The first subscription with the pattern is gone, if there was one; the server hears of it in
/// any case.
pub open spec fn unsubscribe_started(
    pre: TaskState,
    post: TaskState,
    pattern: Seq<char>,
    s: Started,
) -> bool {
    &&& post == (TaskState { routing: post.routing, ..pre })
    &&& post.routing == (Routing { subs: post.routing.subs, ..pre.routing })
    &&& forall|i: int|
        #[trigger] first_sub(pre.routing.subs@, pattern, i) ==> post.routing.subs@
            == pre.routing.subs@.remove(i)
    &&& (forall|i: int|
        0 <= i < pre.routing.subs@.len() ==> (#[trigger] pre.routing.subs@[i]).pattern@ != pattern)
        ==> post.routing.subs@ == pre.routing.subs@
    &&& s.rest == Rest::Unsubscribe
    &&& s.needs(
        seq![plain(DEFAULT_STREAM, MessageType::Unsubscribe, text_field(pattern))],
        Flush::Never,
    )
}

/// The stream is registered and set up, or there is no id left for it.
pub open spec fn open_started(
    pre: TaskState,
    post: TaskState,
    spec: StreamSpec,
    s: Started,
) -> bool {
    if out_of_ids(pre) {
        &&& post == pre
        &&& s.rest == Rest::Answer(Reply::OpenStream(Err(StreamError::NoCapacity)))
        &&& s.needs(Seq::empty(), Flush::Never)
    } else {
        &&& stream_added(
            pre,
            post,
            spec.policy,
            match spec.topic {
                Some(t) => Some(t@),
                None => None,
            },
        )
        &&& s.rest is OpenStream
        &&& s.rest->OpenStream_0.stream_id == pre.next_bidi
        &&& linked(post.routing.streams@[pre.next_bidi].tx, s.rest->OpenStream_0.rx)
        &&& untouched(s.rest->OpenStream_0.rx)
        &&& s.needs(stream_frames(pre.next_bidi, spec.policy, spec.topic), Flush::IfSent)
    }
}

/// The reply topic is subscribed to unless it is already.
pub open spec fn register_started(
    pre: TaskState,
    post: TaskState,
    cid: u128,
    reply_topic: String,
    resp: oneshot::Sender<Message>,
    s: Started,
) -> bool {
    &&& post == pre
    &&& if holds_topic(pre.routing.rpc_reply_topics@, reply_topic@) {
        &&& s.rest == (Rest::RegisterRpc { cid, new_topic: None, resp })
        &&& s.needs(Seq::empty(), Flush::Never)
    } else {
        &&& s.rest == (Rest::RegisterRpc { cid, new_topic: Some(reply_topic), resp })
        &&& s.needs(seq![subscribe_frame(DEFAULT_STREAM, reply_topic@, 0)], Flush::IfSent)
    }
}

/// The membership's stream is registered and the join planned, or there is no id left for it.
pub open spec fn join_started(
    pre: TaskState,
    post: TaskState,
    topic: String,
    group: String,
    consumer: String,
    partitions: u32,
    s: Started,
) -> bool {
    if out_of_ids(pre) {
        &&& post == pre
        &&& s.rest matches Rest::Answer(Reply::GroupJoin(Err(GroupError::Rejected(why))))
        &&& why@ == "no stream capacity"@
        &&& s.needs(Seq::empty(), Flush::Never)
    } else {
        let sid = pre.next_bidi;
        &&& stream_added(pre, post, DeliveryPolicy::ReliableOrdered, Some(topic@))
        &&& s.rest is GroupJoin
        &&& s.rest->entry == (GroupSubEntry { sid, topic, group, consumer, partitions })
        &&& linked(post.routing.streams@[sid].tx, s.rest->subscription.rx)
        &&& untouched(s.rest->subscription.rx)
        &&& s.needs(
            seq![
                opening(sid, DeliveryPolicy::ReliableOrdered),
                join_frame(sid, topic@, group@, consumer@, partitions),
            ],
            Flush::IfSent,
        )
    }
}

/// The membership is forgotten and the server told. One that does not exist counts as left.
pub open spec fn leave_started(
    pre: TaskState,
    post: TaskState,
    topic: Seq<char>,
    group: Seq<char>,
    consumer: Seq<char>,
    s: Started,
) -> bool {
    &&& post == (TaskState { group_subs: post.group_subs, ..pre })
    &&& forall|i: int|
        #[trigger] first_membership(pre.group_subs@, topic, group, consumer, i) ==> {
            let sid = pre.group_subs@[i].sid;
            &&& post.group_subs@ == pre.group_subs@.update(i, pre.group_subs@.last()).drop_last()
            &&& s.rest == (Rest::GroupLeave { sid })
            &&& s.needs(
                seq![
                    plain(
                        sid,
                        MessageType::ConsumerGroupLeave,
                        group_prefix(topic, group, consumer),
                    ),
                ],
                Flush::Always,
            )
        }
    &&& (forall|i: int|
        0 <= i < pre.group_subs@.len() ==> !is_membership(
            #[trigger] pre.group_subs@[i],
            topic,
            group,
            consumer,
        )) ==> {
        &&& post == pre
        &&& s.rest == Rest::Answer(Reply::GroupLeave(Ok(())))
        &&& s.needs(Seq::empty(), Flush::Never)
    }
}

/// `post` is the state `pre` after `cmd` has been started, as `s` says.
pub open spec fn started(pre: TaskState, post: TaskState, cmd: ConnCmd, s: Started) -> bool {
    match cmd {
        ConnCmd::Publish { topic, payload, stream } => publish_started(
            pre,
            post,
            topic@,
            bytes_view(payload),
            stream,
            s,
        ),
        ConnCmd::Subscribe { pattern, qos } => subscribe_started(pre, post, pattern@, qos, s),
        ConnCmd::Unsubscribe { pattern } => unsubscribe_started(pre, post, pattern@, s),
        ConnCmd::OpenStream { spec } => open_started(pre, post, spec, s),
        ConnCmd::RegisterRpcReply { cid, reply_topic, resp } => register_started(
            pre,
            post,
            cid,
            reply_topic,
            resp,
            s,
        ),
        ConnCmd::CancelRpc { cid } => {
            &&& post == (TaskState { routing: post.routing, ..pre })
            &&& post.routing == (Routing { pending_rpcs: post.routing.pending_rpcs, ..pre.routing })
            &&& post.routing.pending_rpcs@ == pre.routing.pending_rpcs@.remove(cid)
            &&& s.rest == Rest::Answer(Reply::Nothing)
            &&& s.needs(Seq::empty(), Flush::Never)
        },
        ConnCmd::GroupJoin { topic, group, consumer, partitions } => join_started(
            pre,
            post,
            topic,
            group,
            consumer,
            partitions,
            s,
        ),
        ConnCmd::GroupLeave { topic, group, consumer } => leave_started(
            pre,
            post,
            topic@,
            group@,
            consumer@,
            s,
        ),
        ConnCmd::Close => {
            &&& post == (TaskState { close_requested: true, ..pre })
            &&& s.rest == Rest::Exit
            &&& s.needs(Seq::empty(), Flush::Never)
        },
        ConnCmd::Migrate { bind_addr } => {
            &&& post == pre
            &&& s.rest == Rest::Rebind(bind_addr)
            &&& s.needs(Seq::empty(), Flush::Never)
        },
    }
}

/// A command that needs no frames.
fn settled(rest: Rest) -> (r: Started)
    ensures
        r.rest == rest,
        r.needs(Seq::empty(), Flush::Never),
{
    Started { batch: Batch::new(), flush: Flush::Never, rest }
}

/// A batch of one frame.
fn one_frame(frame: Planned) -> (r: Batch)
    ensures
        r@ == (BatchModel { left: seq![frame@], failed: false }),
{
    let mut batch = Batch::new();
    batch.add_frame(frame);
    assert(batch@.left =~= seq![frame@]);
    batch
}

/// A batch of two frames.
fn two_frames(first: Planned, second: Planned) -> (r: Batch)
    ensures
        r@ == (BatchModel { left: seq![first@, second@], failed: false }),
{
    let mut batch = Batch::new();
    batch.add_frame(first);
    batch.add_frame(second);
    assert(batch@.left =~= seq![first@, second@]);
    batch
}

impl TaskState {
    /// Starts a publish, unless the payload is larger than the configured maximum.
    pub fn handle_publish(&self, topic: &str, payload: &[u8], stream: StreamSel) -> (r: Started)
        ensures
            publish_started(*self, *self, topic@, payload@, stream, r),
    {
        let len: usize = payload.len();
        if len > self.max_message_size {
            return settled(Rest::Answer(Reply::Publish(Err(PublishError::TooLarge(len)))));
        }
        let sid: u64 = match stream {
            StreamSel::Default => DEFAULT_STREAM,
            StreamSel::Dedicated(id) => id,
        };
        let frame = Planned {
            stream_id: sid,
            msg_type: MessageType::Publish,
            ack_req: self.reliability.enabled,
            body: FrameBody::Raw(wire::encode_publish(topic, payload)),
        };
        Started { batch: one_frame(frame), flush: Flush::Never, rest: Rest::Publish }
    }

    /// Starts a subscription.
    pub fn handle_subscribe(&mut self, pattern: &str, qos: u8) -> (r: Started)
        requires
            old(self).channels_possible(),
        ensures
            old(self).wf() ==> final(self).wf(),
            subscribe_started(*old(self), *final(self), pattern@, qos, r),
    {
        let (tx, rx) = channel::message_channel(self.subscriber_buffer);
        self.routing.subs.push(SubEntry { pattern: pattern.to_owned(), qos, tx });
        let frame = Planned::plain(
            DEFAULT_STREAM,
            MessageType::Subscribe,
            wire::encode_subscribe(pattern, qos),
        );
        Started {
            batch: one_frame(frame),
            flush: Flush::IfSent,
            rest: Rest::Subscribe(Subscription { rx }),
        }
    }

    /// Starts to remove the first subscription whose pattern equals `pattern`.
    pub fn handle_unsubscribe(&mut self, pattern: &str) -> (r: Started)
        ensures
            old(self).wf() ==> final(self).wf(),
            unsubscribe_started(*old(self), *final(self), pattern@, r),
    {
        let mut i: usize = 0;
        let mut found: bool = false;
        while !found && i < self.routing.subs.len()
            invariant
                *self == *old(self),
                i <= self.routing.subs@.len(),
                forall|j: int|
                    0 <= j < i ==> (#[trigger] self.routing.subs@[j]).pattern@ != pattern@,
                found ==> i < self.routing.subs@.len() && self.routing.subs@[i as int].pattern@
                    == pattern@,
            decreases self.routing.subs@.len() - i, (if found {
                0int
            } else {
                1int
            }),
        {
            if text::same(self.routing.subs[i].pattern.as_str(), pattern) {
                found = true;
            } else {
                i += 1;
            }
        }
        if found {
            let ghost at = i as int;
            let _ = self.routing.subs.remove(i);
            proof {
                let subs = old(self).routing.subs@;
                assert forall|k: int| #[trigger] first_sub(subs, pattern@, k) implies k == at by {
                    if k < at {
                        assert(subs[k].pattern@ == pattern@);
                    } else if k > at {
                        assert(subs[at].pattern@ != pattern@);
                    }
                }
                assert(subs[at].pattern@ == pattern@);
            }
        }
        let frame = Planned::plain(
            DEFAULT_STREAM,
            MessageType::Unsubscribe,
            wire::encode_unsubscribe(pattern),
        );
        Started { batch: one_frame(frame), flush: Flush::Never, rest: Rest::Unsubscribe }
    }

    /// Registers a dedicated stream under the next id, if there is one left.
    fn add_stream(&mut self, policy: DeliveryPolicy, topic: Option<String>) -> (r: Option<
        StreamHandle,
    >)
        requires
            old(self).channels_possible(),
        ensures
            old(self).wf() ==> final(self).wf(),
            out_of_ids(*old(self)) ==> r is None && *final(self) == *old(self),
            !out_of_ids(*old(self)) ==> {
                &&& r is Some
                &&& r->0.stream_id == old(self).next_bidi
                &&& linked(final(self).routing.streams@[old(self).next_bidi].tx, r->0.rx)
                &&& untouched(r->0.rx)
                &&& stream_added(
                    *old(self),
                    *final(self),
                    policy,
                    match topic {
                        Some(t) => Some(t@),
                        None => None,
                    },
                )
            },
    {
        let sid: u64 = self.next_bidi;
        if sid > u64::MAX - STREAM_ID_STEP {
            return None;
        }
        self.next_bidi = sid + STREAM_ID_STEP;
        let (tx, rx) = channel::message_channel(self.subscriber_buffer);
        self.routing.streams.insert(sid, StreamEntry { policy, topic, tx });
        Some(StreamHandle { stream_id: sid, rx })
    }

    /// Starts to open a dedicated stream: its policy is declared, then its topic (or everything)
    /// is subscribed to on the stream itself.
    pub fn handle_open_stream(&mut self, spec: StreamSpec) -> (r: Started)
        requires
            old(self).channels_possible(),
        ensures
            old(self).wf() ==> final(self).wf(),
            open_started(*old(self), *final(self), spec, r),
    {
        let policy = spec.policy;
        let bytes = match &spec.topic {
            Some(t) => wire::encode_subscribe(t.as_str(), 0),
            None => wire::encode_subscribe("*", 0),
        };
        match self.add_stream(policy, spec.topic) {
            None => settled(Rest::Answer(Reply::OpenStream(Err(StreamError::NoCapacity)))),
            Some(handle) => {
                let sid: u64 = handle.stream_id;
                let batch = two_frames(
                    Planned::opening(sid, policy),
                    Planned::plain(sid, MessageType::Subscribe, bytes),
                );
                Started { batch, flush: Flush::IfSent, rest: Rest::OpenStream(handle) }
            },
        }
    }

    /// Starts to wait for the reply to a remote call.
    pub fn handle_register_rpc(
        &self,
        cid: u128,
        reply_topic: String,
        resp: oneshot::Sender<Message>,
    ) -> (r: Started)
        ensures
            register_started(*self, *self, cid, reply_topic, resp, r),
    {
        if self.routing.is_reply_topic(reply_topic.as_str()) {
            return settled(Rest::RegisterRpc { cid, new_topic: None, resp });
        }
        let frame = Planned::plain(
            DEFAULT_STREAM,
            MessageType::Subscribe,
            wire::encode_subscribe(reply_topic.as_str(), 0),
        );
        Started {
            batch: one_frame(frame),
            flush: Flush::IfSent,
            rest: Rest::RegisterRpc { cid, new_topic: Some(reply_topic), resp },
        }
    }

    /// Starts to join a consumer group: a dedicated stream is opened for it, and the join sent
    /// on that.
    pub fn handle_group_join(
        &mut self,
        topic: String,
        group: String,
        consumer: String,
        partitions: u32,
    ) -> (r: Started)
        requires
            old(self).channels_possible(),
        ensures
            old(self).wf() ==> final(self).wf(),
            join_started(*old(self), *final(self), topic, group, consumer, partitions, r),
    {
        let policy = DeliveryPolicy::ReliableOrdered;
        match self.add_stream(policy, Some(topic.clone())) {
            None => settled(
                Rest::Answer(
                    Reply::GroupJoin(Err(GroupError::Rejected("no stream capacity".to_owned()))),
                ),
            ),
            Some(handle) => {
                let sid: u64 = handle.stream_id;
                let bytes = wire::encode_group_join(
                    topic.as_str(),
                    group.as_str(),
                    consumer.as_str(),
                    partitions,
                );
                let batch = two_frames(
                    Planned::opening(sid, policy),
                    Planned::plain(sid, MessageType::ConsumerGroupJoin, bytes),
                );
                let entry = GroupSubEntry { sid, topic, group, consumer, partitions };
                let subscription = GroupSubscription { rx: handle.rx };
                Started { batch, flush: Flush::IfSent, rest: Rest::GroupJoin { entry, subscription } }
            },
        }
    }

    /// Starts to leave a consumer group. A membership that does not exist counts as left, so
    /// that callers can leave without keeping track.
    pub fn handle_group_leave(&mut self, topic: &str, group: &str, consumer: &str) -> (r: Started)
        ensures
            old(self).wf() ==> final(self).wf(),
            leave_started(*old(self), *final(self), topic@, group@, consumer@, r),
    {
        let mut i: usize = 0;
        let mut found: bool = false;
        while !found && i < self.group_subs.len()
            invariant
                *self == *old(self),
                i <= self.group_subs@.len(),
                forall|j: int|
                    0 <= j < i ==> !is_membership(
                        #[trigger] self.group_subs@[j],
                        topic@,
                        group@,
                        consumer@,
                    ),
                found ==> i < self.group_subs@.len() && is_membership(
                    self.group_subs@[i as int],
                    topic@,
                    group@,
                    consumer@,
                ),
            decreases self.group_subs@.len() - i, (if found {
                0int
            } else {
                1int
            }),
        {
            let e = &self.group_subs[i];
            if text::same(e.topic.as_str(), topic) && text::same(e.group.as_str(), group)
                && text::same(e.consumer.as_str(), consumer) {
                found = true;
            } else {
                i += 1;
            }
        }
        if !found {
            return settled(Rest::Answer(Reply::GroupLeave(Ok(()))));
        }
        let ghost at = i as int;
        let entry = self.group_subs.swap_remove(i);
        let sid: u64 = entry.sid;
        let frame = Planned::plain(
            sid,
            MessageType::ConsumerGroupLeave,
            wire::encode_group_leave(topic, group, consumer),
        );
        proof {
            let groups = old(self).group_subs@;
            assert forall|k: int| #[trigger]
                first_membership(groups, topic@, group@, consumer@, k) implies k == at by {
                if k < at {
                    assert(is_membership(groups[k], topic@, group@, consumer@));
                } else if k > at {
                    assert(!is_membership(groups[at], topic@, group@, consumer@));
                }
            }
            assert(is_membership(groups[at], topic@, group@, consumer@));
        }
        Started { batch: one_frame(frame), flush: Flush::Always, rest: Rest::GroupLeave { sid } }
    }

    /// Starts a command; see [`started`].
    pub fn handle_cmd(&mut self, cmd: ConnCmd) -> (r: Started)
        requires
            needs_channel(cmd) ==> old(self).channels_possible(),
        ensures
            old(self).wf() ==> final(self).wf(),
            started(*old(self), *final(self), cmd, r),
    {
        match cmd {
            ConnCmd::Publish { topic, payload, stream } => self.handle_publish(
                topic.as_str(),
                buf::as_slice(&payload),
                stream,
            ),
            ConnCmd::Subscribe { pattern, qos } => self.handle_subscribe(pattern.as_str(), qos),
            ConnCmd::Unsubscribe { pattern } => self.handle_unsubscribe(pattern.as_str()),
            ConnCmd::OpenStream { spec } => self.handle_open_stream(spec),
            ConnCmd::RegisterRpcReply { cid, reply_topic, resp } => self.handle_register_rpc(
                cid,
                reply_topic,
                resp,
            ),
            ConnCmd::CancelRpc { cid } => {
                let _ = self.routing.pending_rpcs.remove(&cid);
                settled(Rest::Answer(Reply::Nothing))
            },
            ConnCmd::GroupJoin { topic, group, consumer, partitions } => self.handle_group_join(
                topic,
                group,
                consumer,
                partitions,
            ),
            ConnCmd::GroupLeave { topic, group, consumer } => self.handle_group_leave(
                topic.as_str(),
                group.as_str(),
                consumer.as_str(),
            ),
            ConnCmd::Close => {
                self.close_requested = true;
                settled(Rest::Exit)
            },
            ConnCmd::Migrate { bind_addr } => settled(Rest::Rebind(bind_addr)),
        }
    }
}

/// `Ok` or the given error.
pub open spec fn ok_or<T, E>(ok: bool, value: T, error: E) -> Result<T, E> {
    if ok {
        Ok(value)
    } else {
        Err(error)
    }
}

/// `post` and `reply` are what becomes of the state `pre` and of a started command, given
/// whether every frame was taken and whether output was flushed.
pub open spec fn finished(
    pre: TaskState,
    post: TaskState,
    rest: Rest,
    sent: bool,
    flushed: bool,
    reply: Reply,
) -> bool {
    let through = sent && flushed;
    match rest {
        Rest::Answer(answer) => post == pre && reply == answer,
        Rest::Publish => post == pre && reply == Reply::Publish(
            ok_or(sent, (), PublishError::NotConnected),
        ),
        Rest::Subscribe(subscription) => post == pre && reply == Reply::Subscribe(
            ok_or(through, subscription, SubscribeError::NotConnected),
        ),
        Rest::Unsubscribe => post == pre && reply == Reply::Unsubscribe(
            ok_or(sent, (), SubscribeError::NotConnected),
        ),
        Rest::OpenStream(handle) => post == pre && reply == Reply::OpenStream(
            ok_or(through, handle, StreamError::NotConnected),
        ),
        Rest::RegisterRpc { cid, new_topic, resp } => {
            &&& reply == Reply::RegisterRpc(
                ok_or(new_topic is None || sent, (), SubscribeError::NotConnected),
            )
            &&& if new_topic is Some && !sent {
                post == pre
            } else {
                &&& post == (TaskState { routing: post.routing, ..pre })
                &&& post.routing == (Routing {
                    pending_rpcs: post.routing.pending_rpcs,
                    rpc_reply_topics: post.routing.rpc_reply_topics,
                    ..pre.routing
                })
                &&& post.routing.pending_rpcs@ == pre.routing.pending_rpcs@.insert(cid, resp)
                &&& post.routing.rpc_reply_topics@ == match new_topic {
                    Some(t) if !holds_topic(pre.routing.rpc_reply_topics@, t@) =>
                        pre.routing.rpc_reply_topics@.push(t),
                    _ => pre.routing.rpc_reply_topics@,
                }
            }
        },
        Rest::GroupJoin { entry, subscription } => {
            &&& reply == Reply::GroupJoin(ok_or(through, subscription, GroupError::NotConnected))
            &&& if through {
                &&& post == (TaskState { group_subs: post.group_subs, ..pre })
                &&& post.group_subs@ == pre.group_subs@.push(entry)
            } else {
                post == pre
            }
        },
        Rest::GroupLeave { sid } => {
            &&& reply == Reply::GroupLeave(Ok(()))
            &&& post == (TaskState { routing: post.routing, ..pre })
            &&& post.routing == (Routing { streams: post.routing.streams, ..pre.routing })
            &&& post.routing.streams@ == pre.routing.streams@.remove(sid)
        },
        Rest::Rebind(_) | Rest::Exit => post == pre && reply == Reply::Nothing,
    }
}

impl TaskState {
    /// Finishes a command whose frames are out. `sent` says whether every frame was taken, and
    /// `flushed` whether output was flushed; see [`finished`].
    pub fn finish(&mut self, rest: Rest, sent: bool, flushed: bool) -> (reply: Reply)
        ensures
            finished(*old(self), *final(self), rest, sent, flushed, reply),
            old(self).wf() ==> final(self).wf(),
    {
        match rest {
            Rest::Answer(answer) => answer,
            Rest::Publish => Reply::Publish(
                if sent {
                    Ok(())
                } else {
                    Err(PublishError::NotConnected)
                },
            ),
            Rest::Subscribe(subscription) => Reply::Subscribe(
                if sent && flushed {
                    Ok(subscription)
                } else {
                    Err(SubscribeError::NotConnected)
                },
            ),
            Rest::Unsubscribe => Reply::Unsubscribe(
                if sent {
                    Ok(())
                } else {
                    Err(SubscribeError::NotConnected)
                },
            ),
            Rest::OpenStream(handle) => Reply::OpenStream(
                if sent && flushed {
                    Ok(handle)
                } else {
                    Err(StreamError::NotConnected)
                },
            ),
            Rest::RegisterRpc { cid, new_topic, resp } => {
                match new_topic {
                    Some(t) => {
                        if !sent {
                            return Reply::RegisterRpc(Err(SubscribeError::NotConnected));
                        }
                        if !self.routing.is_reply_topic(t.as_str()) {
                            self.routing.rpc_reply_topics.push(t);
                        }
                    },
                    None => {},
                }
                let _ = self.routing.pending_rpcs.insert(cid, resp);
                Reply::RegisterRpc(Ok(()))
            },
            Rest::GroupJoin { entry, subscription } => {
                if sent && flushed {
                    self.group_subs.push(entry);
                    Reply::GroupJoin(Ok(subscription))
                } else {
                    Reply::GroupJoin(Err(GroupError::NotConnected))
                }
            },
            Rest::GroupLeave { sid } => {
                let _ = self.routing.streams.remove(&sid);
                Reply::GroupLeave(Ok(()))
            },
            Rest::Rebind(_) | Rest::Exit => Reply::Nothing,
        }
    }

    /// Goes on with a migration once the socket has been bound anew, or not. A probe from the
    /// new address makes the server notice it at once; whether it gets through does not matter.
    pub fn rebound(&self, result: Result<(), ConnectError>) -> (r: Started)
        ensures
            r.rest == Rest::Answer(Reply::Migrate(result)),
            result is Ok ==> r.needs(
                seq![subscribe_frame(DEFAULT_STREAM, "_migration.probe"@, 0)],
                Flush::Always,
            ),
            result is Err ==> r.needs(Seq::empty(), Flush::Never),
    {
        if result.is_err() {
            return settled(Rest::Answer(Reply::Migrate(result)));
        }
        let frame = Planned::plain(
            DEFAULT_STREAM,
            MessageType::Subscribe,
            wire::encode_subscribe("_migration.probe", 0),
        );
        Started {
            batch: one_frame(frame),
            flush: Flush::Always,
            rest: Rest::Answer(Reply::Migrate(result)),
        }
    }

    /// Answers a requested close, once pending writes have drained and the connection is closed.
    pub fn answer_close(&mut self) -> (r: Reply)
        ensures
            r == if old(self).close_requested {
                Reply::Close(Ok(()))
            } else {
                Reply::Nothing
            },
            *final(self) == (TaskState { close_requested: false, ..*old(self) }),
    {
        if self.close_requested {
            self.close_requested = false;
            Reply::Close(Ok(()))
        } else {
            Reply::Nothing
        }
    }
}

/// The answer to a command that arrives while there is no connection.
pub open spec fn unconnected(cmd: ConnCmd, reply: Reply) -> bool {
    match cmd {
        ConnCmd::Publish { .. } => reply == Reply::Publish(Err(PublishError::NotConnected)),
        ConnCmd::Subscribe { .. } => reply == Reply::Subscribe(Err(SubscribeError::NotConnected)),
        ConnCmd::Unsubscribe { .. } => reply == Reply::Unsubscribe(
            Err(SubscribeError::NotConnected),
        ),
        ConnCmd::OpenStream { .. } => reply == Reply::OpenStream(Err(StreamError::NotConnected)),
        ConnCmd::RegisterRpcReply { .. } | ConnCmd::CancelRpc { .. } => reply == Reply::Nothing,
        ConnCmd::GroupJoin { .. } => reply == Reply::GroupJoin(Err(GroupError::NotConnected)),
        ConnCmd::GroupLeave { .. } => reply == Reply::GroupLeave(Err(GroupError::NotConnected)),
        ConnCmd::Close => reply matches Reply::Close(Err(ConnectError::Closed(why))) && why@
            == "close requested during reconnect backoff"@,
        ConnCmd::Migrate { .. } => reply matches Reply::Migrate(Err(ConnectError::Closed(why)))
            && why@ == "migrate requested during reconnect backoff"@,
    }
}

/// Answers a command that cannot be served because the connection is down, so that its caller
/// does not wait for good. A caller that waits for the reply to a remote call learns it from
/// its dropped `resp`.
pub fn fail_cmd_not_connected(cmd: ConnCmd) -> (r: Reply)
    ensures
        unconnected(cmd, r),
{
    match cmd {
        ConnCmd::Publish { .. } => Reply::Publish(Err(PublishError::NotConnected)),
        ConnCmd::Subscribe { .. } => Reply::Subscribe(Err(SubscribeError::NotConnected)),
        ConnCmd::Unsubscribe { .. } => Reply::Unsubscribe(Err(SubscribeError::NotConnected)),
        ConnCmd::OpenStream { .. } => Reply::OpenStream(Err(StreamError::NotConnected)),
        ConnCmd::RegisterRpcReply { .. } => Reply::Nothing,
        ConnCmd::CancelRpc { .. } => Reply::Nothing,
        ConnCmd::GroupJoin { .. } => Reply::GroupJoin(Err(GroupError::NotConnected)),
        ConnCmd::GroupLeave { .. } => Reply::GroupLeave(Err(GroupError::NotConnected)),
        ConnCmd::Close => Reply::Close(
            Err(ConnectError::Closed("close requested during reconnect backoff".to_owned())),
        ),
        ConnCmd::Migrate { .. } => Reply::Migrate(
            Err(ConnectError::Closed("migrate requested during reconnect backoff".to_owned())),
        ),
    }
}

/// A new stream gets an id that no stream has, 4 above the one before, and ids stay fresh.
pub proof fn law_new_streams_are_fresh(
    pre: TaskState,
    post: TaskState,
    policy: DeliveryPolicy,
    topic: Option<Seq<char>>,
)
    requires
        pre.ids_fresh(),
        !out_of_ids(pre),
        stream_added(pre, post, policy, topic),
    ensures
        !pre.routing.streams@.contains_key(pre.next_bidi),
        post.routing.streams@.contains_key(pre.next_bidi),
        post.next_bidi == pre.next_bidi + 4,
        post.ids_fresh(),
        forall|sid: u64| #[trigger]
            pre.routing.streams@.contains_key(sid) ==> post.routing.streams@.contains_key(sid)
                && post.routing.streams@[sid] == pre.routing.streams@[sid],
{
}

/// Every command keeps stream ids fresh, and leaves watermarks, acknowledgements and sequence
/// numbers alone.
pub proof fn law_commands_keep_ids_fresh(
    pre: TaskState,
    post: TaskState,
    cmd: ConnCmd,
    s: Started,
)
    requires
        started(pre, post, cmd, s),
    ensures
        pre.ids_fresh() ==> post.ids_fresh(),
        post.reliability == pre.reliability,
        post.seqs == pre.seqs,
{
    match cmd {
        ConnCmd::OpenStream { spec } => {
            if pre.ids_fresh() && !out_of_ids(pre) {
                law_new_streams_are_fresh(
                    pre,
                    post,
                    spec.policy,
                    match spec.topic {
                        Some(t) => Some(t@),
                        None => None,
                    },
                );
            }
        },
        ConnCmd::GroupJoin { topic, group, consumer, partitions } => {
            if pre.ids_fresh() && !out_of_ids(pre) {
                law_new_streams_are_fresh(
                    pre,
                    post,
                    DeliveryPolicy::ReliableOrdered,
                    Some(topic@),
                );
            }
        },
        _ => {},
    }
}

/// Finishing a command keeps stream ids fresh too.
pub proof fn law_finishing_keeps_ids_fresh(
    pre: TaskState,
    post: TaskState,
    rest: Rest,
    sent: bool,
    flushed: bool,
    reply: Reply,
)
    requires
        finished(pre, post, rest, sent, flushed, reply),
        pre.ids_fresh(),
    ensures
        post.ids_fresh(),
        post.reliability == pre.reliability,
        post.seqs == pre.seqs,
{
}

/// A subscriber hears what matches: a publish that comes in on the default channel after the
/// subscription was made, that matches its pattern, answers no call and is no duplicate, is the
/// first thing handed to the channel that the subscription receives from.
pub proof fn law_subscribers_hear_what_matches(
    pre: TaskState,
    mid: TaskState,
    post: TaskState,
    pattern: Seq<char>,
    qos: u8,
    s: Started,
    frame: Frame,
    topic: Seq<char>,
    payload: Seq<u8>,
)
    requires
        subscribe_started(pre, mid, pattern, qos, s),
        dispatched(mid, post, DEFAULT_STREAM, frame),
        frame.msg_type == MessageType::Publish,
        bytes_view(frame.payload) == text_field(topic) + payload,
        encode_utf8(topic).len() <= 0xFFFF,
        reliably(mid, frame) ==> mid.reliability@.is_new(DEFAULT_STREAM, frame.seq),
        mid.routing.answered_call(
            inbound(DEFAULT_STREAM, frame.seq, encode_utf8(topic), payload),
        ) is None,
        topic_matches(pattern, topic),
    ensures
        ({
            let tx = post.routing.subs@.last().tx;
            let msg = inbound(DEFAULT_STREAM, frame.seq, encode_utf8(topic), payload);
            &&& linked(tx, s.rest->Subscribe_0.rx)
            &&& offers(tx).len() == 1
            &&& offers(tx)[0].0 == msg
        }),
{
    let i = mid.routing.subs@.len() - 1;
    law_published_messages_arrive(mid, post, frame, topic, payload, i);
}

/// A dedicated stream's handle hears what arrives on the stream, whatever the topic: a publish
/// on it that answers no call and is no duplicate is the first thing handed to the channel that
/// the handle receives from.
pub proof fn law_stream_handles_hear_their_stream(
    pre: TaskState,
    mid: TaskState,
    post: TaskState,
    spec: StreamSpec,
    s: Started,
    frame: Frame,
    topic: Seq<u8>,
    payload: Seq<u8>,
)
    requires
        pre.ids_fresh(),
        !out_of_ids(pre),
        open_started(pre, mid, spec, s),
        dispatched(mid, post, pre.next_bidi, frame),
        frame.msg_type == MessageType::Publish,
        field_parts(bytes_view(frame.payload)) == Some((topic, payload)),
        reliably(mid, frame) ==> mid.reliability@.is_new(pre.next_bidi, frame.seq),
        mid.routing.answered_call(inbound(pre.next_bidi, frame.seq, topic, payload)) is None,
    ensures
        ({
            let tx = post.routing.streams@[pre.next_bidi].tx;
            &&& linked(tx, s.rest->OpenStream_0.rx)
            &&& offers(tx).len() == 1
            &&& offers(tx)[0].0 == inbound(pre.next_bidi, frame.seq, topic, payload)
        }),
{
    law_dedicated_streams_hear_every_topic(
        mid.routing,
        post.routing,
        inbound(pre.next_bidi, frame.seq, topic, payload),
    );
}

/// Unsubscribing undoes a subscription: with no other subscription to the pattern, the
/// subscriptions are what they were before.
pub proof fn law_unsubscribe_undoes_subscribe(
    pre: TaskState,
    mid: TaskState,
    post: TaskState,
    pattern: Seq<char>,
    qos: u8,
    s1: Started,
    s2: Started,
)
    requires
        forall|i: int|
            0 <= i < pre.routing.subs@.len() ==> (#[trigger] pre.routing.subs@[i]).pattern@
                != pattern,
        subscribe_started(pre, mid, pattern, qos, s1),
        unsubscribe_started(mid, post, pattern, s2),
    ensures
        post.routing.subs@ == pre.routing.subs@,
{
    let n = pre.routing.subs@.len() as int;
    assert forall|j: int| 0 <= j < n implies (#[trigger] mid.routing.subs@[j]).pattern@
        != pattern by {
        assert(mid.routing.subs@[j] == pre.routing.subs@[j]);
    }
    assert(first_sub(mid.routing.subs@, pattern, n));
    assert(mid.routing.subs@.remove(n) =~= pre.routing.subs@);
}

/// Unsubscribing from a pattern takes away one subscription at most, and none with another
/// pattern.
pub proof fn law_unsubscribe_removes_one(
    pre: TaskState,
    post: TaskState,
    pattern: Seq<char>,
    s: Started,
    i: int,
)
    requires
        unsubscribe_started(pre, post, pattern, s),
        first_sub(pre.routing.subs@, pattern, i),
    ensures
        post.routing.subs@.len() == pre.routing.subs@.len() - 1,
        forall|k: int| 0 <= k < i ==> #[trigger] post.routing.subs@[k] == pre.routing.subs@[k],
        forall|k: int|
            i <= k < post.routing.subs@.len() ==> #[trigger] post.routing.subs@[k]
                == pre.routing.subs@[k + 1],
{
}

/// Leaving a group undoes joining it: with no membership of that name before, the memberships
/// and the dedicated streams are what they were before.
pub proof fn law_leave_undoes_join(
    pre: TaskState,
    joining: TaskState,
    joined: TaskState,
    leaving: TaskState,
    post: TaskState,
    topic: String,
    group: String,
    consumer: String,
    partitions: u32,
    s1: Started,
    s2: Started,
    r1: Reply,
    r2: Reply,
    sent: bool,
    flushed: bool,
)
    requires
        pre.ids_fresh(),
        !out_of_ids(pre),
        forall|i: int|
            0 <= i < pre.group_subs@.len() ==> !is_membership(
                #[trigger] pre.group_subs@[i],
                topic@,
                group@,
                consumer@,
            ),
        join_started(pre, joining, topic, group, consumer, partitions, s1),
        finished(joining, joined, s1.rest, true, true, r1),
        leave_started(joined, leaving, topic@, group@, consumer@, s2),
        finished(leaving, post, s2.rest, sent, flushed, r2),
    ensures
        post.group_subs@ == pre.group_subs@,
        post.routing.streams@ == pre.routing.streams@,
        r1 is GroupJoin && r1->GroupJoin_0 is Ok,
        r2 == Reply::GroupLeave(Ok(())),
{
    let n = pre.group_subs@.len() as int;
    assert forall|j: int| 0 <= j < n implies !is_membership(
        #[trigger] joined.group_subs@[j],
        topic@,
        group@,
        consumer@,
    ) by {
        assert(joined.group_subs@[j] == pre.group_subs@[j]);
    }
    assert(first_membership(joined.group_subs@, topic@, group@, consumer@, n));
    assert(joined.group_subs@.update(n, joined.group_subs@.last()).drop_last()
        =~= pre.group_subs@);
    assert(!pre.routing.streams@.contains_key(pre.next_bidi));
    assert(post.routing.streams@ =~= pre.routing.streams@);
}

/// Cancelling a remote call frees its slot: afterwards no reply is taken for it.
pub proof fn law_cancel_frees_the_slot(
    pre: TaskState,
    post: TaskState,
    cid: u128,
    s: Started,
    msg: MessageModel,
)
    requires
        started(pre, post, ConnCmd::CancelRpc { cid }, s),
    ensures
        !post.routing.pending_rpcs@.contains_key(cid),
        post.routing.answered_call(msg) != Some(cid),
{
}

/// A registered call is answered: once a call has been registered, with its reply topic subscribed
/// to, the next publish on that topic that opens with the call's id, on whatever stream, is handed
/// to the one who waits for it. The message comes without the id, with its topic, number and
/// stream, and the call is no longer pending. A topic takes at most 65535 bytes.
pub proof fn law_registered_calls_are_answered(
    pre: TaskState,
    mid: TaskState,
    post: TaskState,
    later: TaskState,
    cid: u128,
    reply_topic: String,
    resp: oneshot::Sender<Message>,
    s: Started,
    flushed: bool,
    reply: Reply,
    sid: u64,
    frame: Frame,
    body: Seq<u8>,
)
    requires
        started(pre, mid, ConnCmd::RegisterRpcReply { cid, reply_topic, resp }, s),
        finished(mid, post, s.rest, true, flushed, reply),
        dispatched(post, later, sid, frame),
        frame.msg_type == MessageType::Publish,
        bytes_view(frame.payload) == text_field(reply_topic@) + wire::rpc_payload(cid, body),
        encode_utf8(reply_topic@).len() <= 0xFFFF,
        reliably(post, frame) ==> post.reliability@.is_new(sid, frame.seq),
    ensures
        answered(resp).0 == inbound(sid, frame.seq, encode_utf8(reply_topic@), body),
        later.routing.pending_rpcs@ == post.routing.pending_rpcs@.remove(cid),
        later.routing.subs == post.routing.subs,
        later.routing.streams == post.routing.streams,
{
    let payload = wire::rpc_payload(cid, body);
    let msg = inbound(sid, frame.seq, encode_utf8(reply_topic@), payload);
    let topics = post.routing.rpc_reply_topics@;
    law_text_survives_encoding(reply_topic@);
    if !holds_topic(pre.routing.rpc_reply_topics@, reply_topic@) {
        assert(topics[topics.len() - 1]@ == reply_topic@);
    }
    assert(holds_topic(topics, reply_topic@));
    wire::law_publish_roundtrip(reply_topic@, payload);
    law_reply_matches_its_call(post.routing, cid, body, msg);
}

/// A reply topic that could not be subscribed to registers nothing, and the caller is told: no
/// reply is taken for the call.
pub proof fn law_unsubscribed_calls_are_not_registered(
    pre: TaskState,
    mid: TaskState,
    post: TaskState,
    cid: u128,
    reply_topic: String,
    resp: oneshot::Sender<Message>,
    s: Started,
    flushed: bool,
    reply: Reply,
)
    requires
        started(pre, mid, ConnCmd::RegisterRpcReply { cid, reply_topic, resp }, s),
        !holds_topic(pre.routing.rpc_reply_topics@, reply_topic@),
        finished(mid, post, s.rest, false, flushed, reply),
    ensures
        post == pre,
        reply == Reply::RegisterRpc(Err(SubscribeError::NotConnected)),
{
}

/// Calls share the subscription to their reply topic: once a call has registered it, later
/// calls on the topic need no frames.
pub proof fn law_reply_topics_are_subscribed_once(
    pre: TaskState,
    post: TaskState,
    cid: u128,
    topic: String,
    resp: oneshot::Sender<Message>,
    flushed: bool,
    reply: Reply,
    later: Started,
    later_cid: u128,
    later_topic: String,
    later_resp: oneshot::Sender<Message>,
)
    requires
        finished(
            pre,
            post,
            Rest::RegisterRpc { cid, new_topic: Some(topic), resp },
            true,
            flushed,
            reply,
        ),
        later_topic@ == topic@,
        register_started(post, post, later_cid, later_topic, later_resp, later),
    ensures
        later.needs(Seq::empty(), Flush::Never),
{
    let topics = post.routing.rpc_reply_topics@;
    if !holds_topic(pre.routing.rpc_reply_topics@, topic@) {
        assert(topics[topics.len() - 1]@ == topic@);
    }
    assert(holds_topic(topics, topic@));
}

} // verus!
