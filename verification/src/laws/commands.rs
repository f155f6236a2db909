//! Commands: what each sends, what it changes, and how it is answered.
use bytes::Bytes;
use tokio::sync::oneshot;
use vstd::prelude::*;
use vstd::utf8::encode_utf8;

use crate::buf::bytes_view;
use crate::channel::{depth, linked, offers, untouched};
use crate::command::{fail_cmd_not_connected, ConnCmd, Flush, Reply, Rest, Started, StreamSel};
use crate::error::{ConnectError, GroupError, PublishError, StreamError, SubscribeError};
use crate::frame::{BodyModel, MessageType, PlannedModel};
use crate::laws::payloads::{group_ends, lemma_group_names, lemma_text_field, lemma_text_within, text_at};
use crate::message::Message;
use crate::routing::Routing;
use crate::stream::{DeliveryPolicy, StreamSpec};
use crate::task::{GroupSubEntry, TaskState};
use crate::wire::{be, from_be, law_big_endian_roundtrip, lemma_be_len, lemma_capacities, text_field};

verus! {

broadcast use {
    vstd::std_specs::btree::group_btree_axioms,
    vstd::std_specs::hash::group_hash_axioms,
};

/// The bytes that a frame carries.
pub open spec fn bytes_of(f: PlannedModel) -> Seq<u8> {
    f.body->Raw_0
}

/// A frame of this kind on this stream that carries bytes.
pub open spec fn carries(f: PlannedModel, sid: u64, kind: MessageType, ack_req: bool) -> bool {
    f.stream_id == sid && f.msg_type == kind && f.ack_req == ack_req && f.body is Raw
}

/// The frame publishes the whole payload to the topic.
pub open spec fn publishing(
    f: PlannedModel,
    sid: u64,
    ack_req: bool,
    topic: Seq<char>,
    payload: Seq<u8>,
) -> bool {
    let n = encode_utf8(topic).len() as int;
    &&& carries(f, sid, MessageType::Publish, ack_req)
    &&& bytes_of(f).len() == 2 + n + payload.len()
    &&& text_at(bytes_of(f), 0, topic)
    &&& bytes_of(f).skip(2 + n) == payload
}

/// The frame subscribes to the pattern, with this quality of service in its last byte.
pub open spec fn subscribing(f: PlannedModel, sid: u64, pattern: Seq<char>, qos: u8) -> bool {
    &&& carries(f, sid, MessageType::Subscribe, false)
    &&& bytes_of(f).len() == 2 + encode_utf8(pattern).len() + 1
    &&& text_at(bytes_of(f), 0, pattern)
    &&& bytes_of(f).last() == qos
}

/// The frame takes back a subscription to the pattern.
pub open spec fn unsubscribing(f: PlannedModel, sid: u64, pattern: Seq<char>) -> bool {
    &&& carries(f, sid, MessageType::Unsubscribe, false)
    &&& bytes_of(f).len() == 2 + encode_utf8(pattern).len()
    &&& text_at(bytes_of(f), 0, pattern)
}

/// The frame declares a stream's policy.
pub open spec fn declaring(f: PlannedModel, sid: u64, policy: DeliveryPolicy) -> bool {
    &&& f.stream_id == sid
    &&& f.msg_type == MessageType::StreamOpen
    &&& !f.ack_req
    &&& f.body == BodyModel::Policy(policy)
}

/// The frame joins a consumer to a group.
pub open spec fn joining(
    f: PlannedModel,
    sid: u64,
    topic: Seq<char>,
    group: Seq<char>,
    consumer: Seq<char>,
    partitions: u32,
) -> bool {
    let (a, b, c) = group_ends(topic, group, consumer);
    &&& carries(f, sid, MessageType::ConsumerGroupJoin, false)
    &&& bytes_of(f).len() == c + 4
    &&& text_at(bytes_of(f), 0, topic)
    &&& text_at(bytes_of(f), a, group)
    &&& text_at(bytes_of(f), b, consumer)
    &&& from_be(bytes_of(f).skip(c)) == partitions
}

/// The frame takes a consumer out of a group.
pub open spec fn leaving(
    f: PlannedModel,
    sid: u64,
    topic: Seq<char>,
    group: Seq<char>,
    consumer: Seq<char>,
) -> bool {
    let (a, b, c) = group_ends(topic, group, consumer);
    &&& carries(f, sid, MessageType::ConsumerGroupLeave, false)
    &&& bytes_of(f).len() == c
    &&& text_at(bytes_of(f), 0, topic)
    &&& text_at(bytes_of(f), a, group)
    &&& text_at(bytes_of(f), b, consumer)
}

/// The command sends exactly these frames, none of which has been sent yet.
pub open spec fn sends(s: Started, frames: Seq<PlannedModel>) -> bool {
    s.batch@.left == frames && !s.batch@.failed
}

/// Publish frames hold the topic and the whole payload.
pub(crate) proof fn lemma_publishing(
    reliable: bool,
    sid: u64,
    topic: Seq<char>,
    payload: Seq<u8>,
)
    ensures
        publishing(
            crate::command::publish_frame(reliable, sid, topic, payload),
            sid,
            reliable,
            topic,
            payload,
        ),
{
    let p = text_field(topic) + payload;
    lemma_text_field(topic);
    lemma_text_within(Seq::empty(), topic, payload);
    assert(p =~= Seq::empty() + text_field(topic) + payload);
    assert(p.skip(2 + encode_utf8(topic).len() as int) =~= payload);
}

/// Subscribe frames hold the pattern and the quality of service.
pub(crate) proof fn lemma_subscribing(sid: u64, pattern: Seq<char>, qos: u8)
    ensures
        subscribing(crate::command::subscribe_frame(sid, pattern, qos), sid, pattern, qos),
{
    let p = text_field(pattern).push(qos);
    lemma_text_field(pattern);
    lemma_text_within(Seq::empty(), pattern, seq![qos]);
    assert(p =~= Seq::empty() + text_field(pattern) + seq![qos]);
}

/// Join frames hold the names and the partition count.
pub(crate) proof fn lemma_joining(
    sid: u64,
    topic: Seq<char>,
    group: Seq<char>,
    consumer: Seq<char>,
    partitions: u32,
)
    ensures
        joining(
            crate::command::join_frame(sid, topic, group, consumer, partitions),
            sid,
            topic,
            group,
            consumer,
            partitions,
        ),
{
    lemma_capacities();
    lemma_be_len(partitions as nat, 4);
    law_big_endian_roundtrip(partitions as nat, 4);
    lemma_group_names(topic, group, consumer, be(partitions as nat, 4));
}

/// How a publish starts: one too large is refused with its size; every other one leaves as a
/// single frame, on the stream that was asked for, with the topic and the whole payload.
pub open spec fn publish_begun(
    st: TaskState,
    topic: Seq<char>,
    payload: Seq<u8>,
    stream: StreamSel,
    s: Started,
) -> bool {
    if payload.len() > st.max_message_size {
        &&& sends(s, Seq::empty())
        &&& s.rest matches Rest::Answer(Reply::Publish(Err(PublishError::TooLarge(n))))
        &&& payload.len() <= usize::MAX ==> n == payload.len()
    } else {
        let sid = match stream {
            StreamSel::Default => 0u64,
            StreamSel::Dedicated(id) => id,
        };
        &&& s.batch@.left.len() == 1
        &&& !s.batch@.failed
        &&& publishing(s.batch@.left[0], sid, st.reliability.enabled, topic, payload)
        &&& s.rest == Rest::Publish
    }
}

/// Whatever the stream, a publish carries its topic and all of its payload, and changes nothing
/// of the task's state.
pub proof fn law_publishes_leave_whole(
    st: &TaskState,
    topic: &str,
    payload: &[u8],
    stream: StreamSel,
    s: Started,
    task: &mut TaskState,
    name: String,
    body: Bytes,
    served: Started,
)
    requires
        call_ensures(TaskState::handle_publish, (st, topic, payload, stream), s),
        call_ensures(
            TaskState::handle_cmd,
            (task, ConnCmd::Publish { topic: name, payload: body, stream }),
            served,
        ),
    ensures
        publish_begun(*st, topic@, payload@, stream, s),
        publish_begun(*old(task), name@, bytes_view(body), stream, served),
        *final(task) == *old(task),
{
    let sid = match stream {
        StreamSel::Default => 0u64,
        StreamSel::Dedicated(id) => id,
    };
    lemma_publishing(st.reliability.enabled, sid, topic@, payload@);
    lemma_publishing(old(task).reliability.enabled, sid, name@, bytes_view(body));
}

/// How a subscription starts: it is remembered as the newest, with its pattern, its quality of
/// service and an unused channel of the configured depth, and nothing else changes; one frame on
/// the default channel says so.
pub open spec fn subscribe_begun(
    pre: TaskState,
    post: TaskState,
    pattern: Seq<char>,
    qos: u8,
    s: Started,
) -> bool {
    let n = pre.routing.subs@.len() as int;
    let e = post.routing.subs@[n];
    &&& post.routing.subs@.len() == n + 1
    &&& post.routing.subs@.take(n) == pre.routing.subs@
    &&& e.pattern@ == pattern
    &&& e.qos == qos
    &&& offers(e.tx).len() == 0
    &&& depth(e.tx) == pre.subscriber_buffer
    &&& post == (TaskState {
        routing: Routing { subs: post.routing.subs, ..pre.routing },
        ..pre
    })
    &&& s.rest matches Rest::Subscribe(handed)
    &&& linked(e.tx, handed.rx)
    &&& untouched(handed.rx)
    &&& s.batch@.left.len() == 1
    &&& !s.batch@.failed
    &&& subscribing(s.batch@.left[0], 0, pattern, qos)
    &&& s.flush == Flush::IfSent
}

/// A subscription is remembered and announced.
pub proof fn law_subscriptions_are_announced(
    st: &mut TaskState,
    pattern: &str,
    qos: u8,
    s: Started,
    task: &mut TaskState,
    name: String,
    served: Started,
)
    requires
        call_ensures(TaskState::handle_subscribe, (st, pattern, qos), s),
        call_ensures(
            TaskState::handle_cmd,
            (task, ConnCmd::Subscribe { pattern: name, qos }),
            served,
        ),
    ensures
        subscribe_begun(*old(st), *final(st), pattern@, qos, s),
        subscribe_begun(*old(task), *final(task), name@, qos, served),
{
    lemma_subscribing(0, pattern@, qos);
    lemma_subscribing(0, name@, qos);
    assert(final(st).routing.subs@.take(old(st).routing.subs@.len() as int)
        =~= old(st).routing.subs@);
    assert(final(task).routing.subs@.take(old(task).routing.subs@.len() as int)
        =~= old(task).routing.subs@);
}

/// How an unsubscribe starts: the oldest subscription with that very pattern is gone, if there is
/// one, and nothing else changes; one frame on the default channel says so in any case.
pub open spec fn unsubscribe_begun(
    pre: TaskState,
    post: TaskState,
    pattern: Seq<char>,
    s: Started,
) -> bool {
    let before = pre.routing.subs@;
    let after = post.routing.subs@;
    &&& forall|k: int|
        0 <= k < before.len() && (#[trigger] before[k]).pattern@ == pattern && (forall|j: int|
            0 <= j < k ==> (#[trigger] before[j]).pattern@ != pattern) ==> after == before.take(k)
            + before.skip(k + 1)
    &&& (forall|j: int| 0 <= j < before.len() ==> (#[trigger] before[j]).pattern@ != pattern)
        ==> after == before
    &&& post == (TaskState {
        routing: Routing { subs: post.routing.subs, ..pre.routing },
        ..pre
    })
    &&& s.rest == Rest::Unsubscribe
    &&& s.batch@.left.len() == 1
    &&& !s.batch@.failed
    &&& unsubscribing(s.batch@.left[0], 0, pattern)
}

/// What `unsubscribe_started` says, in other words.
proof fn lemma_unsubscribe(pre: TaskState, post: TaskState, pattern: Seq<char>, s: Started)
    requires
        crate::command::unsubscribe_started(pre, post, pattern, s),
    ensures
        unsubscribe_begun(pre, post, pattern, s),
{
    let before = pre.routing.subs@;
    let after = post.routing.subs@;
    lemma_text_field(pattern);
    assert forall|k: int|
        0 <= k < before.len() && (#[trigger] before[k]).pattern@ == pattern && (forall|j: int|
            0 <= j < k ==> (#[trigger] before[j]).pattern@ != pattern) implies after
        == before.take(k) + before.skip(k + 1) by {
        assert(crate::command::first_sub(before, pattern, k));
        assert(before.remove(k) =~= before.take(k) + before.skip(k + 1));
    }
}

/// Unsubscribing takes one subscription back, and the server hears of it.
pub proof fn law_unsubscribes_are_announced(
    st: &mut TaskState,
    pattern: &str,
    s: Started,
    task: &mut TaskState,
    name: String,
    served: Started,
)
    requires
        call_ensures(TaskState::handle_unsubscribe, (st, pattern), s),
        call_ensures(TaskState::handle_cmd, (task, ConnCmd::Unsubscribe { pattern: name }), served),
    ensures
        unsubscribe_begun(*old(st), *final(st), pattern@, s),
        unsubscribe_begun(*old(task), *final(task), name@, served),
{
    lemma_unsubscribe(*old(st), *final(st), pattern@, s);
    lemma_unsubscribe(*old(task), *final(task), name@, served);
}

/// A new stream stands under the next id, with this policy and topic and an unused channel of
/// the configured depth; the next id lies four further, and nothing else changes.
pub open spec fn stream_registered(
    pre: TaskState,
    post: TaskState,
    policy: DeliveryPolicy,
    topic: Option<Seq<char>>,
) -> bool {
    let sid = pre.next_bidi;
    let e = post.routing.streams@[sid];
    &&& post.routing.streams@ == pre.routing.streams@.insert(sid, e)
    &&& e.policy == policy
    &&& topic is Some <==> e.topic is Some
    &&& topic is Some ==> (e.topic->0)@ == topic->0
    &&& offers(e.tx).len() == 0
    &&& depth(e.tx) == pre.subscriber_buffer
    &&& post.next_bidi == pre.next_bidi + 4
    &&& post == (TaskState {
        routing: Routing { streams: post.routing.streams, ..pre.routing },
        next_bidi: post.next_bidi,
        ..pre
    })
}

/// How opening a stream starts: with an id left, the stream is registered under it, and two
/// frames on it declare the policy and then subscribe to the topic, or to everything. Without an
/// id nothing happens but the answer.
pub open spec fn open_begun(pre: TaskState, post: TaskState, spec: StreamSpec, s: Started) -> bool {
    if pre.next_bidi > 0xFFFF_FFFF_FFFF_FFFF - 4 {
        &&& post == pre
        &&& sends(s, Seq::empty())
        &&& s.rest == Rest::Answer(Reply::OpenStream(Err(StreamError::NoCapacity)))
    } else {
        let sid = pre.next_bidi;
        &&& stream_registered(
            pre,
            post,
            spec.policy,
            match spec.topic {
                Some(t) => Some(t@),
                None => None,
            },
        )
        &&& s.rest matches Rest::OpenStream(handle)
        &&& handle.stream_id == sid
        &&& linked(post.routing.streams@[sid].tx, handle.rx)
        &&& untouched(handle.rx)
        &&& s.batch@.left.len() == 2
        &&& !s.batch@.failed
        &&& declaring(s.batch@.left[0], sid, spec.policy)
        &&& subscribing(
            s.batch@.left[1],
            sid,
            match spec.topic {
                Some(t) => t@,
                None => seq!['*'],
            },
            0,
        )
        &&& s.flush == Flush::IfSent
    }
}

/// A star is one character.
pub(crate) proof fn lemma_star()
    ensures
        "*"@ == seq!['*'],
{
    reveal_strlit("*");
    assert("*"@ =~= seq!['*']);
}

/// A dedicated stream is registered, declared and subscribed.
pub proof fn law_streams_are_opened(
    st: &mut TaskState,
    spec: StreamSpec,
    s: Started,
    task: &mut TaskState,
    served: Started,
)
    requires
        call_ensures(TaskState::handle_open_stream, (st, spec), s),
        call_ensures(TaskState::handle_cmd, (task, ConnCmd::OpenStream { spec }), served),
    ensures
        open_begun(*old(st), *final(st), spec, s),
        open_begun(*old(task), *final(task), spec, served),
{
    let pattern = match spec.topic {
        Some(t) => t@,
        None => seq!['*'],
    };
    lemma_star();
    lemma_subscribing(old(st).next_bidi, pattern, 0);
    lemma_subscribing(old(task).next_bidi, pattern, 0);
}

/// How joining a group starts: with an id left, an ordered stream of its own is registered for the
/// membership, and two frames on it declare the policy and join. Without an id nothing happens but
/// the answer.
pub open spec fn join_begun(
    pre: TaskState,
    post: TaskState,
    topic: Seq<char>,
    group: Seq<char>,
    consumer: Seq<char>,
    partitions: u32,
    s: Started,
) -> bool {
    if pre.next_bidi > 0xFFFF_FFFF_FFFF_FFFF - 4 {
        &&& post == pre
        &&& sends(s, Seq::empty())
        &&& s.rest matches Rest::Answer(Reply::GroupJoin(Err(GroupError::Rejected(_))))
    } else {
        let sid = pre.next_bidi;
        &&& stream_registered(pre, post, DeliveryPolicy::ReliableOrdered, Some(topic))
        &&& s.rest matches Rest::GroupJoin { entry, subscription }
        &&& entry.sid == sid
        &&& entry.topic@ == topic
        &&& entry.group@ == group
        &&& entry.consumer@ == consumer
        &&& entry.partitions == partitions
        &&& linked(post.routing.streams@[sid].tx, subscription.rx)
        &&& untouched(subscription.rx)
        &&& s.batch@.left.len() == 2
        &&& !s.batch@.failed
        &&& declaring(s.batch@.left[0], sid, DeliveryPolicy::ReliableOrdered)
        &&& joining(s.batch@.left[1], sid, topic, group, consumer, partitions)
        &&& s.flush == Flush::IfSent
    }
}

/// What `join_started` says, in other words.
proof fn lemma_join(
    pre: TaskState,
    post: TaskState,
    topic: String,
    group: String,
    consumer: String,
    partitions: u32,
    s: Started,
)
    requires
        crate::command::join_started(pre, post, topic, group, consumer, partitions, s),
    ensures
        join_begun(pre, post, topic@, group@, consumer@, partitions, s),
{
    let sid = pre.next_bidi;
    if !crate::command::out_of_ids(pre) {
        assert(s.batch@.left[0] == crate::frame::opening(sid, DeliveryPolicy::ReliableOrdered));
        assert(s.batch@.left[1] == crate::command::join_frame(
            sid,
            topic@,
            group@,
            consumer@,
            partitions,
        ));
        assert(joining(s.batch@.left[1], sid, topic@, group@, consumer@, partitions)) by {
            lemma_joining(sid, topic@, group@, consumer@, partitions);
        }
        assert(stream_registered(pre, post, DeliveryPolicy::ReliableOrdered, Some(topic@)));
    }
}

/// A membership gets a stream of its own, and the join leaves on it.
pub proof fn law_joins_are_announced(
    st: &mut TaskState,
    topic: String,
    group: String,
    consumer: String,
    partitions: u32,
    s: Started,
    task: &mut TaskState,
    served: Started,
)
    requires
        call_ensures(TaskState::handle_group_join, (st, topic, group, consumer, partitions), s),
        call_ensures(
            TaskState::handle_cmd,
            (task, ConnCmd::GroupJoin { topic, group, consumer, partitions }),
            served,
        ),
    ensures
        join_begun(*old(st), *final(st), topic@, group@, consumer@, partitions, s),
        join_begun(*old(task), *final(task), topic@, group@, consumer@, partitions, served),
{
    lemma_join(*old(st), *final(st), topic, group, consumer, partitions, s);
    lemma_join(*old(task), *final(task), topic, group, consumer, partitions, served);
}

/// Whether a membership is that of `consumer` in `group` on `topic`.
pub open spec fn named(
    e: GroupSubEntry,
    topic: Seq<char>,
    group: Seq<char>,
    consumer: Seq<char>,
) -> bool {
    e.topic@ == topic && e.group@ == group && e.consumer@ == consumer
}

/// How leaving a group starts: the oldest membership of that name is forgotten, all others stay,
/// and one frame on its own stream says so. A membership that does not exist counts as left.
pub open spec fn leave_begun(
    pre: TaskState,
    post: TaskState,
    topic: Seq<char>,
    group: Seq<char>,
    consumer: Seq<char>,
    s: Started,
) -> bool {
    let before = pre.group_subs@;
    let after = post.group_subs@;
    &&& post == (TaskState { group_subs: post.group_subs, ..pre })
    &&& forall|k: int|
        0 <= k < before.len() && named(#[trigger] before[k], topic, group, consumer) && (forall|
            j: int,
        |
            0 <= j < k ==> !named(#[trigger] before[j], topic, group, consumer)) ==> {
            &&& after.to_multiset() == before.to_multiset().remove(before[k])
            &&& s.rest == (Rest::GroupLeave { sid: before[k].sid })
            &&& s.batch@.left.len() == 1
            &&& !s.batch@.failed
            &&& leaving(s.batch@.left[0], before[k].sid, topic, group, consumer)
            &&& s.flush == Flush::Always
        }
    &&& (forall|j: int|
        0 <= j < before.len() ==> !named(#[trigger] before[j], topic, group, consumer)) ==> {
        &&& after == before
        &&& sends(s, Seq::empty())
        &&& s.rest == Rest::Answer(Reply::GroupLeave(Ok(())))
    }
}

/// What `leave_started` says, in other words.
proof fn lemma_leave(
    pre: TaskState,
    post: TaskState,
    topic: Seq<char>,
    group: Seq<char>,
    consumer: Seq<char>,
    s: Started,
)
    requires
        crate::command::leave_started(pre, post, topic, group, consumer, s),
    ensures
        leave_begun(pre, post, topic, group, consumer, s),
{
    broadcast use vstd::seq_lib::group_to_multiset_ensures;

    let before = pre.group_subs@;
    let after = post.group_subs@;
    assert forall|k: int|
        0 <= k < before.len() && named(#[trigger] before[k], topic, group, consumer) && (forall|
            j: int,
        |
            0 <= j < k ==> !named(#[trigger] before[j], topic, group, consumer)) implies {
        &&& after.to_multiset() == before.to_multiset().remove(before[k])
        &&& s.rest == (Rest::GroupLeave { sid: before[k].sid })
        &&& s.batch@.left.len() == 1
        &&& !s.batch@.failed
        &&& leaving(s.batch@.left[0], before[k].sid, topic, group, consumer)
        &&& s.flush == Flush::Always
    } by {
        assert forall|j: int| 0 <= j < k implies !crate::command::is_membership(
            #[trigger] before[j],
            topic,
            group,
            consumer,
        ) by {
            assert(!named(before[j], topic, group, consumer));
        }
        assert(crate::command::first_membership(before, topic, group, consumer, k));
        lemma_group_names(topic, group, consumer, Seq::empty());
        let p = crate::wire::group_prefix(topic, group, consumer);
        assert(p =~= text_field(topic) + text_field(group) + text_field(consumer)
            + Seq::<u8>::empty());
        let n = before.len() - 1;
        let last = before[n];
        assert(before =~= before.drop_last().push(last));
        if k < n {
            let front = before.drop_last();
            assert(after =~= front.update(k, last));
            assert(before.remove(k) =~= front.remove(k).push(last));
            assert(after =~= front.remove(k).insert(k, last));
        } else {
            assert(after =~= before.remove(k));
        }
    }
    if forall|j: int|
        0 <= j < before.len() ==> !named(#[trigger] before[j], topic, group, consumer) {
        assert forall|j: int| 0 <= j < before.len() implies !crate::command::is_membership(
            #[trigger] before[j],
            topic,
            group,
            consumer,
        ) by {
            assert(!named(before[j], topic, group, consumer));
        }
    }
}

/// Leaving a group is announced on the membership's own stream.
pub proof fn law_leaves_are_announced(
    st: &mut TaskState,
    topic: &str,
    group: &str,
    consumer: &str,
    s: Started,
    task: &mut TaskState,
    t: String,
    g: String,
    c: String,
    served: Started,
)
    requires
        call_ensures(TaskState::handle_group_leave, (st, topic, group, consumer), s),
        call_ensures(
            TaskState::handle_cmd,
            (task, ConnCmd::GroupLeave { topic: t, group: g, consumer: c }),
            served,
        ),
    ensures
        leave_begun(*old(st), *final(st), topic@, group@, consumer@, s),
        leave_begun(*old(task), *final(task), t@, g@, c@, served),
{
    lemma_leave(*old(st), *final(st), topic@, group@, consumer@, s);
    lemma_leave(*old(task), *final(task), t@, g@, c@, served);
}

/// How registering a remote call starts: a reply topic that is not subscribed to yet is, on the
/// default channel; one that is needs no frame. The call itself is remembered when the command
/// finishes.
pub open spec fn register_begun(
    st: TaskState,
    cid: u128,
    reply_topic: Seq<char>,
    resp: oneshot::Sender<Message>,
    s: Started,
) -> bool {
    let topics = st.routing.rpc_reply_topics@;
    &&& s.rest matches Rest::RegisterRpc { cid: c, new_topic, resp: r }
    &&& c == cid
    &&& r == resp
    &&& if exists|i: int| 0 <= i < topics.len() && (#[trigger] topics[i])@ == reply_topic {
        &&& new_topic is None
        &&& sends(s, Seq::empty())
    } else {
        &&& new_topic is Some
        &&& (new_topic->0)@ == reply_topic
        &&& s.batch@.left.len() == 1
        &&& !s.batch@.failed
        &&& subscribing(s.batch@.left[0], 0, reply_topic, 0)
        &&& s.flush == Flush::IfSent
    }
}

/// A remote call's reply topic is subscribed to once.
pub proof fn law_calls_are_registered(
    st: &TaskState,
    cid: u128,
    reply_topic: String,
    resp: oneshot::Sender<Message>,
    s: Started,
    task: &mut TaskState,
    served: Started,
)
    requires
        call_ensures(TaskState::handle_register_rpc, (st, cid, reply_topic, resp), s),
        call_ensures(
            TaskState::handle_cmd,
            (task, ConnCmd::RegisterRpcReply { cid, reply_topic, resp }),
            served,
        ),
    ensures
        register_begun(*st, cid, reply_topic@, resp, s),
        register_begun(*old(task), cid, reply_topic@, resp, served),
        *final(task) == *old(task),
{
    lemma_subscribing(0, reply_topic@, 0);
}

/// Cancelling a call forgets that call and no other; closing and migrating wait for what the
/// transport does, and change no registration.
pub proof fn law_other_commands(
    cancelled: &mut TaskState,
    cid: u128,
    s1: Started,
    closed: &mut TaskState,
    s2: Started,
    moved: &mut TaskState,
    bind_addr: String,
    s3: Started,
    other: u128,
)
    requires
        call_ensures(TaskState::handle_cmd, (cancelled, ConnCmd::CancelRpc { cid }), s1),
        call_ensures(TaskState::handle_cmd, (closed, ConnCmd::Close), s2),
        call_ensures(TaskState::handle_cmd, (moved, ConnCmd::Migrate { bind_addr }), s3),
        other != cid,
    ensures
        sends(s1, Seq::empty()),
        sends(s2, Seq::empty()),
        sends(s3, Seq::empty()),
        s2.rest == Rest::Exit,
        s3.rest == Rest::Rebind(bind_addr),
        !final(cancelled).routing.pending_rpcs@.contains_key(cid),
        final(cancelled).routing.pending_rpcs@.contains_key(other) == old(cancelled).routing.pending_rpcs@.contains_key(other),
        final(cancelled).routing.pending_rpcs@.contains_key(other) ==> final(cancelled).routing.pending_rpcs@[other] == old(cancelled).routing.pending_rpcs@[other],
        final(cancelled).routing.subs == old(cancelled).routing.subs,
        final(cancelled).routing.streams == old(cancelled).routing.streams,
        final(cancelled).group_subs == old(cancelled).group_subs,
        *final(closed) == (TaskState { close_requested: true, ..*old(closed) }),
        *final(moved) == *old(moved),
{
}

/// A command succeeds only where all of its frames were taken, and where it waits for output to be
/// flushed, only where that worked. Success hands out what was prepared.
pub proof fn law_success_needs_every_frame(
    st: &mut TaskState,
    rest: Rest,
    sent: bool,
    flushed: bool,
    reply: Reply,
)
    requires
        call_ensures(TaskState::finish, (st, rest, sent, flushed), reply),
    ensures
        rest matches Rest::Answer(answer) ==> reply == answer && *final(st) == *old(st),
        rest is Rebind || rest is Exit ==> reply is Nothing && *final(st) == *old(st),
        rest is Publish ==> {
            &&& *final(st) == *old(st)
            &&& reply matches Reply::Publish(r)
            &&& sent ==> r is Ok
            &&& !sent ==> r == Err::<(), PublishError>(PublishError::NotConnected)
        },
        rest matches Rest::Subscribe(sub) ==> {
            &&& *final(st) == *old(st)
            &&& reply matches Reply::Subscribe(r)
            &&& if sent && flushed {
                r == Ok::<_, SubscribeError>(sub)
            } else {
                r matches Err(SubscribeError::NotConnected)
            }
        },
        rest is Unsubscribe ==> {
            &&& *final(st) == *old(st)
            &&& reply matches Reply::Unsubscribe(r)
            &&& sent ==> r is Ok
            &&& !sent ==> r == Err::<(), SubscribeError>(SubscribeError::NotConnected)
        },
        rest matches Rest::OpenStream(handle) ==> {
            &&& *final(st) == *old(st)
            &&& reply matches Reply::OpenStream(r)
            &&& if sent && flushed {
                r == Ok::<_, StreamError>(handle)
            } else {
                r matches Err(StreamError::NotConnected)
            }
        },
        rest matches Rest::GroupJoin { entry, subscription } ==> {
            &&& reply matches Reply::GroupJoin(r)
            &&& *final(st) == (TaskState { group_subs: final(st).group_subs, ..*old(st) })
            &&& if sent && flushed {
                &&& r == Ok::<_, GroupError>(subscription)
                &&& final(st).group_subs@ == old(st).group_subs@ + seq![entry]
            } else {
                &&& r matches Err(GroupError::NotConnected)
                &&& final(st).group_subs@ == old(st).group_subs@
            }
        },
        rest matches Rest::GroupLeave { sid } ==> {
            &&& reply == Reply::GroupLeave(Ok(()))
            &&& !final(st).routing.streams@.contains_key(sid)
            &&& forall|other: u64|
                other != sid && #[trigger] old(st).routing.streams@.contains_key(other) ==> final(st).routing.streams@.contains_key(other) && final(st).routing.streams@[other] == old(st).routing.streams@[other]
            &&& forall|other: u64| #[trigger]
                final(st).routing.streams@.contains_key(other) ==> old(st).routing.streams@.contains_key(other)
            &&& *final(st) == (TaskState {
                routing: Routing { streams: final(st).routing.streams, ..old(st).routing },
                ..*old(st)
            })
        },
{
    if let Rest::GroupJoin { entry, subscription } = rest {
        assert(old(st).group_subs@ + seq![entry] =~= old(st).group_subs@.push(entry));
    }
}

/// A remote call is pending, under its id and with the one who waits for it, once its reply topic
/// is subscribed to, which is remembered once; else it is not, and nothing changes.
pub proof fn law_registered_calls_are_pending(
    st: &mut TaskState,
    cid: u128,
    new_topic: Option<String>,
    resp: oneshot::Sender<Message>,
    sent: bool,
    flushed: bool,
    reply: Reply,
)
    requires
        call_ensures(
            TaskState::finish,
            (st, Rest::RegisterRpc { cid, new_topic, resp }, sent, flushed),
            reply,
        ),
    ensures
        reply is RegisterRpc,
        if new_topic is Some && !sent {
            &&& reply->RegisterRpc_0 == Err::<(), SubscribeError>(SubscribeError::NotConnected)
            &&& *final(st) == *old(st)
        } else {
            &&& reply->RegisterRpc_0 is Ok
            &&& final(st).routing.pending_rpcs@.contains_key(cid)
            &&& final(st).routing.pending_rpcs@[cid] == resp
            &&& forall|other: u128|
                other != cid ==> final(st).routing.pending_rpcs@.contains_key(other) == (
                #[trigger] old(st).routing.pending_rpcs@.contains_key(other))
            &&& forall|other: u128|
                other != cid && old(st).routing.pending_rpcs@.contains_key(other) ==> (
                #[trigger] final(st).routing.pending_rpcs@[other]) == old(st).routing.pending_rpcs@[other]
            &&& *final(st) == (TaskState {
                routing: Routing {
                    pending_rpcs: final(st).routing.pending_rpcs,
                    rpc_reply_topics: final(st).routing.rpc_reply_topics,
                    ..old(st).routing
                },
                ..*old(st)
            })
        },
        new_topic is Some && sent ==> exists|i: int|
            0 <= i < final(st).routing.rpc_reply_topics@.len() && (#[trigger] final(st).routing.rpc_reply_topics@[i])@ == (new_topic->0)@,
        forall|i: int|
            0 <= i < old(st).routing.rpc_reply_topics@.len() ==> i < final(st).routing.rpc_reply_topics@.len() && final(st).routing.rpc_reply_topics@[i] == (
            #[trigger] old(st).routing.rpc_reply_topics@[i]),
{
    let before = old(st).routing.rpc_reply_topics@;
    let after = final(st).routing.rpc_reply_topics@;
    if new_topic is Some && sent {
        let t = new_topic->0;
        if crate::routing::holds_topic(before, t@) {
            let i = choose|i: int| 0 <= i < before.len() && #[trigger] before[i]@ == t@;
            assert(after[i]@ == t@);
        } else {
            assert(after[before.len() as int]@ == t@);
        }
    }
}

/// Whether a reply reports success.
pub open spec fn succeeds(reply: Reply) -> bool {
    match reply {
        Reply::Publish(r) => r is Ok,
        Reply::Subscribe(r) => r is Ok,
        Reply::Unsubscribe(r) => r is Ok,
        Reply::OpenStream(r) => r is Ok,
        Reply::RegisterRpc(r) => r is Ok,
        Reply::GroupJoin(r) => r is Ok,
        Reply::GroupLeave(r) => r is Ok,
        Reply::Close(r) => r is Ok,
        Reply::Migrate(r) => r is Ok,
        Reply::Nothing => false,
    }
}

/// Without a connection no command succeeds, and each is answered in its own kind, so that nobody
/// waits for good.
pub proof fn law_no_success_without_a_connection(cmd: ConnCmd, r: Reply)
    requires
        call_ensures(fail_cmd_not_connected, (cmd,), r),
    ensures
        !succeeds(r),
        cmd is Publish ==> r matches Reply::Publish(Err(PublishError::NotConnected)),
        cmd is Subscribe ==> r matches Reply::Subscribe(Err(SubscribeError::NotConnected)),
        cmd is Unsubscribe ==> r matches Reply::Unsubscribe(Err(SubscribeError::NotConnected)),
        cmd is OpenStream ==> r matches Reply::OpenStream(Err(StreamError::NotConnected)),
        cmd is GroupJoin ==> r matches Reply::GroupJoin(Err(GroupError::NotConnected)),
        cmd is GroupLeave ==> r matches Reply::GroupLeave(Err(GroupError::NotConnected)),
        cmd is Close ==> r matches Reply::Close(Err(ConnectError::Closed(_))),
        cmd is Migrate ==> r matches Reply::Migrate(Err(ConnectError::Closed(_))),
        cmd is RegisterRpcReply || cmd is CancelRpc ==> r is Nothing,
{
}

/// Output is flushed in any case, not at all, or only where every frame was taken.
pub proof fn law_flushes_are_due(flush: Flush, sent: bool, r: bool)
    requires
        call_ensures(Flush::is_due, (flush, sent), r),
    ensures
        flush == Flush::Always ==> r,
        flush == Flush::Never ==> !r,
        flush == Flush::IfSent ==> r == sent,
{
}

/// A migration reports what became of the socket; a new address is followed by a probe from it.
/// A close is answered once, and only where it was asked for.
pub proof fn law_migrations_and_closes_are_answered(
    st: &TaskState,
    result: Result<(), ConnectError>,
    s: Started,
    task: &mut TaskState,
    r: Reply,
)
    requires
        call_ensures(TaskState::rebound, (st, result), s),
        call_ensures(TaskState::answer_close, (task,), r),
    ensures
        s.rest == Rest::Answer(Reply::Migrate(result)),
        result is Err ==> sends(s, Seq::empty()),
        result is Ok ==> {
            &&& s.batch@.left.len() == 1
            &&& !s.batch@.failed
            &&& subscribing(s.batch@.left[0], 0, "_migration.probe"@, 0)
            &&& s.flush == Flush::Always
        },
        old(task).close_requested ==> r == Reply::Close(Ok(())),
        !old(task).close_requested ==> r is Nothing,
        !final(task).close_requested,
        *final(task) == (TaskState { close_requested: false, ..*old(task) }),
{
    lemma_subscribing(0, "_migration.probe"@, 0);
}

} // verus!
