//! Inbound routing: which consumer gets a message.
//!
//! Messages on the default channel go to every subscription whose pattern matches. Messages on
//! a dedicated stream go to that stream's consumer alone, whatever their topic. Replies to
//! pending remote calls are picked out before either.
use std::collections::{BTreeMap, HashMap};
use bytes::Bytes;
use tokio::sync::{mpsc, oneshot};
use vstd::prelude::*;

use crate::buf;
use crate::buf::bytes_view;
use crate::channel;
use crate::channel::{answered, handed_in, Offer};
use crate::message::{Message, MessageModel};
use crate::stream::DeliveryPolicy;
use crate::text;
use crate::text::text_of;
use crate::topic::{pattern_matches, topic_matches};
use crate::wire;
use crate::wire::rpc_cid;

verus! {

broadcast use {
    vstd::std_specs::btree::group_btree_axioms,
    vstd::std_specs::hash::group_hash_axioms,
};

/// The shared default pub/sub stream.
pub const DEFAULT_STREAM: u64 = 0;

/// One default-channel subscription, kept for replay after a reconnect.
pub struct SubEntry {
    /// The pattern subscribed to.
    pub pattern: String,
    /// Quality-of-service byte.
    pub qos: u8,
    /// Matching messages leave here.
    pub tx: mpsc::Sender<Message>,
}

/// One dedicated stream, kept for replay after a reconnect.
pub struct StreamEntry {
    /// The declared policy.
    pub policy: DeliveryPolicy,
    /// The topic subscribed to on the stream; `None` is the pattern `"*"`.
    pub topic: Option<String>,
    /// Messages of the stream leave here.
    pub tx: mpsc::Sender<Message>,
}

/// The routing tables.
pub struct Routing {
    /// Default-channel subscriptions, oldest first.
    pub subs: Vec<SubEntry>,
    /// Dedicated streams by stream id.
    pub streams: BTreeMap<u64, StreamEntry>,
    /// Who waits for the reply to which remote call.
    pub pending_rpcs: HashMap<u128, oneshot::Sender<Message>>,
    /// Topics on which replies may arrive, each once.
    pub rpc_reply_topics: Vec<String>,
    /// Messages dropped on full default-channel subscriptions; wraps around.
    pub default_drops: u64,
    /// Messages dropped on full dedicated streams; wraps around.
    pub stream_drops: u64,
}

/// Whether `t` is among the topics.
pub open spec fn holds_topic(topics: Seq<String>, t: Seq<char>) -> bool {
    exists|i: int| 0 <= i < topics.len() && #[trigger] topics[i]@ == t
}

/// How many of the offers found the channel full.
pub open spec fn full_offers(offers: Seq<Option<Offer>>) -> nat
    decreases offers.len(),
{
    if offers.len() == 0 {
        0
    } else {
        full_offers(offers.drop_last()) + if offers.last() == Some(Offer::Full) {
            1nat
        } else {
            0nat
        }
    }
}

/// `after` is the subscription `before` once a message has been offered to it, or, where there
/// was no offer, left alone.
pub open spec fn offered_to_sub(
    before: SubEntry,
    after: SubEntry,
    made: Option<Offer>,
    msg: MessageModel,
) -> bool {
    match made {
        None => after == before,
        Some(o) => {
            &&& after.pattern == before.pattern
            &&& after.qos == before.qos
            &&& handed_in(before.tx, after.tx, msg, o)
        },
    }
}

/// The message has been offered to exactly the subscriptions whose pattern matches its topic,
/// with these outcomes.
pub open spec fn fanned_out(
    before: Seq<SubEntry>,
    after: Seq<SubEntry>,
    offers: Seq<Option<Offer>>,
    msg: MessageModel,
) -> bool {
    &&& after.len() == before.len()
    &&& offers.len() == before.len()
    &&& forall|i: int|
        0 <= i < before.len() ==> {
            &&& (#[trigger] offers[i] is Some) == topic_matches(
                before[i].pattern@,
                text_of(msg.topic),
            )
            &&& offered_to_sub(before[i], after[i], offers[i], msg)
        }
}

/// The message has been offered to the consumer of its stream, with this outcome. A stream that
/// is not registered has no consumer.
pub open spec fn offered_on_stream(
    before: Map<u64, StreamEntry>,
    after: Map<u64, StreamEntry>,
    made: Option<Offer>,
    msg: MessageModel,
) -> bool {
    let sid = msg.stream_id;
    match made {
        None => !before.contains_key(sid) && after == before,
        Some(o) => {
            &&& before.contains_key(sid)
            &&& after == before.insert(sid, after[sid])
            &&& after[sid].policy == before[sid].policy
            &&& after[sid].topic == before[sid].topic
            &&& handed_in(before[sid].tx, after[sid].tx, msg, o)
        },
    }
}

/// A reply as its caller sees it: without the correlation id in front.
pub open spec fn stripped(msg: MessageModel) -> MessageModel {
    MessageModel { payload: msg.payload.skip(16), ..msg }
}

impl Routing {
    /// The pending call that a message answers, if any: its topic is a reply topic, and its
    /// payload opens with the correlation id of a pending call.
    pub open spec fn answered_call(self, msg: MessageModel) -> Option<u128> {
        match rpc_cid(msg.payload) {
            Some(cid) if self.pending_rpcs@.contains_key(cid) && holds_topic(
                self.rpc_reply_topics@,
                text_of(msg.topic),
            ) => Some(cid),
            _ => None,
        }
    }

    /// Reply topics occur once each.
    pub open spec fn topics_distinct(self) -> bool {
        forall|i: int, j: int|
            0 <= i < j < self.rpc_reply_topics@.len() ==> #[trigger] self.rpc_reply_topics@[i]@
                != #[trigger] self.rpc_reply_topics@[j]@
    }
}

/// `post` are the tables `pre` after `msg` has been routed. A reply goes to the one who waits for
/// it, without its correlation id, and the call is no longer pending.
pub open spec fn routed(pre: Routing, post: Routing, msg: MessageModel) -> bool {
    match pre.answered_call(msg) {
        Some(cid) => {
            &&& answered(pre.pending_rpcs@[cid]).0 == stripped(msg)
            &&& post.pending_rpcs@ == pre.pending_rpcs@.remove(cid)
            &&& post == (Routing { pending_rpcs: post.pending_rpcs, ..pre })
        },
        None => if msg.stream_id == DEFAULT_STREAM {
            &&& post == (Routing { subs: post.subs, default_drops: post.default_drops, ..pre })
            &&& exists|offers: Seq<Option<Offer>>|
                {
                    &&& #[trigger] fanned_out(pre.subs@, post.subs@, offers, msg)
                    &&& post.default_drops == (pre.default_drops + full_offers(offers))
                        % 0x1_0000_0000_0000_0000
                }
        } else {
            &&& post == (Routing { streams: post.streams, stream_drops: post.stream_drops, ..pre })
            &&& exists|made: Option<Offer>|
                {
                    &&& #[trigger] offered_on_stream(pre.streams@, post.streams@, made, msg)
                    &&& post.stream_drops == if made == Some(Offer::Full) {
                        pre.stream_drops.wrapping_add(1)
                    } else {
                        pre.stream_drops
                    }
                }
        },
    }
}

impl Routing {
    /// Empty tables.
    pub fn new() -> (r: Self)
        ensures
            r.subs@ == Seq::<SubEntry>::empty(),
            r.streams@ == Map::<u64, StreamEntry>::empty(),
            r.pending_rpcs@ == Map::<u128, oneshot::Sender<Message>>::empty(),
            r.rpc_reply_topics@ == Seq::<String>::empty(),
            r.default_drops == 0,
            r.stream_drops == 0,
            r.topics_distinct(),
    {
        Routing {
            subs: Vec::new(),
            streams: BTreeMap::new(),
            pending_rpcs: HashMap::new(),
            rpc_reply_topics: Vec::new(),
            default_drops: 0,
            stream_drops: 0,
        }
    }

    /// Whether replies may arrive on `topic`.
    pub fn is_reply_topic(&self, topic: &str) -> (r: bool)
        ensures
            r == holds_topic(self.rpc_reply_topics@, topic@),
    {
        let mut i: usize = 0;
        while i < self.rpc_reply_topics.len()
            invariant
                i <= self.rpc_reply_topics@.len(),
                forall|j: int| 0 <= j < i ==> #[trigger] self.rpc_reply_topics@[j]@ != topic@,
            decreases self.rpc_reply_topics@.len() - i,
        {
            if text::same(self.rpc_reply_topics[i].as_str(), topic) {
                assert(self.rpc_reply_topics@[i as int]@ == topic@);
                return true;
            }
            i += 1;
        }
        false
    }

    /// Picks a reply out of the inbound messages: who waits for it, and the message without the
    /// correlation id. The call is no longer pending then. Any other message is left alone.
    pub fn intercept_reply(&mut self, msg: &Message) -> (r: Option<
        (oneshot::Sender<Message>, Message),
    >)
        ensures
            match old(self).answered_call(msg@) {
                Some(cid) => {
                    &&& r is Some
                    &&& (r->0).0 == old(self).pending_rpcs@[cid]
                    &&& (r->0).1@ == stripped(msg@)
                    &&& final(self).pending_rpcs@ == old(self).pending_rpcs@.remove(cid)
                    &&& *final(self) == (Routing {
                        pending_rpcs: final(self).pending_rpcs,
                        ..*old(self)
                    })
                },
                None => r is None && *final(self) == *old(self),
            },
    {
        let body = buf::as_slice(&msg.payload);
        let cid: u128 = match wire::read_cid(body) {
            Some(cid) => cid,
            None => return None,
        };
        let topic = text::lossy(buf::as_slice(&msg.topic));
        if !self.is_reply_topic(topic.as_str()) {
            return None;
        }
        if !self.pending_rpcs.contains_key(&cid) {
            return None;
        }
        let len: usize = body.len();
        match self.pending_rpcs.remove(&cid) {
            Some(tx) => {
                let reply = Message {
                    topic: buf::share(&msg.topic),
                    payload: buf::slice(&msg.payload, 16, len),
                    seq: msg.seq,
                    stream_id: msg.stream_id,
                };
                assert(reply@.payload =~= msg@.payload.skip(16));
                Some((tx, reply))
            },
            None => None,
        }
    }

    /// Offers `msg` to every subscription whose pattern matches its topic. A full subscription
    /// misses the message, which is counted; the task never waits for a slow consumer.
    fn fan_out(&mut self, msg: &Message)
        ensures
            *final(self) == (Routing {
                subs: final(self).subs,
                default_drops: final(self).default_drops,
                ..*old(self)
            }),
            exists|offers: Seq<Option<Offer>>|
                {
                    &&& #[trigger] fanned_out(old(self).subs@, final(self).subs@, offers, msg@)
                    &&& final(self).default_drops == (old(self).default_drops + full_offers(offers))
                        % 0x1_0000_0000_0000_0000
                },
    {
        let topic = text::lossy(buf::as_slice(&msg.topic));
        let ghost pre = *self;
        let ghost mut offers: Seq<Option<Offer>> = Seq::empty();
        let mut i: usize = 0;
        while i < self.subs.len()
            invariant
                i <= self.subs@.len(),
                topic@ == text_of(msg@.topic),
                *self == (Routing { subs: self.subs, default_drops: self.default_drops, ..pre }),
                self.subs@.len() == pre.subs@.len(),
                offers.len() == i,
                forall|j: int|
                    0 <= j < i ==> {
                        &&& (#[trigger] offers[j] is Some) == topic_matches(
                            pre.subs@[j].pattern@,
                            text_of(msg@.topic),
                        )
                        &&& offered_to_sub(pre.subs@[j], self.subs@[j], offers[j], msg@)
                    },
                forall|j: int| i <= j < pre.subs@.len() ==> self.subs@[j] == pre.subs@[j],
                self.default_drops == (pre.default_drops + full_offers(offers))
                    % 0x1_0000_0000_0000_0000,
            decreases self.subs@.len() - i,
        {
            let ghost earlier = offers;
            if pattern_matches(self.subs[i].pattern.as_str(), topic.as_str()) {
                let made = channel::offer(&mut self.subs[i].tx, msg.clone());
                proof {
                    offers = offers.push(Some(made));
                }
                if made == Offer::Full {
                    self.default_drops = self.default_drops.wrapping_add(1);
                }
            } else {
                proof {
                    offers = offers.push(None);
                }
            }
            assert(offers.drop_last() =~= earlier);
            i += 1;
        }
        assert(fanned_out(pre.subs@, self.subs@, offers, msg@));
    }

    /// Offers `msg` to the consumer of its dedicated stream, without regard to its topic.
    fn deliver_on_stream(&mut self, msg: Message)
        ensures
            *final(self) == (Routing {
                streams: final(self).streams,
                stream_drops: final(self).stream_drops,
                ..*old(self)
            }),
            exists|made: Option<Offer>|
                {
                    &&& #[trigger] offered_on_stream(
                        old(self).streams@,
                        final(self).streams@,
                        made,
                        msg@,
                    )
                    &&& final(self).stream_drops == if made == Some(Offer::Full) {
                        old(self).stream_drops.wrapping_add(1)
                    } else {
                        old(self).stream_drops
                    }
                },
    {
        let sid: u64 = msg.stream_id;
        let ghost sent = msg@;
        match self.streams.remove(&sid) {
            Some(entry) => {
                let mut entry = entry;
                let made = channel::offer(&mut entry.tx, msg);
                self.streams.insert(sid, entry);
                if made == Offer::Full {
                    self.stream_drops = self.stream_drops.wrapping_add(1);
                }
                assert(self.streams@ =~= old(self).streams@.insert(sid, entry));
                assert(offered_on_stream(old(self).streams@, self.streams@, Some(made), sent));
            },
            None => {
                assert(self.streams@ =~= old(self).streams@);
                assert(offered_on_stream(old(self).streams@, self.streams@, None, sent));
            },
        }
    }

    /// Routes a message that arrived on stream `sid`: to a waiting remote call if it answers
    /// one, else to the matching subscriptions of the default channel, else to the stream's own
    /// consumer.
    pub fn fanout_message(&mut self, sid: u64, topic: Bytes, body: Bytes, seq: u64)
        ensures
            routed(
                *old(self),
                *final(self),
                MessageModel {
                    topic: bytes_view(topic),
                    payload: bytes_view(body),
                    seq,
                    stream_id: sid,
                },
            ),
    {
        let msg = Message { topic, payload: body, seq, stream_id: sid };
        match self.intercept_reply(&msg) {
            Some((tx, reply)) => {
                // A caller that has given up no longer wants the reply.
                let _ = channel::answer(tx, reply);
            },
            None => {
                if sid == DEFAULT_STREAM {
                    self.fan_out(&msg);
                } else {
                    self.deliver_on_stream(msg);
                }
            },
        }
    }
}

/// Dedicated streams are isolated: a message on one stream changes nothing for the consumer of
/// another, and nothing for the default channel.
pub proof fn law_streams_are_isolated(pre: Routing, post: Routing, msg: MessageModel, other: u64)
    requires
        routed(pre, post, msg),
        other != msg.stream_id,
    ensures
        post.streams@.contains_key(other) == pre.streams@.contains_key(other),
        pre.streams@.contains_key(other) ==> post.streams@[other] == pre.streams@[other],
        msg.stream_id != DEFAULT_STREAM ==> post.subs == pre.subs,
        msg.stream_id == DEFAULT_STREAM ==> post.streams == pre.streams,
{
}

/// A dedicated stream hands on whatever arrives on it, whatever the topic: a message that
/// answers no call is offered to the stream's consumer.
pub proof fn law_dedicated_streams_hear_every_topic(pre: Routing, post: Routing, msg: MessageModel)
    requires
        routed(pre, post, msg),
        msg.stream_id != DEFAULT_STREAM,
        pre.answered_call(msg) is None,
        pre.streams@.contains_key(msg.stream_id),
    ensures
        post.streams@.contains_key(msg.stream_id),
        ({
            let before = pre.streams@[msg.stream_id];
            let after = post.streams@[msg.stream_id];
            &&& after.policy == before.policy
            &&& after.topic == before.topic
            &&& exists|o: Offer| handed_in(before.tx, after.tx, msg, o)
        }),
{
}

/// A default-channel message leaves every subscription alone whose pattern does not match, and
/// offers itself to every other.
pub proof fn law_only_matching_subscriptions_hear(
    pre: Routing,
    post: Routing,
    msg: MessageModel,
    i: int,
)
    requires
        routed(pre, post, msg),
        msg.stream_id == DEFAULT_STREAM,
        pre.answered_call(msg) is None,
        0 <= i < pre.subs@.len(),
    ensures
        post.subs@.len() == pre.subs@.len(),
        !topic_matches(pre.subs@[i].pattern@, text_of(msg.topic)) ==> post.subs@[i]
            == pre.subs@[i],
        topic_matches(pre.subs@[i].pattern@, text_of(msg.topic)) ==> exists|o: Offer|
            handed_in(pre.subs@[i].tx, post.subs@[i].tx, msg, o),
        post.subs@[i].pattern == pre.subs@[i].pattern,
        post.subs@[i].qos == pre.subs@[i].qos,
{
    let offers = choose|offers: Seq<Option<Offer>>|
        {
            &&& #[trigger] fanned_out(pre.subs@, post.subs@, offers, msg)
            &&& post.default_drops == (pre.default_drops + full_offers(offers))
                % 0x1_0000_0000_0000_0000
        };
    assert(offered_to_sub(pre.subs@[i], post.subs@[i], offers[i], msg));
}

/// Ordinary traffic is never taken for a reply: with no call pending, on a topic that is not a
/// reply topic, or with a payload too short for a correlation id, a message answers no call.
pub proof fn law_ordinary_traffic_is_not_intercepted(tables: Routing, msg: MessageModel)
    requires
        tables.pending_rpcs@.dom() == Set::<u128>::empty() || !holds_topic(
            tables.rpc_reply_topics@,
            text_of(msg.topic),
        ) || msg.payload.len() < 16,
    ensures
        tables.answered_call(msg) is None,
{
}

/// A reply reaches its caller, without its correlation id, and nobody else, and is taken once:
/// the same message, seen again, answers no call.
pub proof fn law_replies_are_taken_once(pre: Routing, post: Routing, msg: MessageModel)
    requires
        routed(pre, post, msg),
        pre.answered_call(msg) is Some,
    ensures
        answered(pre.pending_rpcs@[pre.answered_call(msg)->0]).0 == stripped(msg),
        post.subs == pre.subs,
        post.streams == pre.streams,
        post.answered_call(msg) is None,
{
}

/// A call that was sent out is matched by its own reply: a payload framed with the correlation
/// id of a pending call, on a reply topic, answers that call and is handed over unframed.
pub proof fn law_reply_matches_its_call(tables: Routing, cid: u128, body: Seq<u8>, msg: MessageModel)
    requires
        tables.pending_rpcs@.contains_key(cid),
        holds_topic(tables.rpc_reply_topics@, text_of(msg.topic)),
        msg.payload == wire::rpc_payload(cid, body),
    ensures
        tables.answered_call(msg) == Some(cid),
        stripped(msg) == (MessageModel { payload: body, ..msg }),
{
    wire::law_rpc_roundtrip(cid, body);
}

} // verus!
