//! What the task sends of its own accord: the session hello, heartbeats, and the replay of
//! everything that the server has to know again after a reconnect.
use vstd::prelude::*;

use crate::command::{join_frame, stream_frames, subscribe_frame};
use crate::frame::{plain, Batch, BatchModel, MessageType, Planned, PlannedModel};
use crate::order::{ascending, keys_of, lemma_ascending, lists};
use crate::routing::{Routing, StreamEntry, SubEntry, DEFAULT_STREAM};
use crate::task::{GroupSubEntry, PendingFetch, TaskState};
use crate::wire;
use crate::wire::resume_payload;

verus! {

broadcast use vstd::std_specs::btree::group_btree_axioms;

/// One subscribe per default-channel subscription, oldest first.
pub open spec fn subs_plan(subs: Seq<SubEntry>) -> Seq<PlannedModel> {
    subs.map_values(|e: SubEntry| subscribe_frame(DEFAULT_STREAM, e.pattern@, e.qos))
}

/// One subscribe per reply topic of remote calls, in the order of their first use.
pub open spec fn reply_topics_plan(topics: Seq<String>) -> Seq<PlannedModel> {
    topics.map_values(|t: String| subscribe_frame(DEFAULT_STREAM, t@, 0))
}

/// Policy and subscription of each of these dedicated streams.
pub open spec fn streams_plan(keys: Seq<u64>, streams: Map<u64, StreamEntry>) -> Seq<PlannedModel>
    decreases keys.len(),
{
    if keys.len() == 0 {
        Seq::empty()
    } else {
        let sid = keys.last();
        streams_plan(keys.drop_last(), streams) + stream_frames(
            sid,
            streams[sid].policy,
            streams[sid].topic,
        )
    }
}

/// One join per consumer-group membership.
pub open spec fn groups_plan(groups: Seq<GroupSubEntry>) -> Seq<PlannedModel> {
    groups.map_values(
        |e: GroupSubEntry| join_frame(e.sid, e.topic@, e.group@, e.consumer@, e.partitions),
    )
}

/// Stream id and next acknowledgement of every stream that has one, in ascending order.
pub open spec fn ack_slots(acks: Map<u64, u64>) -> Seq<(u64, u64)> {
    ascending(acks.dom()).map_values(|sid: u64| (sid, acks[sid]))
}

/// The frame that resumes a session, or opens one where there are no slots.
pub open spec fn resume_frame(session: u64, slots: Seq<(u64, u64)>) -> PlannedModel {
    plain(DEFAULT_STREAM, MessageType::Resume, resume_payload(session, slots))
}

/// Subscriptions, reply topics, dedicated streams and memberships, in this order.
pub open spec fn registrations_plan(st: TaskState) -> Seq<PlannedModel> {
    subs_plan(st.routing.subs@) + reply_topics_plan(st.routing.rpc_reply_topics@) + streams_plan(
        ascending(st.routing.streams@.dom()),
        st.routing.streams@,
    ) + groups_plan(st.group_subs@)
}

/// Everything that is sent on a connection that replaces another: the resume first, so that the
/// server can replay the gap, then the registrations.
pub open spec fn replay_plan(st: TaskState, resubscribe: bool) -> Seq<PlannedModel> {
    let resume = if st.reliability.enabled {
        seq![
            resume_frame(
                st.reliability.logical_session_id,
                ack_slots(st.reliability.pending_acks@),
            ),
        ]
    } else {
        Seq::empty()
    };
    if resubscribe {
        resume + registrations_plan(st)
    } else {
        resume
    }
}

/// The subscribe frame for `pattern` on `sid`.
fn subscribing(sid: u64, pattern: &str, qos: u8) -> (r: Planned)
    ensures
        r@ == subscribe_frame(sid, pattern@, qos),
{
    Planned::plain(sid, MessageType::Subscribe, wire::encode_subscribe(pattern, qos))
}

impl TaskState {
    /// Plans one subscribe per default-channel subscription.
    fn plan_subs(&self, batch: &mut Batch)
        ensures
            final(batch)@ == (BatchModel {
                left: old(batch)@.left + subs_plan(self.routing.subs@),
                failed: old(batch)@.failed,
            }),
    {
        let ghost plan = subs_plan(self.routing.subs@);
        let mut i: usize = 0;
        assert(batch@.left =~= old(batch)@.left + plan.take(0));
        while i < self.routing.subs.len()
            invariant
                i <= self.routing.subs@.len(),
                plan == subs_plan(self.routing.subs@),
                batch@ == (BatchModel {
                    left: old(batch)@.left + plan.take(i as int),
                    failed: old(batch)@.failed,
                }),
            decreases self.routing.subs@.len() - i,
        {
            let e = &self.routing.subs[i];
            batch.add_frame(subscribing(DEFAULT_STREAM, e.pattern.as_str(), e.qos));
            i += 1;
            assert(batch@.left =~= old(batch)@.left + plan.take(i as int));
        }
        assert(plan.take(i as int) =~= plan);
    }

    /// Plans one subscribe per reply topic.
    fn plan_reply_topics(&self, batch: &mut Batch)
        ensures
            final(batch)@ == (BatchModel {
                left: old(batch)@.left + reply_topics_plan(self.routing.rpc_reply_topics@),
                failed: old(batch)@.failed,
            }),
    {
        let ghost plan = reply_topics_plan(self.routing.rpc_reply_topics@);
        let mut i: usize = 0;
        assert(batch@.left =~= old(batch)@.left + plan.take(0));
        while i < self.routing.rpc_reply_topics.len()
            invariant
                i <= self.routing.rpc_reply_topics@.len(),
                plan == reply_topics_plan(self.routing.rpc_reply_topics@),
                batch@ == (BatchModel {
                    left: old(batch)@.left + plan.take(i as int),
                    failed: old(batch)@.failed,
                }),
            decreases self.routing.rpc_reply_topics@.len() - i,
        {
            let topic = self.routing.rpc_reply_topics[i].as_str();
            batch.add_frame(subscribing(DEFAULT_STREAM, topic, 0));
            i += 1;
            assert(batch@.left =~= old(batch)@.left + plan.take(i as int));
        }
        assert(plan.take(i as int) =~= plan);
    }

    /// Plans policy and subscription of every dedicated stream, in ascending order.
    fn plan_streams(&self, batch: &mut Batch)
        ensures
            final(batch)@ == (BatchModel {
                left: old(batch)@.left + streams_plan(
                    ascending(self.routing.streams@.dom()),
                    self.routing.streams@,
                ),
                failed: old(batch)@.failed,
            }),
    {
        let keys = keys_of(&self.routing.streams);
        let mut i: usize = 0;
        assert(keys@.take(0) =~= Seq::empty());
        assert(batch@.left =~= old(batch)@.left + streams_plan(
            keys@.take(0),
            self.routing.streams@,
        ));
        while i < keys.len()
            invariant
                i <= keys@.len(),
                lists(keys@, self.routing.streams@.dom()),
                batch@ == (BatchModel {
                    left: old(batch)@.left + streams_plan(
                        keys@.take(i as int),
                        self.routing.streams@,
                    ),
                    failed: old(batch)@.failed,
                }),
            decreases keys@.len() - i,
        {
            let sid: u64 = keys[i];
            assert(self.routing.streams@.dom().contains(keys@[i as int]));
            match self.routing.streams.get(&sid) {
                Some(e) => {
                    batch.add_frame(Planned::opening(sid, e.policy));
                    let frame = match &e.topic {
                        Some(t) => subscribing(sid, t.as_str(), 0),
                        None => subscribing(sid, "*", 0),
                    };
                    batch.add_frame(frame);
                },
                None => {},
            }
            i += 1;
            assert(keys@.take(i as int).drop_last() =~= keys@.take(i - 1));
            assert(batch@.left =~= old(batch)@.left + streams_plan(
                keys@.take(i as int),
                self.routing.streams@,
            ));
        }
        assert(keys@.take(i as int) =~= keys@);
    }

    /// Plans one join per consumer-group membership.
    fn plan_groups(&self, batch: &mut Batch)
        ensures
            final(batch)@ == (BatchModel {
                left: old(batch)@.left + groups_plan(self.group_subs@),
                failed: old(batch)@.failed,
            }),
    {
        let ghost plan = groups_plan(self.group_subs@);
        let mut i: usize = 0;
        assert(batch@.left =~= old(batch)@.left + plan.take(0));
        while i < self.group_subs.len()
            invariant
                i <= self.group_subs@.len(),
                plan == groups_plan(self.group_subs@),
                batch@ == (BatchModel {
                    left: old(batch)@.left + plan.take(i as int),
                    failed: old(batch)@.failed,
                }),
            decreases self.group_subs@.len() - i,
        {
            let e = &self.group_subs[i];
            let bytes = wire::encode_group_join(
                e.topic.as_str(),
                e.group.as_str(),
                e.consumer.as_str(),
                e.partitions,
            );
            batch.add_frame(Planned::plain(e.sid, MessageType::ConsumerGroupJoin, bytes));
            i += 1;
            assert(batch@.left =~= old(batch)@.left + plan.take(i as int));
        }
        assert(plan.take(i as int) =~= plan);
    }

    /// The resume frame with every stream's next acknowledgement.
    fn resuming(&self) -> (r: Planned)
        ensures
            r@ == resume_frame(
                self.reliability.logical_session_id,
                ack_slots(self.reliability.pending_acks@),
            ),
    {
        let keys = keys_of(&self.reliability.pending_acks);
        let ghost all = ack_slots(self.reliability.pending_acks@);
        let mut slots: Vec<(u64, u64)> = Vec::new();
        let mut i: usize = 0;
        while i < keys.len()
            invariant
                i <= keys@.len(),
                lists(keys@, self.reliability.pending_acks@.dom()),
                all == ack_slots(self.reliability.pending_acks@),
                keys@ == ascending(self.reliability.pending_acks@.dom()),
                slots@ == all.take(i as int),
            decreases keys@.len() - i,
        {
            let sid: u64 = keys[i];
            assert(self.reliability.pending_acks@.dom().contains(keys@[i as int]));
            match self.reliability.pending_acks.get(&sid) {
                Some(ack) => slots.push((sid, *ack)),
                None => {},
            }
            i += 1;
            assert(slots@ =~= all.take(i as int));
        }
        assert(all.take(i as int) =~= all);
        Planned::plain(
            DEFAULT_STREAM,
            MessageType::Resume,
            wire::encode_resume(self.reliability.logical_session_id, &slots),
        )
    }

    /// Prepares the task for a new connection and plans what the server has to know again.
    ///
    /// Outgoing numbers start over, and fetches for the old connection are given up. Watermarks
    /// and acknowledgements stay: they are what the session resumes from. Registrations are
    /// replayed where the reconnect policy says so. Where it does not, no reply topic is subscribed
    /// to on the new connection, so the next call on one has to subscribe to it again.
    pub fn replay_all(&mut self, resubscribe: bool) -> (r: Batch)
        ensures
            r@ == (BatchModel { left: replay_plan(*old(self), resubscribe), failed: false }),
            final(self).reliability == old(self).reliability,
            final(self).seqs@ == Map::<u64, u64>::empty(),
            final(self).pending_fetches@ == Seq::<PendingFetch>::empty(),
            *final(self) == (TaskState {
                seqs: final(self).seqs,
                pending_fetches: final(self).pending_fetches,
                routing: final(self).routing,
                ..*old(self)
            }),
            resubscribe ==> final(self).routing == old(self).routing,
            !resubscribe ==> final(self).routing == (Routing {
                rpc_reply_topics: final(self).routing.rpc_reply_topics,
                ..old(self).routing
            }) && final(self).routing.rpc_reply_topics@ == Seq::<String>::empty(),
            old(self).wf() ==> final(self).wf(),
    {
        self.seqs.next.clear();
        self.pending_fetches.clear();
        let mut batch = Batch::new();
        if self.reliability.enabled {
            batch.add_frame(self.resuming());
        }
        let ghost resume = batch@.left;
        if resubscribe {
            self.plan_subs(&mut batch);
            self.plan_reply_topics(&mut batch);
            self.plan_streams(&mut batch);
            self.plan_groups(&mut batch);
            assert(batch@.left =~= resume + registrations_plan(*old(self)));
        } else {
            self.routing.rpc_reply_topics.clear();
        }
        assert(batch@.left =~= replay_plan(*old(self), resubscribe));
        batch
    }

    /// What is sent right after the first handshake: a reliable session introduces itself, with
    /// nothing acknowledged yet.
    pub fn session_hello(&self) -> (r: Batch)
        ensures
            r@.left == if self.reliability.enabled {
                seq![resume_frame(self.reliability.logical_session_id, Seq::empty())]
            } else {
                Seq::empty()
            },
            !r@.failed,
    {
        let mut batch = Batch::new();
        if self.reliability.enabled {
            let slots: Vec<(u64, u64)> = Vec::new();
            batch.add_frame(
                Planned::plain(
                    DEFAULT_STREAM,
                    MessageType::Resume,
                    wire::encode_resume(self.reliability.logical_session_id, &slots),
                ),
            );
            assert(slots@ =~= Seq::empty());
            assert(batch@.left =~= seq![
                resume_frame(self.reliability.logical_session_id, Seq::empty()),
            ]);
        }
        batch
    }

    /// The probe of a heartbeat. Whether the server accepts it or not, it answers, and so shows
    /// that it is alive.
    pub fn heartbeat_probe(&self) -> (r: Batch)
        ensures
            r@ == (BatchModel {
                left: seq![subscribe_frame(DEFAULT_STREAM, "_heartbeat.probe"@, 0)],
                failed: false,
            }),
    {
        let mut batch = Batch::new();
        batch.add_frame(subscribing(DEFAULT_STREAM, "_heartbeat.probe", 0));
        assert(batch@.left =~= seq![subscribe_frame(DEFAULT_STREAM, "_heartbeat.probe"@, 0)]);
        batch
    }

    /// Every active membership joins again, so that the server does not evict it as silent.
    pub fn heartbeat_group_subs(&self) -> (r: Batch)
        ensures
            r@ == (BatchModel { left: groups_plan(self.group_subs@), failed: false }),
    {
        let mut batch = Batch::new();
        self.plan_groups(&mut batch);
        assert(batch@.left =~= groups_plan(self.group_subs@));
        batch
    }
}

/// `plan` holds `part` as a stretch of its own.
pub open spec fn holds_part(plan: Seq<PlannedModel>, part: Seq<PlannedModel>) -> bool {
    exists|at: int|
        0 <= at <= plan.len() - part.len() && #[trigger] plan.subrange(at, at + part.len()) == part
}

/// A stream's two frames stay together, in order, wherever the stream comes in the list.
proof fn lemma_streams_plan_holds(keys: Seq<u64>, streams: Map<u64, StreamEntry>, i: int)
    requires
        0 <= i < keys.len(),
    ensures
        holds_part(
            streams_plan(keys, streams),
            stream_frames(keys[i], streams[keys[i]].policy, streams[keys[i]].topic),
        ),
    decreases keys.len(),
{
    let plan = streams_plan(keys, streams);
    let before = streams_plan(keys.drop_last(), streams);
    let part = stream_frames(keys[i], streams[keys[i]].policy, streams[keys[i]].topic);
    if i == keys.len() - 1 {
        let at = before.len() as int;
        assert(plan.subrange(at, at + part.len()) =~= part);
    } else {
        lemma_streams_plan_holds(keys.drop_last(), streams, i);
        let at = choose|at: int|
            0 <= at <= before.len() - part.len() && #[trigger] before.subrange(
                at,
                at + part.len(),
            ) == part;
        assert(plan.subrange(at, at + part.len()) =~= before.subrange(at, at + part.len()));
    }
}

/// A replay forgets nothing: every subscription and every reply topic is subscribed to again, every
/// dedicated stream opened again with its own policy and pattern, every membership joined again.
pub proof fn law_replay_is_complete(st: TaskState)
    ensures
        forall|i: int|
            0 <= i < st.routing.subs@.len() ==> replay_plan(st, true).contains(
                subscribe_frame(
                    DEFAULT_STREAM,
                    (#[trigger] st.routing.subs@[i]).pattern@,
                    st.routing.subs@[i].qos,
                ),
            ),
        forall|i: int|
            0 <= i < st.routing.rpc_reply_topics@.len() ==> replay_plan(st, true).contains(
                subscribe_frame(DEFAULT_STREAM, (#[trigger] st.routing.rpc_reply_topics@[i])@, 0),
            ),
        forall|sid: u64| #[trigger]
            st.routing.streams@.contains_key(sid) ==> holds_part(
                replay_plan(st, true),
                stream_frames(
                    sid,
                    st.routing.streams@[sid].policy,
                    st.routing.streams@[sid].topic,
                ),
            ),
        forall|i: int|
            0 <= i < st.group_subs@.len() ==> replay_plan(st, true).contains(
                join_frame(
                    (#[trigger] st.group_subs@[i]).sid,
                    st.group_subs@[i].topic@,
                    st.group_subs@[i].group@,
                    st.group_subs@[i].consumer@,
                    st.group_subs@[i].partitions,
                ),
            ),
{
    let plan = replay_plan(st, true);
    let resume = replay_plan(st, false);
    let subs = subs_plan(st.routing.subs@);
    let topics = reply_topics_plan(st.routing.rpc_reply_topics@);
    let keys = ascending(st.routing.streams@.dom());
    let streams = streams_plan(keys, st.routing.streams@);
    let groups = groups_plan(st.group_subs@);
    assert(plan =~= resume + (subs + topics + streams + groups));
    assert forall|i: int| 0 <= i < st.routing.rpc_reply_topics@.len() implies plan.contains(
        subscribe_frame(DEFAULT_STREAM, (#[trigger] st.routing.rpc_reply_topics@[i])@, 0),
    ) by {
        assert(plan[resume.len() + subs.len() + i] == topics[i]);
    }
    assert forall|i: int| 0 <= i < st.routing.subs@.len() implies plan.contains(
        subscribe_frame(
            DEFAULT_STREAM,
            (#[trigger] st.routing.subs@[i]).pattern@,
            st.routing.subs@[i].qos,
        ),
    ) by {
        assert(plan[resume.len() + i] == subs[i]);
    }
    assert forall|i: int| 0 <= i < st.group_subs@.len() implies plan.contains(
        join_frame(
            (#[trigger] st.group_subs@[i]).sid,
            st.group_subs@[i].topic@,
            st.group_subs@[i].group@,
            st.group_subs@[i].consumer@,
            st.group_subs@[i].partitions,
        ),
    ) by {
        assert(plan[resume.len() + subs.len() + topics.len() + streams.len() + i] == groups[i]);
    }
    lemma_ascending(st.routing.streams@.dom());
    assert forall|sid: u64| #[trigger]
        st.routing.streams@.contains_key(sid) implies holds_part(
        plan,
        stream_frames(sid, st.routing.streams@[sid].policy, st.routing.streams@[sid].topic),
    ) by {
        let part = stream_frames(
            sid,
            st.routing.streams@[sid].policy,
            st.routing.streams@[sid].topic,
        );
        assert(st.routing.streams@.dom().contains(sid));
        assert(keys.contains(sid));
        let i = choose|i: int| 0 <= i < keys.len() && keys[i] == sid;
        lemma_streams_plan_holds(keys, st.routing.streams@, i);
        let at = choose|at: int|
            0 <= at <= streams.len() - part.len() && #[trigger] streams.subrange(
                at,
                at + part.len(),
            ) == part;
        let there = resume.len() + subs.len() + topics.len() + at;
        assert(plan.subrange(there, there + part.len()) =~= streams.subrange(
            at,
            at + part.len(),
        ));
    }
}

/// Streams are replayed without resumes.
proof fn lemma_streams_plan_resumes_nothing(keys: Seq<u64>, streams: Map<u64, StreamEntry>)
    ensures
        forall|i: int|
            0 <= i < streams_plan(keys, streams).len() ==> (#[trigger] streams_plan(
                keys,
                streams,
            )[i]).msg_type != MessageType::Resume,
    decreases keys.len(),
{
    if keys.len() > 0 {
        lemma_streams_plan_resumes_nothing(keys.drop_last(), streams);
    }
}

/// Reliable sessions resume before anything else is replayed, and once; others not at all.
pub proof fn law_resume_comes_first(st: TaskState, resubscribe: bool, i: int)
    requires
        0 <= i < replay_plan(st, resubscribe).len(),
    ensures
        st.reliability.enabled ==> replay_plan(st, resubscribe)[0] == resume_frame(
            st.reliability.logical_session_id,
            ack_slots(st.reliability.pending_acks@),
        ),
        replay_plan(st, resubscribe)[i].msg_type == MessageType::Resume <==> i == 0
            && st.reliability.enabled,
{
    lemma_streams_plan_resumes_nothing(
        ascending(st.routing.streams@.dom()),
        st.routing.streams@,
    );
}

} // verus!
