//! The session across connections: what is replayed, and how frames are numbered.
use vstd::prelude::*;

use crate::command::stream_frames;
use crate::frame::{Batch, MessageType, OutFrame, Planned, PlannedModel, SeqCounters};
use crate::laws::commands::{bytes_of, carries, declaring, joining, lemma_joining, lemma_star, lemma_subscribing, subscribing};
use crate::laws::delivery::{number_on, numbered};
use crate::laws::payloads::{lemma_resume, resumes};
use crate::order::{ascending, lemma_ascending};
use crate::replay::{ack_slots, groups_plan, reply_topics_plan, streams_plan, subs_plan};
use crate::routing::StreamEntry;
use crate::task::TaskState;

verus! {

broadcast use vstd::std_specs::btree::group_btree_axioms;

/// `keys` are the keys of a table, each once, in ascending order.
pub open spec fn keys_in_order<V>(keys: Seq<u64>, m: Map<u64, V>) -> bool {
    &&& forall|i: int, j: int| 0 <= i < j < keys.len() ==> #[trigger] keys[i] < #[trigger] keys[j]
    &&& forall|i: int| 0 <= i < keys.len() ==> m.contains_key(#[trigger] keys[i])
    &&& forall|k: u64| #[trigger]
        m.contains_key(k) ==> exists|i: int| 0 <= i < keys.len() && #[trigger] keys[i] == k
}

/// The ascending listing of a table's keys is one.
pub(crate) proof fn lemma_keys_in_order<V>(m: Map<u64, V>)
    ensures
        keys_in_order(ascending(m.dom()), m),
{
    let keys = ascending(m.dom());
    lemma_ascending(m.dom());
    assert forall|i: int| 0 <= i < keys.len() implies m.contains_key(#[trigger] keys[i]) by {
        assert(m.dom().contains(keys[i]));
    }
    assert forall|k: u64| #[trigger] m.contains_key(k) implies exists|i: int|
        0 <= i < keys.len() && #[trigger] keys[i] == k by {
        assert(m.dom().contains(k));
        assert(keys.contains(k));
    }
}

/// The frame resumes the session: one slot for every stream that has an acknowledgement to give,
/// with that stream's own.
pub open spec fn resuming(f: PlannedModel, session: u64, acks: Map<u64, u64>) -> bool {
    &&& carries(f, 0, MessageType::Resume, false)
    &&& exists|slots: Seq<(u64, u64)>|
        {
            &&& #[trigger] resumes(bytes_of(f), session, slots)
            &&& keys_in_order(Seq::new(slots.len(), |i: int| slots[i].0), acks)
            &&& forall|i: int| 0 <= i < slots.len() ==> (#[trigger] slots[i]).1 == acks[slots[i].0]
        }
}

/// Resume frames hold the acknowledgements of all streams.
proof fn lemma_resuming(session: u64, acks: Map<u64, u64>)
    ensures
        resuming(crate::replay::resume_frame(session, ack_slots(acks)), session, acks),
{
    let slots = ack_slots(acks);
    let keys = ascending(acks.dom());
    lemma_resume(session, slots);
    lemma_keys_in_order(acks);
    assert(Seq::new(slots.len(), |i: int| slots[i].0) =~= keys);
    assert(resumes(
        bytes_of(crate::replay::resume_frame(session, slots)),
        session,
        slots,
    ));
}

/// The pattern that a stream subscribes to.
pub open spec fn pattern_on(e: StreamEntry) -> Seq<char> {
    match e.topic {
        Some(t) => t@,
        None => seq!['*'],
    }
}

/// Two frames a stream, in turn.
proof fn lemma_streams_plan(keys: Seq<u64>, streams: Map<u64, StreamEntry>, i: int)
    ensures
        streams_plan(keys, streams).len() == 2 * keys.len(),
        0 <= i < keys.len() ==> {
            let sid = keys[i];
            &&& declaring(streams_plan(keys, streams)[2 * i], sid, streams[sid].policy)
            &&& subscribing(streams_plan(keys, streams)[2 * i + 1], sid, pattern_on(streams[sid]), 0)
        },
    decreases keys.len(),
{
    if keys.len() > 0 {
        let front = keys.drop_last();
        lemma_streams_plan(front, streams, i);
        let plan = streams_plan(keys, streams);
        let before = streams_plan(front, streams);
        if 0 <= i < keys.len() - 1 {
            assert(plan[2 * i] == before[2 * i]);
            assert(plan[2 * i + 1] == before[2 * i + 1]);
        } else if i == keys.len() - 1 {
            let sid = keys[i];
            lemma_star();
            lemma_subscribing(sid, pattern_on(streams[sid]), 0);
            let two = stream_frames(sid, streams[sid].policy, streams[sid].topic);
            assert(plan[2 * i] == two[0]);
            assert(plan[2 * i + 1] == two[1]);
        }
    }
}

/// A replay says everything that the server has to know again, in this order and nothing else: the
/// resume of a reliable session, then every subscription, every reply topic, every dedicated
/// stream with its own policy and pattern, and every membership.
pub open spec fn replays(plan: Seq<PlannedModel>, st: TaskState, resubscribe: bool) -> bool {
    let r = if st.reliability.enabled {
        1int
    } else {
        0int
    };
    let subs = st.routing.subs@;
    let topics = st.routing.rpc_reply_topics@;
    let groups = st.group_subs@;
    let a = r + subs.len();
    let b = a + topics.len();
    &&& st.reliability.enabled ==> plan.len() > 0 && resuming(
        plan[0],
        st.reliability.logical_session_id,
        st.reliability.pending_acks@,
    )
    &&& !resubscribe ==> plan.len() == r
    &&& resubscribe ==> {
        &&& forall|i: int|
            0 <= i < subs.len() ==> subscribing(
                plan[r + i],
                0,
                (#[trigger] subs[i]).pattern@,
                subs[i].qos,
            )
        &&& forall|i: int|
            0 <= i < topics.len() ==> subscribing(plan[a + i], 0, (#[trigger] topics[i])@, 0)
        &&& exists|keys: Seq<u64>|
            {
                &&& #[trigger] keys_in_order(keys, st.routing.streams@)
                &&& plan.len() == b + 2 * keys.len() + groups.len()
                &&& forall|i: int|
                    0 <= i < keys.len() ==> {
                        let e = st.routing.streams@[#[trigger] keys[i]];
                        &&& declaring(plan[b + 2 * i], keys[i], e.policy)
                        &&& subscribing(plan[b + 2 * i + 1], keys[i], pattern_on(e), 0)
                    }
                &&& forall|i: int|
                    0 <= i < groups.len() ==> joining(
                        plan[b + 2 * keys.len() + i],
                        (#[trigger] groups[i]).sid,
                        groups[i].topic@,
                        groups[i].group@,
                        groups[i].consumer@,
                        groups[i].partitions,
                    )
            }
    }
}

/// Where the parts of the registrations stand behind the resume.
proof fn lemma_replay_parts(st: TaskState, r: int)
    requires
        r == if st.reliability.enabled {
            1int
        } else {
            0int
        },
    ensures
        ({
            let plan = crate::replay::replay_plan(st, true);
            let subs = subs_plan(st.routing.subs@);
            let topics = reply_topics_plan(st.routing.rpc_reply_topics@);
            let streams = streams_plan(
                ascending(st.routing.streams@.dom()),
                st.routing.streams@,
            );
            let groups = groups_plan(st.group_subs@);
            let a = r + subs.len();
            let b = a + topics.len();
            let c = b + streams.len();
            &&& plan.len() == c + groups.len()
            &&& st.reliability.enabled ==> plan[0] == crate::replay::replay_plan(st, false)[0]
            &&& forall|i: int| 0 <= i < subs.len() ==> #[trigger] subs[i] == plan[r + i]
            &&& forall|i: int| 0 <= i < topics.len() ==> #[trigger] topics[i] == plan[a + i]
            &&& forall|i: int| 0 <= i < streams.len() ==> #[trigger] streams[i] == plan[b + i]
            &&& forall|i: int| 0 <= i < groups.len() ==> #[trigger] groups[i] == plan[c + i]
        }),
{
}

/// What is replayed, in other words.
#[verifier::spinoff_prover]
#[verifier::rlimit(40)]
proof fn lemma_replays(st: TaskState, resubscribe: bool)
    ensures
        replays(crate::replay::replay_plan(st, resubscribe), st, resubscribe),
{
    let plan = crate::replay::replay_plan(st, resubscribe);
    let r = if st.reliability.enabled {
        1int
    } else {
        0int
    };
    let subs = st.routing.subs@;
    let topics = st.routing.rpc_reply_topics@;
    let groups = st.group_subs@;
    let a = r + subs.len();
    let b = a + topics.len();
    let keys = ascending(st.routing.streams@.dom());
    lemma_resuming(st.reliability.logical_session_id, st.reliability.pending_acks@);
    if resubscribe {
        let streams = streams_plan(keys, st.routing.streams@);
        lemma_replay_parts(st, r);
        lemma_keys_in_order(st.routing.streams@);
        lemma_streams_plan(keys, st.routing.streams@, 0);
        assert forall|i: int| 0 <= i < subs.len() implies subscribing(
            plan[r + i],
            0,
            (#[trigger] subs[i]).pattern@,
            subs[i].qos,
        ) by {
            lemma_subscribing(0, subs[i].pattern@, subs[i].qos);
            assert(subs_plan(subs)[i] == plan[r + i]);
        }
        assert forall|i: int| 0 <= i < topics.len() implies subscribing(
            plan[a + i],
            0,
            (#[trigger] topics[i])@,
            0,
        ) by {
            lemma_subscribing(0, topics[i]@, 0);
            assert(reply_topics_plan(topics)[i] == plan[a + i]);
        }
        assert forall|i: int| 0 <= i < keys.len() implies {
            let e = st.routing.streams@[#[trigger] keys[i]];
            &&& declaring(plan[b + 2 * i], keys[i], e.policy)
            &&& subscribing(plan[b + 2 * i + 1], keys[i], pattern_on(e), 0)
        } by {
            lemma_streams_plan(keys, st.routing.streams@, i);
            assert(streams[2 * i] == plan[b + 2 * i]);
            assert(streams[2 * i + 1] == plan[b + (2 * i + 1)]);
        }
        assert forall|i: int| 0 <= i < groups.len() implies joining(
            plan[b + 2 * keys.len() + i],
            (#[trigger] groups[i]).sid,
            groups[i].topic@,
            groups[i].group@,
            groups[i].consumer@,
            groups[i].partitions,
        ) by {
            let e = groups[i];
            lemma_joining(e.sid, e.topic@, e.group@, e.consumer@, e.partitions);
            assert(groups_plan(groups)[i] == plan[b + 2 * keys.len() + i]);
        }
        assert(keys_in_order(keys, st.routing.streams@));
    }
}

/// A new connection is told everything again. Numbers start over and fetches are given up; what
/// was accepted and acknowledged stays, and so does every registration, but for reply topics that
/// are not subscribed to again.
pub proof fn law_reconnects_restore_the_session(st: &mut TaskState, resubscribe: bool, b: Batch)
    requires
        call_ensures(TaskState::replay_all, (st, resubscribe), b),
    ensures
        replays(b@.left, *old(st), resubscribe),
        !b@.failed,
        forall|sid: u64| #[trigger] number_on(final(st).seqs@, sid) == 0,
        final(st).pending_fetches@.len() == 0,
        final(st).reliability == old(st).reliability,
        final(st).group_subs == old(st).group_subs,
        final(st).next_bidi == old(st).next_bidi,
        final(st).routing.subs == old(st).routing.subs,
        final(st).routing.streams == old(st).routing.streams,
        final(st).routing.pending_rpcs == old(st).routing.pending_rpcs,
        resubscribe ==> final(st).routing.rpc_reply_topics == old(st).routing.rpc_reply_topics,
        !resubscribe ==> final(st).routing.rpc_reply_topics@.len() == 0,
{
    lemma_replays(*old(st), resubscribe);
}

/// A reliable session introduces itself with its id and no slots; any other says nothing. The
/// heartbeat is one subscribe on the default channel, and one join for every membership, in order.
pub proof fn law_sessions_introduce_themselves(
    st: &TaskState,
    hello: Batch,
    probe: Batch,
    beats: Batch,
)
    requires
        call_ensures(TaskState::session_hello, (st,), hello),
        call_ensures(TaskState::heartbeat_probe, (st,), probe),
        call_ensures(TaskState::heartbeat_group_subs, (st,), beats),
    ensures
        !hello@.failed,
        !st.reliability.enabled ==> hello@.left.len() == 0,
        st.reliability.enabled ==> {
            &&& hello@.left.len() == 1
            &&& carries(hello@.left[0], 0, MessageType::Resume, false)
            &&& resumes(
                bytes_of(hello@.left[0]),
                st.reliability.logical_session_id,
                Seq::empty(),
            )
        },
        !probe@.failed,
        probe@.left.len() == 1,
        subscribing(probe@.left[0], 0, "_heartbeat.probe"@, 0),
        !beats@.failed,
        beats@.left.len() == st.group_subs@.len(),
        forall|i: int|
            0 <= i < st.group_subs@.len() ==> joining(
                beats@.left[i],
                (#[trigger] st.group_subs@[i]).sid,
                st.group_subs@[i].topic@,
                st.group_subs@[i].group@,
                st.group_subs@[i].consumer@,
                st.group_subs@[i].partitions,
            ),
{
    lemma_resume(st.reliability.logical_session_id, Seq::empty());
    lemma_subscribing(0, "_heartbeat.probe"@, 0);
    assert forall|i: int| 0 <= i < st.group_subs@.len() implies joining(
        beats@.left[i],
        (#[trigger] st.group_subs@[i]).sid,
        st.group_subs@[i].topic@,
        st.group_subs@[i].group@,
        st.group_subs@[i].consumer@,
        st.group_subs@[i].partitions,
    ) by {
        let e = st.group_subs@[i];
        lemma_joining(e.sid, e.topic@, e.group@, e.consumer@, e.partitions);
    }
}

/// A batch hands out its frames in order, each with the next number of its stream, until all are
/// out or one was refused; after that it uses no more numbers.
pub proof fn law_batches_hand_out_in_order(
    st: &mut TaskState,
    batch: &mut Batch,
    r: Option<OutFrame>,
)
    requires
        call_ensures(TaskState::next_frame, (st, batch), r),
    ensures
        r is Some <==> !old(batch)@.failed && old(batch)@.left.len() > 0,
        r is None ==> final(batch)@ == old(batch)@ && final(st).seqs@ == old(st).seqs@,
        r matches Some(f) ==> {
            &&& f@.frame == old(batch)@.left[0]
            &&& numbered(*old(st), *final(st), f)
            &&& old(batch)@.left == seq![f@.frame] + final(batch)@.left
            &&& !final(batch)@.failed
        },
        *final(st) == (TaskState { seqs: final(st).seqs, ..*old(st) }),
{
    if let Some(f) = r {
        assert(old(batch)@.left =~= seq![f@.frame] + final(batch)@.left);
    }
}

/// A refused frame fails the batch for good; a batch that was not refused anything has been sent.
pub proof fn law_refusals_fail_the_batch(
    batch: &mut Batch,
    sent: bool,
    grown: &mut Batch,
    frame: Planned,
    done: &Batch,
    ok: bool,
)
    requires
        call_ensures(Batch::report, (batch, sent), ()),
        call_ensures(Batch::add_frame, (grown, frame), ()),
        call_ensures(Batch::all_sent, (done,), ok),
    ensures
        !sent ==> final(batch)@.failed,
        sent ==> final(batch)@.failed == old(batch)@.failed,
        old(batch)@.failed ==> final(batch)@.failed,
        final(batch)@.left == old(batch)@.left,
        final(grown)@.left == old(grown)@.left + seq![frame@],
        final(grown)@.failed == old(grown)@.failed,
        ok <==> !done@.failed,
{
    assert(old(grown)@.left.push(frame@) =~= old(grown)@.left + seq![frame@]);
}

/// Numbers of a stream go up by one, from 0, and no other stream's are affected.
pub proof fn law_numbers_go_up_by_one(
    seqs: &mut SeqCounters,
    sid: u64,
    r: u64,
    st: &mut TaskState,
    n: u64,
    other: u64,
)
    requires
        call_ensures(SeqCounters::next_seq, (seqs, sid), r),
        call_ensures(TaskState::next_seq, (st, sid), n),
        other != sid,
    ensures
        r == number_on(old(seqs)@, sid),
        number_on(final(seqs)@, sid) == (r + 1) % 0x1_0000_0000_0000_0000,
        number_on(final(seqs)@, other) == number_on(old(seqs)@, other),
        n == number_on(old(st).seqs@, sid),
        number_on(final(st).seqs@, sid) == (n + 1) % 0x1_0000_0000_0000_0000,
        number_on(final(st).seqs@, other) == number_on(old(st).seqs@, other),
{
}

} // verus!
