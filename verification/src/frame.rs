//! Frames: what arrives, what is to be sent, and batches of the latter.
use std::collections::{BTreeMap, VecDeque};
use bytes::Bytes;
use vstd::prelude::*;

use crate::stream::DeliveryPolicy;

verus! {

broadcast use vstd::std_specs::btree::group_btree_axioms;

/// What a frame is for. Kinds that the client neither sends nor acts on are `Other`.
#[derive(Clone, Copy, Debug, PartialEq, Eq, Structural)]
pub enum MessageType {
    Publish,
    Subscribe,
    Unsubscribe,
    StreamOpen,
    NotifyOffset,
    Fetch,
    FetchReply,
    Resume,
    ResumeOk,
    ResumeUnavailable,
    Ack,
    ConsumerGroupJoin,
    ConsumerGroupLeave,
    Other,
}

/// A decoded inbound frame.
pub struct Frame {
    /// What it is for.
    pub msg_type: MessageType,
    /// Sequence number assigned by the sender.
    pub seq: u64,
    /// Whether the sender asks for an acknowledgement.
    pub ack_req: bool,
    /// The bytes it carries.
    pub payload: Bytes,
}

/// What an outbound frame carries.
pub enum FrameBody {
    /// These bytes.
    Raw(Vec<u8>),
    /// The declaration of a stream's delivery policy.
    Policy(DeliveryPolicy),
}

/// The contents of a [`FrameBody`].
pub enum BodyModel {
    Raw(Seq<u8>),
    Policy(DeliveryPolicy),
}

impl View for FrameBody {
    type V = BodyModel;

    open spec fn view(&self) -> BodyModel {
        match *self {
            FrameBody::Raw(bytes) => BodyModel::Raw(bytes@),
            FrameBody::Policy(policy) => BodyModel::Policy(policy),
        }
    }
}

/// A frame to be sent that has no sequence number yet.
pub struct Planned {
    /// The stream it leaves on.
    pub stream_id: u64,
    /// What it is for.
    pub msg_type: MessageType,
    /// Whether an acknowledgement is asked for.
    pub ack_req: bool,
    /// What it carries.
    pub body: FrameBody,
}

/// What a [`Planned`] frame says.
pub struct PlannedModel {
    pub stream_id: u64,
    pub msg_type: MessageType,
    pub ack_req: bool,
    pub body: BodyModel,
}

impl View for Planned {
    type V = PlannedModel;

    open spec fn view(&self) -> PlannedModel {
        PlannedModel {
            stream_id: self.stream_id,
            msg_type: self.msg_type,
            ack_req: self.ack_req,
            body: self.body@,
        }
    }
}

/// A frame that carries `bytes` and asks for no acknowledgement.
pub open spec fn plain(stream_id: u64, msg_type: MessageType, bytes: Seq<u8>) -> PlannedModel {
    PlannedModel { stream_id, msg_type, ack_req: false, body: BodyModel::Raw(bytes) }
}

/// The frame that declares a stream's policy.
pub open spec fn opening(stream_id: u64, policy: DeliveryPolicy) -> PlannedModel {
    PlannedModel {
        stream_id,
        msg_type: MessageType::StreamOpen,
        ack_req: false,
        body: BodyModel::Policy(policy),
    }
}

impl Planned {
    /// A frame that carries `bytes` and asks for no acknowledgement.
    pub fn plain(stream_id: u64, msg_type: MessageType, bytes: Vec<u8>) -> (r: Self)
        ensures
            r@ == plain(stream_id, msg_type, bytes@),
    {
        Planned { stream_id, msg_type, ack_req: false, body: FrameBody::Raw(bytes) }
    }

    /// The frame that declares a stream's policy.
    pub fn opening(stream_id: u64, policy: DeliveryPolicy) -> (r: Self)
        ensures
            r@ == opening(stream_id, policy),
    {
        Planned {
            stream_id,
            msg_type: MessageType::StreamOpen,
            ack_req: false,
            body: FrameBody::Policy(policy),
        }
    }
}

/// A frame ready to be encoded and sent.
pub struct OutFrame {
    /// Per-stream sequence number.
    pub seq: u64,
    /// The rest of it.
    pub frame: Planned,
}

/// What an [`OutFrame`] says.
pub struct FrameModel {
    pub seq: u64,
    pub frame: PlannedModel,
}

impl View for OutFrame {
    type V = FrameModel;

    open spec fn view(&self) -> FrameModel {
        FrameModel { seq: self.seq, frame: self.frame@ }
    }
}

/// Outgoing sequence counters, one per stream.
pub struct SeqCounters {
    /// The next number of each stream that has sent something.
    pub next: BTreeMap<u64, u64>,
}

impl View for SeqCounters {
    type V = Map<u64, u64>;

    open spec fn view(&self) -> Map<u64, u64> {
        self.next@
    }
}

/// The number that the next frame on `sid` gets: streams count from 0.
pub open spec fn upcoming(seqs: Map<u64, u64>, sid: u64) -> u64 {
    if seqs.contains_key(sid) {
        seqs[sid]
    } else {
        0
    }
}

/// The counters after `sid` has used a number. They wrap around.
pub open spec fn advanced(seqs: Map<u64, u64>, sid: u64) -> Map<u64, u64> {
    seqs.insert(sid, upcoming(seqs, sid).wrapping_add(1))
}

impl SeqCounters {
    /// Every stream starts at 0.
    pub fn new() -> (r: Self)
        ensures
            r@ == Map::<u64, u64>::empty(),
    {
        SeqCounters { next: BTreeMap::new() }
    }

    /// Next outgoing sequence number for `stream_id`.
    pub fn next_seq(&mut self, stream_id: u64) -> (r: u64)
        ensures
            r == upcoming(old(self)@, stream_id),
            final(self)@ == advanced(old(self)@, stream_id),
    {
        let s: u64 = match self.next.get(&stream_id) {
            Some(n) => *n,
            None => 0,
        };
        self.next.insert(stream_id, s.wrapping_add(1));
        s
    }

    /// Gives a planned frame its sequence number.
    pub fn stamp(&mut self, frame: Planned) -> (r: OutFrame)
        ensures
            r@ == (FrameModel {
                seq: upcoming(old(self)@, frame@.stream_id),
                frame: frame@,
            }),
            final(self)@ == advanced(old(self)@, frame@.stream_id),
    {
        let seq: u64 = self.next_seq(frame.stream_id);
        OutFrame { seq, frame }
    }
}

/// What the planned frames of a queue say.
pub open spec fn plan_of(frames: Seq<Planned>) -> Seq<PlannedModel> {
    frames.map_values(|p: Planned| p@)
}

/// Frames to be sent in this order. Each gets its sequence number when its turn comes; after
/// the first that could not be sent, the rest are given up and use no numbers.
pub struct Batch {
    /// Frames not yet handed out.
    pub queue: VecDeque<Planned>,
    /// Whether a frame could not be sent.
    pub failed: bool,
}

/// The state of a [`Batch`].
#[verifier::ext_equal]
pub struct BatchModel {
    pub left: Seq<PlannedModel>,
    pub failed: bool,
}

impl View for Batch {
    type V = BatchModel;

    open spec fn view(&self) -> BatchModel {
        BatchModel { left: plan_of(self.queue@), failed: self.failed }
    }
}

impl Batch {
    /// No frames.
    pub fn new() -> (r: Self)
        ensures
            r@ == (BatchModel { left: Seq::empty(), failed: false }),
    {
        let r = Batch { queue: VecDeque::new(), failed: false };
        assert(r@.left =~= Seq::empty());
        r
    }

    /// Appends a frame.
    pub fn add_frame(&mut self, frame: Planned)
        ensures
            final(self)@ == (BatchModel {
                left: old(self)@.left.push(frame@),
                failed: old(self)@.failed,
            }),
    {
        self.queue.push_back(frame);
        assert(self@.left =~= old(self)@.left.push(frame@));
    }

    /// The next frame to send, with its sequence number. `None` once all have been handed out
    /// or one could not be sent.
    pub fn next_frame(&mut self, seqs: &mut SeqCounters) -> (r: Option<OutFrame>)
        ensures
            old(self)@.failed || old(self)@.left.len() == 0 ==> {
                &&& r is None
                &&& final(self)@ == old(self)@
                &&& final(seqs)@ == old(seqs)@
            },
            !old(self)@.failed && old(self)@.left.len() > 0 ==> {
                let p = old(self)@.left[0];
                &&& r is Some
                &&& r->0@ == (FrameModel { seq: upcoming(old(seqs)@, p.stream_id), frame: p })
                &&& final(seqs)@ == advanced(old(seqs)@, p.stream_id)
                &&& final(self)@ == (BatchModel {
                    left: old(self)@.left.skip(1),
                    failed: false,
                })
            },
    {
        if self.failed {
            return None;
        }
        match self.queue.pop_front() {
            Some(p) => {
                assert(self@.left =~= old(self)@.left.skip(1));
                Some(seqs.stamp(p))
            },
            None => None,
        }
    }

    /// Says whether the frame handed out last could be sent.
    pub fn report(&mut self, sent: bool)
        ensures
            final(self)@ == (BatchModel {
                left: old(self)@.left,
                failed: old(self)@.failed || !sent,
            }),
    {
        if !sent {
            self.failed = true;
        }
    }

    /// Whether no frame has failed.
    pub fn all_sent(&self) -> (r: bool)
        ensures
            r == !self@.failed,
    {
        !self.failed
    }
}

/// The frames of a plan with their sequence numbers, from these counters on.
pub open spec fn stamped(seqs: Map<u64, u64>, plan: Seq<PlannedModel>) -> Seq<FrameModel>
    decreases plan.len(),
{
    if plan.len() == 0 {
        Seq::empty()
    } else {
        stamped(seqs, plan.drop_last()).push(
            FrameModel {
                seq: upcoming(counters_after(seqs, plan.drop_last()), plan.last().stream_id),
                frame: plan.last(),
            },
        )
    }
}

/// The counters after every frame of a plan has got its number.
pub open spec fn counters_after(seqs: Map<u64, u64>, plan: Seq<PlannedModel>) -> Map<u64, u64>
    decreases plan.len(),
{
    if plan.len() == 0 {
        seqs
    } else {
        advanced(counters_after(seqs, plan.drop_last()), plan.last().stream_id)
    }
}

/// How many frames of a plan leave on `sid`.
pub open spec fn frames_on(plan: Seq<PlannedModel>, sid: u64) -> nat
    decreases plan.len(),
{
    if plan.len() == 0 {
        0
    } else {
        frames_on(plan.drop_last(), sid) + if plan.last().stream_id == sid {
            1nat
        } else {
            0nat
        }
    }
}

/// Counting on from `x` and then wrapping is wrapping and then counting on.
proof fn lemma_wrapping_count(x: nat, u: u64)
    requires
        u == x % 0x1_0000_0000_0000_0000,
    ensures
        u.wrapping_add(1) == (x + 1) % 0x1_0000_0000_0000_0000,
{
}

/// Each stream's frames are numbered one after the other: after a plan the stream's counter has
/// advanced by the number of its frames, and no other stream's frames matter to it.
pub proof fn law_streams_count_their_own_frames(
    seqs: Map<u64, u64>,
    plan: Seq<PlannedModel>,
    sid: u64,
)
    ensures
        upcoming(counters_after(seqs, plan), sid) == (upcoming(seqs, sid) + frames_on(plan, sid))
            % 0x1_0000_0000_0000_0000,
    decreases plan.len(),
{
    if plan.len() > 0 {
        law_streams_count_their_own_frames(seqs, plan.drop_last(), sid);
        let before = upcoming(counters_after(seqs, plan.drop_last()), sid);
        lemma_wrapping_count(upcoming(seqs, sid) as nat + frames_on(plan.drop_last(), sid), before);
    }
}

/// A plan keeps its order: the frames that go out are those planned, one for one, each numbered
/// behind the earlier frames of its stream.
pub proof fn law_batches_keep_their_order(seqs: Map<u64, u64>, plan: Seq<PlannedModel>, i: int)
    requires
        0 <= i < plan.len(),
    ensures
        stamped(seqs, plan).len() == plan.len(),
        stamped(seqs, plan)[i].frame == plan[i],
        stamped(seqs, plan)[i].seq == (upcoming(seqs, plan[i].stream_id) + frames_on(
            plan.take(i),
            plan[i].stream_id,
        )) % 0x1_0000_0000_0000_0000,
    decreases plan.len(),
{
    lemma_stamped_len(seqs, plan);
    if i == plan.len() - 1 {
        assert(plan.take(i) =~= plan.drop_last());
        lemma_stamped_len(seqs, plan.drop_last());
        law_streams_count_their_own_frames(seqs, plan.drop_last(), plan[i].stream_id);
    } else {
        law_batches_keep_their_order(seqs, plan.drop_last(), i);
        assert(plan.drop_last().take(i) =~= plan.take(i));
    }
}

/// Handing a plan out one frame at a time gives the stamped plan: with `k` frames out, the
/// counters stand where the first `k` frames leave them, and the frame that comes next is the
/// stamped plan's frame `k`.
pub proof fn law_batches_are_handed_out_in_turn(
    seqs: Map<u64, u64>,
    plan: Seq<PlannedModel>,
    k: int,
)
    requires
        0 <= k < plan.len(),
    ensures
        plan.skip(k)[0] == plan[k],
        plan.skip(k).skip(1) == plan.skip(k + 1),
        stamped(seqs, plan)[k] == (FrameModel {
            seq: upcoming(counters_after(seqs, plan.take(k)), plan[k].stream_id),
            frame: plan[k],
        }),
        advanced(counters_after(seqs, plan.take(k)), plan[k].stream_id) == counters_after(
            seqs,
            plan.take(k + 1),
        ),
    decreases plan.len(),
{
    assert(plan.skip(k).skip(1) =~= plan.skip(k + 1));
    assert(plan.take(k + 1).drop_last() =~= plan.take(k));
    lemma_stamped_len(seqs, plan.drop_last());
    if k == plan.len() - 1 {
        assert(plan.take(k) =~= plan.drop_last());
    } else {
        law_batches_are_handed_out_in_turn(seqs, plan.drop_last(), k);
        assert(plan.drop_last().take(k) =~= plan.take(k));
    }
}

/// A stamped plan has as many frames as the plan.
proof fn lemma_stamped_len(seqs: Map<u64, u64>, plan: Seq<PlannedModel>)
    ensures
        stamped(seqs, plan).len() == plan.len(),
    decreases plan.len(),
{
    if plan.len() > 0 {
        lemma_stamped_len(seqs, plan.drop_last());
    }
}

} // verus!
