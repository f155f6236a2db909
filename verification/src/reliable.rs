//! Reliable delivery: per-stream duplicate suppression and cumulative acknowledgement.
//!
//! Frames that ask for an acknowledgement carry a sequence number per stream. A frame at or
//! below the stream's watermark has been delivered before and is suppressed; one above it is
//! delivered and advances the watermark. Every so many such frames a cumulative acknowledgement
//! is queued, which the connection task sends.
use std::collections::BTreeMap;
use vstd::prelude::*;

verus! {

broadcast use vstd::std_specs::btree::group_btree_axioms;

/// Watermarks, acknowledgement counters and the queue of acknowledgements to send.
pub struct Reliability {
    /// Whether acknowledgements are used at all.
    pub enabled: bool,
    /// An acknowledgement is queued every so many reliable frames of a stream; 0 counts as 1.
    pub ack_interval: u8,
    /// Stable logical session id, the same across reconnects.
    pub logical_session_id: u64,
    /// Per stream, the highest sequence number that was accepted.
    pub highest_accepted: BTreeMap<u64, u64>,
    /// Per stream, the cumulative acknowledgement that goes out next.
    pub pending_acks: BTreeMap<u64, u64>,
    /// Per stream, the reliable frames since the last queued acknowledgement.
    pub reliable_since_flush: BTreeMap<u64, u8>,
    /// Acknowledgements waiting to be sent: stream id and sequence number.
    pub pending_ack_flush: Vec<(u64, u64)>,
    /// Duplicate reliable frames that were suppressed; wraps around.
    pub duplicates_detected: u64,
}

/// The state of [`Reliability`].
#[verifier::ext_equal]
pub struct ReliabilityModel {
    pub enabled: bool,
    pub ack_interval: u8,
    pub logical_session_id: u64,
    pub highest: Map<u64, u64>,
    pub acks: Map<u64, u64>,
    pub since_flush: Map<u64, u8>,
    pub queue: Seq<(u64, u64)>,
    pub duplicates: u64,
}

impl View for Reliability {
    type V = ReliabilityModel;

    open spec fn view(&self) -> ReliabilityModel {
        ReliabilityModel {
            enabled: self.enabled,
            ack_interval: self.ack_interval,
            logical_session_id: self.logical_session_id,
            highest: self.highest_accepted@,
            acks: self.pending_acks@,
            since_flush: self.reliable_since_flush@,
            queue: self.pending_ack_flush@,
            duplicates: self.duplicates_detected,
        }
    }
}

/// The number that a table holds for a stream, 0 where it holds none.
pub open spec fn entry_or_zero(m: Map<u64, u64>, sid: u64) -> u64 {
    if m.contains_key(sid) {
        m[sid]
    } else {
        0
    }
}

impl ReliabilityModel {
    /// How many reliable frames of a stream make one acknowledgement.
    pub open spec fn threshold(self) -> u8 {
        if self.ack_interval == 0 {
            1
        } else {
            self.ack_interval
        }
    }

    /// Reliable frames of `sid` since its last queued acknowledgement.
    pub open spec fn counted(self, sid: u64) -> u8 {
        if self.since_flush.contains_key(sid) {
            self.since_flush[sid]
        } else {
            0
        }
    }

    /// The highest sequence number of `sid` that was accepted.
    pub open spec fn watermark(self, sid: u64) -> u64 {
        entry_or_zero(self.highest, sid)
    }

    /// The state after one more reliable frame of `sid` has been counted: at the threshold the
    /// count starts over and the stream's cumulative acknowledgement is queued.
    pub open spec fn count_frame(self, sid: u64) -> ReliabilityModel {
        if !self.enabled {
            self
        } else if self.counted(sid) + 1 >= self.threshold() {
            ReliabilityModel {
                since_flush: self.since_flush.insert(sid, 0),
                queue: self.queue.push((sid, entry_or_zero(self.acks, sid))),
                ..self
            }
        } else {
            ReliabilityModel {
                since_flush: self.since_flush.insert(sid, (self.counted(sid) + 1) as u8),
                ..self
            }
        }
    }

    /// Whether a reliable frame has not been delivered before.
    pub open spec fn is_new(self, sid: u64, seq: u64) -> bool {
        seq > self.watermark(sid)
    }

    /// The state after a reliable frame of `sid` with number `seq` has arrived.
    pub open spec fn arrive(self, sid: u64, seq: u64) -> ReliabilityModel {
        if self.is_new(sid, seq) {
            ReliabilityModel {
                highest: self.highest.insert(sid, seq),
                acks: self.acks.insert(sid, seq),
                ..self
            }.count_frame(sid)
        } else {
            ReliabilityModel {
                duplicates: self.duplicates.wrapping_add(1),
                acks: if seq > entry_or_zero(self.acks, sid) {
                    self.acks.insert(sid, seq)
                } else {
                    self.acks
                },
                ..self
            }.count_frame(sid)
        }
    }

    /// The state after reliable frames of `sid` with the numbers `seqs` have arrived.
    pub open spec fn arrive_all(self, sid: u64, seqs: Seq<u64>) -> ReliabilityModel
        decreases seqs.len(),
    {
        if seqs.len() == 0 {
            self
        } else {
            self.arrive_all(sid, seqs.drop_last()).arrive(sid, seqs.last())
        }
    }

    /// The next acknowledgement of every stream is its watermark.
    pub open spec fn acks_in_step(self) -> bool {
        self.acks == self.highest
    }
}

/// What the table holds for `sid`, 0 where it holds nothing.
fn lookup(m: &BTreeMap<u64, u64>, sid: u64) -> (r: u64)
    ensures
        r == entry_or_zero(m@, sid),
{
    match m.get(&sid) {
        Some(v) => *v,
        None => 0,
    }
}

impl Reliability {
    /// No stream has been heard of yet.
    pub fn new(enabled: bool, ack_interval: u8, logical_session_id: u64) -> (r: Self)
        ensures
            r@ == (ReliabilityModel {
                enabled,
                ack_interval,
                logical_session_id,
                highest: Map::empty(),
                acks: Map::empty(),
                since_flush: Map::empty(),
                queue: Seq::empty(),
                duplicates: 0,
            }),
    {
        Reliability {
            enabled,
            ack_interval,
            logical_session_id,
            highest_accepted: BTreeMap::new(),
            pending_acks: BTreeMap::new(),
            reliable_since_flush: BTreeMap::new(),
            pending_ack_flush: Vec::new(),
            duplicates_detected: 0,
        }
    }

    /// Counts one reliable frame of `stream_id` and, at the threshold, queues the stream's
    /// cumulative acknowledgement. Does nothing when acknowledgements are not used.
    pub fn maybe_flush_ack(&mut self, stream_id: u64)
        ensures
            final(self)@ == old(self)@.count_frame(stream_id),
    {
        if !self.enabled {
            return ;
        }
        let counter: u8 = match self.reliable_since_flush.get(&stream_id) {
            Some(n) => *n,
            None => 0,
        };
        let counter: u8 = if counter == 255 {
            255
        } else {
            counter + 1
        };
        let threshold: u8 = if self.ack_interval == 0 {
            1
        } else {
            self.ack_interval
        };
        if counter >= threshold {
            self.reliable_since_flush.insert(stream_id, 0);
            let ack_seq: u64 = lookup(&self.pending_acks, stream_id);
            self.pending_ack_flush.push((stream_id, ack_seq));
        } else {
            self.reliable_since_flush.insert(stream_id, counter);
        }
    }

    /// Takes note of a reliable frame of `sid` with number `seq`: whether it is to be delivered.
    pub fn take_note(&mut self, sid: u64, seq: u64) -> (r: bool)
        ensures
            r == old(self)@.is_new(sid, seq),
            final(self)@ == old(self)@.arrive(sid, seq),
    {
        let high: u64 = lookup(&self.highest_accepted, sid);
        if seq <= high {
            self.duplicates_detected = self.duplicates_detected.wrapping_add(1);
            let cur: u64 = lookup(&self.pending_acks, sid);
            if seq > cur {
                self.pending_acks.insert(sid, seq);
            }
            self.maybe_flush_ack(sid);
            false
        } else {
            self.highest_accepted.insert(sid, seq);
            self.pending_acks.insert(sid, seq);
            self.maybe_flush_ack(sid);
            true
        }
    }
}

/// A frame is delivered only above the watermark, the watermark never falls, and right after
/// the frame it is no longer new: nothing is delivered twice.
pub proof fn law_no_frame_is_delivered_twice(m: ReliabilityModel, sid: u64, seq: u64)
    ensures
        m.arrive(sid, seq).watermark(sid) >= m.watermark(sid),
        m.arrive(sid, seq).watermark(sid) >= seq,
        m.is_new(sid, seq) ==> m.arrive(sid, seq).watermark(sid) == seq,
        !m.is_new(sid, seq) ==> m.arrive(sid, seq).watermark(sid) == m.watermark(sid),
        !m.arrive(sid, seq).is_new(sid, seq),
{
}

/// Whatever arrives in between, a delivered frame stays a duplicate for good.
pub proof fn law_duplicates_stay_suppressed(
    m: ReliabilityModel,
    sid: u64,
    seq: u64,
    between: Seq<u64>,
)
    ensures
        !m.arrive(sid, seq).arrive_all(sid, between).is_new(sid, seq),
        m.arrive_all(sid, between).watermark(sid) >= m.watermark(sid),
    decreases between.len(),
{
    law_no_frame_is_delivered_twice(m, sid, seq);
    if between.len() > 0 {
        law_duplicates_stay_suppressed(m, sid, seq, between.drop_last());
        law_no_frame_is_delivered_twice(
            m.arrive(sid, seq).arrive_all(sid, between.drop_last()),
            sid,
            between.last(),
        );
        law_no_frame_is_delivered_twice(
            m.arrive_all(sid, between.drop_last()),
            sid,
            between.last(),
        );
    }
}

/// Every duplicate is counted, and nothing else is.
pub proof fn law_duplicates_are_counted(m: ReliabilityModel, sid: u64, seq: u64)
    ensures
        m.arrive(sid, seq).duplicates == if m.is_new(sid, seq) {
            m.duplicates
        } else {
            m.duplicates.wrapping_add(1)
        },
{
}

/// Streams do not disturb each other: a frame of one leaves the watermark, the pending
/// acknowledgement and the count of every other stream as they are.
pub proof fn law_streams_are_independent(m: ReliabilityModel, sid: u64, seq: u64, other: u64)
    requires
        sid != other,
    ensures
        m.arrive(sid, seq).watermark(other) == m.watermark(other),
        entry_or_zero(m.arrive(sid, seq).acks, other) == entry_or_zero(m.acks, other),
        m.arrive(sid, seq).counted(other) == m.counted(other),
{
}

/// The pending acknowledgement of every stream stays equal to its watermark.
pub proof fn law_acks_stay_in_step(m: ReliabilityModel, sid: u64, seq: u64)
    requires
        m.acks_in_step(),
    ensures
        m.arrive(sid, seq).acks_in_step(),
{
}

/// One acknowledgement is queued per `ack_interval` reliable frames: after `n` frames on a
/// stream that had none counted, `n / ack_interval` have been queued, and `n % ack_interval`
/// frames are counted towards the next.
pub proof fn law_ack_cadence(m: ReliabilityModel, sid: u64, seqs: Seq<u64>)
    requires
        m.enabled,
        m.counted(sid) == 0,
    ensures
        m.arrive_all(sid, seqs).queue.len() == m.queue.len() + seqs.len() / (m.threshold() as nat),
        m.arrive_all(sid, seqs).counted(sid) == seqs.len() % (m.threshold() as nat),
        m.arrive_all(sid, seqs).enabled,
        m.arrive_all(sid, seqs).ack_interval == m.ack_interval,
    decreases seqs.len(),
{
    let t = m.threshold() as int;
    if seqs.len() > 0 {
        law_ack_cadence(m, sid, seqs.drop_last());
        let n = seqs.len() - 1;
        vstd::arithmetic::div_mod::lemma_fundamental_div_mod(n, t);
        let q = n / t;
        let r = n % t;
        if r + 1 == t {
            assert((q + 1) * t == q * t + t) by (nonlinear_arith);
            vstd::arithmetic::div_mod::lemma_fundamental_div_mod_converse(n + 1, t, q + 1, 0);
        } else {
            vstd::arithmetic::div_mod::lemma_fundamental_div_mod_converse(n + 1, t, q, r + 1);
        }
    } else {
        vstd::arithmetic::div_mod::lemma_small_mod(0, t as nat);
        assert(0int / t == 0) by (nonlinear_arith)
            requires
                t > 0,
        ;
    }
}

/// A queued acknowledgement is cumulative: it carries the stream's watermark, where the pending
/// acknowledgements are in step with the watermarks.
pub proof fn law_acks_are_cumulative(m: ReliabilityModel, sid: u64, seq: u64)
    requires
        m.acks_in_step(),
        m.arrive(sid, seq).queue.len() > m.queue.len(),
    ensures
        m.arrive(sid, seq).queue == m.queue.push((sid, m.arrive(sid, seq).watermark(sid))),
{
}

} // verus!
