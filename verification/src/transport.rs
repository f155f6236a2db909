//! The transport's decisions: buffering of partial writes, and what to do about each outcome of
//! the socket and of the QUIC connection.
use std::collections::BTreeMap;
use bytes::BytesMut;
use vstd::prelude::*;
use vstd::string::*;

use crate::buf;
use crate::buf::buffer_view;
use crate::config::{ClientConfig, ClientIdentity, FilePath, TlsVerify};
use crate::error::ConnectError;
use crate::order::{ascending, keys_of, lists};
use crate::text;
use crate::time::Duration;
use crate::wire;
use crate::wire::be;

verus! {

broadcast use vstd::std_specs::btree::group_btree_axioms;

/// Largest UDP payload.
pub const DGRAM_BUF: usize = 65507;

/// Seconds within which the handshake must complete.
pub const HANDSHAKE_DEADLINE_SECS: u64 = 10;

/// Milliseconds after which the task wakes up in any case.
pub const KEEPALIVE_MS: u64 = 200;

/// Bytes of a frame's header.
pub const HEADER_SIZE: usize = 22;

/// Bytes of a frame's checksum.
pub const CRC_SIZE: usize = 4;

/// Frames up to this size are encoded on the stack.
pub const STACK_ENCODE_MAX: usize = 2048;

/// Flow-control window of a connection: 100 MiB.
pub const MAX_DATA: u64 = 104_857_600;

/// Flow-control window of a stream: 10 MiB.
pub const MAX_STREAM_DATA: u64 = 10_485_760;

/// Bytes that could not be written yet, per stream, because the peer's flow control did not let
/// them through.
pub struct PendingWrites {
    /// The unwritten tails.
    pub tails: BTreeMap<u64, BytesMut>,
}

impl View for PendingWrites {
    type V = Map<u64, Seq<u8>>;

    open spec fn view(&self) -> Map<u64, Seq<u8>> {
        self.tails@.map_values(|b: BytesMut| buffer_view(b))
    }
}

/// What is pending on a stream.
pub open spec fn tail_of(pending: Map<u64, Seq<u8>>, sid: u64) -> Seq<u8> {
    if pending.contains_key(sid) {
        pending[sid]
    } else {
        Seq::empty()
    }
}

/// `pending` with this tail on a stream; an empty one is not kept.
pub open spec fn with_tail(
    pending: Map<u64, Seq<u8>>,
    sid: u64,
    tail: Seq<u8>,
) -> Map<u64, Seq<u8>> {
    if tail.len() == 0 {
        pending.remove(sid)
    } else {
        pending.insert(sid, tail)
    }
}

/// The bytes pending on these streams together.
pub open spec fn bytes_on(keys: Seq<u64>, pending: Map<u64, Seq<u8>>) -> nat
    decreases keys.len(),
{
    if keys.len() == 0 {
        0
    } else {
        bytes_on(keys.drop_last(), pending) + pending[keys.last()].len()
    }
}

/// All bytes pending.
pub open spec fn pending_total(pending: Map<u64, Seq<u8>>) -> nat {
    bytes_on(ascending(pending.dom()), pending)
}

/// What became of handing bytes to a stream.
pub enum WriteOutcome {
    /// So many were taken; 0 means that there is no room.
    Wrote(usize),
    /// There is no room right now.
    Blocked,
    /// The stream is closed for writing.
    StreamClosed,
    /// The QUIC library failed, with this description.
    Failed(String),
}

/// A write in progress: bytes that go out on a stream in this order.
pub struct StreamWrite {
    /// The stream.
    pub stream_id: u64,
    /// The bytes, those already taken included.
    pub buf: BytesMut,
    /// How many have been taken.
    pub offset: usize,
    /// Whether no more will be taken for now.
    pub stopped: bool,
    /// Why the write failed, if it did.
    pub error: Option<ConnectError>,
}

impl StreamWrite {
    /// No more bytes have been taken than there are.
    pub open spec fn wf(self) -> bool {
        self.offset <= buffer_view(self.buf).len()
    }

    /// The bytes that have been taken.
    pub open spec fn written(self) -> Seq<u8> {
        buffer_view(self.buf).take(self.offset as int)
    }

    /// The bytes that have not.
    pub open spec fn unwritten(self) -> Seq<u8> {
        buffer_view(self.buf).skip(self.offset as int)
    }

    /// Whether there is something to hand to the stream.
    pub open spec fn goes_on(self) -> bool {
        !self.stopped && self.unwritten().len() > 0
    }

    /// The bytes to hand to the stream next; `None` when the write is over for now.
    pub fn next_bytes(&self) -> (r: Option<&[u8]>)
        requires
            self.wf(),
        ensures
            self.goes_on() ==> r is Some && r->0@ == self.unwritten(),
            !self.goes_on() ==> r is None,
    {
        let all = buf::buffer_slice(&self.buf);
        if self.stopped || self.offset >= all.len() {
            return None;
        }
        Some(vstd::slice::slice_subrange(all, self.offset, all.len()))
    }

    /// Takes note of what became of the bytes.
    pub fn advance(&mut self, outcome: WriteOutcome)
        requires
            old(self).wf(),
            outcome matches WriteOutcome::Wrote(n) ==> n <= old(self).unwritten().len(),
        ensures
            final(self).wf(),
            final(self).buf == old(self).buf,
            final(self).stream_id == old(self).stream_id,
            match outcome {
                WriteOutcome::Wrote(n) => {
                    &&& final(self).offset == old(self).offset + n
                    &&& final(self).stopped == (old(self).stopped || n == 0)
                    &&& final(self).error == old(self).error
                },
                WriteOutcome::Blocked => {
                    &&& final(self).offset == old(self).offset
                    &&& final(self).stopped
                    &&& final(self).error == old(self).error
                },
                WriteOutcome::StreamClosed => {
                    &&& final(self).offset == old(self).offset
                    &&& final(self).stopped
                    &&& final(self).error matches Some(ConnectError::Closed(why))
                    &&& why@ == "stream already closed"@
                },
                WriteOutcome::Failed(e) => {
                    &&& final(self).offset == old(self).offset
                    &&& final(self).stopped
                    &&& final(self).error == Some(ConnectError::Quiche(e))
                },
            },
    {
        let len: usize = buf::buffer_slice(&self.buf).len();
        match outcome {
            WriteOutcome::Wrote(n) => {
                assert(self.offset + n <= len);
                self.offset = self.offset + n;
                if n == 0 {
                    self.stopped = true;
                }
            },
            WriteOutcome::Blocked => {
                self.stopped = true;
            },
            WriteOutcome::StreamClosed => {
                self.stopped = true;
                self.error = Some(ConnectError::Closed("stream already closed".to_owned()));
            },
            WriteOutcome::Failed(e) => {
                self.stopped = true;
                self.error = Some(ConnectError::Quiche(e));
            },
        }
    }
}

impl PendingWrites {
    /// Nothing is pending.
    pub fn new() -> (r: Self)
        ensures
            r@ == Map::<u64, Seq<u8>>::empty(),
    {
        let r = PendingWrites { tails: BTreeMap::new() };
        assert(r@ =~= Map::empty());
        r
    }

    /// Starts to write `data` on a stream. What is pending there goes out first, so that the
    /// stream keeps its order.
    pub fn stream_send(&mut self, stream_id: u64, data: &[u8]) -> (w: StreamWrite)
        requires
            tail_of(old(self)@, stream_id).len() + data@.len() <= isize::MAX,
        ensures
            w.wf(),
            w.stream_id == stream_id,
            w.offset == 0,
            buffer_view(w.buf) == tail_of(old(self)@, stream_id) + data@,
            !w.stopped,
            w.error is None,
            final(self)@ == old(self)@.remove(stream_id),
    {
        let buf = match self.tails.remove(&stream_id) {
            Some(tail) => {
                let mut tail = tail;
                buf::buffer_extend(&mut tail, data);
                tail
            },
            None => {
                let b = buf::buffer_from_slice(data);
                assert(data@ =~= Seq::<u8>::empty() + data@);
                b
            },
        };
        assert(self@ =~= old(self)@.remove(stream_id));
        StreamWrite { stream_id, buf, offset: 0, stopped: false, error: None }
    }

    /// Starts to write what is pending on a stream, if anything is.
    pub fn retry(&mut self, stream_id: u64) -> (r: Option<StreamWrite>)
        ensures
            old(self)@.contains_key(stream_id) ==> {
                &&& r is Some
                &&& r->0.wf()
                &&& r->0.stream_id == stream_id
                &&& r->0.offset == 0
                &&& buffer_view(r->0.buf) == old(self)@[stream_id]
                &&& !r->0.stopped
                &&& r->0.error is None
            },
            !old(self)@.contains_key(stream_id) ==> r is None,
            final(self)@ == old(self)@.remove(stream_id),
    {
        let found = self.tails.remove(&stream_id);
        assert(self@ =~= old(self)@.remove(stream_id));
        match found {
            Some(buf) => Some(
                StreamWrite { stream_id, buf, offset: 0, stopped: false, error: None },
            ),
            None => None,
        }
    }

    /// Ends a write: what was not taken is kept for later, in place of what was pending before.
    /// After a failure nothing is kept.
    pub fn settle(&mut self, w: StreamWrite) -> (r: Result<(), ConnectError>)
        requires
            w.wf(),
        ensures
            match w.error {
                Some(e) => r == Err::<(), ConnectError>(e) && final(self)@ == old(self)@.remove(
                    w.stream_id,
                ),
                None => r is Ok && final(self)@ == with_tail(
                    old(self)@,
                    w.stream_id,
                    w.unwritten(),
                ),
            },
    {
        let sid: u64 = w.stream_id;
        match w.error {
            Some(e) => {
                let _ = self.tails.remove(&sid);
                assert(self@ =~= old(self)@.remove(sid));
                return Err(e);
            },
            None => {},
        }
        let all = buf::buffer_slice(&w.buf);
        if w.offset < all.len() {
            let tail = buf::buffer_from_slice(
                vstd::slice::slice_subrange(all, w.offset, all.len()),
            );
            assert(buffer_view(tail) =~= w.unwritten());
            self.tails.insert(sid, tail);
            assert(self@ =~= old(self)@.insert(sid, w.unwritten()));
        } else {
            let _ = self.tails.remove(&sid);
            assert(self@ =~= old(self)@.remove(sid));
        }
        Ok(())
    }

    /// The streams with something pending, to be retried in this order.
    pub fn flush_pending(&self) -> (r: Vec<u64>)
        ensures
            r@ == ascending(self@.dom()),
    {
        assert(self@.dom() =~= self.tails@.dom());
        keys_of(&self.tails)
    }

    /// Whether anything is pending.
    pub fn has_pending(&self) -> (r: bool)
        ensures
            r == (self@ != Map::<u64, Seq<u8>>::empty()),
    {
        let empty = self.tails.is_empty();
        proof {
            if empty {
                assert(self@ =~= Map::empty());
            } else {
                assert(exists|k: u64| self.tails@.contains_key(k));
                let k = choose|k: u64| self.tails@.contains_key(k);
                assert(self@.contains_key(k));
            }
        }
        !empty
    }

    /// Total bytes pending; the largest number there is where they are more.
    pub fn pending_bytes(&self) -> (r: usize)
        ensures
            r == if pending_total(self@) <= usize::MAX {
                pending_total(self@) as int
            } else {
                usize::MAX as int
            },
    {
        assert(self@.dom() =~= self.tails@.dom());
        let keys = keys_of(&self.tails);
        let mut sum: usize = 0;
        let mut i: usize = 0;
        assert(keys@.take(0) =~= Seq::empty());
        while i < keys.len()
            invariant
                i <= keys@.len(),
                lists(keys@, self.tails@.dom()),
                sum == if bytes_on(keys@.take(i as int), self@) <= usize::MAX {
                    bytes_on(keys@.take(i as int), self@) as int
                } else {
                    usize::MAX as int
                },
            decreases keys@.len() - i,
        {
            let sid: u64 = keys[i];
            assert(self.tails@.dom().contains(keys@[i as int]));
            match self.tails.get(&sid) {
                Some(b) => {
                    sum = sum.saturating_add(buf::buffer_slice(b).len());
                },
                None => {},
            }
            i += 1;
            assert(keys@.take(i as int).drop_last() =~= keys@.take(i - 1));
        }
        assert(keys@.take(i as int) =~= keys@);
        sum
    }
}

/// `after` is what is pending once the write `w` of `data` has been settled without a failure,
/// where `before` was pending when it started. A retry writes no new data.
pub open spec fn write_settled(
    before: Map<u64, Seq<u8>>,
    after: Map<u64, Seq<u8>>,
    data: Seq<u8>,
    w: StreamWrite,
) -> bool {
    &&& w.wf()
    &&& buffer_view(w.buf) == tail_of(before, w.stream_id) + data
    &&& after == with_tail(before.remove(w.stream_id), w.stream_id, w.unwritten())
}

/// Writes lose nothing and keep their order: what has been taken, followed by what is pending
/// afterwards, is what was pending before followed by the new data. Other streams are not
/// touched.
pub proof fn law_writes_keep_every_byte(
    before: Map<u64, Seq<u8>>,
    after: Map<u64, Seq<u8>>,
    data: Seq<u8>,
    w: StreamWrite,
    other: u64,
)
    requires
        write_settled(before, after, data, w),
        other != w.stream_id,
    ensures
        w.written() + tail_of(after, w.stream_id) == tail_of(before, w.stream_id) + data,
        tail_of(after, other) == tail_of(before, other),
{
    assert(w.written() + w.unwritten() =~= buffer_view(w.buf));
    if w.unwritten().len() == 0 {
        assert(w.unwritten() =~= Seq::empty());
    }
}

/// A stream is pending exactly as long as bytes of it are: a write that was taken whole leaves
/// nothing behind.
pub proof fn law_complete_writes_leave_nothing(before: Map<u64, Seq<u8>>, w: StreamWrite)
    requires
        w.wf(),
    ensures
        with_tail(before, w.stream_id, w.unwritten()).contains_key(w.stream_id) <==> w.offset
            < buffer_view(w.buf).len(),
{
}

/// What a series of writes has put on the stream `sid`, in order.
pub open spec fn sent_on(sid: u64, writes: Seq<StreamWrite>) -> Seq<u8>
    decreases writes.len(),
{
    if writes.len() == 0 {
        Seq::empty()
    } else if writes.last().stream_id == sid {
        sent_on(sid, writes.drop_last()) + writes.last().written()
    } else {
        sent_on(sid, writes.drop_last())
    }
}

/// The data that a series of writes was given for the stream `sid`, in order.
pub open spec fn data_for(sid: u64, writes: Seq<StreamWrite>, data: Seq<Seq<u8>>) -> Seq<u8>
    decreases writes.len(),
{
    if writes.len() == 0 {
        Seq::empty()
    } else if writes.last().stream_id == sid {
        data_for(sid, writes.drop_last(), data) + data[writes.len() - 1]
    } else {
        data_for(sid, writes.drop_last(), data)
    }
}

/// A stream carries what was written to it, in order, however the peer's flow control cuts it up
/// and whatever is written to other streams in between: what has gone out, followed by what is
/// still pending, is all its data so far. `states` is what was pending before each write, and
/// after the last.
pub proof fn law_streams_carry_their_data(
    sid: u64,
    states: Seq<Map<u64, Seq<u8>>>,
    writes: Seq<StreamWrite>,
    data: Seq<Seq<u8>>,
)
    requires
        states.len() == writes.len() + 1,
        data.len() == writes.len(),
        tail_of(states[0], sid) == Seq::<u8>::empty(),
        forall|i: int|
            0 <= i < writes.len() ==> write_settled(
                states[i],
                states[i + 1],
                data[i],
                #[trigger] writes[i],
            ),
    ensures
        sent_on(sid, writes) + tail_of(states.last(), sid) == data_for(sid, writes, data),
    decreases writes.len(),
{
    let n = writes.len() as int;
    if n == 0 {
        assert(sent_on(sid, writes) + tail_of(states[0], sid) =~= Seq::empty());
    } else {
        let w = writes[n - 1];
        let fewer = writes.drop_last();
        assert forall|i: int| 0 <= i < fewer.len() implies write_settled(
            states.drop_last()[i],
            states.drop_last()[i + 1],
            data.drop_last()[i],
            #[trigger] fewer[i],
        ) by {
            assert(fewer[i] == writes[i]);
        }
        law_streams_carry_their_data(sid, states.drop_last(), fewer, data.drop_last());
        lemma_data_of_a_prefix(sid, fewer, data);
        assert(write_settled(states[n - 1], states[n], data[n - 1], w));
        let out = sent_on(sid, fewer);
        let tail = tail_of(states[n - 1], sid);
        if w.stream_id == sid {
            law_writes_keep_every_byte(
                states[n - 1],
                states[n],
                data[n - 1],
                w,
                if sid == 0 {
                    1
                } else {
                    0
                },
            );
            assert((out + w.written()) + tail_of(states[n], sid) =~= out + (w.written()
                + tail_of(states[n], sid)));
            assert(out + (tail + data[n - 1]) =~= (out + tail) + data[n - 1]);
        } else {
            law_writes_keep_every_byte(states[n - 1], states[n], data[n - 1], w, sid);
        }
    }
}

/// Later data does not matter to earlier writes.
proof fn lemma_data_of_a_prefix(sid: u64, writes: Seq<StreamWrite>, data: Seq<Seq<u8>>)
    requires
        writes.len() < data.len(),
    ensures
        data_for(sid, writes, data.drop_last()) == data_for(sid, writes, data),
    decreases writes.len(),
{
    if writes.len() > 0 {
        let fewer = writes.drop_last();
        lemma_data_of_a_prefix(sid, fewer, data);
    }
}

/// The protocol that the client offers: the bytes of `h3-29`.
pub open spec fn alpn() -> Seq<u8> {
    seq![104u8, 51, 45, 50, 57]
}

/// The protocol that the client offers: `h3-29`.
pub fn alpn_bytes() -> (r: Vec<u8>)
    ensures
        r@ == alpn(),
{
    let r = vec![104u8, 51, 45, 50, 57];
    assert(r@ =~= alpn());
    r
}

/// Where a handshake stands.
pub enum Handshake {
    /// Complete.
    Complete,
    /// Over, for this reason.
    Failed(ConnectError),
    /// Still going on.
    InProgress,
}

/// Decides where a handshake stands. An established connection has to have selected the offered
/// protocol; else the other side is no Vireon server. A connection that is neither established
/// nor closed has until the deadline.
pub fn handshake(established: bool, proto: &[u8], closed: bool, past_deadline: bool) -> (r:
    Handshake)
    ensures
        established && proto@ == alpn() ==> r is Complete,
        established && proto@ != alpn() ==> r == Handshake::Failed(ConnectError::AlpnNegotiation),
        !established && closed ==> {
            &&& r matches Handshake::Failed(ConnectError::Closed(why))
            &&& why@ == "connection closed by peer"@
        },
        !established && !closed && past_deadline ==> {
            &&& r matches Handshake::Failed(ConnectError::HandshakeTimeout(d))
            &&& d@ == HANDSHAKE_DEADLINE_SECS * 1_000_000_000
        },
        !established && !closed && !past_deadline ==> r is InProgress,
{
    if established {
        if proto.len() == 5 && proto[0] == 104 && proto[1] == 51 && proto[2] == 45 && proto[3]
            == 50 && proto[4] == 57 {
            assert(proto@ =~= alpn());
            return Handshake::Complete;
        }
        return Handshake::Failed(ConnectError::AlpnNegotiation);
    }
    if closed {
        return Handshake::Failed(closed_reason());
    }
    if past_deadline {
        return Handshake::Failed(
            ConnectError::HandshakeTimeout(Duration::from_secs(HANDSHAKE_DEADLINE_SECS)),
        );
    }
    Handshake::InProgress
}

/// Why the connection closed, as far as it is told.
pub fn closed_reason() -> (r: ConnectError)
    ensures
        r matches ConnectError::Closed(why) && why@ == "connection closed by peer"@,
{
    ConnectError::Closed("connection closed by peer".to_owned())
}

/// What reading from the socket brought.
#[derive(Clone, Copy, Debug, PartialEq, Eq, Structural)]
pub enum RecvOutcome {
    /// A datagram, which the connection took in or had no use for.
    Datagram,
    /// A datagram that the connection rejected.
    Rejected,
    /// Nothing more for now.
    WouldBlock,
    /// The call was interrupted.
    Interrupted,
    /// The peer's port is unreachable.
    Refused,
    /// Another error.
    Failed,
}

/// What to do after reading from the socket.
#[derive(Clone, Copy, Debug, PartialEq, Eq, Structural)]
pub enum RecvNext {
    /// Read again.
    Again,
    /// Stop for this round.
    Stop,
    /// The peer is gone: close the connection, so that the reconnect starts at once, and stop.
    CloseUnreachable,
}

/// What to do after reading from the socket.
pub open spec fn after_recv(outcome: RecvOutcome) -> RecvNext {
    match outcome {
        RecvOutcome::Datagram | RecvOutcome::Interrupted => RecvNext::Again,
        RecvOutcome::Refused => RecvNext::CloseUnreachable,
        _ => RecvNext::Stop,
    }
}

/// A round of reading from the socket.
pub struct DrainRecv {
    /// Whether any datagram has arrived.
    pub got_data: bool,
}

impl DrainRecv {
    /// Nothing has arrived yet.
    pub fn new() -> (r: Self)
        ensures
            !r.got_data,
    {
        DrainRecv { got_data: false }
    }

    /// Takes note of what reading brought, and decides how to go on.
    pub fn drain_recv(&mut self, outcome: RecvOutcome) -> (r: RecvNext)
        ensures
            r == after_recv(outcome),
            final(self).got_data == (old(self).got_data || outcome == RecvOutcome::Datagram
                || outcome == RecvOutcome::Rejected),
    {
        match outcome {
            RecvOutcome::Datagram => {
                self.got_data = true;
                RecvNext::Again
            },
            RecvOutcome::Rejected => {
                self.got_data = true;
                RecvNext::Stop
            },
            RecvOutcome::WouldBlock => RecvNext::Stop,
            RecvOutcome::Interrupted => RecvNext::Again,
            RecvOutcome::Refused => RecvNext::CloseUnreachable,
            RecvOutcome::Failed => RecvNext::Stop,
        }
    }
}

/// What reading from a stream brought.
#[derive(Clone, Copy, Debug, PartialEq, Eq, Structural)]
pub enum ReadOutcome {
    /// So many bytes.
    Data(usize),
    /// Nothing more for now.
    Done,
    /// The buffer is too short for what is there.
    BufferTooShort,
    /// An error.
    Failed,
}

/// What to do after reading from a stream.
#[derive(Clone, Copy, Debug, PartialEq, Eq, Structural)]
pub enum ReadNext {
    /// Decode the bytes, then read again.
    Decode,
    /// Grow the buffer to this size, then read again.
    Grow(usize),
    /// Go on with the next stream.
    NextStream,
}

/// What to do after reading from a stream into a buffer of this size. The buffer doubles, up to
/// a limit, when it is too short; whatever else goes wrong concerns this stream only.
pub open spec fn after_read(outcome: ReadOutcome, buffer: int) -> ReadNext {
    match outcome {
        ReadOutcome::Data(n) => if n == 0 {
            ReadNext::NextStream
        } else {
            ReadNext::Decode
        },
        ReadOutcome::BufferTooShort => if buffer < 8 * DGRAM_BUF {
            ReadNext::Grow((buffer * 2) as usize)
        } else {
            ReadNext::NextStream
        },
        _ => ReadNext::NextStream,
    }
}

/// Decides how to go on after reading from a stream; see [`after_read`].
pub fn process_readable(outcome: ReadOutcome, buffer: usize) -> (r: ReadNext)
    ensures
        r == after_read(outcome, buffer as int),
{
    match outcome {
        ReadOutcome::Data(n) => {
            if n == 0 {
                ReadNext::NextStream
            } else {
                ReadNext::Decode
            }
        },
        ReadOutcome::Done => ReadNext::NextStream,
        ReadOutcome::BufferTooShort => {
            if buffer < 8 * DGRAM_BUF {
                ReadNext::Grow(buffer * 2)
            } else {
                ReadNext::NextStream
            }
        },
        ReadOutcome::Failed => ReadNext::NextStream,
    }
}

/// The read buffer grows only up to a limit, and strictly, so that reading a stream ends.
pub proof fn law_read_buffer_is_bounded(outcome: ReadOutcome, buffer: int)
    requires
        0 < buffer,
    ensures
        after_read(outcome, buffer) matches ReadNext::Grow(n) ==> buffer < n < 16 * DGRAM_BUF,
{
}

/// What decoding brought.
#[derive(Clone, Copy, Debug, PartialEq, Eq, Structural)]
pub enum DecodeOutcome {
    /// A frame.
    Complete,
    /// Not yet a whole frame.
    Incomplete,
    /// Bytes that are no frame.
    Malformed,
}

/// What to do after decoding.
#[derive(Clone, Copy, Debug, PartialEq, Eq, Structural)]
pub enum DecodeNext {
    /// Route the frame, then decode again.
    Dispatch,
    /// Read more bytes.
    ReadMore,
    /// Forget what this stream has buffered, then read more bytes. The connection and the other
    /// streams go on.
    Reset,
}

/// What to do after decoding. A malformed frame concerns its own stream only.
pub open spec fn after_decode(outcome: DecodeOutcome) -> DecodeNext {
    match outcome {
        DecodeOutcome::Complete => DecodeNext::Dispatch,
        DecodeOutcome::Incomplete => DecodeNext::ReadMore,
        DecodeOutcome::Malformed => DecodeNext::Reset,
    }
}

/// Decides how to go on after decoding; see [`after_decode`].
pub fn decoded(outcome: DecodeOutcome) -> (r: DecodeNext)
    ensures
        r == after_decode(outcome),
{
    match outcome {
        DecodeOutcome::Complete => DecodeNext::Dispatch,
        DecodeOutcome::Incomplete => DecodeNext::ReadMore,
        DecodeOutcome::Malformed => DecodeNext::Reset,
    }
}

/// What happens in a pass over the readable streams.
pub enum PassEvent {
    /// Reading from the current stream, into a buffer of this size, brought this.
    Read(ReadOutcome, int),
    /// Decoding what the current stream has buffered brought this.
    Decoded(DecodeOutcome),
}

/// How many of `n` streams are done after an event, where `done` were before it: reading alone can
/// end a stream's turn.
pub open spec fn pass_next(n: nat, done: nat, event: PassEvent) -> nat {
    match event {
        PassEvent::Read(outcome, buffer) if after_read(outcome, buffer) == ReadNext::NextStream
            && done < n => done + 1,
        _ => done,
    }
}

/// A pass over the streams that have something to read, each in its turn.
pub struct ReadPass {
    /// The streams.
    pub streams: Vec<u64>,
    /// How many of them are done.
    pub done: usize,
}

impl ReadPass {
    /// No stream is done yet.
    pub fn new(streams: Vec<u64>) -> (r: Self)
        ensures
            r == (ReadPass { streams, done: 0 }),
    {
        ReadPass { streams, done: 0 }
    }

    /// The stream whose turn it is; `None` when all are done.
    pub fn current(&self) -> (r: Option<u64>)
        ensures
            r == if self.done < self.streams@.len() {
                Some(self.streams@[self.done as int])
            } else {
                None
            },
    {
        if self.done < self.streams.len() {
            Some(self.streams[self.done])
        } else {
            None
        }
    }

    /// Takes note of what reading from the current stream brought, and decides how to go on.
    pub fn read(&mut self, outcome: ReadOutcome, buffer: usize) -> (r: ReadNext)
        ensures
            r == after_read(outcome, buffer as int),
            final(self).streams == old(self).streams,
            final(self).done == pass_next(
                old(self).streams@.len(),
                old(self).done as nat,
                PassEvent::Read(outcome, buffer as int),
            ),
    {
        let next = process_readable(outcome, buffer);
        if next == ReadNext::NextStream && self.done < self.streams.len() {
            self.done = self.done + 1;
        }
        next
    }
}

/// How many of `n` streams are done after a series of events.
pub open spec fn streams_done(n: nat, events: Seq<PassEvent>) -> nat
    decreases events.len(),
{
    if events.len() == 0 {
        0
    } else {
        pass_next(n, streams_done(n, events.drop_last()), events.last())
    }
}

/// What is done about event `j` of a pass, where it is about decoding: for which stream, and what.
pub open spec fn decode_deed(streams: Seq<u64>, events: Seq<PassEvent>, j: int) -> Option<
    (u64, DecodeNext),
> {
    let at = streams_done(streams.len(), events.take(j)) as int;
    match events[j] {
        PassEvent::Decoded(outcome) if at < streams.len() => Some(
            (streams[at], after_decode(outcome)),
        ),
        _ => None,
    }
}

/// What decoding brings does not matter to whose turn it is.
proof fn lemma_decoding_keeps_turns(n: nat, events: Seq<PassEvent>, i: int, outcome: DecodeOutcome)
    requires
        0 <= i < events.len(),
        events[i] is Decoded,
    ensures
        streams_done(n, events.update(i, PassEvent::Decoded(outcome))) == streams_done(n, events),
    decreases events.len(),
{
    let hit = events.update(i, PassEvent::Decoded(outcome));
    if i == events.len() - 1 {
        assert(hit.drop_last() =~= events.drop_last());
    } else {
        lemma_decoding_keeps_turns(n, events.drop_last(), i, outcome);
        assert(hit.drop_last() =~= events.drop_last().update(i, PassEvent::Decoded(outcome)));
    }
}

/// A malformed frame stays with its stream: wherever one comes up in a pass, that stream's buffer
/// is reset, and everything else is done as if it had not been malformed. So every complete frame
/// of another stream is still dispatched.
pub proof fn law_malformed_frames_stay_with_their_stream(
    streams: Seq<u64>,
    events: Seq<PassEvent>,
    i: int,
    j: int,
)
    requires
        0 <= i < events.len(),
        events[i] is Decoded,
        0 <= j < events.len(),
        i != j,
    ensures
        ({
            let hit = events.update(i, PassEvent::Decoded(DecodeOutcome::Malformed));
            &&& streams_done(streams.len(), hit) == streams_done(streams.len(), events)
            &&& decode_deed(streams, hit, j) == decode_deed(streams, events, j)
            &&& (decode_deed(streams, hit, j) matches Some((_, deed)) ==> (deed
                == DecodeNext::Dispatch <==> events[j] == PassEvent::Decoded(
                DecodeOutcome::Complete,
            )))
            &&& (decode_deed(streams, events, i) matches Some((sid, _)) ==> decode_deed(
                streams,
                hit,
                i,
            ) == Some((sid, DecodeNext::Reset)))
        }),
{
    let bad = PassEvent::Decoded(DecodeOutcome::Malformed);
    let hit = events.update(i, bad);
    lemma_decoding_keeps_turns(streams.len(), events, i, DecodeOutcome::Malformed);
    assert(hit.take(i) =~= events.take(i));
    if i < j {
        lemma_decoding_keeps_turns(streams.len(), events.take(j), i, DecodeOutcome::Malformed);
        assert(hit.take(j) =~= events.take(j).update(i, bad));
    } else {
        assert(hit.take(j) =~= events.take(j));
    }
}

/// A pass leaves no stream out: every stream that is done had its turn, which ended because
/// reading from it brought no more.
pub proof fn law_passes_read_every_stream(n: nat, events: Seq<PassEvent>, k: nat)
    requires
        k < streams_done(n, events),
    ensures
        k < n,
        exists|i: int|
            {
                &&& 0 <= i < events.len()
                &&& #[trigger] streams_done(n, events.take(i)) == k
                &&& events[i] matches PassEvent::Read(outcome, buffer)
                &&& after_read(outcome, buffer) == ReadNext::NextStream
            },
    decreases events.len(),
{
    let fewer = events.drop_last();
    let last = events.len() - 1;
    assert(events.take(last) =~= fewer);
    if k < streams_done(n, fewer) {
        law_passes_read_every_stream(n, fewer, k);
        let i = choose|i: int|
            {
                &&& 0 <= i < fewer.len()
                &&& #[trigger] streams_done(n, fewer.take(i)) == k
                &&& fewer[i] matches PassEvent::Read(outcome, buffer)
                &&& after_read(outcome, buffer) == ReadNext::NextStream
            };
        assert(fewer.take(i) =~= events.take(i));
    } else {
        assert(streams_done(n, events.take(last)) == k);
    }
}

/// What became of putting a packet on the wire.
pub enum FlushOutcome {
    /// A packet went out.
    Sent,
    /// The socket would have blocked; the packet is lost, as packets can be.
    WouldBlock,
    /// The call was interrupted.
    Interrupted,
    /// The socket failed, with this description.
    SocketFailed(String),
    /// The connection has no more packets.
    Done,
    /// The connection failed, with this description.
    QuicFailed(String),
}

/// Decides whether a flush is over: `None` goes on with the next packet.
pub fn flush(outcome: FlushOutcome) -> (r: Option<Result<(), ConnectError>>)
    ensures
        match outcome {
            FlushOutcome::Sent | FlushOutcome::WouldBlock | FlushOutcome::Interrupted => r is None,
            FlushOutcome::SocketFailed(e) => r == Some(
                Err::<(), ConnectError>(ConnectError::Io(e)),
            ),
            FlushOutcome::Done => r is Some && r->0 is Ok,
            FlushOutcome::QuicFailed(e) => r == Some(
                Err::<(), ConnectError>(ConnectError::Quiche(e)),
            ),
        },
{
    match outcome {
        FlushOutcome::Sent => None,
        FlushOutcome::WouldBlock => None,
        FlushOutcome::Interrupted => None,
        FlushOutcome::SocketFailed(e) => Some(Err(ConnectError::Io(e))),
        FlushOutcome::Done => Some(Ok(())),
        FlushOutcome::QuicFailed(e) => Some(Err(ConnectError::Quiche(e))),
    }
}

/// What a graceful drain does.
#[derive(Clone, Copy, Debug, PartialEq, Eq, Structural)]
pub enum DrainNext {
    /// It is over: whether everything was written.
    Finished(bool),
    /// Receive, retry pending writes, flush.
    Round,
    /// Wait for the socket or a timer.
    Wait,
}

/// Decides how a graceful drain goes on at the top of its loop.
pub fn drain_pending_gracefully(pending: bool, past_deadline: bool) -> (r: DrainNext)
    ensures
        r == if pending && !past_deadline {
            DrainNext::Round
        } else {
            DrainNext::Finished(!pending)
        },
{
    if pending && !past_deadline {
        DrainNext::Round
    } else {
        DrainNext::Finished(!pending)
    }
}

/// Decides how a graceful drain goes on after a round: without a flush nothing gets out, and
/// with nothing pending there is nothing to wait for.
pub fn drained(flushed: bool, pending: bool) -> (r: DrainNext)
    ensures
        r == if !flushed {
            DrainNext::Finished(false)
        } else if pending {
            DrainNext::Wait
        } else {
            DrainNext::Finished(true)
        },
{
    if !flushed {
        DrainNext::Finished(false)
    } else if pending {
        DrainNext::Wait
    } else {
        DrainNext::Finished(true)
    }
}

/// The shorter of two spans, in nanoseconds.
pub open spec fn shorter(a: nat, b: nat) -> nat {
    if a < b {
        a
    } else {
        b
    }
}

/// How long the task may sleep from now: until the connection's next timer, but at most 200 ms,
/// and not beyond `cap`.
pub fn next_event_deadline(timer: Option<Duration>, cap: Option<Duration>) -> (r: Duration)
    ensures
        ({
            let keepalive = (KEEPALIVE_MS * 1_000_000) as nat;
            let t = match timer {
                Some(d) => shorter(d@, keepalive),
                None => keepalive,
            };
            r@ == match cap {
                Some(c) => shorter(c@, t),
                None => t,
            }
        }),
{
    let keepalive = Duration::from_millis(KEEPALIVE_MS);
    let t = match timer {
        Some(d) => {
            if keepalive.exceeds(&d) {
                d
            } else {
                keepalive
            }
        },
        None => keepalive,
    };
    match cap {
        Some(c) => {
            if t.exceeds(&c) {
                c
            } else {
                t
            }
        },
        None => t,
    }
}

/// The size of a frame on the wire.
pub open spec fn frame_size(payload: nat) -> nat {
    22 + payload + 4
}

/// Whether a frame with a payload of this size is encoded on the stack: its size on the wire,
/// where it is.
pub fn eager_size(payload: usize) -> (r: Option<usize>)
    ensures
        match r {
            Some(n) => n == frame_size(payload as nat) && n <= STACK_ENCODE_MAX,
            None => frame_size(payload as nat) > STACK_ENCODE_MAX,
        },
{
    if payload <= STACK_ENCODE_MAX - HEADER_SIZE - CRC_SIZE {
        Some(HEADER_SIZE + payload + CRC_SIZE)
    } else {
        None
    }
}

/// The address to resolve: host and port.
pub fn server_address(cfg: &ClientConfig) -> (r: String)
    ensures
        r@ == cfg.host@ + seq![':'] + text::decimal(cfg.port as nat),
{
    let port = text::decimal_string(cfg.port as u64);
    let r = text::join3(cfg.host.as_str(), ":", port.as_str());
    proof {
        reveal_strlit(":");
    }
    assert(":"@ =~= seq![':']);
    r
}

/// The local address to bind: any port, in the peer's address family.
pub fn bind_address(peer_is_ipv6: bool) -> (r: String)
    ensures
        r@ == if peer_is_ipv6 {
            "[::]:0"@
        } else {
            "0.0.0.0:0"@
        },
{
    if peer_is_ipv6 {
        "[::]:0".to_owned()
    } else {
        "0.0.0.0:0".to_owned()
    }
}

/// A path that has to be UTF-8, or the TLS error that says which one is not.
fn utf8_path(path: &FilePath, what: &str) -> (r: Result<String, ConnectError>)
    ensures
        path.is_utf8 ==> r == Ok::<String, ConnectError>(path.display),
        !path.is_utf8 ==> {
            &&& r matches Err(ConnectError::Tls(why))
            &&& why@ == what@ + " path not valid UTF-8: "@ + path.display@
        },
{
    if path.is_utf8 {
        Ok(path.display.clone())
    } else {
        Err(
            ConnectError::Tls(
                text::join3(what, " path not valid UTF-8: ", path.display.as_str()),
            ),
        )
    }
}

/// `r` is what there is to load of a client identity: certificate chain and key, or the first of
/// the two paths that is not UTF-8.
pub open spec fn identity_loads(
    id: ClientIdentity,
    r: Result<(String, String), ConnectError>,
) -> bool {
    if !id.cert.is_utf8 {
        &&& r matches Err(ConnectError::Tls(why))
        &&& why@ == "cert"@ + " path not valid UTF-8: "@ + id.cert.display@
    } else if !id.key.is_utf8 {
        &&& r matches Err(ConnectError::Tls(why))
        &&& why@ == "key"@ + " path not valid UTF-8: "@ + id.key.display@
    } else {
        r == Ok::<(String, String), ConnectError>((id.cert.display, id.key.display))
    }
}

/// The files of a client identity; see [`identity_loads`].
fn identity_files(id: &ClientIdentity) -> (r: Result<(String, String), ConnectError>)
    ensures
        identity_loads(*id, r),
{
    match utf8_path(&id.cert, "cert") {
        Err(e) => Err(e),
        Ok(cert) => match utf8_path(&id.key, "key") {
            Err(e) => Err(e),
            Ok(key) => Ok((cert, key)),
        },
    }
}

/// How the server's certificate is verified.
pub struct Verification {
    /// Whether it is verified at all.
    pub verify_peer: bool,
    /// The CA bundle to verify against.
    pub ca: Option<String>,
}

/// `r` is how a policy verifies the server. Only a CA bundle is enforced; the other policies
/// accept what the server presents.
pub open spec fn verifies(tls: TlsVerify, r: Result<Verification, ConnectError>) -> bool {
    match tls {
        TlsVerify::Strict { ca } => if ca.is_utf8 {
            r == Ok::<Verification, ConnectError>(
                Verification { verify_peer: true, ca: Some(ca.display) },
            )
        } else {
            &&& r matches Err(ConnectError::Tls(why))
            &&& why@ == "CA"@ + " path not valid UTF-8: "@ + ca.display@
        },
        _ => r == Ok::<Verification, ConnectError>(Verification { verify_peer: false, ca: None }),
    }
}

/// How a policy verifies the server; see [`verifies`].
fn verification(tls: &TlsVerify) -> (r: Result<Verification, ConnectError>)
    ensures
        verifies(*tls, r),
{
    match tls {
        TlsVerify::Strict { ca } => match utf8_path(ca, "CA") {
            Ok(path) => Ok(Verification { verify_peer: true, ca: Some(path) }),
            Err(e) => Err(e),
        },
        _ => Ok(Verification { verify_peer: false, ca: None }),
    }
}

/// The error for a file that could not be loaded.
pub fn load_failed(what: &str, reason: &str) -> (r: ConnectError)
    ensures
        r matches ConnectError::Tls(why) && why@ == "failed to load "@ + what@ + ": "@ + reason@,
{
    let mut why = text::join3("failed to load ", what, ": ");
    why.append(reason);
    ConnectError::Tls(why)
}

/// How a connection adapts to congestion.
#[derive(Clone, Copy, Debug, PartialEq, Eq, Structural)]
pub enum CongestionControl {
    /// CUBIC.
    Cubic,
}

/// Settings of a QUIC connection.
pub struct QuicSettings {
    /// Idle timeout in milliseconds.
    pub max_idle_timeout_ms: u64,
    /// Largest UDP payload, received and sent.
    pub max_udp_payload: usize,
    /// Flow-control window of the connection.
    pub initial_max_data: u64,
    /// Flow-control window of each stream.
    pub initial_max_stream_data: u64,
    /// Streams for both directions that the peer may open.
    pub initial_max_streams_bidi: u64,
    /// Streams for one direction that the peer may open.
    pub initial_max_streams_uni: u64,
    /// Whether the connection must not move to another address.
    pub disable_active_migration: bool,
    /// Whether a session may be resumed with early data.
    pub early_data: bool,
    /// Whether the path's packet size is probed.
    pub discover_pmtu: bool,
    /// How the connection adapts to congestion.
    pub congestion: CongestionControl,
}

/// What it takes to configure a QUIC connection, in the order in which it is applied: the protocol
/// is set and the client identity loaded first, and the verification of the server comes last.
pub struct QuicPlan {
    /// The one protocol that is offered.
    pub alpn: Vec<u8>,
    /// Certificate chain and key to load, if there is an identity.
    pub identity: Option<Result<(String, String), ConnectError>>,
    /// The settings.
    pub settings: QuicSettings,
    /// How the server is verified.
    pub verification: Result<Verification, ConnectError>,
}

/// Plans the configuration of a QUIC connection. Below one second of idle timeout, links that
/// are merely slow would be torn down.
pub fn build_quiche_config(
    tls: &TlsVerify,
    idle_timeout: Duration,
    client_identity: &Option<ClientIdentity>,
) -> (r: QuicPlan)
    ensures
        r.alpn@ == alpn(),
        match *client_identity {
            Some(id) => r.identity is Some && identity_loads(id, r.identity->0),
            None => r.identity is None,
        },
        verifies(*tls, r.verification),
        r.settings == (QuicSettings {
            max_idle_timeout_ms: ((if idle_timeout@ / 1_000_000 < 1000 {
                1000nat
            } else {
                idle_timeout@ / 1_000_000
            }) % 0x1_0000_0000_0000_0000) as u64,
            max_udp_payload: DGRAM_BUF,
            initial_max_data: MAX_DATA,
            initial_max_stream_data: MAX_STREAM_DATA,
            initial_max_streams_bidi: 1024,
            initial_max_streams_uni: 1024,
            disable_active_migration: false,
            early_data: true,
            discover_pmtu: false,
            congestion: CongestionControl::Cubic,
        }),
{
    let ms: u128 = idle_timeout.as_millis();
    let at_least: u128 = if ms < 1000 {
        1000
    } else {
        ms
    };
    let settings = QuicSettings {
        max_idle_timeout_ms: (at_least % 0x1_0000_0000_0000_0000) as u64,
        max_udp_payload: DGRAM_BUF,
        initial_max_data: MAX_DATA,
        initial_max_stream_data: MAX_STREAM_DATA,
        initial_max_streams_bidi: 1024,
        initial_max_streams_uni: 1024,
        disable_active_migration: false,
        early_data: true,
        discover_pmtu: false,
        congestion: CongestionControl::Cubic,
    };
    let identity = match client_identity {
        Some(id) => Some(identity_files(id)),
        None => None,
    };
    QuicPlan { alpn: alpn_bytes(), identity, settings, verification: verification(tls) }
}

/// Source of connection ids.
pub struct ConnectionIds {
    /// The next one.
    pub next: u64,
}

impl ConnectionIds {
    /// Ids start at 1.
    pub fn new() -> (r: Self)
        ensures
            r.next == 1,
    {
        ConnectionIds { next: 1 }
    }

    /// A source connection id of eight bytes, one above the one before.
    pub fn gen_scid(&mut self) -> (r: Vec<u8>)
        ensures
            r@ == be(old(self).next as nat, 8),
            final(self).next == old(self).next.wrapping_add(1),
    {
        let mut out: Vec<u8> = Vec::new();
        wire::put_be(&mut out, self.next as u128, 8);
        self.next = self.next.wrapping_add(1);
        assert(out@ =~= be(old(self).next as nat, 8));
        out
    }
}

/// Connection ids differ as long as the counter does.
pub proof fn law_connection_ids_differ(a: u64, b: u64)
    requires
        a != b,
    ensures
        be(a as nat, 8) != be(b as nat, 8),
{
    wire::lemma_capacities();
    wire::law_big_endian_roundtrip(a as nat, 8);
    wire::law_big_endian_roundtrip(b as nat, 8);
}

} // verus!
