//! Streams under flow control: what is written, what waits, and what is done about each outcome.
use vstd::prelude::*;

use crate::buf::buffer_view;
use crate::config::{ClientIdentity, TlsVerify};
use crate::error::ConnectError;
use crate::order::ascending;
use crate::time::Duration;
use crate::transport::{bind_address, build_quiche_config, bytes_on, decoded, drain_pending_gracefully, drained, eager_size, flush, handshake, next_event_deadline, process_readable};
use crate::transport::{ConnectionIds, DecodeNext, DecodeOutcome, DrainNext, DrainRecv, FlushOutcome, Handshake, PendingWrites, QuicPlan, ReadNext, ReadOutcome, ReadPass, RecvNext, RecvOutcome, StreamWrite, WriteOutcome};
use crate::wire::{be, from_be, law_big_endian_roundtrip, lemma_be_len, lemma_capacities};

verus! {

broadcast use vstd::std_specs::btree::group_btree_axioms;

/// What waits on a stream; nothing where the stream is not listed.
pub open spec fn waiting_on(pending: Map<u64, Seq<u8>>, sid: u64) -> Seq<u8> {
    if pending.contains_key(sid) {
        pending[sid]
    } else {
        Seq::empty()
    }
}

/// New data goes out behind what waits on its stream. What waits on other streams stays there.
pub proof fn law_data_queues_up_behind_what_waits(
    pending: &mut PendingWrites,
    sid: u64,
    data: &[u8],
    w: StreamWrite,
    other: u64,
)
    requires
        call_ensures(PendingWrites::stream_send, (pending, sid, data), w),
        other != sid,
    ensures
        w.stream_id == sid,
        w.offset == 0,
        !w.stopped,
        w.error is None,
        buffer_view(w.buf) == waiting_on(old(pending)@, sid) + data@,
        !final(pending)@.contains_key(sid),
        waiting_on(final(pending)@, other) == waiting_on(old(pending)@, other),
{
}

/// A retry writes what waits on its stream, and there is none where nothing waits.
pub proof fn law_retries_write_what_waits(
    pending: &mut PendingWrites,
    sid: u64,
    r: Option<StreamWrite>,
    other: u64,
)
    requires
        call_ensures(PendingWrites::retry, (pending, sid), r),
        other != sid,
    ensures
        r is Some <==> old(pending)@.contains_key(sid),
        r matches Some(w) ==> {
            &&& w.stream_id == sid
            &&& w.offset == 0
            &&& !w.stopped
            &&& w.error is None
            &&& buffer_view(w.buf) == old(pending)@[sid]
        },
        !final(pending)@.contains_key(sid),
        waiting_on(final(pending)@, other) == waiting_on(old(pending)@, other),
{
}

/// A write hands over the bytes that were not taken yet, goes on behind those that were, and stops
/// where there is no room or the stream fails.
pub proof fn law_writes_go_on_where_they_stopped(
    w: &StreamWrite,
    next: Option<&[u8]>,
    v: &mut StreamWrite,
    outcome: WriteOutcome,
)
    requires
        w.offset <= buffer_view(w.buf).len(),
        call_ensures(StreamWrite::next_bytes, (w,), next),
        old(v).offset <= buffer_view(old(v).buf).len(),
        call_ensures(StreamWrite::advance, (v, outcome), ()),
    ensures
        next is Some <==> !w.stopped && w.offset < buffer_view(w.buf).len(),
        next matches Some(bytes) ==> buffer_view(w.buf).take(w.offset as int) + bytes@
            == buffer_view(w.buf),
        final(v).buf == old(v).buf,
        final(v).stream_id == old(v).stream_id,
        outcome matches WriteOutcome::Wrote(n) ==> {
            &&& final(v).offset == old(v).offset + n
            &&& final(v).stopped <==> old(v).stopped || n == 0
            &&& final(v).error == old(v).error
        },
        !(outcome is Wrote) ==> final(v).offset == old(v).offset && final(v).stopped,
        outcome is Blocked ==> final(v).error == old(v).error,
        outcome is StreamClosed ==> (final(v).error matches Some(ConnectError::Closed(_))),
        outcome matches WriteOutcome::Failed(e) ==> final(v).error == Some(ConnectError::Quiche(e)),
{
    if let Some(bytes) = next {
        assert(buffer_view(w.buf).take(w.offset as int) + bytes@ =~= buffer_view(w.buf));
    }
}

/// A finished write leaves exactly what was not taken waiting on its stream, and nothing where all
/// was taken; a failed one reports why and leaves nothing. Other streams are not touched.
pub proof fn law_what_was_not_taken_waits(
    pending: &mut PendingWrites,
    w: StreamWrite,
    r: Result<(), ConnectError>,
    other: u64,
)
    requires
        w.offset <= buffer_view(w.buf).len(),
        call_ensures(PendingWrites::settle, (pending, w), r),
        other != w.stream_id,
    ensures
        w.error matches Some(e) ==> {
            &&& r == Err::<(), ConnectError>(e)
            &&& !final(pending)@.contains_key(w.stream_id)
        },
        w.error is None ==> {
            &&& r is Ok
            &&& buffer_view(w.buf) == buffer_view(w.buf).take(w.offset as int) + waiting_on(
                final(pending)@,
                w.stream_id,
            )
            &&& final(pending)@.contains_key(w.stream_id) <==> w.offset < buffer_view(w.buf).len()
        },
        waiting_on(final(pending)@, other) == waiting_on(old(pending)@, other),
{
    let all = buffer_view(w.buf);
    assert(all =~= all.take(w.offset as int) + all.skip(w.offset as int));
    if w.offset == all.len() {
        assert(all.skip(w.offset as int) =~= Seq::empty());
    }
}

/// No byte is lost and none overtakes another: what a stream took of a write, followed by what
/// waits on it afterwards, is what waited before followed by the new data.
pub proof fn law_nothing_is_lost_or_overtaken(
    pending: &mut PendingWrites,
    sid: u64,
    data: &[u8],
    begun: StreamWrite,
    w: StreamWrite,
    later: &mut PendingWrites,
    r: Result<(), ConnectError>,
)
    requires
        call_ensures(PendingWrites::stream_send, (pending, sid, data), begun),
        w.buf == begun.buf,
        w.stream_id == begun.stream_id,
        w.offset <= buffer_view(w.buf).len(),
        w.error is None,
        *old(later) == *final(pending),
        call_ensures(PendingWrites::settle, (later, w), r),
    ensures
        buffer_view(w.buf).take(w.offset as int) + waiting_on(final(later)@, sid) == waiting_on(
            old(pending)@,
            sid,
        ) + data@,
{
    law_what_was_not_taken_waits(
        later,
        w,
        r,
        if sid == 0 {
            1
        } else {
            0
        },
    );
}

/// The streams that are retried are those with something waiting, each once, in ascending order;
/// there is something to wait for exactly where there is such a stream.
pub proof fn law_waiting_streams_are_listed(
    pending: &PendingWrites,
    keys: Vec<u64>,
    any: bool,
)
    requires
        call_ensures(PendingWrites::flush_pending, (pending,), keys),
        call_ensures(PendingWrites::has_pending, (pending,), any),
    ensures
        crate::laws::session::keys_in_order(keys@, pending@),
        any <==> keys@.len() > 0,
{
    crate::laws::session::lemma_keys_in_order(pending@);
    if keys@.len() > 0 {
        assert(pending@.contains_key(keys@[0]));
    } else if any {
        assert(pending@ =~= Map::empty());
    }
}

/// The waiting bytes of some streams are added up.
proof fn lemma_bytes_on(keys: Seq<u64>, pending: Map<u64, Seq<u8>>)
    ensures
        bytes_on(keys, pending) == keys.fold_left(0int, |a: int, k: u64| a + pending[k].len()),
    decreases keys.len(),
{
    if keys.len() > 0 {
        lemma_bytes_on(keys.drop_last(), pending);
    }
}

/// The bytes that wait are added up over all streams; more than can be counted is the largest
/// count.
pub proof fn law_waiting_bytes_add_up(pending: &PendingWrites, keys: Vec<u64>, r: usize)
    requires
        call_ensures(PendingWrites::pending_bytes, (pending,), r),
        call_ensures(PendingWrites::flush_pending, (pending,), keys),
    ensures
        ({
            let total = keys@.fold_left(0int, |a: int, k: u64| a + pending@[k].len());
            r as int == if total < usize::MAX {
                total
            } else {
                usize::MAX as int
            }
        }),
{
    lemma_bytes_on(keys@, pending@);
}

/// The protocol `h3-29`, byte by byte.
pub open spec fn offered_protocol() -> Seq<u8> {
    seq![0x68u8, 0x33, 0x2D, 0x32, 0x39]
}

/// A handshake is complete exactly where the connection is established with the offered protocol.
/// It fails with another protocol, where the peer closed, and when its time is up; in between it
/// goes on.
pub proof fn law_handshakes_end_one_way(
    established: bool,
    proto: &[u8],
    closed: bool,
    past_deadline: bool,
    r: Handshake,
)
    requires
        call_ensures(handshake, (established, proto, closed, past_deadline), r),
    ensures
        r is Complete <==> established && proto@ == offered_protocol(),
        r is InProgress <==> !established && !closed && !past_deadline,
        established && proto@ != offered_protocol() ==> r == Handshake::Failed(
            ConnectError::AlpnNegotiation,
        ),
        !established && closed ==> r matches Handshake::Failed(ConnectError::Closed(_)),
        !established && !closed && past_deadline ==> (r matches Handshake::Failed(
            ConnectError::HandshakeTimeout(d),
        ) && d@ == 10_000_000_000),
{
}

/// Reading from the socket goes on after a datagram and after an interruption, closes the
/// connection where the peer is gone, and stops for everything else. Every datagram counts as a
/// sign of life, whether the connection took it or not.
pub proof fn law_datagrams_are_signs_of_life(
    round: &mut DrainRecv,
    outcome: RecvOutcome,
    r: RecvNext,
)
    requires
        call_ensures(DrainRecv::drain_recv, (round, outcome), r),
    ensures
        r == RecvNext::Again <==> outcome == RecvOutcome::Datagram || outcome
            == RecvOutcome::Interrupted,
        r == RecvNext::CloseUnreachable <==> outcome == RecvOutcome::Refused,
        final(round).got_data <==> old(round).got_data || outcome == RecvOutcome::Datagram
            || outcome == RecvOutcome::Rejected,
{
}

/// Bytes that were read are decoded; a buffer that is too short doubles until it reaches eight
/// times the largest datagram; everything else ends the stream's turn, and only reading does.
pub proof fn law_readable_streams_have_their_turn(
    outcome: ReadOutcome,
    buffer: usize,
    r: ReadNext,
    pass: &mut ReadPass,
    then: ReadNext,
)
    requires
        call_ensures(process_readable, (outcome, buffer), r),
        call_ensures(ReadPass::read, (pass, outcome, buffer), then),
        old(pass).done <= old(pass).streams@.len(),
    ensures
        r == ReadNext::Decode <==> (outcome matches ReadOutcome::Data(n) && n > 0),
        r is Grow <==> outcome is BufferTooShort && buffer < 524_056,
        r matches ReadNext::Grow(n) ==> n == 2 * buffer,
        then == r,
        final(pass).streams == old(pass).streams,
        final(pass).done == if r is NextStream && old(pass).done < old(pass).streams@.len() {
            old(pass).done + 1
        } else {
            old(pass).done as int
        },
{
}

/// Streams are read in the order in which they were listed, from the first to the last.
pub proof fn law_streams_are_read_in_order(
    streams: Vec<u64>,
    fresh: ReadPass,
    pass: &ReadPass,
    r: Option<u64>,
)
    requires
        call_ensures(ReadPass::new, (streams,), fresh),
        call_ensures(ReadPass::current, (pass,), r),
    ensures
        fresh.streams == streams,
        fresh.done == 0,
        r is Some <==> pass.done < pass.streams@.len(),
        r matches Some(sid) ==> sid == pass.streams@[pass.done as int],
{
}

/// Whole frames are dispatched, pieces wait for more, and what is no frame is forgotten.
pub proof fn law_decoding_leads_on(outcome: DecodeOutcome, r: DecodeNext)
    requires
        call_ensures(decoded, (outcome,), r),
    ensures
        r == DecodeNext::Dispatch <==> outcome == DecodeOutcome::Complete,
        r == DecodeNext::ReadMore <==> outcome == DecodeOutcome::Incomplete,
        r == DecodeNext::Reset <==> outcome == DecodeOutcome::Malformed,
{
}

/// A flush goes on over packets that went out or were dropped, ends well when there are no more, and
/// fails where the socket or the connection does.
pub proof fn law_flushes_end(outcome: FlushOutcome, r: Option<Result<(), ConnectError>>)
    requires
        call_ensures(flush, (outcome,), r),
    ensures
        r is None <==> outcome is Sent || outcome is WouldBlock || outcome is Interrupted,
        (r matches Some(end) && end is Ok) <==> outcome is Done,
        outcome matches FlushOutcome::SocketFailed(e) ==> r == Some(
            Err::<(), ConnectError>(ConnectError::Io(e)),
        ),
        outcome matches FlushOutcome::QuicFailed(e) ==> r == Some(
            Err::<(), ConnectError>(ConnectError::Quiche(e)),
        ),
{
}

/// A drain ends well exactly where nothing is left to write, and badly when its time is up or
/// nothing gets out; in between it goes on.
pub proof fn law_drains_end_when_nothing_is_left(
    pending: bool,
    past_deadline: bool,
    top: DrainNext,
    flushed: bool,
    left: bool,
    round: DrainNext,
)
    requires
        call_ensures(drain_pending_gracefully, (pending, past_deadline), top),
        call_ensures(drained, (flushed, left), round),
    ensures
        top == DrainNext::Finished(true) <==> !pending,
        top == DrainNext::Round <==> pending && !past_deadline,
        top == DrainNext::Finished(false) <==> pending && past_deadline,
        round == DrainNext::Finished(true) <==> flushed && !left,
        round == DrainNext::Wait <==> flushed && left,
        round == DrainNext::Finished(false) <==> !flushed,
{
}

/// The task sleeps no longer than 200 ms, no longer than until the connection's timer and no longer
/// than its limit; and exactly as long as the shortest of them.
pub proof fn law_the_shortest_wait_counts(
    timer: Option<Duration>,
    cap: Option<Duration>,
    r: Duration,
)
    requires
        call_ensures(next_event_deadline, (timer, cap), r),
    ensures
        r@ <= 200_000_000,
        timer matches Some(t) ==> r@ <= t@,
        cap matches Some(c) ==> r@ <= c@,
        r@ == 200_000_000 || (timer matches Some(t) && r@ == t@) || (cap matches Some(c) && r@
            == c@),
{
}

/// A frame is encoded on the stack exactly where header, payload and checksum fit in 2048 bytes,
/// and then takes so many.
pub proof fn law_small_frames_stay_on_the_stack(payload: usize, r: Option<usize>)
    requires
        call_ensures(eager_size, (payload,), r),
    ensures
        r is Some <==> payload + 26 <= 2048,
        r matches Some(n) ==> n == payload + 26,
{
}

/// The socket is bound to any port of the peer's address family.
pub proof fn law_sockets_match_their_peer(peer_is_ipv6: bool, r: String)
    requires
        call_ensures(bind_address, (peer_is_ipv6,), r),
    ensures
        peer_is_ipv6 ==> r@ == "[::]:0"@,
        !peer_is_ipv6 ==> r@ == "0.0.0.0:0"@,
{
}

/// The server is verified exactly where a CA bundle is given, and then against that bundle. A
/// client identity is loaded from its own two files. A path that is not UTF-8 is refused. The idle
/// timeout is the configured one, in milliseconds and at least a second.
pub proof fn law_connections_are_configured(
    tls: &TlsVerify,
    idle_timeout: Duration,
    client_identity: &Option<ClientIdentity>,
    r: QuicPlan,
)
    requires
        call_ensures(build_quiche_config, (tls, idle_timeout, client_identity), r),
    ensures
        r.alpn@ == offered_protocol(),
        *tls matches TlsVerify::Strict { ca } ==> if ca.is_utf8 {
            r.verification matches Ok(v) && v.verify_peer && v.ca == Some(ca.display)
        } else {
            r.verification matches Err(ConnectError::Tls(_))
        },
        !(*tls is Strict) ==> (r.verification matches Ok(v) && !v.verify_peer && v.ca is None),
        client_identity is None <==> r.identity is None,
        *client_identity matches Some(id) ==> if id.cert.is_utf8 && id.key.is_utf8 {
            r.identity == Some(
                Ok::<(String, String), ConnectError>((id.cert.display, id.key.display)),
            )
        } else {
            r.identity matches Some(Err(ConnectError::Tls(_)))
        },
        idle_timeout@ < 1_000_000_000 ==> r.settings.max_idle_timeout_ms == 1000,
        1_000_000_000 <= idle_timeout@ && idle_timeout@ / 1_000_000 < 0x1_0000_0000_0000_0000
            ==> r.settings.max_idle_timeout_ms == idle_timeout@ / 1_000_000,
        r.settings.max_udp_payload == 65_507,
        r.settings.initial_max_data == 100 * 1024 * 1024,
        r.settings.initial_max_stream_data == 10 * 1024 * 1024,
        r.settings.initial_max_streams_bidi == 1024,
        r.settings.initial_max_streams_uni == 1024,
        !r.settings.disable_active_migration,
        r.settings.early_data,
{
}

/// Connection ids are eight bytes that spell a counter.
pub proof fn law_connection_ids_count(ids: &mut ConnectionIds, r: Vec<u8>)
    requires
        call_ensures(ConnectionIds::gen_scid, (ids,), r),
    ensures
        r@.len() == 8,
        from_be(r@) == old(ids).next,
        final(ids).next == (old(ids).next + 1) % 0x1_0000_0000_0000_0000,
{
    lemma_capacities();
    lemma_be_len(old(ids).next as nat, 8);
    law_big_endian_roundtrip(old(ids).next as nat, 8);
}

} // verus!
