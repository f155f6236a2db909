use vireon::config::{ClientBuilder, ClientIdentity, FilePath, TlsVerify};
use vireon::error::ConnectError;
use vireon::time::Duration;
use vireon::transport::{
    alpn_bytes, bind_address, build_quiche_config, closed_reason, decoded, drain_pending_gracefully,
    drained, eager_size, flush, handshake, load_failed, next_event_deadline, process_readable,
    server_address, CongestionControl, ConnectionIds, DecodeNext, DecodeOutcome, DrainNext, DrainRecv, FlushOutcome,
    Handshake, PendingWrites, ReadNext, ReadOutcome, ReadPass, RecvNext, RecvOutcome,
    WriteOutcome,
};

fn path(p: &str) -> FilePath {
    FilePath { display: p.into(), is_utf8: true }
}

#[test]
fn partial_writes_keep_their_order() {
    let mut pending = PendingWrites::new();
    let mut wire = Vec::new();
    let mut w = pending.stream_send(4, b"hello");
    assert_eq!(w.next_bytes(), Some(&b"hello"[..]));
    wire.extend_from_slice(&w.next_bytes().unwrap()[..2]);
    w.advance(WriteOutcome::Wrote(2));
    assert_eq!(w.next_bytes(), Some(&b"llo"[..]));
    w.advance(WriteOutcome::Blocked);
    assert_eq!(w.next_bytes(), None);
    assert!(pending.settle(w).is_ok());
    assert!(pending.has_pending());
    assert_eq!(pending.pending_bytes(), 3);

    // New data goes behind what is pending.
    let mut w = pending.stream_send(4, b" world");
    assert_eq!(w.next_bytes(), Some(&b"llo world"[..]));
    wire.extend_from_slice(&w.next_bytes().unwrap()[..4]);
    w.advance(WriteOutcome::Wrote(4));
    w.advance(WriteOutcome::Wrote(0));
    assert_eq!(w.next_bytes(), None);
    assert!(pending.settle(w).is_ok());
    assert_eq!(pending.flush_pending(), vec![4]);
    let mut w = pending.retry(4).unwrap();
    let n = w.next_bytes().unwrap().len();
    wire.extend_from_slice(w.next_bytes().unwrap());
    w.advance(WriteOutcome::Wrote(n));
    assert_eq!(w.next_bytes(), None);
    assert!(pending.settle(w).is_ok());
    assert!(!pending.has_pending());
    assert_eq!(wire, b"hello world");
    assert!(pending.retry(4).is_none());
}

#[test]
fn pending_streams_in_ascending_order() {
    let mut pending = PendingWrites::new();
    for sid in [12u64, 4, 8] {
        let mut w = pending.stream_send(sid, &[0; 5]);
        w.advance(WriteOutcome::Blocked);
        assert!(pending.settle(w).is_ok());
    }
    assert_eq!(pending.flush_pending(), vec![4, 8, 12]);
    assert_eq!(pending.pending_bytes(), 15);
}

#[test]
fn failed_writes_are_given_up() {
    let mut pending = PendingWrites::new();
    let mut w = pending.stream_send(4, b"abc");
    w.advance(WriteOutcome::Blocked);
    assert!(pending.settle(w).is_ok());
    let mut w = pending.stream_send(4, b"def");
    w.advance(WriteOutcome::StreamClosed);
    match pending.settle(w) {
        Err(ConnectError::Closed(why)) => assert_eq!(why, "stream already closed"),
        _ => panic!("not closed"),
    }
    assert!(!pending.has_pending());
    let mut w = pending.stream_send(4, b"abc");
    w.advance(WriteOutcome::Failed("broken".into()));
    match pending.settle(w) {
        Err(ConnectError::Quiche(why)) => assert_eq!(why, "broken"),
        _ => panic!("not failed"),
    }
}

#[test]
fn handshakes() {
    let h3 = alpn_bytes();
    assert_eq!(h3, b"h3-29");
    assert!(matches!(handshake(true, &h3, false, false), Handshake::Complete));
    assert!(matches!(
        handshake(true, b"h3", true, true),
        Handshake::Failed(ConnectError::AlpnNegotiation)
    ));
    match handshake(false, b"", true, true) {
        Handshake::Failed(ConnectError::Closed(why)) => {
            assert_eq!(why, "connection closed by peer")
        }
        _ => panic!("not closed"),
    }
    match handshake(false, b"", false, true) {
        Handshake::Failed(ConnectError::HandshakeTimeout(d)) => {
            assert_eq!(d, Duration::from_secs(10))
        }
        _ => panic!("no timeout"),
    }
    assert!(matches!(handshake(false, b"", false, false), Handshake::InProgress));
    assert!(matches!(closed_reason(), ConnectError::Closed(_)));
}

#[test]
fn reading_the_socket() {
    let mut d = DrainRecv::new();
    assert_eq!(d.drain_recv(RecvOutcome::Interrupted), RecvNext::Again);
    assert!(!d.got_data);
    assert_eq!(d.drain_recv(RecvOutcome::Datagram), RecvNext::Again);
    assert!(d.got_data);
    assert_eq!(d.drain_recv(RecvOutcome::WouldBlock), RecvNext::Stop);
    assert_eq!(d.drain_recv(RecvOutcome::Failed), RecvNext::Stop);
    assert_eq!(d.drain_recv(RecvOutcome::Refused), RecvNext::CloseUnreachable);
    let mut r = DrainRecv::new();
    assert_eq!(r.drain_recv(RecvOutcome::Rejected), RecvNext::Stop);
    assert!(r.got_data);
}

#[test]
fn reading_streams() {
    assert_eq!(process_readable(ReadOutcome::Data(5), 100), ReadNext::Decode);
    assert_eq!(process_readable(ReadOutcome::Data(0), 100), ReadNext::NextStream);
    assert_eq!(process_readable(ReadOutcome::Done, 100), ReadNext::NextStream);
    assert_eq!(process_readable(ReadOutcome::Failed, 100), ReadNext::NextStream);
    assert_eq!(process_readable(ReadOutcome::BufferTooShort, 65507), ReadNext::Grow(131014));
    assert_eq!(process_readable(ReadOutcome::BufferTooShort, 8 * 65507), ReadNext::NextStream);
    assert_eq!(decoded(DecodeOutcome::Complete), DecodeNext::Dispatch);
    assert_eq!(decoded(DecodeOutcome::Incomplete), DecodeNext::ReadMore);
    assert_eq!(decoded(DecodeOutcome::Malformed), DecodeNext::Reset);
}

#[test]
fn passes_over_readable_streams() {
    let mut pass = ReadPass::new(vec![4, 0]);
    assert_eq!(pass.current(), Some(4));
    assert_eq!(pass.read(ReadOutcome::Data(5), 100), ReadNext::Decode);
    // A malformed frame resets its own stream and ends neither its turn nor the pass.
    assert_eq!(decoded(DecodeOutcome::Malformed), DecodeNext::Reset);
    assert_eq!(pass.current(), Some(4));
    assert_eq!(pass.read(ReadOutcome::Failed, 100), ReadNext::NextStream);
    assert_eq!(pass.current(), Some(0));
    assert_eq!(pass.read(ReadOutcome::BufferTooShort, 100), ReadNext::Grow(200));
    assert_eq!(pass.read(ReadOutcome::Data(5), 200), ReadNext::Decode);
    assert_eq!(decoded(DecodeOutcome::Complete), DecodeNext::Dispatch);
    assert_eq!(pass.read(ReadOutcome::Done, 200), ReadNext::NextStream);
    assert_eq!(pass.current(), None);
    assert_eq!(pass.read(ReadOutcome::Done, 200), ReadNext::NextStream);
    assert_eq!(pass.done, 2);
}

#[test]
fn flushing() {
    assert!(flush(FlushOutcome::Sent).is_none());
    assert!(flush(FlushOutcome::WouldBlock).is_none());
    assert!(flush(FlushOutcome::Interrupted).is_none());
    assert!(matches!(flush(FlushOutcome::Done), Some(Ok(()))));
    assert!(matches!(
        flush(FlushOutcome::SocketFailed("x".into())),
        Some(Err(ConnectError::Io(_)))
    ));
    assert!(matches!(
        flush(FlushOutcome::QuicFailed("x".into())),
        Some(Err(ConnectError::Quiche(_)))
    ));
}

#[test]
fn draining() {
    assert_eq!(drain_pending_gracefully(false, false), DrainNext::Finished(true));
    assert_eq!(drain_pending_gracefully(true, false), DrainNext::Round);
    assert_eq!(drain_pending_gracefully(true, true), DrainNext::Finished(false));
    assert_eq!(drained(false, true), DrainNext::Finished(false));
    assert_eq!(drained(true, true), DrainNext::Wait);
    assert_eq!(drained(true, false), DrainNext::Finished(true));
}

#[test]
fn sleeping() {
    let ms = Duration::from_millis;
    assert_eq!(next_event_deadline(None, None), ms(200));
    assert_eq!(next_event_deadline(Some(ms(50)), None), ms(50));
    assert_eq!(next_event_deadline(Some(ms(500)), None), ms(200));
    assert_eq!(next_event_deadline(Some(ms(50)), Some(ms(20))), ms(20));
    assert_eq!(next_event_deadline(None, Some(ms(900))), ms(200));
}

#[test]
fn frame_sizes() {
    assert_eq!(eager_size(0), Some(26));
    assert_eq!(eager_size(2022), Some(2048));
    assert_eq!(eager_size(2023), None);
    assert_eq!(eager_size(usize::MAX), None);
}

#[test]
fn addresses() {
    let cfg = ClientBuilder::new("example.com:8443").cfg;
    assert_eq!(server_address(&cfg), "example.com:8443");
    let cfg = ClientBuilder::new("[::1]").cfg;
    assert_eq!(server_address(&cfg), "[::1]:4433");
    assert_eq!(bind_address(true), "[::]:0");
    assert_eq!(bind_address(false), "0.0.0.0:0");
}

#[test]
fn quic_configuration() {
    let plan = build_quiche_config(&TlsVerify::Tofu, Duration::from_secs(60), &None);
    assert!(plan.identity.is_none());
    assert_eq!(plan.alpn, b"h3-29");
    let s = plan.settings;
    assert_eq!(s.congestion, CongestionControl::Cubic);
    assert_eq!(s.max_idle_timeout_ms, 60_000);
    assert_eq!(s.max_udp_payload, 65507);
    assert_eq!(s.initial_max_data, 100 * 1024 * 1024);
    assert_eq!(s.initial_max_stream_data, 10 * 1024 * 1024);
    assert_eq!((s.initial_max_streams_bidi, s.initial_max_streams_uni), (1024, 1024));
    assert!(!s.disable_active_migration && s.early_data && !s.discover_pmtu);
    let v = plan.verification.unwrap();
    assert!(!v.verify_peer && v.ca.is_none());

    // At least a second of idle timeout.
    let strict = TlsVerify::Strict { ca: path("/ca.pem") };
    let id = Some(ClientIdentity { cert: path("/c.pem"), key: path("/k.pem") });
    let plan = build_quiche_config(&strict, Duration::from_millis(5), &id);
    assert_eq!(plan.settings.max_idle_timeout_ms, 1000);
    assert_eq!(
        plan.identity.unwrap().unwrap(),
        ("/c.pem".to_string(), "/k.pem".to_string())
    );
    let v = plan.verification.unwrap();
    assert!(v.verify_peer);
    assert_eq!(v.ca.as_deref(), Some("/ca.pem"));

    for tls in [TlsVerify::DangerAcceptInvalid, TlsVerify::Pinned { cert_der: vec![1] }] {
        let plan = build_quiche_config(&tls.clone(), Duration::from_secs(1), &None);
        assert!(!plan.verification.unwrap().verify_peer);
    }
}

#[test]
fn paths_that_are_not_utf8() {
    let bad = FilePath { display: "/x\u{FFFD}".into(), is_utf8: false };
    let why = |r: ConnectError| match r {
        ConnectError::Tls(w) => w,
        _ => panic!("not a TLS error"),
    };
    let id = Some(ClientIdentity { cert: bad.clone(), key: bad.clone() });
    let strict = TlsVerify::Strict { ca: bad.clone() };
    let plan = build_quiche_config(&strict, Duration::from_secs(1), &id);
    assert_eq!(
        why(plan.identity.unwrap().err().unwrap()),
        "cert path not valid UTF-8: /x\u{FFFD}"
    );
    assert_eq!(
        why(plan.verification.err().unwrap()),
        "CA path not valid UTF-8: /x\u{FFFD}"
    );
    let id = Some(ClientIdentity { cert: path("/c"), key: bad });
    let plan = build_quiche_config(&TlsVerify::Tofu, Duration::from_secs(1), &id);
    assert_eq!(
        why(plan.identity.unwrap().err().unwrap()),
        "key path not valid UTF-8: /x\u{FFFD}"
    );
    assert_eq!(why(load_failed("CA bundle", "no such file")), "failed to load CA bundle: no such file");
}

#[test]
fn connection_ids_count_up() {
    let mut ids = ConnectionIds::new();
    assert_eq!(ids.gen_scid(), 1u64.to_be_bytes());
    assert_eq!(ids.gen_scid(), 2u64.to_be_bytes());
}
