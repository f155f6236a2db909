use bytes::Bytes;
use vireon::cli::{
    build_builder, file_payload, read_payload, stdin_payload, Cli, CliError, Command, Countdown, Turn,
    PayloadSource,
};
use vireon::config::{FilePath, TlsVerify};
use vireon::message::Message;
use vireon::mux::{
    listening_line, mux_pub, mux_sub, opened_line, pause_between, sent_line, stream_of,
    summary_line,
};
use vireon::output::{json_escape, print_msg, print_tagged_msg};
use vireon::parse::{
    parse_policy, parse_send_spec, parse_stream_spec, parse_tls_verify, policy_name, tls_file,
};
use vireon::stream::DeliveryPolicy;
use vireon::time::Duration;

fn bad<T>(r: Result<T, CliError>) -> String {
    match r {
        Err(CliError::BadArg(why)) => why,
        _ => panic!("not a bad argument"),
    }
}

fn msg(topic: &'static [u8], payload: &'static [u8]) -> Message {
    Message {
        topic: Bytes::from_static(topic),
        payload: Bytes::from_static(payload),
        seq: 12,
        stream_id: 4,
    }
}

fn strings(items: &[&str]) -> Vec<String> {
    items.iter().map(|s| s.to_string()).collect()
}

#[test]
fn tls_modes() {
    let none = || Err("unread".to_string());
    assert!(matches!(parse_tls_verify("tofu", false, none()), Ok(TlsVerify::Tofu)));
    assert!(matches!(
        parse_tls_verify("danger_accept_invalid", false, none()),
        Ok(TlsVerify::DangerAcceptInvalid)
    ));
    match parse_tls_verify("strict:/ca.pem", true, none()) {
        Ok(TlsVerify::Strict { ca }) => assert_eq!((ca.display.as_str(), ca.is_utf8), ("/ca.pem", true)),
        _ => panic!("not strict"),
    }
    match parse_tls_verify("pinned:/c.der", true, Ok(vec![1, 2])) {
        Ok(TlsVerify::Pinned { cert_der }) => assert_eq!(cert_der, &[1, 2]),
        _ => panic!("not pinned"),
    }
    assert_eq!(bad(parse_tls_verify("strict:/x", false, none())), "CA bundle not found: /x");
    assert_eq!(bad(parse_tls_verify("pinned:/x", false, none())), "pinned cert not found: /x");
    assert_eq!(bad(parse_tls_verify("pinned:/x", true, none())), "read /x: unread");
    assert_eq!(
        bad(parse_tls_verify("what", false, none())),
        "unknown tls_verify mode: what (expected tofu, danger_accept_invalid, strict:<path>, pinned:<path>)"
    );
    assert_eq!(tls_file("strict:/a").as_deref(), Some("/a"));
    assert_eq!(tls_file("pinned:/b").as_deref(), Some("/b"));
    assert_eq!(tls_file("tofu"), None);
}

#[test]
fn policies() {
    for p in [
        DeliveryPolicy::ReliableOrdered,
        DeliveryPolicy::ReliableUnordered,
        DeliveryPolicy::RealtimeDropOld,
        DeliveryPolicy::LatestOnly,
    ] {
        assert_eq!(parse_policy(policy_name(p)).unwrap(), p);
    }
    assert_eq!(parse_policy("ordered").unwrap(), DeliveryPolicy::ReliableOrdered);
    assert_eq!(parse_policy("unordered").unwrap(), DeliveryPolicy::ReliableUnordered);
    assert_eq!(parse_policy("realtime").unwrap(), DeliveryPolicy::RealtimeDropOld);
    assert_eq!(parse_policy("latest").unwrap(), DeliveryPolicy::LatestOnly);
    assert_eq!(
        bad(parse_policy("fast")),
        "unknown policy: fast (expected reliable_ordered, reliable_unordered, realtime_drop_old, latest_only)"
    );
}

#[test]
fn stream_declarations() {
    let (l, t, p) = parse_stream_spec("video=video.frame:latest_only").unwrap();
    assert_eq!((l.as_str(), t.as_str(), p), ("video", "video.frame", DeliveryPolicy::LatestOnly));
    // The last colon counts, and the first equals sign.
    let (l, t, _) = parse_stream_spec("a=b=c:d:latest").unwrap();
    assert_eq!((l.as_str(), t.as_str()), ("a", "b=c:d"));
    assert_eq!(
        bad(parse_stream_spec("nothing")),
        "invalid --stream 'nothing': expected LABEL=TOPIC:POLICY"
    );
    assert_eq!(bad(parse_stream_spec("=t:latest")), "invalid --stream '=t:latest': empty label");
    assert_eq!(
        bad(parse_stream_spec("l=topic")),
        "invalid --stream 'l=topic': expected LABEL=TOPIC:POLICY (missing ':policy')"
    );
    assert_eq!(bad(parse_stream_spec("l=:latest")), "invalid --stream 'l=:latest': empty topic");
    assert!(bad(parse_stream_spec("l=t:x")).starts_with("unknown policy: x"));
}

#[test]
fn send_items() {
    let (l, p) = parse_send_spec("chat=a=b:ü").unwrap();
    assert_eq!(l, "chat");
    assert_eq!(p.as_ref(), "a=b:ü".as_bytes());
    assert_eq!(bad(parse_send_spec("x")), "invalid --send 'x': expected LABEL=PAYLOAD");
    assert_eq!(bad(parse_send_spec("=x")), "invalid --send '=x': empty label");
}

#[test]
fn payload_sources() {
    let file = || Some(FilePath { display: "/f".into(), is_utf8: true });
    assert!(matches!(read_payload(Some("x".into()), file(), true), Ok(PayloadSource::Stdin)));
    assert!(matches!(read_payload(Some("x".into()), file(), false), Ok(PayloadSource::File(_))));
    match read_payload(Some("é".into()), None, false) {
        Ok(PayloadSource::Inline(b)) => assert_eq!(b.as_ref(), "é".as_bytes()),
        _ => panic!("not inline"),
    }
    assert_eq!(
        bad(read_payload(None, None, false)),
        "no payload provided (pass an inline arg, --file, or --stdin)"
    );
    assert_eq!(stdin_payload(Ok(vec![1])).unwrap().as_ref(), &[1]);
    assert!(matches!(stdin_payload(Err("eof".into())), Err(CliError::Io(_))));
    assert_eq!(file_payload(&file().unwrap(), Ok(vec![2])).unwrap().as_ref(), &[2]);
    assert_eq!(bad(file_payload(&file().unwrap(), Err("gone".into()))), "read /f: gone");
}

#[test]
fn counting_messages() {
    let mut c = Countdown::new(Some(2));
    assert_eq!(c.next_turn(), Turn::Show);
    assert_eq!(c.next_turn(), Turn::ShowLast);
    assert_eq!(c.next_turn(), Turn::Over);
    assert_eq!(c.seen, 2);
    let mut zero = Countdown::new(Some(0));
    assert_eq!(zero.next_turn(), Turn::ShowLast);
    assert_eq!(zero.next_turn(), Turn::Over);
    let mut endless = Countdown::new(None);
    assert_eq!(endless.next_turn(), Turn::Show);
}

#[test]
fn message_lines() {
    let m = msg(b"sensor.temp", b"23.5C");
    assert_eq!(print_msg(&m, "text"), "sensor.temp = 23.5C");
    assert_eq!(print_msg(&m, "anything"), "sensor.temp = 23.5C");
    assert_eq!(
        print_msg(&m, "json"),
        "{\"topic\":\"sensor.temp\",\"payload\":\"23.5C\",\"seq\":12,\"stream_id\":4}"
    );
    assert_eq!(print_tagged_msg("chat", &m, "text"), "[chat    ] sensor.temp = 23.5C");
    assert_eq!(
        print_tagged_msg("very-long-label", &m, "text"),
        "[very-long-label] sensor.temp = 23.5C"
    );
    assert_eq!(
        print_tagged_msg("chat", &m, "json"),
        "{\"stream\":\"chat\",\"topic\":\"sensor.temp\",\"payload\":\"23.5C\",\"seq\":12,\"stream_id\":4}"
    );
    // Bytes that are not UTF-8 are replaced.
    assert_eq!(print_msg(&msg(b"t", &[b'a', 0xFF]), "text"), "t = a\u{FFFD}");
}

#[test]
fn json_lines_escape_topics_and_labels() {
    let m = msg(b"say \"hi\"\n", b"a\\b");
    assert_eq!(
        print_msg(&m, "json"),
        "{\"topic\":\"say \\\"hi\\\"\\n\",\"payload\":\"a\\\\b\",\"seq\":12,\"stream_id\":4}"
    );
    assert_eq!(
        print_tagged_msg("x\"y\n", &m, "json"),
        "{\"stream\":\"x\\\"y\\n\",\"topic\":\"say \\\"hi\\\"\\n\",\"payload\":\"a\\\\b\",\"seq\":12,\"stream_id\":4}"
    );
    assert_eq!(print_tagged_msg("x\"y\n", &m, "json").lines().count(), 1);
}

#[test]
fn json_strings() {
    assert_eq!(json_escape("plain ü"), "plain ü");
    assert_eq!(json_escape("\"\\\n\r\t"), "\\\"\\\\\\n\\r\\t");
    assert_eq!(json_escape("\u{0}\u{1f}\u{b}"), "\\u0000\\u001f\\u000b");
    assert_eq!(json_escape("\u{7f}"), "\u{7f}");
}

#[test]
fn mux_subscriptions() {
    let decls = mux_sub(&strings(&["v=v.f:latest", "c=c.m:ordered"])).unwrap();
    assert_eq!(decls.len(), 2);
    let spec = stream_of(&decls[0]);
    assert_eq!(spec.policy, DeliveryPolicy::LatestOnly);
    assert_eq!(spec.topic.as_deref(), Some("v.f"));
    assert_eq!(bad(mux_sub(&vec![])), "mux sub requires at least one --stream");
    assert_eq!(
        bad(mux_sub(&strings(&["v=v.f:latest", "x", "y"]))),
        "invalid --stream 'x': expected LABEL=TOPIC:POLICY"
    );
}

#[test]
fn mux_publishing() {
    let plan = mux_pub(
        &strings(&["v=v.f:latest", "c=c.m:ordered", "v=v.g:latest"]),
        &strings(&["c=hello", "v=frame"]),
    )
    .unwrap();
    assert_eq!(plan.streams.len(), 3);
    // A label that is declared again stands for the later stream.
    assert_eq!(plan.targets, &[1, 2]);
    assert_eq!(plan.sends[1].1.as_ref(), b"frame");
    assert_eq!(
        bad(mux_pub(&strings(&["v=v.f:latest"]), &strings(&["v=1", "q=2"]))),
        "send label 'q' has no matching --stream declaration"
    );
    // Streams are checked before sends.
    assert!(bad(mux_pub(&strings(&["x"]), &strings(&["y"]))).starts_with("invalid --stream"));
    assert!(bad(mux_pub(&strings(&["v=v.f:latest"]), &strings(&["y"]))).starts_with("invalid --send"));
}

#[test]
fn mux_lines() {
    assert_eq!(
        opened_line("video", 4, DeliveryPolicy::LatestOnly, "video.frame"),
        "[video   ] opened stream 4   (latest_only) → video.frame"
    );
    assert_eq!(
        listening_line(3),
        "listening on 3 streams over 1 connection — Ctrl+C to exit"
    );
    assert_eq!(
        sent_line("chat", &Bytes::from_static(b"hello"), 8),
        "[chat    ] hello → stream 8"
    );
    assert_eq!(summary_line(4, 2), "ok (4 sends across 2 streams on 1 connection)");
    assert_eq!(pause_between(0), None);
    assert_eq!(pause_between(5), Some(Duration::from_millis(5)));
}

#[test]
fn command_line_configuration() {
    let path = |p: &str| Some(FilePath { display: p.into(), is_utf8: true });
    let mut cli = Cli {
        addr: "example.com".into(),
        tls_verify: "tofu".into(),
        sni: None,
        client_cert: path("c"),
        client_key: None,
        command: Command::Ping,
    };
    let none = || Err("unread".to_string());
    let b = build_builder(&cli, false, none()).unwrap();
    assert_eq!((b.cfg.host.as_str(), b.cfg.port, b.cfg.sni.as_str()), ("example.com", 4433, "example.com"));
    // A certificate without a key is no identity.
    assert!(b.cfg.client_identity.is_none());
    cli.client_key = path("k");
    cli.sni = Some("localhost".into());
    let b = build_builder(&cli, false, none()).unwrap();
    assert_eq!(b.cfg.sni, "localhost");
    assert_eq!(b.cfg.client_identity.unwrap().cert.display, "c");
    cli.tls_verify = "nope".into();
    assert!(bad(build_builder(&cli, false, none())).starts_with("unknown tls_verify mode: nope"));
}
