//! Command-line arguments: what each is read as.
use bytes::Bytes;
use vstd::prelude::*;
use vstd::utf8::encode_utf8;

use crate::buf::bytes_view;
use crate::cli::{build_builder, file_payload, read_payload, stdin_payload, Cli, CliError, Countdown, PayloadSource, Turn};
use crate::config::{address, ClientBuilder, ClientIdentity, FilePath, TlsVerify};
use crate::laws::addresses::{lemma_bracket, lemma_last_colon, lemma_spelled, spells_port};
use crate::mux::{mux_pub, mux_sub, parse_sends, parse_streams, stream_of, MuxPub};
use crate::parse::{after_prefix, parse_policy, parse_send_spec, parse_stream_spec, parse_tls_verify, policy_name, policy_named, send_arg, starts_with, stream_arg, tls_file, tls_policy, SendArg, StreamArg, TlsPolicy};
use crate::stream::{DeliveryPolicy, StreamSpec};

verus! {

/// A prefix in front is found, and only there.
proof fn lemma_prefix(prefix: Seq<char>, rest: Seq<char>)
    ensures
        starts_with(prefix + rest, prefix),
        (prefix + rest).skip(prefix.len() as int) == rest,
{
    assert((prefix + rest).take(prefix.len() as int) =~= prefix);
    assert((prefix + rest).skip(prefix.len() as int) =~= rest);
}

/// What starts with a prefix is that prefix and the rest.
pub proof fn law_prefixes_are_cut_off(s: &str, prefix: &str, r: Option<String>)
    requires
        call_ensures(after_prefix, (s, prefix), r),
    ensures
        r matches Some(rest) ==> s@ == prefix@ + rest@,
        (exists|rest: Seq<char>| s@ == #[trigger] (prefix@ + rest)) ==> r is Some,
{
    if r is Some {
        assert(s@ =~= s@.take(prefix@.len() as int) + s@.skip(prefix@.len() as int));
    }
    if exists|rest: Seq<char>| s@ == #[trigger] (prefix@ + rest) {
        let rest = choose|rest: Seq<char>| s@ == #[trigger] (prefix@ + rest);
        lemma_prefix(prefix@, rest);
    }
}

/// The two kinds of file arguments differ.
proof fn lemma_tls_prefixes(s: Seq<char>)
    ensures
        !(starts_with(s, "strict:"@) && starts_with(s, "pinned:"@)),
        !starts_with("tofu"@, "strict:"@),
        !starts_with("tofu"@, "pinned:"@),
        !starts_with("danger_accept_invalid"@, "strict:"@),
        !starts_with("danger_accept_invalid"@, "pinned:"@),
        "tofu"@ != "danger_accept_invalid"@,
{
    reveal_strlit("strict:");
    reveal_strlit("pinned:");
    reveal_strlit("tofu");
    reveal_strlit("danger_accept_invalid");
    assert("strict:"@[0] == 's');
    assert("pinned:"@[0] == 'p');
    assert("tofu"@.len() == 4);
    let d = "danger_accept_invalid"@;
    assert(d[0] == 'd');
    assert(d.take(7)[0] == 'd');
    if s.len() >= 7 {
        assert(s.take(7)[0] == s[0]);
    }
}

/// How a TLS mode is read, given whether the file that it names exists and what it holds.
pub open spec fn tls_read(
    s: Seq<char>,
    exists: bool,
    contents: Result<Vec<u8>, String>,
    r: Result<TlsVerify, CliError>,
) -> bool {
    &&& forall|path: Seq<char>|
        s == #[trigger] ("strict:"@ + path) ==> if exists {
            r matches Ok(TlsVerify::Strict { ca }) && ca.display@ == path && ca.is_utf8
        } else {
            r matches Err(CliError::BadArg(_))
        }
    &&& forall|path: Seq<char>|
        s == #[trigger] ("pinned:"@ + path) ==> match contents {
            Ok(der) if exists => r matches Ok(TlsVerify::Pinned { cert_der }) && cert_der@ == der@,
            _ => r matches Err(CliError::BadArg(_)),
        }
    &&& s == "tofu"@ ==> r == Ok::<TlsVerify, CliError>(TlsVerify::Tofu)
    &&& s == "danger_accept_invalid"@ ==> r == Ok::<TlsVerify, CliError>(
        TlsVerify::DangerAcceptInvalid,
    )
    &&& (r is Ok ==> s == "tofu"@ || s == "danger_accept_invalid"@ || (exists|path: Seq<char>|
        s == #[trigger] ("strict:"@ + path)) || (exists|path: Seq<char>|
        s == #[trigger] ("pinned:"@ + path)))
}

/// What `tls_policy` says, in other words.
proof fn lemma_tls_read(
    s: Seq<char>,
    exists: bool,
    contents: Result<Vec<u8>, String>,
    r: Result<TlsVerify, CliError>,
)
    requires
        match tls_policy(s, exists, contents) {
            TlsPolicy::Refused(why) => r is Err && r->Err_0 is BadArg,
            accepted => r is Ok && accepted.describes(r->Ok_0),
        },
    ensures
        tls_read(s, exists, contents, r),
{
    lemma_tls_prefixes(s);
    assert forall|path: Seq<char>| s == #[trigger] ("strict:"@ + path) implies if exists {
        r matches Ok(TlsVerify::Strict { ca }) && ca.display@ == path && ca.is_utf8
    } else {
        r matches Err(CliError::BadArg(_))
    } by {
        lemma_prefix("strict:"@, path);
    }
    assert forall|path: Seq<char>| s == #[trigger] ("pinned:"@ + path) implies match contents {
        Ok(der) if exists => r matches Ok(TlsVerify::Pinned { cert_der }) && cert_der@ == der@,
        _ => r matches Err(CliError::BadArg(_)),
    } by {
        lemma_prefix("pinned:"@, path);
    }
    if starts_with(s, "strict:"@) {
        assert(s =~= "strict:"@ + s.skip("strict:"@.len() as int));
    }
    if starts_with(s, "pinned:"@) {
        assert(s =~= "pinned:"@ + s.skip("pinned:"@.len() as int));
    }
}

/// A TLS mode is read as what it says: a CA bundle or a pinned certificate from a file that is
/// there, trust on first use, or no verification. Everything else is refused.
pub proof fn law_tls_modes_are_read(
    s: &str,
    exists: bool,
    contents: Result<Vec<u8>, String>,
    r: Result<TlsVerify, CliError>,
)
    requires
        call_ensures(parse_tls_verify, (s, exists, contents), r),
    ensures
        tls_read(s@, exists, contents, r),
{
    lemma_tls_read(s@, exists, contents, r);
}

/// The file that a TLS mode names is what follows the colon.
pub proof fn law_tls_files_are_named(s: &str, r: Option<String>)
    requires
        call_ensures(tls_file, (s,), r),
    ensures
        r matches Some(path) ==> s@ == "strict:"@ + path@ || s@ == "pinned:"@ + path@,
        (exists|path: Seq<char>| s@ == #[trigger] ("strict:"@ + path)) ==> r is Some,
        (exists|path: Seq<char>| s@ == #[trigger] ("pinned:"@ + path)) ==> r is Some,
{
    if r is Some {
        if starts_with(s@, "strict:"@) {
            assert(s@ =~= "strict:"@ + (r->0)@);
        } else {
            assert(s@ =~= "pinned:"@ + (r->0)@);
        }
    }
    if exists|path: Seq<char>| s@ == #[trigger] ("strict:"@ + path) {
        let path = choose|path: Seq<char>| s@ == #[trigger] ("strict:"@ + path);
        lemma_prefix("strict:"@, path);
    }
    if exists|path: Seq<char>| s@ == #[trigger] ("pinned:"@ + path) {
        let path = choose|path: Seq<char>| s@ == #[trigger] ("pinned:"@ + path);
        lemma_prefix("pinned:"@, path);
    }
}

/// The names of the delivery policies, long and short.
pub open spec fn names_policy(s: Seq<char>, p: DeliveryPolicy) -> bool {
    match p {
        DeliveryPolicy::ReliableOrdered => s == "reliable_ordered"@ || s == "ordered"@,
        DeliveryPolicy::ReliableUnordered => s == "reliable_unordered"@ || s == "unordered"@,
        DeliveryPolicy::RealtimeDropOld => s == "realtime_drop_old"@ || s == "realtime"@,
        DeliveryPolicy::LatestOnly => s == "latest_only"@ || s == "latest"@,
    }
}

/// The eight names all differ.
proof fn lemma_policy_names(s: Seq<char>, p: DeliveryPolicy)
    ensures
        names_policy(s, p) <==> policy_named(s) == Some(p),
{
    reveal_strlit("reliable_ordered");
    reveal_strlit("ordered");
    reveal_strlit("reliable_unordered");
    reveal_strlit("unordered");
    reveal_strlit("realtime_drop_old");
    reveal_strlit("realtime");
    reveal_strlit("latest_only");
    reveal_strlit("latest");
    assert("reliable_ordered"@.len() == 16);
    assert("ordered"@.len() == 7);
    assert("reliable_unordered"@.len() == 18);
    assert("unordered"@.len() == 9);
    assert("realtime_drop_old"@.len() == 17);
    assert("realtime"@.len() == 8);
    assert("latest_only"@.len() == 11);
    assert("latest"@.len() == 6);
}

/// A policy is read from its long name and from its short one, and from nothing else; the name that
/// is shown is one of them.
pub proof fn law_policies_are_read(
    s: &str,
    r: Result<DeliveryPolicy, CliError>,
    p: DeliveryPolicy,
    shown: &'static str,
)
    requires
        call_ensures(parse_policy, (s,), r),
        call_ensures(policy_name, (p,), shown),
    ensures
        names_policy(s@, p) <==> r == Ok::<DeliveryPolicy, CliError>(p),
        r is Err ==> r->Err_0 is BadArg,
        names_policy(shown@, p),
{
    lemma_policy_names(s@, p);
    if let Ok(q) = r {
        lemma_policy_names(s@, q);
    }
}

/// The first `=` of a text that starts with a label.
proof fn lemma_first_equals(label: Seq<char>, rest: Seq<char>)
    requires
        !label.contains('='),
    ensures
        ({
            let s = label + seq!['='] + rest;
            &&& s.index_of_first('=') == Some(label.len() as int)
            &&& s.take(label.len() as int) == label
            &&& s.skip(label.len() as int + 1) == rest
        }),
{
    let s = label + seq!['='] + rest;
    s.index_of_first_ensures('=');
    assert(s[label.len() as int] == '=');
    assert(s.contains('='));
    assert forall|j: int| 0 <= j < label.len() implies s[j] != '=' by {
        assert(s[j] == label[j]);
        assert(label.contains(label[j]));
    }
    assert(s.take(label.len() as int) =~= label);
    assert(s.skip(label.len() as int + 1) =~= rest);
}

/// `LABEL=TOPIC:POLICY` declares that label, that topic and that policy: the label ends at the
/// first `=`, the policy starts behind the last `:`. Without a label, a topic or the name of a
/// policy it is refused.
pub proof fn law_stream_declarations_are_read(
    label: Seq<char>,
    topic: Seq<char>,
    name: Seq<char>,
    s: &str,
    r: Result<(String, String, DeliveryPolicy), CliError>,
)
    requires
        call_ensures(parse_stream_spec, (s,), r),
        !label.contains('='),
        !name.contains(':'),
        s@ == label + seq!['='] + (topic + seq![':'] + name),
    ensures
        r is Ok <==> label.len() > 0 && topic.len() > 0 && (exists|p: DeliveryPolicy| #[trigger]
            names_policy(name, p)),
        r matches Ok(decl) ==> {
            &&& decl.0@ == label
            &&& decl.1@ == topic
            &&& names_policy(name, decl.2)
        },
{
    lemma_first_equals(label, topic + seq![':'] + name);
    lemma_last_colon(topic, name);
    lemma_policy_names(name, DeliveryPolicy::ReliableOrdered);
    lemma_policy_names(name, DeliveryPolicy::ReliableUnordered);
    lemma_policy_names(name, DeliveryPolicy::RealtimeDropOld);
    lemma_policy_names(name, DeliveryPolicy::LatestOnly);
    if let Some(p) = policy_named(name) {
        assert(names_policy(name, p));
    }
}

/// A declaration without `=`, or without `:` behind it, is refused.
pub proof fn law_incomplete_declarations_are_refused(
    s: &str,
    r: Result<(String, String, DeliveryPolicy), CliError>,
)
    requires
        call_ensures(parse_stream_spec, (s,), r),
        !s@.contains('=') || (exists|label: Seq<char>, rest: Seq<char>|
            {
                &&& s@ == #[trigger] (label + seq!['='] + rest)
                &&& !label.contains('=')
                &&& !rest.contains(':')
            }),
    ensures
        r is Err,
        r->Err_0 is BadArg,
{
    s@.index_of_first_ensures('=');
    if s@.contains('=') {
        let (label, rest) = choose|label: Seq<char>, rest: Seq<char>|
            {
                &&& s@ == #[trigger] (label + seq!['='] + rest)
                &&& !label.contains('=')
                &&& !rest.contains(':')
            };
        lemma_first_equals(label, rest);
        rest.index_of_last_ensures(':');
    }
}

/// `LABEL=PAYLOAD` sends the UTF-8 bytes of all that follows the first `=`, whatever it holds, to
/// that label. Without a label, or without `=`, it is refused.
pub proof fn law_send_items_are_read(
    label: Seq<char>,
    payload: Seq<char>,
    s: &str,
    r: Result<(String, Bytes), CliError>,
    bare: &str,
    refused: Result<(String, Bytes), CliError>,
)
    requires
        call_ensures(parse_send_spec, (s,), r),
        !label.contains('='),
        s@ == label + seq!['='] + payload,
        call_ensures(parse_send_spec, (bare,), refused),
        !bare@.contains('='),
    ensures
        r is Ok <==> label.len() > 0,
        r matches Ok(item) ==> item.0@ == label && bytes_view(item.1) == encode_utf8(payload),
        refused matches Err(CliError::BadArg(_)),
{
    lemma_first_equals(label, payload);
    bare@.index_of_first_ensures('=');
}

/// The declaration is what the argument says.
pub open spec fn declared_by(arg: Seq<char>, decl: (String, String, DeliveryPolicy)) -> bool {
    stream_arg(arg) == (StreamArg::Declared { label: decl.0@, topic: decl.1@, policy: decl.2 })
}

/// The item is what the argument says.
pub open spec fn sent_by(arg: Seq<char>, item: (String, Bytes)) -> bool {
    send_arg(arg) == (SendArg::Item { label: item.0@, payload: bytes_view(item.1) })
}

/// Arguments are read one for one, in their order: all of them, or none where one is bad.
pub proof fn law_argument_lists_are_read(
    args: &Vec<String>,
    r: Result<Vec<(String, String, DeliveryPolicy)>, CliError>,
    sends: &Vec<String>,
    items: Result<Vec<(String, Bytes)>, CliError>,
)
    requires
        call_ensures(parse_streams, (args,), r),
        call_ensures(parse_sends, (sends,), items),
    ensures
        r matches Ok(decls) ==> decls@.len() == args@.len() && forall|i: int|
            0 <= i < args@.len() ==> declared_by((#[trigger] args@[i])@, decls@[i]),
        r is Err <==> exists|i: int|
            0 <= i < args@.len() && stream_arg((#[trigger] args@[i])@) is Refused,
        items matches Ok(list) ==> list@.len() == sends@.len() && forall|i: int|
            0 <= i < sends@.len() ==> sent_by((#[trigger] sends@[i])@, list@[i]),
        items is Err <==> exists|i: int|
            0 <= i < sends@.len() && send_arg((#[trigger] sends@[i])@) is Refused,
{
    if let Ok(decls) = r {
        assert forall|i: int| 0 <= i < args@.len() implies declared_by(
            (#[trigger] args@[i])@,
            decls@[i],
        ) by {
            assert(crate::parse::declares(stream_arg(args@[i]@), decls@[i]));
        }
    }
    if let Ok(list) = items {
        assert forall|i: int| 0 <= i < sends@.len() implies sent_by(
            (#[trigger] sends@[i])@,
            list@[i],
        ) by {
            assert(crate::parse::sends(send_arg(sends@[i]@), list@[i]));
        }
    }
}

/// Some stream argument is refused.
pub open spec fn bad_stream(args: Seq<String>) -> bool {
    exists|i: int| 0 <= i < args.len() && stream_arg((#[trigger] args[i])@) is Refused
}

/// Some send argument is refused.
pub open spec fn bad_send(args: Seq<String>) -> bool {
    exists|i: int| 0 <= i < args.len() && send_arg((#[trigger] args[i])@) is Refused
}

/// The label of this send argument is declared by no stream argument.
pub open spec fn unheard_label(streams: Seq<String>, send: String) -> bool {
    forall|j: int|
        0 <= j < streams.len() ==> stream_arg((#[trigger] streams[j])@)->label != send_arg(
            send@,
        )->label
}

/// Every item goes to the stream that its label stands for, which is the last one declared under
/// it. Streams and items are the declared ones, in order. Arguments are refused only where one of
/// them is bad or a label is not declared.
pub proof fn law_items_go_to_their_stream(
    streams: &Vec<String>,
    sends: &Vec<String>,
    r: Result<MuxPub, CliError>,
    opened: Result<Vec<(String, String, DeliveryPolicy)>, CliError>,
)
    requires
        call_ensures(mux_pub, (streams, sends), r),
        call_ensures(mux_sub, (streams,), opened),
    ensures
        r matches Ok(plan) ==> {
            &&& plan.streams@.len() == streams@.len()
            &&& plan.sends@.len() == sends@.len()
            &&& plan.targets@.len() == sends@.len()
            &&& forall|i: int|
                0 <= i < streams@.len() ==> declared_by((#[trigger] streams@[i])@, plan.streams@[i])
            &&& forall|i: int|
                0 <= i < sends@.len() ==> {
                    let t = (#[trigger] plan.targets@[i]) as int;
                    &&& sent_by(sends@[i]@, plan.sends@[i])
                    &&& t < plan.streams@.len()
                    &&& plan.streams@[t].0@ == plan.sends@[i].0@
                    &&& forall|j: int|
                        t < j < plan.streams@.len() ==> (#[trigger] plan.streams@[j]).0@
                            != plan.sends@[i].0@
                }
        },
        opened matches Ok(decls) ==> {
            &&& decls@.len() == streams@.len()
            &&& decls@.len() > 0
            &&& forall|i: int|
                0 <= i < streams@.len() ==> declared_by((#[trigger] streams@[i])@, decls@[i])
        },
        streams@.len() == 0 ==> opened is Err,
        r is Err ==> bad_stream(streams@) || bad_send(sends@) || exists|i: int|
            0 <= i < sends@.len() && unheard_label(streams@, #[trigger] sends@[i]),
        opened is Err ==> streams@.len() == 0 || bad_stream(streams@),
{
    if let Err(e) = r {
        let why = e->BadArg_0@;
        if crate::mux::label_missing(streams@, sends@, why) {
            let (decls, items, i) = choose|
                decls: Seq<(String, String, DeliveryPolicy)>,
                items: Seq<(String, Bytes)>,
                i: int,
            |
                {
                    &&& crate::mux::all_declared(streams@, decls)
                    &&& crate::mux::all_items(sends@, items)
                    &&& #[trigger] crate::mux::first_undeclared(decls, items, i)
                    &&& why == "send label '"@ + items[i].0@
                        + "' has no matching --stream declaration"@
                };
            assert(crate::parse::sends(send_arg(sends@[i]@), items[i]));
            assert forall|j: int| 0 <= j < streams@.len() implies stream_arg(
                (#[trigger] streams@[j])@,
            )->label != send_arg(sends@[i]@)->label by {
                assert(crate::parse::declares(stream_arg(streams@[j]@), decls[j]));
                assert(decls[j].0@ != items[i].0@);
            }
            assert(unheard_label(streams@, sends@[i]));
        }
    }
    if let Ok(plan) = r {
        assert forall|i: int| 0 <= i < streams@.len() implies declared_by(
            (#[trigger] streams@[i])@,
            plan.streams@[i],
        ) by {
            assert(crate::parse::declares(stream_arg(streams@[i]@), plan.streams@[i]));
        }
        assert forall|i: int| 0 <= i < sends@.len() implies {
            let t = (#[trigger] plan.targets@[i]) as int;
            &&& sent_by(sends@[i]@, plan.sends@[i])
            &&& t < plan.streams@.len()
            &&& plan.streams@[t].0@ == plan.sends@[i].0@
            &&& forall|j: int|
                t < j < plan.streams@.len() ==> (#[trigger] plan.streams@[j]).0@
                    != plan.sends@[i].0@
        } by {
            assert(crate::parse::sends(send_arg(sends@[i]@), plan.sends@[i]));
        }
    }
    if let Ok(decls) = opened {
        assert forall|i: int| 0 <= i < streams@.len() implies declared_by(
            (#[trigger] streams@[i])@,
            decls@[i],
        ) by {
            assert(crate::parse::declares(stream_arg(streams@[i]@), decls@[i]));
        }
    }
}

/// A declared stream is opened with its own policy and topic.
pub proof fn law_declared_streams_are_opened(
    decl: &(String, String, DeliveryPolicy),
    r: StreamSpec,
)
    requires
        call_ensures(stream_of, (decl,), r),
    ensures
        r.policy == decl.2,
        r.topic matches Some(t) && t@ == decl.1@,
{
}

/// The configuration is that of the arguments: the TLS mode as it is read, the identity where both
/// its files are given, the server name where one is given and else the host; for every address
/// with a port, that host and that port.
pub proof fn law_options_are_configured(
    cli: &Cli,
    exists: bool,
    contents: Result<Vec<u8>, String>,
    r: Result<ClientBuilder, CliError>,
    host: Seq<char>,
    port: Seq<char>,
    n: u16,
)
    requires
        call_ensures(build_builder, (cli, exists, contents), r),
        spells_port(port, n),
        host.len() == 0 || host[0] != '[' || bracketed(host),
        cli.addr@ == host + seq![':'] + port,
    ensures
        r matches Ok(b) ==> {
            &&& b.cfg.host@ == host
            &&& b.cfg.port == n
            &&& b.cfg.sni@ == match cli.sni {
                Some(sni) => sni@,
                None => host,
            }
            &&& b.cfg.client_identity == match (cli.client_cert, cli.client_key) {
                (Some(cert), Some(key)) => Some(ClientIdentity { cert, key }),
                _ => None,
            }
            &&& tls_read(cli.tls_verify@, exists, contents, Ok(b.cfg.tls))
        },
        r matches Err(e) ==> e is BadArg && tls_read(cli.tls_verify@, exists, contents, Err(e)),
{
    lemma_address(host, port, n);
    match r {
        Ok(b) => lemma_tls_read(cli.tls_verify@, exists, contents, Ok(b.cfg.tls)),
        Err(e) => lemma_tls_read(cli.tls_verify@, exists, contents, Err(e)),
    }
}

/// A host in brackets, the second of which ends it.
pub open spec fn bracketed(host: Seq<char>) -> bool {
    &&& host.len() >= 2
    &&& host[0] == '['
    &&& host.last() == ']'
    &&& !host.subrange(1, host.len() - 1).contains(']')
}

/// Host and port of an address that names both.
proof fn lemma_address(host: Seq<char>, port: Seq<char>, n: u16)
    requires
        spells_port(port, n),
        host.len() == 0 || host[0] != '[' || bracketed(host),
    ensures
        address(host + seq![':'] + port) == (host, n),
{
    let raw = host + seq![':'] + port;
    lemma_spelled(port, n);
    if host.len() == 0 || host[0] != '[' {
        lemma_last_colon(host, port);
        assert(raw[0] == if host.len() == 0 {
            ':'
        } else {
            host[0]
        });
    } else {
        let inner = host.subrange(1, host.len() - 1);
        let tail = seq![':'] + port;
        lemma_bracket(inner, tail);
        assert(host =~= seq!['['] + inner + seq![']']);
        assert(raw =~= seq!['['] + inner + seq![']'] + tail);
        assert(tail.skip(1) =~= port);
    }
}

/// A payload comes from standard input where that is asked for, else from the file, else from the
/// argument, whose UTF-8 bytes it is; without any of them there is none. What was read is sent as
/// it is.
pub proof fn law_payloads_are_found(
    inline: Option<String>,
    file: Option<FilePath>,
    stdin: bool,
    r: Result<PayloadSource, CliError>,
    path: &FilePath,
    read: Result<Vec<u8>, String>,
    from_stdin: Result<Bytes, CliError>,
    from_file: Result<Bytes, CliError>,
)
    requires
        call_ensures(read_payload, (inline, file, stdin), r),
        call_ensures(stdin_payload, (read,), from_stdin),
        call_ensures(file_payload, (path, read), from_file),
    ensures
        stdin ==> r matches Ok(PayloadSource::Stdin),
        !stdin ==> (file matches Some(f) ==> r matches Ok(PayloadSource::File(g)) && g == f),
        !stdin && file is None ==> (inline matches Some(text) ==> r matches Ok(
            PayloadSource::Inline(b),
        ) && bytes_view(b) == encode_utf8(text@)),
        !stdin && file is None && inline is None ==> r matches Err(CliError::BadArg(_)),
        read matches Ok(bytes) ==> {
            &&& from_stdin matches Ok(b)
            &&& bytes_view(b) == bytes@
            &&& from_file matches Ok(c)
            &&& bytes_view(c) == bytes@
        },
        read is Err ==> from_stdin matches Err(CliError::Io(_)),
        read is Err ==> from_file matches Err(CliError::BadArg(_)),
{
}

/// Messages are shown one by one up to the limit, the last one as such, and none behind it. Without
/// a limit all are shown. One message is shown in any case.
pub proof fn law_turns_are_counted(count: &mut Countdown, r: Turn)
    requires
        call_ensures(Countdown::next_turn, (count,), r),
    ensures
        final(count).limit == old(count).limit,
        old(count).limit is None ==> r == Turn::Show,
        old(count).limit matches Some(c) ==> {
            let now = old(count).seen + 1;
            &&& now < c ==> r == Turn::Show
            &&& now == c ==> r == Turn::ShowLast
            &&& now > c && now > 1 ==> r == Turn::Over
            &&& now > c && now == 1 ==> r == Turn::ShowLast
        },
        r != Turn::Over && old(count).seen < u64::MAX ==> final(count).seen == old(count).seen + 1,
        r == Turn::Over ==> final(count).seen == old(count).seen,
{
}

} // verus!
