//! Parsing of command-line arguments: TLS modes, policies, stream and send declarations.
use bytes::Bytes;
use vstd::prelude::*;
use vstd::string::*;
use vstd::utf8::encode_utf8;

use crate::buf;
use crate::buf::bytes_view;
use crate::cli::CliError;
use crate::config::{FilePath, TlsVerify};
use crate::stream::DeliveryPolicy;
use crate::text;

verus! {

/// `s` starts with `prefix`.
pub open spec fn starts_with(s: Seq<char>, prefix: Seq<char>) -> bool {
    s.len() >= prefix.len() && s.take(prefix.len() as int) == prefix
}

/// What of `s` comes after `prefix`; `None` where it does not start with it.
pub fn after_prefix(s: &str, prefix: &str) -> (r: Option<String>)
    ensures
        match r {
            Some(rest) => starts_with(s@, prefix@) && rest@ == s@.skip(prefix@.len() as int),
            None => !starts_with(s@, prefix@),
        },
{
    let chars = text::chars_of(s);
    let head = text::chars_of(prefix);
    if chars.len() < head.len() {
        return None;
    }
    let mut i: usize = 0;
    while i < head.len()
        invariant
            i <= head@.len() <= chars@.len(),
            chars@ == s@,
            head@ == prefix@,
            forall|j: int| 0 <= j < i ==> chars@[j] == head@[j],
        decreases head@.len() - i,
    {
        if chars[i] != head[i] {
            assert(s@.take(prefix@.len() as int)[i as int] != prefix@[i as int]);
            return None;
        }
        i += 1;
    }
    assert(s@.take(prefix@.len() as int) =~= prefix@);
    let rest = text::string_of(&chars, head.len(), chars.len());
    assert(rest@ =~= s@.skip(prefix@.len() as int));
    Some(rest)
}

/// What a `--tls-verify` argument comes to.
pub enum TlsPolicy {
    /// Validate against the CA bundle at this path.
    Strict(Seq<char>),
    /// Accept only this certificate.
    Pinned(Seq<u8>),
    Tofu,
    DangerAcceptInvalid,
    /// The argument is refused, with this explanation.
    Refused(Seq<char>),
}

impl TlsPolicy {
    /// Whether `tls` is this policy.
    pub open spec fn describes(self, tls: TlsVerify) -> bool {
        match self {
            TlsPolicy::Strict(path) => tls matches TlsVerify::Strict { ca } && ca.is_utf8
                && ca.display@ == path,
            TlsPolicy::Pinned(der) => tls matches TlsVerify::Pinned { cert_der } && cert_der@
                == der,
            TlsPolicy::Tofu => tls == TlsVerify::Tofu,
            TlsPolicy::DangerAcceptInvalid => tls == TlsVerify::DangerAcceptInvalid,
            TlsPolicy::Refused(_) => false,
        }
    }
}

/// What a `--tls-verify` argument comes to. `strict:` and `pinned:` name a file; `exists` and
/// `contents` say what there is.
pub open spec fn tls_policy(
    s: Seq<char>,
    exists: bool,
    contents: Result<Vec<u8>, String>,
) -> TlsPolicy {
    if starts_with(s, "strict:"@) {
        let path = s.skip("strict:"@.len() as int);
        if exists {
            TlsPolicy::Strict(path)
        } else {
            TlsPolicy::Refused("CA bundle not found: "@ + path)
        }
    } else if starts_with(s, "pinned:"@) {
        let path = s.skip("pinned:"@.len() as int);
        if !exists {
            TlsPolicy::Refused("pinned cert not found: "@ + path)
        } else {
            match contents {
                Ok(der) => TlsPolicy::Pinned(der@),
                Err(e) => TlsPolicy::Refused("read "@ + path + ": "@ + e@),
            }
        }
    } else if s == "tofu"@ {
        TlsPolicy::Tofu
    } else if s == "danger_accept_invalid"@ {
        TlsPolicy::DangerAcceptInvalid
    } else {
        TlsPolicy::Refused(
            "unknown tls_verify mode: "@ + s
                + " (expected tofu, danger_accept_invalid, strict:<path>, pinned:<path>)"@,
        )
    }
}

/// The file that a `--tls-verify` argument names, if any.
pub fn tls_file(s: &str) -> (r: Option<String>)
    ensures
        match r {
            Some(path) => if starts_with(s@, "strict:"@) {
                path@ == s@.skip("strict:"@.len() as int)
            } else {
                starts_with(s@, "pinned:"@) && path@ == s@.skip("pinned:"@.len() as int)
            },
            None => !starts_with(s@, "strict:"@) && !starts_with(s@, "pinned:"@),
        },
{
    match after_prefix(s, "strict:") {
        Some(path) => Some(path),
        None => after_prefix(s, "pinned:"),
    }
}

/// A bad argument, explained in two parts.
fn bad_arg2(a: &str, b: &str) -> (r: CliError)
    ensures
        r matches CliError::BadArg(why) && why@ == a@ + b@,
{
    let mut why = a.to_owned();
    why.append(b);
    CliError::BadArg(why)
}

/// A bad argument, explained in three parts.
fn bad_arg3(a: &str, b: &str, c: &str) -> (r: CliError)
    ensures
        r matches CliError::BadArg(why) && why@ == a@ + b@ + c@,
{
    CliError::BadArg(text::join3(a, b, c))
}

/// The error for a file that cannot be read.
pub fn unreadable(path: &str, reason: &str) -> (r: CliError)
    ensures
        r matches CliError::BadArg(why) && why@ == "read "@ + path@ + ": "@ + reason@,
{
    let mut why = text::join3("read ", path, ": ");
    why.append(reason);
    CliError::BadArg(why)
}

/// Parses the `--tls-verify` argument; see [`tls_policy`].
pub fn parse_tls_verify(s: &str, exists: bool, contents: Result<Vec<u8>, String>) -> (r: Result<
    TlsVerify,
    CliError,
>)
    ensures
        match tls_policy(s@, exists, contents) {
            TlsPolicy::Refused(why) => r is Err && r->Err_0 is BadArg && r->Err_0->BadArg_0@
                == why,
            accepted => r is Ok && accepted.describes(r->Ok_0),
        },
{
    match after_prefix(s, "strict:") {
        Some(path) => {
            if !exists {
                return Err(bad_arg2("CA bundle not found: ", path.as_str()));
            }
            return Ok(TlsVerify::Strict { ca: FilePath { display: path, is_utf8: true } });
        },
        None => {},
    }
    match after_prefix(s, "pinned:") {
        Some(path) => {
            if !exists {
                return Err(bad_arg2("pinned cert not found: ", path.as_str()));
            }
            return match contents {
                Ok(der) => Ok(TlsVerify::Pinned { cert_der: der }),
                Err(e) => Err(unreadable(path.as_str(), e.as_str())),
            };
        },
        None => {},
    }
    if text::same(s, "tofu") {
        Ok(TlsVerify::Tofu)
    } else if text::same(s, "danger_accept_invalid") {
        Ok(TlsVerify::DangerAcceptInvalid)
    } else {
        Err(
            bad_arg3(
                "unknown tls_verify mode: ",
                s,
                " (expected tofu, danger_accept_invalid, strict:<path>, pinned:<path>)",
            ),
        )
    }
}

/// The policy of a name, long or short.
pub open spec fn policy_named(s: Seq<char>) -> Option<DeliveryPolicy> {
    if s == "reliable_ordered"@ || s == "ordered"@ {
        Some(DeliveryPolicy::ReliableOrdered)
    } else if s == "reliable_unordered"@ || s == "unordered"@ {
        Some(DeliveryPolicy::ReliableUnordered)
    } else if s == "realtime_drop_old"@ || s == "realtime"@ {
        Some(DeliveryPolicy::RealtimeDropOld)
    } else if s == "latest_only"@ || s == "latest"@ {
        Some(DeliveryPolicy::LatestOnly)
    } else {
        None
    }
}

/// Why a policy name is refused.
pub open spec fn unknown_policy(s: Seq<char>) -> Seq<char> {
    "unknown policy: "@ + s
        + " (expected reliable_ordered, reliable_unordered, realtime_drop_old, latest_only)"@
}

/// Parses a delivery policy's name.
pub fn parse_policy(s: &str) -> (r: Result<DeliveryPolicy, CliError>)
    ensures
        match policy_named(s@) {
            Some(p) => r == Ok::<DeliveryPolicy, CliError>(p),
            None => r is Err && r->Err_0 is BadArg && r->Err_0->BadArg_0@ == unknown_policy(s@),
        },
{
    if text::same(s, "reliable_ordered") || text::same(s, "ordered") {
        Ok(DeliveryPolicy::ReliableOrdered)
    } else if text::same(s, "reliable_unordered") || text::same(s, "unordered") {
        Ok(DeliveryPolicy::ReliableUnordered)
    } else if text::same(s, "realtime_drop_old") || text::same(s, "realtime") {
        Ok(DeliveryPolicy::RealtimeDropOld)
    } else if text::same(s, "latest_only") || text::same(s, "latest") {
        Ok(DeliveryPolicy::LatestOnly)
    } else {
        Err(
            bad_arg3(
                "unknown policy: ",
                s,
                " (expected reliable_ordered, reliable_unordered, realtime_drop_old, latest_only)",
            ),
        )
    }
}

/// The long name of a policy.
pub open spec fn name_of(p: DeliveryPolicy) -> Seq<char> {
    match p {
        DeliveryPolicy::ReliableOrdered => "reliable_ordered"@,
        DeliveryPolicy::ReliableUnordered => "reliable_unordered"@,
        DeliveryPolicy::RealtimeDropOld => "realtime_drop_old"@,
        DeliveryPolicy::LatestOnly => "latest_only"@,
    }
}

/// The long name of a policy.
pub fn policy_name(p: DeliveryPolicy) -> (r: &'static str)
    ensures
        r@ == name_of(p),
{
    match p {
        DeliveryPolicy::ReliableOrdered => "reliable_ordered",
        DeliveryPolicy::ReliableUnordered => "reliable_unordered",
        DeliveryPolicy::RealtimeDropOld => "realtime_drop_old",
        DeliveryPolicy::LatestOnly => "latest_only",
    }
}

/// A policy's name parses back to the policy.
pub proof fn law_policy_names_parse_back(p: DeliveryPolicy)
    ensures
        policy_named(name_of(p)) == Some(p),
{
    reveal_strlit("reliable_ordered");
    reveal_strlit("ordered");
    reveal_strlit("reliable_unordered");
    reveal_strlit("unordered");
    reveal_strlit("realtime_drop_old");
    reveal_strlit("realtime");
    reveal_strlit("latest_only");
    reveal_strlit("latest");
    assert("reliable_ordered"@.len() == 16);
    assert("reliable_unordered"@.len() == 18);
    assert("realtime_drop_old"@.len() == 17);
    assert("latest_only"@.len() == 11);
}

/// What a `--stream` argument comes to.
pub enum StreamArg {
    Declared { label: Seq<char>, topic: Seq<char>, policy: DeliveryPolicy },
    /// The argument is refused, with this explanation.
    Refused(Seq<char>),
}

/// What `LABEL=TOPIC:POLICY` comes to. The first `=` ends the label; the last `:` behind it
/// starts the policy, so that topics may hold colons.
pub open spec fn stream_arg(s: Seq<char>) -> StreamArg {
    let start = "invalid --stream '"@ + s;
    match s.index_of_first('=') {
        None => StreamArg::Refused(start + "': expected LABEL=TOPIC:POLICY"@),
        Some(eq) => if eq == 0 {
            StreamArg::Refused(start + "': empty label"@)
        } else {
            let rest = s.skip(eq + 1);
            match rest.index_of_last(':') {
                None => StreamArg::Refused(
                    start + "': expected LABEL=TOPIC:POLICY (missing ':policy')"@,
                ),
                Some(colon) => if colon == 0 {
                    StreamArg::Refused(start + "': empty topic"@)
                } else {
                    match policy_named(rest.skip(colon + 1)) {
                        Some(policy) => StreamArg::Declared {
                            label: s.take(eq),
                            topic: rest.take(colon),
                            policy,
                        },
                        None => StreamArg::Refused(unknown_policy(rest.skip(colon + 1))),
                    }
                },
            }
        },
    }
}

/// Label, topic and policy are what a `--stream` argument declares.
pub open spec fn declares(arg: StreamArg, decl: (String, String, DeliveryPolicy)) -> bool {
    arg == (StreamArg::Declared { label: decl.0@, topic: decl.1@, policy: decl.2 })
}

/// Parses a `--stream` argument; see [`stream_arg`].
pub fn parse_stream_spec(s: &str) -> (r: Result<(String, String, DeliveryPolicy), CliError>)
    ensures
        match r {
            Ok(decl) => declares(stream_arg(s@), decl),
            Err(e) => e is BadArg && stream_arg(s@) == StreamArg::Refused(e->BadArg_0@),
        },
{
    let chars = text::chars_of(s);
    let n: usize = chars.len();
    let eq: usize = match text::find_first(&chars, '=') {
        Some(i) => i,
        None => return Err(
            bad_arg3("invalid --stream '", s, "': expected LABEL=TOPIC:POLICY"),
        ),
    };
    let label = text::string_of(&chars, 0, eq);
    assert(label@ =~= s@.take(eq as int));
    if eq == 0 {
        return Err(bad_arg3("invalid --stream '", s, "': empty label"));
    }
    let rest_text = text::string_of(&chars, eq + 1, n);
    assert(rest_text@ =~= s@.skip(eq + 1));
    let rest = text::chars_of(rest_text.as_str());
    let colon: usize = match text::find_last(&rest, ':') {
        Some(i) => i,
        None => return Err(
            bad_arg3(
                "invalid --stream '",
                s,
                "': expected LABEL=TOPIC:POLICY (missing ':policy')",
            ),
        ),
    };
    let topic = text::string_of(&rest, 0, colon);
    assert(topic@ =~= rest@.take(colon as int));
    if colon == 0 {
        return Err(bad_arg3("invalid --stream '", s, "': empty topic"));
    }
    let policy_text = text::string_of(&rest, colon + 1, rest.len());
    assert(policy_text@ =~= rest@.skip(colon + 1));
    match parse_policy(policy_text.as_str()) {
        Ok(policy) => Ok((label, topic, policy)),
        Err(e) => Err(e),
    }
}

/// What a `--send` argument comes to.
pub enum SendArg {
    Item { label: Seq<char>, payload: Seq<u8> },
    /// The argument is refused, with this explanation.
    Refused(Seq<char>),
}

/// What `LABEL=PAYLOAD` comes to. The first `=` ends the label; the payload may hold anything.
pub open spec fn send_arg(s: Seq<char>) -> SendArg {
    let start = "invalid --send '"@ + s;
    match s.index_of_first('=') {
        None => SendArg::Refused(start + "': expected LABEL=PAYLOAD"@),
        Some(eq) => if eq == 0 {
            SendArg::Refused(start + "': empty label"@)
        } else {
            SendArg::Item { label: s.take(eq), payload: encode_utf8(s.skip(eq + 1)) }
        },
    }
}

/// Label and payload are what a `--send` argument says.
pub open spec fn sends(arg: SendArg, item: (String, Bytes)) -> bool {
    arg == (SendArg::Item { label: item.0@, payload: bytes_view(item.1) })
}

/// Parses a `--send` argument; see [`send_arg`].
pub fn parse_send_spec(s: &str) -> (r: Result<(String, Bytes), CliError>)
    ensures
        match r {
            Ok(item) => sends(send_arg(s@), item),
            Err(e) => e is BadArg && send_arg(s@) == SendArg::Refused(e->BadArg_0@),
        },
{
    let chars = text::chars_of(s);
    let n: usize = chars.len();
    let eq: usize = match text::find_first(&chars, '=') {
        Some(i) => i,
        None => return Err(bad_arg3("invalid --send '", s, "': expected LABEL=PAYLOAD")),
    };
    if eq == 0 {
        return Err(bad_arg3("invalid --send '", s, "': empty label"));
    }
    let label = text::string_of(&chars, 0, eq);
    assert(label@ =~= s@.take(eq as int));
    let body = text::string_of(&chars, eq + 1, n);
    assert(body@ =~= s@.skip(eq + 1));
    let payload = buf::copy_from_slice(body.as_str().as_bytes());
    Ok((label, payload))
}

/// A declaration that is written out parses back: any label without `=`, any topic, any policy.
pub proof fn law_stream_declarations_parse_back(
    label: Seq<char>,
    topic: Seq<char>,
    policy: DeliveryPolicy,
)
    requires
        label.len() > 0,
        !label.contains('='),
        topic.len() > 0,
    ensures
        stream_arg(label + seq!['='] + topic + seq![':'] + name_of(policy)) == (
        StreamArg::Declared { label, topic, policy }),
{
    let name = name_of(policy);
    let s = label + seq!['='] + topic + seq![':'] + name;
    s.index_of_first_ensures('=');
    assert(s[label.len() as int] == '=');
    assert(s.contains('='));
    let eq = s.index_of_first('=')->0;
    assert forall|j: int| 0 <= j < label.len() implies s[j] != '=' by {
        assert(s[j] == label[j]);
        assert(label.contains(label[j]));
    }
    assert(eq == label.len());
    assert(s.take(eq) =~= label);
    let rest = s.skip(eq + 1);
    assert(rest =~= topic + seq![':'] + name);
    rest.index_of_last_ensures(':');
    assert(rest[topic.len() as int] == ':');
    assert(rest.contains(':'));
    let colon = rest.index_of_last(':')->0;
    reveal_strlit("reliable_ordered");
    reveal_strlit("reliable_unordered");
    reveal_strlit("realtime_drop_old");
    reveal_strlit("latest_only");
    assert forall|j: int| topic.len() < j < rest.len() implies rest[j] != ':' by {
        assert(rest[j] == name[j - topic.len() - 1]);
    }
    assert(colon == topic.len());
    assert(rest.take(colon) =~= topic);
    assert(rest.skip(colon + 1) =~= name);
    law_policy_names_parse_back(policy);
}

} // verus!
