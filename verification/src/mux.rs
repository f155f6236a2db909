//! Many dedicated streams over one connection, from the command line.
use bytes::Bytes;
use vstd::prelude::*;
use vstd::string::*;

use crate::buf;
use crate::buf::bytes_view;
use crate::cli::CliError;
use crate::parse::{declares, name_of, parse_send_spec, parse_stream_spec, policy_name, send_arg, sends, stream_arg, SendArg, StreamArg};
use crate::stream::{DeliveryPolicy, StreamPriority, StreamSpec, StreamType};
use crate::text;
use crate::text::{decimal, padded, text_of};
use crate::time::Duration;

verus! {

/// Argument `i` is the first `--stream` that is refused.
pub open spec fn first_bad_stream(args: Seq<String>, i: int, why: Seq<char>) -> bool {
    &&& 0 <= i < args.len()
    &&& stream_arg(args[i]@) == StreamArg::Refused(why)
    &&& forall|j: int| 0 <= j < i ==> stream_arg((#[trigger] args[j])@) is Declared
}

/// Argument `i` is the first `--send` that is refused.
pub open spec fn first_bad_send(args: Seq<String>, i: int, why: Seq<char>) -> bool {
    &&& 0 <= i < args.len()
    &&& send_arg(args[i]@) == SendArg::Refused(why)
    &&& forall|j: int| 0 <= j < i ==> send_arg((#[trigger] args[j])@) is Item
}

/// The declarations are those of the arguments, one for one.
pub open spec fn all_declared(
    args: Seq<String>,
    decls: Seq<(String, String, DeliveryPolicy)>,
) -> bool {
    &&& decls.len() == args.len()
    &&& forall|i: int| 0 <= i < args.len() ==> declares(stream_arg(args[i]@), #[trigger] decls[i])
}

/// The items are those of the arguments, one for one.
pub open spec fn all_items(args: Seq<String>, items: Seq<(String, Bytes)>) -> bool {
    &&& items.len() == args.len()
    &&& forall|i: int| 0 <= i < args.len() ==> sends(send_arg(args[i]@), #[trigger] items[i])
}

/// Parses every `--stream` argument; the first bad one is refused.
pub fn parse_streams(args: &Vec<String>) -> (r: Result<
    Vec<(String, String, DeliveryPolicy)>,
    CliError,
>)
    ensures
        match r {
            Ok(decls) => all_declared(args@, decls@),
            Err(e) => e is BadArg && exists|i: int| #[trigger]
                first_bad_stream(args@, i, e->BadArg_0@),
        },
{
    let mut decls: Vec<(String, String, DeliveryPolicy)> = Vec::new();
    let mut i: usize = 0;
    while i < args.len()
        invariant
            i <= args@.len(),
            decls@.len() == i,
            forall|j: int|
                0 <= j < i ==> declares(stream_arg(args@[j]@), #[trigger] decls@[j]),
            forall|j: int| 0 <= j < i ==> stream_arg((#[trigger] args@[j])@) is Declared,
        decreases args@.len() - i,
    {
        match parse_stream_spec(args[i].as_str()) {
            Ok(decl) => decls.push(decl),
            Err(e) => {
                assert(first_bad_stream(args@, i as int, e->BadArg_0@));
                return Err(e);
            },
        }
        i += 1;
    }
    Ok(decls)
}

/// Parses every `--send` argument; the first bad one is refused.
pub fn parse_sends(args: &Vec<String>) -> (r: Result<Vec<(String, Bytes)>, CliError>)
    ensures
        match r {
            Ok(items) => all_items(args@, items@),
            Err(e) => e is BadArg && exists|i: int| #[trigger]
                first_bad_send(args@, i, e->BadArg_0@),
        },
{
    let mut items: Vec<(String, Bytes)> = Vec::new();
    let mut i: usize = 0;
    while i < args.len()
        invariant
            i <= args@.len(),
            items@.len() == i,
            forall|j: int| 0 <= j < i ==> sends(send_arg(args@[j]@), #[trigger] items@[j]),
            forall|j: int| 0 <= j < i ==> send_arg((#[trigger] args@[j])@) is Item,
        decreases args@.len() - i,
    {
        match parse_send_spec(args[i].as_str()) {
            Ok(item) => items.push(item),
            Err(e) => {
                assert(first_bad_send(args@, i as int, e->BadArg_0@));
                return Err(e);
            },
        }
        i += 1;
    }
    Ok(items)
}

/// The streams that `mux sub` opens, in order. There has to be one.
pub fn mux_sub(streams: &Vec<String>) -> (r: Result<
    Vec<(String, String, DeliveryPolicy)>,
    CliError,
>)
    ensures
        match r {
            Ok(decls) => decls@.len() > 0 && all_declared(streams@, decls@),
            Err(e) => e is BadArg && if streams@.len() == 0 {
                e->BadArg_0@ == "mux sub requires at least one --stream"@
            } else {
                exists|i: int| #[trigger] first_bad_stream(streams@, i, e->BadArg_0@)
            },
        },
{
    match parse_streams(streams) {
        Err(e) => Err(e),
        Ok(decls) => {
            if decls.len() == 0 {
                Err(CliError::BadArg("mux sub requires at least one --stream".to_owned()))
            } else {
                Ok(decls)
            }
        },
    }
}

/// The stream that a declaration asks for.
pub fn stream_of(decl: &(String, String, DeliveryPolicy)) -> (r: StreamSpec)
    ensures
        r.policy == decl.2,
        r.topic is Some,
        r.topic->0@ == decl.1@,
        r.priority == StreamPriority::Normal,
        r.stream_type == StreamType::Custom,
{
    StreamSpec::new(decl.2).with_topic(decl.1.as_str())
}

/// Declaration `i` is the last with this label. A label that is declared again stands for the
/// later stream.
pub open spec fn last_with_label(
    decls: Seq<(String, String, DeliveryPolicy)>,
    label: Seq<char>,
    i: int,
) -> bool {
    &&& 0 <= i < decls.len()
    &&& decls[i].0@ == label
    &&& forall|j: int| i < j < decls.len() ==> (#[trigger] decls[j]).0@ != label
}

/// No declaration has this label.
pub open spec fn undeclared(
    decls: Seq<(String, String, DeliveryPolicy)>,
    label: Seq<char>,
) -> bool {
    forall|j: int| 0 <= j < decls.len() ==> (#[trigger] decls[j]).0@ != label
}

/// The declaration that a label stands for, if any.
fn find_label(decls: &Vec<(String, String, DeliveryPolicy)>, label: &str) -> (r: Option<usize>)
    ensures
        match r {
            Some(i) => last_with_label(decls@, label@, i as int),
            None => undeclared(decls@, label@),
        },
{
    let mut i: usize = decls.len();
    while i > 0
        invariant
            i <= decls@.len(),
            forall|j: int| i <= j < decls@.len() ==> (#[trigger] decls@[j]).0@ != label@,
        decreases i,
    {
        i -= 1;
        if text::same(decls[i].0.as_str(), label) {
            return Some(i);
        }
    }
    None
}

/// What `mux pub` does: the streams to open, and for each send the stream it goes to.
pub struct MuxPub {
    /// The declared streams.
    pub streams: Vec<(String, String, DeliveryPolicy)>,
    /// The send items, in order.
    pub sends: Vec<(String, Bytes)>,
    /// For each send the index of its stream.
    pub targets: Vec<usize>,
}

/// The plan is that of the arguments: every send goes to the stream that its label stands for.
pub open spec fn planned_pub(streams: Seq<String>, sends: Seq<String>, plan: MuxPub) -> bool {
    &&& all_declared(streams, plan.streams@)
    &&& all_items(sends, plan.sends@)
    &&& plan.targets@.len() == plan.sends@.len()
    &&& forall|i: int|
        0 <= i < plan.sends@.len() ==> last_with_label(
            plan.streams@,
            plan.sends@[i].0@,
            (#[trigger] plan.targets@[i]) as int,
        )
}

/// The arguments are well-formed, but some label has no stream: the explanation names the first.
pub open spec fn label_missing(streams: Seq<String>, sends: Seq<String>, why: Seq<char>) -> bool {
    exists|decls: Seq<(String, String, DeliveryPolicy)>, items: Seq<(String, Bytes)>, i: int|
        {
            &&& all_declared(streams, decls)
            &&& all_items(sends, items)
            &&& #[trigger] first_undeclared(decls, items, i)
            &&& why == "send label '"@ + items[i].0@ + "' has no matching --stream declaration"@
        }
}

/// Item `i` is the first whose label no declaration has.
pub open spec fn first_undeclared(
    decls: Seq<(String, String, DeliveryPolicy)>,
    items: Seq<(String, Bytes)>,
    i: int,
) -> bool {
    &&& 0 <= i < items.len()
    &&& undeclared(decls, items[i].0@)
    &&& forall|j: int| 0 <= j < i ==> !undeclared(decls, (#[trigger] items[j]).0@)
}

/// Plans `mux pub`: streams are checked before sends, and sends before their labels.
pub fn mux_pub(streams: &Vec<String>, sends: &Vec<String>) -> (r: Result<MuxPub, CliError>)
    ensures
        match r {
            Ok(plan) => planned_pub(streams@, sends@, plan),
            Err(e) => {
                &&& e is BadArg
                &&& {
                    ||| exists|i: int| #[trigger] first_bad_stream(streams@, i, e->BadArg_0@)
                    ||| (exists|decls: Seq<(String, String, DeliveryPolicy)>| #[trigger]
                        all_declared(streams@, decls)) && (exists|i: int| #[trigger]
                        first_bad_send(sends@, i, e->BadArg_0@))
                    ||| label_missing(streams@, sends@, e->BadArg_0@)
                }
            },
        },
{
    let decls = match parse_streams(streams) {
        Ok(decls) => decls,
        Err(e) => return Err(e),
    };
    let items = match parse_sends(sends) {
        Ok(items) => items,
        Err(e) => return Err(e),
    };
    let mut targets: Vec<usize> = Vec::new();
    let mut i: usize = 0;
    while i < items.len()
        invariant
            i <= items@.len(),
            all_declared(streams@, decls@),
            all_items(sends@, items@),
            targets@.len() == i,
            forall|j: int|
                0 <= j < i ==> last_with_label(
                    decls@,
                    items@[j].0@,
                    (#[trigger] targets@[j]) as int,
                ),
            forall|j: int| 0 <= j < i ==> !undeclared(decls@, (#[trigger] items@[j]).0@),
        decreases items@.len() - i,
    {
        match find_label(&decls, items[i].0.as_str()) {
            Some(k) => {
                assert(decls@[k as int].0@ == items@[i as int].0@);
                targets.push(k);
            },
            None => {
                let why = text::join3(
                    "send label '",
                    items[i].0.as_str(),
                    "' has no matching --stream declaration",
                );
                assert(first_undeclared(decls@, items@, i as int));
                assert(label_missing(streams@, sends@, why@));
                return Err(CliError::BadArg(why));
            },
        }
        i += 1;
    }
    Ok(MuxPub { streams: decls, sends: items, targets })
}

/// The line that reports an opened stream.
pub fn opened_line(label: &str, stream_id: u64, policy: DeliveryPolicy, topic: &str) -> (r: String)
    ensures
        r@ == "["@ + padded(label@, 8) + "] opened stream "@ + padded(decimal(stream_id as nat), 3)
            + " ("@ + name_of(policy) + ") → "@ + topic@,
{
    let name = text::pad_right(label, 8);
    let id = text::pad_right(text::decimal_string(stream_id).as_str(), 3);
    let mut out = text::join3("[", name.as_str(), "] opened stream ");
    out.append(id.as_str());
    out.append(" (");
    out.append(policy_name(policy));
    out.append(") → ");
    out.append(topic);
    out
}

/// The line that reports how many streams are listened on.
pub fn listening_line(streams: u64) -> (r: String)
    ensures
        r@ == "listening on "@ + decimal(streams as nat)
            + " streams over 1 connection — Ctrl+C to exit"@,
{
    text::join3(
        "listening on ",
        text::decimal_string(streams).as_str(),
        " streams over 1 connection — Ctrl+C to exit",
    )
}

/// The line that reports a send.
pub fn sent_line(label: &str, payload: &Bytes, stream_id: u64) -> (r: String)
    ensures
        r@ == "["@ + padded(label@, 8) + "] "@ + text_of(bytes_view(*payload)) + " → stream "@
            + decimal(stream_id as nat),
{
    let name = text::pad_right(label, 8);
    let body = text::lossy(buf::as_slice(payload));
    let mut out = text::join3("[", name.as_str(), "] ");
    out.append(body.as_str());
    out.append(" → stream ");
    out.append(text::decimal_string(stream_id).as_str());
    out
}

/// The line that sums up `mux pub`.
pub fn summary_line(sent: u64, streams: u64) -> (r: String)
    ensures
        r@ == "ok ("@ + decimal(sent as nat) + " sends across "@ + decimal(streams as nat)
            + " streams on 1 connection)"@,
{
    let mut out = text::join3("ok (", text::decimal_string(sent).as_str(), " sends across ");
    out.append(text::decimal_string(streams).as_str());
    out.append(" streams on 1 connection)");
    out
}

/// The pause between sends: none for 0.
pub fn pause_between(delay_ms: u64) -> (r: Option<Duration>)
    ensures
        delay_ms == 0 ==> r is None,
        delay_ms > 0 ==> r is Some && r->0@ == delay_ms * 1_000_000,
{
    if delay_ms == 0 {
        None
    } else {
        Some(Duration::from_millis(delay_ms))
    }
}

} // verus!
