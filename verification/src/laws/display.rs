//! Messages as they are shown.
use bytes::Bytes;
use vstd::prelude::*;

use crate::buf::bytes_view;
use crate::laws::addresses::lemma_decimal_spells;
use crate::message::{Message, MessageModel};
use crate::mux::{listening_line, opened_line, pause_between, sent_line, summary_line};
use crate::output::{escaped, json_escape, print_msg, print_tagged_msg};
use crate::stream::DeliveryPolicy;
use crate::text::{decimal, padded, text_of};
use crate::time::Duration;

verus! {

/// Escaping goes piece by piece.
pub proof fn law_escaping_goes_piece_by_piece(a: Seq<char>, b: Seq<char>)
    ensures
        escaped(a + b) == escaped(a) + escaped(b),
        escaped(Seq::empty()) == Seq::<char>::empty(),
    decreases a.len(),
{
    if a.len() == 0 {
        assert(a + b =~= b);
        assert(escaped(a) + escaped(b) =~= escaped(b));
    } else {
        law_escaping_goes_piece_by_piece(a.skip(1), b);
        assert((a + b).skip(1) =~= a.skip(1) + b);
        assert(escaped(a + b) =~= escaped(a) + escaped(b));
    }
}

/// One character at a time: a backslash goes in front of quotes and backslashes, line breaks and
/// tabs have names, other control characters are six characters long, and everything else stands
/// for itself.
pub proof fn law_special_characters_are_escaped(c: char, s: &str, r: String)
    requires
        call_ensures(json_escape, (s,), r),
        s@ == seq![c],
    ensures
        c == '"' ==> r@ == seq!['\\', '"'],
        c == '\\' ==> r@ == seq!['\\', '\\'],
        c == '\n' ==> r@ == seq!['\\', 'n'],
        c == '\r' ==> r@ == seq!['\\', 'r'],
        c == '\t' ==> r@ == seq!['\\', 't'],
        (c as int) < 0x20 && c != '\n' && c != '\r' && c != '\t' ==> {
            &&& r@.len() == 6
            &&& r@.take(4) == seq!['\\', 'u', '0', '0']
            &&& r@[4] as int == 48 + c as int / 16
            &&& c as int % 16 < 10 ==> r@[5] as int == 48 + c as int % 16
            &&& c as int % 16 >= 10 ==> r@[5] as int == 87 + c as int % 16
        },
        c as int >= 0x20 && c != '"' && c != '\\' ==> r@ == seq![c],
{
    assert(seq![c].skip(1) =~= Seq::empty());
    assert(escaped(seq![c].skip(1)) =~= Seq::empty());
    assert(r@ =~= crate::output::escaped_char(c));
    if (c as int) < 0x20 && c != '\n' && c != '\r' && c != '\t' {
        assert(r@.take(4) =~= seq!['\\', 'u', '0', '0']);
    }
}

/// A whole text is escaped.
pub proof fn law_texts_are_escaped(s: &str, r: String)
    requires
        call_ensures(json_escape, (s,), r),
    ensures
        r@ == escaped(s@),
{
}

/// A message in text: the topic, an equals sign between blanks, and the payload.
pub open spec fn as_text(msg: MessageModel) -> Seq<char> {
    text_of(msg.topic) + seq![' ', '=', ' '] + text_of(msg.payload)
}

/// The fields of a message in JSON: topic, payload, number and stream, each its own.
pub open spec fn as_json(msg: MessageModel, seq: Seq<char>, sid: Seq<char>) -> Seq<char> {
    "\"topic\":\""@ + escaped(text_of(msg.topic)) + "\",\"payload\":\""@ + escaped(
        text_of(msg.payload),
    ) + "\",\"seq\":"@ + seq + ",\"stream_id\":"@ + sid + "}"@
}

/// Every message is shown with its own topic and payload, and in JSON with its number and its
/// stream too; a labelled one with its label in front.
pub proof fn law_messages_are_shown(
    msg: &Message,
    format: &str,
    r: String,
    label: &str,
    tagged: String,
)
    requires
        call_ensures(print_msg, (msg, format), r),
        call_ensures(print_tagged_msg, (label, msg, format), tagged),
    ensures
        format@ == "json"@ ==> exists|n: Seq<char>, sid: Seq<char>|
            {
                &&& #[trigger] shown_numbers(msg@, n, sid)
                &&& r@ == "{"@ + as_json(msg@, n, sid)
                &&& tagged@ == "{\"stream\":\""@ + escaped(label@) + "\","@ + as_json(msg@, n, sid)
            },
        format@ != "json"@ ==> r@ == as_text(msg@),
        format@ != "json"@ ==> exists|blanks: Seq<char>|
            {
                &&& #[trigger] only_blanks(blanks)
                &&& (label@.len() >= 8 ==> blanks.len() == 0)
                &&& (label@.len() < 8 ==> label@.len() + blanks.len() == 8)
                &&& tagged@ == "["@ + (label@ + blanks) + "] "@ + as_text(msg@)
            },
{
    lemma_decimal_spells(msg@.seq as nat);
    lemma_decimal_spells(msg@.stream_id as nat);
    reveal_strlit(" = ");
    assert(" = "@ =~= seq![' ', '=', ' ']);
    assert(shown_numbers(msg@, decimal(msg@.seq as nat), decimal(msg@.stream_id as nat)));
    lemma_padded(label@, 8);
}

/// The two numbers of a message in digits.
pub open spec fn shown_numbers(msg: MessageModel, n: Seq<char>, sid: Seq<char>) -> bool {
    &&& crate::laws::addresses::numeral(n)
    &&& crate::text::digits_value(n) == msg.seq
    &&& n.len() > 1 ==> n[0] != '0'
    &&& crate::laws::addresses::numeral(sid)
    &&& crate::text::digits_value(sid) == msg.stream_id
    &&& sid.len() > 1 ==> sid[0] != '0'
}

/// Blanks and nothing else.
pub open spec fn only_blanks(s: Seq<char>) -> bool {
    forall|i: int| 0 <= i < s.len() ==> #[trigger] s[i] == ' '
}

/// Texts are filled up with blanks.
proof fn lemma_padded(s: Seq<char>, width: nat)
    ensures
        exists|blanks: Seq<char>|
            {
                &&& #[trigger] only_blanks(blanks)
                &&& (s.len() >= width ==> blanks.len() == 0)
                &&& (s.len() < width ==> s.len() + blanks.len() == width)
                &&& padded(s, width) == s + blanks
            },
{
    if s.len() >= width {
        let none = Seq::<char>::empty();
        assert(only_blanks(none));
        assert(s + none =~= s);
    } else {
        let blanks = Seq::new((width - s.len()) as nat, |i: int| ' ');
        assert(only_blanks(blanks));
        assert(padded(s, width) =~= s + blanks);
    }
}

/// The report of an opened stream names label, number, policy and topic; that of a send names label,
/// payload and number; the last two count streams and sends.
pub proof fn law_reports_name_what_happened(
    label: &str,
    sid: u64,
    policy: DeliveryPolicy,
    topic: &str,
    opened: String,
    payload: &Bytes,
    sent: String,
    streams: u64,
    listening: String,
    sends: u64,
    summary: String,
)
    requires
        call_ensures(opened_line, (label, sid, policy, topic), opened),
        call_ensures(sent_line, (label, payload, sid), sent),
        call_ensures(listening_line, (streams,), listening),
        call_ensures(summary_line, (sends, streams), summary),
    ensures
        exists|name: Seq<char>, id: Seq<char>, p: Seq<char>, blanks: Seq<char>|
            {
                &&& #[trigger] report_parts(label@, sid, policy, name, id, p, blanks)
                &&& opened@ == "["@ + name + "] opened stream "@ + (id + blanks) + " ("@ + p
                    + ") → "@ + topic@
                &&& sent@ == "["@ + name + "] "@ + text_of(bytes_view(*payload)) + " → stream "@
                    + id
            },
        exists|n: Seq<char>, m: Seq<char>|
            {
                &&& #[trigger] counted_in(n, streams, m, sends)
                &&& listening@ == "listening on "@ + n
                    + " streams over 1 connection — Ctrl+C to exit"@
                &&& summary@ == "ok ("@ + m + " sends across "@ + n
                    + " streams on 1 connection)"@
            },
{
    let name = padded(label@, 8);
    let id = decimal(sid as nat);
    let p = crate::parse::name_of(policy);
    lemma_padded(label@, 8);
    lemma_padded(id, 3);
    lemma_decimal_spells(sid as nat);
    lemma_decimal_spells(streams as nat);
    lemma_decimal_spells(sends as nat);
    let blanks = choose|blanks: Seq<char>|
        {
            &&& #[trigger] only_blanks(blanks)
            &&& (id.len() >= 3 ==> blanks.len() == 0)
            &&& (id.len() < 3 ==> id.len() + blanks.len() == 3)
            &&& padded(id, 3) == id + blanks
        };
    let fill = choose|fill: Seq<char>|
        {
            &&& #[trigger] only_blanks(fill)
            &&& (label@.len() >= 8 ==> fill.len() == 0)
            &&& (label@.len() < 8 ==> label@.len() + fill.len() == 8)
            &&& name == label@ + fill
        };
    assert(name.take(label@.len() as int) =~= label@);
    assert(name.skip(label@.len() as int) =~= fill);
    assert(report_parts(label@, sid, policy, name, id, p, blanks));
    assert(counted_in(decimal(streams as nat), streams, decimal(sends as nat), sends));
}

/// The parts of a report: the label filled up to eight characters, the stream's number and what
/// fills it up to three, and the policy's name.
pub open spec fn report_parts(
    label: Seq<char>,
    sid: u64,
    policy: DeliveryPolicy,
    name: Seq<char>,
    id: Seq<char>,
    p: Seq<char>,
    blanks: Seq<char>,
) -> bool {
    &&& name.take(label.len() as int) == label
    &&& only_blanks(name.skip(label.len() as int))
    &&& name.len() == if label.len() < 8 {
        8
    } else {
        label.len()
    }
    &&& crate::laws::addresses::numeral(id)
    &&& crate::text::digits_value(id) == sid
    &&& only_blanks(blanks)
    &&& id.len() < 3 ==> id.len() + blanks.len() == 3
    &&& id.len() >= 3 ==> blanks.len() == 0
    &&& crate::laws::arguments::names_policy(p, policy)
}

/// Two counts in digits.
pub open spec fn counted_in(n: Seq<char>, streams: u64, m: Seq<char>, sends: u64) -> bool {
    &&& crate::laws::addresses::numeral(n)
    &&& crate::text::digits_value(n) == streams
    &&& crate::laws::addresses::numeral(m)
    &&& crate::text::digits_value(m) == sends
}

/// Sends are that long apart, and not at all where no pause is asked for.
pub proof fn law_pauses_are_kept(delay_ms: u64, r: Option<Duration>)
    requires
        call_ensures(pause_between, (delay_ms,), r),
    ensures
        r is None <==> delay_ms == 0,
        r matches Some(d) ==> d@ == delay_ms * 1_000_000,
{
}

} // verus!
