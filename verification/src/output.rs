//! How messages are shown: a line of text or of JSON each.
use vstd::prelude::*;
use vstd::string::*;

use crate::buf;
use crate::message::{Message, MessageModel};
use crate::text;
use crate::text::{decimal, padded, text_of};

verus! {

/// The lower-case hexadecimal digit of `d`.
pub open spec fn hex_digit(d: int) -> char {
    if d == 0 {
        '0'
    } else if d == 1 {
        '1'
    } else if d == 2 {
        '2'
    } else if d == 3 {
        '3'
    } else if d == 4 {
        '4'
    } else if d == 5 {
        '5'
    } else if d == 6 {
        '6'
    } else if d == 7 {
        '7'
    } else if d == 8 {
        '8'
    } else if d == 9 {
        '9'
    } else if d == 10 {
        'a'
    } else if d == 11 {
        'b'
    } else if d == 12 {
        'c'
    } else if d == 13 {
        'd'
    } else if d == 14 {
        'e'
    } else {
        'f'
    }
}

/// `c` inside a JSON string: quotes, backslashes and control characters are escaped, everything
/// else stands for itself.
pub open spec fn escaped_char(c: char) -> Seq<char> {
    if c == '"' {
        seq!['\\', '"']
    } else if c == '\\' {
        seq!['\\', '\\']
    } else if c == '\n' {
        seq!['\\', 'n']
    } else if c == '\r' {
        seq!['\\', 'r']
    } else if c == '\t' {
        seq!['\\', 't']
    } else if (c as int) < 0x20 {
        seq!['\\', 'u', '0', '0', hex_digit(c as int / 16), hex_digit(c as int % 16)]
    } else {
        seq![c]
    }
}

/// `s` inside a JSON string.
pub open spec fn escaped(s: Seq<char>) -> Seq<char>
    decreases s.len(),
{
    if s.len() == 0 {
        Seq::empty()
    } else {
        escaped_char(s[0]) + escaped(s.skip(1))
    }
}

/// Escaping goes character by character.
proof fn lemma_escaped_push(s: Seq<char>, c: char)
    ensures
        escaped(s.push(c)) == escaped(s) + escaped_char(c),
    decreases s.len(),
{
    if s.len() == 0 {
        let one = s.push(c);
        assert(one.skip(1) =~= Seq::empty());
        assert(escaped(one.skip(1)) =~= Seq::empty());
        assert(escaped(one) == escaped_char(one[0]) + escaped(one.skip(1)));
        assert(escaped(s.push(c)) =~= escaped_char(c));
        assert(escaped(s) + escaped_char(c) =~= escaped_char(c));
    } else {
        assert(s.push(c).skip(1) =~= s.skip(1).push(c));
        lemma_escaped_push(s.skip(1), c);
        assert(escaped(s.push(c)) =~= escaped(s) + escaped_char(c));
    }
}

/// The hexadecimal digit of `d`.
fn hex_char(d: u32) -> (r: char)
    requires
        d < 16,
    ensures
        r == hex_digit(d as int),
{
    if d == 0 {
        '0'
    } else if d == 1 {
        '1'
    } else if d == 2 {
        '2'
    } else if d == 3 {
        '3'
    } else if d == 4 {
        '4'
    } else if d == 5 {
        '5'
    } else if d == 6 {
        '6'
    } else if d == 7 {
        '7'
    } else if d == 8 {
        '8'
    } else if d == 9 {
        '9'
    } else if d == 10 {
        'a'
    } else if d == 11 {
        'b'
    } else if d == 12 {
        'c'
    } else if d == 13 {
        'd'
    } else if d == 14 {
        'e'
    } else {
        'f'
    }
}

/// Appends `c`, escaped.
fn push_escaped(out: &mut String, c: char)
    ensures
        final(out)@ == old(out)@ + escaped_char(c),
{
    let code: u32 = c as u32;
    if c == '"' || c == '\\' {
        out.push('\\');
        out.push(c);
    } else if c == '\n' {
        out.push('\\');
        out.push('n');
    } else if c == '\r' {
        out.push('\\');
        out.push('r');
    } else if c == '\t' {
        out.push('\\');
        out.push('t');
    } else if code < 0x20 {
        out.push('\\');
        out.push('u');
        out.push('0');
        out.push('0');
        out.push(hex_char(code / 16));
        out.push(hex_char(code % 16));
    } else {
        out.push(c);
    }
    assert(out@ =~= old(out)@ + escaped_char(c));
}

/// Escapes a string for embedding inside a JSON `"..."` literal.
pub fn json_escape(s: &str) -> (r: String)
    ensures
        r@ == escaped(s@),
{
    let chars = text::chars_of(s);
    let mut out = String::new();
    let mut i: usize = 0;
    assert(chars@.take(0) =~= Seq::empty());
    assert(out@ =~= escaped(chars@.take(0)));
    while i < chars.len()
        invariant
            i <= chars@.len(),
            out@ == escaped(chars@.take(i as int)),
        decreases chars@.len() - i,
    {
        push_escaped(&mut out, chars[i]);
        proof {
            lemma_escaped_push(chars@.take(i as int), chars@[i as int]);
            assert(chars@.take(i + 1) =~= chars@.take(i as int).push(chars@[i as int]));
        }
        i += 1;
    }
    assert(chars@.take(i as int) =~= s@);
    out
}

/// Text of a message: `topic = payload`.
pub open spec fn text_line(msg: MessageModel) -> Seq<char> {
    text_of(msg.topic) + " = "@ + text_of(msg.payload)
}

/// The fields of a message as JSON, without the opening brace.
pub open spec fn json_fields(msg: MessageModel) -> Seq<char> {
    "\"topic\":\""@ + escaped(text_of(msg.topic)) + "\",\"payload\":\""@ + escaped(
        text_of(msg.payload),
    ) + "\",\"seq\":"@ + decimal(msg.seq as nat) + ",\"stream_id\":"@ + decimal(
        msg.stream_id as nat,
    ) + "}"@
}

/// The line that shows a message.
pub open spec fn message_line(msg: MessageModel, format: Seq<char>) -> Seq<char> {
    if format == "json"@ {
        "{"@ + json_fields(msg)
    } else {
        text_line(msg)
    }
}

/// The line that shows a message of a labelled stream.
pub open spec fn tagged_line(label: Seq<char>, msg: MessageModel, format: Seq<char>) -> Seq<char> {
    if format == "json"@ {
        "{\"stream\":\""@ + escaped(label) + "\","@ + json_fields(msg)
    } else {
        "["@ + padded(label, 8) + "] "@ + text_line(msg)
    }
}

/// Appends the fields of a message as JSON.
fn append_json(out: &mut String, msg: &Message)
    ensures
        final(out)@ == old(out)@ + json_fields(msg@),
{
    let topic = text::lossy(buf::as_slice(&msg.topic));
    let payload = text::lossy(buf::as_slice(&msg.payload));
    let name = json_escape(topic.as_str());
    let body = json_escape(payload.as_str());
    out.append("\"topic\":\"");
    out.append(name.as_str());
    out.append("\",\"payload\":\"");
    out.append(body.as_str());
    out.append("\",\"seq\":");
    out.append(text::decimal_string(msg.seq).as_str());
    out.append(",\"stream_id\":");
    out.append(text::decimal_string(msg.stream_id).as_str());
    out.append("}");
    assert(out@ =~= old(out)@ + json_fields(msg@));
}

/// Appends the text of a message.
fn append_text(out: &mut String, msg: &Message)
    ensures
        final(out)@ == old(out)@ + text_line(msg@),
{
    let topic = text::lossy(buf::as_slice(&msg.topic));
    let payload = text::lossy(buf::as_slice(&msg.payload));
    out.append(topic.as_str());
    out.append(" = ");
    out.append(payload.as_str());
    assert(out@ =~= old(out)@ + text_line(msg@));
}

/// The line that shows a message in the requested format, `text` or `json`.
pub fn print_msg(msg: &Message, format: &str) -> (r: String)
    ensures
        r@ == message_line(msg@, format@),
{
    if text::same(format, "json") {
        let mut out = "{".to_owned();
        append_json(&mut out, msg);
        out
    } else {
        let mut out = String::new();
        append_text(&mut out, msg);
        assert(out@ =~= text_line(msg@));
        out
    }
}

/// The line that shows a message of a labelled stream.
pub fn print_tagged_msg(label: &str, msg: &Message, format: &str) -> (r: String)
    ensures
        r@ == tagged_line(label@, msg@, format@),
{
    if text::same(format, "json") {
        let name = json_escape(label);
        let mut out = text::join3("{\"stream\":\"", name.as_str(), "\",");
        append_json(&mut out, msg);
        out
    } else {
        let name = text::pad_right(label, 8);
        let mut out = text::join3("[", name.as_str(), "] ");
        append_text(&mut out, msg);
        out
    }
}

/// What an escaped string stands for: its first character, and the rest of the string.
pub open spec fn unescaped_head(s: Seq<char>) -> (char, Seq<char>) {
    if s[0] != '\\' {
        (s[0], s.skip(1))
    } else if s[1] == 'n' {
        ('\n', s.skip(2))
    } else if s[1] == 'r' {
        ('\r', s.skip(2))
    } else if s[1] == 't' {
        ('\t', s.skip(2))
    } else if s[1] == 'u' {
        ((hex_value(s[4]) * 16 + hex_value(s[5])) as char, s.skip(6))
    } else {
        (s[1], s.skip(2))
    }
}

/// The value of a lower-case hexadecimal digit.
pub open spec fn hex_value(c: char) -> int {
    if c <= '9' {
        c as int - 48
    } else {
        c as int - 87
    }
}

/// A hexadecimal digit reads back as its value.
proof fn lemma_hex_digit(d: int)
    requires
        0 <= d < 16,
    ensures
        hex_value(hex_digit(d)) == d,
{
}

/// The two hexadecimal digits of a control character read back as its number.
proof fn lemma_control_char(c: char)
    requires
        (c as int) < 0x20,
    ensures
        hex_value(hex_digit(c as int / 16)) * 16 + hex_value(hex_digit(c as int % 16)) == c as int,
{
    lemma_hex_digit(c as int / 16);
    lemma_hex_digit(c as int % 16);
}

/// What an escaped string stands for.
pub open spec fn unescaped(s: Seq<char>) -> Seq<char>
    decreases s.len(),
{
    if s.len() == 0 {
        Seq::empty()
    } else {
        let (c, rest) = unescaped_head(s);
        if rest.len() < s.len() {
            seq![c] + unescaped(rest)
        } else {
            Seq::empty()
        }
    }
}

/// Reading an escaped string gives the string back.
pub proof fn law_escaping_loses_nothing(s: Seq<char>)
    ensures
        unescaped(escaped(s)) == s,
    decreases s.len(),
{
    if s.len() > 0 {
        lemma_unescaped_head(s);
        law_escaping_loses_nothing(s.skip(1));
        assert(escaped(s) == escaped_char(s[0]) + escaped(s.skip(1)));
        assert(seq![s[0]] + s.skip(1) =~= s);
    } else {
        assert(unescaped(escaped(s)) =~= s);
    }
}

/// The first character of an escaped string, and where the next one starts.
proof fn lemma_unescaped_head(s: Seq<char>)
    requires
        s.len() > 0,
    ensures
        escaped(s).len() > 0,
        unescaped_head(escaped(s)) == (s[0], escaped(s.skip(1))),
{
    let c = s[0];
    let e = escaped_char(c);
    let rest = escaped(s.skip(1));
    let all = escaped(s);
    assert(all == e + rest);
    assert(forall|i: int| 0 <= i < e.len() ==> all[i] == e[i]);
    if (c as int) < 0x20 && c != '\n' && c != '\r' && c != '\t' {
        lemma_control_char(c);
        assert(all.skip(6) =~= rest);
    } else if e.len() == 2 {
        assert(all.skip(2) =~= rest);
    } else {
        assert(all.skip(1) =~= rest);
    }
}

/// An escaped string stays on one line and inside its quotes: no control characters, and every
/// quote has a backslash right before it.
pub proof fn law_escaped_strings_are_plain(s: Seq<char>, i: int)
    requires
        0 <= i < escaped(s).len(),
    ensures
        escaped(s)[i] as int >= 0x20,
        escaped(s)[i] == '"' ==> i > 0 && escaped(s)[i - 1] == '\\',
    decreases s.len(),
{
    if s.len() > 0 {
        let e = escaped_char(s[0]);
        let rest = escaped(s.skip(1));
        if i < e.len() {
            assert(escaped(s)[i] == e[i]);
        } else {
            law_escaped_strings_are_plain(s.skip(1), i - e.len());
            assert(escaped(s)[i] == rest[i - e.len()]);
            if i - e.len() > 0 {
                assert(escaped(s)[i - 1] == rest[i - e.len() - 1]);
            }
        }
    }
}

/// No control characters, so no line breaks either.
pub open spec fn plain(s: Seq<char>) -> bool {
    forall|i: int| 0 <= i < s.len() ==> #[trigger] s[i] as int >= 0x20
}

/// A number in decimal has no control characters.
proof fn lemma_decimal_plain(n: nat)
    ensures
        plain(decimal(n)),
    decreases n,
{
    if n >= 10 {
        lemma_decimal_plain(n / 10);
    }
}

/// The fields of a message as JSON have no control characters.
proof fn lemma_json_fields_plain(msg: MessageModel)
    ensures
        plain(json_fields(msg)),
{
    reveal_strlit("\"topic\":\"");
    reveal_strlit("\",\"payload\":\"");
    reveal_strlit("\",\"seq\":");
    reveal_strlit(",\"stream_id\":");
    reveal_strlit("}");
    lemma_escaped_plain(text_of(msg.topic));
    lemma_escaped_plain(text_of(msg.payload));
    lemma_decimal_plain(msg.seq as nat);
    lemma_decimal_plain(msg.stream_id as nat);
}

/// An escaped string has no control characters.
proof fn lemma_escaped_plain(s: Seq<char>)
    ensures
        plain(escaped(s)),
{
    assert forall|i: int| 0 <= i < escaped(s).len() implies #[trigger] escaped(s)[i] as int
        >= 0x20 by {
        law_escaped_strings_are_plain(s, i);
    }
}

/// As JSON every message takes a single line, whatever its topic, payload and label hold.
pub proof fn law_json_takes_one_line(label: Seq<char>, msg: MessageModel)
    ensures
        plain(message_line(msg, "json"@)),
        plain(tagged_line(label, msg, "json"@)),
{
    reveal_strlit("{");
    reveal_strlit("{\"stream\":\"");
    reveal_strlit("\",");
    lemma_escaped_plain(label);
    lemma_json_fields_plain(msg);
}

} // verus!
