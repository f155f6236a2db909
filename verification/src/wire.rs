//! Payload layouts: big-endian integers and length-prefixed fields.
use bytes::Bytes;
use vstd::prelude::*;
use vstd::utf8::encode_utf8;

use crate::buf;
use crate::buf::bytes_view;

verus! {

/// 256 to the power of `width`: how many values fit in `width` bytes.
pub open spec fn capacity(width: nat) -> nat
    decreases width,
{
    if width == 0 {
        1
    } else {
        256 * capacity((width - 1) as nat)
    }
}

/// `v` as `width` bytes, most significant first. What does not fit is cut off at the top.
pub open spec fn be(v: nat, width: nat) -> Seq<u8>
    decreases width,
{
    if width == 0 {
        Seq::empty()
    } else {
        be(v / 256, (width - 1) as nat).push((v % 256) as u8)
    }
}

/// The number that the bytes of `s` spell, most significant first.
pub open spec fn from_be(s: Seq<u8>) -> nat
    decreases s.len(),
{
    if s.len() == 0 {
        0
    } else {
        from_be(s.drop_last()) * 256 + s.last() as nat
    }
}

/// A big-endian number takes as many bytes as asked for.
pub proof fn lemma_be_len(v: nat, width: nat)
    ensures
        be(v, width).len() == width,
    decreases width,
{
    if width > 0 {
        lemma_be_len(v / 256, (width - 1) as nat);
    }
}

/// Reading a big-endian number back gives the number, where it fits in its width.
pub proof fn law_big_endian_roundtrip(v: nat, width: nat)
    requires
        v < capacity(width),
    ensures
        from_be(be(v, width)) == v,
    decreases width,
{
    if width > 0 {
        let w = (width - 1) as nat;
        assert(v / 256 < capacity(w)) by {
            assert(v < 256 * capacity(w));
        }
        law_big_endian_roundtrip(v / 256, w);
        lemma_be_len(v / 256, w);
        assert(be(v, width).drop_last() =~= be(v / 256, w));
    }
}

/// The bytes of `s` spell a number below the capacity of their width.
pub proof fn lemma_from_be_bound(s: Seq<u8>)
    ensures
        from_be(s) < capacity(s.len()),
    decreases s.len(),
{
    if s.len() > 0 {
        lemma_from_be_bound(s.drop_last());
    }
}

/// The widths that the layouts below use.
pub proof fn lemma_capacities()
    ensures
        capacity(0) == 1,
        capacity(1) == 0x100,
        capacity(2) == 0x1_0000,
        capacity(4) == 0x1_0000_0000,
        capacity(8) == 0x1_0000_0000_0000_0000,
        capacity(16) == 0x1_0000_0000_0000_0000_0000_0000_0000_0000,
{
    reveal_with_fuel(capacity, 17);
}

/// Capacities grow with the width.
proof fn lemma_capacity_monotonic(a: nat, b: nat)
    requires
        a <= b,
    ensures
        0 < capacity(a) <= capacity(b),
    decreases b,
{
    if a < b {
        lemma_capacity_monotonic(a, (b - 1) as nat);
    } else if a > 0 {
        lemma_capacity_monotonic((a - 1) as nat, (a - 1) as nat);
    }
}

/// Appends `v` as `width` big-endian bytes.
pub fn put_be(out: &mut Vec<u8>, v: u128, width: usize)
    ensures
        final(out)@ == old(out)@ + be(v as nat, width as nat),
    decreases width,
{
    if width > 0 {
        put_be(out, v / 256, width - 1);
        out.push((v % 256) as u8);
    }
    assert(out@ =~= old(out)@ + be(v as nat, width as nat));
}

/// Reads the big-endian number in `s[at..at + width]`.
pub fn get_be(s: &[u8], at: usize, width: usize) -> (r: u128)
    requires
        at + width <= s@.len(),
        width <= 16,
    ensures
        r == from_be(s@.subrange(at as int, at + width)),
        r < capacity(width as nat),
{
    let n: usize = s.len();
    let mut acc: u128 = 0;
    let mut i: usize = 0;
    proof {
        lemma_capacities();
    }
    assert(s@.subrange(at as int, at as int) =~= Seq::empty());
    while i < width
        invariant
            i <= width <= 16,
            at + width <= s@.len() == n,
            acc == from_be(s@.subrange(at as int, at + i)),
            acc < capacity(i as nat),
        decreases width - i,
    {
        let ghost part = s@.subrange(at as int, at + i + 1);
        assert(part.drop_last() =~= s@.subrange(at as int, at + i));
        proof {
            lemma_from_be_bound(part);
            lemma_capacity_monotonic((i + 1) as nat, 16);
            lemma_capacities();
        }
        acc = acc * 256 + s[at + i] as u128;
        i += 1;
    }
    acc
}

/// What a two-byte length prefix says of a field of `len` bytes: the length, or the largest
/// value that the prefix can hold.
pub open spec fn prefix_len(len: nat) -> nat {
    if len <= 0xFFFF {
        len
    } else {
        0xFFFF
    }
}

/// A byte field behind its two-byte length.
pub open spec fn field(bytes: Seq<u8>) -> Seq<u8> {
    be(prefix_len(bytes.len()), 2) + bytes
}

/// A text field: the UTF-8 bytes of `s` behind their length.
pub open spec fn text_field(s: Seq<char>) -> Seq<u8> {
    field(encode_utf8(s))
}

/// Splits a length-prefixed field off the front: the field, and what follows it. `None` where
/// the prefix or the field is cut short.
pub open spec fn field_parts(p: Seq<u8>) -> Option<(Seq<u8>, Seq<u8>)> {
    let len = from_be(p.take(2));
    if p.len() < 2 || p.len() < 2 + len {
        None
    } else {
        Some((p.subrange(2, 2 + len as int), p.skip(2 + len as int)))
    }
}

/// A field of at most 65535 bytes is read back as it was written, whatever follows it.
pub proof fn law_field_roundtrip(bytes: Seq<u8>, rest: Seq<u8>)
    requires
        bytes.len() <= 0xFFFF,
    ensures
        field_parts(field(bytes) + rest) == Some((bytes, rest)),
{
    let p = field(bytes) + rest;
    lemma_be_len(bytes.len(), 2);
    lemma_capacities();
    law_big_endian_roundtrip(bytes.len(), 2);
    assert(p.take(2) =~= be(bytes.len(), 2));
    assert(p.subrange(2, 2 + bytes.len() as int) =~= bytes);
    assert(p.skip(2 + bytes.len() as int) =~= rest);
}

/// Appends `s` as a text field.
fn put_text(out: &mut Vec<u8>, s: &str)
    ensures
        final(out)@ == old(out)@ + text_field(s@),
{
    let b = s.as_bytes();
    let len: u16 = if b.len() <= 0xFFFF {
        b.len() as u16
    } else {
        0xFFFF
    };
    put_be(out, len as u128, 2);
    out.extend_from_slice(b);
    assert(out@ =~= old(out)@ + text_field(s@));
}

/// Payload of a `Subscribe`: `pattern_len(u16) + pattern + qos(u8)`.
pub fn encode_subscribe(pattern: &str, qos: u8) -> (r: Vec<u8>)
    ensures
        r@ == text_field(pattern@).push(qos),
{
    let mut out: Vec<u8> = Vec::new();
    put_text(&mut out, pattern);
    out.push(qos);
    assert(out@ =~= text_field(pattern@).push(qos));
    out
}

/// Payload of an `Unsubscribe`: `pattern_len(u16) + pattern`.
pub fn encode_unsubscribe(pattern: &str) -> (r: Vec<u8>)
    ensures
        r@ == text_field(pattern@),
{
    let mut out: Vec<u8> = Vec::new();
    put_text(&mut out, pattern);
    assert(out@ =~= text_field(pattern@));
    out
}

/// Payload of a `Publish`: `topic_len(u16) + topic + opaque payload`.
pub fn encode_publish(topic: &str, payload: &[u8]) -> (r: Vec<u8>)
    ensures
        r@ == text_field(topic@) + payload@,
{
    let mut out: Vec<u8> = Vec::new();
    put_text(&mut out, topic);
    out.extend_from_slice(payload);
    assert(out@ =~= text_field(topic@) + payload@);
    out
}

/// The names that a consumer-group payload opens with.
pub open spec fn group_prefix(topic: Seq<char>, group: Seq<char>, consumer: Seq<char>) -> Seq<u8> {
    text_field(topic) + text_field(group) + text_field(consumer)
}

/// Payload of a `ConsumerGroupJoin`: topic, group and consumer as text fields, then
/// `partitions(u32)`.
pub fn encode_group_join(topic: &str, group: &str, consumer: &str, partitions: u32) -> (r: Vec<u8>)
    ensures
        r@ == group_prefix(topic@, group@, consumer@) + be(partitions as nat, 4),
{
    let mut out = encode_group_leave(topic, group, consumer);
    put_be(&mut out, partitions as u128, 4);
    out
}

/// Payload of a `ConsumerGroupLeave`: topic, group and consumer as text fields.
pub fn encode_group_leave(topic: &str, group: &str, consumer: &str) -> (r: Vec<u8>)
    ensures
        r@ == group_prefix(topic@, group@, consumer@),
{
    let mut out: Vec<u8> = Vec::new();
    put_text(&mut out, topic);
    put_text(&mut out, group);
    put_text(&mut out, consumer);
    assert(out@ =~= group_prefix(topic@, group@, consumer@));
    out
}

/// Payload of a `Fetch` for the one log entry of `topic` at `offset`:
/// `topic_len(u16) + topic + offset(u64) + max_count(u32)`.
pub open spec fn fetch_payload(topic: Seq<u8>, offset: u64) -> Seq<u8> {
    be(topic.len() % 0x1_0000, 2) + topic + be(offset as nat, 8) + be(1, 4)
}

/// Encodes a `Fetch` payload; see [`fetch_payload`].
pub fn encode_fetch(topic: &[u8], offset: u64) -> (r: Vec<u8>)
    ensures
        r@ == fetch_payload(topic@, offset),
{
    let mut out: Vec<u8> = Vec::new();
    put_be(&mut out, (topic.len() % 0x1_0000) as u128, 2);
    out.extend_from_slice(topic);
    put_be(&mut out, offset as u128, 8);
    put_be(&mut out, 1, 4);
    assert(out@ =~= fetch_payload(topic@, offset));
    out
}

/// Payload of an `Ack`: the cumulative sequence number.
pub fn encode_ack(seq: u64) -> (r: Vec<u8>)
    ensures
        r@ == be(seq as nat, 8),
{
    let mut out: Vec<u8> = Vec::new();
    put_be(&mut out, seq as u128, 8);
    assert(out@ =~= be(seq as nat, 8));
    out
}

/// The slots of a `Resume`, one after the other: `stream_id(u64) + last_acked(u64)` each.
pub open spec fn resume_slots(slots: Seq<(u64, u64)>) -> Seq<u8>
    decreases slots.len(),
{
    if slots.len() == 0 {
        Seq::empty()
    } else {
        resume_slots(slots.drop_last()) + be(slots.last().0 as nat, 8) + be(
            slots.last().1 as nat,
            8,
        )
    }
}

/// Payload of a `Resume`: the logical session id, the slot count (255 where there are more),
/// and the slots.
pub open spec fn resume_payload(session: u64, slots: Seq<(u64, u64)>) -> Seq<u8> {
    be(session as nat, 8).push(
        (if slots.len() <= 255 {
            slots.len()
        } else {
            255
        }) as u8,
    ) + resume_slots(slots)
}

/// Encodes a `Resume` payload; see [`resume_payload`].
pub fn encode_resume(session: u64, slots: &Vec<(u64, u64)>) -> (r: Vec<u8>)
    ensures
        r@ == resume_payload(session, slots@),
{
    let mut out: Vec<u8> = Vec::new();
    put_be(&mut out, session as u128, 8);
    let count: u8 = if slots.len() <= 255 {
        slots.len() as u8
    } else {
        255
    };
    out.push(count);
    let ghost head = out@;
    let mut i: usize = 0;
    assert(slots@.take(0) =~= Seq::empty());
    assert(out@ =~= head + resume_slots(slots@.take(0)));
    while i < slots.len()
        invariant
            i <= slots@.len(),
            out@ == head + resume_slots(slots@.take(i as int)),
        decreases slots@.len() - i,
    {
        put_be(&mut out, slots[i].0 as u128, 8);
        put_be(&mut out, slots[i].1 as u128, 8);
        i += 1;
        assert(slots@.take(i as int).drop_last() =~= slots@.take(i - 1));
        assert(out@ =~= head + resume_slots(slots@.take(i as int)));
    }
    assert(slots@.take(slots@.len() as int) =~= slots@);
    assert(head =~= be(session as nat, 8).push(count));
    out
}

/// A request or reply of a remote call: the 16-byte correlation id, then the application bytes.
pub open spec fn rpc_payload(cid: u128, body: Seq<u8>) -> Seq<u8> {
    be(cid as nat, 16) + body
}

/// Frames a remote call's payload; see [`rpc_payload`].
pub fn encode_rpc(cid: u128, body: &[u8]) -> (r: Vec<u8>)
    ensures
        r@ == rpc_payload(cid, body@),
{
    let mut out: Vec<u8> = Vec::new();
    put_be(&mut out, cid, 16);
    out.extend_from_slice(body);
    assert(out@ =~= rpc_payload(cid, body@));
    out
}

/// The correlation id that a payload opens with; `None` where it is shorter than one.
pub open spec fn rpc_cid(payload: Seq<u8>) -> Option<u128> {
    if payload.len() < 16 {
        None
    } else {
        Some(from_be(payload.take(16)) as u128)
    }
}

/// A framed call is read back: the id first, the application bytes after it.
pub proof fn law_rpc_roundtrip(cid: u128, body: Seq<u8>)
    ensures
        rpc_cid(rpc_payload(cid, body)) == Some(cid),
        rpc_payload(cid, body).skip(16) == body,
{
    let p = rpc_payload(cid, body);
    lemma_be_len(cid as nat, 16);
    lemma_capacities();
    law_big_endian_roundtrip(cid as nat, 16);
    assert(p.take(16) =~= be(cid as nat, 16));
    assert(p.skip(16) =~= body);
}

/// Reads the correlation id that `payload` opens with.
pub fn read_cid(payload: &[u8]) -> (r: Option<u128>)
    ensures
        r == rpc_cid(payload@),
{
    if payload.len() < 16 {
        None
    } else {
        assert(payload@.subrange(0, 16) =~= payload@.take(16));
        Some(get_be(payload, 0, 16))
    }
}

/// Splits a published payload into topic and body.
pub fn parse_publish(payload: &Bytes) -> (r: Option<(Bytes, Bytes)>)
    ensures
        match r {
            Some((topic, body)) => field_parts(bytes_view(*payload)) == Some(
                (bytes_view(topic), bytes_view(body)),
            ),
            None => field_parts(bytes_view(*payload)) is None,
        },
{
    let ghost p = bytes_view(*payload);
    let s = buf::as_slice(payload);
    let n: usize = s.len();
    if n < 2 {
        return None;
    }
    proof {
        lemma_capacities();
    }
    assert(p.subrange(0, 2) =~= p.take(2));
    let len: usize = get_be(s, 0, 2) as usize;
    if n - 2 < len {
        return None;
    }
    let topic = buf::slice(payload, 2, 2 + len);
    let body = buf::slice(payload, 2 + len, n);
    assert(p.subrange(2 + len as int, n as int) =~= p.skip(2 + len as int));
    Some((topic, body))
}

/// What a `NotifyOffset` payload says: `topic_len(u16) + topic + offset(u64)`, with anything
/// behind that ignored. `None` where it is cut short.
pub open spec fn notify_parts(p: Seq<u8>) -> Option<(Seq<u8>, u64)> {
    match field_parts(p) {
        Some((topic, rest)) if rest.len() >= 8 => Some((topic, from_be(rest.take(8)) as u64)),
        _ => None,
    }
}

/// Reads a `NotifyOffset` payload.
pub fn parse_notify_offset(payload: &Bytes) -> (r: Option<(Bytes, u64)>)
    ensures
        match r {
            Some((topic, offset)) => notify_parts(bytes_view(*payload)) == Some(
                (bytes_view(topic), offset),
            ),
            None => notify_parts(bytes_view(*payload)) is None,
        },
{
    match parse_publish(payload) {
        None => None,
        Some((topic, rest)) => {
            let s = buf::as_slice(&rest);
            if s.len() < 8 {
                None
            } else {
                proof {
                    lemma_capacities();
                }
                assert(s@.subrange(0, 8) =~= s@.take(8));
                let offset: u64 = get_be(s, 0, 8) as u64;
                Some((topic, offset))
            }
        },
    }
}

/// What a `FetchReply` payload says: `topic_len(u16) + topic + offset(u64) + timestamp(u64) +
/// payload_len(u32) + payload`, with anything behind that ignored. `None` where it is cut short.
pub open spec fn fetch_reply_parts(p: Seq<u8>) -> Option<(Seq<u8>, Seq<u8>)> {
    match field_parts(p) {
        Some((topic, rest)) if rest.len() >= 20 => {
            let len = from_be(rest.subrange(16, 20));
            if rest.len() < 20 + len {
                None
            } else {
                Some((topic, rest.subrange(20, 20 + len as int)))
            }
        },
        _ => None,
    }
}

/// Reads a `FetchReply` payload: topic and body.
pub fn parse_fetch_reply(payload: &Bytes) -> (r: Option<(Bytes, Bytes)>)
    ensures
        match r {
            Some((topic, body)) => fetch_reply_parts(bytes_view(*payload)) == Some(
                (bytes_view(topic), bytes_view(body)),
            ),
            None => fetch_reply_parts(bytes_view(*payload)) is None,
        },
{
    match parse_publish(payload) {
        None => None,
        Some((topic, rest)) => {
            let s = buf::as_slice(&rest);
            let n: usize = s.len();
            if n < 20 {
                return None;
            }
            proof {
                lemma_capacities();
            }
            let len: u128 = get_be(s, 16, 4);
            if ((n - 20) as u128) < len {
                return None;
            }
            let end: usize = 20 + len as usize;
            let body = buf::slice(&rest, 20, end);
            Some((topic, body))
        },
    }
}

/// A publish is read back as it was written, where the topic takes at most 65535 bytes.
pub proof fn law_publish_roundtrip(topic: Seq<char>, payload: Seq<u8>)
    requires
        encode_utf8(topic).len() <= 0xFFFF,
    ensures
        field_parts(text_field(topic) + payload) == Some((encode_utf8(topic), payload)),
{
    law_field_roundtrip(encode_utf8(topic), payload);
}

/// A group join opens with three fields that read back as topic, group and consumer and leave
/// the four bytes of the partition count, where each name takes at most 65535 bytes.
pub proof fn law_group_join_fields(
    topic: Seq<char>,
    group: Seq<char>,
    consumer: Seq<char>,
    partitions: u32,
)
    requires
        encode_utf8(topic).len() <= 0xFFFF,
        encode_utf8(group).len() <= 0xFFFF,
        encode_utf8(consumer).len() <= 0xFFFF,
    ensures
        ({
            let tail = be(partitions as nat, 4);
            let p = group_prefix(topic, group, consumer) + tail;
            let after_topic = text_field(group) + (text_field(consumer) + tail);
            let after_group = text_field(consumer) + tail;
            &&& field_parts(p) == Some((encode_utf8(topic), after_topic))
            &&& field_parts(after_topic) == Some((encode_utf8(group), after_group))
            &&& field_parts(after_group) == Some((encode_utf8(consumer), tail))
            &&& tail.len() == 4
            &&& from_be(tail) == partitions
        }),
{
    let tail = be(partitions as nat, 4);
    let after_group = text_field(consumer) + tail;
    let after_topic = text_field(group) + after_group;
    lemma_capacities();
    lemma_be_len(partitions as nat, 4);
    law_big_endian_roundtrip(partitions as nat, 4);
    law_field_roundtrip(encode_utf8(topic), after_topic);
    law_field_roundtrip(encode_utf8(group), after_group);
    law_field_roundtrip(encode_utf8(consumer), tail);
    assert(group_prefix(topic, group, consumer) + tail =~= text_field(topic) + after_topic);
}

} // verus!
