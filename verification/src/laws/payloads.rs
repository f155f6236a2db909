//! Payloads on the wire: each reads back, byte by byte, as what was put into it.
use bytes::Bytes;
use vstd::arithmetic::power::pow;
use vstd::prelude::*;
use vstd::utf8::encode_utf8;

use crate::buf::bytes_view;
use crate::wire::{be, capacity, field, field_parts, from_be, resume_payload, resume_slots, text_field};
use crate::wire::{encode_ack, encode_fetch, encode_group_join, encode_group_leave, encode_publish, encode_resume, encode_rpc, encode_subscribe, encode_unsubscribe};
use crate::wire::{law_big_endian_roundtrip, law_field_roundtrip, lemma_be_len, lemma_capacities};
use crate::wire::{parse_fetch_reply, parse_notify_offset, parse_publish, put_be, read_cid};

verus! {

/// As many values fit in `width` bytes as there are strings of so many bytes.
proof fn lemma_capacity_is_power(width: nat)
    ensures
        capacity(width) == pow(256, width),
    decreases width,
{
    reveal(pow);
    if width > 0 {
        lemma_capacity_is_power((width - 1) as nat);
    }
}

/// The first byte is the most significant one.
pub proof fn law_first_byte_counts_most(b: u8, rest: Seq<u8>)
    ensures
        from_be(Seq::empty()) == 0,
        from_be(seq![b] + rest) == b * pow(256, rest.len()) + from_be(rest),
    decreases rest.len(),
{
    let s = seq![b] + rest;
    reveal(pow);
    assert(s.last() == if rest.len() == 0 {
        b
    } else {
        rest.last()
    });
    if rest.len() == 0 {
        assert(s.drop_last() =~= Seq::empty());
    } else {
        let n = (rest.len() - 1) as nat;
        law_first_byte_counts_most(b, rest.drop_last());
        assert(s.drop_last() =~= seq![b] + rest.drop_last());
        let p = pow(256, n);
        assert(pow(256, rest.len()) == 256 * p);
        assert((b * p) * 256 == b * (256 * p)) by (nonlinear_arith);
    }
}

/// A number that fits is appended as so many bytes that spell it, behind what was there.
pub proof fn law_numbers_are_appended(out: &mut Vec<u8>, v: u128, width: usize)
    requires
        call_ensures(put_be, (out, v, width), ()),
        v < pow(256, width as nat),
    ensures
        final(out)@.len() == old(out)@.len() + width,
        final(out)@.take(old(out)@.len() as int) == old(out)@,
        from_be(final(out)@.skip(old(out)@.len() as int)) == v,
{
    lemma_be_len(v as nat, width as nat);
    lemma_capacity_is_power(width as nat);
    law_big_endian_roundtrip(v as nat, width as nat);
    assert(final(out)@.take(old(out)@.len() as int) =~= old(out)@);
    assert(final(out)@.skip(old(out)@.len() as int) =~= be(v as nat, width as nat));
}

/// What a length prefix of two bytes says of so many bytes: it stops at its largest value.
pub open spec fn announced(len: nat) -> int {
    if len < 0x1_0000 {
        len as int
    } else {
        0xFFFF
    }
}

/// `p` holds the UTF-8 bytes of `s` from `at` on, behind their length in two bytes.
pub open spec fn text_at(p: Seq<u8>, at: int, s: Seq<char>) -> bool {
    let n = encode_utf8(s).len() as int;
    &&& 0 <= at
    &&& at + 2 + n <= p.len()
    &&& p[at] * 256 + p[at + 1] == announced(n as nat)
    &&& p.subrange(at + 2, at + 2 + n) == encode_utf8(s)
}

/// Two bytes, one by one.
pub(crate) proof fn lemma_two_bytes(s: Seq<u8>)
    requires
        s.len() == 2,
    ensures
        from_be(s) == s[0] * 256 + s[1],
{
    reveal_with_fuel(from_be, 3);
    assert(s.drop_last().drop_last() =~= Seq::empty());
}

/// A text field is two bytes of length and the text.
pub(crate) proof fn lemma_text_field(s: Seq<char>)
    ensures
        text_field(s).len() == 2 + encode_utf8(s).len(),
        text_at(text_field(s), 0, s),
{
    let n = encode_utf8(s).len();
    let f = text_field(s);
    lemma_capacities();
    lemma_be_len(announced(n) as nat, 2);
    law_big_endian_roundtrip(announced(n) as nat, 2);
    assert(f.take(2) =~= be(announced(n) as nat, 2));
    lemma_two_bytes(f.take(2));
    assert(f.take(2)[0] == f[0] && f.take(2)[1] == f[1]);
    assert(f.subrange(2, 2 + n as int) =~= encode_utf8(s));
}

/// A text field stays one behind other bytes and in front of others.
pub(crate) proof fn lemma_text_within(before: Seq<u8>, s: Seq<char>, after: Seq<u8>)
    ensures
        text_at(before + text_field(s) + after, before.len() as int, s),
{
    lemma_text_field(s);
    let n = encode_utf8(s).len() as int;
    let at = before.len() as int;
    let f = text_field(s);
    let p = before + f + after;
    assert(p[at] == f[0] && p[at + 1] == f[1]);
    assert(p.subrange(at + 2, at + 2 + n) =~= f.subrange(2, 2 + n));
}

/// A subscribe holds the pattern and, in its last byte, the quality of service.
pub proof fn law_subscribe_payload(pattern: &str, qos: u8, r: Vec<u8>)
    requires
        call_ensures(encode_subscribe, (pattern, qos), r),
    ensures
        r@.len() == 2 + encode_utf8(pattern@).len() + 1,
        text_at(r@, 0, pattern@),
        r@.last() == qos,
{
    lemma_text_field(pattern@);
    lemma_text_within(Seq::empty(), pattern@, seq![qos]);
    assert(r@ =~= Seq::empty() + text_field(pattern@) + seq![qos]);
}

/// An unsubscribe holds the pattern and nothing else.
pub proof fn law_unsubscribe_payload(pattern: &str, r: Vec<u8>)
    requires
        call_ensures(encode_unsubscribe, (pattern,), r),
    ensures
        r@.len() == 2 + encode_utf8(pattern@).len(),
        text_at(r@, 0, pattern@),
{
    lemma_text_field(pattern@);
}

/// A publish holds the topic and behind it the whole payload.
pub proof fn law_publish_payload(topic: &str, payload: &[u8], r: Vec<u8>)
    requires
        call_ensures(encode_publish, (topic, payload), r),
    ensures
        r@.len() == 2 + encode_utf8(topic@).len() + payload@.len(),
        text_at(r@, 0, topic@),
        r@.skip(2 + encode_utf8(topic@).len() as int) == payload@,
{
    lemma_text_field(topic@);
    lemma_text_within(Seq::empty(), topic@, payload@);
    assert(r@ =~= Seq::empty() + text_field(topic@) + payload@);
    assert(r@.skip(2 + encode_utf8(topic@).len() as int) =~= payload@);
}

/// Where the second and the third text of a group payload start, and where they end.
pub open spec fn group_ends(topic: Seq<char>, group: Seq<char>, consumer: Seq<char>) -> (
    int,
    int,
    int,
) {
    let a = 2 + encode_utf8(topic).len() as int;
    let b = a + 2 + encode_utf8(group).len() as int;
    (a, b, b + 2 + encode_utf8(consumer).len() as int)
}

/// The three names, one behind the other, in front of other bytes.
pub(crate) proof fn lemma_group_names(
    topic: Seq<char>,
    group: Seq<char>,
    consumer: Seq<char>,
    tail: Seq<u8>,
)
    ensures
        ({
            let p = text_field(topic) + text_field(group) + text_field(consumer) + tail;
            let (a, b, c) = group_ends(topic, group, consumer);
            &&& p.len() == c + tail.len()
            &&& text_at(p, 0, topic)
            &&& text_at(p, a, group)
            &&& text_at(p, b, consumer)
            &&& p.skip(c) == tail
        }),
{
    let (a, b, c) = group_ends(topic, group, consumer);
    let t = text_field(topic);
    let g = text_field(group);
    let m = text_field(consumer);
    let p = t + g + m + tail;
    lemma_text_field(topic);
    lemma_text_field(group);
    lemma_text_field(consumer);
    lemma_text_within(Seq::empty(), topic, g + m + tail);
    lemma_text_within(t, group, m + tail);
    lemma_text_within(t + g, consumer, tail);
    assert(p =~= Seq::empty() + t + (g + m + tail));
    assert(p =~= t + g + (m + tail));
    assert(p.skip(c) =~= tail);
}

/// A leave names topic, group and consumer, and nothing else.
pub proof fn law_group_leave_payload(topic: &str, group: &str, consumer: &str, r: Vec<u8>)
    requires
        call_ensures(encode_group_leave, (topic, group, consumer), r),
    ensures
        ({
            let (a, b, c) = group_ends(topic@, group@, consumer@);
            &&& r@.len() == c
            &&& text_at(r@, 0, topic@)
            &&& text_at(r@, a, group@)
            &&& text_at(r@, b, consumer@)
        }),
{
    lemma_group_names(topic@, group@, consumer@, Seq::empty());
    assert(r@ =~= text_field(topic@) + text_field(group@) + text_field(consumer@)
        + Seq::<u8>::empty());
}

/// A join names topic, group and consumer, and spells the partition count in its last four
/// bytes.
pub proof fn law_group_join_payload(
    topic: &str,
    group: &str,
    consumer: &str,
    partitions: u32,
    r: Vec<u8>,
)
    requires
        call_ensures(encode_group_join, (topic, group, consumer, partitions), r),
    ensures
        ({
            let (a, b, c) = group_ends(topic@, group@, consumer@);
            &&& r@.len() == c + 4
            &&& text_at(r@, 0, topic@)
            &&& text_at(r@, a, group@)
            &&& text_at(r@, b, consumer@)
            &&& from_be(r@.skip(c)) == partitions
        }),
{
    let tail = be(partitions as nat, 4);
    lemma_capacities();
    lemma_be_len(partitions as nat, 4);
    law_big_endian_roundtrip(partitions as nat, 4);
    lemma_group_names(topic@, group@, consumer@, tail);
    assert(r@ =~= text_field(topic@) + text_field(group@) + text_field(consumer@) + tail);
}

/// A fetch names its topic, of at most 65535 bytes, and its offset, and asks for one entry.
pub proof fn law_fetch_payload(topic: &[u8], offset: u64, r: Vec<u8>)
    requires
        call_ensures(encode_fetch, (topic, offset), r),
        topic@.len() <= 0xFFFF,
    ensures
        ({
            let n = topic@.len() as int;
            &&& r@.len() == 2 + n + 12
            &&& r@[0] * 256 + r@[1] == n
            &&& r@.subrange(2, 2 + n) == topic@
            &&& from_be(r@.subrange(2 + n, 10 + n)) == offset
            &&& from_be(r@.skip(10 + n)) == 1
        }),
{
    let n = topic@.len();
    lemma_capacities();
    lemma_be_len(n, 2);
    lemma_be_len(offset as nat, 8);
    lemma_be_len(1, 4);
    law_big_endian_roundtrip(n, 2);
    law_big_endian_roundtrip(offset as nat, 8);
    law_big_endian_roundtrip(1, 4);
    assert(r@.take(2) =~= be(n, 2));
    lemma_two_bytes(r@.take(2));
    assert(r@.take(2)[0] == r@[0] && r@.take(2)[1] == r@[1]);
    assert(r@.subrange(2, 2 + n as int) =~= topic@);
    assert(r@.subrange(2 + n as int, 10 + n as int) =~= be(offset as nat, 8));
    assert(r@.skip(10 + n as int) =~= be(1, 4));
}

/// An acknowledgement spells its sequence number in eight bytes.
pub proof fn law_ack_payload(seq: u64, r: Vec<u8>)
    requires
        call_ensures(encode_ack, (seq,), r),
    ensures
        r@.len() == 8,
        from_be(r@) == seq,
{
    lemma_capacities();
    lemma_be_len(seq as nat, 8);
    law_big_endian_roundtrip(seq as nat, 8);
}

/// Slot `i` stands in its place: the stream id, and behind it the stream's own acknowledgement.
proof fn lemma_slot(slots: Seq<(u64, u64)>, i: int)
    ensures
        resume_slots(slots).len() == 16 * slots.len(),
        0 <= i < slots.len() ==> {
            &&& from_be(resume_slots(slots).subrange(16 * i, 16 * i + 8)) == slots[i].0
            &&& from_be(resume_slots(slots).subrange(16 * i + 8, 16 * i + 16)) == slots[i].1
        },
    decreases slots.len(),
{
    if slots.len() > 0 {
        let fewer = slots.drop_last();
        let (sid, ack) = slots.last();
        lemma_slot(fewer, i);
        lemma_capacities();
        lemma_be_len(sid as nat, 8);
        lemma_be_len(ack as nat, 8);
        law_big_endian_roundtrip(sid as nat, 8);
        law_big_endian_roundtrip(ack as nat, 8);
        let all = resume_slots(slots);
        let front = resume_slots(fewer);
        if 0 <= i < slots.len() {
            if i == slots.len() - 1 {
                assert(all.subrange(16 * i, 16 * i + 8) =~= be(sid as nat, 8));
                assert(all.subrange(16 * i + 8, 16 * i + 16) =~= be(ack as nat, 8));
            } else {
                assert(all.subrange(16 * i, 16 * i + 8) =~= front.subrange(16 * i, 16 * i + 8));
                assert(all.subrange(16 * i + 8, 16 * i + 16) =~= front.subrange(
                    16 * i + 8,
                    16 * i + 16,
                ));
            }
        }
    }
}

/// `p` resumes the session: its id in eight bytes, the number of slots in one, and then sixteen
/// bytes a slot, the stream id first and the stream's own acknowledgement behind it.
pub open spec fn resumes(p: Seq<u8>, session: u64, slots: Seq<(u64, u64)>) -> bool {
    &&& p.len() == 9 + 16 * slots.len()
    &&& from_be(p.take(8)) == session
    &&& p[8] == if slots.len() < 255 {
        slots.len() as int
    } else {
        255
    }
    &&& forall|i: int|
        0 <= i < slots.len() ==> {
            &&& from_be(p.subrange(9 + 16 * i, 9 + 16 * i + 8)) == (#[trigger] slots[i]).0
            &&& from_be(p.subrange(9 + 16 * i + 8, 9 + 16 * i + 16)) == slots[i].1
        }
}

/// The layout of a resume.
pub(crate) proof fn lemma_resume(session: u64, slots: Seq<(u64, u64)>)
    ensures
        resumes(resume_payload(session, slots), session, slots),
{
    let p = resume_payload(session, slots);
    lemma_capacities();
    lemma_be_len(session as nat, 8);
    law_big_endian_roundtrip(session as nat, 8);
    lemma_slot(slots, 0);
    assert(p.take(8) =~= be(session as nat, 8));
    let body = resume_slots(slots);
    assert forall|i: int| 0 <= i < slots.len() implies {
        &&& from_be(p.subrange(9 + 16 * i, 9 + 16 * i + 8)) == (#[trigger] slots[i]).0
        &&& from_be(p.subrange(9 + 16 * i + 8, 9 + 16 * i + 16)) == slots[i].1
    } by {
        lemma_slot(slots, i);
        assert(p.subrange(9 + 16 * i, 9 + 16 * i + 8) =~= body.subrange(16 * i, 16 * i + 8));
        assert(p.subrange(9 + 16 * i + 8, 9 + 16 * i + 16) =~= body.subrange(
            16 * i + 8,
            16 * i + 16,
        ));
    }
}

/// A resume payload reads back: session id, number of slots, and for every slot its own stream id
/// and its own acknowledgement.
pub proof fn law_resume_payload(session: u64, slots: &Vec<(u64, u64)>, r: Vec<u8>)
    requires
        call_ensures(encode_resume, (session, slots), r),
    ensures
        resumes(r@, session, slots@),
{
    lemma_resume(session, slots@);
}

/// The payload of a remote call is its id in sixteen bytes and then the application's bytes; the
/// id is read back from it, and from nothing shorter than an id.
pub proof fn law_call_payload(
    cid: u128,
    body: &[u8],
    r: Vec<u8>,
    read: &[u8],
    got: Option<u128>,
)
    requires
        call_ensures(encode_rpc, (cid, body), r),
        call_ensures(read_cid, (read,), got),
    ensures
        r@.len() == 16 + body@.len(),
        from_be(r@.take(16)) == cid,
        r@.skip(16) == body@,
        got is Some <==> read@.len() >= 16,
        read@ == r@ ==> got == Some(cid),
        read@.len() >= 16 ==> got->0 == from_be(read@.take(16)),
{
    crate::wire::law_rpc_roundtrip(cid, body@);
    lemma_capacities();
    lemma_be_len(cid as nat, 16);
    law_big_endian_roundtrip(cid as nat, 16);
    assert(r@.take(16) =~= be(cid as nat, 16));
    if read@.len() >= 16 {
        crate::wire::lemma_from_be_bound(read@.take(16));
    }
}

/// A published payload is taken apart where its length prefix says: topic and body together are
/// all of it. One that is shorter than its prefix says is refused.
pub proof fn law_publishes_are_taken_apart(payload: &Bytes, r: Option<(Bytes, Bytes)>)
    requires
        call_ensures(parse_publish, (payload,), r),
    ensures
        ({
            let p = bytes_view(*payload);
            let n = p[0] * 256 + p[1];
            &&& r is Some <==> p.len() >= 2 && p.len() >= 2 + n
            &&& r matches Some((topic, body)) ==> {
                &&& bytes_view(topic).len() == n
                &&& p == p.take(2) + bytes_view(topic) + bytes_view(body)
            }
        }),
{
    let p = bytes_view(*payload);
    if p.len() >= 2 {
        lemma_two_bytes(p.take(2));
        let n = from_be(p.take(2)) as int;
        if p.len() >= 2 + n {
            assert(p =~= p.take(2) + p.subrange(2, 2 + n) + p.skip(2 + n));
        }
    }
}

/// What is published is what is read: encoding and taking apart give topic and payload back, for
/// every topic of at most 65535 bytes.
pub proof fn law_publishes_read_back(
    topic: &str,
    payload: &[u8],
    sent: Vec<u8>,
    received: &Bytes,
    r: Option<(Bytes, Bytes)>,
)
    requires
        call_ensures(encode_publish, (topic, payload), sent),
        call_ensures(parse_publish, (received,), r),
        bytes_view(*received) == sent@,
        encode_utf8(topic@).len() <= 0xFFFF,
    ensures
        r is Some,
        bytes_view((r->0).0) == encode_utf8(topic@),
        bytes_view((r->0).1) == payload@,
{
    law_field_roundtrip(encode_utf8(topic@), payload@);
}

/// An offset notification reads back: topic and offset, whatever follows them. One that is cut
/// short anywhere is refused.
pub proof fn law_notifications_read_back(
    topic: Seq<u8>,
    offset: u64,
    trailing: Seq<u8>,
    payload: &Bytes,
    r: Option<(Bytes, u64)>,
    cut: &Bytes,
    k: int,
    refused: Option<(Bytes, u64)>,
)
    requires
        topic.len() <= 0xFFFF,
        bytes_view(*payload) == be(topic.len(), 2) + topic + be(offset as nat, 8) + trailing,
        call_ensures(parse_notify_offset, (payload,), r),
        0 <= k < 2 + topic.len() + 8,
        bytes_view(*cut) == bytes_view(*payload).take(k),
        call_ensures(parse_notify_offset, (cut,), refused),
    ensures
        r is Some,
        bytes_view((r->0).0) == topic,
        (r->0).1 == offset,
        refused is None,
{
    let rest = be(offset as nat, 8) + trailing;
    lemma_capacities();
    lemma_be_len(topic.len(), 2);
    lemma_be_len(offset as nat, 8);
    law_big_endian_roundtrip(offset as nat, 8);
    law_field_roundtrip(topic, rest);
    assert(bytes_view(*payload) =~= field(topic) + rest);
    assert(rest.take(8) =~= be(offset as nat, 8));
    lemma_cut(topic, rest, k);
}

/// A field that is cut short is no field; one that is not leaves what is left of the rest.
proof fn lemma_cut(bytes: Seq<u8>, rest: Seq<u8>, k: int)
    requires
        bytes.len() <= 0xFFFF,
        0 <= k <= 2 + bytes.len() + rest.len(),
    ensures
        k < 2 + bytes.len() ==> field_parts((field(bytes) + rest).take(k)) is None,
        k >= 2 + bytes.len() ==> field_parts((field(bytes) + rest).take(k)) == Some(
            (bytes, rest.take(k - 2 - bytes.len())),
        ),
{
    let n = bytes.len();
    let p = (field(bytes) + rest).take(k);
    lemma_capacities();
    lemma_be_len(n, 2);
    law_big_endian_roundtrip(n, 2);
    if k >= 2 + n {
        law_field_roundtrip(bytes, rest.take(k - 2 - n));
        assert(p =~= field(bytes) + rest.take(k - 2 - n));
    } else if k >= 2 {
        assert(p.take(2) =~= be(n, 2));
    }
}

/// A fetch reply reads back: topic and the whole body, whatever follows them. One that is cut
/// short anywhere is refused.
pub proof fn law_fetch_replies_read_back(
    topic: Seq<u8>,
    offset: u64,
    timestamp: u64,
    body: Seq<u8>,
    trailing: Seq<u8>,
    payload: &Bytes,
    r: Option<(Bytes, Bytes)>,
    cut: &Bytes,
    k: int,
    refused: Option<(Bytes, Bytes)>,
)
    requires
        topic.len() <= 0xFFFF,
        body.len() < 0x1_0000_0000,
        bytes_view(*payload) == be(topic.len(), 2) + topic + be(offset as nat, 8) + be(
            timestamp as nat,
            8,
        ) + be(body.len(), 4) + body + trailing,
        call_ensures(parse_fetch_reply, (payload,), r),
        0 <= k < 2 + topic.len() + 20 + body.len(),
        bytes_view(*cut) == bytes_view(*payload).take(k),
        call_ensures(parse_fetch_reply, (cut,), refused),
    ensures
        r is Some,
        bytes_view((r->0).0) == topic,
        bytes_view((r->0).1) == body,
        refused is None,
{
    let rest = be(offset as nat, 8) + be(timestamp as nat, 8) + be(body.len(), 4) + body
        + trailing;
    let n = topic.len() as int;
    let m = body.len() as int;
    lemma_capacities();
    lemma_be_len(topic.len(), 2);
    lemma_be_len(offset as nat, 8);
    lemma_be_len(timestamp as nat, 8);
    lemma_be_len(body.len(), 4);
    law_big_endian_roundtrip(body.len(), 4);
    law_field_roundtrip(topic, rest);
    assert(bytes_view(*payload) =~= field(topic) + rest);
    assert(rest.subrange(16, 20) =~= be(body.len(), 4));
    assert(rest.subrange(20, 20 + m) =~= body);
    lemma_cut(topic, rest, k);
    if k >= 2 + n + 20 {
        let left = rest.take(k - 2 - n);
        assert(left.subrange(16, 20) =~= be(body.len(), 4));
    }
}

} // verus!
