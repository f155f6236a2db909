//! Topic patterns: dot-separated segments, with `*` standing for exactly one segment.
use vstd::prelude::*;

use crate::text::chars_of;

verus! {

/// The dot-separated segments of `s`, in order. There is always at least one, possibly empty.
pub open spec fn segments(s: Seq<char>) -> Seq<Seq<char>>
    decreases s.len(),
{
    if s.len() == 0 {
        seq![Seq::<char>::empty()]
    } else {
        let init = segments(s.drop_last());
        if s.last() == '.' {
            init.push(Seq::<char>::empty())
        } else {
            init.update(init.len() - 1, init.last().push(s.last()))
        }
    }
}

/// The pattern segment that stands for any one segment.
pub open spec fn wildcard() -> Seq<char> {
    seq!['*']
}

/// Whether one pattern segment matches one topic segment.
pub open spec fn segment_matches(p: Seq<char>, t: Seq<char>) -> bool {
    p == wildcard() || p == t
}

/// Whether `pattern` matches `topic`: equally many segments, each of them matching.
pub open spec fn topic_matches(pattern: Seq<char>, topic: Seq<char>) -> bool {
    let p = segments(pattern);
    let t = segments(topic);
    &&& p.len() == t.len()
    &&& forall|i: int| 0 <= i < p.len() ==> segment_matches(#[trigger] p[i], t[i])
}

/// The segments put together again, with a dot between neighbours.
pub open spec fn joined(segs: Seq<Seq<char>>) -> Seq<char>
    decreases segs.len(),
{
    if segs.len() == 0 {
        Seq::empty()
    } else if segs.len() == 1 {
        segs[0]
    } else {
        joined(segs.drop_last()).push('.') + segs.last()
    }
}

/// Every string has at least one segment.
proof fn lemma_segments_nonempty(s: Seq<char>)
    ensures
        segments(s).len() >= 1,
    decreases s.len(),
{
    if s.len() > 0 {
        lemma_segments_nonempty(s.drop_last());
    }
}

/// Splitting at the dots loses nothing: joining the segments gives the string back.
pub proof fn law_segments_join(s: Seq<char>)
    ensures
        joined(segments(s)) == s,
    decreases s.len(),
{
    if s.len() == 0 {
        assert(joined(seq![Seq::<char>::empty()]) =~= s);
    } else {
        let head = s.drop_last();
        let init = segments(head);
        lemma_segments_nonempty(head);
        law_segments_join(head);
        let all = segments(s);
        if s.last() == '.' {
            assert(all.drop_last() =~= init);
            assert(joined(all) =~= head.push('.'));
        } else {
            assert(all.drop_last() =~= init.drop_last());
            assert(all.last() == init.last().push(s.last()));
            if init.len() > 1 {
                assert(joined(all) =~= joined(init).push(s.last()));
            } else {
                assert(joined(all) =~= init[0].push(s.last()));
            }
        }
        assert(s =~= head.push(s.last()));
    }
}

/// A topic matches itself, read as a pattern.
pub proof fn law_topic_matches_itself(topic: Seq<char>)
    ensures
        topic_matches(topic, topic),
{
}

/// A pattern without a wildcard segment matches the topic of the same spelling and no other.
pub proof fn law_literal_pattern_matches_only_itself(pattern: Seq<char>, topic: Seq<char>)
    requires
        forall|i: int|
            0 <= i < segments(pattern).len() ==> #[trigger] segments(pattern)[i] != wildcard(),
    ensures
        topic_matches(pattern, topic) <==> pattern == topic,
{
    if topic_matches(pattern, topic) {
        assert(segments(pattern) =~= segments(topic));
        law_segments_join(pattern);
        law_segments_join(topic);
    }
}

/// A pattern made of wildcards alone matches exactly the topics with as many segments.
pub proof fn law_wildcards_match_by_segment_count(pattern: Seq<char>, topic: Seq<char>)
    requires
        forall|i: int|
            0 <= i < segments(pattern).len() ==> #[trigger] segments(pattern)[i] == wildcard(),
    ensures
        topic_matches(pattern, topic) <==> segments(pattern).len() == segments(topic).len(),
{
}

/// The character sequences that a vector of segments holds.
spec fn segment_views(v: Seq<Vec<char>>) -> Seq<Seq<char>> {
    v.map_values(|x: Vec<char>| x@)
}

/// Splits `s` at its dots.
fn split_segments(s: &str) -> (r: Vec<Vec<char>>)
    ensures
        segment_views(r@) == segments(s@),
{
    let chars = chars_of(s);
    let mut out: Vec<Vec<char>> = Vec::new();
    let mut current: Vec<char> = Vec::new();
    let mut i: usize = 0;
    assert(segment_views(out@).push(current@) =~= segments(s@.take(0)));
    while i < chars.len()
        invariant
            chars@ == s@,
            i <= chars@.len(),
            segment_views(out@).push(current@) == segments(s@.take(i as int)),
        decreases chars@.len() - i,
    {
        let c = chars[i];
        let ghost before = segment_views(out@).push(current@);
        let ghost head = s@.take(i as int);
        assert(s@.take(i + 1).drop_last() =~= head);
        if c == '.' {
            out.push(current);
            current = Vec::new();
            assert(segment_views(out@) =~= before);
            assert(segment_views(out@).push(current@) =~= before.push(Seq::empty()));
        } else {
            current.push(c);
            assert(segment_views(out@).push(current@) =~= before.update(
                before.len() - 1,
                before.last().push(c),
            ));
        }
        i += 1;
    }
    let ghost parts = segment_views(out@).push(current@);
    out.push(current);
    assert(segment_views(out@) =~= parts);
    assert(s@.take(s@.len() as int) =~= s@);
    out
}

/// Whether two segments hold the same characters.
fn same_segment(a: &Vec<char>, b: &Vec<char>) -> (r: bool)
    ensures
        r == (a@ == b@),
{
    if a.len() != b.len() {
        return false;
    }
    let mut i: usize = 0;
    while i < a.len()
        invariant
            a@.len() == b@.len(),
            i <= a@.len(),
            forall|j: int| 0 <= j < i ==> a@[j] == b@[j],
        decreases a@.len() - i,
    {
        if a[i] != b[i] {
            return false;
        }
        i += 1;
    }
    assert(a@ =~= b@);
    true
}

/// `true` when `pattern` matches `topic`. `*` matches exactly one segment; the segment counts
/// must be equal.
pub fn pattern_matches(pattern: &str, topic: &str) -> (r: bool)
    ensures
        r == topic_matches(pattern@, topic@),
{
    let p = split_segments(pattern);
    let t = split_segments(topic);
    let ghost ps = segments(pattern@);
    let ghost ts = segments(topic@);
    if p.len() != t.len() {
        return false;
    }
    let mut i: usize = 0;
    while i < p.len()
        invariant
            ps == segments(pattern@),
            ts == segments(topic@),
            segment_views(p@) == ps,
            segment_views(t@) == ts,
            p@.len() == t@.len(),
            i <= p@.len(),
            forall|j: int| 0 <= j < i ==> segment_matches(#[trigger] ps[j], ts[j]),
        decreases p@.len() - i,
    {
        assert(ps[i as int] == p@[i as int]@);
        assert(ts[i as int] == t@[i as int]@);
        let star = p[i].len() == 1 && p[i][0] == '*';
        assert(star == (ps[i as int] == wildcard())) by {
            if star {
                assert(ps[i as int] =~= wildcard());
            }
        }
        if !star && !same_segment(&p[i], &t[i]) {
            return false;
        }
        i += 1;
    }
    true
}

} // verus!
