//! Topic patterns: what matches what, segment by segment.
use vstd::prelude::*;

use crate::topic::{pattern_matches, segments, topic_matches};

verus! {

/// A text without a dot is its own only segment.
pub proof fn law_dotless_texts_are_one_segment(s: Seq<char>)
    requires
        !s.contains('.'),
    ensures
        segments(s) == seq![s],
    decreases s.len(),
{
    if s.len() > 0 {
        let head = s.drop_last();
        assert forall|i: int| 0 <= i < head.len() implies head[i] != '.' by {
            assert(s[i] == head[i]);
            assert(s.contains(s[i]));
        }
        law_dotless_texts_are_one_segment(head);
        assert(s.contains(s.last()));
        assert(head.push(s.last()) =~= s);
        assert(segments(s) =~= seq![s]);
    } else {
        assert(s =~= Seq::empty());
    }
}

/// A dot ends one segment and starts the next: the segments of two texts with a dot between them
/// are those of the first and then those of the second.
pub proof fn law_dots_separate_segments(a: Seq<char>, b: Seq<char>)
    ensures
        segments(a + seq!['.'] + b) == segments(a) + segments(b),
        segments(b).len() >= 1,
    decreases b.len(),
{
    let s = a + seq!['.'] + b;
    if b.len() == 0 {
        assert(s.drop_last() =~= a);
        assert(segments(b) =~= seq![Seq::<char>::empty()]);
        assert(segments(s) =~= segments(a) + segments(b));
    } else {
        let less = b.drop_last();
        law_dots_separate_segments(a, less);
        assert(s.drop_last() =~= a + seq!['.'] + less);
        assert(s.last() == b.last());
        assert(segments(s) =~= segments(a) + segments(b));
    }
}

/// No segment holds a dot.
pub proof fn law_segments_hold_no_dot(s: Seq<char>, i: int, j: int)
    requires
        0 <= i < segments(s).len(),
        0 <= j < segments(s)[i].len(),
    ensures
        segments(s)[i][j] != '.',
    decreases s.len(),
{
    if s.len() > 0 {
        let init = segments(s.drop_last());
        law_dots_separate_segments(s, s.drop_last());
        if s.last() == '.' {
            if i < init.len() {
                law_segments_hold_no_dot(s.drop_last(), i, j);
            }
        } else if i < init.len() - 1 || j < init.last().len() {
            law_segments_hold_no_dot(s.drop_last(), i, j);
        }
    }
}

/// A pattern matches a topic exactly where both have equally many segments and every segment of
/// the pattern that is not a lone star stands in the topic at the same place.
pub proof fn law_literal_segments_must_agree(pattern: &str, topic: &str, r: bool)
    requires
        call_ensures(pattern_matches, (pattern, topic), r),
    ensures
        r ==> segments(pattern@).len() == segments(topic@).len(),
        r ==> forall|i: int|
            0 <= i < segments(pattern@).len() && segments(pattern@)[i] != seq!['*']
                ==> #[trigger] segments(pattern@)[i] == segments(topic@)[i],
        !r && segments(pattern@).len() == segments(topic@).len() ==> exists|i: int|
            {
                &&& 0 <= i < segments(pattern@).len()
                &&& #[trigger] segments(pattern@)[i] != seq!['*']
                &&& segments(pattern@)[i] != segments(topic@)[i]
            },
{
}

/// One segment against one: a lone star matches any text without a dot, every other text matches
/// itself alone.
pub proof fn law_stars_match_one_segment(pattern: &str, topic: &str, r: bool)
    requires
        call_ensures(pattern_matches, (pattern, topic), r),
        !pattern@.contains('.'),
    ensures
        r <==> !topic@.contains('.') && (pattern@ == seq!['*'] || pattern@ == topic@),
{
    law_dotless_texts_are_one_segment(pattern@);
    if topic@.contains('.') {
        let k = topic@.index_of('.');
        let a = topic@.take(k);
        let b = topic@.skip(k + 1);
        assert(topic@[k] == '.');
        assert(topic@ =~= a + seq!['.'] + b);
        law_dots_separate_segments(a, b);
        law_dots_separate_segments(a, a);
    } else {
        law_dotless_texts_are_one_segment(topic@);
        assert(segments(pattern@)[0] == pattern@);
        assert(segments(topic@)[0] == topic@);
    }
}

/// Longer patterns match piece by piece: with as many segments in front of the dot, pattern and
/// topic match exactly where they match in front of it and behind it.
pub proof fn law_matching_goes_piece_by_piece(
    p1: &str,
    p2: &str,
    t1: &str,
    t2: &str,
    pattern: &str,
    topic: &str,
    front: bool,
    back: bool,
    whole: bool,
)
    requires
        pattern@ == p1@ + seq!['.'] + p2@,
        topic@ == t1@ + seq!['.'] + t2@,
        segments(p1@).len() == segments(t1@).len(),
        call_ensures(pattern_matches, (p1, t1), front),
        call_ensures(pattern_matches, (p2, t2), back),
        call_ensures(pattern_matches, (pattern, topic), whole),
    ensures
        whole <==> front && back,
{
    law_dots_separate_segments(p1@, p2@);
    law_dots_separate_segments(t1@, t2@);
    let p = segments(pattern@);
    let t = segments(topic@);
    let n = segments(p1@).len() as int;
    let m = segments(p2@).len() as int;
    assert forall|i: int| 0 <= i < n implies p[i] == segments(p1@)[i] && t[i] == segments(
        t1@,
    )[i] by {}
    assert forall|i: int| 0 <= i < m && m == segments(t2@).len() implies p[n + i] == segments(
        p2@,
    )[i] && t[n + i] == segments(t2@)[i] by {}
    if whole {
        assert forall|i: int| 0 <= i < n implies #[trigger] segments(p1@)[i] == seq!['*']
            || segments(p1@)[i] == segments(t1@)[i] by {
            assert(p[i] == segments(p1@)[i]);
        }
        assert forall|i: int| 0 <= i < m implies #[trigger] segments(p2@)[i] == seq!['*']
            || segments(p2@)[i] == segments(t2@)[i] by {
            assert(p[n + i] == segments(p2@)[i]);
        }
        assert(topic_matches(p1@, t1@));
        assert(topic_matches(p2@, t2@));
    }
    if front && back {
        assert forall|i: int| 0 <= i < p.len() implies #[trigger] p[i] == seq!['*'] || p[i]
            == t[i] by {
            if i < n {
                assert(p[i] == segments(p1@)[i]);
            } else {
                assert(p[i] == segments(p2@)[i - n]);
                assert(t[i] == segments(t2@)[i - n]);
            }
        }
        assert(topic_matches(pattern@, topic@));
    }
}

} // verus!
