//! Dot-separated subject patterns and their glob-style matching.
//!
//! A subject such as `session.123` is a sequence of segments separated by
//! `.`. A pattern is matched against a filter segment by segment; the segment
//! `*` in the pattern stands for any single segment, and a whole pattern or
//! filter that is exactly `*` matches everything.
use vstd::prelude::*;

verus! {

/// The lone wildcard `*`.
pub open spec fn is_wildcard(s: Seq<char>) -> bool {
    s == seq!['*']
}

/// The segments of `s`, cut at every `.`: there is always at least one
/// segment, and `k` dots give `k + 1` segments, some of which may be empty.
pub open spec fn segments(s: Seq<char>) -> Seq<Seq<char>>
    decreases s.len(),
{
    if s.len() == 0 {
        seq![Seq::<char>::empty()]
    } else {
        let prev = segments(s.drop_last());
        if s.last() == '.' {
            prev.push(Seq::<char>::empty())
        } else {
            prev.update(prev.len() - 1, prev.last().push(s.last()))
        }
    }
}

/// The inverse of `segments`: the segments joined with `.`.
pub open spec fn join_segments(parts: Seq<Seq<char>>) -> Seq<char>
    decreases parts.len(),
{
    if parts.len() <= 1 {
        if parts.len() == 1 {
            parts[0]
        } else {
            Seq::<char>::empty()
        }
    } else {
        join_segments(parts.drop_last()) + seq!['.'] + parts.last()
    }
}

/// Segment lists of equal length where every pattern segment is `*` or
/// equal to the filter segment at the same place.
pub open spec fn segments_match(ps: Seq<Seq<char>>, fs: Seq<Seq<char>>) -> bool {
    &&& ps.len() == fs.len()
    &&& forall|i: int| 0 <= i < ps.len() ==> (is_wildcard(#[trigger] ps[i]) || ps[i] == fs[i])
}

/// When `pattern` matches `filter`.
pub open spec fn pattern_matches(pattern: Seq<char>, filter: Seq<char>) -> bool {
    ||| is_wildcard(pattern)
    ||| is_wildcard(filter)
    ||| segments_match(segments(pattern), segments(filter))
}

/// A pattern with no `*` segment.
pub open spec fn is_concrete(pattern: Seq<char>) -> bool {
    forall|i: int| 0 <= i < segments(pattern).len() ==> !is_wildcard(#[trigger] segments(pattern)[i])
}

pub proof fn lemma_segments_nonempty(s: Seq<char>)
    ensures
        segments(s).len() >= 1,
    decreases s.len(),
{
    if s.len() > 0 {
        lemma_segments_nonempty(s.drop_last());
    }
}

proof fn lemma_join_extend_last(parts: Seq<Seq<char>>, c: char)
    requires
        parts.len() >= 1,
    ensures
        join_segments(parts.update(parts.len() - 1, parts.last().push(c))) == join_segments(
            parts,
        ).push(c),
{
    let upd = parts.update(parts.len() - 1, parts.last().push(c));
    if parts.len() > 1 {
        assert(upd.drop_last() =~= parts.drop_last());
        assert(join_segments(upd) =~= join_segments(parts).push(c));
    }
}

/// Joining the segments of `s` with `.` gives `s` back.
pub proof fn lemma_join_segments(s: Seq<char>)
    ensures
        join_segments(segments(s)) == s,
    decreases s.len(),
{
    if s.len() > 0 {
        let prev = segments(s.drop_last());
        lemma_join_segments(s.drop_last());
        lemma_segments_nonempty(s.drop_last());
        if s.last() == '.' {
            assert(prev.push(Seq::<char>::empty()).drop_last() =~= prev);
            assert(join_segments(segments(s)) =~= s);
        } else {
            lemma_join_extend_last(prev, s.last());
            assert(join_segments(segments(s)) =~= s);
        }
    }
}

/// Two strings with the same segments are equal.
pub proof fn lemma_segments_injective(a: Seq<char>, b: Seq<char>)
    requires
        segments(a) == segments(b),
    ensures
        a == b,
{
    lemma_join_segments(a);
    lemma_join_segments(b);
}

/// The characters of `s`, in order.
pub fn chars_of(s: &str) -> (v: Vec<char>)
    ensures
        v@ == s@,
{
    let mut v: Vec<char> = Vec::new();
    for c in it: s.chars()
        invariant
            v@ == it.seq().take(it.index() as int),
    {
        v.push(c);
    }
    v
}

fn is_star(v: &Vec<char>) -> (r: bool)
    ensures
        r == is_wildcard(v@),
{
    if v.len() == 1 && v[0] == '*' {
        assert(v@ =~= seq!['*']);
        true
    } else {
        false
    }
}

fn same_chars(a: &Vec<char>, b: &Vec<char>) -> (r: bool)
    ensures
        r == (a@ == b@),
{
    if a.len() != b.len() {
        return false;
    }
    let n = a.len();
    for i in 0..n
        invariant
            n == a.len(),
            n == b.len(),
            forall|j: int| 0 <= j < i ==> a@[j] == b@[j],
    {
        if a[i] != b[i] {
            return false;
        }
    }
    assert(a@ =~= b@);
    true
}

/// Cuts `s` into its segments.
fn split_segments(s: &Vec<char>) -> (parts: Vec<Vec<char>>)
    ensures
        parts.len() == segments(s@).len(),
        forall|i: int| 0 <= i < parts.len() ==> (#[trigger] parts[i])@ == segments(s@)[i],
{
    let mut parts: Vec<Vec<char>> = Vec::new();
    let mut cur: Vec<char> = Vec::new();
    let n = s.len();
    for k in 0..n
        invariant
            n == s.len(),
            parts.len() + 1 == segments(s@.take(k as int)).len(),
            forall|i: int| 0 <= i < parts.len() ==> (#[trigger] parts[i])@ == segments(s@.take(k as int))[i],
            cur@ == segments(s@.take(k as int)).last(),
    {
        let ghost before = s@.take(k as int);
        proof {
            assert(s@.take(k + 1).drop_last() =~= before);
            lemma_segments_nonempty(before);
        }
        let c = s[k];
        if c == '.' {
            let done = cur;
            parts.push(done);
            cur = Vec::new();
        } else {
            cur.push(c);
        }
    }
    assert(s@.take(n as int) =~= s@);
    parts.push(cur);
    parts
}

/// Glob-style match of `pattern` against `filter`: true when either is `*`,
/// or when both have the same number of `.`-separated segments and each
/// pattern segment is `*` or equal to the filter segment at the same place.
pub fn matches_pattern(pattern: &str, filter: &str) -> (r: bool)
    ensures
        r == pattern_matches(pattern@, filter@),
{
    let p = chars_of(pattern);
    let f = chars_of(filter);
    if is_star(&p) || is_star(&f) {
        return true;
    }
    let pattern_parts = split_segments(&p);
    let filter_parts = split_segments(&f);
    if pattern_parts.len() != filter_parts.len() {
        return false;
    }
    let n = pattern_parts.len();
    for i in 0..n
        invariant
            n == pattern_parts.len(),
            n == filter_parts.len(),
            !is_wildcard(pattern@),
            !is_wildcard(filter@),
            pattern_parts.len() == segments(pattern@).len(),
            filter_parts.len() == segments(filter@).len(),
            forall|j: int| 0 <= j < n ==> (#[trigger] pattern_parts[j])@ == segments(pattern@)[j],
            forall|j: int| 0 <= j < n ==> (#[trigger] filter_parts[j])@ == segments(filter@)[j],
            forall|j: int|
                0 <= j < i ==> (is_wildcard(#[trigger] segments(pattern@)[j]) || segments(
                    pattern@,
                )[j] == segments(filter@)[j]),
    {
        if !is_star(&pattern_parts[i]) && !same_chars(&pattern_parts[i], &filter_parts[i]) {
            assert(!is_wildcard(segments(pattern@)[i as int]));
            assert(segments(pattern@)[i as int] != segments(filter@)[i as int]);
            assert(!segments_match(segments(pattern@), segments(filter@)));
            return false;
        }
    }
    true
}


/// Appending a `.` opens a new, empty last segment.
pub proof fn lemma_segments_dot(s: Seq<char>)
    ensures
        segments(s.push('.')) == segments(s).push(Seq::<char>::empty()),
{
    assert(s.push('.').drop_last() =~= s);
}

/// Appending text without dots extends the last segment with it.
pub proof fn lemma_segments_append_plain(s: Seq<char>, x: Seq<char>)
    requires
        forall|i: int| 0 <= i < x.len() ==> x[i] != '.',
    ensures
        segments(s + x) == segments(s).update(
            segments(s).len() - 1,
            segments(s).last() + x,
        ),
    decreases x.len(),
{
    lemma_segments_nonempty(s);
    if x.len() == 0 {
        assert(s + x =~= s);
        assert(segments(s).last() + x =~= segments(s).last());
        assert(segments(s).update(segments(s).len() - 1, segments(s).last()) =~= segments(s));
    } else {
        let y = x.drop_last();
        lemma_segments_append_plain(s, y);
        assert((s + x).drop_last() =~= s + y);
        assert((s + x).last() == x.last());
        assert(segments(s).last() + y + seq![x.last()] =~= segments(s).last() + x);
        let sy = segments(s + y);
        assert(x[x.len() - 1] != '.');
        assert(sy.len() == segments(s).len());
        assert(sy.last() == segments(s).last() + y);
        assert(segments(s + x) == sy.update(sy.len() - 1, sy.last().push(x.last())));
        assert(sy.last().push(x.last()) =~= segments(s).last() + x);
        assert(segments(s + x) =~= segments(s).update(
            segments(s).len() - 1,
            segments(s).last() + x,
        ));
    }
}

/// A string without dots is a single segment.
pub proof fn lemma_segments_plain(x: Seq<char>)
    requires
        forall|i: int| 0 <= i < x.len() ==> x[i] != '.',
    ensures
        segments(x) == seq![x],
{
    lemma_segments_append_plain(Seq::<char>::empty(), x);
    assert(Seq::<char>::empty() + x =~= x);
    assert(segments(Seq::<char>::empty()).update(0, Seq::<char>::empty() + x) =~= seq![x]);
}

/// The pattern `*` matches every filter, and every pattern matches the
/// filter `*`.
pub proof fn law_wildcard_matches_everything(s: Seq<char>)
    ensures
        pattern_matches(seq!['*'], s),
        pattern_matches(s, seq!['*']),
{
}

/// Every subject matches itself.
pub proof fn law_match_reflexive(s: Seq<char>)
    ensures
        pattern_matches(s, s),
{
}

/// Apart from the lone `*`, a pattern never matches a filter with a
/// different number of segments.
pub proof fn law_segment_count_must_agree(pattern: Seq<char>, filter: Seq<char>)
    requires
        !is_wildcard(pattern),
        !is_wildcard(filter),
        segments(pattern).len() != segments(filter).len(),
    ensures
        !pattern_matches(pattern, filter),
{
}

/// A string without `*` segments is not the lone `*`.
pub proof fn lemma_concrete_is_not_wildcard(s: Seq<char>)
    requires
        is_concrete(s),
    ensures
        !is_wildcard(s),
{
    let star = seq!['*'];
    lemma_segments_plain(star);
    if is_wildcard(s) {
        assert(segments(s)[0] == star);
    }
}

/// A pattern without `*` segments matches a filter other than `*` exactly
/// when the two are the same string.
pub proof fn law_concrete_pattern_matches_only_itself(pattern: Seq<char>, filter: Seq<char>)
    requires
        is_concrete(pattern),
        !is_wildcard(filter),
    ensures
        pattern_matches(pattern, filter) <==> pattern == filter,
{
    let star = seq!['*'];
    lemma_segments_plain(star);
    if is_wildcard(pattern) {
        assert(segments(pattern)[0] == star);
    }
    if pattern_matches(pattern, filter) {
        let ps = segments(pattern);
        let fs = segments(filter);
        assert forall|i: int| 0 <= i < ps.len() implies ps[i] == fs[i] by {
            assert(!is_wildcard(ps[i]));
        }
        assert(ps =~= fs);
        lemma_segments_injective(pattern, filter);
    }
}

/// A `*` as the last segment matches any single last segment:
/// `prefix.*` matches `prefix.x` whenever `x` holds no `.`.
pub proof fn law_trailing_wildcard(prefix: Seq<char>, x: Seq<char>)
    requires
        forall|i: int| 0 <= i < x.len() ==> x[i] != '.',
    ensures
        pattern_matches(prefix + seq!['.', '*'], prefix + seq!['.'] + x),
{
    let star = seq!['*'];
    let e = Seq::<char>::empty();
    lemma_segments_dot(prefix);
    lemma_segments_nonempty(prefix);
    let base = segments(prefix.push('.'));
    assert(prefix + seq!['.', '*'] =~= prefix.push('.') + star);
    assert(prefix + seq!['.'] + x =~= prefix.push('.') + x);
    lemma_segments_append_plain(prefix.push('.'), star);
    lemma_segments_append_plain(prefix.push('.'), x);
    assert(base.last() == e);
    assert(e + star =~= star);
    assert(e + x =~= x);
    let ps = segments(prefix + seq!['.', '*']);
    let fs = segments(prefix + seq!['.'] + x);
    assert(ps.len() == fs.len());
    assert forall|i: int| 0 <= i < ps.len() implies (is_wildcard(#[trigger] ps[i]) || ps[i] == fs[i]) by {
        if i < ps.len() - 1 {
            assert(ps[i] == base[i]);
            assert(fs[i] == base[i]);
        } else {
            assert(ps[i] == star);
        }
    }
}

/// No segment holds a `.`.
pub proof fn lemma_segments_dot_free(s: Seq<char>)
    ensures
        forall|i: int, k: int|
            0 <= i < segments(s).len() && 0 <= k < segments(s)[i].len() ==> #[trigger] segments(
                s,
            )[i][k] != '.',
    decreases s.len(),
{
    lemma_segments_nonempty(s);
    if s.len() > 0 {
        lemma_segments_dot_free(s.drop_last());
        lemma_segments_nonempty(s.drop_last());
        let prev = segments(s.drop_last());
        assert forall|i: int, k: int|
            0 <= i < segments(s).len() && 0 <= k < segments(s)[i].len() implies #[trigger] segments(
            s,
        )[i][k] != '.' by {
            if s.last() != '.' && i == prev.len() - 1 {
                assert(segments(s)[i] == prev[i].push(s.last()));
                if k < prev[i].len() {
                    assert(prev[i][k] != '.');
                }
            } else if i < prev.len() {
                assert(segments(s)[i] == prev[i]);
                assert(prev[i][k] != '.');
            }
        }
    }
}

/// Segments without dots, joined with `.`, are cut back into the same
/// segments.
pub proof fn lemma_segments_of_join(parts: Seq<Seq<char>>)
    requires
        parts.len() >= 1,
        forall|i: int, k: int|
            0 <= i < parts.len() && 0 <= k < parts[i].len() ==> #[trigger] parts[i][k] != '.',
    ensures
        segments(join_segments(parts)) == parts,
    decreases parts.len(),
{
    if parts.len() == 1 {
        assert forall|k: int| 0 <= k < parts[0].len() implies parts[0][k] != '.' by {
            assert(parts[0][k] != '.');
        }
        lemma_segments_plain(parts[0]);
        assert(parts =~= seq![parts[0]]);
    } else {
        let init = parts.drop_last();
        let last = parts.last();
        assert forall|i: int, k: int|
            0 <= i < init.len() && 0 <= k < init[i].len() implies #[trigger] init[i][k] != '.' by {
            assert(init[i] == parts[i]);
        }
        lemma_segments_of_join(init);
        let x = join_segments(init);
        assert(join_segments(parts) == x + seq!['.'] + last);
        assert(x + seq!['.'] + last =~= x.push('.') + last);
        lemma_segments_dot(x);
        assert forall|k: int| 0 <= k < last.len() implies last[k] != '.' by {
            assert(parts[parts.len() - 1][k] != '.');
        }
        lemma_segments_append_plain(x.push('.'), last);
        assert(Seq::<char>::empty() + last =~= last);
        assert(segments(join_segments(parts)) =~= parts);
    }
}

/// Widening one segment of a pattern to `*` never loses a match: if
/// `pattern` matches `filter`, so does `pattern` with its segment `i`
/// replaced by `*`.
pub proof fn law_widening_a_segment_keeps_a_match(pattern: Seq<char>, filter: Seq<char>, i: int)
    requires
        pattern_matches(pattern, filter),
        0 <= i < segments(pattern).len(),
    ensures
        pattern_matches(join_segments(segments(pattern).update(i, seq!['*'])), filter),
{
    let star = seq!['*'];
    let ps = segments(pattern);
    let wide = ps.update(i, star);
    lemma_segments_dot_free(pattern);
    assert forall|a: int, k: int| 0 <= a < wide.len() && 0 <= k < wide[a].len() implies #[trigger] wide[
        a][k] != '.' by {
        if a != i {
            assert(wide[a] == ps[a]);
            assert(ps[a][k] != '.');
        }
    }
    lemma_segments_of_join(wide);
    if is_wildcard(pattern) {
        lemma_segments_plain(star);
        assert(wide =~= seq![star]);
        assert(join_segments(wide) == star);
    } else if !is_wildcard(filter) {
        let fs = segments(filter);
        assert forall|a: int| 0 <= a < wide.len() implies (is_wildcard(#[trigger] wide[a]) || wide[a]
            == fs[a]) by {
            if a != i {
                assert(wide[a] == ps[a]);
            }
        }
    }
}

} // verus!
