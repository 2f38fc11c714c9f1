use vstd::prelude::*;

use crate::text::{
    byte_offset, char_index, is_boundary, lemma_byte_offset_mono, lemma_byte_offset_step,
    lemma_byte_offset_zero, lemma_char_index, slice_to_vec, utf8_width_of,
};

verus! {

/// The regular expression that finds the operators, parentheses and
/// location-counter names of an expression.
pub const EXPRESSION_PATTERN: &'static str =
    r"(\bHERE\b|\$|\bMOD\b|\bNOT\b|\bAND\b|\bOR\b|\bXOR\b|\bSHL\b|\bSHR\b|\+|-|\*|/|\(|\))";

/// The (start, end) byte offsets of the matches of `pattern` in `haystack`,
/// in the order `regex::Regex::find_iter` yields them, or `None` where the
/// pattern does not compile.
pub uninterp spec fn regex_match_spans(pattern: Seq<char>, haystack: Seq<char>) -> Option<
    Seq<(usize, usize)>,
>;

/// Byte spans that are successive, do not overlap, and start and end on
/// character boundaries of `s`.
pub open spec fn spans_fit(s: Seq<char>, spans: Seq<(usize, usize)>) -> bool {
    &&& forall|k: int|
        0 <= k < spans.len() ==> (#[trigger] spans[k]).0 <= spans[k].1 && is_boundary(
            s,
            spans[k].0 as int,
        ) && is_boundary(s, spans[k].1 as int)
    &&& forall|k: int, l: int|
        0 <= k < l < spans.len() ==> (#[trigger] spans[k]).1 <= (#[trigger] spans[l]).0
}

/// The matches of `pattern` in `haystack` (`regex::Regex::new` and
/// `Regex::find_iter`, each match taken by `Match::start` and `Match::end`).
/// Trusted: the result is a function of the two strings, and the matches
/// are successive, non-overlapping and on UTF-8 character boundaries, as
/// the crate documents for `find_iter`, `start` and `end`. `None` stands for
/// a pattern that `Regex::new` refuses.
#[verifier::external_body]
fn find_matches(pattern: &str, haystack: &str) -> (r: Option<Vec<(usize, usize)>>)
    ensures
        match r {
            Some(v) => regex_match_spans(pattern@, haystack@) == Some(v@) && spans_fit(
                haystack@,
                v@,
            ),
            None => regex_match_spans(pattern@, haystack@) is None,
        },
{
    match regex::Regex::new(pattern) {
        Ok(re) => Some(re.find_iter(haystack).map(|m| (m.start(), m.end())).collect()),
        Err(_) => None,
    }
}

/// The spans of `EXPRESSION_PATTERN` in `expr`.
pub fn expression_matches(expr: &str) -> (r: Option<Vec<(usize, usize)>>)
    ensures
        match r {
            Some(v) => regex_match_spans(EXPRESSION_PATTERN@, expr@) == Some(v@) && spans_fit(
                expr@,
                v@,
            ),
            None => regex_match_spans(EXPRESSION_PATTERN@, expr@) is None,
        },
{
    find_matches(EXPRESSION_PATTERN, expr)
}

/// Byte spans turned into character index spans.
pub open spec fn char_spans(s: Seq<char>, spans: Seq<(usize, usize)>) -> Seq<(int, int)> {
    spans.map_values(|p: (usize, usize)| (char_index(s, p.0 as int), char_index(s, p.1 as int)))
}

/// Character spans that are ordered and lie within a text of length `n`.
pub open spec fn ordered_spans(n: int, cs: Seq<(int, int)>) -> bool {
    &&& forall|k: int| 0 <= k < cs.len() ==> 0 <= (#[trigger] cs[k]).0 <= cs[k].1 <= n
    &&& forall|k: int, l: int| 0 <= k < l < cs.len() ==> (#[trigger] cs[k]).1 <= (#[trigger] cs[l]).0
}

/// Moves from character `i` (at byte `b`) to the character at byte `target`.
fn advance_to(s: &Vec<char>, i: usize, b: usize, target: usize) -> (r: (usize, usize))
    requires
        i <= s@.len(),
        b == byte_offset(s@, i as int),
        b <= target,
        is_boundary(s@, target as int),
    ensures
        r.1 == target,
        i <= r.0 <= s@.len(),
        r.0 == char_index(s@, target as int),
        byte_offset(s@, r.0 as int) == target,
{
    let ghost j = char_index(s@, target as int);
    proof {
        if j < i {
            lemma_byte_offset_mono(s@, j, i as int);
        }
    }
    let n = s.len();
    let mut p = i;
    let mut q = b;
    while q < target
        invariant
            n == s@.len(),
            i <= p <= s@.len(),
            q == byte_offset(s@, p as int),
            q <= target,
            0 <= j <= s@.len(),
            byte_offset(s@, j) == target,
            p <= j,
        decreases j - p,
    {
        proof {
            assert(p < j);
            lemma_byte_offset_step(s@, p as int);
            if p + 1 < j {
                lemma_byte_offset_mono(s@, p + 1, j);
            }
        }
        let w = utf8_width_of(s[p]);
        q = q + w;
        p = p + 1;
    }
    proof {
        if p < j {
            lemma_byte_offset_mono(s@, p as int, j);
        }
        lemma_char_index(s@, p as int);
    }
    (p, q)
}

/// The character spans of successive byte spans.
pub fn to_char_spans(s: &Vec<char>, spans: &Vec<(usize, usize)>) -> (r: Vec<(usize, usize)>)
    requires
        spans_fit(s@, spans@),
    ensures
        r@.map_values(|p: (usize, usize)| (p.0 as int, p.1 as int)) == char_spans(s@, spans@),
        ordered_spans(s@.len() as int, char_spans(s@, spans@)),
{
    let mut r: Vec<(usize, usize)> = Vec::new();
    let mut i: usize = 0;
    let mut b: usize = 0;
    let mut k: usize = 0;
    proof {
        lemma_byte_offset_zero(s@);
    }
    while k < spans.len()
        invariant
            k <= spans@.len(),
            spans_fit(s@, spans@),
            i <= s@.len(),
            b == byte_offset(s@, i as int),
            k < spans@.len() ==> b <= spans@[k as int].0,
            r@.len() == k,
            forall|m: int|
                0 <= m < k ==> (#[trigger] r@[m]).0 == char_index(s@, spans@[m].0 as int)
                    && r@[m].1 == char_index(s@, spans@[m].1 as int) && r@[m].0 <= r@[m].1 <= i,
            forall|m: int, n: int| 0 <= m < n < k ==> (#[trigger] r@[m]).1 <= (#[trigger] r@[n]).0,
        decreases spans@.len() - k,
    {
        let (start, end) = spans[k];
        assert(spans@[k as int] == (start, end));
        let (ci, bi) = advance_to(s, i, b, start);
        let (cj, bj) = advance_to(s, ci, bi, end);
        r.push((ci, cj));
        i = cj;
        b = bj;
        proof {
            if k + 1 < spans@.len() {
                assert(spans@[k as int].1 <= spans@[k + 1].0);
            }
        }
        k = k + 1;
    }
    proof {
        let cs = char_spans(s@, spans@);
        let rv = r@.map_values(|p: (usize, usize)| (p.0 as int, p.1 as int));
        assert(rv =~= cs);
        assert forall|m: int, n: int| 0 <= m < n < cs.len() implies (#[trigger] cs[m]).1 <= (
        #[trigger] cs[n]).0 by {
            assert(r@[m].1 <= r@[n].0);
        }
    }
    r
}

/// Where the piece before match `k` starts: the end of match `k - 1`, or 0.
pub open spec fn prev_end(cs: Seq<(int, int)>, k: int) -> int {
    if k <= 0 {
        0
    } else {
        cs[k - 1].1
    }
}

/// The text cut at the first `n` matches: for each match, the piece before
/// it (false) and the match itself (true).
pub open spec fn segments_upto(s: Seq<char>, cs: Seq<(int, int)>, n: int) -> Seq<(bool, Seq<char>)>
    decreases n,
{
    if n <= 0 {
        Seq::empty()
    } else {
        segments_upto(s, cs, n - 1).push((false, s.subrange(prev_end(cs, n - 1), cs[n - 1].0))).push(
            (true, s.subrange(cs[n - 1].0, cs[n - 1].1)),
        )
    }
}

/// The text cut at all the matches, ending with the piece after the last
/// one.
pub open spec fn segments(s: Seq<char>, cs: Seq<(int, int)>) -> Seq<(bool, Seq<char>)> {
    segments_upto(s, cs, cs.len() as int).push(
        (false, s.subrange(prev_end(cs, cs.len() as int), s.len() as int)),
    )
}

pub open spec fn segment_views(v: Seq<(bool, Vec<char>)>) -> Seq<(bool, Seq<char>)> {
    v.map_values(|p: (bool, Vec<char>)| (p.0, p.1@))
}

/// Cuts `s` at the character spans `cs` (see `segments`).
pub fn cut_segments(s: &Vec<char>, cs: &Vec<(usize, usize)>) -> (r: Vec<(bool, Vec<char>)>)
    requires
        ordered_spans(
            s@.len() as int,
            cs@.map_values(|p: (usize, usize)| (p.0 as int, p.1 as int)),
        ),
    ensures
        segment_views(r@) == segments(
            s@,
            cs@.map_values(|p: (usize, usize)| (p.0 as int, p.1 as int)),
        ),
{
    let ghost ci = cs@.map_values(|p: (usize, usize)| (p.0 as int, p.1 as int));
    let mut r: Vec<(bool, Vec<char>)> = Vec::new();
    let mut last: usize = 0;
    let mut k: usize = 0;
    while k < cs.len()
        invariant
            k <= cs@.len(),
            ci == cs@.map_values(|p: (usize, usize)| (p.0 as int, p.1 as int)),
            ordered_spans(s@.len() as int, ci),
            last as int == prev_end(ci, k as int),
            last <= s@.len(),
            k < cs@.len() ==> last <= cs@[k as int].0,
            segment_views(r@) == segments_upto(s@, ci, k as int),
        decreases cs@.len() - k,
    {
        let (start, end) = cs[k];
        assert(ci[k as int] == (start as int, end as int));
        let before = slice_to_vec(s.as_slice(), last, start);
        let m = slice_to_vec(s.as_slice(), start, end);
        let ghost old_r = r@;
        r.push((false, before));
        r.push((true, m));
        proof {
            assert(segment_views(r@) =~= segment_views(old_r).push(
                (false, s@.subrange(last as int, start as int)),
            ).push((true, s@.subrange(start as int, end as int))));
            if k + 1 < cs@.len() {
                assert(ci[k as int].1 <= ci[k + 1].0);
            }
        }
        last = end;
        k = k + 1;
    }
    let tail = slice_to_vec(s.as_slice(), last, s.len());
    let ghost old_r = r@;
    r.push((false, tail));
    proof {
        assert(segment_views(r@) =~= segment_views(old_r).push(
            (false, s@.subrange(last as int, s@.len() as int)),
        ));
    }
    r
}

} // verus!
