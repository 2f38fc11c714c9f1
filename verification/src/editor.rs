use vstd::prelude::*;

use crate::assembler::driver::{lines_of, split_lines};
use crate::assembler::utils::views;
use crate::assembler::numbers::{digit_value, digits_valid, digits_value};
use crate::text::{chars_of, is_whitespace_spec, trim_chars, trim_seq};

verus! {

/// The largest of the lengths `s`, or 0 for none.
pub open spec fn max_len(s: Seq<usize>) -> usize
    decreases s.len(),
{
    if s.len() == 0 {
        0
    } else {
        let m = max_len(s.drop_last());
        if s.last() > m {
            s.last()
        } else {
            m
        }
    }
}

/// `m` is the largest of `s`: no length is larger, and `m` is one of
/// them (or 0 for none).
pub open spec fn is_max_of(s: Seq<usize>, m: usize) -> bool {
    &&& forall|i: int| 0 <= i < s.len() ==> #[trigger] s[i] <= m
    &&& (s.len() == 0 && m == 0) || exists|i: int| 0 <= i < s.len() && #[trigger] s[i] == m
}

/// `max_len` is the largest of the lengths.
pub proof fn lemma_max_len(s: Seq<usize>)
    ensures
        is_max_of(s, max_len(s)),
    decreases s.len(),
{
    if s.len() > 0 {
        let t = s.drop_last();
        lemma_max_len(t);
        let m = max_len(t);
        assert forall|i: int| 0 <= i < s.len() implies #[trigger] s[i] <= max_len(s) by {
            if i < t.len() {
                assert(s[i] == t[i]);
            }
        }
        if s.last() > m {
            assert(s[s.len() - 1] == max_len(s));
        } else if t.len() == 0 {
            assert(s.len() == 1 && s[0] == s.last());
            assert(s[0] == max_len(s));
        } else {
            let k = choose|k: int| 0 <= k < t.len() && #[trigger] t[k] == m;
            assert(s[k] == t[k]);
        }
    }
}

/// Only the largest of the lengths meets `is_max_of`.
pub proof fn lemma_max_unique(s: Seq<usize>, m: usize)
    requires
        is_max_of(s, m),
    ensures
        m == max_len(s),
{
    lemma_max_len(s);
    let n = max_len(s);
    if s.len() > 0 {
        let i = choose|i: int| 0 <= i < s.len() && #[trigger] s[i] == m;
        let j = choose|j: int| 0 <= j < s.len() && #[trigger] s[j] == n;
        assert(s[i] <= n && s[j] <= m);
    }
}

/// The lengths, in characters, of the lines of the editor and the largest
/// of them.
pub struct LineCache {
    pub line_lengths: Vec<usize>,
    pub max_line_len: usize,
}

impl LineCache {
    /// The largest length is the largest of the line lengths.
    pub open spec fn wf(&self) -> bool {
        self.max_line_len == max_len(self.line_lengths@)
    }

    /// The cache for lines of the given lengths.
    pub fn from_lengths(line_lengths: Vec<usize>) -> (c: LineCache)
        ensures
            c.wf(),
            c.line_lengths@ == line_lengths@,
    {
        let mut m: usize = 0;
        let mut i: usize = 0;
        while i < line_lengths.len()
            invariant
                i <= line_lengths@.len(),
                m == max_len(line_lengths@.take(i as int)),
            decreases line_lengths@.len() - i,
        {
            proof {
                assert(line_lengths@.take(i + 1).drop_last() =~= line_lengths@.take(i as int));
            }
            if line_lengths[i] > m {
                m = line_lengths[i];
            }
            i = i + 1;
        }
        proof {
            assert(line_lengths@.take(i as int) =~= line_lengths@);
        }
        LineCache { line_lengths, max_line_len: m }
    }

    /// The cache for the lines of `text` (as `str::lines` splits it), each
    /// counted in characters.
    pub fn from_text(text: &str) -> (c: LineCache)
        ensures
            c.wf(),
            c.line_lengths@.len() == lines_of(text@).len(),
            forall|k: int|
                0 <= k < c.line_lengths@.len() ==> #[trigger] c.line_lengths@[k]
                    == lines_of(text@)[k].len(),
    {
        let lines = split_lines(text);
        let mut lengths: Vec<usize> = Vec::new();
        let mut i: usize = 0;
        while i < lines.len()
            invariant
                i <= lines@.len(),
                views(lines@) == lines_of(text@),
                lengths@.len() == i,
                forall|k: int| 0 <= k < i ==> #[trigger] lengths@[k] == lines_of(text@)[k].len(),
            decreases lines@.len() - i,
        {
            let n = chars_of(lines[i].as_str()).len();
            proof {
                assert(views(lines@)[i as int] == lines@[i as int]@);
            }
            lengths.push(n);
            i = i + 1;
        }
        proof {
            assert(views(lines@).len() == lines@.len());
        }
        LineCache::from_lengths(lengths)
    }

    /// Records that line `line` is now `new_len` characters long: the
    /// largest length grows to it, or is counted again when the line that
    /// was the longest became shorter, else stays.
    pub fn update_line(&mut self, line: usize, new_len: usize)
        requires
            old(self).wf(),
            line < old(self).line_lengths@.len(),
        ensures
            final(self).wf(),
            final(self).line_lengths@ == old(self).line_lengths@.update(line as int, new_len),
    {
        let prev_len = self.line_lengths[line];
        let ghost before = self.line_lengths@;
        self.line_lengths.set(line, new_len);
        let ghost after = self.line_lengths@;
        proof {
            lemma_max_len(before);
        }
        if new_len > self.max_line_len {
            self.max_line_len = new_len;
            proof {
                assert forall|i: int| 0 <= i < after.len() implies #[trigger] after[i] <= new_len by {
                    if i != line {
                        assert(after[i] == before[i]);
                    }
                }
                assert(after[line as int] == new_len);
                lemma_max_unique(after, new_len);
            }
        } else if prev_len == self.max_line_len && new_len < prev_len {
            let mut m: usize = 0;
            let mut i: usize = 0;
            while i < self.line_lengths.len()
                invariant
                    self.line_lengths@ == after,
                    i <= after.len(),
                    m == max_len(after.take(i as int)),
                decreases after.len() - i,
            {
                proof {
                    assert(after.take(i + 1).drop_last() =~= after.take(i as int));
                }
                if self.line_lengths[i] > m {
                    m = self.line_lengths[i];
                }
                i = i + 1;
            }
            proof {
                assert(after.take(i as int) =~= after);
            }
            self.max_line_len = m;
        } else {
            proof {
                let m = self.max_line_len;
                assert forall|i: int| 0 <= i < after.len() implies #[trigger] after[i] <= m by {
                    if i != line {
                        assert(after[i] == before[i]);
                    }
                }
                if new_len == m {
                    assert(after[line as int] == m);
                } else {
                    let k = choose|k: int| 0 <= k < before.len() && #[trigger] before[k] == m;
                    assert(k != line);
                    assert(after[k] == before[k]);
                }
                lemma_max_unique(after, m);
            }
        }
    }
}

/// The most cycles per second that the editor lets a run be limited to.
pub const EDITOR_MAX_CYCLES_LIMIT: u64 = 3000000;

/// `u64::from_str`: an optional `+` followed by at least one decimal digit,
/// whose value fits in a `u64`.
pub open spec fn parse_u64(s: Seq<char>) -> Option<u64> {
    let digits = if s.len() > 0 && s[0] == '+' {
        s.drop_first()
    } else {
        s
    };
    if digits.len() == 0 || !digits_valid(digits, 10) || digits_value(digits, 10) > u64::MAX {
        None
    } else {
        Some(digits_value(digits, 10) as u64)
    }
}

/// The speed limit typed into the field of a simulation window: no change
/// (`None`) for text that is no number; no limit for an empty field or 0;
/// otherwise the number, at most `EDITOR_MAX_CYCLES_LIMIT`. Whitespace
/// around the text is ignored.
pub open spec fn limit_from_input(input: Seq<char>) -> Option<Option<u64>> {
    let t = trim_seq(input);
    if t.len() == 0 {
        Some(None)
    } else {
        match parse_u64(t) {
            None => None,
            Some(v) => if v == 0 {
                Some(None)
            } else if v < EDITOR_MAX_CYCLES_LIMIT {
                Some(Some(v))
            } else {
                Some(Some(EDITOR_MAX_CYCLES_LIMIT))
            },
        }
    }
}

/// The value of decimal digits grows with every further digit.
proof fn lemma_decimal_prefix(s: Seq<char>, k: int)
    requires
        digits_valid(s, 10),
        0 <= k <= s.len(),
    ensures
        0 <= digits_value(s.take(k), 10) <= digits_value(s, 10),
    decreases s.len(),
{
    if s.len() > 0 {
        let t = s.drop_last();
        assert(digits_valid(t, 10)) by {
            assert forall|i: int| 0 <= i < t.len() implies digit_value(#[trigger] t[i]) < 10 by {
                assert(t[i] == s[i]);
            }
        }
        if k < s.len() {
            lemma_decimal_prefix(t, k);
            assert(t.take(k) =~= s.take(k));
        } else {
            assert(s.take(k) =~= s);
            lemma_decimal_prefix(t, t.len() as int);
            assert(t.take(t.len() as int) =~= t);
        }
        assert(digit_value(s[s.len() - 1]) < 10);
        assert(digit_value(s[s.len() - 1]) >= 0);
        let p = digits_value(t, 10);
        assert(p * 10 >= p) by (nonlinear_arith)
            requires
                p >= 0,
        ;
    } else {
        assert(s.take(k) =~= s);
    }
}

/// `u64::from_str` on characters (see `parse_u64`).
pub fn parse_u64_chars(s: &[char]) -> (r: Option<u64>)
    ensures
        r == parse_u64(s@),
{
    let start: usize = if s.len() > 0 && s[0] == '+' {
        1
    } else {
        0
    };
    let ghost digits = if s@.len() > 0 && s@[0] == '+' {
        s@.drop_first()
    } else {
        s@
    };
    if start == s.len() {
        return None;
    }
    let mut v: u64 = 0;
    let mut i: usize = start;
    while i < s.len()
        invariant
            start <= i <= s@.len(),
            digits == s@.subrange(start as int, s@.len() as int),
            digits == if s@.len() > 0 && s@[0] == '+' {
                s@.drop_first()
            } else {
                s@
            },
            digits_valid(digits.take(i - start), 10),
            v == digits_value(digits.take(i - start), 10),
        decreases s@.len() - i,
    {
        let c = s[i];
        let ghost k = i - start;
        proof {
            assert(digits[k] == c);
            assert(digits.take(k + 1).drop_last() =~= digits.take(k));
            assert(digits.take(k + 1).last() == c);
        }
        if !('0' <= c && c <= '9') {
            proof {
                assert(digit_value(c) >= 10);
                assert(!digits_valid(digits, 10));
            }
            return None;
        }
        let d = (c as u32 - 48) as u64;
        proof {
            assert(digits_valid(digits.take(k + 1), 10)) by {
                assert forall|j: int| 0 <= j < k + 1 implies digit_value(
                    #[trigger] digits.take(k + 1)[j],
                ) < 10 by {
                    if j < k {
                        assert(digits.take(k + 1)[j] == digits.take(k)[j]);
                    }
                }
            }
        }
        match v.checked_mul(10) {
            Some(t) => match t.checked_add(d) {
                Some(w) => {
                    v = w;
                },
                None => {
                    proof {
                        lemma_no_fit(digits, k + 1);
                    }
                    return None;
                },
            },
            None => {
                proof {
                    assert(digits_value(digits.take(k + 1), 10) == v * 10 + d);
                    lemma_no_fit(digits, k + 1);
                }
                return None;
            },
        }
        i = i + 1;
    }
    proof {
        assert(digits.take(i - start) =~= digits);
    }
    Some(v)
}

/// Digits whose first `k` are already too large for a `u64` are no `u64`.
proof fn lemma_no_fit(digits: Seq<char>, k: int)
    requires
        0 <= k <= digits.len(),
        digits_valid(digits.take(k), 10),
        digits_value(digits.take(k), 10) > u64::MAX,
    ensures
        !digits_valid(digits, 10) || digits_value(digits, 10) > u64::MAX,
{
    if digits_valid(digits, 10) {
        lemma_decimal_prefix(digits, k);
    }
}

/// The speed limit typed into a simulation window (see
/// `limit_from_input`).
pub fn cycles_limit_from_input(input: &str) -> (r: Option<Option<u64>>)
    ensures
        r == limit_from_input(input@),
{
    let chars = chars_of(input);
    let t = trim_chars(chars.as_slice());
    if t.len() == 0 {
        return Some(None);
    }
    match parse_u64_chars(t.as_slice()) {
        None => None,
        Some(v) => if v == 0 {
            Some(None)
        } else if v < EDITOR_MAX_CYCLES_LIMIT {
            Some(Some(v))
        } else {
            Some(Some(EDITOR_MAX_CYCLES_LIMIT))
        },
    }
}

} // verus!
