use vstd::prelude::*;

use crate::text::push_char;

verus! {

/// Decimal digits of a natural number, most significant first.
pub open spec fn decimal_text(n: int) -> Seq<char>
    decreases n,
{
    if n < 10 {
        seq![((n + 48) as u8) as char]
    } else {
        decimal_text(n / 10) + seq![((n % 10 + 48) as u8) as char]
    }
}

/// The decimal representation of `n` (`n.to_string()`).
pub fn decimal_string(n: u64) -> (s: String)
    ensures
        s@ == decimal_text(n as int),
    decreases n,
{
    if n < 10 {
        let mut s = String::new();
        push_char(&mut s, ((n + 48) as u8) as char);
        proof {
            assert(s@ =~= decimal_text(n as int));
        }
        s
    } else {
        let mut s = decimal_string(n / 10);
        push_char(&mut s, ((n % 10 + 48) as u8) as char);
        s
    }
}

/// Value of a digit character in bases up to 36 (`char::to_digit`);
/// 36 for a character that is no digit at all.
pub open spec fn digit_value(c: char) -> int {
    if '0' <= c && c <= '9' {
        c as int - 48
    } else if 'a' <= c && c <= 'z' {
        c as int - 87
    } else if 'A' <= c && c <= 'Z' {
        c as int - 55
    } else {
        36
    }
}

pub open spec fn digits_valid(s: Seq<char>, radix: int) -> bool {
    forall|i: int| 0 <= i < s.len() ==> digit_value(#[trigger] s[i]) < radix
}

/// The number that a sequence of digits stands for in base `radix`.
pub open spec fn digits_value(s: Seq<char>, radix: int) -> int
    decreases s.len(),
{
    if s.len() == 0 {
        0
    } else {
        digits_value(s.drop_last(), radix) * radix + digit_value(s.last())
    }
}

/// `i32::from_str_radix`: an optional sign followed by at least one digit
/// of the base, whose value fits in an `i32`.
pub open spec fn unsigned_part(s: Seq<char>) -> Seq<char> {
    if s.len() > 0 && (s[0] == '+' || s[0] == '-') {
        s.drop_first()
    } else {
        s
    }
}

pub open spec fn parse_i32_radix(s: Seq<char>, radix: int) -> Option<i32> {
    if s.len() == 0 {
        None
    } else {
        let neg = s[0] == '-';
        let digits = unsigned_part(s);
        if digits.len() == 0 || !digits_valid(digits, radix) {
            None
        } else {
            let v = digits_value(digits, radix);
            if neg {
                if v <= 0x8000_0000 { Some((-v) as i32) } else { None }
            } else {
                if v <= 0x7FFF_FFFF { Some(v as i32) } else { None }
            }
        }
    }
}

pub proof fn lemma_digits_value_nonneg(s: Seq<char>, radix: int)
    requires
        2 <= radix <= 36,
        digits_valid(s, radix),
    ensures
        digits_value(s, radix) >= 0,
    decreases s.len(),
{
    if s.len() > 0 {
        assert(digits_valid(s.drop_last(), radix)) by {
            assert forall|i: int| 0 <= i < s.drop_last().len() implies digit_value(
                #[trigger] s.drop_last()[i],
            ) < radix by {
                assert(s.drop_last()[i] == s[i]);
            }
        }
        lemma_digits_value_nonneg(s.drop_last(), radix);
        assert(digit_value(s[s.len() - 1]) < radix);
        assert(digits_value(s.drop_last(), radix) * radix >= 0) by (nonlinear_arith)
            requires
                digits_value(s.drop_last(), radix) >= 0,
                radix >= 2,
        ;
    }
}

/// The value of the digits grows with every further digit.
proof fn lemma_digits_value_prefix(s: Seq<char>, k: int, radix: int)
    requires
        2 <= radix <= 36,
        digits_valid(s, radix),
        0 <= k <= s.len(),
    ensures
        digits_value(s.take(k), radix) <= digits_value(s, radix),
    decreases s.len(),
{
    if k < s.len() {
        assert(digits_valid(s.drop_last(), radix)) by {
            assert forall|i: int| 0 <= i < s.drop_last().len() implies digit_value(
                #[trigger] s.drop_last()[i],
            ) < radix by {
                assert(s.drop_last()[i] == s[i]);
            }
        }
        lemma_digits_value_prefix(s.drop_last(), k, radix);
        assert(s.drop_last().take(k) =~= s.take(k));
        lemma_digits_value_nonneg(s.drop_last(), radix);
        assert(digit_value(s[s.len() - 1]) < radix);
        let p = digits_value(s.drop_last(), radix);
        assert(p * radix >= p) by (nonlinear_arith)
            requires
                p >= 0,
                radix >= 2,
        ;
    } else {
        assert(s.take(k) =~= s);
    }
}

fn digit_of(c: char) -> (d: u32)
    ensures
        d == digit_value(c),
{
    if '0' <= c && c <= '9' {
        (c as u32) - 48
    } else if 'a' <= c && c <= 'z' {
        (c as u32) - 87
    } else if 'A' <= c && c <= 'Z' {
        (c as u32) - 55
    } else {
        36
    }
}

/// `i32::from_str_radix` on a character sequence (see `parse_i32_radix`).
pub fn from_str_radix_chars(s: &[char], radix: u32) -> (r: Option<i32>)
    requires
        2 <= radix <= 36,
    ensures
        r == parse_i32_radix(s@, radix as int),
{
    if s.len() == 0 {
        return None;
    }
    let neg = s[0] == '-';
    let start: usize = if s[0] == '+' || s[0] == '-' { 1 } else { 0 };
    let ghost digits = unsigned_part(s@);
    proof {
        assert(digits =~= s@.subrange(start as int, s@.len() as int));
    }
    if start == s.len() {
        return None;
    }
    let mut acc: u64 = 0;
    let mut i: usize = start;
    while i < s.len()
        invariant
            start <= i <= s@.len(),
            digits == s@.subrange(start as int, s@.len() as int),
            digits == unsigned_part(s@),
            2 <= radix <= 36,
            digits_valid(digits.take(i - start), radix as int),
            acc == digits_value(digits.take(i - start), radix as int),
            acc <= 0x8000_0000,
        decreases s@.len() - i,
    {
        let d = digit_of(s[i]);
        if d >= radix {
            proof {
                assert(digits[i - start] == s@[i as int]);
                assert(digit_value(digits[i - start]) >= radix);
                assert(!digits_valid(digits, radix as int));
                assert(parse_i32_radix(s@, radix as int) is None);
            }
            return None;
        }
        proof {
            assert(digits.take(i - start + 1).drop_last() =~= digits.take(i - start));
            assert(digits.take(i - start + 1).last() == s@[i as int]);
            assert(digits_valid(digits.take(i - start + 1), radix as int)) by {
                assert forall|j: int| 0 <= j < digits.take(i - start + 1).len() implies digit_value(
                    #[trigger] digits.take(i - start + 1)[j],
                ) < radix by {
                    if j < i - start {
                        assert(digits.take(i - start + 1)[j] == digits.take(i - start)[j]);
                    }
                }
            }
            assert(acc * radix <= 0x8000_0000 * 36) by (nonlinear_arith)
                requires
                    acc <= 0x8000_0000,
                    radix <= 36,
            ;
        }
        acc = acc * (radix as u64) + (d as u64);
        if acc > 0x8000_0000 {
            proof {
                // every further digit only makes the value larger
                assert(acc == digits_value(digits.take(i - start + 1), radix as int));
                if digits_valid(digits, radix as int) {
                    lemma_digits_value_prefix(digits, i - start + 1, radix as int);
                    assert(digits_value(digits, radix as int) > 0x8000_0000);
                }
                assert(parse_i32_radix(s@, radix as int) is None);
            }
            return None;
        }
        i = i + 1;
    }
    proof {
        assert(digits.take(s@.len() - start) =~= digits);
    }
    if neg {
        Some((0 - (acc as i64)) as i32)
    } else if acc <= 0x7FFF_FFFF {
        Some(acc as i32)
    } else {
        None
    }
}

} // verus!
