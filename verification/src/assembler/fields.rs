use vstd::prelude::*;

use crate::assembler::symbols::{is_reserved, is_reserved_word, macro_lookup, Macro};
use crate::assembler::utils::{opt_views, views};
use crate::assembler::Assembler;
use crate::text::{
    is_ascii_whitespace, is_ascii_whitespace_spec, push_char, push_str, string_of, to_ascii_uppercase,
    to_upper_spec, trim_chars, trim_seq, upper_seq,
};

verus! {

/// The first index at or after `i` whose character is not ASCII white
/// space (or the length).
pub open spec fn skip_spaces(s: Seq<char>, i: int) -> int
    decreases s.len() - i,
{
    if i < 0 || i >= s.len() {
        s.len() as int
    } else if is_ascii_whitespace_spec(s[i]) {
        skip_spaces(s, i + 1)
    } else {
        i
    }
}

/// The first index at or after `i` whose character is ASCII white space
/// (or the length).
pub open spec fn word_end(s: Seq<char>, i: int) -> int
    decreases s.len() - i,
{
    if i < 0 || i >= s.len() {
        s.len() as int
    } else if is_ascii_whitespace_spec(s[i]) {
        i
    } else {
        word_end(s, i + 1)
    }
}

/// The word from `i` to the next white space, in upper case, and the
/// position after that white space.
pub open spec fn read_word(s: Seq<char>, i: int) -> (Seq<char>, int) {
    let e = word_end(s, i);
    (upper_seq(s.subrange(i, e)), if e < s.len() { e + 1 } else { e })
}

/// Scanning operands: whether inside a quoted string, the field so far,
/// and the operands so far.
pub open spec fn operand_scan(s: Seq<char>) -> (bool, Seq<char>, Seq<Seq<char>>)
    decreases s.len(),
{
    if s.len() == 0 {
        (false, Seq::empty(), Seq::empty())
    } else {
        let (ins, field, ops) = operand_scan(s.drop_last());
        let c = s.last();
        if c == '\'' {
            (!ins, field.push(c), ops)
        } else if c == ',' && !ins {
            (ins, Seq::empty(), ops.push(trim_seq(field)))
        } else if ins {
            (ins, field.push(c), ops)
        } else {
            (ins, field.push(to_upper_spec(c)), ops)
        }
    }
}

/// The operands of a line: fields separated by commas outside quotes,
/// trimmed, in upper case outside quotes; a last field that is empty is
/// dropped.
pub open spec fn operands_of(s: Seq<char>) -> Seq<Seq<char>> {
    let (_, field, ops) = operand_scan(s);
    if field.len() > 0 {
        ops.push(trim_seq(field))
    } else {
        ops
    }
}

/// The index of the first `c` in `s`, or its length.
pub open spec fn first_index_of(s: Seq<char>, c: char) -> int
    decreases s.len(),
{
    if s.len() == 0 {
        0
    } else if s[0] == c {
        0
    } else {
        1 + first_index_of(s.drop_first(), c)
    }
}

/// The fields of a line: label, instruction (both in upper case) and
/// operands. The line is trimmed and cut at the first `;`. Its first word
/// is the instruction if it is a mnemonic, a directive or the name of a
/// macro; else it is the label and the second word, if any, the
/// instruction. Operands are read only when there is an instruction.
pub open spec fn fields_of(line: Seq<char>, macros: Seq<(String, Macro)>) -> (
    Option<Seq<char>>,
    Option<Seq<char>>,
    Option<Seq<Seq<char>>>,
) {
    let t = trim_seq(line);
    let s = t.subrange(0, first_index_of(t, ';'));
    if s.len() == 0 {
        (None, None, None)
    } else {
        let (w1, p1) = read_word(s, 0);
        if w1.len() == 0 {
            (None, None, None)
        } else if is_reserved(w1) || macro_lookup(macros, w1) is Some {
            (None, Some(w1), Some(operands_of(s.subrange(skip_spaces(s, p1), s.len() as int))))
        } else {
            let q = skip_spaces(s, p1);
            let (w2, p2) = read_word(s, q);
            if w2.len() == 0 {
                (Some(w1), None, None)
            } else {
                (
                    Some(w1),
                    Some(trim_seq(w2)),
                    Some(operands_of(s.subrange(skip_spaces(s, p2), s.len() as int))),
                )
            }
        }
    }
}

pub open spec fn opt_string(o: Option<String>) -> Option<Seq<char>> {
    match o {
        Some(s) => Some(s@),
        None => None,
    }
}

/// Whether `c` may stand in a name: a letter, a digit, `_`, `@` or `?`.
pub open spec fn is_ident_char_spec(c: char) -> bool {
    ('A' <= c && c <= 'Z') || ('a' <= c && c <= 'z') || ('0' <= c && c <= '9') || c == '_' || c
        == '@' || c == '?'
}

/// `out` followed by the pending name `token`, replaced by `value` where it
/// is `param`.
pub open spec fn flush_token(out: Seq<char>, token: Seq<char>, param: Seq<char>, value: Seq<char>) -> Seq<char> {
    if token.len() == 0 {
        out
    } else if token == param {
        out + value
    } else {
        out + token
    }
}

/// Replacing a parameter: the text so far, the pending name, and whether
/// inside a quoted string.
pub open spec fn replace_scan(s: Seq<char>, param: Seq<char>, value: Seq<char>) -> (Seq<char>, Seq<char>, bool)
    decreases s.len(),
{
    if s.len() == 0 {
        (Seq::empty(), Seq::empty(), false)
    } else {
        let (out, token, ins) = replace_scan(s.drop_last(), param, value);
        let c = s.last();
        if c == '\'' {
            (flush_token(out, token, param, value).push(c), Seq::empty(), !ins)
        } else if ins {
            (out.push(c), token, ins)
        } else if is_ident_char_spec(c) {
            (out, token.push(c), ins)
        } else {
            (flush_token(out, token, param, value).push(c), Seq::empty(), ins)
        }
    }
}

/// `line` with every whole name equal to `param` outside quoted strings
/// replaced by `value`; an empty `param` changes nothing.
pub open spec fn replace_param(line: Seq<char>, param: Seq<char>, value: Seq<char>) -> Seq<char> {
    if param.len() == 0 {
        line
    } else {
        let (out, token, _) = replace_scan(line, param, value);
        flush_token(out, token, param, value)
    }
}

/// Appends the pending name to `out`, replaced where it is `param`.
fn flush_into(out: &mut String, token: &Vec<char>, param: &str, value: &str)
    ensures
        final(out)@ == flush_token(old(out)@, token@, param@, value@),
{
    if token.len() == 0 {
        return ;
    }
    let t = string_of(token.as_slice());
    if t == param.to_owned() {
        push_str(out, value);
    } else {
        push_str(out, t.as_str());
    }
}

impl Assembler {
    /// The first index at or after `i` that is not ASCII white space.
    fn advance_to_next_no_space_char(s: &[char], i: usize) -> (r: usize)
        requires
            i <= s@.len(),
        ensures
            r == skip_spaces(s@, i as int),
            i <= r <= s@.len(),
        decreases s@.len() - i,
    {
        if i >= s.len() {
            s.len()
        } else if is_ascii_whitespace(s[i]) {
            Self::advance_to_next_no_space_char(s, i + 1)
        } else {
            i
        }
    }

    /// The word from `i` up to white space, in upper case, and the
    /// position after that white space (see `read_word`).
    fn read_token_to_uppercase_to_nearest_space(s: &[char], i: usize) -> (r: (String, usize))
        requires
            i <= s@.len(),
        ensures
            (r.0@, r.1 as int) == read_word(s@, i as int),
            r.1 <= s@.len(),
    {
        let mut word = String::new();
        let mut j = i;
        while j < s.len() && !is_ascii_whitespace(s[j])
            invariant
                i <= j <= s@.len(),
                word@ == upper_seq(s@.subrange(i as int, j as int)),
                word_end(s@, i as int) == word_end(s@, j as int),
            decreases s@.len() - j,
        {
            push_char(&mut word, to_ascii_uppercase(s[j]));
            proof {
                assert(upper_seq(s@.subrange(i as int, j + 1)) =~= upper_seq(
                    s@.subrange(i as int, j as int),
                ).push(to_upper_spec(s@[j as int])));
            }
            j = j + 1;
        }
        if j < s.len() {
            (word, j + 1)
        } else {
            (word, j)
        }
    }

    /// The operands in `s` from `i` on (see `operands_of`).
    fn parse_operands(s: &[char], i: usize) -> (r: Vec<String>)
        requires
            i <= s@.len(),
        ensures
            views(r@) == operands_of(s@.subrange(i as int, s@.len() as int)),
    {
        let mut is_inside_string = false;
        let mut field: Vec<char> = Vec::new();
        let mut operands: Vec<String> = Vec::new();
        let mut j = i;
        while j < s.len()
            invariant
                i <= j <= s@.len(),
                operand_scan(s@.subrange(i as int, j as int)) == (
                    is_inside_string,
                    field@,
                    views(operands@),
                ),
            decreases s@.len() - j,
        {
            let c = s[j];
            proof {
                assert(s@.subrange(i as int, j + 1).drop_last() =~= s@.subrange(i as int, j as int));
            }
            let ghost before = operands@;
            if c == '\'' {
                field.push(c);
                is_inside_string = !is_inside_string;
            } else if c == ',' && !is_inside_string {
                let t = trim_chars(field.as_slice());
                operands.push(string_of(t.as_slice()));
                field = Vec::new();
                proof {
                    assert(views(operands@) =~= views(before).push(t@));
                }
            } else if is_inside_string {
                field.push(c);
            } else {
                field.push(to_ascii_uppercase(c));
            }
            j = j + 1;
        }
        if field.len() > 0 {
            let ghost before = operands@;
            let t = trim_chars(field.as_slice());
            operands.push(string_of(t.as_slice()));
            proof {
                assert(views(operands@) =~= views(before).push(t@));
            }
        }
        operands
    }

    /// Whether `c` may stand in a name (see `is_ident_char_spec`).
    fn is_ident_char(c: char) -> (r: bool)
        ensures
            r == is_ident_char_spec(c),
    {
        ('A' <= c && c <= 'Z') || ('a' <= c && c <= 'z') || ('0' <= c && c <= '9') || c == '_'
            || c == '@' || c == '?'
    }

    /// `line` with the macro parameter `param` replaced by `value` (see
    /// `replace_param`).
    pub fn replace_param_token(line: &str, param: &str, value: &str) -> (r: String)
        ensures
            r@ == replace_param(line@, param@, value@),
    {
        if param.is_empty() {
            return line.to_owned();
        }
        let chars = crate::text::chars_of(line);
        let mut out = String::new();
        let mut token: Vec<char> = Vec::new();
        let mut is_inside_string = false;
        let mut j: usize = 0;
        while j < chars.len()
            invariant
                j <= chars@.len(),
                chars@ == line@,
                replace_scan(chars@.take(j as int), param@, value@) == (
                    out@,
                    token@,
                    is_inside_string,
                ),
            decreases chars@.len() - j,
        {
            let c = chars[j];
            proof {
                assert(chars@.take(j + 1).drop_last() =~= chars@.take(j as int));
            }
            if c == '\'' {
                flush_into(&mut out, &token, param, value);
                token = Vec::new();
                push_char(&mut out, c);
                is_inside_string = !is_inside_string;
            } else if is_inside_string {
                push_char(&mut out, c);
            } else if Self::is_ident_char(c) {
                token.push(c);
            } else {
                flush_into(&mut out, &token, param, value);
                token = Vec::new();
                push_char(&mut out, c);
            }
            j = j + 1;
        }
        flush_into(&mut out, &token, param, value);
        proof {
            assert(chars@.take(chars@.len() as int) =~= chars@);
        }
        out
    }

    /// Whether the macro table has a macro named `name`.
    fn is_macro_name(&self, name: &String) -> (r: bool)
        ensures
            r == (macro_lookup(self.macros@, name@) is Some),
    {
        self.find_macro(name).is_some()
    }

    /// The fields of a line (see `fields_of`).
    pub fn fetch_fields(&self, line: &str) -> (r: (Option<String>, Option<String>, Option<Vec<String>>))
        ensures
            (opt_string(r.0), opt_string(r.1), opt_views(r.2)) == fields_of(line@, self.macros@),
    {
        let all = crate::text::chars_of(line);
        let t = trim_chars(all.as_slice());
        let mut k: usize = 0;
        proof {
            assert(t@.subrange(0, t@.len() as int) =~= t@);
        }
        while k < t.len() && t[k] != ';'
            invariant
                k <= t@.len(),
                first_index_of(t@, ';') == k + first_index_of(t@.subrange(k as int, t@.len() as int), ';'),
            decreases t@.len() - k,
        {
            proof {
                assert(t@.subrange(k as int, t@.len() as int).drop_first() =~= t@.subrange(
                    k + 1,
                    t@.len() as int,
                ));
            }
            k = k + 1;
        }
        proof {
            if k < t@.len() {
                assert(t@.subrange(k as int, t@.len() as int)[0] == ';');
            } else {
                assert(t@.subrange(k as int, t@.len() as int).len() == 0);
            }
        }
        let s = crate::text::slice_to_vec(t.as_slice(), 0, k);
        let s = s.as_slice();
        if s.len() == 0 {
            return (None, None, None);
        }
        let (w1, p1) = Self::read_token_to_uppercase_to_nearest_space(s, 0);
        if w1.as_str().is_empty() {
            return (None, None, None);
        }
        let w1c = crate::text::chars_of(w1.as_str());
        if is_reserved_word(w1c.as_slice()) || self.is_macro_name(&w1) {
            let q = Self::advance_to_next_no_space_char(s, p1);
            let ops = Self::parse_operands(s, q);
            return (None, Some(w1), Some(ops));
        }
        let q = Self::advance_to_next_no_space_char(s, p1);
        let (w2, p2) = Self::read_token_to_uppercase_to_nearest_space(s, q);
        if w2.as_str().is_empty() {
            return (Some(w1), None, None);
        }
        let w2c = crate::text::chars_of(w2.as_str());
        let w2t = trim_chars(w2c.as_slice());
        let q2 = Self::advance_to_next_no_space_char(s, p2);
        let ops = Self::parse_operands(s, q2);
        (Some(w1), Some(string_of(w2t.as_slice())), Some(ops))
    }
}

} // verus!
