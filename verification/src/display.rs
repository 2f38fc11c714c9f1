use vstd::prelude::*;

use crate::assembler::numbers::{decimal_string, decimal_text};
use crate::assembler::symbols::keyword_in;
use crate::assembler::{DATA_STATEMENTS, INSTRUCTIONS, MEMORY_SIZE, PSEUDO_INSTRUCTIONS};
use crate::cpu::deassembler::{hex_digit, hex_digit_spec};
use crate::text::{
    byte_offset, chars_of, lemma_byte_offset_mono, lemma_byte_offset_step, lemma_byte_offset_zero,
    push_char, push_str, slice_to_vec, to_upper_chars, upper_seq, utf8_width_of,
};

verus! {

/// Bytes shown on one row of the memory view.
pub const BYTES_PER_ROW: usize = 16;

/// Upper-case hexadecimal digits of `n`, without leading zeros ("0" for 0).
pub open spec fn hex_text(n: nat) -> Seq<char>
    decreases n,
{
    if n < 16 {
        seq![hex_digit_spec(n as int)]
    } else {
        hex_text(n / 16).push(hex_digit_spec((n % 16) as int))
    }
}

/// `{:04X}`: hexadecimal digits, padded with zeros to four.
pub open spec fn hex4_text(n: nat) -> Seq<char> {
    let h = hex_text(n);
    if h.len() >= 4 {
        h
    } else {
        Seq::new((4 - h.len()) as nat, |i: int| '0') + h
    }
}

/// `{:02X}` of a byte.
pub open spec fn hex2_text(b: u8) -> Seq<char> {
    seq![hex_digit_spec(b as int / 16), hex_digit_spec(b as int % 16)]
}

/// The bytes of one row, each as two hexadecimal digits, separated by
/// spaces (a space follows each of the first fifteen of a row).
pub open spec fn row_bytes_text(chunk: Seq<u8>) -> Seq<char>
    decreases chunk.len(),
{
    if chunk.len() == 0 {
        Seq::empty()
    } else {
        let idx = chunk.len() - 1;
        row_bytes_text(chunk.drop_last()) + hex2_text(chunk.last()) + if idx + 1 < 16 {
            seq![' ']
        } else {
            Seq::empty()
        }
    }
}

/// One row of the memory view: its address, a colon, the bytes and a line
/// feed.
pub open spec fn memory_row_text(bytes: Seq<u8>, row: int) -> Seq<char> {
    let address = row * 16;
    let start = if address < bytes.len() { address } else { bytes.len() as int };
    let end = if start + 16 < bytes.len() { start + 16 } else { bytes.len() as int };
    hex4_text(address as nat) + seq![':', ' '] + row_bytes_text(bytes.subrange(start, end)) + seq!['\n']
}

/// The rows `from..to` of the memory view.
pub open spec fn memory_rows_between(bytes: Seq<u8>, from: int, to: int) -> Seq<char>
    decreases to - from,
{
    if to <= from {
        Seq::empty()
    } else {
        memory_rows_between(bytes, from, to - 1) + memory_row_text(bytes, to - 1)
    }
}

/// `row_count` rows of the memory view from row `start_row`, as far as
/// there are bytes (rows of 16 bytes, the last one possibly shorter).
pub open spec fn memory_rows_text(bytes: Seq<u8>, start_row: int, row_count: int) -> Seq<char> {
    if bytes.len() == 0 {
        Seq::empty()
    } else {
        let total: int = ((bytes.len() + 15) / 16) as int;
        let start = if start_row < total { start_row } else { total };
        let end = if start + row_count < total { start + row_count } else { total };
        memory_rows_between(bytes, start, end)
    }
}

/// Appends the hexadecimal digits of `n` (see `hex_text`).
fn push_hex(s: &mut String, n: usize)
    ensures
        final(s)@ == old(s)@ + hex_text(n as nat),
    decreases n,
{
    if n < 16 {
        push_char(s, hex_digit(n as u8));
        proof {
            assert(hex_text(n as nat) =~= seq![hex_digit_spec(n as int)]);
        }
    } else {
        push_hex(s, n / 16);
        push_char(s, hex_digit((n % 16) as u8));
        proof {
            assert(hex_text(n as nat) == hex_text((n / 16) as nat).push(hex_digit_spec((n % 16) as int)));
        }
    }
}

/// Number of hexadecimal digits of `n`.
proof fn lemma_hex_text_len(n: nat)
    ensures
        hex_text(n).len() >= 1,
    decreases n,
{
    if n >= 16 {
        lemma_hex_text_len(n / 16);
    }
}

/// Appends `{:04X}` of `n`.
fn push_hex4(s: &mut String, n: usize)
    ensures
        final(s)@ == old(s)@ + hex4_text(n as nat),
{
    let mut digits = String::new();
    push_hex(&mut digits, n);
    let d = chars_of(digits.as_str());
    proof {
        lemma_hex_text_len(n as nat);
    }
    let mut k = d.len();
    let ghost start = s@;
    while k < 4
        invariant
            d.len() <= k <= 4 || (k == d.len() && k >= 4),
            d@ == hex_text(n as nat),
            s@ == start + Seq::new((k - d.len()) as nat, |i: int| '0'),
        decreases 4 - k,
    {
        push_char(s, '0');
        proof {
            assert(s@ =~= start + Seq::new((k + 1 - d.len()) as nat, |i: int| '0'));
        }
        k = k + 1;
    }
    push_str(s, digits.as_str());
    proof {
        if d.len() >= 4 {
            assert(Seq::new(0, |i: int| '0') + d@ =~= d@);
        }
        assert(s@ =~= old(s)@ + hex4_text(n as nat));
    }
}

/// `row_count` rows of the memory view from row `start_row` (see
/// `memory_rows_text`): each row is the address of its first byte as four
/// hexadecimal digits, a colon and the row's bytes in hexadecimal.
pub fn format_memory_rows(bytes: &[u8], start_row: usize, row_count: usize) -> (s: String)
    ensures
        s@ == memory_rows_text(bytes@, start_row as int, row_count as int),
{
    let mut output = String::new();
    if bytes.len() == 0 {
        return output;
    }
    let total_rows = bytes.len() / BYTES_PER_ROW + if bytes.len() % BYTES_PER_ROW == 0 {
        0
    } else {
        1
    };
    assert(total_rows == (bytes@.len() + 15) / 16);
    let start = if start_row < total_rows {
        start_row
    } else {
        total_rows
    };
    let end = if row_count < total_rows - start {
        start + row_count
    } else {
        total_rows
    };
    let mut row = start;
    while row < end
        invariant
            start <= row <= end,
            end <= total_rows,
            total_rows == (bytes@.len() + 15) / 16,
            bytes@.len() > 0,
            bytes@.len() == bytes.len(),
            output@ == memory_rows_between(bytes@, start as int, row as int),
        decreases end - row,
    {
        assert(row * 16 < bytes@.len()) by (nonlinear_arith)
            requires
                row < (bytes@.len() + 15) / 16,
                bytes@.len() > 0,
        ;
        let address = row * 16;
        let first = if address < bytes.len() {
            address
        } else {
            bytes.len()
        };
        let last = if bytes.len() - first > BYTES_PER_ROW {
            first + BYTES_PER_ROW
        } else {
            bytes.len()
        };
        let ghost before = output@;
        push_hex4(&mut output, address);
        push_str(&mut output, ": ");
        let ghost mid = output@;
        let mut idx = first;
        while idx < last
            invariant
                first <= idx <= last,
                last <= bytes@.len(),
                last - first <= 16,
                output@ == mid + row_bytes_text(bytes@.subrange(first as int, idx as int)),
            decreases last - idx,
        {
            let value = bytes[idx];
            push_char(&mut output, hex_digit(value / 16));
            push_char(&mut output, hex_digit(value % 16));
            if idx - first + 1 < BYTES_PER_ROW {
                push_char(&mut output, ' ');
            }
            proof {
                let c = bytes@.subrange(first as int, idx + 1);
                assert(c.drop_last() =~= bytes@.subrange(first as int, idx as int));
                assert(c.last() == value);
            }
            idx = idx + 1;
        }
        push_char(&mut output, '\n');
        proof {
            reveal_strlit(": ");
            assert(output@ =~= before + memory_row_text(bytes@, row as int));
        }
        row = row + 1;
    }
    output
}

/// The eight bits of a byte, most significant first, as '1' and '0'.
pub open spec fn bin8_text(v: u8) -> Seq<char> {
    Seq::new(8, |i: int| if (v >> ((7 - i) as u8)) & 1 == 1 { '1' } else { '0' })
}

/// The bits of a byte, most significant first (see `bin8_text`).
pub fn format_bin8(value: u8) -> (s: String)
    ensures
        s@ == bin8_text(value),
{
    let mut s = String::new();
    let mut i: u8 = 0;
    while i < 8
        invariant
            i <= 8,
            s@ == bin8_text(value).take(i as int),
        decreases 8 - i,
    {
        let bit = (value >> (7 - i)) & 1;
        push_char(&mut s, if bit == 1 { '1' } else { '0' });
        proof {
            assert(bin8_text(value).take(i + 1) =~= bin8_text(value).take(i as int).push(
                bin8_text(value)[i as int],
            ));
        }
        i = i + 1;
    }
    proof {
        assert(bin8_text(value).take(8) =~= bin8_text(value));
    }
    s
}

/// The flag register as bits (see `bin8_text`).
pub fn format_flags_bin(flags: u8) -> (s: String)
    ensures
        s@ == bin8_text(flags),
{
    format_bin8(flags)
}

/// A byte as a printable ASCII character, or a space.
pub fn ascii_char(value: u8) -> (c: char)
    ensures
        c == if 0x20 <= value <= 0x7E { value as char } else { ' ' },
{
    if 0x20 <= value && value <= 0x7E {
        value as char
    } else {
        ' '
    }
}

/// The letter of a set flag, or a dot.
pub fn flag_char(bit: bool, ch: char) -> (c: char)
    ensures
        c == if bit { ch } else { '.' },
{
    if bit {
        ch
    } else {
        '.'
    }
}

/// The line numbers 1 to `n`, one per line.
pub open spec fn gutter_text(n: nat) -> Seq<char>
    decreases n,
{
    if n == 0 {
        Seq::empty()
    } else if n == 1 {
        decimal_text(1)
    } else {
        gutter_text((n - 1) as nat) + seq!['\n'] + decimal_text(n as int)
    }
}

/// The line numbers of the editor's gutter (see `gutter_text`).
pub fn build_gutter_text(line_count: usize) -> (s: String)
    ensures
        s@ == gutter_text(line_count as nat),
{
    let mut s = String::new();
    let mut i: usize = 0;
    while i < line_count
        invariant
            i <= line_count,
            s@ == gutter_text(i as nat),
        decreases line_count - i,
    {
        if i > 0 {
            push_char(&mut s, '\n');
        }
        let n = decimal_string((i + 1) as u64);
        push_str(&mut s, n.as_str());
        i = i + 1;
    }
    s
}

/// A text with each tab replaced by four spaces.
pub open spec fn expand_tabs(s: Seq<char>) -> Seq<char>
    decreases s.len(),
{
    if s.len() == 0 {
        Seq::empty()
    } else if s.last() == '\t' {
        expand_tabs(s.drop_last()) + seq![' ', ' ', ' ', ' ']
    } else {
        expand_tabs(s.drop_last()).push(s.last())
    }
}

/// Terminal output with tabs replaced by four spaces.
pub fn normalize_output_chunk(chunk: &str) -> (s: String)
    ensures
        s@ == expand_tabs(chunk@),
{
    let c = chars_of(chunk);
    let mut s = String::new();
    let mut i: usize = 0;
    while i < c.len()
        invariant
            i <= c@.len(),
            c@ == chunk@,
            s@ == expand_tabs(c@.take(i as int)),
        decreases c@.len() - i,
    {
        proof {
            assert(c@.take(i + 1).drop_last() =~= c@.take(i as int));
        }
        if c[i] == '\t' {
            push_str(&mut s, "    ");
            proof {
                reveal_strlit("    ");
            }
        } else {
            push_char(&mut s, c[i]);
        }
        i = i + 1;
    }
    proof {
        assert(c@.take(c@.len() as int) =~= c@);
    }
    s
}

/// The index of the first byte that is not zero, or the length.
pub open spec fn first_nonzero(s: Seq<u8>) -> int
    decreases s.len(),
{
    if s.len() == 0 {
        0
    } else if s[0] != 0 {
        0
    } else {
        1 + first_nonzero(s.drop_first())
    }
}

/// `dest` with the part of `src` from its first to its last byte that is
/// not zero copied in at the same place; nothing when `src` is all zeros.
pub open spec fn copy_nonzero_span(src: Seq<u8>, dest: Seq<u8>) -> Seq<u8> {
    Seq::new(
        dest.len(),
        |j: int|
            if 0 <= j < src.len() && exists|a: int, b: int|
                0 <= a <= j <= b < src.len() && src[a] != 0 && src[b] != 0 {
                src[j]
            } else {
                dest[j]
            },
    )
}

/// The message for a program larger than memory.
pub open spec fn too_large_message(src_len: nat, dest_len: nat) -> Seq<char> {
    "Źródło ("@ + decimal_text(src_len as int) + ") jest większe niż pamięć ("@ + decimal_text(
        dest_len as int,
    ) + ")"@
}

/// Copies into `dest` the part of `src` between its first and last bytes
/// that are not zero, at the same offsets (see `copy_nonzero_span`); a
/// `src` longer than `dest` is an error and changes nothing.
pub fn copy_trimmed_nonzero_slice(src: &[u8], dest: &mut Vec<u8>) -> (r: Result<(), String>)
    ensures
        src@.len() > old(dest)@.len() ==> (r matches Err(m) && m@ == too_large_message(
            src@.len(),
            old(dest)@.len(),
        )) && final(dest)@ == old(dest)@,
        src@.len() <= old(dest)@.len() ==> r is Ok && final(dest)@ == copy_nonzero_span(
            src@,
            old(dest)@,
        ),
{
    if src.len() > dest.len() {
        let mut m = "Źródło (".to_owned();
        push_str(&mut m, decimal_string(src.len() as u64).as_str());
        push_str(&mut m, ") jest większe niż pamięć (");
        push_str(&mut m, decimal_string(dest.len() as u64).as_str());
        push_str(&mut m, ")");
        return Err(m);
    }
    let mut start: usize = 0;
    while start < src.len() && src[start] == 0
        invariant
            start <= src@.len(),
            forall|k: int| 0 <= k < start ==> src@[k] == 0,
        decreases src@.len() - start,
    {
        start = start + 1;
    }
    if start == src.len() {
        proof {
            assert(copy_nonzero_span(src@, old(dest)@) =~= old(dest)@);
        }
        return Ok(());
    }
    let mut end: usize = src.len() - 1;
    while src[end] == 0
        invariant
            start <= end < src@.len(),
            src@[start as int] != 0,
            forall|k: int| end < k < src@.len() ==> src@[k] == 0,
        decreases end,
    {
        end = end - 1;
    }
    let mut j = start;
    while j <= end
        invariant
            start <= j <= end + 1,
            end < src@.len(),
            src@.len() <= dest@.len(),
            dest@.len() == old(dest)@.len(),
            forall|k: int| 0 <= k < start ==> src@[k] == 0,
            forall|k: int| end < k < src@.len() ==> src@[k] == 0,
            src@[start as int] != 0,
            src@[end as int] != 0,
            forall|k: int| 0 <= k < dest@.len() ==> #[trigger] dest@[k] == if start <= k < j {
                src@[k]
            } else {
                old(dest)@[k]
            },
        decreases end + 1 - j,
    {
        dest.set(j, src[j]);
        j = j + 1;
    }
    proof {
        let expected = copy_nonzero_span(src@, old(dest)@);
        assert forall|k: int| 0 <= k < dest@.len() implies dest@[k] == expected[k] by {
            if start <= k <= end {
                assert(0 <= start <= k <= end < src@.len() && src@[start as int] != 0 && src@[end as int] != 0);
            } else if 0 <= k < src@.len() {
                if exists|a: int, b: int| 0 <= a <= k <= b < src@.len() && src@[a] != 0 && src@[b] != 0 {
                    let (a, b) = choose|a: int, b: int| 0 <= a <= k <= b < src@.len() && src@[a] != 0 && src@[b] != 0;
                    assert(false);
                }
            }
        }
        assert(dest@ =~= expected);
    }
    Ok(())
}

/// The memory a run starts with: zeros, with the BIOS image (where one is
/// loaded) and then the assembled program copied in, each from its first
/// to its last byte that is not zero (see `copy_nonzero_span`).
pub open spec fn run_memory(assembled: Seq<u8>, bios: Option<Seq<u8>>) -> Seq<u8> {
    let zeros = Seq::new(MEMORY_SIZE as nat, |i: int| 0u8);
    let base = match bios {
        Some(b) => copy_nonzero_span(b, zeros),
        None => zeros,
    };
    copy_nonzero_span(assembled, base)
}

/// The memory a run starts with (see `run_memory`); a BIOS image larger
/// than memory is an error.
pub fn prepare_run_memory(assembled: &[u8; MEMORY_SIZE], bios: Option<&[u8]>) -> (r: Result<
    [u8; MEMORY_SIZE],
    String,
>)
    ensures
        match bios {
            Some(b) if b@.len() > MEMORY_SIZE => r matches Err(m) && m@ == too_large_message(
                b@.len(),
                MEMORY_SIZE as nat,
            ),
            _ => r matches Ok(m) && m@ == run_memory(
                assembled@,
                match bios {
                    Some(b) => Some(b@),
                    None => None,
                },
            ),
        },
{
    let mut memory: Vec<u8> = Vec::new();
    while memory.len() < MEMORY_SIZE
        invariant
            memory@.len() <= MEMORY_SIZE,
            forall|k: int| 0 <= k < memory@.len() ==> memory@[k] == 0,
        decreases MEMORY_SIZE - memory@.len(),
    {
        memory.push(0);
    }
    let ghost zeros = Seq::new(MEMORY_SIZE as nat, |i: int| 0u8);
    assert(memory@ =~= zeros);
    match bios {
        Some(b) => {
            match copy_trimmed_nonzero_slice(b, &mut memory) {
                Ok(()) => {},
                Err(m) => {
                    return Err(m);
                },
            }
        },
        None => {},
    }
    let ghost base = memory@;
    match copy_trimmed_nonzero_slice(assembled, &mut memory) {
        Ok(()) => {},
        Err(m) => {
            return Err(m);
        },
    }
    let mut out = [0u8; MEMORY_SIZE];
    let mut i: usize = 0;
    while i < MEMORY_SIZE
        invariant
            memory@.len() == MEMORY_SIZE,
            i <= MEMORY_SIZE,
            forall|k: int| 0 <= k < i ==> out@[k] == memory@[k],
        decreases MEMORY_SIZE - i,
    {
        out[i] = memory[i];
        i = i + 1;
    }
    assert(out@ =~= memory@);
    Ok(out)
}

/// What a word of the editor is highlighted as.
#[derive(Clone, Copy, Debug, PartialEq, Eq, Structural)]
pub enum TokenKind {
    Instruction,
    Pseudo,
    Data,
    Comment,
}

/// The kind of a word, compared without regard to ASCII case: a mnemonic,
/// a pseudo-instruction or a data statement.
pub open spec fn token_kind(token: Seq<char>) -> Option<TokenKind> {
    let u = upper_seq(token);
    if keyword_in(INSTRUCTIONS@, u) {
        Some(TokenKind::Instruction)
    } else if keyword_in(PSEUDO_INSTRUCTIONS@, u) {
        Some(TokenKind::Pseudo)
    } else if keyword_in(DATA_STATEMENTS@, u) {
        Some(TokenKind::Data)
    } else {
        None
    }
}

/// The kind of a word (see `token_kind`). The keywords are in upper case,
/// so comparing without regard to ASCII case is comparing the word in
/// upper case.
pub fn classify_token(token: &str) -> (k: Option<TokenKind>)
    ensures
        k == token_kind(token@),
{
    let t = chars_of(token);
    classify_chars(t.as_slice())
}

/// The kind of a word given by its characters (see `token_kind`).
fn classify_chars(t: &[char]) -> (k: Option<TokenKind>)
    ensures
        k == token_kind(t@),
{
    let u = to_upper_chars(t);
    let u = u.as_slice();
    if crate::assembler::symbols::list_contains(&INSTRUCTIONS, u) {
        Some(TokenKind::Instruction)
    } else if crate::assembler::symbols::list_contains(&PSEUDO_INSTRUCTIONS, u) {
        Some(TokenKind::Pseudo)
    } else if crate::assembler::symbols::list_contains(&DATA_STATEMENTS, u) {
        Some(TokenKind::Data)
    } else {
        None
    }
}

/// Whether `c` is an ASCII letter.
pub open spec fn is_ascii_letter(c: char) -> bool {
    ('A' <= c && c <= 'Z') || ('a' <= c && c <= 'z')
}

/// Whether `c` is an ASCII letter or digit.
pub open spec fn is_ascii_letter_or_digit(c: char) -> bool {
    is_ascii_letter(c) || ('0' <= c && c <= '9')
}

/// The index of the first `;` of `s` at or after `i`, or the length of `s`.
pub open spec fn comment_from(s: Seq<char>, i: int) -> int
    decreases s.len() - i,
{
    if i >= s.len() {
        s.len() as int
    } else if s[i] == ';' {
        i
    } else {
        comment_from(s, i + 1)
    }
}

/// The end of the run of ASCII letters and digits of `s` that starts at `i`.
pub open spec fn letters_end(s: Seq<char>, i: int) -> int
    decreases s.len() - i,
{
    if 0 <= i < s.len() && is_ascii_letter_or_digit(s[i]) {
        letters_end(s, i + 1)
    } else {
        i
    }
}

/// A run of letters and digits ends within `s`, not before it starts.
pub proof fn lemma_letters_end(s: Seq<char>, i: int)
    requires
        0 <= i <= s.len(),
    ensures
        i <= letters_end(s, i) <= s.len(),
    decreases s.len() - i,
{
    if i < s.len() && is_ascii_letter_or_digit(s[i]) {
        lemma_letters_end(s, i + 1);
    }
}

/// The end of the word of `s` that starts with the letter at `i`: its
/// letters and digits, then at most two colons.
pub open spec fn word_span_end(s: Seq<char>, i: int) -> int {
    let e = letters_end(s, i + 1);
    if e < s.len() && s[e] == ':' {
        if e + 1 < s.len() && s[e + 1] == ':' {
            e + 2
        } else {
            e + 1
        }
    } else {
        e
    }
}

/// The highlighted words of `code` from index `i` on, in order, as
/// character ranges with their kind: a word starts with an ASCII letter,
/// and only a mnemonic, a pseudo-instruction or a data statement is
/// highlighted.
pub open spec fn word_highlights(code: Seq<char>, i: int) -> Seq<(int, int, TokenKind)>
    decreases code.len() - i,
    when 0 <= i
{
    if i >= code.len() {
        Seq::empty()
    } else if !is_ascii_letter(code[i]) {
        word_highlights(code, i + 1)
    } else {
        let e = word_span_end(code, i);
        proof {
            lemma_letters_end(code, i + 1);
        }
        let rest = word_highlights(code, e);
        match token_kind(code.subrange(i, e)) {
            Some(k) => seq![(i, e, k)] + rest,
            None => rest,
        }
    }
}

/// The highlights of an editor line, as character ranges: the comment
/// from the first `;` to the end of the line, then the words before it.
pub open spec fn line_highlights(line: Seq<char>) -> Seq<(int, int, TokenKind)> {
    let c = comment_from(line, 0);
    if c < line.len() {
        seq![(c, line.len() as int, TokenKind::Comment)] + word_highlights(line.take(c), 0)
    } else {
        word_highlights(line, 0)
    }
}

/// `r` gives the character ranges `h` of `line` as byte ranges of its
/// UTF-8 encoding.
pub open spec fn byte_ranges_of(
    r: Seq<(core::ops::Range<usize>, TokenKind)>,
    line: Seq<char>,
    h: Seq<(int, int, TokenKind)>,
) -> bool {
    &&& r.len() == h.len()
    &&& forall|k: int|
        0 <= k < r.len() ==> {
            &&& (#[trigger] r[k]).0.start == byte_offset(line, h[k].0)
            &&& r[k].0.end == byte_offset(line, h[k].1)
            &&& r[k].1 == h[k].2
        }
}

/// The syntax highlighter of the editor: the number of the line it reads.
pub struct SyntaxHighlighter {
    pub current_line: usize,
}

impl SyntaxHighlighter {
    /// A highlighter at the first line.
    pub fn new() -> (h: Self)
        ensures
            h.current_line == 0,
    {
        SyntaxHighlighter { current_line: 0 }
    }

    /// Moves to line `line`.
    pub fn change_line(&mut self, line: usize)
        ensures
            final(self).current_line == line,
    {
        self.current_line = line;
    }

    /// The line the highlighter reads.
    pub fn current_line(&self) -> (n: usize)
        ensures
            n == self.current_line,
    {
        self.current_line
    }

    /// The highlights of `line` as byte ranges (see `line_highlights`);
    /// the highlighter moves on to the next line (the count stops at its
    /// largest value).
    pub fn highlight_line(&mut self, line: &str) -> (r: Vec<(core::ops::Range<usize>, TokenKind)>)
        ensures
            final(self).current_line == if old(self).current_line == usize::MAX {
                usize::MAX
            } else {
                (old(self).current_line + 1) as usize
            },
            byte_ranges_of(r@, line@, line_highlights(line@)),
    {
        self.current_line = self.current_line.saturating_add(1);
        let chars = chars_of(line);
        let n = chars.len();
        let ghost s = line@;
        let bytes = line.as_bytes();
        let byte_count = bytes.len();
        proof {
            assert(s.take(n as int) =~= s);
            assert(byte_offset(s, n as int) == byte_count);
        }
        let mut offsets: Vec<usize> = Vec::new();
        offsets.push(0);
        proof {
            lemma_byte_offset_zero(s);
        }
        let mut b: usize = 0;
        let mut i: usize = 0;
        while i < n
            invariant
                chars@ == s,
                n == s.len(),
                i <= n,
                byte_offset(s, n as int) <= usize::MAX,
                b == byte_offset(s, i as int),
                offsets@.len() == i + 1,
                forall|k: int| 0 <= k <= i ==> #[trigger] offsets@[k] == byte_offset(s, k),
            decreases n - i,
        {
            proof {
                lemma_byte_offset_step(s, i as int);
                if i + 1 < n {
                    lemma_byte_offset_mono(s, i + 1, n as int);
                }
            }
            b = b + utf8_width_of(chars[i]);
            offsets.push(b);
            i = i + 1;
        }
        let mut c: usize = 0;
        while c < n && chars[c] != ';'
            invariant
                chars@ == s,
                n == s.len(),
                c <= n,
                comment_from(s, 0) == comment_from(s, c as int),
            decreases n - c,
        {
            c = c + 1;
        }
        let ghost code = s.take(c as int);
        let ghost head: Seq<(int, int, TokenKind)> = Seq::empty();
        let mut out: Vec<(core::ops::Range<usize>, TokenKind)> = Vec::new();
        if c < n {
            out.push((core::ops::Range { start: offsets[c], end: offsets[n] }, TokenKind::Comment));
            proof {
                head = seq![(c as int, n as int, TokenKind::Comment)];
            }
        }
        let ghost mut done: Seq<(int, int, TokenKind)> = Seq::empty();
        let mut i: usize = 0;
        while i < c
            invariant
                chars@ == s,
                n == s.len(),
                c <= n,
                code == s.take(c as int),
                i <= c,
                offsets@.len() == n + 1,
                forall|k: int| 0 <= k <= n ==> #[trigger] offsets@[k] == byte_offset(s, k),
                done + word_highlights(code, i as int) == word_highlights(code, 0),
                byte_ranges_of(out@, s, head + done),
            decreases c - i,
        {
            if !(('A' <= chars[i] && chars[i] <= 'Z') || ('a' <= chars[i] && chars[i] <= 'z')) {
                proof {
                    assert(code[i as int] == chars@[i as int]);
                }
                i = i + 1;
            } else {
                let mut e = i + 1;
                while e < c && (('A' <= chars[e] && chars[e] <= 'Z') || ('a' <= chars[e] && chars[e]
                    <= 'z') || ('0' <= chars[e] && chars[e] <= '9'))
                    invariant
                        chars@ == s,
                        n == s.len(),
                        c <= n,
                        code == s.take(c as int),
                        i < e <= c,
                        letters_end(code, i + 1) == letters_end(code, e as int),
                    decreases c - e,
                {
                    proof {
                        assert(code[e as int] == chars@[e as int]);
                    }
                    e = e + 1;
                }
                proof {
                    if e < c {
                        assert(code[e as int] == chars@[e as int]);
                    }
                    assert(letters_end(code, e as int) == e);
                }
                if e < c && chars[e] == ':' {
                    e = e + 1;
                    if e < c && chars[e] == ':' {
                        e = e + 1;
                    }
                }
                proof {
                    assert(code[i as int] == chars@[i as int]);
                    assert(e as int == word_span_end(code, i as int));
                    lemma_letters_end(code, i + 1);
                }
                let word = slice_to_vec(chars.as_slice(), i, e);
                proof {
                    assert(word@ =~= code.subrange(i as int, e as int));
                }
                match classify_chars(word.as_slice()) {
                    Some(kind) => {
                        let ghost before = out@;
                        out.push((core::ops::Range { start: offsets[i], end: offsets[e] }, kind));
                        proof {
                            let t = (i as int, e as int, kind);
                            assert((done + seq![t]) + word_highlights(code, e as int) =~= done + (
                            seq![t] + word_highlights(code, e as int)));
                            assert((head + done).push(t) =~= head + done.push(t));
                            assert(done.push(t) =~= done + seq![t]);
                            done = done.push(t);
                            assert forall|k: int| 0 <= k < out@.len() implies {
                                &&& (#[trigger] out@[k]).0.start == byte_offset(
                                    s,
                                    (head + done)[k].0,
                                )
                                &&& out@[k].0.end == byte_offset(s, (head + done)[k].1)
                                &&& out@[k].1 == (head + done)[k].2
                            } by {
                                if k < before.len() {
                                    assert(out@[k] == before[k]);
                                }
                            }
                        }
                    },
                    None => {},
                }
                i = e;
            }
        }
        proof {
            assert(done + word_highlights(code, i as int) =~= done);
            if c < n {
                assert(line_highlights(s) == head + done);
            } else {
                assert(code =~= s);
                assert(head + done =~= done);
            }
        }
        out
    }
}

/// Where a horizontal scroll of the editor came from.
#[derive(Clone, Copy, Debug, PartialEq, Eq, Structural)]
pub enum HScrollSource {
    External,
}

/// The colour themes of the editor.
#[derive(Clone, Copy, Debug, PartialEq, Eq, Structural)]
pub enum AppTheme {
    Light,
    Dark,
    Dracula,
    Nord,
    SolarizedLight,
    SolarizedDark,
    GruvboxLight,
    GruvboxDark,
    CatppuccinLatte,
    CatppuccinFrappe,
    CatppuccinMacchiato,
    CatppuccinMocha,
    TokyoNight,
    TokyoNightStorm,
    TokyoNightLight,
    KanagawaWave,
    KanagawaDragon,
    KanagawaLotus,
    Moonfly,
    Nightfly,
    Oxocarbon,
    Ferra,
}

/// The name of a theme as the theme menu shows it.
pub open spec fn theme_label(t: AppTheme) -> Seq<char> {
    match t {
        AppTheme::Light => "Light"@,
        AppTheme::Dark => "Dark"@,
        AppTheme::Dracula => "Dracula"@,
        AppTheme::Nord => "Nord"@,
        AppTheme::SolarizedLight => "Solarized Light"@,
        AppTheme::SolarizedDark => "Solarized Dark"@,
        AppTheme::GruvboxLight => "Gruvbox Light"@,
        AppTheme::GruvboxDark => "Gruvbox Dark"@,
        AppTheme::CatppuccinLatte => "Catppuccin Latte"@,
        AppTheme::CatppuccinFrappe => "Catppuccin Frappe"@,
        AppTheme::CatppuccinMacchiato => "Catppuccin Macchiato"@,
        AppTheme::CatppuccinMocha => "Catppuccin Mocha"@,
        AppTheme::TokyoNight => "Tokyo Night"@,
        AppTheme::TokyoNightStorm => "Tokyo Night Storm"@,
        AppTheme::TokyoNightLight => "Tokyo Night Light"@,
        AppTheme::KanagawaWave => "Kanagawa Wave"@,
        AppTheme::KanagawaDragon => "Kanagawa Dragon"@,
        AppTheme::KanagawaLotus => "Kanagawa Lotus"@,
        AppTheme::Moonfly => "Moonfly"@,
        AppTheme::Nightfly => "Nightfly"@,
        AppTheme::Oxocarbon => "Oxocarbon"@,
        AppTheme::Ferra => "Ferra"@,
    }
}

impl AppTheme {
    /// The name of the theme (see `theme_label`).
    pub fn label(&self) -> (s: String)
        ensures
            s@ == theme_label(*self),
    {
        match self {
            AppTheme::Light => "Light".to_owned(),
            AppTheme::Dark => "Dark".to_owned(),
            AppTheme::Dracula => "Dracula".to_owned(),
            AppTheme::Nord => "Nord".to_owned(),
            AppTheme::SolarizedLight => "Solarized Light".to_owned(),
            AppTheme::SolarizedDark => "Solarized Dark".to_owned(),
            AppTheme::GruvboxLight => "Gruvbox Light".to_owned(),
            AppTheme::GruvboxDark => "Gruvbox Dark".to_owned(),
            AppTheme::CatppuccinLatte => "Catppuccin Latte".to_owned(),
            AppTheme::CatppuccinFrappe => "Catppuccin Frappe".to_owned(),
            AppTheme::CatppuccinMacchiato => "Catppuccin Macchiato".to_owned(),
            AppTheme::CatppuccinMocha => "Catppuccin Mocha".to_owned(),
            AppTheme::TokyoNight => "Tokyo Night".to_owned(),
            AppTheme::TokyoNightStorm => "Tokyo Night Storm".to_owned(),
            AppTheme::TokyoNightLight => "Tokyo Night Light".to_owned(),
            AppTheme::KanagawaWave => "Kanagawa Wave".to_owned(),
            AppTheme::KanagawaDragon => "Kanagawa Dragon".to_owned(),
            AppTheme::KanagawaLotus => "Kanagawa Lotus".to_owned(),
            AppTheme::Moonfly => "Moonfly".to_owned(),
            AppTheme::Nightfly => "Nightfly".to_owned(),
            AppTheme::Oxocarbon => "Oxocarbon".to_owned(),
            AppTheme::Ferra => "Ferra".to_owned(),
        }
    }
}

} // verus!
