use vstd::prelude::*;

use crate::text::push_char;

verus! {

/// Upper-case hexadecimal digit of `n` (0..16).
pub open spec fn hex_digit_spec(n: int) -> char {
    if n < 10 {
        ((n + 48) as u8) as char
    } else {
        ((n + 55) as u8) as char
    }
}

/// `{:#04X}`: "0x" and two upper-case hexadecimal digits.
pub open spec fn imm8_text(lo: u8) -> Seq<char> {
    seq!['0', 'x', hex_digit_spec(lo as int / 16), hex_digit_spec(lo as int % 16)]
}

/// `{:#06X}` of the little-endian word (lo, hi): "0x" and four digits.
pub open spec fn imm16_text(lo: u8, hi: u8) -> Seq<char> {
    seq![
        '0',
        'x',
        hex_digit_spec(hi as int / 16),
        hex_digit_spec(hi as int % 16),
        hex_digit_spec(lo as int / 16),
        hex_digit_spec(lo as int % 16),
    ]
}

/// Register letter of operand field `r`: B, C, D, E, H, L, M, A.
pub open spec fn reg_letter(r: int) -> char {
    if r == 0 { 'B' }
    else if r == 1 { 'C' }
    else if r == 2 { 'D' }
    else if r == 3 { 'E' }
    else if r == 4 { 'H' }
    else if r == 5 { 'L' }
    else if r == 6 { 'M' }
    else { 'A' }
}

/// Mnemonic of ALU operation `k`.
pub open spec fn alu_name(k: int) -> Seq<char> {
    if k == 0 { "ADD"@ }
    else if k == 1 { "ADC"@ }
    else if k == 2 { "SUB"@ }
    else if k == 3 { "SBB"@ }
    else if k == 4 { "ANA"@ }
    else if k == 5 { "XRA"@ }
    else if k == 6 { "ORA"@ }
    else { "CMP"@ }
}

/// Assembly text of the instruction with opcode `opcode`, whose next two
/// bytes are `lo` and `hi`. Undocumented opcodes are marked with "***".
pub open spec fn deassemble_spec(opcode: u8, lo: u8, hi: u8) -> Seq<char> {
    if opcode == 0x00 { "NOP"@ }
    else if opcode == 0x01 { "LXI B,"@ + imm16_text(lo, hi) }
    else if opcode == 0x02 { "STAX B"@ }
    else if opcode == 0x03 { "INX B"@ }
    else if opcode == 0x04 { "INR B"@ }
    else if opcode == 0x05 { "DCR B"@ }
    else if opcode == 0x06 { "MVI B,"@ + imm8_text(lo) }
    else if opcode == 0x07 { "RLC"@ }
    else if opcode == 0x08 { "NOP***"@ }
    else if opcode == 0x09 { "DAD B"@ }
    else if opcode == 0x0A { "LDAX B"@ }
    else if opcode == 0x0B { "DCX B"@ }
    else if opcode == 0x0C { "INR C"@ }
    else if opcode == 0x0D { "DCR C"@ }
    else if opcode == 0x0E { "MVI C,"@ + imm8_text(lo) }
    else if opcode == 0x0F { "RRC"@ }
    else if opcode == 0x10 { "NOP***"@ }
    else if opcode == 0x11 { "LXI D,"@ + imm16_text(lo, hi) }
    else if opcode == 0x12 { "STAX D"@ }
    else if opcode == 0x13 { "INX D"@ }
    else if opcode == 0x14 { "INR D"@ }
    else if opcode == 0x15 { "DCR D"@ }
    else if opcode == 0x16 { "MVI D,"@ + imm8_text(lo) }
    else if opcode == 0x17 { "RAL"@ }
    else if opcode == 0x18 { "NOP***"@ }
    else if opcode == 0x19 { "DAD D"@ }
    else if opcode == 0x1A { "LDAX D"@ }
    else if opcode == 0x1B { "DCX D"@ }
    else if opcode == 0x1C { "INR E"@ }
    else if opcode == 0x1D { "DCR E"@ }
    else if opcode == 0x1E { "MVI E,"@ + imm8_text(lo) }
    else if opcode == 0x1F { "RAR"@ }
    else if opcode == 0x20 { "NOP***"@ }
    else if opcode == 0x21 { "LXI H,"@ + imm16_text(lo, hi) }
    else if opcode == 0x22 { "SHLD "@ + imm16_text(lo, hi) }
    else if opcode == 0x23 { "INX H"@ }
    else if opcode == 0x24 { "INR H"@ }
    else if opcode == 0x25 { "DCR H"@ }
    else if opcode == 0x26 { "MVI H,"@ + imm8_text(lo) }
    else if opcode == 0x27 { "DAA"@ }
    else if opcode == 0x28 { "NOP***"@ }
    else if opcode == 0x29 { "DAD H"@ }
    else if opcode == 0x2A { "LHLD "@ + imm16_text(lo, hi) }
    else if opcode == 0x2B { "DCX H"@ }
    else if opcode == 0x2C { "INR L"@ }
    else if opcode == 0x2D { "DCR L"@ }
    else if opcode == 0x2E { "MVI L,"@ + imm8_text(lo) }
    else if opcode == 0x2F { "CMA"@ }
    else if opcode == 0x30 { "NOP***"@ }
    else if opcode == 0x31 { "LXI SP,"@ + imm16_text(lo, hi) }
    else if opcode == 0x32 { "STA "@ + imm16_text(lo, hi) }
    else if opcode == 0x33 { "INX SP"@ }
    else if opcode == 0x34 { "INR M"@ }
    else if opcode == 0x35 { "DCR M"@ }
    else if opcode == 0x36 { "MVI M,"@ + imm8_text(lo) }
    else if opcode == 0x37 { "STC"@ }
    else if opcode == 0x38 { "NOP***"@ }
    else if opcode == 0x39 { "DAD SP"@ }
    else if opcode == 0x3A { "LDA "@ + imm16_text(lo, hi) }
    else if opcode == 0x3B { "DCX SP"@ }
    else if opcode == 0x3C { "INR A"@ }
    else if opcode == 0x3D { "DCR A"@ }
    else if opcode == 0x3E { "MVI A,"@ + imm8_text(lo) }
    else if opcode == 0x3F { "CMC"@ }
    else if opcode == 0x76 { "HLT"@ }
    else if 0x40 <= opcode <= 0x7F { "MOV "@ + seq![reg_letter((opcode as int / 8) % 8), ',', reg_letter(opcode as int % 8)] }
    else if 0x80 <= opcode <= 0xBF { alu_name((opcode as int / 8) % 8) + seq![' ', reg_letter(opcode as int % 8)] }
    else if opcode == 0xC0 { "RNZ"@ }
    else if opcode == 0xC1 { "POP B"@ }
    else if opcode == 0xC2 { "JNZ "@ + imm16_text(lo, hi) }
    else if opcode == 0xC3 { "JMP "@ + imm16_text(lo, hi) }
    else if opcode == 0xC4 { "CNZ "@ + imm16_text(lo, hi) }
    else if opcode == 0xC5 { "PUSH B"@ }
    else if opcode == 0xC6 { "ADI "@ + imm8_text(lo) }
    else if opcode == 0xC7 { "RST 0"@ }
    else if opcode == 0xC8 { "RZ"@ }
    else if opcode == 0xC9 { "RET"@ }
    else if opcode == 0xCA { "JZ "@ + imm16_text(lo, hi) }
    else if opcode == 0xCB { "JMP a16*** -> NOP"@ }
    else if opcode == 0xCC { "CZ "@ + imm16_text(lo, hi) }
    else if opcode == 0xCD { "CALL "@ + imm16_text(lo, hi) }
    else if opcode == 0xCE { "ACI "@ + imm8_text(lo) }
    else if opcode == 0xCF { "RST 1"@ }
    else if opcode == 0xD0 { "RNC"@ }
    else if opcode == 0xD1 { "POP D"@ }
    else if opcode == 0xD2 { "JNC "@ + imm16_text(lo, hi) }
    else if opcode == 0xD3 { "OUT "@ + imm8_text(lo) }
    else if opcode == 0xD4 { "CNC "@ + imm16_text(lo, hi) }
    else if opcode == 0xD5 { "PUSH D"@ }
    else if opcode == 0xD6 { "SUI "@ + imm8_text(lo) }
    else if opcode == 0xD7 { "RST 2"@ }
    else if opcode == 0xD8 { "RC"@ }
    else if opcode == 0xD9 { "RET*** -> NOP"@ }
    else if opcode == 0xDA { "JC "@ + imm16_text(lo, hi) }
    else if opcode == 0xDB { "IN "@ + imm8_text(lo) }
    else if opcode == 0xDC { "CC "@ + imm16_text(lo, hi) }
    else if opcode == 0xDD { "CALL*** -> NOP"@ }
    else if opcode == 0xDE { "SBI "@ + imm8_text(lo) }
    else if opcode == 0xDF { "RST 3"@ }
    else if opcode == 0xE0 { "RPO"@ }
    else if opcode == 0xE1 { "POP H"@ }
    else if opcode == 0xE2 { "JPO "@ + imm16_text(lo, hi) }
    else if opcode == 0xE3 { "XTHL"@ }
    else if opcode == 0xE4 { "CPO "@ + imm16_text(lo, hi) }
    else if opcode == 0xE5 { "PUSH H"@ }
    else if opcode == 0xE6 { "ANI "@ + imm8_text(lo) }
    else if opcode == 0xE7 { "RST 4"@ }
    else if opcode == 0xE8 { "RPE"@ }
    else if opcode == 0xE9 { "PCHL"@ }
    else if opcode == 0xEA { "JPE "@ + imm16_text(lo, hi) }
    else if opcode == 0xEB { "XCHG"@ }
    else if opcode == 0xEC { "CPE "@ + imm16_text(lo, hi) }
    else if opcode == 0xED { "CALL*** -> NOP"@ }
    else if opcode == 0xEE { "XRI "@ + imm8_text(lo) }
    else if opcode == 0xEF { "RST 5"@ }
    else if opcode == 0xF0 { "RP"@ }
    else if opcode == 0xF1 { "POP PSW"@ }
    else if opcode == 0xF2 { "JP "@ + imm16_text(lo, hi) }
    else if opcode == 0xF3 { "DI"@ }
    else if opcode == 0xF4 { "CP "@ + imm16_text(lo, hi) }
    else if opcode == 0xF5 { "PUSH PSW"@ }
    else if opcode == 0xF6 { "ORI "@ + imm8_text(lo) }
    else if opcode == 0xF7 { "RST 6"@ }
    else if opcode == 0xF8 { "RM"@ }
    else if opcode == 0xF9 { "SPHL"@ }
    else if opcode == 0xFA { "JM "@ + imm16_text(lo, hi) }
    else if opcode == 0xFB { "EI"@ }
    else if opcode == 0xFC { "CM "@ + imm16_text(lo, hi) }
    else if opcode == 0xFD { "CALL*** -> NOP"@ }
    else if opcode == 0xFE { "CPI "@ + imm8_text(lo) }
    else if opcode == 0xFF { "RST 7"@ }
    else { Seq::empty() }
}

pub fn hex_digit(n: u8) -> (c: char)
    requires
        n < 16,
    ensures
        c == hex_digit_spec(n as int),
{
    if n < 10 {
        (n + 48) as char
    } else {
        (n + 55) as char
    }
}

fn with_imm8(prefix: &str, lo: u8) -> (s: String)
    ensures
        s@ == prefix@ + imm8_text(lo),
{
    let mut s = prefix.to_owned();
    push_char(&mut s, '0');
    push_char(&mut s, 'x');
    push_char(&mut s, hex_digit(lo / 16));
    push_char(&mut s, hex_digit(lo % 16));
    proof {
        assert(s@ =~= prefix@ + imm8_text(lo));
    }
    s
}

fn with_imm16(prefix: &str, lo: u8, hi: u8) -> (s: String)
    ensures
        s@ == prefix@ + imm16_text(lo, hi),
{
    let mut s = prefix.to_owned();
    push_char(&mut s, '0');
    push_char(&mut s, 'x');
    push_char(&mut s, hex_digit(hi / 16));
    push_char(&mut s, hex_digit(hi % 16));
    push_char(&mut s, hex_digit(lo / 16));
    push_char(&mut s, hex_digit(lo % 16));
    proof {
        assert(s@ =~= prefix@ + imm16_text(lo, hi));
    }
    s
}

fn reg_char(r: u8) -> (c: char)
    requires
        r < 8,
    ensures
        c == reg_letter(r as int),
{
    match r {
        0 => 'B',
        1 => 'C',
        2 => 'D',
        3 => 'E',
        4 => 'H',
        5 => 'L',
        6 => 'M',
        _ => 'A',
    }
}

fn mov_text(opcode: u8) -> (s: String)
    requires
        0x40 <= opcode <= 0x7F,
    ensures
        s@ == "MOV "@ + seq![reg_letter((opcode as int / 8) % 8), ',', reg_letter(opcode as int % 8)],
{
    let mut s = "MOV ".to_owned();
    push_char(&mut s, reg_char((opcode / 8) % 8));
    push_char(&mut s, ',');
    push_char(&mut s, reg_char(opcode % 8));
    proof {
        assert(s@ =~= "MOV "@ + seq![reg_letter((opcode as int / 8) % 8), ',', reg_letter(opcode as int % 8)]);
    }
    s
}

fn alu_text(opcode: u8) -> (s: String)
    requires
        0x80 <= opcode <= 0xBF,
    ensures
        s@ == alu_name((opcode as int / 8) % 8) + seq![' ', reg_letter(opcode as int % 8)],
{
    let k = (opcode / 8) % 8;
    let mut s = match k {
        0 => "ADD".to_owned(),
        1 => "ADC".to_owned(),
        2 => "SUB".to_owned(),
        3 => "SBB".to_owned(),
        4 => "ANA".to_owned(),
        5 => "XRA".to_owned(),
        6 => "ORA".to_owned(),
        _ => "CMP".to_owned(),
    };
    push_char(&mut s, ' ');
    push_char(&mut s, reg_char(opcode % 8));
    proof {
        assert(s@ =~= alu_name((opcode as int / 8) % 8) + seq![' ', reg_letter(opcode as int % 8)]);
    }
    s
}

/// The assembly text of an instruction (see `deassemble_spec`).
pub fn deassemble(opcode: u8, lo: u8, hi: u8) -> (s: String)
    ensures
        s@ == deassemble_spec(opcode, lo, hi),
{
    match opcode {
        0x00 => "NOP".to_owned(),
        0x01 => with_imm16("LXI B,", lo, hi),
        0x02 => "STAX B".to_owned(),
        0x03 => "INX B".to_owned(),
        0x04 => "INR B".to_owned(),
        0x05 => "DCR B".to_owned(),
        0x06 => with_imm8("MVI B,", lo),
        0x07 => "RLC".to_owned(),
        0x08 => "NOP***".to_owned(),
        0x09 => "DAD B".to_owned(),
        0x0A => "LDAX B".to_owned(),
        0x0B => "DCX B".to_owned(),
        0x0C => "INR C".to_owned(),
        0x0D => "DCR C".to_owned(),
        0x0E => with_imm8("MVI C,", lo),
        0x0F => "RRC".to_owned(),
        0x10 => "NOP***".to_owned(),
        0x11 => with_imm16("LXI D,", lo, hi),
        0x12 => "STAX D".to_owned(),
        0x13 => "INX D".to_owned(),
        0x14 => "INR D".to_owned(),
        0x15 => "DCR D".to_owned(),
        0x16 => with_imm8("MVI D,", lo),
        0x17 => "RAL".to_owned(),
        0x18 => "NOP***".to_owned(),
        0x19 => "DAD D".to_owned(),
        0x1A => "LDAX D".to_owned(),
        0x1B => "DCX D".to_owned(),
        0x1C => "INR E".to_owned(),
        0x1D => "DCR E".to_owned(),
        0x1E => with_imm8("MVI E,", lo),
        0x1F => "RAR".to_owned(),
        0x20 => "NOP***".to_owned(),
        0x21 => with_imm16("LXI H,", lo, hi),
        0x22 => with_imm16("SHLD ", lo, hi),
        0x23 => "INX H".to_owned(),
        0x24 => "INR H".to_owned(),
        0x25 => "DCR H".to_owned(),
        0x26 => with_imm8("MVI H,", lo),
        0x27 => "DAA".to_owned(),
        0x28 => "NOP***".to_owned(),
        0x29 => "DAD H".to_owned(),
        0x2A => with_imm16("LHLD ", lo, hi),
        0x2B => "DCX H".to_owned(),
        0x2C => "INR L".to_owned(),
        0x2D => "DCR L".to_owned(),
        0x2E => with_imm8("MVI L,", lo),
        0x2F => "CMA".to_owned(),
        0x30 => "NOP***".to_owned(),
        0x31 => with_imm16("LXI SP,", lo, hi),
        0x32 => with_imm16("STA ", lo, hi),
        0x33 => "INX SP".to_owned(),
        0x34 => "INR M".to_owned(),
        0x35 => "DCR M".to_owned(),
        0x36 => with_imm8("MVI M,", lo),
        0x37 => "STC".to_owned(),
        0x38 => "NOP***".to_owned(),
        0x39 => "DAD SP".to_owned(),
        0x3A => with_imm16("LDA ", lo, hi),
        0x3B => "DCX SP".to_owned(),
        0x3C => "INR A".to_owned(),
        0x3D => "DCR A".to_owned(),
        0x3E => with_imm8("MVI A,", lo),
        0x3F => "CMC".to_owned(),
        0x76 => "HLT".to_owned(),
        0x40..=0x7F => mov_text(opcode),
        0x80..=0xBF => alu_text(opcode),
        0xC0 => "RNZ".to_owned(),
        0xC1 => "POP B".to_owned(),
        0xC2 => with_imm16("JNZ ", lo, hi),
        0xC3 => with_imm16("JMP ", lo, hi),
        0xC4 => with_imm16("CNZ ", lo, hi),
        0xC5 => "PUSH B".to_owned(),
        0xC6 => with_imm8("ADI ", lo),
        0xC7 => "RST 0".to_owned(),
        0xC8 => "RZ".to_owned(),
        0xC9 => "RET".to_owned(),
        0xCA => with_imm16("JZ ", lo, hi),
        0xCB => "JMP a16*** -> NOP".to_owned(),
        0xCC => with_imm16("CZ ", lo, hi),
        0xCD => with_imm16("CALL ", lo, hi),
        0xCE => with_imm8("ACI ", lo),
        0xCF => "RST 1".to_owned(),
        0xD0 => "RNC".to_owned(),
        0xD1 => "POP D".to_owned(),
        0xD2 => with_imm16("JNC ", lo, hi),
        0xD3 => with_imm8("OUT ", lo),
        0xD4 => with_imm16("CNC ", lo, hi),
        0xD5 => "PUSH D".to_owned(),
        0xD6 => with_imm8("SUI ", lo),
        0xD7 => "RST 2".to_owned(),
        0xD8 => "RC".to_owned(),
        0xD9 => "RET*** -> NOP".to_owned(),
        0xDA => with_imm16("JC ", lo, hi),
        0xDB => with_imm8("IN ", lo),
        0xDC => with_imm16("CC ", lo, hi),
        0xDD => "CALL*** -> NOP".to_owned(),
        0xDE => with_imm8("SBI ", lo),
        0xDF => "RST 3".to_owned(),
        0xE0 => "RPO".to_owned(),
        0xE1 => "POP H".to_owned(),
        0xE2 => with_imm16("JPO ", lo, hi),
        0xE3 => "XTHL".to_owned(),
        0xE4 => with_imm16("CPO ", lo, hi),
        0xE5 => "PUSH H".to_owned(),
        0xE6 => with_imm8("ANI ", lo),
        0xE7 => "RST 4".to_owned(),
        0xE8 => "RPE".to_owned(),
        0xE9 => "PCHL".to_owned(),
        0xEA => with_imm16("JPE ", lo, hi),
        0xEB => "XCHG".to_owned(),
        0xEC => with_imm16("CPE ", lo, hi),
        0xED => "CALL*** -> NOP".to_owned(),
        0xEE => with_imm8("XRI ", lo),
        0xEF => "RST 5".to_owned(),
        0xF0 => "RP".to_owned(),
        0xF1 => "POP PSW".to_owned(),
        0xF2 => with_imm16("JP ", lo, hi),
        0xF3 => "DI".to_owned(),
        0xF4 => with_imm16("CP ", lo, hi),
        0xF5 => "PUSH PSW".to_owned(),
        0xF6 => with_imm8("ORI ", lo),
        0xF7 => "RST 6".to_owned(),
        0xF8 => "RM".to_owned(),
        0xF9 => "SPHL".to_owned(),
        0xFA => with_imm16("JM ", lo, hi),
        0xFB => "EI".to_owned(),
        0xFC => with_imm16("CM ", lo, hi),
        0xFD => "CALL*** -> NOP".to_owned(),
        0xFE => with_imm8("CPI ", lo),
        0xFF => "RST 7".to_owned(),
    }
}

} // verus!
