use vstd::prelude::*;

use crate::assembler::errors::{
    token_error, token_error_model, InvalidTokenError, TokenErrorModel, TokenType,
};
use crate::assembler::expressions::{calc_effect, calc_outcome};
use crate::assembler::utils::{
    amount_result, byte_number_of, byte_value, opt_views, pair_result, register_result, views,
    word_value,
};
use crate::assembler::Assembler;
use crate::text::{all_ascii, chars_eq_str, chars_of, to_uppercase, unicode_upper, upper_seq};

verus! {

/// Opcodes of the instructions without operands.
pub open spec fn fixed_opcode(i: Seq<char>) -> Option<u8> {
    if i == "STC"@ {
        Some(0x37u8)
    } else if i == "CMC"@ {
        Some(0x3Fu8)
    } else if i == "CMA"@ {
        Some(0x2Fu8)
    } else if i == "DAA"@ {
        Some(0x27u8)
    } else if i == "NOP"@ {
        Some(0x00u8)
    } else if i == "RLC"@ {
        Some(0x07u8)
    } else if i == "RRC"@ {
        Some(0x0Fu8)
    } else if i == "RAL"@ {
        Some(0x17u8)
    } else if i == "RAR"@ {
        Some(0x1Fu8)
    } else if i == "XCHG"@ {
        Some(0xEBu8)
    } else if i == "XTHL"@ {
        Some(0xE3u8)
    } else if i == "SPHL"@ {
        Some(0xF9u8)
    } else if i == "PCHL"@ {
        Some(0xE9u8)
    } else if i == "RET"@ {
        Some(0xC9u8)
    } else if i == "RC"@ {
        Some(0xD8u8)
    } else if i == "RNC"@ {
        Some(0xD0u8)
    } else if i == "RZ"@ {
        Some(0xC8u8)
    } else if i == "RNZ"@ {
        Some(0xC0u8)
    } else if i == "RM"@ {
        Some(0xF8u8)
    } else if i == "RP"@ {
        Some(0xF0u8)
    } else if i == "RPE"@ {
        Some(0xE8u8)
    } else if i == "RPO"@ {
        Some(0xE0u8)
    } else if i == "EI"@ {
        Some(0xFBu8)
    } else if i == "DI"@ {
        Some(0xF3u8)
    } else if i == "HLT"@ {
        Some(0x76u8)
    } else {
        None
    }
}

/// Base opcodes of INR and DCR, whose register goes in bits 3..5.
pub open spec fn register_high_base(i: Seq<char>) -> Option<u8> {
    if i == "INR"@ {
        Some(0x04u8)
    } else if i == "DCR"@ {
        Some(0x05u8)
    } else {
        None
    }
}

/// Base opcodes of the accumulator operations on a register (bits 0..2).
pub open spec fn alu_register_base(i: Seq<char>) -> Option<u8> {
    if i == "ADD"@ {
        Some(0x80u8)
    } else if i == "ADC"@ {
        Some(0x88u8)
    } else if i == "SUB"@ {
        Some(0x90u8)
    } else if i == "SBB"@ {
        Some(0x98u8)
    } else if i == "ANA"@ {
        Some(0xA0u8)
    } else if i == "XRA"@ {
        Some(0xA8u8)
    } else if i == "ORA"@ {
        Some(0xB0u8)
    } else if i == "CMP"@ {
        Some(0xB8u8)
    } else {
        None
    }
}

/// Base opcodes of PUSH, DAD, INX and DCX, whose register pair goes in
/// bits 4..5.
pub open spec fn pair_base(i: Seq<char>) -> Option<u8> {
    if i == "PUSH"@ {
        Some(0xC5u8)
    } else if i == "DAD"@ {
        Some(0x09u8)
    } else if i == "INX"@ {
        Some(0x03u8)
    } else if i == "DCX"@ {
        Some(0x0Bu8)
    } else {
        None
    }
}

/// Opcodes of the accumulator operations with an 8-bit operand.
pub open spec fn alu_immediate_opcode(i: Seq<char>) -> Option<u8> {
    if i == "ADI"@ {
        Some(0xC6u8)
    } else if i == "ACI"@ {
        Some(0xCEu8)
    } else if i == "SUI"@ {
        Some(0xD6u8)
    } else if i == "SBI"@ {
        Some(0xDEu8)
    } else if i == "ANI"@ {
        Some(0xE6u8)
    } else if i == "XRI"@ {
        Some(0xEEu8)
    } else if i == "ORI"@ {
        Some(0xF6u8)
    } else if i == "CPI"@ {
        Some(0xFEu8)
    } else {
        None
    }
}

/// Opcodes of the instructions with a 16-bit address operand: direct
/// loads and stores, jumps and calls.
pub open spec fn address_opcode(i: Seq<char>) -> Option<u8> {
    if i == "STA"@ {
        Some(0x32u8)
    } else if i == "LDA"@ {
        Some(0x3Au8)
    } else if i == "SHLD"@ {
        Some(0x22u8)
    } else if i == "LHLD"@ {
        Some(0x2Au8)
    } else if i == "JMP"@ {
        Some(0xC3u8)
    } else if i == "JNZ"@ {
        Some(0xC2u8)
    } else if i == "JZ"@ {
        Some(0xCAu8)
    } else if i == "JNC"@ {
        Some(0xD2u8)
    } else if i == "JC"@ {
        Some(0xDAu8)
    } else if i == "JPO"@ {
        Some(0xE2u8)
    } else if i == "JPE"@ {
        Some(0xEAu8)
    } else if i == "JP"@ {
        Some(0xF2u8)
    } else if i == "JM"@ {
        Some(0xFAu8)
    } else if i == "CNZ"@ {
        Some(0xC4u8)
    } else if i == "CZ"@ {
        Some(0xCCu8)
    } else if i == "CALL"@ {
        Some(0xCDu8)
    } else if i == "CNC"@ {
        Some(0xD4u8)
    } else if i == "CC"@ {
        Some(0xDCu8)
    } else if i == "CPO"@ {
        Some(0xE4u8)
    } else if i == "CPE"@ {
        Some(0xECu8)
    } else if i == "CP"@ {
        Some(0xF4u8)
    } else if i == "CM"@ {
        Some(0xFCu8)
    } else {
        None
    }
}

/// How an instruction is encoded, before any expression is evaluated.
pub enum InstrPlan {
    /// The bytes themselves.
    Bytes(Seq<u8>),
    /// An opcode followed by the byte of an 8-bit expression.
    Imm8(u8, Seq<char>),
    /// An opcode followed by the two bytes of a 16-bit expression.
    Imm16(u8, Seq<char>),
    /// IN or OUT: an opcode followed by the byte of a port expression.
    Port(u8, Seq<char>),
}

/// The encoding plan of instruction `i` (in upper case) with its operands,
/// or the error that the first bad operand gives.
pub open spec fn instruction_plan(i: Seq<char>, ops: Option<Seq<Seq<char>>>) -> Result<InstrPlan, TokenErrorModel> {
    if fixed_opcode(i) is Some {
        Ok(InstrPlan::Bytes(seq![fixed_opcode(i)->0]))
    } else if register_high_base(i) is Some {
        match amount_result(ops, 1) {
            Err(e) => Err(e),
            Ok(o) => match register_result(o[0]) {
                Err(e) => Err(e),
                Ok(r) => Ok(InstrPlan::Bytes(seq![(register_high_base(i)->0 + 8 * r) as u8])),
            },
        }
    } else if i == "MOV"@ {
        match amount_result(ops, 2) {
            Err(e) => Err(e),
            Ok(o) => match register_result(o[0]) {
                Err(e) => Err(e),
                Ok(d) => match register_result(o[1]) {
                    Err(e) => Err(e),
                    Ok(s) => Ok(InstrPlan::Bytes(seq![(0x40 + 8 * d + s) as u8])),
                },
            },
        }
    } else if i == "STAX"@ || i == "LDAX"@ {
        match amount_result(ops, 1) {
            Err(e) => Err(e),
            Ok(o) => match pair_result(o[0]) {
                Err(e) => Err(e),
                Ok(p) => if o[0] == "BC"@ || o[0] == "B"@ || o[0] == "DE"@ || o[0] == "D"@ {
                    Ok(InstrPlan::Bytes(seq![((if i == "STAX"@ { 0x02int } else { 0x0Aint }) + 16 * p) as u8]))
                } else {
                    Err(token_error_model(TokenType::Operand, o[0], "Only BC, B, DE, D are allowed"@))
                },
            },
        }
    } else if alu_register_base(i) is Some {
        match amount_result(ops, 1) {
            Err(e) => Err(e),
            Ok(o) => match register_result(o[0]) {
                Err(e) => Err(e),
                Ok(r) => Ok(InstrPlan::Bytes(seq![(alu_register_base(i)->0 + r) as u8])),
            },
        }
    } else if pair_base(i) is Some {
        match amount_result(ops, 1) {
            Err(e) => Err(e),
            Ok(o) => match pair_result(o[0]) {
                Err(e) => Err(e),
                Ok(p) => Ok(InstrPlan::Bytes(seq![(pair_base(i)->0 + 16 * p) as u8])),
            },
        }
    } else if i == "POP"@ {
        match amount_result(ops, 1) {
            Err(e) => Err(e),
            Ok(o) => match pair_result(o[0]) {
                Err(e) => Err(e),
                Ok(p) => if o[0] == "BC"@ || o[0] == "B"@ || o[0] == "DE"@ || o[0] == "D"@ || o[0]
                    == "H"@ || o[0] == "HL"@ || o[0] == "PSW"@ {
                    Ok(InstrPlan::Bytes(seq![(0xC1 + 16 * p) as u8]))
                } else {
                    Err(token_error_model(TokenType::Operand, o[0], "Only BC, B, DE, D are allowed"@))
                },
            },
        }
    } else if i == "LXI"@ {
        match amount_result(ops, 2) {
            Err(e) => Err(e),
            Ok(o) => match pair_result(o[0]) {
                Err(e) => Err(e),
                Ok(p) => Ok(InstrPlan::Imm16((0x01 + 16 * p) as u8, o[1])),
            },
        }
    } else if i == "MVI"@ {
        match amount_result(ops, 2) {
            Err(e) => Err(e),
            Ok(o) => match register_result(o[0]) {
                Err(e) => Err(e),
                Ok(r) => Ok(InstrPlan::Imm8((0x06 + 8 * r) as u8, o[1])),
            },
        }
    } else if alu_immediate_opcode(i) is Some {
        match amount_result(ops, 1) {
            Err(e) => Err(e),
            Ok(o) => Ok(InstrPlan::Imm8(alu_immediate_opcode(i)->0, o[0])),
        }
    } else if address_opcode(i) is Some {
        match amount_result(ops, 1) {
            Err(e) => Err(e),
            Ok(o) => Ok(InstrPlan::Imm16(address_opcode(i)->0, o[0])),
        }
    } else if i == "RST"@ {
        match amount_result(ops, 1) {
            Err(e) => Err(e),
            Ok(o) => match byte_number_of(o[0]) {
                Some(x) => if x < 8 {
                    Ok(InstrPlan::Bytes(seq![(0xC7 + 8 * x) as u8]))
                } else {
                    Err(token_error_model(TokenType::Operand, o[0], "RST number is out of range"@))
                },
                None => Err(
                    token_error_model(
                        TokenType::Operand,
                        o[0],
                        "Only numeric values within u8 range are allowed"@,
                    ),
                ),
            },
        }
    } else if i == "IN"@ || i == "OUT"@ {
        match amount_result(ops, 1) {
            Err(e) => Err(e),
            Ok(o) => Ok(InstrPlan::Port(if i == "IN"@ { 0xDBu8 } else { 0xD3u8 }, o[0])),
        }
    } else {
        Err(TokenErrorModel { token: i, token_type: TokenType::Instruction, info: None })
    }
}

/// What `handle_instruction` does in state `before`, leading to `after`
/// and giving `r`.
pub open spec fn instruction_effect(
    before: Assembler,
    after: Assembler,
    instruction: Seq<char>,
    ops: Option<Seq<Seq<char>>>,
    r: Result<Vec<u8>, InvalidTokenError>,
) -> bool {
    match instruction_plan(unicode_upper(instruction), ops) {
        Err(em) => r matches Err(e) && e.model() == em && after == before,
        Ok(InstrPlan::Bytes(b)) => r matches Ok(v) && v@ == b && after == before,
        Ok(InstrPlan::Imm8(opc, ex)) => calc_effect(before, after, ex, 1, true) && match byte_value(
            calc_outcome(before, ex, true),
            ex,
        ) {
            Ok(x) => r matches Ok(v) && v@ == seq![opc, x],
            Err(em) => r matches Err(e) && e.model() == em,
        },
        Ok(InstrPlan::Imm16(opc, ex)) => calc_effect(before, after, ex, 1, true) && match word_value(
            calc_outcome(before, ex, true),
            ex,
        ) {
            Ok((lo, hi)) => r matches Ok(v) && v@ == seq![opc, lo, hi],
            Err(em) => r matches Err(e) && e.model() == em,
        },
        Ok(InstrPlan::Port(opc, ex)) => calc_effect(before, after, ex, 1, true) && match byte_value(
            calc_outcome(before, ex, true),
            ex,
        ) {
            Ok(x) => r matches Ok(v) && v@ == seq![opc, x],
            Err(_) => r matches Err(e) && e.model() == token_error_model(
                TokenType::Operand,
                ex,
                "Only numeric values within u8 range are allowed"@,
            ),
        },
    }
}

fn fixed_opcode_of(i: &[char]) -> (r: Option<u8>)
    ensures
        r == fixed_opcode(i@),
{
    if chars_eq_str(i, "STC") {
        Some(0x37)
    } else if chars_eq_str(i, "CMC") {
        Some(0x3F)
    } else if chars_eq_str(i, "CMA") {
        Some(0x2F)
    } else if chars_eq_str(i, "DAA") {
        Some(0x27)
    } else if chars_eq_str(i, "NOP") {
        Some(0x00)
    } else if chars_eq_str(i, "RLC") {
        Some(0x07)
    } else if chars_eq_str(i, "RRC") {
        Some(0x0F)
    } else if chars_eq_str(i, "RAL") {
        Some(0x17)
    } else if chars_eq_str(i, "RAR") {
        Some(0x1F)
    } else if chars_eq_str(i, "XCHG") {
        Some(0xEB)
    } else if chars_eq_str(i, "XTHL") {
        Some(0xE3)
    } else if chars_eq_str(i, "SPHL") {
        Some(0xF9)
    } else if chars_eq_str(i, "PCHL") {
        Some(0xE9)
    } else if chars_eq_str(i, "RET") {
        Some(0xC9)
    } else if chars_eq_str(i, "RC") {
        Some(0xD8)
    } else if chars_eq_str(i, "RNC") {
        Some(0xD0)
    } else if chars_eq_str(i, "RZ") {
        Some(0xC8)
    } else if chars_eq_str(i, "RNZ") {
        Some(0xC0)
    } else if chars_eq_str(i, "RM") {
        Some(0xF8)
    } else if chars_eq_str(i, "RP") {
        Some(0xF0)
    } else if chars_eq_str(i, "RPE") {
        Some(0xE8)
    } else if chars_eq_str(i, "RPO") {
        Some(0xE0)
    } else if chars_eq_str(i, "EI") {
        Some(0xFB)
    } else if chars_eq_str(i, "DI") {
        Some(0xF3)
    } else if chars_eq_str(i, "HLT") {
        Some(0x76)
    } else {
        None
    }
}

fn register_high_base_of(i: &[char]) -> (r: Option<u8>)
    ensures
        r == register_high_base(i@),
        r matches Some(b) ==> b <= 5,
{
    if chars_eq_str(i, "INR") {
        Some(0x04)
    } else if chars_eq_str(i, "DCR") {
        Some(0x05)
    } else {
        None
    }
}

fn alu_register_base_of(i: &[char]) -> (r: Option<u8>)
    ensures
        r == alu_register_base(i@),
        r matches Some(b) ==> b <= 0xB8,
{
    if chars_eq_str(i, "ADD") {
        Some(0x80)
    } else if chars_eq_str(i, "ADC") {
        Some(0x88)
    } else if chars_eq_str(i, "SUB") {
        Some(0x90)
    } else if chars_eq_str(i, "SBB") {
        Some(0x98)
    } else if chars_eq_str(i, "ANA") {
        Some(0xA0)
    } else if chars_eq_str(i, "XRA") {
        Some(0xA8)
    } else if chars_eq_str(i, "ORA") {
        Some(0xB0)
    } else if chars_eq_str(i, "CMP") {
        Some(0xB8)
    } else {
        None
    }
}

fn pair_base_of(i: &[char]) -> (r: Option<u8>)
    ensures
        r == pair_base(i@),
        r matches Some(b) ==> b <= 0xC5,
{
    if chars_eq_str(i, "PUSH") {
        Some(0xC5)
    } else if chars_eq_str(i, "DAD") {
        Some(0x09)
    } else if chars_eq_str(i, "INX") {
        Some(0x03)
    } else if chars_eq_str(i, "DCX") {
        Some(0x0B)
    } else {
        None
    }
}

fn alu_immediate_opcode_of(i: &[char]) -> (r: Option<u8>)
    ensures
        r == alu_immediate_opcode(i@),
{
    if chars_eq_str(i, "ADI") {
        Some(0xC6)
    } else if chars_eq_str(i, "ACI") {
        Some(0xCE)
    } else if chars_eq_str(i, "SUI") {
        Some(0xD6)
    } else if chars_eq_str(i, "SBI") {
        Some(0xDE)
    } else if chars_eq_str(i, "ANI") {
        Some(0xE6)
    } else if chars_eq_str(i, "XRI") {
        Some(0xEE)
    } else if chars_eq_str(i, "ORI") {
        Some(0xF6)
    } else if chars_eq_str(i, "CPI") {
        Some(0xFE)
    } else {
        None
    }
}

fn address_opcode_of(i: &[char]) -> (r: Option<u8>)
    ensures
        r == address_opcode(i@),
{
    if chars_eq_str(i, "STA") {
        Some(0x32)
    } else if chars_eq_str(i, "LDA") {
        Some(0x3A)
    } else if chars_eq_str(i, "SHLD") {
        Some(0x22)
    } else if chars_eq_str(i, "LHLD") {
        Some(0x2A)
    } else if chars_eq_str(i, "JMP") {
        Some(0xC3)
    } else if chars_eq_str(i, "JNZ") {
        Some(0xC2)
    } else if chars_eq_str(i, "JZ") {
        Some(0xCA)
    } else if chars_eq_str(i, "JNC") {
        Some(0xD2)
    } else if chars_eq_str(i, "JC") {
        Some(0xDA)
    } else if chars_eq_str(i, "JPO") {
        Some(0xE2)
    } else if chars_eq_str(i, "JPE") {
        Some(0xEA)
    } else if chars_eq_str(i, "JP") {
        Some(0xF2)
    } else if chars_eq_str(i, "JM") {
        Some(0xFA)
    } else if chars_eq_str(i, "CNZ") {
        Some(0xC4)
    } else if chars_eq_str(i, "CZ") {
        Some(0xCC)
    } else if chars_eq_str(i, "CALL") {
        Some(0xCD)
    } else if chars_eq_str(i, "CNC") {
        Some(0xD4)
    } else if chars_eq_str(i, "CC") {
        Some(0xDC)
    } else if chars_eq_str(i, "CPO") {
        Some(0xE4)
    } else if chars_eq_str(i, "CPE") {
        Some(0xEC)
    } else if chars_eq_str(i, "CP") {
        Some(0xF4)
    } else if chars_eq_str(i, "CM") {
        Some(0xFC)
    } else {
        None
    }
}

fn one_byte(b: u8) -> (v: Vec<u8>)
    ensures
        v@ == seq![b],
{
    let mut v = Vec::new();
    v.push(b);
    v
}

fn two_bytes(a: u8, b: u8) -> (v: Vec<u8>)
    ensures
        v@ == seq![a, b],
{
    let mut v = Vec::new();
    v.push(a);
    v.push(b);
    proof {
        assert(v@ =~= seq![a, b]);
    }
    v
}

fn three_bytes(a: u8, b: u8, c: u8) -> (v: Vec<u8>)
    ensures
        v@ == seq![a, b, c],
{
    let mut v = Vec::new();
    v.push(a);
    v.push(b);
    v.push(c);
    proof {
        assert(v@ =~= seq![a, b, c]);
    }
    v
}

impl Assembler {
    /// Encodes a machine instruction (its mnemonic in any case) with its
    /// operands (see `instruction_plan`). Only an instruction with an
    /// expression operand changes the state, by keeping that expression
    /// for the end when it names symbols not defined yet.
    pub fn handle_instruction(&mut self, instruction: &str, operands: &Option<Vec<String>>) -> (r: Result<Vec<u8>, InvalidTokenError>)
        ensures
            final(self).current_line == old(self).current_line,
            old(self).wf() ==> final(self).wf(),
            instruction_effect(*old(self), *final(self), instruction@, opt_views(*operands), r),
            all_ascii(instruction@) ==> unicode_upper(instruction@) == upper_seq(instruction@),
    {
        let upper = to_uppercase(instruction);
        let i = chars_of(upper.as_str());
        let i = i.as_slice();
        if let Some(op) = fixed_opcode_of(i) {
            return Ok(one_byte(op));
        }
        if let Some(base) = register_high_base_of(i) {
            let ops = Self::assert_operand_amount(operands, 1)?;
            let register = Self::parse_register(ops[0].as_str())?;
            return Ok(one_byte(base + 8 * register));
        }
        if chars_eq_str(i, "MOV") {
            let ops = Self::assert_operand_amount(operands, 2)?;
            let d = Self::parse_register(ops[0].as_str())?;
            let s = Self::parse_register(ops[1].as_str())?;
            return Ok(one_byte(0x40 + 8 * d + s));
        }
        if chars_eq_str(i, "STAX") || chars_eq_str(i, "LDAX") {
            let ops = Self::assert_operand_amount(operands, 1)?;
            let pair = Self::parse_register_pair(ops[0].as_str())?;
            let o = chars_of(ops[0].as_str());
            let o = o.as_slice();
            if !(chars_eq_str(o, "BC") || chars_eq_str(o, "B") || chars_eq_str(o, "DE")
                || chars_eq_str(o, "D")) {
                return Err(
                    token_error(ops[0].clone(), TokenType::Operand, "Only BC, B, DE, D are allowed"),
                );
            }
            let base: u8 = if chars_eq_str(i, "STAX") {
                0x02
            } else {
                0x0A
            };
            return Ok(one_byte(base + 16 * pair));
        }
        if let Some(base) = alu_register_base_of(i) {
            let ops = Self::assert_operand_amount(operands, 1)?;
            let register = Self::parse_register(ops[0].as_str())?;
            return Ok(one_byte(base + register));
        }
        if let Some(base) = pair_base_of(i) {
            let ops = Self::assert_operand_amount(operands, 1)?;
            let pair = Self::parse_register_pair(ops[0].as_str())?;
            return Ok(one_byte(base + 16 * pair));
        }
        if chars_eq_str(i, "POP") {
            let ops = Self::assert_operand_amount(operands, 1)?;
            let pair = Self::parse_register_pair(ops[0].as_str())?;
            let o = chars_of(ops[0].as_str());
            let o = o.as_slice();
            if !(chars_eq_str(o, "BC") || chars_eq_str(o, "B") || chars_eq_str(o, "DE")
                || chars_eq_str(o, "D") || chars_eq_str(o, "H") || chars_eq_str(o, "HL")
                || chars_eq_str(o, "PSW")) {
                return Err(
                    token_error(ops[0].clone(), TokenType::Operand, "Only BC, B, DE, D are allowed"),
                );
            }
            return Ok(one_byte(0xC1 + 16 * pair));
        }
        if chars_eq_str(i, "LXI") {
            let ops = Self::assert_operand_amount(operands, 2)?;
            let pair = Self::parse_register_pair(ops[0].as_str())?;
            assert(views(ops@)[1] == ops@[1]@);
            let (lo, hi) = self.parse_16bit_expr(ops[1].as_str(), 1)?;
            return Ok(three_bytes(0x01 + 16 * pair, lo, hi));
        }
        if chars_eq_str(i, "MVI") {
            let ops = Self::assert_operand_amount(operands, 2)?;
            let register = Self::parse_register(ops[0].as_str())?;
            assert(views(ops@)[1] == ops@[1]@);
            let x = self.parse_8bit_expr(ops[1].as_str(), 1)?;
            return Ok(two_bytes(0x06 + 8 * register, x));
        }
        if let Some(opcode) = alu_immediate_opcode_of(i) {
            let ops = Self::assert_operand_amount(operands, 1)?;
            let x = self.parse_8bit_expr(ops[0].as_str(), 1)?;
            return Ok(two_bytes(opcode, x));
        }
        if let Some(opcode) = address_opcode_of(i) {
            let ops = Self::assert_operand_amount(operands, 1)?;
            let (lo, hi) = self.parse_16bit_expr(ops[0].as_str(), 1)?;
            return Ok(three_bytes(opcode, lo, hi));
        }
        if chars_eq_str(i, "RST") {
            let ops = Self::assert_operand_amount(operands, 1)?;
            return match Self::parse_8bit_number(ops[0].as_str()) {
                Ok(x) => {
                    if x < 8 {
                        Ok(one_byte(0xC7 + 8 * x))
                    } else {
                        Err(
                            token_error(
                                ops[0].clone(),
                                TokenType::Operand,
                                "RST number is out of range",
                            ),
                        )
                    }
                },
                Err(_) => Err(
                    token_error(
                        ops[0].clone(),
                        TokenType::Operand,
                        "Only numeric values within u8 range are allowed",
                    ),
                ),
            };
        }
        if chars_eq_str(i, "IN") || chars_eq_str(i, "OUT") {
            let opcode: u8 = if chars_eq_str(i, "IN") {
                0xDB
            } else {
                0xD3
            };
            let ops = Self::assert_operand_amount(operands, 1)?;
            return match self.parse_8bit_expr(ops[0].as_str(), 1) {
                Ok(x) => Ok(two_bytes(opcode, x)),
                Err(_) => Err(
                    token_error(
                        ops[0].clone(),
                        TokenType::Operand,
                        "Only numeric values within u8 range are allowed",
                    ),
                ),
            };
        }
        Err(InvalidTokenError { token: upper, token_type: TokenType::Instruction, additional_info: None })
    }
}

} // verus!
