use vstd::prelude::*;

use crate::assembler::instructions::{
    address_opcode, alu_immediate_opcode, alu_register_base, fixed_opcode, instruction_plan,
    pair_base, register_high_base, InstrPlan,
};
use crate::assembler::errors::TokenErrorModel;
use crate::assembler::numbers::{
    digit_value, digits_valid, digits_value, lemma_digits_value_nonneg, parse_i32_radix, unsigned_part,
};
use crate::assembler::utils::{
    number_value, amount_result, word_bytes, byte_number_of, pair_result, pair_upper_result, register_result,
    register_upper_result,
};
use crate::assembler::directives::{dw_upto, store_values};
use crate::assembler::expressions::{
    calc_outcome, CalcOutcome,
    binary_value, eval_model, parse_expression, parse_primary, parse_rest, resolve_upto, store_word, ExprModel, Op,
    PendingModel, TokenModel,
};
use crate::text::{begins_with, unicode_upper, upper_seq};
use crate::assembler::symbols::{scope_key, symbol_check, ScopeModel, SymbolKind};
use crate::assembler::Assembler;
use crate::cpu::deassembler::{deassemble_spec, hex_digit_spec, imm16_text, imm8_text, reg_letter};

verus! {

/// An instruction without operands disassembles to its own mnemonic.
pub proof fn law_fixed_opcode_disassembles(i: Seq<char>, lo: u8, hi: u8)
    requires
        fixed_opcode(i) is Some,
    ensures
        deassemble_spec(fixed_opcode(i)->0, lo, hi) == i,
{
}

/// The byte that MOV assembles for a destination and a source register
/// disassembles to MOV with those registers.
pub proof fn law_mov_disassembles(d: int, s: int, lo: u8, hi: u8)
    requires
        0 <= d < 8,
        0 <= s < 8,
        !(d == 6 && s == 6),
    ensures
        deassemble_spec((0x40 + 8 * d + s) as u8, lo, hi) == "MOV "@ + seq![
            reg_letter(d),
            ',',
            reg_letter(s),
        ],
{
    let op = (0x40 + 8 * d + s) as u8;
    assert(op as int == 0x40 + 8 * d + s);
    assert((op as int / 8) % 8 == d);
    assert(op as int % 8 == s);
}

/// The byte that an accumulator operation on a register assembles to
/// disassembles to the same mnemonic and register.
pub proof fn law_alu_register_disassembles(i: Seq<char>, r: int, lo: u8, hi: u8)
    requires
        alu_register_base(i) is Some,
        0 <= r < 8,
    ensures
        deassemble_spec((alu_register_base(i)->0 + r) as u8, lo, hi) == i + seq![' ', reg_letter(r)],
{
    let b = alu_register_base(i)->0;
    let op = (b + r) as u8;
    assert(op as int == b + r);
    assert(op as int % 8 == r);
}

/// The opcode of an instruction with a 16-bit address (a direct load or
/// store, a jump or a call), followed by the address bytes, disassembles
/// to the mnemonic and the address.
pub proof fn law_address_instruction_disassembles(i: Seq<char>, lo: u8, hi: u8)
    requires
        address_opcode(i) is Some,
    ensures
        deassemble_spec(address_opcode(i)->0, lo, hi) == i + seq![' '] + imm16_text(lo, hi),
{
    reveal_strlit("STA ");
    reveal_strlit("STA");
    reveal_strlit("LDA ");
    reveal_strlit("LDA");
    reveal_strlit("SHLD ");
    reveal_strlit("SHLD");
    reveal_strlit("LHLD ");
    reveal_strlit("LHLD");
    reveal_strlit("JMP ");
    reveal_strlit("JMP");
    reveal_strlit("JNZ ");
    reveal_strlit("JNZ");
    reveal_strlit("JZ ");
    reveal_strlit("JZ");
    reveal_strlit("JNC ");
    reveal_strlit("JNC");
    reveal_strlit("JC ");
    reveal_strlit("JC");
    reveal_strlit("JPO ");
    reveal_strlit("JPO");
    reveal_strlit("JPE ");
    reveal_strlit("JPE");
    reveal_strlit("JP ");
    reveal_strlit("JP");
    reveal_strlit("JM ");
    reveal_strlit("JM");
    reveal_strlit("CNZ ");
    reveal_strlit("CNZ");
    reveal_strlit("CZ ");
    reveal_strlit("CZ");
    reveal_strlit("CALL ");
    reveal_strlit("CALL");
    reveal_strlit("CNC ");
    reveal_strlit("CNC");
    reveal_strlit("CC ");
    reveal_strlit("CC");
    reveal_strlit("CPO ");
    reveal_strlit("CPO");
    reveal_strlit("CPE ");
    reveal_strlit("CPE");
    reveal_strlit("CP ");
    reveal_strlit("CP");
    reveal_strlit("CM ");
    reveal_strlit("CM");
}

/// The opcode of an accumulator operation with an 8-bit operand, followed
/// by the operand byte, disassembles to the mnemonic and the operand.
pub proof fn law_alu_immediate_disassembles(i: Seq<char>, lo: u8, hi: u8)
    requires
        alu_immediate_opcode(i) is Some,
    ensures
        deassemble_spec(alu_immediate_opcode(i)->0, lo, hi) == i + seq![' '] + imm8_text(lo),
{
    reveal_strlit("ADI ");
    reveal_strlit("ADI");
    reveal_strlit("ACI ");
    reveal_strlit("ACI");
    reveal_strlit("SUI ");
    reveal_strlit("SUI");
    reveal_strlit("SBI ");
    reveal_strlit("SBI");
    reveal_strlit("ANI ");
    reveal_strlit("ANI");
    reveal_strlit("XRI ");
    reveal_strlit("XRI");
    reveal_strlit("ORI ");
    reveal_strlit("ORI");
    reveal_strlit("CPI ");
    reveal_strlit("CPI");
}

/// A name in use in a scope cannot be defined there again, except that a
/// SET symbol may be set again by SET.
pub proof fn law_symbol_defined_once(a: Assembler, name: Seq<char>, kind: SymbolKind, scope: ScopeModel)
    requires
        a.symbol(scope_key(name, scope)) is Some,
        !(kind == SymbolKind::Variable && a.symbol(scope_key(name, scope))->0.kind
            == SymbolKind::Variable),
    ensures
        symbol_check(a, name, kind, scope) is Err,
{
}

/// The opcode that MVI assembles for a register, followed by the operand
/// byte, disassembles to MVI with that register and the operand.
pub proof fn law_mvi_disassembles(r: int, lo: u8, hi: u8)
    requires
        0 <= r < 8,
    ensures
        deassemble_spec((0x06 + 8 * r) as u8, lo, hi) == "MVI "@ + seq![reg_letter(r), ','] + imm8_text(lo),
{
    reveal_strlit("MVI ");
    reveal_strlit("MVI B,");
    reveal_strlit("MVI C,");
    reveal_strlit("MVI D,");
    reveal_strlit("MVI E,");
    reveal_strlit("MVI H,");
    reveal_strlit("MVI L,");
    reveal_strlit("MVI M,");
    reveal_strlit("MVI A,");
    assert("MVI "@ + seq![reg_letter(r), ','] + imm8_text(lo) =~= ("MVI "@ + seq![reg_letter(r), ',']) + imm8_text(lo));
}

/// How the disassembler names register pair `p`: B, D, H, and for the
/// fourth PSW (PUSH and POP) or SP (the others).
pub open spec fn pair_name(p: int, psw: bool) -> Seq<char> {
    if p == 0 {
        "B"@
    } else if p == 1 {
        "D"@
    } else if p == 2 {
        "H"@
    } else if psw {
        "PSW"@
    } else {
        "SP"@
    }
}

proof fn lemma_pair_names()
    ensures
        pair_name(0, false) == seq!['B'],
        pair_name(1, false) == seq!['D'],
        pair_name(2, false) == seq!['H'],
        pair_name(3, false) == seq!['S', 'P'],
        pair_name(0, true) == seq!['B'],
        pair_name(1, true) == seq!['D'],
        pair_name(2, true) == seq!['H'],
        pair_name(3, true) == seq!['P', 'S', 'W'],
{
    reveal_strlit("B");
    reveal_strlit("D");
    reveal_strlit("H");
    reveal_strlit("SP");
    reveal_strlit("PSW");
}

/// The opcode that INR or DCR assembles for a register disassembles to
/// the same mnemonic and register.
pub proof fn law_inr_dcr_disassembles(i: Seq<char>, r: int, lo: u8, hi: u8)
    requires
        register_high_base(i) is Some,
        0 <= r < 8,
    ensures
        deassemble_spec((register_high_base(i)->0 + 8 * r) as u8, lo, hi) == i + seq![' ', reg_letter(r)],
{
    reveal_strlit("INR");
    reveal_strlit("DCR");
    reveal_strlit("INR B");
    reveal_strlit("INR C");
    reveal_strlit("INR D");
    reveal_strlit("INR E");
    reveal_strlit("INR H");
    reveal_strlit("INR L");
    reveal_strlit("INR M");
    reveal_strlit("INR A");
    reveal_strlit("DCR B");
    reveal_strlit("DCR C");
    reveal_strlit("DCR D");
    reveal_strlit("DCR E");
    reveal_strlit("DCR H");
    reveal_strlit("DCR L");
    reveal_strlit("DCR M");
    reveal_strlit("DCR A");
}

/// The opcode that LXI assembles for a register pair, followed by the two
/// bytes of the word, disassembles to LXI with that pair and the word.
pub proof fn law_lxi_disassembles(p: int, lo: u8, hi: u8)
    requires
        0 <= p < 4,
    ensures
        deassemble_spec((0x01 + 16 * p) as u8, lo, hi) == "LXI "@ + pair_name(p, false) + seq![','] + imm16_text(lo, hi),
{
    lemma_pair_names();
    reveal_strlit("LXI ");
    reveal_strlit("LXI B,");
    reveal_strlit("LXI D,");
    reveal_strlit("LXI H,");
    reveal_strlit("LXI SP,");
    assert("LXI "@ + pair_name(p, false) + seq![','] + imm16_text(lo, hi) =~= ("LXI "@ + pair_name(p, false) + seq![',']) + imm16_text(lo, hi));
}

/// The opcode that PUSH, DAD, INX or DCX assembles for a register pair
/// disassembles to the same mnemonic and pair (PSW for PUSH of the
/// fourth).
pub proof fn law_pair_instruction_disassembles(i: Seq<char>, p: int, lo: u8, hi: u8)
    requires
        pair_base(i) is Some,
        0 <= p < 4,
    ensures
        deassemble_spec((pair_base(i)->0 + 16 * p) as u8, lo, hi) == i + seq![' '] + pair_name(p, i == "PUSH"@),
{
    lemma_pair_names();
    reveal_strlit("PUSH");
    reveal_strlit("DAD");
    reveal_strlit("INX");
    reveal_strlit("DCX");
    reveal_strlit("PUSH B");
    reveal_strlit("PUSH D");
    reveal_strlit("PUSH H");
    reveal_strlit("PUSH PSW");
    reveal_strlit("DAD B");
    reveal_strlit("DAD D");
    reveal_strlit("DAD H");
    reveal_strlit("DAD SP");
    reveal_strlit("INX B");
    reveal_strlit("INX D");
    reveal_strlit("INX H");
    reveal_strlit("INX SP");
    reveal_strlit("DCX B");
    reveal_strlit("DCX D");
    reveal_strlit("DCX H");
    reveal_strlit("DCX SP");
}

/// The opcode that POP assembles for a register pair disassembles to POP
/// with that pair (PSW for the fourth).
pub proof fn law_pop_disassembles(p: int, lo: u8, hi: u8)
    requires
        0 <= p < 4,
    ensures
        deassemble_spec((0xC1 + 16 * p) as u8, lo, hi) == "POP "@ + pair_name(p, true),
{
    lemma_pair_names();
    reveal_strlit("POP ");
    reveal_strlit("POP B");
    reveal_strlit("POP D");
    reveal_strlit("POP H");
    reveal_strlit("POP PSW");
}

/// The opcode that STAX or LDAX assembles for BC or DE disassembles to the
/// same mnemonic and pair.
pub proof fn law_stax_ldax_disassembles(store: bool, p: int, lo: u8, hi: u8)
    requires
        0 <= p < 2,
    ensures
        deassemble_spec(((if store { 0x02int } else { 0x0Aint }) + 16 * p) as u8, lo, hi) == (if store {
            "STAX "@
        } else {
            "LDAX "@
        }) + pair_name(p, false),
{
    lemma_pair_names();
    reveal_strlit("STAX ");
    reveal_strlit("LDAX ");
    reveal_strlit("STAX B");
    reveal_strlit("STAX D");
    reveal_strlit("LDAX B");
    reveal_strlit("LDAX D");
}

/// The opcode that RST assembles for a vector number disassembles to RST
/// with that number.
pub proof fn law_rst_disassembles(x: int, lo: u8, hi: u8)
    requires
        0 <= x < 8,
    ensures
        deassemble_spec((0xC7 + 8 * x) as u8, lo, hi) == "RST "@ + seq![hex_digit_spec(x)],
{
    reveal_strlit("RST ");
    reveal_strlit("RST 0");
    reveal_strlit("RST 1");
    reveal_strlit("RST 2");
    reveal_strlit("RST 3");
    reveal_strlit("RST 4");
    reveal_strlit("RST 5");
    reveal_strlit("RST 6");
    reveal_strlit("RST 7");
}

/// The opcode of IN or OUT, followed by the port byte, disassembles to the
/// mnemonic and the port.
pub proof fn law_port_instruction_disassembles(input: bool, lo: u8, hi: u8)
    ensures
        deassemble_spec(if input { 0xDBu8 } else { 0xD3u8 }, lo, hi) == (if input {
            "IN "@
        } else {
            "OUT "@
        }) + imm8_text(lo),
{
}

/// The first byte of an encoding plan: the opcode.
pub open spec fn plan_opcode(p: InstrPlan) -> u8 {
    match p {
        InstrPlan::Bytes(b) => b[0],
        InstrPlan::Imm8(op, _) => op,
        InstrPlan::Imm16(op, _) => op,
        InstrPlan::Port(op, _) => op,
    }
}

/// Whether `t` ends with `e`.
pub open spec fn ends_with(t: Seq<char>, e: Seq<char>) -> bool {
    e.len() <= t.len() && t.skip(t.len() - e.len()) == e
}

proof fn lemma_text_parts(i: Seq<char>, mid: Seq<char>, e: Seq<char>)
    ensures
        begins_with(i + mid + e, i),
        ends_with(i + mid + e, e),
{
    let t = i + mid + e;
    assert(t.take(i.len() as int) =~= i);
    assert(t.skip(t.len() - e.len()) =~= e);
}


proof fn lemma_stax_ldax_operand(o: Seq<char>)
    requires
        o == "BC"@ || o == "B"@ || o == "DE"@ || o == "D"@,
        unicode_upper(o) == upper_seq(o),
    ensures
        pair_result(o) matches Ok(q) && q < 2,
{
    reveal_strlit("BC");
    reveal_strlit("B");
    reveal_strlit("DE");
    reveal_strlit("D");
    assert(upper_seq(o) =~= o);
}

/// The text that the disassembler gives for the opcode of plan `p`
/// begins with mnemonic `i` and, for an immediate operand, ends with the
/// operand bytes: one for 8-bit operands and ports, two for words.
pub open spec fn reads_back(i: Seq<char>, p: InstrPlan, lo: u8, hi: u8) -> bool {
    let t = deassemble_spec(plan_opcode(p), lo, hi);
    &&& begins_with(t, i)
    &&& (p is Imm8 || p is Port) ==> ends_with(t, imm8_text(lo))
    &&& p is Imm16 ==> ends_with(t, imm16_text(lo, hi))
}

proof fn lemma_reads_back_fixed(i: Seq<char>, ops: Option<Seq<Seq<char>>>, lo: u8, hi: u8)
    requires
        instruction_plan(i, ops) is Ok,
        !(i == "MOV"@ && instruction_plan(i, ops) == Ok::<InstrPlan, TokenErrorModel>(
            InstrPlan::Bytes(seq![0x76u8]),
        )),
        ops matches Some(o) ==> forall|k: int|
            0 <= k < o.len() ==> #[trigger] unicode_upper(o[k]) == upper_seq(o[k]),
        fixed_opcode(i) is Some,
    ensures
        reads_back(i, instruction_plan(i, ops)->Ok_0, lo, hi),
{
    law_fixed_opcode_disassembles(i, lo, hi);
    lemma_text_parts(i, Seq::empty(), Seq::empty());
    assert(i + Seq::<char>::empty() + Seq::<char>::empty() =~= i);
}

proof fn lemma_reads_back_inr_dcr(i: Seq<char>, ops: Option<Seq<Seq<char>>>, lo: u8, hi: u8)
    requires
        instruction_plan(i, ops) is Ok,
        !(i == "MOV"@ && instruction_plan(i, ops) == Ok::<InstrPlan, TokenErrorModel>(
            InstrPlan::Bytes(seq![0x76u8]),
        )),
        ops matches Some(o) ==> forall|k: int|
            0 <= k < o.len() ==> #[trigger] unicode_upper(o[k]) == upper_seq(o[k]),
        !(fixed_opcode(i) is Some),
        register_high_base(i) is Some,
    ensures
        reads_back(i, instruction_plan(i, ops)->Ok_0, lo, hi),
{
    let o = amount_result(ops, 1)->Ok_0;
    let r = register_result(o[0])->Ok_0;
    law_inr_dcr_disassembles(i, r as int, lo, hi);
    lemma_text_parts(i, seq![' ', reg_letter(r as int)], Seq::empty());
    assert(i + seq![' ', reg_letter(r as int)] + Seq::<char>::empty() =~= i + seq![' ', reg_letter(r as int)]);
}

proof fn lemma_reads_back_mov(i: Seq<char>, ops: Option<Seq<Seq<char>>>, lo: u8, hi: u8)
    requires
        instruction_plan(i, ops) is Ok,
        !(i == "MOV"@ && instruction_plan(i, ops) == Ok::<InstrPlan, TokenErrorModel>(
            InstrPlan::Bytes(seq![0x76u8]),
        )),
        ops matches Some(o) ==> forall|k: int|
            0 <= k < o.len() ==> #[trigger] unicode_upper(o[k]) == upper_seq(o[k]),
        !(fixed_opcode(i) is Some),
        !(register_high_base(i) is Some),
        i == "MOV"@,
    ensures
        reads_back(i, instruction_plan(i, ops)->Ok_0, lo, hi),
{
    reveal_strlit("MOV");
    reveal_strlit("MOV ");
    let o = amount_result(ops, 2)->Ok_0;
    let d = register_result(o[0])->Ok_0;
    let sr = register_result(o[1])->Ok_0;
    assert(!(d == 6 && sr == 6));
    law_mov_disassembles(d as int, sr as int, lo, hi);
    lemma_text_parts(i, seq![' ', reg_letter(d as int), ',', reg_letter(sr as int)], Seq::empty());
    assert("MOV "@ + seq![reg_letter(d as int), ',', reg_letter(sr as int)] =~= i + seq![' ', reg_letter(d as int), ',', reg_letter(sr as int)] + Seq::<char>::empty());
}

proof fn lemma_reads_back_stax_ldax(i: Seq<char>, ops: Option<Seq<Seq<char>>>, lo: u8, hi: u8)
    requires
        instruction_plan(i, ops) is Ok,
        !(i == "MOV"@ && instruction_plan(i, ops) == Ok::<InstrPlan, TokenErrorModel>(
            InstrPlan::Bytes(seq![0x76u8]),
        )),
        ops matches Some(o) ==> forall|k: int|
            0 <= k < o.len() ==> #[trigger] unicode_upper(o[k]) == upper_seq(o[k]),
        !(fixed_opcode(i) is Some),
        !(register_high_base(i) is Some),
        !(i == "MOV"@),
        i == "STAX"@ || i == "LDAX"@,
    ensures
        reads_back(i, instruction_plan(i, ops)->Ok_0, lo, hi),
{
    reveal_strlit("STAX");
    reveal_strlit("STAX ");
    reveal_strlit("LDAX");
    reveal_strlit("LDAX ");
    let sp = seq![' '];
    let o = amount_result(ops, 1)->Ok_0;
    assert(unicode_upper(o[0]) == upper_seq(o[0]));
    lemma_stax_ldax_operand(o[0]);
    let q = pair_result(o[0])->Ok_0;
    law_stax_ldax_disassembles(i == "STAX"@, q as int, lo, hi);
    lemma_text_parts(i, sp + pair_name(q as int, false), Seq::empty());
    assert((if i == "STAX"@ { "STAX "@ } else { "LDAX "@ }) + pair_name(q as int, false) =~= i + (sp + pair_name(q as int, false)) + Seq::<char>::empty());
}

proof fn lemma_reads_back_alu_register(i: Seq<char>, ops: Option<Seq<Seq<char>>>, lo: u8, hi: u8)
    requires
        instruction_plan(i, ops) is Ok,
        !(i == "MOV"@ && instruction_plan(i, ops) == Ok::<InstrPlan, TokenErrorModel>(
            InstrPlan::Bytes(seq![0x76u8]),
        )),
        ops matches Some(o) ==> forall|k: int|
            0 <= k < o.len() ==> #[trigger] unicode_upper(o[k]) == upper_seq(o[k]),
        !(fixed_opcode(i) is Some),
        !(register_high_base(i) is Some),
        !(i == "MOV"@),
        !(i == "STAX"@ || i == "LDAX"@),
        alu_register_base(i) is Some,
    ensures
        reads_back(i, instruction_plan(i, ops)->Ok_0, lo, hi),
{
    let o = amount_result(ops, 1)->Ok_0;
    let r = register_result(o[0])->Ok_0;
    law_alu_register_disassembles(i, r as int, lo, hi);
    lemma_text_parts(i, seq![' ', reg_letter(r as int)], Seq::empty());
    assert(i + seq![' ', reg_letter(r as int)] + Seq::<char>::empty() =~= i + seq![' ', reg_letter(r as int)]);
}

proof fn lemma_reads_back_pair(i: Seq<char>, ops: Option<Seq<Seq<char>>>, lo: u8, hi: u8)
    requires
        instruction_plan(i, ops) is Ok,
        !(i == "MOV"@ && instruction_plan(i, ops) == Ok::<InstrPlan, TokenErrorModel>(
            InstrPlan::Bytes(seq![0x76u8]),
        )),
        ops matches Some(o) ==> forall|k: int|
            0 <= k < o.len() ==> #[trigger] unicode_upper(o[k]) == upper_seq(o[k]),
        !(fixed_opcode(i) is Some),
        !(register_high_base(i) is Some),
        !(i == "MOV"@),
        !(i == "STAX"@ || i == "LDAX"@),
        !(alu_register_base(i) is Some),
        pair_base(i) is Some,
    ensures
        reads_back(i, instruction_plan(i, ops)->Ok_0, lo, hi),
{
    let sp = seq![' '];
    let o = amount_result(ops, 1)->Ok_0;
    let q = pair_result(o[0])->Ok_0;
    law_pair_instruction_disassembles(i, q as int, lo, hi);
    lemma_text_parts(i, sp + pair_name(q as int, i == "PUSH"@), Seq::empty());
    assert(i + sp + pair_name(q as int, i == "PUSH"@) =~= i + (sp + pair_name(q as int, i == "PUSH"@)) + Seq::<char>::empty());
}

proof fn lemma_reads_back_pop(i: Seq<char>, ops: Option<Seq<Seq<char>>>, lo: u8, hi: u8)
    requires
        instruction_plan(i, ops) is Ok,
        !(i == "MOV"@ && instruction_plan(i, ops) == Ok::<InstrPlan, TokenErrorModel>(
            InstrPlan::Bytes(seq![0x76u8]),
        )),
        ops matches Some(o) ==> forall|k: int|
            0 <= k < o.len() ==> #[trigger] unicode_upper(o[k]) == upper_seq(o[k]),
        !(fixed_opcode(i) is Some),
        !(register_high_base(i) is Some),
        !(i == "MOV"@),
        !(i == "STAX"@ || i == "LDAX"@),
        !(alu_register_base(i) is Some),
        !(pair_base(i) is Some),
        i == "POP"@,
    ensures
        reads_back(i, instruction_plan(i, ops)->Ok_0, lo, hi),
{
    reveal_strlit("POP");
    reveal_strlit("POP ");
    let sp = seq![' '];
    let o = amount_result(ops, 1)->Ok_0;
    let q = pair_result(o[0])->Ok_0;
    law_pop_disassembles(q as int, lo, hi);
    lemma_text_parts(i, sp + pair_name(q as int, true), Seq::empty());
    assert("POP "@ + pair_name(q as int, true) =~= i + (sp + pair_name(q as int, true)) + Seq::<char>::empty());
}

proof fn lemma_reads_back_lxi(i: Seq<char>, ops: Option<Seq<Seq<char>>>, lo: u8, hi: u8)
    requires
        instruction_plan(i, ops) is Ok,
        !(i == "MOV"@ && instruction_plan(i, ops) == Ok::<InstrPlan, TokenErrorModel>(
            InstrPlan::Bytes(seq![0x76u8]),
        )),
        ops matches Some(o) ==> forall|k: int|
            0 <= k < o.len() ==> #[trigger] unicode_upper(o[k]) == upper_seq(o[k]),
        !(fixed_opcode(i) is Some),
        !(register_high_base(i) is Some),
        !(i == "MOV"@),
        !(i == "STAX"@ || i == "LDAX"@),
        !(alu_register_base(i) is Some),
        !(pair_base(i) is Some),
        !(i == "POP"@),
        i == "LXI"@,
    ensures
        reads_back(i, instruction_plan(i, ops)->Ok_0, lo, hi),
{
    reveal_strlit("LXI");
    reveal_strlit("LXI ");
    let sp = seq![' '];
    let o = amount_result(ops, 2)->Ok_0;
    let q = pair_result(o[0])->Ok_0;
    law_lxi_disassembles(q as int, lo, hi);
    let mid = sp + pair_name(q as int, false) + seq![','];
    lemma_text_parts(i, mid, imm16_text(lo, hi));
    assert("LXI "@ + pair_name(q as int, false) + seq![','] + imm16_text(lo, hi) =~= i + mid + imm16_text(lo, hi));
}

proof fn lemma_reads_back_mvi(i: Seq<char>, ops: Option<Seq<Seq<char>>>, lo: u8, hi: u8)
    requires
        instruction_plan(i, ops) is Ok,
        !(i == "MOV"@ && instruction_plan(i, ops) == Ok::<InstrPlan, TokenErrorModel>(
            InstrPlan::Bytes(seq![0x76u8]),
        )),
        ops matches Some(o) ==> forall|k: int|
            0 <= k < o.len() ==> #[trigger] unicode_upper(o[k]) == upper_seq(o[k]),
        !(fixed_opcode(i) is Some),
        !(register_high_base(i) is Some),
        !(i == "MOV"@),
        !(i == "STAX"@ || i == "LDAX"@),
        !(alu_register_base(i) is Some),
        !(pair_base(i) is Some),
        !(i == "POP"@),
        !(i == "LXI"@),
        i == "MVI"@,
    ensures
        reads_back(i, instruction_plan(i, ops)->Ok_0, lo, hi),
{
    reveal_strlit("MVI");
    reveal_strlit("MVI ");
    let o = amount_result(ops, 2)->Ok_0;
    let r = register_result(o[0])->Ok_0;
    law_mvi_disassembles(r as int, lo, hi);
    let mid = seq![' ', reg_letter(r as int), ','];
    lemma_text_parts(i, mid, imm8_text(lo));
    assert("MVI "@ + seq![reg_letter(r as int), ','] + imm8_text(lo) =~= i + mid + imm8_text(lo));
}

proof fn lemma_reads_back_alu_immediate(i: Seq<char>, ops: Option<Seq<Seq<char>>>, lo: u8, hi: u8)
    requires
        instruction_plan(i, ops) is Ok,
        !(i == "MOV"@ && instruction_plan(i, ops) == Ok::<InstrPlan, TokenErrorModel>(
            InstrPlan::Bytes(seq![0x76u8]),
        )),
        ops matches Some(o) ==> forall|k: int|
            0 <= k < o.len() ==> #[trigger] unicode_upper(o[k]) == upper_seq(o[k]),
        !(fixed_opcode(i) is Some),
        !(register_high_base(i) is Some),
        !(i == "MOV"@),
        !(i == "STAX"@ || i == "LDAX"@),
        !(alu_register_base(i) is Some),
        !(pair_base(i) is Some),
        !(i == "POP"@),
        !(i == "LXI"@),
        !(i == "MVI"@),
        alu_immediate_opcode(i) is Some,
    ensures
        reads_back(i, instruction_plan(i, ops)->Ok_0, lo, hi),
{
    law_alu_immediate_disassembles(i, lo, hi);
    lemma_text_parts(i, seq![' '], imm8_text(lo));
}

proof fn lemma_reads_back_address(i: Seq<char>, ops: Option<Seq<Seq<char>>>, lo: u8, hi: u8)
    requires
        instruction_plan(i, ops) is Ok,
        !(i == "MOV"@ && instruction_plan(i, ops) == Ok::<InstrPlan, TokenErrorModel>(
            InstrPlan::Bytes(seq![0x76u8]),
        )),
        ops matches Some(o) ==> forall|k: int|
            0 <= k < o.len() ==> #[trigger] unicode_upper(o[k]) == upper_seq(o[k]),
        !(fixed_opcode(i) is Some),
        !(register_high_base(i) is Some),
        !(i == "MOV"@),
        !(i == "STAX"@ || i == "LDAX"@),
        !(alu_register_base(i) is Some),
        !(pair_base(i) is Some),
        !(i == "POP"@),
        !(i == "LXI"@),
        !(i == "MVI"@),
        !(alu_immediate_opcode(i) is Some),
        address_opcode(i) is Some,
    ensures
        reads_back(i, instruction_plan(i, ops)->Ok_0, lo, hi),
{
    law_address_instruction_disassembles(i, lo, hi);
    lemma_text_parts(i, seq![' '], imm16_text(lo, hi));
}

proof fn lemma_reads_back_rst(i: Seq<char>, ops: Option<Seq<Seq<char>>>, lo: u8, hi: u8)
    requires
        instruction_plan(i, ops) is Ok,
        !(i == "MOV"@ && instruction_plan(i, ops) == Ok::<InstrPlan, TokenErrorModel>(
            InstrPlan::Bytes(seq![0x76u8]),
        )),
        ops matches Some(o) ==> forall|k: int|
            0 <= k < o.len() ==> #[trigger] unicode_upper(o[k]) == upper_seq(o[k]),
        !(fixed_opcode(i) is Some),
        !(register_high_base(i) is Some),
        !(i == "MOV"@),
        !(i == "STAX"@ || i == "LDAX"@),
        !(alu_register_base(i) is Some),
        !(pair_base(i) is Some),
        !(i == "POP"@),
        !(i == "LXI"@),
        !(i == "MVI"@),
        !(alu_immediate_opcode(i) is Some),
        !(address_opcode(i) is Some),
        i == "RST"@,
    ensures
        reads_back(i, instruction_plan(i, ops)->Ok_0, lo, hi),
{
    reveal_strlit("RST");
    reveal_strlit("RST ");
    let o = amount_result(ops, 1)->Ok_0;
    let x = byte_number_of(o[0])->0;
    law_rst_disassembles(x as int, lo, hi);
    lemma_text_parts(i, seq![' ', hex_digit_spec(x as int)], Seq::empty());
    assert("RST "@ + seq![hex_digit_spec(x as int)] =~= i + seq![' ', hex_digit_spec(x as int)] + Seq::<char>::empty());
}

proof fn lemma_reads_back_port(i: Seq<char>, ops: Option<Seq<Seq<char>>>, lo: u8, hi: u8)
    requires
        instruction_plan(i, ops) is Ok,
        !(i == "MOV"@ && instruction_plan(i, ops) == Ok::<InstrPlan, TokenErrorModel>(
            InstrPlan::Bytes(seq![0x76u8]),
        )),
        ops matches Some(o) ==> forall|k: int|
            0 <= k < o.len() ==> #[trigger] unicode_upper(o[k]) == upper_seq(o[k]),
        !(fixed_opcode(i) is Some),
        !(register_high_base(i) is Some),
        !(i == "MOV"@),
        !(i == "STAX"@ || i == "LDAX"@),
        !(alu_register_base(i) is Some),
        !(pair_base(i) is Some),
        !(i == "POP"@),
        !(i == "LXI"@),
        !(i == "MVI"@),
        !(alu_immediate_opcode(i) is Some),
        !(address_opcode(i) is Some),
        !(i == "RST"@),
    ensures
        reads_back(i, instruction_plan(i, ops)->Ok_0, lo, hi),
{
    reveal_strlit("IN");
    reveal_strlit("IN ");
    reveal_strlit("OUT");
    reveal_strlit("OUT ");
    law_port_instruction_disassembles(i == "IN"@, lo, hi);
    lemma_text_parts(i, seq![' '], imm8_text(lo));
    assert((if i == "IN"@ { "IN "@ } else { "OUT "@ }) + imm8_text(lo) =~= i + seq![' '] + imm8_text(lo));
}

/// Every instruction that the assembler encodes disassembles to a text
/// that begins with its mnemonic and, where the instruction has an
/// immediate operand, ends with the operand bytes that follow the opcode:
/// one byte for 8-bit operands and ports, two for words (see
/// `reads_back`). MOV M,M is left out: its byte, 76, is HLT. The operands
/// are taken as upper-cased the ASCII way, as `to_uppercase` does for
/// ASCII text.
pub proof fn law_encoded_instruction_disassembles(
    i: Seq<char>,
    ops: Option<Seq<Seq<char>>>,
    lo: u8,
    hi: u8,
)
    requires
        instruction_plan(i, ops) is Ok,
        !(i == "MOV"@ && instruction_plan(i, ops) == Ok::<InstrPlan, TokenErrorModel>(
            InstrPlan::Bytes(seq![0x76u8]),
        )),
        ops matches Some(o) ==> forall|k: int|
            0 <= k < o.len() ==> #[trigger] unicode_upper(o[k]) == upper_seq(o[k]),
    ensures
        instruction_plan(i, ops) matches Ok(p) && reads_back(i, p, lo, hi),
{
    if fixed_opcode(i) is Some {
        lemma_reads_back_fixed(i, ops, lo, hi);
    } else if register_high_base(i) is Some {
        lemma_reads_back_inr_dcr(i, ops, lo, hi);
    } else if i == "MOV"@ {
        lemma_reads_back_mov(i, ops, lo, hi);
    } else if i == "STAX"@ || i == "LDAX"@ {
        lemma_reads_back_stax_ldax(i, ops, lo, hi);
    } else if alu_register_base(i) is Some {
        lemma_reads_back_alu_register(i, ops, lo, hi);
    } else if pair_base(i) is Some {
        lemma_reads_back_pair(i, ops, lo, hi);
    } else if i == "POP"@ {
        lemma_reads_back_pop(i, ops, lo, hi);
    } else if i == "LXI"@ {
        lemma_reads_back_lxi(i, ops, lo, hi);
    } else if i == "MVI"@ {
        lemma_reads_back_mvi(i, ops, lo, hi);
    } else if alu_immediate_opcode(i) is Some {
        lemma_reads_back_alu_immediate(i, ops, lo, hi);
    } else if address_opcode(i) is Some {
        lemma_reads_back_address(i, ops, lo, hi);
    } else if i == "RST"@ {
        lemma_reads_back_rst(i, ops, lo, hi);
    } else {
        lemma_reads_back_port(i, ops, lo, hi);
    }
}

/// The register names in the order of their codes.
pub open spec fn register_names() -> Seq<char> {
    "BCDEHLMA"@
}

/// The register names B, C, D, E, H, L, M, A are read as the register
/// codes 0 to 7 in that order, and the disassembler writes code `r` as the
/// same letter.
pub proof fn law_register_codes(r: int)
    requires
        0 <= r < 8,
    ensures
        register_upper_result(seq![register_names()[r]]) == Ok::<u8, TokenErrorModel>(r as u8),
        reg_letter(r) == register_names()[r],
{
    reveal_strlit("BCDEHLMA");
    reveal_strlit("B");
    reveal_strlit("C");
    reveal_strlit("D");
    reveal_strlit("E");
    reveal_strlit("H");
    reveal_strlit("L");
    reveal_strlit("M");
    reveal_strlit("A");
    let u = seq![register_names()[r]];
    assert(register_names()[0] == 'B' && register_names()[1] == 'C' && register_names()[2] == 'D'
        && register_names()[3] == 'E' && register_names()[4] == 'H' && register_names()[5] == 'L'
        && register_names()[6] == 'M' && register_names()[7] == 'A');
    assert("B"@[0] == 'B' && "C"@[0] == 'C' && "D"@[0] == 'D' && "E"@[0] == 'E' && "H"@[0] == 'H'
        && "L"@[0] == 'L' && "M"@[0] == 'M' && "A"@[0] == 'A');
    if r == 0 {
        assert(u =~= "B"@);
    } else if r == 1 {
        assert(u =~= "C"@);
    } else if r == 2 {
        assert(u =~= "D"@);
    } else if r == 3 {
        assert(u =~= "E"@);
    } else if r == 4 {
        assert(u =~= "H"@);
    } else if r == 5 {
        assert(u =~= "L"@);
    } else if r == 6 {
        assert(u =~= "M"@);
    } else {
        assert(u =~= "A"@);
    }
}

/// The register-pair names are read as codes: B or BC as 0, D or DE as 1,
/// H or HL as 2, SP or PSW as 3; anything else is refused.
pub proof fn law_register_pair_codes(u: Seq<char>)
    ensures
        (u == "B"@ || u == "BC"@) <==> pair_upper_result(u) == Ok::<u8, TokenErrorModel>(0),
        (u == "D"@ || u == "DE"@) <==> pair_upper_result(u) == Ok::<u8, TokenErrorModel>(1),
        (u == "H"@ || u == "HL"@) <==> pair_upper_result(u) == Ok::<u8, TokenErrorModel>(2),
        (u == "SP"@ || u == "PSW"@) <==> pair_upper_result(u) == Ok::<u8, TokenErrorModel>(3),
{
    reveal_strlit("B");
    reveal_strlit("BC");
    reveal_strlit("D");
    reveal_strlit("DE");
    reveal_strlit("H");
    reveal_strlit("HL");
    reveal_strlit("SP");
    reveal_strlit("PSW");
    assert("B"@[0] != "D"@[0]);
    assert("B"@[0] != "H"@[0]);
    assert("BC"@[0] != "DE"@[0]);
    assert("BC"@[0] != "HL"@[0]);
    assert("BC"@[0] != "SP"@[0]);
    assert("D"@[0] != "B"@[0]);
    assert("D"@[0] != "H"@[0]);
    assert("DE"@[0] != "BC"@[0]);
    assert("DE"@[0] != "HL"@[0]);
    assert("DE"@[0] != "SP"@[0]);
    assert("H"@[0] != "B"@[0]);
    assert("H"@[0] != "D"@[0]);
    assert("HL"@[0] != "BC"@[0]);
    assert("HL"@[0] != "DE"@[0]);
    assert("HL"@[0] != "SP"@[0]);
    assert("SP"@[0] != "BC"@[0]);
    assert("SP"@[0] != "DE"@[0]);
    assert("SP"@[0] != "HL"@[0]);
}

/// A register operand of an upper-case name, read the ASCII way.
pub open spec fn plain_register(o: Seq<char>, r: int) -> bool {
    &&& 0 <= r < 8
    &&& o == seq![register_names()[r]]
    &&& unicode_upper(o) == upper_seq(o)
}

proof fn lemma_plain_register(o: Seq<char>, r: int)
    requires
        plain_register(o, r),
    ensures
        register_result(o) == Ok::<u8, TokenErrorModel>(r as u8),
        seq![reg_letter(r)] == o,
{
    reveal_strlit("BCDEHLMA");
    assert(upper_seq(o) =~= o);
    law_register_codes(r);
}

/// Where MOV and MVI stand among the mnemonics that `instruction_plan`
/// tells apart.
proof fn lemma_mov_mvi_branches()
    ensures
        fixed_opcode("MOV"@) is None,
        register_high_base("MOV"@) is None,
        fixed_opcode("MVI"@) is None,
        register_high_base("MVI"@) is None,
        "MVI"@ != "MOV"@,
        "MVI"@ != "STAX"@,
        "MVI"@ != "LDAX"@,
        alu_register_base("MVI"@) is None,
        pair_base("MVI"@) is None,
        "MVI"@ != "POP"@,
        "MVI"@ != "LXI"@,
{
    reveal_strlit("CMA");
    reveal_strlit("CMC");
    reveal_strlit("DAA");
    reveal_strlit("DI");
    reveal_strlit("EI");
    reveal_strlit("HLT");
    reveal_strlit("NOP");
    reveal_strlit("PCHL");
    reveal_strlit("RAL");
    reveal_strlit("RAR");
    reveal_strlit("RC");
    reveal_strlit("RET");
    reveal_strlit("RLC");
    reveal_strlit("RM");
    reveal_strlit("RNC");
    reveal_strlit("RNZ");
    reveal_strlit("RP");
    reveal_strlit("RPE");
    reveal_strlit("RPO");
    reveal_strlit("RRC");
    reveal_strlit("RZ");
    reveal_strlit("SPHL");
    reveal_strlit("STC");
    reveal_strlit("XCHG");
    reveal_strlit("XTHL");
    reveal_strlit("INR");
    reveal_strlit("DCR");
    reveal_strlit("MOV");
    reveal_strlit("STAX");
    reveal_strlit("LDAX");
    reveal_strlit("ADD");
    reveal_strlit("ADC");
    reveal_strlit("SUB");
    reveal_strlit("SBB");
    reveal_strlit("ANA");
    reveal_strlit("XRA");
    reveal_strlit("ORA");
    reveal_strlit("CMP");
    reveal_strlit("PUSH");
    reveal_strlit("DAD");
    reveal_strlit("INX");
    reveal_strlit("DCX");
    reveal_strlit("POP");
    reveal_strlit("LXI");
    reveal_strlit("MVI");
    assert("MOV"@[0] != "CMA"@[0]);
    assert("MOV"@[0] != "CMC"@[0]);
    assert("MOV"@[0] != "DAA"@[0]);
    assert("MOV"@[0] != "HLT"@[0]);
    assert("MOV"@[0] != "NOP"@[0]);
    assert("MOV"@[0] != "RAL"@[0]);
    assert("MOV"@[0] != "RAR"@[0]);
    assert("MOV"@[0] != "RET"@[0]);
    assert("MOV"@[0] != "RLC"@[0]);
    assert("MOV"@[0] != "RNC"@[0]);
    assert("MOV"@[0] != "RNZ"@[0]);
    assert("MOV"@[0] != "RPE"@[0]);
    assert("MOV"@[0] != "RPO"@[0]);
    assert("MOV"@[0] != "RRC"@[0]);
    assert("MOV"@[0] != "STC"@[0]);
    assert("MOV"@[0] != "INR"@[0]);
    assert("MOV"@[0] != "DCR"@[0]);
    assert("MOV"@[0] != "ADD"@[0]);
    assert("MOV"@[0] != "ADC"@[0]);
    assert("MOV"@[0] != "SUB"@[0]);
    assert("MOV"@[0] != "SBB"@[0]);
    assert("MOV"@[0] != "ANA"@[0]);
    assert("MOV"@[0] != "XRA"@[0]);
    assert("MOV"@[0] != "ORA"@[0]);
    assert("MOV"@[0] != "CMP"@[0]);
    assert("MOV"@[0] != "DAD"@[0]);
    assert("MOV"@[0] != "INX"@[0]);
    assert("MOV"@[0] != "DCX"@[0]);
    assert("MOV"@[0] != "POP"@[0]);
    assert("MOV"@[0] != "LXI"@[0]);
    assert("MOV"@[1] != "MVI"@[1]);
    assert("MVI"@[0] != "CMA"@[0]);
    assert("MVI"@[0] != "CMC"@[0]);
    assert("MVI"@[0] != "DAA"@[0]);
    assert("MVI"@[0] != "HLT"@[0]);
    assert("MVI"@[0] != "NOP"@[0]);
    assert("MVI"@[0] != "RAL"@[0]);
    assert("MVI"@[0] != "RAR"@[0]);
    assert("MVI"@[0] != "RET"@[0]);
    assert("MVI"@[0] != "RLC"@[0]);
    assert("MVI"@[0] != "RNC"@[0]);
    assert("MVI"@[0] != "RNZ"@[0]);
    assert("MVI"@[0] != "RPE"@[0]);
    assert("MVI"@[0] != "RPO"@[0]);
    assert("MVI"@[0] != "RRC"@[0]);
    assert("MVI"@[0] != "STC"@[0]);
    assert("MVI"@[0] != "INR"@[0]);
    assert("MVI"@[0] != "DCR"@[0]);
    assert("MVI"@[1] != "MOV"@[1]);
    assert("MVI"@[0] != "ADD"@[0]);
    assert("MVI"@[0] != "ADC"@[0]);
    assert("MVI"@[0] != "SUB"@[0]);
    assert("MVI"@[0] != "SBB"@[0]);
    assert("MVI"@[0] != "ANA"@[0]);
    assert("MVI"@[0] != "XRA"@[0]);
    assert("MVI"@[0] != "ORA"@[0]);
    assert("MVI"@[0] != "CMP"@[0]);
    assert("MVI"@[0] != "DAD"@[0]);
    assert("MVI"@[0] != "INX"@[0]);
    assert("MVI"@[0] != "DCX"@[0]);
    assert("MVI"@[0] != "POP"@[0]);
    assert("MVI"@[0] != "LXI"@[0]);
}

/// MOV with two register names assembles to a byte that disassembles to
/// MOV with the same two names (MOV M,M is HLT and left out).
pub proof fn law_mov_operands_read_back(o0: Seq<char>, o1: Seq<char>, d: int, r: int, lo: u8, hi: u8)
    requires
        plain_register(o0, d),
        plain_register(o1, r),
        !(d == 6 && r == 6),
    ensures
        instruction_plan("MOV"@, Some(seq![o0, o1])) matches Ok(InstrPlan::Bytes(b)) && deassemble_spec(
            b[0],
            lo,
            hi,
        ) == "MOV "@ + o0 + seq![','] + o1,
{
    lemma_plain_register(o0, d);
    lemma_plain_register(o1, r);
    let ops = seq![o0, o1];
    assert(amount_result(Some(ops), 2) == Ok::<Seq<Seq<char>>, TokenErrorModel>(ops));
    lemma_mov_mvi_branches();
    law_mov_disassembles(d, r, lo, hi);
    assert("MOV "@ + seq![reg_letter(d), ',', reg_letter(r)] =~= "MOV "@ + o0 + seq![','] + o1);
}

/// MVI with a register name assembles to an opcode that disassembles to
/// MVI with the same name, followed by the operand byte.
pub proof fn law_mvi_operand_reads_back(o0: Seq<char>, e: Seq<char>, d: int, lo: u8, hi: u8)
    requires
        plain_register(o0, d),
    ensures
        instruction_plan("MVI"@, Some(seq![o0, e])) matches Ok(InstrPlan::Imm8(op, ex)) && ex == e
            && deassemble_spec(op, lo, hi) == "MVI "@ + o0 + seq![','] + imm8_text(lo),
{
    lemma_plain_register(o0, d);
    let ops = seq![o0, e];
    assert(amount_result(Some(ops), 2) == Ok::<Seq<Seq<char>>, TokenErrorModel>(ops));
    lemma_mov_mvi_branches();
    law_mvi_disassembles(d, lo, hi);
    assert("MVI "@ + seq![reg_letter(d), ','] + imm8_text(lo) =~= "MVI "@ + o0 + seq![','] + imm8_text(lo));
}

/// The 16-bit word that a value is stored as.
pub open spec fn word16(v: i32) -> int {
    (v as u16) as int
}

/// Storing a value puts the low byte of its 16-bit word at `addr` and the
/// high byte at `addr + 1`, and leaves every other byte alone.
pub proof fn law_stored_word_reads_back(mem: Seq<u8>, addr: usize, v: i32)
    requires
        addr + 1 < mem.len(),
    ensures
        store_word(mem, addr, v).len() == mem.len(),
        store_word(mem, addr, v)[addr as int] as int == word16(v) % 256,
        store_word(mem, addr, v)[addr + 1] as int == word16(v) / 256,
        forall|j: int|
            0 <= j < mem.len() && j != addr && j != addr + 1 ==> #[trigger] store_word(mem, addr, v)[j]
                == mem[j],
{
    let w = v as u16;
    assert((v as u8) == ((w % 256) as u8)) by (bit_vector)
        requires
            w == v as u16,
    ;
    assert(((v >> 8) as u8) == ((w / 256) as u8)) by (bit_vector)
        requires
            w == v as u16,
    ;
}

proof fn lemma_resolve_keeps_length(
    mem: Seq<u8>,
    syms: Seq<(String, crate::assembler::symbols::Symbol)>,
    pend: Seq<PendingModel>,
    n: int,
)
    ensures
        resolve_upto(mem, syms, pend, n).0.len() == mem.len(),
    decreases n,
{
    if n > 0 {
        lemma_resolve_keeps_length(mem, syms, pend, n - 1);
    }
}

/// An expression kept for the end of assembly reads back, once the kept
/// expressions are resolved without error, as the 16-bit word of its
/// value: the low byte at its address and the high byte after it, unless
/// a later kept expression was stored over one of those two bytes.
pub proof fn law_resolved_reference_reads_back(
    mem: Seq<u8>,
    syms: Seq<(String, crate::assembler::symbols::Symbol)>,
    pend: Seq<PendingModel>,
    n: int,
    i: int,
    v: i32,
)
    requires
        0 <= i < n <= pend.len(),
        resolve_upto(mem, syms, pend, n).1 is None,
        eval_model(syms, pend[i].expr, pend[i].macro_scope) == Ok::<i32, Seq<char>>(v),
        pend[i].addr + 1 < mem.len(),
        forall|j: int|
            i < j < n ==> #[trigger] pend[j].addr != pend[i].addr && pend[j].addr != pend[i].addr + 1
                && pend[j].addr + 1 != pend[i].addr,
    ensures
        resolve_upto(mem, syms, pend, n).0[pend[i].addr as int] as int == word16(v) % 256,
        resolve_upto(mem, syms, pend, n).0[pend[i].addr + 1] as int == word16(v) / 256,
    decreases n,
{
    let prev = resolve_upto(mem, syms, pend, n - 1);
    lemma_resolve_keeps_length(mem, syms, pend, n - 1);
    assert(prev.1 is None);
    let a = pend[i].addr;
    if i == n - 1 {
        law_stored_word_reads_back(prev.0, a, v);
    } else {
        law_resolved_reference_reads_back(mem, syms, pend, n - 1, i, v);
        let j = n - 1;
        let vj = eval_model(syms, pend[j].expr, pend[j].macro_scope)->Ok_0;
        assert(pend[j].addr != a && pend[j].addr != a + 1 && pend[j].addr + 1 != a);
        assert(resolve_upto(mem, syms, pend, n).0 == store_word(prev.0, pend[j].addr, vj));
    }
}

/// Three numbers joined by two binary operators.
pub open spec fn three_operands(a: i32, o1: Op, b: i32, o2: Op, c: i32) -> Seq<TokenModel> {
    seq![
        TokenModel::Num(a),
        TokenModel::Op(o1),
        TokenModel::Num(b),
        TokenModel::Op(o2),
        TokenModel::Num(c),
    ]
}

proof fn lemma_precedence_add_mul(a: i32, b: i32, c: i32)
    ensures
        parse_expression(three_operands(a, Op::Add, b, Op::Mul, c), 0, 0) == Ok::<(ExprModel, int), Seq<char>>((
            ExprModel::Binary(
                Op::Add,
                Box::new(ExprModel::Value(a)),
                Box::new(ExprModel::Binary(Op::Mul, Box::new(ExprModel::Value(b)), Box::new(ExprModel::Value(c)))),
            ),
            5,
        )),
{
    let t = three_operands(a, Op::Add, b, Op::Mul, c);
    let va = ExprModel::Value(a);
    let vb = ExprModel::Value(b);
    let vc = ExprModel::Value(c);
    let inner = ExprModel::Binary(Op::Mul, Box::new(vb), Box::new(vc));
    let outer = ExprModel::Binary(Op::Add, Box::new(va), Box::new(inner));
    assert(parse_primary(t, 0) == Ok::<(ExprModel, int), Seq<char>>((va, 1)));
    assert(parse_primary(t, 2) == Ok::<(ExprModel, int), Seq<char>>((vb, 3)));
    assert(parse_primary(t, 4) == Ok::<(ExprModel, int), Seq<char>>((vc, 5)));
    assert(parse_rest(t, 5, 6, vc) == Ok::<(ExprModel, int), Seq<char>>((vc, 5)));
    assert(parse_expression(t, 4, 6) == Ok::<(ExprModel, int), Seq<char>>((vc, 5)));
    assert(parse_rest(t, 5, 5, inner) == Ok::<(ExprModel, int), Seq<char>>((inner, 5)));
    assert(parse_rest(t, 3, 5, vb) == Ok::<(ExprModel, int), Seq<char>>((inner, 5)));
    assert(parse_expression(t, 2, 5) == Ok::<(ExprModel, int), Seq<char>>((inner, 5)));
    assert(parse_rest(t, 5, 0, outer) == Ok::<(ExprModel, int), Seq<char>>((outer, 5)));
    assert(parse_rest(t, 1, 0, va) == Ok::<(ExprModel, int), Seq<char>>((outer, 5)));
}

proof fn lemma_precedence_mul_add(a: i32, b: i32, c: i32)
    ensures
        parse_expression(three_operands(a, Op::Mul, b, Op::Add, c), 0, 0) == Ok::<(ExprModel, int), Seq<char>>((
            ExprModel::Binary(
                Op::Add,
                Box::new(ExprModel::Binary(Op::Mul, Box::new(ExprModel::Value(a)), Box::new(ExprModel::Value(b)))),
                Box::new(ExprModel::Value(c)),
            ),
            5,
        )),
{
    reveal_with_fuel(parse_expression, 4);
    reveal_with_fuel(parse_rest, 4);
    reveal_with_fuel(parse_primary, 2);
}

proof fn lemma_precedence_or_and(a: i32, b: i32, c: i32)
    ensures
        parse_expression(three_operands(a, Op::Or, b, Op::And, c), 0, 0) == Ok::<(ExprModel, int), Seq<char>>((
            ExprModel::Binary(
                Op::Or,
                Box::new(ExprModel::Value(a)),
                Box::new(ExprModel::Binary(Op::And, Box::new(ExprModel::Value(b)), Box::new(ExprModel::Value(c)))),
            ),
            5,
        )),
{
    let t = three_operands(a, Op::Or, b, Op::And, c);
    let va = ExprModel::Value(a);
    let vb = ExprModel::Value(b);
    let vc = ExprModel::Value(c);
    let inner = ExprModel::Binary(Op::And, Box::new(vb), Box::new(vc));
    let outer = ExprModel::Binary(Op::Or, Box::new(va), Box::new(inner));
    assert(parse_primary(t, 0) == Ok::<(ExprModel, int), Seq<char>>((va, 1)));
    assert(parse_primary(t, 2) == Ok::<(ExprModel, int), Seq<char>>((vb, 3)));
    assert(parse_primary(t, 4) == Ok::<(ExprModel, int), Seq<char>>((vc, 5)));
    assert(parse_rest(t, 5, 3, vc) == Ok::<(ExprModel, int), Seq<char>>((vc, 5)));
    assert(parse_expression(t, 4, 3) == Ok::<(ExprModel, int), Seq<char>>((vc, 5)));
    assert(parse_rest(t, 5, 2, inner) == Ok::<(ExprModel, int), Seq<char>>((inner, 5)));
    assert(parse_rest(t, 3, 2, vb) == Ok::<(ExprModel, int), Seq<char>>((inner, 5)));
    assert(parse_expression(t, 2, 2) == Ok::<(ExprModel, int), Seq<char>>((inner, 5)));
    assert(parse_rest(t, 5, 0, outer) == Ok::<(ExprModel, int), Seq<char>>((outer, 5)));
    assert(parse_rest(t, 1, 0, va) == Ok::<(ExprModel, int), Seq<char>>((outer, 5)));
}

proof fn lemma_precedence_sub_sub(a: i32, b: i32, c: i32)
    ensures
        parse_expression(three_operands(a, Op::Sub, b, Op::Sub, c), 0, 0) == Ok::<(ExprModel, int), Seq<char>>((
            ExprModel::Binary(
                Op::Sub,
                Box::new(ExprModel::Binary(Op::Sub, Box::new(ExprModel::Value(a)), Box::new(ExprModel::Value(b)))),
                Box::new(ExprModel::Value(c)),
            ),
            5,
        )),
{
    reveal_with_fuel(parse_expression, 4);
    reveal_with_fuel(parse_rest, 4);
    reveal_with_fuel(parse_primary, 2);
}

/// Multiplication binds tighter than addition, AND tighter than OR, and
/// operators of one level group from the left: a + b * c is a + (b * c),
/// a * b + c is (a * b) + c, a OR b AND c is a OR (b AND c), and
/// a - b - c is (a - b) - c.
pub proof fn law_operator_precedence(a: i32, b: i32, c: i32)
    ensures
        parse_expression(three_operands(a, Op::Add, b, Op::Mul, c), 0, 0) == Ok::<(ExprModel, int), Seq<char>>((
            ExprModel::Binary(
                Op::Add,
                Box::new(ExprModel::Value(a)),
                Box::new(ExprModel::Binary(Op::Mul, Box::new(ExprModel::Value(b)), Box::new(ExprModel::Value(c)))),
            ),
            5,
        )),
        parse_expression(three_operands(a, Op::Mul, b, Op::Add, c), 0, 0) == Ok::<(ExprModel, int), Seq<char>>((
            ExprModel::Binary(
                Op::Add,
                Box::new(ExprModel::Binary(Op::Mul, Box::new(ExprModel::Value(a)), Box::new(ExprModel::Value(b)))),
                Box::new(ExprModel::Value(c)),
            ),
            5,
        )),
        parse_expression(three_operands(a, Op::Or, b, Op::And, c), 0, 0) == Ok::<(ExprModel, int), Seq<char>>((
            ExprModel::Binary(
                Op::Or,
                Box::new(ExprModel::Value(a)),
                Box::new(ExprModel::Binary(Op::And, Box::new(ExprModel::Value(b)), Box::new(ExprModel::Value(c)))),
            ),
            5,
        )),
        parse_expression(three_operands(a, Op::Sub, b, Op::Sub, c), 0, 0) == Ok::<(ExprModel, int), Seq<char>>((
            ExprModel::Binary(
                Op::Sub,
                Box::new(ExprModel::Binary(Op::Sub, Box::new(ExprModel::Value(a)), Box::new(ExprModel::Value(b)))),
                Box::new(ExprModel::Value(c)),
            ),
            5,
        )),
{
    lemma_precedence_add_mul(a, b, c);
    lemma_precedence_mul_add(a, b, c);
    lemma_precedence_or_and(a, b, c);
    lemma_precedence_sub_sub(a, b, c);
}

proof fn lemma_low_16_bits(x: i32)
    requires
        x >= 0,
    ensures
        (x & 0xFFFF) as int == x % 65536,
{
    assert((x & 0xFFFF) == x % 65536) by (bit_vector)
        requires
            x >= 0,
    ;
}

/// The binary operators on 16-bit values, in plain arithmetic modulo
/// 65536: +, -, truncating / and MOD (no value for a zero divisor).
pub proof fn law_binary_arithmetic(a: i32, b: i32)
    requires
        0 <= a <= 0xFFFF,
        0 <= b <= 0xFFFF,
    ensures
        binary_value(Op::Add, a, b) == Some(((a + b) % 65536) as i32),
        binary_value(Op::Sub, a, b) == Some(((a - b + 65536) % 65536) as i32),
        b != 0 ==> binary_value(Op::Div, a, b) == Some((a / b) as i32),
        b != 0 ==> binary_value(Op::Mod, a, b) == Some((a % b) as i32),
        b == 0 ==> binary_value(Op::Div, a, b) is None && binary_value(Op::Mod, a, b) is None,
{
    lemma_low_16_bits((a + b) as i32);
    let d = (a - b) as i32;
    assert((d & 0xFFFF) as int == (a - b + 65536) % 65536) by (bit_vector)
        requires
            d == a - b,
            0 <= a <= 0xFFFF,
            0 <= b <= 0xFFFF,
    ;
    if b != 0 {
        assert(0 <= a / b <= a) by (nonlinear_arith)
            requires
                0 <= a,
                b > 0,
        ;
        lemma_low_16_bits((a / b) as i32);
        assert(0 <= a % b < b) by (nonlinear_arith)
            requires
                b > 0,
        ;
        lemma_low_16_bits((a % b) as i32);
        if a == 0 {
            assert(0int % (b as int) == 0) by (nonlinear_arith)
                requires
                    b > 0,
            ;
        }
        assert(a.checked_rem(b) == Some((a % b) as i32));
    }
}

/// The value of a hexadecimal digit (upper case) or decimal digit.
pub open spec fn hex_digit_value(c: char) -> int {
    if '0' <= c <= '9' {
        c as int - '0' as int
    } else {
        c as int - 'A' as int + 10
    }
}

pub open spec fn is_decimal_digit(c: char) -> bool {
    '0' <= c <= '9'
}

pub open spec fn is_hex_digit(c: char) -> bool {
    ('0' <= c <= '9') || ('A' <= c <= 'F')
}

proof fn lemma_parse_one_more_digit(s: Seq<char>, c: char, radix: int, x: i32)
    requires
        2 <= radix <= 16,
        s.len() > 0,
        is_decimal_digit(s[0]),
        forall|k: int| 0 <= k < s.len() ==> #[trigger] digit_value(s[k]) < radix,
        digit_value(c) < radix,
        parse_i32_radix(s, radix) == Some(x),
        x * radix + digit_value(c) <= i32::MAX,
    ensures
        parse_i32_radix(s.push(c), radix) == Some((x * radix + digit_value(c)) as i32),
{
    let t = s.push(c);
    assert(unsigned_part(s) == s);
    assert(unsigned_part(t) == t);
    assert(t.drop_last() =~= s);
    assert(digits_valid(t, radix)) by {
        assert forall|k: int| 0 <= k < t.len() implies digit_value(#[trigger] t[k]) < radix by {
            if k < s.len() {
                assert(t[k] == s[k]);
            }
        }
    }
    assert(digits_valid(s, radix));
    lemma_digits_value_nonneg(s, radix);
    assert(x as int == digits_value(s, radix));
}

/// Decimal numbers are positional: a further digit multiplies the value
/// by ten and adds the digit, and a D suffix changes nothing.
pub proof fn law_decimal_digits(s: Seq<char>, c: char, x: i32)
    requires
        s.len() > 0,
        forall|k: int| 0 <= k < s.len() ==> #[trigger] is_decimal_digit(s[k]),
        is_decimal_digit(c),
        number_value(s) == Some(x),
        x * 10 + (c as int - '0' as int) <= i32::MAX,
    ensures
        number_value(s.push(c)) == Some((x * 10 + (c as int - '0' as int)) as i32),
        number_value(s.push('D')) == Some(x),
{
    assert(is_decimal_digit(s[0]));
    assert(is_decimal_digit(s.last()));
    assert forall|k: int| 0 <= k < s.len() implies #[trigger] digit_value(s[k]) < 10 by {
        assert(is_decimal_digit(s[k]));
    }
    lemma_parse_one_more_digit(s, c, 10, x);
    assert(s.push('D').drop_last() =~= s);
}

/// Hexadecimal numbers (with the H suffix after a leading decimal digit)
/// are positional: a further digit multiplies the value by sixteen and
/// adds the digit.
pub proof fn law_hex_digits(s: Seq<char>, c: char, x: i32)
    requires
        s.len() > 0,
        is_decimal_digit(s[0]),
        forall|k: int| 0 <= k < s.len() ==> #[trigger] is_hex_digit(s[k]),
        is_hex_digit(c),
        number_value(s.push('H')) == Some(x),
        x * 16 + hex_digit_value(c) <= i32::MAX,
    ensures
        number_value(s.push(c).push('H')) == Some((x * 16 + hex_digit_value(c)) as i32),
{
    assert(s.push('H').drop_last() =~= s);
    assert(s.push(c).push('H').drop_last() =~= s.push(c));
    assert(s.push(c).push('H')[0] == s[0]);
    assert(s.push('H')[0] == s[0]);
    assert forall|k: int| 0 <= k < s.len() implies #[trigger] digit_value(s[k]) < 16 by {
        assert(is_hex_digit(s[k]));
    }
    lemma_parse_one_more_digit(s, c, 16, x);
}

/// DW stores each operand whose value is known as two bytes, low byte
/// first, in the order of the operands.
pub proof fn law_define_words_little_endian(a: Assembler, ops: Seq<Seq<char>>, vals: Seq<i32>, n: int)
    requires
        0 <= n <= ops.len(),
        vals.len() == ops.len(),
        forall|k: int|
            0 <= k < ops.len() ==> #[trigger] calc_outcome(a, ops[k], true) == CalcOutcome::Value(vals[k])
                && -32768 <= vals[k] <= 65535,
    ensures
        dw_upto(a, ops, n).1 matches Ok(bytes) && bytes.len() == 2 * n && forall|k: int|
            0 <= k < n ==> bytes[2 * k] as int == word16(#[trigger] vals[k]) % 256 && bytes[2 * k
                + 1] as int == word16(vals[k]) / 256,
    decreases n,
{
    if n > 0 {
        law_define_words_little_endian(a, ops, vals, n - 1);
        let v = vals[n - 1];
        let w = v as u16;
        assert(((w as u8) as int) == word16(v) % 256) by (bit_vector)
            requires
                w == v as u16,
        ;
        assert((((w >> 8u16) as u8) as int) == word16(v) / 256) by (bit_vector)
            requires
                w == v as u16,
        ;
        let bytes = dw_upto(a, ops, n - 1).1->Ok_0;
        let nb = dw_upto(a, ops, n).1->Ok_0;
        assert(calc_outcome(a, ops[n - 1], true) == CalcOutcome::Value(v));
        assert(nb == bytes.push(word_bytes(v).0).push(word_bytes(v).1));
        assert forall|k: int| 0 <= k < n implies nb[2 * k] as int == word16(#[trigger] vals[k]) % 256
            && nb[2 * k + 1] as int == word16(vals[k]) / 256 by {
            if k < n - 1 {
                assert(nb[2 * k] == bytes[2 * k] && nb[2 * k + 1] == bytes[2 * k + 1]);
            }
        }
    }
}

/// Bytes stored at the location counter, when they fit below the end of
/// memory, read back in order from there on; the counter moves past them
/// and no other byte changes.
pub proof fn law_stored_bytes_read_back(mem: Seq<u8>, ptr: int, values: Seq<u8>)
    requires
        0 <= ptr,
        values.len() > 0,
        ptr + values.len() < mem.len(),
    ensures
        ({
            let (m2, p2, ok) = store_values(mem, ptr, values);
            &&& ok
            &&& p2 == ptr + values.len()
            &&& m2.len() == mem.len()
            &&& forall|k: int| 0 <= k < values.len() ==> #[trigger] m2[ptr + k] == values[k]
            &&& forall|j: int| 0 <= j < mem.len() && !(ptr <= j < ptr + values.len()) ==> #[trigger] m2[j] == mem[j]
        }),
{
    let m2 = store_values(mem, ptr, values).0;
    assert forall|k: int| 0 <= k < values.len() implies #[trigger] m2[ptr + k] == values[k] by {
        assert(ptr <= ptr + k < ptr + values.len());
    }
}

proof fn lemma_hex_digit_round_trip(n: int)
    requires
        0 <= n < 16,
    ensures
        hex_digit_value(hex_digit_spec(n)) == n,
        is_hex_digit(hex_digit_spec(n)),
{
}

/// The disassembler writes an 8-bit operand as 0x and two hexadecimal
/// digits whose value is the byte, and a 16-bit operand as 0x and four
/// digits whose value is the word of its two bytes, high byte first.
pub proof fn law_operand_text_is_hexadecimal(lo: u8, hi: u8)
    ensures
        imm8_text(lo).len() == 4,
        imm8_text(lo)[0] == '0' && imm8_text(lo)[1] == 'x',
        16 * hex_digit_value(imm8_text(lo)[2]) + hex_digit_value(imm8_text(lo)[3]) == lo,
        imm16_text(lo, hi).len() == 6,
        imm16_text(lo, hi)[0] == '0' && imm16_text(lo, hi)[1] == 'x',
        4096 * hex_digit_value(imm16_text(lo, hi)[2]) + 256 * hex_digit_value(imm16_text(lo, hi)[3])
            + 16 * hex_digit_value(imm16_text(lo, hi)[4]) + hex_digit_value(imm16_text(lo, hi)[5])
            == 256 * hi + lo,
{
    lemma_hex_digit_round_trip(lo as int / 16);
    lemma_hex_digit_round_trip(lo as int % 16);
    lemma_hex_digit_round_trip(hi as int / 16);
    lemma_hex_digit_round_trip(hi as int % 16);
}

} // verus!
