use vstd::prelude::*;

use crate::cpu::io_handler::IoModel;
use crate::cpu::terminal::{
    render_spec, screen_len, EscapeState, OutputModel, TerminalModel, TERM_COLS, TERM_ROWS,
};

use crate::cpu::isa::{
    alu_result, even_parity, flag_cy, flag_p, flag_s, flag_z, has_flag, hi_byte, lo_byte, result_flags,
    status_flags, with_flag, word, wrap16, CpuModel,
};

verus! {

/// A word split into its high and low bytes and joined again is the word.
pub proof fn law_word_bytes_roundtrip(v: u16)
    ensures
        word(hi_byte(v), lo_byte(v)) == v,
{
}

/// Popping right after pushing a word gives the word back and restores the
/// stack pointer.
pub proof fn law_push_then_pop(m: CpuModel, v: u16)
    requires
        m.wf(),
    ensures
        m.push16(v).pop16().0 == v,
        m.push16(v).pop16().1.sp == m.sp,
        m.push16(v).sp == wrap16(m.sp - 2),
{
    let sp1 = wrap16(m.sp - 1);
    let sp2 = wrap16(m.sp - 2);
    assert(wrap16(sp2 + 1) == sp1);
    assert(sp1 != sp2);
    law_word_bytes_roundtrip(v);
}

/// Writing a register pair and reading it back gives the written word
/// (BC, DE, HL and SP).
pub proof fn law_set_pair_then_pair(m: CpuModel, rp: int, v: u16)
    requires
        0 <= rp <= 3,
    ensures
        m.set_pair(rp, v).pair(rp) == v,
{
    law_word_bytes_roundtrip(v);
}

/// Writing a register (or M, the byte that HL addresses) and reading it
/// back gives the written byte.
pub proof fn law_set_reg_then_reg(m: CpuModel, r: int, v: u8)
    requires
        m.wf(),
        0 <= r <= 7,
    ensures
        m.set_reg(r, v).reg(r) == v,
{
}

/// After an operation that sets flags from its result, Z says the result
/// is zero, S copies its top bit, P says its number of one bits is even,
/// and CY is the carry given.
pub proof fn law_result_flags(f: u8, r: u8, ac: bool, cy: bool)
    ensures
        has_flag(result_flags(f, r, ac, cy), flag_z()) == (r == 0),
        has_flag(result_flags(f, r, ac, cy), flag_s()) == (r >= 0x80),
        has_flag(result_flags(f, r, ac, cy), flag_p()) == even_parity(r),
        has_flag(result_flags(f, r, ac, cy), flag_cy()) == cy,
{
    let s = r >= 0x80;
    let z = r == 0;
    let p = even_parity(r);
    let x = (f & 0x2A) | (if s { 0x80u8 } else { 0u8 }) | (if z { 0x40u8 } else { 0u8 }) | (if ac {
        0x10u8
    } else {
        0u8
    }) | (if p { 0x04u8 } else { 0u8 }) | (if cy { 0x01u8 } else { 0u8 });
    let sb: u8 = if s { 0x80u8 } else { 0u8 };
    let zb: u8 = if z { 0x40u8 } else { 0u8 };
    let ab: u8 = if ac { 0x10u8 } else { 0u8 };
    let pb: u8 = if p { 0x04u8 } else { 0u8 };
    let cb: u8 = if cy { 0x01u8 } else { 0u8 };
    assert(((f & 0x2A) | sb | zb | ab | pb | cb) & 0x40 != 0 <==> zb == 0x40) by (bit_vector)
        requires
            sb == 0x80 || sb == 0,
            zb == 0x40 || zb == 0,
            ab == 0x10 || ab == 0,
            pb == 0x04 || pb == 0,
            cb == 0x01 || cb == 0,
    ;
    assert(((f & 0x2A) | sb | zb | ab | pb | cb) & 0x80 != 0 <==> sb == 0x80) by (bit_vector)
        requires
            sb == 0x80 || sb == 0,
            zb == 0x40 || zb == 0,
            ab == 0x10 || ab == 0,
            pb == 0x04 || pb == 0,
            cb == 0x01 || cb == 0,
    ;
    assert(((f & 0x2A) | sb | zb | ab | pb | cb) & 0x04 != 0 <==> pb == 0x04) by (bit_vector)
        requires
            sb == 0x80 || sb == 0,
            zb == 0x40 || zb == 0,
            ab == 0x10 || ab == 0,
            pb == 0x04 || pb == 0,
            cb == 0x01 || cb == 0,
    ;
    assert(((f & 0x2A) | sb | zb | ab | pb | cb) & 0x01 != 0 <==> cb == 0x01) by (bit_vector)
        requires
            sb == 0x80 || sb == 0,
            zb == 0x40 || zb == 0,
            ab == 0x10 || ab == 0,
            pb == 0x04 || pb == 0,
            cb == 0x01 || cb == 0,
    ;
}

/// One step of PUSH of pair `src` (BC, DE or HL).
proof fn lemma_push_step(m: CpuModel, src: int)
    requires
        0 <= src <= 2,
        m.mem[m.pc as int] == 0xC5 + 16 * src,
    ensures
        ({
            let s1 = m.step().0;
            let f = m.fetch8().1;
            &&& s1.mem == f.push16(m.pair(src)).mem
            &&& s1.sp == wrap16(m.sp - 2)
            &&& s1.pc == wrap16(m.pc + 1)
        }),
{
    let (op, f) = m.fetch8();
    let y = 2 * src;
    assert(op as int / 64 == 3 && (op as int / 8) % 8 == y && op as int % 8 == 5);
    assert(f.execute(op) == f.execute_high(y, 5)) by {
        reveal(CpuModel::execute);
    }
    assert(f.execute_high(y, 5) == (f.push16(f.pair(y / 2)), 11u64)) by {
        reveal(CpuModel::execute_high);
    }
    assert(y / 2 == src);
}

/// One step of POP of pair `dst` (BC, DE or HL).
proof fn lemma_pop_step(m: CpuModel, dst: int)
    requires
        0 <= dst <= 2,
        m.mem[m.pc as int] == 0xC1 + 16 * dst,
    ensures
        ({
            let s1 = m.step().0;
            let f = m.fetch8().1;
            &&& s1.pair(dst) == f.pop16().0
            &&& s1.sp == wrap16(m.sp + 2)
            &&& s1.pc == wrap16(m.pc + 1)
        }),
{
    let (op, f) = m.fetch8();
    let y = 2 * dst;
    assert(op as int / 64 == 3 && (op as int / 8) % 8 == y && op as int % 8 == 1);
    assert(f.execute(op) == f.execute_high(y, 1)) by {
        reveal(CpuModel::execute);
    }
    let (v, g) = f.pop16();
    assert(f.execute_high(y, 1) == (g.set_pair(y / 2, v), 10u64)) by {
        reveal(CpuModel::execute_high);
    }
    assert(y / 2 == dst);
    law_set_pair_then_pair(g, dst, v);
}

/// Running PUSH of register pair `src` (BC, DE or HL) and then POP of
/// pair `dst` copies `src` into `dst` through the stack: the stack pointer
/// is back where it was and the program counter is past both
/// instructions. The POP byte must not lie where the push writes.
pub proof fn law_push_pop_moves_pair(m: CpuModel, src: int, dst: int)
    requires
        m.wf(),
        0 <= src <= 2,
        0 <= dst <= 2,
        m.mem[m.pc as int] == 0xC5 + 16 * src,
        m.mem[wrap16(m.pc + 1) as int] == 0xC1 + 16 * dst,
        wrap16(m.pc + 1) != wrap16(m.sp - 1),
        wrap16(m.pc + 1) != wrap16(m.sp - 2),
    ensures
        ({
            let s2 = m.step().0.step().0;
            &&& s2.pair(dst) == m.pair(src)
            &&& s2.sp == m.sp
            &&& s2.pc == wrap16(m.pc + 2)
        }),
{
    let v = m.pair(src);
    let f = m.fetch8().1;
    lemma_push_step(m, src);
    let s1 = m.step().0;
    let sp1 = wrap16(m.sp - 1);
    let sp2 = wrap16(m.sp - 2);
    assert(s1.mem[s1.pc as int] == 0xC1 + 16 * dst);
    lemma_pop_step(s1, dst);
    let g = s1.fetch8().1;
    assert(wrap16(sp2 + 1) == sp1);
    assert(sp1 != sp2);
    assert(g.sp == sp2 && g.mem == s1.mem);
    assert(g.pop16().0 == v) by {
        law_word_bytes_roundtrip(v);
    }
    assert(wrap16(sp2 + 2) == m.sp);
    assert(wrap16(wrap16(m.pc + 1) + 1) == wrap16(m.pc + 2));
}

/// Bits 1, 3 and 5 of the flags: 1, 0 and 0 in every state a program sees.
pub open spec fn fixed_flag_bits(f: u8) -> bool {
    f & 0x2A == 0x02
}

proof fn lemma_status_flags_keep_bits(f: u8, s: bool, z: bool, ac: bool, p: bool, cy: bool)
    ensures
        status_flags(f, s, z, ac, p, cy) & 0x2A == f & 0x2A,
{
    let sb: u8 = if s { 0x80u8 } else { 0u8 };
    let zb: u8 = if z { 0x40u8 } else { 0u8 };
    let ab: u8 = if ac { 0x10u8 } else { 0u8 };
    let pb: u8 = if p { 0x04u8 } else { 0u8 };
    let cb: u8 = if cy { 0x01u8 } else { 0u8 };
    assert(((f & 0x2A) | sb | zb | ab | pb | cb) & 0x2A == f & 0x2A) by (bit_vector)
        requires
            sb == 0x80 || sb == 0,
            zb == 0x40 || zb == 0,
            ab == 0x10 || ab == 0,
            pb == 0x04 || pb == 0,
            cb == 0x01 || cb == 0,
    ;
}

proof fn lemma_result_flags_keep_bits(f: u8, r: u8, ac: bool, cy: bool)
    ensures
        result_flags(f, r, ac, cy) & 0x2A == f & 0x2A,
{
    lemma_status_flags_keep_bits(f, r >= 0x80, r == 0, ac, even_parity(r), cy);
}

proof fn lemma_carry_write_keeps_bits(f: u8, v: bool)
    ensures
        with_flag(f, flag_cy(), v) & 0x2A == f & 0x2A,
{
    assert((f | 1u8) & 0x2A == f & 0x2A) by (bit_vector);
    assert((f & !1u8) & 0x2A == f & 0x2A) by (bit_vector);
}

proof fn lemma_alu_keeps_bits(m: CpuModel, kind: int, v: u8)
    ensures
        m.alu(kind, v).flags & 0x2A == m.flags & 0x2A,
{
    let (r, cy, ac) = crate::cpu::isa::alu_result(kind, m.a, v, m.carry());
    lemma_result_flags_keep_bits(m.flags, r, ac, cy);
}

proof fn lemma_set_reg_keeps_flags(m: CpuModel, r: int, v: u8)
    ensures
        m.set_reg(r, v).flags == m.flags,
{
}

proof fn lemma_low_keeps_bits(m: CpuModel, y: int, z: int)
    requires
        0 <= y < 8,
        0 <= z < 8,
        fixed_flag_bits(m.flags),
    ensures
        fixed_flag_bits(m.execute_low(y, z).0.flags),
{
    reveal(CpuModel::execute_low);
    if z == 1 && y % 2 == 1 {
        lemma_carry_write_keeps_bits(m.flags, m.hl() + m.pair(y / 2) > 65535);
    } else if z == 4 {
        let old = m.reg(y);
        lemma_result_flags_keep_bits(m.flags, crate::cpu::isa::wrap8(old + 1), (old % 16) + 1 > 15, m.carry());
    } else if z == 5 {
        let old = m.reg(y);
        lemma_result_flags_keep_bits(m.flags, crate::cpu::isa::wrap8(old - 1), old % 16 == 0, m.carry());
    } else if z == 7 {
        let a = m.a;
        if y == 0 {
            lemma_carry_write_keeps_bits(m.flags, a >= 128);
        } else if y == 1 {
            lemma_carry_write_keeps_bits(m.flags, a % 2 == 1);
        } else if y == 2 {
            lemma_carry_write_keeps_bits(m.flags, a >= 128);
        } else if y == 3 {
            lemma_carry_write_keeps_bits(m.flags, a % 2 == 1);
        } else if y == 4 {
            let lo_fix = a % 16 > 9 || m.aux_carry();
            let hi_fix = a > 0x99 || m.carry();
            let corr: int = (if lo_fix { 6int } else { 0int }) + (if hi_fix { 0x60int } else { 0int });
            let r = crate::cpu::isa::wrap8(a + corr);
            lemma_result_flags_keep_bits(m.flags, r, (a % 16) + (corr % 16) > 15, hi_fix || a + corr > 255);
        } else if y == 6 {
            lemma_carry_write_keeps_bits(m.flags, true);
        } else if y == 7 {
            lemma_carry_write_keeps_bits(m.flags, !m.carry());
        }
    }
}

proof fn lemma_high_keeps_bits(m: CpuModel, y: int, z: int)
    requires
        0 <= y < 8,
        0 <= z < 8,
        fixed_flag_bits(m.flags),
    ensures
        fixed_flag_bits(m.execute_high(y, z).0.flags),
{
    reveal(CpuModel::execute_high);
    if z == 1 && y == 6 {
        let lo = lo_byte(m.pop16().0);
        assert(((lo & 0xD7) | 0x02) & 0x2A == 0x02) by (bit_vector);
    } else if z == 6 {
        lemma_alu_keeps_bits(m.fetch8().1, y, m.fetch8().0);
    }
}

/// Bit 1 of the flags stays set and bits 3 and 5 stay clear through every
/// instruction, POP PSW included, which loads them as 1, 0, 0.
pub proof fn law_fixed_flag_bits(m: CpuModel)
    requires
        fixed_flag_bits(m.flags),
    ensures
        fixed_flag_bits(m.step().0.flags),
{
    let (op, f) = m.fetch8();
    let x = op as int / 64;
    let y = (op as int / 8) % 8;
    let z = op as int % 8;
    reveal(CpuModel::execute);
    if x == 0 {
        lemma_low_keeps_bits(f, y, z);
    } else if x == 1 {
        lemma_set_reg_keeps_flags(f, y, f.reg(z));
    } else if x == 2 {
        lemma_alu_keeps_bits(f, y, f.reg(z));
    } else {
        lemma_high_keeps_bits(f, y, z);
    }
}

/// Two words pushed come off the stack in the opposite order, and the stack
/// pointer is back where it was.
pub proof fn law_stack_is_last_in_first_out(m: CpuModel, a: u16, b: u16)
    requires
        m.wf(),
    ensures
        ({
            let (x, m1) = m.push16(a).push16(b).pop16();
            let (y, m2) = m1.pop16();
            &&& x == b
            &&& y == a
            &&& m2.sp == m.sp
        }),
{
    let p1 = m.push16(a);
    law_push_then_pop(p1, b);
    let m1 = p1.push16(b).pop16().1;
    let sp1 = wrap16(m.sp - 1);
    let sp2 = wrap16(m.sp - 2);
    let sp3 = wrap16(m.sp - 3);
    let sp4 = wrap16(m.sp - 4);
    assert(wrap16(p1.sp - 1) == sp3 && wrap16(p1.sp - 2) == sp4);
    assert(m1.sp == sp2);
    assert(sp2 != sp3 && sp2 != sp4 && sp1 != sp3 && sp1 != sp4);
    assert(wrap16(sp2 + 1) == sp1);
    assert(m1.mem[sp2 as int] == lo_byte(a));
    assert(m1.mem[sp1 as int] == hi_byte(a));
    law_word_bytes_roundtrip(a);
    assert(wrap16(sp2 + 2) == m.sp);
}

/// MOV copies its source register (or M, the byte that HL addresses) into
/// its destination; nothing else changes but the program counter, which
/// moves past the instruction, and the cycle count.
pub proof fn law_mov_moves_register(m: CpuModel, dst: int, src: int)
    requires
        m.wf(),
        0 <= dst < 8,
        0 <= src < 8,
        !(dst == 6 && src == 6),
        m.mem[m.pc as int] == 0x40 + 8 * dst + src,
    ensures
        ({
            let s = m.step().0;
            &&& s.reg(dst) == m.reg(src)
            &&& s == (CpuModel {
                pc: wrap16(m.pc + 1),
                cycles: (m.cycles + if dst == 6 || src == 6 { 7int } else { 5int }) as u64,
                ..m.set_reg(dst, m.reg(src))
            })
        }),
{
    let (op, f) = m.fetch8();
    assert(op as int / 64 == 1 && (op as int / 8) % 8 == dst && op as int % 8 == src);
    assert(op != 0x76);
    assert(f.execute(op) == (f.set_reg(dst, f.reg(src)), if dst == 6 || src == 6 {
        7u64
    } else {
        5u64
    })) by {
        reveal(CpuModel::execute);
    }
    assert(f.reg(src) == m.reg(src));
    law_set_reg_then_reg(f, dst, f.reg(src));
}

/// CMP leaves the accumulator as it is and sets the flags as SUB would:
/// Z when the operand equals the accumulator, CY when it is larger.
pub proof fn law_compare_is_subtraction_without_result(m: CpuModel, v: u8)
    ensures
        m.alu(7, v).a == m.a,
        m.alu(7, v).flags == m.alu(2, v).flags,
        has_flag(m.alu(7, v).flags, flag_z()) == (m.a == v),
        has_flag(m.alu(7, v).flags, flag_cy()) == (m.a < v),
{
    let r = crate::cpu::isa::wrap8(m.a - v);
    law_result_flags(m.flags, r, m.a % 16 < v % 16, m.a < v);
}

/// A processor at power-on or after a reset has bits 1, 3 and 5 of its
/// flags as 1, 0, 0, so `law_fixed_flag_bits` holds of every state it then
/// steps through.
pub proof fn law_fixed_flag_bits_at_start(mem: Seq<u8>, m: CpuModel)
    ensures
        fixed_flag_bits(crate::cpu::power_on(mem).flags),
        fixed_flag_bits(crate::cpu::after_reset(m).flags),
{
    assert(0x02u8 & 0x2A == 0x02) by (bit_vector);
}

/// ADD and ADC add the operand (and, for ADC, the carry) to the
/// accumulator modulo 256; CY says whether the sum passed 255.
pub proof fn law_add_operations(m: CpuModel, v: u8)
    ensures
        m.alu(0, v).a as int == (m.a + v) % 256,
        has_flag(m.alu(0, v).flags, flag_cy()) == (m.a + v > 255),
        m.alu(1, v).a as int == (m.a + v + if m.carry() { 1int } else { 0int }) % 256,
        has_flag(m.alu(1, v).flags, flag_cy()) == (m.a + v + if m.carry() { 1int } else { 0int }
            > 255),
{
    let (r0, cy0, ac0) = alu_result(0, m.a, v, m.carry());
    law_result_flags(m.flags, r0, ac0, cy0);
    let (r1, cy1, ac1) = alu_result(1, m.a, v, m.carry());
    law_result_flags(m.flags, r1, ac1, cy1);
}

/// SUB and SBB subtract the operand (and, for SBB, the borrow) from the
/// accumulator modulo 256; SUB sets CY when the operand is larger.
pub proof fn law_subtract_operations(m: CpuModel, v: u8)
    ensures
        m.alu(2, v).a as int == (m.a - v + 256) % 256,
        has_flag(m.alu(2, v).flags, flag_cy()) == (m.a < v),
        m.alu(3, v).a as int == (m.a - v - (if m.carry() { 1int } else { 0int }) + 512) % 256,
{
    let (r2, cy2, ac2) = alu_result(2, m.a, v, m.carry());
    law_result_flags(m.flags, r2, ac2, cy2);
}

/// ANA, XRA and ORA give the bitwise and, exclusive or and or of the
/// accumulator and the operand, and clear CY.
pub proof fn law_logical_operations(m: CpuModel, v: u8)
    ensures
        m.alu(4, v).a == m.a & v,
        !has_flag(m.alu(4, v).flags, flag_cy()),
        m.alu(5, v).a == m.a ^ v,
        !has_flag(m.alu(5, v).flags, flag_cy()),
        m.alu(6, v).a == m.a | v,
        !has_flag(m.alu(6, v).flags, flag_cy()),
{
    let (r4, cy4, ac4) = alu_result(4, m.a, v, m.carry());
    law_result_flags(m.flags, r4, ac4, cy4);
    let (r5, cy5, ac5) = alu_result(5, m.a, v, m.carry());
    law_result_flags(m.flags, r5, ac5, cy5);
    let (r6, cy6, ac6) = alu_result(6, m.a, v, m.carry());
    law_result_flags(m.flags, r6, ac6, cy6);
}

/// XRA A clears the accumulator and sets Z; ORA A and ANA A keep it and
/// set Z exactly when it is zero.
pub proof fn law_accumulator_with_itself(m: CpuModel)
    ensures
        m.alu(5, m.a).a == 0,
        has_flag(m.alu(5, m.a).flags, flag_z()),
        m.alu(6, m.a).a == m.a,
        m.alu(4, m.a).a == m.a,
        has_flag(m.alu(6, m.a).flags, flag_z()) == (m.a == 0),
{
    law_logical_operations(m, m.a);
    let a = m.a;
    assert(a ^ a == 0) by (bit_vector);
    assert(a | a == a) by (bit_vector);
    assert(a & a == a) by (bit_vector);
    law_result_flags(m.flags, 0, false, false);
    law_result_flags(m.flags, a, false, false);
}

/// One step of an accumulator operation on a register (opcodes 80..BF:
/// ADD, ADC, SUB, SBB, ANA, XRA, ORA, CMP with register field `r`) sets
/// the accumulator from the old accumulator and that register (M: the
/// byte that HL addresses) and moves past the instruction.
pub proof fn law_register_accumulator_step(m: CpuModel, k: int, r: int)
    requires
        m.wf(),
        0 <= k < 8,
        0 <= r < 8,
        m.mem[m.pc as int] == 0x80 + 8 * k + r,
    ensures
        ({
            let s = m.step().0;
            let v = m.reg(r);
            &&& s.pc == wrap16(m.pc + 1)
            &&& k == 0 ==> s.a as int == (m.a + v) % 256
            &&& k == 2 ==> s.a as int == (m.a - v + 256) % 256
            &&& k == 4 ==> s.a == m.a & v
            &&& k == 5 ==> s.a == m.a ^ v
            &&& k == 6 ==> s.a == m.a | v
            &&& k == 7 ==> s.a == m.a
        }),
{
    let (op, f) = m.fetch8();
    assert(op as int / 64 == 2 && (op as int / 8) % 8 == k && op as int % 8 == r);
    assert(f.execute(op).0 == f.alu(k, f.reg(r))) by {
        reveal(CpuModel::execute);
    }
    assert(f.reg(r) == m.reg(r));
    law_add_operations(f, m.reg(r));
    law_subtract_operations(f, m.reg(r));
    law_logical_operations(f, m.reg(r));
}

/// One step of an accumulator operation with an immediate operand (ADI,
/// ACI, SUI, SBI, ANI, XRI, ORI, CPI: opcodes C6 + 8 * k) sets the
/// accumulator from the old accumulator and the byte after the opcode, and
/// moves past both bytes.
pub proof fn law_immediate_accumulator_step(m: CpuModel, k: int)
    requires
        m.wf(),
        0 <= k < 8,
        m.mem[m.pc as int] == 0xC6 + 8 * k,
    ensures
        ({
            let s = m.step().0;
            let v = m.mem[wrap16(m.pc + 1) as int];
            &&& s.pc == wrap16(m.pc + 2)
            &&& k == 0 ==> s.a as int == (m.a + v) % 256
            &&& k == 2 ==> s.a as int == (m.a - v + 256) % 256
            &&& k == 4 ==> s.a == m.a & v
            &&& k == 5 ==> s.a == m.a ^ v
            &&& k == 6 ==> s.a == m.a | v
            &&& k == 7 ==> s.a == m.a
        }),
{
    let (op, f) = m.fetch8();
    assert(op as int / 64 == 3 && (op as int / 8) % 8 == k && op as int % 8 == 6);
    let (v, g) = f.fetch8();
    assert(f.execute(op) == f.execute_high(k, 6)) by {
        reveal(CpuModel::execute);
    }
    assert(f.execute_high(k, 6) == (g.alu(k, v), 7u64)) by {
        reveal(CpuModel::execute_high);
    }
    assert(wrap16(wrap16(m.pc + 1) + 1) == wrap16(m.pc + 2));
    law_add_operations(g, v);
    law_subtract_operations(g, v);
    law_logical_operations(g, v);
}

/// A key handed over to a program that waits for one is reported ready
/// by the status port, and it is the byte that the next read of the data
/// port gives; a key offered while nothing waits is not taken.
pub proof fn law_key_handed_over_is_read(m: IoModel, k: u8)
    requires
        !m.io_reset_pending,
    ensures
        m.input_awaiting == m.poll_input(Some(k)).1,
        m.poll_input(Some(k)).1 ==> m.poll_input(Some(k)).0.input(0x85).1 == 2,
        m.poll_input(Some(k)).1 ==> m.poll_input(Some(k)).0.input(0x84).1 == k,
{
}

/// After command 27 on the status port, a read of the data port finds no
/// key, answers 01 and leaves the program waiting; a key then handed over
/// is taken and is what the following read gives.
pub proof fn law_read_waits_then_takes_key(m: IoModel, k: u8)
    ensures
        ({
            let m1 = m.output(0x85, 0x27);
            let (m2, b) = m1.input(0x84);
            let (m3, taken) = m2.poll_input(Some(k));
            &&& b == 0x01
            &&& m2.input_awaiting
            &&& taken
            &&& m3.input(0x84).1 == k
        }),
{
}

/// INR and DCR add and subtract one modulo 256 and leave CY alone.
pub proof fn law_increment_decrement(m: CpuModel, r: int)
    requires
        m.wf(),
        0 <= r < 8,
    ensures
        m.inr(r).reg(r) as int == (m.reg(r) + 1) % 256,
        m.dcr(r).reg(r) as int == (m.reg(r) + 255) % 256,
        has_flag(m.inr(r).flags, flag_cy()) == m.carry(),
        has_flag(m.dcr(r).flags, flag_cy()) == m.carry(),
{
    let old = m.reg(r);
    law_set_reg_then_reg(m, r, crate::cpu::isa::wrap8(old + 1));
    law_set_reg_then_reg(m, r, crate::cpu::isa::wrap8(old - 1));
    law_result_flags(m.flags, crate::cpu::isa::wrap8(old + 1), (old % 16) + 1 > 15, m.carry());
    law_result_flags(m.flags, crate::cpu::isa::wrap8(old - 1), old % 16 == 0, m.carry());
}

/// DAD adds a register pair to HL modulo 65536 and sets CY on a carry out
/// of 16 bits.
pub proof fn law_double_add(m: CpuModel, rp: int)
    requires
        0 <= rp < 4,
    ensures
        m.dad(rp).hl() as int == (m.hl() + m.pair(rp)) % 65536,
        has_flag(m.dad(rp).flags, flag_cy()) == (m.hl() + m.pair(rp) > 65535),
{
    let sum = m.hl() + m.pair(rp);
    let w = wrap16(sum);
    law_set_pair_then_pair(m, 2, w);
    let f = m.flags;
    assert(has_flag(with_flag(f, 1u8, true), 1u8)) by {
        assert((f | 1u8) & 1u8 != 0) by (bit_vector);
    }
    assert(!has_flag(with_flag(f, 1u8, false), 1u8)) by {
        assert((f & !1u8) & 1u8 == 0) by (bit_vector);
    }
}

/// CALL pushes the address of the next instruction and jumps to its
/// operand; a RET found there returns to the instruction after the CALL
/// with the stack pointer back where it was. The RET byte must not lie
/// where the CALL pushes.
pub proof fn law_call_then_return(m: CpuModel)
    requires
        m.wf(),
        m.mem[m.pc as int] == 0xCD,
        ({
            let t = word(m.mem[wrap16(m.pc + 2) as int], m.mem[wrap16(m.pc + 1) as int]);
            &&& t != wrap16(m.sp - 1)
            &&& t != wrap16(m.sp - 2)
            &&& m.mem[t as int] == 0xC9
        }),
    ensures
        ({
            let t = word(m.mem[wrap16(m.pc + 2) as int], m.mem[wrap16(m.pc + 1) as int]);
            let s1 = m.step().0;
            let s2 = s1.step().0;
            &&& s1.pc == t
            &&& s1.sp == wrap16(m.sp - 2)
            &&& s2.pc == wrap16(m.pc + 3)
            &&& s2.sp == m.sp
        }),
{
    let (op, f) = m.fetch8();
    assert(op as int / 64 == 3 && (op as int / 8) % 8 == 1 && op as int % 8 == 5);
    let (addr, g) = f.fetch16();
    assert(f.execute(op) == f.execute_high(1, 5)) by {
        reveal(CpuModel::execute);
    }
    assert(f.execute_high(1, 5) == (CpuModel { pc: addr, ..g.push16(g.pc) }, 17u64)) by {
        reveal(CpuModel::execute_high);
    }
    assert(wrap16(wrap16(m.pc + 1) + 1) == wrap16(m.pc + 2));
    assert(wrap16(wrap16(m.pc + 1) + 2) == wrap16(m.pc + 3));
    let s1 = m.step().0;
    assert(s1.mem[s1.pc as int] == 0xC9);
    let (op2, f2) = s1.fetch8();
    assert(op2 as int / 64 == 3 && (op2 as int / 8) % 8 == 1 && op2 as int % 8 == 1);
    assert(f2.execute(op2) == f2.execute_high(1, 1)) by {
        reveal(CpuModel::execute);
    }
    assert(f2.execute_high(1, 1) == (CpuModel { pc: f2.pop16().0, ..f2.pop16().1 }, 10u64)) by {
        reveal(CpuModel::execute_high);
    }
    law_push_then_pop(g, g.pc);
    assert(f2.sp == g.push16(g.pc).sp && f2.mem == g.push16(g.pc).mem);
}

proof fn lemma_with_carry(f: u8, v: bool)
    ensures
        has_flag(with_flag(f, flag_cy(), v), flag_cy()) == v,
{
    assert((f | 1u8) & 1u8 != 0) by (bit_vector);
    assert((f & !1u8) & 1u8 == 0) by (bit_vector);
}

/// The rotates, CMA and the carry instructions, in plain arithmetic: RLC
/// and RAL shift left, RRC and RAR shift right, bringing in the bit shifted
/// out (RLC, RRC) or the old carry (RAL, RAR) and putting the bit shifted
/// out into CY; CMA complements the accumulator; STC sets CY, CMC
/// complements it.
pub proof fn law_rotates_and_carry(m: CpuModel)
    ensures
        m.misc(0).a as int == (2 * m.a + m.a / 128) % 256,
        has_flag(m.misc(0).flags, flag_cy()) == (m.a >= 128),
        m.misc(1).a as int == m.a / 2 + (m.a % 2) * 128,
        has_flag(m.misc(1).flags, flag_cy()) == (m.a % 2 == 1),
        m.misc(2).a as int == (2 * m.a + if m.carry() { 1int } else { 0int }) % 256,
        has_flag(m.misc(2).flags, flag_cy()) == (m.a >= 128),
        m.misc(3).a as int == m.a / 2 + if m.carry() { 128int } else { 0int },
        has_flag(m.misc(3).flags, flag_cy()) == (m.a % 2 == 1),
        m.misc(5).a as int == 255 - m.a,
        has_flag(m.misc(6).flags, flag_cy()),
        has_flag(m.misc(7).flags, flag_cy()) == !m.carry(),
{
    lemma_with_carry(m.flags, m.a >= 128);
    lemma_with_carry(m.flags, m.a % 2 == 1);
    lemma_with_carry(m.flags, true);
    lemma_with_carry(m.flags, !m.carry());
}

/// JMP goes to its operand; a conditional jump goes there when its
/// condition holds and otherwise to the next instruction.
pub proof fn law_jumps(m: CpuModel, cc: int)
    requires
        m.wf(),
        0 <= cc < 8,
        m.mem[m.pc as int] == 0xC3 || m.mem[m.pc as int] == 0xC2 + 8 * cc,
    ensures
        ({
            let t = word(m.mem[wrap16(m.pc + 2) as int], m.mem[wrap16(m.pc + 1) as int]);
            let s = m.step().0;
            &&& m.mem[m.pc as int] == 0xC3 ==> s.pc == t
            &&& m.mem[m.pc as int] == 0xC2 + 8 * cc ==> s.pc == if m.condition(cc) {
                t
            } else {
                wrap16(m.pc + 3)
            }
        }),
{
    let (op, f) = m.fetch8();
    assert(wrap16(wrap16(m.pc + 1) + 1) == wrap16(m.pc + 2));
    assert(wrap16(wrap16(m.pc + 1) + 2) == wrap16(m.pc + 3));
    if op == 0xC3 {
        assert(op as int / 64 == 3 && (op as int / 8) % 8 == 0 && op as int % 8 == 3);
        assert(f.execute(op) == f.execute_high(0, 3)) by {
            reveal(CpuModel::execute);
        }
        assert(f.execute_high(0, 3).0.pc == f.fetch16().0) by {
            reveal(CpuModel::execute_high);
        }
    }
    if op == 0xC2 + 8 * cc {
        assert(op as int / 64 == 3 && (op as int / 8) % 8 == cc && op as int % 8 == 2);
        assert(f.execute(op) == f.execute_high(cc, 2)) by {
            reveal(CpuModel::execute);
        }
        assert(f.execute_high(cc, 2).0.pc == if f.condition(cc) {
            f.fetch16().0
        } else {
            f.fetch16().1.pc
        }) by {
            reveal(CpuModel::execute_high);
        }
    }
}

/// The conditions of jumps, calls and returns, by flag bit: NZ and Z test
/// bit 6 (Z), NC and C bit 0 (CY), PO and PE bit 2 (P), P and M bit 7 (S).
pub proof fn law_conditions(m: CpuModel)
    ensures
        m.condition(0) == (m.flags & 0x40 == 0),
        m.condition(1) == (m.flags & 0x40 != 0),
        m.condition(2) == (m.flags & 0x01 == 0),
        m.condition(3) == (m.flags & 0x01 != 0),
        m.condition(4) == (m.flags & 0x04 == 0),
        m.condition(5) == (m.flags & 0x04 != 0),
        m.condition(6) == (m.flags & 0x80 == 0),
        m.condition(7) == (m.flags & 0x80 != 0),
{
}

/// In scrolling mode a printable ASCII byte is shown as that character,
/// appended to the output, and changes nothing else.
pub proof fn law_append_mode_echoes(t: TerminalModel, v: u8)
    requires
        !t.screen_mode,
        t.esc == EscapeState::Plain,
        0x20 <= v <= 0x7E,
    ensures
        t.process_byte(v) == (t, Some(OutputModel::Append(seq![v as char]))),
{
}

/// In screen mode a printable ASCII byte is written at the cursor, the
/// cursor moves one column right (short of the row's end), every other
/// cell stays, and the screen is redrawn.
pub proof fn law_screen_mode_writes_at_cursor(t: TerminalModel, v: u8)
    requires
        t.wf(),
        t.screen_mode,
        t.esc == EscapeState::Plain,
        0x20 <= v <= 0x7E,
        t.col + 1 < TERM_COLS,
    ensures
        ({
            let (t2, out) = t.process_byte(v);
            let idx = t.row * TERM_COLS + t.col;
            &&& t2.buffer.len() == t.buffer.len()
            &&& t2.buffer[idx] == v as char
            &&& forall|j: int| 0 <= j < t.buffer.len() && j != idx ==> #[trigger] t2.buffer[j] == t.buffer[j]
            &&& t2.row == t.row
            &&& t2.col == t.col + 1
            &&& out == Some(OutputModel::Redraw(render_spec(t2.buffer)))
        }),
{
    let idx = t.row * TERM_COLS + t.col;
    assert(idx < screen_len()) by (nonlinear_arith)
        requires
            t.row < TERM_ROWS,
            t.col < TERM_COLS,
            idx == t.row * TERM_COLS + t.col,
    ;
}

/// In screen mode ESC Y followed by the row and the column, each plus 20h,
/// moves the cursor there.
pub proof fn law_cursor_addressing(t: TerminalModel, r: u8, c: u8)
    requires
        t.screen_mode,
        t.esc == EscapeState::Plain,
        r < TERM_ROWS,
        c < TERM_COLS,
    ensures
        ({
            let t1 = t.process_byte(0x1B).0;
            let t2 = t1.process_byte(0x59).0;
            let t3 = t2.process_byte((r + 0x20) as u8).0;
            let t4 = t3.process_byte((c + 0x20) as u8).0;
            &&& t4.row == r
            &&& t4.col == c
            &&& t4.esc == EscapeState::Plain
            &&& t4.buffer == t.buffer
        }),
{
}

} // verus!
