use vstd::prelude::*;

use crate::cpu::isa::{CpuModel, hi_byte, lo_byte, word, wrap16, with_flag, flag_cy, flag_s, flag_z, flag_p, flag_ac, result_flags};
use crate::cpu::{has_even_parity, Cpu};

verus! {

impl Cpu {
    pub fn get_address_from_m(&self) -> (a: u16)
        ensures
            a == self@.hl(),
    {
        Self::join(self.h_reg, self.l_reg)
    }

    pub fn get_address_from_m_as_usize(&self) -> (a: usize)
        ensures
            a == self@.hl(),
            a < 65536,
    {
        self.get_address_from_m() as usize
    }

    fn join(hi: u8, lo: u8) -> (w: u16)
        ensures
            w == word(hi, lo),
    {
        let w = ((hi as u16) << 8) | (lo as u16);
        assert(w == hi as int * 256 + lo as int) by (bit_vector)
            requires
                w == ((hi as u16) << 8) | (lo as u16),
        ;
        w
    }

    fn split(v: u16) -> (r: (u8, u8))
        ensures
            r.0 == hi_byte(v),
            r.1 == lo_byte(v),
    {
        let hi = (v >> 8) as u8;
        let lo = v as u8;
        assert(hi == v as int / 256 && lo == v as int % 256) by (bit_vector)
            requires
                hi == (v >> 8) as u8,
                lo == v as u8,
        ;
        (hi, lo)
    }

    pub fn set_carry_flag(&mut self, value: bool)
        ensures
            final(self)@ == (CpuModel { flags: with_flag(old(self).flags, flag_cy(), value), ..old(self)@ }),
    {
        if value {
            self.flags = self.flags | 0b0000_0001;
        } else {
            self.flags = self.flags & !0b0000_0001u8;
        }
    }

    pub fn get_carry_flag(&self) -> (b: bool)
        ensures
            b == self@.carry(),
    {
        self.flags & 0b0000_0001 != 0
    }

    pub fn set_sign_flag(&mut self, value: bool)
        ensures
            final(self)@ == (CpuModel { flags: with_flag(old(self).flags, flag_s(), value), ..old(self)@ }),
    {
        if value {
            self.flags = self.flags | 0b1000_0000;
        } else {
            self.flags = self.flags & !0b1000_0000u8;
        }
    }

    pub fn get_sign_flag(&self) -> (b: bool)
        ensures
            b == self@.sign(),
    {
        self.flags & 0b1000_0000 != 0
    }

    pub fn set_zero_flag(&mut self, value: bool)
        ensures
            final(self)@ == (CpuModel { flags: with_flag(old(self).flags, flag_z(), value), ..old(self)@ }),
    {
        if value {
            self.flags = self.flags | 0b0100_0000;
        } else {
            self.flags = self.flags & !0b0100_0000u8;
        }
    }

    pub fn get_zero_flag(&self) -> (b: bool)
        ensures
            b == self@.zero(),
    {
        self.flags & 0b0100_0000 != 0
    }

    pub fn set_parity_flag(&mut self, value: bool)
        ensures
            final(self)@ == (CpuModel { flags: with_flag(old(self).flags, flag_p(), value), ..old(self)@ }),
    {
        if value {
            self.flags = self.flags | 0b0000_0100;
        } else {
            self.flags = self.flags & !0b0000_0100u8;
        }
    }

    pub fn get_parity_flag(&self) -> (b: bool)
        ensures
            b == self@.parity(),
    {
        self.flags & 0b0000_0100 != 0
    }

    pub fn set_auxiliary_carry_flag(&mut self, value: bool)
        ensures
            final(self)@ == (CpuModel { flags: with_flag(old(self).flags, flag_ac(), value), ..old(self)@ }),
    {
        if value {
            self.flags = self.flags | 0b0001_0000;
        } else {
            self.flags = self.flags & !0b0001_0000u8;
        }
    }

    pub fn get_auxiliary_carry_flag(&self) -> (b: bool)
        ensures
            b == self@.aux_carry(),
    {
        self.flags & 0b0001_0000 != 0
    }

    /// Sets sign, zero and parity from `value` and the auxiliary carry and
    /// carry flags as given.
    fn set_result_flags(&mut self, value: u8, ac: bool, cy: bool)
        ensures
            final(self)@ == (CpuModel { flags: result_flags(old(self).flags, value, ac, cy), ..old(self)@ }),
    {
        let p = has_even_parity(value);
        let f = self.flags;
        self.flags = (f & 0x2A) | (if value >= 0x80 { 0x80u8 } else { 0u8 }) | (if value == 0 {
            0x40u8
        } else {
            0u8
        }) | (if ac { 0x10u8 } else { 0u8 }) | (if p { 0x04u8 } else { 0u8 }) | (if cy {
            0x01u8
        } else {
            0u8
        });
    }

    pub fn get_bc(&self) -> (v: u16)
        ensures
            v == self@.bc(),
    {
        Self::join(self.b_reg, self.c_reg)
    }

    pub fn set_bc(&mut self, value: u16)
        ensures
            final(self)@ == old(self)@.set_pair(0, value),
    {
        let (hi, lo) = Self::split(value);
        self.b_reg = hi;
        self.c_reg = lo;
    }

    pub fn get_de(&self) -> (v: u16)
        ensures
            v == self@.de(),
    {
        Self::join(self.d_reg, self.e_reg)
    }

    pub fn set_de(&mut self, value: u16)
        ensures
            final(self)@ == old(self)@.set_pair(1, value),
    {
        let (hi, lo) = Self::split(value);
        self.d_reg = hi;
        self.e_reg = lo;
    }

    pub fn get_hl(&self) -> (v: u16)
        ensures
            v == self@.hl(),
    {
        Self::join(self.h_reg, self.l_reg)
    }

    pub fn set_hl(&mut self, value: u16)
        ensures
            final(self)@ == old(self)@.set_pair(2, value),
    {
        let (hi, lo) = Self::split(value);
        self.h_reg = hi;
        self.l_reg = lo;
    }

    /// Register pair `rp`: BC, DE, HL or SP.
    pub(crate) fn get_pair(&self, rp: u8) -> (v: u16)
        requires
            rp < 4,
        ensures
            v == self@.pair(rp as int),
    {
        if rp == 0 {
            self.get_bc()
        } else if rp == 1 {
            self.get_de()
        } else if rp == 2 {
            self.get_hl()
        } else {
            self.stack_pointer
        }
    }

    pub(crate) fn set_pair(&mut self, rp: u8, value: u16)
        requires
            rp < 4,
        ensures
            final(self)@ == old(self)@.set_pair(rp as int, value),
    {
        if rp == 0 {
            self.set_bc(value);
        } else if rp == 1 {
            self.set_de(value);
        } else if rp == 2 {
            self.set_hl(value);
        } else {
            Self::perform_lxi_operation(&mut self.stack_pointer, value);
        }
    }

    /// Register operand `r`: B, C, D, E, H, L, M or A.
    pub(crate) fn get_reg(&self, r: u8) -> (v: u8)
        requires
            r < 8,
        ensures
            v == self@.reg(r as int),
    {
        match r {
            0 => self.b_reg,
            1 => self.c_reg,
            2 => self.d_reg,
            3 => self.e_reg,
            4 => self.h_reg,
            5 => self.l_reg,
            6 => self.memory[self.get_address_from_m_as_usize()],
            _ => self.a_reg,
        }
    }

    pub(crate) fn set_reg(&mut self, r: u8, v: u8)
        requires
            r < 8,
        ensures
            final(self)@ == old(self)@.set_reg(r as int, v),
    {
        match r {
            0 => self.b_reg = v,
            1 => self.c_reg = v,
            2 => self.d_reg = v,
            3 => self.e_reg = v,
            4 => self.h_reg = v,
            5 => self.l_reg = v,
            6 => {
                let addr = self.get_address_from_m_as_usize();
                self.memory[addr] = v;
            },
            _ => self.a_reg = v,
        }
    }

    pub fn pop_stack_u16(&mut self) -> (v: u16)
        ensures
            (v, final(self)@) == old(self)@.pop16(),
    {
        let lo = self.memory[self.stack_pointer as usize];
        self.stack_pointer = self.stack_pointer.wrapping_add(1);
        let hi = self.memory[self.stack_pointer as usize];
        self.stack_pointer = self.stack_pointer.wrapping_add(1);
        Self::join(hi, lo)
    }

    pub fn push_stack_u16(&mut self, value: u16)
        ensures
            final(self)@ == old(self)@.push16(value),
    {
        let (hi, lo) = Self::split(value);
        self.stack_pointer = self.stack_pointer.wrapping_sub(1);
        self.memory[self.stack_pointer as usize] = hi;
        self.stack_pointer = self.stack_pointer.wrapping_sub(1);
        self.memory[self.stack_pointer as usize] = lo;
    }

    pub(crate) fn read_u16_from_memory(&mut self) -> (v: u16)
        ensures
            (v, final(self)@) == old(self)@.fetch16(),
    {
        let lo = self.memory[self.program_counter as usize];
        self.program_counter = self.program_counter.wrapping_add(1);
        let hi = self.memory[self.program_counter as usize];
        self.program_counter = self.program_counter.wrapping_add(1);
        Self::join(hi, lo)
    }

    pub(crate) fn read_u8_from_memory(&mut self) -> (v: u8)
        ensures
            (v, final(self)@) == old(self)@.fetch8(),
    {
        let value = self.memory[self.program_counter as usize];
        self.program_counter = self.program_counter.wrapping_add(1);
        value
    }

    pub fn perform_u8_addition(&mut self, value: u8)
        ensures
            final(self)@ == old(self)@.alu(0, value),
    {
        let a = self.a_reg;
        let sum = a as u16 + value as u16;
        let carry = sum > 0xFF;
        let result = if carry { (sum - 256) as u8 } else { sum as u8 };
        proof {
            lemma_low_nibble(a);
            lemma_low_nibble(value);
        }
        let aux_carry = ((a & 0x0F) + (value & 0x0F)) > 0x0F;
        self.a_reg = result;
        self.set_result_flags(result, aux_carry, carry);
    }

    pub fn perform_dad_operation(&mut self, value: u16)
        ensures
            final(self)@ == (CpuModel {
                flags: with_flag(old(self).flags, flag_cy(), old(self)@.hl() + value > 65535),
                ..old(self)@.set_pair(2, wrap16(old(self)@.hl() + value))
            }),
    {
        let hl = self.get_hl();
        let sum = hl as u32 + value as u32;
        let carry = sum > 0xFFFF;
        let result = if carry { (sum - 65536) as u16 } else { sum as u16 };
        self.set_hl(result);
        self.set_carry_flag(carry);
    }

    pub fn perform_u8_subtraction(&mut self, value: u8)
        ensures
            final(self)@ == old(self)@.alu(2, value),
    {
        let a = self.a_reg;
        let borrow = a < value;
        let result = a.wrapping_sub(value);
        proof {
            lemma_low_nibble(a);
            lemma_low_nibble(value);
        }
        let aux_carry = (a & 0x0F) < (value & 0x0F);
        self.a_reg = result;
        self.set_result_flags(result, aux_carry, borrow);
    }

    pub fn perform_and_operation(&mut self, value: u8)
        ensures
            final(self)@ == old(self)@.alu(4, value),
    {
        let r = self.a_reg & value;
        self.a_reg = r;
        self.set_result_flags(r, true, false);
    }

    pub fn perform_or_operation(&mut self, value: u8)
        ensures
            final(self)@ == old(self)@.alu(6, value),
    {
        let r = self.a_reg | value;
        self.a_reg = r;
        self.set_result_flags(r, false, false);
    }

    pub fn perform_lxi_operation_register_pair(reg_hi: &mut u8, reg_lo: &mut u8, value: u16)
        ensures
            *final(reg_hi) == hi_byte(value),
            *final(reg_lo) == lo_byte(value),
    {
        let (hi, lo) = Self::split(value);
        *reg_hi = hi;
        *reg_lo = lo;
    }

    pub fn perform_lxi_operation(reg: &mut u16, value: u16)
        ensures
            *final(reg) == value,
    {
        *reg = value;
    }

    pub fn perform_pop_operation(reg_hi: &mut u8, reg_lo: &mut u8, value: u16)
        ensures
            *final(reg_hi) == hi_byte(value),
            *final(reg_lo) == lo_byte(value),
    {
        let (hi, lo) = Self::split(value);
        *reg_lo = lo;
        *reg_hi = hi;
    }

    pub fn perform_u8_addition_with_carry(&mut self, value: u8)
        ensures
            final(self)@ == old(self)@.alu(1, value),
    {
        let a = self.a_reg;
        let carry: u8 = if self.get_carry_flag() { 1 } else { 0 };
        let sum = a as u16 + value as u16 + carry as u16;
        let cy = sum > 0xFF;
        let result = if cy { (sum - 256) as u8 } else { sum as u8 };
        proof {
            lemma_low_nibble(a);
            lemma_low_nibble(value);
        }
        let ac = ((a & 0x0F) + (value & 0x0F) + carry) > 0x0F;
        self.a_reg = result;
        self.set_result_flags(result, ac, cy);
    }

    pub fn perform_u8_subtraction_with_borrow(&mut self, value: u8)
        ensures
            final(self)@ == old(self)@.alu(3, value),
    {
        let a = self.a_reg;
        let carry: u8 = if self.get_carry_flag() { 1 } else { 0 };
        let total = value.wrapping_add(carry);
        let borrow = a < total;
        let result = a.wrapping_sub(total);
        proof {
            lemma_low_nibble(a);
            lemma_low_nibble(value);
        }
        let ac = (a & 0x0F) < ((value & 0x0F) + carry);
        self.a_reg = result;
        self.set_result_flags(result, ac, borrow);
    }

    pub fn perform_xra_operation(&mut self, value: u8)
        ensures
            final(self)@ == old(self)@.alu(5, value),
    {
        let r = self.a_reg ^ value;
        self.a_reg = r;
        self.set_result_flags(r, false, false);
    }

    pub fn perform_compare_operation(&mut self, value: u8)
        ensures
            final(self)@ == old(self)@.alu(7, value),
    {
        let a = self.a_reg;
        let borrow = a < value;
        let result = a.wrapping_sub(value);
        proof {
            lemma_low_nibble(a);
            lemma_low_nibble(value);
        }
        let ac = (a & 0x0F) < (value & 0x0F);
        self.set_result_flags(result, ac, borrow);
    }

    /// ALU operation `kind` (ADD, ADC, SUB, SBB, ANA, XRA, ORA, CMP) on the
    /// accumulator and `value`.
    pub(crate) fn perform_alu_operation(&mut self, kind: u8, value: u8)
        requires
            kind < 8,
        ensures
            final(self)@ == old(self)@.alu(kind as int, value),
    {
        match kind {
            0 => self.perform_u8_addition(value),
            1 => self.perform_u8_addition_with_carry(value),
            2 => self.perform_u8_subtraction(value),
            3 => self.perform_u8_subtraction_with_borrow(value),
            4 => self.perform_and_operation(value),
            5 => self.perform_xra_operation(value),
            6 => self.perform_or_operation(value),
            _ => self.perform_compare_operation(value),
        }
    }

    /// Sets bit 1 and clears bit 3 of the flag register.
    pub fn normalize_flags(&mut self)
        ensures
            final(self)@ == (CpuModel { flags: (old(self).flags | 0x02) & !0x08u8, ..old(self)@ }),
    {
        self.flags = self.flags | 0b0000_0010;
        self.flags = self.flags & !0b0000_1000u8;
    }
}

proof fn lemma_low_nibble(v: u8)
    ensures
        v & 0x0F == v % 16,
{
    assert(v & 0x0F == v % 16) by (bit_vector);
}

} // verus!
