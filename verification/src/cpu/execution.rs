use vstd::prelude::*;

use crate::cpu::isa::{CpuModel, hi_byte, lo_byte, word, wrap16, with_flag, flag_cy, flag_s, flag_z, flag_p, flag_ac, result_flags};
use crate::cpu::Cpu;

verus! {

impl Cpu {
    /// INR r: increments a register; the carry flag is kept.
    fn perform_inr(&mut self, r: u8) -> (cycles: u64)
        requires
            r < 8,
        ensures
            final(self)@ == old(self)@.inr(r as int),
            cycles == if r == 6 { 10u64 } else { 5u64 },
    {
        let old = self.get_reg(r);
        let result = old.wrapping_add(1);
        self.set_reg(r, result);
        let cy = self.get_carry_flag();
        proof {
            assert(old & 0x0F == old % 16) by (bit_vector);
        }
        self.set_result_flags_kept(result, (old & 0x0F) + 1 > 0x0F, cy);
        if r == 6 {
            10
        } else {
            5
        }
    }

    /// DCR r: decrements a register; the carry flag is kept.
    fn perform_dcr(&mut self, r: u8) -> (cycles: u64)
        requires
            r < 8,
        ensures
            final(self)@ == old(self)@.dcr(r as int),
            cycles == if r == 6 { 10u64 } else { 5u64 },
    {
        let old = self.get_reg(r);
        let result = old.wrapping_sub(1);
        self.set_reg(r, result);
        let cy = self.get_carry_flag();
        proof {
            assert(old & 0x0F == old % 16) by (bit_vector);
        }
        self.set_result_flags_kept(result, (old & 0x0F) == 0, cy);
        if r == 6 {
            10
        } else {
            5
        }
    }

    fn set_result_flags_kept(&mut self, value: u8, ac: bool, cy: bool)
        ensures
            final(self)@ == (CpuModel { flags: result_flags(old(self).flags, value, ac, cy), ..old(self)@ }),
    {
        let p = crate::cpu::has_even_parity(value);
        let f = self.flags;
        self.flags = (f & 0x2A) | (if value >= 0x80 { 0x80u8 } else { 0u8 }) | (if value == 0 {
            0x40u8
        } else {
            0u8
        }) | (if ac { 0x10u8 } else { 0u8 }) | (if p { 0x04u8 } else { 0u8 }) | (if cy {
            0x01u8
        } else {
            0u8
        });
    }

    /// MVI r,d8.
    fn perform_mvi(&mut self, r: u8) -> (cycles: u64)
        requires
            r < 8,
        ensures
            final(self)@ == old(self)@.fetch8().1.set_reg(r as int, old(self)@.fetch8().0),
            cycles == if r == 6 { 10u64 } else { 7u64 },
    {
        let v = self.read_u8_from_memory();
        self.set_reg(r, v);
        if r == 6 {
            10
        } else {
            7
        }
    }

    /// Rotates, DAA, CMA, STC and CMC (opcodes 07, 0F, ..., 3F).
    fn perform_misc(&mut self, k: u8)
        requires
            k < 8,
        ensures
            final(self)@ == old(self)@.misc(k as int),
    {
        let a = self.a_reg;
        match k {
            0 => {
                // RLC
                proof {
                    assert((a & 0x80 != 0) == (a >= 128)) by (bit_vector);
                }
                let msb = (a & 0b1000_0000) != 0;
                let r = if msb { ((a - 128) * 2) + 1 } else { a * 2 };
                self.a_reg = r;
                self.set_carry_flag(msb);
            },
            1 => {
                // RRC
                let lsb = (a & 0b1) != 0;
                proof {
                    assert((a & 1 != 0) == (a % 2 == 1)) by (bit_vector);
                }
                self.a_reg = a / 2 + (a % 2) * 128;
                self.set_carry_flag(lsb);
            },
            2 => {
                // RAL
                let old_cy = self.get_carry_flag();
                let msb = (a & 0x80) != 0;
                proof {
                    assert((a & 0x80 != 0) == (a >= 128)) by (bit_vector);
                }
                self.a_reg = (a % 128) * 2 + (if old_cy { 1 } else { 0 });
                self.set_carry_flag(msb);
            },
            3 => {
                // RAR
                let old_cy = self.get_carry_flag();
                let lsb = (a & 0x01) != 0;
                proof {
                    assert((a & 1 != 0) == (a % 2 == 1)) by (bit_vector);
                }
                self.a_reg = a / 2 + (if old_cy { 128 } else { 0 });
                self.set_carry_flag(lsb);
            },
            4 => {
                // DAA
                let cy = self.get_carry_flag();
                let ac = self.get_auxiliary_carry_flag();
                let mut correction = 0u8;
                let mut cy2 = cy;
                if a % 16 > 9 || ac {
                    correction = correction + 0x06;
                }
                if a > 0x99 || cy {
                    correction = correction + 0x60;
                    cy2 = true;
                }
                let sum = a as u16 + correction as u16;
                let carry_out = sum > 0xFF;
                let result = if carry_out { (sum - 256) as u8 } else { sum as u8 };
                let new_ac = (a % 16) + (correction % 16) > 0x0F;
                self.a_reg = result;
                self.set_result_flags_kept(result, new_ac, cy2 || carry_out);
            },
            5 => {
                // CMA
                self.a_reg = 255 - a;
            },
            6 => {
                // STC
                self.set_carry_flag(true);
            },
            _ => {
                // CMC
                let c = self.get_carry_flag();
                self.set_carry_flag(!c);
            },
        }
    }

    /// Instructions 00xxxxxx.
    pub(crate) fn execute_low(&mut self, opcode: u8) -> (cycles: u64)
        requires
            opcode < 0x40,
        ensures
            (final(self)@, cycles) == old(self)@.execute_low(
                (opcode as int / 8) % 8,
                opcode as int % 8,
            ),
            final(self)@.io == old(self)@.io,
            final(self)@.mem.len() == old(self)@.mem.len(),
            final(self).cycle_counter == old(self).cycle_counter,
            4 <= cycles <= 16,
    {
        reveal(CpuModel::execute_low);
        let y = (opcode / 8) % 8;
        let z = opcode % 8;
        match z {
            0 => 4,
            1 => {
                if y % 2 == 0 {
                    // LXI rp,d16
                    let value = self.read_u16_from_memory();
                    self.set_pair(y / 2, value);
                } else {
                    // DAD rp
                    let v = self.get_pair(y / 2);
                    self.perform_dad_operation(v);
                }
                10
            },
            2 => {
                match y {
                    0 => {
                        // STAX B
                        let addr = self.get_bc();
                        self.memory[addr as usize] = self.a_reg;
                        7
                    },
                    1 => {
                        // LDAX B
                        self.a_reg = self.memory[self.get_bc() as usize];
                        7
                    },
                    2 => {
                        // STAX D
                        let addr = self.get_de();
                        self.memory[addr as usize] = self.a_reg;
                        7
                    },
                    3 => {
                        // LDAX D
                        self.a_reg = self.memory[self.get_de() as usize];
                        7
                    },
                    4 => {
                        // SHLD a16
                        let mut address = self.read_u16_from_memory();
                        self.memory[address as usize] = self.l_reg;
                        address = address.wrapping_add(1);
                        self.memory[address as usize] = self.h_reg;
                        16
                    },
                    5 => {
                        // LHLD a16
                        let mut addr = self.read_u16_from_memory();
                        let lo = self.memory[addr as usize];
                        addr = addr.wrapping_add(1);
                        let hi = self.memory[addr as usize];
                        self.l_reg = lo;
                        self.h_reg = hi;
                        16
                    },
                    6 => {
                        // STA a16
                        let address = self.read_u16_from_memory();
                        self.memory[address as usize] = self.a_reg;
                        13
                    },
                    _ => {
                        // LDA a16
                        let addr = self.read_u16_from_memory();
                        self.a_reg = self.memory[addr as usize];
                        13
                    },
                }
            },
            3 => {
                let p = y / 2;
                let v = self.get_pair(p);
                if y % 2 == 0 {
                    // INX rp
                    self.set_pair(p, v.wrapping_add(1));
                } else {
                    // DCX rp
                    self.set_pair(p, v.wrapping_sub(1));
                }
                5
            },
            4 => self.perform_inr(y),
            5 => self.perform_dcr(y),
            6 => self.perform_mvi(y),
            _ => {
                self.perform_misc(y);
                4
            },
        }
    }

    /// Instructions 11xxxxxx.
    pub(crate) fn execute_high(&mut self, opcode: u8) -> (cycles: u64)
        requires
            opcode >= 0xC0,
            old(self).wf(),
            !(opcode == 0xE3 && old(self).stack_pointer == 0xFFFF),
        ensures
            (final(self)@, cycles) == old(self)@.execute_high(
                (opcode as int / 8) % 8,
                opcode as int % 8,
            ),
            final(self).wf(),
            final(self).cycle_counter == old(self).cycle_counter,
            4 <= cycles <= 18,
    {
        reveal(CpuModel::execute_high);
        let y = (opcode / 8) % 8;
        let z = opcode % 8;
        match z {
            0 => {
                // RNZ, RZ, RNC, RC, RPO, RPE, RP, RM
                if self.condition(y) {
                    self.program_counter = self.pop_stack_u16();
                    11
                } else {
                    5
                }
            },
            1 => {
                if y % 2 == 0 {
                    let value = self.pop_stack_u16();
                    if y / 2 == 3 {
                        // POP PSW
                        let (a, flags) = Self::split_word(value);
                        self.flags = (flags & 0b1101_0111) | 0b0000_0010;
                        self.a_reg = a;
                    } else {
                        // POP rp
                        self.set_pair(y / 2, value);
                    }
                    10
                } else if y == 1 {
                    // RET
                    self.program_counter = self.pop_stack_u16();
                    10
                } else if y == 3 {
                    4
                } else if y == 5 {
                    // PCHL
                    self.program_counter = self.get_hl();
                    5
                } else {
                    // SPHL
                    self.stack_pointer = self.get_hl();
                    5
                }
            },
            2 => {
                // JNZ, JZ, JNC, JC, JPO, JPE, JP, JM
                let address = self.read_u16_from_memory();
                if self.condition(y) {
                    self.program_counter = address;
                }
                if y == 2 || y == 4 || y == 6 {
                    11
                } else {
                    10
                }
            },
            3 => {
                match y {
                    0 => {
                        // JMP a16
                        self.program_counter = self.read_u16_from_memory();
                        10
                    },
                    1 => 4,
                    2 => {
                        // OUT d8
                        let device = self.read_u8_from_memory();
                        self.io.handle_output(device, self.a_reg);
                        10
                    },
                    3 => {
                        // IN d8
                        let device = self.read_u8_from_memory();
                        self.a_reg = self.io.handle_input(device);
                        10
                    },
                    4 => {
                        // XTHL
                        let sp = self.stack_pointer as usize;
                        let mut temp = self.memory[sp];
                        self.memory[sp] = self.l_reg;
                        self.l_reg = temp;
                        temp = self.memory[sp + 1];
                        self.memory[sp + 1] = self.h_reg;
                        self.h_reg = temp;
                        18
                    },
                    5 => {
                        // XCHG
                        let h = self.h_reg;
                        let l = self.l_reg;
                        self.h_reg = self.d_reg;
                        self.l_reg = self.e_reg;
                        self.d_reg = h;
                        self.e_reg = l;
                        5
                    },
                    6 => {
                        // DI
                        self.interrupts_enabled = false;
                        4
                    },
                    _ => {
                        // EI
                        self.interrupts_enabled = true;
                        4
                    },
                }
            },
            4 => {
                // CNZ, CZ, CNC, CC, CPO, CPE, CP, CM
                let address = self.read_u16_from_memory();
                if self.condition(y) {
                    self.push_stack_u16(self.program_counter);
                    self.program_counter = address;
                    17
                } else {
                    11
                }
            },
            5 => {
                if y % 2 == 0 {
                    if y / 2 == 3 {
                        // PUSH PSW
                        let flags = (self.flags & 0b1101_0111) | 0b0000_0010;
                        let psw = Self::join_word(self.a_reg, flags);
                        self.push_stack_u16(psw);
                    } else {
                        // PUSH rp
                        let v = self.get_pair(y / 2);
                        self.push_stack_u16(v);
                    }
                    11
                } else if y == 1 {
                    // CALL a16
                    let addr = self.read_u16_from_memory();
                    self.push_stack_u16(self.program_counter);
                    self.program_counter = addr;
                    17
                } else {
                    4
                }
            },
            6 => {
                // ADI, ACI, SUI, SBI, ANI, XRI, ORI, CPI d8
                let value = self.read_u8_from_memory();
                self.perform_alu_operation(y, value);
                7
            },
            _ => {
                // RST n
                self.push_stack_u16(self.program_counter);
                self.program_counter = (y as u16) * 8;
                11
            },
        }
    }

    fn join_word(hi: u8, lo: u8) -> (w: u16)
        ensures
            w == word(hi, lo),
    {
        hi as u16 * 256 + lo as u16
    }

    fn split_word(v: u16) -> (r: (u8, u8))
        ensures
            r.0 == hi_byte(v),
            r.1 == lo_byte(v),
    {
        ((v / 256) as u8, (v % 256) as u8)
    }

    /// Condition `cc` of a conditional instruction.
    fn condition(&self, cc: u8) -> (b: bool)
        requires
            cc < 8,
        ensures
            b == self@.condition(cc as int),
    {
        match cc {
            0 => !self.get_zero_flag(),
            1 => self.get_zero_flag(),
            2 => !self.get_carry_flag(),
            3 => self.get_carry_flag(),
            4 => !self.get_parity_flag(),
            5 => self.get_parity_flag(),
            6 => !self.get_sign_flag(),
            _ => self.get_sign_flag(),
        }
    }
}

} // verus!
