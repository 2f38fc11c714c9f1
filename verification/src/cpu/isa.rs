use vstd::prelude::*;

use crate::cpu::io_handler::IoModel;

verus! {

/// The abstract state of the 8080 processor: registers, flags, memory and the
/// attached I/O devices.
#[verifier::ext_equal]
pub struct CpuModel {
    pub a: u8,
    pub b: u8,
    pub c: u8,
    pub d: u8,
    pub e: u8,
    pub h: u8,
    pub l: u8,
    pub flags: u8,
    pub sp: u16,
    pub pc: u16,
    pub mem: Seq<u8>,
    pub interrupts_enabled: bool,
    pub halted: bool,
    pub cycles: u64,
    pub io: IoModel,
}

/// Bit masks of the flag register.
pub open spec fn flag_s() -> u8 { 0x80 }
pub open spec fn flag_z() -> u8 { 0x40 }
pub open spec fn flag_ac() -> u8 { 0x10 }
pub open spec fn flag_p() -> u8 { 0x04 }
pub open spec fn flag_cy() -> u8 { 0x01 }

/// `f` with the bit `mask` set when `v` holds and cleared otherwise.
pub open spec fn with_flag(f: u8, mask: u8, v: bool) -> u8 {
    if v { f | mask } else { f & !mask }
}

pub open spec fn has_flag(f: u8, mask: u8) -> bool {
    f & mask != 0
}

/// Number of one bits of a byte.
pub open spec fn popcount(v: nat) -> nat
    decreases v,
{
    if v == 0 { 0 } else { v % 2 + popcount(v / 2) }
}

/// The parity flag is set when the result has an even number of one bits.
pub open spec fn even_parity(v: u8) -> bool {
    popcount(v as nat) % 2 == 0
}

/// The flag register after an operation that sets all five status flags:
/// bits 1, 3 and 5 keep their old value.
pub open spec fn status_flags(f: u8, s: bool, z: bool, ac: bool, p: bool, cy: bool) -> u8 {
    (f & 0x2A) | (if s { 0x80u8 } else { 0u8 }) | (if z { 0x40u8 } else { 0u8 }) | (if ac {
        0x10u8
    } else {
        0u8
    }) | (if p { 0x04u8 } else { 0u8 }) | (if cy { 0x01u8 } else { 0u8 })
}

/// Flags after a result was produced: sign, zero and parity follow the result.
pub open spec fn result_flags(f: u8, r: u8, ac: bool, cy: bool) -> u8 {
    status_flags(f, r >= 0x80, r == 0, ac, even_parity(r), cy)
}

pub open spec fn wrap8(x: int) -> u8 {
    (if x < 0 { x + 256 } else if x > 255 { x - 256 } else { x }) as u8
}

pub open spec fn wrap16(x: int) -> u16 {
    (if x < 0 { x + 65536 } else if x > 65535 { x - 65536 } else { x }) as u16
}

pub open spec fn word(hi: u8, lo: u8) -> u16 {
    (hi as int * 256 + lo as int) as u16
}

pub open spec fn hi_byte(v: u16) -> u8 {
    (v as int / 256) as u8
}

pub open spec fn lo_byte(v: u16) -> u8 {
    (v as int % 256) as u8
}

/// The eight ALU operations, in the order of their opcode field.
pub open spec fn alu_result(kind: int, a: u8, v: u8, cy: bool) -> (u8, bool, bool) {
    let c: int = if cy { 1 } else { 0 };
    if kind == 0 {
        // ADD
        (wrap8(a + v), a + v > 255, (a % 16) + (v % 16) > 15)
    } else if kind == 1 {
        // ADC
        (wrap8(a + v + c), a + v + c > 255, (a % 16) + (v % 16) + c > 15)
    } else if kind == 2 {
        // SUB
        (wrap8(a - v), a < v, a % 16 < v % 16)
    } else if kind == 3 {
        // SBB: the subtrahend plus the borrow wraps to eight bits first
        (wrap8(a - wrap8(v + c)), a < wrap8(v + c), a % 16 < v % 16 + c)
    } else if kind == 4 {
        // ANA
        (a & v, false, true)
    } else if kind == 5 {
        // XRA
        (a ^ v, false, false)
    } else if kind == 6 {
        // ORA
        (a | v, false, false)
    } else {
        // CMP: the accumulator is left unchanged
        (wrap8(a - v), a < v, a % 16 < v % 16)
    }
}

impl CpuModel {
    pub open spec fn hl(self) -> u16 {
        word(self.h, self.l)
    }

    pub open spec fn bc(self) -> u16 {
        word(self.b, self.c)
    }

    pub open spec fn de(self) -> u16 {
        word(self.d, self.e)
    }

    pub open spec fn carry(self) -> bool {
        has_flag(self.flags, flag_cy())
    }

    pub open spec fn zero(self) -> bool {
        has_flag(self.flags, flag_z())
    }

    pub open spec fn sign(self) -> bool {
        has_flag(self.flags, flag_s())
    }

    pub open spec fn parity(self) -> bool {
        has_flag(self.flags, flag_p())
    }

    pub open spec fn aux_carry(self) -> bool {
        has_flag(self.flags, flag_ac())
    }

    /// Register operand `r` of an instruction: B, C, D, E, H, L, M (the byte
    /// at HL) or A.
    pub open spec fn reg(self, r: int) -> u8 {
        if r == 0 {
            self.b
        } else if r == 1 {
            self.c
        } else if r == 2 {
            self.d
        } else if r == 3 {
            self.e
        } else if r == 4 {
            self.h
        } else if r == 5 {
            self.l
        } else if r == 6 {
            self.mem[self.hl() as int]
        } else {
            self.a
        }
    }

    pub open spec fn write_mem(self, addr: u16, v: u8) -> CpuModel {
        CpuModel { mem: self.mem.update(addr as int, v), ..self }
    }

    pub open spec fn set_reg(self, r: int, v: u8) -> CpuModel {
        if r == 0 {
            CpuModel { b: v, ..self }
        } else if r == 1 {
            CpuModel { c: v, ..self }
        } else if r == 2 {
            CpuModel { d: v, ..self }
        } else if r == 3 {
            CpuModel { e: v, ..self }
        } else if r == 4 {
            CpuModel { h: v, ..self }
        } else if r == 5 {
            CpuModel { l: v, ..self }
        } else if r == 6 {
            self.write_mem(self.hl(), v)
        } else {
            CpuModel { a: v, ..self }
        }
    }

    /// Register pair `rp` of an instruction: BC, DE, HL or SP.
    pub open spec fn pair(self, rp: int) -> u16 {
        if rp == 0 {
            self.bc()
        } else if rp == 1 {
            self.de()
        } else if rp == 2 {
            self.hl()
        } else {
            self.sp
        }
    }

    pub open spec fn set_pair(self, rp: int, v: u16) -> CpuModel {
        if rp == 0 {
            CpuModel { b: hi_byte(v), c: lo_byte(v), ..self }
        } else if rp == 1 {
            CpuModel { d: hi_byte(v), e: lo_byte(v), ..self }
        } else if rp == 2 {
            CpuModel { h: hi_byte(v), l: lo_byte(v), ..self }
        } else {
            CpuModel { sp: v, ..self }
        }
    }

    /// The byte at the program counter, and the state with the counter past it.
    pub open spec fn fetch8(self) -> (u8, CpuModel) {
        (self.mem[self.pc as int], CpuModel { pc: wrap16(self.pc + 1), ..self })
    }

    /// The little-endian word at the program counter.
    pub open spec fn fetch16(self) -> (u16, CpuModel) {
        let lo = self.mem[self.pc as int];
        let hi = self.mem[wrap16(self.pc + 1) as int];
        (word(hi, lo), CpuModel { pc: wrap16(self.pc + 2), ..self })
    }

    pub open spec fn push16(self, v: u16) -> CpuModel {
        let sp1 = wrap16(self.sp - 1);
        let sp2 = wrap16(self.sp - 2);
        CpuModel {
            sp: sp2,
            mem: self.mem.update(sp1 as int, hi_byte(v)).update(sp2 as int, lo_byte(v)),
            ..self
        }
    }

    pub open spec fn pop16(self) -> (u16, CpuModel) {
        let lo = self.mem[self.sp as int];
        let hi = self.mem[wrap16(self.sp + 1) as int];
        (word(hi, lo), CpuModel { sp: wrap16(self.sp + 2), ..self })
    }

    /// Condition `cc` of a conditional jump, call or return: NZ, Z, NC, C,
    /// PO, PE, P, M.
    pub open spec fn condition(self, cc: int) -> bool {
        if cc == 0 {
            !self.zero()
        } else if cc == 1 {
            self.zero()
        } else if cc == 2 {
            !self.carry()
        } else if cc == 3 {
            self.carry()
        } else if cc == 4 {
            !self.parity()
        } else if cc == 5 {
            self.parity()
        } else if cc == 6 {
            !self.sign()
        } else {
            self.sign()
        }
    }

    /// Accumulator and flags after ALU operation `kind` with operand `v`.
    pub open spec fn alu(self, kind: int, v: u8) -> CpuModel {
        let (r, cy, ac) = alu_result(kind, self.a, v, self.carry());
        let flags = result_flags(self.flags, r, ac, cy);
        if kind == 7 {
            CpuModel { flags, ..self }
        } else {
            CpuModel { a: r, flags, ..self }
        }
    }

    pub open spec fn inr(self, r: int) -> CpuModel {
        let old = self.reg(r);
        let v = wrap8(old + 1);
        let m = self.set_reg(r, v);
        CpuModel {
            flags: result_flags(self.flags, v, (old % 16) + 1 > 15, self.carry()),
            ..m
        }
    }

    pub open spec fn dcr(self, r: int) -> CpuModel {
        let old = self.reg(r);
        let v = wrap8(old - 1);
        let m = self.set_reg(r, v);
        CpuModel {
            flags: result_flags(self.flags, v, old % 16 == 0, self.carry()),
            ..m
        }
    }

    /// The rotate, decimal-adjust and carry instructions of the first
    /// quarter of the opcode map (07, 0F, ..., 3F).
    pub open spec fn misc(self, k: int) -> CpuModel {
        let a = self.a;
        if k == 0 {
            // RLC
            CpuModel {
                a: wrap8(a * 2 + a / 128),
                flags: with_flag(self.flags, flag_cy(), a >= 128),
                ..self
            }
        } else if k == 1 {
            // RRC
            CpuModel {
                a: (a / 2 + (a % 2) * 128) as u8,
                flags: with_flag(self.flags, flag_cy(), a % 2 == 1),
                ..self
            }
        } else if k == 2 {
            // RAL
            CpuModel {
                a: wrap8((a % 128) * 2 + (if self.carry() { 1int } else { 0int })),
                flags: with_flag(self.flags, flag_cy(), a >= 128),
                ..self
            }
        } else if k == 3 {
            // RAR
            CpuModel {
                a: (a / 2 + (if self.carry() { 128int } else { 0int })) as u8,
                flags: with_flag(self.flags, flag_cy(), a % 2 == 1),
                ..self
            }
        } else if k == 4 {
            // DAA
            let lo_fix = a % 16 > 9 || self.aux_carry();
            let hi_fix = a > 0x99 || self.carry();
            let corr: int = (if lo_fix { 6int } else { 0int }) + (if hi_fix { 0x60int } else { 0int });
            let r = wrap8(a + corr);
            CpuModel {
                a: r,
                flags: result_flags(self.flags, r, (a % 16) + (corr % 16) > 15, hi_fix || a + corr > 255),
                ..self
            }
        } else if k == 5 {
            // CMA
            CpuModel { a: (255 - a) as u8, ..self }
        } else if k == 6 {
            // STC
            CpuModel { flags: with_flag(self.flags, flag_cy(), true), ..self }
        } else {
            // CMC
            CpuModel { flags: with_flag(self.flags, flag_cy(), !self.carry()), ..self }
        }
    }
}

} // verus!

verus! {

impl CpuModel {
    /// Double-register add of HL and a register pair (DAD).
    pub open spec fn dad(self, rp: int) -> CpuModel {
        let sum = self.hl() + self.pair(rp);
        let m = self.set_pair(2, wrap16(sum));
        CpuModel { flags: with_flag(self.flags, flag_cy(), sum > 65535), ..m }
    }

    /// Instructions 00xxxxxx; `y` and `z` are bits 5..3 and 2..0 of the opcode.
    #[verifier::opaque]
    pub open spec fn execute_low(self, y: int, z: int) -> (CpuModel, u64) {
        if z == 0 {
            (self, 4)
        } else if z == 1 {
            if y % 2 == 0 {
                let (v, m) = self.fetch16();
                (m.set_pair(y / 2, v), 10)
            } else {
                (self.dad(y / 2), 10)
            }
        } else if z == 2 {
            if y == 0 {
                (self.write_mem(self.bc(), self.a), 7)
            } else if y == 1 {
                (CpuModel { a: self.mem[self.bc() as int], ..self }, 7)
            } else if y == 2 {
                (self.write_mem(self.de(), self.a), 7)
            } else if y == 3 {
                (CpuModel { a: self.mem[self.de() as int], ..self }, 7)
            } else if y == 4 {
                let (addr, m) = self.fetch16();
                (m.write_mem(addr, m.l).write_mem(wrap16(addr + 1), m.h), 16)
            } else if y == 5 {
                let (addr, m) = self.fetch16();
                (CpuModel { l: m.mem[addr as int], h: m.mem[wrap16(addr + 1) as int], ..m }, 16)
            } else if y == 6 {
                let (addr, m) = self.fetch16();
                (m.write_mem(addr, m.a), 13)
            } else {
                let (addr, m) = self.fetch16();
                (CpuModel { a: m.mem[addr as int], ..m }, 13)
            }
        } else if z == 3 {
            let p = y / 2;
            if y % 2 == 0 {
                (self.set_pair(p, wrap16(self.pair(p) + 1)), 5)
            } else {
                (self.set_pair(p, wrap16(self.pair(p) - 1)), 5)
            }
        } else if z == 4 {
            (self.inr(y), if y == 6 { 10 } else { 5 })
        } else if z == 5 {
            (self.dcr(y), if y == 6 { 10 } else { 5 })
        } else if z == 6 {
            let (v, m) = self.fetch8();
            (m.set_reg(y, v), if y == 6 { 10 } else { 7 })
        } else {
            (self.misc(y), 4)
        }
    }

    /// The flags as PUSH PSW stores them: bits 3 and 5 clear, bit 1 set.
    pub open spec fn psw(self) -> u16 {
        word(self.a, (self.flags & 0xD7) | 0x02)
    }

    /// Instructions 11xxxxxx.
    #[verifier::opaque]
    pub open spec fn execute_high(self, y: int, z: int) -> (CpuModel, u64) {
        if z == 0 {
            if self.condition(y) {
                let (v, m) = self.pop16();
                (CpuModel { pc: v, ..m }, 11)
            } else {
                (self, 5)
            }
        } else if z == 1 {
            if y % 2 == 0 {
                let (v, m) = self.pop16();
                if y / 2 == 3 {
                    (CpuModel { a: hi_byte(v), flags: (lo_byte(v) & 0xD7) | 0x02, ..m }, 10)
                } else {
                    (m.set_pair(y / 2, v), 10)
                }
            } else if y == 1 {
                let (v, m) = self.pop16();
                (CpuModel { pc: v, ..m }, 10)
            } else if y == 3 {
                (self, 4)
            } else if y == 5 {
                (CpuModel { pc: self.hl(), ..self }, 5)
            } else {
                (CpuModel { sp: self.hl(), ..self }, 5)
            }
        } else if z == 2 {
            let (addr, m) = self.fetch16();
            let m2 = if self.condition(y) { CpuModel { pc: addr, ..m } } else { m };
            (m2, if y == 2 || y == 4 || y == 6 { 11 } else { 10 })
        } else if z == 3 {
            if y == 0 {
                let (addr, m) = self.fetch16();
                (CpuModel { pc: addr, ..m }, 10)
            } else if y == 1 {
                (self, 4)
            } else if y == 2 {
                let (dev, m) = self.fetch8();
                (CpuModel { io: m.io.output(dev, m.a), ..m }, 10)
            } else if y == 3 {
                let (dev, m) = self.fetch8();
                let (io, v) = m.io.input(dev);
                (CpuModel { io, a: v, ..m }, 10)
            } else if y == 4 {
                let sp = self.sp as int;
                (
                    CpuModel {
                        l: self.mem[sp],
                        h: self.mem[sp + 1],
                        mem: self.mem.update(sp, self.l).update(sp + 1, self.h),
                        ..self
                    },
                    18,
                )
            } else if y == 5 {
                (CpuModel { h: self.d, l: self.e, d: self.h, e: self.l, ..self }, 5)
            } else if y == 6 {
                (CpuModel { interrupts_enabled: false, ..self }, 4)
            } else {
                (CpuModel { interrupts_enabled: true, ..self }, 4)
            }
        } else if z == 4 {
            let (addr, m) = self.fetch16();
            if self.condition(y) {
                (CpuModel { pc: addr, ..m.push16(m.pc) }, 17)
            } else {
                (m, 11)
            }
        } else if z == 5 {
            if y % 2 == 0 {
                let v = if y / 2 == 3 { self.psw() } else { self.pair(y / 2) };
                (self.push16(v), 11)
            } else if y == 1 {
                let (addr, m) = self.fetch16();
                (CpuModel { pc: addr, ..m.push16(m.pc) }, 17)
            } else {
                (self, 4)
            }
        } else if z == 6 {
            let (v, m) = self.fetch8();
            (m.alu(y, v), 7)
        } else {
            (CpuModel { pc: (y * 8) as u16, ..self.push16(self.pc) }, 11)
        }
    }

    /// Executes the instruction with opcode `op`, whose opcode byte has
    /// already been fetched: the new state and the instruction's cycle count.
    /// The undocumented opcodes 08, 10, 18, 20, 28, 30, 38, CB, D9, DD, ED
    /// and FD do nothing.
    #[verifier::opaque]
    pub open spec fn execute(self, op: u8) -> (CpuModel, u64) {
        let x = op as int / 64;
        let y = (op as int / 8) % 8;
        let z = op as int % 8;
        if x == 0 {
            self.execute_low(y, z)
        } else if x == 1 {
            if op == 0x76 {
                (CpuModel { halted: true, ..self }, 7)
            } else {
                (self.set_reg(y, self.reg(z)), if y == 6 || z == 6 { 7 } else { 5 })
            }
        } else if x == 2 {
            (self.alu(y, self.reg(z)), if z == 6 { 7 } else { 4 })
        } else {
            self.execute_high(y, z)
        }
    }

    /// Whether the next instruction can run: XTHL needs two stack bytes
    /// below the top of memory, and the cycle counter must have room.
    pub open spec fn can_step(self) -> bool {
        &&& self.cycles <= u64::MAX - 18
        &&& !(self.mem[self.pc as int] == 0xE3 && self.sp == 0xFFFF)
    }

    /// One instruction: fetch the opcode, execute it, count its cycles.
    pub open spec fn step(self) -> (CpuModel, u64) {
        let (op, m) = self.fetch8();
        let (m2, c) = m.execute(op);
        (CpuModel { cycles: (m2.cycles + c) as u64, ..m2 }, c)
    }

    pub open spec fn wf(self) -> bool {
        &&& self.mem.len() == 65536
        &&& self.io.wf()
    }
}

} // verus!
