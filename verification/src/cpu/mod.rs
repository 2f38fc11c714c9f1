use vstd::prelude::*;

pub mod deassembler;
pub mod io_handler;
pub mod execution;
pub mod instructions;
pub mod isa;
pub mod laws;
pub mod simulation;
pub mod terminal;

use crate::cpu::deassembler::{deassemble, deassemble_spec};
use crate::cpu::io_handler::{fresh_io, IoHandler};
use crate::cpu::isa::{CpuModel, even_parity, popcount, hi_byte, lo_byte, word, wrap16, with_flag, flag_cy, flag_s, flag_z, flag_p, flag_ac, result_flags};

verus! {

pub const MEMORY_SIZE: usize = 65536;

/// Registers and flags as the debugger shows them.
#[derive(Clone, Copy, Debug)]
pub struct CpuState {
    pub a: u8,
    pub b: u8,
    pub c: u8,
    pub d: u8,
    pub e: u8,
    pub h: u8,
    pub l: u8,
    pub flags: u8,
    pub stack_pointer: u16,
    pub program_counter: u16,
}

/// `m` after a reset: registers zero, flags 02, program counter 0, stack
/// pointer 0FFF, interrupts off, not halted, no cycles counted; memory and
/// devices are kept.
pub open spec fn after_reset(m: CpuModel) -> CpuModel {
    CpuModel {
        a: 0,
        b: 0,
        c: 0,
        d: 0,
        e: 0,
        h: 0,
        l: 0,
        flags: 0x02,
        pc: 0,
        sp: 0x0FFF,
        interrupts_enabled: false,
        halted: false,
        cycles: 0,
        ..m
    }
}

/// The state after `n` instructions from `m`.
pub open spec fn steps(m: CpuModel, n: nat) -> CpuModel
    decreases n,
{
    if n == 0 {
        m
    } else {
        steps(m, (n - 1) as nat).step().0
    }
}

/// From `m`, `r` is reached after `n` instructions, each taken while the
/// processor had not halted and could step, and there the processor has
/// halted or cannot step.
pub open spec fn runs_to(m: CpuModel, n: nat, r: CpuModel) -> bool {
    &&& r == steps(m, n)
    &&& forall|k: nat| k < n ==> !(#[trigger] steps(m, k)).halted && steps(m, k).can_step()
    &&& r.halted || !r.can_step()
}

/// The registers and flags of a processor state.
pub open spec fn state_of(m: CpuModel) -> CpuState {
    CpuState {
        a: m.a,
        b: m.b,
        c: m.c,
        d: m.d,
        e: m.e,
        h: m.h,
        l: m.l,
        flags: m.flags,
        stack_pointer: m.sp,
        program_counter: m.pc,
    }
}

impl Default for CpuState {
    fn default() -> (s: Self)
        ensures
            s.a == 0 && s.b == 0 && s.c == 0 && s.d == 0 && s.e == 0 && s.h == 0 && s.l == 0
                && s.flags == 0 && s.stack_pointer == 0 && s.program_counter == 0,
    {
        CpuState {
            a: 0,
            b: 0,
            c: 0,
            d: 0,
            e: 0,
            h: 0,
            l: 0,
            flags: 0,
            stack_pointer: 0,
            program_counter: 0,
        }
    }
}

/// One executed instruction: its address and its assembly text.
#[derive(Clone, Debug)]
pub struct InstructionTrace {
    pub address: u16,
    pub text: String,
}

/// An Intel 8080 processor with 64 KiB of memory and its I/O devices.
pub struct Cpu {
    pub a_reg: u8,
    pub flags: u8,
    pub b_reg: u8,
    pub c_reg: u8,
    pub d_reg: u8,
    pub e_reg: u8,
    pub h_reg: u8,
    pub l_reg: u8,
    pub stack_pointer: u16,
    pub program_counter: u16,
    pub memory: [u8; MEMORY_SIZE],
    pub interrupts_enabled: bool,
    pub halted: bool,
    pub cycle_counter: u64,
    pub io: IoHandler,
}

impl View for Cpu {
    type V = CpuModel;

    open spec fn view(&self) -> CpuModel {
        CpuModel {
            a: self.a_reg,
            b: self.b_reg,
            c: self.c_reg,
            d: self.d_reg,
            e: self.e_reg,
            h: self.h_reg,
            l: self.l_reg,
            flags: self.flags,
            sp: self.stack_pointer,
            pc: self.program_counter,
            mem: self.memory@,
            interrupts_enabled: self.interrupts_enabled,
            halted: self.halted,
            cycles: self.cycle_counter,
            io: self.io@,
        }
    }
}

/// The processor after power-on with the given memory contents: registers
/// zero, flags 02, stack pointer 0FFF, program counter 0, interrupts on.
pub open spec fn power_on(mem: Seq<u8>) -> CpuModel {
    CpuModel {
        a: 0,
        b: 0,
        c: 0,
        d: 0,
        e: 0,
        h: 0,
        l: 0,
        flags: 0x02,
        sp: 0x0FFF,
        pc: 0,
        mem,
        interrupts_enabled: true,
        halted: false,
        cycles: 0,
        io: fresh_io(),
    }
}

/// Whether a byte has an even number of one bits (`count_ones() % 2 == 0`).
pub fn has_even_parity(v: u8) -> (b: bool)
    ensures
        b == even_parity(v),
{
    let mut x: u8 = v;
    let mut n: u8 = 0;
    proof {
        lemma_popcount_u8(v);
    }
    while x != 0
        invariant
            n as nat + popcount(x as nat) == popcount(v as nat),
            popcount(v as nat) <= 8,
        decreases x,
    {
        n = n + x % 2;
        x = x / 2;
    }
    n % 2 == 0
}

proof fn lemma_popcount_u8(v: u8)
    ensures
        popcount(v as nat) <= 8,
{
    reveal_with_fuel(pow2_nat, 9);
    lemma_popcount_log(v as nat, 8);
}

proof fn lemma_popcount_log(v: nat, k: nat)
    requires
        v < pow2_nat(k),
    ensures
        popcount(v) <= k,
    decreases k,
{
    if k == 0 {
    } else if v > 0 {
        assert(v / 2 < pow2_nat((k - 1) as nat));
        lemma_popcount_log(v / 2, (k - 1) as nat);
    }
}

pub open spec fn pow2_nat(k: nat) -> nat
    decreases k,
{
    if k == 0 { 1 } else { 2 * pow2_nat((k - 1) as nat) }
}

impl Cpu {
    pub open spec fn wf(&self) -> bool {
        self@.wf()
    }

    /// A processor after power-on with zeroed memory.
    pub fn new() -> (cpu: Self)
        ensures
            cpu@ == power_on(Seq::new(65536, |i: int| 0u8)),
            cpu.wf(),
    {
        let cpu = Self::with_memory([0u8; MEMORY_SIZE]);
        proof {
            assert(cpu@.mem =~= Seq::new(65536, |i: int| 0u8));
        }
        cpu
    }

    /// A processor after power-on with the given memory contents.
    pub fn with_memory(memory: [u8; MEMORY_SIZE]) -> (cpu: Self)
        ensures
            cpu@ == power_on(memory@),
            cpu.wf(),
    {
        Cpu {
            a_reg: 0,
            flags: 0b00000010,
            b_reg: 0,
            c_reg: 0,
            d_reg: 0,
            e_reg: 0,
            h_reg: 0,
            l_reg: 0,
            stack_pointer: 0x0FFF,
            program_counter: 0,
            memory,
            interrupts_enabled: true,
            halted: false,
            cycle_counter: 0,
            io: IoHandler::new(),
        }
    }

    /// Whether `step` may run: see `CpuModel::can_step`.
    pub fn can_step(&self) -> (b: bool)
        ensures
            b == self@.can_step(),
    {
        self.cycle_counter <= u64::MAX - 18 && !(self.memory[self.program_counter as usize] == 0xE3
            && self.stack_pointer == 0xFFFF)
    }

    /// Runs until the processor halts. It also stops, rather than overflow
    /// the cycle counter or run XTHL off the end of memory, before an
    /// instruction that could not run.
    pub fn run(&mut self)
        requires
            old(self).wf(),
        ensures
            final(self).wf(),
            exists|n: nat| runs_to(old(self)@, n, final(self)@),
    {
        let ghost start = self@;
        let ghost mut n: nat = 0;
        while !self.halted && self.can_step()
            invariant
                self.wf(),
                self@ == steps(start, n),
                forall|k: nat| k < n ==> !(#[trigger] steps(start, k)).halted && steps(
                    start,
                    k,
                ).can_step(),
            decreases u64::MAX - self.cycle_counter,
        {
            self.step_with_cycles();
            proof {
                assert(steps(start, n + 1) == steps(start, n).step().0);
                n = n + 1;
            }
        }
        assert(runs_to(start, n, self@));
    }

    /// Back to the power-on registers with interrupts disabled; memory and
    /// devices are kept.
    pub fn reset(&mut self)
        ensures
            final(self)@ == after_reset(old(self)@),
    {
        self.a_reg = 0;
        self.b_reg = 0;
        self.c_reg = 0;
        self.d_reg = 0;
        self.e_reg = 0;
        self.h_reg = 0;
        self.l_reg = 0;
        self.flags = 0b00000010;
        self.program_counter = 0x0000;
        self.stack_pointer = 0x0FFF;
        self.interrupts_enabled = false;
        self.halted = false;
        self.cycle_counter = 0;
    }

    pub fn is_halted(&self) -> (b: bool)
        ensures
            b == self@.halted,
    {
        self.halted
    }

    /// Executes one instruction.
    pub fn step(&mut self)
        requires
            old(self).wf(),
            old(self)@.can_step(),
        ensures
            final(self).wf(),
            final(self)@ == old(self)@.step().0,
    {
        let _ = self.step_with_cycles();
    }

    /// Executes one instruction and returns its cycle count.
    pub fn step_with_cycles(&mut self) -> (cycles: u64)
        requires
            old(self).wf(),
            old(self)@.can_step(),
        ensures
            final(self).wf(),
            (final(self)@, cycles) == old(self)@.step(),
            4 <= cycles <= 18,
            final(self).cycle_counter == old(self).cycle_counter + cycles,
    {
        let opcode = self.fetch_opcode();
        let cycles = self.execute(opcode);
        self.cycle_counter = self.cycle_counter + cycles;
        cycles
    }

    /// Executes one instruction and returns its cycle count with its address
    /// and assembly text.
    pub fn step_with_trace(&mut self) -> (r: (u64, InstructionTrace))
        requires
            old(self).wf(),
            old(self)@.can_step(),
        ensures
            final(self).wf(),
            (final(self)@, r.0) == old(self)@.step(),
            r.1.address == old(self)@.pc,
            r.1.text@ == deassemble_spec(
                old(self)@.mem[old(self)@.pc as int],
                old(self)@.mem[wrap16(old(self)@.pc + 1) as int],
                old(self)@.mem[wrap16(old(self)@.pc + 2) as int],
            ),
    {
        let address = self.program_counter;
        let opcode = self.fetch_opcode();
        let lo = self.memory[self.program_counter as usize];
        let hi = self.memory[self.program_counter.wrapping_add(1) as usize];
        let text = deassemble(opcode, lo, hi);
        let cycles = self.execute(opcode);
        self.cycle_counter = self.cycle_counter + cycles;
        (cycles, InstructionTrace { address, text })
    }

    /// The registers and flags.
    pub fn snapshot(&self) -> (s: CpuState)
        ensures
            s == state_of(self@),
    {
        CpuState {
            a: self.a_reg,
            b: self.b_reg,
            c: self.c_reg,
            d: self.d_reg,
            e: self.e_reg,
            h: self.h_reg,
            l: self.l_reg,
            flags: self.flags,
            stack_pointer: self.stack_pointer,
            program_counter: self.program_counter,
        }
    }

    /// A copy of the memory.
    pub fn memory_snapshot(&self) -> (v: Vec<u8>)
        ensures
            v@ == self.memory@,
    {
        let mut v: Vec<u8> = Vec::new();
        let mut i: usize = 0;
        while i < MEMORY_SIZE
            invariant
                i <= MEMORY_SIZE,
                v@ == self.memory@.take(i as int),
            decreases MEMORY_SIZE - i,
        {
            v.push(self.memory[i]);
            proof {
                assert(self.memory@.take(i + 1) =~= self.memory@.take(i as int).push(
                    self.memory@[i as int],
                ));
            }
            i = i + 1;
        }
        proof {
            assert(self.memory@.take(MEMORY_SIZE as int) =~= self.memory@);
        }
        v
    }

    /// Executes one instruction and returns its assembly text; a halted
    /// processor does nothing and gives empty text.
    pub fn step_with_deassembler(&mut self) -> (code: String)
        requires
            old(self).wf(),
            !old(self)@.halted ==> old(self)@.can_step(),
        ensures
            final(self).wf(),
            old(self)@.halted ==> final(self)@ == old(self)@ && code@.len() == 0,
            !old(self)@.halted ==> final(self)@ == old(self)@.step().0 && code@ == deassemble_spec(
                old(self)@.mem[old(self)@.pc as int],
                old(self)@.mem[wrap16(old(self)@.pc + 1) as int],
                old(self)@.mem[wrap16(old(self)@.pc + 2) as int],
            ),
    {
        if self.halted {
            return String::new();
        }
        let opcode = self.fetch_opcode();
        let code = deassemble(
            opcode,
            self.memory[self.program_counter as usize],
            self.memory[(self.program_counter.wrapping_add(1)) as usize],
        );
        let cycles = self.execute(opcode);
        self.cycle_counter = self.cycle_counter + cycles;
        code
    }

    fn fetch_opcode(&mut self) -> (op: u8)
        ensures
            (op, final(self)@) == old(self)@.fetch8(),
    {
        let opcode = self.memory[self.program_counter as usize];
        self.program_counter = self.program_counter.wrapping_add(1);
        opcode
    }

    fn execute(&mut self, opcode: u8) -> (cycles: u64)
        requires
            old(self).wf(),
            !(opcode == 0xE3 && old(self).stack_pointer == 0xFFFF),
        ensures
            final(self).wf(),
            (final(self)@, cycles) == old(self)@.execute(opcode),
            final(self).cycle_counter == old(self).cycle_counter,
            4 <= cycles <= 18,
    {
        reveal(CpuModel::execute);
        if opcode < 0x40 {
            self.execute_low(opcode)
        } else if opcode < 0x80 {
            if opcode == 0x76 {
                // HLT
                self.halted = true;
                7
            } else {
                // MOV r1,r2
                let dst = (opcode / 8) % 8;
                let src = opcode % 8;
                let v = self.get_reg(src);
                self.set_reg(dst, v);
                if dst == 6 || src == 6 {
                    7
                } else {
                    5
                }
            }
        } else if opcode < 0xC0 {
            // ADD, ADC, SUB, SBB, ANA, XRA, ORA, CMP r
            let src = opcode % 8;
            let v = self.get_reg(src);
            self.perform_alu_operation((opcode / 8) % 8, v);
            if src == 6 {
                7
            } else {
                4
            }
        } else {
            self.execute_high(opcode)
        }
    }
}

} // verus!
