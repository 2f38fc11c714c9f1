use vstd::prelude::*;

pub mod directives;
pub mod driver;
pub mod errors;
pub mod expressions;
pub mod fields;
pub mod instructions;
pub mod laws;
pub mod numbers;
pub mod scan;
pub mod symbols;
pub mod utils;

use crate::assembler::symbols::{Macro, MacroScope, Symbol};

verus! {

/// Size of the memory image that the assembler fills.
pub const MEMORY_SIZE: usize = 65536;

/// Mnemonics of the machine instructions.
pub const INSTRUCTIONS: [&'static str; 78] = [
    "STC", "CMC", "INR", "DCR", "CMA", "DAA", "NOP", "MOV", "STAX", "LDAX",
    "ADD", "ADC", "SUB", "SBB", "ANA", "XRA", "ORA", "CMP", "RLC", "RRC", "RAL", "RAR", "PUSH",
    "POP", "DAD", "INX", "DCX", "XCHG", "XTHL", "SPHL", "LXI", "MVI", "ADI", "ACI", "SUI", "SBI",
    "ANI", "XRI", "ORI", "CPI", "STA", "LDA", "SHLD", "LHLD", "PCHL", "JMP", "JC", "JNC", "JZ",
    "JNZ", "JP", "JM", "JPE", "JPO", "CALL", "CC", "CNC", "CZ", "CNZ", "CP", "CM", "CPE", "CPO",
    "RET", "RC", "RNC", "RZ", "RNZ", "RM", "RP", "RPE", "RPO", "RST", "EI", "DI", "IN", "OUT",
    "HLT",
];

/// Directives that emit no code of their own.
pub const PSEUDO_INSTRUCTIONS: [&'static str; 8] = [
    "ORG", "EQU", "SET", "END", "IF", "ENDIF", "MACRO", "ENDM",
];

/// Directives that reserve or fill memory.
pub const DATA_STATEMENTS: [&'static str; 3] = ["DB", "DW", "DS"];

/// The state of a one-pass assembler: the memory image being filled,
/// the location counter, the symbol and macro tables, the expressions
/// waiting for symbols defined later, and the state of conditional
/// assembly and macro definition/expansion.
///
/// Tables are kept as lists of (key, entry) in order of definition; a
/// lookup finds the last entry under a key.
pub struct Assembler {
    pub memory: [u8; MEMORY_SIZE],
    pub memory_pointer: usize,
    pub symbols: Vec<(String, Symbol)>,
    pub macros: Vec<(String, Macro)>,
    pub pending_exprs: Vec<crate::assembler::expressions::PendingExpr>,
    pub stopped: bool,
    pub current_line: usize,
    pub if_stack: Vec<bool>,
    pub in_macro_definition: bool,
    pub current_macro_def_name: Option<String>,
    pub current_macro_scope: Option<MacroScope>,
    pub next_macro_expansion_id: u64,
    pub current_macro: Option<Macro>,
    pub in_macro_expansion: bool,
}

impl Assembler {
    /// The location counter never passes the end of memory.
    pub open spec fn wf(&self) -> bool {
        self.memory_pointer <= MEMORY_SIZE
    }

    /// Everything but the symbol table is as in `other`.
    pub open spec fn same_but_symbols(&self, other: Assembler) -> bool {
        &&& self.memory == other.memory
        &&& self.memory_pointer == other.memory_pointer
        &&& self.macros == other.macros
        &&& self.pending_exprs == other.pending_exprs
        &&& self.stopped == other.stopped
        &&& self.current_line == other.current_line
        &&& self.if_stack == other.if_stack
        &&& self.in_macro_definition == other.in_macro_definition
        &&& self.current_macro_def_name == other.current_macro_def_name
        &&& self.current_macro_scope == other.current_macro_scope
        &&& self.next_macro_expansion_id == other.next_macro_expansion_id
        &&& self.current_macro == other.current_macro
        &&& self.in_macro_expansion == other.in_macro_expansion
    }

    /// Everything but the list of pending expressions is as in `other`.
    pub open spec fn same_but_pending(&self, other: Assembler) -> bool {
        &&& self.memory == other.memory
        &&& self.memory_pointer == other.memory_pointer
        &&& self.symbols == other.symbols
        &&& self.macros == other.macros
        &&& self.stopped == other.stopped
        &&& self.current_line == other.current_line
        &&& self.if_stack == other.if_stack
        &&& self.in_macro_definition == other.in_macro_definition
        &&& self.current_macro_def_name == other.current_macro_def_name
        &&& self.current_macro_scope == other.current_macro_scope
        &&& self.next_macro_expansion_id == other.next_macro_expansion_id
        &&& self.current_macro == other.current_macro
        &&& self.in_macro_expansion == other.in_macro_expansion
    }

    /// Everything but the memory image is as in `other`.
    pub open spec fn same_but_memory(&self, other: Assembler) -> bool {
        &&& self.memory_pointer == other.memory_pointer
        &&& self.symbols == other.symbols
        &&& self.macros == other.macros
        &&& self.pending_exprs == other.pending_exprs
        &&& self.stopped == other.stopped
        &&& self.current_line == other.current_line
        &&& self.if_stack == other.if_stack
        &&& self.in_macro_definition == other.in_macro_definition
        &&& self.current_macro_def_name == other.current_macro_def_name
        &&& self.current_macro_scope == other.current_macro_scope
        &&& self.next_macro_expansion_id == other.next_macro_expansion_id
        &&& self.current_macro == other.current_macro
        &&& self.in_macro_expansion == other.in_macro_expansion
    }

    /// The number of the macro expansion in progress, if any.
    pub open spec fn scope_id(&self) -> Option<u64> {
        match self.current_macro_scope {
            Some(m) => Some(m.id),
            None => None,
        }
    }

    /// A fresh assembler: zeroed memory, location counter 0, empty tables.
    pub fn new() -> (a: Self)
        ensures
            a.wf(),
            a.memory@ == Seq::new(MEMORY_SIZE as nat, |i: int| 0u8),
            a.memory_pointer == 0,
            a.symbols@.len() == 0,
            a.macros@.len() == 0,
            a.pending_exprs@.len() == 0,
            !a.stopped,
            a.current_line == 0,
            a.if_stack@.len() == 0,
            !a.in_macro_definition,
            a.current_macro_def_name is None,
            a.current_macro_scope is None,
            a.next_macro_expansion_id == 0,
            a.current_macro is None,
            !a.in_macro_expansion,
    {
        let a = Assembler {
            memory: [0u8; MEMORY_SIZE],
            memory_pointer: 0,
            symbols: Vec::new(),
            macros: Vec::new(),
            pending_exprs: Vec::new(),
            stopped: false,
            current_line: 0,
            if_stack: Vec::new(),
            in_macro_definition: false,
            current_macro_def_name: None,
            current_macro_scope: None,
            next_macro_expansion_id: 0,
            current_macro: None,
            in_macro_expansion: false,
        };
        proof {
            assert(a.memory@ =~= Seq::new(MEMORY_SIZE as nat, |i: int| 0u8));
        }
        a
    }
}

} // verus!
