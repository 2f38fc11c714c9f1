# mcs8sim

An assembler and emulator for the Intel 8080 (MCS-80) processor, with the
contracts of its logic proved by Verus.

## Layout

- `src/assembler/` — a one-pass assembler: line fields, numbers and
  expressions (with forward references resolved at the end), symbols and
  local macro labels, directives (`ORG`, `EQU`, `SET`, `DB`, `DW`, `DS`,
  `IF`/`ENDIF`, `MACRO`/`ENDM`, `END`), instruction encoding, and the line
  loop of `Assembler::assemble`. `laws.rs` holds the laws that tie the
  encoder to the disassembler and label definitions to the symbol table.
- `src/cpu/` — the processor: its model (`isa.rs`), the executable
  instructions, the disassembler, the serial port and terminal behind the
  I/O ports, the decisions of the simulation loop (`simulation.rs`), and
  laws about the stack, register pairs and flags (`laws.rs`).
- `src/display.rs`, `src/editor.rs` — what the front end shows and decides:
  memory rows, flag and binary text, the line gutter, syntax highlighting,
  the memory a run starts with, line-length bookkeeping and the speed-limit
  field.
- `src/encoding.rs`, `src/text.rs` — Windows-1252 decoding and the string
  helpers the rest is built on.
- `app/main.rs` — a terminal front end: reads a program, assembles it and
  runs it on a simulation thread, with keys from standard input.
- `tests/` — scenario tests of the assembler, the processor and the
  helpers.

Regular expressions (the `regex` crate) split expressions into tokens;
`serde` and `toml` store the front end's preferences.
