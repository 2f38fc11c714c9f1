use mcs8sim::assembler::errors::{TokenOrOverflowError, TokenType};
use mcs8sim::assembler::Assembler;
use mcs8sim::cpu::deassembler::deassemble;
use mcs8sim::cpu::io_handler::{IoEvent, IoHandler};
use mcs8sim::cpu::simulation::{
    batch_cycle_budget, clamp_cycles_limit, decide_command, trace_event, CommandAction,
    CommandContext, SimCommand, SimulationEvent, MAX_CYCLES_LIMIT, after_single_step, batch_continues,
};
use mcs8sim::cpu::terminal::OutputEvent;
use mcs8sim::cpu::{Cpu, InstructionTrace};
use mcs8sim::display::{
    ascii_char, build_gutter_text, classify_token, copy_trimmed_nonzero_slice, flag_char,
    format_bin8, format_memory_rows, normalize_output_chunk, AppTheme, TokenKind, SyntaxHighlighter, prepare_run_memory,
};
use mcs8sim::editor::{cycles_limit_from_input, parse_u64_chars, LineCache};
use mcs8sim::encoding::cp1252_decode;

fn assemble(text: &str) -> Result<Vec<u8>, String> {
    let mut a = Assembler::new();
    a.assemble(text).map(|m| m.to_vec()).map_err(|e| e.message())
}

#[test]
fn law_push_then_pop_on_cpu() {
    let mut cpu = Cpu::new();
    cpu.stack_pointer = 0x2000;
    cpu.push_stack_u16(0xBEEF);
    assert_eq!(cpu.stack_pointer, 0x1FFE);
    assert_eq!(cpu.memory[0x1FFF], 0xBE);
    assert_eq!(cpu.memory[0x1FFE], 0xEF);
    assert_eq!(cpu.pop_stack_u16(), 0xBEEF);
    assert_eq!(cpu.stack_pointer, 0x2000);
}

#[test]
fn law_push_pop_moves_pair_on_cpu() {
    let mut cpu = Cpu::new();
    cpu.stack_pointer = 0x2000;
    cpu.set_hl(0x1234);
    cpu.memory[0] = 0xE5; // PUSH H
    cpu.memory[1] = 0xC1; // POP B
    cpu.step();
    cpu.step();
    assert_eq!(cpu.get_bc(), 0x1234);
    assert_eq!(cpu.stack_pointer, 0x2000);
    assert_eq!(cpu.program_counter, 2);
}

#[test]
fn law_set_pair_then_get_pair() {
    let mut cpu = Cpu::new();
    cpu.set_bc(0x1234);
    cpu.set_de(0xABCD);
    cpu.set_hl(0x0F0F);
    assert_eq!(cpu.get_bc(), 0x1234);
    assert_eq!(cpu.get_de(), 0xABCD);
    assert_eq!(cpu.get_hl(), 0x0F0F);
    assert_eq!((cpu.b_reg, cpu.c_reg), (0x12, 0x34));
}

#[test]
fn law_reset_restores_registers() {
    let mut cpu = Cpu::new();
    cpu.memory[0] = 0x3E; // MVI A,7
    cpu.memory[1] = 0x07;
    cpu.step();
    assert_eq!(cpu.a_reg, 7);
    cpu.reset();
    assert_eq!(cpu.a_reg, 0);
    assert_eq!(cpu.program_counter, 0);
    assert_eq!(cpu.stack_pointer, 0x0FFF);
    assert_eq!(cpu.flags, 0x02);
    assert_eq!(cpu.memory[1], 0x07);
}

#[test]
fn law_fixed_opcodes_disassemble_to_their_mnemonics() {
    for m in [
        "STC", "CMC", "CMA", "DAA", "NOP", "RLC", "RRC", "RAL", "RAR", "XCHG", "XTHL", "SPHL",
        "PCHL", "RET", "RC", "RNC", "RZ", "RNZ", "RM", "RP", "RPE", "RPO", "EI", "DI", "HLT",
    ] {
        let mut a = Assembler::new();
        let bytes = a.handle_instruction(m, &None).unwrap();
        assert_eq!(bytes.len(), 1);
        assert_eq!(deassemble(bytes[0], 0, 0), m);
    }
}

#[test]
fn law_mov_and_alu_disassemble() {
    let memory = assemble("MOV A,M\nMOV L,B\nXRA C\nCMP M").unwrap();
    assert_eq!(deassemble(memory[0], 0, 0), "MOV A,M");
    assert_eq!(deassemble(memory[1], 0, 0), "MOV L,B");
    assert_eq!(deassemble(memory[2], 0, 0), "XRA C");
    assert_eq!(deassemble(memory[3], 0, 0), "CMP M");
}

#[test]
fn law_address_and_immediate_instructions_disassemble() {
    let memory = assemble("JMP 1234H\nCALL 0ABCDH\nLDA 7\nADI 5\nCPI 0FEH").unwrap();
    assert_eq!(deassemble(memory[0], memory[1], memory[2]), "JMP 0x1234");
    assert_eq!(deassemble(memory[3], memory[4], memory[5]), "CALL 0xABCD");
    assert_eq!(deassemble(memory[6], memory[7], memory[8]), "LDA 0x0007");
    assert_eq!(deassemble(memory[9], memory[10], 0), "ADI 0x05");
    assert_eq!(deassemble(memory[11], memory[12], 0), "CPI 0xFE");
}

#[test]
fn law_binary_results_are_16_bit() {
    let mut a = Assembler::new();
    assert_eq!(a.calculate_expression("0FFFFH * 0FFFFH", 0, false).unwrap(), Some(1));
    assert_eq!(a.calculate_expression("0 - 1", 0, false).unwrap(), Some(0xFFFF));
    assert_eq!(a.calculate_expression("1 SHL 17", 0, false).unwrap(), Some(2));
}

#[test]
fn law_symbol_defined_once() {
    assert!(assemble("X: NOP\nX: NOP").is_err());
    assert!(assemble("A SET 1\nA SET 2").is_ok());
    assert!(assemble("A EQU 1\nA EQU 1").is_err());
}

#[test]
fn division_by_zero_is_an_error() {
    let mut a = Assembler::new();
    assert!(a.calculate_expression("1/0", 0, false).is_err());
    assert!(assemble("DB 5 MOD 0").is_err());
    let e = a.calculate_expression("1/0", 0, true).unwrap_err();
    assert_eq!(e.additional_info.as_deref(), Some("Division by zero"));
    assert!(a.pending_exprs.is_empty());
    assert_eq!(a.calculate_expression("X/1", 0, true).unwrap(), None);
    assert_eq!(a.pending_exprs.len(), 1);
    let e = a.calculate_expression("X", 0, false).unwrap_err();
    assert_eq!(e.additional_info.as_deref(), Some("Forward reference is not allowed"));
    let e = assemble("DW 4 / (2 - 2)\nEND").unwrap_err();
    assert!(e.contains("Division by zero"), "{e}");
}

#[test]
fn not_between_operands_is_an_error() {
    let mut a = Assembler::new();
    assert!(a.calculate_expression("1 NOT 2", 0, false).is_err());
}

#[test]
fn character_literals_and_location_counter() {
    let mut a = Assembler::new();
    assert_eq!(a.calculate_expression("'A'", 0, false).unwrap(), Some(65));
    assert_eq!(a.calculate_expression("''", 0, false).unwrap(), Some(0));
    a.memory_pointer = 0x100;
    assert_eq!(a.calculate_expression("$ + 2", 0, false).unwrap(), Some(0x102));
}

#[test]
fn forward_reference_is_kept_and_resolved() {
    let memory = assemble("JMP LATER\nNOP\nLATER: HLT").unwrap();
    assert_eq!(&memory[0..5], &[0xC3, 0x04, 0x00, 0x00, 0x76]);
}

#[test]
fn unresolved_reference_reports_its_line() {
    let mut a = Assembler::new();
    let e = a.assemble("NOP\nJMP NOWHERE").unwrap_err();
    assert_eq!(e.line_number, 2);
    assert!(e.message.contains("Undefined symbol NOWHERE"));
}

#[test]
fn immediate_encodings() {
    let memory = assemble("LXI H,1234H\nMVI M,0FFH\nADI 1\nCPI 'Z'\nLDA 10H\nCALL 0\nRST 7\nIN 10H\nOUT 20H\nPUSH PSW\nPOP D").unwrap();
    assert_eq!(
        &memory[0..22],
        &[0x21, 0x34, 0x12, 0x36, 0xFF, 0xC6, 0x01, 0xFE, 0x5A, 0x3A, 0x10, 0x00, 0xCD, 0x00, 0x00, 0xFF, 0xDB, 0x10, 0xD3, 0x20, 0xF5, 0xD1]
    );
}

#[test]
fn error_missing_operands() {
    let mut a = Assembler::new();
    match a.handle_data_statement("DB", &None) {
        Err(TokenOrOverflowError::InvalidToken(e)) => {
            assert_eq!(e.token, "DB");
            assert_eq!(e.additional_info.as_deref(), Some("Missing operands"));
        }
        _ => panic!("expected an error"),
    }
}

#[test]
fn error_unknown_instruction() {
    let mut a = Assembler::new();
    let e = a.handle_instruction("FOO", &None).unwrap_err();
    assert_eq!(e.token_type, TokenType::Instruction);
    assert_eq!(e.token, "FOO");
    assert!(e.additional_info.is_none());
}

#[test]
fn error_operand_counts() {
    let mut a = Assembler::new();
    let e = a.handle_instruction("MOV", &Some(vec!["A".to_string()])).unwrap_err();
    assert_eq!(e.additional_info.as_deref(), Some("Too few operands"));
    let e = a
        .handle_instruction("INR", &Some(vec!["A".to_string(), "B".to_string()]))
        .unwrap_err();
    assert_eq!(e.token, "A,B");
    assert_eq!(e.additional_info.as_deref(), Some("Too many operands"));
}

#[test]
fn codes_of_upper_case_operands() {
    assert_eq!(Assembler::register_from_upper("M".to_string()).unwrap(), 6);
    assert_eq!(Assembler::register_from_upper("0".to_string()).unwrap(), 0);
    let e = Assembler::register_from_upper("8".to_string()).unwrap_err();
    assert_eq!(e.additional_info.as_deref(), Some("Register number is out of range"));
    assert!(Assembler::register_from_upper("m".to_string()).is_err());
    assert_eq!(Assembler::pair_from_upper("PSW".to_string()).unwrap(), 3);
    assert_eq!(Assembler::pair_from_upper("D".to_string()).unwrap(), 1);
    assert!(Assembler::pair_from_upper("hl".to_string()).is_err());
    let v = |t: &str| Assembler::number_value_chars(&t.chars().collect::<Vec<char>>());
    assert_eq!(v("0FFH"), Some(255));
    assert_eq!(v("101B"), Some(5));
    assert_eq!(v("17O"), Some(15));
    assert_eq!(v("17Q"), Some(15));
    assert_eq!(v("99D"), Some(99));
    assert_eq!(v("12"), Some(12));
    assert_eq!(v("FFH"), None);
}

#[test]
fn error_registers() {
    assert_eq!(Assembler::parse_register("b").unwrap(), 0);
    assert_eq!(Assembler::parse_register("7").unwrap(), 7);
    let e = Assembler::parse_register("9").unwrap_err();
    assert_eq!(e.additional_info.as_deref(), Some("Register number is out of range"));
    let e = Assembler::parse_register("x").unwrap_err();
    assert_eq!(e.token, "X");
    assert_eq!(
        e.additional_info.as_deref(),
        Some("Only registers as words or their numeric presentation is allowed")
    );
    assert_eq!(Assembler::parse_register_pair("psw").unwrap(), 3);
    assert!(Assembler::parse_register_pair("A").is_err());
    let mut a = Assembler::new();
    let e = a.handle_instruction("STAX", &Some(vec!["H".to_string()])).unwrap_err();
    assert_eq!(e.additional_info.as_deref(), Some("Only BC, B, DE, D are allowed"));
    assert!(a.handle_instruction("POP", &Some(vec!["SP".to_string()])).is_err());
}

#[test]
fn error_labels() {
    let mut a = Assembler::new();
    let e = a.define_label("LOOP::").unwrap_err();
    assert_eq!(e.additional_info.as_deref(), Some("Labels with :: only work in macros"));
    let e = a.define_label("LOOP").unwrap_err();
    assert_eq!(e.additional_info.as_deref(), Some(": should be at the end of the label"));
    assert!(assemble("START NOP").is_err());
    assert!(assemble("MOV: NOP").is_err());
}

#[test]
fn error_blocks() {
    assert_eq!(assemble("ENDIF").unwrap_err(), "Error in line 1 - ENDIF:\nInvalid instruction: ENDIF.Additional info: ENDIF without matching IF");
    assert!(assemble("ENDM").is_err());
    assert_eq!(assemble("M MACRO\nNOP").unwrap_err(), "Error in line 0 - :\nUnterminated MACRO definition");
    assert_eq!(assemble("IF 1").unwrap_err(), "Error in line 0 - :\nUnclosed IF block");
    assert!(assemble("M MACRO X\nDB X\nENDM\nM").is_err());
}

#[test]
fn error_non_ascii_line() {
    assert_eq!(assemble("  DB 'żółw'  ").unwrap_err(), "Error in line 1 - DB 'żółw':\nNon-ASCII characters found");
}

#[test]
fn error_memory_overflow() {
    assert!(assemble("ORG 0FFFFH\nNOP").is_err());
    assert!(assemble("ORG 0FFF0H\nDS 20H").is_err());
    assert!(assemble("ORG 0FFF0H\nDS 10H").is_ok());
}

#[test]
fn macro_parameters_are_replaced() {
    let memory = assemble("LD MACRO R, V\nMVI R, V\nENDM\nLD A, 5\nLD B, 'x'").unwrap();
    assert_eq!(&memory[0..4], &[0x3E, 5, 0x06, b'x']);
}

#[test]
fn replace_param_token_whole_names_only() {
    assert_eq!(Assembler::replace_param_token("MVI X, XX + X", "X", "A"), "MVI A, XX + A");
    assert_eq!(Assembler::replace_param_token("DB 'X', X", "X", "1"), "DB 'X', 1");
    assert_eq!(Assembler::replace_param_token("NOP", "", "1"), "NOP");
}

#[test]
fn crlf_lines_and_comments() {
    let memory = assemble("MVI A,1 ; one\r\nMVI B,2\r\n").unwrap();
    assert_eq!(&memory[0..4], &[0x3E, 1, 0x06, 2]);
}

#[test]
fn end_stops_assembly() {
    let memory = assemble("NOP\nEND\nHLT").unwrap();
    assert_eq!(&memory[0..2], &[0, 0]);
}

#[test]
fn fetch_fields_label_only() {
    let a = Assembler::new();
    let (label, instruction, operands) = a.fetch_fields("  start:   ; comment");
    assert_eq!(label.as_deref(), Some("START:"));
    assert!(instruction.is_none());
    assert!(operands.is_none());
}

#[test]
fn number_suffixes() {
    assert_eq!(Assembler::parse_number_i32("-10").unwrap(), -10);
    assert_eq!(Assembler::parse_number_i32("0ffh").unwrap(), 255);
    assert!(Assembler::parse_number_i32("FFH").is_err());
    assert_eq!(Assembler::parse_8bit_number("-1").unwrap(), 255);
    assert!(Assembler::parse_8bit_number("256").is_err());
}

#[test]
fn split_expression_with_here() {
    assert_eq!(Assembler::split_expression("$+HERE"), vec!["$", "+", "HERE"]);
    assert!(Assembler::split_expression("").is_empty());
}

#[test]
fn memory_rows_text() {
    let bytes: Vec<u8> = (0u8..20).collect();
    let text = format_memory_rows(&bytes, 0, 4);
    assert_eq!(
        text,
        "0000: 00 01 02 03 04 05 06 07 08 09 0A 0B 0C 0D 0E 0F\n0010: 10 11 12 13 \n"
    );
    assert_eq!(format_memory_rows(&bytes, 1, 1), "0010: 10 11 12 13 \n");
    assert_eq!(format_memory_rows(&bytes, 5, 1), "");
    assert_eq!(format_memory_rows(&[], 0, 1), "");
}

#[test]
fn register_view_helpers() {
    assert_eq!(format_bin8(0xA5), "10100101");
    assert_eq!(ascii_char(0x41), 'A');
    assert_eq!(ascii_char(0x0A), ' ');
    assert_eq!(flag_char(true, 'Z'), 'Z');
    assert_eq!(flag_char(false, 'Z'), '.');
}

#[test]
fn editor_helpers() {
    assert_eq!(build_gutter_text(3), "1\n2\n3");
    assert_eq!(build_gutter_text(0), "");
    assert_eq!(normalize_output_chunk("a\tb"), "a    b");
    assert_eq!(classify_token("mov"), Some(TokenKind::Instruction));
    assert_eq!(classify_token("Org"), Some(TokenKind::Pseudo));
    assert_eq!(classify_token("dw"), Some(TokenKind::Data));
    assert_eq!(classify_token("loop"), None);
    assert_eq!(AppTheme::TokyoNightStorm.label(), "Tokyo Night Storm");
}

#[test]
fn copy_nonzero_part() {
    let mut dest = vec![9u8; 6];
    copy_trimmed_nonzero_slice(&[0, 1, 0, 2, 0], &mut dest).unwrap();
    assert_eq!(dest, vec![9, 1, 0, 2, 9, 9]);
    let mut small = vec![0u8; 2];
    assert_eq!(
        copy_trimmed_nonzero_slice(&[1, 2, 3], &mut small).unwrap_err(),
        "Źródło (3) jest większe niż pamięć (2)"
    );
    let mut same = vec![7u8; 3];
    copy_trimmed_nonzero_slice(&[0, 0], &mut same).unwrap();
    assert_eq!(same, vec![7, 7, 7]);
}

#[test]
fn simulation_decisions() {
    assert_eq!(clamp_cycles_limit(Some(10_000_000)), Some(MAX_CYCLES_LIMIT));
    assert_eq!(clamp_cycles_limit(Some(5)), Some(5));
    assert_eq!(batch_cycle_budget(Some(2_000_000)), 100_000);
    assert_eq!(batch_cycle_budget(Some(21)), 2);
    assert_eq!(batch_cycle_budget(Some(0)), 1);
    assert_eq!(batch_cycle_budget(None), u64::MAX);
    assert_eq!(
        decide_command(SimCommand::Step, CommandContext::AwaitingInput, false),
        CommandAction::StepOnce { trace: true, into_batch: false }
    );
    assert_eq!(
        decide_command(SimCommand::Reset, CommandContext::InBatch, true),
        CommandAction::ResetCpu { end_batch: true }
    );
    assert_eq!(
        decide_command(SimCommand::SetCyclesLimit(Some(u64::MAX)), CommandContext::Idle, false),
        CommandAction::SetLimit(Some(MAX_CYCLES_LIMIT))
    );
    let one = vec![InstructionTrace { address: 1, text: "NOP".to_string() }];
    assert!(matches!(trace_event(one), Some(SimulationEvent::Trace(t)) if t.address == 1));
    assert!(trace_event(Vec::new()).is_none());
}

#[test]
fn terminal_output_reaches_events() {
    let mut io = IoHandler::new();
    io.handle_output(0x84, b'H');
    io.handle_output(0x84, b'i');
    let events = io.take_events();
    let text: String = events
        .into_iter()
        .filter_map(|e| match e {
            IoEvent::Output(OutputEvent::Append(s)) => Some(s),
            _ => None,
        })
        .collect();
    assert_eq!(text, "Hi");
}

#[test]
fn windows_1252_decoding() {
    assert_eq!(cp1252_decode(b'A'), 'A');
    assert_eq!(cp1252_decode(0x80), '€');
    assert_eq!(cp1252_decode(0xE9), 'é');
}

#[test]
fn highlight_line_marks_comment_and_mnemonic() {
    let mut h = SyntaxHighlighter::new();
    let r = h.highlight_line("MOV A,B ; c");
    assert_eq!(r, vec![(8..11, TokenKind::Comment), (0..3, TokenKind::Instruction)]);
    assert_eq!(h.current_line(), 1);
}

#[test]
fn highlight_line_labels_and_data() {
    let mut h = SyntaxHighlighter::new();
    h.change_line(7);
    let r = h.highlight_line("loop: db 1 ; org");
    assert_eq!(r, vec![(11..16, TokenKind::Comment), (6..8, TokenKind::Data)]);
    assert_eq!(h.current_line(), 8);
    let r = h.highlight_line("  org 100h");
    assert_eq!(r, vec![(2..5, TokenKind::Pseudo)]);
}

#[test]
fn highlight_line_counts_bytes_of_wide_characters() {
    let mut h = SyntaxHighlighter::new();
    let r = h.highlight_line("\u{e9} mvi");
    assert_eq!(r, vec![(3..6, TokenKind::Instruction)]);
    let r = h.highlight_line("NOP::x");
    assert_eq!(r, vec![]);
    let r = h.highlight_line("hlt");
    assert_eq!(r, vec![(0..3, TokenKind::Instruction)]);
}

#[test]
fn highlight_line_count_saturates() {
    let mut h = SyntaxHighlighter::new();
    h.change_line(usize::MAX);
    let _ = h.highlight_line("");
    assert_eq!(h.current_line(), usize::MAX);
}

#[test]
fn run_memory_puts_program_over_bios() {
    let mut program = [0u8; 65536];
    program[0x10] = 0x76;
    program[0x12] = 0x3E;
    let bios = [0u8, 0xC3, 0x00, 0x10, 0, 0x55];
    let m = prepare_run_memory(&program, Some(&bios[..])).unwrap();
    assert_eq!(&m[0..6], &[0, 0xC3, 0x00, 0x10, 0, 0x55]);
    assert_eq!(&m[0x10..0x13], &[0x76, 0x00, 0x3E]);
    let m = prepare_run_memory(&program, None).unwrap();
    assert_eq!(m[1], 0);
    assert_eq!(m[0x10], 0x76);
}

#[test]
fn run_memory_keeps_bios_where_program_is_zero_inside_its_span() {
    let mut program = [0u8; 65536];
    program[2] = 0x11;
    program[4] = 0x22;
    let bios = [0xAAu8; 8];
    let m = prepare_run_memory(&program, Some(&bios[..])).unwrap();
    assert_eq!(&m[0..8], &[0xAA, 0xAA, 0x11, 0x00, 0x22, 0xAA, 0xAA, 0xAA]);
}

#[test]
fn run_memory_rejects_oversized_bios() {
    let program = [0u8; 65536];
    let bios = vec![1u8; 65537];
    let e = prepare_run_memory(&program, Some(&bios[..])).unwrap_err();
    assert_eq!(e, "Źródło (65537) jest większe niż pamięć (65536)");
}

#[test]
fn line_cache_from_text_counts_characters() {
    let c = LineCache::from_text("ORG 800h\n\u{e9}\u{e9}\r\nMVI A, 1");
    assert_eq!(c.line_lengths, vec![8, 2, 8]);
    assert_eq!(c.max_line_len, 8);
    let e = LineCache::from_text("");
    assert_eq!(e.line_lengths, Vec::<usize>::new());
    assert_eq!(e.max_line_len, 0);
}

#[test]
fn line_cache_update_matches_rebuild() {
    let mut c = LineCache::from_lengths(vec![3, 9, 4]);
    assert_eq!(c.max_line_len, 9);
    c.update_line(0, 12);
    assert_eq!(c.max_line_len, 12);
    c.update_line(0, 1);
    assert_eq!(c.max_line_len, 9);
    c.update_line(1, 2);
    assert_eq!(c.max_line_len, 4);
    c.update_line(2, 4);
    assert_eq!(c.max_line_len, 4);
    assert_eq!(c.line_lengths, vec![1, 2, 4]);
    let rebuilt = LineCache::from_lengths(c.line_lengths.clone());
    assert_eq!(rebuilt.max_line_len, c.max_line_len);
}

#[test]
fn cycles_limit_input_cases() {
    assert_eq!(cycles_limit_from_input("  "), Some(None));
    assert_eq!(cycles_limit_from_input("0"), Some(None));
    assert_eq!(cycles_limit_from_input(" 1000 "), Some(Some(1000)));
    assert_eq!(cycles_limit_from_input("+25"), Some(Some(25)));
    assert_eq!(cycles_limit_from_input("5000000"), Some(Some(3_000_000)));
    assert_eq!(cycles_limit_from_input("18446744073709551615"), Some(Some(3_000_000)));
    assert_eq!(cycles_limit_from_input("18446744073709551616"), None);
    assert_eq!(cycles_limit_from_input("12a"), None);
    assert_eq!(cycles_limit_from_input("+"), None);
    assert_eq!(cycles_limit_from_input("-5"), None);
}

#[test]
fn parse_u64_chars_follows_from_str() {
    for text in ["0", "007", "+1", "", "+", "1 2", "99999999999999999999", "18446744073709551615"] {
        let chars: Vec<char> = text.chars().collect();
        assert_eq!(parse_u64_chars(&chars), text.parse::<u64>().ok(), "{text}");
    }
}

#[test]
fn step_with_deassembler_on_halted_processor() {
    let mut cpu = Cpu::new();
    cpu.halted = true;
    cpu.cycle_counter = u64::MAX;
    cpu.memory[0] = 0x3E;
    assert_eq!(cpu.step_with_deassembler(), "");
    assert_eq!(cpu.program_counter, 0);
    assert_eq!(cpu.cycle_counter, u64::MAX);
}

#[test]
fn law_fixed_flag_bits_on_cpu() {
    let mut cpu = Cpu::new();
    cpu.stack_pointer = 0x2000;
    cpu.memory[0x2000] = 0xFF; // flags byte popped by POP PSW
    cpu.memory[0x2001] = 0x12;
    cpu.memory[0] = 0xF1; // POP PSW
    cpu.memory[1] = 0xC6; // ADI 0FFH
    cpu.memory[2] = 0xFF;
    cpu.memory[3] = 0x37; // STC
    for _ in 0..3 {
        cpu.step();
        assert_eq!(cpu.flags & 0x2A, 0x02);
    }
    assert_eq!(cpu.a_reg, 0x11);
}

#[test]
fn law_mov_moves_register_on_cpu() {
    let mut cpu = Cpu::new();
    cpu.h_reg = 0x12;
    cpu.l_reg = 0x34;
    cpu.memory[0x1234] = 0xCD;
    cpu.memory[0] = 0x7E; // MOV A,M
    cpu.memory[1] = 0x74; // MOV M,H
    cpu.step();
    assert_eq!(cpu.a_reg, 0xCD);
    cpu.step();
    assert_eq!(cpu.memory[0x1234], 0x12);
    assert_eq!(cpu.program_counter, 2);
}

#[test]
fn law_compare_sets_flags_like_subtraction() {
    for (a, v, z, cy) in [(0x42u8, 0x42u8, true, false), (0x10, 0x20, false, true), (0x30, 0x20, false, false)] {
        let mut cpu = Cpu::new();
        cpu.a_reg = a;
        cpu.perform_compare_operation(v);
        assert_eq!(cpu.a_reg, a);
        assert_eq!(cpu.get_zero_flag(), z);
        assert_eq!(cpu.get_carry_flag(), cy);
    }
}

#[test]
fn law_stack_is_last_in_first_out_on_cpu() {
    let mut cpu = Cpu::new();
    cpu.stack_pointer = 0x1000;
    cpu.push_stack_u16(0xAAAA);
    cpu.push_stack_u16(0xBBBB);
    assert_eq!(cpu.pop_stack_u16(), 0xBBBB);
    assert_eq!(cpu.pop_stack_u16(), 0xAAAA);
    assert_eq!(cpu.stack_pointer, 0x1000);
}

#[test]
fn law_more_instructions_disassemble() {
    let memory = assemble(
        "MVI M, 7\nLXI SP, 1234H\nPUSH PSW\nPOP H\nDAD D\nINX B\nSTAX D\nLDAX B\nRST 5\nINR A\nDCR M\nIN 10H\nOUT 20H",
    )
    .unwrap();
    assert_eq!(deassemble(memory[0], memory[1], 0), "MVI M,0x07");
    assert_eq!(deassemble(memory[2], memory[3], memory[4]), "LXI SP,0x1234");
    assert_eq!(deassemble(memory[5], 0, 0), "PUSH PSW");
    assert_eq!(deassemble(memory[6], 0, 0), "POP H");
    assert_eq!(deassemble(memory[7], 0, 0), "DAD D");
    assert_eq!(deassemble(memory[8], 0, 0), "INX B");
    assert_eq!(deassemble(memory[9], 0, 0), "STAX D");
    assert_eq!(deassemble(memory[10], 0, 0), "LDAX B");
    assert_eq!(deassemble(memory[11], 0, 0), "RST 5");
    assert_eq!(deassemble(memory[12], 0, 0), "INR A");
    assert_eq!(deassemble(memory[13], 0, 0), "DCR M");
    assert_eq!(deassemble(memory[14], memory[15], 0), "IN 0x10");
    assert_eq!(deassemble(memory[16], memory[17], 0), "OUT 0x20");
}

#[test]
fn batch_and_single_step_decisions() {
    assert!(batch_continues(0, false, 0, 10, true));
    assert!(!batch_continues(20000, false, 0, 10, true));
    assert!(!batch_continues(5, true, 0, 10, true));
    assert!(!batch_continues(5, false, 10, 10, true));
    assert!(!batch_continues(5, false, 0, 10, false));
    assert_eq!(after_single_step(CommandContext::Idle, true, true), (true, false));
    assert_eq!(after_single_step(CommandContext::Idle, true, false), (true, true));
    assert_eq!(after_single_step(CommandContext::AwaitingInput, true, true), (false, true));
}

#[test]
fn ascii_operands_upper_case_the_ascii_way() {
    assert_eq!(Assembler::parse_register("m").unwrap(), 6);
    assert_eq!(Assembler::parse_register_pair("de").unwrap(), 1);
    assert_eq!(Assembler::parse_number_i32("0ffh").unwrap(), 255);
    let e = Assembler::parse_number_i32("12x").unwrap_err();
    assert_eq!(e.token, "12X");
}

#[test]
fn local_symbol_used_outside_its_expansion() {
    let mut a = Assembler::new();
    let e = a
        .assemble("TMAC MACRO\nINNER:\n NOP\nENDM\nTMAC\nJMP INNER")
        .unwrap_err();
    assert!(
        e.message.contains("Symbol INNER is local and cannot be used outside macro"),
        "{}",
        e.message
    );
    let mut a = Assembler::new();
    let e = a
        .assemble("FIRST MACRO\nINNER:\n NOP\nENDM\nSECOND MACRO\n JMP INNER\nENDM\nFIRST\nSECOND")
        .unwrap_err();
    assert!(e.message.contains("Symbol INNER is local to a different macro"), "{}", e.message);
    let mut a = Assembler::new();
    let e = a.assemble("TMAC MACRO\nINNER:\n NOP\nENDM\nTMAC\nORG INNER").unwrap_err();
    assert!(e.message.contains("Forward reference is not allowed"), "{}", e.message);
}
