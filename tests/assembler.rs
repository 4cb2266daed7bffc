use geckolib::assembler::{parse_u32_literal, reduce_line_to_code, AsmError, Assembler, Instruction};
use geckolib::encoding::{build_addis_instruction, build_branch_instruction, build_lis_instruction};
use geckolib::symbols::SymbolTable;

fn assemble(user: Option<SymbolTable>, pre: &SymbolTable, lines: &[&str]) -> Result<Vec<Instruction>, AsmError> {
    let mut assembler = Assembler::new(user, pre);
    assembler.assemble_all_lines(lines)
}

#[test]
fn lis_loads_high_half_into_register() {
    let pre = SymbolTable::new();
    let out = assemble(None, &pre, &["lis r3, 0x8000"]).unwrap();
    assert_eq!(out, vec![Instruction { address: 0, data: 0x3C60_8000 }]);
}

#[test]
fn unknown_mnemonic_is_a_parse_error_naming_the_line() {
    let pre = SymbolTable::new();
    let err = assemble(None, &pre, &["foo"]).unwrap_err();
    assert_eq!(err, AsmError::ParseError("foo".to_string()));
}

#[test]
fn self_branch_through_numeric_label() {
    let pre = SymbolTable::new();
    let out = assemble(None, &pre, &["0:", "b 0"]).unwrap();
    assert_eq!(out.len(), 1);
    assert_eq!(out[0].address, 0);
    assert_eq!(out[0].data & 0x03FF_FFFC, 0);
    assert_eq!(out[0].data, 0x4800_0000);
}

#[test]
fn self_branch_through_symbol_label() {
    let pre = SymbolTable::new();
    let mut user = SymbolTable::new();
    user.insert("start", 0);
    let out = assemble(Some(user), &pre, &["[start]:", "b start"]).unwrap();
    assert_eq!(out, vec![Instruction { address: 0, data: 0x4800_0000 }]);
}

#[test]
fn name_label_gives_self_branch() {
    let pre = SymbolTable::new();
    let out = assemble(None, &pre, &["start:", "b start"]).unwrap();
    assert_eq!(out, vec![Instruction { address: 0, data: 0x4800_0000 }]);
}

#[test]
fn name_labels_bind_the_current_address() {
    let pre = SymbolTable::new();
    let out = assemble(None, &pre, &["0x80001000:", "nop", "loop:", "nop", "b loop", "bl loop"]).unwrap();
    assert_eq!(out[2], Instruction { address: 0x8000_1008, data: 0x4BFF_FFFC });
    assert_eq!(out[3], Instruction { address: 0x8000_100C, data: 0x4BFF_FFF9 });
    let mut user = SymbolTable::new();
    user.insert("here", 0x10);
    let out = assemble(Some(user), &pre, &["0x40:", "here:", "b here"]).unwrap();
    assert_eq!(out[0].data, 0x4800_0000);
}

#[test]
fn name_label_used_before_definition_is_unknown() {
    let pre = SymbolTable::new();
    let err = assemble(None, &pre, &["b later", "later:"]).unwrap_err();
    assert_eq!(err, AsmError::UnknownSymbol("later".to_string()));
}

#[test]
fn user_symbols_win_over_prelinked() {
    let mut pre = SymbolTable::new();
    pre.insert("target", 0x8000_2000);
    let mut user = SymbolTable::new();
    user.insert("target", 0x8000_1000);
    let mut assembler = Assembler::new(Some(user), &pre);
    assert_eq!(assembler.resolve_symbol("target"), Ok(0x8000_1000));
    let out = assembler.assemble_all_lines(&["0x80001000:", "b target"]).unwrap();
    assert_eq!(out[0].data, 0x4800_0000);
}

#[test]
fn prelinked_symbols_are_used_when_user_table_lacks_name() {
    let mut pre = SymbolTable::new();
    pre.insert("init", 0x8040_1000);
    let assembler = Assembler::new(None, &pre);
    assert_eq!(assembler.resolve_symbol("init"), Ok(0x8040_1000));
    assert_eq!(assembler.resolve_symbol("0x10"), Ok(0x10));
}

#[test]
fn unresolved_name_fails_with_unknown_symbol() {
    let pre = SymbolTable::new();
    let err = assemble(None, &pre, &["bl nowhere"]).unwrap_err();
    assert_eq!(err, AsmError::UnknownSymbol("nowhere".to_string()));
}

#[test]
fn forward_call_sets_link_bit() {
    let pre = SymbolTable::new();
    let out = assemble(None, &pre, &["0x80000000:", "bl 0x80000010"]).unwrap();
    assert_eq!(out, vec![Instruction { address: 0x8000_0000, data: 0x4800_0011 }]);
}

#[test]
fn backward_branch_encodes_negative_displacement() {
    let pre = SymbolTable::new();
    let out = assemble(None, &pre, &["0x100:", "b 0xF0"]).unwrap();
    assert_eq!(out[0].data, 0x4BFF_FFF0);
    let far = assemble(None, &pre, &["0x2000000:", "b 0"]).unwrap();
    assert_eq!(far[0].data, 0x4A00_0000);
}

#[test]
fn comments_and_blank_lines_are_skipped() {
    let pre = SymbolTable::new();
    let out = assemble(None, &pre, &["; a comment", "", "   ", "nop ; trailing", "nop"]).unwrap();
    assert_eq!(
        out,
        vec![Instruction { address: 0, data: 0x6000_0000 }, Instruction { address: 4, data: 0x6000_0000 }]
    );
}

#[test]
fn raw_words() {
    let pre = SymbolTable::new();
    let out = assemble(None, &pre, &["u32 0xDEADBEEF", "u32 -1", "u32 10"]).unwrap();
    let words: Vec<u32> = out.iter().map(|i| i.data).collect();
    assert_eq!(words, vec![0xDEAD_BEEF, 0xFFFF_FFFF, 10]);
    let err = assemble(None, &pre, &["u32 zz"]).unwrap_err();
    assert_eq!(err, AsmError::ParseError("u32 zz".to_string()));
}

#[test]
fn label_expressions_add_and_subtract() {
    let pre = SymbolTable::new();
    let mut user = SymbolTable::new();
    user.insert("base", 0x1000);
    let out = assemble(Some(user), &pre, &["[base] + 0x10 - 4:", "nop"]).unwrap();
    assert_eq!(out[0].address, 0x100C);
}

#[test]
fn label_with_unclosed_bracket_fails() {
    let pre = SymbolTable::new();
    let err = assemble(None, &pre, &["[base:"]).unwrap_err();
    assert_eq!(err, AsmError::ParseError("[base:".to_string()));
    let err = assemble(None, &pre, &["0x10 * 2:"]).unwrap_err();
    assert_eq!(err, AsmError::ParseError("0x10 * 2:".to_string()));
}

#[test]
fn lis_operand_errors() {
    let pre = SymbolTable::new();
    assert_eq!(assemble(None, &pre, &["lis r3"]).unwrap_err(), AsmError::ParseError("lis r3".to_string()));
    assert_eq!(assemble(None, &pre, &["lis 3, 1"]).unwrap_err(), AsmError::ParseError("lis 3, 1".to_string()));
    assert_eq!(assemble(None, &pre, &["lis rx, 1"]).unwrap_err(), AsmError::ParseError("lis rx, 1".to_string()));
}

#[test]
fn reduce_line_strips_comment_and_whitespace() {
    assert_eq!(reduce_line_to_code("  nop ; comment "), "nop");
    assert_eq!(reduce_line_to_code("; only"), "");
    assert_eq!(reduce_line_to_code("\tb target\r"), "b target");
}

#[test]
fn u32_literals() {
    assert_eq!(parse_u32_literal("0x10"), Some(16));
    assert_eq!(parse_u32_literal("42"), Some(42));
    assert_eq!(parse_u32_literal("-1"), Some(0xFFFF_FFFF));
    assert_eq!(parse_u32_literal("zz"), None);
}

#[test]
fn instruction_encoders() {
    assert_eq!(build_branch_instruction(0, 0, false, false), 0x4800_0000);
    assert_eq!(build_branch_instruction(0x100, 0x80, true, true), 0x4800_0083);
    assert_eq!(build_addis_instruction(3, 4, -1), 0x3C64_FFFF);
    assert_eq!(build_lis_instruction(31, 0x1234), 0x3FE0_1234);
}
