use hack_toolchain::assembler::analyzer::{analyze, find_addr};
use hack_toolchain::assembler::emitter::{bits, emit_instructions};
use hack_toolchain::assembler::parser::{parse_lines, parse_reference, ParseError};
use hack_toolchain::assembler::ast::Reference;

fn assemble(source: &[&str]) -> Vec<String> {
    let lines: Vec<String> = source.iter().map(|s| s.to_string()).collect();
    let (instructions, errors) = parse_lines(&lines);
    assert!(errors.is_empty());
    let symbol_table = analyze(&instructions);
    emit_instructions(&instructions, &symbol_table).into_iter().map(bits).collect()
}

#[test]
fn test_find_addr() {
    assert_eq!(find_addr("R0", 16), (0, 16));
    assert_eq!(find_addr("R1", 16), (1, 16));
    assert_eq!(find_addr("R2", 16), (2, 16));
    assert_eq!(find_addr("R3", 16), (3, 16));
    assert_eq!(find_addr("R4", 16), (4, 16));
    assert_eq!(find_addr("R5", 16), (5, 16));
    assert_eq!(find_addr("R6", 16), (6, 16));
    assert_eq!(find_addr("R7", 16), (7, 16));
    assert_eq!(find_addr("R8", 16), (8, 16));
    assert_eq!(find_addr("R9", 16), (9, 16));
    assert_eq!(find_addr("R10", 16), (10, 16));
    assert_eq!(find_addr("R11", 16), (11, 16));
    assert_eq!(find_addr("R12", 16), (12, 16));
    assert_eq!(find_addr("R13", 16), (13, 16));
    assert_eq!(find_addr("R14", 16), (14, 16));
    assert_eq!(find_addr("R15", 16), (15, 16));
    assert_eq!(find_addr("SP", 16), (0, 16));
    assert_eq!(find_addr("LCL", 16), (1, 16));
    assert_eq!(find_addr("ARG", 16), (2, 16));
    assert_eq!(find_addr("THIS", 16), (3, 16));
    assert_eq!(find_addr("THAT", 16), (4, 16));
    assert_eq!(find_addr("SCREEN", 16), (16384, 16));
    assert_eq!(find_addr("KBD", 16), (24576, 16));
    assert_eq!(find_addr("FOO", 16), (16, 17));
    assert_eq!(find_addr("BAR", 200), (200, 201));
}

#[test]
fn boundary_at_value_32767_addressable() {
    assert_eq!(parse_reference("32767"), Ok(Reference::Address(32767)));
    assert_eq!(parse_reference("32768"), Err(ParseError::ConstantOutOfRange(32768)));
}

#[test]
fn assembles_constants_and_computes() {
    assert_eq!(
        assemble(&["@5", "D=A", "@3", "D=D+A"]),
        vec![
            "0000000000000101".to_string(),
            "1110110000010000".to_string(),
            "0000000000000011".to_string(),
            "1110000010010000".to_string(),
        ]
    );
}

#[test]
fn assembles_labels() {
    assert_eq!(
        assemble(&["(LOOP)", "@LOOP", "0;JMP"]),
        vec!["0000000000000000".to_string(), "1110101010000111".to_string()]
    );
}

#[test]
fn assembles_variables_from_sixteen() {
    let lines: Vec<String> =
        vec!["@i", "M=1", "@sum", "M=0"].into_iter().map(String::from).collect();
    let (instructions, errors) = parse_lines(&lines);
    assert!(errors.is_empty());
    let symbol_table = analyze(&instructions);
    assert_eq!(symbol_table.get("i"), Some(16));
    assert_eq!(symbol_table.get("sum"), Some(17));
    let output: Vec<String> =
        emit_instructions(&instructions, &symbol_table).into_iter().map(bits).collect();
    assert_eq!(
        output,
        vec![
            "0000000000010000".to_string(),
            "1110111111001000".to_string(),
            "0000000000010001".to_string(),
            "1110101010001000".to_string(),
        ]
    );
}

#[test]
fn predefined_symbol_beats_variable_slot() {
    let lines: Vec<String> = vec!["@SCREEN", "@x"].into_iter().map(String::from).collect();
    let (instructions, errors) = parse_lines(&lines);
    assert!(errors.is_empty());
    let symbol_table = analyze(&instructions);
    assert_eq!(symbol_table.get("SCREEN"), Some(16384));
    assert_eq!(symbol_table.get("x"), Some(16));
}

#[test]
fn label_overrides_variable_allocation() {
    let lines: Vec<String> =
        vec!["@END", "0;JMP", "(END)", "@END", "0;JMP"].into_iter().map(String::from).collect();
    let (instructions, errors) = parse_lines(&lines);
    assert!(errors.is_empty());
    let symbol_table = analyze(&instructions);
    assert_eq!(symbol_table.get("END"), Some(2));
}
