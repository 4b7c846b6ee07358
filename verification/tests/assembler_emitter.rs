use hack_toolchain::assembler::analyzer::SymbolTable;
use hack_toolchain::assembler::ast::{DestSet, Expr, Instruction, Jump, Reference};
use hack_toolchain::assembler::emitter::{
    bits, create_output_filename, emit_c_instruction, emit_dest, emit_expr, emit_instruction,
    emit_jump,
};

fn dest(a: bool, d: bool, m: bool) -> DestSet {
    DestSet { a, d, m }
}

fn table() -> SymbolTable {
    let mut symbol_table = SymbolTable::new();
    symbol_table.insert("FOO".to_string(), 456);
    symbol_table.insert("BAR".to_string(), 2);
    symbol_table
}

#[test]
fn test_emit_a_instruction() {
    let symbol_table = table();
    assert_eq!(
        emit_instruction(&Instruction::A(Reference::Address(123)), &symbol_table),
        Some(123)
    );
    assert_eq!(
        emit_instruction(&Instruction::A(Reference::Symbol("FOO".to_string())), &symbol_table),
        Some(456)
    );
}

#[test]
fn test_emit_jump() {
    assert_eq!(emit_jump(&Jump::Null), 0b000);
    assert_eq!(emit_jump(&Jump::Jgt), 0b001);
    assert_eq!(emit_jump(&Jump::Jeq), 0b010);
    assert_eq!(emit_jump(&Jump::Jge), 0b011);
    assert_eq!(emit_jump(&Jump::Jlt), 0b100);
    assert_eq!(emit_jump(&Jump::Jne), 0b101);
    assert_eq!(emit_jump(&Jump::Jle), 0b110);
    assert_eq!(emit_jump(&Jump::Jmp), 0b111);
}

#[test]
fn test_emit_register() {
    assert_eq!(emit_dest(&dest(false, false, false)), 0b000);
    assert_eq!(emit_dest(&dest(false, false, true)), 0b001);
    assert_eq!(emit_dest(&dest(false, true, false)), 0b010);
    assert_eq!(emit_dest(&dest(false, true, true)), 0b011);
    assert_eq!(emit_dest(&dest(true, false, false)), 0b100);
    assert_eq!(emit_dest(&dest(true, false, true)), 0b101);
    assert_eq!(emit_dest(&dest(true, true, false)), 0b110);
    assert_eq!(emit_dest(&dest(true, true, true)), 0b111);
}

#[test]
fn test_emit_expr() {
    assert_eq!(emit_expr(&Expr::Zero), 0b0101010);
    assert_eq!(emit_expr(&Expr::One), 0b0111111);
    assert_eq!(emit_expr(&Expr::NegOne), 0b0111010);
    assert_eq!(emit_expr(&Expr::D), 0b0001100);
    assert_eq!(emit_expr(&Expr::A), 0b0110000);
    assert_eq!(emit_expr(&Expr::M), 0b1110000);
    assert_eq!(emit_expr(&Expr::NotD), 0b0001101);
    assert_eq!(emit_expr(&Expr::NotA), 0b0110001);
    assert_eq!(emit_expr(&Expr::NotM), 0b1110001);
    assert_eq!(emit_expr(&Expr::NegD), 0b0001111);
    assert_eq!(emit_expr(&Expr::NegA), 0b0110011);
    assert_eq!(emit_expr(&Expr::NegM), 0b1110011);
    assert_eq!(emit_expr(&Expr::DAddOne), 0b0011111);
    assert_eq!(emit_expr(&Expr::AAddOne), 0b0110111);
    assert_eq!(emit_expr(&Expr::MAddOne), 0b1110111);
    assert_eq!(emit_expr(&Expr::DSubOne), 0b0001110);
    assert_eq!(emit_expr(&Expr::ASubOne), 0b0110010);
    assert_eq!(emit_expr(&Expr::MSubOne), 0b1110010);
    assert_eq!(emit_expr(&Expr::DAddA), 0b0000010);
    assert_eq!(emit_expr(&Expr::DAddM), 0b1000010);
    assert_eq!(emit_expr(&Expr::DSubA), 0b0010011);
    assert_eq!(emit_expr(&Expr::DSubM), 0b1010011);
    assert_eq!(emit_expr(&Expr::ASubD), 0b0000111);
    assert_eq!(emit_expr(&Expr::MSubD), 0b1000111);
    assert_eq!(emit_expr(&Expr::DAndA), 0b0000000);
    assert_eq!(emit_expr(&Expr::DAndM), 0b1000000);
    assert_eq!(emit_expr(&Expr::DOrA), 0b0010101);
    assert_eq!(emit_expr(&Expr::DOrM), 0b1010101);
}

#[test]
fn test_emit_c_instruction() {
    assert_eq!(
        emit_c_instruction(&dest(true, true, false), &Expr::DSubA, &Jump::Jne),
        0b1110010011110101
    );
}

#[test]
fn test_emit_instruction() {
    let symbol_table = table();
    assert_eq!(emit_instruction(&Instruction::L("BLAH".to_string()), &symbol_table), None);
    assert_eq!(
        emit_instruction(&Instruction::A(Reference::Symbol("FOO".to_string())), &symbol_table),
        Some(456)
    );
    assert_eq!(
        emit_instruction(
            &Instruction::C(dest(true, true, false), Expr::DSubA, Jump::Jne),
            &symbol_table
        ),
        Some(0b1110010011110101)
    );
}

#[test]
fn test_create_output_filename() {
    assert_eq!(create_output_filename("../whatever/foo.asm"), "../whatever/foo.hack".to_string());
}

#[test]
fn test_bits() {
    assert_eq!(bits(0b1001011101011001), "1001011101011001");
}
