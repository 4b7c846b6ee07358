use hack_toolchain::assembler::ast::{DestSet, Expr, Instruction, Jump, Reference};
use hack_toolchain::assembler::parser::{
    parse_a_inst, parse_c_inst, parse_constant, parse_dest, parse_expr, parse_instruction,
    parse_jump, parse_l_inst, parse_line, parse_lines, parse_reference, parse_register,
    parse_symbol, ParseError,
};
use hack_toolchain::assembler::ast::Register;

fn dest(a: bool, d: bool, m: bool) -> DestSet {
    DestSet { a, d, m }
}

#[test]
fn test_parse_symbol() {
    assert_eq!(parse_symbol("hello"), Ok(Reference::Symbol("hello".to_string())));
}

#[test]
fn test_parse_consant() {
    assert_eq!(parse_constant("123"), Ok(123));
    assert_eq!(parse_constant("60000"), Err(ParseError::ConstantOutOfRange(60000)));
    assert_eq!(parse_constant("foo"), Err(ParseError::InvalidSymbol("foo".to_string())));
}

#[test]
fn test_parse_reference() {
    assert_eq!(parse_reference("123"), Ok(Reference::Address(123)));
    assert_eq!(parse_reference("hello"), Ok(Reference::Symbol("hello".to_string())));
    assert_eq!(parse_reference(""), Err(ParseError::MissingSymbol));
}

#[test]
fn test_parse_a_inst() {
    assert_eq!(parse_a_inst("@123"), Ok(Instruction::A(Reference::Address(123))));
    assert_eq!(parse_a_inst("@hello"), Ok(Instruction::A(Reference::Symbol("hello".to_string()))));
    assert_eq!(parse_a_inst("@"), Err(ParseError::MissingSymbol));
}

#[test]
fn test_parse_l_inst() {
    assert_eq!(parse_l_inst("(abc)"), Ok(Instruction::L("abc".to_string())));
    assert_eq!(parse_l_inst("(abc"), Err(ParseError::MissingClosingParen("(abc".to_string())));
    assert_eq!(parse_l_inst("("), Err(ParseError::MissingClosingParen("(".to_string())));
}

#[test]
fn test_parse_dest() {
    assert_eq!(parse_dest(""), Ok(dest(false, false, false)));
    assert_eq!(parse_dest("A"), Ok(dest(true, false, false)));
    assert_eq!(parse_dest("D"), Ok(dest(false, true, false)));
    assert_eq!(parse_dest("M"), Ok(dest(false, false, true)));
    assert_eq!(parse_dest(" A M D "), Ok(dest(true, true, true)));
    assert_eq!(parse_dest("AMMD"), Err(ParseError::DuplicateRegister("AMMD".to_string())));
    assert_eq!(parse_dest("QBS"), Err(ParseError::InvalidRegister("Q".to_string())));
}

#[test]
fn test_parse_jump() {
    assert_eq!(parse_jump(""), Ok(Jump::Null));
    assert_eq!(parse_jump("JGT"), Ok(Jump::Jgt));
    assert_eq!(parse_jump("JEQ"), Ok(Jump::Jeq));
    assert_eq!(parse_jump("JGE"), Ok(Jump::Jge));
    assert_eq!(parse_jump("JLT"), Ok(Jump::Jlt));
    assert_eq!(parse_jump("JNE"), Ok(Jump::Jne));
    assert_eq!(parse_jump("JLE"), Ok(Jump::Jle));
    assert_eq!(parse_jump("JMP"), Ok(Jump::Jmp));
    assert_eq!(parse_jump("JUK"), Err(ParseError::InvalidJumpType("JUK".to_string())));
}

#[test]
fn test_parse_register() {
    assert_eq!(parse_register('A'), Ok(Register::A));
    assert_eq!(parse_register('D'), Ok(Register::D));
    assert_eq!(parse_register('M'), Ok(Register::M));
    assert_eq!(parse_register('Q'), Err(ParseError::InvalidRegister("Q".to_string())));
}

#[test]
fn test_parse_expr() {
    assert_eq!(parse_expr("0"), Ok(Expr::Zero));
    assert_eq!(parse_expr("1"), Ok(Expr::One));
    assert_eq!(parse_expr("-1"), Ok(Expr::NegOne));
    assert_eq!(parse_expr("D"), Ok(Expr::D));
    assert_eq!(parse_expr("A"), Ok(Expr::A));
    assert_eq!(parse_expr("M"), Ok(Expr::M));
    assert_eq!(parse_expr("!D"), Ok(Expr::NotD));
    assert_eq!(parse_expr("!A"), Ok(Expr::NotA));
    assert_eq!(parse_expr("!M"), Ok(Expr::NotM));
    assert_eq!(parse_expr("-D"), Ok(Expr::NegD));
    assert_eq!(parse_expr("-A"), Ok(Expr::NegA));
    assert_eq!(parse_expr("-M"), Ok(Expr::NegM));
    assert_eq!(parse_expr("D + 1"), Ok(Expr::DAddOne));
    assert_eq!(parse_expr("A+1"), Ok(Expr::AAddOne));
    assert_eq!(parse_expr(" M+1"), Ok(Expr::MAddOne));
    assert_eq!(parse_expr("D-1 "), Ok(Expr::DSubOne));
    assert_eq!(parse_expr("A-1"), Ok(Expr::ASubOne));
    assert_eq!(parse_expr("M- 1"), Ok(Expr::MSubOne));
    assert_eq!(parse_expr("D+A"), Ok(Expr::DAddA));
    assert_eq!(parse_expr("D + M"), Ok(Expr::DAddM));
    assert_eq!(parse_expr("D-A"), Ok(Expr::DSubA));
    assert_eq!(parse_expr("D-M"), Ok(Expr::DSubM));
    assert_eq!(parse_expr("A-D"), Ok(Expr::ASubD));
    assert_eq!(parse_expr("M-D"), Ok(Expr::MSubD));
    assert_eq!(parse_expr("D&A"), Ok(Expr::DAndA));
    assert_eq!(parse_expr("D&M"), Ok(Expr::DAndM));
    assert_eq!(parse_expr("D|A"), Ok(Expr::DOrA));
    assert_eq!(parse_expr("D| M"), Ok(Expr::DOrM));
    assert_eq!(parse_expr("M | D"), Err(ParseError::InvalidExpr("M | D".to_string())));
}

#[test]
fn test_parse_c_inst() {
    assert_eq!(
        parse_c_inst(" ADM = D + 1; JLT"),
        Ok(Instruction::C(dest(true, true, true), Expr::DAddOne, Jump::Jlt))
    );
    assert_eq!(
        parse_c_inst(" D + 1; JLT"),
        Ok(Instruction::C(dest(false, false, false), Expr::DAddOne, Jump::Jlt))
    );
    assert_eq!(
        parse_c_inst(" ADM = D + 1"),
        Ok(Instruction::C(dest(true, true, true), Expr::DAddOne, Jump::Null))
    );
}

#[test]
fn test_parse_instruction() {
    assert_eq!(parse_instruction("(abc)"), Ok(Instruction::L("abc".to_string())));
    assert_eq!(
        parse_instruction(" ADM = D + 1; JLT"),
        Ok(Instruction::C(dest(true, true, true), Expr::DAddOne, Jump::Jlt))
    );
    assert_eq!(parse_instruction("@123"), Ok(Instruction::A(Reference::Address(123))));
}

#[test]
fn test_parse_line() {
    assert_eq!(parse_line("  (abc) "), Some(Ok(Instruction::L("abc".to_string()))));
    assert_eq!(parse_line("  (abc) // blah blah"), Some(Ok(Instruction::L("abc".to_string()))));
    assert_eq!(parse_line("   "), None);
    assert_eq!(parse_line("  // flub"), None);
}

#[test]
fn test_parse_lines() {
    let lines: Vec<String> =
        vec!["  (abc) ", "   ", "  // flub", "dog", "D+M", "cat"].into_iter().map(String::from).collect();
    let results = parse_lines(&lines);
    assert_eq!(
        results.0,
        vec![
            Instruction::L("abc".to_string()),
            Instruction::C(dest(false, false, false), Expr::DAddM, Jump::Null)
        ]
    );
    assert_eq!(
        results.1,
        vec![
            (3, ParseError::InvalidExpr("dog".to_string())),
            (5, ParseError::InvalidExpr("cat".to_string()))
        ]
    );
}
