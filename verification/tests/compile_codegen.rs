use hack_toolchain::compile::ast::{ClassVarDecorator, ParseError, Type};
use hack_toolchain::compile::emitter::Emitter;
use hack_toolchain::compile::parser::Parser;
use hack_toolchain::compile::symbol_table::SymbolTable;
use hack_toolchain::compile::tokenizer::tokenize;

fn compile(source: &str) -> Vec<String> {
    let tokens = tokenize(source.chars().collect()).expect("tokenizes");
    let mut parser = Parser::new(tokens);
    let mut symbol_table = SymbolTable::new();
    let class = parser.parse_class(&mut symbol_table).expect("parses");
    let mut emitter = Emitter::new(&symbol_table);
    emitter.emit_class(&class).expect("emits");
    emitter.into_lines()
}

#[test]
fn method_receiver_is_argument_zero() {
    let output = compile(
        "class Point { field int field1; \
         method void set(int x) { let field1 = x; return; } }",
    );
    assert_eq!(
        output,
        vec![
            "function Point.set 0".to_string(),
            "push argument 0".to_string(),
            "pop pointer 0".to_string(),
            "push argument 1".to_string(),
            "pop this 0".to_string(),
            "push constant 0".to_string(),
            "return".to_string(),
        ]
    );
}

#[test]
fn empty_string_literal_makes_an_empty_string() {
    let output = compile(
        "class Main { function void main() { do Output.printString(\"\"); return; } }",
    );
    let new_at = output.iter().position(|l| l == "call String.new 1").expect("String.new");
    assert_eq!(output[new_at - 1], "push constant 0");
    assert!(!output.iter().any(|l| l == "call String.appendChar 2"));
}

#[test]
fn string_literal_appends_each_character() {
    let output =
        compile("class Main { function void main() { do Output.printString(\"Hi\"); return; } }");
    let new_at = output.iter().position(|l| l == "call String.new 1").expect("String.new");
    assert_eq!(output[new_at - 1], "push constant 2");
    assert_eq!(output[new_at + 1], "push constant 72");
    assert_eq!(output[new_at + 2], "call String.appendChar 2");
    assert_eq!(output[new_at + 3], "push constant 105");
    assert_eq!(output[new_at + 4], "call String.appendChar 2");
}

#[test]
fn constructor_allocates_its_fields() {
    let output = compile(
        "class Point { field int x, y; static int count; \
         constructor Point new() { return this; } }",
    );
    assert_eq!(output[0], "function Point.new 0");
    assert_eq!(output[1], "push constant 2");
    assert_eq!(output[2], "call Memory.alloc 1");
    assert_eq!(output[3], "pop pointer 0");
    assert_eq!(output[4], "push pointer 0");
    assert_eq!(output[5], "return");
}

#[test]
fn if_without_else_ends_at_the_false_label() {
    let output = compile(
        "class Main { function void main() { if (true) { return; } return; } }",
    );
    assert!(output.contains(&"if-goto IF_TRUE0".to_string()));
    assert!(output.contains(&"goto IF_FALSE0".to_string()));
    assert!(output.contains(&"label IF_TRUE0".to_string()));
    assert!(output.contains(&"label IF_FALSE0".to_string()));
    assert!(!output.iter().any(|l| l.contains("IF_END")));
}

#[test]
fn if_with_else_uses_the_end_label() {
    let output = compile(
        "class Main { function void main() { \
         if (false) { return; } else { return; } return; } }",
    );
    assert!(output.contains(&"goto IF_END0".to_string()));
    assert!(output.contains(&"label IF_END0".to_string()));
}

#[test]
fn while_loops_test_negated_condition() {
    let output = compile(
        "class Main { function void main() { var int i; \
         while (i < 3) { let i = i + 1; } return; } }",
    );
    let exp = output.iter().position(|l| l == "label WHILE_EXP0").expect("loop head");
    assert!(output.contains(&"not".to_string()));
    assert!(output.contains(&"if-goto WHILE_END0".to_string()));
    assert!(output.contains(&"goto WHILE_EXP0".to_string()));
    let end = output.iter().position(|l| l == "label WHILE_END0").expect("loop end");
    assert!(exp < end);
}

#[test]
fn operators_apply_left_to_right() {
    let output = compile(
        "class Main { function int main() { return 1 + 2 * 3; } }",
    );
    assert_eq!(
        output,
        vec![
            "function Main.main 0".to_string(),
            "push constant 1".to_string(),
            "push constant 2".to_string(),
            "add".to_string(),
            "push constant 3".to_string(),
            "call Math.multiply 2".to_string(),
            "return".to_string(),
        ]
    );
}

#[test]
fn qualifier_case_picks_static_or_method_call() {
    let output = compile(
        "class Main { function void main() { var Point p; \
         do Main.go(); do p.draw(1); return; } function void go() { return; } }",
    );
    assert!(output.contains(&"call Main.go 0".to_string()));
    // the lowercase qualifier is pushed as the receiver
    assert!(output.contains(&"push local 0".to_string()));
    assert!(output.contains(&"call Point.draw 2".to_string()));
}

#[test]
fn indexed_access_reads_through_that() {
    let output = compile(
        "class Main { function void main() { var Array a; var int x; \
         let x = a[2]; let a[3] = x; return; } }",
    );
    assert!(output.contains(&"pop pointer 1".to_string()));
    assert!(output.contains(&"push that 0".to_string()));
    assert!(output.contains(&"pop that 0".to_string()));
}

#[test]
fn do_discards_the_call_result() {
    let output = compile("class Main { function void main() { do Main.go(); return; } \
                          function void go() { return; } }");
    let call = output.iter().position(|l| l == "call Main.go 0").expect("call");
    assert_eq!(output[call + 1], "pop temp 0");
}

#[test]
fn duplicate_class_variable_is_rejected() {
    let tokens = tokenize(
        "class Main { field int x; field int x; }".chars().collect(),
    ).expect("tokenizes");
    let mut parser = Parser::new(tokens);
    let mut symbol_table = SymbolTable::new();
    assert_eq!(
        parser.parse_class(&mut symbol_table),
        Err(ParseError::DuplicatedClassLevelVariable)
    );
}

#[test]
fn do_must_be_a_bare_call() {
    let tokens =
        tokenize("class Main { function void main() { do 1 + 2; } }".chars().collect())
            .expect("tokenizes");
    let mut parser = Parser::new(tokens);
    let mut symbol_table = SymbolTable::new();
    assert_eq!(
        parser.parse_class(&mut symbol_table),
        Err(ParseError::DoStatementMustBeSubroutineCall)
    );
}

#[test]
fn slots_count_densely_per_kind() {
    let tokens = tokenize(
        "class Main { static int a; field int b; static int c; field int d, e; \
         function void f() { return; } }"
            .chars()
            .collect(),
    ).expect("tokenizes");
    let mut parser = Parser::new(tokens);
    let mut symbol_table = SymbolTable::new();
    parser.parse_class(&mut symbol_table).expect("parses");
    let lookup = |name: &str| {
        symbol_table.lookup_var("Main", "f", name).expect("resolves")
    };
    let (_, _, a) = lookup("a");
    let (_, _, b) = lookup("b");
    let (_, _, c) = lookup("c");
    let (_, _, d) = lookup("d");
    let (_, _, e) = lookup("e");
    assert_eq!((a, c), (0, 1));
    assert_eq!((b, d, e), (0, 1, 2));
    assert_eq!(symbol_table.lookup_class("Main"), Ok(3));
}

#[test]
fn arguments_and_locals_count_from_zero() {
    let tokens = tokenize(
        "class Main { function int f(int p, int q) { var int u; var int v; return p; } }"
            .chars()
            .collect(),
    ).expect("tokenizes");
    let mut parser = Parser::new(tokens);
    let mut symbol_table = SymbolTable::new();
    parser.parse_class(&mut symbol_table).expect("parses");
    let (_, _, p) = symbol_table.lookup_var("Main", "f", "p").expect("p");
    let (_, _, q) = symbol_table.lookup_var("Main", "f", "q").expect("q");
    let (_, _, u) = symbol_table.lookup_var("Main", "f", "u").expect("u");
    let (_, _, v) = symbol_table.lookup_var("Main", "f", "v").expect("v");
    assert_eq!((p, q, u, v), (0, 1, 0, 1));
    assert_eq!(symbol_table.lookup_subroutine("Main", "f").map(|t| (t.1, t.2)), Ok((2, 2)));
}

#[test]
fn method_call_on_primitive_is_rejected() {
    let tokens = tokenize(
        "class Main { function void main() { var int p; do p.draw(); return; } }"
            .chars()
            .collect(),
    ).expect("tokenizes");
    let mut parser = Parser::new(tokens);
    let mut symbol_table = SymbolTable::new();
    let class = parser.parse_class(&mut symbol_table).expect("parses");
    let mut emitter = Emitter::new(&symbol_table);
    assert!(emitter.emit_class(&class).is_err());
}

#[test]
fn class_variable_types_are_recorded() {
    let tokens = tokenize(
        "class Main { static Point origin; function void f() { return; } }".chars().collect(),
    ).expect("tokenizes");
    let mut parser = Parser::new(tokens);
    let mut symbol_table = SymbolTable::new();
    parser.parse_class(&mut symbol_table).expect("parses");
    let (kind, ty, slot) = symbol_table.lookup_var("Main", "f", "origin").expect("resolves");
    assert_eq!(
        kind,
        hack_toolchain::compile::symbol_table::RefType::ClassRefType(ClassVarDecorator::Static)
    );
    assert_eq!(ty, Type::Class("Point".to_string()));
    assert_eq!(slot, 0);
}

#[test]
fn parse_errors_name_what_is_missing() {
    let parse = |source: &str| {
        let tokens = tokenize(source.chars().collect()).expect("tokenizes");
        let mut parser = Parser::new(tokens);
        let mut symbol_table = SymbolTable::new();
        parser.parse_class(&mut symbol_table)
    };
    assert_eq!(parse("let x = 1;"), Err(ParseError::MissingClassDeclaration));
    assert_eq!(parse("class { }"), Err(ParseError::MissingClassName));
    assert_eq!(parse("class Main { field ; }"), Err(ParseError::MissingType));
    assert_eq!(parse("class Main { field int ; }"), Err(ParseError::MissingVariable));
    assert_eq!(
        parse("class Main { field int x }"),
        Err(ParseError::MissingSemicolon)
    );
    assert_eq!(
        parse("class Main { function void f() { return; } function void f() { return; } }"),
        Err(ParseError::DuplicatedSubroutine)
    );
    assert_eq!(
        parse("class Main { function void f() { var int a, a; return; } }"),
        Err(ParseError::DuplicatedFuncitonLevelVariable)
    );
    assert_eq!(
        parse("class Main { function void f() { let x = ; return; } }"),
        Err(ParseError::MissingExpr)
    );
    assert_eq!(
        parse("class Main { function void f() { let x = 1 return; } }"),
        Err(ParseError::MissingSemicolon)
    );
    assert_eq!(
        parse("class Main { } class"),
        Err(ParseError::UnexpectedToken(
            hack_toolchain::compile::tokenizer::Token::Keyword(
                hack_toolchain::compile::tokenizer::Keyword::Class
            )
        ))
    );
}

#[test]
fn duplicate_class_across_files_is_rejected() {
    let mut symbol_table = SymbolTable::new();
    let tokens =
        tokenize("class Main { }".chars().collect()).expect("tokenizes");
    let mut parser = Parser::new(tokens);
    parser.parse_class(&mut symbol_table).expect("parses");
    let tokens =
        tokenize("class Main { }".chars().collect()).expect("tokenizes");
    let mut parser = Parser::new(tokens);
    assert_eq!(parser.parse_class(&mut symbol_table), Err(ParseError::DuplicatedClass));
}

#[test]
fn nested_ifs_get_distinct_label_numbers() {
    let output = compile(
        "class Main { function void main() { \
         if (true) { if (false) { return; } else { return; } } \
         while (true) { while (false) { return; } } return; } }",
    );
    // the outer if takes number 0 before its body is emitted, so the inner
    // if takes 1; the while counter runs independently
    assert!(output.contains(&"label IF_TRUE0".to_string()));
    assert!(output.contains(&"label IF_TRUE1".to_string()));
    assert!(output.contains(&"label IF_END1".to_string()));
    assert!(output.contains(&"label WHILE_EXP0".to_string()));
    assert!(output.contains(&"label WHILE_EXP1".to_string()));
}
