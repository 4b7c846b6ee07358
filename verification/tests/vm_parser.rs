use hack_toolchain::vm::ast::{Command, Segment};
use hack_toolchain::vm::parser::{
    parse_command, parse_command1, parse_command2, parse_command3, parse_index, parse_line,
    parse_lines, parse_segment, ParseError,
};

#[test]
fn test_parse_index() {
    assert_eq!(parse_index("123"), Ok(123));
    assert_eq!(parse_index("60000"), Err(ParseError::IndexOutOfRange(60000)));
    assert_eq!(parse_index("foo"), Err(ParseError::InvalidIndex("foo".to_string())));
}

#[test]
fn test_parse_segment() {
    assert_eq!(parse_segment("argument"), Ok(Segment::Argument));
    assert_eq!(parse_segment("local"), Ok(Segment::Local));
    assert_eq!(parse_segment("static"), Ok(Segment::Static));
    assert_eq!(parse_segment("constant"), Ok(Segment::Constant));
    assert_eq!(parse_segment("this"), Ok(Segment::This));
    assert_eq!(parse_segment("that"), Ok(Segment::That));
    assert_eq!(parse_segment("pointer"), Ok(Segment::Pointer));
    assert_eq!(parse_segment("temp"), Ok(Segment::Temp));
    assert_eq!(parse_segment("foo"), Err(ParseError::InvalidSegment("foo".to_string())));
}

#[test]
fn test_parse_command3() {
    assert_eq!(parse_command3("push", "argument", "1"), Ok(Command::Push(Segment::Argument, 1)));
    assert_eq!(parse_command3("push", "argument", "1"), Ok(Command::Push(Segment::Argument, 1)));
    assert_eq!(parse_command3("function", "foo", "1"), Ok(Command::Function("foo".to_string(), 1)));
    assert_eq!(parse_command3("call", "foo", "1"), Ok(Command::Call("foo".to_string(), 1)));
    assert_eq!(
        parse_command3("foo", "whatever", "yeah"),
        Err(ParseError::Invalid3WordCommand("foo".to_string()))
    );
}

#[test]
fn test_parse_command2() {
    assert_eq!(parse_command2("if-goto", "FOO"), Ok(Command::IfGoto("FOO".to_string())));
    assert_eq!(parse_command2("goto", "FOO"), Ok(Command::Goto("FOO".to_string())));
    assert_eq!(parse_command2("label", "FOO"), Ok(Command::Label("FOO".to_string())));
    assert_eq!(
        parse_command2("foo", "bar"),
        Err(ParseError::Invalid2WordCommand("foo".to_string()))
    );
}

#[test]
fn test_parse_command1() {
    assert_eq!(parse_command1("add"), Ok(Command::Add));
    assert_eq!(parse_command1("sub"), Ok(Command::Sub));
    assert_eq!(parse_command1("neg"), Ok(Command::Neg));
    assert_eq!(parse_command1("eq"), Ok(Command::Eq));
    assert_eq!(parse_command1("gt"), Ok(Command::Gt));
    assert_eq!(parse_command1("lt"), Ok(Command::Lt));
    assert_eq!(parse_command1("and"), Ok(Command::And));
    assert_eq!(parse_command1("or"), Ok(Command::Or));
    assert_eq!(parse_command1("not"), Ok(Command::Not));
    assert_eq!(parse_command1("return"), Ok(Command::Return));
    assert_eq!(parse_command1("foo"), Err(ParseError::Invalid1WordCommand("foo".to_string())));
}

#[test]
fn test_parse_command() {
    assert_eq!(parse_command("add"), Ok(Command::Add));
    assert_eq!(parse_command("push argument 1"), Ok(Command::Push(Segment::Argument, 1)));
    assert_eq!(
        parse_command("foo whatever yeah"),
        Err(ParseError::Invalid3WordCommand("foo".to_string()))
    );
    assert_eq!(
        parse_command("foo whatever"),
        Err(ParseError::Invalid2WordCommand("foo".to_string()))
    );
    assert_eq!(
        parse_command("foo whatever yeah baby"),
        Err(ParseError::InvalidCommand("foo".to_string()))
    );
}

#[test]
fn parser_test_parse_line() {
    assert_eq!(parse_line(" add // ok"), Ok(Command::Add));
    assert_eq!(
        parse_line(" push  argument  1   // comment"),
        Ok(Command::Push(Segment::Argument, 1))
    );
    assert_eq!(parse_line("// comment"), Ok(Command::Comment("// comment".to_string())));
    assert_eq!(parse_line(""), Ok(Command::Comment("".to_string())));
}

#[test]
fn rejects_whole_input_on_one_bad_line() {
    let lines: Vec<String> = vec!["add", "flub"].into_iter().map(String::from).collect();
    let result = parse_lines(&lines);
    assert_eq!(result, Err(vec![(1, ParseError::Invalid1WordCommand("flub".to_string()))]));
}

#[test]
fn accepts_clean_input_with_comments() {
    let lines: Vec<String> =
        vec!["// header", "push constant 7", "add"].into_iter().map(String::from).collect();
    let result = parse_lines(&lines);
    assert_eq!(
        result,
        Ok(vec![
            Command::Comment("// header".to_string()),
            Command::Push(Segment::Constant, 7),
            Command::Add,
        ])
    );
}
