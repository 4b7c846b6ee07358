use hack_toolchain::vm::ast::{Command, Segment};
use hack_toolchain::vm::parser::parse_line;
use hack_toolchain::vm::printer::{print_command, print_index, print_segment};

#[test]
fn test_print_index() {
    assert_eq!(print_index(123), "123".to_string());
}

#[test]
fn test_print_segment() {
    assert_eq!(print_segment(&Segment::Argument), "argument");
    assert_eq!(print_segment(&Segment::Local), "local");
    assert_eq!(print_segment(&Segment::Static), "static");
    assert_eq!(print_segment(&Segment::Constant), "constant");
    assert_eq!(print_segment(&Segment::This), "this");
    assert_eq!(print_segment(&Segment::That), "that");
    assert_eq!(print_segment(&Segment::Pointer), "pointer");
    assert_eq!(print_segment(&Segment::Temp), "temp");
}

#[test]
fn test_print_command() {
    assert_eq!(print_command(&Command::Push(Segment::Constant, 42)), "push constant 42");
    assert_eq!(print_command(&Command::Pop(Segment::Static, 103)), "pop static 103");
    assert_eq!(print_command(&Command::Add), "add");
    assert_eq!(print_command(&Command::Sub), "sub");
    assert_eq!(print_command(&Command::Neg), "neg");
    assert_eq!(print_command(&Command::Eq), "eq");
    assert_eq!(print_command(&Command::Gt), "gt");
    assert_eq!(print_command(&Command::Lt), "lt");
    assert_eq!(print_command(&Command::And), "and");
    assert_eq!(print_command(&Command::Or), "or");
    assert_eq!(print_command(&Command::Not), "not");
    assert_eq!(print_command(&Command::Goto("LOOP".to_string())), "goto LOOP");
    assert_eq!(print_command(&Command::IfGoto("LOOP".to_string())), "if-goto LOOP");
    assert_eq!(print_command(&Command::Label("LOOP".to_string())), "label LOOP");
    assert_eq!(print_command(&Command::Comment("// foo".to_string())), "// foo");
}

#[test]
fn printed_commands_parse_back() {
    let commands = vec![
        Command::Push(Segment::Argument, 3),
        Command::Pop(Segment::That, 32767),
        Command::Add,
        Command::Eq,
        Command::Not,
        Command::Goto("LOOP".to_string()),
        Command::IfGoto("exit$1".to_string()),
        Command::Label("WHILE_EXP0".to_string()),
        Command::Function("Main.main".to_string(), 2),
        Command::Call("Foo.bar".to_string(), 0),
        Command::Return,
        Command::Comment("// kept verbatim".to_string()),
    ];
    for command in commands {
        let text = print_command(&command);
        assert_eq!(parse_line(text.as_str()), Ok(command));
    }
}
