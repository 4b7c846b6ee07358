use hack_toolchain::vm::ast::{Command, Segment};
use hack_toolchain::vm::emitter::{
    compare_op, emit_binary, emit_command, emit_commands, emit_compare, emit_goto, emit_if_goto,
    emit_label, emit_pop, emit_push, emit_unary, BinaryOp, CompareOp, UnaryOp,
};

fn lines(texts: &[&str]) -> Vec<String> {
    texts.iter().map(|s| s.to_string()).collect()
}

#[test]
fn test_compare_op() {
    assert_eq!(compare_op(CompareOp::Eq), "D;JEQ");
    assert_eq!(compare_op(CompareOp::Gt), "D;JGT");
    assert_eq!(compare_op(CompareOp::Lt), "D;JLT");
}

#[test]
fn test_emit_compare() {
    let mut label_number = 42;
    assert_eq!(
        emit_compare(CompareOp::Gt, "bar", &mut label_number),
        lines(&[
            "@SP",
            "M=M-1",
            "A=M",
            "D=M",
            "A=A-1",
            "D=M-D",
            "@bar$true.42",
            "D;JGT",
            "D=0",
            "@bar$join.42",
            "0;JMP",
            "(bar$true.42)",
            "D=-1",
            "(bar$join.42)",
            "@SP",
            "A=M-1",
            "M=D"
        ])
    );
    assert_eq!(label_number, 43);
}

#[test]
fn test_emit_goto() {
    assert_eq!(emit_goto("bar", "FOO"), lines(&["@bar$FOO", "0;JMP"]));
}

#[test]
fn test_emit_if_goto() {
    assert_eq!(
        emit_if_goto("bar", "FOO"),
        lines(&["@SP", "M=M-1", "A=M", "D=M", "@bar$FOO", "D;JNE"])
    );
}

#[test]
fn test_emit_label() {
    assert_eq!(emit_label("bar", "FOO"), lines(&["(bar$FOO)"]));
}

#[test]
fn test_emit_unary() {
    assert_eq!(emit_unary(UnaryOp::Not), lines(&["@SP", "A=M-1", "M=!M"]));
    assert_eq!(emit_unary(UnaryOp::Neg), lines(&["@SP", "A=M-1", "M=-M"]));
}

#[test]
fn test_emit_binary() {
    assert_eq!(
        emit_binary(BinaryOp::Add),
        lines(&["@SP", "M=M-1", "A=M", "D=M", "A=A-1", "M=D+M"])
    );
    assert_eq!(
        emit_binary(BinaryOp::Sub),
        lines(&["@SP", "M=M-1", "A=M", "D=M", "A=A-1", "M=M-D"])
    );
    assert_eq!(
        emit_binary(BinaryOp::And),
        lines(&["@SP", "M=M-1", "A=M", "D=M", "A=A-1", "M=D&M"])
    );
    assert_eq!(
        emit_binary(BinaryOp::Or),
        lines(&["@SP", "M=M-1", "A=M", "D=M", "A=A-1", "M=D|M"])
    );
}

#[test]
fn test_emit_push() {
    assert_eq!(
        emit_push(Segment::Argument, "foo", 2),
        lines(&["@2", "D=A", "@ARG", "A=M", "A=A+D", "D=M", "@SP", "M=M+1", "A=M-1", "M=D"])
    );
    assert_eq!(
        emit_push(Segment::Constant, "foo", 2),
        lines(&["@2", "D=A", "@SP", "M=M+1", "A=M-1", "M=D"])
    );
}

#[test]
fn test_emit_pop() {
    assert_eq!(
        emit_pop(Segment::Argument, "foo", 2),
        lines(&[
            "@ARG", "D=M", "@2", "D=D+A", "@R13", "M=D", "@SP", "M=M-1", "A=M", "D=M", "@R13",
            "A=M", "M=D"
        ])
    );
}

#[test]
fn test_emit_comment() {
    assert_eq!(hack_toolchain::vm::emitter::emit_comment(&Command::Add), "// add");
}

#[test]
fn test_emit_command() {
    let mut current_function = "bar".to_string();
    let mut label_number = 123;
    assert_eq!(
        emit_command(&Command::Add, "foo", &mut current_function, &mut label_number),
        lines(&["// add", "@SP", "M=M-1", "A=M", "D=M", "A=A-1", "M=D+M"])
    );
}

#[test]
fn push_constant_sequence() {
    let commands = vec![Command::Push(Segment::Constant, 7)];
    let output = emit_commands(commands, "Prog", false);
    assert_eq!(
        output,
        lines(&["// push constant 7", "@7", "D=A", "@SP", "M=M+1", "A=M-1", "M=D"])
    );
}

#[test]
fn call_pushes_five_frame_words() {
    let commands = vec![Command::Call("Foo.bar".to_string(), 2)];
    let output = emit_commands(commands, "Prog", false);
    // the frame: the R13 snapshot, five pushes, ARG and LCL setup, the jump,
    // and the numbered return label
    let push_suffix = ["@SP", "M=M+1", "A=M-1", "M=D"];
    let mut push_count = 0;
    let mut i = 0;
    while i + push_suffix.len() <= output.len() {
        if (0..push_suffix.len()).all(|k| output[i + k] == push_suffix[k]) {
            push_count += 1;
            i += push_suffix.len();
        } else {
            i += 1;
        }
    }
    assert_eq!(push_count, 5);
    let r13 = output.iter().position(|l| l == "@13").expect("snapshot");
    let jump = output.iter().position(|l| l == "0;JMP").expect("jump");
    assert!(r13 < jump);
    assert_eq!(output[jump - 1], "@Foo.bar");
    assert_eq!(output[jump + 1], "(Foo.bar$ret.0)");
    assert_eq!(output.last().unwrap(), "(Foo.bar$ret.0)");
}

#[test]
fn bootstrap_sets_stack_and_calls_sys_init() {
    let output = emit_commands(Vec::new(), "Sys", true);
    assert_eq!(output[0], "// bootstrap SP");
    assert_eq!(output[1], "@256");
    assert_eq!(output[2], "D=A");
    assert_eq!(output[3], "@SP");
    assert_eq!(output[4], "M=D");
    assert_eq!(output[5], "// call Sys.init 0");
    assert!(output.contains(&"@Sys.init".to_string()));
    assert!(output.contains(&"(Sys.init$ret.0)".to_string()));
}

#[test]
fn static_slots_mangle_with_file_stem() {
    let commands = vec![Command::Push(Segment::Static, 3), Command::Pop(Segment::Static, 4)];
    let output = emit_commands(commands, "Foo", false);
    assert!(output.contains(&"@Foo.3".to_string()));
    assert!(output.contains(&"@Foo.4".to_string()));
}

#[test]
fn function_zeroes_its_locals() {
    let commands = vec![Command::Function("Main.main".to_string(), 2)];
    let output = emit_commands(commands, "Main", false);
    assert_eq!(
        output,
        lines(&[
            "// function Main.main 2",
            "(Main.main)",
            "@0",
            "D=A",
            "@SP",
            "M=M+1",
            "A=M-1",
            "M=D",
            "@0",
            "D=A",
            "@SP",
            "M=M+1",
            "A=M-1",
            "M=D",
        ])
    );
}
