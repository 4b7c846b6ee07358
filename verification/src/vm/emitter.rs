//! The VM emitter: each command becomes a block of Hack assembly lines,
//! preceded by a comment line quoting the command.

use vstd::prelude::*;

use crate::text::{dec_rep, lit, u16_to_string, u64_to_string};
use crate::vm::ast::{Command, CommandV, Segment};
use crate::vm::printer::{print_command, spec_print_command};

verus! {

/// An `@name` reference line.
pub open spec fn ref_line(name: Seq<char>) -> Seq<char> {
    "@"@ + name
}

/// A `(name)` label line.
pub open spec fn label_line(name: Seq<char>) -> Seq<char> {
    "("@ + name + ")"@
}

/// The assembly symbol of static slot `index` of the file `statics_base`.
pub open spec fn static_sym(base: Seq<char>, index: u16) -> Seq<char> {
    base + "."@ + dec_rep(index as nat)
}

/// A label scoped to a function: `function$label`.
pub open spec fn qualified_label(f: Seq<char>, label: Seq<char>) -> Seq<char> {
    f + "$"@ + label
}

/// A numbered label scoped to a function: `function$label.n`.
pub open spec fn numbered_label(f: Seq<char>, label: Seq<char>, n: nat) -> Seq<char> {
    f + "$"@ + label + "."@ + dec_rep(n)
}

/// An `@name` reference line.
pub fn make_ref(name: &str) -> (r: String)
    ensures
        r@ == ref_line(name@),
{
    lit("@").concat(name)
}

/// A `(name)` label line.
pub fn make_label(name: &str) -> (r: String)
    ensures
        r@ == label_line(name@),
{
    lit("(").concat(name).concat(")")
}

/// The assembly symbol of a static slot: `base.index`.
pub fn make_static_name(statics_base: &str, index: u16) -> (r: String)
    ensures
        r@ == static_sym(statics_base@, index),
{
    let n = u16_to_string(index);
    lit(statics_base).concat(".").concat(n.as_str())
}

/// A function-scoped label: `function$label`.
pub fn make_qualified_label_name(function_name: &str, label: &str) -> (r: String)
    ensures
        r@ == qualified_label(function_name@, label@),
{
    lit(function_name).concat("$").concat(label)
}

/// A function-scoped numbered label: `function$label.n`.
pub fn make_numbered_label_name(function_name: &str, label: &str, number: usize) -> (r: String)
    ensures
        r@ == numbered_label(function_name@, label@, number as nat),
{
    let n = u64_to_string(number as u64);
    make_qualified_label_name(function_name, label).concat(".").concat(n.as_str())
}

/// The lines that push D onto the stack.
pub open spec fn push_d_lines() -> Seq<Seq<char>> {
    seq!["@SP"@, "M=M+1"@, "A=M-1"@, "M=D"@]
}

/// Pushes D; the stack pointer advances by one.
pub fn push_d() -> (r: Vec<String>)
    ensures
        r.deep_view() == push_d_lines(),
{
    let mut results: Vec<String> = Vec::new();
    results.push(lit("@SP"));
    results.push(lit("M=M+1"));
    results.push(lit("A=M-1"));
    results.push(lit("M=D"));
    assert(results.deep_view() =~= push_d_lines());
    results
}

/// The lines that point M at the top of the stack.
pub open spec fn peek_m_lines() -> Seq<Seq<char>> {
    seq!["@SP"@, "A=M-1"@]
}

/// Points M at the top of the stack without moving the stack pointer.
pub fn peek_m() -> (r: Vec<String>)
    ensures
        r.deep_view() == peek_m_lines(),
{
    let mut results: Vec<String> = Vec::new();
    results.push(lit("@SP"));
    results.push(lit("A=M-1"));
    assert(results.deep_view() =~= peek_m_lines());
    results
}

/// The lines that pop the stack and point M at the popped value.
pub open spec fn pop_m_lines() -> Seq<Seq<char>> {
    seq!["@SP"@, "M=M-1"@, "A=M"@]
}

/// Pops the stack, leaving M pointing at the old top value.
pub fn pop_m() -> (r: Vec<String>)
    ensures
        r.deep_view() == pop_m_lines(),
{
    let mut results: Vec<String> = Vec::new();
    results.push(lit("@SP"));
    results.push(lit("M=M-1"));
    results.push(lit("A=M"));
    assert(results.deep_view() =~= pop_m_lines());
    results
}

/// The lines that pop the stack into D.
pub open spec fn pop_d_lines() -> Seq<Seq<char>> {
    pop_m_lines().push("D=M"@)
}

/// Pops the stack into D.
pub fn pop_d() -> (r: Vec<String>)
    ensures
        r.deep_view() == pop_d_lines(),
{
    let mut results = pop_m();
    results.push(lit("D=M"));
    assert(results.deep_view() =~= pop_d_lines());
    results
}

/// The lines that push `*(*segment + index)`.
pub open spec fn indirect_push_lines(segment: Seq<char>, index: u16) -> Seq<Seq<char>> {
    (if index != 0 {
        seq![ref_line(dec_rep(index as nat)), "D=A"@]
    } else {
        Seq::<Seq<char>>::empty()
    }) + seq![segment, "A=M"@] + (if index != 0 {
        seq!["A=A+D"@]
    } else {
        Seq::<Seq<char>>::empty()
    }) + seq!["D=M"@] + push_d_lines()
}

/// Pushes the value at `index` past the address a pointer register holds.
pub fn emit_indirect_push(segment: &str, index: u16) -> (r: Vec<String>)
    ensures
        r.deep_view() == indirect_push_lines(segment@, index),
{
    let mut results: Vec<String> = Vec::new();
    if index != 0 {
        let n = u16_to_string(index);
        results.push(make_ref(n.as_str()));
        results.push(lit("D=A"));
    }
    results.push(lit(segment));
    results.push(lit("A=M"));
    if index != 0 {
        results.push(lit("A=A+D"));
    }
    results.push(lit("D=M"));
    let mut tail = push_d();
    results.append(&mut tail);
    assert(results.deep_view() =~= indirect_push_lines(segment@, index));
    results
}

/// The lines that push `*(reference + index)`.
pub open spec fn direct_push_lines(reference: Seq<char>, index: u16) -> Seq<Seq<char>> {
    (if index != 0 {
        seq![ref_line(dec_rep(index as nat)), "D=A"@]
    } else {
        Seq::<Seq<char>>::empty()
    }) + seq![reference] + (if index != 0 {
        seq!["A=A+D"@]
    } else {
        Seq::<Seq<char>>::empty()
    }) + seq!["D=M"@] + push_d_lines()
}

/// Pushes the value at `index` past a fixed address.
pub fn emit_direct_push(reference: &str, index: u16) -> (r: Vec<String>)
    ensures
        r.deep_view() == direct_push_lines(reference@, index),
{
    let mut results: Vec<String> = Vec::new();
    if index != 0 {
        let n = u16_to_string(index);
        results.push(make_ref(n.as_str()));
        results.push(lit("D=A"));
    }
    results.push(lit(reference));
    if index != 0 {
        results.push(lit("A=A+D"));
    }
    results.push(lit("D=M"));
    let mut tail = push_d();
    results.append(&mut tail);
    assert(results.deep_view() =~= direct_push_lines(reference@, index));
    results
}

/// The lines that push a literal value.
pub open spec fn constant_push_lines(value: Seq<char>) -> Seq<Seq<char>> {
    seq![ref_line(value), "D=A"@] + push_d_lines()
}

/// Pushes a literal value (or the address of a label).
pub fn emit_constant_push(value: &str) -> (r: Vec<String>)
    ensures
        r.deep_view() == constant_push_lines(value@),
{
    let mut results: Vec<String> = Vec::new();
    results.push(make_ref(value));
    results.push(lit("D=A"));
    let mut tail = push_d();
    results.append(&mut tail);
    assert(results.deep_view() =~= constant_push_lines(value@));
    results
}

/// The lines that pop into `*(*segment + index)`.
pub open spec fn indirect_pop_lines(segment: Seq<char>, index: u16) -> Seq<Seq<char>>
    decreases index,
{
    if index == 0 {
        pop_d_lines() + seq![segment, "A=M"@, "M=D"@]
    } else {
        seq![segment, "D=M"@, ref_line(dec_rep(index as nat)), "D=D+A"@, "@R13"@, "M=D"@]
            + indirect_pop_lines("@R13"@, 0)
    }
}

/// Pops into the slot at `index` past the address a pointer register holds.
pub fn emit_indirect_pop(segment: &str, index: u16) -> (r: Vec<String>)
    ensures
        r.deep_view() == indirect_pop_lines(segment@, index),
    decreases index,
{
    if index == 0 {
        let mut results = pop_d();
        results.push(lit(segment));
        results.push(lit("A=M"));
        results.push(lit("M=D"));
        assert(results.deep_view() =~= indirect_pop_lines(segment@, 0));
        results
    } else {
        let mut results: Vec<String> = Vec::new();
        results.push(lit(segment));
        results.push(lit("D=M"));
        let n = u16_to_string(index);
        results.push(make_ref(n.as_str()));
        results.push(lit("D=D+A"));
        results.push(lit("@R13"));
        results.push(lit("M=D"));
        let mut tail = emit_indirect_pop("@R13", 0);
        results.append(&mut tail);
        assert(results.deep_view() =~= indirect_pop_lines(segment@, index));
        results
    }
}

/// The lines that pop into `*(reference + index)`.
pub open spec fn direct_pop_lines(reference: Seq<char>, index: u16) -> Seq<Seq<char>> {
    if index == 0 {
        pop_d_lines() + seq![reference, "M=D"@]
    } else {
        seq![reference, "D=A"@, ref_line(dec_rep(index as nat)), "D=D+A"@, "@R13"@, "M=D"@]
            + indirect_pop_lines("@R13"@, 0)
    }
}

/// Pops into the slot at `index` past a fixed address.
pub fn emit_direct_pop(reference: &str, index: u16) -> (r: Vec<String>)
    ensures
        r.deep_view() == direct_pop_lines(reference@, index),
{
    if index == 0 {
        let mut results = pop_d();
        results.push(lit(reference));
        results.push(lit("M=D"));
        assert(results.deep_view() =~= direct_pop_lines(reference@, 0));
        results
    } else {
        let mut results: Vec<String> = Vec::new();
        results.push(lit(reference));
        results.push(lit("D=A"));
        let n = u16_to_string(index);
        results.push(make_ref(n.as_str()));
        results.push(lit("D=D+A"));
        results.push(lit("@R13"));
        results.push(lit("M=D"));
        let mut tail = emit_indirect_pop("@R13", 0);
        results.append(&mut tail);
        assert(results.deep_view() =~= direct_pop_lines(reference@, index));
        results
    }
}

/// The lines of a `push` command: indirect for the pointer-based segments,
/// direct for pointer and temp, a symbol for static, a literal for constant.
pub open spec fn push_lines(segment: Segment, base: Seq<char>, index: u16) -> Seq<Seq<char>> {
    match segment {
        Segment::Argument => indirect_push_lines("@ARG"@, index),
        Segment::Local => indirect_push_lines("@LCL"@, index),
        Segment::Static => direct_push_lines(ref_line(static_sym(base, index)), 0),
        Segment::Constant => constant_push_lines(dec_rep(index as nat)),
        Segment::This => indirect_push_lines("@THIS"@, index),
        Segment::That => indirect_push_lines("@THAT"@, index),
        Segment::Pointer => direct_push_lines("@THIS"@, index),
        Segment::Temp => direct_push_lines("@R5"@, index),
    }
}

/// One `push` command as assembly.
pub fn emit_push(segment: Segment, statics_base: &str, index: u16) -> (r: Vec<String>)
    ensures
        r.deep_view() == push_lines(segment, statics_base@, index),
{
    match segment {
        Segment::Argument => emit_indirect_push("@ARG", index),
        Segment::Local => emit_indirect_push("@LCL", index),
        Segment::Static => {
            let name = make_static_name(statics_base, index);
            let rf = make_ref(name.as_str());
            emit_direct_push(rf.as_str(), 0)
        }
        Segment::Constant => {
            let n = u16_to_string(index);
            emit_constant_push(n.as_str())
        }
        Segment::This => emit_indirect_push("@THIS", index),
        Segment::That => emit_indirect_push("@THAT", index),
        Segment::Pointer => emit_direct_push("@THIS", index),
        Segment::Temp => emit_direct_push("@R5", index),
    }
}

/// The lines of a `pop` command; there is no popping to a constant.
pub open spec fn pop_lines(segment: Segment, base: Seq<char>, index: u16) -> Seq<Seq<char>> {
    match segment {
        Segment::Argument => indirect_pop_lines("@ARG"@, index),
        Segment::Local => indirect_pop_lines("@LCL"@, index),
        Segment::Static => direct_pop_lines(ref_line(static_sym(base, index)), 0),
        Segment::Constant => Seq::empty(),
        Segment::This => indirect_pop_lines("@THIS"@, index),
        Segment::That => indirect_pop_lines("@THAT"@, index),
        Segment::Pointer => direct_pop_lines("@THIS"@, index),
        Segment::Temp => direct_pop_lines("@R5"@, index),
    }
}

/// One `pop` command as assembly.
pub fn emit_pop(segment: Segment, statics_base: &str, index: u16) -> (r: Vec<String>)
    requires
        segment != Segment::Constant,
    ensures
        r.deep_view() == pop_lines(segment, statics_base@, index),
{
    match segment {
        Segment::Argument => emit_indirect_pop("@ARG", index),
        Segment::Local => emit_indirect_pop("@LCL", index),
        Segment::Static => {
            let name = make_static_name(statics_base, index);
            let rf = make_ref(name.as_str());
            emit_direct_pop(rf.as_str(), 0)
        }
        Segment::Constant => {
            let r: Vec<String> = Vec::new();
            assert(r.deep_view() =~= Seq::<Seq<char>>::empty());
            r
        }
        Segment::This => emit_indirect_pop("@THIS", index),
        Segment::That => emit_indirect_pop("@THAT", index),
        Segment::Pointer => emit_direct_pop("@THIS", index),
        Segment::Temp => emit_direct_pop("@R5", index),
    }
}

/// A two-operand arithmetic or logic operation.
#[derive(Debug, PartialEq, Eq, Structural, Clone, Copy)]
pub enum BinaryOp {
    Add,
    Sub,
    Or,
    And,
}

/// A one-operand operation.
#[derive(Debug, PartialEq, Eq, Structural, Clone, Copy)]
pub enum UnaryOp {
    Neg,
    Not,
}

/// The in-place instruction of a binary operation.
pub open spec fn binary_op_line(op: BinaryOp) -> Seq<char> {
    match op {
        BinaryOp::Sub => "M=M-D"@,
        BinaryOp::Add => "M=D+M"@,
        BinaryOp::And => "M=D&M"@,
        BinaryOp::Or => "M=D|M"@,
    }
}

/// The lines of a binary operation: pop one operand into D, combine with the
/// new top of stack in place.
pub open spec fn binary_lines(op: BinaryOp) -> Seq<Seq<char>> {
    pop_d_lines() + seq!["A=A-1"@, binary_op_line(op)]
}

/// One binary operation as assembly.
pub fn emit_binary(op: BinaryOp) -> (r: Vec<String>)
    ensures
        r.deep_view() == binary_lines(op),
{
    let mut results = pop_d();
    results.push(lit("A=A-1"));
    results.push(
        match op {
            BinaryOp::Sub => lit("M=M-D"),
            BinaryOp::Add => lit("M=D+M"),
            BinaryOp::And => lit("M=D&M"),
            BinaryOp::Or => lit("M=D|M"),
        },
    );
    assert(results.deep_view() =~= binary_lines(op));
    results
}

/// The lines of a unary operation: negate or invert the top of stack in
/// place.
pub open spec fn unary_lines(op: UnaryOp) -> Seq<Seq<char>> {
    peek_m_lines() + seq![
        match op {
            UnaryOp::Not => "M=!M"@,
            UnaryOp::Neg => "M=-M"@,
        },
    ]
}

/// One unary operation as assembly.
pub fn emit_unary(op: UnaryOp) -> (r: Vec<String>)
    ensures
        r.deep_view() == unary_lines(op),
{
    let mut results = peek_m();
    results.push(
        match op {
            UnaryOp::Not => lit("M=!M"),
            UnaryOp::Neg => lit("M=-M"),
        },
    );
    assert(results.deep_view() =~= unary_lines(op));
    results
}

/// A comparison operation.
#[derive(Debug, PartialEq, Eq, Structural, Clone, Copy)]
pub enum CompareOp {
    Eq,
    Gt,
    Lt,
}

/// The conditional jump of a comparison.
pub open spec fn compare_op_line(op: CompareOp) -> Seq<char> {
    match op {
        CompareOp::Eq => "D;JEQ"@,
        CompareOp::Gt => "D;JGT"@,
        CompareOp::Lt => "D;JLT"@,
    }
}

/// The conditional jump of a comparison.
pub fn compare_op(op: CompareOp) -> (r: String)
    ensures
        r@ == compare_op_line(op),
{
    match op {
        CompareOp::Eq => lit("D;JEQ"),
        CompareOp::Gt => lit("D;JGT"),
        CompareOp::Lt => lit("D;JLT"),
    }
}

/// The lines of a comparison: compute `arg1 - arg2` in D, branch to write -1
/// (true) or 0 (false), and store the result in place of `arg1`.
pub open spec fn compare_lines(op: CompareOp, f: Seq<char>, n: nat) -> Seq<Seq<char>> {
    pop_d_lines() + seq![
        "A=A-1"@,
        "D=M-D"@,
        ref_line(numbered_label(f, "true"@, n)),
        compare_op_line(op),
        "D=0"@,
        ref_line(numbered_label(f, "join"@, n)),
        "0;JMP"@,
        label_line(numbered_label(f, "true"@, n)),
        "D=-1"@,
        label_line(numbered_label(f, "join"@, n)),
    ] + peek_m_lines() + seq!["M=D"@]
}

/// One comparison as assembly; the label counter advances by one.
pub fn emit_compare(op: CompareOp, function: &str, label_number: &mut usize) -> (r: Vec<String>)
    requires
        *old(label_number) < usize::MAX,
    ensures
        r.deep_view() == compare_lines(op, function@, *old(label_number) as nat),
        *final(label_number) == *old(label_number) + 1,
{
    let mut results = pop_d();
    let true_name = make_numbered_label_name(function, "true", *label_number);
    let join_name = make_numbered_label_name(function, "join", *label_number);
    results.push(lit("A=A-1"));
    results.push(lit("D=M-D"));
    results.push(make_ref(true_name.as_str()));
    results.push(compare_op(op));
    results.push(lit("D=0"));
    results.push(make_ref(join_name.as_str()));
    results.push(lit("0;JMP"));
    results.push(make_label(true_name.as_str()));
    results.push(lit("D=-1"));
    results.push(make_label(join_name.as_str()));
    let mut tail = peek_m();
    results.append(&mut tail);
    results.push(lit("M=D"));
    *label_number += 1;
    assert(results.deep_view() =~= compare_lines(op, function@, *old(label_number) as nat));
    results
}

/// The lines of `goto`: an unconditional jump to a function-scoped label.
pub open spec fn goto_lines(f: Seq<char>, label: Seq<char>) -> Seq<Seq<char>> {
    seq![ref_line(qualified_label(f, label)), "0;JMP"@]
}

/// One `goto` as assembly.
pub fn emit_goto(function: &str, label: &str) -> (r: Vec<String>)
    ensures
        r.deep_view() == goto_lines(function@, label@),
{
    let mut results: Vec<String> = Vec::new();
    let name = make_qualified_label_name(function, label);
    results.push(make_ref(name.as_str()));
    results.push(lit("0;JMP"));
    assert(results.deep_view() =~= goto_lines(function@, label@));
    results
}

/// The lines of `if-goto`: pop the condition and jump if it is non-zero.
pub open spec fn if_goto_lines(f: Seq<char>, label: Seq<char>) -> Seq<Seq<char>> {
    pop_d_lines() + seq![ref_line(qualified_label(f, label)), "D;JNE"@]
}

/// One `if-goto` as assembly.
pub fn emit_if_goto(function: &str, label: &str) -> (r: Vec<String>)
    ensures
        r.deep_view() == if_goto_lines(function@, label@),
{
    let mut results = pop_d();
    let name = make_qualified_label_name(function, label);
    results.push(make_ref(name.as_str()));
    results.push(lit("D;JNE"));
    assert(results.deep_view() =~= if_goto_lines(function@, label@));
    results
}

/// The line of `label`: the function-scoped label declaration.
pub open spec fn label_lines(f: Seq<char>, label: Seq<char>) -> Seq<Seq<char>> {
    seq![label_line(qualified_label(f, label))]
}

/// One `label` as assembly.
pub fn emit_label(function: &str, label: &str) -> (r: Vec<String>)
    ensures
        r.deep_view() == label_lines(function@, label@),
{
    let mut results: Vec<String> = Vec::new();
    let name = make_qualified_label_name(function, label);
    results.push(make_label(name.as_str()));
    assert(results.deep_view() =~= label_lines(function@, label@));
    results
}

/// `k` zero-pushes, one per local slot.
pub open spec fn zero_locals_lines(k: nat) -> Seq<Seq<char>>
    decreases k,
{
    if k == 0 {
        Seq::empty()
    } else {
        zero_locals_lines((k - 1) as nat) + constant_push_lines("0"@)
    }
}

/// The lines of `function`: the entry label, then one zeroed stack slot per
/// local variable.
pub open spec fn function_lines(name: Seq<char>, n_locals: u16) -> Seq<Seq<char>> {
    seq![label_line(name)] + zero_locals_lines(n_locals as nat)
}

/// One `function` head as assembly; this resets the label counter and makes
/// `name` the current function.
pub fn emit_function(
    function: &str,
    n_locals: u16,
    current_function: &mut String,
    label_number: &mut usize,
) -> (r: Vec<String>)
    ensures
        r.deep_view() == function_lines(function@, n_locals),
        final(current_function)@ == function@,
        *final(label_number) == 0,
{
    *label_number = 0;
    *current_function = lit(function);
    let mut results: Vec<String> = Vec::new();
    results.push(make_label(function));
    assert(results.deep_view() =~= function_lines(function@, 0));
    let mut k: u16 = 0;
    while k < n_locals
        invariant
            0 <= k <= n_locals,
            results.deep_view() == function_lines(function@, k),
        decreases n_locals - k,
    {
        let mut tail = emit_constant_push("0");
        let ghost tailv = tail.deep_view();
        let ghost tailvecs = tail@;
        let ghost pre = results.deep_view();
        let ghost prevecs = results@;
        results.append(&mut tail);
        proof {
            assert(zero_locals_lines((k + 1) as nat) == zero_locals_lines(k as nat)
                + constant_push_lines("0"@));
            assert(results@ == prevecs + tailvecs);
            assert forall|i: int| 0 <= i < results@.len() implies results.deep_view()[i] == (pre
                + tailv)[i] by {
                if i < prevecs.len() {
                    assert(results@[i] == prevecs[i]);
                } else {
                    assert(results@[i] == tailvecs[i - prevecs.len()]);
                }
            }
            assert(results.deep_view() =~= pre + tailv);
            assert(pre + tailv =~= function_lines(function@, (k + 1) as u16));
        }
        k += 1;
    }
    results
}

/// The lines of `call`: pin the argument base in R13, push the return
/// address and the four saved registers, set ARG and LCL, jump, and place
/// the numbered return label.
pub open spec fn call_lines(f: Seq<char>, n_args: u16, n: nat) -> Seq<Seq<char>> {
    seq!["@SP"@, "D=M"@, ref_line(dec_rep(n_args as nat)), "D=D-A"@, "@13"@, "M=D"@]
        + constant_push_lines(numbered_label(f, "ret"@, n)) + direct_push_lines("@LCL"@, 0)
        + direct_push_lines("@ARG"@, 0) + direct_push_lines("@THIS"@, 0) + direct_push_lines(
        "@THAT"@,
        0,
    ) + seq!["@R13"@, "D=M"@, "@ARG"@, "M=D"@, "@SP"@, "D=M"@, "@LCL"@, "M=D"@, ref_line(f), "0;JMP"@, label_line(
        numbered_label(f, "ret"@, n),
    )]
}

/// One `call` as assembly; the label counter advances by one.
pub fn emit_call(function: &str, n_args: u16, label_number: &mut usize) -> (r: Vec<String>)
    requires
        *old(label_number) < usize::MAX,
    ensures
        r.deep_view() == call_lines(function@, n_args, *old(label_number) as nat),
        *final(label_number) == *old(label_number) + 1,
{
    let return_name = make_numbered_label_name(function, "ret", *label_number);
    let mut results: Vec<String> = Vec::new();
    results.push(lit("@SP"));
    results.push(lit("D=M"));
    let n = u16_to_string(n_args);
    results.push(make_ref(n.as_str()));
    results.push(lit("D=D-A"));
    results.push(lit("@13"));
    results.push(lit("M=D"));
    let mut t1 = emit_constant_push(return_name.as_str());
    results.append(&mut t1);
    let mut t2 = emit_direct_push("@LCL", 0);
    results.append(&mut t2);
    let mut t3 = emit_direct_push("@ARG", 0);
    results.append(&mut t3);
    let mut t4 = emit_direct_push("@THIS", 0);
    results.append(&mut t4);
    let mut t5 = emit_direct_push("@THAT", 0);
    results.append(&mut t5);
    results.push(lit("@R13"));
    results.push(lit("D=M"));
    results.push(lit("@ARG"));
    results.push(lit("M=D"));
    results.push(lit("@SP"));
    results.push(lit("D=M"));
    results.push(lit("@LCL"));
    results.push(lit("M=D"));
    results.push(make_ref(function));
    results.push(lit("0;JMP"));
    results.push(make_label(return_name.as_str()));
    *label_number += 1;
    assert(results.deep_view() =~= call_lines(function@, n_args, *old(label_number) as nat));
    results
}

/// The lines that restore one saved register from the frame walk.
pub open spec fn restore_lines(register: Seq<char>) -> Seq<Seq<char>> {
    seq!["@R13"@, "M=M+1"@, "A=M"@, "D=M"@, register, "M=D"@]
}

/// Restores one saved register, advancing the frame pointer in R13.
pub fn restore_register(register: &str) -> (r: Vec<String>)
    ensures
        r.deep_view() == restore_lines(register@),
{
    let mut results: Vec<String> = Vec::new();
    results.push(lit("@R13"));
    results.push(lit("M=M+1"));
    results.push(lit("A=M"));
    results.push(lit("D=M"));
    results.push(lit(register));
    results.push(lit("M=D"));
    assert(results.deep_view() =~= restore_lines(register@));
    results
}

/// The lines of `return`: find the frame, save the return address, write the
/// result into the caller's stack, restore the registers, and jump back.
pub open spec fn return_lines() -> Seq<Seq<char>> {
    seq!["@5"@, "D=A"@, "@LCL"@, "D=M-D"@, "@R13"@, "M=D"@, "A=D"@, "D=M"@, "@R14"@, "M=D"@]
        + indirect_pop_lines("@ARG"@, 0) + seq!["@ARG"@, "D=M+1"@, "@SP"@, "M=D"@]
        + restore_lines("@LCL"@) + restore_lines("@ARG"@) + restore_lines("@THIS"@)
        + restore_lines("@THAT"@) + seq!["@R14"@, "A=M"@, "0;JMP"@]
}

/// One `return` as assembly.
pub fn emit_return() -> (r: Vec<String>)
    ensures
        r.deep_view() == return_lines(),
{
    let mut results: Vec<String> = Vec::new();
    results.push(lit("@5"));
    results.push(lit("D=A"));
    results.push(lit("@LCL"));
    results.push(lit("D=M-D"));
    results.push(lit("@R13"));
    results.push(lit("M=D"));
    results.push(lit("A=D"));
    results.push(lit("D=M"));
    results.push(lit("@R14"));
    results.push(lit("M=D"));
    let mut t1 = emit_indirect_pop("@ARG", 0);
    results.append(&mut t1);
    results.push(lit("@ARG"));
    results.push(lit("D=M+1"));
    results.push(lit("@SP"));
    results.push(lit("M=D"));
    let mut t2 = restore_register("@LCL");
    results.append(&mut t2);
    let mut t3 = restore_register("@ARG");
    results.append(&mut t3);
    let mut t4 = restore_register("@THIS");
    results.append(&mut t4);
    let mut t5 = restore_register("@THAT");
    results.append(&mut t5);
    results.push(lit("@R14"));
    results.push(lit("A=M"));
    results.push(lit("0;JMP"));
    assert(results.deep_view() =~= return_lines());
    results
}

/// The comment line placed before a command's code: `// ` and the command's
/// source text.
pub open spec fn comment_line(c: CommandV) -> Seq<char> {
    "// "@ + spec_print_command(c)
}

/// The comment line quoting one command.
pub fn emit_comment(command: &Command) -> (r: String)
    ensures
        r@ == comment_line(command@),
{
    let p = print_command(command);
    lit("// ").concat(p.as_str())
}

/// What one command emits, and the current-function name and label counter it
/// leaves behind: a comment line quoting the command, then its code.
pub open spec fn spec_emit_command(c: CommandV, base: Seq<char>, cur: Seq<char>, n: nat) -> (
    Seq<Seq<char>>,
    Seq<char>,
    nat,
) {
    let body = match c {
        CommandV::Push(segment, index) => push_lines(segment, base, index),
        CommandV::Pop(segment, index) => pop_lines(segment, base, index),
        CommandV::Add => binary_lines(BinaryOp::Add),
        CommandV::Sub => binary_lines(BinaryOp::Sub),
        CommandV::Neg => unary_lines(UnaryOp::Neg),
        CommandV::Eq => compare_lines(CompareOp::Eq, cur, n),
        CommandV::Gt => compare_lines(CompareOp::Gt, cur, n),
        CommandV::Lt => compare_lines(CompareOp::Lt, cur, n),
        CommandV::And => binary_lines(BinaryOp::And),
        CommandV::Or => binary_lines(BinaryOp::Or),
        CommandV::Not => unary_lines(UnaryOp::Not),
        CommandV::Goto(label) => goto_lines(cur, label),
        CommandV::IfGoto(label) => if_goto_lines(cur, label),
        CommandV::Label(label) => label_lines(cur, label),
        CommandV::Function(function, n_locals) => function_lines(function, n_locals),
        CommandV::Call(function, n_args) => call_lines(function, n_args, n),
        CommandV::Return => return_lines(),
        CommandV::Comment(_) => Seq::empty(),
    };
    let cur2 = match c {
        CommandV::Function(function, _) => function,
        _ => cur,
    };
    let n2 = match c {
        CommandV::Eq | CommandV::Gt | CommandV::Lt | CommandV::Call(_, _) => n + 1,
        CommandV::Function(_, _) => 0,
        _ => n,
    };
    (seq![comment_line(c)] + body, cur2, n2)
}

/// One command as assembly, preceded by a comment line quoting it; updates
/// the current function name and the label counter.
pub fn emit_command(
    command: &Command,
    statics_base: &str,
    current_function: &mut String,
    label_number: &mut usize,
) -> (r: Vec<String>)
    requires
        *old(label_number) < usize::MAX,
        !(command@ matches CommandV::Pop(Segment::Constant, _)),
    ensures
        (r.deep_view(), final(current_function)@, *final(label_number) as nat) == spec_emit_command(
            command@,
            statics_base@,
            old(current_function)@,
            *old(label_number) as nat,
        ),
{
    let ghost c = command@;
    let ghost cur0 = current_function@;
    let ghost n0 = *label_number as nat;
    let mut results: Vec<String> = Vec::new();
    results.push(emit_comment(command));
    let mut body: Vec<String> = match command {
        Command::Push(segment, index) => emit_push(*segment, statics_base, *index),
        Command::Pop(segment, index) => emit_pop(*segment, statics_base, *index),
        Command::Add => emit_binary(BinaryOp::Add),
        Command::Sub => emit_binary(BinaryOp::Sub),
        Command::Neg => emit_unary(UnaryOp::Neg),
        Command::Eq => emit_compare(CompareOp::Eq, current_function.as_str(), label_number),
        Command::Gt => emit_compare(CompareOp::Gt, current_function.as_str(), label_number),
        Command::Lt => emit_compare(CompareOp::Lt, current_function.as_str(), label_number),
        Command::And => emit_binary(BinaryOp::And),
        Command::Or => emit_binary(BinaryOp::Or),
        Command::Not => emit_unary(UnaryOp::Not),
        Command::Goto(label) => emit_goto(current_function.as_str(), label.as_str()),
        Command::IfGoto(label) => emit_if_goto(current_function.as_str(), label.as_str()),
        Command::Label(label) => emit_label(current_function.as_str(), label.as_str()),
        Command::Function(function, n_locals) => emit_function(
            function.as_str(),
            *n_locals,
            current_function,
            label_number,
        ),
        Command::Call(function, n_args) => emit_call(function.as_str(), *n_args, label_number),
        Command::Return => emit_return(),
        Command::Comment(_) => Vec::new(),
    };
    let ghost bodyv = body.deep_view();
    results.append(&mut body);
    proof {
        let (lines, cur2, n2) = spec_emit_command(c, statics_base@, cur0, n0);
        assert(results.deep_view() =~= seq![comment_line(c)] + bodyv);
        assert(results.deep_view() =~= lines);
    }
    results
}

/// The bootstrap block: point SP at 256, then call `Sys.init`.
pub open spec fn spec_bootstrap(base: Seq<char>) -> (Seq<Seq<char>>, Seq<char>, nat) {
    let (call, cur, n) = spec_emit_command(CommandV::Call("Sys.init"@, 0), base, base, 0);
    (seq!["// bootstrap SP"@, "@256"@, "D=A"@, "@SP"@, "M=D"@] + call, cur, n)
}

/// The bootstrap code placed before a multi-file program.
pub fn emit_bootstrap(
    statics_base: &str,
    current_function: &mut String,
    label_number: &mut usize,
) -> (r: Vec<String>)
    requires
        old(current_function)@ == statics_base@,
        *old(label_number) == 0,
    ensures
        (r.deep_view(), final(current_function)@, *final(label_number) as nat) == spec_bootstrap(
            statics_base@,
        ),
{
    let mut results: Vec<String> = Vec::new();
    results.push(lit("// bootstrap SP"));
    results.push(lit("@256"));
    results.push(lit("D=A"));
    results.push(lit("@SP"));
    results.push(lit("M=D"));
    let ghost prevecs = results@;
    let ghost pre = results.deep_view();
    assert(pre =~= seq!["// bootstrap SP"@, "@256"@, "D=A"@, "@SP"@, "M=D"@]);
    let boot_call = Command::Call(lit("Sys.init"), 0);
    let mut tail = emit_command(&boot_call, statics_base, current_function, label_number);
    let ghost tailv = tail.deep_view();
    let ghost tailvecs = tail@;
    results.append(&mut tail);
    proof {
        assert(results@ == prevecs + tailvecs);
        assert forall|i: int| 0 <= i < results@.len() implies results.deep_view()[i] == (pre
            + tailv)[i] by {
            if i < prevecs.len() {
                assert(results@[i] == prevecs[i]);
            } else {
                assert(results@[i] == tailvecs[i - prevecs.len()]);
            }
        }
        assert(results.deep_view() =~= pre + tailv);
        assert(results.deep_view() =~= spec_bootstrap(statics_base@).0);
    }
    results
}

/// What a whole command stream emits, threading the current function name and
/// label counter through the commands in order.
pub open spec fn spec_emit_seq(cmds: Seq<CommandV>, base: Seq<char>, cur: Seq<char>, n: nat) -> (
    Seq<Seq<char>>,
    Seq<char>,
    nat,
)
    decreases cmds.len(),
{
    if cmds.len() == 0 {
        (Seq::empty(), cur, n)
    } else {
        let (first, cur1, n1) = spec_emit_command(cmds[0], base, cur, n);
        let (rest, cur2, n2) = spec_emit_seq(cmds.drop_first(), base, cur1, n1);
        (first + rest, cur2, n2)
    }
}

/// The whole output of the translator on one file: the bootstrap block if
/// asked for, then each command's block, with the file's statics base as the
/// starting function name.
pub open spec fn spec_emit_commands(cmds: Seq<CommandV>, base: Seq<char>, bootstrap: bool) -> Seq<
    Seq<char>,
> {
    if bootstrap {
        let (boot, cur0, n0) = spec_bootstrap(base);
        boot + spec_emit_seq(cmds, base, cur0, n0).0
    } else {
        spec_emit_seq(cmds, base, base, 0).0
    }
}

/// Whether no command pops to the constant segment (which has no storage).
pub open spec fn no_pop_constant(cmds: Seq<CommandV>) -> bool {
    forall|i: int|
        0 <= i < cmds.len() ==> !(#[trigger] cmds[i] matches CommandV::Pop(Segment::Constant, _))
}

/// Translates a command stream to assembly, prepending bootstrap code when
/// asked to.
pub fn emit_commands(commands: Vec<Command>, statics_base: &str, bootstrap: bool) -> (r: Vec<
    String,
>)
    requires
        commands@.len() + 2 <= usize::MAX,
        no_pop_constant(crate::vm::parser::commands_v(commands@)),
    ensures
        r.deep_view() == spec_emit_commands(
            crate::vm::parser::commands_v(commands@),
            statics_base@,
            bootstrap,
        ),
{
    let ghost full = crate::vm::parser::commands_v(commands@);
    let mut current_function = lit(statics_base);
    let mut label_number: usize = 0;
    let ghost boot0 = if bootstrap {
        spec_bootstrap(statics_base@)
    } else {
        (Seq::<Seq<char>>::empty(), statics_base@, 0nat)
    };
    let mut results: Vec<String> = if bootstrap {
        emit_bootstrap(statics_base, &mut current_function, &mut label_number)
    } else {
        Vec::new()
    };
    assert(results.deep_view() =~= boot0.0);
    assert(current_function@ == boot0.1 && label_number as nat == boot0.2);
    assert(label_number <= 1) by {
        if bootstrap {
            assert(boot0.2 == 1);
        }
    }
    let mut i: usize = 0;
    assert(full.skip(0) =~= full);
    while i < commands.len()
        invariant
            0 <= i <= commands@.len(),
            commands@.len() + 2 <= usize::MAX,
            full == crate::vm::parser::commands_v(commands@),
            no_pop_constant(full),
            label_number as nat <= 1 + i,
            boot0.0 + spec_emit_seq(full, statics_base@, boot0.1, boot0.2).0 == results.deep_view()
                + spec_emit_seq(
                full.skip(i as int),
                statics_base@,
                current_function@,
                label_number as nat,
            ).0,
            spec_emit_seq(full, statics_base@, boot0.1, boot0.2).1 == spec_emit_seq(
                full.skip(i as int),
                statics_base@,
                current_function@,
                label_number as nat,
            ).1,
            spec_emit_seq(full, statics_base@, boot0.1, boot0.2).2 == spec_emit_seq(
                full.skip(i as int),
                statics_base@,
                current_function@,
                label_number as nat,
            ).2,
        decreases commands@.len() - i,
    {
        assert(full.skip(i as int)[0] == full[i as int]);
        assert(full.skip(i as int).drop_first() =~= full.skip(i + 1 as int));
        assert(full[i as int] == commands@[i as int]@);
        let ghost prevecs = results@;
        let ghost pre = results.deep_view();
        let mut block = emit_command(
            &commands[i],
            statics_base,
            &mut current_function,
            &mut label_number,
        );
        let ghost blockv = block.deep_view();
        let ghost blockvecs = block@;
        results.append(&mut block);
        proof {
            assert(results@ == prevecs + blockvecs);
            assert forall|k: int| 0 <= k < results@.len() implies results.deep_view()[k] == (pre
                + blockv)[k] by {
                if k < prevecs.len() {
                    assert(results@[k] == prevecs[k]);
                } else {
                    assert(results@[k] == blockvecs[k - prevecs.len()]);
                }
            }
            assert(results.deep_view() =~= pre + blockv);
        }
        i += 1;
    }
    assert(full.skip(full.len() as int) =~= Seq::<CommandV>::empty());
    results
}

} // verus!
