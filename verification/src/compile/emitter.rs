//! The Jack code generator: walks the syntax tree and appends VM command
//! lines, consulting the symbol table for variable slots, subroutine shapes,
//! and class sizes.

use vstd::prelude::*;

use crate::compile::ast::{
    Class, ClassVarDecorator, Expr, Op, ParseError, Statement, Subroutine, SubroutineDecorator,
    Term, Type, TypeV, UnaryOp,
};
use crate::compile::symbol_table::{
    spec_lookup_class, spec_lookup_subroutine, spec_lookup_var, wf_table, RefType,
    SubroutineVarDecorator, SymbolTable,
};
use crate::text::{dec_rep, lit, u16_to_string, u64_to_string};

verus! {

/// What can go wrong while generating code: a method call on a value of
/// primitive type, or a name the symbol table cannot resolve.
#[derive(Debug, PartialEq, Eq)]
pub enum CodeGenError {
    InvalidMethodTarget,
    Lookup(ParseError),
}

/// The code generator: the symbol table built by the parser, the lines
/// emitted so far, and the per-subroutine label counters.
pub struct Emitter<'a> {
    pub symbol_table: &'a SymbolTable,
    pub lines: Vec<String>,
    pub if_label_number: usize,
    pub while_label_number: usize,
}

/// Whether `a` is a prefix of `b`.
pub open spec fn line_prefix(a: Seq<String>, b: Seq<String>) -> bool {
    b.len() >= a.len() && b.take(a.len() as int) == a
}

/// One emitter call only appends lines and keeps the same symbol table: any
/// prefix of the lines before the call is still a prefix after it.
pub open spec fn extends(pre: Emitter, post: Emitter) -> bool {
    &&& post.symbol_table == pre.symbol_table
    &&& forall|a: Seq<String>| #[trigger] line_prefix(a, pre.lines@) ==> line_prefix(a, post.lines@)
}

/// Extending never shortens the lines.
pub proof fn lemma_extends_len(a: Emitter, b: Emitter)
    requires
        extends(a, b),
    ensures
        b.lines@.len() >= a.lines@.len(),
        b.lines@.take(a.lines@.len() as int) == a.lines@,
{
    assert(line_prefix(a.lines@, a.lines@)) by {
        assert(a.lines@.take(a.lines@.len() as int) =~= a.lines@);
    }
    assert(line_prefix(a.lines@, b.lines@));
}

/// The lines a string literal lowers to: make a string of the right length,
/// then append each character code in turn.
pub open spec fn append_char_lines(s: Seq<char>) -> Seq<Seq<char>>
    decreases s.len(),
{
    if s.len() == 0 {
        Seq::empty()
    } else {
        append_char_lines(s.drop_last()) + seq![
            "push constant "@ + dec_rep((s.last() as u32) as nat),
            "call String.appendChar 2"@,
        ]
    }
}

pub open spec fn string_lit_lines(s: Seq<char>) -> Seq<Seq<char>> {
    seq!["push constant "@ + dec_rep(s.len()), "call String.new 1"@] + append_char_lines(s)
}

/// The `push` line of a resolved variable.
pub open spec fn push_line_of(kind: RefType, slot: nat) -> Seq<char> {
    match kind {
        RefType::ClassRefType(ClassVarDecorator::Static) => "push static "@ + dec_rep(slot),
        RefType::ClassRefType(ClassVarDecorator::Field) => "push this "@ + dec_rep(slot),
        RefType::SubroutineRefType(SubroutineVarDecorator::Arg) => "push argument "@ + dec_rep(
            slot,
        ),
        RefType::SubroutineRefType(SubroutineVarDecorator::Local) => "push local "@ + dec_rep(
            slot,
        ),
    }
}

/// The `pop` line of a resolved variable.
pub open spec fn pop_line_of(kind: RefType, slot: nat) -> Seq<char> {
    match kind {
        RefType::ClassRefType(ClassVarDecorator::Static) => "pop static "@ + dec_rep(slot),
        RefType::ClassRefType(ClassVarDecorator::Field) => "pop this "@ + dec_rep(slot),
        RefType::SubroutineRefType(SubroutineVarDecorator::Arg) => "pop argument "@ + dec_rep(
            slot,
        ),
        RefType::SubroutineRefType(SubroutineVarDecorator::Local) => "pop local "@ + dec_rep(slot),
    }
}

/// The prologue a subroutine kind demands: a constructor allocates and
/// installs `this`, a method installs its receiver (argument 0) as `this`, a
/// function needs nothing.
pub open spec fn prologue_lines(decorator: SubroutineDecorator, size: nat) -> Seq<Seq<char>> {
    match decorator {
        SubroutineDecorator::Constructor => seq![
            "push constant "@ + dec_rep(size),
            "call Memory.alloc 1"@,
            "pop pointer 0"@,
        ],
        SubroutineDecorator::Method => seq!["push argument 0"@, "pop pointer 0"@],
        SubroutineDecorator::Function => Seq::empty(),
    }
}

/// The `function C.f L` head line.
pub open spec fn function_head_line(class: Seq<char>, name: Seq<char>, locals: nat) -> Seq<char> {
    "function "@ + class + "."@ + name + " "@ + dec_rep(locals)
}
/// The VM instruction of a binary operator; `*` and `/` call the OS.
pub open spec fn op_line(op: Op) -> Seq<char> {
    match op {
        Op::Add => "add"@,
        Op::Sub => "sub"@,
        Op::Mult => "call Math.multiply 2"@,
        Op::Div => "call Math.divide 2"@,
        Op::And => "and"@,
        Op::Or => "or"@,
        Op::Lt => "lt"@,
        Op::Gt => "gt"@,
        Op::Eq => "eq"@,
    }
}

/// The VM instruction of a unary operator.
pub open spec fn unary_line(op: UnaryOp) -> Seq<char> {
    match op {
        UnaryOp::Neg => "neg"@,
        UnaryOp::Not => "not"@,
    }
}

/// A label counter's next value; like the counter itself it wraps.
pub open spec fn next_label(k: usize) -> usize {
    vstd::wrapping::usize_specs::wrapping_add(k, 1)
}

/// Whether a name starts with an uppercase ASCII letter, which by convention
/// marks a class name in a qualified call.
pub open spec fn spec_starts_upper(s: Seq<char>) -> bool {
    s.len() > 0 && 65 <= s[0] as u32 <= 90
}

/// An optional reference's referent.
pub open spec fn deref_opt(q: Option<&String>) -> Option<String> {
    match q {
        Some(x) => Some(*x),
        None => None,
    }
}

/// The lines a variable read emits: the variable's push line and, for an
/// indexed read, the index code, `add`, and a read through `that`.
pub open spec fn spec_var_ref_lines(
    st: SymbolTable,
    class: Seq<char>,
    sub: Seq<char>,
    name: Seq<char>,
    index: Option<Expr>,
) -> Result<Seq<Seq<char>>, CodeGenError>
    decreases index, 1int,
{
    match spec_lookup_var(st, class, sub, name) {
        Err(e) => Err(CodeGenError::Lookup(e)),
        Ok((kind, _, slot)) => match index {
            None => Ok(seq![push_line_of(kind, slot)]),
            Some(ix) => match spec_expr_lines(st, class, sub, ix) {
                Err(e) => Err(e),
                Ok(ix_lines) => Ok(
                    seq![push_line_of(kind, slot)] + ix_lines + seq![
                        "add"@,
                        "pop pointer 1"@,
                        "push that 0"@,
                    ],
                ),
            },
        },
    }
}

/// The lines a call emits: the receiver (the current `this` for an
/// unqualified call, the variable for a lowercase qualifier), the arguments,
/// and the `call` line with the argument count; a lowercase qualifier of
/// primitive type is the code generator's one runtime-checked error.
pub open spec fn spec_call_lines(
    st: SymbolTable,
    class: Seq<char>,
    sub: Seq<char>,
    qualifier: Option<String>,
    name: Seq<char>,
    exprs: Seq<Expr>,
) -> Result<Seq<Seq<char>>, CodeGenError>
    decreases exprs, 2int,
{
    if exprs.len() >= usize::MAX - 1 {
        Err(CodeGenError::InvalidMethodTarget)
    } else {
        let dispatch: Result<(Seq<Seq<char>>, Seq<char>, nat), CodeGenError> = match qualifier {
            None => Ok((seq!["push pointer 0"@], class, (exprs.len() + 1) as nat)),
            Some(target) => if spec_starts_upper(target@) {
                Ok((Seq::empty(), target@, exprs.len() as nat))
            } else {
                match spec_lookup_var(st, class, sub, target@) {
                    Err(e) => Err(CodeGenError::Lookup(e)),
                    Ok((kind, ty, slot)) => match ty {
                        TypeV::Class(target_class) => Ok(
                            (
                                seq![push_line_of(kind, slot)],
                                target_class,
                                (exprs.len() + 1) as nat,
                            ),
                        ),
                        _ => Err(CodeGenError::InvalidMethodTarget),
                    },
                }
            },
        };
        match dispatch {
            Err(e) => Err(e),
            Ok((receiver, target_class, args)) => match spec_exprs_lines(st, class, sub, exprs) {
                Err(e) => Err(e),
                Ok(arg_lines) => Ok(
                    receiver + arg_lines + seq![
                        "call "@ + target_class + "."@ + name + " "@ + dec_rep(args),
                    ],
                ),
            },
        }
    }
}

/// The argument expressions' code, in order.
pub open spec fn spec_exprs_lines(
    st: SymbolTable,
    class: Seq<char>,
    sub: Seq<char>,
    exprs: Seq<Expr>,
) -> Result<Seq<Seq<char>>, CodeGenError>
    decreases exprs, 1int,
{
    if exprs.len() == 0 {
        Ok(Seq::empty())
    } else {
        match spec_expr_lines(st, class, sub, exprs[0]) {
            Err(e) => Err(e),
            Ok(first) => match spec_exprs_lines(st, class, sub, exprs.drop_first()) {
                Err(e) => Err(e),
                Ok(rest) => Ok(first + rest),
            },
        }
    }
}

/// The lines one term emits: literals push constants — `true` is 0 negated —
/// and the composite terms recurse.
pub open spec fn spec_term_lines(
    st: SymbolTable,
    class: Seq<char>,
    sub: Seq<char>,
    term: Term,
) -> Result<Seq<Seq<char>>, CodeGenError>
    decreases term, 2int,
{
    match term {
        Term::IntegerLit(n) => Ok(seq!["push constant "@ + dec_rep(n as nat)]),
        Term::StringLit(text) => Ok(string_lit_lines(text@)),
        Term::True => Ok(seq!["push constant 0"@, "not"@]),
        Term::False => Ok(seq!["push constant 0"@]),
        Term::Null => Ok(seq!["push constant 0"@]),
        Term::This => Ok(seq!["push pointer 0"@]),
        Term::Var { name, index } => spec_var_ref_lines(st, class, sub, name@, index),
        Term::Bracketed(e) => spec_expr_lines(st, class, sub, e),
        Term::Unary(op, inner) => match spec_term_lines(st, class, sub, *inner) {
            Err(e) => Err(e),
            Ok(l) => Ok(l.push(unary_line(op))),
        },
        Term::SubroutineCall { qualifier, name, exprs } => spec_call_lines(
            st,
            class,
            sub,
            qualifier,
            name@,
            exprs@,
        ),
    }
}

/// The lines one expression emits: the head term, then each further term
/// followed by its operator, left to right with no precedence.
pub open spec fn spec_expr_lines(
    st: SymbolTable,
    class: Seq<char>,
    sub: Seq<char>,
    expr: Expr,
) -> Result<Seq<Seq<char>>, CodeGenError>
    decreases expr, 3int,
{
    match spec_term_lines(st, class, sub, *expr.term) {
        Err(e) => Err(e),
        Ok(head) => spec_ops_lines(st, class, sub, expr.ops@, head),
    }
}

/// The trailing (operator, term) pairs of an expression, folded onto the
/// lines emitted so far.
pub open spec fn spec_ops_lines(
    st: SymbolTable,
    class: Seq<char>,
    sub: Seq<char>,
    ops: Seq<(Op, Term)>,
    acc: Seq<Seq<char>>,
) -> Result<Seq<Seq<char>>, CodeGenError>
    decreases ops, 3int,
{
    if ops.len() == 0 {
        Ok(acc)
    } else {
        match spec_term_lines(st, class, sub, ops[0].1) {
            Err(e) => Err(e),
            Ok(t) => spec_ops_lines(st, class, sub, ops.drop_first(), acc + t + seq![
                op_line(ops[0].0),
            ]),
        }
    }
}

/// The lines one statement emits and the label counters it leaves behind.
pub open spec fn spec_statement_lines(
    st: SymbolTable,
    class: Seq<char>,
    sub: Seq<char>,
    statement: Statement,
    kif: usize,
    kwh: usize,
) -> Result<(Seq<Seq<char>>, usize, usize), CodeGenError>
    decreases statement, 4int,
{
    match statement {
        Statement::Let { name, index, expr } => match spec_expr_lines(st, class, sub, expr) {
            Err(e) => Err(e),
            Ok(value) => match spec_lookup_var(
                st,
                class,
                sub,
                name@,
            ) {
                Err(e) => Err(CodeGenError::Lookup(e)),
                Ok((kind, _, slot)) => match index {
                    None => Ok((value + seq![pop_line_of(kind, slot)], kif, kwh)),
                    Some(ix) => match spec_expr_lines(st, class, sub, ix) {
                        Err(e) => Err(e),
                        Ok(addr) => Ok(
                            (
                                value + addr + seq![
                                    push_line_of(kind, slot),
                                    "add"@,
                                    "pop pointer 1"@,
                                    "pop that 0"@,
                                ],
                                kif,
                                kwh,
                            ),
                        ),
                    },
                },
            },
        },
        Statement::If { condition, statements, else_statements } => {
            let true_label = "IF_TRUE"@ + dec_rep(kif as nat);
            let false_label = "IF_FALSE"@ + dec_rep(kif as nat);
            let end_label = "IF_END"@ + dec_rep(kif as nat);
            match spec_expr_lines(st, class, sub, condition) {
                Err(e) => Err(e),
                Ok(cond) => match spec_statements_lines(
                    st,
                    class,
                    sub,
                    statements@,
                    next_label(kif),
                    kwh,
                ) {
                    Err(e) => Err(e),
                    Ok((then_lines, k2, w2)) => match else_statements {
                        None => Ok(
                            (
                                cond + seq![
                                    "if-goto "@ + true_label,
                                    "goto "@ + false_label,
                                    "label "@ + true_label,
                                ] + then_lines + seq!["label "@ + false_label],
                                k2,
                                w2,
                            ),
                        ),
                        Some(els) => match spec_statements_lines(st, class, sub, els@, k2, w2) {
                            Err(e) => Err(e),
                            Ok((else_lines, k3, w3)) => Ok(
                                (
                                    cond + seq![
                                        "if-goto "@ + true_label,
                                        "goto "@ + false_label,
                                        "label "@ + true_label,
                                    ] + then_lines + seq![
                                        "goto "@ + end_label,
                                        "label "@ + false_label,
                                    ] + else_lines + seq!["label "@ + end_label],
                                    k3,
                                    w3,
                                ),
                            ),
                        },
                    },
                },
            }
        },
        Statement::While { condition, statements } => {
            let while_label = "WHILE_EXP"@ + dec_rep(kwh as nat);
            let done_label = "WHILE_END"@ + dec_rep(kwh as nat);
            match spec_expr_lines(st, class, sub, condition) {
                Err(e) => Err(e),
                Ok(cond) => match spec_statements_lines(
                    st,
                    class,
                    sub,
                    statements@,
                    kif,
                    next_label(kwh),
                ) {
                    Err(e) => Err(e),
                    Ok((body, k2, w2)) => Ok(
                        (
                            seq!["label "@ + while_label] + cond + seq![
                                "not"@,
                                "if-goto "@ + done_label,
                            ] + body + seq!["goto "@ + while_label, "label "@ + done_label],
                            k2,
                            w2,
                        ),
                    ),
                },
            }
        },
        Statement::Do { expr } => match spec_expr_lines(st, class, sub, expr) {
            Err(e) => Err(e),
            Ok(l) => Ok((l.push("pop temp 0"@), kif, kwh)),
        },
        Statement::Return { expr } => match expr {
            Some(e) => match spec_expr_lines(st, class, sub, e) {
                Err(er) => Err(er),
                Ok(l) => Ok((l.push("return"@), kif, kwh)),
            },
            None => Ok((seq!["push constant 0"@, "return"@], kif, kwh)),
        },
    }
}

/// The lines a statement list emits, threading the label counters.
pub open spec fn spec_statements_lines(
    st: SymbolTable,
    class: Seq<char>,
    sub: Seq<char>,
    statements: Seq<Statement>,
    kif: usize,
    kwh: usize,
) -> Result<(Seq<Seq<char>>, usize, usize), CodeGenError>
    decreases statements, 5int,
{
    if statements.len() == 0 {
        Ok((Seq::empty(), kif, kwh))
    } else {
        match spec_statement_lines(st, class, sub, statements[0], kif, kwh) {
            Err(e) => Err(e),
            Ok((first, k2, w2)) => match spec_statements_lines(
                st,
                class,
                sub,
                statements.drop_first(),
                k2,
                w2,
            ) {
                Err(e) => Err(e),
                Ok((rest, k3, w3)) => Ok((first + rest, k3, w3)),
            },
        }
    }
}

/// The lines one subroutine emits: the `function C.f L` head with the
/// table's local count, the prologue of its kind (a constructor allocates the
/// class's field count, a method installs its receiver), then its statements
/// with both label counters starting at 0.
pub open spec fn spec_subroutine_lines(
    st: SymbolTable,
    class: Seq<char>,
    subroutine: Subroutine,
) -> Result<Seq<Seq<char>>, CodeGenError> {
    match spec_lookup_subroutine(st, class, subroutine.name@) {
        Err(e) => Err(CodeGenError::Lookup(e)),
        Ok((_, _, locals)) => {
            let size: Result<nat, CodeGenError> = match subroutine.decorator {
                SubroutineDecorator::Constructor => match spec_lookup_class(st, class) {
                    Err(e) => Err(CodeGenError::Lookup(e)),
                    Ok(n) => Ok(n),
                },
                _ => Ok(0),
            };
            match size {
                Err(e) => Err(e),
                Ok(size) => match spec_statements_lines(
                    st,
                    class,
                    subroutine.name@,
                    subroutine.statements@,
                    0,
                    0,
                ) {
                    Err(e) => Err(e),
                    Ok((body, _, _)) => Ok(
                        seq![function_head_line(class, subroutine.name@, locals)]
                            + prologue_lines(subroutine.decorator, size) + body,
                    ),
                },
            }
        },
    }
}

/// The lines a class emits: each subroutine's code in order.
pub open spec fn spec_subroutines_lines(
    st: SymbolTable,
    class: Seq<char>,
    subroutines: Seq<Subroutine>,
) -> Result<Seq<Seq<char>>, CodeGenError>
    decreases subroutines.len(),
{
    if subroutines.len() == 0 {
        Ok(Seq::empty())
    } else {
        match spec_subroutine_lines(st, class, subroutines[0]) {
            Err(e) => Err(e),
            Ok(first) => match spec_subroutines_lines(st, class, subroutines.drop_first()) {
                Err(e) => Err(e),
                Ok(rest) => Ok(first + rest),
            },
        }
    }
}

/// The whole output of the code generator on one class.
pub open spec fn spec_class_lines(st: SymbolTable, class: Class) -> Result<
    Seq<Seq<char>>,
    CodeGenError,
> {
    spec_subroutines_lines(st, class.name@, class.subroutines@)
}


impl<'a> Emitter<'a> {
    /// A fresh code generator over a finished symbol table.
    pub fn new(symbol_table: &'a SymbolTable) -> (r: Emitter<'a>)
        ensures
            r.symbol_table == symbol_table,
            r.lines@.len() == 0,
            r.if_label_number == 0,
            r.while_label_number == 0,
    {
        Emitter { symbol_table, lines: Vec::new(), if_label_number: 0, while_label_number: 0 }
    }

    /// The emitted lines, in order.
    pub fn into_lines(self) -> (r: Vec<String>)
        ensures
            r == self.lines,
    {
        self.lines
    }

    fn push_line(&mut self, s: String)
        ensures
            final(self).lines@ == old(self).lines@.push(s),
            final(self).lines.deep_view() == old(self).lines.deep_view().push(s@),
            extends(*old(self), *final(self)),
            final(self).if_label_number == old(self).if_label_number,
            final(self).while_label_number == old(self).while_label_number,
    {
        let ghost sv = s@;
        self.lines.push(s);
        proof {
            assert(self.lines@.take(self.lines@.len() - 1) =~= old(self).lines@);
            assert(self.lines.deep_view() =~= old(self).lines.deep_view().push(sv));
            assert forall|a: Seq<String>| #[trigger] line_prefix(a, old(self).lines@) implies line_prefix(
                a,
                self.lines@,
            ) by {
                assert(self.lines@.take(a.len() as int) =~= old(self).lines@.take(a.len() as int));
            }
        }
    }

    /// Emits every subroutine of a class.
    pub fn emit_class(&mut self, class: &Class) -> (r: Result<(), CodeGenError>)
        requires
            wf_table(*old(self).symbol_table),
        ensures
            extends(*old(self), *final(self)),
            (match spec_class_lines(*old(self).symbol_table, *class) {
                Ok(lines) => r is Ok && final(self).lines.deep_view() == old(
                    self,
                ).lines.deep_view() + lines,
                Err(e) => r == Err::<(), CodeGenError>(e),
            }),
    {
        let ghost mut acc: Seq<Seq<char>> = Seq::empty();
        let mut i: usize = 0;
        proof {
            assert(class.subroutines@.skip(0) =~= class.subroutines@);
            assert(old(self).lines.deep_view() + acc =~= old(self).lines.deep_view());
        }
        while i < class.subroutines.len()
            invariant
                wf_table(*self.symbol_table),
                extends(*old(self), *self),
                0 <= i <= class.subroutines@.len(),
                self.lines.deep_view() == old(self).lines.deep_view() + acc,
                spec_subroutines_lines(
                    *old(self).symbol_table,
                    class.name@,
                    class.subroutines@,
                ) == (match spec_subroutines_lines(
                    *old(self).symbol_table,
                    class.name@,
                    class.subroutines@.skip(i as int),
                ) {
                    Err(e) => Err::<Seq<Seq<char>>, CodeGenError>(e),
                    Ok(rest) => Ok(acc + rest),
                }),
            decreases class.subroutines@.len() - i,
        {
            proof {
                assert(class.subroutines@.skip(i as int)[0] == class.subroutines@[i as int]);
                assert(class.subroutines@.skip(i as int).drop_first() =~= class.subroutines@.skip(
                    i + 1 as int,
                ));
            }
            match self.emit_subroutine(class.name.as_str(), &class.subroutines[i]) {
                Ok(()) => (),
                Err(e) => {
                    return Err(e);
                },
            }
            proof {
                let one = spec_subroutine_lines(
                    *old(self).symbol_table,
                    class.name@,
                    class.subroutines@[i as int],
                )->Ok_0;
                let acc0 = acc;
                acc = acc + one;
                assert(self.lines.deep_view() =~= old(self).lines.deep_view() + acc);
                if spec_subroutines_lines(
                    *old(self).symbol_table,
                    class.name@,
                    class.subroutines@.skip(i + 1 as int),
                ) is Ok {
                    let rest = spec_subroutines_lines(
                        *old(self).symbol_table,
                        class.name@,
                        class.subroutines@.skip(i + 1 as int),
                    )->Ok_0;
                    assert(acc0 + (one + rest) =~= acc + rest);
                }
            }
            i += 1;
        }
        proof {
            assert(class.subroutines@.skip(class.subroutines@.len() as int) =~= Seq::<
                Subroutine,
            >::empty());
            assert(acc + Seq::<Seq<char>>::empty() =~= acc);
        }
        Ok(())
    }

    /// Emits one subroutine: its head line with the local count, the
    /// prologue its kind demands — a method's receiver (argument 0) becomes
    /// `this` — and then its statements.
    pub fn emit_subroutine(&mut self, class: &str, subroutine: &Subroutine) -> (r: Result<
        (),
        CodeGenError,
    >)
        requires
            wf_table(*old(self).symbol_table),
        ensures
            extends(*old(self), *final(self)),
            (match spec_subroutine_lines(*old(self).symbol_table, class@, *subroutine) {
                Ok(lines) => r is Ok && final(self).lines.deep_view() == old(
                    self,
                ).lines.deep_view() + lines,
                Err(e) => r == Err::<(), CodeGenError>(e),
            }),
    {
        self.if_label_number = 0;
        self.while_label_number = 0;
        let locals = match self.symbol_table.lookup_subroutine(class, subroutine.name.as_str()) {
            Ok((_, _, locals)) => locals,
            Err(e) => {
                proof {
                    assert(final(self).lines@.take(old(self).lines@.len() as int) =~= old(self).lines@);
                }
                return Err(CodeGenError::Lookup(e));
            },
        };
        let ghost pre = *self;
        let n = u64_to_string(locals as u64);
        let head = lit("function ").concat(class).concat(".").concat(
            subroutine.name.as_str(),
        ).concat(" ").concat(n.as_str());
        self.push_line(head);
        let mut size_emitted: usize = 0;
        match subroutine.decorator {
            SubroutineDecorator::Constructor => {
                let size = match self.symbol_table.lookup_class(class) {
                    Ok(s) => s,
                    Err(e) => {
                        return Err(CodeGenError::Lookup(e));
                    },
                };
                size_emitted = size;
                let sn = u64_to_string(size as u64);
                self.push_line(lit("push constant ").concat(sn.as_str()));
                self.push_line(lit("call Memory.alloc 1"));
                self.push_line(lit("pop pointer 0"));
            }
            SubroutineDecorator::Method => {
                self.push_line(lit("push argument 0"));
                self.push_line(lit("pop pointer 0"));
            }
            SubroutineDecorator::Function => (),
        }
        proof {
            assert(self.lines.deep_view() =~= pre.lines.deep_view() + seq![
                function_head_line(class@, subroutine.name@, locals as nat),
            ] + prologue_lines(subroutine.decorator, size_emitted as nat));
        }
        let ghost after_prologue = *self;
        match self.emit_statements(class, subroutine.name.as_str(), &subroutine.statements) {
            Ok(()) => (),
            Err(e) => {
                return Err(e);
            },
        }
        proof {
            let body = spec_statements_lines(
                *pre.symbol_table,
                class@,
                subroutine.name@,
                subroutine.statements@,
                0,
                0,
            )->Ok_0.0;
            assert(self.lines.deep_view() =~= pre.lines.deep_view() + (seq![
                function_head_line(class@, subroutine.name@, locals as nat),
            ] + prologue_lines(subroutine.decorator, size_emitted as nat) + body));
        }
        Ok(())
    }

    /// Emits a statement list in order.
    pub fn emit_statements(&mut self, class: &str, subroutine: &str, statements: &Vec<Statement>)
        -> (r: Result<(), CodeGenError>)
        requires
            wf_table(*old(self).symbol_table),
        ensures
            extends(*old(self), *final(self)),
            (match spec_statements_lines(
                *old(self).symbol_table,
                class@,
                subroutine@,
                statements@,
                old(self).if_label_number,
                old(self).while_label_number,
            ) {
                Ok((lines, k2, w2)) => r is Ok && final(self).lines.deep_view() == old(self).lines.deep_view() + lines && final(self).if_label_number == k2 && final(self).while_label_number == w2,
                Err(e) => r == Err::<(), CodeGenError>(e),
            }),
        decreases statements@, 6int,
    {
        let ghost mut acc: Seq<Seq<char>> = Seq::empty();
        let mut i: usize = 0;
        proof {
            assert(statements@.skip(0) =~= statements@);
            assert(old(self).lines.deep_view() + acc =~= old(self).lines.deep_view());
        }
        while i < statements.len()
            invariant
                wf_table(*self.symbol_table),
                extends(*old(self), *self),
                0 <= i <= statements@.len(),
                self.lines.deep_view() == old(self).lines.deep_view() + acc,
                spec_statements_lines(
                    *old(self).symbol_table,
                    class@,
                    subroutine@,
                    statements@,
                    old(self).if_label_number,
                    old(self).while_label_number,
                ) == (match spec_statements_lines(
                    *old(self).symbol_table,
                    class@,
                    subroutine@,
                    statements@.skip(i as int),
                    self.if_label_number,
                    self.while_label_number,
                ) {
                    Err(e) => Err::<(Seq<Seq<char>>, usize, usize), CodeGenError>(e),
                    Ok((rest, kf, wf)) => Ok((acc + rest, kf, wf)),
                }),
            decreases statements@.len() - i,
        {
            proof {
                assert(statements@.skip(i as int)[0] == statements@[i as int]);
                assert(statements@.skip(i as int).drop_first() =~= statements@.skip(i + 1 as int));
            }
            let ghost before = *self;
            match self.emit_statement(class, subroutine, &statements[i]) {
                Ok(()) => (),
                Err(e) => {
                    return Err(e);
                },
            }
            proof {
                let one = spec_statement_lines(
                    *old(self).symbol_table,
                    class@,
                    subroutine@,
                    statements@[i as int],
                    before.if_label_number,
                    before.while_label_number,
                )->Ok_0.0;
                let acc0 = acc;
                acc = acc + one;
                assert(self.lines.deep_view() =~= old(self).lines.deep_view() + acc);
                if spec_statements_lines(
                    *old(self).symbol_table,
                    class@,
                    subroutine@,
                    statements@.skip(i + 1 as int),
                    self.if_label_number,
                    self.while_label_number,
                ) is Ok {
                    let rest = spec_statements_lines(
                        *old(self).symbol_table,
                        class@,
                        subroutine@,
                        statements@.skip(i + 1 as int),
                        self.if_label_number,
                        self.while_label_number,
                    )->Ok_0.0;
                    assert(acc0 + (one + rest) =~= acc + rest);
                }
            }
            i += 1;
        }
        proof {
            assert(statements@.skip(statements@.len() as int) =~= Seq::<Statement>::empty());
            assert(acc + Seq::<Seq<char>>::empty() =~= acc);
        }
        Ok(())
    }

    /// Emits one statement by its kind.
    pub fn emit_statement(&mut self, class: &str, subroutine: &str, statement: &Statement) -> (r:
        Result<(), CodeGenError>)
        requires
            wf_table(*old(self).symbol_table),
        ensures
            extends(*old(self), *final(self)),
            (match spec_statement_lines(
                *old(self).symbol_table,
                class@,
                subroutine@,
                *statement,
                old(self).if_label_number,
                old(self).while_label_number,
            ) {
                Ok((lines, k2, w2)) => r is Ok && final(self).lines.deep_view() == old(self).lines.deep_view() + lines && final(self).if_label_number == k2 && final(self).while_label_number == w2,
                Err(e) => r == Err::<(), CodeGenError>(e),
            }),
        decreases *statement, 7int,
    {
        match statement {
            Statement::Let { .. } => self.emit_let_statement(class, subroutine, statement),
            Statement::If { .. } => self.emit_if_statement(class, subroutine, statement),
            Statement::While { .. } => self.emit_while_statement(class, subroutine, statement),
            Statement::Do { .. } => self.emit_do_statement(class, subroutine, statement),
            Statement::Return { .. } => self.emit_return_statement(class, subroutine, statement),
        }
    }

    /// Emits `if`: the condition, `if-goto IF_TRUEk`, `goto IF_FALSEk`, the
    /// then-block behind `IF_TRUEk`, and — only when an else-block exists —
    /// `goto IF_ENDk` and the else-block behind `IF_FALSEk`; without an else
    /// the `IF_FALSEk` label simply ends the statement.
    pub fn emit_if_statement(&mut self, class: &str, subroutine: &str, statement: &Statement) -> (
        r: Result<(), CodeGenError>)
        requires
            wf_table(*old(self).symbol_table),
            statement matches Statement::If { .. },
        ensures
            extends(*old(self), *final(self)),
            (match spec_statement_lines(
                *old(self).symbol_table,
                class@,
                subroutine@,
                *statement,
                old(self).if_label_number,
                old(self).while_label_number,
            ) {
                Ok((lines, k2, w2)) => r is Ok && final(self).lines.deep_view() == old(self).lines.deep_view() + lines && final(self).if_label_number == k2 && final(self).while_label_number == w2,
                Err(e) => r == Err::<(), CodeGenError>(e),
            }),
        decreases *statement, 0int,
    {
        match statement {
            Statement::If { condition, statements, else_statements } => {
                let k = self.if_label_number;
                let ks = u64_to_string(k as u64);
                let true_label = lit("IF_TRUE").concat(ks.as_str());
                let false_label = lit("IF_FALSE").concat(ks.as_str());
                let end_label = lit("IF_END").concat(ks.as_str());
                self.if_label_number = self.if_label_number.wrapping_add(1);
                let ghost pre = *self;
                proof {
                    assert(extends(*old(self), pre));
                    assert(pre.if_label_number == next_label(k));
                    assert(true_label@ == "IF_TRUE"@ + dec_rep(k as nat));
                    assert(false_label@ == "IF_FALSE"@ + dec_rep(k as nat));
                    assert(end_label@ == "IF_END"@ + dec_rep(k as nat));
                }
                match self.emit_expr(class, subroutine, condition) {
                    Ok(()) => (),
                    Err(e) => {
                        return Err(e);
                    },
                }
                self.push_line(lit("if-goto ").concat(true_label.as_str()));
                self.push_line(lit("goto ").concat(false_label.as_str()));
                self.push_line(lit("label ").concat(true_label.as_str()));
                let ghost cond = spec_expr_lines(
                    *pre.symbol_table,
                    class@,
                    subroutine@,
                    *condition,
                )->Ok_0;
                let ghost s2 = *self;
                proof {
                    assert(s2.lines.deep_view() =~= old(self).lines.deep_view() + (cond + seq![
                        "if-goto "@ + true_label@,
                        "goto "@ + false_label@,
                        "label "@ + true_label@,
                    ]));
                }
                match self.emit_statements(class, subroutine, statements) {
                    Ok(()) => (),
                    Err(e) => {
                        return Err(e);
                    },
                }
                let ghost then_lines = spec_statements_lines(
                    *pre.symbol_table,
                    class@,
                    subroutine@,
                    statements@,
                    next_label(k),
                    pre.while_label_number,
                )->Ok_0.0;
                match else_statements {
                    Some(else_statements) => {
                        self.push_line(lit("goto ").concat(end_label.as_str()));
                        self.push_line(lit("label ").concat(false_label.as_str()));
                        let ghost s4 = *self;
                        let ghost k3 = self.if_label_number;
                        let ghost w3 = self.while_label_number;
                        match self.emit_statements(class, subroutine, else_statements) {
                            Ok(()) => (),
                            Err(e) => {
                                return Err(e);
                            },
                        }
                        let ghost else_lines = spec_statements_lines(
                            *pre.symbol_table,
                            class@,
                            subroutine@,
                            else_statements@,
                            k3,
                            w3,
                        )->Ok_0.0;
                        self.push_line(lit("label ").concat(end_label.as_str()));
                        proof {
                            assert(self.lines.deep_view() =~= old(self).lines.deep_view() + (cond
                                + seq![
                                "if-goto "@ + true_label@,
                                "goto "@ + false_label@,
                                "label "@ + true_label@,
                            ] + then_lines + seq![
                                "goto "@ + end_label@,
                                "label "@ + false_label@,
                            ] + else_lines + seq!["label "@ + end_label@]));
                        }
                    }
                    None => {
                        self.push_line(lit("label ").concat(false_label.as_str()));
                        proof {
                            assert(self.lines.deep_view() =~= old(self).lines.deep_view() + (cond
                                + seq![
                                "if-goto "@ + true_label@,
                                "goto "@ + false_label@,
                                "label "@ + true_label@,
                            ] + then_lines + seq!["label "@ + false_label@]));
                        }
                    }
                }
                Ok(())
            }
            _ => Err(CodeGenError::InvalidMethodTarget),
        }
    }

    /// Emits `while`: `label WHILE_EXPk`, the condition, `not`,
    /// `if-goto WHILE_ENDk`, the body, `goto WHILE_EXPk`, `label WHILE_ENDk`.
    pub fn emit_while_statement(&mut self, class: &str, subroutine: &str, statement: &Statement)
        -> (r: Result<(), CodeGenError>)
        requires
            wf_table(*old(self).symbol_table),
            statement matches Statement::While { .. },
        ensures
            extends(*old(self), *final(self)),
            (match spec_statement_lines(
                *old(self).symbol_table,
                class@,
                subroutine@,
                *statement,
                old(self).if_label_number,
                old(self).while_label_number,
            ) {
                Ok((lines, k2, w2)) => r is Ok && final(self).lines.deep_view() == old(self).lines.deep_view() + lines && final(self).if_label_number == k2 && final(self).while_label_number == w2,
                Err(e) => r == Err::<(), CodeGenError>(e),
            }),
        decreases *statement, 0int,
    {
        match statement {
            Statement::While { condition, statements } => {
                let k = self.while_label_number;
                let ks = u64_to_string(k as u64);
                let while_label = lit("WHILE_EXP").concat(ks.as_str());
                let done_label = lit("WHILE_END").concat(ks.as_str());
                self.while_label_number = self.while_label_number.wrapping_add(1);
                let ghost pre = *self;
                proof {
                    assert(extends(*old(self), pre));
                    assert(pre.while_label_number == next_label(k));
                    assert(while_label@ == "WHILE_EXP"@ + dec_rep(k as nat));
                    assert(done_label@ == "WHILE_END"@ + dec_rep(k as nat));
                }
                self.push_line(lit("label ").concat(while_label.as_str()));
                match self.emit_expr(class, subroutine, condition) {
                    Ok(()) => (),
                    Err(e) => {
                        return Err(e);
                    },
                }
                let ghost cond = spec_expr_lines(
                    *pre.symbol_table,
                    class@,
                    subroutine@,
                    *condition,
                )->Ok_0;
                self.push_line(lit("not"));
                self.push_line(lit("if-goto ").concat(done_label.as_str()));
                let ghost s3 = *self;
                proof {
                    assert(s3.lines.deep_view() =~= old(self).lines.deep_view() + (seq![
                        "label "@ + while_label@,
                    ] + cond + seq!["not"@, "if-goto "@ + done_label@]));
                }
                match self.emit_statements(class, subroutine, statements) {
                    Ok(()) => (),
                    Err(e) => {
                        return Err(e);
                    },
                }
                let ghost body = spec_statements_lines(
                    *pre.symbol_table,
                    class@,
                    subroutine@,
                    statements@,
                    pre.if_label_number,
                    next_label(k),
                )->Ok_0.0;
                self.push_line(lit("goto ").concat(while_label.as_str()));
                self.push_line(lit("label ").concat(done_label.as_str()));
                proof {
                    assert(self.lines.deep_view() =~= old(self).lines.deep_view() + (seq![
                        "label "@ + while_label@,
                    ] + cond + seq!["not"@, "if-goto "@ + done_label@] + body + seq![
                        "goto "@ + while_label@,
                        "label "@ + done_label@,
                    ]));
                }
                Ok(())
            }
            _ => Err(CodeGenError::InvalidMethodTarget),
        }
    }

    /// Emits `let`: the right-hand side first; a plain variable is popped
    /// directly, an indexed one computes the address after the value so the
    /// address register survives, then stores through `that`.
    #[verifier::rlimit(60)]
    pub fn emit_let_statement(&mut self, class: &str, subroutine: &str, statement: &Statement)
        -> (r: Result<(), CodeGenError>)
        requires
            wf_table(*old(self).symbol_table),
            statement matches Statement::Let { .. },
        ensures
            extends(*old(self), *final(self)),
            (match spec_statement_lines(
                *old(self).symbol_table,
                class@,
                subroutine@,
                *statement,
                old(self).if_label_number,
                old(self).while_label_number,
            ) {
                Ok((lines, k2, w2)) => r is Ok && final(self).lines.deep_view() == old(self).lines.deep_view() + lines && final(self).if_label_number == k2 && final(self).while_label_number == w2,
                Err(e) => r == Err::<(), CodeGenError>(e),
            }),
        decreases *statement, 0int,
    {
        match statement {
            Statement::Let { name, index, expr } => {
                let ghost pre = *self;
                match self.emit_expr(class, subroutine, expr) {
                    Ok(()) => (),
                    Err(e) => {
                        return Err(e);
                    },
                }
                let ghost s1 = *self;
                let ghost value = s1.lines.deep_view().skip(pre.lines@.len() as int);
                proof {
                    lemma_extends_len(pre, s1);
                    assert(s1.lines.deep_view() =~= pre.lines.deep_view() + value) by {
                        assert(forall|k: int|
                            0 <= k < pre.lines@.len() ==> s1.lines@[k]
                                == #[trigger] pre.lines@[k]);
                    }
                }
                let (reftype, _ty, number) = match self.symbol_table.lookup_var(
                    class,
                    subroutine,
                    name.as_str(),
                ) {
                    Ok(t) => t,
                    Err(e) => {
                        return Err(CodeGenError::Lookup(e));
                    },
                };
                match index {
                    Some(index) => {
                        match self.emit_expr(class, subroutine, index) {
                            Ok(()) => (),
                            Err(e) => {
                                return Err(e);
                            },
                        }
                        let ghost s2 = *self;
                        let ghost addr = s2.lines.deep_view().skip(s1.lines@.len() as int);
                        proof {
                            lemma_extends_len(s1, s2);
                            assert(s2.lines.deep_view() =~= s1.lines.deep_view() + addr) by {
                                assert(forall|k: int|
                                    0 <= k < s1.lines@.len() ==> s2.lines@[k]
                                        == #[trigger] s1.lines@[k]);
                            }
                        }
                        self.push_seg_line(true, reftype, number);
                        self.push_line(lit("add"));
                        self.push_line(lit("pop pointer 1"));
                        self.push_line(lit("pop that 0"));
                        proof {
                            assert(self.lines.deep_view() =~= pre.lines.deep_view() + (value + addr
                                + seq![
                                push_line_of(reftype, number as nat),
                                "add"@,
                                "pop pointer 1"@,
                                "pop that 0"@,
                            ]));
                        }
                    }
                    None => {
                        self.push_seg_line(false, reftype, number);
                        proof {
                            assert(self.lines.deep_view() =~= pre.lines.deep_view() + (value
                                + seq![pop_line_of(reftype, number as nat)]));
                        }
                    }
                }
                Ok(())
            }
            _ => Err(CodeGenError::InvalidMethodTarget),
        }
    }

    /// The push or pop line of a resolved variable.
    fn push_seg_line(&mut self, is_push: bool, reftype: RefType, number: usize)
        ensures
            extends(*old(self), *final(self)),
            final(self).lines@.len() == old(self).lines@.len() + 1,
            final(self).lines.deep_view() == old(self).lines.deep_view().push(
                if is_push {
                    push_line_of(reftype, number as nat)
                } else {
                    pop_line_of(reftype, number as nat)
                },
            ),
            final(self).if_label_number == old(self).if_label_number,
            final(self).while_label_number == old(self).while_label_number,
    {
        let n = u64_to_string(number as u64);
        let head = if is_push {
            match reftype {
                RefType::ClassRefType(ClassVarDecorator::Static) => lit("push static "),
                RefType::ClassRefType(ClassVarDecorator::Field) => lit("push this "),
                RefType::SubroutineRefType(SubroutineVarDecorator::Arg) => lit("push argument "),
                RefType::SubroutineRefType(SubroutineVarDecorator::Local) => lit("push local "),
            }
        } else {
            match reftype {
                RefType::ClassRefType(ClassVarDecorator::Static) => lit("pop static "),
                RefType::ClassRefType(ClassVarDecorator::Field) => lit("pop this "),
                RefType::SubroutineRefType(SubroutineVarDecorator::Arg) => lit("pop argument "),
                RefType::SubroutineRefType(SubroutineVarDecorator::Local) => lit("pop local "),
            }
        };
        let full = head.concat(n.as_str());
        self.push_line(full);
    }

    /// Emits `do`: the call, then `pop temp 0` to discard its value.
    pub fn emit_do_statement(&mut self, class: &str, subroutine: &str, statement: &Statement) -> (
        r: Result<(), CodeGenError>)
        requires
            wf_table(*old(self).symbol_table),
            statement matches Statement::Do { .. },
        ensures
            extends(*old(self), *final(self)),
            (match spec_statement_lines(
                *old(self).symbol_table,
                class@,
                subroutine@,
                *statement,
                old(self).if_label_number,
                old(self).while_label_number,
            ) {
                Ok((lines, k2, w2)) => r is Ok && final(self).lines.deep_view() == old(self).lines.deep_view() + lines && final(self).if_label_number == k2 && final(self).while_label_number == w2,
                Err(e) => r == Err::<(), CodeGenError>(e),
            }),
        decreases *statement, 0int,
    {
        match statement {
            Statement::Do { expr } => {
                let ghost pre = *self;
                match self.emit_expr(class, subroutine, expr) {
                    Ok(()) => (),
                    Err(e) => {
                        return Err(e);
                    },
                }
                self.push_line(lit("pop temp 0"));
                proof {
                    let l = spec_expr_lines(*pre.symbol_table, class@, subroutine@, *expr)->Ok_0;
                    assert(self.lines.deep_view() =~= pre.lines.deep_view() + l.push(
                        "pop temp 0"@,
                    ));
                }
                Ok(())
            }
            _ => Err(CodeGenError::InvalidMethodTarget),
        }
    }

    /// Emits `return`: the value, or `push constant 0` for void, then
    /// `return`.
    pub fn emit_return_statement(&mut self, class: &str, subroutine: &str, statement: &Statement)
        -> (r: Result<(), CodeGenError>)
        requires
            wf_table(*old(self).symbol_table),
            statement matches Statement::Return { .. },
        ensures
            extends(*old(self), *final(self)),
            (match spec_statement_lines(
                *old(self).symbol_table,
                class@,
                subroutine@,
                *statement,
                old(self).if_label_number,
                old(self).while_label_number,
            ) {
                Ok((lines, k2, w2)) => r is Ok && final(self).lines.deep_view() == old(self).lines.deep_view() + lines && final(self).if_label_number == k2 && final(self).while_label_number == w2,
                Err(e) => r == Err::<(), CodeGenError>(e),
            }),
        decreases *statement, 0int,
    {
        match statement {
            Statement::Return { expr } => {
                let ghost pre = *self;
                match expr {
                    Some(expr) => {
                        match self.emit_expr(class, subroutine, expr) {
                            Ok(()) => (),
                            Err(e) => {
                                return Err(e);
                            },
                        }
                        self.push_line(lit("return"));
                        proof {
                            let l = spec_expr_lines(
                                *pre.symbol_table,
                                class@,
                                subroutine@,
                                *expr,
                            )->Ok_0;
                            assert(self.lines.deep_view() =~= pre.lines.deep_view() + l.push(
                                "return"@,
                            ));
                        }
                    }
                    None => {
                        self.push_line(lit("push constant 0"));
                        self.push_line(lit("return"));
                        proof {
                            assert(self.lines.deep_view() =~= pre.lines.deep_view() + seq![
                                "push constant 0"@,
                                "return"@,
                            ]);
                        }
                    }
                }
                Ok(())
            }
            _ => Err(CodeGenError::InvalidMethodTarget),
        }
    }

    /// Emits an expression: the head term, then each further term followed
    /// by its operator, left to right with no precedence.
    pub fn emit_expr(&mut self, class: &str, subroutine: &str, expr: &Expr) -> (r: Result<
        (),
        CodeGenError,
    >)
        requires
            wf_table(*old(self).symbol_table),
        ensures
            extends(*old(self), *final(self)),
            final(self).if_label_number == old(self).if_label_number,
            final(self).while_label_number == old(self).while_label_number,
            (match spec_expr_lines(*old(self).symbol_table, class@, subroutine@, *expr) {
                Ok(lines) => r is Ok && final(self).lines.deep_view() == old(self).lines.deep_view() + lines,
                Err(e) => r == Err::<(), CodeGenError>(e),
            }),
        decreases *expr, 2int,
    {
        let ghost pre = *self;
        match self.emit_term(class, subroutine, &expr.term) {
            Ok(()) => (),
            Err(e) => {
                return Err(e);
            },
        }
        let ghost mut acc: Seq<Seq<char>> = spec_term_lines(
            *pre.symbol_table,
            class@,
            subroutine@,
            *expr.term,
        )->Ok_0;
        let mut i: usize = 0;
        proof {
            assert(expr.ops@.skip(0) =~= expr.ops@);
        }
        while i < expr.ops.len()
            invariant
                wf_table(*self.symbol_table),
                extends(*old(self), *self),
                self.if_label_number == old(self).if_label_number,
                self.while_label_number == old(self).while_label_number,
                0 <= i <= expr.ops@.len(),
                self.lines.deep_view() == old(self).lines.deep_view() + acc,
                spec_expr_lines(*old(self).symbol_table, class@, subroutine@, *expr)
                    == spec_ops_lines(
                    *old(self).symbol_table,
                    class@,
                    subroutine@,
                    expr.ops@.skip(i as int),
                    acc,
                ),
            decreases expr.ops@.len() - i,
        {
            proof {
                assert(decreases_to!(*expr, 2int => expr.ops@[i as int].1, 2int));
                assert(expr.ops@.skip(i as int)[0] == expr.ops@[i as int]);
                assert(expr.ops@.skip(i as int).drop_first() =~= expr.ops@.skip(i + 1 as int));
            }
            match self.emit_term(class, subroutine, &expr.ops[i].1) {
                Ok(()) => (),
                Err(e) => {
                    return Err(e);
                },
            }
            let instr = match expr.ops[i].0 {
                Op::Add => lit("add"),
                Op::Sub => lit("sub"),
                Op::Mult => lit("call Math.multiply 2"),
                Op::Div => lit("call Math.divide 2"),
                Op::And => lit("and"),
                Op::Or => lit("or"),
                Op::Lt => lit("lt"),
                Op::Gt => lit("gt"),
                Op::Eq => lit("eq"),
            };
            proof {
                assert(instr@ == op_line(expr.ops@[i as int].0));
            }
            self.push_line(instr);
            proof {
                let t = spec_term_lines(
                    *old(self).symbol_table,
                    class@,
                    subroutine@,
                    expr.ops@[i as int].1,
                )->Ok_0;
                acc = acc + t + seq![op_line(expr.ops@[i as int].0)];
                assert(self.lines.deep_view() =~= old(self).lines.deep_view() + acc);
            }
            i += 1;
        }
        proof {
            assert(expr.ops@.skip(expr.ops@.len() as int) =~= Seq::<(Op, Term)>::empty());
        }
        Ok(())
    }

    /// Emits one term: literals push constants — `true` is `0` negated — and
    /// the composite terms recurse.
    pub fn emit_term(&mut self, class: &str, subroutine: &str, term: &Term) -> (r: Result<
        (),
        CodeGenError,
    >)
        requires
            wf_table(*old(self).symbol_table),
        ensures
            extends(*old(self), *final(self)),
            final(self).if_label_number == old(self).if_label_number,
            final(self).while_label_number == old(self).while_label_number,
            (match spec_term_lines(*old(self).symbol_table, class@, subroutine@, *term) {
                Ok(lines) => r is Ok && final(self).lines.deep_view() == old(self).lines.deep_view() + lines,
                Err(e) => r == Err::<(), CodeGenError>(e),
            }),
        decreases *term, 2int,
    {
        let ghost pre = *self;
        match term {
            Term::IntegerLit(n) => {
                let s = u16_to_string(*n);
                self.push_line(lit("push constant ").concat(s.as_str()));
                proof {
                    assert(self.lines.deep_view() =~= pre.lines.deep_view() + seq![
                        "push constant "@ + dec_rep(*n as nat),
                    ]);
                }
                Ok(())
            }
            Term::StringLit(s) => {
                self.emit_string_lit(s.as_str())
            }
            Term::True => {
                self.push_line(lit("push constant 0"));
                self.push_line(lit("not"));
                proof {
                    assert(self.lines.deep_view() =~= pre.lines.deep_view() + seq![
                        "push constant 0"@,
                        "not"@,
                    ]);
                }
                Ok(())
            }
            Term::False => {
                self.push_line(lit("push constant 0"));
                proof {
                    assert(self.lines.deep_view() =~= pre.lines.deep_view() + seq![
                        "push constant 0"@,
                    ]);
                }
                Ok(())
            }
            Term::Null => {
                self.push_line(lit("push constant 0"));
                proof {
                    assert(self.lines.deep_view() =~= pre.lines.deep_view() + seq![
                        "push constant 0"@,
                    ]);
                }
                Ok(())
            }
            Term::This => {
                self.push_line(lit("push pointer 0"));
                proof {
                    assert(self.lines.deep_view() =~= pre.lines.deep_view() + seq![
                        "push pointer 0"@,
                    ]);
                }
                Ok(())
            }
            Term::Var { name, index } => self.emit_var_ref(class, subroutine, name.as_str(), index),
            Term::Bracketed(expr) => self.emit_expr(class, subroutine, expr),
            Term::Unary(op, inner) => {
                match self.emit_term(class, subroutine, inner) {
                    Ok(()) => (),
                    Err(e) => {
                        return Err(e);
                    },
                }
                let instr = match op {
                    UnaryOp::Neg => lit("neg"),
                    UnaryOp::Not => lit("not"),
                };
                self.push_line(instr);
                proof {
                    let l = spec_term_lines(
                        *pre.symbol_table,
                        class@,
                        subroutine@,
                        *term->Unary_1,
                    )->Ok_0;
                    assert(self.lines.deep_view() =~= pre.lines.deep_view() + l.push(
                        unary_line(*op),
                    ));
                }
                Ok(())
            }
            Term::SubroutineCall { qualifier, name, exprs } => {
                let q: Option<&String> = match qualifier {
                    Some(q) => Some(q),
                    None => None,
                };
                proof {
                    assert(deref_opt(q) == term->SubroutineCall_qualifier);
                }
                self.emit_subroutine_call(class, subroutine, q, name.as_str(), exprs)
            }
        }
    }

    /// Emits a string literal: `String.new` on the character count, then one
    /// `String.appendChar` per character, leaving the string on the stack.
    pub fn emit_string_lit(&mut self, string: &str) -> (r: Result<(), CodeGenError>)
        ensures
            extends(*old(self), *final(self)),
            final(self).if_label_number == old(self).if_label_number,
            final(self).while_label_number == old(self).while_label_number,
            final(self).lines@.len() > old(self).lines@.len(),
            final(self).lines.deep_view() == old(self).lines.deep_view() + string_lit_lines(
                string@,
            ),
            r is Ok,
    {
        let chars = crate::text::str_to_chars(string);
        let n = u64_to_string(chars.len() as u64);
        let ghost pre = *self;
        self.push_line(lit("push constant ").concat(n.as_str()));
        self.push_line(lit("call String.new 1"));
        proof {
            assert(append_char_lines(string@.take(0)) =~= Seq::<Seq<char>>::empty());
            assert(self.lines.deep_view() =~= pre.lines.deep_view() + seq![
                "push constant "@ + dec_rep(string@.len()),
                "call String.new 1"@,
            ] + append_char_lines(string@.take(0)));
        }
        let mut i: usize = 0;
        while i < chars.len()
            invariant
                pre == *old(self),
                extends(*old(self), *self),
                chars@ == string@,
                0 <= i <= chars@.len(),
                self.if_label_number == pre.if_label_number,
                self.while_label_number == pre.while_label_number,
                self.lines.deep_view() == pre.lines.deep_view() + seq![
                    "push constant "@ + dec_rep(string@.len()),
                    "call String.new 1"@,
                ] + append_char_lines(string@.take(i as int)),
            decreases chars@.len() - i,
        {
            let c = chars[i];
            let code = u64_to_string(c as u32 as u64);
            self.push_line(lit("push constant ").concat(code.as_str()));
            self.push_line(lit("call String.appendChar 2"));
            proof {
                assert(string@.take(i + 1 as int).drop_last() =~= string@.take(i as int));
                assert(string@.take(i + 1 as int).last() == string@[i as int]);
                assert(self.lines.deep_view() =~= pre.lines.deep_view() + seq![
                    "push constant "@ + dec_rep(string@.len()),
                    "call String.new 1"@,
                ] + append_char_lines(string@.take(i + 1 as int)));
            }
            i += 1;
        }
        proof {
            assert(string@.take(string@.len() as int) =~= string@);
            assert(self.lines.deep_view() =~= pre.lines.deep_view() + string_lit_lines(string@));
        }
        Ok(())
    }

    /// Emits a variable read: push the variable; an index then computes the
    /// element address and reads through `that`.
    pub fn emit_var_ref(
        &mut self,
        class: &str,
        subroutine: &str,
        name: &str,
        index: &Option<Expr>,
    ) -> (r: Result<(), CodeGenError>)
        requires
            wf_table(*old(self).symbol_table),
        ensures
            extends(*old(self), *final(self)),
            final(self).if_label_number == old(self).if_label_number,
            final(self).while_label_number == old(self).while_label_number,
            (match spec_var_ref_lines(
                *old(self).symbol_table,
                class@,
                subroutine@,
                name@,
                *index,
            ) {
                Ok(lines) => r is Ok && final(self).lines.deep_view() == old(self).lines.deep_view() + lines,
                Err(e) => r == Err::<(), CodeGenError>(e),
            }),
        decreases *index, 2int,
    {
        let ghost pre = *self;
        let (reftype, _ty, number) = match self.symbol_table.lookup_var(class, subroutine, name) {
            Ok(t) => t,
            Err(e) => {
                return Err(CodeGenError::Lookup(e));
            },
        };
        self.push_seg_line(true, reftype, number);
        proof {
            assert(self.lines.deep_view() =~= pre.lines.deep_view() + seq![
                push_line_of(reftype, number as nat),
            ]);
        }
        match index {
            Some(index) => {
                match self.emit_expr(class, subroutine, index) {
                    Ok(()) => (),
                    Err(e) => {
                        return Err(e);
                    },
                }
                self.push_line(lit("add"));
                self.push_line(lit("pop pointer 1"));
                self.push_line(lit("push that 0"));
                proof {
                    let ix_lines = spec_expr_lines(
                        *pre.symbol_table,
                        class@,
                        subroutine@,
                        *index,
                    )->Ok_0;
                    assert(self.lines.deep_view() =~= pre.lines.deep_view() + (seq![
                        push_line_of(reftype, number as nat),
                    ] + ix_lines + seq!["add"@, "pop pointer 1"@, "push that 0"@]));
                }
            }
            None => (),
        }
        Ok(())
    }

    /// Emits a call. Without a qualifier the call is a method call on the
    /// current `this`; an uppercase qualifier names a class and the call is
    /// static; a lowercase qualifier names a variable, whose class type
    /// decides the target, and the variable is pushed as the receiver.
    fn emit_subroutine_call(
        &mut self,
        class: &str,
        subroutine: &str,
        qualifier: Option<&String>,
        name: &str,
        exprs: &Vec<Expr>,
    ) -> (r: Result<(), CodeGenError>)
        requires
            wf_table(*old(self).symbol_table),
        ensures
            extends(*old(self), *final(self)),
            final(self).if_label_number == old(self).if_label_number,
            final(self).while_label_number == old(self).while_label_number,
            (match spec_call_lines(
                *old(self).symbol_table,
                class@,
                subroutine@,
                deref_opt(qualifier),
                name@,
                exprs@,
            ) {
                Ok(lines) => r is Ok && final(self).lines.deep_view() == old(self).lines.deep_view() + lines,
                Err(e) => r == Err::<(), CodeGenError>(e),
            }),
        decreases exprs@, 2int,
    {
        let ghost pre = *self;
        let expr_count = exprs.len();
        if expr_count >= usize::MAX - 1 {
            return Err(CodeGenError::InvalidMethodTarget);
        }
        let (target_class, args) = match qualifier {
            None => {
                self.push_line(lit("push pointer 0"));
                proof {
                    assert(self.lines.deep_view() =~= pre.lines.deep_view() + seq![
                        "push pointer 0"@,
                    ]);
                }
                (lit(class), expr_count + 1)
            }
            Some(target) => {
                if starts_with_upper(target.as_str()) {
                    proof {
                        assert(self.lines.deep_view() =~= pre.lines.deep_view() + Seq::<
                            Seq<char>,
                        >::empty());
                    }
                    (lit(target.as_str()), expr_count)
                } else {
                    let (reftype, ty, number) = match self.symbol_table.lookup_var(
                        class,
                        subroutine,
                        target.as_str(),
                    ) {
                        Ok(t) => t,
                        Err(e) => {
                            return Err(CodeGenError::Lookup(e));
                        },
                    };
                    self.push_seg_line(true, reftype, number);
                    proof {
                        assert(self.lines.deep_view() =~= pre.lines.deep_view() + seq![
                            push_line_of(reftype, number as nat),
                        ]);
                    }
                    match ty {
                        Type::Class(target_class) => (target_class, expr_count + 1),
                        _ => {
                            return Err(CodeGenError::InvalidMethodTarget);
                        },
                    }
                }
            }
        };
        let ghost dispatched = *self;
        let ghost receiver = dispatched.lines.deep_view().skip(pre.lines@.len() as int);
        proof {
            lemma_extends_len(pre, dispatched);
            assert(dispatched.lines.deep_view() =~= pre.lines.deep_view() + receiver) by {
                assert(forall|k: int|
                    0 <= k < pre.lines@.len() ==> dispatched.lines@[k]
                        == #[trigger] pre.lines@[k]);
            }
            assert(spec_call_lines(
                *pre.symbol_table,
                class@,
                subroutine@,
                deref_opt(qualifier),
                name@,
                exprs@,
            ) == (match spec_exprs_lines(*pre.symbol_table, class@, subroutine@, exprs@) {
                Err(e) => Err::<Seq<Seq<char>>, CodeGenError>(e),
                Ok(arg_lines) => Ok(
                    receiver + arg_lines + seq![
                        "call "@ + target_class@ + "."@ + name@ + " "@ + dec_rep(args as nat),
                    ],
                ),
            })) by {
                match qualifier {
                    None => {
                        assert(receiver =~= seq!["push pointer 0"@]);
                        assert(target_class@ == class@);
                    },
                    Some(target) => {
                        if spec_starts_upper(target@) {
                            assert(receiver =~= Seq::<Seq<char>>::empty());
                            assert(target_class@ == target@);
                        } else {
                            let kk = spec_lookup_var(
                                *pre.symbol_table,
                                class@,
                                subroutine@,
                                target@,
                            )->Ok_0;
                            assert(receiver =~= seq![push_line_of(kk.0, kk.2)]);
                            assert(kk.1 == TypeV::Class(target_class@));
                        }
                    },
                }
            }
        }
        let ghost mut acc: Seq<Seq<char>> = Seq::empty();
        let mut i: usize = 0;
        proof {
            assert(exprs@.skip(0) =~= exprs@);
            assert(dispatched.lines.deep_view() + acc =~= dispatched.lines.deep_view());
        }
        while i < exprs.len()
            invariant
                wf_table(*self.symbol_table),
                extends(*old(self), *self),
                self.if_label_number == old(self).if_label_number,
                self.while_label_number == old(self).while_label_number,
                0 <= i <= exprs@.len(),
                self.lines.deep_view() == dispatched.lines.deep_view() + acc,
                dispatched.lines.deep_view() == old(self).lines.deep_view() + receiver,
                spec_call_lines(
                    *old(self).symbol_table,
                    class@,
                    subroutine@,
                    deref_opt(qualifier),
                    name@,
                    exprs@,
                ) == (match spec_exprs_lines(*old(self).symbol_table, class@, subroutine@, exprs@) {
                    Err(e) => Err::<Seq<Seq<char>>, CodeGenError>(e),
                    Ok(arg_lines) => Ok(
                        receiver + arg_lines + seq![
                            "call "@ + target_class@ + "."@ + name@ + " "@ + dec_rep(args as nat),
                        ],
                    ),
                }),
                spec_exprs_lines(*old(self).symbol_table, class@, subroutine@, exprs@) == (
                match spec_exprs_lines(
                    *old(self).symbol_table,
                    class@,
                    subroutine@,
                    exprs@.skip(i as int),
                ) {
                    Err(e) => Err::<Seq<Seq<char>>, CodeGenError>(e),
                    Ok(rest) => Ok(acc + rest),
                }),
            decreases exprs@.len() - i,
        {
            proof {
                assert(decreases_to!(exprs@, 2int => exprs@[i as int], 2int));
                assert(exprs@.skip(i as int)[0] == exprs@[i as int]);
                assert(exprs@.skip(i as int).drop_first() =~= exprs@.skip(i + 1 as int));
            }
            let ghost before = *self;
            match self.emit_expr(class, subroutine, &exprs[i]) {
                Ok(()) => (),
                Err(e) => {
                    return Err(e);
                },
            }
            proof {
                let one = spec_expr_lines(
                    *old(self).symbol_table,
                    class@,
                    subroutine@,
                    exprs@[i as int],
                )->Ok_0;
                let acc0 = acc;
                acc = acc + one;
                assert(self.lines.deep_view() =~= dispatched.lines.deep_view() + acc);
                if spec_exprs_lines(
                    *old(self).symbol_table,
                    class@,
                    subroutine@,
                    exprs@.skip(i + 1 as int),
                ) is Ok {
                    let rest = spec_exprs_lines(
                        *old(self).symbol_table,
                        class@,
                        subroutine@,
                        exprs@.skip(i + 1 as int),
                    )->Ok_0;
                    assert(acc0 + (one + rest) =~= acc + rest);
                }
            }
            i += 1;
        }
        proof {
            assert(exprs@.skip(exprs@.len() as int) =~= Seq::<Expr>::empty());
            assert(acc + Seq::<Seq<char>>::empty() =~= acc);
        }
        let a = u64_to_string(args as u64);
        let call_line = lit("call ").concat(target_class.as_str()).concat(".").concat(
            name,
        ).concat(" ").concat(a.as_str());
        self.push_line(call_line);
        proof {
            assert(self.lines.deep_view() =~= pre.lines.deep_view() + (receiver + acc + seq![
                "call "@ + target_class@ + "."@ + name@ + " "@ + dec_rep(args as nat),
            ]));
        }
        Ok(())
    }
}

/// Whether a name starts with an uppercase ASCII letter, which by convention
/// marks a class name in a qualified call.
pub fn starts_with_upper(target: &str) -> (r: bool)
    ensures
        r == (target@.len() > 0 && 65 <= target@[0] as u32 <= 90),
{
    let v = crate::text::str_to_chars(target);
    if v.len() == 0 {
        return false;
    }
    let u = v[0] as u32;
    65 <= u && u <= 90
}



} // verus!
