//! The VM command tree.

use vstd::prelude::*;

verus! {

/// One VM command: stack moves, arithmetic and logic, branching, functions,
/// or a comment line kept verbatim.
#[derive(Debug, PartialEq, Eq, Clone)]
pub enum Command {
    Push(Segment, u16),
    Pop(Segment, u16),
    Add,
    Sub,
    Neg,
    Eq,
    Gt,
    Lt,
    And,
    Or,
    Not,
    Goto(String),
    IfGoto(String),
    Label(String),
    Function(String, u16),
    Call(String, u16),
    Return,
    Comment(String),
}

/// One of the eight memory segments of the VM.
#[derive(Debug, PartialEq, Eq, Structural, Clone, Copy)]
pub enum Segment {
    Argument,
    Local,
    Static,
    Constant,
    This,
    That,
    Pointer,
    Temp,
}

/// The mathematical value of a `Command`.
pub enum CommandV {
    Push(Segment, u16),
    Pop(Segment, u16),
    Add,
    Sub,
    Neg,
    Eq,
    Gt,
    Lt,
    And,
    Or,
    Not,
    Goto(Seq<char>),
    IfGoto(Seq<char>),
    Label(Seq<char>),
    Function(Seq<char>, u16),
    Call(Seq<char>, u16),
    Return,
    Comment(Seq<char>),
}

impl View for Command {
    type V = CommandV;

    open spec fn view(&self) -> CommandV {
        match self {
            Command::Push(s, i) => CommandV::Push(*s, *i),
            Command::Pop(s, i) => CommandV::Pop(*s, *i),
            Command::Add => CommandV::Add,
            Command::Sub => CommandV::Sub,
            Command::Neg => CommandV::Neg,
            Command::Eq => CommandV::Eq,
            Command::Gt => CommandV::Gt,
            Command::Lt => CommandV::Lt,
            Command::And => CommandV::And,
            Command::Or => CommandV::Or,
            Command::Not => CommandV::Not,
            Command::Goto(l) => CommandV::Goto(l@),
            Command::IfGoto(l) => CommandV::IfGoto(l@),
            Command::Label(l) => CommandV::Label(l@),
            Command::Function(f, n) => CommandV::Function(f@, *n),
            Command::Call(f, n) => CommandV::Call(f@, *n),
            Command::Return => CommandV::Return,
            Command::Comment(s) => CommandV::Comment(s@),
        }
    }
}

} // verus!
