//! The Hack assembly instruction tree.

use vstd::prelude::*;

verus! {

/// One parsed line of Hack assembly.
///
/// `A` loads an address or symbol reference, `C` computes, and `L` declares a
/// label; an `L` line occupies no instruction slot.
#[derive(Debug, PartialEq, Eq)]
pub enum Instruction {
    A(Reference),
    C(DestSet, Expr, Jump),
    L(String),
}

/// The operand of an A-instruction: a symbolic name or an absolute address.
#[derive(Debug, PartialEq, Eq, Clone)]
pub enum Reference {
    Symbol(String),
    Address(u16),
}

/// One of the three destination registers of a C-instruction.
#[derive(Debug, PartialEq, Eq, Structural, Clone, Copy)]
pub enum Register {
    A,
    D,
    M,
}

/// The destination registers of a C-instruction, as a set of flags.
#[derive(Debug, PartialEq, Eq, Structural, Clone, Copy)]
pub struct DestSet {
    pub a: bool,
    pub d: bool,
    pub m: bool,
}

impl DestSet {
    /// The empty destination set.
    pub fn empty() -> (r: DestSet)
        ensures
            r == (DestSet { a: false, d: false, m: false }),
    {
        DestSet { a: false, d: false, m: false }
    }

    pub open spec fn spec_contains(self, r: Register) -> bool {
        match r {
            Register::A => self.a,
            Register::D => self.d,
            Register::M => self.m,
        }
    }

    pub fn contains(&self, r: Register) -> (b: bool)
        ensures
            b == self.spec_contains(r),
    {
        match r {
            Register::A => self.a,
            Register::D => self.d,
            Register::M => self.m,
        }
    }

    /// The set with one more register marked.
    pub fn insert(self, r: Register) -> (s: DestSet)
        ensures
            s == self.spec_insert(r),
    {
        match r {
            Register::A => DestSet { a: true, ..self },
            Register::D => DestSet { d: true, ..self },
            Register::M => DestSet { m: true, ..self },
        }
    }

    pub open spec fn spec_insert(self, r: Register) -> DestSet {
        match r {
            Register::A => DestSet { a: true, ..self },
            Register::D => DestSet { d: true, ..self },
            Register::M => DestSet { m: true, ..self },
        }
    }
}

/// The jump condition of a C-instruction.
#[derive(Debug, PartialEq, Eq, Structural, Clone, Copy)]
pub enum Jump {
    Null,
    Jgt,
    Jeq,
    Jge,
    Jlt,
    Jne,
    Jle,
    Jmp,
}

/// The compute expression of a C-instruction, from the fixed 28-element set.
#[derive(Debug, PartialEq, Eq, Structural, Clone, Copy)]
pub enum Expr {
    Zero,
    One,
    NegOne,
    D,
    A,
    M,
    NotD,
    NotA,
    NotM,
    NegD,
    NegA,
    NegM,
    DAddOne,
    AAddOne,
    MAddOne,
    DSubOne,
    ASubOne,
    MSubOne,
    DAddA,
    DAddM,
    DSubA,
    DSubM,
    ASubD,
    MSubD,
    DAndA,
    DAndM,
    DOrA,
    DOrM,
}

} // verus!
