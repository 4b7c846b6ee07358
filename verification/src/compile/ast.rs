//! The Jack syntax tree.

use vstd::prelude::*;

use crate::compile::tokenizer::{Token, TokenError};

verus! {

/// One Jack class: its name, class-level variables, and subroutines.
#[derive(Debug, PartialEq, Eq)]
pub struct Class {
    pub name: String,
    pub vars: Vec<ClassVarDecl>,
    pub subroutines: Vec<Subroutine>,
}

/// One `static` or `field` declaration line, possibly naming several
/// variables of the same type.
#[derive(Debug, PartialEq, Eq)]
pub struct ClassVarDecl {
    pub decorator: ClassVarDecorator,
    pub ty: Type,
    pub declarations: Vec<String>,
}

/// The storage class of a class-level variable.
#[derive(Debug, PartialEq, Eq, Structural, Copy, Clone)]
pub enum ClassVarDecorator {
    Static,
    Field,
}

/// A Jack type: one of the three primitives or a class.
#[derive(Debug, PartialEq, Eq)]
pub enum Type {
    Int,
    Char,
    Boolean,
    Class(String),
}

/// The mathematical value of a `Type`.
pub enum TypeV {
    Int,
    Char,
    Boolean,
    Class(Seq<char>),
}

impl View for Type {
    type V = TypeV;

    open spec fn view(&self) -> TypeV {
        match self {
            Type::Int => TypeV::Int,
            Type::Char => TypeV::Char,
            Type::Boolean => TypeV::Boolean,
            Type::Class(s) => TypeV::Class(s@),
        }
    }
}

/// A copy of a type.
pub fn clone_type(t: &Type) -> (r: Type)
    ensures
        r@ == t@,
{
    match t {
        Type::Int => Type::Int,
        Type::Char => Type::Char,
        Type::Boolean => Type::Boolean,
        Type::Class(s) => Type::Class(crate::text::lit(s.as_str())),
    }
}

/// One subroutine: its kind, optional return type (none meaning void), name,
/// parameters, local variables, and body.
#[derive(Debug, PartialEq, Eq)]
pub struct Subroutine {
    pub decorator: SubroutineDecorator,
    pub ty: Option<Type>,
    pub name: String,
    pub params: Vec<ParamDecl>,
    pub vars: Vec<SubroutineVarDecl>,
    pub statements: Vec<Statement>,
}

/// One `var` declaration line of a subroutine.
#[derive(Debug, PartialEq, Eq)]
pub struct SubroutineVarDecl {
    pub ty: Type,
    pub declarations: Vec<String>,
}

/// One parameter of a subroutine.
#[derive(Debug, PartialEq, Eq)]
pub struct ParamDecl {
    pub ty: Type,
    pub name: String,
}

/// The kind of a subroutine.
#[derive(Debug, PartialEq, Eq, Structural, Copy, Clone)]
pub enum SubroutineDecorator {
    Constructor,
    Function,
    Method,
}

/// One Jack statement.
#[derive(Debug, PartialEq, Eq)]
pub enum Statement {
    Let { name: String, index: Option<Expr>, expr: Expr },
    If { condition: Expr, statements: Vec<Statement>, else_statements: Option<Vec<Statement>> },
    While { condition: Expr, statements: Vec<Statement> },
    Do { expr: Expr },
    Return { expr: Option<Expr> },
}

/// One Jack expression: a head term and a list of (operator, term) pairs,
/// applied left to right with no precedence.
#[derive(Debug, PartialEq, Eq)]
pub struct Expr {
    pub term: Box<Term>,
    pub ops: Vec<(Op, Term)>,
}

/// One Jack term.
#[derive(Debug, PartialEq, Eq)]
pub enum Term {
    IntegerLit(u16),
    StringLit(String),
    True,
    False,
    Null,
    This,
    Var { name: String, index: Option<Expr> },
    Bracketed(Expr),
    Unary(UnaryOp, Box<Term>),
    SubroutineCall { qualifier: Option<String>, name: String, exprs: Vec<Expr> },
}

/// A binary operator.
#[derive(Debug, PartialEq, Eq, Structural, Copy, Clone)]
pub enum Op {
    Add,
    Sub,
    Mult,
    Div,
    And,
    Or,
    Lt,
    Gt,
    Eq,
}

/// A unary operator.
#[derive(Debug, PartialEq, Eq, Structural, Copy, Clone)]
pub enum UnaryOp {
    Neg,
    Not,
}

/// What can go wrong while parsing a Jack class; symbol-table errors are
/// raised during parsing too.
#[derive(Debug, PartialEq, Eq)]
pub enum ParseError {
    TokenError(TokenError),
    UnexpectedToken(Token),
    MissingExpr,
    MissingClosingParen,
    MissingClosingBracket,
    MissingSubroutineName,
    MissingOpeningParen,
    MissingOpeningCurly,
    MissingClosingCurly,
    MissingVariable,
    MissingEquals,
    DoStatementMustBeSubroutineCall,
    MissingClassDeclaration,
    MissingClassName,
    MissingType,
    MissingSemicolon,
    ClassNotFound,
    DuplicatedClass,
    DuplicatedClassLevelVariable,
    DuplicatedSubroutine,
    DuplicatedFuncitonLevelVariable,
    SymbolNotFound,
}

} // verus!
