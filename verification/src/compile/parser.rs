//! The Jack parser: hand-written recursive descent over the token stream
//! with one token of push-back, filling the symbol table as it goes.

use vstd::prelude::*;

use crate::compile::ast::{
    clone_type, Class, ClassVarDecl, ClassVarDecorator, Expr, Op, ParamDecl, ParseError,
    Statement, Subroutine, SubroutineDecorator, SubroutineVarDecl, Term, Type, UnaryOp,
};
use crate::compile::symbol_table::{assoc_find, wf_table, SymbolTable};
use crate::compile::tokenizer::{Keyword, Token};
use crate::text::lit;

verus! {

/// The recursive-descent parser: a token list, a cursor, and pushed-back
/// tokens.
pub struct Parser {
    tokens: Vec<Token>,
    pos: usize,
    push_back: Vec<Token>,
}

impl Parser {
    /// How many tokens are still to be read.
    pub closed spec fn remaining(&self) -> nat {
        if self.pos <= self.tokens@.len() {
            (self.tokens@.len() - self.pos) as nat + self.push_back@.len()
        } else {
            self.push_back@.len()
        }
    }

    pub closed spec fn wf(&self) -> bool {
        self.pos <= self.tokens@.len()
    }

    /// A parser over the given tokens.
    pub fn new(tokens: Vec<Token>) -> (r: Parser)
        ensures
            r.wf(),
    {
        Parser { tokens, pos: 0, push_back: Vec::new() }
    }

    /// The next token: the most recently pushed-back one, or the next from
    /// the stream; `None` at the end.
    fn next_token(&mut self) -> (r: Option<Token>)
        requires
            old(self).wf(),
        ensures
            final(self).wf(),
            match r {
                Some(_) => old(self).remaining() > 0 && final(self).remaining() == old(
                    self,
                ).remaining() - 1,
                None => old(self).remaining() == 0 && final(self).remaining() == 0,
            },
    {
        if self.push_back.len() > 0 {
            self.push_back.pop()
        } else {
            if self.pos < self.tokens.len() {
                let t = clone_token(&self.tokens[self.pos]);
                self.pos = self.pos + 1;
                Some(t)
            } else {
                None
            }
        }
    }

    /// Puts a token back; it is read again next.
    fn push_back(&mut self, token: Option<Token>)
        requires
            old(self).wf(),
        ensures
            final(self).wf(),
            match token {
                Some(_) => final(self).remaining() == old(self).remaining() + 1,
                None => final(self).remaining() == old(self).remaining(),
            },
    {
        if let Some(token) = token {
            self.push_back.push(token)
        }
    }

    /// Reads one token and keeps it only if it equals the target.
    fn check_token(&mut self, target: Token) -> (r: bool)
        requires
            old(self).wf(),
        ensures
            final(self).wf(),
            r ==> final(self).remaining() == old(self).remaining() - 1 && old(self).remaining()
                > 0,
            !r ==> final(self).remaining() == old(self).remaining(),
    {
        let token = self.next_token();
        match token {
            Some(t) => {
                if t == target {
                    true
                } else {
                    self.push_back(Some(t));
                    false
                }
            }
            None => false,
        }
    }

    /// Demands one exact token; anything else is the given error.
    fn require<X>(&mut self, expected: Token, ok: X, error: ParseError) -> (r: Result<
        X,
        ParseError,
    >)
        requires
            old(self).wf(),
        ensures
            final(self).wf(),
            r is Ok ==> final(self).remaining() < old(self).remaining(),
            final(self).remaining() <= old(self).remaining(),
            (r matches Ok(x) ==> x == ok),
    {
        let token = self.next_token();
        match token {
            Some(t) => {
                if t == expected {
                    Ok(ok)
                } else {
                    Err(error)
                }
            }
            None => Err(error),
        }
    }

    fn require_opening_curly<X>(&mut self, ok: X) -> (r: Result<X, ParseError>)
        requires
            old(self).wf(),
        ensures
            final(self).wf(),
            r is Ok ==> final(self).remaining() < old(self).remaining(),
            final(self).remaining() <= old(self).remaining(),
            (r matches Ok(x) ==> x == ok),
    {
        self.require(Token::Symbol('{'), ok, ParseError::MissingOpeningCurly)
    }

    fn require_closing_curly<X>(&mut self, ok: X) -> (r: Result<X, ParseError>)
        requires
            old(self).wf(),
        ensures
            final(self).wf(),
            r is Ok ==> final(self).remaining() < old(self).remaining(),
            final(self).remaining() <= old(self).remaining(),
            (r matches Ok(x) ==> x == ok),
    {
        self.require(Token::Symbol('}'), ok, ParseError::MissingClosingCurly)
    }

    fn require_closing_bracket<X>(&mut self, ok: X) -> (r: Result<X, ParseError>)
        requires
            old(self).wf(),
        ensures
            final(self).wf(),
            r is Ok ==> final(self).remaining() < old(self).remaining(),
            final(self).remaining() <= old(self).remaining(),
            (r matches Ok(x) ==> x == ok),
    {
        self.require(Token::Symbol(']'), ok, ParseError::MissingClosingBracket)
    }

    fn require_opening_paren<X>(&mut self, ok: X) -> (r: Result<X, ParseError>)
        requires
            old(self).wf(),
        ensures
            final(self).wf(),
            r is Ok ==> final(self).remaining() < old(self).remaining(),
            final(self).remaining() <= old(self).remaining(),
            (r matches Ok(x) ==> x == ok),
    {
        self.require(Token::Symbol('('), ok, ParseError::MissingOpeningParen)
    }

    fn require_closing_paren<X>(&mut self, ok: X) -> (r: Result<X, ParseError>)
        requires
            old(self).wf(),
        ensures
            final(self).wf(),
            r is Ok ==> final(self).remaining() < old(self).remaining(),
            final(self).remaining() <= old(self).remaining(),
            (r matches Ok(x) ==> x == ok),
    {
        self.require(Token::Symbol(')'), ok, ParseError::MissingClosingParen)
    }

    fn require_semicolon<X>(&mut self, ok: X) -> (r: Result<X, ParseError>)
        requires
            old(self).wf(),
        ensures
            final(self).wf(),
            r is Ok ==> final(self).remaining() < old(self).remaining(),
            final(self).remaining() <= old(self).remaining(),
            (r matches Ok(x) ==> x == ok),
    {
        self.require(Token::Symbol(';'), ok, ParseError::MissingSemicolon)
    }

    /// The name an identifier token carries; anything else is the given
    /// error.
    fn parse_identifier(&mut self, error: ParseError) -> (r: Result<String, ParseError>)
        requires
            old(self).wf(),
        ensures
            final(self).wf(),
            r is Ok ==> final(self).remaining() < old(self).remaining(),
            final(self).remaining() <= old(self).remaining(),
    {
        let token = self.next_token();
        match token {
            Some(Token::Identifier(s)) => Ok(s),
            _ => Err(error),
        }
    }

    /// A whole class: `class Name { classVarDecl* subroutine* }`, with no
    /// tokens left over.
    pub fn parse_class(&mut self, symbol_table: &mut SymbolTable) -> (r: Result<
        Class,
        ParseError,
    >)
        requires
            old(self).wf(),
            wf_table(*old(symbol_table)),
        ensures
            final(self).wf(),
            wf_table(*final(symbol_table)),
            (r matches Ok(c) ==> final(symbol_table).cur_class() == c.name@ && assoc_find(
                final(symbol_table).classes@,
                c.name@,
            ) is Some),
    {
        if !self.check_token(Token::Keyword(Keyword::Class)) {
            return Err(ParseError::MissingClassDeclaration);
        }
        let name = match self.parse_identifier(ParseError::MissingClassName) {
            Ok(n) => n,
            Err(e) => {
                return Err(e);
            },
        };
        match symbol_table.enter_class(lit(name.as_str())) {
            Ok(()) => (),
            Err(e) => {
                return Err(e);
            },
        }
        match self.require_opening_curly(()) {
            Ok(()) => (),
            Err(e) => {
                return Err(e);
            },
        }
        let vars = match self.parse_class_vars(symbol_table) {
            Ok(v) => v,
            Err(e) => {
                return Err(e);
            },
        };
        let subroutines = match self.parse_subroutines(symbol_table) {
            Ok(s) => s,
            Err(e) => {
                return Err(e);
            },
        };
        let class = Class { name, vars, subroutines };
        match self.require_closing_curly(()) {
            Ok(()) => (),
            Err(e) => {
                return Err(e);
            },
        }
        let token = self.next_token();
        match token {
            Some(token) => Err(ParseError::UnexpectedToken(token)),
            None => Ok(class),
        }
    }

    /// All leading `static` and `field` declarations.
    fn parse_class_vars(&mut self, symbol_table: &mut SymbolTable) -> (r: Result<
        Vec<ClassVarDecl>,
        ParseError,
    >)
        requires
            old(self).wf(),
            wf_table(*old(symbol_table)),
        ensures
            final(self).wf(),
            wf_table(*final(symbol_table)),
            final(symbol_table).cur_class() == old(symbol_table).cur_class(),
            assoc_find(old(symbol_table).classes@, old(symbol_table).cur_class()) is Some
                ==> assoc_find(
                final(symbol_table).classes@,
                old(symbol_table).cur_class(),
            ) is Some,
            final(self).remaining() <= old(self).remaining(),
        decreases old(self).remaining(), 19int,
    {
        let mut class_vars: Vec<ClassVarDecl> = Vec::new();
        let mut done = false;
        while !done
            invariant
                self.wf(),
                wf_table(*symbol_table),
                symbol_table.cur_class() == old(symbol_table).cur_class(),
                assoc_find(old(symbol_table).classes@, old(symbol_table).cur_class()) is Some
                    ==> assoc_find(
                    symbol_table.classes@,
                    old(symbol_table).cur_class(),
                ) is Some,
                self.remaining() <= old(self).remaining(),
            decreases 2 * self.remaining() + (if done {
                0int
            } else {
                1int
            }),
        {
            match self.parse_class_var_decl_opt(symbol_table) {
                Ok(Some(c)) => {
                    class_vars.push(c);
                }
                Ok(None) => {
                    done = true;
                }
                Err(e) => {
                    return Err(e);
                }
            }
        }
        Ok(class_vars)
    }

    /// One `static`/`field` declaration, if one starts here.
    fn parse_class_var_decl_opt(&mut self, symbol_table: &mut SymbolTable) -> (r: Result<
        Option<ClassVarDecl>,
        ParseError,
    >)
        requires
            old(self).wf(),
            wf_table(*old(symbol_table)),
        ensures
            final(self).wf(),
            wf_table(*final(symbol_table)),
            final(symbol_table).cur_class() == old(symbol_table).cur_class(),
            assoc_find(old(symbol_table).classes@, old(symbol_table).cur_class()) is Some
                ==> assoc_find(
                final(symbol_table).classes@,
                old(symbol_table).cur_class(),
            ) is Some,
            final(self).remaining() <= old(self).remaining(),
            r matches Ok(Some(_)) ==> final(self).remaining() < old(self).remaining(),
            r matches Ok(None) ==> final(self).remaining() == old(self).remaining(),
        decreases old(self).remaining(), 18int,
    {
        let decorator = self.parse_class_var_decorator_opt();
        if let Some(decorator) = decorator {
            let (ty, declarations) = match self.parse_var_declarations() {
                Ok(p) => p,
                Err(e) => {
                    return Err(e);
                },
            };
            let mut i: usize = 0;
            while i < declarations.len()
                invariant
                    self.wf(),
                    wf_table(*symbol_table),
                    symbol_table.cur_class() == old(symbol_table).cur_class(),
                    assoc_find(old(symbol_table).classes@, old(symbol_table).cur_class()) is Some
                        ==> assoc_find(
                        symbol_table.classes@,
                        old(symbol_table).cur_class(),
                    ) is Some,
                    self.remaining() < old(self).remaining(),
                decreases declarations@.len() - i,
            {
                match symbol_table.enter_class_var(
                    lit(declarations[i].as_str()),
                    decorator,
                    clone_type(&ty),
                ) {
                    Ok(()) => (),
                    Err(e) => {
                        return Err(e);
                    },
                }
                i += 1;
            }
            Ok(Some(ClassVarDecl { decorator, ty, declarations }))
        } else {
            Ok(None)
        }
    }

    /// A `static` or `field` keyword, if one starts here.
    fn parse_class_var_decorator_opt(&mut self) -> (r: Option<ClassVarDecorator>)
        requires
            old(self).wf(),
        ensures
            final(self).wf(),
            final(self).remaining() <= old(self).remaining(),
            r is Some ==> final(self).remaining() < old(self).remaining(),
            r is None ==> final(self).remaining() == old(self).remaining(),
    {
        let token = self.next_token();
        match token {
            Some(Token::Keyword(Keyword::Static)) => Some(ClassVarDecorator::Static),
            Some(Token::Keyword(Keyword::Field)) => Some(ClassVarDecorator::Field),
            _ => {
                self.push_back(token);
                None
            }
        }
    }

    /// All subroutine declarations.
    fn parse_subroutines(&mut self, symbol_table: &mut SymbolTable) -> (r: Result<
        Vec<Subroutine>,
        ParseError,
    >)
        requires
            old(self).wf(),
            wf_table(*old(symbol_table)),
        ensures
            final(self).wf(),
            wf_table(*final(symbol_table)),
            final(symbol_table).cur_class() == old(symbol_table).cur_class(),
            assoc_find(old(symbol_table).classes@, old(symbol_table).cur_class()) is Some
                ==> assoc_find(
                final(symbol_table).classes@,
                old(symbol_table).cur_class(),
            ) is Some,
            final(self).remaining() <= old(self).remaining(),
        decreases old(self).remaining(), 19int,
    {
        let mut subroutines: Vec<Subroutine> = Vec::new();
        let mut done = false;
        while !done
            invariant
                self.wf(),
                wf_table(*symbol_table),
                symbol_table.cur_class() == old(symbol_table).cur_class(),
                assoc_find(old(symbol_table).classes@, old(symbol_table).cur_class()) is Some
                    ==> assoc_find(
                    symbol_table.classes@,
                    old(symbol_table).cur_class(),
                ) is Some,
                self.remaining() <= old(self).remaining(),
            decreases 2 * self.remaining() + (if done {
                0int
            } else {
                1int
            }),
        {
            match self.parse_subroutine_opt(symbol_table) {
                Ok(Some(s)) => {
                    subroutines.push(s);
                }
                Ok(None) => {
                    done = true;
                }
                Err(e) => {
                    return Err(e);
                }
            }
        }
        Ok(subroutines)
    }

    /// One subroutine, if one starts here.
    fn parse_subroutine_opt(&mut self, symbol_table: &mut SymbolTable) -> (r: Result<
        Option<Subroutine>,
        ParseError,
    >)
        requires
            old(self).wf(),
            wf_table(*old(symbol_table)),
        ensures
            final(self).wf(),
            wf_table(*final(symbol_table)),
            final(symbol_table).cur_class() == old(symbol_table).cur_class(),
            assoc_find(old(symbol_table).classes@, old(symbol_table).cur_class()) is Some
                ==> assoc_find(
                final(symbol_table).classes@,
                old(symbol_table).cur_class(),
            ) is Some,
            final(self).remaining() <= old(self).remaining(),
            r matches Ok(Some(_)) ==> final(self).remaining() < old(self).remaining(),
            r matches Ok(None) ==> final(self).remaining() == old(self).remaining(),
        decreases old(self).remaining(), 18int,
    {
        let decorator = self.parse_subroutine_decorator_opt();
        if let Some(decorator) = decorator {
            let ty = if self.check_token(Token::Keyword(Keyword::Void)) {
                None
            } else {
                match self.parse_type() {
                    Ok(t) => Some(t),
                    Err(e) => {
                        return Err(e);
                    },
                }
            };
            let name = match self.parse_identifier(ParseError::MissingSubroutineName) {
                Ok(n) => n,
                Err(e) => {
                    return Err(e);
                },
            };
            let tyc = match &ty {
                Some(t) => Some(clone_type(t)),
                None => None,
            };
            match symbol_table.enter_subroutine(lit(name.as_str()), decorator, tyc) {
                Ok(()) => (),
                Err(e) => {
                    return Err(e);
                },
            }
            let params = match self.parse_params(symbol_table) {
                Ok(p) => p,
                Err(e) => {
                    return Err(e);
                },
            };
            match self.require_opening_curly(()) {
                Ok(()) => (),
                Err(e) => {
                    return Err(e);
                },
            }
            let vars = match self.parse_subroutine_vars(symbol_table) {
                Ok(v) => v,
                Err(e) => {
                    return Err(e);
                },
            };
            let statements = match self.parse_statement_list() {
                Ok(s) => s,
                Err(e) => {
                    return Err(e);
                },
            };
            match self.require_closing_curly(()) {
                Ok(()) => (),
                Err(e) => {
                    return Err(e);
                },
            }
            Ok(Some(Subroutine { decorator, ty, name, params, vars, statements }))
        } else {
            Ok(None)
        }
    }

    /// A `constructor`, `function`, or `method` keyword, if one starts here.
    fn parse_subroutine_decorator_opt(&mut self) -> (r: Option<SubroutineDecorator>)
        requires
            old(self).wf(),
        ensures
            final(self).wf(),
            final(self).remaining() <= old(self).remaining(),
            r is Some ==> final(self).remaining() < old(self).remaining(),
            r is None ==> final(self).remaining() == old(self).remaining(),
    {
        let token = self.next_token();
        match token {
            Some(Token::Keyword(Keyword::Constructor)) => Some(SubroutineDecorator::Constructor),
            Some(Token::Keyword(Keyword::Function)) => Some(SubroutineDecorator::Function),
            Some(Token::Keyword(Keyword::Method)) => Some(SubroutineDecorator::Method),
            _ => {
                self.push_back(token);
                None
            }
        }
    }

    /// The parenthesized parameter list of a subroutine.
    fn parse_params(&mut self, symbol_table: &mut SymbolTable) -> (r: Result<
        Vec<ParamDecl>,
        ParseError,
    >)
        requires
            old(self).wf(),
            wf_table(*old(symbol_table)),
        ensures
            final(self).wf(),
            wf_table(*final(symbol_table)),
            final(symbol_table).cur_class() == old(symbol_table).cur_class(),
            assoc_find(old(symbol_table).classes@, old(symbol_table).cur_class()) is Some
                ==> assoc_find(
                final(symbol_table).classes@,
                old(symbol_table).cur_class(),
            ) is Some,
            final(self).remaining() <= old(self).remaining(),
        decreases old(self).remaining(), 16int,
    {
        match self.require_opening_paren(()) {
            Ok(()) => (),
            Err(e) => {
                return Err(e);
            },
        }
        let mut params: Vec<ParamDecl> = Vec::new();
        if self.check_token(Token::Symbol(')')) {
            return Ok(params);
        }
        let param = match self.parse_param(symbol_table) {
            Ok(p) => p,
            Err(e) => {
                return Err(e);
            },
        };
        params.push(param);
        let mut done = false;
        while !done
            invariant
                self.wf(),
                wf_table(*symbol_table),
                symbol_table.cur_class() == old(symbol_table).cur_class(),
                assoc_find(old(symbol_table).classes@, old(symbol_table).cur_class()) is Some
                    ==> assoc_find(
                    symbol_table.classes@,
                    old(symbol_table).cur_class(),
                ) is Some,
                self.remaining() <= old(self).remaining(),
            decreases 2 * self.remaining() + (if done {
                0int
            } else {
                1int
            }),
        {
            if !self.check_token(Token::Symbol(',')) {
                done = true;
            } else {
                let param = match self.parse_param(symbol_table) {
                    Ok(p) => p,
                    Err(e) => {
                        return Err(e);
                    },
                };
                params.push(param);
            }
        }
        self.require_closing_paren(params)
    }

    /// One parameter: a type and a name, entered as an argument.
    fn parse_param(&mut self, symbol_table: &mut SymbolTable) -> (r: Result<ParamDecl, ParseError>)
        requires
            old(self).wf(),
            wf_table(*old(symbol_table)),
        ensures
            final(self).wf(),
            wf_table(*final(symbol_table)),
            final(symbol_table).cur_class() == old(symbol_table).cur_class(),
            assoc_find(old(symbol_table).classes@, old(symbol_table).cur_class()) is Some
                ==> assoc_find(
                final(symbol_table).classes@,
                old(symbol_table).cur_class(),
            ) is Some,
            final(self).remaining() <= old(self).remaining(),
            r is Ok ==> final(self).remaining() < old(self).remaining(),
        decreases old(self).remaining(), 15int,
    {
        let ty = match self.parse_type() {
            Ok(t) => t,
            Err(e) => {
                return Err(e);
            },
        };
        let name = match self.parse_identifier(ParseError::MissingVariable) {
            Ok(n) => n,
            Err(e) => {
                return Err(e);
            },
        };
        match symbol_table.enter_arg(lit(name.as_str()), clone_type(&ty)) {
            Ok(()) => (),
            Err(e) => {
                return Err(e);
            },
        }
        Ok(ParamDecl { ty, name })
    }

    /// All leading `var` declarations of a subroutine body.
    fn parse_subroutine_vars(&mut self, symbol_table: &mut SymbolTable) -> (r: Result<
        Vec<SubroutineVarDecl>,
        ParseError,
    >)
        requires
            old(self).wf(),
            wf_table(*old(symbol_table)),
        ensures
            final(self).wf(),
            wf_table(*final(symbol_table)),
            final(symbol_table).cur_class() == old(symbol_table).cur_class(),
            assoc_find(old(symbol_table).classes@, old(symbol_table).cur_class()) is Some
                ==> assoc_find(
                final(symbol_table).classes@,
                old(symbol_table).cur_class(),
            ) is Some,
            final(self).remaining() <= old(self).remaining(),
        decreases old(self).remaining(), 16int,
    {
        let mut subroutine_vars: Vec<SubroutineVarDecl> = Vec::new();
        let mut done = false;
        while !done
            invariant
                self.wf(),
                wf_table(*symbol_table),
                symbol_table.cur_class() == old(symbol_table).cur_class(),
                assoc_find(old(symbol_table).classes@, old(symbol_table).cur_class()) is Some
                    ==> assoc_find(
                    symbol_table.classes@,
                    old(symbol_table).cur_class(),
                ) is Some,
                self.remaining() <= old(self).remaining(),
            decreases 2 * self.remaining() + (if done {
                0int
            } else {
                1int
            }),
        {
            if !self.check_token(Token::Keyword(Keyword::Var)) {
                done = true;
            } else {
                match self.parse_subroutine_var_decl(symbol_table) {
                    Ok(d) => {
                        subroutine_vars.push(d);
                    }
                    Err(e) => {
                        return Err(e);
                    }
                }
            }
        }
        Ok(subroutine_vars)
    }

    /// One `var` declaration line, entered as locals.
    fn parse_subroutine_var_decl(&mut self, symbol_table: &mut SymbolTable) -> (r: Result<
        SubroutineVarDecl,
        ParseError,
    >)
        requires
            old(self).wf(),
            wf_table(*old(symbol_table)),
        ensures
            final(self).wf(),
            wf_table(*final(symbol_table)),
            final(symbol_table).cur_class() == old(symbol_table).cur_class(),
            assoc_find(old(symbol_table).classes@, old(symbol_table).cur_class()) is Some
                ==> assoc_find(
                final(symbol_table).classes@,
                old(symbol_table).cur_class(),
            ) is Some,
            final(self).remaining() <= old(self).remaining(),
        decreases old(self).remaining(), 15int,
    {
        let (ty, declarations) = match self.parse_var_declarations() {
            Ok(p) => p,
            Err(e) => {
                return Err(e);
            },
        };
        let mut i: usize = 0;
        while i < declarations.len()
            invariant
                self.wf(),
                wf_table(*symbol_table),
                symbol_table.cur_class() == old(symbol_table).cur_class(),
                assoc_find(old(symbol_table).classes@, old(symbol_table).cur_class()) is Some
                    ==> assoc_find(
                    symbol_table.classes@,
                    old(symbol_table).cur_class(),
                ) is Some,
                symbol_table.cur_class() == old(symbol_table).cur_class(),
                assoc_find(old(symbol_table).classes@, old(symbol_table).cur_class()) is Some
                    ==> assoc_find(
                    symbol_table.classes@,
                    old(symbol_table).cur_class(),
                ) is Some,
                self.remaining() <= old(self).remaining(),
            decreases declarations@.len() - i,
        {
            match symbol_table.enter_local(lit(declarations[i].as_str()), clone_type(&ty)) {
                Ok(()) => (),
                Err(e) => {
                    return Err(e);
                },
            }
            i += 1;
        }
        Ok(SubroutineVarDecl { ty, declarations })
    }

    /// A type and a comma-separated list of names, ended by a semicolon.
    fn parse_var_declarations(&mut self) -> (r: Result<(Type, Vec<String>), ParseError>)
        requires
            old(self).wf(),
        ensures
            final(self).wf(),
            final(self).remaining() <= old(self).remaining(),
        decreases old(self).remaining(), 14int,
    {
        let ty = match self.parse_type() {
            Ok(t) => t,
            Err(e) => {
                return Err(e);
            },
        };
        let first_var = match self.parse_identifier(ParseError::MissingVariable) {
            Ok(n) => n,
            Err(e) => {
                return Err(e);
            },
        };
        let mut vars: Vec<String> = Vec::new();
        vars.push(first_var);
        let mut done = false;
        while !done
            invariant
                self.wf(),
                self.remaining() <= old(self).remaining(),
            decreases 2 * self.remaining() + (if done {
                0int
            } else {
                1int
            }),
        {
            if !self.check_token(Token::Symbol(',')) {
                done = true;
            } else {
                match self.parse_identifier(ParseError::MissingVariable) {
                    Ok(v) => {
                        vars.push(v);
                    }
                    Err(e) => {
                        return Err(e);
                    }
                }
            }
        }
        self.require_semicolon((ty, vars))
    }

    /// A type: `int`, `char`, `boolean`, or a class name.
    fn parse_type(&mut self) -> (r: Result<Type, ParseError>)
        requires
            old(self).wf(),
        ensures
            final(self).wf(),
            final(self).remaining() <= old(self).remaining(),
            r is Ok ==> final(self).remaining() < old(self).remaining(),
    {
        let token = self.next_token();
        match token {
            Some(Token::Keyword(Keyword::Int)) => Ok(Type::Int),
            Some(Token::Keyword(Keyword::Char)) => Ok(Type::Char),
            Some(Token::Keyword(Keyword::Boolean)) => Ok(Type::Boolean),
            Some(Token::Identifier(s)) => Ok(Type::Class(s)),
            _ => Err(ParseError::MissingType),
        }
    }

    /// A `{ statements }` block.
    fn parse_statement_block(&mut self) -> (r: Result<Vec<Statement>, ParseError>)
        requires
            old(self).wf(),
        ensures
            final(self).wf(),
            final(self).remaining() <= old(self).remaining(),
            r is Ok ==> final(self).remaining() < old(self).remaining(),
        decreases old(self).remaining(), 12int,
    {
        match self.require_opening_curly(()) {
            Ok(()) => (),
            Err(e) => {
                return Err(e);
            },
        }
        let statements = match self.parse_statement_list() {
            Ok(s) => s,
            Err(e) => {
                return Err(e);
            },
        };
        self.require_closing_curly(statements)
    }

    /// Statements until something that is not a statement keyword.
    fn parse_statement_list(&mut self) -> (r: Result<Vec<Statement>, ParseError>)
        requires
            old(self).wf(),
        ensures
            final(self).wf(),
            final(self).remaining() <= old(self).remaining(),
        decreases old(self).remaining(), 11int,
    {
        let mut statements: Vec<Statement> = Vec::new();
        let mut done = false;
        while !done
            invariant
                self.wf(),
                self.remaining() <= old(self).remaining(),
            decreases 2 * self.remaining() + (if done {
                0int
            } else {
                1int
            }),
        {
            match self.parse_statement_opt() {
                Ok(Some(statement)) => {
                    statements.push(statement);
                }
                Ok(None) => {
                    done = true;
                }
                Err(e) => {
                    return Err(e);
                }
            }
        }
        Ok(statements)
    }

    /// One statement, if one starts here.
    fn parse_statement_opt(&mut self) -> (r: Result<Option<Statement>, ParseError>)
        requires
            old(self).wf(),
        ensures
            final(self).wf(),
            final(self).remaining() <= old(self).remaining(),
            r matches Ok(Some(_)) ==> final(self).remaining() < old(self).remaining(),
            r matches Ok(None) ==> final(self).remaining() == old(self).remaining(),
        decreases old(self).remaining(), 10int,
    {
        let token = self.next_token();
        match token {
            Some(Token::Keyword(Keyword::Let)) => optionalize(self.parse_let_statement()),
            Some(Token::Keyword(Keyword::If)) => optionalize(self.parse_if_statement()),
            Some(Token::Keyword(Keyword::While)) => optionalize(self.parse_while_statement()),
            Some(Token::Keyword(Keyword::Do)) => optionalize(self.parse_do_statement()),
            Some(Token::Keyword(Keyword::Return)) => optionalize(self.parse_return_statement()),
            _ => {
                self.push_back(token);
                Ok(None)
            }
        }
    }

    /// `let name[index] = expr;`, the keyword already read.
    fn parse_let_statement(&mut self) -> (r: Result<Statement, ParseError>)
        requires
            old(self).wf(),
        ensures
            final(self).wf(),
            final(self).remaining() <= old(self).remaining(),
        decreases old(self).remaining(), 9int,
    {
        let name = match self.parse_identifier(ParseError::MissingVariable) {
            Ok(n) => n,
            Err(e) => {
                return Err(e);
            },
        };
        let index = if self.check_token(Token::Symbol('[')) {
            let expr = match self.parse_expr() {
                Ok(e) => e,
                Err(e) => {
                    return Err(e);
                },
            };
            match self.require_closing_bracket(expr) {
                Ok(e) => Some(e),
                Err(e) => {
                    return Err(e);
                },
            }
        } else {
            None
        };
        match self.require(Token::Symbol('='), (), ParseError::MissingEquals) {
            Ok(()) => (),
            Err(e) => {
                return Err(e);
            },
        }
        let expr = match self.parse_expr() {
            Ok(e) => e,
            Err(e) => {
                return Err(e);
            },
        };
        let st = Statement::Let { name, index, expr };
        self.require_semicolon(st)
    }

    /// `if (cond) { ... } else { ... }`, the keyword already read.
    fn parse_if_statement(&mut self) -> (r: Result<Statement, ParseError>)
        requires
            old(self).wf(),
        ensures
            final(self).wf(),
            final(self).remaining() <= old(self).remaining(),
        decreases old(self).remaining(), 9int,
    {
        let condition = match self.parse_bracketed_expr() {
            Ok(c) => c,
            Err(e) => {
                return Err(e);
            },
        };
        let statements = match self.parse_statement_block() {
            Ok(s) => s,
            Err(e) => {
                return Err(e);
            },
        };
        let else_statements = if self.check_token(Token::Keyword(Keyword::Else)) {
            match self.parse_statement_block() {
                Ok(s) => Some(s),
                Err(e) => {
                    return Err(e);
                },
            }
        } else {
            None
        };
        Ok(Statement::If { condition, statements, else_statements })
    }

    /// `while (cond) { ... }`, the keyword already read.
    fn parse_while_statement(&mut self) -> (r: Result<Statement, ParseError>)
        requires
            old(self).wf(),
        ensures
            final(self).wf(),
            final(self).remaining() <= old(self).remaining(),
        decreases old(self).remaining(), 9int,
    {
        let condition = match self.parse_bracketed_expr() {
            Ok(c) => c,
            Err(e) => {
                return Err(e);
            },
        };
        let statements = match self.parse_statement_block() {
            Ok(s) => s,
            Err(e) => {
                return Err(e);
            },
        };
        Ok(Statement::While { condition, statements })
    }

    /// `do call;`, the keyword already read; the expression must be a bare
    /// subroutine call.
    fn parse_do_statement(&mut self) -> (r: Result<Statement, ParseError>)
        requires
            old(self).wf(),
        ensures
            final(self).wf(),
            final(self).remaining() <= old(self).remaining(),
            (match r {
                Ok(st) => st matches Statement::Do { expr } && (*expr.term) matches
                    Term::SubroutineCall { .. } && expr.ops@.len() == 0,
                Err(_) => true,
            }),
        decreases old(self).remaining(), 9int,
    {
        let expr = match self.parse_expr() {
            Ok(e) => e,
            Err(e) => {
                return Err(e);
            },
        };
        let is_call = match &*expr.term {
            Term::SubroutineCall { .. } => true,
            _ => false,
        };
        if is_call && expr.ops.len() == 0 {
            let st = Statement::Do { expr };
            self.require_semicolon(st)
        } else {
            Err(ParseError::DoStatementMustBeSubroutineCall)
        }
    }

    /// `return expr?;`, the keyword already read.
    fn parse_return_statement(&mut self) -> (r: Result<Statement, ParseError>)
        requires
            old(self).wf(),
        ensures
            final(self).wf(),
            final(self).remaining() <= old(self).remaining(),
        decreases old(self).remaining(), 9int,
    {
        let expr = match self.parse_expr_opt() {
            Ok(e) => e,
            Err(e) => {
                return Err(e);
            },
        };
        let st = Statement::Return { expr };
        self.require_semicolon(st)
    }

    /// An expression; its absence is an error.
    fn parse_expr(&mut self) -> (r: Result<Expr, ParseError>)
        requires
            old(self).wf(),
        ensures
            final(self).wf(),
            final(self).remaining() <= old(self).remaining(),
            r is Ok ==> final(self).remaining() < old(self).remaining(),
        decreases old(self).remaining(), 7int,
    {
        let expr = match self.parse_expr_opt() {
            Ok(e) => e,
            Err(e) => {
                return Err(e);
            },
        };
        match expr {
            Some(expr) => Ok(expr),
            None => Err(ParseError::MissingExpr),
        }
    }

    /// An expression, if one starts here: a term, then (op, term) pairs.
    fn parse_expr_opt(&mut self) -> (r: Result<Option<Expr>, ParseError>)
        requires
            old(self).wf(),
        ensures
            final(self).wf(),
            final(self).remaining() <= old(self).remaining(),
            r matches Ok(Some(_)) ==> final(self).remaining() < old(self).remaining(),
            r matches Ok(None) ==> final(self).remaining() == old(self).remaining(),
        decreases old(self).remaining(), 6int,
    {
        let term = match self.parse_term_opt() {
            Ok(t) => t,
            Err(e) => {
                return Err(e);
            },
        };
        let term = match term {
            None => {
                return Ok(None);
            },
            Some(t) => t,
        };
        let mut ops: Vec<(Op, Term)> = Vec::new();
        let mut done = false;
        let mut result: Option<Expr> = None;
        while !done
            invariant
                self.wf(),
                self.remaining() < old(self).remaining(),
            decreases 2 * self.remaining() + (if done {
                0int
            } else {
                1int
            }),
        {
            let token = self.next_token();
            let op = match token {
                Some(Token::Symbol('+')) => Some(Op::Add),
                Some(Token::Symbol('-')) => Some(Op::Sub),
                Some(Token::Symbol('*')) => Some(Op::Mult),
                Some(Token::Symbol('/')) => Some(Op::Div),
                Some(Token::Symbol('&')) => Some(Op::And),
                Some(Token::Symbol('|')) => Some(Op::Or),
                Some(Token::Symbol('<')) => Some(Op::Lt),
                Some(Token::Symbol('>')) => Some(Op::Gt),
                Some(Token::Symbol('=')) => Some(Op::Eq),
                _ => None,
            };
            match op {
                Some(op) => {
                    let term = match self.parse_term() {
                        Ok(t) => t,
                        Err(e) => {
                            return Err(e);
                        },
                    };
                    ops.push((op, term));
                }
                None => {
                    self.push_back(token);
                    done = true;
                }
            }
        }
        Ok(Some(Expr { term: Box::new(term), ops }))
    }

    /// A term; its absence is an error.
    fn parse_term(&mut self) -> (r: Result<Term, ParseError>)
        requires
            old(self).wf(),
        ensures
            final(self).wf(),
            final(self).remaining() <= old(self).remaining(),
            r is Ok ==> final(self).remaining() < old(self).remaining(),
        decreases old(self).remaining(), 5int,
    {
        let term = match self.parse_term_opt() {
            Ok(t) => t,
            Err(e) => {
                return Err(e);
            },
        };
        match term {
            Some(term) => Ok(term),
            None => Err(ParseError::MissingExpr),
        }
    }

    /// A term, if one starts here, decided by its first token; an identifier
    /// is disambiguated by what follows it.
    fn parse_term_opt(&mut self) -> (r: Result<Option<Term>, ParseError>)
        requires
            old(self).wf(),
        ensures
            final(self).wf(),
            final(self).remaining() <= old(self).remaining(),
            r matches Ok(Some(_)) ==> final(self).remaining() < old(self).remaining(),
            r matches Ok(None) ==> final(self).remaining() == old(self).remaining(),
        decreases old(self).remaining(), 4int,
    {
        let token = self.next_token();
        match token {
            Some(Token::IntegerLiteral(n)) => Ok(Some(Term::IntegerLit(n))),
            Some(Token::StringLiteral(s)) => Ok(Some(Term::StringLit(s))),
            Some(Token::Keyword(Keyword::True)) => Ok(Some(Term::True)),
            Some(Token::Keyword(Keyword::False)) => Ok(Some(Term::False)),
            Some(Token::Keyword(Keyword::Null)) => Ok(Some(Term::Null)),
            Some(Token::Keyword(Keyword::This)) => Ok(Some(Term::This)),
            Some(Token::Symbol('-')) => optionalize(self.parse_unary(UnaryOp::Neg)),
            Some(Token::Symbol('~')) => optionalize(self.parse_unary(UnaryOp::Not)),
            Some(Token::Symbol('(')) => optionalize(self.parse_bracketed_term()),
            Some(Token::Identifier(s)) => optionalize(self.parse_var_or_call(s)),
            _ => {
                self.push_back(token);
                Ok(None)
            }
        }
    }

    /// A negated or inverted term, the operator already read.
    fn parse_unary(&mut self, op: UnaryOp) -> (r: Result<Term, ParseError>)
        requires
            old(self).wf(),
        ensures
            final(self).wf(),
            final(self).remaining() <= old(self).remaining(),
        decreases old(self).remaining(), 9int,
    {
        let term = match self.parse_term() {
            Ok(t) => t,
            Err(e) => {
                return Err(e);
            },
        };
        Ok(Term::Unary(op, Box::new(term)))
    }

    /// A parenthesized expression as a term, the `(` already read.
    fn parse_bracketed_term(&mut self) -> (r: Result<Term, ParseError>)
        requires
            old(self).wf(),
        ensures
            final(self).wf(),
            final(self).remaining() <= old(self).remaining(),
        decreases old(self).remaining(), 9int,
    {
        let expr = match self.parse_expr() {
            Ok(e) => e,
            Err(e) => {
                return Err(e);
            },
        };
        match self.require_closing_paren(expr) {
            Ok(e) => Ok(Term::Bracketed(e)),
            Err(e) => Err(e),
        }
    }

    /// `( expr )`.
    fn parse_bracketed_expr(&mut self) -> (r: Result<Expr, ParseError>)
        requires
            old(self).wf(),
        ensures
            final(self).wf(),
            final(self).remaining() <= old(self).remaining(),
            r is Ok ==> final(self).remaining() < old(self).remaining(),
        decreases old(self).remaining(), 8int,
    {
        match self.require_opening_paren(()) {
            Ok(()) => (),
            Err(e) => {
                return Err(e);
            },
        }
        let expr = match self.parse_expr() {
            Ok(e) => e,
            Err(e) => {
                return Err(e);
            },
        };
        self.require_closing_paren(expr)
    }

    /// After an identifier: a qualified call, a plain call, an indexed
    /// variable, or a plain variable, decided by the next token.
    fn parse_var_or_call(&mut self, s: String) -> (r: Result<Term, ParseError>)
        requires
            old(self).wf(),
        ensures
            final(self).wf(),
            final(self).remaining() <= old(self).remaining(),
        decreases old(self).remaining(), 9int,
    {
        let token = self.next_token();
        match token {
            Some(Token::Symbol('.')) => self.parse_qualified_subroutine_call(s),
            Some(Token::Symbol('(')) => self.parse_subroutine_call(None, s),
            Some(Token::Symbol('[')) => self.parse_indexed_var_term(s),
            _ => {
                self.push_back(token);
                Ok(Term::Var { name: s, index: None })
            }
        }
    }

    /// `qualifier.name(args)`, the dot already read.
    fn parse_qualified_subroutine_call(&mut self, qualifier: String) -> (r: Result<
        Term,
        ParseError,
    >)
        requires
            old(self).wf(),
        ensures
            final(self).wf(),
            final(self).remaining() <= old(self).remaining(),
        decreases old(self).remaining(), 9int,
    {
        let name = match self.parse_identifier(ParseError::MissingSubroutineName) {
            Ok(n) => n,
            Err(e) => {
                return Err(e);
            },
        };
        match self.require_opening_paren(()) {
            Ok(()) => (),
            Err(e) => {
                return Err(e);
            },
        }
        self.parse_subroutine_call(Some(qualifier), name)
    }

    /// The argument list and closing parenthesis of a call, the opening
    /// parenthesis already read.
    fn parse_subroutine_call(&mut self, qualifier: Option<String>, name: String) -> (r: Result<
        Term,
        ParseError,
    >)
        requires
            old(self).wf(),
        ensures
            final(self).wf(),
            final(self).remaining() <= old(self).remaining(),
        decreases old(self).remaining(), 9int,
    {
        let exprs = match self.parse_expr_list() {
            Ok(e) => e,
            Err(e) => {
                return Err(e);
            },
        };
        let term = Term::SubroutineCall { qualifier, name, exprs };
        self.require_closing_paren(term)
    }

    /// `name[expr]`, the bracket already read.
    fn parse_indexed_var_term(&mut self, var: String) -> (r: Result<Term, ParseError>)
        requires
            old(self).wf(),
        ensures
            final(self).wf(),
            final(self).remaining() <= old(self).remaining(),
        decreases old(self).remaining(), 9int,
    {
        let expr = match self.parse_index_expr() {
            Ok(e) => e,
            Err(e) => {
                return Err(e);
            },
        };
        Ok(Term::Var { name: var, index: Some(expr) })
    }

    /// The expression and closing bracket of an index.
    fn parse_index_expr(&mut self) -> (r: Result<Expr, ParseError>)
        requires
            old(self).wf(),
        ensures
            final(self).wf(),
            final(self).remaining() <= old(self).remaining(),
        decreases old(self).remaining(), 8int,
    {
        let expr = match self.parse_expr() {
            Ok(e) => e,
            Err(e) => {
                return Err(e);
            },
        };
        self.require_closing_bracket(expr)
    }

    /// A comma-separated list of expressions, possibly empty.
    fn parse_expr_list(&mut self) -> (r: Result<Vec<Expr>, ParseError>)
        requires
            old(self).wf(),
        ensures
            final(self).wf(),
            final(self).remaining() <= old(self).remaining(),
        decreases old(self).remaining(), 8int,
    {
        let mut exprs: Vec<Expr> = Vec::new();
        let expr = match self.parse_expr_opt() {
            Ok(e) => e,
            Err(e) => {
                return Err(e);
            },
        };
        match expr {
            None => Ok(exprs),
            Some(expr) => {
                exprs.push(expr);
                let mut done = false;
                while !done
                    invariant
                        self.wf(),
                        self.remaining() < old(self).remaining(),
                    decreases 2 * self.remaining() + (if done {
                        0int
                    } else {
                        1int
                    }),
                {
                    if self.check_token(Token::Symbol(',')) {
                        match self.parse_expr() {
                            Ok(e) => {
                                exprs.push(e);
                            }
                            Err(e) => {
                                return Err(e);
                            }
                        }
                    } else {
                        done = true;
                    }
                }
                Ok(exprs)
            }
        }
    }
}

/// A successful parse wrapped as an optional one.
fn optionalize<X>(result: Result<X, ParseError>) -> (r: Result<Option<X>, ParseError>)
    ensures
        match result {
            Ok(_) => r matches Ok(Some(_)),
            Err(_) => r is Err,
        },
{
    match result {
        Ok(x) => Ok(Some(x)),
        Err(e) => Err(e),
    }
}

/// A copy of a token.
fn clone_token(t: &Token) -> (r: Token)
    ensures
        r@ == t@,
{
    match t {
        Token::IntegerLiteral(n) => Token::IntegerLiteral(*n),
        Token::StringLiteral(s) => Token::StringLiteral(lit(s.as_str())),
        Token::Identifier(s) => Token::Identifier(lit(s.as_str())),
        Token::Symbol(c) => Token::Symbol(*c),
        Token::Keyword(k) => Token::Keyword(*k),
    }
}

} // verus!
