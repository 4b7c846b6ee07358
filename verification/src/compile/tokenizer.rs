//! The Jack tokenizer: a character-by-character state machine with one
//! character of push-back, nested block comments, and keyword recognition.

use vstd::prelude::*;

use crate::text::{all_dec_digits, chars_to_string, dec_val, is_space_char};

verus! {

/// A Jack keyword.
#[derive(Debug, PartialEq, Eq, Structural, Copy, Clone)]
pub enum Keyword {
    Boolean,
    Char,
    Class,
    Constructor,
    Do,
    Else,
    False,
    Field,
    Function,
    If,
    Int,
    Let,
    Method,
    Null,
    Return,
    Static,
    This,
    True,
    Var,
    Void,
    While,
}

/// One Jack token.
#[derive(Debug, Eq)]
pub enum Token {
    IntegerLiteral(u16),
    StringLiteral(String),
    Identifier(String),
    Symbol(char),
    Keyword(Keyword),
}

/// The mathematical value of a `Token`.
pub enum TokenV {
    IntegerLiteral(u16),
    StringLiteral(Seq<char>),
    Identifier(Seq<char>),
    Symbol(char),
    Keyword(Keyword),
}

impl View for Token {
    type V = TokenV;

    open spec fn view(&self) -> TokenV {
        match self {
            Token::IntegerLiteral(n) => TokenV::IntegerLiteral(*n),
            Token::StringLiteral(s) => TokenV::StringLiteral(s@),
            Token::Identifier(s) => TokenV::Identifier(s@),
            Token::Symbol(c) => TokenV::Symbol(*c),
            Token::Keyword(k) => TokenV::Keyword(*k),
        }
    }
}

impl PartialEq for Token {
    fn eq(&self, other: &Token) -> (r: bool) {
        match (self, other) {
            (Token::IntegerLiteral(a), Token::IntegerLiteral(b)) => *a == *b,
            (Token::StringLiteral(a), Token::StringLiteral(b)) => crate::text::str_eq(
                a.as_str(),
                b.as_str(),
            ),
            (Token::Identifier(a), Token::Identifier(b)) => crate::text::str_eq(
                a.as_str(),
                b.as_str(),
            ),
            (Token::Symbol(a), Token::Symbol(b)) => *a == *b,
            (Token::Keyword(a), Token::Keyword(b)) => {
                let x: Keyword = *a;
                let y: Keyword = *b;
                x == y
            },
            _ => false,
        }
    }
}

impl vstd::std_specs::cmp::PartialEqSpecImpl for Token {
    open spec fn obeys_eq_spec() -> bool {
        true
    }

    open spec fn eq_spec(&self, other: &Token) -> bool {
        match (self, other) {
            (Token::IntegerLiteral(a), Token::IntegerLiteral(b)) => a == b,
            (Token::StringLiteral(a), Token::StringLiteral(b)) => a@ == b@,
            (Token::Identifier(a), Token::Identifier(b)) => a@ == b@,
            (Token::Symbol(a), Token::Symbol(b)) => a == b,
            (Token::Keyword(a), Token::Keyword(b)) => a == b,
            _ => false,
        }
    }
}

/// What can go wrong while tokenizing; each error quotes the offending text.
#[derive(Debug, PartialEq, Eq)]
pub enum TokenError {
    UnclosedComment(String),
    UnclosedString(String),
    InvalidIdentifier(String),
    IntegerOutOfRange(String),
}

/// The mathematical value of a `TokenError`.
pub enum TokenErrorV {
    UnclosedComment(Seq<char>),
    UnclosedString(Seq<char>),
    InvalidIdentifier(Seq<char>),
    IntegerOutOfRange(Seq<char>),
}

impl View for TokenError {
    type V = TokenErrorV;

    open spec fn view(&self) -> TokenErrorV {
        match self {
            TokenError::UnclosedComment(s) => TokenErrorV::UnclosedComment(s@),
            TokenError::UnclosedString(s) => TokenErrorV::UnclosedString(s@),
            TokenError::InvalidIdentifier(s) => TokenErrorV::InvalidIdentifier(s@),
            TokenError::IntegerOutOfRange(s) => TokenErrorV::IntegerOutOfRange(s@),
        }
    }
}

/// The view of one tokenizer answer.
pub open spec fn tok_v(r: Option<Result<Token, TokenError>>) -> Option<
    Result<TokenV, TokenErrorV>,
> {
    match r {
        None => None,
        Some(Ok(t)) => Some(Ok(t@)),
        Some(Err(e)) => Some(Err(e@)),
    }
}

/// The category of one input character.
#[derive(Debug, PartialEq, Eq, Structural, Copy, Clone)]
pub enum Category {
    Letter(char),
    OtherCharacter(char),
    Number(char),
    Symbol(char),
    WhiteSpace(char),
    Eof,
    Quote,
    Underscore,
}

/// The state of the scanner between characters.
#[derive(Debug, PartialEq, Eq, Structural, Copy, Clone)]
pub enum State {
    Fresh,
    PossibleCommentStart(usize),
    PossibleCommentEnd(usize),
    LineComment,
    BlockComment(usize),
    IdentifierOrKeyword,
    Integer,
    InString,
    Eof,
    InvalidIdentifier,
}

/// Whether a character is one of the nineteen Jack symbols.
pub open spec fn is_jack_symbol(c: char) -> bool {
    c == '{' || c == '}' || c == '(' || c == ')' || c == '[' || c == ']' || c == '.' || c == ','
        || c == ';' || c == '+' || c == '-' || c == '*' || c == '<' || c == '&' || c == '>' || c
        == '|' || c == '=' || c == '~' || c == '/'
}

/// Whether a character is an ASCII letter.
pub open spec fn is_letter(c: char) -> bool {
    (65 <= c as u32 <= 90) || (97 <= c as u32 <= 122)
}

/// The category of a character: blanks, the quote, the underscore, the Jack
/// symbols, digits, letters, and everything else, in that order.
pub open spec fn categorize(c: char) -> Category {
    if is_space_char(c) {
        Category::WhiteSpace(c)
    } else if c == '"' {
        Category::Quote
    } else if c == '_' {
        Category::Underscore
    } else if is_jack_symbol(c) {
        Category::Symbol(c)
    } else if crate::text::is_dec_digit(c) {
        Category::Number(c)
    } else if is_letter(c) {
        Category::Letter(c)
    } else {
        Category::OtherCharacter(c)
    }
}

/// The character a category stands for; the end of input stands for NUL.
pub open spec fn spec_category_char(cat: Category) -> char {
    match cat {
        Category::Letter(c) => c,
        Category::OtherCharacter(c) => c,
        Category::Number(c) => c,
        Category::Symbol(c) => c,
        Category::WhiteSpace(c) => c,
        Category::Eof => '\0',
        Category::Quote => '"',
        Category::Underscore => '_',
    }
}

impl Category {
    /// The character this category stands for.
    pub fn character(&self) -> (r: char)
        ensures
            r == spec_category_char(*self),
    {
        match self {
            Category::Letter(c) => *c,
            Category::OtherCharacter(c) => *c,
            Category::Number(c) => *c,
            Category::Symbol(c) => *c,
            Category::WhiteSpace(c) => *c,
            Category::Eof => '\0',
            Category::Quote => '"',
            Category::Underscore => '_',
        }
    }
}

/// The keyword a word names, if it names one.
pub open spec fn spec_keyword(s: Seq<char>) -> Option<Keyword> {
    if s == "boolean"@ {
        Some(Keyword::Boolean)
    } else if s == "char"@ {
        Some(Keyword::Char)
    } else if s == "class"@ {
        Some(Keyword::Class)
    } else if s == "constructor"@ {
        Some(Keyword::Constructor)
    } else if s == "do"@ {
        Some(Keyword::Do)
    } else if s == "else"@ {
        Some(Keyword::Else)
    } else if s == "false"@ {
        Some(Keyword::False)
    } else if s == "field"@ {
        Some(Keyword::Field)
    } else if s == "function"@ {
        Some(Keyword::Function)
    } else if s == "if"@ {
        Some(Keyword::If)
    } else if s == "int"@ {
        Some(Keyword::Int)
    } else if s == "let"@ {
        Some(Keyword::Let)
    } else if s == "method"@ {
        Some(Keyword::Method)
    } else if s == "null"@ {
        Some(Keyword::Null)
    } else if s == "return"@ {
        Some(Keyword::Return)
    } else if s == "static"@ {
        Some(Keyword::Static)
    } else if s == "this"@ {
        Some(Keyword::This)
    } else if s == "true"@ {
        Some(Keyword::True)
    } else if s == "var"@ {
        Some(Keyword::Var)
    } else if s == "void"@ {
        Some(Keyword::Void)
    } else if s == "while"@ {
        Some(Keyword::While)
    } else {
        None
    }
}

/// The keyword a word names, if it names one.
pub fn keyword_of(v: &Vec<char>) -> (r: Option<Keyword>)
    ensures
        r == spec_keyword(v@),
{
    if crate::text::chars_eq_str(v, "boolean") {
        Some(Keyword::Boolean)
    } else if crate::text::chars_eq_str(v, "char") {
        Some(Keyword::Char)
    } else if crate::text::chars_eq_str(v, "class") {
        Some(Keyword::Class)
    } else if crate::text::chars_eq_str(v, "constructor") {
        Some(Keyword::Constructor)
    } else if crate::text::chars_eq_str(v, "do") {
        Some(Keyword::Do)
    } else if crate::text::chars_eq_str(v, "else") {
        Some(Keyword::Else)
    } else if crate::text::chars_eq_str(v, "false") {
        Some(Keyword::False)
    } else if crate::text::chars_eq_str(v, "field") {
        Some(Keyword::Field)
    } else if crate::text::chars_eq_str(v, "function") {
        Some(Keyword::Function)
    } else if crate::text::chars_eq_str(v, "if") {
        Some(Keyword::If)
    } else if crate::text::chars_eq_str(v, "int") {
        Some(Keyword::Int)
    } else if crate::text::chars_eq_str(v, "let") {
        Some(Keyword::Let)
    } else if crate::text::chars_eq_str(v, "method") {
        Some(Keyword::Method)
    } else if crate::text::chars_eq_str(v, "null") {
        Some(Keyword::Null)
    } else if crate::text::chars_eq_str(v, "return") {
        Some(Keyword::Return)
    } else if crate::text::chars_eq_str(v, "static") {
        Some(Keyword::Static)
    } else if crate::text::chars_eq_str(v, "this") {
        Some(Keyword::This)
    } else if crate::text::chars_eq_str(v, "true") {
        Some(Keyword::True)
    } else if crate::text::chars_eq_str(v, "var") {
        Some(Keyword::Var)
    } else if crate::text::chars_eq_str(v, "void") {
        Some(Keyword::Void)
    } else if crate::text::chars_eq_str(v, "while") {
        Some(Keyword::While)
    } else {
        None
    }
}

/// What a finished word becomes: a keyword on exact match, else an
/// identifier.
pub open spec fn spec_word_token(s: Seq<char>) -> Result<TokenV, TokenErrorV> {
    match spec_keyword(s) {
        Some(k) => Ok(TokenV::Keyword(k)),
        None => Ok(TokenV::Identifier(s)),
    }
}

/// What a finished digit run becomes: an integer literal if it has at most
/// five digits and a value of at most 32767, else an out-of-range error.
pub open spec fn spec_integer_token(s: Seq<char>) -> Result<TokenV, TokenErrorV> {
    if s.len() <= 5 && all_dec_digits(s) && dec_val(s) <= 32767 {
        Ok(TokenV::IntegerLiteral(dec_val(s) as u16))
    } else {
        Err(TokenErrorV::IntegerOutOfRange(s))
    }
}

/// The character-by-character scanner.
pub struct Tokenizer {
    input: Vec<char>,
    pos: usize,
    accum: Vec<char>,
    state: State,
    push_back: Option<Category>,
}

/// The mathematical state of the scanner.
pub struct ScanV {
    pub input: Seq<char>,
    pub pos: int,
    pub accum: Seq<char>,
    pub state: State,
    pub push_back: Option<Category>,
}

impl View for Tokenizer {
    type V = ScanV;

    closed spec fn view(&self) -> ScanV {
        ScanV {
            input: self.input@,
            pos: self.pos as int,
            accum: self.accum@,
            state: self.state,
            push_back: self.push_back,
        }
    }
}

/// The characters not yet consumed.
pub open spec fn rem_of(t: ScanV) -> nat {
    if t.pos <= t.input.len() {
        (t.input.len() - t.pos) as nat
    } else {
        0
    }
}

/// Whether a character waits in the push-back slot.
pub open spec fn pb_count(t: ScanV) -> nat {
    if t.push_back is Some {
        1
    } else {
        0
    }
}

/// How far a state is from the sink.
pub open spec fn state_rank(s: State) -> nat {
    match s {
        State::Eof => 0,
        State::Fresh => 1,
        _ => 2,
    }
}

/// An upper bound on the scanner's remaining work.
pub open spec fn tok_measure(t: ScanV) -> nat {
    5 * rem_of(t) + 2 * pb_count(t) + state_rank(t.state)
}

/// What taking the next category does: the push-back slot first, then the
/// next character, then the end marker (which is never consumed).
pub open spec fn spec_take_cat(t: ScanV) -> (Category, ScanV) {
    match t.push_back {
        Some(cat) => (cat, ScanV { push_back: None, ..t }),
        None => if t.pos < t.input.len() {
            (categorize(t.input[t.pos]), ScanV { pos: t.pos + 1, ..t })
        } else {
            (Category::Eof, t)
        },
    }
}

/// What one step does in state `Fresh`: start a word, number, string,
/// comment, or invalid run, or emit a symbol.
pub open spec fn spec_handle_fresh(t: ScanV, next: Category) -> (
    Option<Result<TokenV, TokenErrorV>>,
    ScanV,
) {
    match next {
        Category::Letter(c) => (
            None,
            ScanV { state: State::IdentifierOrKeyword, accum: t.accum.push(c), ..t },
        ),
        Category::OtherCharacter(c) => (
            None,
            ScanV { state: State::InvalidIdentifier, accum: t.accum.push(c), ..t },
        ),
        Category::Underscore => (
            None,
            ScanV { state: State::IdentifierOrKeyword, accum: t.accum.push('_'), ..t },
        ),
        Category::Number(c) => (None, ScanV { state: State::Integer, accum: t.accum.push(c), ..t }),
        Category::Symbol(c) => if c == '/' {
            (None, ScanV { state: State::PossibleCommentStart(0), accum: Seq::empty(), ..t })
        } else {
            (
                Some(Ok(TokenV::Symbol(c))),
                ScanV { state: State::Fresh, accum: Seq::empty(), ..t },
            )
        },
        Category::Quote => (None, ScanV { state: State::InString, accum: Seq::empty(), ..t }),
        Category::WhiteSpace(_) => (None, ScanV { state: State::Fresh, accum: Seq::empty(), ..t }),
        Category::Eof => (None, ScanV { state: State::Eof, accum: Seq::empty(), ..t }),
    }
}

/// What one step does after a `/`: at depth 0 the slash may open a comment or
/// stand alone; at a positive depth (inside a block comment) a `*` opens a
/// nested comment.
pub open spec fn spec_handle_possible_comment_start(t: ScanV, next: Category, depth: usize) -> (
    Option<Result<TokenV, TokenErrorV>>,
    ScanV,
) {
    match next {
        Category::Symbol(c) => if c == '*' {
            (None, ScanV { state: State::BlockComment((depth + 1) as usize), accum: Seq::empty(), ..t })
        } else if c == '/' && depth == 0 {
            (None, ScanV { state: State::LineComment, accum: Seq::empty(), ..t })
        } else if c == '/' {
            (
                None,
                ScanV { state: State::PossibleCommentStart(depth), accum: t.accum.push('/'), ..t },
            )
        } else if depth == 0 {
            (
                Some(Ok(TokenV::Symbol('/'))),
                ScanV { state: State::Fresh, accum: Seq::empty(), push_back: Some(next), ..t },
            )
        } else {
            (
                None,
                ScanV {
                    state: State::BlockComment(depth),
                    accum: t.accum.push(spec_category_char(next)),
                    ..t
                },
            )
        },
        Category::Eof => if depth == 0 {
            (Some(Ok(TokenV::Symbol('/'))), ScanV { state: State::Eof, accum: Seq::empty(), ..t })
        } else {
            (
                Some(Err(TokenErrorV::UnclosedComment(t.accum))),
                ScanV { state: State::Eof, accum: Seq::empty(), ..t },
            )
        },
        _ => if depth == 0 {
            (
                Some(Ok(TokenV::Symbol('/'))),
                ScanV { state: State::Fresh, accum: Seq::empty(), push_back: Some(next), ..t },
            )
        } else {
            (
                None,
                ScanV {
                    state: State::BlockComment(depth),
                    accum: t.accum.push(spec_category_char(next)),
                    ..t
                },
            )
        },
    }
}

/// What one step does inside a block comment: a `*` may end it, a `/` may
/// open a nested one, and the end of input is an error.
pub open spec fn spec_handle_block_comment(t: ScanV, next: Category, depth: usize) -> (
    Option<Result<TokenV, TokenErrorV>>,
    ScanV,
) {
    match next {
        Category::Symbol(c) => if c == '*' {
            (None, ScanV { state: State::PossibleCommentEnd(depth), accum: Seq::empty(), ..t })
        } else if c == '/' {
            (
                None,
                ScanV { state: State::PossibleCommentStart(depth), accum: t.accum.push('/'), ..t },
            )
        } else {
            (
                None,
                ScanV {
                    state: State::BlockComment(depth),
                    accum: t.accum.push(spec_category_char(next)),
                    ..t
                },
            )
        },
        Category::Eof => (
            Some(Err(TokenErrorV::UnclosedComment(t.accum))),
            ScanV { state: State::Eof, accum: Seq::empty(), ..t },
        ),
        _ => (
            None,
            ScanV {
                state: State::BlockComment(depth),
                accum: t.accum.push(spec_category_char(next)),
                ..t
            },
        ),
    }
}

/// What one step does at a `*` inside a block comment: a `/` closes one
/// level, another `*` keeps the ending open, anything else returns to the
/// comment body.
pub open spec fn spec_handle_possible_comment_end(t: ScanV, next: Category, depth: usize) -> (
    Option<Result<TokenV, TokenErrorV>>,
    ScanV,
) {
    match next {
        Category::Symbol(c) => if c == '/' && depth == 1 {
            (None, ScanV { state: State::Fresh, accum: Seq::empty(), ..t })
        } else if c == '/' {
            (
                None,
                ScanV {
                    state: State::BlockComment((depth - 1) as usize),
                    accum: Seq::empty(),
                    ..t
                },
            )
        } else if c == '*' {
            (
                None,
                ScanV { state: State::PossibleCommentEnd(depth), accum: t.accum.push('*'), ..t },
            )
        } else {
            (
                None,
                ScanV {
                    state: State::BlockComment(depth),
                    accum: t.accum.push(spec_category_char(next)),
                    ..t
                },
            )
        },
        Category::Eof => (
            Some(Err(TokenErrorV::UnclosedComment(t.accum))),
            ScanV { state: State::Eof, accum: Seq::empty(), ..t },
        ),
        _ => (
            None,
            ScanV {
                state: State::BlockComment(depth),
                accum: t.accum.push(spec_category_char(next)),
                ..t
            },
        ),
    }
}

/// What one step does in a line comment: it ends at a line break or at the
/// end of input.
pub open spec fn spec_handle_line_comment(t: ScanV, next: Category) -> (
    Option<Result<TokenV, TokenErrorV>>,
    ScanV,
) {
    match next {
        Category::WhiteSpace(c) => if c == '\r' || c == '\n' {
            (None, ScanV { state: State::Fresh, accum: Seq::empty(), ..t })
        } else {
            (None, ScanV { state: State::LineComment, accum: Seq::empty(), ..t })
        },
        Category::Eof => (None, ScanV { state: State::Eof, accum: Seq::empty(), ..t }),
        _ => (None, ScanV { state: State::LineComment, accum: Seq::empty(), ..t }),
    }
}

/// What one step does inside a word: letters, digits and underscores extend
/// it; any other character ends it and is pushed back.
pub open spec fn spec_handle_identifier_or_keyword(t: ScanV, next: Category) -> (
    Option<Result<TokenV, TokenErrorV>>,
    ScanV,
) {
    match next {
        Category::Letter(c) => (
            None,
            ScanV { state: State::IdentifierOrKeyword, accum: t.accum.push(c), ..t },
        ),
        Category::Number(c) => (
            None,
            ScanV { state: State::IdentifierOrKeyword, accum: t.accum.push(c), ..t },
        ),
        Category::Underscore => (
            None,
            ScanV { state: State::IdentifierOrKeyword, accum: t.accum.push('_'), ..t },
        ),
        Category::OtherCharacter(c) => (
            None,
            ScanV { state: State::InvalidIdentifier, accum: t.accum.push(c), ..t },
        ),
        Category::Eof => (
            Some(spec_word_token(t.accum)),
            ScanV { state: State::Eof, accum: Seq::empty(), ..t },
        ),
        _ => (
            Some(spec_word_token(t.accum)),
            ScanV { state: State::Fresh, accum: Seq::empty(), push_back: Some(next), ..t },
        ),
    }
}

/// What one step does inside an invalid word: it keeps growing until a
/// separator ends it with an error.
pub open spec fn spec_handle_invalid_identifier(t: ScanV, next: Category) -> (
    Option<Result<TokenV, TokenErrorV>>,
    ScanV,
) {
    match next {
        Category::Letter(c) => (
            None,
            ScanV { state: State::InvalidIdentifier, accum: t.accum.push(c), ..t },
        ),
        Category::Number(c) => (
            None,
            ScanV { state: State::InvalidIdentifier, accum: t.accum.push(c), ..t },
        ),
        Category::Underscore => (
            None,
            ScanV { state: State::InvalidIdentifier, accum: t.accum.push('_'), ..t },
        ),
        Category::OtherCharacter(c) => (
            None,
            ScanV { state: State::InvalidIdentifier, accum: t.accum.push(c), ..t },
        ),
        Category::Eof => (
            Some(Err(TokenErrorV::InvalidIdentifier(t.accum))),
            ScanV { state: State::Eof, accum: Seq::empty(), ..t },
        ),
        _ => (
            Some(Err(TokenErrorV::InvalidIdentifier(t.accum))),
            ScanV { state: State::Fresh, accum: Seq::empty(), push_back: Some(next), ..t },
        ),
    }
}

/// What one step does inside a digit run: digits extend it; any other
/// character ends it and is pushed back.
pub open spec fn spec_handle_integer(t: ScanV, next: Category) -> (
    Option<Result<TokenV, TokenErrorV>>,
    ScanV,
) {
    match next {
        Category::Number(c) => (None, ScanV { state: State::Integer, accum: t.accum.push(c), ..t }),
        Category::Eof => (
            Some(spec_integer_token(t.accum)),
            ScanV { state: State::Eof, accum: Seq::empty(), ..t },
        ),
        _ => (
            Some(spec_integer_token(t.accum)),
            ScanV { state: State::Fresh, accum: Seq::empty(), push_back: Some(next), ..t },
        ),
    }
}

/// What one step does inside a string literal: the closing quote emits it,
/// the end of input is an error, and there are no escapes.
pub open spec fn spec_handle_string(t: ScanV, next: Category) -> (
    Option<Result<TokenV, TokenErrorV>>,
    ScanV,
) {
    match next {
        Category::Quote => (
            Some(Ok(TokenV::StringLiteral(t.accum))),
            ScanV { state: State::Fresh, accum: Seq::empty(), ..t },
        ),
        Category::Eof => (
            Some(Err(TokenErrorV::UnclosedString(t.accum))),
            ScanV { state: State::Fresh, accum: Seq::empty(), ..t },
        ),
        _ => (
            None,
            ScanV {
                state: State::InString,
                accum: t.accum.push(spec_category_char(next)),
                ..t
            },
        ),
    }
}

/// One step of the scanner: take a category, act by the current state.
pub open spec fn spec_step(t: ScanV) -> (Option<Result<TokenV, TokenErrorV>>, ScanV) {
    let (next, t1) = spec_take_cat(t);
    match t.state {
        State::Fresh => spec_handle_fresh(t1, next),
        State::PossibleCommentStart(depth) => spec_handle_possible_comment_start(t1, next, depth),
        State::BlockComment(depth) => spec_handle_block_comment(t1, next, depth),
        State::PossibleCommentEnd(depth) => spec_handle_possible_comment_end(t1, next, depth),
        State::LineComment => spec_handle_line_comment(t1, next),
        State::IdentifierOrKeyword => spec_handle_identifier_or_keyword(t1, next),
        State::InvalidIdentifier => spec_handle_invalid_identifier(t1, next),
        State::Integer => spec_handle_integer(t1, next),
        State::InString => spec_handle_string(t1, next),
        State::Eof => (None, t1),
    }
}

/// Every step lowers the measure until it yields a token or ends.
pub proof fn lemma_step_decreases(t: ScanV)
    requires
        t.state != State::Eof,
    ensures
        tok_measure(spec_step(t).1) < tok_measure(t),
{
    let (next, t1) = spec_take_cat(t);
    let (r, t2) = spec_step(t);
    if t.push_back is Some {
        assert(pb_count(t1) == 0 && rem_of(t1) == rem_of(t));
    } else if t.pos < t.input.len() {
        assert(rem_of(t1) == rem_of(t) - 1 && pb_count(t1) == 0);
    } else {
        assert(t1 == t);
        assert(next == Category::Eof);
    }
}

/// What the scanner yields next, and the state it leaves behind: steps run
/// until one produces a token or an error, or the input ends.
pub open spec fn spec_next_token(t: ScanV) -> (Option<Result<TokenV, TokenErrorV>>, ScanV)
    decreases tok_measure(t),
    via spec_next_token_dec
{
    if t.state == State::Eof {
        (None, t)
    } else {
        let (r, t2) = spec_step(t);
        match r {
            Some(answer) => (Some(answer), t2),
            None => spec_next_token(t2),
        }
    }
}

#[via_fn]
proof fn spec_next_token_dec(t: ScanV) {
    if t.state != State::Eof {
        lemma_step_decreases(t);
    }
}

/// A scanner state that can arise: the position is inside the input, comment
/// depths are positive and bounded by the position, and a pushed-back
/// character only waits in the `Fresh` state.
pub open spec fn wf(t: ScanV) -> bool {
    &&& 0 <= t.pos <= t.input.len()
    &&& t.input.len() < usize::MAX
    &&& match t.state {
        State::PossibleCommentStart(d) => d <= t.pos,
        State::BlockComment(d) => 1 <= d <= t.pos,
        State::PossibleCommentEnd(d) => 1 <= d <= t.pos,
        _ => true,
    }
    &&& (t.push_back is Some ==> t.state == State::Fresh)
    &&& t.push_back != Some(Category::Eof)
}

/// A step leaves the scanner well formed.
pub proof fn lemma_step_wf(t: ScanV)
    requires
        wf(t),
        t.state != State::Eof,
    ensures
        wf(spec_step(t).1),
{
}

impl Tokenizer {
    /// A scanner over the given characters.
    pub fn new(input: Vec<char>) -> (r: Tokenizer)
        requires
            input@.len() < usize::MAX,
        ensures
            r@ == initial_scan(input@),
            wf(r@),
    {
        Tokenizer {
            input,
            pos: 0,
            accum: Vec::new(),
            state: State::Fresh,
            push_back: None,
        }
    }

    /// Takes the next category: the push-back slot, the next character, or
    /// the end marker.
    fn next_category(&mut self) -> (r: Category)
        requires
            old(self)@.pos <= old(self)@.input.len(),
        ensures
            (r, final(self)@) == spec_take_cat(old(self)@),
    {
        match self.push_back {
            Some(back) => {
                self.push_back = None;
                back
            }
            None => {
                if self.pos < self.input.len() {
                    let c = self.input[self.pos];
                    self.pos = self.pos + 1;
                    categorize_char(c)
                } else {
                    Category::Eof
                }
            }
        }
    }

    fn handle_fresh(&mut self, next: Category) -> (r: Option<Result<Token, TokenError>>)
        ensures
            (tok_v(r), final(self)@) == spec_handle_fresh(old(self)@, next),
    {
        match next {
            Category::Letter(c) => {
                self.state = State::IdentifierOrKeyword;
                self.accum.push(c);
                None
            }
            Category::OtherCharacter(c) => {
                self.state = State::InvalidIdentifier;
                self.accum.push(c);
                None
            }
            Category::Underscore => {
                self.state = State::IdentifierOrKeyword;
                self.accum.push('_');
                None
            }
            Category::Number(c) => {
                self.state = State::Integer;
                self.accum.push(c);
                None
            }
            Category::Symbol(c) => {
                if c == '/' {
                    self.state = State::PossibleCommentStart(0);
                    self.accum.clear();
                    None
                } else {
                    self.state = State::Fresh;
                    self.accum.clear();
                    Some(Ok(Token::Symbol(c)))
                }
            }
            Category::Quote => {
                self.state = State::InString;
                self.accum.clear();
                None
            }
            Category::WhiteSpace(_) => {
                self.state = State::Fresh;
                self.accum.clear();
                None
            }
            Category::Eof => {
                self.state = State::Eof;
                self.accum.clear();
                None
            }
        }
    }

    fn handle_possible_comment_start(&mut self, next: Category, depth: usize) -> (r: Option<
        Result<Token, TokenError>,
    >)
        requires
            depth < usize::MAX,
        ensures
            (tok_v(r), final(self)@) == spec_handle_possible_comment_start(
                old(self)@,
                next,
                depth,
            ),
    {
        match next {
            Category::Symbol(c) => {
                if c == '*' {
                    self.state = State::BlockComment(depth + 1);
                    self.accum.clear();
                    None
                } else if c == '/' && depth == 0 {
                    self.state = State::LineComment;
                    self.accum.clear();
                    None
                } else if c == '/' {
                    self.state = State::PossibleCommentStart(depth);
                    self.accum.push('/');
                    None
                } else if depth == 0 {
                    self.state = State::Fresh;
                    self.accum.clear();
                    self.push_back = Some(next);
                    Some(Ok(Token::Symbol('/')))
                } else {
                    self.state = State::BlockComment(depth);
                    self.accum.push(next.character());
                    None
                }
            }
            Category::Eof => {
                if depth == 0 {
                    self.state = State::Eof;
                    self.accum.clear();
                    Some(Ok(Token::Symbol('/')))
                } else {
                    let text = chars_to_string(&self.accum);
                    self.state = State::Eof;
                    self.accum.clear();
                    Some(Err(TokenError::UnclosedComment(text)))
                }
            }
            _ => {
                if depth == 0 {
                    self.state = State::Fresh;
                    self.accum.clear();
                    self.push_back = Some(next);
                    Some(Ok(Token::Symbol('/')))
                } else {
                    self.state = State::BlockComment(depth);
                    self.accum.push(next.character());
                    None
                }
            }
        }
    }

    fn handle_block_comment(&mut self, next: Category, depth: usize) -> (r: Option<
        Result<Token, TokenError>,
    >)
        ensures
            (tok_v(r), final(self)@) == spec_handle_block_comment(old(self)@, next, depth),
    {
        match next {
            Category::Symbol(c) => {
                if c == '*' {
                    self.state = State::PossibleCommentEnd(depth);
                    self.accum.clear();
                    None
                } else if c == '/' {
                    self.state = State::PossibleCommentStart(depth);
                    self.accum.push('/');
                    None
                } else {
                    self.state = State::BlockComment(depth);
                    self.accum.push(next.character());
                    None
                }
            }
            Category::Eof => {
                let text = chars_to_string(&self.accum);
                self.state = State::Eof;
                self.accum.clear();
                Some(Err(TokenError::UnclosedComment(text)))
            }
            _ => {
                self.state = State::BlockComment(depth);
                self.accum.push(next.character());
                None
            }
        }
    }

    fn handle_possible_comment_end(&mut self, next: Category, depth: usize) -> (r: Option<
        Result<Token, TokenError>,
    >)
        requires
            depth >= 1,
        ensures
            (tok_v(r), final(self)@) == spec_handle_possible_comment_end(old(self)@, next, depth),
    {
        match next {
            Category::Symbol(c) => {
                if c == '/' && depth == 1 {
                    self.state = State::Fresh;
                    self.accum.clear();
                    None
                } else if c == '/' {
                    self.state = State::BlockComment(depth - 1);
                    self.accum.clear();
                    None
                } else if c == '*' {
                    self.state = State::PossibleCommentEnd(depth);
                    self.accum.push('*');
                    None
                } else {
                    self.state = State::BlockComment(depth);
                    self.accum.push(next.character());
                    None
                }
            }
            Category::Eof => {
                let text = chars_to_string(&self.accum);
                self.state = State::Eof;
                self.accum.clear();
                Some(Err(TokenError::UnclosedComment(text)))
            }
            _ => {
                self.state = State::BlockComment(depth);
                self.accum.push(next.character());
                None
            }
        }
    }

    fn handle_line_comment(&mut self, next: Category) -> (r: Option<Result<Token, TokenError>>)
        ensures
            (tok_v(r), final(self)@) == spec_handle_line_comment(old(self)@, next),
    {
        match next {
            Category::WhiteSpace(c) => {
                if c == '\r' || c == '\n' {
                    self.state = State::Fresh;
                } else {
                    self.state = State::LineComment;
                }
                self.accum.clear();
                None
            }
            Category::Eof => {
                self.state = State::Eof;
                self.accum.clear();
                None
            }
            _ => {
                self.state = State::LineComment;
                self.accum.clear();
                None
            }
        }
    }

    /// The token a finished word makes.
    fn identifier_or_keyword_token(&self) -> (r: Result<Token, TokenError>)
        ensures
            match r {
                Ok(t) => spec_word_token(self.accum@) == Ok::<TokenV, TokenErrorV>(t@),
                Err(e) => spec_word_token(self.accum@) == Err::<TokenV, TokenErrorV>(e@),
            },
    {
        match keyword_of(&self.accum) {
            Some(k) => Ok(Token::Keyword(k)),
            None => Ok(Token::Identifier(chars_to_string(&self.accum))),
        }
    }

    /// The token a finished digit run makes.
    fn integer_token(&self) -> (r: Result<Token, TokenError>)
        ensures
            match r {
                Ok(t) => spec_integer_token(self.accum@) == Ok::<TokenV, TokenErrorV>(t@),
                Err(e) => spec_integer_token(self.accum@) == Err::<TokenV, TokenErrorV>(e@),
            },
    {
        let v = &self.accum;
        if v.len() <= 5 {
            let mut value: u32 = 0;
            let mut i: usize = 0;
            let mut all_digits = true;
            assert(v@.take(0) =~= Seq::<char>::empty());
            while i < v.len()
                invariant
                    0 <= i <= v@.len() <= 5,
                    v@ == self.accum@,
                    all_digits ==> all_dec_digits(v@.take(i as int)) && value == dec_val(
                        v@.take(i as int),
                    ),
                    !all_digits ==> !all_dec_digits(v@),
                    value <= 99999,
                decreases v@.len() - i,
            {
                assert(v@.take(i + 1 as int).drop_last() =~= v@.take(i as int));
                assert(v@.take(i + 1 as int).last() == v@[i as int]);
                match crate::text::dec_digit_val(v[i]) {
                    None => {
                        assert(!all_dec_digits(v@));
                        all_digits = false;
                    }
                    Some(d) => {
                        if all_digits {
                            value = value * 10 + d as u32;
                            proof {
                                lemma_dec_val_le(v@.take(i + 1 as int));
                            }
                        }
                    }
                }
                i += 1;
            }
            assert(v@.take(v@.len() as int) =~= v@);
            if all_digits && value <= 32767 {
                return Ok(Token::IntegerLiteral(value as u16));
            }
        }
        Err(TokenError::IntegerOutOfRange(chars_to_string(v)))
    }

    fn handle_identifier_or_keyword(&mut self, next: Category) -> (r: Option<
        Result<Token, TokenError>,
    >)
        ensures
            (tok_v(r), final(self)@) == spec_handle_identifier_or_keyword(old(self)@, next),
    {
        match next {
            Category::Letter(c) => {
                self.state = State::IdentifierOrKeyword;
                self.accum.push(c);
                None
            }
            Category::Number(c) => {
                self.state = State::IdentifierOrKeyword;
                self.accum.push(c);
                None
            }
            Category::Underscore => {
                self.state = State::IdentifierOrKeyword;
                self.accum.push('_');
                None
            }
            Category::OtherCharacter(c) => {
                self.state = State::InvalidIdentifier;
                self.accum.push(c);
                None
            }
            Category::Eof => {
                let tok = self.identifier_or_keyword_token();
                self.state = State::Eof;
                self.accum.clear();
                Some(tok)
            }
            _ => {
                let tok = self.identifier_or_keyword_token();
                self.state = State::Fresh;
                self.accum.clear();
                self.push_back = Some(next);
                Some(tok)
            }
        }
    }

    fn handle_invalid_identifier(&mut self, next: Category) -> (r: Option<
        Result<Token, TokenError>,
    >)
        ensures
            (tok_v(r), final(self)@) == spec_handle_invalid_identifier(old(self)@, next),
    {
        match next {
            Category::Letter(c) => {
                self.state = State::InvalidIdentifier;
                self.accum.push(c);
                None
            }
            Category::Number(c) => {
                self.state = State::InvalidIdentifier;
                self.accum.push(c);
                None
            }
            Category::Underscore => {
                self.state = State::InvalidIdentifier;
                self.accum.push('_');
                None
            }
            Category::OtherCharacter(c) => {
                self.state = State::InvalidIdentifier;
                self.accum.push(c);
                None
            }
            Category::Eof => {
                let text = chars_to_string(&self.accum);
                self.state = State::Eof;
                self.accum.clear();
                Some(Err(TokenError::InvalidIdentifier(text)))
            }
            _ => {
                let text = chars_to_string(&self.accum);
                self.state = State::Fresh;
                self.accum.clear();
                self.push_back = Some(next);
                Some(Err(TokenError::InvalidIdentifier(text)))
            }
        }
    }

    fn handle_integer(&mut self, next: Category) -> (r: Option<Result<Token, TokenError>>)
        ensures
            (tok_v(r), final(self)@) == spec_handle_integer(old(self)@, next),
    {
        match next {
            Category::Number(c) => {
                self.state = State::Integer;
                self.accum.push(c);
                None
            }
            Category::Eof => {
                let tok = self.integer_token();
                self.state = State::Eof;
                self.accum.clear();
                Some(tok)
            }
            _ => {
                let tok = self.integer_token();
                self.state = State::Fresh;
                self.accum.clear();
                self.push_back = Some(next);
                Some(tok)
            }
        }
    }

    fn handle_string(&mut self, next: Category) -> (r: Option<Result<Token, TokenError>>)
        ensures
            (tok_v(r), final(self)@) == spec_handle_string(old(self)@, next),
    {
        match next {
            Category::Quote => {
                let text = chars_to_string(&self.accum);
                self.state = State::Fresh;
                self.accum.clear();
                Some(Ok(Token::StringLiteral(text)))
            }
            Category::Eof => {
                let text = chars_to_string(&self.accum);
                self.state = State::Fresh;
                self.accum.clear();
                Some(Err(TokenError::UnclosedString(text)))
            }
            _ => {
                self.state = State::InString;
                self.accum.push(next.character());
                None
            }
        }
    }

    /// The state after the end of input: nothing more comes out.
    fn handle_eof(&mut self, next: Category) -> (r: Option<Result<Token, TokenError>>)
        ensures
            *final(self) == *old(self),
            r is None,
    {
        let _ = next;
        None
    }

    /// The next token of the input, if any: `None` at the end of input, an
    /// error for an unclosed comment or string, an invalid word, or an
    /// out-of-range integer.
    pub fn next_token(&mut self) -> (r: Option<Result<Token, TokenError>>)
        requires
            wf(old(self)@),
        ensures
            wf(final(self)@),
            (tok_v(r), final(self)@) == spec_next_token(old(self)@),
    {
        let ghost orig = self@;
        loop
            invariant
                orig == old(self)@,
                wf(self@),
                spec_next_token(orig) == spec_next_token(self@),
            decreases tok_measure(self@),
        {
            let st = self.state;
            if st == State::Eof {
                proof {
                    assert(spec_next_token(self@) == (
                        None::<Result<TokenV, TokenErrorV>>,
                        self@,
                    ));
                }
                return None;
            }
            let ghost pre = self@;
            proof {
                lemma_step_decreases(pre);
                lemma_step_wf(pre);
            }
            let next = self.next_category();
            let r = match st {
                State::Fresh => self.handle_fresh(next),
                State::PossibleCommentStart(depth) => self.handle_possible_comment_start(
                    next,
                    depth,
                ),
                State::BlockComment(depth) => self.handle_block_comment(next, depth),
                State::PossibleCommentEnd(depth) => self.handle_possible_comment_end(next, depth),
                State::LineComment => self.handle_line_comment(next),
                State::IdentifierOrKeyword => self.handle_identifier_or_keyword(next),
                State::InvalidIdentifier => self.handle_invalid_identifier(next),
                State::Integer => self.handle_integer(next),
                State::InString => self.handle_string(next),
                State::Eof => self.handle_eof(next),
            };
            proof {
                assert((tok_v(r), self@) == spec_step(pre));
                if tok_v(r) is Some {
                    assert(spec_next_token(pre) == (tok_v(r), self@));
                } else {
                    assert(spec_next_token(pre) == spec_next_token(self@));
                }
            }
            if r.is_some() {
                return r;
            }
        }
    }
}

/// The starting state of the scanner on an input.
pub open spec fn initial_scan(input: Seq<char>) -> ScanV {
    ScanV { input, pos: 0, accum: Seq::empty(), state: State::Fresh, push_back: None }
}

proof fn lemma_dec_val_le(s: Seq<char>)
    requires
        all_dec_digits(s),
        s.len() <= 5,
    ensures
        dec_val(s) <= 99999,
    decreases s.len(),
{
    if s.len() > 0 {
        lemma_dec_val_le(s.drop_last());
        assert(crate::text::digit_val(s.last()) <= 9);
        assert(dec_val(s.drop_last()) <= 9999) by {
            lemma_dec_val_bound(s.drop_last());
        }
    }
}

proof fn lemma_dec_val_bound(s: Seq<char>)
    requires
        all_dec_digits(s),
        s.len() <= 4,
    ensures
        dec_val(s) <= 9999,
    decreases s.len(),
{
    if s.len() > 0 {
        lemma_dec_val_bound3(s.drop_last());
        assert(crate::text::digit_val(s.last()) <= 9);
    }
}

proof fn lemma_dec_val_bound3(s: Seq<char>)
    requires
        all_dec_digits(s),
        s.len() <= 3,
    ensures
        dec_val(s) <= 999,
    decreases s.len(),
{
    if s.len() > 0 {
        lemma_dec_val_bound2(s.drop_last());
        assert(crate::text::digit_val(s.last()) <= 9);
    }
}

proof fn lemma_dec_val_bound2(s: Seq<char>)
    requires
        all_dec_digits(s),
        s.len() <= 2,
    ensures
        dec_val(s) <= 99,
    decreases s.len(),
{
    if s.len() > 0 {
        lemma_dec_val_bound1(s.drop_last());
        assert(crate::text::digit_val(s.last()) <= 9);
    }
}

proof fn lemma_dec_val_bound1(s: Seq<char>)
    requires
        all_dec_digits(s),
        s.len() <= 1,
    ensures
        dec_val(s) <= 9,
{
    if s.len() > 0 {
        assert(s.drop_last() =~= Seq::<char>::empty());
        assert(dec_val(s.drop_last()) == 0);
        assert(crate::text::digit_val(s.last()) <= 9);
    }
}

/// The categories of the nineteen Jack symbols, the blanks, the quote, the
/// underscore, digits, letters, and everything else.
pub fn categorize_char(c: char) -> (r: Category)
    ensures
        r == categorize(c),
{
    if crate::text::is_space(c) {
        Category::WhiteSpace(c)
    } else if c == '"' {
        Category::Quote
    } else if c == '_' {
        Category::Underscore
    } else if c == '{' || c == '}' || c == '(' || c == ')' || c == '[' || c == ']' || c == '.' || c
        == ',' || c == ';' || c == '+' || c == '-' || c == '*' || c == '<' || c == '&' || c == '>'
        || c == '|' || c == '=' || c == '~' || c == '/' {
        Category::Symbol(c)
    } else {
        let u = c as u32;
        if 48 <= u && u <= 57 {
            Category::Number(c)
        } else if (65 <= u && u <= 90) || (97 <= u && u <= 122) {
            Category::Letter(c)
        } else {
            Category::OtherCharacter(c)
        }
    }
}

/// What tokenizing a whole input yields: the tokens in order, or the first
/// tokenizer error.
pub open spec fn spec_tokenize(t: ScanV) -> Result<Seq<TokenV>, TokenErrorV>
    decreases tok_measure(t),
    via spec_tokenize_dec
{
    let (r, t2) = spec_next_token(t);
    match r {
        None => Ok(Seq::empty()),
        Some(Err(e)) => Err(e),
        Some(Ok(tok)) => match spec_tokenize(t2) {
            Ok(rest) => Ok(seq![tok] + rest),
            Err(e) => Err(e),
        },
    }
}

#[via_fn]
proof fn spec_tokenize_dec(t: ScanV) {
    lemma_next_token_measure(t);
}

/// Yielding a token strictly lowers the measure.
pub proof fn lemma_next_token_measure(t: ScanV)
    ensures
        tok_measure(spec_next_token(t).1) <= tok_measure(t),
        spec_next_token(t).0 is Some ==> tok_measure(spec_next_token(t).1) < tok_measure(t),
    decreases tok_measure(t),
{
    if t.state != State::Eof {
        lemma_step_decreases(t);
        let (r, t2) = spec_step(t);
        if r is None {
            lemma_next_token_measure(t2);
        }
    }
}

/// The views of a token list.
pub open spec fn tokens_v(v: Seq<Token>) -> Seq<TokenV> {
    v.map_values(|t: Token| t@)
}

/// All tokens of an input, in order, or the first tokenizer error.
pub fn tokenize(input: Vec<char>) -> (r: Result<Vec<Token>, TokenError>)
    requires
        input@.len() < usize::MAX,
    ensures
        match r {
            Ok(toks) => spec_tokenize(initial_scan(input@)) == Ok::<Seq<TokenV>, TokenErrorV>(
                tokens_v(toks@),
            ),
            Err(e) => spec_tokenize(initial_scan(input@)) == Err::<Seq<TokenV>, TokenErrorV>(e@),
        },
{
    let ghost t0 = initial_scan(input@);
    let mut tokenizer = Tokenizer::new(input);
    let mut tokens: Vec<Token> = Vec::new();
    assert(tokens_v(tokens@) =~= Seq::<TokenV>::empty());
    loop
        invariant
            t0 == initial_scan(input@),
            wf(tokenizer@),
            spec_tokenize(t0) == (match spec_tokenize(tokenizer@) {
                Ok(rest) => Ok::<Seq<TokenV>, TokenErrorV>(tokens_v(tokens@) + rest),
                Err(e) => Err::<Seq<TokenV>, TokenErrorV>(e),
            }),
        decreases tok_measure(tokenizer@),
    {
        let ghost pre = tokenizer@;
        proof {
            lemma_next_token_measure(pre);
        }
        match tokenizer.next_token() {
            None => {
                proof {
                    assert(spec_tokenize(pre) == Ok::<Seq<TokenV>, TokenErrorV>(
                        Seq::<TokenV>::empty(),
                    ));
                    assert(tokens_v(tokens@) + Seq::<TokenV>::empty() =~= tokens_v(tokens@));
                }
                return Ok(tokens);
            }
            Some(Err(e)) => {
                proof {
                    assert(spec_tokenize(pre) == Err::<Seq<TokenV>, TokenErrorV>(e@));
                }
                return Err(e);
            }
            Some(Ok(tok)) => {
                let ghost tv = tok@;
                let ghost pretoks = tokens@;
                tokens.push(tok);
                proof {
                    assert(spec_tokenize(pre) == (match spec_tokenize(tokenizer@) {
                        Ok(rest) => Ok::<Seq<TokenV>, TokenErrorV>(seq![tv] + rest),
                        Err(e) => Err::<Seq<TokenV>, TokenErrorV>(e),
                    }));
                    assert(tokens_v(tokens@) =~= tokens_v(pretoks).push(tv));
                    if spec_tokenize(tokenizer@) is Ok {
                        let rest = spec_tokenize(tokenizer@)->Ok_0;
                        assert(tokens_v(pretoks) + (seq![tv] + rest) =~= tokens_v(tokens@) + rest);
                    }
                }
            }
        }
    }
}

} // verus!
