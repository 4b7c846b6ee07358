//! The assembly parser: one instruction per line, `//` comments, labels in
//! parentheses.

use vstd::prelude::*;

use crate::assembler::ast::{DestSet, Expr, Instruction, Jump, Reference, Register};
use crate::text::{
    all_dec_digits, before_comment, char_to_string, chars_to_string, dec_val, find_char,
    find_in_chars, is_dec_digit, lit, remove_spaces, remove_ws, spec_trim, str_to_chars,
    strip_comment, subrange_chars, trim_chars,
};

verus! {

/// What can go wrong on one line of assembly.
#[derive(Debug, PartialEq, Eq)]
pub enum ParseError {
    MissingSymbol,
    InvalidSymbol(String),
    MissingClosingParen(String),
    InvalidJumpType(String),
    ConstantOutOfRange(u16),
    InvalidRegister(String),
    InvalidExpr(String),
    DuplicateRegister(String),
}

/// The mathematical value of a `ParseError`, its text as a character sequence.
pub enum ParseErrorV {
    MissingSymbol,
    InvalidSymbol(Seq<char>),
    MissingClosingParen(Seq<char>),
    InvalidJumpType(Seq<char>),
    ConstantOutOfRange(u16),
    InvalidRegister(Seq<char>),
    InvalidExpr(Seq<char>),
    DuplicateRegister(Seq<char>),
}

impl View for ParseError {
    type V = ParseErrorV;

    open spec fn view(&self) -> ParseErrorV {
        match self {
            ParseError::MissingSymbol => ParseErrorV::MissingSymbol,
            ParseError::InvalidSymbol(s) => ParseErrorV::InvalidSymbol(s@),
            ParseError::MissingClosingParen(s) => ParseErrorV::MissingClosingParen(s@),
            ParseError::InvalidJumpType(s) => ParseErrorV::InvalidJumpType(s@),
            ParseError::ConstantOutOfRange(n) => ParseErrorV::ConstantOutOfRange(*n),
            ParseError::InvalidRegister(s) => ParseErrorV::InvalidRegister(s@),
            ParseError::InvalidExpr(s) => ParseErrorV::InvalidExpr(s@),
            ParseError::DuplicateRegister(s) => ParseErrorV::DuplicateRegister(s@),
        }
    }
}

/// The mathematical value of a `Reference`.
pub enum ReferenceV {
    Symbol(Seq<char>),
    Address(u16),
}

impl View for Reference {
    type V = ReferenceV;

    open spec fn view(&self) -> ReferenceV {
        match self {
            Reference::Symbol(s) => ReferenceV::Symbol(s@),
            Reference::Address(a) => ReferenceV::Address(*a),
        }
    }
}

/// The mathematical value of an `Instruction`.
pub enum InstructionV {
    A(ReferenceV),
    C(DestSet, Expr, Jump),
    L(Seq<char>),
}

impl View for Instruction {
    type V = InstructionV;

    open spec fn view(&self) -> InstructionV {
        match self {
            Instruction::A(r) => InstructionV::A(r@),
            Instruction::C(d, e, j) => InstructionV::C(*d, *e, *j),
            Instruction::L(s) => InstructionV::L(s@),
        }
    }
}

/// The view of a parse result.
pub open spec fn result_v(r: Result<Instruction, ParseError>) -> Result<InstructionV, ParseErrorV> {
    match r {
        Ok(i) => Ok(i@),
        Err(e) => Err(e@),
    }
}

/// What `parse_register` returns: one register per letter.
pub open spec fn spec_parse_register(c: char) -> Result<Register, ParseErrorV> {
    if c == 'A' {
        Ok(Register::A)
    } else if c == 'D' {
        Ok(Register::D)
    } else if c == 'M' {
        Ok(Register::M)
    } else {
        Err(ParseErrorV::InvalidRegister(seq![c]))
    }
}

/// The register a destination letter names.
pub fn parse_register(register: char) -> (r: Result<Register, ParseError>)
    ensures
        match r {
            Ok(reg) => spec_parse_register(register) == Ok::<Register, ParseErrorV>(reg),
            Err(e) => spec_parse_register(register) == Err::<Register, ParseErrorV>(e@),
        },
{
    match register {
        'A' => Ok(Register::A),
        'D' => Ok(Register::D),
        'M' => Ok(Register::M),
        _ => Err(ParseError::InvalidRegister(char_to_string(register))),
    }
}

/// What `parse_dest` returns on the whitespace-free rest `s`, with `acc`
/// already seen; `orig` is the original text, quoted by errors.
pub open spec fn spec_parse_dest_rec(s: Seq<char>, acc: DestSet, orig: Seq<char>) -> Result<
    DestSet,
    ParseErrorV,
>
    decreases s.len(),
{
    if s.len() == 0 {
        Ok(acc)
    } else {
        match spec_parse_register(s[0]) {
            Err(e) => Err(e),
            Ok(reg) => if acc.spec_contains(reg) {
                Err(ParseErrorV::DuplicateRegister(orig))
            } else {
                spec_parse_dest_rec(s.drop_first(), acc.spec_insert(reg), orig)
            },
        }
    }
}

/// What `parse_dest` returns: each letter once, whitespace ignored.
pub open spec fn spec_parse_dest(s: Seq<char>) -> Result<DestSet, ParseErrorV> {
    spec_parse_dest_rec(remove_ws(s), DestSet { a: false, d: false, m: false }, s)
}

/// The destination register set of a C-instruction.
pub fn parse_dest(dest: &str) -> (r: Result<DestSet, ParseError>)
    ensures
        match r {
            Ok(d) => spec_parse_dest(dest@) == Ok::<DestSet, ParseErrorV>(d),
            Err(e) => spec_parse_dest(dest@) == Err::<DestSet, ParseErrorV>(e@),
        },
{
    let v = str_to_chars(dest);
    let cleaned = remove_spaces(&v);
    let mut regs = DestSet::empty();
    let mut i: usize = 0;
    assert(cleaned@.skip(0) =~= cleaned@);
    while i < cleaned.len()
        invariant
            0 <= i <= cleaned@.len(),
            v@ == dest@,
            spec_parse_dest(v@) == spec_parse_dest_rec(cleaned@.skip(i as int), regs, v@),
        decreases cleaned@.len() - i,
    {
        assert(cleaned@.skip(i as int)[0] == cleaned@[i as int]);
        match parse_register(cleaned[i]) {
            Err(e) => {
                assert(spec_parse_dest_rec(cleaned@.skip(i as int), regs, v@)
                    == Err::<DestSet, ParseErrorV>(e@));
                return Err(e);
            }
            Ok(reg) => {
                if regs.contains(reg) {
                    assert(spec_parse_dest_rec(cleaned@.skip(i as int), regs, v@)
                        == Err::<DestSet, ParseErrorV>(ParseErrorV::DuplicateRegister(v@)));
                    return Err(ParseError::DuplicateRegister(lit(dest)));
                }
                regs = regs.insert(reg);
            }
        }
        assert(cleaned@.skip(i as int).drop_first() =~= cleaned@.skip(i + 1 as int));
        i += 1;
    }
    assert(cleaned@.skip(i as int).len() == 0);
    Ok(regs)
}

/// What `parse_jump` returns: one of the eight jump words, or none.
pub open spec fn spec_parse_jump(s: Seq<char>) -> Result<Jump, ParseErrorV> {
    let t = spec_trim(s);
    if t.len() == 0 {
        Ok(Jump::Null)
    } else if t == "JGT"@ {
        Ok(Jump::Jgt)
    } else if t == "JEQ"@ {
        Ok(Jump::Jeq)
    } else if t == "JGE"@ {
        Ok(Jump::Jge)
    } else if t == "JLT"@ {
        Ok(Jump::Jlt)
    } else if t == "JNE"@ {
        Ok(Jump::Jne)
    } else if t == "JLE"@ {
        Ok(Jump::Jle)
    } else if t == "JMP"@ {
        Ok(Jump::Jmp)
    } else {
        Err(ParseErrorV::InvalidJumpType(s))
    }
}

/// The jump condition of a C-instruction; empty text means no jump.
pub fn parse_jump(jump: &str) -> (r: Result<Jump, ParseError>)
    ensures
        match r {
            Ok(j) => spec_parse_jump(jump@) == Ok::<Jump, ParseErrorV>(j),
            Err(e) => spec_parse_jump(jump@) == Err::<Jump, ParseErrorV>(e@),
        },
{
    let v = str_to_chars(jump);
    let t = trim_chars(&v);
    if t.len() == 0 {
        Ok(Jump::Null)
    } else if crate::text::chars_eq_str(&t, "JGT") {
        Ok(Jump::Jgt)
    } else if crate::text::chars_eq_str(&t, "JEQ") {
        Ok(Jump::Jeq)
    } else if crate::text::chars_eq_str(&t, "JGE") {
        Ok(Jump::Jge)
    } else if crate::text::chars_eq_str(&t, "JLT") {
        Ok(Jump::Jlt)
    } else if crate::text::chars_eq_str(&t, "JNE") {
        Ok(Jump::Jne)
    } else if crate::text::chars_eq_str(&t, "JLE") {
        Ok(Jump::Jle)
    } else if crate::text::chars_eq_str(&t, "JMP") {
        Ok(Jump::Jmp)
    } else {
        Err(ParseError::InvalidJumpType(lit(jump)))
    }
}

/// What `parse_expr` returns: a compute expression from the fixed table,
/// internal whitespace tolerated.
pub open spec fn spec_parse_expr(s: Seq<char>) -> Result<Expr, ParseErrorV> {
    let t = remove_ws(s);
    if t == "0"@ {
        Ok(Expr::Zero)
    } else if t == "1"@ {
        Ok(Expr::One)
    } else if t == "-1"@ {
        Ok(Expr::NegOne)
    } else if t == "D"@ {
        Ok(Expr::D)
    } else if t == "A"@ {
        Ok(Expr::A)
    } else if t == "M"@ {
        Ok(Expr::M)
    } else if t == "!D"@ {
        Ok(Expr::NotD)
    } else if t == "!A"@ {
        Ok(Expr::NotA)
    } else if t == "!M"@ {
        Ok(Expr::NotM)
    } else if t == "-D"@ {
        Ok(Expr::NegD)
    } else if t == "-A"@ {
        Ok(Expr::NegA)
    } else if t == "-M"@ {
        Ok(Expr::NegM)
    } else if t == "D+1"@ {
        Ok(Expr::DAddOne)
    } else if t == "A+1"@ {
        Ok(Expr::AAddOne)
    } else if t == "M+1"@ {
        Ok(Expr::MAddOne)
    } else if t == "D-1"@ {
        Ok(Expr::DSubOne)
    } else if t == "A-1"@ {
        Ok(Expr::ASubOne)
    } else if t == "M-1"@ {
        Ok(Expr::MSubOne)
    } else if t == "D+A"@ {
        Ok(Expr::DAddA)
    } else if t == "D+M"@ {
        Ok(Expr::DAddM)
    } else if t == "D-A"@ {
        Ok(Expr::DSubA)
    } else if t == "D-M"@ {
        Ok(Expr::DSubM)
    } else if t == "A-D"@ {
        Ok(Expr::ASubD)
    } else if t == "M-D"@ {
        Ok(Expr::MSubD)
    } else if t == "D&A"@ {
        Ok(Expr::DAndA)
    } else if t == "D&M"@ {
        Ok(Expr::DAndM)
    } else if t == "D|A"@ {
        Ok(Expr::DOrA)
    } else if t == "D|M"@ {
        Ok(Expr::DOrM)
    } else {
        Err(ParseErrorV::InvalidExpr(s))
    }
}

/// The compute expression of a C-instruction.
pub fn parse_expr(compute: &str) -> (r: Result<Expr, ParseError>)
    ensures
        match r {
            Ok(e) => spec_parse_expr(compute@) == Ok::<Expr, ParseErrorV>(e),
            Err(e) => spec_parse_expr(compute@) == Err::<Expr, ParseErrorV>(e@),
        },
{
    let v = str_to_chars(compute);
    let t = remove_spaces(&v);
    if crate::text::chars_eq_str(&t, "0") {
        Ok(Expr::Zero)
    } else if crate::text::chars_eq_str(&t, "1") {
        Ok(Expr::One)
    } else if crate::text::chars_eq_str(&t, "-1") {
        Ok(Expr::NegOne)
    } else if crate::text::chars_eq_str(&t, "D") {
        Ok(Expr::D)
    } else if crate::text::chars_eq_str(&t, "A") {
        Ok(Expr::A)
    } else if crate::text::chars_eq_str(&t, "M") {
        Ok(Expr::M)
    } else if crate::text::chars_eq_str(&t, "!D") {
        Ok(Expr::NotD)
    } else if crate::text::chars_eq_str(&t, "!A") {
        Ok(Expr::NotA)
    } else if crate::text::chars_eq_str(&t, "!M") {
        Ok(Expr::NotM)
    } else if crate::text::chars_eq_str(&t, "-D") {
        Ok(Expr::NegD)
    } else if crate::text::chars_eq_str(&t, "-A") {
        Ok(Expr::NegA)
    } else if crate::text::chars_eq_str(&t, "-M") {
        Ok(Expr::NegM)
    } else if crate::text::chars_eq_str(&t, "D+1") {
        Ok(Expr::DAddOne)
    } else if crate::text::chars_eq_str(&t, "A+1") {
        Ok(Expr::AAddOne)
    } else if crate::text::chars_eq_str(&t, "M+1") {
        Ok(Expr::MAddOne)
    } else if crate::text::chars_eq_str(&t, "D-1") {
        Ok(Expr::DSubOne)
    } else if crate::text::chars_eq_str(&t, "A-1") {
        Ok(Expr::ASubOne)
    } else if crate::text::chars_eq_str(&t, "M-1") {
        Ok(Expr::MSubOne)
    } else if crate::text::chars_eq_str(&t, "D+A") {
        Ok(Expr::DAddA)
    } else if crate::text::chars_eq_str(&t, "D+M") {
        Ok(Expr::DAddM)
    } else if crate::text::chars_eq_str(&t, "D-A") {
        Ok(Expr::DSubA)
    } else if crate::text::chars_eq_str(&t, "D-M") {
        Ok(Expr::DSubM)
    } else if crate::text::chars_eq_str(&t, "A-D") {
        Ok(Expr::ASubD)
    } else if crate::text::chars_eq_str(&t, "M-D") {
        Ok(Expr::MSubD)
    } else if crate::text::chars_eq_str(&t, "D&A") {
        Ok(Expr::DAndA)
    } else if crate::text::chars_eq_str(&t, "D&M") {
        Ok(Expr::DAndM)
    } else if crate::text::chars_eq_str(&t, "D|A") {
        Ok(Expr::DOrA)
    } else if crate::text::chars_eq_str(&t, "D|M") {
        Ok(Expr::DOrM)
    } else {
        Err(ParseError::InvalidExpr(lit(compute)))
    }
}

/// What `parse_constant` returns: the value of an all-digit numeral that fits
/// in 15 bits; larger 16-bit values are out of range, all else is invalid.
pub open spec fn spec_parse_constant(s: Seq<char>) -> Result<u16, ParseErrorV> {
    if s.len() > 0 && all_dec_digits(s) && dec_val(s) <= 65535 {
        if dec_val(s) <= 32767 {
            Ok(dec_val(s) as u16)
        } else {
            Err(ParseErrorV::ConstantOutOfRange(dec_val(s) as u16))
        }
    } else {
        Err(ParseErrorV::InvalidSymbol(s))
    }
}

/// The numeric value of an A-instruction constant.
pub fn parse_constant(trimmed: &str) -> (r: Result<u16, ParseError>)
    ensures
        match r {
            Ok(n) => spec_parse_constant(trimmed@) == Ok::<u16, ParseErrorV>(n),
            Err(e) => spec_parse_constant(trimmed@) == Err::<u16, ParseErrorV>(e@),
        },
{
    let v = str_to_chars(trimmed);
    if v.len() == 0 {
        return Err(ParseError::InvalidSymbol(lit(trimmed)));
    }
    let mut value: u32 = 0;
    let mut i: usize = 0;
    assert(v@.take(0) =~= Seq::<char>::empty());
    while i < v.len()
        invariant
            0 <= i <= v@.len(),
            v@ == trimmed@,
            all_dec_digits(v@.take(i as int)),
            value == dec_val(v@.take(i as int)),
            value <= 65535,
        decreases v@.len() - i,
    {
        assert(v@.take(i + 1 as int).drop_last() =~= v@.take(i as int));
        assert(v@.take(i + 1 as int).last() == v@[i as int]);
        match crate::text::dec_digit_val(v[i]) {
            None => {
                assert(!all_dec_digits(v@));
                return Err(ParseError::InvalidSymbol(lit(trimmed)));
            }
            Some(d) => {
                let next = value * 10 + d as u32;
                if next > 65535 {
                    proof {
                        if all_dec_digits(v@) {
                            lemma_dec_val_monotonic(v@, i + 1 as int);
                        }
                    }
                    return Err(ParseError::InvalidSymbol(lit(trimmed)));
                }
                value = next;
            }
        }
        i += 1;
    }
    assert(v@.take(v@.len() as int) =~= v@);
    if value <= 32767 {
        Ok(value as u16)
    } else {
        Err(ParseError::ConstantOutOfRange(value as u16))
    }
}

/// A digit string's value only grows as more digits follow.
proof fn lemma_dec_val_monotonic(s: Seq<char>, k: int)
    requires
        all_dec_digits(s),
        0 <= k <= s.len(),
    ensures
        dec_val(s) >= dec_val(s.take(k)),
    decreases s.len() - k,
{
    if k < s.len() {
        lemma_dec_val_monotonic(s, k + 1);
        assert(s.take(k + 1).drop_last() =~= s.take(k));
        assert(dec_val(s.take(k + 1)) == dec_val(s.take(k)) * 10 + crate::text::digit_val(
            s.take(k + 1).last(),
        ));
    } else {
        assert(s.take(k) =~= s);
    }
}

/// What `parse_symbol` returns.
pub open spec fn spec_parse_symbol(s: Seq<char>) -> Result<ReferenceV, ParseErrorV> {
    Ok(ReferenceV::Symbol(s))
}

/// A symbolic reference, taken verbatim.
pub fn parse_symbol(string: &str) -> (r: Result<Reference, ParseError>)
    ensures
        match r {
            Ok(re) => spec_parse_symbol(string@) == Ok::<ReferenceV, ParseErrorV>(re@),
            Err(e) => spec_parse_symbol(string@) == Err::<ReferenceV, ParseErrorV>(e@),
        },
{
    Ok(Reference::Symbol(lit(string)))
}

/// What `parse_reference` returns: a constant if the text starts with a
/// digit, otherwise a symbol; empty text is an error.
pub open spec fn spec_parse_reference(s: Seq<char>) -> Result<ReferenceV, ParseErrorV> {
    let t = spec_trim(s);
    if t.len() == 0 {
        Err(ParseErrorV::MissingSymbol)
    } else if is_dec_digit(t[0]) {
        match spec_parse_constant(t) {
            Ok(n) => Ok(ReferenceV::Address(n)),
            Err(e) => Err(e),
        }
    } else {
        spec_parse_symbol(t)
    }
}

/// The operand of an A-instruction.
pub fn parse_reference(symbol: &str) -> (r: Result<Reference, ParseError>)
    ensures
        match r {
            Ok(re) => spec_parse_reference(symbol@) == Ok::<ReferenceV, ParseErrorV>(re@),
            Err(e) => spec_parse_reference(symbol@) == Err::<ReferenceV, ParseErrorV>(e@),
        },
{
    let v = str_to_chars(symbol);
    let t = trim_chars(&v);
    if t.len() == 0 {
        return Err(ParseError::MissingSymbol);
    }
    let ts = chars_to_string(&t);
    if crate::text::dec_digit_val(t[0]).is_some() {
        match parse_constant(ts.as_str()) {
            Ok(n) => Ok(Reference::Address(n)),
            Err(e) => Err(e),
        }
    } else {
        parse_symbol(ts.as_str())
    }
}

/// What `parse_a_inst` returns: the reference after the `@`.
pub open spec fn spec_parse_a_inst(s: Seq<char>) -> Result<InstructionV, ParseErrorV> {
    match spec_parse_reference(s.drop_first()) {
        Ok(re) => Ok(InstructionV::A(re)),
        Err(e) => Err(e),
    }
}

/// An A-instruction: `@` then an address or symbol.
pub fn parse_a_inst(instruction: &str) -> (r: Result<Instruction, ParseError>)
    requires
        instruction@.len() >= 1,
    ensures
        result_v(r) == spec_parse_a_inst(instruction@),
{
    let v = str_to_chars(instruction);
    let tail = subrange_chars(&v, 1, v.len());
    assert(tail@ =~= instruction@.drop_first());
    let ts = chars_to_string(&tail);
    match parse_reference(ts.as_str()) {
        Ok(re) => Ok(Instruction::A(re)),
        Err(e) => Err(e),
    }
}

/// What `parse_l_inst` returns: the trimmed symbol between the parentheses.
pub open spec fn spec_parse_l_inst(s: Seq<char>) -> Result<InstructionV, ParseErrorV> {
    let tail = s.drop_first();
    if tail.len() == 0 {
        Err(ParseErrorV::MissingClosingParen(s))
    } else if tail.last() != ')' {
        Err(ParseErrorV::MissingClosingParen(s))
    } else {
        Ok(InstructionV::L(spec_trim(tail.drop_last())))
    }
}

/// A label line: `(symbol)`.
pub fn parse_l_inst(instruction: &str) -> (r: Result<Instruction, ParseError>)
    requires
        instruction@.len() >= 1,
    ensures
        result_v(r) == spec_parse_l_inst(instruction@),
{
    let v = str_to_chars(instruction);
    if v.len() == 1 {
        assert(instruction@.drop_first().len() == 0);
        return Err(ParseError::MissingClosingParen(lit(instruction)));
    }
    if v[v.len() - 1] != ')' {
        assert(instruction@.drop_first().last() == instruction@[instruction@.len() - 1]);
        return Err(ParseError::MissingClosingParen(lit(instruction)));
    }
    let inner = subrange_chars(&v, 1, v.len() - 1);
    assert(inner@ =~= instruction@.drop_first().drop_last());
    assert(instruction@.drop_first().last() == instruction@[instruction@.len() - 1]);
    let t = trim_chars(&inner);
    Ok(Instruction::L(chars_to_string(&t)))
}

/// What `parse_c_inst` returns: `[dest=]comp[;jump]`, destination parsed
/// first, then the jump, then the compute expression.
pub open spec fn spec_parse_c_inst(s: Seq<char>) -> Result<InstructionV, ParseErrorV> {
    let e = find_char(s, '=');
    let dest_s = if e >= 0 {
        s.subrange(0, e)
    } else {
        Seq::<char>::empty()
    };
    let caj = if e >= 0 {
        s.subrange(e + 1, s.len() as int)
    } else {
        s
    };
    match spec_parse_dest(dest_s) {
        Err(err) => Err(err),
        Ok(dest) => {
            let j = find_char(caj, ';');
            let expr_s = if j >= 0 {
                caj.subrange(0, j)
            } else {
                caj
            };
            let jump_s = if j >= 0 {
                caj.subrange(j + 1, caj.len() as int)
            } else {
                Seq::<char>::empty()
            };
            match spec_parse_jump(jump_s) {
                Err(err) => Err(err),
                Ok(jump) => match spec_parse_expr(expr_s) {
                    Err(err) => Err(err),
                    Ok(expr) => Ok(InstructionV::C(dest, expr, jump)),
                },
            }
        },
    }
}

/// A C-instruction: optional destination, compute expression, optional jump.
pub fn parse_c_inst(instruction: &str) -> (r: Result<Instruction, ParseError>)
    ensures
        result_v(r) == spec_parse_c_inst(instruction@),
{
    let v = str_to_chars(instruction);
    let (dest_v, caj_v) = match find_in_chars(&v, '=') {
        Some(idx) => {
            assert(idx < v@.len());
            (subrange_chars(&v, 0, idx), subrange_chars(&v, idx + 1, v.len()))
        },
        None => (Vec::new(), subrange_chars(&v, 0, v.len())),
    };
    assert(caj_v@ =~= (if find_char(instruction@, '=') >= 0 {
        instruction@.subrange(find_char(instruction@, '=') + 1, instruction@.len() as int)
    } else {
        instruction@
    }));
    let dest_s = chars_to_string(&dest_v);
    let dest = match parse_dest(dest_s.as_str()) {
        Ok(d) => d,
        Err(e) => {
            return Err(e);
        },
    };
    let (expr_v, jump_v) = match find_in_chars(&caj_v, ';') {
        Some(idx) => {
            assert(idx < caj_v@.len());
            (subrange_chars(&caj_v, 0, idx), subrange_chars(&caj_v, idx + 1, caj_v.len()))
        },
        None => (subrange_chars(&caj_v, 0, caj_v.len()), Vec::new()),
    };
    assert(expr_v@ =~= (if find_char(caj_v@, ';') >= 0 {
        caj_v@.subrange(0, find_char(caj_v@, ';'))
    } else {
        caj_v@
    }));
    let jump_s = chars_to_string(&jump_v);
    let jump = match parse_jump(jump_s.as_str()) {
        Ok(j) => j,
        Err(e) => {
            return Err(e);
        },
    };
    let expr_s = chars_to_string(&expr_v);
    let expr = match parse_expr(expr_s.as_str()) {
        Ok(e) => e,
        Err(e) => {
            return Err(e);
        },
    };
    Ok(Instruction::C(dest, expr, jump))
}

/// What `parse_instruction` returns, on the trimmed line: a label, an
/// A-instruction, or a C-instruction by the first character.
pub open spec fn spec_parse_instruction(s: Seq<char>) -> Result<InstructionV, ParseErrorV> {
    let t = spec_trim(s);
    if t.len() > 0 && t[0] == '(' {
        spec_parse_l_inst(t)
    } else if t.len() > 0 && t[0] == '@' {
        spec_parse_a_inst(t)
    } else {
        spec_parse_c_inst(t)
    }
}

/// One instruction, leading and trailing whitespace ignored.
pub fn parse_instruction(instruction: &str) -> (r: Result<Instruction, ParseError>)
    ensures
        result_v(r) == spec_parse_instruction(instruction@),
{
    let v = str_to_chars(instruction);
    let t = trim_chars(&v);
    let ts = chars_to_string(&t);
    if t.len() > 0 && t[0] == '(' {
        parse_l_inst(ts.as_str())
    } else if t.len() > 0 && t[0] == '@' {
        parse_a_inst(ts.as_str())
    } else {
        parse_c_inst(ts.as_str())
    }
}

/// What `parse_line` returns: nothing for a blank or comment-only line,
/// otherwise the parsed instruction.
pub open spec fn spec_parse_line(l: Seq<char>) -> Option<Result<InstructionV, ParseErrorV>> {
    let code = spec_trim(before_comment(l));
    if code.len() == 0 {
        None
    } else {
        Some(spec_parse_instruction(code))
    }
}

/// One source line: strip any `//` comment, skip blank lines, parse the rest.
pub fn parse_line(line: &str) -> (r: Option<Result<Instruction, ParseError>>)
    ensures
        match r {
            None => spec_parse_line(line@) is None,
            Some(res) => spec_parse_line(line@) == Some(result_v(res)),
        },
{
    let v = str_to_chars(line);
    let stripped = strip_comment(&v);
    let t = trim_chars(&stripped);
    if t.len() == 0 {
        None
    } else {
        let ts = chars_to_string(&t);
        proof {
            crate::text::lemma_trim_idempotent(stripped@);
        }
        Some(parse_instruction(ts.as_str()))
    }
}

/// What `parse_lines` returns: the instructions of the good lines in order,
/// and for each bad line its 0-based number with its error.
pub open spec fn spec_parse_lines(ls: Seq<Seq<char>>) -> (Seq<InstructionV>, Seq<
    (nat, ParseErrorV),
>)
    decreases ls.len(),
{
    if ls.len() == 0 {
        (Seq::empty(), Seq::empty())
    } else {
        let (is, es) = spec_parse_lines(ls.drop_last());
        let n = (ls.len() - 1) as nat;
        match spec_parse_line(ls.last()) {
            None => (is, es),
            Some(Ok(i)) => (is.push(i), es),
            Some(Err(e)) => (is, es.push((n, e))),
        }
    }
}

/// The instruction list's view.
pub open spec fn instrs_v(v: Seq<Instruction>) -> Seq<InstructionV> {
    v.map_values(|i: Instruction| i@)
}

/// The error list's view.
pub open spec fn errors_v(v: Seq<(usize, ParseError)>) -> Seq<(nat, ParseErrorV)> {
    v.map_values(|e: (usize, ParseError)| (e.0 as nat, e.1@))
}

/// Parses every line; returns the instructions of the lines that parse and
/// the (line number, error) pairs of the lines that do not.
pub fn parse_lines(lines: &Vec<String>) -> (r: (Vec<Instruction>, Vec<(usize, ParseError)>))
    ensures
        (instrs_v(r.0@), errors_v(r.1@)) == spec_parse_lines(lines.deep_view()),
{
    let mut instructions: Vec<Instruction> = Vec::new();
    let mut errors: Vec<(usize, ParseError)> = Vec::new();
    let mut i: usize = 0;
    assert(lines.deep_view().take(0) =~= Seq::<Seq<char>>::empty());
    assert(instrs_v(instructions@) =~= Seq::<InstructionV>::empty());
    assert(errors_v(errors@) =~= Seq::<(nat, ParseErrorV)>::empty());
    while i < lines.len()
        invariant
            0 <= i <= lines@.len(),
            lines.deep_view().len() == lines@.len(),
            (instrs_v(instructions@), errors_v(errors@)) == spec_parse_lines(
                lines.deep_view().take(i as int),
            ),
        decreases lines@.len() - i,
    {
        assert(lines.deep_view().take(i + 1 as int).drop_last() =~= lines.deep_view().take(
            i as int,
        ));
        assert(lines.deep_view().take(i + 1 as int).last() == lines.deep_view()[i as int]);
        assert(lines.deep_view()[i as int] == lines@[i as int]@);
        match parse_line(lines[i].as_str()) {
            None => (),
            Some(Ok(instr)) => {
                instructions.push(instr);
                assert(instrs_v(instructions@) =~= instrs_v(instructions@.drop_last()).push(
                    instructions@.last()@,
                ));
            }
            Some(Err(e)) => {
                errors.push((i, e));
                assert(errors_v(errors@) =~= errors_v(errors@.drop_last()).push(
                    (errors@.last().0 as nat, errors@.last().1@),
                ));
            }
        }
        assert(instrs_v(instructions@) == spec_parse_lines(
            lines.deep_view().take(i + 1 as int),
        ).0);
        assert(errors_v(errors@) == spec_parse_lines(lines.deep_view().take(i + 1 as int)).1);
        i += 1;
    }
    assert(lines.deep_view().take(lines@.len() as int) =~= lines.deep_view());
    (instructions, errors)
}

} // verus!
