//! The VM parser: one command per line, `//` comments kept as `Comment`
//! entries.

use vstd::prelude::*;

use crate::text::{
    all_dec_digits, before_comment, chars_to_string, comment_start_at, dec_val, lit, spec_trim,
    split_whitespace_chars, split_ws, str_to_chars, strip_comment, trim_chars,
};
use crate::vm::ast::{Command, CommandV, Segment};

verus! {

/// What can go wrong on one line of VM source.
#[derive(Debug, PartialEq, Eq, Clone)]
pub enum ParseError {
    InvalidCommand(String),
    Invalid1WordCommand(String),
    Invalid2WordCommand(String),
    Invalid3WordCommand(String),
    InvalidSegment(String),
    InvalidIndex(String),
    IndexOutOfRange(u16),
}

/// The mathematical value of a `ParseError`.
pub enum ParseErrorV {
    InvalidCommand(Seq<char>),
    Invalid1WordCommand(Seq<char>),
    Invalid2WordCommand(Seq<char>),
    Invalid3WordCommand(Seq<char>),
    InvalidSegment(Seq<char>),
    InvalidIndex(Seq<char>),
    IndexOutOfRange(u16),
}

impl View for ParseError {
    type V = ParseErrorV;

    open spec fn view(&self) -> ParseErrorV {
        match self {
            ParseError::InvalidCommand(s) => ParseErrorV::InvalidCommand(s@),
            ParseError::Invalid1WordCommand(s) => ParseErrorV::Invalid1WordCommand(s@),
            ParseError::Invalid2WordCommand(s) => ParseErrorV::Invalid2WordCommand(s@),
            ParseError::Invalid3WordCommand(s) => ParseErrorV::Invalid3WordCommand(s@),
            ParseError::InvalidSegment(s) => ParseErrorV::InvalidSegment(s@),
            ParseError::InvalidIndex(s) => ParseErrorV::InvalidIndex(s@),
            ParseError::IndexOutOfRange(n) => ParseErrorV::IndexOutOfRange(*n),
        }
    }
}

/// The view of a parse result.
pub open spec fn result_v(r: Result<Command, ParseError>) -> Result<CommandV, ParseErrorV> {
    match r {
        Ok(c) => Ok(c@),
        Err(e) => Err(e@),
    }
}

/// What `parse_command1` returns: the arithmetic commands and `return`.
pub open spec fn spec_parse_command1(w: Seq<char>) -> Result<CommandV, ParseErrorV> {
    if w == "add"@ {
        Ok(CommandV::Add)
    } else if w == "sub"@ {
        Ok(CommandV::Sub)
    } else if w == "neg"@ {
        Ok(CommandV::Neg)
    } else if w == "eq"@ {
        Ok(CommandV::Eq)
    } else if w == "gt"@ {
        Ok(CommandV::Gt)
    } else if w == "lt"@ {
        Ok(CommandV::Lt)
    } else if w == "and"@ {
        Ok(CommandV::And)
    } else if w == "or"@ {
        Ok(CommandV::Or)
    } else if w == "not"@ {
        Ok(CommandV::Not)
    } else if w == "return"@ {
        Ok(CommandV::Return)
    } else {
        Err(ParseErrorV::Invalid1WordCommand(w))
    }
}

/// A one-word command.
pub fn parse_command1(command: &str) -> (r: Result<Command, ParseError>)
    ensures
        result_v(r) == spec_parse_command1(command@),
{
    let v = str_to_chars(command);
    if crate::text::chars_eq_str(&v, "add") {
        Ok(Command::Add)
    } else if crate::text::chars_eq_str(&v, "sub") {
        Ok(Command::Sub)
    } else if crate::text::chars_eq_str(&v, "neg") {
        Ok(Command::Neg)
    } else if crate::text::chars_eq_str(&v, "eq") {
        Ok(Command::Eq)
    } else if crate::text::chars_eq_str(&v, "gt") {
        Ok(Command::Gt)
    } else if crate::text::chars_eq_str(&v, "lt") {
        Ok(Command::Lt)
    } else if crate::text::chars_eq_str(&v, "and") {
        Ok(Command::And)
    } else if crate::text::chars_eq_str(&v, "or") {
        Ok(Command::Or)
    } else if crate::text::chars_eq_str(&v, "not") {
        Ok(Command::Not)
    } else if crate::text::chars_eq_str(&v, "return") {
        Ok(Command::Return)
    } else {
        Err(ParseError::Invalid1WordCommand(lit(command)))
    }
}

/// What `parse_command2` returns: the branching commands.
pub open spec fn spec_parse_command2(c: Seq<char>, arg: Seq<char>) -> Result<
    CommandV,
    ParseErrorV,
> {
    if c == "if-goto"@ {
        Ok(CommandV::IfGoto(arg))
    } else if c == "goto"@ {
        Ok(CommandV::Goto(arg))
    } else if c == "label"@ {
        Ok(CommandV::Label(arg))
    } else {
        Err(ParseErrorV::Invalid2WordCommand(c))
    }
}

/// A two-word command: a branch or a label, the argument taken verbatim.
pub fn parse_command2(command: &str, arg: &str) -> (r: Result<Command, ParseError>)
    ensures
        result_v(r) == spec_parse_command2(command@, arg@),
{
    let v = str_to_chars(command);
    if crate::text::chars_eq_str(&v, "if-goto") {
        Ok(Command::IfGoto(lit(arg)))
    } else if crate::text::chars_eq_str(&v, "goto") {
        Ok(Command::Goto(lit(arg)))
    } else if crate::text::chars_eq_str(&v, "label") {
        Ok(Command::Label(lit(arg)))
    } else {
        Err(ParseError::Invalid2WordCommand(lit(command)))
    }
}

/// What `parse_segment` returns: one of the eight segment names.
pub open spec fn spec_parse_segment(w: Seq<char>) -> Result<Segment, ParseErrorV> {
    if w == "argument"@ {
        Ok(Segment::Argument)
    } else if w == "local"@ {
        Ok(Segment::Local)
    } else if w == "static"@ {
        Ok(Segment::Static)
    } else if w == "constant"@ {
        Ok(Segment::Constant)
    } else if w == "this"@ {
        Ok(Segment::This)
    } else if w == "that"@ {
        Ok(Segment::That)
    } else if w == "pointer"@ {
        Ok(Segment::Pointer)
    } else if w == "temp"@ {
        Ok(Segment::Temp)
    } else {
        Err(ParseErrorV::InvalidSegment(w))
    }
}

/// A segment name.
pub fn parse_segment(arg1: &str) -> (r: Result<Segment, ParseError>)
    ensures
        match r {
            Ok(s) => spec_parse_segment(arg1@) == Ok::<Segment, ParseErrorV>(s),
            Err(e) => spec_parse_segment(arg1@) == Err::<Segment, ParseErrorV>(e@),
        },
{
    let v = str_to_chars(arg1);
    if crate::text::chars_eq_str(&v, "argument") {
        Ok(Segment::Argument)
    } else if crate::text::chars_eq_str(&v, "local") {
        Ok(Segment::Local)
    } else if crate::text::chars_eq_str(&v, "static") {
        Ok(Segment::Static)
    } else if crate::text::chars_eq_str(&v, "constant") {
        Ok(Segment::Constant)
    } else if crate::text::chars_eq_str(&v, "this") {
        Ok(Segment::This)
    } else if crate::text::chars_eq_str(&v, "that") {
        Ok(Segment::That)
    } else if crate::text::chars_eq_str(&v, "pointer") {
        Ok(Segment::Pointer)
    } else if crate::text::chars_eq_str(&v, "temp") {
        Ok(Segment::Temp)
    } else {
        Err(ParseError::InvalidSegment(lit(arg1)))
    }
}

/// What `parse_index` returns: the value of an all-digit numeral that fits in
/// 15 bits; larger 16-bit values are out of range, all else is invalid.
pub open spec fn spec_parse_index(w: Seq<char>) -> Result<u16, ParseErrorV> {
    if w.len() > 0 && all_dec_digits(w) && dec_val(w) <= 65535 {
        if dec_val(w) <= 32767 {
            Ok(dec_val(w) as u16)
        } else {
            Err(ParseErrorV::IndexOutOfRange(dec_val(w) as u16))
        }
    } else {
        Err(ParseErrorV::InvalidIndex(w))
    }
}

/// A segment index or count.
pub fn parse_index(arg2: &str) -> (r: Result<u16, ParseError>)
    ensures
        match r {
            Ok(n) => spec_parse_index(arg2@) == Ok::<u16, ParseErrorV>(n),
            Err(e) => spec_parse_index(arg2@) == Err::<u16, ParseErrorV>(e@),
        },
{
    let v = str_to_chars(arg2);
    if v.len() == 0 {
        return Err(ParseError::InvalidIndex(lit(arg2)));
    }
    let mut value: u32 = 0;
    let mut i: usize = 0;
    assert(v@.take(0) =~= Seq::<char>::empty());
    while i < v.len()
        invariant
            0 <= i <= v@.len(),
            v@ == arg2@,
            all_dec_digits(v@.take(i as int)),
            value == dec_val(v@.take(i as int)),
            value <= 65535,
        decreases v@.len() - i,
    {
        assert(v@.take(i + 1 as int).drop_last() =~= v@.take(i as int));
        assert(v@.take(i + 1 as int).last() == v@[i as int]);
        match crate::text::dec_digit_val(v[i]) {
            None => {
                assert(!all_dec_digits(v@));
                return Err(ParseError::InvalidIndex(lit(arg2)));
            }
            Some(d) => {
                let next = value * 10 + d as u32;
                if next > 65535 {
                    proof {
                        if all_dec_digits(v@) {
                            lemma_dec_val_grows(v@, i + 1 as int);
                        }
                    }
                    return Err(ParseError::InvalidIndex(lit(arg2)));
                }
                value = next;
            }
        }
        i += 1;
    }
    assert(v@.take(v@.len() as int) =~= v@);
    if value <= 32767 {
        Ok(value as u16)
    } else {
        Err(ParseError::IndexOutOfRange(value as u16))
    }
}

/// A digit string's value only grows as more digits follow.
proof fn lemma_dec_val_grows(s: Seq<char>, k: int)
    requires
        all_dec_digits(s),
        0 <= k <= s.len(),
    ensures
        dec_val(s) >= dec_val(s.take(k)),
    decreases s.len() - k,
{
    if k < s.len() {
        lemma_dec_val_grows(s, k + 1);
        assert(s.take(k + 1).drop_last() =~= s.take(k));
        assert(dec_val(s.take(k + 1)) == dec_val(s.take(k)) * 10 + crate::text::digit_val(
            s.take(k + 1).last(),
        ));
    } else {
        assert(s.take(k) =~= s);
    }
}

/// What `parse_command3` returns: stack moves and function commands.
pub open spec fn spec_parse_command3(c: Seq<char>, arg1: Seq<char>, arg2: Seq<char>) -> Result<
    CommandV,
    ParseErrorV,
> {
    if c == "push"@ {
        match spec_parse_segment(arg1) {
            Err(e) => Err(e),
            Ok(seg) => match spec_parse_index(arg2) {
                Err(e) => Err(e),
                Ok(i) => Ok(CommandV::Push(seg, i)),
            },
        }
    } else if c == "pop"@ {
        match spec_parse_segment(arg1) {
            Err(e) => Err(e),
            Ok(seg) => match spec_parse_index(arg2) {
                Err(e) => Err(e),
                Ok(i) => Ok(CommandV::Pop(seg, i)),
            },
        }
    } else if c == "function"@ {
        match spec_parse_index(arg2) {
            Err(e) => Err(e),
            Ok(n) => Ok(CommandV::Function(arg1, n)),
        }
    } else if c == "call"@ {
        match spec_parse_index(arg2) {
            Err(e) => Err(e),
            Ok(n) => Ok(CommandV::Call(arg1, n)),
        }
    } else {
        Err(ParseErrorV::Invalid3WordCommand(c))
    }
}

/// A three-word command: a stack move, a function head, or a call.
pub fn parse_command3(command: &str, arg1: &str, arg2: &str) -> (r: Result<Command, ParseError>)
    ensures
        result_v(r) == spec_parse_command3(command@, arg1@, arg2@),
{
    let v = str_to_chars(command);
    if crate::text::chars_eq_str(&v, "push") {
        let segment = match parse_segment(arg1) {
            Ok(s) => s,
            Err(e) => {
                return Err(e);
            },
        };
        let index = match parse_index(arg2) {
            Ok(i) => i,
            Err(e) => {
                return Err(e);
            },
        };
        Ok(Command::Push(segment, index))
    } else if crate::text::chars_eq_str(&v, "pop") {
        let segment = match parse_segment(arg1) {
            Ok(s) => s,
            Err(e) => {
                return Err(e);
            },
        };
        let index = match parse_index(arg2) {
            Ok(i) => i,
            Err(e) => {
                return Err(e);
            },
        };
        Ok(Command::Pop(segment, index))
    } else if crate::text::chars_eq_str(&v, "function") {
        match parse_index(arg2) {
            Ok(n) => Ok(Command::Function(lit(arg1), n)),
            Err(e) => Err(e),
        }
    } else if crate::text::chars_eq_str(&v, "call") {
        match parse_index(arg2) {
            Ok(n) => Ok(Command::Call(lit(arg1), n)),
            Err(e) => Err(e),
        }
    } else {
        Err(ParseError::Invalid3WordCommand(lit(command)))
    }
}

/// What `parse_command` returns: the command of a line already stripped of
/// comments and outer whitespace, by its word count.
pub open spec fn spec_parse_command(s: Seq<char>) -> Result<CommandV, ParseErrorV> {
    let ws = split_ws(s);
    if ws.len() == 1 {
        spec_parse_command1(ws[0])
    } else if ws.len() == 2 {
        spec_parse_command2(ws[0], ws[1])
    } else if ws.len() == 3 {
        spec_parse_command3(ws[0], ws[1], ws[2])
    } else {
        Err(ParseErrorV::InvalidCommand(ws[0]))
    }
}

/// One command, split on whitespace.
pub fn parse_command(command: &str) -> (r: Result<Command, ParseError>)
    requires
        split_ws(command@).len() > 0,
    ensures
        result_v(r) == spec_parse_command(command@),
{
    let v = str_to_chars(command);
    let words = split_whitespace_chars(&v);
    proof {
        assert(forall|k: int|
            0 <= k < words@.len() ==> (#[trigger] words@[k]).deep_view() =~= words@[k]@);
        assert(forall|k: int|
            0 <= k < words@.len() ==> words.deep_view()[k] == (#[trigger] words@[k]).deep_view());
    }
    if words.len() == 1 {
        let w0 = chars_to_string(&words[0]);
        parse_command1(w0.as_str())
    } else if words.len() == 2 {
        let w0 = chars_to_string(&words[0]);
        let w1 = chars_to_string(&words[1]);
        parse_command2(w0.as_str(), w1.as_str())
    } else if words.len() == 3 {
        let w0 = chars_to_string(&words[0]);
        let w1 = chars_to_string(&words[1]);
        let w2 = chars_to_string(&words[2]);
        parse_command3(w0.as_str(), w1.as_str(), w2.as_str())
    } else {
        let w0 = chars_to_string(&words[0]);
        Err(ParseError::InvalidCommand(w0))
    }
}

/// What `parse_line` returns: a blank or comment-only line is kept verbatim
/// as a `Comment`; anything else is parsed after comment stripping.
pub open spec fn spec_parse_line(l: Seq<char>) -> Result<CommandV, ParseErrorV> {
    let trimmed = spec_trim(l);
    if trimmed.len() == 0 || comment_start_at(trimmed, 0) {
        Ok(CommandV::Comment(l))
    } else {
        spec_parse_command(spec_trim(before_comment(trimmed)))
    }
}

/// One source line.
pub fn parse_line(line: &str) -> (r: Result<Command, ParseError>)
    ensures
        result_v(r) == spec_parse_line(line@),
{
    let v = str_to_chars(line);
    let trimmed = trim_chars(&v);
    if trimmed.len() == 0 || (trimmed.len() >= 2 && trimmed[0] == '/' && trimmed[1] == '/') {
        Ok(Command::Comment(lit(line)))
    } else {
        let stripped = strip_comment(&trimmed);
        let code = trim_chars(&stripped);
        proof {
            lemma_code_words_nonempty(line@);
        }
        let cs = chars_to_string(&code);
        parse_command(cs.as_str())
    }
}

/// A trimmed, comment-stripped, non-blank line has at least one word.
proof fn lemma_code_words_nonempty(l: Seq<char>)
    requires
        spec_trim(l).len() > 0,
        !comment_start_at(spec_trim(l), 0),
    ensures
        split_ws(spec_trim(before_comment(spec_trim(l)))).len() > 0,
        spec_trim(before_comment(spec_trim(l))).len() > 0,
{
    let trimmed = spec_trim(l);
    crate::text::lemma_trim_props(l);
    // the first character of `trimmed` survives comment stripping
    assert(before_comment(trimmed).len() > 0 && before_comment(trimmed)[0] == trimmed[0]) by {
        if trimmed.len() == 1 {
            assert(before_comment(trimmed) =~= seq![trimmed[0]] + before_comment(
                trimmed.drop_first(),
            ));
        } else {
            assert(before_comment(trimmed) =~= seq![trimmed[0]] + before_comment(
                trimmed.drop_first(),
            ));
        }
    }
    let stripped = before_comment(trimmed);
    // the first character is not a blank, so trimming keeps a non-empty text
    assert(!crate::text::is_space_char(stripped[0]));
    assert(crate::text::trim_start_rec(stripped) == stripped);
    crate::text::lemma_trim_props(stripped);
    let code = spec_trim(stripped);
    assert(code == crate::text::trim_end_rec(stripped));
    lemma_trim_end_keeps_nonblank(stripped);
    assert(code.len() > 0);
    assert(crate::text::trim_start_rec(code) == code) by {
        lemma_trim_end_first_keeps(stripped);
    }
    assert(split_ws(code).len() > 0);
}

/// Trimming the end of a text that starts with a non-blank keeps a non-empty
/// text that still starts with that character.
proof fn lemma_trim_end_keeps_nonblank(s: Seq<char>)
    requires
        s.len() > 0,
        !crate::text::is_space_char(s[0]),
    ensures
        crate::text::trim_end_rec(s).len() > 0,
    decreases s.len(),
{
    if crate::text::is_space_char(s.last()) {
        assert(s.len() > 1);
        lemma_trim_end_keeps_nonblank(s.drop_last());
    }
}

proof fn lemma_trim_end_first_keeps(s: Seq<char>)
    requires
        s.len() > 0,
        !crate::text::is_space_char(s[0]),
    ensures
        crate::text::trim_end_rec(s).len() > 0 ==> crate::text::trim_end_rec(s)[0] == s[0],
    decreases s.len(),
{
    if crate::text::is_space_char(s.last()) && s.len() > 1 {
        lemma_trim_end_first_keeps(s.drop_last());
    }
}

/// What `parse_lines` yields: the commands of the good lines in order, and
/// for each bad line its 0-based number with its error.
pub open spec fn spec_parse_lines(ls: Seq<Seq<char>>) -> (Seq<CommandV>, Seq<(nat, ParseErrorV)>)
    decreases ls.len(),
{
    if ls.len() == 0 {
        (Seq::empty(), Seq::empty())
    } else {
        let (cs, es) = spec_parse_lines(ls.drop_last());
        let n = (ls.len() - 1) as nat;
        match spec_parse_line(ls.last()) {
            Ok(c) => (cs.push(c), es),
            Err(e) => (cs, es.push((n, e))),
        }
    }
}

/// The command list's view.
pub open spec fn commands_v(v: Seq<Command>) -> Seq<CommandV> {
    v.map_values(|c: Command| c@)
}

/// The error list's view.
pub open spec fn errors_v(v: Seq<(usize, ParseError)>) -> Seq<(nat, ParseErrorV)> {
    v.map_values(|e: (usize, ParseError)| (e.0 as nat, e.1@))
}

/// Parses every line; the whole input is rejected if any line fails, and the
/// errors carry their 0-based line numbers.
pub fn parse_lines(lines: &Vec<String>) -> (r: Result<Vec<Command>, Vec<(usize, ParseError)>>)
    ensures
        match r {
            Ok(cmds) => commands_v(cmds@) == spec_parse_lines(lines.deep_view()).0
                && spec_parse_lines(lines.deep_view()).1.len() == 0,
            Err(errs) => errs@.len() > 0 && errors_v(errs@) == spec_parse_lines(
                lines.deep_view(),
            ).1,
        },
{
    let mut commands: Vec<Command> = Vec::new();
    let mut errors: Vec<(usize, ParseError)> = Vec::new();
    let mut i: usize = 0;
    assert(lines.deep_view().take(0) =~= Seq::<Seq<char>>::empty());
    assert(commands_v(commands@) =~= Seq::<CommandV>::empty());
    assert(errors_v(errors@) =~= Seq::<(nat, ParseErrorV)>::empty());
    while i < lines.len()
        invariant
            0 <= i <= lines@.len(),
            lines.deep_view().len() == lines@.len(),
            (commands_v(commands@), errors_v(errors@)) == spec_parse_lines(
                lines.deep_view().take(i as int),
            ),
        decreases lines@.len() - i,
    {
        assert(lines.deep_view().take(i + 1 as int).drop_last() =~= lines.deep_view().take(
            i as int,
        ));
        assert(lines.deep_view().take(i + 1 as int).last() == lines.deep_view()[i as int]);
        assert(lines.deep_view()[i as int] == lines@[i as int]@);
        match parse_line(lines[i].as_str()) {
            Ok(command) => {
                commands.push(command);
                assert(commands_v(commands@) =~= commands_v(commands@.drop_last()).push(
                    commands@.last()@,
                ));
            }
            Err(e) => {
                errors.push((i, e));
                assert(errors_v(errors@) =~= errors_v(errors@.drop_last()).push(
                    (errors@.last().0 as nat, errors@.last().1@),
                ));
            }
        }
        assert(commands_v(commands@) == spec_parse_lines(lines.deep_view().take(i + 1 as int)).0);
        assert(errors_v(errors@) == spec_parse_lines(lines.deep_view().take(i + 1 as int)).1);
        i += 1;
    }
    assert(lines.deep_view().take(lines@.len() as int) =~= lines.deep_view());
    if errors.len() == 0 {
        assert(errors_v(errors@) =~= Seq::<(nat, ParseErrorV)>::empty());
        Ok(commands)
    } else {
        Err(errors)
    }
}

} // verus!
