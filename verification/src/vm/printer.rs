//! The VM printer: one command back to its source text.

use vstd::prelude::*;

use crate::text::{
    all_dec_digits, comment_start_at, dec_rep, is_space_char, lemma_before_comment_whole,
    lemma_dec_rep_digits, lemma_dec_val_of_rep, lemma_digits_plain, lemma_no_comment_concat,
    lemma_split_cons, lemma_split_word, lemma_trim_of_clean, lit, no_comment, no_space, spec_trim,
    split_ws, u16_to_string,
};
use crate::vm::ast::{Command, CommandV, Segment};
use crate::vm::parser::{
    spec_parse_command, spec_parse_command1, spec_parse_command2, spec_parse_command3,
    spec_parse_index, spec_parse_line, spec_parse_segment, ParseErrorV,
};

verus! {

/// The source name of a segment.
pub open spec fn seg_name(s: Segment) -> Seq<char> {
    match s {
        Segment::Argument => "argument"@,
        Segment::Local => "local"@,
        Segment::Static => "static"@,
        Segment::Constant => "constant"@,
        Segment::This => "this"@,
        Segment::That => "that"@,
        Segment::Pointer => "pointer"@,
        Segment::Temp => "temp"@,
    }
}

/// The source text of a command, as the parser reads it back.
pub open spec fn spec_print_command(c: CommandV) -> Seq<char> {
    match c {
        CommandV::Push(s, i) => "push"@ + " "@ + seg_name(s) + " "@ + dec_rep(i as nat),
        CommandV::Pop(s, i) => "pop"@ + " "@ + seg_name(s) + " "@ + dec_rep(i as nat),
        CommandV::Add => "add"@,
        CommandV::Sub => "sub"@,
        CommandV::Neg => "neg"@,
        CommandV::Eq => "eq"@,
        CommandV::Gt => "gt"@,
        CommandV::Lt => "lt"@,
        CommandV::And => "and"@,
        CommandV::Or => "or"@,
        CommandV::Not => "not"@,
        CommandV::Goto(l) => "goto"@ + " "@ + l,
        CommandV::IfGoto(l) => "if-goto"@ + " "@ + l,
        CommandV::Label(l) => "label"@ + " "@ + l,
        CommandV::Function(f, n) => "function"@ + " "@ + f + " "@ + dec_rep(n as nat),
        CommandV::Call(f, n) => "call"@ + " "@ + f + " "@ + dec_rep(n as nat),
        CommandV::Return => "return"@,
        CommandV::Comment(s) => s,
    }
}

/// The decimal text of a segment index.
pub fn print_index(index: u16) -> (r: String)
    ensures
        r@ == dec_rep(index as nat),
{
    u16_to_string(index)
}

/// The source name of a segment.
pub fn print_segment(segment: &Segment) -> (r: String)
    ensures
        r@ == seg_name(*segment),
{
    match segment {
        Segment::Argument => lit("argument"),
        Segment::Local => lit("local"),
        Segment::Static => lit("static"),
        Segment::Constant => lit("constant"),
        Segment::This => lit("this"),
        Segment::That => lit("that"),
        Segment::Pointer => lit("pointer"),
        Segment::Temp => lit("temp"),
    }
}

/// A two-word command as text.
pub fn print_command2(command: &str, label: &str) -> (r: String)
    ensures
        r@ == command@ + " "@ + label@,
{
    lit(command).concat(" ").concat(label)
}

/// A three-word command as text.
pub fn print_command3(command: &str, arg1: &str, arg2: &str) -> (r: String)
    ensures
        r@ == command@ + " "@ + arg1@ + " "@ + arg2@,
{
    lit(command).concat(" ").concat(arg1).concat(" ").concat(arg2)
}

/// A stack move as text.
pub fn print_push_pop(arg: &str, segment: &Segment, index: u16) -> (r: String)
    ensures
        r@ == arg@ + " "@ + seg_name(*segment) + " "@ + dec_rep(index as nat),
{
    let seg_s = print_segment(segment);
    let ind_s = print_index(index);
    lit(arg).concat(" ").concat(seg_s.as_str()).concat(" ").concat(ind_s.as_str())
}

/// The source text of one command.
pub fn print_command(command: &Command) -> (r: String)
    ensures
        r@ == spec_print_command(command@),
{
    match command {
        Command::Push(segment, index) => print_push_pop("push", segment, *index),
        Command::Pop(segment, index) => print_push_pop("pop", segment, *index),
        Command::Add => lit("add"),
        Command::Sub => lit("sub"),
        Command::Neg => lit("neg"),
        Command::Eq => lit("eq"),
        Command::Gt => lit("gt"),
        Command::Lt => lit("lt"),
        Command::And => lit("and"),
        Command::Or => lit("or"),
        Command::Not => lit("not"),
        Command::Goto(label) => print_command2("goto", label.as_str()),
        Command::IfGoto(label) => print_command2("if-goto", label.as_str()),
        Command::Label(label) => print_command2("label", label.as_str()),
        Command::Function(function, n_locals) => {
            let n = u16_to_string(*n_locals);
            print_command3("function", function.as_str(), n.as_str())
        }
        Command::Call(function, n_args) => {
            let n = u16_to_string(*n_args);
            print_command3("call", function.as_str(), n.as_str())
        }
        Command::Return => lit("return"),
        Command::Comment(comment) => lit(comment.as_str()),
    }
}

/// A name the printer may emit and the parser will read back whole: it is
/// non-empty and has no whitespace and no `//` inside.
pub open spec fn wf_name(s: Seq<char>) -> bool {
    s.len() > 0 && no_space(s) && no_comment(s)
}

/// The commands whose printed line reads back as the same command: names are
/// well formed, counts fit in 15 bits, and a comment is blank or starts with
/// `//` once trimmed.
pub open spec fn wf_command(c: CommandV) -> bool {
    match c {
        CommandV::Push(_, i) => i <= 32767,
        CommandV::Pop(_, i) => i <= 32767,
        CommandV::Goto(l) => wf_name(l),
        CommandV::IfGoto(l) => wf_name(l),
        CommandV::Label(l) => wf_name(l),
        CommandV::Function(f, n) => wf_name(f) && n <= 32767,
        CommandV::Call(f, n) => wf_name(f) && n <= 32767,
        CommandV::Comment(s) => spec_trim(s).len() == 0 || comment_start_at(spec_trim(s), 0),
        _ => true,
    }
}

/// A one-word line parses whole.
proof fn lemma_line1(w: Seq<char>)
    requires
        w.len() > 0,
        no_space(w),
        no_comment(w),
    ensures
        spec_trim(w) == w,
        !comment_start_at(w, 0),
        spec_parse_line(w) == spec_parse_command1(w),
{
    lemma_trim_of_clean(w);
    lemma_before_comment_whole(w);
    lemma_split_word(w);
    assert(split_ws(w) == seq![w]);
    assert(split_ws(w)[0] == w);
    assert(split_ws(w).len() == 1);
}

/// A two-word line splits into its two words and parses whole.
proof fn lemma_line2(w1: Seq<char>, w2: Seq<char>)
    requires
        w1.len() > 0,
        w2.len() > 0,
        no_space(w1),
        no_space(w2),
        no_comment(w1),
        no_comment(w2),
    ensures
        spec_parse_line(w1 + " "@ + w2) == spec_parse_command2(w1, w2),
{
    reveal_strlit(" ");
    let p = w1 + " "@ + w2;
    assert(p[0] == w1[0]);
    assert(p.last() == w2.last());
    lemma_trim_of_clean(p);
    lemma_no_comment_concat(w1, " "@);
    lemma_no_comment_concat(w1 + " "@, w2);
    assert(no_comment(p));
    lemma_before_comment_whole(p);
    assert(!comment_start_at(p, 0)) by {
        assert(p[1] == if w1.len() == 1 {
            ' '
        } else {
            w1[1]
        });
    }
    lemma_split_cons(w1, w2);
    lemma_split_word(w2);
    let ws = split_ws(p);
    assert(ws =~= seq![w1, w2]);
    assert(ws.len() == 2 && ws[0] == w1 && ws[1] == w2);
}

/// A three-word line splits into its three words and parses whole.
proof fn lemma_line3(w1: Seq<char>, w2: Seq<char>, w3: Seq<char>)
    requires
        w1.len() > 0,
        w2.len() > 0,
        w3.len() > 0,
        no_space(w1),
        no_space(w2),
        no_space(w3),
        no_comment(w1),
        no_comment(w2),
        no_comment(w3),
    ensures
        spec_parse_line(w1 + " "@ + w2 + " "@ + w3) == spec_parse_command3(w1, w2, w3),
{
    reveal_strlit(" ");
    let p = w1 + " "@ + w2 + " "@ + w3;
    let rest = w2 + " "@ + w3;
    assert(p[0] == w1[0]);
    assert(p.last() == w3.last());
    lemma_trim_of_clean(p);
    lemma_no_comment_concat(w2, " "@);
    lemma_no_comment_concat(w2 + " "@, w3);
    lemma_no_comment_concat(w1, " "@);
    assert(no_comment(w1 + " "@) && no_comment(rest));
    assert(p =~= (w1 + " "@) + rest);
    lemma_no_comment_concat(w1 + " "@, rest);
    assert(no_comment(p));
    lemma_before_comment_whole(p);
    assert(!comment_start_at(p, 0)) by {
        assert(p[1] == if w1.len() == 1 {
            ' '
        } else {
            w1[1]
        });
    }
    assert(rest[0] == w2[0]);
    assert(p =~= w1 + " "@ + rest);
    lemma_split_cons(w1, rest);
    lemma_split_cons(w2, w3);
    lemma_split_word(w3);
    let ws = split_ws(p);
    assert(ws =~= seq![w1, w2, w3]);
    assert(ws.len() == 3 && ws[0] == w1 && ws[1] == w2 && ws[2] == w3);
}

/// The index text of a 15-bit count parses back to the count.
proof fn lemma_index_round(n: u16)
    requires
        n <= 32767,
    ensures
        spec_parse_index(dec_rep(n as nat)) == Ok::<u16, ParseErrorV>(n),
        wf_name(dec_rep(n as nat)),
{
    lemma_dec_rep_digits(n as nat);
    lemma_dec_val_of_rep(n as nat);
    lemma_digits_plain(dec_rep(n as nat));
}

/// The name of a segment parses back to the segment, and is a plain word.
proof fn lemma_segment_round(s: Segment)
    ensures
        spec_parse_segment(seg_name(s)) == Ok::<Segment, ParseErrorV>(s),
        wf_name(seg_name(s)),
{
    reveal_strlit("argument");
    reveal_strlit("local");
    reveal_strlit("static");
    reveal_strlit("constant");
    reveal_strlit("this");
    reveal_strlit("that");
    reveal_strlit("pointer");
    reveal_strlit("temp");
    let w = seg_name(s);
    assert(("argument"@).len() == 8 && ("local"@).len() == 5 && ("static"@).len() == 6 && (
    "constant"@).len() == 8 && ("this"@).len() == 4 && ("that"@).len() == 4 && ("pointer"@).len()
        == 7 && ("temp"@).len() == 4);
    assert(("argument"@)[0] == 'a' && ("constant"@)[0] == 'c');
    assert(("this"@)[2] == 'i' && ("that"@)[2] == 'a' && ("temp"@)[1] == 'e' && ("this"@)[1] == 'h'
        && ("that"@)[1] == 'h');
    assert(no_space(w) && no_comment(w)) by {
        assert forall|k: int| 0 <= k < w.len() implies !is_space_char(#[trigger] w[k]) && w[k]
            != '/' by {}
        assert forall|k: int| !comment_start_at(w, k) by {
            if 0 <= k && k + 2 <= w.len() {
                assert(w[k] != '/');
            }
        }
    }
    assert(spec_parse_segment(seg_name(s)) == Ok::<Segment, ParseErrorV>(s)) by {
        assert("argument"@ != "constant"@);
        assert("this"@ != "that"@ && "this"@ != "temp"@ && "that"@ != "temp"@);
    }
}

/// The command words are pairwise distinct.
proof fn lemma_command_words_distinct()
    ensures
        "sub"@ != "add"@,
        "neg"@ != "add"@ && "neg"@ != "sub"@,
        "and"@ != "add"@ && "and"@ != "sub"@ && "and"@ != "neg"@,
        "not"@ != "add"@ && "not"@ != "sub"@ && "not"@ != "neg"@ && "not"@ != "and"@,
        "gt"@ != "eq"@,
        "lt"@ != "eq"@ && "lt"@ != "gt"@,
        "or"@ != "eq"@ && "or"@ != "gt"@ && "or"@ != "lt"@,
        "call"@ != "push"@,
{
    reveal_strlit("add");
    reveal_strlit("sub");
    reveal_strlit("neg");
    reveal_strlit("eq");
    reveal_strlit("gt");
    reveal_strlit("lt");
    reveal_strlit("and");
    reveal_strlit("or");
    reveal_strlit("not");
    reveal_strlit("push");
    reveal_strlit("call");
    assert(("add"@)[0] == 'a' && ("add"@)[1] == 'd');
    assert(("sub"@)[0] == 's');
    assert(("neg"@)[0] == 'n' && ("neg"@)[1] == 'e');
    assert(("and"@)[0] == 'a' && ("and"@)[1] == 'n');
    assert(("not"@)[0] == 'n' && ("not"@)[1] == 'o');
    assert(("eq"@)[0] == 'e');
    assert(("gt"@)[0] == 'g');
    assert(("lt"@)[0] == 'l');
    assert(("or"@)[0] == 'o');
    assert(("push"@)[0] == 'p');
    assert(("call"@)[0] == 'c');
}

/// Printing a well-formed command and parsing the printed line back yields
/// the command unchanged.
pub proof fn lemma_print_parse_round_trip(c: CommandV)
    requires
        wf_command(c),
    ensures
        spec_parse_line(spec_print_command(c)) == Ok::<CommandV, ParseErrorV>(c),
{
    lemma_command_words_distinct();
    reveal_strlit(" ");
    reveal_strlit("add");
    reveal_strlit("sub");
    reveal_strlit("neg");
    reveal_strlit("eq");
    reveal_strlit("gt");
    reveal_strlit("lt");
    reveal_strlit("and");
    reveal_strlit("or");
    reveal_strlit("not");
    reveal_strlit("return");
    reveal_strlit("goto");
    reveal_strlit("if-goto");
    reveal_strlit("label");
    reveal_strlit("push");
    reveal_strlit("pop");
    reveal_strlit("function");
    reveal_strlit("call");
    match c {
        CommandV::Add => lemma_line1("add"@),
        CommandV::Sub => lemma_line1("sub"@),
        CommandV::Neg => lemma_line1("neg"@),
        CommandV::Eq => lemma_line1("eq"@),
        CommandV::Gt => lemma_line1("gt"@),
        CommandV::Lt => lemma_line1("lt"@),
        CommandV::And => lemma_line1("and"@),
        CommandV::Or => lemma_line1("or"@),
        CommandV::Not => lemma_line1("not"@),
        CommandV::Return => lemma_line1("return"@),
        CommandV::Goto(l) => {
            lemma_line2("goto"@, l);
        },
        CommandV::IfGoto(l) => {
            lemma_line2("if-goto"@, l);
        },
        CommandV::Label(l) => {
            lemma_line2("label"@, l);
        },
        CommandV::Push(s, i) => {
            lemma_segment_round(s);
            lemma_index_round(i);
            lemma_line3("push"@, seg_name(s), dec_rep(i as nat));
        },
        CommandV::Pop(s, i) => {
            lemma_segment_round(s);
            lemma_index_round(i);
            lemma_line3("pop"@, seg_name(s), dec_rep(i as nat));
        },
        CommandV::Function(f, n) => {
            lemma_index_round(n);
            lemma_line3("function"@, f, dec_rep(n as nat));
        },
        CommandV::Call(f, n) => {
            lemma_index_round(n);
            lemma_line3("call"@, f, dec_rep(n as nat));
        },
        CommandV::Comment(_) => (),
    }
}

} // verus!
