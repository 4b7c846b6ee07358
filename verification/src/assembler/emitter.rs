//! Pass 2 of the assembler: encode instructions as 16-bit machine words.

use vstd::prelude::*;

use crate::assembler::analyzer::SymbolTable;
use crate::assembler::ast::{DestSet, Expr, Instruction, Jump, Reference};
use crate::text::chars_to_string;

verus! {

/// The 7 compute bits (`a c1..c6`) of a compute expression.
pub open spec fn expr_bits(expr: Expr) -> u16 {
    match expr {
        Expr::Zero => 0b0101010,
        Expr::One => 0b0111111,
        Expr::NegOne => 0b0111010,
        Expr::D => 0b0001100,
        Expr::A => 0b0110000,
        Expr::M => 0b1110000,
        Expr::NotD => 0b0001101,
        Expr::NotA => 0b0110001,
        Expr::NotM => 0b1110001,
        Expr::NegD => 0b0001111,
        Expr::NegA => 0b0110011,
        Expr::NegM => 0b1110011,
        Expr::DAddOne => 0b0011111,
        Expr::AAddOne => 0b0110111,
        Expr::MAddOne => 0b1110111,
        Expr::DSubOne => 0b0001110,
        Expr::ASubOne => 0b0110010,
        Expr::MSubOne => 0b1110010,
        Expr::DAddA => 0b0000010,
        Expr::DAddM => 0b1000010,
        Expr::DSubA => 0b0010011,
        Expr::DSubM => 0b1010011,
        Expr::ASubD => 0b0000111,
        Expr::MSubD => 0b1000111,
        Expr::DAndA => 0b0000000,
        Expr::DAndM => 0b1000000,
        Expr::DOrA => 0b0010101,
        Expr::DOrM => 0b1010101,
    }
}

/// The 3 destination bits: A, D, M from high to low.
pub open spec fn dest_bits(dest: DestSet) -> u16 {
    ((if dest.a {
        4int
    } else {
        0int
    }) + (if dest.d {
        2int
    } else {
        0int
    }) + (if dest.m {
        1int
    } else {
        0int
    })) as u16
}

/// The 3 jump bits.
pub open spec fn jump_bits(jump: Jump) -> u16 {
    match jump {
        Jump::Null => 0b000,
        Jump::Jgt => 0b001,
        Jump::Jeq => 0b010,
        Jump::Jge => 0b011,
        Jump::Jlt => 0b100,
        Jump::Jne => 0b101,
        Jump::Jle => 0b110,
        Jump::Jmp => 0b111,
    }
}

/// The full 16-bit word of a C-instruction.
pub open spec fn c_bits(dest: DestSet, expr: Expr, jump: Jump) -> u16 {
    (0b111u16 << 13) | (expr_bits(expr) << 6) | (dest_bits(dest) << 3) | jump_bits(jump)
}

/// Whether every symbol an instruction sequence refers to is in the map.
pub open spec fn refs_resolved(instrs: Seq<Instruction>, m: Map<Seq<char>, u16>) -> bool {
    forall|i: int|
        0 <= i < instrs.len() ==> match #[trigger] instrs[i] {
            Instruction::A(Reference::Symbol(s)) => m.contains_key(s@),
            _ => true,
        }
}

/// The word one instruction encodes to; an L line encodes to nothing.
pub open spec fn spec_emit_one(instr: Instruction, m: Map<Seq<char>, u16>) -> Option<u16> {
    match instr {
        Instruction::A(Reference::Address(a)) => Some(a),
        Instruction::A(Reference::Symbol(s)) => Some(m[s@]),
        Instruction::C(dest, expr, jump) => Some(c_bits(dest, expr, jump)),
        Instruction::L(_) => None,
    }
}

/// The words an instruction sequence encodes to, in order.
pub open spec fn spec_emit_seq(instrs: Seq<Instruction>, m: Map<Seq<char>, u16>) -> Seq<u16>
    decreases instrs.len(),
{
    if instrs.len() == 0 {
        Seq::empty()
    } else {
        spec_emit_seq(instrs.drop_last(), m) + match spec_emit_one(instrs.last(), m) {
            Some(w) => seq![w],
            None => Seq::empty(),
        }
    }
}

/// Encodes every A and C instruction, in order; L lines produce no word.
pub fn emit_instructions(instructions: &Vec<Instruction>, symbol_table: &SymbolTable) -> (r: Vec<
    u16,
>)
    requires
        symbol_table.wf(),
        refs_resolved(instructions@, symbol_table@),
    ensures
        r@ == spec_emit_seq(instructions@, symbol_table@),
{
    let mut r: Vec<u16> = Vec::new();
    let mut i: usize = 0;
    assert(instructions@.take(0) =~= Seq::<Instruction>::empty());
    while i < instructions.len()
        invariant
            symbol_table.wf(),
            refs_resolved(instructions@, symbol_table@),
            0 <= i <= instructions@.len(),
            r@ == spec_emit_seq(instructions@.take(i as int), symbol_table@),
        decreases instructions@.len() - i,
    {
        assert(instructions@.take(i + 1 as int).drop_last() =~= instructions@.take(i as int));
        assert(instructions@.take(i + 1 as int).last() == instructions@[i as int]);
        match emit_instruction(&instructions[i], symbol_table) {
            Some(w) => {
                r.push(w);
            }
            None => (),
        }
        assert(r@ =~= spec_emit_seq(instructions@.take(i + 1 as int), symbol_table@));
        i += 1;
    }
    assert(instructions@.take(instructions@.len() as int) =~= instructions@);
    r
}

/// The machine word of one instruction; `None` for an L line.
pub fn emit_instruction(instruction: &Instruction, symbol_table: &SymbolTable) -> (r: Option<u16>)
    requires
        symbol_table.wf(),
        instruction matches Instruction::A(Reference::Symbol(s)) ==> symbol_table@.contains_key(
            s@,
        ),
    ensures
        r == spec_emit_one(*instruction, symbol_table@),
{
    match instruction {
        Instruction::A(reference) => Some(emit_a_instruction(reference, symbol_table)),
        Instruction::C(dest, expr, jump) => Some(emit_c_instruction(dest, expr, jump)),
        Instruction::L(_) => None,
    }
}

/// The word of an A-instruction: the address itself, or the symbol's address.
pub fn emit_a_instruction(reference: &Reference, symbol_table: &SymbolTable) -> (r: u16)
    requires
        symbol_table.wf(),
        reference matches Reference::Symbol(s) ==> symbol_table@.contains_key(s@),
    ensures
        r == match *reference {
            Reference::Symbol(s) => symbol_table@[s@],
            Reference::Address(a) => a,
        },
{
    match reference {
        Reference::Symbol(symbol) => symbol_table.get(symbol.as_str()).unwrap(),
        Reference::Address(address) => *address,
    }
}

/// The word of a C-instruction: `111` then compute, destination, jump fields.
pub fn emit_c_instruction(dest: &DestSet, expr: &Expr, jump: &Jump) -> (r: u16)
    ensures
        r == c_bits(*dest, *expr, *jump),
{
    (0b111u16 << 13) | (emit_expr(expr) << 6) | (emit_dest(dest) << 3) | emit_jump(jump)
}

/// The destination bits: A, D, M or-ed together.
pub fn emit_dest(dest: &DestSet) -> (r: u16)
    ensures
        r == dest_bits(*dest),
{
    (if dest.a {
        4u16
    } else {
        0u16
    }) + (if dest.d {
        2u16
    } else {
        0u16
    }) + (if dest.m {
        1u16
    } else {
        0u16
    })
}

/// The compute bits, from the fixed table.
pub fn emit_expr(expr: &Expr) -> (r: u16)
    ensures
        r == expr_bits(*expr),
{
    match expr {
        Expr::Zero => 0b0101010,
        Expr::One => 0b0111111,
        Expr::NegOne => 0b0111010,
        Expr::D => 0b0001100,
        Expr::A => 0b0110000,
        Expr::M => 0b1110000,
        Expr::NotD => 0b0001101,
        Expr::NotA => 0b0110001,
        Expr::NotM => 0b1110001,
        Expr::NegD => 0b0001111,
        Expr::NegA => 0b0110011,
        Expr::NegM => 0b1110011,
        Expr::DAddOne => 0b0011111,
        Expr::AAddOne => 0b0110111,
        Expr::MAddOne => 0b1110111,
        Expr::DSubOne => 0b0001110,
        Expr::ASubOne => 0b0110010,
        Expr::MSubOne => 0b1110010,
        Expr::DAddA => 0b0000010,
        Expr::DAddM => 0b1000010,
        Expr::DSubA => 0b0010011,
        Expr::DSubM => 0b1010011,
        Expr::ASubD => 0b0000111,
        Expr::MSubD => 0b1000111,
        Expr::DAndA => 0b0000000,
        Expr::DAndM => 0b1000000,
        Expr::DOrA => 0b0010101,
        Expr::DOrM => 0b1010101,
    }
}

/// The jump bits, from the fixed table.
pub fn emit_jump(jump: &Jump) -> (r: u16)
    ensures
        r == jump_bits(*jump),
{
    match jump {
        Jump::Null => 0b000,
        Jump::Jgt => 0b001,
        Jump::Jeq => 0b010,
        Jump::Jge => 0b011,
        Jump::Jlt => 0b100,
        Jump::Jne => 0b101,
        Jump::Jle => 0b110,
        Jump::Jmp => 0b111,
    }
}

/// The bit string of a word: bit 15 first, bit 0 last.
pub open spec fn spec_bits(n: u16) -> Seq<char> {
    Seq::new(16, |i: int| if (n >> (15 - i)) & 1 == 1 {
        '1'
    } else {
        '0'
    })
}

/// The 16-character ASCII bit string of a machine word.
pub fn bits(input: u16) -> (r: String)
    ensures
        r@ == spec_bits(input),
{
    let mut v: Vec<char> = Vec::new();
    let mut i: usize = 0;
    while i < 16
        invariant
            0 <= i <= 16,
            v@.len() == i,
            forall|k: int| 0 <= k < i ==> v@[k] == spec_bits(input)[k],
        decreases 16 - i,
    {
        let shift = 15 - i as u32;
        let bit = (input >> shift as u16) & 1;
        if bit == 1 {
            v.push('1');
        } else {
            v.push('0');
        }
        i += 1;
    }
    assert(v@ =~= spec_bits(input));
    chars_to_string(&v)
}

/// Whether a sequence has no `.` at or after position `i`.
pub open spec fn dotless_from(s: Seq<char>, i: int) -> bool {
    forall|k: int| i <= k < s.len() ==> s[k] != '.'
}

/// The input name with its extension (the part after the last dot) replaced
/// by `.hack`; a name with no dot gets `.hack` appended.
pub fn create_output_filename(input_filename: &str) -> (r: String)
    ensures
        exists|i: int|
            0 <= i <= input_filename@.len() && r@ == #[trigger] input_filename@.subrange(0, i)
                + ".hack"@ && dotless_from(input_filename@, i + 1) && (i < input_filename@.len()
                ==> input_filename@[i] == '.') && (i == input_filename@.len() ==> dotless_from(
                input_filename@,
                0,
            )),
{
    let v = crate::text::str_to_chars(input_filename);
    let n = v.len();
    // scan from the end for the last dot
    let mut j: usize = n;
    while j > 0
        invariant
            0 <= j <= n == v@.len(),
            v@ == input_filename@,
            dotless_from(v@, j as int),
        decreases j,
    {
        if v[j - 1] == '.' {
            // base is everything before the dot
            let base = crate::text::subrange_chars(&v, 0, j - 1);
            let r = chars_to_string(&base).concat(".hack");
            proof {
                let i = j - 1;
                assert(r@ == input_filename@.subrange(0, i as int) + ".hack"@);
            }
            return r;
        }
        j -= 1;
    }
    let r = chars_to_string(&v).concat(".hack");
    proof {
        assert(v@.subrange(0, n as int) =~= v@);
        assert(r@ == input_filename@.subrange(0, input_filename@.len() as int) + ".hack"@);
    }
    r
}

} // verus!
