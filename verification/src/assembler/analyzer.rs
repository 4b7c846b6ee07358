//! Pass 1 of the assembler: resolve label and variable addresses into a
//! symbol table.

use vstd::prelude::*;

use crate::assembler::ast::{Instruction, Reference};
use crate::text::str_eq;

verus! {

/// A mapping from assembly symbols to 16-bit addresses.
///
/// Keys are unique; the view is the corresponding mathematical map.
pub struct SymbolTable {
    entries: Vec<(String, u16)>,
}

/// The map an entry list denotes, later entries overwriting earlier ones.
pub open spec fn map_of(entries: Seq<(String, u16)>) -> Map<Seq<char>, u16>
    decreases entries.len(),
{
    if entries.len() == 0 {
        Map::empty()
    } else {
        map_of(entries.drop_last()).insert(entries.last().0@, entries.last().1)
    }
}

pub open spec fn unique_keys(entries: Seq<(String, u16)>) -> bool {
    forall|i: int, j: int|
        0 <= i < j < entries.len() ==> (#[trigger] entries[i]).0@ != (#[trigger] entries[j]).0@
}

proof fn lemma_map_of_contains(entries: Seq<(String, u16)>, k: Seq<char>)
    ensures
        map_of(entries).contains_key(k) <==> exists|i: int|
            0 <= i < entries.len() && (#[trigger] entries[i]).0@ == k,
    decreases entries.len(),
{
    if entries.len() > 0 {
        lemma_map_of_contains(entries.drop_last(), k);
        if entries.last().0@ == k {
            assert(entries[entries.len() - 1].0@ == k);
        } else if map_of(entries).contains_key(k) {
            let i = choose|i: int| 0 <= i < entries.drop_last().len() && (#[trigger] entries.drop_last()[i]).0@ == k;
            assert(entries[i].0@ == k);
        } else {
            assert forall|i: int| 0 <= i < entries.len() && (#[trigger] entries[i]).0@ == k implies false by {
                assert(i < entries.len() - 1);
                assert(entries.drop_last()[i].0@ == k);
            }
        }
    }
}

proof fn lemma_map_of_get(entries: Seq<(String, u16)>, i: int)
    requires
        unique_keys(entries),
        0 <= i < entries.len(),
    ensures
        map_of(entries).contains_key(entries[i].0@),
        map_of(entries)[entries[i].0@] == entries[i].1,
    decreases entries.len(),
{
    if i == entries.len() - 1 {
    } else {
        assert(entries.drop_last()[i] == entries[i]);
        lemma_map_of_get(entries.drop_last(), i);
        assert(entries[i].0@ != entries.last().0@);
    }
}

impl SymbolTable {
    pub closed spec fn view(&self) -> Map<Seq<char>, u16> {
        map_of(self.entries@)
    }

    pub closed spec fn wf(&self) -> bool {
        unique_keys(self.entries@)
    }

    pub fn new() -> (r: SymbolTable)
        ensures
            r.wf(),
            r@ == Map::<Seq<char>, u16>::empty(),
    {
        SymbolTable { entries: Vec::new() }
    }

    /// The index of the entry holding `name`, if any.
    fn find(&self, name: &str) -> (r: Option<usize>)
        ensures
            match r {
                Some(i) => i < self.entries@.len() && self.entries@[i as int].0@ == name@,
                None => forall|i: int|
                    0 <= i < self.entries@.len() ==> (#[trigger] self.entries@[i]).0@ != name@,
            },
    {
        let mut i: usize = 0;
        while i < self.entries.len()
            invariant
                0 <= i <= self.entries@.len(),
                forall|k: int| 0 <= k < i ==> (#[trigger] self.entries@[k]).0@ != name@,
            decreases self.entries@.len() - i,
        {
            if str_eq(self.entries[i].0.as_str(), name) {
                return Some(i);
            }
            i += 1;
        }
        None
    }

    /// Whether the table holds an address for `name`.
    pub fn contains(&self, name: &str) -> (r: bool)
        requires
            self.wf(),
        ensures
            r == self@.contains_key(name@),
    {
        proof {
            lemma_map_of_contains(self.entries@, name@);
        }
        self.find(name).is_some()
    }

    /// The address of `name`, if the table holds one.
    pub fn get(&self, name: &str) -> (r: Option<u16>)
        requires
            self.wf(),
        ensures
            match r {
                Some(a) => self@.contains_key(name@) && self@[name@] == a,
                None => !self@.contains_key(name@),
            },
    {
        proof {
            lemma_map_of_contains(self.entries@, name@);
        }
        match self.find(name) {
            Some(i) => {
                proof {
                    lemma_map_of_get(self.entries@, i as int);
                }
                Some(self.entries[i].1)
            }
            None => None,
        }
    }

    /// Binds `name` to `addr`, overwriting any earlier binding.
    pub fn insert(&mut self, name: String, addr: u16)
        requires
            old(self).wf(),
        ensures
            final(self).wf(),
            final(self)@ == old(self)@.insert(name@, addr),
    {
        let found = self.find(name.as_str());
        match found {
            Some(i) => {
                let ghost pre = self.entries@;
                let ghost key = name@;
                self.entries.set(i, (name, addr));
                proof {
                    assert(self.entries@[i as int].1 == addr);
                    assert(pre[i as int].0@ == key);
                    lemma_set_entry(pre, self.entries@, i as int);
                    assert(map_of(self.entries@) == map_of(pre).insert(key, addr));
                }
            }
            None => {
                let ghost pre = self.entries@;
                let ghost key = name@;
                self.entries.push((name, addr));
                proof {
                    assert(self.entries@.drop_last() =~= pre);
                    assert(self.entries@.last().0@ == key);
                    assert(forall|k: int|
                        0 <= k < pre.len() ==> #[trigger] self.entries@[k] == pre[k]);
                    assert(map_of(self.entries@) == map_of(pre).insert(key, addr));
                }
            }
        }
    }

}

/// Updating the entry at `i` with a pair of the same key updates the map.
proof fn lemma_set_entry(pre: Seq<(String, u16)>, post: Seq<(String, u16)>, i: int)
    requires
        unique_keys(pre),
        0 <= i < pre.len(),
        post.len() == pre.len(),
        post[i].0@ == pre[i].0@,
        forall|k: int| 0 <= k < pre.len() && k != i ==> post[k] == pre[k],
    ensures
        unique_keys(post),
        map_of(post) == map_of(pre).insert(pre[i].0@, post[i].1),
    decreases pre.len(),
{
    assert forall|a: int, b: int| 0 <= a < b < post.len() implies (#[trigger] post[a]).0@
        != (#[trigger] post[b]).0@ by {
        assert(pre[a].0@ != pre[b].0@);
        assert(post[a].0@ == pre[a].0@ && post[b].0@ == pre[b].0@);
    }
    if i == pre.len() - 1 {
        assert(post.drop_last() =~= pre.drop_last());
        assert(map_of(post) =~= map_of(pre).insert(pre[i].0@, post[i].1));
    } else {
        assert(post.drop_last()[i] == post[i]);
        assert(forall|k: int|
            0 <= k < pre.drop_last().len() && k != i ==> pre.drop_last()[k]
                == #[trigger] post.drop_last()[k]);
        lemma_set_entry(pre.drop_last(), post.drop_last(), i);
        assert(pre.last().0@ != pre[i].0@);
        assert(post.last() == pre.last());
        assert(map_of(post) =~= map_of(pre).insert(pre[i].0@, post[i].1));
    }
}

/// The address a predefined symbol names, if it is one.
pub open spec fn predefined_addr(s: Seq<char>) -> Option<u16> {
    if s == "R0"@ {
        Some(0)
    } else if s == "R1"@ {
        Some(1)
    } else if s == "R2"@ {
        Some(2)
    } else if s == "R3"@ {
        Some(3)
    } else if s == "R4"@ {
        Some(4)
    } else if s == "R5"@ {
        Some(5)
    } else if s == "R6"@ {
        Some(6)
    } else if s == "R7"@ {
        Some(7)
    } else if s == "R8"@ {
        Some(8)
    } else if s == "R9"@ {
        Some(9)
    } else if s == "R10"@ {
        Some(10)
    } else if s == "R11"@ {
        Some(11)
    } else if s == "R12"@ {
        Some(12)
    } else if s == "R13"@ {
        Some(13)
    } else if s == "R14"@ {
        Some(14)
    } else if s == "R15"@ {
        Some(15)
    } else if s == "SP"@ {
        Some(0)
    } else if s == "LCL"@ {
        Some(1)
    } else if s == "ARG"@ {
        Some(2)
    } else if s == "THIS"@ {
        Some(3)
    } else if s == "THAT"@ {
        Some(4)
    } else if s == "SCREEN"@ {
        Some(16384)
    } else if s == "KBD"@ {
        Some(24576)
    } else {
        None
    }
}

/// The address of a referenced symbol not defined as a label: its predefined
/// address, or the next free variable slot, which is then advanced.
pub fn find_addr(reference: &str, variable_addr: u16) -> (r: (u16, u16))
    requires
        variable_addr < 65535,
    ensures
        r == match predefined_addr(reference@) {
            Some(a) => (a, variable_addr),
            None => (variable_addr, (variable_addr + 1) as u16),
        },
{
    let v = crate::text::str_to_chars(reference);
    if crate::text::chars_eq_str(&v, "R0") {
        (0, variable_addr)
    } else if crate::text::chars_eq_str(&v, "R1") {
        (1, variable_addr)
    } else if crate::text::chars_eq_str(&v, "R2") {
        (2, variable_addr)
    } else if crate::text::chars_eq_str(&v, "R3") {
        (3, variable_addr)
    } else if crate::text::chars_eq_str(&v, "R4") {
        (4, variable_addr)
    } else if crate::text::chars_eq_str(&v, "R5") {
        (5, variable_addr)
    } else if crate::text::chars_eq_str(&v, "R6") {
        (6, variable_addr)
    } else if crate::text::chars_eq_str(&v, "R7") {
        (7, variable_addr)
    } else if crate::text::chars_eq_str(&v, "R8") {
        (8, variable_addr)
    } else if crate::text::chars_eq_str(&v, "R9") {
        (9, variable_addr)
    } else if crate::text::chars_eq_str(&v, "R10") {
        (10, variable_addr)
    } else if crate::text::chars_eq_str(&v, "R11") {
        (11, variable_addr)
    } else if crate::text::chars_eq_str(&v, "R12") {
        (12, variable_addr)
    } else if crate::text::chars_eq_str(&v, "R13") {
        (13, variable_addr)
    } else if crate::text::chars_eq_str(&v, "R14") {
        (14, variable_addr)
    } else if crate::text::chars_eq_str(&v, "R15") {
        (15, variable_addr)
    } else if crate::text::chars_eq_str(&v, "SP") {
        (0, variable_addr)
    } else if crate::text::chars_eq_str(&v, "LCL") {
        (1, variable_addr)
    } else if crate::text::chars_eq_str(&v, "ARG") {
        (2, variable_addr)
    } else if crate::text::chars_eq_str(&v, "THIS") {
        (3, variable_addr)
    } else if crate::text::chars_eq_str(&v, "THAT") {
        (4, variable_addr)
    } else if crate::text::chars_eq_str(&v, "SCREEN") {
        (16384, variable_addr)
    } else if crate::text::chars_eq_str(&v, "KBD") {
        (24576, variable_addr)
    } else {
        (variable_addr, variable_addr + 1)
    }
}

/// How many machine words the first `k` instructions occupy: L lines take no
/// slot, every other instruction takes one.
pub open spec fn word_count(instrs: Seq<Instruction>, k: int) -> nat
    decreases k,
{
    if k <= 0 {
        0
    } else {
        word_count(instrs, k - 1) + match instrs[k - 1] {
            Instruction::L(_) => 0nat,
            _ => 1nat,
        }
    }
}

/// The label addresses declared by the first `k` instructions, a later
/// declaration of the same name overwriting an earlier one.
pub open spec fn labels_map(instrs: Seq<Instruction>, k: int) -> Map<Seq<char>, u16>
    decreases k,
{
    if k <= 0 {
        Map::empty()
    } else {
        let m = labels_map(instrs, k - 1);
        match instrs[k - 1] {
            Instruction::L(s) => m.insert(s@, word_count(instrs, k - 1) as u16),
            _ => m,
        }
    }
}

/// The symbols referenced by A-instructions among the first `k` instructions,
/// in source order, with repetitions.
pub open spec fn syms_list(instrs: Seq<Instruction>, k: int) -> Seq<Seq<char>>
    decreases k,
{
    if k <= 0 {
        Seq::empty()
    } else {
        syms_list(instrs, k - 1) + match instrs[k - 1] {
            Instruction::A(Reference::Symbol(s)) => seq![s@],
            _ => Seq::empty(),
        }
    }
}

/// Pass 2: walk the referenced symbols in order; a symbol not yet bound gets
/// its predefined address, or the next free variable slot starting at `va`.
pub open spec fn assign_vars(m: Map<Seq<char>, u16>, refs: Seq<Seq<char>>, va: nat) -> Map<
    Seq<char>,
    u16,
>
    decreases refs.len(),
{
    if refs.len() == 0 {
        m
    } else {
        let s = refs[0];
        if m.contains_key(s) {
            assign_vars(m, refs.drop_first(), va)
        } else {
            match predefined_addr(s) {
                Some(a) => assign_vars(m.insert(s, a), refs.drop_first(), va),
                None => assign_vars(m.insert(s, va as u16), refs.drop_first(), va + 1),
            }
        }
    }
}

/// The symbol table the analyzer builds for an instruction sequence.
pub open spec fn spec_analyze(instrs: Seq<Instruction>) -> Map<Seq<char>, u16> {
    assign_vars(labels_map(instrs, instrs.len() as int), syms_list(instrs, instrs.len() as int), 16)
}

/// Resolves every label to the address of the instruction that follows it and
/// every other referenced symbol to a predefined or fresh variable address.
pub fn analyze(instructions: &Vec<Instruction>) -> (r: SymbolTable)
    requires
        instructions@.len() <= 32767,
    ensures
        r.wf(),
        r@ == spec_analyze(instructions@),
{
    let ghost instrs = instructions@;
    let mut symbol_table = SymbolTable::new();
    let mut references: Vec<String> = Vec::new();
    let mut addr: u16 = 0;
    let mut i: usize = 0;
    while i < instructions.len()
        invariant
            0 <= i <= instrs.len() <= 32767,
            instrs == instructions@,
            symbol_table.wf(),
            symbol_table@ == labels_map(instrs, i as int),
            addr as nat == word_count(instrs, i as int),
            addr <= i,
            references@.map_values(|s: String| s@) == syms_list(instrs, i as int),
            references@.len() <= i,
        decreases instrs.len() - i,
    {
        let ghost pre_refs = references@;
        match &instructions[i] {
            Instruction::A(reference) => {
                match reference {
                    Reference::Address(_) => (),
                    Reference::Symbol(symbol) => {
                        references.push(symbol.clone());
                        assert(references@.map_values(|s: String| s@) =~= pre_refs.map_values(
                            |s: String| s@,
                        ) + seq![instrs[i as int]->A_0->Symbol_0@]);
                    }
                }
                addr = addr + 1;
            }
            Instruction::C(_, _, _) => {
                addr = addr + 1;
            }
            Instruction::L(symbol) => {
                symbol_table.insert(symbol.clone(), addr);
            }
        }
        proof {
            if !(instrs[i as int] matches Instruction::A(Reference::Symbol(_))) {
                assert(references@.map_values(|s: String| s@) =~= syms_list(instrs, i + 1 as int));
            }
        }
        i += 1;
    }
    let ghost base = symbol_table@;
    let ghost refs = references@.map_values(|s: String| s@);
    let mut variable_addr: u16 = 16;
    let mut j: usize = 0;
    assert(refs.skip(0) =~= refs);
    while j < references.len()
        invariant
            0 <= j <= references@.len() <= 32767,
            refs == references@.map_values(|s: String| s@),
            symbol_table.wf(),
            16 <= variable_addr,
            variable_addr as nat <= 16 + j,
            assign_vars(base, refs, 16) == assign_vars(
                symbol_table@,
                refs.skip(j as int),
                variable_addr as nat,
            ),
        decreases references@.len() - j,
    {
        assert(refs.skip(j as int)[0] == refs[j as int]);
        assert(refs.skip(j as int).drop_first() =~= refs.skip(j + 1 as int));
        assert(refs[j as int] == references@[j as int]@);
        let reference = &references[j];
        if !symbol_table.contains(reference.as_str()) {
            let (found_addr, new_variable_addr) = find_addr(reference.as_str(), variable_addr);
            symbol_table.insert(reference.clone(), found_addr);
            variable_addr = new_variable_addr;
        }
        j += 1;
    }
    assert(refs.skip(references@.len() as int) =~= Seq::<Seq<char>>::empty());
    symbol_table
}

/// Whether instruction `k` declares the label `s`.
pub open spec fn is_label(instrs: Seq<Instruction>, k: int, s: Seq<char>) -> bool {
    0 <= k < instrs.len() && match instrs[k] {
        Instruction::L(t) => t@ == s,
        _ => false,
    }
}

/// Whether `s` is referenced but not declared as a label or predefined: such a
/// symbol is an auto-allocated variable.
pub open spec fn is_variable(instrs: Seq<Instruction>, s: Seq<char>) -> bool {
    &&& syms_list(instrs, instrs.len() as int).contains(s)
    &&& !labels_map(instrs, instrs.len() as int).contains_key(s)
    &&& predefined_addr(s) is None
}

/// The position of the first occurrence of `s`, or -1 if absent.
pub open spec fn first_pos(refs: Seq<Seq<char>>, s: Seq<char>) -> int
    decreases refs.len(),
{
    if refs.len() == 0 {
        -1
    } else if refs[0] == s {
        0
    } else {
        let r = first_pos(refs.drop_first(), s);
        if r < 0 {
            -1
        } else {
            1 + r
        }
    }
}

proof fn lemma_first_pos_contains(refs: Seq<Seq<char>>, s: Seq<char>)
    ensures
        refs.contains(s) <==> first_pos(refs, s) >= 0,
        first_pos(refs, s) >= 0 ==> first_pos(refs, s) < refs.len() && refs[first_pos(refs, s)]
            == s,
    decreases refs.len(),
{
    if refs.len() > 0 {
        lemma_first_pos_contains(refs.drop_first(), s);
        if refs[0] == s {
        } else {
            assert(refs.contains(s) ==> refs.drop_first().contains(s)) by {
                if refs.contains(s) {
                    let i = choose|i: int| 0 <= i < refs.len() && refs[i] == s;
                    assert(refs.drop_first()[i - 1] == s);
                }
            }
            assert(refs.drop_first().contains(s) ==> refs.contains(s)) by {
                if refs.drop_first().contains(s) {
                    let i = choose|i: int| 0 <= i < refs.drop_first().len()
                        && refs.drop_first()[i] == s;
                    assert(refs[i + 1] == s);
                }
            }
        }
    }
}

/// No instruction takes more than one word.
proof fn lemma_word_count_bound(instrs: Seq<Instruction>, k: int)
    requires
        0 <= k <= instrs.len(),
    ensures
        word_count(instrs, k) <= k,
    decreases k,
{
    if k > 0 {
        lemma_word_count_bound(instrs, k - 1);
    }
}

/// There are no more symbol references than instructions.
proof fn lemma_syms_list_bound(instrs: Seq<Instruction>, k: int)
    requires
        0 <= k <= instrs.len(),
    ensures
        syms_list(instrs, k).len() <= k,
    decreases k,
{
    if k > 0 {
        lemma_syms_list_bound(instrs, k - 1);
    }
}

/// A label's last declaration before `m` decides its address up to `m`.
proof fn lemma_labels_map_from(instrs: Seq<Instruction>, k: int, s: Seq<char>, m: int)
    requires
        is_label(instrs, k, s),
        k < m <= instrs.len(),
        forall|j: int| k < j < m ==> !is_label(instrs, j, s),
    ensures
        labels_map(instrs, m).contains_key(s),
        labels_map(instrs, m)[s] == word_count(instrs, k) as u16,
    decreases m,
{
    if m == k + 1 {
    } else {
        lemma_labels_map_from(instrs, k, s, m - 1);
        assert(!is_label(instrs, m - 1, s));
    }
}

/// Pass 2 never disturbs a binding that already exists.
proof fn lemma_assign_preserves(m: Map<Seq<char>, u16>, refs: Seq<Seq<char>>, va: nat, key: Seq<char>)
    requires
        m.contains_key(key),
    ensures
        assign_vars(m, refs, va).contains_key(key),
        assign_vars(m, refs, va)[key] == m[key],
    decreases refs.len(),
{
    if refs.len() > 0 {
        let s = refs[0];
        if m.contains_key(s) {
            lemma_assign_preserves(m, refs.drop_first(), va, key);
        } else {
            match predefined_addr(s) {
                Some(a) => lemma_assign_preserves(m.insert(s, a), refs.drop_first(), va, key),
                None => lemma_assign_preserves(
                    m.insert(s, va as u16),
                    refs.drop_first(),
                    va + 1,
                    key,
                ),
            }
        }
    }
}

/// A fresh variable gets an address no lower than the current free slot.
proof fn lemma_assign_value_ge(m: Map<Seq<char>, u16>, refs: Seq<Seq<char>>, va: nat, s: Seq<char>)
    requires
        !m.contains_key(s),
        predefined_addr(s) is None,
        refs.contains(s),
        va + refs.len() <= 65535,
    ensures
        assign_vars(m, refs, va).contains_key(s),
        va <= assign_vars(m, refs, va)[s],
    decreases refs.len(),
{
    lemma_first_pos_contains(refs, s);
    lemma_first_pos_contains(refs.drop_first(), s);
    if refs[0] == s {
        lemma_assign_preserves(m.insert(s, va as u16), refs.drop_first(), va + 1, s);
    } else {
        if m.contains_key(refs[0]) {
            lemma_assign_value_ge(m, refs.drop_first(), va, s);
        } else {
            match predefined_addr(refs[0]) {
                Some(a) => lemma_assign_value_ge(m.insert(refs[0], a), refs.drop_first(), va, s),
                None => lemma_assign_value_ge(
                    m.insert(refs[0], va as u16),
                    refs.drop_first(),
                    va + 1,
                    s,
                ),
            }
        }
    }
}

/// A variable referenced first gets the lower address.
proof fn lemma_assign_order(
    m: Map<Seq<char>, u16>,
    refs: Seq<Seq<char>>,
    va: nat,
    s1: Seq<char>,
    s2: Seq<char>,
)
    requires
        !m.contains_key(s1),
        !m.contains_key(s2),
        predefined_addr(s1) is None,
        predefined_addr(s2) is None,
        0 <= first_pos(refs, s1) < first_pos(refs, s2),
        va + refs.len() <= 65535,
    ensures
        assign_vars(m, refs, va).contains_key(s1),
        assign_vars(m, refs, va).contains_key(s2),
        assign_vars(m, refs, va)[s1] < assign_vars(m, refs, va)[s2],
    decreases refs.len(),
{
    lemma_first_pos_contains(refs, s1);
    lemma_first_pos_contains(refs, s2);
    if refs[0] == s1 {
        let m1 = m.insert(s1, va as u16);
        lemma_assign_preserves(m1, refs.drop_first(), va + 1, s1);
        lemma_first_pos_contains(refs.drop_first(), s2);
        lemma_assign_value_ge(m1, refs.drop_first(), va + 1, s2);
    } else {
        assert(refs[0] != s2);
        if m.contains_key(refs[0]) {
            lemma_assign_order(m, refs.drop_first(), va, s1, s2);
        } else {
            match predefined_addr(refs[0]) {
                Some(a) => lemma_assign_order(m.insert(refs[0], a), refs.drop_first(), va, s1, s2),
                None => lemma_assign_order(
                    m.insert(refs[0], va as u16),
                    refs.drop_first(),
                    va + 1,
                    s1,
                    s2,
                ),
            }
        }
    }
}

/// The address of a label is the word index of the instruction that follows
/// it in source order, counting only A- and C-instructions; the last
/// declaration of a name wins.
pub proof fn lemma_label_address(instrs: Seq<Instruction>, k: int, s: Seq<char>)
    requires
        instrs.len() <= 32767,
        is_label(instrs, k, s),
        forall|j: int| k < j < instrs.len() ==> !is_label(instrs, j, s),
    ensures
        spec_analyze(instrs).contains_key(s),
        spec_analyze(instrs)[s] == word_count(instrs, k),
{
    let n = instrs.len() as int;
    lemma_labels_map_from(instrs, k, s, n);
    lemma_word_count_bound(instrs, k);
    lemma_assign_preserves(labels_map(instrs, n), syms_list(instrs, n), 16, s);
}

/// Every variable (a referenced symbol that is neither a label nor
/// predefined) is assigned an address of at least 16; distinct variables get
/// distinct addresses, increasing in the order of their first reference.
pub proof fn lemma_variable_addresses(instrs: Seq<Instruction>, s1: Seq<char>, s2: Seq<char>)
    requires
        instrs.len() <= 32767,
        is_variable(instrs, s1),
        is_variable(instrs, s2),
    ensures
        spec_analyze(instrs).contains_key(s1),
        16 <= spec_analyze(instrs)[s1],
        s1 != s2 ==> spec_analyze(instrs)[s1] != spec_analyze(instrs)[s2],
        first_pos(syms_list(instrs, instrs.len() as int), s1) < first_pos(
            syms_list(instrs, instrs.len() as int),
            s2,
        ) ==> spec_analyze(instrs)[s1] < spec_analyze(instrs)[s2],
{
    let n = instrs.len() as int;
    let base = labels_map(instrs, n);
    let refs = syms_list(instrs, n);
    lemma_syms_list_bound(instrs, n);
    lemma_first_pos_contains(refs, s1);
    lemma_first_pos_contains(refs, s2);
    lemma_assign_value_ge(base, refs, 16, s1);
    if first_pos(refs, s1) < first_pos(refs, s2) {
        lemma_assign_order(base, refs, 16, s1, s2);
    }
    if s1 != s2 {
        assert(first_pos(refs, s1) != first_pos(refs, s2));
        if first_pos(refs, s2) < first_pos(refs, s1) {
            lemma_assign_order(base, refs, 16, s2, s1);
        }
    }
}

} // verus!
