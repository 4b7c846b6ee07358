//! The two-level symbol table of the Jack compiler: classes with their
//! static and field variables and subroutines, and per-subroutine arguments
//! and locals, each kind numbered densely from 0 in declaration order.

use vstd::prelude::*;

use crate::compile::ast::{
    clone_type, ClassVarDecorator, ParseError, SubroutineDecorator, Type, TypeV,
};
use crate::text::{lit, str_eq};

verus! {

/// The storage class of a subroutine-level variable.
#[derive(Debug, PartialEq, Eq, Structural, Copy, Clone)]
pub enum SubroutineVarDecorator {
    Arg,
    Local,
}

/// Where a resolved variable lives: in the class or in the subroutine.
#[derive(Debug, PartialEq, Eq, Structural, Copy, Clone)]
pub enum RefType {
    ClassRefType(ClassVarDecorator),
    SubroutineRefType(SubroutineVarDecorator),
}

/// The value bound to the given key, scanning from the most recent entry.
pub open spec fn assoc_find<V>(entries: Seq<(String, V)>, k: Seq<char>) -> Option<V>
    decreases entries.len(),
{
    if entries.len() == 0 {
        None
    } else if entries.last().0@ == k {
        Some(entries.last().1)
    } else {
        assoc_find(entries.drop_last(), k)
    }
}

/// Whether all keys of an entry list are distinct.
pub open spec fn unique_str_keys<V>(entries: Seq<(String, V)>) -> bool {
    forall|i: int, j: int|
        0 <= i < j < entries.len() ==> (#[trigger] entries[i]).0@ != (#[trigger] entries[j]).0@
}

proof fn lemma_assoc_found<V>(entries: Seq<(String, V)>, k: Seq<char>, i: int)
    requires
        unique_str_keys(entries),
        0 <= i < entries.len(),
        entries[i].0@ == k,
    ensures
        assoc_find(entries, k) == Some(entries[i].1),
    decreases entries.len(),
{
    if i == entries.len() - 1 {
    } else {
        assert(entries.last().0@ != k);
        assert(entries.drop_last()[i] == entries[i]);
        lemma_assoc_found(entries.drop_last(), k, i);
    }
}

proof fn lemma_assoc_none<V>(entries: Seq<(String, V)>, k: Seq<char>)
    requires
        forall|i: int| 0 <= i < entries.len() ==> (#[trigger] entries[i]).0@ != k,
    ensures
        assoc_find(entries, k) is None,
    decreases entries.len(),
{
    if entries.len() > 0 {
        lemma_assoc_none(entries.drop_last(), k);
    }
}

/// Pushing a fresh key binds it and changes no other binding.
proof fn lemma_assoc_push<V>(entries: Seq<(String, V)>, entry: (String, V), k: Seq<char>)
    ensures
        entry.0@ == k ==> assoc_find(entries.push(entry), k) == Some(entry.1),
        entry.0@ != k ==> assoc_find(entries.push(entry), k) == assoc_find(entries, k),
{
    assert(entries.push(entry).drop_last() =~= entries);
}

/// Replacing the entry at `i` by one with the same key rebinds only that key.
proof fn lemma_assoc_update<V>(entries: Seq<(String, V)>, i: int, v: V, k: Seq<char>)
    requires
        unique_str_keys(entries),
        0 <= i < entries.len(),
    ensures
        unique_str_keys(entries.update(i, (entries[i].0, v))),
        entries[i].0@ == k ==> assoc_find(entries.update(i, (entries[i].0, v)), k) == Some(v),
        entries[i].0@ != k ==> assoc_find(entries.update(i, (entries[i].0, v)), k) == assoc_find(
            entries,
            k,
        ),
    decreases entries.len(),
{
    let post = entries.update(i, (entries[i].0, v));
    assert(forall|a: int| 0 <= a < entries.len() ==> (#[trigger] post[a]).0@ == entries[a].0@);
    if entries[i].0@ == k {
        lemma_assoc_found(post, k, i);
    } else {
        if i == entries.len() - 1 {
            assert(post.drop_last() =~= entries.drop_last());
        } else if entries.last().0@ == k {
        } else {
            assert(post.drop_last() =~= entries.drop_last().update(i, (entries[i].0, v)));
            assert(entries.drop_last()[i] == entries[i]);
            lemma_assoc_update(entries.drop_last(), i, v, k);
        }
    }
}

/// The index of the entry with the given key, if any.
fn find_str_entry<V>(entries: &Vec<(String, V)>, name: &str) -> (r: Option<usize>)
    ensures
        match r {
            Some(i) => i < entries@.len() && entries@[i as int].0@ == name@,
            None => forall|i: int|
                0 <= i < entries@.len() ==> (#[trigger] entries@[i]).0@ != name@,
        },
{
    let mut i: usize = 0;
    while i < entries.len()
        invariant
            0 <= i <= entries@.len(),
            forall|k: int| 0 <= k < i ==> (#[trigger] entries@[k]).0@ != name@,
        decreases entries@.len() - i,
    {
        if str_eq(entries[i].0.as_str(), name) {
            return Some(i);
        }
        i += 1;
    }
    None
}

/// How many of the first `k` variable entries have the given kind.
pub open spec fn count_kind<K>(entries: Seq<(String, (K, Type, usize))>, kind: K) -> nat
    decreases entries.len(),
{
    if entries.len() == 0 {
        0
    } else {
        count_kind(entries.drop_last(), kind) + if entries.last().1.0 == kind {
            1nat
        } else {
            0nat
        }
    }
}

proof fn lemma_count_le_len<K>(entries: Seq<(String, (K, Type, usize))>, kind: K)
    ensures
        count_kind(entries, kind) <= entries.len(),
    decreases entries.len(),
{
    if entries.len() > 0 {
        lemma_count_le_len(entries.drop_last(), kind);
    }
}

/// A well-formed variable list: unique names, and each entry's slot is the
/// number of earlier entries of its kind.
pub open spec fn wf_vars<K>(entries: Seq<(String, (K, Type, usize))>) -> bool {
    &&& unique_str_keys(entries)
    &&& forall|i: int|
        0 <= i < entries.len() ==> (#[trigger] entries[i]).1.2 == count_kind(
            entries.take(i),
            entries[i].1.0,
        )
}

proof fn lemma_wf_vars_push<K>(entries: Seq<(String, (K, Type, usize))>, entry: (String, (K, Type, usize)))
    requires
        wf_vars(entries),
        forall|i: int| 0 <= i < entries.len() ==> (#[trigger] entries[i]).0@ != entry.0@,
        entry.1.2 == count_kind(entries, entry.1.0),
    ensures
        wf_vars(entries.push(entry)),
{
    let post = entries.push(entry);
    assert(post.take(entries.len() as int) =~= entries);
    assert forall|i: int| 0 <= i < post.len() implies (#[trigger] post[i]).1.2 == count_kind(
        post.take(i),
        post[i].1.0,
    ) by {
        if i < entries.len() {
            assert(post.take(i) =~= entries.take(i));
            assert(post[i] == entries[i]);
        }
    }
}

proof fn lemma_count_monotone<K>(entries: Seq<(String, (K, Type, usize))>, kind: K, i: int, j: int)
    requires
        0 <= i <= j <= entries.len(),
    ensures
        count_kind(entries.take(i), kind) <= count_kind(entries.take(j), kind),
    decreases j - i,
{
    if i < j {
        lemma_count_monotone(entries, kind, i + 1, j);
        assert(entries.take(i + 1).drop_last() =~= entries.take(i));
    }
}

proof fn lemma_count_strict<K>(entries: Seq<(String, (K, Type, usize))>, kind: K, i: int, j: int)
    requires
        0 <= i < j <= entries.len(),
        entries[i].1.0 == kind,
    ensures
        count_kind(entries.take(i), kind) < count_kind(entries.take(j), kind),
{
    lemma_count_monotone(entries, kind, i + 1, j);
    assert(entries.take(i + 1).drop_last() =~= entries.take(i));
    assert(entries.take(i + 1).last() == entries[i]);
}

/// Whether some entry of the given kind occupies slot `s`.
pub open spec fn has_slot<K>(entries: Seq<(String, (K, Type, usize))>, kind: K, s: nat) -> bool {
    exists|i: int|
        0 <= i < entries.len() && (#[trigger] entries[i]).1.0 == kind && entries[i].1.2 == s
}

/// In a well-formed variable list the slots of each kind are exactly
/// 0, 1, ... up to the kind's count, in declaration order.
pub proof fn lemma_slots_dense<K>(entries: Seq<(String, (K, Type, usize))>, kind: K)
    requires
        wf_vars(entries),
    ensures
        forall|i: int, j: int|
            0 <= i < j < entries.len() && (#[trigger] entries[i]).1.0 == kind && (
            #[trigger] entries[j]).1.0 == kind ==> entries[i].1.2 < entries[j].1.2,
        forall|i: int|
            0 <= i < entries.len() && (#[trigger] entries[i]).1.0 == kind ==> entries[i].1.2
                < count_kind(entries, kind),
        forall|s: nat| s < count_kind(entries, kind) ==> #[trigger] has_slot(entries, kind, s),
{
    assert(entries.take(entries.len() as int) =~= entries);
    assert forall|i: int, j: int|
        0 <= i < j < entries.len() && (#[trigger] entries[i]).1.0 == kind && (
        #[trigger] entries[j]).1.0 == kind implies entries[i].1.2 < entries[j].1.2 by {
        lemma_count_strict(entries, kind, i, j);
    }
    assert forall|i: int|
        0 <= i < entries.len() && (#[trigger] entries[i]).1.0 == kind implies entries[i].1.2
        < count_kind(entries, kind) by {
        lemma_count_strict(entries, kind, i, entries.len() as int);
    }
    assert forall|s: nat| s < count_kind(entries, kind) implies #[trigger] has_slot(
        entries,
        kind,
        s,
    ) by {
        lemma_density(entries, kind, s);
    }
}

proof fn lemma_density<K>(entries: Seq<(String, (K, Type, usize))>, kind: K, s: nat)
    requires
        wf_vars(entries),
        s < count_kind(entries, kind),
    ensures
        has_slot(entries, kind, s),
    decreases entries.len(),
{
    let n = entries.len() as int;
    assert(entries.take(n - 1) =~= entries.drop_last());
    if entries.last().1.0 == kind && count_kind(entries.drop_last(), kind) == s {
        assert(entries[n - 1].1.2 == s);
    } else {
        assert(wf_vars(entries.drop_last())) by {
            assert forall|i: int| 0 <= i < entries.drop_last().len() implies (
            #[trigger] entries.drop_last()[i]).1.2 == count_kind(
                entries.drop_last().take(i),
                entries.drop_last()[i].1.0,
            ) by {
                assert(entries.drop_last().take(i) =~= entries.take(i));
                assert(entries.drop_last()[i] == entries[i]);
            }
        }
        lemma_density(entries.drop_last(), kind, s);
        let i = choose|i: int|
            0 <= i < entries.drop_last().len() && (#[trigger] entries.drop_last()[i]).1.0 == kind
                && entries.drop_last()[i].1.2 == s;
        assert(entries[i] == entries.drop_last()[i]);
    }
}

/// The class-level names of one class, and its subroutines.
pub struct ClassSymbolTable {
    pub class_vars: Vec<(String, (ClassVarDecorator, Type, usize))>,
    pub subroutines: Vec<(String, SubroutineSymbolTable)>,
    pub static_number: usize,
    pub field_number: usize,
}

/// The arguments and locals of one subroutine, with its kind and return type.
pub struct SubroutineSymbolTable {
    pub vars: Vec<(String, (SubroutineVarDecorator, Type, usize))>,
    pub decorator: SubroutineDecorator,
    pub ty: Option<Type>,
    pub arg_number: usize,
    pub local_number: usize,
}

/// A well-formed subroutine table: variables well formed and the counters
/// counting the two kinds.
pub open spec fn wf_sub_table(t: SubroutineSymbolTable) -> bool {
    &&& wf_vars(t.vars@)
    &&& t.arg_number == count_kind(t.vars@, SubroutineVarDecorator::Arg)
    &&& t.local_number == count_kind(t.vars@, SubroutineVarDecorator::Local)
}

/// A well-formed class table: variables well formed, the counters counting
/// the two kinds, and subroutines unique and well formed.
pub open spec fn wf_class_table(t: ClassSymbolTable) -> bool {
    &&& wf_vars(t.class_vars@)
    &&& t.static_number == count_kind(t.class_vars@, ClassVarDecorator::Static)
    &&& t.field_number == count_kind(t.class_vars@, ClassVarDecorator::Field)
    &&& unique_str_keys(t.subroutines@)
    &&& forall|i: int|
        0 <= i < t.subroutines@.len() ==> wf_sub_table((#[trigger] t.subroutines@[i]).1)
    &&& forall|i: int|
        0 <= i < t.subroutines@.len() ==> method_has_receiver((#[trigger] t.subroutines@[i]).1)
}

/// A method's implicit receiver, named `this`, holds argument slot 0; its
/// user-declared arguments therefore start at slot 1.
pub open spec fn method_has_receiver(t: SubroutineSymbolTable) -> bool {
    t.decorator == SubroutineDecorator::Method ==> (assoc_find(t.vars@, "this"@) matches Some(
        (d, _, slot),
    ) && d == SubroutineVarDecorator::Arg && slot == 0)
}

/// The whole compilation's symbol table: one entry per class, plus the class
/// and subroutine most recently entered, which the `enter_*` calls extend.
pub struct SymbolTable {
    pub classes: Vec<(String, ClassSymbolTable)>,
    pub last_class: String,
    pub last_subroutine: String,
}

/// A well-formed symbol table: unique class names, every class well formed.
pub open spec fn wf_table(t: SymbolTable) -> bool {
    &&& unique_str_keys(t.classes@)
    &&& forall|i: int| 0 <= i < t.classes@.len() ==> wf_class_table((#[trigger] t.classes@[i]).1)
}

impl SymbolTable {
    /// The class the table is currently filling.
    pub open spec fn cur_class(&self) -> Seq<char> {
        self.last_class@
    }

    /// The subroutine the table is currently filling.
    pub open spec fn cur_subroutine(&self) -> Seq<char> {
        self.last_subroutine@
    }

    /// An empty symbol table.
    pub fn new() -> (r: SymbolTable)
        ensures
            wf_table(r),
            r.classes@.len() == 0,
            r.cur_class() == Seq::<char>::empty(),
    {
        let r = SymbolTable { classes: Vec::new(), last_class: lit(""), last_subroutine: lit("") };
        proof {
            reveal_strlit("");
            assert(r.last_class@ =~= Seq::<char>::empty());
        }
        r
    }

    /// Starts a new class; a repeated class name is an error.
    pub fn enter_class(&mut self, class: String) -> (r: Result<(), ParseError>)
        requires
            wf_table(*old(self)),
        ensures
            wf_table(*final(self)),
            match r {
                Ok(()) => assoc_find(old(self).classes@, class@) is None && final(self).cur_class()
                    == class@ && (forall|c: Seq<char>|
                    c != class@ ==> assoc_find(final(self).classes@, c) == assoc_find(
                        old(self).classes@,
                        c,
                    )) && (match assoc_find(final(self).classes@, class@) {
                    Some(ct) => ct.class_vars@.len() == 0 && ct.subroutines@.len() == 0
                        && ct.static_number == 0 && ct.field_number == 0,
                    None => false,
                }),
                Err(e) => e == ParseError::DuplicatedClass && assoc_find(
                    old(self).classes@,
                    class@,
                ) is Some && *final(self) == *old(self),
            },
    {
        match find_str_entry(&self.classes, class.as_str()) {
            Some(i) => {
                proof {
                    lemma_assoc_found(self.classes@, class@, i as int);
                }
                Err(ParseError::DuplicatedClass)
            }
            None => {
                proof {
                    lemma_assoc_none(self.classes@, class@);
                }
                let table = ClassSymbolTable {
                    class_vars: Vec::new(),
                    subroutines: Vec::new(),
                    static_number: 0,
                    field_number: 0,
                };
                self.last_class = lit(class.as_str());
                let ghost pre = self.classes@;
                let ghost key = class@;
                self.classes.push((class, table));
                proof {
                    assert(self.classes@.drop_last() =~= pre);
                    assert forall|c: Seq<char>| c != key implies assoc_find(self.classes@, c)
                        == assoc_find(pre, c) by {
                        lemma_assoc_push(pre, self.classes@.last(), c);
                    }
                    lemma_assoc_push(pre, self.classes@.last(), key);
                    assert forall|i: int|
                        0 <= i < self.classes@.len() implies wf_class_table(
                        (#[trigger] self.classes@[i]).1,
                    ) by {
                        if i < pre.len() {
                            assert(self.classes@[i] == pre[i]);
                        }
                    }
                    assert(unique_str_keys(self.classes@)) by {
                        assert(forall|i: int|
                            0 <= i < pre.len() ==> (#[trigger] self.classes@[i]) == pre[i]);
                    }
                }
                Ok(())
            }
        }
    }

    /// Adds a class-level variable to the current class, giving it the next
    /// slot of its kind; a repeated name is an error.
    #[verifier::rlimit(100)]
    pub fn enter_class_var(&mut self, name: String, decorator: ClassVarDecorator, ty: Type) -> (r:
        Result<(), ParseError>)
        requires
            wf_table(*old(self)),
        ensures
            wf_table(*final(self)),
            final(self).cur_class() == old(self).cur_class(),
            final(self).cur_subroutine() == old(self).cur_subroutine(),
            match r {
                Ok(()) => match assoc_find(old(self).classes@, old(self).cur_class()) {
                    Some(ct) => {
                        &&& assoc_find(ct.class_vars@, name@) is None
                        &&& match assoc_find(final(self).classes@, old(self).cur_class()) {
                            Some(ct2) => {
                                &&& assoc_find(ct2.class_vars@, name@) matches Some(
                                    (d, t, slot),
                                ) && d == decorator && t@ == ty@ && slot == count_kind(
                                    ct.class_vars@,
                                    decorator,
                                )
                                &&& ct2.subroutines@ == ct.subroutines@
                                &&& ct2.static_number == ct.static_number + (
                                if decorator == ClassVarDecorator::Static {
                                    1int
                                } else {
                                    0int
                                })
                                &&& ct2.field_number == ct.field_number + (
                                if decorator == ClassVarDecorator::Field {
                                    1int
                                } else {
                                    0int
                                })
                                &&& forall|v: Seq<char>|
                                    v != name@ ==> assoc_find(ct2.class_vars@, v) == assoc_find(
                                        ct.class_vars@,
                                        v,
                                    )
                            },
                            None => false,
                        }
                        &&& forall|c: Seq<char>|
                            c != old(self).cur_class() ==> assoc_find(final(self).classes@, c)
                                == assoc_find(old(self).classes@, c)
                    },
                    None => false,
                },
                Err(e) => {
                    &&& final(self).classes@ == old(self).classes@
                    &&& (e == ParseError::ClassNotFound <==> assoc_find(
                        old(self).classes@,
                        old(self).cur_class(),
                    ) is None)
                    &&& (e == ParseError::DuplicatedClassLevelVariable <==> match assoc_find(
                        old(self).classes@,
                        old(self).cur_class(),
                    ) {
                        Some(ct) => assoc_find(ct.class_vars@, name@) is Some,
                        None => false,
                    })
                    &&& (e == ParseError::ClassNotFound || e
                        == ParseError::DuplicatedClassLevelVariable)
                },
            },
    {
        let j = match find_str_entry(&self.classes, self.last_class.as_str()) {
            Some(j) => {
                proof {
                    lemma_assoc_found(self.classes@, self.last_class@, j as int);
                }
                j
            }
            None => {
                proof {
                    lemma_assoc_none(self.classes@, self.last_class@);
                }
                return Err(ParseError::ClassNotFound);
            }
        };
        let ghost pre = *self;
        let ghost prect = self.classes@[j as int].1;
        let entry = &mut self.classes[j];
        let class_table = &mut entry.1;
        match find_str_entry(&class_table.class_vars, name.as_str()) {
            Some(i) => {
                proof {
                    lemma_assoc_found(prect.class_vars@, name@, i as int);
                    assert(self.classes@ =~= pre.classes@);
                }
                return Err(ParseError::DuplicatedClassLevelVariable);
            }
            None => (),
        }
        proof {
            lemma_assoc_none(prect.class_vars@, name@);
            lemma_count_le_len(prect.class_vars@, decorator);
        }
        proof {
            assert(wf_class_table(prect));
        }
        let var_number = match decorator {
            ClassVarDecorator::Static => class_table.static_number,
            ClassVarDecorator::Field => class_table.field_number,
        };
        let ghost prevars = class_table.class_vars@;
        class_table.class_vars.push((name, (decorator, ty, var_number)));
        let n = class_table.class_vars.len();
        proof {
            assert(n == prevars.len() + 1);
            assert(var_number < usize::MAX);
            assert(class_table.class_vars@.drop_last() =~= prevars);
            lemma_wf_vars_push(prevars, class_table.class_vars@.last());
        }
        match decorator {
            ClassVarDecorator::Static => {
                class_table.static_number = class_table.static_number + 1;
            }
            ClassVarDecorator::Field => {
                class_table.field_number = class_table.field_number + 1;
            }
        }
        proof {
            let post = *self;
            let key = pre.cur_class();
            assert(post.classes@ == pre.classes@.update(
                j as int,
                (pre.classes@[j as int].0, post.classes@[j as int].1),
            ));
            lemma_assoc_update(pre.classes@, j as int, post.classes@[j as int].1, key);
            assert forall|c: Seq<char>| c != key implies assoc_find(post.classes@, c)
                == assoc_find(pre.classes@, c) by {
                lemma_assoc_update(pre.classes@, j as int, post.classes@[j as int].1, c);
            }
            lemma_assoc_found(pre.classes@, key, j as int);
            lemma_assoc_push(prevars, post.classes@[j as int].1.class_vars@.last(), name@);
            assert(wf_table(post)) by {
                assert forall|i: int|
                    0 <= i < post.classes@.len() implies wf_class_table(
                    (#[trigger] post.classes@[i]).1,
                ) by {
                    if i != j as int {
                        assert(post.classes@[i] == pre.classes@[i]);
                    } else {
                        assert(count_kind(post.classes@[i].1.class_vars@, ClassVarDecorator::Static)
                            == count_kind(prevars, ClassVarDecorator::Static) + (
                        if decorator == ClassVarDecorator::Static {
                            1int
                        } else {
                            0int
                        }));
                        assert(count_kind(post.classes@[i].1.class_vars@, ClassVarDecorator::Field)
                            == count_kind(prevars, ClassVarDecorator::Field) + (
                        if decorator == ClassVarDecorator::Field {
                            1int
                        } else {
                            0int
                        }));
                    }
                }
            }
        }
        Ok(())
    }

    /// Starts a new subroutine in the current class; a repeated subroutine
    /// name is an error.
    #[verifier::rlimit(100)]
    pub fn enter_subroutine(
        &mut self,
        subroutine: String,
        decorator: SubroutineDecorator,
        ty: Option<Type>,
    ) -> (r: Result<(), ParseError>)
        requires
            wf_table(*old(self)),
        ensures
            wf_table(*final(self)),
            final(self).cur_class() == old(self).cur_class(),
            match r {
                Ok(()) => {
                    &&& final(self).cur_subroutine() == subroutine@
                    &&& match assoc_find(old(self).classes@, old(self).cur_class()) {
                        Some(ct) => {
                            &&& assoc_find(ct.subroutines@, subroutine@) is None
                            &&& match assoc_find(final(self).classes@, old(self).cur_class()) {
                                Some(ct2) => {
                                    &&& ct2.class_vars@ == ct.class_vars@
                                    &&& ct2.field_number == ct.field_number
                                    &&& match assoc_find(ct2.subroutines@, subroutine@) {
                                        Some(st) => st.decorator == decorator && st.local_number
                                            == 0 && (if decorator == SubroutineDecorator::Method {
                                            st.vars@.len() == 1 && st.arg_number == 1
                                                && (assoc_find(st.vars@, "this"@) matches Some(
                                                (d, t, slot),
                                            ) && d == SubroutineVarDecorator::Arg && slot == 0)
                                        } else {
                                            st.vars@.len() == 0 && st.arg_number == 0
                                        }),
                                        None => false,
                                    }
                                    &&& forall|n: Seq<char>|
                                        n != subroutine@ ==> assoc_find(ct2.subroutines@, n)
                                            == assoc_find(ct.subroutines@, n)
                                },
                                None => false,
                            }
                            &&& forall|c: Seq<char>|
                                c != old(self).cur_class() ==> assoc_find(final(self).classes@, c)
                                    == assoc_find(old(self).classes@, c)
                        },
                        None => false,
                    }
                },
                Err(e) => {
                    &&& final(self).classes@ == old(self).classes@
                    &&& final(self).cur_subroutine() == old(self).cur_subroutine()
                    &&& (e == ParseError::ClassNotFound <==> assoc_find(
                        old(self).classes@,
                        old(self).cur_class(),
                    ) is None)
                    &&& (e == ParseError::DuplicatedSubroutine <==> match assoc_find(
                        old(self).classes@,
                        old(self).cur_class(),
                    ) {
                        Some(ct) => assoc_find(ct.subroutines@, subroutine@) is Some,
                        None => false,
                    })
                    &&& (e == ParseError::ClassNotFound || e == ParseError::DuplicatedSubroutine)
                },
            },
    {
        let j = match find_str_entry(&self.classes, self.last_class.as_str()) {
            Some(j) => {
                proof {
                    lemma_assoc_found(self.classes@, self.last_class@, j as int);
                }
                j
            }
            None => {
                proof {
                    lemma_assoc_none(self.classes@, self.last_class@);
                }
                return Err(ParseError::ClassNotFound);
            }
        };
        let ghost pre = *self;
        let ghost prect = self.classes@[j as int].1;
        match find_str_entry(&self.classes[j].1.subroutines, subroutine.as_str()) {
            Some(i) => {
                proof {
                    lemma_assoc_found(prect.subroutines@, subroutine@, i as int);
                }
                return Err(ParseError::DuplicatedSubroutine);
            }
            None => (),
        }
        proof {
            lemma_assoc_none(prect.subroutines@, subroutine@);
            assert(wf_class_table(prect));
        }
        self.last_subroutine = lit(subroutine.as_str());
        let entry = &mut self.classes[j];
        let class_table = &mut entry.1;
        // a method's receiver is its implicit argument 0, named `this`,
        // shifting the declared arguments by one
        let mut vars: Vec<(String, (SubroutineVarDecorator, Type, usize))> = Vec::new();
        let mut arg_number: usize = 0;
        if matches!(decorator, SubroutineDecorator::Method) {
            let this_ty = Type::Class(lit(self.last_class.as_str()));
            vars.push((lit("this"), (SubroutineVarDecorator::Arg, this_ty, 0)));
            arg_number = 1;
            proof {
                assert(vars@.len() == 1);
                assert(vars@.drop_last() =~= Seq::<
                    (String, (SubroutineVarDecorator, Type, usize)),
                >::empty());
                assert(vars@.take(0) =~= Seq::<
                    (String, (SubroutineVarDecorator, Type, usize)),
                >::empty());
                assert(vars@[0].1.0 == SubroutineVarDecorator::Arg && vars@[0].1.2 == 0);
                assert(count_kind(vars@.take(0), SubroutineVarDecorator::Arg) == 0);
                assert(wf_vars(vars@)) by {
                    assert forall|i: int| 0 <= i < vars@.len() implies (#[trigger] vars@[i]).1.2
                        == count_kind(vars@.take(i), vars@[i].1.0) by {
                        assert(i == 0);
                        assert(count_kind(vars@.take(0), vars@[0].1.0) == 0);
                    }
                }
                assert(count_kind(vars@.drop_last(), SubroutineVarDecorator::Arg) == 0);
                assert(count_kind(vars@.drop_last(), SubroutineVarDecorator::Local) == 0);
                assert(count_kind(vars@, SubroutineVarDecorator::Arg) == 1);
                assert(count_kind(vars@, SubroutineVarDecorator::Local) == 0);
            }
        }
        let table = SubroutineSymbolTable { vars, decorator, ty, arg_number, local_number: 0 };
        let ghost presubs = class_table.subroutines@;
        class_table.subroutines.push((subroutine, table));
        proof {
            let post = *self;
            let key = pre.cur_class();
            assert(class_table.subroutines@.drop_last() =~= presubs);
            lemma_assoc_push(presubs, post.classes@[j as int].1.subroutines@.last(), subroutine@);
            assert forall|n: Seq<char>| n != subroutine@ implies assoc_find(
                post.classes@[j as int].1.subroutines@,
                n,
            ) == assoc_find(presubs, n) by {
                lemma_assoc_push(presubs, post.classes@[j as int].1.subroutines@.last(), n);
            }
            assert(post.classes@ == pre.classes@.update(
                j as int,
                (pre.classes@[j as int].0, post.classes@[j as int].1),
            ));
            lemma_assoc_update(pre.classes@, j as int, post.classes@[j as int].1, key);
            assert forall|c: Seq<char>| c != key implies assoc_find(post.classes@, c)
                == assoc_find(pre.classes@, c) by {
                lemma_assoc_update(pre.classes@, j as int, post.classes@[j as int].1, c);
            }
            lemma_assoc_found(pre.classes@, key, j as int);
            assert(wf_table(post)) by {
                assert forall|i: int|
                    0 <= i < post.classes@.len() implies wf_class_table(
                    (#[trigger] post.classes@[i]).1,
                ) by {
                    if i != j as int {
                        assert(post.classes@[i] == pre.classes@[i]);
                    } else {
                        let ct2 = post.classes@[i].1;
                        assert(forall|a: int|
                            0 <= a < presubs.len() ==> (#[trigger] ct2.subroutines@[a])
                                == presubs[a]);
                        assert forall|a: int|
                            0 <= a < ct2.subroutines@.len() implies wf_sub_table(
                            (#[trigger] ct2.subroutines@[a]).1,
                        ) by {
                            if a < presubs.len() {
                                assert(ct2.subroutines@[a] == presubs[a]);
                            }
                        }
                    }
                }
            }
        }
        Ok(())
    }

    /// Adds an argument or local to the current subroutine, giving it the
    /// next slot of its kind; a repeated name is an error.
    #[verifier::rlimit(100)]
    fn enter_sub_var(&mut self, name: String, decorator: SubroutineVarDecorator, ty: Type) -> (r:
        Result<(), ParseError>)
        requires
            wf_table(*old(self)),
        ensures
            wf_table(*final(self)),
            final(self).cur_class() == old(self).cur_class(),
            final(self).cur_subroutine() == old(self).cur_subroutine(),
            sub_var_added(*old(self), *final(self), name@, decorator, ty@, r),
    {
        let j = match find_str_entry(&self.classes, self.last_class.as_str()) {
            Some(j) => {
                proof {
                    lemma_assoc_found(self.classes@, self.last_class@, j as int);
                }
                j
            }
            None => {
                proof {
                    lemma_assoc_none(self.classes@, self.last_class@);
                }
                return Err(ParseError::ClassNotFound);
            }
        };
        let ghost pre = *self;
        let ghost prect = self.classes@[j as int].1;
        let k = match find_str_entry(&self.classes[j].1.subroutines, self.last_subroutine.as_str())
        {
            Some(k) => {
                proof {
                    lemma_assoc_found(prect.subroutines@, self.last_subroutine@, k as int);
                }
                k
            }
            None => {
                proof {
                    lemma_assoc_none(prect.subroutines@, self.last_subroutine@);
                }
                return Err(ParseError::ClassNotFound);
            }
        };
        let ghost prest = prect.subroutines@[k as int].1;
        match find_str_entry(&self.classes[j].1.subroutines[k].1.vars, name.as_str()) {
            Some(i) => {
                proof {
                    lemma_assoc_found(prest.vars@, name@, i as int);
                }
                return Err(ParseError::DuplicatedFuncitonLevelVariable);
            }
            None => (),
        }
        proof {
            lemma_assoc_none(prest.vars@, name@);
            assert(wf_class_table(prect));
            assert(wf_sub_table(prest));
            lemma_count_le_len(prest.vars@, SubroutineVarDecorator::Arg);
            lemma_count_le_len(prest.vars@, SubroutineVarDecorator::Local);
        }
        let entry = &mut self.classes[j];
        let sub_entry = &mut entry.1.subroutines[k];
        let sub_table = &mut sub_entry.1;
        let var_number = match decorator {
            SubroutineVarDecorator::Arg => sub_table.arg_number,
            SubroutineVarDecorator::Local => sub_table.local_number,
        };
        let ghost prevars = sub_table.vars@;
        sub_table.vars.push((name, (decorator, ty, var_number)));
        let n = sub_table.vars.len();
        proof {
            assert(n == prevars.len() + 1);
            assert(var_number < usize::MAX);
            assert(sub_table.vars@.drop_last() =~= prevars);
            lemma_wf_vars_push(prevars, sub_table.vars@.last());
        }
        match decorator {
            SubroutineVarDecorator::Arg => {
                sub_table.arg_number = sub_table.arg_number + 1;
            }
            SubroutineVarDecorator::Local => {
                sub_table.local_number = sub_table.local_number + 1;
            }
        }
        proof {
            let post = *self;
            let ckey = pre.cur_class();
            let skey = pre.cur_subroutine();
            let ct2 = post.classes@[j as int].1;
            let st2 = ct2.subroutines@[k as int].1;
            assert(wf_sub_table(st2)) by {
                assert(count_kind(st2.vars@, SubroutineVarDecorator::Arg) == count_kind(
                    prevars,
                    SubroutineVarDecorator::Arg,
                ) + (if decorator == SubroutineVarDecorator::Arg {
                    1int
                } else {
                    0int
                }));
                assert(count_kind(st2.vars@, SubroutineVarDecorator::Local) == count_kind(
                    prevars,
                    SubroutineVarDecorator::Local,
                ) + (if decorator == SubroutineVarDecorator::Local {
                    1int
                } else {
                    0int
                }));
            }
            assert(ct2.subroutines@ == prect.subroutines@.update(
                k as int,
                (prect.subroutines@[k as int].0, st2),
            ));
            lemma_assoc_update(prect.subroutines@, k as int, st2, skey);
            assert forall|nm: Seq<char>| nm != skey implies assoc_find(ct2.subroutines@, nm)
                == assoc_find(prect.subroutines@, nm) by {
                lemma_assoc_update(prect.subroutines@, k as int, st2, nm);
            }
            lemma_assoc_found(prect.subroutines@, skey, k as int);
            lemma_assoc_push(prevars, st2.vars@.last(), name@);
            assert(post.classes@ == pre.classes@.update(
                j as int,
                (pre.classes@[j as int].0, ct2),
            ));
            lemma_assoc_update(pre.classes@, j as int, ct2, ckey);
            assert forall|c: Seq<char>| c != ckey implies assoc_find(post.classes@, c)
                == assoc_find(pre.classes@, c) by {
                lemma_assoc_update(pre.classes@, j as int, ct2, c);
            }
            lemma_assoc_found(pre.classes@, ckey, j as int);
            assert(wf_table(post)) by {
                assert forall|i: int|
                    0 <= i < post.classes@.len() implies wf_class_table(
                    (#[trigger] post.classes@[i]).1,
                ) by {
                    if i != j as int {
                        assert(post.classes@[i] == pre.classes@[i]);
                    } else {
                        assert forall|a: int|
                            0 <= a < ct2.subroutines@.len() implies wf_sub_table(
                            (#[trigger] ct2.subroutines@[a]).1,
                        ) by {
                            if a != k as int {
                                assert(ct2.subroutines@[a] == prect.subroutines@[a]);
                            }
                        }
                    }
                }
            }
        }
        Ok(())
    }

    /// Adds an argument of the current subroutine.
    pub fn enter_arg(&mut self, name: String, ty: Type) -> (r: Result<(), ParseError>)
        requires
            wf_table(*old(self)),
        ensures
            wf_table(*final(self)),
            final(self).cur_class() == old(self).cur_class(),
            final(self).cur_subroutine() == old(self).cur_subroutine(),
            sub_var_added(*old(self), *final(self), name@, SubroutineVarDecorator::Arg, ty@, r),
    {
        self.enter_sub_var(name, SubroutineVarDecorator::Arg, ty)
    }

    /// Adds a local variable of the current subroutine.
    pub fn enter_local(&mut self, name: String, ty: Type) -> (r: Result<(), ParseError>)
        requires
            wf_table(*old(self)),
        ensures
            wf_table(*final(self)),
            final(self).cur_class() == old(self).cur_class(),
            final(self).cur_subroutine() == old(self).cur_subroutine(),
            sub_var_added(*old(self), *final(self), name@, SubroutineVarDecorator::Local, ty@, r),
    {
        self.enter_sub_var(name, SubroutineVarDecorator::Local, ty)
    }

    /// Resolves a name in (class, subroutine): the subroutine scope first,
    /// then the class scope.
    pub fn lookup_var(&self, class: &str, subroutine: &str, name: &str) -> (r: Result<
        (RefType, Type, usize),
        ParseError,
    >)
        requires
            wf_table(*self),
        ensures
            match r {
                Ok((kind, ty, slot)) => spec_lookup_var(*self, class@, subroutine@, name@)
                    == Ok::<(RefType, TypeV, nat), ParseError>((kind, ty@, slot as nat)),
                Err(e) => spec_lookup_var(*self, class@, subroutine@, name@) == Err::<
                    (RefType, TypeV, nat),
                    ParseError,
                >(e),
            },
            match r {
                Ok((kind, ty, slot)) => match assoc_find(self.classes@, class@) {
                    Some(ct) => match assoc_find(ct.subroutines@, subroutine@) {
                        Some(st) => match assoc_find(st.vars@, name@) {
                            Some((d, t, n)) => kind == RefType::SubroutineRefType(d) && ty@ == t@
                                && slot == n,
                            None => match assoc_find(ct.class_vars@, name@) {
                                Some((d, t, n)) => kind == RefType::ClassRefType(d) && ty@ == t@
                                    && slot == n,
                                None => false,
                            },
                        },
                        None => false,
                    },
                    None => false,
                },
                Err(e) => match assoc_find(self.classes@, class@) {
                    Some(ct) => match assoc_find(ct.subroutines@, subroutine@) {
                        Some(st) => e == ParseError::SymbolNotFound && assoc_find(st.vars@, name@)
                            is None && assoc_find(ct.class_vars@, name@) is None,
                        None => e == ParseError::ClassNotFound,
                    },
                    None => e == ParseError::ClassNotFound,
                },
            },
    {
        let j = match find_str_entry(&self.classes, class) {
            Some(j) => {
                proof {
                    lemma_assoc_found(self.classes@, class@, j as int);
                }
                j
            }
            None => {
                proof {
                    lemma_assoc_none(self.classes@, class@);
                }
                return Err(ParseError::ClassNotFound);
            }
        };
        let ct = &self.classes[j].1;
        let k = match find_str_entry(&ct.subroutines, subroutine) {
            Some(k) => {
                proof {
                    lemma_assoc_found(ct.subroutines@, subroutine@, k as int);
                }
                k
            }
            None => {
                proof {
                    lemma_assoc_none(ct.subroutines@, subroutine@);
                }
                return Err(ParseError::ClassNotFound);
            }
        };
        let st = &ct.subroutines[k].1;
        proof {
            assert(wf_class_table(*ct));
            assert(wf_sub_table(*st));
        }
        match find_str_entry(&st.vars, name) {
            Some(i) => {
                proof {
                    lemma_assoc_found(st.vars@, name@, i as int);
                }
                let (d, t, n) = (st.vars[i].1.0, clone_type(&st.vars[i].1.1), st.vars[i].1.2);
                Ok((RefType::SubroutineRefType(d), t, n))
            }
            None => {
                proof {
                    lemma_assoc_none(st.vars@, name@);
                }
                match find_str_entry(&ct.class_vars, name) {
                    Some(i) => {
                        proof {
                            lemma_assoc_found(ct.class_vars@, name@, i as int);
                        }
                        let (d, t, n) = (
                            ct.class_vars[i].1.0,
                            clone_type(&ct.class_vars[i].1.1),
                            ct.class_vars[i].1.2,
                        );
                        Ok((RefType::ClassRefType(d), t, n))
                    }
                    None => {
                        proof {
                            lemma_assoc_none(ct.class_vars@, name@);
                        }
                        Err(ParseError::SymbolNotFound)
                    }
                }
            }
        }
    }

    /// The kind, argument count, and local count of a subroutine.
    pub fn lookup_subroutine(&self, class: &str, subroutine: &str) -> (r: Result<
        (SubroutineDecorator, usize, usize),
        ParseError,
    >)
        requires
            wf_table(*self),
        ensures
            match r {
                Ok((d, args, locals)) => spec_lookup_subroutine(*self, class@, subroutine@)
                    == Ok::<(SubroutineDecorator, nat, nat), ParseError>(
                    (d, args as nat, locals as nat),
                ),
                Err(e) => spec_lookup_subroutine(*self, class@, subroutine@) == Err::<
                    (SubroutineDecorator, nat, nat),
                    ParseError,
                >(e),
            },
            match r {
                Ok((d, args, locals)) => match assoc_find(self.classes@, class@) {
                    Some(ct) => match assoc_find(ct.subroutines@, subroutine@) {
                        Some(st) => d == st.decorator && args == st.arg_number && locals
                            == st.local_number,
                        None => false,
                    },
                    None => false,
                },
                Err(e) => e == ParseError::ClassNotFound && match assoc_find(
                    self.classes@,
                    class@,
                ) {
                    Some(ct) => assoc_find(ct.subroutines@, subroutine@) is None,
                    None => true,
                },
            },
    {
        let j = match find_str_entry(&self.classes, class) {
            Some(j) => {
                proof {
                    lemma_assoc_found(self.classes@, class@, j as int);
                }
                j
            }
            None => {
                proof {
                    lemma_assoc_none(self.classes@, class@);
                }
                return Err(ParseError::ClassNotFound);
            }
        };
        let ct = &self.classes[j].1;
        match find_str_entry(&ct.subroutines, subroutine) {
            Some(k) => {
                proof {
                    lemma_assoc_found(ct.subroutines@, subroutine@, k as int);
                }
                let st = &ct.subroutines[k].1;
                Ok((st.decorator, st.arg_number, st.local_number))
            }
            None => {
                proof {
                    lemma_assoc_none(ct.subroutines@, subroutine@);
                }
                Err(ParseError::ClassNotFound)
            }
        }
    }

    /// The number of fields of a class, which is its heap allocation size.
    pub fn lookup_class(&self, class: &str) -> (r: Result<usize, ParseError>)
        requires
            wf_table(*self),
        ensures
            match r {
                Ok(n) => spec_lookup_class(*self, class@) == Ok::<nat, ParseError>(n as nat),
                Err(e) => spec_lookup_class(*self, class@) == Err::<nat, ParseError>(e),
            },
            match assoc_find(self.classes@, class@) {
                Some(ct) => r == Ok::<usize, ParseError>(ct.field_number),
                None => r == Err::<usize, ParseError>(ParseError::ClassNotFound),
            },
    {
        match find_str_entry(&self.classes, class) {
            Some(j) => {
                proof {
                    lemma_assoc_found(self.classes@, class@, j as int);
                }
                Ok(self.classes[j].1.field_number)
            }
            None => {
                proof {
                    lemma_assoc_none(self.classes@, class@);
                }
                Err(ParseError::ClassNotFound)
            }
        }
    }
}

/// What `lookup_var` resolves to, as a function of the table: the subroutine
/// scope first, then the class scope, with the errors of each miss.
pub open spec fn spec_lookup_var(
    t: SymbolTable,
    class: Seq<char>,
    sub: Seq<char>,
    name: Seq<char>,
) -> Result<(RefType, TypeV, nat), ParseError> {
    match assoc_find(t.classes@, class) {
        Some(ct) => match assoc_find(ct.subroutines@, sub) {
            Some(st) => match assoc_find(st.vars@, name) {
                Some((d, ty, n)) => Ok((RefType::SubroutineRefType(d), ty@, n as nat)),
                None => match assoc_find(ct.class_vars@, name) {
                    Some((d, ty, n)) => Ok((RefType::ClassRefType(d), ty@, n as nat)),
                    None => Err(ParseError::SymbolNotFound),
                },
            },
            None => Err(ParseError::ClassNotFound),
        },
        None => Err(ParseError::ClassNotFound),
    }
}

/// What `lookup_subroutine` resolves to: kind, argument count, local count.
pub open spec fn spec_lookup_subroutine(t: SymbolTable, class: Seq<char>, sub: Seq<char>) -> Result<
    (SubroutineDecorator, nat, nat),
    ParseError,
> {
    match assoc_find(t.classes@, class) {
        Some(ct) => match assoc_find(ct.subroutines@, sub) {
            Some(st) => Ok((st.decorator, st.arg_number as nat, st.local_number as nat)),
            None => Err(ParseError::ClassNotFound),
        },
        None => Err(ParseError::ClassNotFound),
    }
}

/// What `lookup_class` resolves to: the class's field count.
pub open spec fn spec_lookup_class(t: SymbolTable, class: Seq<char>) -> Result<nat, ParseError> {
    match assoc_find(t.classes@, class) {
        Some(ct) => Ok(ct.field_number as nat),
        None => Err(ParseError::ClassNotFound),
    }
}

/// What a successful or failed argument/local insertion guarantees.
pub open spec fn sub_var_added(
    pre: SymbolTable,
    post: SymbolTable,
    name: Seq<char>,
    decorator: SubroutineVarDecorator,
    t: TypeV,
    r: Result<(), ParseError>,
) -> bool {
    match r {
        Ok(()) => match assoc_find(pre.classes@, pre.cur_class()) {
            Some(ct) => match assoc_find(ct.subroutines@, pre.cur_subroutine()) {
                Some(st) => {
                    &&& assoc_find(st.vars@, name) is None
                    &&& match assoc_find(post.classes@, pre.cur_class()) {
                        Some(ct2) => {
                            &&& ct2.class_vars@ == ct.class_vars@
                            &&& ct2.field_number == ct.field_number
                            &&& match assoc_find(ct2.subroutines@, pre.cur_subroutine()) {
                                Some(st2) => {
                                    &&& assoc_find(st2.vars@, name) matches Some((d, ty, slot))
                                        && d == decorator && ty@ == t && slot == count_kind(
                                        st.vars@,
                                        decorator,
                                    )
                                    &&& st2.decorator == st.decorator
                                    &&& st2.arg_number == st.arg_number + (
                                    if decorator == SubroutineVarDecorator::Arg {
                                        1int
                                    } else {
                                        0int
                                    })
                                    &&& st2.local_number == st.local_number + (
                                    if decorator == SubroutineVarDecorator::Local {
                                        1int
                                    } else {
                                        0int
                                    })
                                    &&& forall|v: Seq<char>|
                                        v != name ==> assoc_find(st2.vars@, v) == assoc_find(
                                            st.vars@,
                                            v,
                                        )
                                },
                                None => false,
                            }
                            &&& forall|n: Seq<char>|
                                n != pre.cur_subroutine() ==> assoc_find(ct2.subroutines@, n)
                                    == assoc_find(ct.subroutines@, n)
                        },
                        None => false,
                    }
                    &&& forall|c: Seq<char>|
                        c != pre.cur_class() ==> assoc_find(post.classes@, c) == assoc_find(
                            pre.classes@,
                            c,
                        )
                },
                None => false,
            },
            None => false,
        },
        Err(e) => {
            &&& post.classes@ == pre.classes@
            &&& (e == ParseError::ClassNotFound <==> match assoc_find(
                pre.classes@,
                pre.cur_class(),
            ) {
                Some(ct) => assoc_find(ct.subroutines@, pre.cur_subroutine()) is None,
                None => true,
            })
            &&& (e == ParseError::DuplicatedFuncitonLevelVariable <==> match assoc_find(
                pre.classes@,
                pre.cur_class(),
            ) {
                Some(ct) => match assoc_find(ct.subroutines@, pre.cur_subroutine()) {
                    Some(st) => assoc_find(st.vars@, name) is Some,
                    None => false,
                },
                None => false,
            })
            &&& (e == ParseError::ClassNotFound || e
                == ParseError::DuplicatedFuncitonLevelVariable)
        },
    }
}

} // verus!
