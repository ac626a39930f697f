//! The variable store: values under natural numbers.

use crate::function::{BuiltInFunction, Function, FunctionModel};
use crate::natural::Natural;
use crate::value::{Value, ValueModel};
use vstd::prelude::*;

verus! {

/// A finite map from natural numbers to values.
///
/// The entries lie in a list in which no key occurs twice.
#[derive(Debug)]
pub struct Table {
    entries: Vec<(Natural, Value)>,
}

/// Whether entry `i` of a list has the key `k`.
spec fn holds_key(entries: Seq<(Natural, Value)>, i: int, k: nat) -> bool {
    0 <= i < entries.len() && entries[i].0@ == k
}

/// The map that a list of entries stands for.
spec fn entries_map(entries: Seq<(Natural, Value)>) -> Map<nat, ValueModel> {
    Map::new(
        |k: nat| exists|i: int| holds_key(entries, i, k),
        |k: nat| entries[choose|i: int| holds_key(entries, i, k)].1@,
    )
}

/// Whether no key occurs twice in a list of entries.
spec fn distinct_keys(entries: Seq<(Natural, Value)>) -> bool {
    forall|i: int, j: int| 0 <= i < j < entries.len() ==> entries[i].0@ != entries[j].0@
}

/// In a list without repeated keys, the map holds under the key of an entry
/// the value of that entry.
proof fn lemma_entry(entries: Seq<(Natural, Value)>, i: int)
    requires
        distinct_keys(entries),
        0 <= i < entries.len(),
    ensures
        entries_map(entries).contains_key(entries[i].0@),
        entries_map(entries)[entries[i].0@] == entries[i].1@,
{
    let k = entries[i].0@;
    assert(holds_key(entries, i, k));
    let j = choose|j: int| holds_key(entries, j, k);
    assert(i == j);
}

/// The map holds nothing under a key that no entry has.
proof fn lemma_no_entry(entries: Seq<(Natural, Value)>, k: nat)
    requires
        forall|i: int| 0 <= i < entries.len() ==> entries[i].0@ != k,
    ensures
        !entries_map(entries).contains_key(k),
{
    if entries_map(entries).contains_key(k) {
        let j = choose|j: int| holds_key(entries, j, k);
        assert(holds_key(entries, j, k));
    }
}

impl View for Table {
    type V = Map<nat, ValueModel>;

    closed spec fn view(&self) -> Map<nat, ValueModel> {
        entries_map(self.entries@)
    }
}

impl Table {
    #[verifier::type_invariant]
    spec fn inv(self) -> bool {
        distinct_keys(self.entries@)
    }

    /// The position of the entry with a key, if there is one.
    fn find(&self, key: &Natural) -> (r: Option<usize>)
        ensures
            match r {
                Some(i) => holds_key(self.entries@, i as int, key@),
                None => forall|i: int| 0 <= i < self.entries.len() ==> self.entries[i].0@ != key@,
            },
    {
        let mut i: usize = 0;
        while i < self.entries.len()
            invariant
                i <= self.entries.len(),
                forall|j: int| 0 <= j < i ==> self.entries[j].0@ != key@,
            decreases self.entries.len() - i,
        {
            if self.entries[i].0 == *key {
                return Some(i);
            }
            i += 1;
        }
        None
    }

    /// Takes the entries out and leaves the map empty.
    fn take_entries(&mut self) -> (r: Vec<(Natural, Value)>)
        ensures
            r == old(self).entries,
            final(self).entries@.len() == 0,
    {
        let mut taken = Table { entries: Vec::new() };
        core::mem::swap(self, &mut taken);
        taken.entries
    }

    /// The empty map.
    pub fn new() -> (r: Table)
        ensures
            r@ == Map::<nat, ValueModel>::empty(),
    {
        let r = Table { entries: Vec::new() };
        proof {
            assert(r@ =~= Map::<nat, ValueModel>::empty()) by {
                assert forall|k: nat| !r@.contains_key(k) by {
                    lemma_no_entry(r.entries@, k);
                }
            }
        }
        r
    }

    /// Whether the map holds a value under a key.
    pub fn contains_key(&self, key: &Natural) -> (r: bool)
        ensures
            r == self@.contains_key(key@),
    {
        proof {
            use_type_invariant(self);
        }
        match self.find(key) {
            Some(i) => {
                proof {
                    lemma_entry(self.entries@, i as int);
                }
                true
            },
            None => {
                proof {
                    lemma_no_entry(self.entries@, key@);
                }
                false
            },
        }
    }

    /// The value under a key, if there is one.
    pub fn get(&self, key: &Natural) -> (r: Option<&Value>)
        ensures
            match r {
                Some(v) => self@.contains_key(key@) && v@ == self@[key@],
                None => !self@.contains_key(key@),
            },
    {
        proof {
            use_type_invariant(self);
        }
        match self.find(key) {
            Some(i) => {
                proof {
                    lemma_entry(self.entries@, i as int);
                }
                Some(&self.entries[i].1)
            },
            None => {
                proof {
                    lemma_no_entry(self.entries@, key@);
                }
                None
            },
        }
    }

    /// Puts a value under a key, in place of the one that was there.
    pub fn insert(&mut self, key: Natural, value: Value)
        ensures
            final(self)@ == old(self)@.insert(key@, value@),
    {
        proof {
            use_type_invariant(&*self);
        }
        let ghost before = self.entries@;
        let ghost k = key@;
        let ghost v = value@;
        let found = self.find(&key);
        let mut entries = self.take_entries();
        match found {
            Some(i) => {
                entries.set(i, (key, value));
                proof {
                    let after = entries@;
                    assert(distinct_keys(after));
                    assert forall|q: nat|
                        entries_map(after).contains_key(q) == entries_map(before).insert(
                            k,
                            v,
                        ).contains_key(q) by {
                        if entries_map(after).contains_key(q) {
                            let j = choose|j: int| holds_key(after, j, q);
                            assert(holds_key(before, j, q));
                        }
                        if entries_map(before).contains_key(q) {
                            let j = choose|j: int| holds_key(before, j, q);
                            assert(holds_key(after, j, q));
                        }
                        if q == k {
                            assert(holds_key(after, i as int, q));
                        }
                    }
                    assert forall|q: nat| entries_map(after).contains_key(q) implies entries_map(
                        after,
                    )[q] == entries_map(before).insert(k, v)[q] by {
                        let j = choose|j: int| holds_key(after, j, q);
                        lemma_entry(after, j);
                        if q != k {
                            assert(holds_key(before, j, q));
                            lemma_entry(before, j);
                        } else {
                            assert(j == i);
                        }
                    }
                    assert(entries_map(after) =~= entries_map(before).insert(k, v));
                }
            },
            None => {
                entries.push((key, value));
                proof {
                    let after = entries@;
                    let n = before.len() as int;
                    assert(distinct_keys(after));
                    assert forall|q: nat|
                        entries_map(after).contains_key(q) == entries_map(before).insert(
                            k,
                            v,
                        ).contains_key(q) by {
                        if entries_map(after).contains_key(q) {
                            let j = choose|j: int| holds_key(after, j, q);
                            if j < n {
                                assert(holds_key(before, j, q));
                            }
                        }
                        if entries_map(before).contains_key(q) {
                            let j = choose|j: int| holds_key(before, j, q);
                            assert(holds_key(after, j, q));
                        }
                        if q == k {
                            assert(holds_key(after, n, q));
                        }
                    }
                    assert forall|q: nat| entries_map(after).contains_key(q) implies entries_map(
                        after,
                    )[q] == entries_map(before).insert(k, v)[q] by {
                        let j = choose|j: int| holds_key(after, j, q);
                        lemma_entry(after, j);
                        if q != k {
                            assert(j < n);
                            assert(holds_key(before, j, q));
                            lemma_entry(before, j);
                        } else {
                            assert(j == n);
                        }
                    }
                    assert(entries_map(after) =~= entries_map(before).insert(k, v));
                }
            },
        }
        *self = Table { entries };
    }

    /// Takes away what the map holds under a key.
    pub fn remove(&mut self, key: &Natural)
        ensures
            final(self)@ == old(self)@.remove(key@),
    {
        proof {
            use_type_invariant(&*self);
        }
        let ghost before = self.entries@;
        let ghost k = key@;
        let found = self.find(key);
        let mut entries = self.take_entries();
        match found {
            Some(i) => {
                entries.remove(i);
                proof {
                    let after = entries@;
                    let at = i as int;
                    assert(forall|j: int| 0 <= j < at ==> after[j] == before[j]);
                    assert(forall|j: int| at <= j < after.len() ==> after[j] == before[j + 1]);
                    assert(distinct_keys(after));
                    assert forall|q: nat|
                        entries_map(after).contains_key(q) == entries_map(before).remove(
                            k,
                        ).contains_key(q) by {
                        if entries_map(after).contains_key(q) {
                            let j = choose|j: int| holds_key(after, j, q);
                            if j < at {
                                assert(holds_key(before, j, q));
                            } else {
                                assert(holds_key(before, j + 1, q));
                            }
                        }
                        if entries_map(before).contains_key(q) && q != k {
                            let j = choose|j: int| holds_key(before, j, q);
                            if j < at {
                                assert(holds_key(after, j, q));
                            } else {
                                assert(holds_key(after, j - 1, q));
                            }
                        }
                    }
                    assert forall|q: nat| entries_map(after).contains_key(q) implies entries_map(
                        after,
                    )[q] == entries_map(before).remove(k)[q] by {
                        let j = choose|j: int| holds_key(after, j, q);
                        lemma_entry(after, j);
                        if j < at {
                            assert(holds_key(before, j, q));
                            lemma_entry(before, j);
                        } else {
                            assert(holds_key(before, j + 1, q));
                            lemma_entry(before, j + 1);
                        }
                    }
                    assert(entries_map(after) =~= entries_map(before).remove(k));
                }
            },
            None => {
                proof {
                    lemma_no_entry(before, k);
                    assert(entries_map(before) =~= entries_map(before).remove(k));
                }
            },
        }
        *self = Table { entries };
    }
}

/// What a function value for a built-in function is.
pub open spec fn built_in(varargs: bool, arity: usize, which: BuiltInFunction) -> ValueModel {
    ValueModel::Function(
        FunctionModel { varargs, arity, built_in: which, instructions: Seq::empty() },
    )
}

/// What the store holds when a program starts: the built-in functions under
/// the numbers from 0 to 10, number 2 left free.
pub open spec fn initial_memory() -> Map<nat, ValueModel> {
    Map::<nat, ValueModel>::empty().insert(0, built_in(true, 0, BuiltInFunction::Print)).insert(
        1,
        built_in(true, 0, BuiltInFunction::PrintLn),
    ).insert(3, built_in(false, 0, BuiltInFunction::ReadLn)).insert(
        4,
        built_in(false, 1, BuiltInFunction::ToBool),
    ).insert(5, built_in(false, 1, BuiltInFunction::ToStr)).insert(
        6,
        built_in(false, 1, BuiltInFunction::ToInt),
    ).insert(7, built_in(false, 1, BuiltInFunction::Trim)).insert(
        8,
        built_in(false, 1, BuiltInFunction::Len),
    ).insert(9, built_in(false, 2, BuiltInFunction::Push)).insert(
        10,
        built_in(false, 1, BuiltInFunction::Pop),
    )
}

/// The variable store of a running program.
#[derive(Debug)]
pub struct Memory {
    memory: Table,
}

impl View for Memory {
    type V = Map<nat, ValueModel>;

    closed spec fn view(&self) -> Map<nat, ValueModel> {
        self.memory@
    }
}

impl Memory {
    /// Binds a built-in function to a number.
    fn bind(&mut self, index: u64, varargs: bool, arity: usize, which: BuiltInFunction)
        ensures
            final(self)@ == old(self)@.insert(index as nat, built_in(varargs, arity, which)),
    {
        self.memory.insert(
            Natural::from_u64(index),
            Value::Function(Function::new_built_in(varargs, arity, which)),
        );
    }

    /// The store as it is when a program starts, as [`initial_memory`]
    /// describes it.
    pub fn new() -> (r: Memory)
        ensures
            r@ == initial_memory(),
    {
        let mut memory = Memory { memory: Table::new() };
        memory.bind(0, true, 0, BuiltInFunction::Print);
        memory.bind(1, true, 0, BuiltInFunction::PrintLn);
        memory.bind(3, false, 0, BuiltInFunction::ReadLn);
        memory.bind(4, false, 1, BuiltInFunction::ToBool);
        memory.bind(5, false, 1, BuiltInFunction::ToStr);
        memory.bind(6, false, 1, BuiltInFunction::ToInt);
        memory.bind(7, false, 1, BuiltInFunction::Trim);
        memory.bind(8, false, 1, BuiltInFunction::Len);
        memory.bind(9, false, 2, BuiltInFunction::Push);
        memory.bind(10, false, 1, BuiltInFunction::Pop);
        memory
    }

    /// The value of a variable, if it has one.
    pub fn get(&self, index: Natural) -> (r: Option<&Value>)
        ensures
            match r {
                Some(v) => self@.contains_key(index@) && v@ == self@[index@],
                None => !self@.contains_key(index@),
            },
    {
        self.memory.get(&index)
    }

    /// Gives a variable a value, in place of the one that it had.
    pub fn set(&mut self, index: Natural, value: Value)
        ensures
            final(self)@ == old(self)@.insert(index@, value@),
    {
        self.memory.insert(index, value);
    }

    /// Takes the value of a variable away.
    pub fn remove(&mut self, index: Natural)
        ensures
            final(self)@ == old(self)@.remove(index@),
    {
        self.memory.remove(&index);
    }
}

} // verus!
