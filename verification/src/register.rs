//! Registers: named values that outlive a mode, such as the clipboard.

use crate::regex::Regex;
use vstd::prelude::*;

verus! {

/// What a register holds.
pub enum Register {
    /// Pieces of text, one for each selection that they were copied from.
    Content(Vec<String>),
    Regex(Regex),
}

/// The registers, each under its name. No name occurs twice.
pub struct Registry(Vec<(String, Register)>);

/// The index of the entry with the given name, if there is one.
pub open spec fn position_of(entries: Seq<(String, Register)>, key: Seq<char>) -> Option<int> {
    if exists|i: int| 0 <= i < entries.len() && (#[trigger] entries[i]).0@ == key {
        Some(choose|i: int| 0 <= i < entries.len() && (#[trigger] entries[i]).0@ == key)
    } else {
        None
    }
}

/// No name occurs twice.
pub open spec fn distinct_names(entries: Seq<(String, Register)>) -> bool {
    forall|i: int, j: int|
        0 <= i < j < entries.len() ==> (#[trigger] entries[i]).0@ != (#[trigger] entries[j]).0@
}

impl Registry {
    /// No name occurs twice.
    pub closed spec fn wf(&self) -> bool {
        distinct_names(self.0@)
    }

    /// The value under a name, if there is one.
    pub closed spec fn value_of(&self, key: Seq<char>) -> Option<Register> {
        match position_of(self.0@, key) {
            Some(i) => Some(self.0@[i].1),
            None => None,
        }
    }

    /// The index of the entry with the given name, if there is one.
    fn find(&self, key: &String) -> (found: Option<usize>)
        requires
            self.wf(),
        ensures
            found matches Some(i) ==> i < self.0@.len() && position_of(self.0@, key@) == Some(
                i as int,
            ),
            found.is_none() ==> position_of(self.0@, key@).is_none(),
    {
        let mut i: usize = 0;
        while i < self.0.len()
            invariant
                i <= self.0@.len(),
                self.wf(),
                forall|k: int| 0 <= k < i ==> (#[trigger] self.0@[k]).0@ != key@,
            decreases self.0.len() - i,
        {
            if self.0[i].0 == *key {
                proof {
                    let chosen = choose|k: int|
                        0 <= k < self.0@.len() && (#[trigger] self.0@[k]).0@ == key@;
                    assert(self.0@[i as int].0@ == key@);
                    assert(chosen == i);
                }
                return Some(i);
            }
            i += 1;
        }
        None
    }

    /// Puts a value under a name, in place of the value that was there.
    pub fn set(&mut self, key: &str, value: Register)
        requires
            old(self).wf(),
        ensures
            final(self).wf(),
            final(self).value_of(key@) == Some(value),
            forall|other: Seq<char>|
                other != key@ ==> final(self).value_of(other) == old(self).value_of(other),
    {
        let name = key.to_owned();
        let ghost before = self.0@;
        match self.find(&name) {
            Some(i) => {
                self.0.set(i, (name, value));
                proof {
                    let after = self.0@;
                    assert(after[i as int].0@ == key@);
                    assert forall|a: int, b: int| 0 <= a < b < after.len() implies (
                    #[trigger] after[a]).0@ != (#[trigger] after[b]).0@ by {
                        assert(after[a].0@ == before[a].0@);
                        assert(after[b].0@ == before[b].0@);
                    }
                    lemma_position(after, key@, i as int);
                    assert forall|other: Seq<char>| other != key@ implies final(self).value_of(
                        other,
                    ) == old(self).value_of(other) by {
                        lemma_same_names(before, after, other, i as int);
                    }
                }
            },
            None => {
                self.0.push((name, value));
                proof {
                    let after = self.0@;
                    let last = after.len() - 1;
                    assert(after[last].0@ == key@);
                    assert forall|a: int, b: int| 0 <= a < b < after.len() implies (
                    #[trigger] after[a]).0@ != (#[trigger] after[b]).0@ by {
                        assert(after[a] == before[a]);
                        if b < last {
                            assert(after[b] == before[b]);
                        }
                    }
                    lemma_position(after, key@, last);
                    assert forall|other: Seq<char>| other != key@ implies final(self).value_of(
                        other,
                    ) == old(self).value_of(other) by {
                        lemma_pushed_name(before, after, other);
                    }
                }
            },
        }
    }

    /// The value under a name, if there is one.
    pub fn get(&mut self, key: &str) -> (value: Option<&Register>)
        requires
            old(self).wf(),
        ensures
            *final(self) == *old(self),
            value.is_some() == old(self).value_of(key@).is_some(),
            value matches Some(register) ==> Some(*register) == old(self).value_of(key@),
    {
        let name = key.to_owned();
        match self.find(&name) {
            Some(i) => Some(&self.0[i].1),
            None => None,
        }
    }
}

impl Default for Registry {
    fn default() -> (registry: Self)
        ensures
            registry.wf(),
            forall|key: Seq<char>| registry.value_of(key).is_none(),
    {
        Registry(Vec::new())
    }
}

/// Where no name occurs twice, the entry with a name is the one at the
/// index at which the name stands.
proof fn lemma_position(entries: Seq<(String, Register)>, key: Seq<char>, at: int)
    requires
        distinct_names(entries),
        0 <= at < entries.len(),
        entries[at].0@ == key,
    ensures
        position_of(entries, key) == Some(at),
{
    let chosen = choose|i: int| 0 <= i < entries.len() && (#[trigger] entries[i]).0@ == key;
    assert(chosen == at);
}

/// A new value at one index leaves the values under the other names.
proof fn lemma_same_names(
    before: Seq<(String, Register)>,
    after: Seq<(String, Register)>,
    other: Seq<char>,
    at: int,
)
    requires
        distinct_names(before),
        distinct_names(after),
        0 <= at < before.len(),
        after.len() == before.len(),
        before[at].0@ != other,
        after[at].0@ != other,
        forall|i: int| 0 <= i < before.len() && i != at ==> after[i] == before[i],
    ensures
        position_of(after, other) == position_of(before, other),
        position_of(before, other) matches Some(i) ==> after[i] == before[i],
{
    if exists|i: int| 0 <= i < before.len() && (#[trigger] before[i]).0@ == other {
        let i = choose|i: int| 0 <= i < before.len() && (#[trigger] before[i]).0@ == other;
        assert(after[i] == before[i]);
        lemma_position(after, other, i);
    } else {
        assert forall|i: int| 0 <= i < after.len() implies (#[trigger] after[i]).0@ != other by {
            if i != at {
                assert(after[i] == before[i]);
            }
        }
    }
}

/// A new entry at the end leaves the values under the other names.
proof fn lemma_pushed_name(
    before: Seq<(String, Register)>,
    after: Seq<(String, Register)>,
    other: Seq<char>,
)
    requires
        distinct_names(before),
        distinct_names(after),
        after.len() == before.len() + 1,
        after.last().0@ != other,
        forall|i: int| 0 <= i < before.len() ==> after[i] == before[i],
    ensures
        position_of(after, other) == position_of(before, other),
        position_of(before, other) matches Some(i) ==> after[i] == before[i],
{
    if exists|i: int| 0 <= i < before.len() && (#[trigger] before[i]).0@ == other {
        let i = choose|i: int| 0 <= i < before.len() && (#[trigger] before[i]).0@ == other;
        assert(after[i] == before[i]);
        lemma_position(after, other, i);
    } else {
        assert forall|i: int| 0 <= i < after.len() implies (#[trigger] after[i]).0@ != other by {
            if i < before.len() {
                assert(after[i] == before[i]);
            }
        }
    }
}

} // verus!
