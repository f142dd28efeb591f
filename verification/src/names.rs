//! A table of values with names.

use vstd::prelude::*;
use vstd::string::*;

use crate::text::same_text;

verus! {

/// Values with names. A name has at most one value: the first entry with that
/// name counts, and a new value takes its place.
pub struct NameTable<V> {
    pub entries: Vec<(String, V)>,
}

/// The first index below `n` of an entry with the name, or -1.
pub open spec fn first_index<V>(entries: Seq<(String, V)>, name: Seq<char>, n: int) -> int
    decreases n,
{
    if n <= 0 {
        -1
    } else if first_index(entries, name, n - 1) >= 0 {
        first_index(entries, name, n - 1)
    } else if entries[n - 1].0@ == name {
        n - 1
    } else {
        -1
    }
}

proof fn lemma_first_index<V>(entries: Seq<(String, V)>, name: Seq<char>, n: int)
    requires
        n <= entries.len(),
    ensures
        -1 <= first_index(entries, name, n) < n || (n <= 0 && first_index(entries, name, n) == -1),
        first_index(entries, name, n) >= 0 ==> entries[first_index(entries, name, n)].0@ == name,
    decreases n,
{
    if n > 0 {
        lemma_first_index(entries, name, n - 1);
    }
}

proof fn lemma_first_index_same_names<V>(
    a: Seq<(String, V)>,
    b: Seq<(String, V)>,
    name: Seq<char>,
    n: int,
)
    requires
        n <= a.len(),
        n <= b.len(),
        forall|i: int| 0 <= i < n ==> (#[trigger] a[i]).0@ == b[i].0@,
    ensures
        first_index(a, name, n) == first_index(b, name, n),
    decreases n,
{
    if n > 0 {
        lemma_first_index_same_names(a, b, name, n - 1);
        assert(a[n - 1].0@ == b[n - 1].0@);
    }
}

proof fn lemma_first_index_found<V>(entries: Seq<(String, V)>, name: Seq<char>, i: int, n: int)
    requires
        0 <= i < n <= entries.len(),
        first_index(entries, name, i) == -1,
        entries[i].0@ == name,
    ensures
        first_index(entries, name, n) == i,
    decreases n,
{
    if n > i + 1 {
        lemma_first_index_found(entries, name, i, n - 1);
    }
}

impl<V> NameTable<V> {
    /// The value of the name, if it has one.
    pub open spec fn lookup(self, name: Seq<char>) -> Option<V> {
        let i = first_index(self.entries@, name, self.entries@.len() as int);
        if i >= 0 {
            Some(self.entries@[i].1)
        } else {
            None
        }
    }

    /// A table without names.
    pub fn new() -> (t: NameTable<V>)
        ensures
            forall|name: Seq<char>| #[trigger] t.lookup(name) is None,
    {
        NameTable { entries: Vec::new() }
    }

    /// The value of the name, if it has one.
    pub fn get(&self, name: &str) -> (r: Option<&V>)
        ensures
            match r {
                Some(v) => self.lookup(name@) == Some(*v),
                None => self.lookup(name@) is None,
            },
    {
        let mut i: usize = 0;
        while i < self.entries.len()
            invariant
                i <= self.entries@.len(),
                first_index(self.entries@, name@, i as int) == -1,
            decreases self.entries@.len() - i,
        {
            if same_text(self.entries[i].0.as_str(), name) {
                proof {
                    lemma_first_index_found(
                        self.entries@,
                        name@,
                        i as int,
                        self.entries@.len() as int,
                    );
                }
                return Some(&self.entries[i].1);
            }
            i = i + 1;
        }
        None
    }

    /// Gives the name the value; every other name keeps its own.
    pub fn set(&mut self, name: &str, value: V)
        ensures
            final(self).lookup(name@) == Some(value),
            forall|other: Seq<char>|
                other != name@ ==> #[trigger] final(self).lookup(other) == old(self).lookup(other),
    {
        let ghost before = self.entries@;
        let mut i: usize = 0;
        while i < self.entries.len()
            invariant
                i <= self.entries@.len(),
                self.entries@ == before,
                *self == *old(self),
                before == old(self).entries@,
                first_index(self.entries@, name@, i as int) == -1,
            decreases self.entries@.len() - i,
        {
            if same_text(self.entries[i].0.as_str(), name) {
                self.entries[i] = (name.to_owned(), value);
                proof {
                    let after = self.entries@;
                    let n = after.len() as int;
                    assert(after =~= before.update(i as int, after[i as int]));
                    lemma_first_index_same_names(after, before, name@, n);
                    lemma_first_index_found(before, name@, i as int, n);
                    assert forall|other: Seq<char>| other != name@ implies #[trigger] self.lookup(
                        other,
                    ) == old(self).lookup(other) by {
                        lemma_first_index_same_names(after, before, other, n);
                        lemma_first_index(before, other, n);
                    }
                }
                return ;
            }
            i = i + 1;
        }
        self.entries.push((name.to_owned(), value));
        proof {
            let after = self.entries@;
            let n = before.len() as int;
            lemma_first_index_same_names(after, before, name@, n);
            assert forall|other: Seq<char>| other != name@ implies #[trigger] self.lookup(other)
                == old(self).lookup(other) by {
                lemma_first_index_same_names(after, before, other, n);
                lemma_first_index(before, other, n);
            }
        }
    }
}

} // verus!
