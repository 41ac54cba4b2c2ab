//! The open sessions of a backend, by device.

use crate::text;
use vstd::prelude::*;

verus! {

/// Whether no device occurs twice among the entries.
pub open spec fn distinct_devices<V>(entries: Seq<(String, V)>) -> bool {
    forall|i: int, j: int|
        0 <= i < j < entries.len() ==> #[trigger] entries[i].0@ != #[trigger] entries[j].0@
}

/// Whether the entry at `i` is that of `device`.
pub open spec fn entry_is<V>(entries: Seq<(String, V)>, i: int, device: Seq<char>) -> bool {
    0 <= i < entries.len() && entries[i].0@ == device
}

/// What the entries hold for each device.
pub open spec fn entry_map<V>(entries: Seq<(String, V)>) -> Map<Seq<char>, V> {
    Map::new(
        |device: Seq<char>| exists|i: int| #[trigger] entry_is(entries, i, device),
        |device: Seq<char>| entries[choose|i: int| #[trigger] entry_is(entries, i, device)].1,
    )
}

/// The sessions that are open, at most one for a device.
#[verifier::reject_recursive_types(V)]
pub struct SessionTable<V> {
    entries: Vec<(String, V)>,
}

impl<V> View for SessionTable<V> {
    type V = Map<Seq<char>, V>;

    closed spec fn view(&self) -> Map<Seq<char>, V> {
        entry_map(self.entries@)
    }
}

proof fn lemma_entry<V>(entries: Seq<(String, V)>, i: int)
    requires
        distinct_devices(entries),
        0 <= i < entries.len(),
    ensures
        entry_map(entries).dom().contains(entries[i].0@),
        entry_map(entries)[entries[i].0@] == entries[i].1,
{
    let device = entries[i].0@;
    assert(entry_is(entries, i, device));
    let k = choose|k: int| #[trigger] entry_is(entries, k, device);
    assert(entry_is(entries, k, device));
    if k < i {
        assert(entries[k].0@ != entries[i].0@);
    }
    if i < k {
        assert(entries[i].0@ != entries[k].0@);
    }
}

proof fn lemma_same_map<V>(entries: Seq<(String, V)>, m: Map<Seq<char>, V>)
    requires
        distinct_devices(entries),
        forall|i: int|
            0 <= i < entries.len() ==> m.dom().contains(#[trigger] entries[i].0@)
                && m[entries[i].0@] == entries[i].1,
        forall|d: Seq<char>|
            m.dom().contains(d) ==> exists|i: int| #[trigger] entry_is(entries, i, d),
    ensures
        entry_map(entries) == m,
{
    assert forall|d: Seq<char>| m.dom().contains(d) implies entry_map(entries)[d] == m[d] by {
        let i = choose|i: int| #[trigger] entry_is(entries, i, d);
        lemma_entry(entries, i);
    }
    assert(entry_map(entries) =~= m);
}

impl<V> SessionTable<V> {
    #[verifier::type_invariant]
    spec fn inv(self) -> bool {
        distinct_devices(self.entries@)
    }

    /// A table without sessions.
    pub fn new() -> (table: Self)
        ensures
            table@ == Map::<Seq<char>, V>::empty(),
    {
        let table = SessionTable { entries: Vec::new() };
        assert(table@ =~= Map::<Seq<char>, V>::empty());
        table
    }

    fn position(&self, device: &str) -> (found: Option<usize>)
        ensures
            match found {
                Some(i) => entry_is(self.entries@, i as int, device@),
                None => !self@.dom().contains(device@),
            },
    {
        let mut i: usize = 0;
        while i < self.entries.len()
            invariant
                i <= self.entries@.len(),
                forall|j: int| 0 <= j < i ==> !#[trigger] entry_is(self.entries@, j, device@),
            decreases self.entries@.len() - i,
        {
            if text::same_text(self.entries[i].0.as_str(), device) {
                return Some(i);
            }
            i += 1;
        }
        None
    }

    /// Whether a session is open for `device`.
    pub fn contains(&self, device: &str) -> (yes: bool)
        ensures
            yes == self@.dom().contains(device@),
    {
        match self.position(device) {
            Some(_) => true,
            None => false,
        }
    }

    /// What belongs to the session of `device`.
    pub fn get(&self, device: &str) -> (value: Option<&V>)
        ensures
            value == if self@.dom().contains(device@) {
                Some(&self@[device@])
            } else {
                None
            },
    {
        proof {
            use_type_invariant(self);
        }
        match self.position(device) {
            Some(i) => {
                proof {
                    lemma_entry(self.entries@, i as int);
                }
                Some(&self.entries[i].1)
            },
            None => None,
        }
    }

    /// Opens a session for `device`, in place of an older one.
    pub fn insert(&mut self, device: &str, value: V)
        ensures
            final(self)@ == old(self)@.insert(device@, value),
    {
        proof {
            use_type_invariant(&*self);
        }
        let found = self.position(device);
        let ghost before = self.entries@;
        let mut entries: Vec<(String, V)> = Vec::new();
        core::mem::swap(&mut entries, &mut self.entries);
        match found {
            Some(i) => {
                entries[i] = (device.to_owned(), value);
                proof {
                    let after = entries@;
                    let m = entry_map(before).insert(device@, value);
                    assert forall|k: int| 0 <= k < after.len() implies m.dom().contains(
                        #[trigger] after[k].0@,
                    ) && m[after[k].0@] == after[k].1 by {
                        lemma_entry(before, k);
                        if k != i {
                            assert(before[k].0@ != before[i as int].0@);
                        }
                    }
                    assert forall|d: Seq<char>| m.dom().contains(d) implies exists|k: int|
                        #[trigger] entry_is(after, k, d) by {
                        if d == device@ {
                            assert(entry_is(after, i as int, d));
                        } else {
                            let k = choose|k: int| #[trigger] entry_is(before, k, d);
                            assert(entry_is(after, k, d));
                        }
                    }
                    lemma_same_map(after, m);
                }
            },
            None => {
                entries.push((device.to_owned(), value));
                proof {
                    let after = entries@;
                    let m = entry_map(before).insert(device@, value);
                    let last = before.len() as int;
                    assert forall|j: int| 0 <= j < before.len() implies #[trigger] before[j].0@
                        != device@ by {
                        assert(!entry_is(before, j, device@));
                    }
                    assert forall|k: int| 0 <= k < after.len() implies m.dom().contains(
                        #[trigger] after[k].0@,
                    ) && m[after[k].0@] == after[k].1 by {
                        if k < last {
                            assert(after[k] == before[k]);
                            lemma_entry(before, k);
                        }
                    }
                    assert forall|d: Seq<char>| m.dom().contains(d) implies exists|k: int|
                        #[trigger] entry_is(after, k, d) by {
                        if d == device@ {
                            assert(entry_is(after, last, d));
                        } else {
                            let k = choose|k: int| #[trigger] entry_is(before, k, d);
                            assert(entry_is(after, k, d));
                        }
                    }
                    lemma_same_map(after, m);
                }
            },
        }
        core::mem::swap(&mut entries, &mut self.entries);
    }

    /// Closes the session of `device` and hands out what belonged to it.
    pub fn remove(&mut self, device: &str) -> (value: Option<V>)
        ensures
            value == if old(self)@.dom().contains(device@) {
                Some(old(self)@[device@])
            } else {
                None
            },
            final(self)@ == old(self)@.remove(device@),
    {
        proof {
            use_type_invariant(&*self);
        }
        match self.position(device) {
            Some(i) => {
                let ghost before = self.entries@;
                proof {
                    lemma_entry(before, i as int);
                }
                let mut entries: Vec<(String, V)> = Vec::new();
                core::mem::swap(&mut entries, &mut self.entries);
                let removed = entries.remove(i);
                proof {
                    let after = entries@;
                    let m = entry_map(before).remove(device@);
                    assert forall|k: int| 0 <= k < after.len() implies m.dom().contains(
                        #[trigger] after[k].0@,
                    ) && m[after[k].0@] == after[k].1 by {
                        let old_k = if k < i {
                            k
                        } else {
                            k + 1
                        };
                        assert(after[k] == before[old_k]);
                        lemma_entry(before, old_k);
                        if k < i {
                            assert(before[old_k].0@ != before[i as int].0@);
                        } else {
                            assert(before[i as int].0@ != before[old_k].0@);
                        }
                    }
                    assert forall|d: Seq<char>| m.dom().contains(d) implies exists|k: int|
                        #[trigger] entry_is(after, k, d) by {
                        let old_k = choose|k: int| #[trigger] entry_is(before, k, d);
                        let k = if old_k < i {
                            old_k
                        } else {
                            old_k - 1
                        };
                        assert(after[k] == before[old_k]);
                        assert(entry_is(after, k, d));
                    }
                    assert forall|a: int, b: int| 0 <= a < b < after.len() implies
                        #[trigger] after[a].0@ != #[trigger] after[b].0@ by {
                        let old_a = if a < i {
                            a
                        } else {
                            a + 1
                        };
                        let old_b = if b < i {
                            b
                        } else {
                            b + 1
                        };
                        assert(before[old_a].0@ != before[old_b].0@);
                    }
                    lemma_same_map(after, m);
                }
                core::mem::swap(&mut entries, &mut self.entries);
                Some(removed.1)
            },
            None => {
                assert(self@.remove(device@) =~= self@);
                None
            },
        }
    }

    /// Closes all sessions and hands out every one of them.
    pub fn into_entries(self) -> (entries: Vec<(String, V)>)
        ensures
            distinct_devices(entries@),
            entry_map(entries@) == self@,
    {
        proof {
            use_type_invariant(&self);
        }
        self.entries
    }
}

/// The entries of a table hold what is open and nothing else: each entry is a session of its
/// device, and each session is in an entry.
pub proof fn entries_are_the_open_sessions<V>(entries: Seq<(String, V)>)
    requires
        forall|i: int, j: int| 0 <= i < j < entries.len() ==> entries[i].0@ != entries[j].0@,
    ensures
        distinct_devices(entries),
        forall|i: int|
            0 <= i < entries.len() ==> entry_map(entries).dom().contains(
                (#[trigger] entries[i]).0@,
            ) && entry_map(entries)[entries[i].0@] == entries[i].1,
        forall|device: Seq<char>| #[trigger]
            entry_map(entries).dom().contains(device) ==> exists|i: int|
                0 <= i < entries.len() && (#[trigger] entries[i]).0@ == device,
{
    assert forall|i: int| 0 <= i < entries.len() implies entry_map(entries).dom().contains(
        (#[trigger] entries[i]).0@,
    ) && entry_map(entries)[entries[i].0@] == entries[i].1 by {
        lemma_entry(entries, i);
    }
    assert forall|device: Seq<char>| #[trigger]
        entry_map(entries).dom().contains(device) implies exists|i: int|
        0 <= i < entries.len() && (#[trigger] entries[i]).0@ == device by {
        let i = choose|i: int| #[trigger] entry_is(entries, i, device);
        assert(entries[i].0@ == device);
    }
}

/// No device occurs twice among distinct entries.
pub proof fn distinct_entries_have_distinct_devices<V>(entries: Seq<(String, V)>, i: int, j: int)
    requires
        distinct_devices(entries),
        0 <= i < entries.len(),
        0 <= j < entries.len(),
        i != j,
    ensures
        entries[i].0@ != entries[j].0@,
{
}

}
