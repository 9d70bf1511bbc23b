//! Tables keyed by an id string, ids unique; the table of running
//! executions (execution id to OS process id) is one of them.
//!
//! Callers share the table of running executions behind a lock and hold the
//! lock only for a single call. Removing an absent id changes nothing.
use vstd::prelude::*;

verus! {

/// Whether some id of the table holds the value.
pub open spec fn holds_value<V>(m: Map<Seq<char>, V>, v: V) -> bool {
    exists|k: Seq<char>| #[trigger] m.contains_key(k) && m[k] == v
}

/// A table from id to value, ids unique.
pub struct IdTable<V> {
    entries: Vec<(String, V)>,
    table: Ghost<Map<Seq<char>, V>>,
}

/// The running executions: execution id to OS process id.
pub type Registry = IdTable<u32>;

impl<V> View for IdTable<V> {
    type V = Map<Seq<char>, V>;

    closed spec fn view(&self) -> Map<Seq<char>, V> {
        self.table@
    }
}

impl<V> IdTable<V> {
    /// Ids are unique, and the entries hold exactly the pairs of the view.
    pub closed spec fn wf(&self) -> bool {
        &&& forall|i: int, j: int|
            0 <= i < j < self.entries@.len() ==> #[trigger] self.entries@[i].0@ != #[trigger] self.entries@[j].0@
        &&& forall|i: int|
            0 <= i < self.entries@.len() ==> self.table@.contains_key(#[trigger] self.entries@[i].0@)
                && self.table@[self.entries@[i].0@] == self.entries@[i].1
        &&& forall|k: Seq<char>|
            #[trigger] self.table@.contains_key(k) ==> exists|i: int|
                0 <= i < self.entries@.len() && #[trigger] self.entries@[i].0@ == k
    }

    /// An empty table.
    pub fn new() -> (r: IdTable<V>)
        ensures
            r.wf(),
            r@ == Map::<Seq<char>, V>::empty(),
    {
        IdTable { entries: Vec::new(), table: Ghost(Map::empty()) }
    }

    fn position(&self, execution_id: &String) -> (r: Option<usize>)
        requires
            self.wf(),
        ensures
            match r {
                Some(i) => i < self.entries@.len() && self.entries@[i as int].0@ == execution_id@,
                None => !self@.contains_key(execution_id@),
            },
    {
        let mut i: usize = 0;
        while i < self.entries.len()
            invariant
                self.wf(),
                i <= self.entries@.len(),
                forall|j: int| 0 <= j < i ==> #[trigger] self.entries@[j].0@ != execution_id@,
            decreases self.entries@.len() - i,
        {
            if self.entries[i].0 == *execution_id {
                return Some(i);
            }
            i = i + 1;
        }
        proof {
            if self@.contains_key(execution_id@) {
                let j = choose|j: int| 0 <= j < self.entries@.len() && #[trigger] self.entries@[j].0@ == execution_id@;
                assert(self.entries@[j].0@ != execution_id@);
            }
        }
        None
    }

    /// Whether the id is in the table.
    pub fn contains(&self, execution_id: &String) -> (r: bool)
        requires
            self.wf(),
        ensures
            r == self@.contains_key(execution_id@),
    {
        self.position(execution_id).is_some()
    }

    /// The value under an id.
    pub fn get(&self, execution_id: &String) -> (r: Option<&V>)
        requires
            self.wf(),
        ensures
            self@.contains_key(execution_id@) ==> r is Some && *r->0 == self@[execution_id@],
            !self@.contains_key(execution_id@) ==> r is None,
    {
        match self.position(execution_id) {
            Some(i) => Some(&self.entries[i].1),
            None => None,
        }
    }

    /// The values of the table, each once.
    pub fn values(&self) -> (r: Vec<&V>)
        requires
            self.wf(),
        ensures
            forall|i: int| 0 <= i < r@.len() ==> #[trigger] holds_value(self@, *r@[i]),
            forall|k: Seq<char>| #[trigger] self@.contains_key(k) ==> exists|i: int|
                0 <= i < r@.len() && *r@[i] == self@[k],
    {
        let mut out: Vec<&V> = Vec::new();
        let mut i: usize = 0;
        while i < self.entries.len()
            invariant
                self.wf(),
                i <= self.entries@.len(),
                out@.len() == i,
                forall|j: int| 0 <= j < i ==> *out@[j] == #[trigger] self.entries@[j].1,
            decreases self.entries@.len() - i,
        {
            out.push(&self.entries[i].1);
            i = i + 1;
        }
        assert forall|j: int| 0 <= j < out@.len() implies #[trigger] holds_value(self@, *out@[j]) by {
            assert(self@.contains_key(self.entries@[j].0@));
        }
        assert forall|k: Seq<char>| #[trigger] self@.contains_key(k) implies exists|j: int|
            0 <= j < out@.len() && *out@[j] == self@[k] by {
            let j = choose|j: int| 0 <= j < self.entries@.len() && #[trigger] self.entries@[j].0@ == k;
            assert(*out@[j] == self.entries@[j].1);
        }
        out
    }

    /// Puts a value under an id, in place of any value it had.
    pub fn insert(&mut self, execution_id: String, pid: V)
        requires
            old(self).wf(),
        ensures
            final(self).wf(),
            final(self)@ == old(self)@.insert(execution_id@, pid),
    {
        let ghost key = execution_id@;
        let ghost new_table = self.table@.insert(key, pid);
        match self.position(&execution_id) {
            Some(i) => {
                self.entries.set(i, (execution_id, pid));
                self.table = Ghost(new_table);
                assert forall|k: Seq<char>| #[trigger] self.table@.contains_key(k) implies exists|i: int|
                    0 <= i < self.entries@.len() && #[trigger] self.entries@[i].0@ == k by {
                    if k != key {
                        assert(old(self).table@.contains_key(k));
                        let j = choose|j: int| 0 <= j < old(self).entries@.len() && #[trigger] old(self).entries@[j].0@ == k;
                        assert(self.entries@[j].0@ == k);
                    } else {
                        assert(self.entries@[i as int].0@ == k);
                    }
                }
            },
            None => {
                let ghost n = self.entries@.len();
                self.entries.push((execution_id, pid));
                self.table = Ghost(new_table);
                assert forall|i: int| 0 <= i < self.entries@.len() implies self.table@.contains_key(
                    #[trigger] self.entries@[i].0@,
                ) && self.table@[self.entries@[i].0@] == self.entries@[i].1 by {
                    if i < n {
                        assert(self.entries@[i] == old(self).entries@[i]);
                        assert(old(self).table@.contains_key(old(self).entries@[i].0@));
                    }
                }
                assert forall|k: Seq<char>| #[trigger] self.table@.contains_key(k) implies exists|i: int|
                    0 <= i < self.entries@.len() && #[trigger] self.entries@[i].0@ == k by {
                    if k != key {
                        let j = choose|j: int| 0 <= j < old(self).entries@.len() && #[trigger] old(self).entries@[j].0@ == k;
                        assert(self.entries@[j].0@ == k);
                    } else {
                        assert(self.entries@[n as int].0@ == k);
                    }
                }
            },
        }
    }

    /// Removes an id from the table; an absent id changes nothing.
    pub fn remove(&mut self, execution_id: &String)
        requires
            old(self).wf(),
        ensures
            final(self).wf(),
            final(self)@ == old(self)@.remove(execution_id@),
    {
        let ghost key = execution_id@;
        match self.position(execution_id) {
            Some(i) => {
                let ghost old_entries = self.entries@;
                self.entries.remove(i);
                self.table = Ghost(self.table@.remove(key));
                assert forall|a: int, b: int| 0 <= a < b < self.entries@.len() implies #[trigger] self.entries@[a].0@
                    != #[trigger] self.entries@[b].0@ by {
                    let a0 = if a < i { a } else { a + 1 };
                    let b0 = if b < i { b } else { b + 1 };
                    assert(self.entries@[a] == old_entries[a0]);
                    assert(self.entries@[b] == old_entries[b0]);
                }
                assert forall|a: int| 0 <= a < self.entries@.len() implies self.table@.contains_key(
                    #[trigger] self.entries@[a].0@,
                ) && self.table@[self.entries@[a].0@] == self.entries@[a].1 by {
                    let a0 = if a < i { a } else { a + 1 };
                    assert(self.entries@[a] == old_entries[a0]);
                    assert(old_entries[a0].0@ != old_entries[i as int].0@);
                }
                assert forall|k: Seq<char>| #[trigger] self.table@.contains_key(k) implies exists|a: int|
                    0 <= a < self.entries@.len() && #[trigger] self.entries@[a].0@ == k by {
                    let j = choose|j: int| 0 <= j < old_entries.len() && #[trigger] old_entries[j].0@ == k;
                    assert(j != i);
                    if j < i {
                        assert(self.entries@[j].0@ == k);
                    } else {
                        assert(self.entries@[j - 1].0@ == k);
                    }
                }
            },
            None => {
                assert(self.table@.remove(key) =~= self.table@);
            },
        }
    }
}

impl IdTable<u32> {
    /// The process id of a running execution.
    pub fn lookup(&self, execution_id: &String) -> (r: Option<u32>)
        requires
            self.wf(),
        ensures
            r == if self@.contains_key(execution_id@) {
                Some(self@[execution_id@])
            } else {
                None::<u32>
            },
    {
        match self.get(execution_id) {
            Some(p) => Some(*p),
            None => None,
        }
    }

    /// Records the process of a freshly spawned execution.
    pub fn register(&mut self, execution_id: String, pid: u32)
        requires
            old(self).wf(),
        ensures
            final(self).wf(),
            final(self)@ == old(self)@.insert(execution_id@, pid),
    {
        self.insert(execution_id, pid)
    }

    /// Removes an execution from the table; an absent id changes nothing.
    pub fn unregister(&mut self, execution_id: &String)
        requires
            old(self).wf(),
        ensures
            final(self).wf(),
            final(self)@ == old(self)@.remove(execution_id@),
    {
        self.remove(execution_id)
    }
}

/// Cancelling an execution that is not in the table finds no process to stop
/// and leaves the table as it was.
pub proof fn lemma_cancel_absent_is_noop(table: Map<Seq<char>, u32>, execution_id: Seq<char>)
    requires
        !table.contains_key(execution_id),
    ensures
        table.remove(execution_id) == table,
{
    assert(table.remove(execution_id) =~= table);
}

/// Starting, finishing or cancelling one execution leaves the entry of every
/// other execution as it was.
pub proof fn lemma_other_executions_untouched(
    table: Map<Seq<char>, u32>,
    mine: Seq<char>,
    other: Seq<char>,
    pid: u32,
)
    requires
        mine != other,
    ensures
        table.remove(other).contains_key(mine) == table.contains_key(mine),
        table.insert(other, pid).contains_key(mine) == table.contains_key(mine),
        table.contains_key(mine) ==> table.remove(other)[mine] == table[mine],
        table.contains_key(mine) ==> table.insert(other, pid)[mine] == table[mine],
{
}

} // verus!
