use vstd::prelude::*;

use crate::counter::{Counter, CounterModel};
use crate::projection::{changed, lookup, row_view, RowChange};

verus! {

/// The read-model table: at most one row per counter identity.
pub struct CounterView {
    rows: Vec<Counter>,
    contents: Ghost<Map<Seq<char>, CounterModel>>,
}

impl View for CounterView {
    type V = Map<Seq<char>, CounterModel>;

    closed spec fn view(&self) -> Map<Seq<char>, CounterModel> {
        self.contents@
    }
}

impl CounterView {
    /// The rows and the map they stand for agree, and no identity occurs twice.
    pub closed spec fn wf(&self) -> bool {
        &&& forall|i: int|
            0 <= i < self.rows@.len() ==> #[trigger] self.contents@.contains_key(self.rows@[i].id@)
                && self.contents@[self.rows@[i].id@] == self.rows@[i]@
        &&& forall|k: Seq<char>| #[trigger]
            self.contents@.contains_key(k) ==> exists|i: int|
                0 <= i < self.rows@.len() && #[trigger] self.rows@[i].id@ == k
        &&& forall|i: int, j: int|
            0 <= i < j < self.rows@.len() ==> #[trigger] self.rows@[i].id@ != #[trigger] self.rows@[j].id@
    }

    /// An empty table.
    pub fn new() -> (r: CounterView)
        ensures
            r.wf(),
            r@ == Map::<Seq<char>, CounterModel>::empty(),
    {
        CounterView { rows: Vec::new(), contents: Ghost(Map::empty()) }
    }

    /// Where the row with identity `id` sits, if there is one.
    fn position(&self, id: &String) -> (r: Option<usize>)
        requires
            self.wf(),
        ensures
            match r {
                Some(i) => i < self.rows@.len() && self.rows@[i as int].id@ == id@,
                None => !self@.contains_key(id@),
            },
    {
        let mut i: usize = 0;
        while i < self.rows.len()
            invariant
                i <= self.rows@.len(),
                forall|j: int| 0 <= j < i ==> self.rows@[j].id@ != id@,
            decreases self.rows@.len() - i,
        {
            if self.rows[i].id == *id {
                return Some(i);
            }
            i = i + 1;
        }
        proof {
            if self@.contains_key(id@) {
                let j = choose|j: int| 0 <= j < self.rows@.len() && #[trigger] self.rows@[j].id@ == id@;
            }
        }
        None
    }

    /// The row stored under `id`, if any.
    pub fn find(&self, id: &String) -> (r: Option<Counter>)
        requires
            self.wf(),
        ensures
            row_view(r) == lookup(self@, id@),
    {
        match self.position(id) {
            Some(i) => Some(self.rows[i].clone()),
            None => None,
        }
    }

    /// Overwrites the row at `i`, which has the same identity as `data`.
    fn overwrite(&mut self, i: usize, data: Counter)
        requires
            old(self).wf(),
            i < old(self).rows@.len(),
            old(self).rows@[i as int].id@ == data.id@,
        ensures
            final(self).wf(),
            final(self)@ == old(self)@.insert(data.id@, data@),
    {
        let ghost key = data.id@;
        let ghost before = old(self).rows@;
        proof {
            self.contents@ = self.contents@.insert(key, data@);
        }
        let ghost row = data@;
        self.rows.set(i, data);
        assert(self.rows@[i as int]@ == row);
        assert forall|j: int| 0 <= j < self.rows@.len() implies #[trigger] self.rows@[j].id@
            == before[j].id@ by {}
        assert forall|a: int, b: int| 0 <= a < b < self.rows@.len() implies #[trigger]
            self.rows@[a].id@ != #[trigger] self.rows@[b].id@ by {
            assert(self.rows@[a].id@ == before[a].id@);
            assert(self.rows@[b].id@ == before[b].id@);
        }
        assert forall|k: Seq<char>| #[trigger]
            self.contents@.contains_key(k) implies exists|j: int|
            0 <= j < self.rows@.len() && #[trigger] self.rows@[j].id@ == k by {
            if k != key {
                let j = choose|j: int| 0 <= j < before.len() && #[trigger] before[j].id@ == k;
                assert(self.rows@[j].id@ == k);
            } else {
                assert(self.rows@[i as int].id@ == k);
            }
        }
        assert forall|j: int| 0 <= j < self.rows@.len() implies #[trigger]
            self.contents@.contains_key(self.rows@[j].id@)
                && self.contents@[self.rows@[j].id@] == self.rows@[j]@ by {
            if j != i {
                assert(before[j].id@ != key);
                assert(old(self).contents@.contains_key(old(self).rows@[j].id@));
            }
        }
    }

    /// Adds a row under an identity that the table does not hold yet.
    fn append(&mut self, data: Counter)
        requires
            old(self).wf(),
            !old(self)@.contains_key(data.id@),
        ensures
            final(self).wf(),
            final(self)@ == old(self)@.insert(data.id@, data@),
    {
        let ghost key = data.id@;
        let ghost before = old(self).rows@;
        proof {
            self.contents@ = self.contents@.insert(key, data@);
        }
        self.rows.push(data);
        assert forall|a: int, b: int| 0 <= a < b < self.rows@.len() implies #[trigger]
            self.rows@[a].id@ != #[trigger] self.rows@[b].id@ by {
            assert(self.rows@[a] == before[a]);
            if b < before.len() {
                assert(self.rows@[b] == before[b]);
            } else {
                assert(old(self).contents@.contains_key(old(self).rows@[a].id@));
            }
        }
        assert forall|k: Seq<char>| #[trigger]
            self.contents@.contains_key(k) implies exists|j: int|
            0 <= j < self.rows@.len() && #[trigger] self.rows@[j].id@ == k by {
            if k != key {
                let j = choose|j: int| 0 <= j < before.len() && #[trigger] before[j].id@ == k;
                assert(self.rows@[j].id@ == k);
            } else {
                assert(self.rows@[before.len() as int].id@ == k);
            }
        }
        assert forall|j: int| 0 <= j < self.rows@.len() implies #[trigger]
            self.contents@.contains_key(self.rows@[j].id@)
                && self.contents@[self.rows@[j].id@] == self.rows@[j]@ by {
            if j < before.len() {
                assert(old(self).contents@.contains_key(old(self).rows@[j].id@));
                assert(before[j].id@ != key);
            }
        }
    }

    /// Writes a row: inserts it, or overwrites the row with the same identity.
    pub fn update(&mut self, data: Counter)
        requires
            old(self).wf(),
        ensures
            final(self).wf(),
            final(self)@ == old(self)@.insert(data.id@, data@),
    {
        match self.position(&data.id) {
            Some(i) => self.overwrite(i, data),
            None => self.append(data),
        }
    }

    /// Removes the row stored under `id`; nothing happens when there is none.
    pub fn delete(&mut self, id: &String)
        requires
            old(self).wf(),
        ensures
            final(self).wf(),
            final(self)@ == old(self)@.remove(id@),
    {
        let ghost key = id@;
        let ghost before = old(self).rows@;
        let found = self.position(id);
        proof {
            self.contents@ = self.contents@.remove(key);
        }
        match found {
            Some(i) => {
                self.rows.remove(i);
                assert forall|k: Seq<char>| #[trigger]
                    self.contents@.contains_key(k) implies exists|j: int|
                    0 <= j < self.rows@.len() && #[trigger] self.rows@[j].id@ == k by {
                    let j = choose|j: int| 0 <= j < before.len() && #[trigger] before[j].id@ == k;
                    if j < i {
                        assert(self.rows@[j].id@ == k);
                    } else {
                        assert(self.rows@[j - 1].id@ == k);
                    }
                }
                assert forall|j: int| 0 <= j < self.rows@.len() implies #[trigger]
                    self.contents@.contains_key(self.rows@[j].id@)
                        && self.contents@[self.rows@[j].id@] == self.rows@[j]@ by {
                    if j < i {
                        assert(before[j].id@ != key);
                    } else {
                        assert(self.rows@[j] == before[j + 1]);
                        assert(before[j + 1].id@ != key);
                    }
                }
                assert forall|a: int, b: int| 0 <= a < b < self.rows@.len() implies #[trigger]
                    self.rows@[a].id@ != #[trigger] self.rows@[b].id@ by {
                    let a0 = if a < i { a } else { a + 1 };
                    let b0 = if b < i { b } else { b + 1 };
                    assert(self.rows@[a] == before[a0]);
                    assert(self.rows@[b] == before[b0]);
                }
            },
            None => {
                assert(self.contents@ =~= old(self)@);
            },
        }
    }

    /// Carries out one change.
    pub fn apply_change(&mut self, change: RowChange)
        requires
            old(self).wf(),
        ensures
            final(self).wf(),
            final(self)@ == changed(old(self)@, change@),
    {
        match change {
            RowChange::Upsert(row) => self.update(row),
            RowChange::Remove(id) => self.delete(&id),
        }
    }

    /// Every row, in no particular order.
    pub fn all(&self) -> (r: Vec<Counter>)
        requires
            self.wf(),
        ensures
            forall|i: int| 0 <= i < r@.len() ==> #[trigger] lookup(self@, r@[i].id@) == Some(r@[i]@),
            forall|k: Seq<char>| #[trigger]
                self@.contains_key(k) ==> exists|i: int| 0 <= i < r@.len() && #[trigger] r@[i].id@ == k,
            forall|i: int, j: int| 0 <= i < j < r@.len() ==> #[trigger] r@[i].id@ != #[trigger] r@[j].id@,
    {
        let mut out: Vec<Counter> = Vec::new();
        let mut i: usize = 0;
        while i < self.rows.len()
            invariant
                i <= self.rows@.len(),
                out@.len() == i,
                forall|j: int| 0 <= j < i ==> #[trigger] out@[j]@ == self.rows@[j]@,
            decreases self.rows@.len() - i,
        {
            out.push(self.rows[i].clone());
            i = i + 1;
        }
        proof {
            assert forall|k: Seq<char>| #[trigger] self@.contains_key(k) implies exists|j: int|
                0 <= j < out@.len() && #[trigger] out@[j].id@ == k by {
                let j = choose|j: int| 0 <= j < self.rows@.len() && #[trigger] self.rows@[j].id@ == k;
                assert(out@[j]@ == self.rows@[j]@);
            }
            assert forall|a: int, b: int| 0 <= a < b < out@.len() implies #[trigger] out@[a].id@
                != #[trigger] out@[b].id@ by {
                assert(out@[a]@ == self.rows@[a]@);
                assert(out@[b]@ == self.rows@[b]@);
            }
            assert forall|j: int| 0 <= j < out@.len() implies #[trigger] lookup(self@, out@[j].id@)
                == Some(out@[j]@) by {
                assert(out@[j]@ == self.rows@[j]@);
            }
        }
        out
    }
}

} // verus!
