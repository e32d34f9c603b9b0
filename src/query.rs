use vstd::prelude::*;

use crate::counter::Counter;
use crate::error::CoreError;
use crate::projection::lookup;
use crate::read_model::CounterView;

verus! {

/// Looks up one counter in the read model.
pub struct GetCounterQuery {
    pub id: String,
}

impl GetCounterQuery {
    pub fn new(id: String) -> (r: GetCounterQuery)
        ensures
            r.id@ == id@,
    {
        GetCounterQuery { id }
    }

    /// The row stored under the query's identity, or `NotFound`.
    pub fn apply(&self, model: &CounterView) -> (r: Result<Counter, CoreError>)
        requires
            model.wf(),
        ensures
            match lookup(model@, self.id@) {
                Some(row) => r is Ok && r->Ok_0@ == row,
                None => r == Err::<Counter, CoreError>(CoreError::NotFound),
            },
    {
        match model.find(&self.id) {
            Some(row) => Ok(row),
            None => Err(CoreError::NotFound),
        }
    }
}

/// Lists every counter in the read model.
pub struct ListCountersQuery {}

impl ListCountersQuery {
    pub fn new() -> ListCountersQuery {
        ListCountersQuery {  }
    }

    /// Every row, each once, in no particular order.
    pub fn apply(&self, model: &CounterView) -> (r: Vec<Counter>)
        requires
            model.wf(),
        ensures
            forall|i: int| 0 <= i < r@.len() ==> #[trigger] lookup(model@, r@[i].id@) == Some(r@[i]@),
            forall|k: Seq<char>| #[trigger]
                model@.contains_key(k) ==> exists|i: int| 0 <= i < r@.len() && #[trigger] r@[i].id@ == k,
            forall|i: int, j: int| 0 <= i < j < r@.len() ==> #[trigger] r@[i].id@ != #[trigger] r@[j].id@,
    {
        model.all()
    }
}

} // verus!
