use vstd::prelude::*;

use crate::counter::{Counter, CounterModel};
use crate::ids::ID_LEN;

verus! {

/// The fields of the form that creates a counter.
#[derive(Debug, PartialEq, Eq)]
pub struct NewCounterParams {
    pub name: String,
    pub value: i32,
}

impl NewCounterParams {
    /// A counter with the form's name and value, under a new identity.
    pub fn into(self) -> (r: Counter)
        ensures
            r.id@.len() == ID_LEN,
            r.name@ == self.name@,
            r.value == self.value,
    {
        Counter::new(self.name, self.value)
    }
}

/// The fields of the form that edits a counter.
#[derive(Debug, PartialEq, Eq)]
pub struct UpdateCounterParams {
    pub id: String,
    pub name: String,
    pub value: i32,
}

impl UpdateCounterParams {
    /// The counter the form describes.
    pub fn into(self) -> (r: Counter)
        ensures
            r@ == (CounterModel { id: self.id@, name: self.name@, value: self.value }),
    {
        Counter::new_with_id(self.id, self.name, self.value)
    }
}

/// The identity of a counter, as a request path carries it.
#[derive(Debug, PartialEq, Eq)]
pub struct CounterIdParams {
    pub id: String,
}

} // verus!
