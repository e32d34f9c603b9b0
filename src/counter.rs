use vstd::prelude::*;

use vstd::string::StringExecFns;

use crate::ids::{new_id, ID_LEN};
use crate::text::{decimal, push_decimal};

verus! {

/// Mathematical form of a counter: its identity, label and value.
pub struct CounterModel {
    pub id: Seq<char>,
    pub name: Seq<char>,
    pub value: i32,
}

/// A named integer counter, as the read model stores it.
#[derive(Debug, PartialEq, Eq)]
pub struct Counter {
    pub id: String,
    pub name: String,
    pub value: i32,
}

impl View for Counter {
    type V = CounterModel;

    open spec fn view(&self) -> CounterModel {
        CounterModel { id: self.id@, name: self.name@, value: self.value }
    }
}

impl Clone for Counter {
    fn clone(&self) -> (r: Self)
        ensures
            r@ == self@,
    {
        Counter { id: self.id.clone(), name: self.name.clone(), value: self.value }
    }
}

impl Counter {
    /// A counter under a freshly generated identity.
    pub fn new(name: String, value: i32) -> (r: Counter)
        ensures
            r.id@.len() == ID_LEN,
            r.name@ == name@,
            r.value == value,
    {
        Counter { id: new_id(), name, value }
    }

    /// A counter under the given identity.
    pub fn new_with_id(id: String, name: String, value: i32) -> (r: Counter)
        ensures
            r@ == (CounterModel { id: id@, name: name@, value }),
    {
        Counter { id, name, value }
    }

    /// The counter in words, e.g. `Counter { id: a1, name: clicks, value: -3 }`.
    pub fn to_string(&self) -> (r: String)
        ensures
            r@ == "Counter { id: "@ + self.id@ + ", name: "@ + self.name@ + ", value: "@ + decimal(
                self.value as int,
            ) + " }"@,
    {
        let mut out = String::from_str("Counter { id: ");
        out.append(self.id.as_str());
        out.append(", name: ");
        out.append(self.name.as_str());
        out.append(", value: ");
        push_decimal(&mut out, self.value);
        out.append(" }");
        out
    }
}

} // verus!
