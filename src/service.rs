use vstd::prelude::*;

use crate::command::CounterCommand;
use crate::counter::{Counter, CounterModel};
use crate::cqrs::{dispatched, Cqrs};
use crate::error::CoreError;
use crate::event::EventModel;
use crate::ids::ID_LEN;
use crate::projection::lookup;

verus! {

/// Creates a counter with the name and value of `data` under a new identity,
/// and returns it as the read model stores it.
pub fn add_counter(app: &mut Cqrs, data: Counter) -> (r: Result<Counter, CoreError>)
    requires
        old(app).wf(),
    ensures
        final(app).wf(),
        r is Ok,
        r matches Ok(c) ==> {
            &&& c.id@.len() == ID_LEN
            &&& c.name@ == data.name@
            &&& c.value == data.value
            &&& final(app)@ == dispatched(
                old(app)@,
                EventModel::Created { aggregate_id: c.id@, name: data.name@, value: data.value },
            )
        },
{
    let command = CounterCommand::Create { name: data.name, value: data.value };
    let id = match app.execute(data.id, command) {
        Ok(id) => id,
        Err(e) => return Err(e),
    };
    app.get(&id)
}

/// Every counter, each once, in no particular order.
pub fn list_all_counters(app: &Cqrs) -> (r: Vec<Counter>)
    requires
        app.wf(),
    ensures
        forall|i: int| 0 <= i < r@.len() ==> #[trigger] lookup(app@.table, r@[i].id@) == Some(r@[i]@),
        forall|k: Seq<char>| #[trigger]
            app@.table.contains_key(k) ==> exists|i: int| 0 <= i < r@.len() && #[trigger] r@[i].id@ == k,
        forall|i: int, j: int| 0 <= i < j < r@.len() ==> #[trigger] r@[i].id@ != #[trigger] r@[j].id@,
{
    app.list()
}

/// The counter stored under `id`, or `NotFound`.
pub fn find_counter(app: &Cqrs, id: String) -> (r: Result<Counter, CoreError>)
    requires
        app.wf(),
    ensures
        match lookup(app@.table, id@) {
            Some(row) => r is Ok && r->Ok_0@ == row,
            None => r == Err::<Counter, CoreError>(CoreError::NotFound),
        },
{
    app.get(&id)
}

/// Gives the counter under `counter.id` the name and value of `counter`, and
/// returns it; `NotFound` when there is no such counter.
pub fn update_counter(app: &mut Cqrs, counter: Counter) -> (r: Result<Counter, CoreError>)
    requires
        old(app).wf(),
    ensures
        final(app).wf(),
        ({
            let event = EventModel::Updated {
                aggregate_id: counter.id@,
                name: counter.name@,
                value: counter.value,
            };
            final(app)@ == dispatched(old(app)@, event)
        }),
        match lookup(old(app)@.table, counter.id@) {
            Some(_) => r is Ok && r->Ok_0@ == counter@,
            None => r == Err::<Counter, CoreError>(CoreError::NotFound),
        },
{
    let id = counter.id.clone();
    let command = CounterCommand::Update { id: counter.id, name: counter.name, value: counter.value };
    let id = match app.execute(id, command) {
        Ok(id) => id,
        Err(e) => return Err(e),
    };
    app.get(&id)
}

/// Deletes the counter under `id`; deleting an absent counter is no error.
pub fn delete_counter(app: &mut Cqrs, id: String) -> (r: Result<(), CoreError>)
    requires
        old(app).wf(),
    ensures
        final(app).wf(),
        r is Ok,
        final(app)@ == dispatched(old(app)@, EventModel::Deleted { aggregate_id: id@ }),
        final(app)@.table == old(app)@.table.remove(id@),
{
    let command = CounterCommand::Delete { id: id.clone() };
    match app.execute(id, command) {
        Ok(_) => Ok(()),
        Err(e) => Err(e),
    }
}

/// Adds one to the counter under `id` and returns it; `NotFound` when there is
/// no such counter.
pub fn increment_counter(app: &mut Cqrs, id: String) -> (r: Result<Counter, CoreError>)
    requires
        old(app).wf(),
    ensures
        final(app).wf(),
        final(app)@ == dispatched(old(app)@, EventModel::Incremented { aggregate_id: id@, amount: 1 }),
        match lookup(old(app)@.table, id@) {
            Some(row) => r is Ok && r->Ok_0@ == (CounterModel {
                id: id@,
                name: row.name,
                value: row.value.wrapping_add(1),
            }),
            None => r == Err::<Counter, CoreError>(CoreError::NotFound),
        },
{
    let command = CounterCommand::Increment { id: id.clone(), amount: 1 };
    let id = match app.execute(id, command) {
        Ok(id) => id,
        Err(e) => return Err(e),
    };
    app.get(&id)
}

/// Takes one from the counter under `id` and returns it; `NotFound` when there
/// is no such counter.
pub fn decrement_counter(app: &mut Cqrs, id: String) -> (r: Result<Counter, CoreError>)
    requires
        old(app).wf(),
    ensures
        final(app).wf(),
        final(app)@ == dispatched(old(app)@, EventModel::Decremented { aggregate_id: id@, amount: 1 }),
        match lookup(old(app)@.table, id@) {
            Some(row) => r is Ok && r->Ok_0@ == (CounterModel {
                id: id@,
                name: row.name,
                value: row.value.wrapping_sub(1),
            }),
            None => r == Err::<Counter, CoreError>(CoreError::NotFound),
        },
{
    let command = CounterCommand::Decrement { id: id.clone(), amount: 1 };
    let id = match app.execute(id, command) {
        Ok(id) => id,
        Err(e) => return Err(e),
    };
    app.get(&id)
}

} // verus!
