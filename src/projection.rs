use vstd::prelude::*;

use crate::counter::{Counter, CounterModel};
use crate::error::CoreError;
use crate::event::{CounterEvent, EventModel};

verus! {

/// Mathematical form of a change to the read model.
pub enum RowChangeModel {
    Upsert(CounterModel),
    Remove(Seq<char>),
}

/// A change to the read model: write a row (insert or overwrite), or remove one.
#[derive(Debug, PartialEq, Eq)]
pub enum RowChange {
    Upsert(Counter),
    Remove(String),
}

impl View for RowChange {
    type V = RowChangeModel;

    open spec fn view(&self) -> RowChangeModel {
        match self {
            RowChange::Upsert(c) => RowChangeModel::Upsert(c@),
            RowChange::Remove(id) => RowChangeModel::Remove(id@),
        }
    }
}

/// The view of a row that may be absent.
pub open spec fn row_view(row: Option<Counter>) -> Option<CounterModel> {
    match row {
        Some(c) => Some(c@),
        None => None,
    }
}

/// How the read model changes for one event, given the row currently stored
/// under the event's counter identity (if any).
/// A creation writes the carried name and value; an increment, decrement or
/// update needs the row to exist; a deletion removes the row whether or not it exists.
pub open spec fn planned(current: Option<CounterModel>, event: EventModel) -> Result<
    RowChangeModel,
    CoreError,
> {
    match event {
        EventModel::Created { aggregate_id, name, value } => Ok(
            RowChangeModel::Upsert(CounterModel { id: aggregate_id, name, value }),
        ),
        EventModel::Incremented { aggregate_id, amount } => match current {
            Some(row) => Ok(
                RowChangeModel::Upsert(
                    CounterModel { id: aggregate_id, name: row.name, value: row.value.wrapping_add(amount) },
                ),
            ),
            None => Err(CoreError::NotFound),
        },
        EventModel::Decremented { aggregate_id, amount } => match current {
            Some(row) => Ok(
                RowChangeModel::Upsert(
                    CounterModel { id: aggregate_id, name: row.name, value: row.value.wrapping_sub(amount) },
                ),
            ),
            None => Err(CoreError::NotFound),
        },
        EventModel::Updated { aggregate_id, name, value } => match current {
            Some(_) => Ok(RowChangeModel::Upsert(CounterModel { id: aggregate_id, name, value })),
            None => Err(CoreError::NotFound),
        },
        EventModel::Deleted { aggregate_id } => Ok(RowChangeModel::Remove(aggregate_id)),
    }
}

/// The row stored under `id`, if any.
pub open spec fn lookup(table: Map<Seq<char>, CounterModel>, id: Seq<char>) -> Option<CounterModel> {
    if table.contains_key(id) {
        Some(table[id])
    } else {
        None
    }
}

/// The read model after one change.
pub open spec fn changed(table: Map<Seq<char>, CounterModel>, change: RowChangeModel) -> Map<
    Seq<char>,
    CounterModel,
> {
    match change {
        RowChangeModel::Upsert(row) => table.insert(row.id, row),
        RowChangeModel::Remove(id) => table.remove(id),
    }
}

/// The read model after projecting one event, or the reason it cannot be projected.
pub open spec fn projected(table: Map<Seq<char>, CounterModel>, event: EventModel) -> Result<
    Map<Seq<char>, CounterModel>,
    CoreError,
> {
    match planned(lookup(table, event.aggregate_id()), event) {
        Ok(change) => Ok(changed(table, change)),
        Err(e) => Err(e),
    }
}

/// Decides how the read model changes for one event, given the row currently
/// stored under the event's counter identity.
pub fn plan_change(current: Option<Counter>, event: &CounterEvent) -> (r: Result<RowChange, CoreError>)
    ensures
        planned(row_view(current), event@) == match r {
            Ok(change) => Ok(change@),
            Err(e) => Err(e),
        },
{
    match event {
        CounterEvent::CounterCreated { aggregate_id, name, value } => Ok(
            RowChange::Upsert(Counter { id: aggregate_id.clone(), name: name.clone(), value: *value }),
        ),
        CounterEvent::CounterIncremented { aggregate_id, amount } => match current {
            Some(row) => Ok(
                RowChange::Upsert(
                    Counter { id: aggregate_id.clone(), name: row.name, value: row.value.wrapping_add(*amount) },
                ),
            ),
            None => Err(CoreError::NotFound),
        },
        CounterEvent::CounterDecremented { aggregate_id, amount } => match current {
            Some(row) => Ok(
                RowChange::Upsert(
                    Counter { id: aggregate_id.clone(), name: row.name, value: row.value.wrapping_sub(*amount) },
                ),
            ),
            None => Err(CoreError::NotFound),
        },
        CounterEvent::CounterUpdated { aggregate_id, name, value } => match current {
            Some(_) => Ok(
                RowChange::Upsert(Counter { id: aggregate_id.clone(), name: name.clone(), value: *value }),
            ),
            None => Err(CoreError::NotFound),
        },
        CounterEvent::CounterDeleted { aggregate_id } => Ok(RowChange::Remove(aggregate_id.clone())),
    }
}

} // verus!
