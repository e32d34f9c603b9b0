use vstd::prelude::*;
use vstd::string::StringExecFns;

verus! {

/// Mathematical form of an event.
pub enum EventModel {
    Created { aggregate_id: Seq<char>, name: Seq<char>, value: i32 },
    Incremented { aggregate_id: Seq<char>, amount: i32 },
    Decremented { aggregate_id: Seq<char>, amount: i32 },
    Updated { aggregate_id: Seq<char>, name: Seq<char>, value: i32 },
    Deleted { aggregate_id: Seq<char> },
}

impl EventModel {
    /// The counter the event belongs to.
    pub open spec fn aggregate_id(self) -> Seq<char> {
        match self {
            EventModel::Created { aggregate_id, .. } => aggregate_id,
            EventModel::Incremented { aggregate_id, .. } => aggregate_id,
            EventModel::Decremented { aggregate_id, .. } => aggregate_id,
            EventModel::Updated { aggregate_id, .. } => aggregate_id,
            EventModel::Deleted { aggregate_id } => aggregate_id,
        }
    }

    /// The stable name under which events of this kind are stored.
    pub open spec fn type_tag(self) -> Seq<char> {
        match self {
            EventModel::Created { .. } => CREATED_TAG@,
            EventModel::Incremented { .. } => INCREMENTED_TAG@,
            EventModel::Decremented { .. } => DECREMENTED_TAG@,
            EventModel::Updated { .. } => UPDATED_TAG@,
            EventModel::Deleted { .. } => DELETED_TAG@,
        }
    }
}

pub const CREATED_TAG: &'static str = "CounterCreated";

pub const INCREMENTED_TAG: &'static str = "CounterIncremented";

pub const DECREMENTED_TAG: &'static str = "CounterDecremented";

pub const UPDATED_TAG: &'static str = "CounterUpdated";

pub const DELETED_TAG: &'static str = "CounterDeleted";

/// A fact about one counter, recorded once and never changed.
#[derive(Debug, PartialEq, Eq)]
pub enum CounterEvent {
    CounterCreated { aggregate_id: String, name: String, value: i32 },
    CounterIncremented { aggregate_id: String, amount: i32 },
    CounterDecremented { aggregate_id: String, amount: i32 },
    CounterUpdated { aggregate_id: String, name: String, value: i32 },
    CounterDeleted { aggregate_id: String },
}

impl View for CounterEvent {
    type V = EventModel;

    open spec fn view(&self) -> EventModel {
        match self {
            CounterEvent::CounterCreated { aggregate_id, name, value } => EventModel::Created {
                aggregate_id: aggregate_id@,
                name: name@,
                value: *value,
            },
            CounterEvent::CounterIncremented { aggregate_id, amount } => EventModel::Incremented {
                aggregate_id: aggregate_id@,
                amount: *amount,
            },
            CounterEvent::CounterDecremented { aggregate_id, amount } => EventModel::Decremented {
                aggregate_id: aggregate_id@,
                amount: *amount,
            },
            CounterEvent::CounterUpdated { aggregate_id, name, value } => EventModel::Updated {
                aggregate_id: aggregate_id@,
                name: name@,
                value: *value,
            },
            CounterEvent::CounterDeleted { aggregate_id } => EventModel::Deleted {
                aggregate_id: aggregate_id@,
            },
        }
    }
}

impl Clone for CounterEvent {
    fn clone(&self) -> (r: Self)
        ensures
            r@ == self@,
    {
        match self {
            CounterEvent::CounterCreated { aggregate_id, name, value } => CounterEvent::CounterCreated {
                aggregate_id: aggregate_id.clone(),
                name: name.clone(),
                value: *value,
            },
            CounterEvent::CounterIncremented { aggregate_id, amount } => CounterEvent::CounterIncremented {
                aggregate_id: aggregate_id.clone(),
                amount: *amount,
            },
            CounterEvent::CounterDecremented { aggregate_id, amount } => CounterEvent::CounterDecremented {
                aggregate_id: aggregate_id.clone(),
                amount: *amount,
            },
            CounterEvent::CounterUpdated { aggregate_id, name, value } => CounterEvent::CounterUpdated {
                aggregate_id: aggregate_id.clone(),
                name: name.clone(),
                value: *value,
            },
            CounterEvent::CounterDeleted { aggregate_id } => CounterEvent::CounterDeleted {
                aggregate_id: aggregate_id.clone(),
            },
        }
    }
}

impl CounterEvent {
    /// The stable type name of the event, used as its tag in storage.
    pub fn to_string(&self) -> (r: String)
        ensures
            r@ == self@.type_tag(),
    {
        match self {
            CounterEvent::CounterCreated { .. } => String::from_str(CREATED_TAG),
            CounterEvent::CounterIncremented { .. } => String::from_str(INCREMENTED_TAG),
            CounterEvent::CounterDecremented { .. } => String::from_str(DECREMENTED_TAG),
            CounterEvent::CounterUpdated { .. } => String::from_str(UPDATED_TAG),
            CounterEvent::CounterDeleted { .. } => String::from_str(DELETED_TAG),
        }
    }

    /// The identity of the counter the event belongs to.
    pub fn aggregate_id(&self) -> (r: String)
        ensures
            r@ == self@.aggregate_id(),
    {
        match self {
            CounterEvent::CounterCreated { aggregate_id, .. } => aggregate_id.clone(),
            CounterEvent::CounterIncremented { aggregate_id, .. } => aggregate_id.clone(),
            CounterEvent::CounterDecremented { aggregate_id, .. } => aggregate_id.clone(),
            CounterEvent::CounterUpdated { aggregate_id, .. } => aggregate_id.clone(),
            CounterEvent::CounterDeleted { aggregate_id } => aggregate_id.clone(),
        }
    }
}

} // verus!
