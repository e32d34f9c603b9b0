use vstd::prelude::*;
use vstd::string::StringExecFns;

use crate::command::{CommandModel, CounterCommand};
use crate::counter::CounterModel;
use crate::error::CoreError;
use crate::event::{CounterEvent, EventModel};
use crate::ids::{new_id, ID_LEN};

verus! {

/// Label that a freshly made aggregate carries until an event names it.
pub const DEFAULT_NAME: &'static str = "Default counter";

/// The event that a command turns into, for an aggregate whose identity is `own_id`.
/// Every command yields exactly one event that carries the command's fields;
/// a creation is filed under the aggregate's own identity.
pub open spec fn handled(own_id: Seq<char>, command: CommandModel) -> EventModel {
    match command {
        CommandModel::Create { name, value } => EventModel::Created { aggregate_id: own_id, name, value },
        CommandModel::Increment { id, amount } => EventModel::Incremented { aggregate_id: id, amount },
        CommandModel::Decrement { id, amount } => EventModel::Decremented { aggregate_id: id, amount },
        CommandModel::Update { id, name, value } => EventModel::Updated { aggregate_id: id, name, value },
        CommandModel::Delete { id } => EventModel::Deleted { aggregate_id: id },
    }
}

/// The aggregate state after folding in one event.
/// A creation takes the identity and name from the event and starts the value at zero;
/// arithmetic wraps around at the bounds of `i32`; a deletion leaves the state alone.
pub open spec fn applied(state: CounterModel, event: EventModel) -> CounterModel {
    match event {
        EventModel::Created { aggregate_id, name, .. } => CounterModel { id: aggregate_id, name, value: 0 },
        EventModel::Incremented { amount, .. } => CounterModel {
            value: state.value.wrapping_add(amount),
            ..state
        },
        EventModel::Decremented { amount, .. } => CounterModel {
            value: state.value.wrapping_sub(amount),
            ..state
        },
        EventModel::Updated { name, value, .. } => CounterModel { name, value, ..state },
        EventModel::Deleted { .. } => state,
    }
}

/// The aggregate state after folding in a whole history, oldest event first.
pub open spec fn replayed(state: CounterModel, events: Seq<EventModel>) -> CounterModel
    decreases events.len(),
{
    if events.len() == 0 {
        state
    } else {
        applied(replayed(state, events.drop_last()), events.last())
    }
}

/// The in-memory state of one counter, rebuilt from its events.
#[derive(Debug, PartialEq, Eq)]
pub struct CounterState {
    id: String,
    name: String,
    value: i32,
}

impl View for CounterState {
    type V = CounterModel;

    closed spec fn view(&self) -> CounterModel {
        CounterModel { id: self.id@, name: self.name@, value: self.value }
    }
}

impl Clone for CounterState {
    fn clone(&self) -> (r: Self)
        ensures
            r@ == self@,
    {
        CounterState { id: self.id.clone(), name: self.name.clone(), value: self.value }
    }
}

impl Default for CounterState {
    /// A fresh aggregate: a new random identity, the placeholder name and value zero.
    fn default() -> (r: Self)
        ensures
            r@.id.len() == ID_LEN,
            r@.name == DEFAULT_NAME@,
            r@.value == 0,
    {
        CounterState { id: new_id(), name: String::from_str(DEFAULT_NAME), value: 0 }
    }
}

impl CounterState {
    /// Turns a command into the events it causes. The state is not changed,
    /// and no command is refused.
    pub fn handle(&self, command: CounterCommand) -> (r: Result<Vec<CounterEvent>, CoreError>)
        ensures
            r is Ok,
            r matches Ok(events) ==> events@.len() == 1 && events@[0]@ == handled(self@.id, command@),
    {
        let event = match command {
            CounterCommand::Create { name, value } => CounterEvent::CounterCreated {
                aggregate_id: self.id.clone(),
                name,
                value,
            },
            CounterCommand::Increment { id, amount } => CounterEvent::CounterIncremented {
                aggregate_id: id,
                amount,
            },
            CounterCommand::Decrement { id, amount } => CounterEvent::CounterDecremented {
                aggregate_id: id,
                amount,
            },
            CounterCommand::Update { id, name, value } => CounterEvent::CounterUpdated {
                aggregate_id: id,
                name,
                value,
            },
            CounterCommand::Delete { id } => CounterEvent::CounterDeleted { aggregate_id: id },
        };
        Ok(vec![event])
    }

    /// Folds one event into the state.
    pub fn apply(&mut self, event: &CounterEvent)
        ensures
            final(self)@ == applied(old(self)@, event@),
    {
        match event {
            CounterEvent::CounterCreated { aggregate_id, name, .. } => {
                self.id = aggregate_id.clone();
                self.value = 0;
                self.name = name.clone();
            },
            CounterEvent::CounterIncremented { amount, .. } => {
                self.value = self.value.wrapping_add(*amount);
            },
            CounterEvent::CounterDecremented { amount, .. } => {
                self.value = self.value.wrapping_sub(*amount);
            },
            CounterEvent::CounterUpdated { name, value, .. } => {
                self.name = name.clone();
                self.value = *value;
            },
            CounterEvent::CounterDeleted { .. } => {},
        }
    }

    /// Folds a whole history into the state, oldest event first.
    pub fn replay(&mut self, events: &Vec<CounterEvent>)
        ensures
            final(self)@ == replayed(old(self)@, events@.map_values(|e: CounterEvent| e@)),
    {
        let ghost start = self@;
        let mut i: usize = 0;
        while i < events.len()
            invariant
                i <= events@.len(),
                self@ == replayed(start, events@.map_values(|e: CounterEvent| e@).take(i as int)),
            decreases events@.len() - i,
        {
            let ghost seen = events@.map_values(|e: CounterEvent| e@);
            assert(seen.take(i as int + 1).drop_last() == seen.take(i as int));
            self.apply(&events[i]);
            i = i + 1;
        }
        assert(events@.map_values(|e: CounterEvent| e@).take(i as int) == events@.map_values(
            |e: CounterEvent| e@,
        ));
    }

    /// The identity of the counter this state describes.
    pub fn aggregate_id(&self) -> (r: String)
        ensures
            r@ == self@.id,
    {
        self.id.clone()
    }

    /// Moves the state under another identity.
    pub fn set_aggregate_id(&mut self, id: String)
        ensures
            final(self)@ == (CounterModel { id: id@, ..old(self)@ }),
    {
        self.id = id;
    }

    /// The current label.
    pub fn name(&self) -> (r: String)
        ensures
            r@ == self@.name,
    {
        self.name.clone()
    }

    /// The current value.
    pub fn value(&self) -> (r: i32)
        ensures
            r == self@.value,
    {
        self.value
    }
}

} // verus!
