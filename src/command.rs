use vstd::prelude::*;

verus! {

/// Mathematical form of a command.
pub enum CommandModel {
    Create { name: Seq<char>, value: i32 },
    Increment { id: Seq<char>, amount: i32 },
    Decrement { id: Seq<char>, amount: i32 },
    Update { id: Seq<char>, name: Seq<char>, value: i32 },
    Delete { id: Seq<char> },
}

/// A request to change one counter. Commands carry no expected version.
#[derive(Debug, PartialEq, Eq)]
pub enum CounterCommand {
    Create { name: String, value: i32 },
    Increment { id: String, amount: i32 },
    Decrement { id: String, amount: i32 },
    Update { id: String, name: String, value: i32 },
    Delete { id: String },
}

impl View for CounterCommand {
    type V = CommandModel;

    open spec fn view(&self) -> CommandModel {
        match self {
            CounterCommand::Create { name, value } => CommandModel::Create { name: name@, value: *value },
            CounterCommand::Increment { id, amount } => CommandModel::Increment { id: id@, amount: *amount },
            CounterCommand::Decrement { id, amount } => CommandModel::Decrement { id: id@, amount: *amount },
            CounterCommand::Update { id, name, value } => CommandModel::Update {
                id: id@,
                name: name@,
                value: *value,
            },
            CounterCommand::Delete { id } => CommandModel::Delete { id: id@ },
        }
    }
}

impl Clone for CounterCommand {
    fn clone(&self) -> (r: Self)
        ensures
            r@ == self@,
    {
        match self {
            CounterCommand::Create { name, value } => CounterCommand::Create { name: name.clone(), value: *value },
            CounterCommand::Increment { id, amount } => CounterCommand::Increment { id: id.clone(), amount: *amount },
            CounterCommand::Decrement { id, amount } => CounterCommand::Decrement { id: id.clone(), amount: *amount },
            CounterCommand::Update { id, name, value } => CounterCommand::Update {
                id: id.clone(),
                name: name.clone(),
                value: *value,
            },
            CounterCommand::Delete { id } => CounterCommand::Delete { id: id.clone() },
        }
    }
}

} // verus!
