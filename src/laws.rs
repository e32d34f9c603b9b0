use vstd::prelude::*;

use crate::aggregate::{applied, handled, replayed};
use crate::command::CommandModel;
use crate::counter::CounterModel;
use crate::cqrs::{dispatched, CqrsModel};
use crate::event::EventModel;
use crate::payload::{decoded, encoded, lemma_encoded_injective};
use crate::projection::{lookup, projected};

verus! {

/// The system after a whole sequence of events, oldest first.
pub open spec fn dispatched_all(m: CqrsModel, events: Seq<EventModel>) -> CqrsModel
    decreases events.len(),
{
    if events.len() == 0 {
        m
    } else {
        dispatched(dispatched_all(m, events.drop_last()), events.last())
    }
}

/// The events that a sequence of commands turns into, for aggregates whose own
/// identity is `own_id`.
pub open spec fn handled_all(own_id: Seq<char>, commands: Seq<CommandModel>) -> Seq<EventModel> {
    commands.map_values(|c: CommandModel| handled(own_id, c))
}

/// A creation yields exactly one `CounterCreated` event carrying the command's
/// name and value, and afterwards the read model holds a row with that name and
/// that value (not the zero that the aggregate starts from).
pub proof fn law_create(m: CqrsModel, own_id: Seq<char>, name: Seq<char>, value: i32)
    ensures
        handled(own_id, CommandModel::Create { name, value }) == (EventModel::Created {
            aggregate_id: own_id,
            name,
            value,
        }),
        dispatched(m, handled(own_id, CommandModel::Create { name, value })).log == m.log.push(
            EventModel::Created { aggregate_id: own_id, name, value },
        ),
        dispatched(m, handled(own_id, CommandModel::Create { name, value })).table == m.table.insert(
            own_id,
            CounterModel { id: own_id, name, value },
        ),
{
}

/// Amounts add up: two increments of `amount` on a row move its value by twice
/// `amount` (with wrap-around at the bounds of `i32`).
pub proof fn law_increments_accumulate(
    table: Map<Seq<char>, CounterModel>,
    id: Seq<char>,
    amount: i32,
)
    requires
        table.contains_key(id),
    ensures
        ({
            let inc = EventModel::Incremented { aggregate_id: id, amount };
            projected(table, inc) matches Ok(once) && projected(once, inc) matches Ok(twice) && twice[id].value
                == table[id].value.wrapping_add(amount).wrapping_add(amount)
        }),
{
}

/// Decrementing undoes incrementing: for every state and amount, folding in an
/// increment and then a decrement of the same amount gives back the state, and
/// the same holds of a row of the read model.
pub proof fn law_increment_then_decrement(
    state: CounterModel,
    table: Map<Seq<char>, CounterModel>,
    id: Seq<char>,
    amount: i32,
)
    ensures
        applied(
            applied(state, EventModel::Incremented { aggregate_id: id, amount }),
            EventModel::Decremented { aggregate_id: id, amount },
        ) == state,
        table.contains_key(id) && table[id].id == id ==> ({
            let up = projected(table, EventModel::Incremented { aggregate_id: id, amount });
            up matches Ok(t) && projected(t, EventModel::Decremented { aggregate_id: id, amount })
                == Ok::<Map<Seq<char>, CounterModel>, crate::error::CoreError>(table)
        }),
{
    if table.contains_key(id) && table[id].id == id {
        let row = table[id];
        let t = table.insert(
            id,
            CounterModel { id, name: row.name, value: row.value.wrapping_add(amount) },
        );
        assert(t.insert(id, CounterModel { id, name: row.name, value: row.value }) =~= table);
    }
}

/// An update replaces rather than merges: whatever the prior state, afterwards
/// the name and value are exactly the ones the update carries.
pub proof fn law_update_replaces(
    state: CounterModel,
    table: Map<Seq<char>, CounterModel>,
    id: Seq<char>,
    name: Seq<char>,
    value: i32,
)
    ensures
        applied(state, EventModel::Updated { aggregate_id: id, name, value }).name == name,
        applied(state, EventModel::Updated { aggregate_id: id, name, value }).value == value,
        table.contains_key(id) ==> projected(
            table,
            EventModel::Updated { aggregate_id: id, name, value },
        ) == Ok::<Map<Seq<char>, CounterModel>, crate::error::CoreError>(
            table.insert(id, CounterModel { id, name, value }),
        ),
{
}

/// A deletion removes the row, so a later lookup finds nothing; deleting a
/// counter that is already absent changes nothing and is no error.
pub proof fn law_delete_removes(table: Map<Seq<char>, CounterModel>, id: Seq<char>)
    ensures
        projected(table, EventModel::Deleted { aggregate_id: id }) matches Ok(t) && lookup(t, id) is None,
        !table.contains_key(id) ==> projected(table, EventModel::Deleted { aggregate_id: id }) == Ok::<
            Map<Seq<char>, CounterModel>,
            crate::error::CoreError,
        >(table),
{
    assert(!table.contains_key(id) ==> table.remove(id) =~= table);
}

proof fn lemma_replay_matches(m: CqrsModel, events: Seq<EventModel>, id: Seq<char>, start: CounterModel)
    requires
        forall|i: int| 0 <= i < events.len() ==> #[trigger] events[i].aggregate_id() == id,
        forall|i: int|
            0 <= i < events.len() ==> (#[trigger] events[i] matches EventModel::Created { value, .. }
                ==> value == 0),
        !m.table.contains_key(id),
    ensures
        dispatched_all(m, events).log == m.log + events,
        dispatched_all(m, events).table.contains_key(id) ==> dispatched_all(m, events).table[id]
            == replayed(start, events) && dispatched_all(m, events).table[id].id == id,
    decreases events.len(),
{
    if events.len() == 0 {
        assert(m.log + events =~= m.log);
    } else {
        let earlier = events.drop_last();
        assert forall|i: int| 0 <= i < earlier.len() implies #[trigger] earlier[i].aggregate_id() == id by {
            assert(earlier[i] == events[i]);
        }
        assert forall|i: int|
            0 <= i < earlier.len() implies (#[trigger] earlier[i] matches EventModel::Created {
                value,
                ..
            } ==> value == 0) by {
            assert(earlier[i] == events[i]);
        }
        lemma_replay_matches(m, earlier, id, start);
        let last = events.last();
        assert(last == events[events.len() - 1]);
        assert(last.aggregate_id() == id);
        assert(m.log + events =~= (m.log + earlier).push(last));
    }
}

/// Events keep their order, and replay agrees with the read model: for commands
/// against one counter `id`, run one after another, the log gains exactly one
/// event per command, in the order issued; and whenever the read model holds a
/// row for `id`, folding those events into any starting state gives that row.
/// This holds when every creation among the commands carries the value zero,
/// since folding in a creation starts the value at zero while the read model
/// takes the carried value.
pub proof fn law_event_order(
    m: CqrsModel,
    commands: Seq<CommandModel>,
    id: Seq<char>,
    start: CounterModel,
)
    requires
        forall|i: int| 0 <= i < commands.len() ==> #[trigger] handled(id, commands[i]).aggregate_id() == id,
        forall|i: int|
            0 <= i < commands.len() ==> (#[trigger] commands[i] matches CommandModel::Create { value, .. }
                ==> value == 0),
        !m.table.contains_key(id),
    ensures
        handled_all(id, commands).len() == commands.len(),
        forall|i: int| 0 <= i < commands.len() ==> #[trigger] handled_all(id, commands)[i] == handled(id, commands[i]),
        dispatched_all(m, handled_all(id, commands)).log == m.log + handled_all(id, commands),
        dispatched_all(m, handled_all(id, commands)).table.contains_key(id) ==> dispatched_all(
            m,
            handled_all(id, commands),
        ).table[id] == replayed(start, handled_all(id, commands)),
{
    let events = handled_all(id, commands);
    assert forall|i: int| 0 <= i < events.len() implies #[trigger] events[i].aggregate_id() == id by {
        assert(events[i] == handled(id, commands[i]));
    }
    assert forall|i: int|
        0 <= i < events.len() implies (#[trigger] events[i] matches EventModel::Created { value, .. }
            ==> value == 0) by {
        assert(events[i] == handled(id, commands[i]));
    }
    lemma_replay_matches(m, events, id, start);
}

/// Round trip: the storage payload of every event reads back as that same event.
pub proof fn law_payload_round_trip(e: EventModel)
    ensures
        decoded(encoded(e)) == Some(e),
{
    let other = choose|x: EventModel| encoded(x) == encoded(e);
    lemma_encoded_injective(other, e);
}

} // verus!
