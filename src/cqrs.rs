use vstd::prelude::*;

use crate::aggregate::{handled, CounterState};
use crate::command::CounterCommand;
use crate::consumer::CounterEventConsumer;
use crate::counter::{Counter, CounterModel};
use crate::error::CoreError;
use crate::event::{CounterEvent, EventModel};
use crate::event_store::{events_for, views, EventStore};
use crate::ids::ID_LEN;
use crate::projection::{lookup, projected};
use crate::query::{GetCounterQuery, ListCountersQuery};

verus! {

/// Mathematical form of the whole system: the event log and the read model.
pub struct CqrsModel {
    pub log: Seq<EventModel>,
    pub table: Map<Seq<char>, CounterModel>,
}

/// The system after one event is recorded and projected. The event is always
/// recorded; when it cannot be projected, the read model stays as it was.
pub open spec fn dispatched(m: CqrsModel, event: EventModel) -> CqrsModel {
    CqrsModel {
        log: m.log.push(event),
        table: match projected(m.table, event) {
            Ok(table) => table,
            Err(_) => m.table,
        },
    }
}

/// What one command turns into: the identity of the counter it concerns and
/// its events, handled by a fresh aggregate. A creation concerns the fresh
/// aggregate's new identity; any other command concerns `aggregate_id`.
pub fn plan_command(aggregate_id: String, command: CounterCommand) -> (r: (String, Vec<CounterEvent>))
    ensures
        views(r.1@) == seq![handled(r.0@, command@)],
        command@ is Create ==> r.0@.len() == ID_LEN,
        !(command@ is Create) ==> r.0@ == aggregate_id@,
{
    let aggregate = CounterState::default();
    let creates = match &command {
        CounterCommand::Create { .. } => true,
        _ => false,
    };
    let target = if creates {
        aggregate.aggregate_id()
    } else {
        aggregate_id
    };
    let ghost cmd = command@;
    let events = match aggregate.handle(command) {
        Ok(events) => events,
        Err(_) => Vec::new(),
    };
    proof {
        assert(events@[0]@ == handled(target@, cmd));
        assert(views(events@) =~= seq![handled(target@, cmd)]);
    }
    (target, events)
}

/// Runs commands: each becomes events, which are recorded and then projected
/// into the read model, which queries read.
pub struct Cqrs {
    store: EventStore,
    consumer: CounterEventConsumer,
}

impl View for Cqrs {
    type V = CqrsModel;

    closed spec fn view(&self) -> CqrsModel {
        CqrsModel { log: self.store@, table: self.consumer.counter_model@ }
    }
}

impl Cqrs {
    pub closed spec fn wf(&self) -> bool {
        self.store.wf() && self.consumer.counter_model.wf()
    }

    /// A system with no events and no counters.
    pub fn new() -> (r: Cqrs)
        ensures
            r.wf(),
            r@.log == Seq::<EventModel>::empty(),
            r@.table == Map::<Seq<char>, CounterModel>::empty(),
    {
        Cqrs { store: EventStore::new(), consumer: CounterEventConsumer::new() }
    }

    /// Executes one command against a fresh aggregate: its event is appended to
    /// the log, then projected into the read model.
    /// A creation always succeeds and returns the new counter's identity; any
    /// other command returns `aggregate_id`, or the error met while projecting.
    pub fn execute(&mut self, aggregate_id: String, command: CounterCommand) -> (r: Result<
        String,
        CoreError,
    >)
        requires
            old(self).wf(),
        ensures
            final(self).wf(),
            command@ is Create ==> r is Ok,
            match r {
                Ok(id) => {
                    &&& final(self)@ == dispatched(old(self)@, handled(id@, command@))
                    &&& projected(old(self)@.table, handled(id@, command@)) is Ok
                    &&& command@ is Create ==> id@.len() == ID_LEN
                    &&& !(command@ is Create) ==> id@ == aggregate_id@
                },
                Err(e) => {
                    &&& !(command@ is Create)
                    &&& final(self)@ == dispatched(old(self)@, handled(aggregate_id@, command@))
                    &&& projected(old(self)@.table, handled(aggregate_id@, command@)) == Err::<
                        Map<Seq<char>, CounterModel>,
                        CoreError,
                    >(e)
                },
            },
    {
        let ghost cmd = command@;
        let (target, events) = plan_command(aggregate_id, command);
        assert(views(events@)[0] == seq![handled(target@, cmd)][0]);
        assert(events@.len() == views(events@).len());
        assert(views(events@)[0] == events@[0]@);
        self.store.save_events(&events);
        assert(self.store@ =~= old(self).store@.push(handled(target@, cmd)));
        match self.consumer.process(&events[0]) {
            Ok(()) => Ok(target),
            Err(e) => Err(e),
        }
    }

    /// The counter stored under `id`, or `NotFound`.
    pub fn get(&self, id: &String) -> (r: Result<Counter, CoreError>)
        requires
            self.wf(),
        ensures
            match lookup(self@.table, id@) {
                Some(row) => r is Ok && r->Ok_0@ == row,
                None => r == Err::<Counter, CoreError>(CoreError::NotFound),
            },
    {
        let query = GetCounterQuery::new(id.clone());
        query.apply(&self.consumer.counter_model)
    }

    /// Every counter, each once, in no particular order.
    pub fn list(&self) -> (r: Vec<Counter>)
        requires
            self.wf(),
        ensures
            forall|i: int| 0 <= i < r@.len() ==> #[trigger] lookup(self@.table, r@[i].id@) == Some(r@[i]@),
            forall|k: Seq<char>| #[trigger]
                self@.table.contains_key(k) ==> exists|i: int| 0 <= i < r@.len() && #[trigger] r@[i].id@ == k,
            forall|i: int, j: int| 0 <= i < j < r@.len() ==> #[trigger] r@[i].id@ != #[trigger] r@[j].id@,
    {
        let query = ListCountersQuery::new();
        query.apply(&self.consumer.counter_model)
    }

    /// Every recorded event of one counter, oldest first.
    pub fn events(&self, aggregate_id: &String) -> (r: Vec<CounterEvent>)
        requires
            self.wf(),
        ensures
            views(r@) == events_for(self@.log, aggregate_id@),
    {
        self.store.load_events(aggregate_id)
    }
}

} // verus!
