use vstd::prelude::*;

use crate::event::{CounterEvent, EventModel};
use crate::ids::new_id;
use crate::laws::law_payload_round_trip;
use crate::payload::{decode_event, decoded, encode_event, encoded};

verus! {

/// The events of one counter, in the order in which they were recorded.
pub open spec fn events_for(log: Seq<EventModel>, id: Seq<char>) -> Seq<EventModel>
    decreases log.len(),
{
    if log.len() == 0 {
        Seq::empty()
    } else {
        let earlier = events_for(log.drop_last(), id);
        if log.last().aggregate_id() == id {
            earlier.push(log.last())
        } else {
            earlier
        }
    }
}

/// The views of a list of events.
pub open spec fn views(events: Seq<CounterEvent>) -> Seq<EventModel> {
    events.map_values(|e: CounterEvent| e@)
}

/// One durable record of the event log.
#[derive(Debug, PartialEq, Eq)]
pub struct StoredEvent {
    /// Identity of the record itself.
    pub id: String,
    /// The counter the event belongs to.
    pub aggregate_id: String,
    /// The event's type tag.
    pub event_type: String,
    /// The event as `encode_event` writes it.
    pub payload: String,
    /// Position of the record in the log, assigned when it is written.
    pub sequence: usize,
}

impl StoredEvent {
    /// The record for `event` at position `sequence`, under the record identity `id`.
    pub fn new(id: String, event: &CounterEvent, sequence: usize) -> (r: StoredEvent)
        ensures
            r.id@ == id@,
            r.aggregate_id@ == event@.aggregate_id(),
            r.event_type@ == event@.type_tag(),
            r.payload@ == encoded(event@),
            r.sequence == sequence,
    {
        StoredEvent {
            id,
            aggregate_id: event.aggregate_id(),
            event_type: event.to_string(),
            payload: encode_event(event),
            sequence,
        }
    }

    /// The event the record holds, if its payload is the payload of an event.
    pub fn event(&self) -> (r: Option<CounterEvent>)
        ensures
            match r {
                Some(e) => decoded(self.payload@) == Some(e@),
                None => decoded(self.payload@) is None,
            },
    {
        decode_event(self.payload.as_str())
    }
}

/// The append-only event log, kept in memory.
pub struct EventStore {
    records: Vec<StoredEvent>,
    log: Ghost<Seq<EventModel>>,
}

impl View for EventStore {
    type V = Seq<EventModel>;

    closed spec fn view(&self) -> Seq<EventModel> {
        self.log@
    }
}

impl EventStore {
    /// Each record holds the event of the log at its own position.
    pub closed spec fn wf(&self) -> bool {
        &&& self.records@.len() == self.log@.len()
        &&& forall|i: int|
            0 <= i < self.records@.len() ==> {
                let rec = #[trigger] self.records@[i];
                &&& rec.payload@ == encoded(self.log@[i])
                &&& rec.aggregate_id@ == self.log@[i].aggregate_id()
                &&& rec.event_type@ == self.log@[i].type_tag()
                &&& rec.sequence == i
            }
    }

    /// An empty log.
    pub fn new() -> (r: EventStore)
        ensures
            r.wf(),
            r@ == Seq::<EventModel>::empty(),
    {
        EventStore { records: Vec::new(), log: Ghost(Seq::empty()) }
    }

    /// Appends the events, in order, one record each.
    pub fn save_events(&mut self, events: &Vec<CounterEvent>)
        requires
            old(self).wf(),
        ensures
            final(self).wf(),
            final(self)@ == old(self)@ + views(events@),
    {
        let mut i: usize = 0;
        while i < events.len()
            invariant
                i <= events@.len(),
                self.wf(),
                self@ == old(self)@ + views(events@).take(i as int),
            decreases events@.len() - i,
        {
            let sequence = self.records.len();
            let record = StoredEvent::new(new_id(), &events[i], sequence);
            self.records.push(record);
            proof {
                self.log@ = self.log@.push(events@[i as int]@);
                assert(views(events@).take(i as int + 1) == views(events@).take(i as int).push(
                    events@[i as int]@,
                ));
            }
            i = i + 1;
        }
        assert(views(events@).take(i as int) == views(events@));
    }

    /// Every event of one counter, in the order in which they were recorded.
    pub fn load_events(&self, aggregate_id: &String) -> (r: Vec<CounterEvent>)
        requires
            self.wf(),
        ensures
            views(r@) == events_for(self@, aggregate_id@),
    {
        let mut out: Vec<CounterEvent> = Vec::new();
        let mut i: usize = 0;
        while i < self.records.len()
            invariant
                i <= self.records@.len(),
                self.wf(),
                views(out@) == events_for(self@.take(i as int), aggregate_id@),
            decreases self.records@.len() - i,
        {
            let record = &self.records[i];
            proof {
                assert(self@.take(i as int + 1).drop_last() == self@.take(i as int));
                assert(self@.take(i as int + 1).last() == self@[i as int]);
                law_payload_round_trip(self@[i as int]);
            }
            if record.aggregate_id == *aggregate_id {
                match record.event() {
                    Some(event) => {
                        let ghost before = out@;
                        out.push(event);
                        assert(views(out@) =~= views(before).push(self@[i as int]));
                    },
                    None => {},
                }
            }
            i = i + 1;
        }
        assert(self@.take(i as int) == self@);
        out
    }
}

} // verus!
