use vstd::prelude::*;

use crate::counter::CounterModel;
use crate::error::CoreError;
use crate::event::CounterEvent;
use crate::projection::{plan_change, projected};
use crate::read_model::CounterView;

verus! {

/// Keeps the read model in step with the events it is handed.
pub struct CounterEventConsumer {
    pub counter_model: CounterView,
}

impl CounterEventConsumer {
    /// A consumer over an empty read model.
    pub fn new() -> (r: CounterEventConsumer)
        ensures
            r.counter_model.wf(),
            r.counter_model@ == Map::<Seq<char>, CounterModel>::empty(),
    {
        CounterEventConsumer { counter_model: CounterView::new() }
    }

    /// Projects one event into the read model. When the event needs a row
    /// that is absent, nothing changes and `NotFound` comes back.
    pub fn process(&mut self, event: &CounterEvent) -> (r: Result<(), CoreError>)
        requires
            old(self).counter_model.wf(),
        ensures
            final(self).counter_model.wf(),
            match projected(old(self).counter_model@, event@) {
                Ok(table) => r is Ok && final(self).counter_model@ == table,
                Err(e) => r == Err::<(), CoreError>(e) && final(self).counter_model@ == old(
                    self,
                ).counter_model@,
            },
    {
        let current = self.counter_model.find(&event.aggregate_id());
        match plan_change(current, event) {
            Ok(change) => {
                self.counter_model.apply_change(change);
                Ok(())
            },
            Err(e) => Err(e),
        }
    }
}

} // verus!
