use kountr::aggregate::CounterState;
use kountr::command::CounterCommand;
use kountr::consumer::CounterEventConsumer;
use kountr::counter::Counter;
use kountr::error::CoreError;
use kountr::event::CounterEvent;
use kountr::params::{CounterIdParams, NewCounterParams, UpdateCounterParams};
use kountr::projection::{plan_change, RowChange};
use kountr::query::{GetCounterQuery, ListCountersQuery};
use kountr::read_model::CounterView;

fn row(id: &str, name: &str, value: i32) -> Counter {
    Counter::new_with_id(id.to_string(), name.to_string(), value)
}

#[test]
fn handle_turns_each_command_into_one_event() {
    let state = CounterState::default();
    let own = state.aggregate_id();
    let cases = vec![
        (
            CounterCommand::Create { name: "n".to_string(), value: 5 },
            CounterEvent::CounterCreated { aggregate_id: own.clone(), name: "n".to_string(), value: 5 },
        ),
        (
            CounterCommand::Increment { id: "a".to_string(), amount: 3 },
            CounterEvent::CounterIncremented { aggregate_id: "a".to_string(), amount: 3 },
        ),
        (
            CounterCommand::Decrement { id: "a".to_string(), amount: 4 },
            CounterEvent::CounterDecremented { aggregate_id: "a".to_string(), amount: 4 },
        ),
        (
            CounterCommand::Update { id: "a".to_string(), name: "x".to_string(), value: 9 },
            CounterEvent::CounterUpdated { aggregate_id: "a".to_string(), name: "x".to_string(), value: 9 },
        ),
        (
            CounterCommand::Delete { id: "a".to_string() },
            CounterEvent::CounterDeleted { aggregate_id: "a".to_string() },
        ),
    ];
    for (command, event) in cases {
        assert_eq!(state.handle(command), Ok(vec![event]));
    }
}

#[test]
fn default_state_is_fresh() {
    let a = CounterState::default();
    let b = CounterState::default();
    assert_eq!(a.name(), "Default counter");
    assert_eq!(a.value(), 0);
    assert_eq!(a.aggregate_id().len(), 36);
    assert_ne!(a.aggregate_id(), b.aggregate_id());
}

#[test]
fn apply_created_starts_at_zero() {
    let mut state = CounterState::default();
    state.apply(&CounterEvent::CounterCreated {
        aggregate_id: "c1".to_string(),
        name: "n".to_string(),
        value: 5,
    });
    assert_eq!(state.aggregate_id(), "c1");
    assert_eq!(state.name(), "n");
    assert_eq!(state.value(), 0);
}

#[test]
fn apply_increment_then_decrement_restores() {
    for (start, amount) in [(10, 4), (-7, 3), (i32::MAX, 5), (i32::MIN, i32::MAX), (0, i32::MIN)] {
        let mut state = CounterState::default();
        state.apply(&CounterEvent::CounterUpdated {
            aggregate_id: "c".to_string(),
            name: "n".to_string(),
            value: start,
        });
        state.apply(&CounterEvent::CounterIncremented { aggregate_id: "c".to_string(), amount });
        state.apply(&CounterEvent::CounterDecremented { aggregate_id: "c".to_string(), amount });
        assert_eq!(state.value(), start);
    }
}

#[test]
fn apply_decrement_from_ten() {
    let mut state = CounterState::default();
    state.apply(&CounterEvent::CounterUpdated {
        aggregate_id: "c".to_string(),
        name: "n".to_string(),
        value: 10,
    });
    state.apply(&CounterEvent::CounterDecremented { aggregate_id: "c".to_string(), amount: 4 });
    assert_eq!(state.value(), 6);
}

#[test]
fn apply_update_and_delete() {
    let mut state = CounterState::default();
    state.apply(&CounterEvent::CounterUpdated {
        aggregate_id: "c".to_string(),
        name: "x".to_string(),
        value: 9,
    });
    assert_eq!(state.name(), "x");
    assert_eq!(state.value(), 9);
    let before = state.clone();
    state.apply(&CounterEvent::CounterDeleted { aggregate_id: "c".to_string() });
    assert_eq!(state, before);
}

#[test]
fn set_aggregate_id_moves_the_state() {
    let mut state = CounterState::default();
    state.set_aggregate_id("moved".to_string());
    assert_eq!(state.aggregate_id(), "moved");
    assert_eq!(state.value(), 0);
}

#[test]
fn plan_change_for_each_event() {
    let current = Some(row("a", "n", 10));
    assert_eq!(
        plan_change(None, &CounterEvent::CounterCreated { aggregate_id: "a".to_string(), name: "n".to_string(), value: 5 }),
        Ok(RowChange::Upsert(row("a", "n", 5)))
    );
    assert_eq!(
        plan_change(current.clone(), &CounterEvent::CounterIncremented { aggregate_id: "a".to_string(), amount: 3 }),
        Ok(RowChange::Upsert(row("a", "n", 13)))
    );
    assert_eq!(
        plan_change(current.clone(), &CounterEvent::CounterDecremented { aggregate_id: "a".to_string(), amount: 4 }),
        Ok(RowChange::Upsert(row("a", "n", 6)))
    );
    assert_eq!(
        plan_change(current.clone(), &CounterEvent::CounterUpdated { aggregate_id: "a".to_string(), name: "x".to_string(), value: 9 }),
        Ok(RowChange::Upsert(row("a", "x", 9)))
    );
    assert_eq!(
        plan_change(None, &CounterEvent::CounterDeleted { aggregate_id: "a".to_string() }),
        Ok(RowChange::Remove("a".to_string()))
    );
    assert_eq!(
        plan_change(None, &CounterEvent::CounterIncremented { aggregate_id: "a".to_string(), amount: 3 }),
        Err(CoreError::NotFound)
    );
    assert_eq!(
        plan_change(None, &CounterEvent::CounterDecremented { aggregate_id: "a".to_string(), amount: 3 }),
        Err(CoreError::NotFound)
    );
    assert_eq!(
        plan_change(None, &CounterEvent::CounterUpdated { aggregate_id: "a".to_string(), name: "x".to_string(), value: 1 }),
        Err(CoreError::NotFound)
    );
}

#[test]
fn consumer_projects_events_into_the_table() {
    let mut consumer = CounterEventConsumer::new();
    let created = CounterEvent::CounterCreated { aggregate_id: "a".to_string(), name: "n".to_string(), value: 10 };
    assert_eq!(consumer.process(&created), Ok(()));
    assert_eq!(consumer.process(&CounterEvent::CounterIncremented { aggregate_id: "a".to_string(), amount: 3 }), Ok(()));
    let found = GetCounterQuery::new("a".to_string()).apply(&consumer.counter_model);
    assert_eq!(found, Ok(row("a", "n", 13)));
    assert_eq!(
        consumer.process(&CounterEvent::CounterIncremented { aggregate_id: "b".to_string(), amount: 3 }),
        Err(CoreError::NotFound)
    );
    assert_eq!(consumer.process(&CounterEvent::CounterDeleted { aggregate_id: "a".to_string() }), Ok(()));
    assert_eq!(consumer.process(&CounterEvent::CounterDeleted { aggregate_id: "a".to_string() }), Ok(()));
    assert_eq!(
        GetCounterQuery::new("a".to_string()).apply(&consumer.counter_model),
        Err(CoreError::NotFound)
    );
}

#[test]
fn table_upserts_and_lists() {
    let mut table = CounterView::new();
    table.update(row("a", "one", 1));
    table.update(row("b", "two", 2));
    table.update(row("a", "uno", 11));
    assert_eq!(table.find(&"a".to_string()), Some(row("a", "uno", 11)));
    let mut all = ListCountersQuery::new().apply(&table);
    all.sort_by(|x, y| x.id.cmp(&y.id));
    assert_eq!(all, vec![row("a", "uno", 11), row("b", "two", 2)]);
    table.delete(&"a".to_string());
    table.delete(&"zzz".to_string());
    assert_eq!(table.all(), vec![row("b", "two", 2)]);
    table.apply_change(RowChange::Remove("b".to_string()));
    assert!(table.all().is_empty());
}

#[test]
fn counter_text_form() {
    let c = row("a1", "clicks", -3);
    assert_eq!(c.to_string(), "Counter { id: a1, name: clicks, value: -3 }");
    assert_eq!(row("b", "", i32::MIN).to_string(), "Counter { id: b, name: , value: -2147483648 }");
}

#[test]
fn new_counter_gets_a_fresh_identity() {
    let a = Counter::new("n".to_string(), 1);
    let b = Counter::new("n".to_string(), 1);
    assert_eq!(a.id.len(), 36);
    assert_ne!(a.id, b.id);
    assert_eq!(a.name, "n");
    assert_eq!(a.value, 1);
}

#[test]
fn form_parameters_become_counters() {
    let made = NewCounterParams { name: "n".to_string(), value: 4 }.into();
    assert_eq!(made.name, "n");
    assert_eq!(made.value, 4);
    assert_eq!(made.id.len(), 36);
    let edited = UpdateCounterParams { id: "a".to_string(), name: "x".to_string(), value: 9 }.into();
    assert_eq!(edited, row("a", "x", 9));
    let path = CounterIdParams { id: "a".to_string() };
    assert_eq!(path.id, "a");
}
