use kountr::aggregate::CounterState;
use kountr::command::CounterCommand;
use kountr::counter::Counter;
use kountr::cqrs::Cqrs;
use kountr::error::CoreError;
use kountr::event::CounterEvent;
use kountr::service::{
    add_counter, decrement_counter, delete_counter, find_counter, increment_counter,
    list_all_counters, update_counter,
};

fn create(app: &mut Cqrs, name: &str, value: i32) -> String {
    app.execute(
        String::new(),
        CounterCommand::Create { name: name.to_string(), value },
    )
    .expect("creation never fails")
}

#[test]
fn create_records_one_event_and_one_row() {
    let mut app = Cqrs::new();
    let id = create(&mut app, "n", 5);
    assert_eq!(id.len(), 36);
    let events = app.events(&id);
    assert_eq!(
        events,
        vec![CounterEvent::CounterCreated { aggregate_id: id.clone(), name: "n".to_string(), value: 5 }]
    );
    let row = app.get(&id).unwrap();
    assert_eq!(row.name, "n");
    assert_eq!(row.value, 5);
    assert_eq!(app.list().len(), 1);
}

#[test]
fn create_ignores_the_given_identity() {
    let mut app = Cqrs::new();
    let id = app
        .execute("given".to_string(), CounterCommand::Create { name: "n".to_string(), value: 1 })
        .unwrap();
    assert_ne!(id, "given");
    assert_eq!(app.get(&"given".to_string()), Err(CoreError::NotFound));
}

#[test]
fn two_creations_get_different_identities() {
    let mut app = Cqrs::new();
    let a = create(&mut app, "a", 1);
    let b = create(&mut app, "b", 2);
    assert_ne!(a, b);
    assert_eq!(app.list().len(), 2);
}

#[test]
fn increments_accumulate() {
    let mut app = Cqrs::new();
    let id = create(&mut app, "clicks", 10);
    let r = app.execute(id.clone(), CounterCommand::Increment { id: id.clone(), amount: 3 });
    assert_eq!(r, Ok(id.clone()));
    assert_eq!(app.get(&id).unwrap().value, 13);
    app.execute(id.clone(), CounterCommand::Increment { id: id.clone(), amount: 3 }).unwrap();
    assert_eq!(app.get(&id).unwrap().value, 16);
}

#[test]
fn decrement_from_ten_by_four() {
    let mut app = Cqrs::new();
    let id = create(&mut app, "d", 10);
    app.execute(id.clone(), CounterCommand::Decrement { id: id.clone(), amount: 4 }).unwrap();
    assert_eq!(app.get(&id).unwrap().value, 6);
}

#[test]
fn values_may_go_negative() {
    let mut app = Cqrs::new();
    let id = create(&mut app, "d", 1);
    app.execute(id.clone(), CounterCommand::Decrement { id: id.clone(), amount: 4 }).unwrap();
    assert_eq!(app.get(&id).unwrap().value, -3);
}

#[test]
fn increment_wraps_at_the_bound() {
    let mut app = Cqrs::new();
    let id = create(&mut app, "max", i32::MAX);
    app.execute(id.clone(), CounterCommand::Increment { id: id.clone(), amount: 1 }).unwrap();
    assert_eq!(app.get(&id).unwrap().value, i32::MIN);
}

#[test]
fn update_replaces_name_and_value() {
    let mut app = Cqrs::new();
    let id = create(&mut app, "old", 42);
    app.execute(id.clone(), CounterCommand::Increment { id: id.clone(), amount: 7 }).unwrap();
    app.execute(
        id.clone(),
        CounterCommand::Update { id: id.clone(), name: "x".to_string(), value: 9 },
    )
    .unwrap();
    let row = app.get(&id).unwrap();
    assert_eq!(row.name, "x");
    assert_eq!(row.value, 9);
}

#[test]
fn delete_removes_the_row_and_repeats_quietly() {
    let mut app = Cqrs::new();
    let id = create(&mut app, "gone", 3);
    assert_eq!(app.execute(id.clone(), CounterCommand::Delete { id: id.clone() }), Ok(id.clone()));
    assert_eq!(app.get(&id), Err(CoreError::NotFound));
    assert_eq!(app.execute(id.clone(), CounterCommand::Delete { id: id.clone() }), Ok(id.clone()));
    assert_eq!(app.get(&id), Err(CoreError::NotFound));
    assert_eq!(app.events(&id).len(), 3);
}

#[test]
fn increment_of_missing_counter_is_not_found_but_recorded() {
    let mut app = Cqrs::new();
    let id = "missing".to_string();
    let r = app.execute(id.clone(), CounterCommand::Increment { id: id.clone(), amount: 1 });
    assert_eq!(r, Err(CoreError::NotFound));
    assert_eq!(
        app.events(&id),
        vec![CounterEvent::CounterIncremented { aggregate_id: id.clone(), amount: 1 }]
    );
    assert!(app.list().is_empty());
}

#[test]
fn update_of_missing_counter_is_not_found() {
    let mut app = Cqrs::new();
    let id = "missing".to_string();
    let r = app.execute(
        id.clone(),
        CounterCommand::Update { id: id.clone(), name: "x".to_string(), value: 1 },
    );
    assert_eq!(r, Err(CoreError::NotFound));
    assert_eq!(app.get(&id), Err(CoreError::NotFound));
}

#[test]
fn events_come_back_in_issuance_order_and_replay_to_the_row() {
    let mut app = Cqrs::new();
    let id = create(&mut app, "seq", 0);
    let commands = vec![
        CounterCommand::Increment { id: id.clone(), amount: 3 },
        CounterCommand::Decrement { id: id.clone(), amount: 1 },
        CounterCommand::Update { id: id.clone(), name: "renamed".to_string(), value: 9 },
        CounterCommand::Increment { id: id.clone(), amount: 2 },
    ];
    for c in commands {
        app.execute(id.clone(), c).unwrap();
    }
    let events = app.events(&id);
    assert_eq!(events.len(), 5);
    assert_eq!(
        events[1],
        CounterEvent::CounterIncremented { aggregate_id: id.clone(), amount: 3 }
    );
    assert_eq!(
        events[2],
        CounterEvent::CounterDecremented { aggregate_id: id.clone(), amount: 1 }
    );
    assert_eq!(
        events[4],
        CounterEvent::CounterIncremented { aggregate_id: id.clone(), amount: 2 }
    );
    let mut state = CounterState::default();
    state.replay(&events);
    let row = app.get(&id).unwrap();
    assert_eq!(state.value(), row.value);
    assert_eq!(state.value(), 11);
    assert_eq!(state.name(), row.name);
    assert_eq!(state.aggregate_id(), id);
}

#[test]
fn replay_differs_from_row_after_a_nonzero_creation() {
    let mut app = Cqrs::new();
    let id = create(&mut app, "n", 5);
    app.execute(id.clone(), CounterCommand::Increment { id: id.clone(), amount: 3 }).unwrap();
    let mut state = CounterState::default();
    state.replay(&app.events(&id));
    assert_eq!(app.get(&id).unwrap().value, 8);
    assert_eq!(state.value(), 3);
}

#[test]
fn events_of_other_counters_are_not_loaded() {
    let mut app = Cqrs::new();
    let a = create(&mut app, "a", 1);
    let b = create(&mut app, "b", 2);
    app.execute(b.clone(), CounterCommand::Increment { id: b.clone(), amount: 1 }).unwrap();
    assert_eq!(app.events(&a).len(), 1);
    assert_eq!(app.events(&b).len(), 2);
}

#[test]
fn service_operations_follow_the_read_model() {
    let mut app = Cqrs::new();
    let made = add_counter(
        &mut app,
        Counter { id: String::new(), name: "svc".to_string(), value: 4 },
    )
    .unwrap();
    assert_eq!(made.name, "svc");
    assert_eq!(made.value, 4);
    assert_eq!(made.id.len(), 36);
    assert_eq!(increment_counter(&mut app, made.id.clone()).unwrap().value, 5);
    assert_eq!(decrement_counter(&mut app, made.id.clone()).unwrap().value, 4);
    assert_eq!(decrement_counter(&mut app, made.id.clone()).unwrap().value, 3);
    let changed = update_counter(
        &mut app,
        Counter { id: made.id.clone(), name: "renamed".to_string(), value: 20 },
    )
    .unwrap();
    assert_eq!(changed.name, "renamed");
    assert_eq!(changed.value, 20);
    assert_eq!(find_counter(&app, made.id.clone()).unwrap(), changed);
    assert_eq!(list_all_counters(&app), vec![changed.clone()]);
    assert_eq!(delete_counter(&mut app, made.id.clone()), Ok(()));
    assert_eq!(find_counter(&app, made.id.clone()), Err(CoreError::NotFound));
    assert_eq!(increment_counter(&mut app, made.id.clone()), Err(CoreError::NotFound));
    assert_eq!(decrement_counter(&mut app, made.id.clone()), Err(CoreError::NotFound));
    assert_eq!(delete_counter(&mut app, made.id.clone()), Ok(()));
    assert!(list_all_counters(&app).is_empty());
}
