use task_tracker::status::TaskStatus;
use task_tracker::task::{Task, TaskError, TaskStore, Timestamp};

fn at(micros: i64) -> Timestamp {
    Timestamp { micros }
}

fn ids(tasks: &[Task]) -> Vec<u32> {
    tasks.iter().map(|t| t.id).collect()
}

#[test]
fn scenario_buy_milk_pay_bills() {
    let mut store = TaskStore::new();
    let first = Task::add(&mut store, "buy milk").unwrap();
    assert_eq!(first.id, 1);
    assert_eq!(first.status, TaskStatus::Todo);
    let started = Task::mark_in_progress(&mut store, 1).unwrap();
    assert_eq!(started.id, 1);
    assert_eq!(started.status, TaskStatus::InProgress);
    let second = Task::add(&mut store, "pay bills").unwrap();
    assert_eq!(second.id, 2);
    assert_eq!(second.status, TaskStatus::Todo);
    let todo = Task::list_tasks(&store, Some("todo".to_string())).unwrap();
    assert_eq!(ids(&todo), vec![2]);
    Task::delete(&mut store, 1).unwrap();
    assert_eq!(Task::update(&mut store, 1, "x").unwrap_err(), TaskError::NotFound);
    let all = Task::list_tasks(&store, None).unwrap();
    assert_eq!(ids(&all), vec![2]);
}

#[test]
fn ids_increase_without_gaps_and_are_not_reused() {
    let mut store = TaskStore::new();
    for expected in 1..=3u32 {
        let t = store.add_at("t", at(10)).unwrap();
        assert_eq!(t.id, expected);
    }
    store.delete_id(3).unwrap();
    let next = store.add_at("again", at(11)).unwrap();
    assert_eq!(next.id, 4);
    assert_eq!(ids(&store.filtered(None)), vec![1, 2, 4]);
}

#[test]
fn add_then_load_gives_the_task_back() {
    let mut store = TaskStore::new();
    store.add_at("buy milk", at(42)).unwrap();
    let reloaded = TaskStore::load(Some(store.filtered(None)));
    let tasks = reloaded.filtered(None);
    assert_eq!(tasks.len(), 1);
    assert_eq!(tasks[0].id, 1);
    assert_eq!(tasks[0].description, "buy milk");
    assert_eq!(tasks[0].status, TaskStatus::Todo);
    assert_eq!(tasks[0].created_at, at(42));
    assert_eq!(tasks[0].updated_at, at(42));
}

#[test]
fn update_of_missing_id_changes_nothing() {
    let mut store = TaskStore::new();
    store.add_at("a", at(1)).unwrap();
    assert_eq!(store.update_at(7, "b", at(2)).unwrap_err(), TaskError::NotFound);
    let tasks = store.filtered(None);
    assert_eq!(tasks.len(), 1);
    assert_eq!(tasks[0].description, "a");
    assert_eq!(tasks[0].updated_at, at(1));
}

#[test]
fn update_replaces_description_and_refreshes_time() {
    let mut store = TaskStore::new();
    store.add_at("a", at(1)).unwrap();
    let t = store.update_at(1, "b", at(9)).unwrap();
    assert_eq!(t.description, "b");
    assert_eq!(t.created_at, at(1));
    assert_eq!(t.updated_at, at(9));
}

#[test]
fn status_change_never_moves_time_back() {
    let mut store = TaskStore::new();
    store.add_at("a", at(100)).unwrap();
    let t = store.set_status_at(1, TaskStatus::Done, at(50)).unwrap();
    assert_eq!(t.status, TaskStatus::Done);
    assert_eq!(t.updated_at, at(100));
    assert_eq!(t.created_at, at(100));
    assert_eq!(t.description, "a");
    let t = store.set_status_at(1, TaskStatus::InProgress, at(200)).unwrap();
    assert_eq!(t.updated_at, at(200));
    assert_eq!(t.created_at, at(100));
}

#[test]
fn filter_keeps_order_and_status() {
    let mut store = TaskStore::new();
    for name in ["a", "b", "c", "d"] {
        store.add_at(name, at(1)).unwrap();
    }
    store.set_status_at(2, TaskStatus::Done, at(2)).unwrap();
    store.set_status_at(4, TaskStatus::Done, at(2)).unwrap();
    assert_eq!(ids(&store.filtered(Some(TaskStatus::Done))), vec![2, 4]);
    assert_eq!(ids(&store.filtered(Some(TaskStatus::Todo))), vec![1, 3]);
    assert!(store.filtered(Some(TaskStatus::InProgress)).is_empty());
    assert_eq!(ids(&store.filtered(None)), vec![1, 2, 3, 4]);
}

#[test]
fn round_trip_keeps_every_field() {
    let mut store = TaskStore::new();
    store.add_at("a", at(1)).unwrap();
    store.add_at("b", at(2)).unwrap();
    store.set_status_at(2, TaskStatus::Done, at(3)).unwrap();
    let before = store.filtered(None);
    let after = TaskStore::from_tasks(before.clone()).unwrap().filtered(None);
    assert_eq!(before.len(), after.len());
    for (x, y) in before.iter().zip(after.iter()) {
        assert_eq!(x.id, y.id);
        assert_eq!(x.status, y.status);
        assert_eq!(x.description, y.description);
        assert_eq!(x.created_at, y.created_at);
        assert_eq!(x.updated_at, y.updated_at);
    }
}

#[test]
fn invalid_records_are_corrupt_and_load_empty() {
    let t = |id: u32| Task {
        id,
        status: TaskStatus::Todo,
        description: "x".to_string(),
        created_at: at(1),
        updated_at: at(1),
    };
    assert_eq!(TaskStore::from_tasks(vec![t(2), t(1)]).err(), Some(TaskError::Corrupt));
    assert_eq!(TaskStore::from_tasks(vec![t(0)]).err(), Some(TaskError::Corrupt));
    let mut backwards = t(1);
    backwards.updated_at = at(0);
    assert_eq!(TaskStore::from_tasks(vec![backwards]).err(), Some(TaskError::Corrupt));
    assert!(TaskStore::load(Some(vec![t(1), t(1)])).filtered(None).is_empty());
    assert!(TaskStore::load(None).filtered(None).is_empty());
    let mut store = TaskStore::load(Some(vec![t(3), t(5)]));
    assert_eq!(store.add_at("n", at(2)).unwrap().id, 6);
}

#[test]
fn input_errors() {
    let mut store = TaskStore::new();
    assert_eq!(Task::add(&mut store, "").unwrap_err(), TaskError::InvalidInput);
    assert_eq!(Task::update(&mut store, 0, "x").unwrap_err(), TaskError::InvalidInput);
    assert_eq!(Task::delete(&mut store, 0).unwrap_err(), TaskError::InvalidInput);
    assert_eq!(Task::mark_done(&mut store, 0).unwrap_err(), TaskError::InvalidInput);
    assert_eq!(Task::delete(&mut store, 1).unwrap_err(), TaskError::NotFound);
    assert_eq!(Task::mark_done(&mut store, 1).unwrap_err(), TaskError::NotFound);
    assert_eq!(
        Task::list_tasks(&store, Some("later".to_string())).unwrap_err(),
        TaskError::InvalidInput
    );
    assert!(store.filtered(None).is_empty());
}

#[test]
fn ids_run_out_at_the_largest_u32() {
    let last = Task {
        id: u32::MAX,
        status: TaskStatus::Todo,
        description: "x".to_string(),
        created_at: at(1),
        updated_at: at(1),
    };
    let mut store = TaskStore::from_tasks(vec![last]).unwrap();
    assert_eq!(store.add_at("y", at(2)).unwrap_err(), TaskError::IdsExhausted);
    assert_eq!(store.filtered(None).len(), 1);
}

#[test]
fn status_tokens_ignore_case() {
    assert_eq!(TaskStatus::from_str("TODO"), Some(TaskStatus::Todo));
    assert_eq!(TaskStatus::from_str("In-Progress"), Some(TaskStatus::InProgress));
    assert_eq!(TaskStatus::from_str("done"), Some(TaskStatus::Done));
    assert_eq!(TaskStatus::from_str("in progress"), None);
    assert_eq!(TaskStatus::from_token("Done"), None);
    let mut store = TaskStore::new();
    Task::add(&mut store, "a").unwrap();
    Task::mark_done(&mut store, 1).unwrap();
    assert_eq!(ids(&Task::list_tasks(&store, Some("DONE".to_string())).unwrap()), vec![1]);
}

#[test]
fn status_labels() {
    assert_eq!(TaskStatus::InProgress.label(), "In Progress");
    assert_eq!(TaskStatus::Done.label(), "Done");
    assert_eq!(TaskStatus::Todo.label(), "To do");
}

#[test]
fn clock_stamps_are_ordered() {
    let mut store = TaskStore::new();
    let t = Task::add(&mut store, "a").unwrap();
    assert_eq!(t.created_at, t.updated_at);
    assert!(t.created_at.micros > 0);
    let u = Task::mark_done(&mut store, 1).unwrap();
    assert!(u.updated_at.micros >= t.updated_at.micros);
    assert_eq!(u.created_at, t.created_at);
}
