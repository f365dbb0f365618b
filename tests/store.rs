use task_queue::store::{backlog, claim, commit, create, destroy, execute_task, list, read, rollback, Attempt, Connection};
use task_queue::task::{Filters, TaskState, TaskType};

const SEC: i64 = 1_000_000;

fn open() -> Connection {
    Connection::new("memory").unwrap()
}

#[test]
fn new_store_is_empty() {
    let c = open();
    assert!(list(&c, Filters::default()).unwrap().is_empty());
    assert_eq!(read(&c, 1).unwrap(), None);
}

#[test]
fn ids_are_assigned_in_order() {
    let mut c = open();
    assert_eq!(create(&mut c, TaskType::Fizz, 0, 0), Ok(1));
    assert_eq!(create(&mut c, TaskType::Buzz, 0, 0), Ok(2));
    destroy(&mut c, 2).unwrap();
    assert_eq!(create(&mut c, TaskType::Buzz, 0, 0), Ok(3));
}

#[test]
fn create_then_read_round_trip() {
    let mut c = open();
    let t = 1_700_000_000 * SEC;
    let now = t - 60 * SEC;
    let id = create(&mut c, TaskType::Buzz, t, now).unwrap();
    let task = read(&c, id).unwrap().unwrap();
    assert_eq!(task.id, id);
    assert_eq!(task.kind, TaskType::Buzz);
    assert_eq!(task.state, TaskState::Pending);
    assert_eq!(task.execution_time, t);
    assert_eq!(task.created_at, task.updated_at);
    assert_eq!(task.created_at, now);
}

#[test]
fn read_missing_is_none() {
    let mut c = open();
    create(&mut c, TaskType::Fizz, 0, 0).unwrap();
    assert_eq!(read(&c, 2).unwrap(), None);
    assert_eq!(read(&c, -1).unwrap(), None);
}

#[test]
fn destroy_twice_succeeds() {
    let mut c = open();
    let a = create(&mut c, TaskType::Fizz, 0, 0).unwrap();
    let b = create(&mut c, TaskType::Buzz, 0, 0).unwrap();
    assert_eq!(destroy(&mut c, a), Ok(()));
    let after_first = list(&c, Filters::default()).unwrap();
    assert_eq!(destroy(&mut c, a), Ok(()));
    assert_eq!(list(&c, Filters::default()).unwrap(), after_first);
    assert_eq!(read(&c, a).unwrap(), None);
    assert_eq!(read(&c, b).unwrap().unwrap().kind, TaskType::Buzz);
}

#[test]
fn destroy_absent_id_is_ok() {
    let mut c = open();
    assert_eq!(destroy(&mut c, 42), Ok(()));
}

fn mixed_store() -> Connection {
    let mut c = open();
    create(&mut c, TaskType::Fizz, 0, 0).unwrap();
    create(&mut c, TaskType::Buzz, 0, 0).unwrap();
    create(&mut c, TaskType::Fizz, 0, 0).unwrap();
    create(&mut c, TaskType::Buzz, 0, 0).unwrap();
    create(&mut c, TaskType::FizzBuzz, 0, 0).unwrap();
    // complete tasks 1 and 2 (earliest ids first at equal times)
    let a = claim(&mut c, 10).unwrap();
    commit(&mut c, a, 10);
    let b = claim(&mut c, 10).unwrap();
    commit(&mut c, b, 10);
    c
}

#[test]
fn list_by_kind_ignores_state() {
    let c = mixed_store();
    let fizz = list(&c, Filters { state: None, kind: Some(TaskType::Fizz) }).unwrap();
    let ids: Vec<i32> = fizz.iter().map(|t| t.id).collect();
    assert_eq!(ids, vec![1, 3]);
    assert!(fizz.iter().all(|t| t.kind == TaskType::Fizz));
    assert_eq!(fizz[0].state, TaskState::Completed);
    assert_eq!(fizz[1].state, TaskState::Pending);
}

#[test]
fn list_by_state_and_kind() {
    let c = mixed_store();
    let done_buzz = list(&c, Filters { state: Some(TaskState::Completed), kind: Some(TaskType::Buzz) }).unwrap();
    let ids: Vec<i32> = done_buzz.iter().map(|t| t.id).collect();
    assert_eq!(ids, vec![2]);
    let pending = list(&c, Filters { state: Some(TaskState::Pending), kind: None }).unwrap();
    let ids: Vec<i32> = pending.iter().map(|t| t.id).collect();
    assert_eq!(ids, vec![3, 4, 5]);
}

#[test]
fn list_without_filters_returns_everything() {
    let c = mixed_store();
    let all = list(&c, Filters::default()).unwrap();
    let ids: Vec<i32> = all.iter().map(|t| t.id).collect();
    assert_eq!(ids, vec![1, 2, 3, 4, 5]);
}

#[test]
fn future_task_is_not_claimed_until_due() {
    let mut c = open();
    let due = 100 * SEC;
    create(&mut c, TaskType::Fizz, due, 0).unwrap();
    assert!(claim(&mut c, due - 1).is_none());
    assert_eq!(execute_task(&mut c, due - 1, |_| true), Ok(Attempt::NoWork));
    assert_eq!(read(&c, 1).unwrap().unwrap().state, TaskState::Pending);
    let held = claim(&mut c, due).unwrap();
    assert_eq!(held.task().id, 1);
}

#[test]
fn concurrent_claims_take_one_task_once() {
    let mut c = open();
    create(&mut c, TaskType::Fizz, 0, 0).unwrap();
    let first = claim(&mut c, SEC);
    let second = claim(&mut c, SEC);
    let third = claim(&mut c, SEC);
    assert!(first.is_some());
    assert!(second.is_none());
    assert!(third.is_none());
    commit(&mut c, first.unwrap(), 2 * SEC);
    assert!(claim(&mut c, 3 * SEC).is_none());
    let t = read(&c, 1).unwrap().unwrap();
    assert_eq!(t.state, TaskState::Completed);
    assert_eq!(t.updated_at, 2 * SEC);
}

#[test]
fn claims_skip_held_rows() {
    let mut c = open();
    create(&mut c, TaskType::Fizz, 0, 0).unwrap();
    create(&mut c, TaskType::Buzz, 0, 0).unwrap();
    let a = claim(&mut c, SEC).unwrap();
    let b = claim(&mut c, SEC).unwrap();
    assert_eq!(a.task().id, 1);
    assert_eq!(b.task().id, 2);
    assert!(claim(&mut c, SEC).is_none());
}

#[test]
fn earliest_execution_time_is_claimed_first() {
    let mut c = open();
    create(&mut c, TaskType::Fizz, 30, 0).unwrap();
    create(&mut c, TaskType::Buzz, 10, 0).unwrap();
    create(&mut c, TaskType::FizzBuzz, 10, 0).unwrap();
    assert_eq!(claim(&mut c, 50).unwrap().task().id, 2);
    assert_eq!(claim(&mut c, 50).unwrap().task().id, 3);
    assert_eq!(claim(&mut c, 50).unwrap().task().id, 1);
}

#[test]
fn end_to_end_claim_and_execute() {
    let mut c = open();
    let now = 1_000 * SEC;
    let id = create(&mut c, TaskType::Fizz, now - SEC, now - 2 * SEC).unwrap();
    let mut seen = Vec::new();
    let r = execute_task(&mut c, now, |t| {
        seen.push(t.id);
        true
    });
    match r {
        Ok(Attempt::Completed(t)) => assert_eq!(t.id, id),
        other => panic!("unexpected attempt: {:?}", other),
    }
    assert_eq!(seen, vec![id]);
    let t = read(&c, id).unwrap().unwrap();
    assert_eq!(t.state, TaskState::Completed);
    assert!(t.updated_at > t.created_at);
    assert_eq!(execute_task(&mut c, now + SEC, |_| true), Ok(Attempt::NoWork));
}

#[test]
fn rollback_leaves_task_claimable() {
    let mut c = open();
    let id = create(&mut c, TaskType::Buzz, 0, 0).unwrap();
    let held = claim(&mut c, SEC).unwrap();
    rollback(&mut c, held);
    let t = read(&c, id).unwrap().unwrap();
    assert_eq!(t.state, TaskState::Pending);
    assert_eq!(t.updated_at, 0);
    let again = claim(&mut c, 2 * SEC).unwrap();
    assert_eq!(again.task().id, id);
}

#[test]
fn failed_run_rolls_back() {
    let mut c = open();
    let id = create(&mut c, TaskType::FizzBuzz, 0, 0).unwrap();
    let r = execute_task(&mut c, SEC, |_| false);
    match r {
        Ok(Attempt::RolledBack(t)) => assert_eq!(t.id, id),
        other => panic!("unexpected attempt: {:?}", other),
    }
    assert_eq!(read(&c, id).unwrap().unwrap().state, TaskState::Pending);
    assert!(matches!(execute_task(&mut c, SEC, |_| true), Ok(Attempt::Completed(_))));
}

#[test]
fn backlog_counts_ready_tasks() {
    let mut c = open();
    create(&mut c, TaskType::Fizz, 10, 0).unwrap();
    create(&mut c, TaskType::Buzz, 20, 0).unwrap();
    create(&mut c, TaskType::Fizz, 30, 0).unwrap();
    assert_eq!(backlog(&c, 5), 0);
    assert_eq!(backlog(&c, 20), 2);
    let held = claim(&mut c, 20).unwrap();
    assert_eq!(backlog(&c, 20), 2);
    commit(&mut c, held, 21);
    assert_eq!(backlog(&c, 30), 2);
}
