use task_queue::protocol::{step, Action, Event, Phase};
use task_queue::store::Attempt;
use task_queue::task::{RawRow, StoreError, Task, TaskState, TaskType};

fn row(kind: &str) -> RawRow {
    RawRow {
        id: 3,
        kind: kind.to_string(),
        state: "Pending".to_string(),
        execution_time: 10,
        created_at: 5,
        updated_at: 5,
    }
}

fn task() -> Task {
    Task {
        id: 3,
        kind: TaskType::Fizz,
        execution_time: 10,
        state: TaskState::Pending,
        created_at: 5,
        updated_at: 5,
    }
}

#[test]
fn empty_select_commits_no_work() {
    let (p, a) = step(Phase::Selecting, &Event::Selected(None));
    assert_eq!(a, Action::Commit);
    let (p, a) = step(p, &Event::Committed);
    assert_eq!(p, Phase::Finished(Attempt::NoWork));
    assert_eq!(a, Action::Stop);
}

#[test]
fn successful_run_is_completed_and_committed() {
    let (p, a) = step(Phase::Selecting, &Event::Selected(Some(row("Fizz"))));
    assert_eq!(a, Action::Run(task()));
    let (p, a) = step(p, &Event::RunFinished(true));
    assert_eq!(a, Action::MarkCompleted(3));
    let (p, a) = step(p, &Event::Updated);
    assert_eq!(a, Action::Commit);
    let (p, a) = step(p, &Event::Committed);
    assert_eq!(p, Phase::Finished(Attempt::Completed(task())));
    assert_eq!(a, Action::Stop);
}

#[test]
fn failed_run_moves_to_rollback() {
    let (p, a) = step(Phase::Running(task()), &Event::RunFinished(false));
    assert_eq!(a, Action::Rollback);
    let (p, _) = step(p, &Event::RolledBack);
    assert_eq!(p, Phase::Finished(Attempt::RolledBack(task())));
}

#[test]
fn undecodable_row_rolls_back_with_decode_error() {
    let (p, a) = step(Phase::Selecting, &Event::Selected(Some(row("Fuzz"))));
    assert_eq!(a, Action::Rollback);
    let (p, a) = step(p, &Event::RolledBack);
    assert_eq!(p, Phase::Failed(StoreError::Decode));
    assert_eq!(a, Action::Stop);
}

#[test]
fn failure_before_commit_rolls_back() {
    let (p, a) = step(Phase::Completing(task()), &Event::Failed(StoreError::Connectivity));
    assert_eq!(p, Phase::Aborting(StoreError::Connectivity));
    assert_eq!(a, Action::Rollback);
    let (p, a) = step(Phase::Committing(Attempt::NoWork), &Event::Failed(StoreError::Connectivity));
    assert_eq!(p, Phase::Failed(StoreError::Connectivity));
    assert_eq!(a, Action::Stop);
}

#[test]
fn unfitting_event_changes_nothing() {
    let (p, a) = step(Phase::Selecting, &Event::Updated);
    assert_eq!(p, Phase::Selecting);
    assert_eq!(a, Action::Stop);
}
