use vstd::prelude::*;
use crate::store::Attempt;
use crate::task::{RawRow, StoreError, Task, TaskState, TaskType, ID};

verus! {

/// Where one claim-and-execute attempt against a transactional backing store
/// stands. The attempt runs inside one transaction, opened before `Selecting`.
#[derive(Clone, Copy, Debug, PartialEq, Eq, Structural)]
pub enum Phase {
    /// The locking, skip-locked select of the next ready row is under way.
    Selecting,
    /// The row is held and its task is running.
    Running(Task),
    /// The task ran; the update that marks it completed is under way.
    Completing(Task),
    /// The commit is under way; it ends the attempt with this result.
    Committing(Attempt),
    /// The rollback after a failed run is under way; it ends the attempt with this result.
    RollingBack(Attempt),
    /// The rollback after a store failure is under way; it ends the attempt with this error.
    Aborting(StoreError),
    /// The transaction has ended with this result.
    Finished(Attempt),
    /// The transaction has ended with this error.
    Failed(StoreError),
}

/// What the backing store or the executor reported.
#[derive(Clone, Debug)]
pub enum Event {
    /// The select returned this row, or none.
    Selected(Option<RawRow>),
    /// The task's run ended, well or not.
    RunFinished(bool),
    /// The completion update went through.
    Updated,
    /// The commit went through.
    Committed,
    /// The rollback went through.
    RolledBack,
    /// A store operation failed.
    Failed(StoreError),
}

/// What to do next.
#[derive(Clone, Copy, Debug, PartialEq, Eq, Structural)]
pub enum Action {
    /// Run the task, holding the row.
    Run(Task),
    /// Mark the task with this id completed, inside the transaction.
    MarkCompleted(ID),
    /// Commit the transaction.
    Commit,
    /// Roll the transaction back.
    Rollback,
    /// Nothing more: the attempt is over.
    Stop,
}

/// Moves an attempt on by one event. A row that does not decode, a failed run,
/// and a failure before the commit all roll the transaction back, so a task is
/// never left half done; only a run that ended well leads to the completion
/// update and the commit. An event that does not fit the phase changes nothing.
pub fn step(phase: Phase, event: &Event) -> (r: (Phase, Action))
    ensures
        match (phase, *event) {
            (Phase::Selecting, Event::Selected(None)) => r == (Phase::Committing(Attempt::NoWork), Action::Commit),
            (Phase::Selecting, Event::Selected(Some(row))) => match (TaskType::parse(row.kind@), TaskState::parse(row.state@)) {
                (Some(k), Some(st)) => r == (
                    Phase::Running(Task::decoded(row, k, st)),
                    Action::Run(Task::decoded(row, k, st)),
                ),
                _ => r == (Phase::Aborting(StoreError::Decode), Action::Rollback),
            },
            (Phase::Running(t), Event::RunFinished(true)) => r == (Phase::Completing(t), Action::MarkCompleted(t.id)),
            (Phase::Running(t), Event::RunFinished(false)) => r == (
                Phase::RollingBack(Attempt::RolledBack(t)),
                Action::Rollback,
            ),
            (Phase::Completing(t), Event::Updated) => r == (Phase::Committing(Attempt::Completed(t)), Action::Commit),
            (Phase::Committing(a), Event::Committed) => r == (Phase::Finished(a), Action::Stop),
            (Phase::RollingBack(a), Event::RolledBack) => r == (Phase::Finished(a), Action::Stop),
            (Phase::Aborting(e), Event::RolledBack) => r == (Phase::Failed(e), Action::Stop),
            (Phase::Selecting, Event::Failed(e)) => r == (Phase::Aborting(e), Action::Rollback),
            (Phase::Running(_), Event::Failed(e)) => r == (Phase::Aborting(e), Action::Rollback),
            (Phase::Completing(_), Event::Failed(e)) => r == (Phase::Aborting(e), Action::Rollback),
            (Phase::Committing(_), Event::Failed(e)) => r == (Phase::Failed(e), Action::Stop),
            (Phase::RollingBack(_), Event::Failed(e)) => r == (Phase::Failed(e), Action::Stop),
            (Phase::Aborting(_), Event::Failed(e)) => r == (Phase::Failed(e), Action::Stop),
            _ => r == (phase, Action::Stop),
        },
{
    match (phase, event) {
        (Phase::Selecting, Event::Selected(None)) => (Phase::Committing(Attempt::NoWork), Action::Commit),
        (Phase::Selecting, Event::Selected(Some(row))) => match Task::try_from(row) {
            Ok(t) => (Phase::Running(t), Action::Run(t)),
            Err(e) => (Phase::Aborting(e), Action::Rollback),
        },
        (Phase::Running(t), Event::RunFinished(ok)) => {
            if *ok {
                (Phase::Completing(t), Action::MarkCompleted(t.id))
            } else {
                (Phase::RollingBack(Attempt::RolledBack(t)), Action::Rollback)
            }
        },
        (Phase::Completing(t), Event::Updated) => (Phase::Committing(Attempt::Completed(t)), Action::Commit),
        (Phase::Committing(a), Event::Committed) => (Phase::Finished(a), Action::Stop),
        (Phase::RollingBack(a), Event::RolledBack) => (Phase::Finished(a), Action::Stop),
        (Phase::Aborting(e), Event::RolledBack) => (Phase::Failed(e), Action::Stop),
        (Phase::Selecting, Event::Failed(e)) => (Phase::Aborting(*e), Action::Rollback),
        (Phase::Running(_), Event::Failed(e)) => (Phase::Aborting(*e), Action::Rollback),
        (Phase::Completing(_), Event::Failed(e)) => (Phase::Aborting(*e), Action::Rollback),
        (Phase::Committing(_), Event::Failed(e)) => (Phase::Failed(*e), Action::Stop),
        (Phase::RollingBack(_), Event::Failed(e)) => (Phase::Failed(*e), Action::Stop),
        (Phase::Aborting(_), Event::Failed(e)) => (Phase::Failed(*e), Action::Stop),
        _ => (phase, Action::Stop),
    }
}

} // verus!
