use vstd::prelude::*;

use crate::task::{NextTaskTimeResponse, Task, TaskID, Timestamp};

verus! {

/// Pause, in seconds, between unsuccessful or empty polls.
pub const BACKOFF_SECONDS: u64 = 1;

/// Where a worker stands in its polling cycle.
#[derive(Clone, Copy, Debug, PartialEq, Eq, Structural)]
pub enum WorkerState {
    Idle,
    CheckingNextTime,
    Deferring,
    Claiming { id: TaskID },
    Executing { task: Task },
    Completing { id: TaskID },
}

/// What the outside world reports back to the worker.
#[derive(Clone, Copy, Debug, PartialEq, Eq, Structural)]
pub enum WorkerEvent {
    /// The loop starts, or a backoff pause has ended.
    Wake,
    /// Asking for the next task failed (transport or store error).
    PeekFailed,
    /// No task is waiting.
    QueueEmpty,
    /// The next waiting task, and the worker's clock when it was seen.
    NextTask { next: NextTaskTimeResponse, now: Timestamp },
    /// The claim was refused: another worker won, or the task is gone.
    ClaimRejected,
    /// The claim succeeded; the task is ours.
    ClaimGranted { task: Task },
    /// The executor returned.
    Executed,
    /// The completion was sent, whether or not the store accepted it.
    CompletionSent,
}

/// What the worker asks the outside world to do next.
#[derive(Clone, Copy, Debug, PartialEq, Eq, Structural)]
pub enum WorkerAction {
    PeekNext,
    Wait { seconds: u64 },
    Claim { id: TaskID },
    Execute { task: Task },
    Complete { id: TaskID },
}

/// The events each state expects.
pub open spec fn accepts(state: WorkerState, event: WorkerEvent) -> bool {
    ||| (state is Idle || state is Deferring) && event is Wake
    ||| state is CheckingNextTime && (event is PeekFailed || event is QueueEmpty
        || event is NextTask)
    ||| state is Claiming && (event is ClaimRejected || event is ClaimGranted)
    ||| state is Executing && event is Executed
    ||| state is Completing && event is CompletionSent
}

pub open spec fn backoff() -> WorkerAction {
    WorkerAction::Wait { seconds: BACKOFF_SECONDS }
}

/// The decisions of a polling worker; the caller performs the actions.
#[derive(Clone, Copy, Debug)]
pub struct Worker {
    pub state: WorkerState,
}

impl Worker {
    pub fn new() -> (r: Worker)
        ensures
            r.state == WorkerState::Idle,
    {
        Worker { state: WorkerState::Idle }
    }

    /// Takes one event and returns the next action.
    ///
    /// Failed or empty polls, a task that is not yet due and a refused claim
    /// all lead to a backoff pause and then a new poll; a due task is claimed,
    /// a claimed task executed and then completed, and after completion the
    /// worker polls again at once. An event the current state does not expect
    /// is treated like a failed poll.
    pub fn step(&mut self, event: WorkerEvent) -> (r: WorkerAction)
        ensures
            !accepts(old(self).state, event) ==> final(self).state == WorkerState::Deferring && r
                == backoff(),
            accepts(old(self).state, event) ==> match event {
                WorkerEvent::Wake => final(self).state == WorkerState::CheckingNextTime && r
                    == WorkerAction::PeekNext,
                WorkerEvent::PeekFailed => final(self).state == WorkerState::Deferring && r
                    == backoff(),
                WorkerEvent::QueueEmpty => final(self).state == WorkerState::Deferring && r
                    == backoff(),
                WorkerEvent::NextTask { next, now } => if next.time.unix_nanos
                    > now.unix_nanos {
                    final(self).state == WorkerState::Deferring && r == backoff()
                } else {
                    &&& final(self).state == (WorkerState::Claiming { id: next.id })
                    &&& r == (WorkerAction::Claim { id: next.id })
                },
                WorkerEvent::ClaimRejected => final(self).state == WorkerState::Deferring && r
                    == backoff(),
                WorkerEvent::ClaimGranted { task } => {
                    &&& final(self).state == (WorkerState::Executing { task })
                    &&& r == (WorkerAction::Execute { task })
                },
                WorkerEvent::Executed => {
                    &&& old(self).state matches WorkerState::Executing { task }
                    &&& final(self).state == (WorkerState::Completing { id: task.id })
                    &&& r == (WorkerAction::Complete { id: task.id })
                },
                WorkerEvent::CompletionSent => final(self).state
                    == WorkerState::CheckingNextTime && r == WorkerAction::PeekNext,
            },
    {
        let (state, action) = match (self.state, event) {
            (WorkerState::Idle, WorkerEvent::Wake) | (WorkerState::Deferring, WorkerEvent::Wake) => (
                WorkerState::CheckingNextTime,
                WorkerAction::PeekNext,
            ),
            (WorkerState::CheckingNextTime, WorkerEvent::NextTask { next, now }) => {
                if next.time.is_after(&now) {
                    (WorkerState::Deferring, WorkerAction::Wait { seconds: BACKOFF_SECONDS })
                } else {
                    (WorkerState::Claiming { id: next.id }, WorkerAction::Claim { id: next.id })
                }
            },
            (WorkerState::Claiming { .. }, WorkerEvent::ClaimGranted { task }) => (
                WorkerState::Executing { task },
                WorkerAction::Execute { task },
            ),
            (WorkerState::Executing { task }, WorkerEvent::Executed) => (
                WorkerState::Completing { id: task.id },
                WorkerAction::Complete { id: task.id },
            ),
            (WorkerState::Completing { .. }, WorkerEvent::CompletionSent) => (
                WorkerState::CheckingNextTime,
                WorkerAction::PeekNext,
            ),
            _ => (WorkerState::Deferring, WorkerAction::Wait { seconds: BACKOFF_SECONDS }),
        };
        self.state = state;
        action
    }
}

} // verus!
