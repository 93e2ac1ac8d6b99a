use fizzbuzz::db::{claim_task, complete_task, create_task, get_task, next_task_time, State};
use fizzbuzz::worker::{Worker, WorkerAction, WorkerEvent, WorkerState, BACKOFF_SECONDS};
use fizzbuzz::{CreateTaskRequest, TaskState, TaskType, Timestamp};

const SECOND: i128 = 1_000_000_000;

fn peek_event(store: &State, now: Timestamp) -> WorkerEvent {
    match next_task_time(store) {
        Some(next) => WorkerEvent::NextTask { next, now },
        None => WorkerEvent::QueueEmpty,
    }
}

fn claim_event(store: &mut State, id: i32) -> WorkerEvent {
    match claim_task(store, id) {
        Some(task) => WorkerEvent::ClaimGranted { task },
        None => WorkerEvent::ClaimRejected,
    }
}

#[test]
fn due_task_is_claimed_executed_and_completed() {
    let now = Timestamp { unix_nanos: 1_000 * SECOND };
    let mut store = State::new();
    let id = create_task(
        &mut store,
        CreateTaskRequest { typ: TaskType::Fizz, time: Timestamp { unix_nanos: now.unix_nanos - SECOND } },
    )
    .unwrap();
    let mut w = Worker::new();
    assert_eq!(w.step(WorkerEvent::Wake), WorkerAction::PeekNext);
    let ev = peek_event(&store, now);
    assert_eq!(w.step(ev), WorkerAction::Claim { id });
    let ev = claim_event(&mut store, id);
    assert_eq!(get_task(&store, id).unwrap().status, TaskState::Claimed);
    let task = match w.step(ev) {
        WorkerAction::Execute { task } => task,
        other => panic!("expected execution, got {:?}", other),
    };
    assert_eq!(task.id, id);
    assert_eq!(task.nap_seconds(), 3);
    assert_eq!(w.step(WorkerEvent::Executed), WorkerAction::Complete { id });
    assert!(complete_task(&mut store, id).is_some());
    assert_eq!(w.step(WorkerEvent::CompletionSent), WorkerAction::PeekNext);
    assert_eq!(w.state, WorkerState::CheckingNextTime);
    assert_eq!(get_task(&store, id).unwrap().status, TaskState::Complete);
}

#[test]
fn future_task_is_deferred() {
    let now = Timestamp { unix_nanos: 5_000 * SECOND };
    let mut store = State::new();
    let id = create_task(
        &mut store,
        CreateTaskRequest { typ: TaskType::Buzz, time: Timestamp { unix_nanos: now.unix_nanos + 3_600 * SECOND } },
    )
    .unwrap();
    let mut w = Worker::new();
    w.step(WorkerEvent::Wake);
    let ev = peek_event(&store, now);
    assert!(matches!(ev, WorkerEvent::NextTask { next, .. } if next.id == id));
    assert_eq!(w.step(ev), WorkerAction::Wait { seconds: BACKOFF_SECONDS });
    assert_eq!(w.state, WorkerState::Deferring);
    assert_eq!(get_task(&store, id).unwrap().status, TaskState::Waiting);
    assert_eq!(w.step(WorkerEvent::Wake), WorkerAction::PeekNext);
}

#[test]
fn two_workers_race_for_one_task() {
    let now = Timestamp { unix_nanos: 10 * SECOND };
    let mut store = State::new();
    let id = create_task(
        &mut store,
        CreateTaskRequest { typ: TaskType::FizzBuzz, time: Timestamp { unix_nanos: now.unix_nanos } },
    )
    .unwrap();
    let mut w1 = Worker::new();
    let mut w2 = Worker::new();
    w1.step(WorkerEvent::Wake);
    w2.step(WorkerEvent::Wake);
    let e1 = peek_event(&store, now);
    let e2 = peek_event(&store, now);
    assert_eq!(w1.step(e1), WorkerAction::Claim { id });
    assert_eq!(w2.step(e2), WorkerAction::Claim { id });
    let r1 = claim_event(&mut store, id);
    let r2 = claim_event(&mut store, id);
    assert!(matches!(w1.step(r1), WorkerAction::Execute { .. }));
    assert_eq!(r2, WorkerEvent::ClaimRejected);
    assert_eq!(w2.step(r2), WorkerAction::Wait { seconds: BACKOFF_SECONDS });
    assert_eq!(w2.step(WorkerEvent::Wake), WorkerAction::PeekNext);
    assert_eq!(peek_event(&store, now), WorkerEvent::QueueEmpty);
    assert_eq!(w2.step(WorkerEvent::QueueEmpty), WorkerAction::Wait { seconds: BACKOFF_SECONDS });
}

#[test]
fn failed_peek_backs_off() {
    let mut w = Worker::new();
    w.step(WorkerEvent::Wake);
    assert_eq!(w.step(WorkerEvent::PeekFailed), WorkerAction::Wait { seconds: 1 });
    assert_eq!(w.state, WorkerState::Deferring);
}

#[test]
fn unexpected_event_backs_off() {
    let mut w = Worker::new();
    assert_eq!(w.step(WorkerEvent::Executed), WorkerAction::Wait { seconds: BACKOFF_SECONDS });
    assert_eq!(w.state, WorkerState::Deferring);
}

#[test]
fn failed_completion_still_polls_again() {
    let mut store = State::new();
    let now = Timestamp { unix_nanos: 0 };
    let id = create_task(&mut store, CreateTaskRequest { typ: TaskType::Fizz, time: now }).unwrap();
    let mut w = Worker::new();
    w.step(WorkerEvent::Wake);
    let ev = peek_event(&store, now);
    w.step(ev);
    let ev = claim_event(&mut store, id);
    w.step(ev);
    w.step(WorkerEvent::Executed);
    assert_eq!(w.step(WorkerEvent::CompletionSent), WorkerAction::PeekNext);
    assert_eq!(get_task(&store, id).unwrap().status, TaskState::Claimed);
}
