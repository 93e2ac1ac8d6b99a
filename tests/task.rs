use fizzbuzz::{ErrorKind, SchedulerError, Task, TaskState, TaskType, Timestamp};

#[test]
fn task_type_names_round_trip() {
    for t in [TaskType::Fizz, TaskType::Buzz, TaskType::FizzBuzz] {
        assert_eq!(TaskType::parse(t.name()), Ok(t));
    }
    assert_eq!(TaskType::Fizz.name(), "Fizz");
    assert_eq!(TaskType::Buzz.name(), "Buzz");
    assert_eq!(TaskType::FizzBuzz.name(), "FizzBuzz");
}

#[test]
fn task_state_names_round_trip() {
    for s in [TaskState::Waiting, TaskState::Claimed, TaskState::Complete] {
        assert_eq!(TaskState::parse(s.name()), Ok(s));
    }
    assert_eq!(TaskState::Waiting.name(), "Waiting");
    assert_eq!(TaskState::Claimed.name(), "Claimed");
    assert_eq!(TaskState::Complete.name(), "Complete");
}

#[test]
fn unknown_names_are_rejected() {
    assert_eq!(TaskType::parse("fizz").unwrap_err().kind, ErrorKind::InvalidTaskType);
    assert_eq!(TaskType::parse("").unwrap_err().kind, ErrorKind::InvalidTaskType);
    assert_eq!(TaskState::parse("Scheduled").unwrap_err().kind, ErrorKind::InvalidTaskState);
    assert_eq!(TaskState::parse("Waiting ").unwrap_err().kind, ErrorKind::InvalidTaskState);
}

#[test]
fn try_from_string_parses() {
    assert_eq!(TaskType::try_from("Buzz".to_string()), Ok(TaskType::Buzz));
    assert_eq!(TaskState::try_from("Claimed".to_string()), Ok(TaskState::Claimed));
    assert!(TaskType::try_from("Bazz".to_string()).is_err());
    assert!(TaskState::try_from("Done".to_string()).is_err());
}

#[test]
fn from_parts_builds_or_rejects() {
    let t = Task::from_parts("FizzBuzz", "Complete", 9, Timestamp { unix_nanos: 77 }).unwrap();
    assert_eq!(
        t,
        Task {
            typ: TaskType::FizzBuzz,
            status: TaskState::Complete,
            id: 9,
            time: Timestamp { unix_nanos: 77 }
        }
    );
    let bad_type = Task::from_parts("Foo", "Bar", 1, Timestamp { unix_nanos: 0 });
    assert_eq!(bad_type.unwrap_err().kind, ErrorKind::InvalidTaskType);
    let bad_state = Task::from_parts("Fizz", "Bar", 1, Timestamp { unix_nanos: 0 });
    assert_eq!(bad_state.unwrap_err().kind, ErrorKind::InvalidTaskState);
}

#[test]
fn error_messages() {
    assert_eq!(SchedulerError::new(ErrorKind::InvalidTaskType).msg(), "Invalid task type");
    assert_eq!(SchedulerError::new(ErrorKind::InvalidTaskState).msg(), "Invalid task state");
    assert_eq!(SchedulerError::new(ErrorKind::IdsExhausted).msg(), "No task ids left");
    assert_eq!(
        SchedulerError::new(ErrorKind::MalformedState).msg(),
        "Malformed task store state"
    );
}

#[test]
fn simulated_durations() {
    let t = |typ| Task { typ, status: TaskState::Claimed, id: 1, time: Timestamp { unix_nanos: 0 } };
    assert_eq!(t(TaskType::Fizz).nap_seconds(), 3);
    assert_eq!(t(TaskType::Buzz).nap_seconds(), 5);
    assert_eq!(t(TaskType::FizzBuzz).nap_seconds(), 0);
}

#[test]
fn eligibility_needs_waiting_and_due() {
    let now = Timestamp { unix_nanos: 100 };
    let t = |status, nanos| Task { typ: TaskType::Fizz, status, id: 1, time: Timestamp { unix_nanos: nanos } };
    assert!(t(TaskState::Waiting, 100).is_eligible(&now));
    assert!(t(TaskState::Waiting, 99).is_eligible(&now));
    assert!(!t(TaskState::Waiting, 101).is_eligible(&now));
    assert!(!t(TaskState::Claimed, 50).is_eligible(&now));
    assert!(!t(TaskState::Complete, 50).is_eligible(&now));
}

#[test]
fn schedule_order() {
    let t = |id, nanos| Task { typ: TaskType::Fizz, status: TaskState::Waiting, id, time: Timestamp { unix_nanos: nanos } };
    assert!(t(2, 1).runs_before(&t(1, 2)));
    assert!(t(1, 5).runs_before(&t(2, 5)));
    assert!(!t(2, 5).runs_before(&t(1, 5)));
    assert!(!t(1, 5).runs_before(&t(1, 5)));
    assert!(Timestamp { unix_nanos: 2 }.is_after(&Timestamp { unix_nanos: 1 }));
    assert!(!Timestamp { unix_nanos: 1 }.is_after(&Timestamp { unix_nanos: 1 }));
}
