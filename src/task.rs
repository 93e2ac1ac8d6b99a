use vstd::prelude::*;

verus! {

/// Identifier the store hands out to each task; never reused.
pub type TaskID = i32;

/// An instant, as nanoseconds since the Unix epoch (UTC).
#[derive(Clone, Copy, Debug, PartialEq, Eq, Structural)]
pub struct Timestamp {
    pub unix_nanos: i128,
}

impl Timestamp {
    /// True when `self` lies strictly later than `other`.
    pub fn is_after(&self, other: &Timestamp) -> (r: bool)
        ensures
            r == (self.unix_nanos > other.unix_nanos),
    {
        self.unix_nanos > other.unix_nanos
    }
}

/// What went wrong, for the errors the library itself reports.
#[derive(Clone, Copy, Debug, PartialEq, Eq, Structural)]
pub enum ErrorKind {
    InvalidTaskType,
    InvalidTaskState,
    IdsExhausted,
    MalformedState,
}

#[derive(Clone, Copy, Debug, PartialEq, Eq, Structural)]
pub struct SchedulerError {
    pub kind: ErrorKind,
}

impl SchedulerError {
    pub fn new(kind: ErrorKind) -> (r: SchedulerError)
        ensures
            r.kind == kind,
    {
        SchedulerError { kind }
    }

    /// Human-readable text for the error.
    pub fn msg(&self) -> (r: &'static str)
        ensures
            r@ == error_message(self.kind),
    {
        match self.kind {
            ErrorKind::InvalidTaskType => "Invalid task type",
            ErrorKind::InvalidTaskState => "Invalid task state",
            ErrorKind::IdsExhausted => "No task ids left",
            ErrorKind::MalformedState => "Malformed task store state",
        }
    }
}

pub open spec fn error_message(k: ErrorKind) -> Seq<char> {
    match k {
        ErrorKind::InvalidTaskType => "Invalid task type"@,
        ErrorKind::InvalidTaskState => "Invalid task state"@,
        ErrorKind::IdsExhausted => "No task ids left"@,
        ErrorKind::MalformedState => "Malformed task store state"@,
    }
}

/// The closed set of task kinds.
#[derive(Clone, Copy, Debug, PartialEq, Eq, Structural)]
pub enum TaskType {
    Fizz,
    Buzz,
    FizzBuzz,
}

/// Lifecycle of a task: `Waiting -> Claimed -> Complete`, never backwards.
#[derive(Clone, Copy, Debug, PartialEq, Eq, Structural)]
pub enum TaskState {
    Waiting,
    Claimed,
    Complete,
}

/// Canonical wire name of a task type.
pub open spec fn task_type_name(t: TaskType) -> Seq<char> {
    match t {
        TaskType::Fizz => "Fizz"@,
        TaskType::Buzz => "Buzz"@,
        TaskType::FizzBuzz => "FizzBuzz"@,
    }
}

/// Canonical wire name of a task state.
pub open spec fn task_state_name(s: TaskState) -> Seq<char> {
    match s {
        TaskState::Waiting => "Waiting"@,
        TaskState::Claimed => "Claimed"@,
        TaskState::Complete => "Complete"@,
    }
}

/// The task type whose canonical name is `s`; any other text is an error.
pub open spec fn type_from_name(s: Seq<char>) -> Result<TaskType, SchedulerError> {
    if s == "Fizz"@ {
        Ok(TaskType::Fizz)
    } else if s == "Buzz"@ {
        Ok(TaskType::Buzz)
    } else if s == "FizzBuzz"@ {
        Ok(TaskType::FizzBuzz)
    } else {
        Err(SchedulerError { kind: ErrorKind::InvalidTaskType })
    }
}

/// The task state whose canonical name is `s`; any other text is an error.
pub open spec fn state_from_name(s: Seq<char>) -> Result<TaskState, SchedulerError> {
    if s == "Waiting"@ {
        Ok(TaskState::Waiting)
    } else if s == "Claimed"@ {
        Ok(TaskState::Claimed)
    } else if s == "Complete"@ {
        Ok(TaskState::Complete)
    } else {
        Err(SchedulerError { kind: ErrorKind::InvalidTaskState })
    }
}

/// Seconds of simulated work each task type stands for.
pub open spec fn simulated_seconds(t: TaskType) -> u64 {
    match t {
        TaskType::Fizz => 3,
        TaskType::Buzz => 5,
        TaskType::FizzBuzz => 0,
    }
}

fn same_text(a: &str, b: &str) -> (r: bool)
    ensures
        r == (a@ == b@),
{
    a.to_owned() == b.to_owned()
}

impl TaskType {
    pub fn name(&self) -> (r: &'static str)
        ensures
            r@ == task_type_name(*self),
    {
        match self {
            TaskType::Fizz => "Fizz",
            TaskType::Buzz => "Buzz",
            TaskType::FizzBuzz => "FizzBuzz",
        }
    }

    /// Parses a canonical type name; unknown names are rejected.
    pub fn parse(s: &str) -> (r: Result<TaskType, SchedulerError>)
        ensures
            r == type_from_name(s@),
    {
        if same_text(s, "Fizz") {
            Ok(TaskType::Fizz)
        } else if same_text(s, "Buzz") {
            Ok(TaskType::Buzz)
        } else if same_text(s, "FizzBuzz") {
            Ok(TaskType::FizzBuzz)
        } else {
            Err(SchedulerError::new(ErrorKind::InvalidTaskType))
        }
    }
}

impl TaskState {
    pub fn name(&self) -> (r: &'static str)
        ensures
            r@ == task_state_name(*self),
    {
        match self {
            TaskState::Waiting => "Waiting",
            TaskState::Claimed => "Claimed",
            TaskState::Complete => "Complete",
        }
    }

    /// Parses a canonical state name; unknown names are rejected.
    pub fn parse(s: &str) -> (r: Result<TaskState, SchedulerError>)
        ensures
            r == state_from_name(s@),
    {
        if same_text(s, "Waiting") {
            Ok(TaskState::Waiting)
        } else if same_text(s, "Claimed") {
            Ok(TaskState::Claimed)
        } else if same_text(s, "Complete") {
            Ok(TaskState::Complete)
        } else {
            Err(SchedulerError::new(ErrorKind::InvalidTaskState))
        }
    }
}

impl TryFrom<String> for TaskType {
    type Error = SchedulerError;

    fn try_from(s: String) -> (r: Result<TaskType, SchedulerError>) {
        TaskType::parse(s.as_str())
    }
}

impl vstd::std_specs::convert::TryFromSpecImpl<String> for TaskType {
    open spec fn obeys_try_from_spec() -> bool {
        true
    }

    open spec fn try_from_spec(v: String) -> Result<TaskType, SchedulerError> {
        type_from_name(v@)
    }
}

impl TryFrom<String> for TaskState {
    type Error = SchedulerError;

    fn try_from(s: String) -> (r: Result<TaskState, SchedulerError>) {
        TaskState::parse(s.as_str())
    }
}

impl vstd::std_specs::convert::TryFromSpecImpl<String> for TaskState {
    open spec fn obeys_try_from_spec() -> bool {
        true
    }

    open spec fn try_from_spec(v: String) -> Result<TaskState, SchedulerError> {
        state_from_name(v@)
    }
}

/// A unit of schedulable work.
#[derive(Clone, Copy, Debug, PartialEq, Eq, Structural)]
pub struct Task {
    pub typ: TaskType,
    pub status: TaskState,
    pub id: TaskID,
    pub time: Timestamp,
}

/// Order in which pending tasks are served: earlier time first, then lower id.
pub open spec fn precedes(a: Task, b: Task) -> bool {
    a.time.unix_nanos < b.time.unix_nanos || (a.time.unix_nanos == b.time.unix_nanos && a.id
        < b.id)
}

impl Task {
    /// True when `self` is served before `other`.
    pub fn runs_before(&self, other: &Task) -> (r: bool)
        ensures
            r == precedes(*self, *other),
    {
        self.time.unix_nanos < other.time.unix_nanos || (self.time.unix_nanos
            == other.time.unix_nanos && self.id < other.id)
    }

    /// Builds a task from its stored fields, where type and state are kept
    /// by their canonical names; an unknown name is an error.
    pub fn from_parts(typ: &str, status: &str, id: TaskID, time: Timestamp) -> (r: Result<
        Task,
        SchedulerError,
    >)
        ensures
            r is Ok <==> type_from_name(typ@) is Ok && state_from_name(status@) is Ok,
            r matches Ok(t) ==> {
                &&& Ok::<TaskType, SchedulerError>(t.typ) == type_from_name(typ@)
                &&& Ok::<TaskState, SchedulerError>(t.status) == state_from_name(status@)
                &&& t.id == id
                &&& t.time == time
            },
            r matches Err(e) ==> if type_from_name(typ@) is Err {
                e.kind == ErrorKind::InvalidTaskType
            } else {
                e.kind == ErrorKind::InvalidTaskState
            },
    {
        let typ = match TaskType::parse(typ) {
            Ok(t) => t,
            Err(e) => return Err(e),
        };
        let status = match TaskState::parse(status) {
            Ok(s) => s,
            Err(e) => return Err(e),
        };
        Ok(Task { typ, status, id, time })
    }

    pub fn nap_seconds(&self) -> (r: u64)
        ensures
            r == simulated_seconds(self.typ),
    {
        match self.typ {
            TaskType::Fizz => 3,
            TaskType::Buzz => 5,
            TaskType::FizzBuzz => 0,
        }
    }

    /// True when the task may be claimed at `now`: it waits and its time has come.
    pub fn is_eligible(&self, now: &Timestamp) -> (r: bool)
        ensures
            r == (self.status == TaskState::Waiting && self.time.unix_nanos <= now.unix_nanos),
    {
        self.status == TaskState::Waiting && !self.time.is_after(now)
    }
}

/// What a client asks for when creating a task.
#[derive(Clone, Copy, Debug, PartialEq, Eq, Structural)]
pub struct CreateTaskRequest {
    pub typ: TaskType,
    pub time: Timestamp,
}

#[derive(Clone, Copy, Debug, PartialEq, Eq, Structural)]
pub struct CreateTaskResponse {
    pub id: TaskID,
}

/// The next pending task and when it is due.
#[derive(Clone, Copy, Debug, PartialEq, Eq, Structural)]
pub struct NextTaskTimeResponse {
    pub time: Timestamp,
    pub id: TaskID,
}

/// Optional filters of a listing; an absent filter admits everything.
#[derive(Clone, Copy, Debug, PartialEq, Eq, Structural)]
pub struct Filters {
    pub type_filter: Option<TaskType>,
    pub status_filter: Option<TaskState>,
}

impl Filters {
    pub open spec fn admits(self, t: Task) -> bool {
        &&& (self.type_filter matches Some(ty) ==> ty == t.typ)
        &&& (self.status_filter matches Some(st) ==> st == t.status)
    }

    pub fn matches(&self, t: &Task) -> (r: bool)
        ensures
            r == self.admits(*t),
    {
        let tmatch = match self.type_filter {
            Some(ty) => ty == t.typ,
            None => true,
        };
        let smatch = match self.status_filter {
            Some(st) => st == t.status,
            None => true,
        };
        tmatch && smatch
    }
}

} // verus!
