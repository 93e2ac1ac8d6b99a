//! A minimal job queue: typed, time-scheduled tasks, the compare-and-set
//! protocol by which at most one worker claims each of them, the order in
//! which pending tasks are served, and the decisions of a polling worker.

pub mod db;
pub mod task;
pub mod worker;

pub use task::{
    CreateTaskRequest, CreateTaskResponse, ErrorKind, Filters, NextTaskTimeResponse,
    SchedulerError, Task, TaskID, TaskState, TaskType, Timestamp,
};
