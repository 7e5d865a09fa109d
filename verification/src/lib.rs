//! Verified core of a download queue that runs a bounded number of external
//! download processes at a time.
//!
//! The queue is a sequential state machine. Each entry point of
//! [`scheduler::Scheduler`] takes the event that happened (a submission, a
//! retry, a finished process, a fault, a new concurrency limit) and returns
//! the actions that the caller has to carry out, in order. The caller owns
//! everything that touches the outside: the processes, the durable copy of
//! the job table, the observers' channels.
//!
//! - [`job`], [`gate`], [`store`]: job records, the counter of admission
//!   slots, the job table.
//! - [`model`]: the queue as a mathematical value, one function per transition.
//! - [`scheduler`]: the executable queue, each method tied to its transition.
//! - [`laws`]: what holds across transitions, proved from the model. One
//!   slot is held for each downloading job, whatever happens.
//! - [`supervisor`], [`progress`], [`events`]: what the supervisor of one
//!   process decides, how progress lines are read, what observers are told.
//! - [`binaries`], [`install`], [`logs`], [`history`], [`desktop`]: the decisions of the
//!   shell around the queue, each as a function of plain values.

pub mod binaries;
pub mod desktop;
pub mod error;
pub mod events;
pub mod gate;
pub mod history;
pub mod install;
pub mod job;
pub mod laws;
pub mod lemmas;
pub mod logs;
pub mod model;
pub mod progress;
pub mod scheduler;
pub mod store;
pub mod supervisor;
pub mod text;
