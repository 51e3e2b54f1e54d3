//! An engine for cancellable, pollable units of work: the task contract,
//! the parallel and serial combinators, the life cycle of a process-backed
//! task, and the table of live tasks that a dispatcher drives.

pub mod task;
pub mod composite;
pub mod action;
pub mod process;
pub mod worker;
pub mod application;
pub mod scroll_view;
pub mod input;
pub mod tui;
