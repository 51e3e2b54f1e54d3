//! The life cycle of a task backed by one external process.
//!
//! The process itself lives with the caller. This module decides: given the
//! state of the task and what was just observed, it names the next state and
//! the outside work that is due, or the value that the poll under way gives.

use vstd::prelude::*;
use crate::action::ActionResult;

verus! {

/// A runnable command: the executable and its arguments.
pub struct CommandSpec {
    pub program: String,
    pub args: Vec<String>,
}

/// Where a process-backed task stands.
pub enum ProcessState {
    /// Nothing was spawned yet.
    Waiting(CommandSpec),
    /// The spawn was asked for and its result is awaited.
    Starting,
    /// The process was spawned and was alive when last looked at.
    Running,
    /// The exit status was asked for and is awaited.
    Checking,
    /// The process has exited, with success or not, and the captured text
    /// of the matching stream is awaited.
    Collecting(bool),
    /// The output was handed out.
    Finished,
    /// The task was told to stop.
    Cancelled,
}

/// What the owner of the process reports.
pub enum ProcessEvent {
    /// The task is polled.
    Poll,
    /// The task is told to stop.
    Cancel,
    /// The process was spawned, its input stream closed.
    Spawned,
    /// The process could not be spawned.
    SpawnFailed(String),
    /// The process has not exited.
    StillRunning,
    /// The process has exited, with a success status or not.
    Exited(bool),
    /// The exit status could not be had.
    StatusFailed(String),
    /// The stream that was asked for, read to its end.
    Captured(String),
    /// The stream that was asked for could not be read.
    CaptureFailed(String),
}

/// Outside work that the task asks of the owner of the process.
pub enum ProcessAction {
    /// Spawn the command with its three streams piped, and close its input.
    Spawn(CommandSpec),
    /// Look for the exit status without waiting for it.
    CheckStatus,
    /// Read all of the standard output.
    ReadOutput,
    /// Read all of the standard error.
    ReadError,
    /// Send the process a kill signal and do not wait for it.
    Kill,
}

/// What follows an event.
pub enum Step {
    /// This work is due now, and its result is the next event.
    Perform(ProcessAction),
    /// The poll under way ends with this output.
    Ready(ActionResult),
    /// Nothing is due. A poll under way ends pending.
    Rest,
}

/// The stream to read after an exit: the output on success, else the error.
pub open spec fn capture_for(success: bool) -> ProcessAction {
    if success {
        ProcessAction::ReadOutput
    } else {
        ProcessAction::ReadError
    }
}

/// The output of a process that exited with `success` and wrote `text` to
/// the stream read for it.
pub open spec fn exit_output(success: bool, text: String) -> ActionResult {
    if success {
        ActionResult(Ok(text))
    } else {
        ActionResult(Err(text))
    }
}

impl ProcessState {
    /// The state after `event`, and what follows it. An event that the
    /// state does not await changes nothing and asks for nothing.
    pub open spec fn transition(self, event: ProcessEvent) -> (ProcessState, Step) {
        match (self, event) {
            (ProcessState::Waiting(command), ProcessEvent::Poll) => (
                ProcessState::Starting,
                Step::Perform(ProcessAction::Spawn(command)),
            ),
            (ProcessState::Waiting(_), ProcessEvent::Cancel) => (ProcessState::Cancelled, Step::Rest),
            (ProcessState::Starting, ProcessEvent::Spawned) => (
                ProcessState::Checking,
                Step::Perform(ProcessAction::CheckStatus),
            ),
            (ProcessState::Starting, ProcessEvent::SpawnFailed(why)) => (
                ProcessState::Finished,
                Step::Ready(ActionResult(Err(why))),
            ),
            (ProcessState::Starting, ProcessEvent::Cancel) => (ProcessState::Cancelled, Step::Rest),
            (ProcessState::Running, ProcessEvent::Poll) => (
                ProcessState::Checking,
                Step::Perform(ProcessAction::CheckStatus),
            ),
            (ProcessState::Running, ProcessEvent::Cancel) => (
                ProcessState::Cancelled,
                Step::Perform(ProcessAction::Kill),
            ),
            (ProcessState::Checking, ProcessEvent::StillRunning) => (ProcessState::Running, Step::Rest),
            (ProcessState::Checking, ProcessEvent::Exited(success)) => (
                ProcessState::Collecting(success),
                Step::Perform(capture_for(success)),
            ),
            (ProcessState::Checking, ProcessEvent::StatusFailed(why)) => (
                ProcessState::Finished,
                Step::Ready(ActionResult(Err(why))),
            ),
            (ProcessState::Checking, ProcessEvent::Cancel) => (
                ProcessState::Cancelled,
                Step::Perform(ProcessAction::Kill),
            ),
            (ProcessState::Collecting(success), ProcessEvent::Captured(text)) => (
                ProcessState::Finished,
                Step::Ready(exit_output(success, text)),
            ),
            (ProcessState::Collecting(_), ProcessEvent::CaptureFailed(why)) => (
                ProcessState::Finished,
                Step::Ready(ActionResult(Err(why))),
            ),
            (ProcessState::Collecting(_), ProcessEvent::Cancel) => (
                ProcessState::Cancelled,
                Step::Perform(ProcessAction::Kill),
            ),
            (state, _) => (state, Step::Rest),
        }
    }

    /// A task for `command`, with nothing spawned.
    pub fn new(command: CommandSpec) -> (s: ProcessState)
        ensures
            s == ProcessState::Waiting(command),
    {
        ProcessState::Waiting(command)
    }

    /// Takes one event: gives the next state and what follows.
    pub fn step(self, event: ProcessEvent) -> (r: (ProcessState, Step))
        ensures
            r == self.transition(event),
    {
        match self {
            ProcessState::Waiting(command) => match event {
                ProcessEvent::Poll => (
                    ProcessState::Starting,
                    Step::Perform(ProcessAction::Spawn(command)),
                ),
                ProcessEvent::Cancel => (ProcessState::Cancelled, Step::Rest),
                _ => (ProcessState::Waiting(command), Step::Rest),
            },
            ProcessState::Starting => match event {
                ProcessEvent::Spawned => (
                    ProcessState::Checking,
                    Step::Perform(ProcessAction::CheckStatus),
                ),
                ProcessEvent::SpawnFailed(why) => (
                    ProcessState::Finished,
                    Step::Ready(ActionResult(Err(why))),
                ),
                ProcessEvent::Cancel => (ProcessState::Cancelled, Step::Rest),
                _ => (ProcessState::Starting, Step::Rest),
            },
            ProcessState::Running => match event {
                ProcessEvent::Poll => (
                    ProcessState::Checking,
                    Step::Perform(ProcessAction::CheckStatus),
                ),
                ProcessEvent::Cancel => (
                    ProcessState::Cancelled,
                    Step::Perform(ProcessAction::Kill),
                ),
                _ => (ProcessState::Running, Step::Rest),
            },
            ProcessState::Checking => match event {
                ProcessEvent::StillRunning => (ProcessState::Running, Step::Rest),
                ProcessEvent::Exited(success) => {
                    let read = if success {
                        ProcessAction::ReadOutput
                    } else {
                        ProcessAction::ReadError
                    };
                    (ProcessState::Collecting(success), Step::Perform(read))
                },
                ProcessEvent::StatusFailed(why) => (
                    ProcessState::Finished,
                    Step::Ready(ActionResult(Err(why))),
                ),
                ProcessEvent::Cancel => (
                    ProcessState::Cancelled,
                    Step::Perform(ProcessAction::Kill),
                ),
                _ => (ProcessState::Checking, Step::Rest),
            },
            ProcessState::Collecting(success) => match event {
                ProcessEvent::Captured(text) => {
                    let output = if success {
                        ActionResult(Ok(text))
                    } else {
                        ActionResult(Err(text))
                    };
                    (ProcessState::Finished, Step::Ready(output))
                },
                ProcessEvent::CaptureFailed(why) => (
                    ProcessState::Finished,
                    Step::Ready(ActionResult(Err(why))),
                ),
                ProcessEvent::Cancel => (
                    ProcessState::Cancelled,
                    Step::Perform(ProcessAction::Kill),
                ),
                _ => (ProcessState::Collecting(success), Step::Rest),
            },
            ProcessState::Finished => (ProcessState::Finished, Step::Rest),
            ProcessState::Cancelled => (ProcessState::Cancelled, Step::Rest),
        }
    }

    /// A spawn is asked for only by the poll of a task that has spawned
    /// nothing, and that task then leaves the waiting state.
    pub proof fn lemma_spawn_leaves_waiting(self, event: ProcessEvent)
        requires
            self.transition(event).1 matches Step::Perform(ProcessAction::Spawn(_)),
        ensures
            self is Waiting,
            event is Poll,
            self.transition(event).1 == Step::Perform(ProcessAction::Spawn(self->Waiting_0)),
            !(self.transition(event).0 is Waiting),
    {
    }

    /// No event brings a task back to the waiting state: with the lemma
    /// above, a task spawns at most one process.
    pub proof fn lemma_waiting_not_reentered(self, event: ProcessEvent)
        requires
            self.transition(event).0 is Waiting,
        ensures
            self is Waiting,
            self.transition(event) == (self, Step::Rest),
    {
    }

    /// A request to stop leaves a task cancelled, unless it had handed out
    /// its output. A second request then changes nothing and asks for
    /// nothing, whatever the state before the first.
    pub proof fn lemma_cancel_idempotent(self)
        ensures
            self.transition(ProcessEvent::Cancel).0 == if self is Finished {
                ProcessState::Finished
            } else {
                ProcessState::Cancelled
            },
            self.transition(ProcessEvent::Cancel).0.transition(ProcessEvent::Cancel) == (
                self.transition(ProcessEvent::Cancel).0,
                Step::Rest,
            ),
    {
    }

    /// A cancelled task stays cancelled and asks for nothing more: it
    /// spawns nothing, kills nothing and hands out no output.
    pub proof fn lemma_cancelled_is_final(event: ProcessEvent)
        ensures
            ProcessState::Cancelled.transition(event) == (ProcessState::Cancelled, Step::Rest),
    {
    }

    /// A task that is told to stop before its first poll never asks for a
    /// spawn, and no process has to be killed for it.
    pub proof fn lemma_cancel_before_poll(command: CommandSpec, later: ProcessEvent)
        ensures
            ProcessState::Waiting(command).transition(ProcessEvent::Cancel) == (
                ProcessState::Cancelled,
                Step::Rest,
            ),
            ProcessState::Waiting(command).transition(ProcessEvent::Cancel).0.transition(later).1
                == Step::Rest,
    {
    }

    /// The run of a command that succeeds: the first poll spawns it, its
    /// exit with success has the standard output read, and the text read
    /// is handed out as a success, whole and unchanged. However often the
    /// process is found alive in between, the waiting poll ends pending
    /// and the next one looks again.
    pub proof fn lemma_success_run(command: CommandSpec, text: String)
        ensures
            ({
                let (s1, a1) = ProcessState::Waiting(command).transition(ProcessEvent::Poll);
                let (s2, a2) = s1.transition(ProcessEvent::Spawned);
                let (s3, a3) = s2.transition(ProcessEvent::Exited(true));
                let (s4, a4) = s3.transition(ProcessEvent::Captured(text));
                &&& a1 == Step::Perform(ProcessAction::Spawn(command))
                &&& a2 == Step::Perform(ProcessAction::CheckStatus)
                &&& a3 == Step::Perform(ProcessAction::ReadOutput)
                &&& a4 == Step::Ready(ActionResult(Ok(text)))
                &&& s4 == ProcessState::Finished
                &&& s2.transition(ProcessEvent::StillRunning) == (ProcessState::Running, Step::Rest)
                &&& ProcessState::Running.transition(ProcessEvent::Poll) == (s2, a2)
            }),
    {
    }

    /// The run of a command that fails: its exit without success has the
    /// standard error read, and the text read is handed out as a failure,
    /// whole and unchanged.
    pub proof fn lemma_failure_run(command: CommandSpec, text: String)
        ensures
            ({
                let (s1, a1) = ProcessState::Waiting(command).transition(ProcessEvent::Poll);
                let (s2, a2) = s1.transition(ProcessEvent::Spawned);
                let (s3, a3) = s2.transition(ProcessEvent::Exited(false));
                let (s4, a4) = s3.transition(ProcessEvent::Captured(text));
                &&& a1 == Step::Perform(ProcessAction::Spawn(command))
                &&& a2 == Step::Perform(ProcessAction::CheckStatus)
                &&& a3 == Step::Perform(ProcessAction::ReadError)
                &&& a4 == Step::Ready(ActionResult(Err(text)))
                &&& s4 == ProcessState::Finished
            }),
    {
    }

    /// A failure to spawn, to get the status or to read the stream ends the
    /// task with the failure's text as a failed output.
    pub proof fn lemma_failures_are_outputs(why: String, success: bool)
        ensures
            ProcessState::Starting.transition(ProcessEvent::SpawnFailed(why)) == (
                ProcessState::Finished,
                Step::Ready(ActionResult(Err(why))),
            ),
            ProcessState::Checking.transition(ProcessEvent::StatusFailed(why)) == (
                ProcessState::Finished,
                Step::Ready(ActionResult(Err(why))),
            ),
            ProcessState::Collecting(success).transition(ProcessEvent::CaptureFailed(why)) == (
                ProcessState::Finished,
                Step::Ready(ActionResult(Err(why))),
            ),
    {
    }

    /// Telling a task with a spawned process to stop asks once for the
    /// process to be killed and hands out nothing. Told again, the task asks
    /// for no second kill.
    pub proof fn lemma_cancel_running()
        ensures
            ProcessState::Running.transition(ProcessEvent::Cancel) == (
                ProcessState::Cancelled,
                Step::Perform(ProcessAction::Kill),
            ),
            ProcessState::Running.transition(ProcessEvent::Cancel).0.transition(ProcessEvent::Cancel) == (
                ProcessState::Cancelled,
                Step::Rest,
            ),
    {
    }

    /// Once the output was handed out, nothing more follows.
    pub proof fn lemma_finished_is_final(event: ProcessEvent)
        ensures
            ProcessState::Finished.transition(event) == (ProcessState::Finished, Step::Rest),
    {
    }

    /// An output is handed out exactly on the way into the finished state,
    /// and a kill is asked for exactly when a spawned process is told to stop.
    pub proof fn lemma_outcomes(self, event: ProcessEvent)
        ensures
            self.transition(event).1 is Ready <==> (!(self is Finished) && self.transition(
                event,
            ).0 is Finished),
            self.transition(event).1 == Step::Perform(ProcessAction::Kill) <==> (event is Cancel && (
                self is Running || self is Checking || self is Collecting)),
    {
    }
}

} // verus!
