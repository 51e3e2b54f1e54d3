use std::cell::Cell;
use std::rc::Rc;
use verco::action::{ActionAggregator, ActionResult};
use verco::composite::{parallel, task_vec, ParallelTasks};
use verco::process::{CommandSpec, ProcessAction, ProcessEvent, ProcessState, Step};
use verco::task::{Poll, Task};
use verco::worker::{TaskOperation, Worker};

/// A process that exists only as a script: how often it is found alive,
/// then its exit status and what its streams hold.
struct FakeProcess {
    state: Option<ProcessState>,
    alive_checks: u32,
    success: bool,
    stdout: &'static str,
    stderr: &'static str,
    spawned: Rc<Cell<u32>>,
    killed: Rc<Cell<u32>>,
}

impl FakeProcess {
    fn new(alive_checks: u32, success: bool, stdout: &'static str, stderr: &'static str) -> Self {
        let command = CommandSpec { program: "vcs".to_string(), args: vec![] };
        FakeProcess {
            state: Some(ProcessState::new(command)),
            alive_checks,
            success,
            stdout,
            stderr,
            spawned: Rc::new(Cell::new(0)),
            killed: Rc::new(Cell::new(0)),
        }
    }

    fn perform(&mut self, action: ProcessAction) -> Option<ProcessEvent> {
        match action {
            ProcessAction::Spawn(_) => {
                self.spawned.set(self.spawned.get() + 1);
                Some(ProcessEvent::Spawned)
            }
            ProcessAction::CheckStatus => {
                if self.alive_checks > 0 {
                    self.alive_checks -= 1;
                    Some(ProcessEvent::StillRunning)
                } else {
                    Some(ProcessEvent::Exited(self.success))
                }
            }
            ProcessAction::ReadOutput => Some(ProcessEvent::Captured(self.stdout.to_string())),
            ProcessAction::ReadError => Some(ProcessEvent::Captured(self.stderr.to_string())),
            ProcessAction::Kill => {
                self.killed.set(self.killed.get() + 1);
                None
            }
        }
    }

    fn drive(&mut self, first: ProcessEvent) -> Poll<ActionResult> {
        let mut event = first;
        loop {
            let (next, step) = self.state.take().unwrap().step(event);
            self.state = Some(next);
            match step {
                Step::Perform(action) => match self.perform(action) {
                    Some(e) => event = e,
                    None => return Poll::Pending,
                },
                Step::Ready(output) => return Poll::Ready(output),
                Step::Rest => return Poll::Pending,
            }
        }
    }
}

impl Task for FakeProcess {
    type Output = ActionResult;

    fn poll(&mut self) -> Poll<ActionResult> {
        self.drive(ProcessEvent::Poll)
    }

    fn cancel(&mut self) {
        self.drive(ProcessEvent::Cancel);
    }
}

/// A leaf that is pending for a number of polls, then succeeds with a text.
struct Leaf {
    pending_polls: u32,
    text: &'static str,
    cancelled: Rc<Cell<u32>>,
}

impl Leaf {
    fn new(text: &'static str, pending_polls: u32) -> Self {
        Leaf { pending_polls, text, cancelled: Rc::new(Cell::new(0)) }
    }
}

impl Task for Leaf {
    type Output = ActionResult;

    fn poll(&mut self) -> Poll<ActionResult> {
        if self.pending_polls == 0 {
            Poll::Ready(ActionResult(Ok(self.text.to_string())))
        } else {
            self.pending_polls -= 1;
            Poll::Pending
        }
    }

    fn cancel(&mut self) {
        self.cancelled.set(self.cancelled.get() + 1);
    }
}

fn received<K: Task<Output = ActionResult>>(w: &mut Worker<K>) -> Option<(u64, Result<String, String>)> {
    w.receive_result().map(|(id, r)| (id, r.0))
}

#[test]
fn a_new_worker_is_idle() {
    let mut w: Worker<Leaf> = Worker::new();
    assert_eq!(w.task_count(), 0);
    assert_eq!(received(&mut w), None);
    w.poll_tasks();
    assert_eq!(w.task_count(), 0);
    assert_eq!(received(&mut w), None);
}

#[test]
fn process_success_is_delivered_with_its_output() {
    let mut w = Worker::new();
    w.send_task(7, FakeProcess::new(2, true, "ok\n", "unused"));
    assert_eq!(w.task_count(), 1);
    w.poll_tasks();
    assert_eq!(received(&mut w), None);
    w.poll_tasks();
    assert_eq!(received(&mut w), None);
    assert_eq!(w.task_count(), 1);
    w.poll_tasks();
    assert_eq!(w.task_count(), 0);
    assert_eq!(received(&mut w), Some((7, Ok("ok\n".to_string()))));
    assert_eq!(received(&mut w), None);
}

#[test]
fn process_failure_is_delivered_with_its_error_text() {
    let mut w = Worker::new();
    w.send_task(3, FakeProcess::new(0, false, "unused", "conflict"));
    w.poll_tasks();
    assert_eq!(received(&mut w), Some((3, Err("conflict".to_string()))));
    assert_eq!(w.task_count(), 0);
}

#[test]
fn parallel_of_two_leaves_is_delivered_joined() {
    let mut tasks = task_vec();
    tasks.push(Leaf::new("a", 0));
    tasks.push(Leaf::new("b", 0));
    let mut w: Worker<ParallelTasks<Leaf, ActionAggregator>> = Worker::new();
    w.send_task(1, parallel(tasks, ActionAggregator));
    w.poll_tasks();
    assert_eq!(received(&mut w), Some((1, Ok("a\nb".to_string()))));
}

#[test]
fn resubmit_supersedes_the_pending_task() {
    let first = Leaf::new("first", 1);
    let first_cancelled = first.cancelled.clone();
    let mut w = Worker::new();
    w.send_task(9, first);
    w.poll_tasks();
    assert_eq!(received(&mut w), None);
    w.send_task(9, Leaf::new("second", 2));
    assert_eq!(first_cancelled.get(), 1);
    assert_eq!(w.task_count(), 1);
    let mut seen = Vec::new();
    for _ in 0..6 {
        w.poll_tasks();
        while let Some(r) = received(&mut w) {
            seen.push(r);
        }
    }
    assert_eq!(seen, vec![(9, Ok("second".to_string()))]);
    assert_eq!(w.task_count(), 0);
}

#[test]
fn resubmit_right_away_supersedes() {
    let first = Leaf::new("first", 0);
    let first_cancelled = first.cancelled.clone();
    let mut w = Worker::new();
    w.send_task(9, first);
    w.send_task(9, Leaf::new("second", 0));
    assert_eq!(first_cancelled.get(), 1);
    w.poll_tasks();
    assert_eq!(received(&mut w), Some((9, Ok("second".to_string()))));
    assert_eq!(received(&mut w), None);
}

#[test]
fn cancel_of_an_unknown_identity_changes_nothing() {
    let mut w = Worker::new();
    w.send_task(1, Leaf::new("a", 5));
    w.send_task(2, Leaf::new("b", 5));
    assert_eq!(w.task_count(), 2);
    w.cancel_tasks_with_id(42);
    assert_eq!(w.task_count(), 2);
    let mut empty: Worker<Leaf> = Worker::new();
    empty.cancel_tasks_with_id(42);
    assert_eq!(empty.task_count(), 0);
}

#[test]
fn cancel_drops_the_task_without_a_result() {
    let task = Leaf::new("a", 0);
    let cancelled = task.cancelled.clone();
    let mut w = Worker::new();
    w.send_task(1, task);
    w.send_task(2, Leaf::new("b", 0));
    w.cancel_tasks_with_id(1);
    assert_eq!(cancelled.get(), 1);
    assert_eq!(w.task_count(), 1);
    w.cancel_tasks_with_id(1);
    assert_eq!(cancelled.get(), 1);
    w.poll_tasks();
    assert_eq!(received(&mut w), Some((2, Ok("b".to_string()))));
    assert_eq!(received(&mut w), None);
}

#[test]
fn cancelled_process_is_killed_and_not_spawned_again() {
    let task = FakeProcess::new(10, true, "out", "err");
    let spawned = task.spawned.clone();
    let killed = task.killed.clone();
    let mut w = Worker::new();
    w.send_task(5, task);
    w.poll_tasks();
    assert_eq!(spawned.get(), 1);
    w.cancel_tasks_with_id(5);
    assert_eq!(killed.get(), 1);
    assert_eq!(w.task_count(), 0);
    w.poll_tasks();
    assert_eq!(received(&mut w), None);
    assert_eq!(spawned.get(), 1);
}

#[test]
fn process_cancelled_before_its_first_poll_never_spawns() {
    let task = FakeProcess::new(0, true, "out", "err");
    let spawned = task.spawned.clone();
    let killed = task.killed.clone();
    let mut w = Worker::new();
    w.send_task(5, task);
    w.cancel_tasks_with_id(5);
    w.poll_tasks();
    assert_eq!(spawned.get(), 0);
    assert_eq!(killed.get(), 0);
    assert_eq!(received(&mut w), None);
}

#[test]
fn nothing_yet_while_tasks_are_pending() {
    let mut w = Worker::new();
    w.send_task(1, Leaf::new("a", 3));
    w.send_task(2, Leaf::new("b", 3));
    w.poll_tasks();
    assert_eq!(w.task_count(), 2);
    assert_eq!(received(&mut w), None);
}

#[test]
fn results_wait_in_the_order_they_were_produced() {
    let mut w = Worker::new();
    w.send_task(1, Leaf::new("slow", 1));
    w.send_task(2, Leaf::new("fast", 0));
    w.poll_tasks();
    w.poll_tasks();
    assert_eq!(received(&mut w), Some((2, Ok("fast".to_string()))));
    assert_eq!(received(&mut w), Some((1, Ok("slow".to_string()))));
    assert_eq!(received(&mut w), None);
}

#[test]
fn cancel_all_empties_the_table() {
    let a = Leaf::new("a", 1);
    let b = Leaf::new("b", 1);
    let (ca, cb) = (a.cancelled.clone(), b.cancelled.clone());
    let mut w = Worker::new();
    w.send_task(1, a);
    w.send_task(2, b);
    w.cancel_all_tasks();
    assert_eq!((ca.get(), cb.get()), (1, 1));
    assert_eq!(w.task_count(), 0);
    w.poll_tasks();
    assert_eq!(received(&mut w), None);
    w.cancel_all_tasks();
    assert_eq!((ca.get(), cb.get()), (1, 1));
}

#[test]
fn stop_cancels_what_is_live() {
    let a = Leaf::new("a", 1);
    let ca = a.cancelled.clone();
    let mut w = Worker::new();
    w.send_task(1, a);
    w.send_task(2, Leaf::new("b", 0));
    w.poll_tasks();
    assert_eq!(w.stop(), 1);
    assert_eq!(ca.get(), 1);
    assert_eq!(w.task_count(), 0);
    assert_eq!(received(&mut w), Some((2, Ok("b".to_string()))));
}

#[test]
fn a_cycle_applies_the_requests_in_order_then_polls_once() {
    let stale = Leaf::new("stale", 0);
    let dropped = Leaf::new("dropped", 0);
    let (c1, c2) = (stale.cancelled.clone(), dropped.cancelled.clone());
    let mut w = Worker::new();
    let (results, count) = w.run_cycle(vec![
        TaskOperation::Add(1, stale),
        TaskOperation::Add(1, Leaf::new("fresh", 0)),
        TaskOperation::Add(2, dropped),
        TaskOperation::Remove(2),
        TaskOperation::Add(3, Leaf::new("slow", 1)),
        TaskOperation::Remove(9),
    ]);
    assert_eq!((c1.get(), c2.get()), (1, 1));
    let results: Vec<_> = results.into_iter().map(|(id, r)| (id, r.0)).collect();
    assert_eq!(results, vec![(1, Ok("fresh".to_string()))]);
    assert_eq!(count, 1);
    assert_eq!(received(&mut w), None);
    let (results, count) = w.run_cycle(Vec::new());
    let results: Vec<_> = results.into_iter().map(|(id, r)| (id, r.0)).collect();
    assert_eq!(results, vec![(3, Ok("slow".to_string()))]);
    assert_eq!(count, 0);
}

#[test]
fn a_chain_of_sends_under_one_identity_delivers_the_last_alone() {
    let mut w = Worker::new();
    let mut probes = Vec::new();
    for text in ["one", "two", "three", "four"] {
        let task = Leaf::new(text, 1);
        probes.push(task.cancelled.clone());
        w.send_task(6, task);
        w.poll_tasks();
    }
    let cancelled: Vec<u32> = probes.iter().map(|p| p.get()).collect();
    assert_eq!(cancelled, vec![1, 1, 1, 0]);
    let mut seen = Vec::new();
    for _ in 0..4 {
        w.poll_tasks();
        while let Some(r) = received(&mut w) {
            seen.push(r);
        }
    }
    assert_eq!(seen, vec![(6, Ok("four".to_string()))]);
}

#[test]
fn operations_apply_in_the_order_given() {
    let first = Leaf::new("first", 0);
    let second = Leaf::new("second", 0);
    let (c1, c2) = (first.cancelled.clone(), second.cancelled.clone());
    let mut w = Worker::new();
    w.apply(TaskOperation::Add(4, first));
    w.apply(TaskOperation::Add(4, second));
    w.apply(TaskOperation::Remove(4));
    assert_eq!((c1.get(), c2.get()), (1, 1));
    assert_eq!(w.task_count(), 0);
    w.apply(TaskOperation::Add(4, Leaf::new("third", 0)));
    w.poll_tasks();
    assert_eq!(received(&mut w), Some((4, Ok("third".to_string()))));
}
