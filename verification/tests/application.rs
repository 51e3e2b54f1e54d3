use verco::action::{Action, ActionFuture, ActionResult};
use verco::application::Application;
use verco::task::{Poll, Task};

struct Leaf {
    pending_polls: u32,
    output: Result<String, String>,
}

fn ok(text: &str, pending_polls: u32) -> Leaf {
    Leaf { pending_polls, output: Ok(text.to_string()) }
}

fn failing(text: &str) -> Leaf {
    Leaf { pending_polls: 0, output: Err(text.to_string()) }
}

impl Task for Leaf {
    type Output = ActionResult;

    fn poll(&mut self) -> Poll<ActionResult> {
        if self.pending_polls == 0 {
            Poll::Ready(ActionResult(self.output.clone()))
        } else {
            self.pending_polls -= 1;
            Poll::Pending
        }
    }

    fn cancel(&mut self) {}
}

/// One round of the dispatcher, then one tick of the caller.
fn polled(app: &mut Application<Leaf>) -> Option<(Action, Result<String, String>)> {
    app.poll_tasks();
    app.poll_action_result().map(|(a, r)| (a, r.0))
}

#[test]
fn the_tick_only_drains() {
    let mut app = Application::new();
    app.run_action(ActionFuture { action: Action::Status, task: ok("clean", 0) });
    // The task is ready at its first poll, but the tick polls nothing.
    assert!(app.poll_action_result().is_none());
    assert!(app.poll_action_result().is_none());
    assert_eq!(app.task_count(), 1);
    app.poll_tasks();
    assert_eq!(app.task_count(), 0);
    let drained = app.poll_action_result().map(|(a, r)| (a, r.0));
    assert_eq!(drained, Some((Action::Status, Ok("clean".to_string()))));
    assert!(app.poll_action_result().is_none());
}

#[test]
fn the_tick_takes_one_result_at_a_time() {
    let mut app = Application::new();
    app.run_action(ActionFuture { action: Action::Pull, task: ok("pulled", 0) });
    app.run_action(ActionFuture { action: Action::Push, task: ok("pushed", 0) });
    app.poll_tasks();
    assert!(app.poll_action_result().is_some());
    assert!(app.poll_action_result().is_some());
    assert!(app.poll_action_result().is_none());
}

#[test]
fn first_request_gives_an_empty_success() {
    let mut app = Application::new();
    let last = app.run_action(ActionFuture { action: Action::Status, task: ok("clean", 0) });
    assert_eq!(last.0, Ok(String::new()));
    assert_eq!(app.task_count(), 1);
}

#[test]
fn result_is_reported_once_and_cached() {
    let mut app = Application::new();
    app.run_action(ActionFuture { action: Action::Log, task: ok("history", 1) });
    assert_eq!(polled(&mut app), None);
    assert_eq!(polled(&mut app), Some((Action::Log, Ok("history".to_string()))));
    assert_eq!(polled(&mut app), None);
    assert_eq!(app.task_count(), 0);
    let last = app.run_action(ActionFuture { action: Action::Log, task: ok("newer", 5) });
    assert_eq!(last.0, Ok("history".to_string()));
    let other = app.run_action(ActionFuture { action: Action::Status, task: ok("clean", 5) });
    assert_eq!(other.0, Ok(String::new()));
}

#[test]
fn failures_are_cached_as_failures() {
    let mut app = Application::new();
    app.run_action(ActionFuture { action: Action::Merge, task: failing("conflict") });
    assert_eq!(polled(&mut app), Some((Action::Merge, Err("conflict".to_string()))));
    let last = app.run_action(ActionFuture { action: Action::Merge, task: ok("merged", 0) });
    assert_eq!(last.0, Err("conflict".to_string()));
}

#[test]
fn asking_again_supersedes_the_run_before() {
    let mut app = Application::new();
    app.run_action(ActionFuture { action: Action::Fetch, task: ok("stale", 1) });
    app.run_action(ActionFuture { action: Action::Fetch, task: ok("fresh", 1) });
    assert_eq!(app.task_count(), 1);
    let mut seen = Vec::new();
    for _ in 0..5 {
        if let Some(r) = polled(&mut app) {
            seen.push(r);
        }
    }
    assert_eq!(seen, vec![(Action::Fetch, Ok("fresh".to_string()))]);
}

#[test]
fn one_task_per_action_and_one_result_per_tick() {
    let mut app = Application::new();
    app.run_action(ActionFuture { action: Action::Pull, task: ok("pulled", 0) });
    app.run_action(ActionFuture { action: Action::Push, task: ok("pushed", 0) });
    assert_eq!(app.task_count(), 2);
    let first = polled(&mut app);
    let second = polled(&mut app);
    assert_eq!(polled(&mut app), None);
    let mut both = vec![first.unwrap(), second.unwrap()];
    both.sort_by_key(|(a, _)| a.id());
    assert_eq!(
        both,
        vec![(Action::Pull, Ok("pulled".to_string())), (Action::Push, Ok("pushed".to_string()))]
    );
}

#[test]
fn stop_counts_the_tasks_it_cancels() {
    let mut app = Application::new();
    app.run_action(ActionFuture { action: Action::Pull, task: ok("pulled", 3) });
    app.run_action(ActionFuture { action: Action::Push, task: ok("pushed", 3) });
    assert_eq!(polled(&mut app), None);
    assert_eq!(app.stop(), 2);
    assert_eq!(app.task_count(), 0);
    assert_eq!(polled(&mut app), None);
}
