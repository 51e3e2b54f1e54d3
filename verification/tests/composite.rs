use std::cell::Cell;
use std::rc::Rc;
use verco::action::{ActionAggregator, ActionResult};
use verco::composite::{parallel, serial, task_vec};
use verco::task::{Aggregator, Poll, Task};

/// A leaf that is pending for a number of polls and then hands out its
/// text. It counts its polls and cancellations where the test can see them.
struct Leaf {
    pending_polls: u32,
    output: Result<String, String>,
    polled: Rc<Cell<u32>>,
    cancelled: Rc<Cell<u32>>,
}

struct Probe {
    polled: Rc<Cell<u32>>,
    cancelled: Rc<Cell<u32>>,
}

fn leaf(output: Result<&str, &str>, pending_polls: u32) -> (Leaf, Probe) {
    let polled = Rc::new(Cell::new(0));
    let cancelled = Rc::new(Cell::new(0));
    let output = match output {
        Ok(text) => Ok(text.to_string()),
        Err(text) => Err(text.to_string()),
    };
    (
        Leaf { pending_polls, output, polled: polled.clone(), cancelled: cancelled.clone() },
        Probe { polled, cancelled },
    )
}

impl Task for Leaf {
    type Output = ActionResult;

    fn poll(&mut self) -> Poll<ActionResult> {
        self.polled.set(self.polled.get() + 1);
        if self.pending_polls == 0 {
            Poll::Ready(ActionResult(self.output.clone()))
        } else {
            self.pending_polls -= 1;
            Poll::Pending
        }
    }

    fn cancel(&mut self) {
        self.cancelled.set(self.cancelled.get() + 1);
    }
}

fn ready_text(p: Poll<ActionResult>) -> Option<Result<String, String>> {
    match p {
        Poll::Ready(r) => Some(r.0),
        Poll::Pending => None,
    }
}

/// Sums numbers, to show a rule other than the textual one.
struct Sum;

impl Aggregator<u32> for Sum {
    fn aggregate(&self, acc: &mut u32, next: &u32) {
        *acc = *acc * 10 + *next;
    }
}

struct Number(u32);

impl Task for Number {
    type Output = u32;

    fn poll(&mut self) -> Poll<u32> {
        Poll::Ready(self.0)
    }

    fn cancel(&mut self) {}
}

#[test]
fn task_vec_is_empty() {
    let tasks: Vec<Leaf> = task_vec();
    assert!(tasks.is_empty());
}

#[test]
fn parallel_of_two_successes_joins_with_newline() {
    let mut tasks = task_vec();
    tasks.push(leaf(Ok("a"), 0).0);
    tasks.push(leaf(Ok("b"), 0).0);
    let mut p = parallel(tasks, ActionAggregator);
    assert_eq!(ready_text(p.poll()), Some(Ok("a\nb".to_string())));
}

#[test]
fn parallel_keeps_child_order_whatever_finishes_first() {
    let mut tasks = task_vec();
    tasks.push(leaf(Ok("a"), 2).0);
    tasks.push(leaf(Ok("b"), 0).0);
    tasks.push(leaf(Ok("c"), 1).0);
    let mut p = parallel(tasks, ActionAggregator);
    assert_eq!(ready_text(p.poll()), None);
    assert_eq!(ready_text(p.poll()), None);
    assert_eq!(ready_text(p.poll()), Some(Ok("a\nb\nc".to_string())));
}

#[test]
fn parallel_is_pending_while_one_child_is() {
    let (a, pa) = leaf(Ok("a"), 0);
    let (b, pb) = leaf(Ok("b"), 3);
    let mut tasks = task_vec();
    tasks.push(a);
    tasks.push(b);
    let mut p = parallel(tasks, ActionAggregator);
    assert_eq!(ready_text(p.poll()), None);
    assert_eq!(ready_text(p.poll()), None);
    assert_eq!(ready_text(p.poll()), None);
    // The finished child is polled once and never again.
    assert_eq!(pa.polled.get(), 1);
    assert_eq!(pb.polled.get(), 3);
    assert_eq!(ready_text(p.poll()), Some(Ok("a\nb".to_string())));
    assert_eq!(pa.polled.get(), 1);
    assert_eq!(pb.polled.get(), 4);
}

#[test]
fn parallel_failure_dominates() {
    let mut tasks = task_vec();
    tasks.push(leaf(Ok("fine"), 0).0);
    tasks.push(leaf(Err("broken"), 0).0);
    tasks.push(leaf(Ok("fine too"), 0).0);
    let mut p = parallel(tasks, ActionAggregator);
    assert_eq!(ready_text(p.poll()), Some(Err("fine\nbroken\nfine too".to_string())));
}

#[test]
fn parallel_of_one_child_gives_its_output() {
    let mut tasks = task_vec();
    tasks.push(leaf(Err("alone"), 1).0);
    let mut p = parallel(tasks, ActionAggregator);
    assert_eq!(ready_text(p.poll()), None);
    assert_eq!(ready_text(p.poll()), Some(Err("alone".to_string())));
}

#[test]
fn parallel_cancel_skips_finished_children() {
    let (a, pa) = leaf(Ok("a"), 0);
    let (b, pb) = leaf(Ok("b"), 5);
    let mut tasks = task_vec();
    tasks.push(a);
    tasks.push(b);
    let mut p = parallel(tasks, ActionAggregator);
    assert_eq!(ready_text(p.poll()), None);
    p.cancel();
    assert_eq!(pa.cancelled.get(), 0);
    assert_eq!(pb.cancelled.get(), 1);
}

#[test]
fn parallel_cancel_before_any_poll_and_twice() {
    let (a, pa) = leaf(Ok("a"), 0);
    let (b, pb) = leaf(Ok("b"), 0);
    let mut tasks = task_vec();
    tasks.push(a);
    tasks.push(b);
    let mut p = parallel(tasks, ActionAggregator);
    p.cancel();
    p.cancel();
    assert_eq!(pa.polled.get(), 0);
    assert_eq!(pb.polled.get(), 0);
    assert_eq!(pa.cancelled.get(), 2);
    assert_eq!(pb.cancelled.get(), 2);
}

#[test]
fn serial_folds_in_order_and_failure_dominates() {
    let mut tasks = task_vec();
    tasks.push(leaf(Ok("one"), 0).0);
    tasks.push(leaf(Err("two"), 1).0);
    tasks.push(leaf(Ok("three"), 0).0);
    let mut s = serial(tasks, ActionAggregator);
    assert_eq!(ready_text(s.poll()), None);
    assert_eq!(ready_text(s.poll()), None);
    assert_eq!(ready_text(s.poll()), None);
    assert_eq!(ready_text(s.poll()), Some(Err("one\ntwo\nthree".to_string())));
}

#[test]
fn serial_polls_one_child_at_a_time() {
    let (a, pa) = leaf(Ok("a"), 2);
    let (b, pb) = leaf(Ok("b"), 0);
    let mut tasks = task_vec();
    tasks.push(a);
    tasks.push(b);
    let mut s = serial(tasks, ActionAggregator);
    assert_eq!(ready_text(s.poll()), None);
    assert_eq!(ready_text(s.poll()), None);
    assert_eq!((pa.polled.get(), pb.polled.get()), (2, 0));
    assert_eq!(ready_text(s.poll()), None);
    assert_eq!((pa.polled.get(), pb.polled.get()), (3, 0));
    assert_eq!(ready_text(s.poll()), Some(Ok("a\nb".to_string())));
    assert_eq!((pa.polled.get(), pb.polled.get()), (3, 1));
}

#[test]
fn serial_cancel_reaches_only_the_children_not_yet_done() {
    let (a, pa) = leaf(Ok("a"), 0);
    let (b, pb) = leaf(Ok("b"), 4);
    let (c, pc) = leaf(Ok("c"), 0);
    let mut tasks = task_vec();
    tasks.push(a);
    tasks.push(b);
    tasks.push(c);
    let mut s = serial(tasks, ActionAggregator);
    assert_eq!(ready_text(s.poll()), None);
    s.cancel();
    s.cancel();
    assert_eq!(pa.cancelled.get(), 0);
    assert_eq!(pb.cancelled.get(), 2);
    assert_eq!(pc.cancelled.get(), 2);
    assert_eq!(pc.polled.get(), 0);
}

#[test]
fn composites_nest() {
    let mut inner = task_vec();
    inner.push(leaf(Ok("b"), 1).0);
    inner.push(leaf(Ok("c"), 0).0);
    let mut first = task_vec();
    first.push(leaf(Ok("a"), 0).0);
    let mut outer = task_vec();
    outer.push(serial(first, ActionAggregator));
    outer.push(serial(inner, ActionAggregator));
    let mut p = parallel(outer, ActionAggregator);
    assert_eq!(ready_text(p.poll()), None);
    assert_eq!(ready_text(p.poll()), None);
    assert_eq!(ready_text(p.poll()), Some(Ok("a\nb\nc".to_string())));
}

#[test]
fn fold_is_from_the_left_with_the_first_as_seed() {
    let mut tasks = task_vec();
    tasks.push(Number(1));
    tasks.push(Number(2));
    tasks.push(Number(3));
    let mut p = parallel(tasks, Sum);
    match p.poll() {
        Poll::Ready(n) => assert_eq!(n, 123),
        Poll::Pending => panic!("all children were ready"),
    }
    let mut tasks = task_vec();
    tasks.push(Number(4));
    tasks.push(Number(5));
    tasks.push(Number(6));
    let mut s = serial(tasks, Sum);
    assert!(matches!(s.poll(), Poll::Pending));
    assert!(matches!(s.poll(), Poll::Pending));
    match s.poll() {
        Poll::Ready(n) => assert_eq!(n, 456),
        Poll::Pending => panic!("the last child was ready"),
    }
}
