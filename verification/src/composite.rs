//! Tasks built from child tasks: all at once, or one after the other.

use vstd::prelude::*;
use crate::task::{Poll, Task, Aggregator, folds_to, is_fold_trace, outcomes, all_done, all_fresh};
use crate::worker::Worker;

verus! {

/// An empty list of tasks, to be filled and handed to a combinator.
pub fn task_vec<K: Task>() -> (v: Vec<K>)
    ensures
        v@.len() == 0,
{
    Vec::new()
}

/// Children that advance side by side.
pub struct ParallelTasks<K: Task, A: Aggregator<K::Output>> {
    tasks: Vec<K>,
    cached_results: Vec<Option<K::Output>>,
    aggregator: A,
    yielded: Ghost<Option<K::Output>>,
    stopped: Ghost<bool>,
}

impl<K: Task, A: Aggregator<K::Output>> ParallelTasks<K, A> {
    /// The children, in the order in which they were given.
    pub closed spec fn children(&self) -> Seq<K> {
        self.tasks@
    }

    /// The rule that folds the children's outputs.
    pub closed spec fn rule(&self) -> A {
        self.aggregator
    }

    /// The cache holds what each child has handed out, until the composite
    /// hands out its own output and clears it.
    spec fn cache_ok(&self) -> bool {
        &&& self.tasks@.len() > 0
        &&& forall|i: int| 0 <= i < self.tasks@.len() ==> (#[trigger] self.tasks@[i]).wf()
        &&& match self.yielded@ {
            Some(v) => {
                &&& self.cached_results@.len() == 0
                &&& all_done(self.tasks@)
                &&& folds_to(self.aggregator, outcomes(self.tasks@), v)
            },
            None => {
                &&& self.cached_results@.len() == self.tasks@.len()
                &&& !all_done(self.tasks@)
                &&& forall|i: int| 0 <= i < self.tasks@.len() ==>
                    #[trigger] self.cached_results@[i] == self.tasks@[i].outcome()
            },
        }
    }

    /// A valid composite has children, all of them valid. It has handed out
    /// its output exactly if every child has, and that output is the
    /// children's outputs folded in their order.
    pub proof fn lemma_children(&self)
        requires
            self.wf(),
        ensures
            self.children().len() > 0,
            forall|i: int| 0 <= i < self.children().len() ==> (#[trigger] self.children()[i]).wf(),
            self.outcome() is Some <==> all_done(self.children()),
            self.outcome() matches Some(v) ==> folds_to(self.rule(), outcomes(self.children()), v),
    {
    }
}

/// Makes one task of `tasks` that polls them side by side and folds their
/// outputs with `aggregator`, in the order given.
pub fn parallel<K: Task, A: Aggregator<K::Output>>(tasks: Vec<K>, aggregator: A) -> (p: ParallelTasks<K, A>)
    requires
        tasks@.len() > 0,
        all_fresh(tasks@),
    ensures
        p.wf(),
        p.children() == tasks@,
        p.rule() == aggregator,
        p.outcome() is None,
        !p.cancelled(),
{
    let mut cached_results: Vec<Option<K::Output>> = Vec::new();
    let mut i: usize = 0;
    while i < tasks.len()
        invariant
            i <= tasks@.len(),
            cached_results@.len() == i,
            forall|j: int| 0 <= j < i ==> #[trigger] cached_results@[j] is None,
        decreases tasks@.len() - i,
    {
        cached_results.push(None);
        i += 1;
    }
    proof {
        let first = tasks@[0];
        assert(first.outcome() is None);
    }
    ParallelTasks { tasks, cached_results, aggregator, yielded: Ghost(None), stopped: Ghost(false) }
}

impl<K: Task, A: Aggregator<K::Output>> Task for ParallelTasks<K, A> {
    type Output = K::Output;

    closed spec fn wf(&self) -> bool {
        self.cache_ok()
    }

    closed spec fn outcome(&self) -> Option<K::Output> {
        self.yielded@
    }

    closed spec fn cancelled(&self) -> bool {
        self.stopped@
    }

    /// Every child that had handed out its output is as it was, and every
    /// other child was polled once.
    open spec fn advances_to(&self, after: &Self) -> bool {
        &&& after.children().len() == self.children().len()
        &&& after.rule() == self.rule()
        &&& after.cancelled() == self.cancelled()
        &&& forall|i: int|
            0 <= i < self.children().len() ==> if (#[trigger] self.children()[i]).outcome() is Some {
                after.children()[i] == self.children()[i]
            } else {
                self.children()[i].advances_to(&after.children()[i])
            }
    }

    /// Polls every child that has not handed out its output. Ready exactly
    /// when all children then have, with their outputs folded in order.
    fn poll(&mut self) -> (r: Poll<K::Output>)
        ensures
            forall|i: int| 0 <= i < final(self).children().len()
                ==> (#[trigger] final(self).children()[i]).wf(),
            r is Ready <==> all_done(final(self).children()),
            r is Ready ==> folds_to(
                final(self).rule(),
                outcomes(final(self).children()),
                r->Ready_0,
            ),
    {
        let n = self.tasks.len();
        let mut all_ready = true;
        let mut i: usize = 0;
        while i < n
            invariant
                i <= n,
                n == self.tasks@.len(),
                n == old(self).tasks@.len(),
                n > 0,
                self.cached_results@.len() == n,
                self.yielded@ is None,
                self.aggregator == old(self).aggregator,
                self.stopped == old(self).stopped,
                forall|j: int| 0 <= j < n ==> (#[trigger] self.tasks@[j]).wf(),
                forall|j: int| 0 <= j < n ==>
                    #[trigger] self.cached_results@[j] == self.tasks@[j].outcome(),
                forall|j: int| i <= j < n ==> self.tasks@[j] == #[trigger] old(self).tasks@[j],
                forall|j: int| 0 <= j < n && (#[trigger] old(self).tasks@[j]).outcome() is Some
                    ==> self.tasks@[j] == old(self).tasks@[j],
                forall|j: int| 0 <= j < i && (#[trigger] old(self).tasks@[j]).outcome() is None
                    ==> old(self).tasks@[j].advances_to(&self.tasks@[j]),
                all_ready <==> (forall|j: int| 0 <= j < i ==> (#[trigger] self.tasks@[j]).outcome() is Some),
            decreases n - i,
        {
            let ghost before = self.tasks@;
            if self.cached_results[i].is_none() {
                match self.tasks[i].poll() {
                    Poll::Ready(result) => {
                        self.cached_results[i] = Some(result);
                    },
                    Poll::Pending => {
                        all_ready = false;
                    },
                }
            }
            proof {
                assert forall|j: int| 0 <= j < i implies self.tasks@[j] == #[trigger] before[j] by {}
            }
            i += 1;
        }
        if all_ready {
            let first = self.cached_results[0].take();
            let mut aggregated = first.unwrap();
            let ghost outs = outcomes(self.tasks@);
            let mut k: usize = 1;
            let ghost mut trace = seq![aggregated];
            while k < n
                invariant
                    1 <= k <= n,
                    n == self.tasks@.len(),
                    self.cached_results@.len() == n,
                    outs == outcomes(self.tasks@),
                    forall|j: int| 1 <= j < n ==>
                        #[trigger] self.cached_results@[j] == self.tasks@[j].outcome(),
                    all_done(self.tasks@),
                    is_fold_trace(self.aggregator, outs.take(k as int), trace),
                    trace.last() == aggregated,
                decreases n - k,
            {
                match &self.cached_results[k] {
                    Some(next) => {
                        self.aggregator.aggregate(&mut aggregated, next);
                    },
                    None => {},
                }
                proof {
                    trace = trace.push(aggregated);
                    assert(outs.take(k + 1)[k as int] == outs[k as int]);
                    assert forall|i: int| 1 <= i < k + 1 implies self.aggregator.combines(
                        trace[i - 1],
                        outs.take(k + 1)[i],
                        #[trigger] trace[i],
                    ) by {
                        if i < k {
                            assert(outs.take(k as int)[i] == outs[i]);
                        }
                    }
                }
                k += 1;
            }
            assert(outs.take(n as int) =~= outs);
            assert(is_fold_trace(self.aggregator, outs, trace));
            self.cached_results.clear();
            self.yielded = Ghost(Some(aggregated));
            Poll::Ready(aggregated)
        } else {
            Poll::Pending
        }
    }

    /// Forwards to every child that has not handed out its output.
    fn cancel(&mut self)
        ensures
            final(self).children().len() == old(self).children().len(),
            final(self).rule() == old(self).rule(),
            forall|i: int| 0 <= i < old(self).children().len() ==>
                if (#[trigger] old(self).children()[i]).outcome() is Some {
                    final(self).children()[i] == old(self).children()[i]
                } else {
                    final(self).children()[i].cancelled()
                        && final(self).children()[i].outcome() is None
                },
    {
        let n = self.cached_results.len();
        let mut i: usize = 0;
        while i < n
            invariant
                i <= n,
                n == self.cached_results@.len(),
                self.tasks@.len() == old(self).tasks@.len(),
                old(self).cache_ok(),
                self.cached_results == old(self).cached_results,
                self.yielded == old(self).yielded,
                self.aggregator == old(self).aggregator,
                forall|j: int| 0 <= j < self.tasks@.len() ==> (#[trigger] self.tasks@[j]).wf(),
                forall|j: int| 0 <= j < self.tasks@.len() ==>
                    self.tasks@[j].outcome() == (#[trigger] old(self).tasks@[j]).outcome(),
                forall|j: int| i <= j < self.tasks@.len() ==>
                    self.tasks@[j] == #[trigger] old(self).tasks@[j],
                forall|j: int| 0 <= j < i ==>
                    if (#[trigger] old(self).tasks@[j]).outcome() is Some {
                        self.tasks@[j] == old(self).tasks@[j]
                    } else {
                        self.tasks@[j].cancelled()
                    },
            decreases n - i,
        {
            if self.cached_results[i].is_none() {
                self.tasks[i].cancel();
            }
            i += 1;
        }
        proof {
            assert forall|j: int| 0 <= j < self.tasks@.len() implies (#[trigger] self.tasks@[j]).outcome()
                == old(self).tasks@[j].outcome() by {
                let t = old(self).tasks@[j];
            }
            assert(outcomes(self.tasks@) =~= outcomes(old(self).tasks@));
            if self.yielded@ is None {
                assert forall|j: int| 0 <= j < self.tasks@.len() implies #[trigger] self.cached_results@[j]
                    == self.tasks@[j].outcome() by {
                    let t = old(self).tasks@[j];
                }
            }
        }
        self.stopped = Ghost(true);
    }
}

/// Children that advance one after the other.
pub struct SerialTasks<K: Task, A: Aggregator<K::Output>> {
    tasks: Vec<K>,
    cached_results: Vec<K::Output>,
    index: usize,
    aggregator: A,
    yielded: Ghost<Option<K::Output>>,
    stopped: Ghost<bool>,
}

impl<K: Task, A: Aggregator<K::Output>> SerialTasks<K, A> {
    /// The children, in the order in which they were given.
    pub closed spec fn children(&self) -> Seq<K> {
        self.tasks@
    }

    /// The rule that folds the children's outputs.
    pub closed spec fn rule(&self) -> A {
        self.aggregator
    }

    /// How many children have handed out their output. It is the index of
    /// the one child that the next poll advances.
    pub closed spec fn completed(&self) -> nat {
        self.index as nat
    }

    /// The log holds the outputs of the children before `completed()`, and
    /// no child from there on has been finished.
    spec fn log_ok(&self) -> bool {
        &&& self.tasks@.len() > 0
        &&& forall|i: int| 0 <= i < self.tasks@.len() ==> (#[trigger] self.tasks@[i]).wf()
        &&& match self.yielded@ {
            Some(v) => {
                &&& self.cached_results@.len() == 0
                &&& self.index == self.tasks@.len()
                &&& all_done(self.tasks@)
                &&& folds_to(self.aggregator, outcomes(self.tasks@), v)
            },
            None => {
                &&& self.cached_results@.len() == self.index
                &&& self.index < self.tasks@.len()
                &&& forall|i: int| 0 <= i < self.cached_results@.len() ==>
                    (#[trigger] self.tasks@[i]).outcome() == Some(self.cached_results@[i])
                &&& forall|i: int| self.cached_results@.len() <= i < self.tasks@.len() ==>
                    (#[trigger] self.tasks@[i]).outcome() is None
            },
        }
    }

    /// A valid composite has children, all of them valid, and the finished
    /// ones are those before `completed()`: no child is started before the
    /// one ahead of it has handed out its output. The composite has handed
    /// out its output exactly if every child has, and that output is the
    /// children's outputs folded in their order.
    pub proof fn lemma_children(&self)
        requires
            self.wf(),
        ensures
            0 < self.children().len(),
            self.completed() <= self.children().len(),
            forall|i: int| 0 <= i < self.children().len() ==> (#[trigger] self.children()[i]).wf(),
            forall|i: int| 0 <= i < self.children().len() ==>
                ((#[trigger] self.children()[i]).outcome() is Some <==> i < self.completed()),
            self.outcome() is Some <==> self.completed() == self.children().len(),
            self.outcome() is Some <==> all_done(self.children()),
            self.outcome() matches Some(v) ==> folds_to(self.rule(), outcomes(self.children()), v),
    {
        if self.outcome() is None {
            let t = self.children()[self.completed() as int];
            assert(t.outcome() is None);
        }
    }
}

/// Makes one task of `tasks` that polls them one after the other, in the
/// order given, and folds their outputs with `aggregator`.
pub fn serial<K: Task, A: Aggregator<K::Output>>(tasks: Vec<K>, aggregator: A) -> (s: SerialTasks<K, A>)
    requires
        tasks@.len() > 0,
        all_fresh(tasks@),
    ensures
        s.wf(),
        s.children() == tasks@,
        s.rule() == aggregator,
        s.completed() == 0,
        s.outcome() is None,
        !s.cancelled(),
{
    SerialTasks {
        tasks,
        cached_results: Vec::new(),
        index: 0,
        aggregator,
        yielded: Ghost(None),
        stopped: Ghost(false),
    }
}

impl<K: Task, A: Aggregator<K::Output>> Task for SerialTasks<K, A> {
    type Output = K::Output;

    closed spec fn wf(&self) -> bool {
        self.log_ok()
    }

    closed spec fn outcome(&self) -> Option<K::Output> {
        self.yielded@
    }

    closed spec fn cancelled(&self) -> bool {
        self.stopped@
    }

    /// The child at index `completed()` was polled once, and every other
    /// child is as it was.
    open spec fn advances_to(&self, after: &Self) -> bool {
        &&& after.children().len() == self.children().len()
        &&& after.rule() == self.rule()
        &&& after.cancelled() == self.cancelled()
        &&& self.completed() < self.children().len()
        &&& self.children()[self.completed() as int].advances_to(
            &after.children()[self.completed() as int],
        )
        &&& forall|i: int|
            0 <= i < self.children().len() && i != self.completed() ==> (#[trigger] after.children()[i])
                == self.children()[i]
    }

    /// Polls the one child at index `completed()` and leaves every other
    /// child as it was. Ready exactly when the last child has handed out its
    /// output, with all outputs folded in order.
    fn poll(&mut self) -> (r: Poll<K::Output>)
        ensures
            final(self).completed() == old(self).completed() + (
                if final(self).children()[old(self).completed() as int].outcome() is Some {
                    1nat
                } else {
                    0nat
                }),
            r is Ready <==> final(self).completed() == final(self).children().len(),
            r is Ready <==> all_done(final(self).children()),
            r is Ready ==> folds_to(
                final(self).rule(),
                outcomes(final(self).children()),
                r->Ready_0,
            ),
    {
        let n = self.tasks.len();
        let current = self.index;
        match self.tasks[current].poll() {
            Poll::Ready(result) => {
                self.cached_results.push(result);
                self.index = current + 1;
            },
            Poll::Pending => {
                proof {
                    let t = self.tasks@[current as int];
                    assert(t.outcome() is None);
                }
                return Poll::Pending;
            },
        }
        if self.index == n {
            let ghost outs = outcomes(self.tasks@);
            let ghost log = self.cached_results@;
            assert(outs =~= log);
            let mut aggregated = self.cached_results.remove(0);
            let ghost mut trace = seq![aggregated];
            let mut k: usize = 1;
            while k < n
                invariant
                    1 <= k <= n,
                    n == self.tasks@.len(),
                    outs.len() == n,
                    self.cached_results@.len() == n - 1,
                    forall|j: int| 0 <= j < n - 1 ==> #[trigger] self.cached_results@[j] == outs[j + 1],
                    is_fold_trace(self.aggregator, outs.take(k as int), trace),
                    trace.last() == aggregated,
                decreases n - k,
            {
                self.aggregator.aggregate(&mut aggregated, &self.cached_results[k - 1]);
                proof {
                    trace = trace.push(aggregated);
                    assert(outs.take(k + 1)[k as int] == outs[k as int]);
                    assert forall|i: int| 1 <= i < k + 1 implies self.aggregator.combines(
                        trace[i - 1],
                        outs.take(k + 1)[i],
                        #[trigger] trace[i],
                    ) by {
                        if i < k {
                            assert(outs.take(k as int)[i] == outs[i]);
                        }
                    }
                }
                k += 1;
            }
            assert(outs.take(n as int) =~= outs);
            assert(is_fold_trace(self.aggregator, outs, trace));
            self.cached_results.clear();
            self.yielded = Ghost(Some(aggregated));
            Poll::Ready(aggregated)
        } else {
            proof {
                let t = self.tasks@[self.cached_results@.len() as int];
                assert(t.outcome() is None);
            }
            Poll::Pending
        }
    }

    /// Forwards to the children from index `completed()` on.
    fn cancel(&mut self)
        ensures
            final(self).children().len() == old(self).children().len(),
            final(self).rule() == old(self).rule(),
            final(self).completed() == old(self).completed(),
            forall|i: int| 0 <= i < old(self).children().len() ==>
                if i < old(self).completed() {
                    (#[trigger] final(self).children()[i]) == old(self).children()[i]
                } else {
                    final(self).children()[i].cancelled()
                        && final(self).children()[i].outcome() is None
                },
    {
        let n = self.tasks.len();
        let start = self.index;
        let mut i: usize = start;
        while i < n
            invariant
                start <= i <= n,
                n == self.tasks@.len(),
                n == old(self).tasks@.len(),
                self.cached_results == old(self).cached_results,
                self.yielded == old(self).yielded,
                self.index == old(self).index,
                self.aggregator == old(self).aggregator,
                forall|j: int| 0 <= j < n ==> (#[trigger] self.tasks@[j]).wf(),
                forall|j: int| 0 <= j < n ==>
                    (#[trigger] self.tasks@[j]).outcome() == old(self).tasks@[j].outcome(),
                forall|j: int| 0 <= j < start || i <= j < n ==>
                    (#[trigger] self.tasks@[j]) == old(self).tasks@[j],
                forall|j: int| start <= j < i ==> (#[trigger] self.tasks@[j]).cancelled(),
            decreases n - i,
        {
            self.tasks[i].cancel();
            i += 1;
        }
        proof {
            assert(outcomes(self.tasks@) =~= outcomes(old(self).tasks@));
        }
        self.stopped = Ghost(true);
    }
}

/// A result that a dispatcher of parallel composites adds in a round of
/// polls is the fold, in the children's order, of the outputs of the
/// children of the composite that ran under the result's identity.
pub proof fn lemma_parallel_result<K: Task, A: Aggregator<K::Output>>(
    before: Worker<ParallelTasks<K, A>>,
    after: Worker<ParallelTasks<K, A>>,
    j: int,
)
    requires
        before.polled_to(after),
        before.results().len() <= j < after.results().len(),
    ensures
        ({
            let done = after.retired()[before.retired().len() + (j - before.results().len())];
            &&& done.0 == after.results()[j].0
            &&& before.live()[done.0].advances_to(&done.1)
            &&& all_done(done.1.children())
            &&& folds_to(done.1.rule(), outcomes(done.1.children()), after.results()[j].1)
        }),
{
    before.lemma_results_come_from_live(after, j);
    let done = after.retired()[before.retired().len() + (j - before.results().len())];
    done.1.lemma_children();
}

/// As `lemma_parallel_result`, of serial composites.
pub proof fn lemma_serial_result<K: Task, A: Aggregator<K::Output>>(
    before: Worker<SerialTasks<K, A>>,
    after: Worker<SerialTasks<K, A>>,
    j: int,
)
    requires
        before.polled_to(after),
        before.results().len() <= j < after.results().len(),
    ensures
        ({
            let done = after.retired()[before.retired().len() + (j - before.results().len())];
            &&& done.0 == after.results()[j].0
            &&& before.live()[done.0].advances_to(&done.1)
            &&& all_done(done.1.children())
            &&& folds_to(done.1.rule(), outcomes(done.1.children()), after.results()[j].1)
        }),
{
    before.lemma_results_come_from_live(after, j);
    let done = after.retired()[before.retired().len() + (j - before.results().len())];
    done.1.lemma_children();
}

} // verus!
