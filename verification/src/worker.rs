//! The dispatcher: the table of live tasks, each under the identity it was
//! submitted with, the queue of results, and the one place where tasks are
//! polled and cancelled.

use vstd::prelude::*;
use crate::task::{Poll, Task};

verus! {

/// A task in the table, with the identity it runs under.
struct LiveTask<K> {
    id: u64,
    task: K,
}

/// Some entry of `s` runs under `id`.
spec fn holds<K>(s: Seq<LiveTask<K>>, id: u64) -> bool {
    exists|i: int| 0 <= i < s.len() && (#[trigger] s[i]).id == id
}

/// Where in `s` the entry under `id` stands.
spec fn position<K>(s: Seq<LiveTask<K>>, id: u64) -> int {
    choose|i: int| 0 <= i < s.len() && (#[trigger] s[i]).id == id
}

/// No two entries of `s` share an identity.
spec fn distinct_ids<K>(s: Seq<LiveTask<K>>) -> bool {
    forall|i: int, j: int| 0 <= i < j < s.len() ==> (#[trigger] s[i]).id != (#[trigger] s[j]).id
}

/// The entries of `s` as a mapping from identity to task.
spec fn table_of<K>(s: Seq<LiveTask<K>>) -> Map<u64, K> {
    Map::new(|id: u64| holds(s, id), |id: u64| s[position(s, id)].task)
}

/// An entry is found under its own identity.
proof fn lemma_table_entry<K>(s: Seq<LiveTask<K>>, i: int)
    requires
        distinct_ids(s),
        0 <= i < s.len(),
    ensures
        holds(s, s[i].id),
        position(s, s[i].id) == i,
        table_of(s).contains_key(s[i].id),
        table_of(s)[s[i].id] == s[i].task,
{
    let p = position(s, s[i].id);
    assert(0 <= p < s.len() && s[p].id == s[i].id);
    if p < i {
        assert(s[p].id != s[i].id);
    } else if i < p {
        assert(s[i].id != s[p].id);
    }
}

/// Appending an entry under a new identity inserts it into the mapping.
proof fn lemma_table_push<K>(s: Seq<LiveTask<K>>, e: LiveTask<K>)
    requires
        distinct_ids(s),
        !holds(s, e.id),
    ensures
        distinct_ids(s.push(e)),
        table_of(s.push(e)) == table_of(s).insert(e.id, e.task),
{
    let t = s.push(e);
    assert forall|i: int, j: int| 0 <= i < j < t.len() implies (#[trigger] t[i]).id != (#[trigger] t[j]).id by {
        if j < s.len() {
            assert(s[i].id != s[j].id);
        } else {
            assert(s[i].id != e.id);
        }
    }
    assert forall|id: u64| holds(t, id) <==> (holds(s, id) || id == e.id) by {
        if holds(t, id) {
            let i = position(t, id);
            if i < s.len() {
                assert(s[i].id == id);
            }
        }
        if holds(s, id) {
            let i = position(s, id);
            assert(t[i].id == id);
        }
        if id == e.id {
            assert(t[s.len() as int].id == id);
        }
    }
    assert forall|id: u64| holds(t, id) implies #[trigger] table_of(t)[id] == table_of(s).insert(
        e.id,
        e.task,
    )[id] by {
        let i = position(t, id);
        lemma_table_entry(t, i);
        if i < s.len() {
            assert(s[i].id == id);
            lemma_table_entry(s, i);
        }
    }
    assert(table_of(t) =~= table_of(s).insert(e.id, e.task));
}

/// Taking an entry out removes its identity from the mapping.
proof fn lemma_table_remove<K>(s: Seq<LiveTask<K>>, i: int)
    requires
        distinct_ids(s),
        0 <= i < s.len(),
    ensures
        distinct_ids(s.remove(i)),
        !holds(s.remove(i), s[i].id),
        table_of(s.remove(i)) == table_of(s).remove(s[i].id),
{
    let t = s.remove(i);
    assert forall|a: int| 0 <= a < t.len() implies (#[trigger] t[a]) == s[if a < i {
        a
    } else {
        a + 1
    }] by {}
    assert forall|a: int, b: int| 0 <= a < b < t.len() implies (#[trigger] t[a]).id != (#[trigger] t[b]).id by {
        let a2 = if a < i { a } else { a + 1 };
        let b2 = if b < i { b } else { b + 1 };
        assert(s[a2].id != s[b2].id);
    }
    assert forall|id: u64| holds(t, id) <==> (holds(s, id) && id != s[i].id) by {
        if holds(t, id) {
            let a = position(t, id);
            let a2 = if a < i { a } else { a + 1 };
            assert(s[a2].id == id);
            if a2 < i {
                assert(s[a2].id != s[i].id);
            } else {
                assert(s[i].id != s[a2].id);
            }
        }
        if holds(s, id) && id != s[i].id {
            let a = position(s, id);
            let a2 = if a < i { a } else { a - 1 };
            assert(t[a2].id == id);
        }
    }
    assert forall|id: u64| holds(t, id) implies #[trigger] table_of(t)[id] == table_of(s).remove(s[i].id)[id] by {
        let a = position(t, id);
        lemma_table_entry(t, a);
        let a2 = if a < i { a } else { a + 1 };
        lemma_table_entry(s, a2);
    }
    assert(table_of(t) =~= table_of(s).remove(s[i].id));
}

/// The mapping has as many identities as there are entries.
proof fn lemma_table_len<K>(s: Seq<LiveTask<K>>)
    requires
        distinct_ids(s),
    ensures
        table_of(s).dom().finite(),
        table_of(s).len() == s.len(),
    decreases s.len(),
{
    if s.len() == 0 {
        assert(table_of(s).dom() =~= Set::<u64>::empty());
    } else {
        let t = s.drop_last();
        let e = s.last();
        assert forall|i: int, j: int| 0 <= i < j < t.len() implies (#[trigger] t[i]).id != (#[trigger] t[j]).id by {
            assert(s[i].id != s[j].id);
        }
        if holds(t, e.id) {
            let i = position(t, e.id);
            assert(s[i].id != s[s.len() - 1].id);
        }
        lemma_table_len(t);
        lemma_table_push(t, e);
        assert(t.push(e) =~= s);
        assert(table_of(s).dom() =~= table_of(t).dom().insert(e.id));
    }
}

/// A request to the dispatcher.
pub enum TaskOperation<K> {
    /// Run the task under the identity, in place of what runs there.
    Add(u64, K),
    /// Cancel what runs under the identity.
    Remove(u64),
}

/// The dispatcher's state. It alone polls and cancels the tasks it holds.
pub struct Worker<K: Task> {
    pending_tasks: Vec<LiveTask<K>>,
    results: Vec<(u64, K::Output)>,
    retired: Ghost<Seq<(u64, K)>>,
}

impl<K: Task> Worker<K> {
    /// The live tasks, by identity.
    pub closed spec fn live(&self) -> Map<u64, K> {
        table_of(self.pending_tasks@)
    }

    /// The results that wait to be received, oldest first.
    pub closed spec fn results(&self) -> Seq<(u64, K::Output)> {
        self.results@
    }

    /// Every task that has left the table, in the state in which it left,
    /// with the identity it ran under.
    pub closed spec fn retired(&self) -> Seq<(u64, K)> {
        self.retired@
    }

    /// Every task that left the table without an output was cancelled.
    pub open spec fn history_ok(&self) -> bool {
        forall|j: int| 0 <= j < self.retired().len() && (#[trigger] self.retired()[j]).1.outcome() is None
            ==> self.retired()[j].1.cancelled()
    }

    /// At most one live task per identity, every live task is valid and has
    /// yet to hand out its output, and the history is as `history_ok` says.
    pub closed spec fn wf(&self) -> bool {
        &&& self.history_ok()
        &&& distinct_ids(self.pending_tasks@)
        &&& forall|i: int| 0 <= i < self.pending_tasks@.len() ==> {
            &&& (#[trigger] self.pending_tasks@[i]).task.wf()
            &&& self.pending_tasks@[i].task.outcome() is None
        }
    }

    /// The live tasks are finitely many, all valid and unfinished, and no
    /// task has left the table unfinished without being cancelled.
    pub proof fn lemma_live(&self)
        requires
            self.wf(),
        ensures
            self.history_ok(),
            self.live().dom().finite(),
            forall|id: u64| #[trigger] self.live().contains_key(id) ==> self.live()[id].wf()
                && self.live()[id].outcome() is None,
    {
        lemma_table_len(self.pending_tasks@);
        assert forall|id: u64| #[trigger] self.live().contains_key(id) implies self.live()[id].wf()
            && self.live()[id].outcome() is None by {
            let i = position(self.pending_tasks@, id);
            lemma_table_entry(self.pending_tasks@, i);
        }
    }

    /// A dispatcher with no task and no result.
    pub fn new() -> (w: Self)
        ensures
            w.wf(),
            w.live() == Map::<u64, K>::empty(),
            w.results().len() == 0,
            w.retired().len() == 0,
    {
        let w = Worker { pending_tasks: Vec::new(), results: Vec::new(), retired: Ghost(Seq::empty()) };
        proof {
            assert(table_of(w.pending_tasks@) =~= Map::<u64, K>::empty());
        }
        w
    }

    fn find(&self, id: u64) -> (r: Option<usize>)
        ensures
            match r {
                Some(i) => i < self.pending_tasks@.len() && self.pending_tasks@[i as int].id == id,
                None => !holds(self.pending_tasks@, id),
            },
    {
        let mut i: usize = 0;
        while i < self.pending_tasks.len()
            invariant
                i <= self.pending_tasks@.len(),
                forall|j: int| 0 <= j < i ==> (#[trigger] self.pending_tasks@[j]).id != id,
            decreases self.pending_tasks@.len() - i,
        {
            if self.pending_tasks[i].id == id {
                return Some(i);
            }
            i += 1;
        }
        None
    }

    /// `after` is this dispatcher once what ran under `id` was cancelled:
    /// nothing is live under `id`, every other identity is as before and no
    /// result was added. Where no task ran under `id` nothing has changed;
    /// else that task has left the table cancelled and without an output.
    pub open spec fn cancelled_to(self, id: u64, after: Self) -> bool {
        &&& after.live() == self.live().remove(id)
        &&& after.results() == self.results()
        &&& !self.live().contains_key(id) ==> after.live() == self.live() && after.retired()
            == self.retired()
        &&& self.live().contains_key(id) ==> {
            &&& after.retired().len() == self.retired().len() + 1
            &&& after.retired().drop_last() == self.retired()
            &&& after.retired().last().0 == id
            &&& after.retired().last().1.cancelled()
            &&& after.retired().last().1.outcome() is None
        }
    }

    /// Cancels and drops whatever runs under `id`.
    ///
    /// Nothing happens where no task runs under `id`. The task that leaves
    /// was cancelled before it handed out an output, and no result is added
    /// for it.
    pub fn cancel_tasks_with_id(&mut self, id: u64)
        requires
            old(self).wf(),
        ensures
            final(self).wf(),
            old(self).cancelled_to(id, *final(self)),
    {
        match self.find(id) {
            Some(i) => {
                proof {
                    lemma_table_entry(self.pending_tasks@, i as int);
                    lemma_table_remove(self.pending_tasks@, i as int);
                }
                let mut entry = self.pending_tasks.remove(i);
                entry.task.cancel();
                proof {
                    self.retired@ = self.retired@.push((id, entry.task));
                    assert(self.retired@.drop_last() =~= old(self).retired@);
                    assert forall|j: int| 0 <= j < self.retired@.len() && (#[trigger] self.retired@[j]).1.outcome() is None
                    implies self.retired@[j].1.cancelled() by {
                        if j < old(self).retired@.len() {
                            assert(self.retired@[j] == old(self).retired()[j]);
                        }
                    }
                }
            },
            None => {
                proof {
                    assert(self.live() =~= old(self).live().remove(id));
                }
            },
        }
    }

    /// `after` is this dispatcher once `task` was sent under `id`: `task`
    /// is live there, every other identity is as before, no result was
    /// added, and the task that ran under `id`, if one did, has left the
    /// table cancelled and without an output.
    pub open spec fn sent_to(self, id: u64, task: K, after: Self) -> bool {
        &&& after.live() == self.live().insert(id, task)
        &&& after.results() == self.results()
        &&& !self.live().contains_key(id) ==> after.retired() == self.retired()
        &&& self.live().contains_key(id) ==> {
            &&& after.retired().len() == self.retired().len() + 1
            &&& after.retired().drop_last() == self.retired()
            &&& after.retired().last().0 == id
            &&& after.retired().last().1.cancelled()
            &&& after.retired().last().1.outcome() is None
        }
    }

    /// Runs `task` under `id`, in place of whatever ran there: that task is
    /// cancelled and dropped first, and never adds a result.
    pub fn send_task(&mut self, id: u64, task: K)
        requires
            old(self).wf(),
            task.wf(),
            task.outcome() is None,
        ensures
            final(self).wf(),
            old(self).sent_to(id, task, *final(self)),
    {
        self.cancel_tasks_with_id(id);
        proof {
            assert(!self.live().contains_key(id));
            lemma_table_push(self.pending_tasks@, LiveTask { id, task });
            assert(old(self).live().remove(id).insert(id, task) =~= old(self).live().insert(id, task));
        }
        self.pending_tasks.push(LiveTask { id, task });
    }

    /// Applies one request.
    pub fn apply(&mut self, operation: TaskOperation<K>)
        requires
            old(self).wf(),
            operation matches TaskOperation::Add(_, task) ==> task.wf() && task.outcome() is None,
        ensures
            final(self).wf(),
            match operation {
                TaskOperation::Add(id, task) => old(self).sent_to(id, task, *final(self)),
                TaskOperation::Remove(id) => old(self).cancelled_to(id, *final(self)),
            },
    {
        match operation {
            TaskOperation::Add(id, task) => self.send_task(id, task),
            TaskOperation::Remove(id) => self.cancel_tasks_with_id(id),
        }
    }

    /// `after` is this dispatcher once every live task was cancelled: no
    /// task is live, no result was added, and the history has grown by one
    /// entry for each task that was live, under that task's identity, each
    /// cancelled and without an output.
    pub open spec fn all_cancelled_to(self, after: Self) -> bool {
        &&& after.live() == Map::<u64, K>::empty()
        &&& after.results() == self.results()
        &&& after.retired().len() == self.retired().len() + self.live().len()
        &&& after.retired().take(self.retired().len() as int) == self.retired()
        &&& forall|j: int|
            self.retired().len() <= j < after.retired().len() ==> {
                &&& self.live().contains_key((#[trigger] after.retired()[j]).0)
                &&& after.retired()[j].1.cancelled()
                &&& after.retired()[j].1.outcome() is None
            }
        &&& forall|j: int, k: int|
            self.retired().len() <= j < k < after.retired().len() ==> (#[trigger] after.retired()[j]).0 != (
            #[trigger] after.retired()[k]).0
    }

    /// Cancels and drops every live task. None of them adds a result.
    pub fn cancel_all_tasks(&mut self)
        requires
            old(self).wf(),
        ensures
            final(self).wf(),
            old(self).all_cancelled_to(*final(self)),
    {
        proof {
            lemma_table_len(self.pending_tasks@);
            assert(self.retired@.take(self.retired@.len() as int) =~= self.retired@);
            assert(self.pending_tasks@.take(self.pending_tasks@.len() as int) =~= self.pending_tasks@);
        }
        while self.pending_tasks.len() > 0
            invariant
                self.pending_tasks@.len() <= old(self).pending_tasks@.len(),
                self.pending_tasks@ == old(self).pending_tasks@.take(self.pending_tasks@.len() as int),
                old(self).wf(),
                self.results == old(self).results,
                self.retired@.len() == old(self).retired@.len() + old(self).pending_tasks@.len()
                    - self.pending_tasks@.len(),
                self.retired@.take(old(self).retired@.len() as int) == old(self).retired@,
                self.history_ok(),
                forall|j: int| old(self).retired@.len() <= j < self.retired@.len() ==> {
                    &&& old(self).live().contains_key((#[trigger] self.retired@[j]).0)
                    &&& self.retired@[j].1.cancelled()
                    &&& self.retired@[j].1.outcome() is None
                    &&& self.retired@[j].0 == old(self).pending_tasks@[old(self).pending_tasks@.len() - 1 - (j
                        - old(self).retired@.len())].id
                },
            decreases self.pending_tasks@.len(),
        {
            let ghost k = self.pending_tasks@.len() - 1;
            let ghost before = self.retired@;
            let mut entry = self.pending_tasks.pop().unwrap();
            proof {
                assert(entry == old(self).pending_tasks@[k]);
                lemma_table_entry(old(self).pending_tasks@, k);
                assert(self.pending_tasks@ =~= old(self).pending_tasks@.take(k));
            }
            entry.task.cancel();
            proof {
                self.retired@ = before.push((entry.id, entry.task));
                assert forall|j: int| 0 <= j < self.retired@.len() && (#[trigger] self.retired@[j]).1.outcome() is None
                implies self.retired@[j].1.cancelled() by {
                    if j < before.len() {
                        assert(self.retired@[j] == before[j]);
                    }
                }
                assert(self.retired@.take(old(self).retired@.len() as int) =~= before.take(
                    old(self).retired@.len() as int,
                ));
            }
        }
        proof {
            assert(table_of(self.pending_tasks@) =~= Map::<u64, K>::empty());
            let n = old(self).pending_tasks@.len();
            let r = old(self).retired@.len();
            assert forall|j: int, k: int| r <= j < k < self.retired@.len() implies (#[trigger] self.retired@[j]).0
                != (#[trigger] self.retired@[k]).0 by {
                let a = old(self).pending_tasks@[n - 1 - (k - r)];
                let b = old(self).pending_tasks@[n - 1 - (j - r)];
                assert(a.id != b.id);
            }
        }
    }

    /// `after` is this dispatcher one round of polls later: every live task
    /// was polled once; the results have grown by the outputs of the tasks
    /// that were ready, each under its task's identity; exactly those tasks
    /// have left the table, in the same order, as finished tasks with that
    /// output; every other task is still live.
    pub open spec fn polled_to(self, after: Self) -> bool {
        let fresh = after.results().len() - self.results().len();
        &&& fresh >= 0
        &&& after.results().take(self.results().len() as int) == self.results()
        &&& after.retired().take(self.retired().len() as int) == self.retired()
        &&& after.retired().len() - self.retired().len() == fresh
        &&& after.live().dom().finite()
        &&& self.live().dom().finite()
        &&& after.live().len() + fresh == self.live().len()
        &&& forall|j: int|
            0 <= j < fresh ==> {
                let result = #[trigger] after.results()[self.results().len() + j];
                let done = after.retired()[self.retired().len() + j];
                &&& done.0 == result.0
                &&& done.1.wf()
                &&& done.1.outcome() == Some(result.1)
                &&& self.live().contains_key(result.0)
                &&& self.live()[result.0].advances_to(&done.1)
                &&& !after.live().contains_key(result.0)
            }
        &&& forall|id: u64| #[trigger]
            after.live().contains_key(id) ==> self.live().contains_key(id) && self.live()[id].advances_to(
                &after.live()[id],
            ) && after.live()[id].wf() && after.live()[id].outcome() is None
        &&& forall|id: u64|
            #[trigger] self.live().contains_key(id) && !after.live().contains_key(id) ==> exists|j: int|
                self.results().len() <= j < after.results().len() && (#[trigger] after.results()[j]).0
                    == id
    }

    /// Polls every live task once. Each task that is ready leaves the table
    /// and its output joins the results under its identity; the others stay.
    pub fn poll_tasks(&mut self)
        requires
            old(self).wf(),
        ensures
            final(self).wf(),
            old(self).polled_to(*final(self)),
    {
        let ghost r0 = self.results@.len() as int;
        let ghost d0 = self.retired@.len() as int;
        let ghost slot: Map<u64, int> = Map::empty();
        let mut remaining: Vec<LiveTask<K>> = Vec::new();
        proof {
            assert(self.results@.take(r0) =~= self.results@);
            assert(self.retired@.take(d0) =~= self.retired@);
            assert(table_of(remaining@).dom() =~= Set::<u64>::empty());
        }
        while self.pending_tasks.len() > 0
            invariant
                old(self).wf(),
                r0 == old(self).results@.len(),
                d0 == old(self).retired@.len(),
                self.results@.len() >= r0,
                self.results@.take(r0) == old(self).results@,
                self.retired@.take(d0) == old(self).retired@,
                self.history_ok(),
                self.retired@.len() - d0 == self.results@.len() - r0,
                self.pending_tasks@.len() + remaining@.len() + (self.results@.len() - r0) == old(
                    self,
                ).pending_tasks@.len(),
                distinct_ids(self.pending_tasks@),
                distinct_ids(remaining@),
                forall|i: int| 0 <= i < self.pending_tasks@.len() ==> {
                    &&& (#[trigger] self.pending_tasks@[i]).task.wf()
                    &&& self.pending_tasks@[i].task.outcome() is None
                },
                forall|i: int| 0 <= i < remaining@.len() ==> {
                    &&& (#[trigger] remaining@[i]).task.wf()
                    &&& remaining@[i].task.outcome() is None
                },
                forall|id: u64| #[trigger]
                    old(self).live().contains_key(id) <==> (table_of(self.pending_tasks@).contains_key(id)
                        || table_of(remaining@).contains_key(id) || slot.contains_key(id)),
                forall|id: u64| #[trigger]
                    slot.contains_key(id) ==> !table_of(self.pending_tasks@).contains_key(id)
                        && !table_of(remaining@).contains_key(id) && r0 <= slot[id] < self.results@.len()
                        && self.results@[slot[id]].0 == id,
                forall|id: u64| #[trigger]
                    table_of(remaining@).contains_key(id) ==> !table_of(self.pending_tasks@).contains_key(id),
                forall|j: int| r0 <= j < self.results@.len() ==> {
                    &&& self.retired@[d0 + (j - r0)].0 == (#[trigger] self.results@[j]).0
                    &&& self.retired@[d0 + (j - r0)].1.wf()
                    &&& self.retired@[d0 + (j - r0)].1.outcome() == Some(self.results@[j].1)
                    &&& slot.contains_key(self.results@[j].0)
                    &&& old(self).live()[self.results@[j].0].advances_to(&self.retired@[d0 + (j - r0)].1)
                },
                forall|id: u64| #[trigger]
                    table_of(self.pending_tasks@).contains_key(id) ==> table_of(self.pending_tasks@)[id]
                        == old(self).live()[id],
                forall|id: u64| #[trigger]
                    table_of(remaining@).contains_key(id) ==> old(self).live()[id].advances_to(
                        &table_of(remaining@)[id],
                    ),
            decreases self.pending_tasks@.len(),
        {
            let ghost k = self.pending_tasks@.len() - 1;
            let ghost pending_before = self.pending_tasks@;
            let ghost results_before = self.results@;
            let ghost retired_before = self.retired@;
            let ghost remaining_before = remaining@;
            let entry = self.pending_tasks.pop().unwrap();
            let LiveTask { id, mut task } = entry;
            proof {
                assert(self.pending_tasks@ =~= pending_before.remove(k));
                lemma_table_entry(pending_before, k);
                lemma_table_remove(pending_before, k);
                assert(table_of(pending_before).contains_key(id));
                assert(!table_of(remaining_before).contains_key(id));
                assert(!holds(remaining_before, id));
                assert forall|i: int| 0 <= i < self.pending_tasks@.len() implies {
                    &&& (#[trigger] self.pending_tasks@[i]).task.wf()
                    &&& self.pending_tasks@[i].task.outcome() is None
                } by {
                    assert(self.pending_tasks@[i] == pending_before[i]);
                }
            }
            match task.poll() {
                Poll::Ready(output) => {
                    self.results.push((id, output));
                    proof {
                        self.retired@ = retired_before.push((id, task));
                        assert forall|j: int| 0 <= j < self.retired@.len() && (#[trigger] self.retired@[j]).1.outcome() is None
                        implies self.retired@[j].1.cancelled() by {
                            if j < retired_before.len() {
                                assert(self.retired@[j] == retired_before[j]);
                            }
                        }
                        slot = slot.insert(id, results_before.len() as int);
                        assert(self.results@.take(r0) =~= results_before.take(r0));
                        assert(self.retired@.take(d0) =~= retired_before.take(d0));
                    }
                },
                Poll::Pending => {
                    proof {
                        lemma_table_push(remaining_before, LiveTask { id, task });
                    }
                    remaining.push(LiveTask { id, task });
                },
            }
        }
        proof {
            lemma_table_len(old(self).pending_tasks@);
            lemma_table_len(remaining@);
            assert(table_of(self.pending_tasks@).dom() =~= Set::<u64>::empty());
        }
        self.pending_tasks = remaining;
        proof {
            assert forall|id: u64|
                #[trigger] old(self).live().contains_key(id) && !self.live().contains_key(id)
                implies exists|j: int| r0 <= j < self.results@.len() && (#[trigger] self.results@[j]).0 == id by {
                assert(slot.contains_key(id));
                assert(self.results@[slot[id]].0 == id);
            }
        }
    }

    /// A round of polls in which no task was ready adds no result and
    /// leaves the same identities live: receiving then gives nothing, however
    /// many tasks are live.
    pub proof fn lemma_quiet_round(self, after: Self)
        requires
            self.polled_to(after),
            after.live().len() == self.live().len(),
        ensures
            after.results() == self.results(),
            after.retired() == self.retired(),
            after.live().dom() == self.live().dom(),
    {
        assert(after.results().take(self.results().len() as int) =~= after.results());
        assert(after.retired().take(self.retired().len() as int) =~= after.retired());
        assert(after.live().dom() =~= self.live().dom());
    }

    /// Every result that a round of polls adds is the output of a task that
    /// was live under that identity before the round and finished in it: a
    /// task that was superseded or cancelled before the round adds none.
    pub proof fn lemma_results_come_from_live(self, after: Self, j: int)
        requires
            self.polled_to(after),
            self.results().len() <= j < after.results().len(),
        ensures
            self.live().contains_key(after.results()[j].0),
            !after.live().contains_key(after.results()[j].0),
            after.retired()[self.retired().len() + (j - self.results().len())].0 == after.results()[j].0,
            after.retired()[self.retired().len() + (j - self.results().len())].1.wf(),
            after.retired()[self.retired().len() + (j - self.results().len())].1.outcome() == Some(
                after.results()[j].1,
            ),
            self.live()[after.results()[j].0].advances_to(
                &after.retired()[self.retired().len() + (j - self.results().len())].1,
            ),
    {
        let k = j - self.results().len();
        assert(after.results()[self.results().len() + k] == after.results()[j]);
    }

    /// A round of polls brings no identity into the dispatcher: a bound on
    /// the identities of the live tasks and of the waiting results still
    /// holds after it.
    pub proof fn lemma_ids_after_poll(self, after: Self, bound: u64)
        requires
            self.polled_to(after),
            forall|id: u64| #[trigger] self.live().contains_key(id) ==> id <= bound,
            forall|j: int| 0 <= j < self.results().len() ==> (#[trigger] self.results()[j]).0 <= bound,
        ensures
            forall|id: u64| #[trigger] after.live().contains_key(id) ==> id <= bound,
            forall|j: int| 0 <= j < after.results().len() ==> (#[trigger] after.results()[j]).0 <= bound,
    {
        assert forall|j: int| 0 <= j < after.results().len() implies (#[trigger] after.results()[j]).0
            <= bound by {
            if j < self.results().len() {
                assert(after.results().take(self.results().len() as int)[j] == after.results()[j]);
            } else {
                let k = j - self.results().len();
                assert(after.results()[self.results().len() + k] == after.results()[j]);
            }
        }
    }

    /// Cancelling under an identity that no task runs under changes
    /// nothing: the live tasks, their number, the results and the history
    /// are as they were.
    pub proof fn lemma_cancel_absent(self, id: u64, after: Self)
        requires
            self.cancelled_to(id, after),
            !self.live().contains_key(id),
        ensures
            after.live() == self.live(),
            after.live().len() == self.live().len(),
            after.results() == self.results(),
            after.retired() == self.retired(),
    {
    }

    /// `after` is this dispatcher once the request was applied.
    pub open spec fn applied_to(self, operation: TaskOperation<K>, after: Self) -> bool {
        match operation {
            TaskOperation::Add(id, task) => self.sent_to(id, task, after),
            TaskOperation::Remove(id) => self.cancelled_to(id, after),
        }
    }

    /// `states` lists the dispatcher before the first request and after
    /// each request of `operations`, applied one after the other in their
    /// order, starting from this dispatcher.
    pub open spec fn is_apply_trace(self, operations: Seq<TaskOperation<K>>, states: Seq<Self>) -> bool {
        &&& states.len() == operations.len() + 1
        &&& states[0] == self
        &&& forall|i: int|
            0 <= i < operations.len() ==> (#[trigger] states[i]).applied_to(operations[i], states[i + 1])
    }

    /// However many tasks are sent under one identity one after the other,
    /// the last of them alone is live under it afterwards, every other
    /// identity is as before, no result was added, and every task that left
    /// the table on the way ran under that identity and left cancelled and
    /// without an output: none of them ever adds a result.
    pub proof fn lemma_sends_supersede(self, id: u64, operations: Seq<TaskOperation<K>>, states: Seq<Self>)
        requires
            self.is_apply_trace(operations, states),
            operations.len() > 0,
            forall|i: int| 0 <= i < operations.len() ==> (#[trigger] operations[i]) is Add && operations[i]->Add_0 == id,
        ensures
            states.last().live() == self.live().insert(id, operations.last()->Add_1),
            states.last().results() == self.results(),
            states.last().retired().len() >= self.retired().len(),
            states.last().retired().take(self.retired().len() as int) == self.retired(),
            forall|j: int|
                self.retired().len() <= j < states.last().retired().len() ==> {
                    &&& (#[trigger] states.last().retired()[j]).0 == id
                    &&& states.last().retired()[j].1.cancelled()
                    &&& states.last().retired()[j].1.outcome() is None
                },
        decreases operations.len(),
    {
        let n = operations.len() as int;
        let before = states[n - 1];
        let after = states[n];
        let op = operations[n - 1];
        assert(before.applied_to(op, after));
        if n == 1 {
            assert(after.retired().take(self.retired().len() as int) =~= self.retired()) by {
                if self.live().contains_key(id) {
                    assert(after.retired().drop_last() =~= after.retired().take(self.retired().len() as int));
                } else {
                    assert(after.retired().take(self.retired().len() as int) =~= after.retired());
                }
            }
        } else {
            let ops = operations.drop_last();
            let sts = states.drop_last();
            assert(self.is_apply_trace(ops, sts)) by {
                assert forall|i: int| 0 <= i < ops.len() implies (#[trigger] sts[i]).applied_to(
                    ops[i],
                    sts[i + 1],
                ) by {
                    assert(states[i].applied_to(operations[i], states[i + 1]));
                }
            }
            assert forall|i: int| 0 <= i < ops.len() implies (#[trigger] ops[i]) is Add && ops[i]->Add_0 == id by {
                assert(operations[i] is Add);
            }
            self.lemma_sends_supersede(id, ops, sts);
            assert(sts.last() == before);
            assert(before.live().contains_key(id));
            assert(after.live() =~= self.live().insert(id, op->Add_1));
            let r = self.retired().len() as int;
            assert(after.retired().drop_last() == before.retired());
            assert(after.retired().take(r) =~= before.retired().take(r));
            assert forall|j: int| r <= j < after.retired().len() implies {
                &&& (#[trigger] after.retired()[j]).0 == id
                &&& after.retired()[j].1.cancelled()
                &&& after.retired()[j].1.outcome() is None
            } by {
                if j < before.retired().len() {
                    assert(after.retired()[j] == after.retired().drop_last()[j]);
                    assert(before.retired()[j].0 == id);
                }
            }
        }
    }

    /// `after`, the results `handed` and `count` are what one cycle of the
    /// dispatcher leaves of this dispatcher: the requests were applied one
    /// after the other in their order (`states`), then every live task was
    /// polled once (`polled`), then every result that waited was handed
    /// out, oldest first, and the live tasks were counted.
    pub open spec fn cycled(
        self,
        operations: Seq<TaskOperation<K>>,
        states: Seq<Self>,
        polled: Self,
        after: Self,
        handed: Seq<(u64, K::Output)>,
        count: usize,
    ) -> bool {
        &&& self.is_apply_trace(operations, states)
        &&& states.last().polled_to(polled)
        &&& handed == polled.results()
        &&& after.results().len() == 0
        &&& after.live() == polled.live()
        &&& after.retired() == polled.retired()
        &&& count == after.live().len()
    }

    /// One cycle of the dispatcher: applies the requests that have arrived,
    /// in their order, then polls every live task once, then hands out the
    /// results and the number of tasks still live.
    pub fn run_cycle(&mut self, operations: Vec<TaskOperation<K>>) -> (r: (Vec<(u64, K::Output)>, usize))
        requires
            old(self).wf(),
            forall|i: int|
                0 <= i < operations@.len() ==> ((#[trigger] operations@[i]) matches TaskOperation::Add(_, task)
                    ==> task.wf() && task.outcome() is None),
        ensures
            final(self).wf(),
            exists|states: Seq<Self>, polled: Self| #[trigger]
                old(self).cycled(operations@, states, polled, *final(self), r.0@, r.1),
    {
        let mut waiting = operations;
        let ghost mut states = seq![*self];
        while waiting.len() > 0
            invariant
                self.wf(),
                waiting@.len() <= operations@.len(),
                waiting@ == operations@.skip(operations@.len() - waiting@.len()),
                states.len() == operations@.len() - waiting@.len() + 1,
                states[0] == *old(self),
                states.last() == *self,
                forall|i: int|
                    0 <= i < states.len() - 1 ==> (#[trigger] states[i]).applied_to(
                        operations@[i],
                        states[i + 1],
                    ),
                forall|i: int|
                    0 <= i < operations@.len() ==> ((#[trigger] operations@[i]) matches TaskOperation::Add(
                        _,
                        task,
                    ) ==> task.wf() && task.outcome() is None),
            decreases waiting@.len(),
        {
            let ghost done = operations@.len() - waiting@.len();
            let ghost before = states;
            let operation = waiting.remove(0);
            proof {
                assert(operation == operations@[done]);
                assert(waiting@ =~= operations@.skip(done + 1));
            }
            self.apply(operation);
            proof {
                states = before.push(*self);
                assert forall|i: int| 0 <= i < states.len() - 1 implies (#[trigger] states[i]).applied_to(
                    operations@[i],
                    states[i + 1],
                ) by {
                    if i < before.len() - 1 {
                        assert(before[i].applied_to(operations@[i], before[i + 1]));
                    }
                }
            }
        }
        self.poll_tasks();
        let ghost polled = *self;
        let mut handed: Vec<(u64, K::Output)> = Vec::new();
        core::mem::swap(&mut self.results, &mut handed);
        let count = self.task_count();
        proof {
            assert(old(self).is_apply_trace(operations@, states));
            assert(old(self).cycled(operations@, states, polled, *self, handed@, count));
        }
        let r = (handed, count);
        proof {
            assert(old(self).cycled(operations@, states, polled, *self, r.0@, r.1));
        }
        r
    }

    /// Ends the dispatcher's work: cancels and drops every live task, and
    /// says how many there were. No result is added for any of them.
    pub fn stop(&mut self) -> (cancelled: usize)
        requires
            old(self).wf(),
        ensures
            final(self).wf(),
            old(self).all_cancelled_to(*final(self)),
            cancelled == old(self).live().len(),
    {
        let n = self.task_count();
        self.cancel_all_tasks();
        n
    }

    /// How many tasks are live.
    pub fn task_count(&self) -> (n: usize)
        requires
            self.wf(),
        ensures
            n == self.live().len(),
    {
        proof {
            lemma_table_len(self.pending_tasks@);
        }
        self.pending_tasks.len()
    }

    /// The oldest result that waits, if one does. Never waits for one.
    pub fn receive_result(&mut self) -> (r: Option<(u64, K::Output)>)
        ensures
            final(self).live() == old(self).live(),
            final(self).retired() == old(self).retired(),
            final(self).wf() == old(self).wf(),
            match r {
                Some(first) => old(self).results().len() > 0 && first == old(self).results()[0]
                    && final(self).results() == old(self).results().drop_first(),
                None => old(self).results().len() == 0 && final(self).results() == old(self).results(),
            },
    {
        if self.results.len() == 0 {
            None
        } else {
            let first = self.results.remove(0);
            proof {
                assert(self.results@ =~= old(self).results@.drop_first());
            }
            Some(first)
        }
    }
}

} // verus!
