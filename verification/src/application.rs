//! The facade between the user's actions and the dispatcher: one task per
//! action at a time, and the last known result of each action.

use vstd::prelude::*;
use std::collections::HashMap;
use crate::action::{Action, ActionFuture, ActionResult, LAST_ACTION_KEY};
use crate::task::Task;
use crate::worker::{TaskOperation, Worker};

verus! {

broadcast use vstd::std_specs::hash::group_hash_axioms;

/// What a caller is told of an action while its first result is awaited:
/// an empty success.
pub open spec fn no_result_yet() -> Result<Seq<char>, Seq<char>> {
    Ok(Seq::empty())
}

/// The last result received for each action.
pub struct ResultCache {
    results: HashMap<u64, ActionResult>,
}

impl View for ResultCache {
    type V = Map<u64, Result<Seq<char>, Seq<char>>>;

    /// The results held, by the action's identity.
    closed spec fn view(&self) -> Map<u64, Result<Seq<char>, Seq<char>>> {
        self.results@.map_values(|r: ActionResult| r@)
    }
}

impl ResultCache {
    /// A cache that holds no result.
    pub fn new() -> (cache: Self)
        ensures
            cache@ == Map::<u64, Result<Seq<char>, Seq<char>>>::empty(),
    {
        let cache = ResultCache { results: HashMap::new() };
        proof {
            assert(cache@ =~= Map::<u64, Result<Seq<char>, Seq<char>>>::empty());
        }
        cache
    }

    /// Makes `result` the last known result of `action`.
    pub fn record(&mut self, action: Action, result: &ActionResult)
        ensures
            final(self)@ == old(self)@.insert(action.key(), result@),
    {
        let copy = result.clone();
        self.results.insert(action.id(), copy);
        proof {
            assert(self@ =~= old(self)@.insert(action.key(), result@));
        }
    }

    /// The last known result of `action`: an empty success where none was
    /// recorded.
    pub fn last(&self, action: Action) -> (last: ActionResult)
        ensures
            last@ == if self@.contains_key(action.key()) {
                self@[action.key()]
            } else {
                no_result_yet()
            },
    {
        let id = action.id();
        match self.results.get(&id) {
            Some(result) => result.clone(),
            None => ActionResult(Ok(String::new())),
        }
    }

    /// The caller's part in starting an action: the request to hand to the
    /// dispatcher, which runs the task under the action's identity in place
    /// of what runs there, and the action's last known result.
    pub fn start<K: Task<Output = ActionResult>>(&self, action_future: ActionFuture<K>) -> (r: (
        TaskOperation<K>,
        ActionResult,
    ))
        ensures
            r.0 == TaskOperation::Add(action_future.action.key(), action_future.task),
            r.1@ == if self@.contains_key(action_future.action.key()) {
                self@[action_future.action.key()]
            } else {
                no_result_yet()
            },
    {
        let ActionFuture { action, task } = action_future;
        let last = self.last(action);
        (TaskOperation::Add(action.id(), task), last)
    }

    /// The caller's part in a tick: what the dispatcher handed over, if it
    /// did, becomes the last known result of its action and is passed on.
    /// A result under an identity that is no action's is dropped.
    pub fn receive(&mut self, drained: Option<(u64, ActionResult)>) -> (r: Option<(Action, ActionResult)>)
        ensures
            match drained {
                Some((id, result)) => if id <= LAST_ACTION_KEY {
                    &&& r matches Some((action, passed))
                    &&& action.key() == id
                    &&& passed == result
                    &&& final(self)@ == old(self)@.insert(id, result@)
                } else {
                    r is None && final(self)@ == old(self)@
                },
                None => r is None && final(self)@ == old(self)@,
            },
    {
        match drained {
            Some((id, result)) => match Action::from_id(id) {
                Some(action) => {
                    self.record(action, &result);
                    Some((action, result))
                },
                None => None,
            },
            None => None,
        }
    }
}

/// The dispatcher together with the last result of each action.
pub struct Application<K: Task<Output = ActionResult>> {
    worker: Worker<K>,
    results: ResultCache,
}

impl<K: Task<Output = ActionResult>> Application<K> {
    /// The dispatcher behind the facade.
    pub closed spec fn worker(&self) -> Worker<K> {
        self.worker
    }

    /// The last result received for each action, by the action's identity.
    pub closed spec fn cached(&self) -> Map<u64, Result<Seq<char>, Seq<char>>> {
        self.results@
    }

    /// The dispatcher is valid, and every identity in it is an action's.
    pub closed spec fn wf(&self) -> bool {
        &&& self.worker.wf()
        &&& forall|id: u64| #[trigger] self.worker.live().contains_key(id) ==> id <= LAST_ACTION_KEY
        &&& forall|j: int| 0 <= j < self.worker.results().len() ==> (#[trigger] self.worker.results()[j]).0
            <= LAST_ACTION_KEY
    }

    /// A facade with no task and no result.
    pub fn new() -> (app: Self)
        ensures
            app.wf(),
            app.worker().live() == Map::<u64, K>::empty(),
            app.worker().results().len() == 0,
            app.cached() == Map::<u64, Result<Seq<char>, Seq<char>>>::empty(),
    {
        Application { worker: Worker::new(), results: ResultCache::new() }
    }

    /// Starts the action's task in place of the one that runs for the same
    /// action, if one does, and gives the action's last known result: an
    /// empty success where none was received yet.
    pub fn run_action(&mut self, action_future: ActionFuture<K>) -> (last: ActionResult)
        requires
            old(self).wf(),
            action_future.task.wf(),
            action_future.task.outcome() is None,
        ensures
            final(self).wf(),
            old(self).worker().sent_to(action_future.action.key(), action_future.task, final(self).worker()),
            final(self).cached() == old(self).cached(),
            last@ == if old(self).cached().contains_key(action_future.action.key()) {
                old(self).cached()[action_future.action.key()]
            } else {
                no_result_yet()
            },
    {
        proof {
            action_future.action.lemma_key_range();
        }
        let (operation, last) = self.results.start(action_future);
        self.worker.apply(operation);
        last
    }

    /// The caller's tick: takes the oldest result that waits, if one does,
    /// makes it the last known result of its action and hands it over.
    /// No task is polled here, and nothing is waited for.
    pub fn poll_action_result(&mut self) -> (r: Option<(Action, ActionResult)>)
        requires
            old(self).wf(),
        ensures
            final(self).wf(),
            final(self).worker().live() == old(self).worker().live(),
            final(self).worker().retired() == old(self).worker().retired(),
            r is Some <==> old(self).worker().results().len() > 0,
            match r {
                Some((action, result)) => {
                    &&& old(self).worker().results()[0] == (action.key(), result)
                    &&& final(self).worker().results() == old(self).worker().results().drop_first()
                    &&& final(self).cached() == old(self).cached().insert(action.key(), result@)
                },
                None => {
                    &&& final(self).worker().results() == old(self).worker().results()
                    &&& final(self).cached() == old(self).cached()
                },
            },
    {
        let drained = self.worker.receive_result();
        proof {
            if old(self).worker.results().len() > 0 {
                assert(old(self).worker.results()[0].0 <= LAST_ACTION_KEY);
                assert forall|j: int| 0 <= j < self.worker.results().len() implies (
                #[trigger] self.worker.results()[j]).0 <= LAST_ACTION_KEY by {
                    assert(self.worker.results()[j] == old(self).worker.results()[j + 1]);
                }
            }
        }
        self.results.receive(drained)
    }

    /// The dispatcher's round: polls every live task once and queues the
    /// outputs of those that are ready. It belongs to whatever drives the
    /// dispatcher, never to the caller's tick.
    pub fn poll_tasks(&mut self)
        requires
            old(self).wf(),
        ensures
            final(self).wf(),
            old(self).worker().polled_to(final(self).worker()),
            final(self).cached() == old(self).cached(),
    {
        let ghost before = self.worker;
        self.worker.poll_tasks();
        proof {
            before.lemma_ids_after_poll(self.worker, LAST_ACTION_KEY);
        }
    }

    /// Ends the session: cancels and drops every live task, and says how
    /// many there were. No result is added for any of them.
    pub fn stop(&mut self) -> (cancelled: usize)
        requires
            old(self).wf(),
        ensures
            final(self).wf(),
            old(self).worker().all_cancelled_to(final(self).worker()),
            final(self).cached() == old(self).cached(),
            cancelled == old(self).worker().live().len(),
    {
        self.worker.stop()
    }

    /// How many tasks are live.
    pub fn task_count(&self) -> (n: usize)
        requires
            self.wf(),
        ensures
            n == self.worker().live().len(),
    {
        self.worker.task_count()
    }
}

} // verus!
