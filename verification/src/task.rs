//! The task contract: a unit of work that is advanced by polling and can be
//! told to stop early, and the rule by which several outputs become one.

use vstd::prelude::*;

verus! {

/// What one step of a task gives: its output, or nothing yet.
pub enum Poll<T> {
    Ready(T),
    Pending,
}

/// A unit of cancellable work that is advanced one step at a time.
///
/// A task hands out its output once. Its owner stops polling it after that,
/// and drops it after a cancellation.
///
/// The four predicates are what the contracts of `poll` and `cancel` speak
/// of. A task type says what they are for itself; of a type that does not,
/// nothing is known but what those contracts state.
pub trait Task {
    type Output;

    /// The state is one that the task's own operations can have produced.
    open spec fn wf(&self) -> bool {
        arbitrary()
    }

    /// The output that the task has handed out, once it has.
    open spec fn outcome(&self) -> Option<Self::Output> {
        arbitrary()
    }

    /// The task was told to stop.
    open spec fn cancelled(&self) -> bool {
        arbitrary()
    }

    /// One poll can take the task from this state to the state `after`.
    open spec fn advances_to(&self, after: &Self) -> bool {
        arbitrary()
    }

    /// Advances the work by one step without waiting for it to complete.
    fn poll(&mut self) -> (r: Poll<Self::Output>)
        requires
            old(self).wf(),
            old(self).outcome() is None,
        ensures
            final(self).wf(),
            old(self).advances_to(final(self)),
            match r {
                Poll::Ready(v) => final(self).outcome() == Some(v),
                Poll::Pending => final(self).outcome() is None,
            },
    ;

    /// Asks the work to stop early. Safe in every state, any number of times.
    fn cancel(&mut self)
        requires
            old(self).wf(),
        ensures
            final(self).wf(),
            final(self).cancelled(),
            final(self).outcome() == old(self).outcome(),
    ;
}

/// A rule that folds the next output into an accumulated one.
pub trait Aggregator<T> {
    /// `out` is what folding `next` into `acc` gives.
    open spec fn combines(&self, acc: T, next: T, out: T) -> bool {
        arbitrary()
    }

    /// Folds `next` into `acc`.
    fn aggregate(&self, acc: &mut T, next: &T)
        ensures
            self.combines(*old(acc), *next, *final(acc)),
    ;
}

/// `accs` lists the accumulated outputs of a fold of `s` from the left:
/// the first is the seed `s[0]`, and each later one is the one before it
/// with the next output of `s` folded in.
pub open spec fn is_fold_trace<T, A: Aggregator<T>>(agg: A, s: Seq<T>, accs: Seq<T>) -> bool {
    &&& s.len() > 0
    &&& accs.len() == s.len()
    &&& accs[0] == s[0]
    &&& forall|i: int| 1 <= i < s.len() ==> agg.combines(accs[i - 1], s[i], #[trigger] accs[i])
}

/// `out` is the outputs `s` folded from the left by `agg`, in their order,
/// with the first of them as the seed.
pub open spec fn folds_to<T, A: Aggregator<T>>(agg: A, s: Seq<T>, out: T) -> bool {
    exists|accs: Seq<T>| #[trigger] is_fold_trace(agg, s, accs) && accs.last() == out
}

/// The outputs that the tasks `s` have handed out, in their order.
pub open spec fn outcomes<K: Task>(s: Seq<K>) -> Seq<K::Output> {
    Seq::new(s.len(), |i: int| s[i].outcome().unwrap())
}

/// Every task of `s` has handed out its output.
pub open spec fn all_done<K: Task>(s: Seq<K>) -> bool {
    forall|i: int| 0 <= i < s.len() ==> (#[trigger] s[i]).outcome() is Some
}

/// Every task of `s` is valid and has yet to hand out its output.
pub open spec fn all_fresh<K: Task>(s: Seq<K>) -> bool {
    forall|i: int| 0 <= i < s.len() ==> (#[trigger] s[i]).wf() && s[i].outcome() is None
}

} // verus!
