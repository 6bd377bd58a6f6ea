//! A reply that is owed for a task.
//!
//! A [`Promise`] holds the replier of a task together with the task itself. There is one value of a
//! task only, and a promise does not give it away before its own replier has been asked, so no other
//! replier can be asked in its place. Like that of a worker, its `present` is said to hold in this
//! module only.
use vstd::predicate::Predicate;
use vstd::prelude::*;

use crate::reply::Replier;
use crate::ticket::{ran_as, started, Run, Ticket};
use crate::worker::Worker;

verus! {

/// A replier, and what it takes to make the reply: a task, or a task with its ticket.
#[verifier::reject_recursive_types(T)]
pub struct Promise<T, P, X> {
    replier: Replier<T, P>,
    charge: X,
}

impl<T, P: Predicate<T>, X> Promise<T, P, X> {
    /// The replier through which the promise is kept.
    pub closed spec fn replier(&self) -> Replier<T, P> {
        self.replier
    }

    /// What it takes to make the reply.
    pub closed spec fn charge(&self) -> X {
        self.charge
    }

    /// The promise is at hand.
    pub closed spec fn present(&self) -> bool {
        true
    }

    /// Makes a promise of what `charge` gives.
    pub(crate) fn new(replier: Replier<T, P>, charge: X) -> (promise: Self)
        ensures
            promise.replier() == replier,
            promise.charge() == charge,
    {
        Promise { replier, charge }
    }

    /// Has the worker ask whether nobody waits for the reply any more.
    pub(crate) fn is_closed(&self, worker: &Worker) -> (closed: bool)
        ensures
            closed ==> self.replier().given_up_before(*worker),
            closed ==> self.replier().abandoned(),
            !closed ==> self.replier().wanted_by(*worker),
    {
        self.replier.is_closed(worker)
    }
}

impl<T, P: Predicate<T>, W: FnOnce() -> T> Promise<T, P, W> {
    /// Has the worker call the task, once it has been told that the reply is wanted.
    pub(crate) fn call(self, worker: Worker) -> (done: (T, Replier<T, P>))
        requires
            self.replier().wanted_by(worker),
            self.present() && worker.present() ==> self.charge().requires(()),
        ensures
            self.charge().ensures((), done.0),
            done.1 == self.replier(),
    {
        let reply = worker.call_once(self.charge);
        (reply, self.replier)
    }
}

impl<T, P: Predicate<T>, W> Promise<T, P, (Ticket, W)> {
    /// Has the worker tell the ticket that the task runs, once it has been told that the reply is
    /// wanted. The task is to be called next.
    pub(crate) fn start(self, worker: Worker) -> (opened: (Run, Replier<T, P>, W))
        requires
            self.replier().wanted_by(worker),
        ensures
            opened.0.of(self.charge().0),
            opened.0.worker() == worker,
            started(self.charge().0.task().0),
            ran_as(self.charge().0.task().0, opened.0.running()),
            opened.1 == self.replier(),
            opened.2 == self.charge().1,
    {
        let replier = self.replier;
        let (ticket, task) = self.charge;
        let run = ticket.start(worker, &replier);
        (run, replier, task)
    }
}

} // verus!
