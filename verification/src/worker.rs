//! The threads that call the tasks.
//!
//! A task is called in the calling thread, which a [`Caller`] stands for, or by a [`Worker`], a thread
//! of a pool that runs a job. Values of both types stay in the thread that they stand for. Each has
//! a spec function `present` that holds of every value, but is said to hold in this module only. So
//! what may be called where a worker is present can be called through [`Worker::call`] and
//! [`Worker::call_once`] only, for which the worker must be at hand, and the same goes for a caller.
use std::marker::PhantomData;
use std::rc::Rc;

use vstd::predicate::Predicate;
use vstd::prelude::*;

use crate::pool::pool_threads;
use crate::reply::Replier;

verus! {

/// The scope of `rayon` in which tasks are spawned.
#[verifier::external_type_specification]
#[verifier::external_body]
pub struct ExScope<'scope>(rayon::Scope<'scope>);

/// `job` was handed over to `pool`, to be run at some time.
pub uninterp spec fn handed_over(pool: rayon::ThreadPool, job: Detached) -> bool;

/// The thread that calls into the library, with the function that it was called with. The caller owns
/// the function: one that is not `Send` can have its caller in no other thread.
pub struct Caller<F> {
    callee: F,
    stays: PhantomData<Rc<()>>,
}

impl<F> Caller<F> {
    /// The function that the caller owns.
    pub closed spec fn callee(&self) -> F {
        self.callee
    }

    /// The caller is at hand.
    pub closed spec fn present(&self) -> bool {
        true
    }

    /// The thread that makes this call, with `callee`.
    pub(crate) fn with(callee: F) -> (caller: Caller<F>)
        ensures
            caller.callee() == callee,
    {
        Caller { callee, stays: PhantomData }
    }

    /// Calls the function in the calling thread.
    pub(crate) fn call<A, O>(&self, arg: A) -> (outcome: O)
    where
        F: Fn(A) -> O,
        requires
            self.present() ==> self.callee().requires((arg,)),
        ensures
            self.callee().ensures((arg,), outcome),
    {
        (self.callee)(arg)
    }

    /// Calls the function in the calling thread, and ends the caller.
    pub(crate) fn call_once<T>(self) -> (reply: T)
    where
        F: FnOnce() -> T,
        requires
            self.present() ==> self.callee().requires(()),
        ensures
            self.callee().ensures((), reply),
    {
        (self.callee)()
    }
}

/// A thread of a pool, for the time of one job. It is good for one call, so that each call has a job
/// of its own.
pub struct Worker {
    pool: Ghost<rayon::ThreadPool>,
    index: Ghost<nat>,
    stays: PhantomData<Rc<()>>,
}

impl Worker {
    /// The pool that the thread belongs to.
    pub closed spec fn pool(&self) -> rayon::ThreadPool {
        self.pool@
    }

    /// The index of the thread in its pool.
    pub closed spec fn index(&self) -> nat {
        self.index@
    }

    /// The worker is one of the threads of `pool`.
    pub open spec fn serves(&self, pool: rayon::ThreadPool) -> bool {
        &&& self.pool() == pool
        &&& self.index() < pool_threads(pool)
    }

    /// The worker is at hand.
    pub closed spec fn present(&self) -> bool {
        true
    }

    /// Calls `f` in the thread of the worker.
    pub(crate) fn call<A, O, F: Fn(A) -> O>(self, f: &F, arg: A) -> (outcome: O)
        requires
            self.present() ==> f.requires((arg,)),
        ensures
            f.ensures((arg,), outcome),
    {
        f(arg)
    }

    /// Calls `task` in the thread of the worker.
    pub(crate) fn call_once<T, W: FnOnce() -> T>(self, task: W) -> (reply: T)
        requires
            self.present() ==> task.requires(()),
        ensures
            task.ensures((), reply),
    {
        task()
    }
}

/// The end of a job, at which what the job returned is dropped.
pub struct Dropped<D> {
    what: Ghost<D>,
    done: Ghost<bool>,
}

impl<D> Dropped<D> {
    /// The job comes to its end, and `what` is what it returned and what is dropped then. This is
    /// foretold.
    pub closed spec fn drops(&self, what: D) -> bool {
        self.done@ && self.what@ == what
    }
}

/// `what` was returned by a job that came to its end, and dropped then.
pub open spec fn dropped<D>(what: D) -> bool {
    exists|end: Dropped<D>| #[trigger] end.drops(what)
}

/// `body` was run by a thread of `pool`, and returned, and what it returned was dropped.
pub open spec fn run_in<D, W: FnOnce(Worker) -> D>(
    pool: rayon::ThreadPool,
    body: W,
    end: Dropped<D>,
) -> bool {
    exists|worker: Worker, what: D|
        #![trigger worker.serves(pool), end.drops(what)]
        worker.serves(pool) && body.ensures((worker,), what) && end.drops(what)
}

/// A scope in which tasks can be spawned.
pub struct TaskScope<'a, 'scope> {
    scope: &'a rayon::Scope<'scope>,
    pool: Ghost<rayon::ThreadPool>,
    completes: Ghost<bool>,
}

impl<'a, 'scope> TaskScope<'a, 'scope> {
    /// The pool that runs the tasks of the scope.
    pub closed spec fn pool(&self) -> rayon::ThreadPool {
        self.pool@
    }

    /// Whether the call that opened the scope returns, rather than panics. This is foretold: it is
    /// settled by the time that call ends.
    pub closed spec fn completes(&self) -> bool {
        self.completes@
    }

    /// Spawns a task with `rayon::Scope::spawn`, which has a thread of the pool run it at some time
    /// before the scope completes, and passes a panic of it on to whoever opened the scope. Claims
    /// that it is a thread of the pool of the scope that runs the task, and that in a scope that
    /// completes the task returns, and what it returns is dropped.
    #[verifier::external_body]
    pub(crate) fn spawn<D, W>(&self, body: W) -> (end: Dropped<D>)
    where
        W: FnOnce(Worker) -> D + Send + 'scope
        requires
            forall|worker: Worker| #[trigger] worker.serves(self.pool()) ==> body.requires((worker,)),
        ensures
            self.completes() ==> run_in(self.pool(), body, end),
    {
        self.scope.spawn(
            move |_| {
                let (pool, index) = (Ghost(arbitrary()), Ghost(arbitrary()));
                drop(body(Worker { pool, index, stays: PhantomData }))
            },
        );
        Dropped { what: Ghost(arbitrary()), done: Ghost(arbitrary()) }
    }
}

/// `op` was called, and returned, in a scope of `pool` that completes.
pub open spec fn completed<'scope, OP: FnOnce(&TaskScope<'_, 'scope>)>(
    pool: rayon::ThreadPool,
    op: OP,
    done: (),
) -> bool {
    exists|scope: &TaskScope<'_, 'scope>|
        scope.pool() == pool && scope.completes() && #[trigger] op.ensures((scope,), done)
}

/// Opens a scope with `rayon::ThreadPool::scope`, which calls `op` in the pool and returns when
/// `op` and all the tasks that were spawned in the scope have returned. Claims that `op` was
/// called with a scope of that pool, and that the scope completes.
#[verifier::external_body]
pub(crate) fn in_scope<'scope, OP>(pool: &rayon::ThreadPool, op: OP) -> (done: ())
where
    OP: FnOnce(&TaskScope<'_, 'scope>) + Send,
    requires
        forall|scope: &TaskScope<'_, 'scope>| #[trigger]
            scope.pool() == *pool ==> op.requires((scope,)),
    ensures
        completed(*pool, op, done),
{
    pool.scope(
        |scope| op(&TaskScope { scope, pool: Ghost(arbitrary()), completes: Ghost(arbitrary()) }),
    )
}

/// A job that a pool runs at some time, detached from its caller.
pub struct Detached {
    worker: Ghost<Worker>,
    runs: Ghost<bool>,
    finishes: Ghost<bool>,
}

impl Detached {
    /// The worker that runs the job, if one does. This is foretold.
    pub closed spec fn worker(&self) -> Worker {
        self.worker@
    }

    /// Whether the pool gets to run the job. This is foretold.
    pub closed spec fn runs(&self) -> bool {
        self.runs@
    }

    /// Whether nothing in the job keeps it from returning when it is run: it neither panics nor goes
    /// on for ever. This is foretold.
    pub closed spec fn finishes(&self) -> bool {
        self.finishes@
    }

    /// The job is run to its end.
    pub open spec fn ends(&self) -> bool {
        self.runs() && self.finishes()
    }
}

/// No job that is handed over to `pool` panics or goes on for ever.
pub open spec fn all_finish(pool: rayon::ThreadPool) -> bool {
    forall|job: Detached| #[trigger] handed_over(pool, job) ==> job.finishes()
}

/// `worker` ran `body` with `replier`, and it returned, and what it returned was dropped.
pub open spec fn run_by<T, P, D, W: FnOnce(Worker, Replier<T, P>) -> D>(
    worker: Worker,
    body: W,
    replier: Replier<T, P>,
    end: Dropped<D>,
) -> bool {
    exists|what: D| body.ensures((worker, replier), what) && #[trigger] end.drops(what)
}

/// Hands a job over with `rayon::ThreadPool::spawn`, which has a thread of the pool run it at some
/// later time, with the replier that it is to use. Claims that the job was handed over to the pool;
/// that, if it is run, a thread of the pool runs it; that the job returns if it ends, and what it
/// returns is dropped; and, since `rayon` drops nothing that a job holds before it runs the job, that
/// the job is run if its replier is used or dropped. When the job is run, and whether that is before
/// the process ends, is up to the machine.
#[verifier::external_body]
pub(crate) fn spawn_detached<T, P, D, W>(
    pool: &rayon::ThreadPool,
    replier: Replier<T, P>,
    body: W,
) -> (spawned: (Detached, Dropped<D>))
where
    T: Send + 'static,
    P: Predicate<T> + 'static,
    W: FnOnce(Worker, Replier<T, P>) -> D + Send + 'static,
    requires
        forall|worker: Worker| #[trigger]
            worker.serves(*pool) ==> body.requires((worker, replier)),
    ensures
        handed_over(*pool, spawned.0),
        spawned.0.runs() ==> spawned.0.worker().serves(*pool),
        spawned.0.ends() ==> run_by(spawned.0.worker(), body, replier, spawned.1),
        replier.settled() ==> spawned.0.runs(),
{
    pool.spawn(
        move || {
            let (pool, index) = (Ghost(arbitrary()), Ghost(arbitrary()));
            drop(body(Worker { pool, index, stays: PhantomData }, replier))
        },
    );
    let (worker, runs, finishes) = (Ghost(arbitrary()), Ghost(arbitrary()), Ghost(arbitrary()));
    let end = Dropped { what: Ghost(arbitrary()), done: Ghost(arbitrary()) };
    (Detached { worker, runs, finishes }, end)
}

} // verus!
