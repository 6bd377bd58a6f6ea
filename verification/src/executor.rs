//! Runs tasks in the calling thread or in a thread pool.
use std::future::Future;
use std::sync::Arc;

use vstd::future::FutureAdditionalSpecFns;
use vstd::prelude::*;
use vstd::std_specs::iter::IteratorSpec;

use crate::blocking::{
    attended, attended_followed, callable_once_started, callable_once_wanted, enqueued_alone,
    run_detached, run_followed,
};
use crate::error::{Result, TantivyError};
use crate::instrumentation::{Shared, TaskInstrumentation};
use crate::map::{
    all_enqueued, args_of, callable_in_order, callable_in_pool, callable_once_started_scoped,
    collect_args, enqueue_args, followed_scoped, gathered, map_followed, map_in_order, map_in_pool,
    mapped_in_order, mapped_in_pool, ran, stops_at_first_error, tickets_of,
};
use crate::pool::{build_pool, can_be_built, pool_meets, reads};
use crate::reply::{awaiting, left, ready, right};
use crate::source::Drawn;
use crate::ticket::{told, Desk, Ticket};
use crate::worker::{handed_over, Caller, Detached, Worker};

verus! {

/// Executor makes it possible to run tasks in single thread or
/// in a thread pool.
pub enum Executor {
    /// Single thread variant of an Executor
    SingleThread,
    /// Thread pool variant of an Executor
    ThreadPool(Arc<rayon::ThreadPool>),
    /// Same as ThreadPool but calling instrumentation
    InstrumentedThreadPool(Arc<rayon::ThreadPool>, Shared<dyn TaskInstrumentation>),
}

impl Clone for Executor {
    fn clone(&self) -> (copy: Self)
        ensures
            copy == *self,
    {
        match self {
            Executor::SingleThread => Executor::SingleThread,
            Executor::ThreadPool(pool) => Executor::ThreadPool(pool.clone()),
            Executor::InstrumentedThreadPool(pool, instrumentation) => {
                Executor::InstrumentedThreadPool(pool.clone(), instrumentation.clone())
            },
        }
    }
}

impl From<Arc<rayon::ThreadPool>> for Executor {
    fn from(thread_pool: Arc<rayon::ThreadPool>) -> (executor: Self) {
        Executor::ThreadPool(thread_pool)
    }
}

impl vstd::std_specs::convert::FromSpecImpl<Arc<rayon::ThreadPool>> for Executor {
    open spec fn obeys_from_spec() -> bool {
        true
    }

    open spec fn from_spec(thread_pool: Arc<rayon::ThreadPool>) -> Self {
        Executor::ThreadPool(thread_pool)
    }
}

impl Executor {
    /// What a map of `f` over `args` gives.
    ///
    /// In the calling thread, the tasks run in order up to the first that fails. In a thread pool,
    /// every task runs, and when some fail, the error that arrives first comes back. With
    /// instrumentation, each task is besides followed, by a ticket of its own, from the queue to the
    /// end of its run in the pool.
    pub open spec fn maps<A, R, F: Fn(A) -> Result<R>>(
        self,
        f: F,
        args: Seq<A>,
        result: Result<Vec<R>>,
    ) -> bool {
        match self {
            Executor::SingleThread => mapped_in_order(f, args, result),
            Executor::ThreadPool(_) => mapped_in_pool(f, args, result) && gathered(
                f,
                args,
                result,
            ),
            Executor::InstrumentedThreadPool(pool, instrumentation) => {
                &&& mapped_in_pool(f, args, result)
                &&& gathered(f, args, result)
                &&& exists|tickets: Seq<Ticket>|
                    tickets.len() == args.len() && #[trigger] followed_scoped(
                        &*instrumentation.0,
                        tickets,
                        *pool,
                    )
            },
        }
    }

    /// Where and when a map calls `f`.
    ///
    /// In the calling thread, which owns `f`, for an argument only when it has succeeded for all those
    /// before. In a thread pool, for every argument, only in a thread of the pool. With
    /// instrumentation, for an argument only when besides all the tasks have been enqueued and that
    /// thread has told the ticket of the argument that it runs.
    pub open spec fn may_map<A, R, F: Fn(A) -> Result<R>>(self, f: F, args: Seq<A>) -> bool {
        match self {
            Executor::SingleThread => forall|caller: Caller<F>| #[trigger]
                caller.present() ==> callable_in_order(f, args, caller),
            Executor::ThreadPool(pool) => callable_in_pool(f, args, *pool),
            Executor::InstrumentedThreadPool(pool, instrumentation) => {
                callable_once_started_scoped(f, args, &*instrumentation.0, *pool)
            },
        }
    }

    /// Where and when `spawn_blocking` calls `task`.
    ///
    /// In the calling thread, at once. In a thread pool, only in a thread of the pool that has been
    /// told that the reply is wanted, so not when the future was dropped before. With
    /// instrumentation, only when besides that thread has told the ticket of the task that it runs.
    pub open spec fn may_call<T, W: FnOnce() -> T>(self, task: W) -> bool {
        match self {
            Executor::SingleThread => forall|caller: Caller<W>| #[trigger]
                caller.present() && caller.callee() == task ==> task.requires(()),
            Executor::ThreadPool(pool) => callable_once_wanted(task, *pool),
            Executor::InstrumentedThreadPool(pool, instrumentation) => forall|ticket: Ticket|
                #[trigger] enqueued_alone(&*instrumentation.0, ticket) ==> callable_once_started(
                    task,
                    ticket,
                    *pool,
                ),
        }
    }

    /// What the future of `task` resolves to.
    ///
    /// A reply is what the task returned. In the calling thread there always is one, awaited or not.
    /// In a thread pool a job that attends to the task is handed over to the pool, and if nothing
    /// keeps that job from returning, whoever awaits the future gets a reply. With instrumentation,
    /// a ticket is besides issued for the task, and told that it runs before the task replies.
    pub open spec fn replies<T, W: FnOnce() -> T>(
        self,
        task: W,
        reply: std::result::Result<T, ()>,
        awaited: bool,
    ) -> bool {
        match self {
            Executor::SingleThread => reply matches Ok(value) && task.ensures((), value),
            Executor::ThreadPool(pool) => {
                &&& reply matches Ok(value) ==> task.ensures((), value)
                &&& exists|job: Detached| #[trigger]
                    handed_over(*pool, job) && attended(job, task, reply, awaited) && (job.runs()
                        ==> job.worker().serves(*pool)) && (job.finishes() && awaited
                        ==> reply is Ok)
            },
            Executor::InstrumentedThreadPool(pool, instrumentation) => {
                &&& reply matches Ok(value) ==> task.ensures((), value)
                &&& exists|job: Detached, ticket: Ticket|
                    #![trigger handed_over(*pool, job), enqueued_alone(&*instrumentation.0, ticket)]
                    {
                        &&& handed_over(*pool, job)
                        &&& enqueued_alone(&*instrumentation.0, ticket)
                        &&& attended_followed(job, task, ticket, reply, awaited)
                        &&& job.runs() ==> job.worker().serves(*pool)
                        &&& job.finishes() && awaited ==> reply is Ok
                        &&& reply is Ok ==> exists|worker: Worker| #[trigger]
                            worker.serves(*pool) && told(ticket, worker)
                    }
            },
        }
    }

    /// `executor` says what the build of a pool said: an executor on the pool that was built, or the
    /// reason why there is none, in the words of `rayon`.
    pub open spec fn wraps(
        built: std::result::Result<rayon::ThreadPool, rayon::ThreadPoolBuildError>,
        executor: Result<Executor>,
    ) -> bool {
        match built {
            Ok(pool) => executor == Result::<Executor>::Ok(Executor::ThreadPool(Arc::new(pool))),
            Err(cause) => executor matches Err(TantivyError::SystemError(text)) && reads(
                cause,
                text,
            ),
        }
    }

    /// Creates an Executor that performs all task in the caller thread.
    pub fn single_thread() -> (executor: Executor)
        ensures
            executor == Executor::SingleThread,
    {
        Executor::SingleThread
    }

    /// Creates an Executor that dispatches the tasks in a thread pool.
    ///
    /// The threads are named by the prefix and their index. Whether they can be started is up to
    /// the operating system. A thread cannot have a null character in its name.
    pub fn multi_thread(num_threads: usize, prefix: &'static str) -> (built: Result<Executor>)
        requires
            !prefix@.contains('\0'),
        ensures
            built matches Ok(executor) ==> (executor matches Executor::ThreadPool(pool) && pool_meets(
                num_threads as nat,
                prefix@,
                *pool,
            )),
            exists|outcome: std::result::Result<rayon::ThreadPool, rayon::ThreadPoolBuildError>|
                #[trigger] can_be_built(num_threads as nat, prefix@, outcome) && Executor::wraps(
                    outcome,
                    built,
                ),
    {
        match build_pool(num_threads, prefix) {
            Ok(pool) => Ok(Executor::ThreadPool(Arc::new(pool))),
            Err(error) => Err(error),
        }
    }

    /// Perform a map in the thread pool.
    ///
    /// Regardless of the executor (`SingleThread` or `ThreadPool`), panics in the task
    /// will propagate to the caller.
    pub fn map<A, R, F>(&self, f: F, args: impl Iterator<Item = A>) -> (result: Result<Vec<R>>)
    where
        A: Send,
        R: Send,
        F: Sized + Sync + Fn(A) -> Result<R>,
        requires
            args.obeys_prophetic_iter_laws(),
            args.decrease() is Some,
            self.may_map(f, args.remaining()),
        ensures
            self.maps(f, args.remaining(), result),
            self is SingleThread ==> exists|drawn, outcomes: Seq<Result<R>>|
                {
                    &&& #[trigger] Drawn::from(&drawn, args)
                    &&& #[trigger] ran(f, args.remaining(), outcomes)
                    &&& stops_at_first_error(outcomes, args.remaining().len(), result)
                    &&& drawn.left().remaining() == args.remaining().skip(outcomes.len() as int)
                },
    {
        match self {
            Executor::SingleThread => {
                let caller = Caller::with(f);
                map_in_order(caller, args)
            },
            Executor::ThreadPool(pool) => {
                let all = collect_args(args);
                map_in_pool(pool, &f, all)
            },
            Executor::InstrumentedThreadPool(pool, instrumentation) => {
                let desk = Desk::open(&*instrumentation.0);
                let all = enqueue_args(args, desk);
                let ghost pairs = all@;
                assert(args_of(pairs) == args.remaining());
                assert(all_enqueued(&*instrumentation.0, tickets_of(pairs)));
                let result = map_followed(pool, &f, all);
                assert(followed_scoped(&*instrumentation.0, tickets_of(pairs), **pool));
                result
            },
        }
    }

    /// Spawn a task on the pool, returning a future completing on task success.
    ///
    /// If the task panics in a pool, the future resolves to `Err(())`, provided that the pool has a
    /// panic handler, as those of [`Executor::multi_thread`] have: without one, `rayon` aborts the
    /// process. In the calling thread the panic propagates to the caller. A task of a pool whose
    /// future is dropped before it starts is not called.
    pub fn spawn_blocking<T: Send + 'static>(
        &self,
        cpu_intensive_task: impl FnOnce() -> T + Send + 'static,
    ) -> (future: impl Future<Output = std::result::Result<T, ()>>)
        requires
            self.may_call(cpu_intensive_task),
        ensures
            self.replies(cpu_intensive_task, future@, future.awaited()),
    {
        match self {
            Executor::SingleThread => {
                let caller = Caller::with(cpu_intensive_task);
                left(ready(Ok(caller.call_once())))
            },
            Executor::ThreadPool(pool) => {
                let (receiver, _) = run_detached(pool, cpu_intensive_task);
                right(awaiting(receiver))
            },
            Executor::InstrumentedThreadPool(pool, instrumentation) => {
                let mut desk = Desk::open(&*instrumentation.0);
                let ticket = Ticket::issue(&mut desk);
                let receipt = desk.close();
                assert(receipt.lists(seq![ticket]));
                assert(enqueued_alone(&*instrumentation.0, ticket));
                let (receiver, _) = run_followed(pool, ticket, cpu_intensive_task);
                right(awaiting(receiver))
            },
        }
    }
}

} // verus!
