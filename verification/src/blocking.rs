//! Runs one task in a thread pool, detached from its caller.
use vstd::future::FutureAdditionalSpecFns;
use vstd::predicate::Predicate;
use vstd::prelude::*;

use crate::instrumentation::{Running, TaskInstrumentation};
use crate::promise::Promise;
use crate::reply::{outcome_of, reply_channel, Replier};
use crate::ticket::{complete, enqueued, ran_as, started, told, Run, Ticket};
use crate::worker::{dropped, handed_over, spawn_detached, Detached, Worker};

verus! {

/// The rule for a reply: the task returned it.
pub struct Returned<W> {
    pub task: Ghost<W>,
}

impl<T, W: FnOnce() -> T> Predicate<T> for Returned<W> {
    open spec fn predicate(&self, reply: T) -> bool {
        self.task@.ensures((), reply)
    }
}

/// The rule for the reply of a followed task: the task returned it, and a thread of the pool told
/// the ticket that the task runs.
pub struct FollowedReturn<W> {
    pub task: Ghost<W>,
    pub ticket: Ghost<Ticket>,
    pub pool: Ghost<rayon::ThreadPool>,
}

impl<T, W: FnOnce() -> T> Predicate<T> for FollowedReturn<W> {
    open spec fn predicate(&self, reply: T) -> bool {
        &&& self.task@.ensures((), reply)
        &&& exists|worker: Worker| #[trigger]
            worker.serves(self.pool@) && told(self.ticket@, worker)
    }
}

/// What a job leaves to be dropped at its end when its task is followed.
#[verifier::reject_recursive_types(T)]
#[verifier::reject_recursive_types(W)]
pub enum Leftover<T, W> {
    /// The task was called, and ran until now.
    Ran(Running),
    /// The task was given up, and with it the ticket that was never told that it runs.
    GivenUp(Promise<T, FollowedReturn<W>, (Ticket, W)>),
}

/// `task` was called, and returned.
pub open spec fn called<T, W: FnOnce() -> T>(task: W) -> bool {
    exists|reply: T| task.ensures((), reply)
}

/// The instrumentation handed `ticket` out for a task of the queue, and no other at that desk.
pub open spec fn enqueued_alone<I: TaskInstrumentation + ?Sized>(
    instrumentation: &I,
    ticket: Ticket,
) -> bool {
    &&& enqueued(instrumentation, ticket.task())
    &&& complete(seq![ticket])
}

/// The future that was handed out is that of `replier`: `reply` is what the one resolves to since it
/// is what the receiver of the other resolves to, and the one is awaited when the other is.
pub open spec fn heard_by<T, P: Predicate<T>>(
    replier: Replier<T, P>,
    reply: Result<T, ()>,
    awaited: bool,
) -> bool {
    &&& reply == outcome_of(replier.received())
    &&& awaited == replier.awaited()
}

/// `task` may be called by a thread of `pool` that has asked the replier that is promised the reply
/// of the task, and been told that the reply is wanted. Nothing is known of any other call. So no
/// other thread calls the task, and a task whose future is dropped before its job asks is not called.
pub open spec fn callable_once_wanted<T, W: FnOnce() -> T>(
    task: W,
    pool: rayon::ThreadPool,
) -> bool {
    forall|promise: Promise<T, Returned<W>, W>, worker: Worker|
        #![trigger promise.replier().wanted_by(worker)]
        promise.present() && promise.charge() == task && promise.replier().rule() == (Returned {
            task: Ghost(task),
        }) && promise.replier().wanted_by(worker) && worker.serves(pool) && worker.present()
            ==> task.requires(())
}

/// `task` may be called by a thread of `pool` that has asked the replier that is promised the reply
/// of the task, and been told that the reply is wanted, and then has told `ticket` that the task
/// runs. Nothing is known of any other call.
pub open spec fn callable_once_started<T, W: FnOnce() -> T>(
    task: W,
    ticket: Ticket,
    pool: rayon::ThreadPool,
) -> bool {
    forall|promise: Promise<T, FollowedReturn<W>, (Ticket, W)>, run: Run|
        #![trigger promise.replier().wanted_by(run.worker())]
        promise.charge() == (ticket, task) && promise.replier().rule() == (FollowedReturn {
            task: Ghost(task),
            ticket: Ghost(ticket),
            pool: Ghost(pool),
        }) && promise.replier().wanted_by(run.worker()) && run.of(ticket) && started(
            ticket.task().0,
        ) && run.present() && run.worker().serves(pool) && run.worker().present()
            ==> task.requires(())
}

/// If `job` ends, its worker has asked the replier of the future that was handed out, and has then
/// called `task`, or been told that the future had been dropped, and dropped the task.
pub open spec fn attended<T, W: FnOnce() -> T>(
    job: Detached,
    task: W,
    reply: Result<T, ()>,
    awaited: bool,
) -> bool {
    job.ends() ==> exists|promise: Promise<T, Returned<W>, W>|
        {
            &&& #[trigger] promise.charge() == task
            &&& heard_by(promise.replier(), reply, awaited)
            &&& {
                ||| promise.replier().wanted_by(job.worker()) && called(task)
                ||| promise.replier().given_up_before(job.worker()) && !awaited && dropped(
                    Some(promise),
                )
            }
        }
}

/// If `job` ends, its worker has asked the replier of the future that was handed out, and has then
/// told `ticket` that the task runs, called `task`, and dropped what the ticket had handed out for
/// the run, or been told that the future had been dropped, and dropped the task and the ticket.
pub open spec fn attended_followed<T, W: FnOnce() -> T>(
    job: Detached,
    task: W,
    ticket: Ticket,
    reply: Result<T, ()>,
    awaited: bool,
) -> bool {
    job.ends() ==> exists|promise: Promise<T, FollowedReturn<W>, (Ticket, W)>|
        {
            &&& #[trigger] promise.charge() == (ticket, task)
            &&& heard_by(promise.replier(), reply, awaited)
            &&& {
                ||| promise.replier().wanted_by(job.worker()) && told(ticket, job.worker())
                    && called(task) && run_ended::<T, W>(ticket)
                ||| promise.replier().given_up_before(job.worker()) && !awaited && dropped(
                    Leftover::GivenUp(promise),
                )
            }
        }
}

/// What `ticket` handed out for its run was dropped at the end of the job.
pub open spec fn run_ended<T, W>(ticket: Ticket) -> bool {
    exists|running: Running| #[trigger]
        ran_as(ticket.task().0, running) && dropped(Leftover::<T, W>::Ran(running))
}

/// Has the worker run the task and give its reply, unless nobody waits for the reply any more. Tells
/// whether the reply was given while somebody was there to get it, and hands back what is to be
/// dropped when the task is given up.
fn answer<T, W: FnOnce() -> T>(
    closed: bool,
    worker: Worker,
    promise: Promise<T, Returned<W>, W>,
) -> (done: (bool, Option<Promise<T, Returned<W>, W>>))
    requires
        !closed ==> promise.replier().wanted_by(worker),
        !closed && promise.present() && worker.present() ==> promise.charge().requires(()),
        promise.replier().rule() == (Returned { task: Ghost(promise.charge()) }),
    ensures
        closed ==> !done.0 && done.1 == Some(promise),
        !closed ==> called(promise.charge()) && done.1 is None,
        done.0 ==> promise.replier().delivers(),
        !done.0 && !closed ==> promise.replier().abandoned(),
{
    if closed {
        return (false, Some(promise));
    }
    let (reply, replier) = promise.call(worker);
    (replier.send(reply), None)
}

/// Does as [`answer`], and has the worker tell the ticket first that the task runs. The task counts
/// as running until what is handed back is dropped.
fn answer_followed<T, W: FnOnce() -> T>(
    closed: bool,
    worker: Worker,
    promise: Promise<T, FollowedReturn<W>, (Ticket, W)>,
) -> (done: (bool, Leftover<T, W>))
    requires
        !closed ==> promise.replier().wanted_by(worker),
        !closed ==> worker.serves(promise.replier().rule().pool@),
        !closed ==> callable_once_started(
            promise.charge().1,
            promise.charge().0,
            promise.replier().rule().pool@,
        ),
        promise.replier().rule().ticket@ == promise.charge().0,
        promise.replier().rule().task@ == promise.charge().1,
    ensures
        closed ==> !done.0 && done.1 == Leftover::GivenUp(promise),
        !closed ==> told(promise.charge().0, worker),
        !closed ==> called(promise.charge().1),
        !closed ==> (done.1 matches Leftover::Ran(running) && ran_as(
            promise.charge().0.task().0,
            running,
        )),
        done.0 ==> promise.replier().delivers(),
        !done.0 && !closed ==> promise.replier().abandoned(),
{
    if closed {
        return (false, Leftover::GivenUp(promise));
    }
    let (run, replier, task) = promise.start(worker);
    let (reply, running) = run.call_once(task);
    (replier.send(reply), Leftover::Ran(running))
}

/// Has the pool run the task. The receiver resolves to what the task returned, and if nothing keeps
/// the job from returning, whoever awaits the receiver gets a reply.
pub(crate) fn run_detached<T: Send + 'static, W: FnOnce() -> T + Send + 'static>(
    pool: &rayon::ThreadPool,
    task: W,
) -> (spawned: (oneshot::Receiver<T>, Detached))
    requires
        callable_once_wanted(task, *pool),
    ensures
        spawned.0@ matches Ok(reply) ==> task.ensures((), reply),
        handed_over(*pool, spawned.1),
        spawned.1.runs() ==> spawned.1.worker().serves(*pool),
        attended(spawned.1, task, outcome_of(spawned.0@), spawned.0.awaited()),
        spawned.1.finishes() && spawned.0.awaited() ==> spawned.0@ is Ok,
{
    let ghost home = *pool;
    let returned = Returned { task: Ghost(task) };
    let (replier, receiver) = reply_channel(&returned);
    let job = move |worker: Worker, replier: Replier<T, Returned<W>>| -> (left: Option<
        Promise<T, Returned<W>, W>,
    >)
        requires
            worker.serves(home),
            replier.rule() == returned,
        ensures
            replier.delivers() || replier.abandoned(),
            exists|promise: Promise<T, Returned<W>, W>|
                {
                    &&& #[trigger] promise.charge() == task
                    &&& promise.replier() == replier
                    &&& {
                        ||| replier.wanted_by(worker) && called(task)
                        ||| replier.given_up_before(worker) && replier.abandoned() && left == Some(
                            promise,
                        )
                    }
                },
        {
            let promise = Promise::new(replier, task);
            let closed = promise.is_closed(&worker);
            answer(closed, worker, promise).1
        };
    let (detached, _) = spawn_detached(pool, replier, job);
    (receiver, detached)
}

/// Does as [`run_detached`], for a task that the instrumentation follows by `ticket`.
pub(crate) fn run_followed<T: Send + 'static, W: FnOnce() -> T + Send + 'static>(
    pool: &rayon::ThreadPool,
    ticket: Ticket,
    task: W,
) -> (spawned: (oneshot::Receiver<T>, Detached))
    requires
        callable_once_started(task, ticket, *pool),
    ensures
        spawned.0@ matches Ok(reply) ==> task.ensures((), reply),
        spawned.0@ is Ok ==> exists|worker: Worker| #[trigger]
            worker.serves(*pool) && told(ticket, worker),
        handed_over(*pool, spawned.1),
        spawned.1.runs() ==> spawned.1.worker().serves(*pool),
        attended_followed(spawned.1, task, ticket, outcome_of(spawned.0@), spawned.0.awaited()),
        spawned.1.finishes() && spawned.0.awaited() ==> spawned.0@ is Ok,
{
    let ghost home = *pool;
    let returned = FollowedReturn { task: Ghost(task), ticket: Ghost(ticket), pool: Ghost(home) };
    let (replier, receiver) = reply_channel(&returned);
    let job = move |worker: Worker, replier: Replier<T, FollowedReturn<W>>| -> (left: Leftover<
        T,
        W,
    >)
        requires
            worker.serves(home),
            replier.rule() == returned,
        ensures
            replier.delivers() || replier.abandoned(),
            exists|promise: Promise<T, FollowedReturn<W>, (Ticket, W)>|
                {
                    &&& #[trigger] promise.charge() == (ticket, task)
                    &&& promise.replier() == replier
                    &&& {
                        ||| replier.wanted_by(worker) && told(ticket, worker) && called(task) && (
                        left matches Leftover::Ran(running) && ran_as(ticket.task().0, running))
                        ||| replier.given_up_before(worker) && replier.abandoned() && left
                            == Leftover::GivenUp(promise)
                    }
                },
        {
            let promise = Promise::new(replier, (ticket, task));
            let closed = promise.is_closed(&worker);
            answer_followed(closed, worker, promise).1
        };
    let (detached, _) = spawn_detached(pool, replier, job);
    (receiver, detached)
}

} // verus!
