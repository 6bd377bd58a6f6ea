//! Laws that hold of every executor.
use std::sync::Arc;

use vstd::prelude::*;

use crate::blocking::{
    attended, attended_followed, called, callable_once_started, enqueued_alone, heard_by, run_ended,
    FollowedReturn, Leftover, Returned,
};
use crate::channel::Channel;
use crate::error::{Result, TantivyError};
use crate::executor::Executor;
use crate::fruits::{
    arrived, collected, is_first_error, lemma_no_error, lemma_slot, lemma_slot_is_last, slot,
};
use crate::instrumentation::{Enqueued, EnqueuedTask, Running, Shared, TaskInstrumentation};
use crate::map::{
    all_enqueued, callable_in_order, callable_with, can_succeed, followed_scoped, ran, reached,
    reports_some_error, stops_at_first_error, Assignment,
};
use crate::pool::{
    decimal, granted, lemma_decimal, number_of, pool_meets, pool_thread_name, pool_threads,
};
use crate::promise::Promise;
use crate::ticket::{
    ended_scoped, enqueued, enqueued_scoped, lemma_one_position, ran_as, ran_scoped_as, started,
    started_scoped, told, Receipt, Run, Ticket,
};
use crate::worker::{all_finish, dropped, handed_over, Caller, Detached, Dropped, Worker};

verus! {

/// `f` has no choice about what it returns for each of the arguments.
pub open spec fn deterministic<A, R, F: Fn(A) -> Result<R>>(f: F, args: Seq<A>) -> bool {
    forall|i: int, one: Result<R>, other: Result<R>|
        0 <= i < args.len() && #[trigger] f.ensures((args[i],), one) && #[trigger] f.ensures(
            (args[i],),
            other,
        ) ==> one == other
}

/// `f` can return a fruit for `arg`.
pub open spec fn has_fruit<A, R, F: Fn(A) -> Result<R>>(f: F, arg: A) -> bool {
    exists|fruit: R| f.ensures((arg,), Result::<R>::Ok(fruit))
}

/// `f` can fail for one of the arguments.
pub open spec fn can_fail<A, R, F: Fn(A) -> Result<R>>(f: F, args: Seq<A>) -> bool {
    exists|i: int, outcome: Result<R>|
        0 <= i < args.len() && outcome is Err && #[trigger] f.ensures((args[i],), outcome)
}

/// `f` can fail for one of the arguments at most.
pub open spec fn one_failure_at_most<A, R, F: Fn(A) -> Result<R>>(f: F, args: Seq<A>) -> bool {
    forall|i: int, j: int, one: Result<R>, other: Result<R>|
        0 <= i < args.len() && 0 <= j < args.len() && one is Err && other is Err
            && #[trigger] f.ensures((args[i],), one) && #[trigger] f.ensures((args[j],), other)
            ==> i == j
}

/// The executor hands its tasks out to `pool`.
pub open spec fn hands_out_to(executor: Executor, pool: rayon::ThreadPool) -> bool {
    match executor {
        Executor::SingleThread => false,
        Executor::ThreadPool(own) => *own == pool,
        Executor::InstrumentedThreadPool(own, _) => *own == pool,
    }
}

/// `worker` is one of the first `num_threads` threads of `pool`, or of as many of them as a pool can
/// have, and is named by the prefix and its index.
pub open spec fn is_thread_of(
    worker: Worker,
    pool: rayon::ThreadPool,
    num_threads: nat,
    prefix: Seq<char>,
) -> bool {
    &&& worker.pool() == pool
    &&& worker.index() < granted(num_threads)
    &&& pool_thread_name(pool, worker.index()) == prefix + decimal(worker.index())
}

/// No job that is handed over to the pool of the executor, where it has one, panics or goes on for
/// ever.
pub open spec fn all_tasks_finish(executor: Executor) -> bool {
    match executor {
        Executor::SingleThread => true,
        Executor::ThreadPool(pool) => all_finish(*pool),
        Executor::InstrumentedThreadPool(pool, _) => all_finish(*pool),
    }
}

/// `reply` is what `task` returned, unless the very job that attends to the task panics or goes on for
/// ever.
pub open spec fn answered_by_own_job<T, W: FnOnce() -> T>(
    executor: Executor,
    task: W,
    reply: std::result::Result<T, ()>,
) -> bool {
    match executor {
        Executor::SingleThread => reply matches Ok(value) && task.ensures((), value),
        Executor::ThreadPool(pool) => exists|job: Detached| #[trigger]
            handed_over(*pool, job) && attended(job, task, reply, true) && (job.finishes() ==> (
            reply matches Ok(value) && task.ensures((), value))),
        Executor::InstrumentedThreadPool(pool, _) => exists|job: Detached, ticket: Ticket|
            handed_over(*pool, job) && #[trigger] attended_followed(job, task, ticket, reply, true) && (
            job.finishes() ==> (reply matches Ok(value) && task.ensures((), value))),
    }
}

/// The fruits of a map come in the order of the arguments, one for each, whichever executor ran
/// the tasks.
pub proof fn law_fruits_in_order<A, R, F: Fn(A) -> Result<R>>(
    executor: Executor,
    f: F,
    args: Seq<A>,
    result: Result<Vec<R>>,
)
    requires
        executor.maps(f, args, result),
        result is Ok,
    ensures
        result->Ok_0.len() == args.len(),
        forall|i: int|
            0 <= i < args.len() ==> f.ensures(
                (args[i],),
                Result::<R>::Ok(#[trigger] result->Ok_0[i]),
            ),
{
    let outcomes = outcomes_of(executor, f, args, result);
    assert forall|i: int| 0 <= i < args.len() implies f.ensures(
        (args[i],),
        Result::<R>::Ok(#[trigger] result->Ok_0[i]),
    ) by {
        assert(outcomes[i] == Result::<R>::Ok(result->Ok_0[i]));
    }
}

/// A map fails only with an error that one of its tasks returned, whichever executor ran them: no
/// executor adds failures of its own.
pub proof fn law_errors_come_from_tasks<A, R, F: Fn(A) -> Result<R>>(
    executor: Executor,
    f: F,
    args: Seq<A>,
    result: Result<Vec<R>>,
)
    requires
        executor.maps(f, args, result),
        result is Err,
    ensures
        exists|i: int|
            0 <= i < args.len() && f.ensures(
                (#[trigger] args[i],),
                Result::<R>::Err(result->Err_0),
            ),
{
    let outcomes = outcomes_of(executor, f, args, result);
    let error = Result::<R>::Err(result->Err_0);
    if executor is SingleThread {
        assert(outcomes[outcomes.len() - 1] == error);
    }
    let i = choose|i: int| 0 <= i < outcomes.len() && outcomes[i] == error;
    assert(f.ensures((args[i],), outcomes[i]));
}

/// A map succeeds when none of its tasks can fail.
pub proof fn law_success<A, R, F: Fn(A) -> Result<R>>(
    executor: Executor,
    f: F,
    args: Seq<A>,
    result: Result<Vec<R>>,
)
    requires
        executor.maps(f, args, result),
        !can_fail(f, args),
    ensures
        result is Ok,
{
    if result is Err {
        law_errors_come_from_tasks(executor, f, args, result);
        let i = choose|i: int|
            0 <= i < args.len() && f.ensures(
                (#[trigger] args[i],),
                Result::<R>::Err(result->Err_0),
            );
        let outcome = Result::<R>::Err(result->Err_0);
        assert(outcome is Err && f.ensures((args[i],), outcome));
    }
}

/// Where the tasks have no choice, it makes no difference which executor runs them: two maps of the
/// same function over the same arguments both succeed, with the same fruits, or both fail, and where
/// one argument can fail at most, with the same error.
pub proof fn law_executors_agree<A, R, F: Fn(A) -> Result<R>>(
    one: Executor,
    other: Executor,
    f: F,
    args: Seq<A>,
    from_one: Result<Vec<R>>,
    from_other: Result<Vec<R>>,
)
    requires
        one.maps(f, args, from_one),
        other.maps(f, args, from_other),
        deterministic(f, args),
    ensures
        from_one is Ok <==> from_other is Ok,
        from_one is Ok ==> from_one->Ok_0@ == from_other->Ok_0@,
        from_one is Err && one_failure_at_most(f, args) ==> from_one->Err_0 == from_other->Err_0,
{
    if from_one is Ok {
        lemma_same_success(one, other, f, args, from_one, from_other);
    }
    if from_other is Ok {
        lemma_same_success(other, one, f, args, from_other, from_one);
    }
    if from_one is Err && one_failure_at_most(f, args) {
        law_errors_come_from_tasks(one, f, args, from_one);
        law_errors_come_from_tasks(other, f, args, from_other);
        let error = Result::<R>::Err(from_one->Err_0);
        let other_error = Result::<R>::Err(from_other->Err_0);
        let i = choose|i: int| 0 <= i < args.len() && f.ensures((#[trigger] args[i],), error);
        let j = choose|j: int| 0 <= j < args.len() && f.ensures((#[trigger] args[j],), other_error);
        assert(i == j);
    }
}

/// In the calling thread, a failure is that of the first argument that fails: the tasks of all the
/// arguments before it succeed.
pub proof fn law_first_failure_in_order<A, R, F: Fn(A) -> Result<R>>(
    f: F,
    args: Seq<A>,
    result: Result<Vec<R>>,
)
    requires
        Executor::SingleThread.maps(f, args, result),
        result is Err,
    ensures
        exists|i: int|
            0 <= i < args.len() && f.ensures(
                (#[trigger] args[i],),
                Result::<R>::Err(result->Err_0),
            ) && forall|j: int| 0 <= j < i ==> has_fruit(f, #[trigger] args[j]),
{
    let outcomes = outcomes_of(Executor::SingleThread, f, args, result);
    let last = outcomes.len() - 1;
    assert forall|j: int| 0 <= j < last implies has_fruit(f, #[trigger] args[j]) by {
        assert(f.ensures((args[j],), Result::<R>::Ok(outcomes[j]->Ok_0)));
    }
}

/// In a thread pool, a failure is that of the first task to fail: of the outcomes, in the order in
/// which they arrive, all those before it are successes.
pub proof fn law_first_failure_to_arrive<A, R, F: Fn(A) -> Result<R>>(
    executor: Executor,
    f: F,
    args: Seq<A>,
    result: Result<Vec<R>>,
)
    requires
        executor.maps(f, args, result),
        !(executor is SingleThread),
        result is Err,
    ensures
        exists|
            channel: Channel<Result<R>, Assignment<'_, A, F>>,
            messages: Seq<(usize, Result<R>)>,
            k: int,
        |
            {
                &&& *channel.rule().f == f
                &&& channel.rule().args@ == args
                &&& #[trigger] channel.carried(messages)
                &&& 0 <= k < messages.len()
                &&& (#[trigger] messages[k]).0 < args.len()
                &&& f.ensures((args[messages[k].0 as int],), messages[k].1)
                &&& messages[k].1 == Result::<R>::Err(result->Err_0)
                &&& forall|j: int| 0 <= j < k ==> (#[trigger] messages[j]).1 is Ok
            },
{
    let (channel, messages) = choose|
        channel: Channel<Result<R>, Assignment<'_, A, F>>,
        messages: Seq<(usize, Result<R>)>,
    |
        {
            &&& *channel.rule().f == f
            &&& channel.rule().args@ == args
            &&& args.len() <= usize::MAX
            &&& forall|i: usize| i < args.len() ==> #[trigger] channel.arrivals().contains(i)
            &&& #[trigger] channel.carried(messages)
            &&& collected(messages, args.len(), result)
        };
    if forall|k: int| !is_first_error(messages, k) {
        lemma_no_error(messages);
        outcomes_of(executor, f, args, result);
        assert forall|pos: int| 0 <= pos < args.len() implies slot(messages, pos) is Some by {
            lemma_slot(messages, pos);
            assert(channel.arrivals().contains(pos as usize));
            let k = choose|k: int|
                0 <= k < channel.arrivals().len() && channel.arrivals()[k] == pos as usize;
            assert(messages[k].0 == pos);
        }
    }
    let k = choose|k: int|
        #[trigger] is_first_error(messages, k) && result == Result::<Vec<R>>::Err(
            messages[k].1->Err_0,
        );
    assert(channel.carried(messages) && messages[k].1 == Result::<R>::Err(result->Err_0));
}

/// The order in which the outcomes of a batch arrive does not matter to its fruits: when there is
/// one message for each position at most, two orders of the same messages give the same fruits, or
/// both give an error.
pub proof fn law_arrival_order<R>(
    one: Seq<(usize, Result<R>)>,
    other: Seq<(usize, Result<R>)>,
    num_fruits: nat,
    from_one: Result<Vec<R>>,
    from_other: Result<Vec<R>>,
)
    requires
        one.to_multiset() == other.to_multiset(),
        forall|j: int, k: int|
            0 <= j < k < one.len() ==> (#[trigger] one[j]).0 != (#[trigger] one[k]).0,
        collected(one, num_fruits, from_one),
        collected(other, num_fruits, from_other),
    ensures
        from_one is Ok <==> from_other is Ok,
        from_one is Ok ==> from_one->Ok_0@ == from_other->Ok_0@,
{
    assert forall|message: (usize, Result<R>)| #[trigger]
        one.contains(message) == other.contains(message) by {
        vstd::seq_lib::to_multiset_contains(one, message);
        vstd::seq_lib::to_multiset_contains(other, message);
    }
    if exists|k: int| is_first_error(one, k) {
        lemma_same_failures(one, other);
    }
    if exists|k: int| is_first_error(other, k) {
        lemma_same_failures(other, one);
    }
    assert forall|pos: int| slot(one, pos) == slot(other, pos) by {
        lemma_slot(one, pos);
        lemma_slot(other, pos);
        if slot(one, pos) is Some {
            let fruit = Result::<R>::Ok(slot(one, pos)->0);
            let k = choose|k: int|
                0 <= k < one.len() && (#[trigger] one[k]).0 == pos && one[k].1 == fruit;
            assert(one.contains(one[k]));
        }
        if slot(other, pos) is Some {
            let fruit = Result::<R>::Ok(slot(other, pos)->0);
            let k = choose|k: int|
                0 <= k < other.len() && (#[trigger] other[k]).0 == pos && other[k].1 == fruit;
            assert(one.contains(other[k]));
        }
    }
    if from_one is Ok && from_other is Ok {
        assert(from_one->Ok_0@ == from_other->Ok_0@);
    }
}

/// An executor with a pool of `num_threads` threads calls the function of a map in those threads, and
/// nowhere else: a function that may be called there only can be mapped.
pub proof fn law_maps_run_on_the_threads_of_the_pool<A, R, F: Fn(A) -> Result<R>>(
    executor: Executor,
    pool: rayon::ThreadPool,
    num_threads: nat,
    prefix: Seq<char>,
    f: F,
    args: Seq<A>,
)
    requires
        hands_out_to(executor, pool),
        num_threads > 0,
        pool_meets(num_threads, prefix, pool),
        forall|worker: Worker, i: int|
            #![trigger worker.present(), args[i]]
            0 <= i < args.len() && worker.present() && is_thread_of(
                worker,
                pool,
                num_threads,
                prefix,
            ) ==> f.requires((args[i],)),
    ensures
        executor.may_map(f, args),
{
}

/// An executor with a pool of `num_threads` threads calls a task that it spawns in one of those
/// threads, and nowhere else: a task that may be called there only can be spawned.
pub proof fn law_spawned_tasks_run_on_the_threads_of_the_pool<T, W: FnOnce() -> T>(
    executor: Executor,
    pool: rayon::ThreadPool,
    num_threads: nat,
    prefix: Seq<char>,
    task: W,
)
    requires
        hands_out_to(executor, pool),
        num_threads > 0,
        pool_meets(num_threads, prefix, pool),
        forall|worker: Worker| #[trigger]
            worker.present() && is_thread_of(worker, pool, num_threads, prefix) ==> task.requires(
                (),
            ),
    ensures
        executor.may_call(task),
{
}

/// The single thread executor calls what it is given through the caller that owns it, and calls a
/// function for an argument only when it has succeeded for all those before: a function, or a task,
/// that may be called there and then only can be mapped, or spawned.
pub proof fn law_single_thread_calls_through_the_caller<
    A,
    R,
    F: Fn(A) -> Result<R>,
    T,
    W: FnOnce() -> T,
>(f: F, args: Seq<A>, task: W)
    requires
        forall|caller: Caller<F>, i: int|
            #![trigger caller.present(), args[i]]
            0 <= i < args.len() && caller.present() && caller.callee() == f && (forall|j: int|
                0 <= j < i ==> has_fruit(f, #[trigger] args[j])) ==> f.requires((args[i],)),
        forall|caller: Caller<W>| #[trigger]
            caller.present() && caller.callee() == task ==> task.requires(()),
    ensures
        Executor::SingleThread.may_map(f, args),
        Executor::SingleThread.may_call(task),
{
    assert forall|caller: Caller<F>| #[trigger] caller.present() implies callable_in_order(
        f,
        args,
        caller,
    ) by {
        assert forall|i: int|
            0 <= i < args.len() && #[trigger] reached(f, args, i) && caller.callee()
                == f implies f.requires((args[i],)) by {
            assert forall|j: int| 0 <= j < i implies has_fruit(f, #[trigger] args[j]) by {
                assert(can_succeed(f, args[j]));
            }
        }
    }
}

/// An instrumented map calls its function for an argument only when a ticket has been issued for each
/// argument, and no more than that, and only through a run of the ticket of that argument, in a thread
/// of the pool: a function that may be called there and then only can be mapped.
pub proof fn law_followed_maps_call_within_a_run<A, R, F: Fn(A) -> Result<R>>(
    pool: Arc<rayon::ThreadPool>,
    instrumentation: Shared<dyn TaskInstrumentation>,
    f: F,
    args: Seq<A>,
)
    requires
        forall|tickets: Seq<Ticket>, receipt: Receipt, run: Run, i: int|
            #![trigger receipt.lists(tickets), run.of(tickets[i])]
            {
                &&& 0 <= i < args.len() == tickets.len()
                &&& receipt.lists(tickets)
                &&& forall|j: int|
                    0 <= j < tickets.len() ==> (#[trigger] tickets[j]).issued_for(j)
                        && enqueued_scoped(&*instrumentation.0, tickets[j].task())
                &&& run.of(tickets[i])
                &&& started_scoped(tickets[i].task().0)
                &&& run.present()
                &&& run.worker().present()
                &&& run.worker().serves(*pool)
            } ==> f.requires((args[i],)),
    ensures
        Executor::InstrumentedThreadPool(pool, instrumentation).may_map(f, args),
{
    let executor = Executor::InstrumentedThreadPool(pool, instrumentation);
    assert forall|tickets: Seq<Ticket>, i: int|
        #![trigger all_enqueued(&*instrumentation.0, tickets), args[i]]
        0 <= i < args.len() && args.len() == tickets.len() && all_enqueued(
            &*instrumentation.0,
            tickets,
        ) implies callable_with(f, args[i], tickets[i], *pool) by {
        let receipt = choose|receipt: Receipt| #[trigger] receipt.lists(tickets);
        assert(receipt.lists(tickets));
    }
}

/// An instrumented map has each of its tasks followed by a ticket of its own: the tickets that its
/// desk issued, from its opening to its closing, are one for each argument. Each was told by a thread
/// of the pool that its task runs, and what it handed out for the run was dropped by the end of it,
/// whatever the outcome of the map.
pub proof fn law_each_task_has_its_own_ticket<A, R, F: Fn(A) -> Result<R>>(
    pool: Arc<rayon::ThreadPool>,
    instrumentation: Shared<dyn TaskInstrumentation>,
    f: F,
    args: Seq<A>,
    result: Result<Vec<R>>,
)
    requires
        Executor::InstrumentedThreadPool(pool, instrumentation).maps(f, args, result),
    ensures
        exists|tickets: Seq<Ticket>, receipt: Receipt|
            {
                &&& tickets.len() == args.len()
                &&& tickets.no_duplicates()
                &&& #[trigger] receipt.lists(tickets)
                &&& #[trigger] followed_scoped(&*instrumentation.0, tickets, *pool)
                &&& forall|i: int|
                    0 <= i < tickets.len() ==> {
                        &&& enqueued_scoped(&*instrumentation.0, (#[trigger] tickets[i]).task())
                        &&& exists|run: Run| #[trigger]
                            run.of(tickets[i]) && run.worker().serves(*pool)
                        &&& exists|running: Running, end: Dropped<Running>|
                            #[trigger] ran_scoped_as(tickets[i].task().0, running)
                                && #[trigger] end.drops(running)
                    }
            },
{
    let tickets = choose|tickets: Seq<Ticket>|
        tickets.len() == args.len() && #[trigger] followed_scoped(
            &*instrumentation.0,
            tickets,
            *pool,
        );
    let receipt = choose|receipt: Receipt| #[trigger] receipt.lists(tickets);
    assert forall|i: int, j: int|
        0 <= i < tickets.len() && 0 <= j < tickets.len() && tickets[i] == tickets[j] implies i
        == j by {
        lemma_one_position(tickets[i], i, j);
    }
    assert forall|i: int| 0 <= i < tickets.len() implies exists|
        running: Running,
        end: Dropped<Running>,
    |
        #[trigger] ran_scoped_as((#[trigger] tickets[i]).task().0, running)
            && #[trigger] end.drops(running) by {
        assert(ended_scoped(tickets[i]));
        let running = choose|running: Running| #[trigger]
            ran_scoped_as(tickets[i].task().0, running) && dropped(running);
        let end = choose|end: Dropped<Running>| #[trigger] end.drops(running);
        assert(ran_scoped_as(tickets[i].task().0, running) && end.drops(running));
    }
    assert(receipt.lists(tickets) && followed_scoped(&*instrumentation.0, tickets, *pool));
}

/// What is said of tickets comes from calls of the hooks themselves.
pub proof fn law_tickets_come_from_the_hooks<
    I: TaskInstrumentation + ?Sized,
    T: EnqueuedTask + ?Sized,
>(instrumentation: &I, enqueued_task: Enqueued, task: Box<T>, running: Running)
    ensures
        enqueued(instrumentation, enqueued_task) ==> call_ensures(
            I::enqueue,
            (instrumentation,),
            enqueued_task,
        ),
        enqueued_scoped(instrumentation, enqueued_task) ==> call_ensures(
            I::enqueue_scoped,
            (instrumentation,),
            enqueued_task,
        ),
        ran_as(task, running) ==> call_ensures(T::run, (task,), running),
        ran_scoped_as(task, running) ==> call_ensures(T::run_scoped, (task,), running),
        started(task) ==> exists|r: Running| call_ensures(T::run, (task,), r),
        started_scoped(task) ==> exists|r: Running| call_ensures(T::run_scoped, (task,), r),
{
}

/// A pool calls a task only by a worker that has asked the replier that holds this very task, and has
/// been told that its reply is wanted, and, where the task is followed, has then opened a run of its
/// one ticket: a task that may be called there and then only can be spawned. So a task that is given
/// up before its job asks is not called, whatever is asked of other repliers.
pub proof fn law_given_up_tasks_are_not_called<T, W: FnOnce() -> T>(
    executor: Executor,
    pool: rayon::ThreadPool,
    task: W,
)
    requires
        hands_out_to(executor, pool),
        forall|promise: Promise<T, Returned<W>, W>, worker: Worker|
            #![trigger promise.replier().wanted_by(worker)]
            {
                &&& promise.present()
                &&& promise.charge() == task
                &&& promise.replier().rule() == (Returned { task: Ghost(task) })
                &&& promise.replier().wanted_by(worker)
                &&& worker.serves(pool)
                &&& worker.present()
            } ==> task.requires(()),
        forall|
            promise: Promise<T, FollowedReturn<W>, (Ticket, W)>,
            ticket: Ticket,
            receipt: Receipt,
            run: Run,
        |
            #![trigger
                promise.replier().wanted_by(run.worker()),
                run.of(ticket),
                receipt.lists(seq![ticket]),
            ]
            {
                &&& promise.charge() == (ticket, task)
                &&& promise.replier().rule() == (FollowedReturn {
                    task: Ghost(task),
                    ticket: Ghost(ticket),
                    pool: Ghost(pool),
                })
                &&& promise.replier().wanted_by(run.worker())
                &&& receipt.lists(seq![ticket])
                &&& run.of(ticket)
                &&& started(ticket.task().0)
                &&& run.present()
                &&& run.worker().present()
                &&& run.worker().serves(pool)
            } ==> task.requires(()),
    ensures
        executor.may_call(task),
{
    if let Executor::InstrumentedThreadPool(_, instrumentation) = executor {
        assert forall|ticket: Ticket| #[trigger]
            enqueued_alone(&*instrumentation.0, ticket) implies callable_once_started(
            task,
            ticket,
            pool,
        ) by {
            let receipt = choose|receipt: Receipt| #[trigger] receipt.lists(seq![ticket]);
            assert(receipt.lists(seq![ticket]));
        }
    }
}

/// The replier that the job of a task asks is that of the very future that was handed out: what it
/// foretells of its receiver is what becomes of the future. If the job ends, it has been told that the
/// reply is wanted, and the task has been called, or it has been told that the future was dropped,
/// which is then never awaited to the end, and the task has been dropped with its replier.
pub proof fn law_jobs_ask_the_replier_of_the_future<T, W: FnOnce() -> T>(
    pool: Arc<rayon::ThreadPool>,
    task: W,
    reply: std::result::Result<T, ()>,
    awaited: bool,
)
    requires
        Executor::ThreadPool(pool).replies(task, reply, awaited),
    ensures
        exists|job: Detached| #[trigger]
            handed_over(*pool, job) && (job.ends() ==> exists|
                promise: Promise<T, Returned<W>, W>,
            |
                {
                    &&& #[trigger] promise.charge() == task
                    &&& promise.replier().received() matches Ok(value)
                        ==> reply == std::result::Result::<T, ()>::Ok(value)
                    &&& promise.replier().received() is Err ==> reply is Err
                    &&& awaited == promise.replier().awaited()
                    &&& {
                        ||| promise.replier().wanted_by(job.worker()) && exists|value: T|
                            task.ensures((), value)
                        ||| promise.replier().given_up_before(job.worker()) && !awaited && exists|
                            end: Dropped<Option<Promise<T, Returned<W>, W>>>,
                        | #[trigger] end.drops(Some(promise))
                    }
                }),
{
}

/// The same holds of a followed task, which has one ticket: if its job ends, it has been told that the
/// reply is wanted, has told the ticket that the task runs, and has called the task, and what the
/// ticket handed out for the run has been dropped by the end of the job; or it has been told that the
/// future was dropped, and the task has been dropped with its replier and its ticket.
pub proof fn law_followed_jobs_end_their_run<T, W: FnOnce() -> T>(
    pool: Arc<rayon::ThreadPool>,
    instrumentation: Shared<dyn TaskInstrumentation>,
    task: W,
    reply: std::result::Result<T, ()>,
    awaited: bool,
)
    requires
        Executor::InstrumentedThreadPool(pool, instrumentation).replies(task, reply, awaited),
    ensures
        exists|job: Detached, ticket: Ticket, receipt: Receipt|
            {
                &&& #[trigger] handed_over(*pool, job)
                &&& #[trigger] receipt.lists(seq![ticket])
                &&& enqueued(&*instrumentation.0, ticket.task())
                &&& job.ends() ==> exists|promise: Promise<T, FollowedReturn<W>, (Ticket, W)>|
                    {
                        &&& #[trigger] promise.charge() == (ticket, task)
                        &&& promise.replier().received() matches Ok(value)
                            ==> reply == std::result::Result::<T, ()>::Ok(value)
                        &&& promise.replier().received() is Err ==> reply is Err
                        &&& awaited == promise.replier().awaited()
                        &&& {
                            ||| {
                                &&& promise.replier().wanted_by(job.worker())
                                &&& exists|value: T| task.ensures((), value)
                                &&& exists|run: Run| #[trigger]
                                    run.of(ticket) && run.worker() == job.worker()
                                &&& exists|running: Running, end: Dropped<Leftover<T, W>>|
                                    #[trigger] ran_as(ticket.task().0, running)
                                        && #[trigger] end.drops(Leftover::Ran(running))
                            }
                            ||| {
                                &&& promise.replier().given_up_before(job.worker())
                                &&& !awaited
                                &&& exists|end: Dropped<Leftover<T, W>>| #[trigger]
                                    end.drops(Leftover::GivenUp(promise))
                            }
                        }
                    }
            },
{
    let (job, ticket) = choose|job: Detached, ticket: Ticket|
        #![trigger handed_over(*pool, job), enqueued_alone(&*instrumentation.0, ticket)]
        handed_over(*pool, job) && enqueued_alone(&*instrumentation.0, ticket)
            && attended_followed(job, task, ticket, reply, awaited);
    let receipt = choose|receipt: Receipt| #[trigger] receipt.lists(seq![ticket]);
    assert(handed_over(*pool, job) && receipt.lists(seq![ticket]));
    if job.ends() {
        let promise = choose|promise: Promise<T, FollowedReturn<W>, (Ticket, W)>|
            {
                &&& #[trigger] promise.charge() == (ticket, task)
                &&& heard_by(promise.replier(), reply, awaited)
                &&& {
                    ||| promise.replier().wanted_by(job.worker()) && told(ticket, job.worker())
                        && called(task) && run_ended::<T, W>(ticket)
                    ||| promise.replier().given_up_before(job.worker()) && !awaited && dropped(
                        Leftover::GivenUp(promise),
                    )
                }
            };
        assert(promise.charge() == (ticket, task));
        if run_ended::<T, W>(ticket) {
            let running = choose|running: Running| #[trigger]
                ran_as(ticket.task().0, running) && dropped(Leftover::<T, W>::Ran(running));
            let end = choose|end: Dropped<Leftover<T, W>>| #[trigger]
                end.drops(Leftover::Ran(running));
            assert(ran_as(ticket.task().0, running) && end.drops(Leftover::Ran(running)));
        }
    }
}

/// The threads of a pool are named by the prefix and the numeral of their index: digits that denote
/// the index in base ten, without leading zeros. No two threads of a pool have the same name.
pub proof fn law_thread_names(num_threads: nat, prefix: Seq<char>, pool: rayon::ThreadPool)
    requires
        pool_meets(num_threads, prefix, pool),
    ensures
        forall|index: nat|
            index < pool_threads(pool) ==> {
                let name = #[trigger] pool_thread_name(pool, index);
                let numeral = name.skip(prefix.len() as int);
                &&& name.len() > prefix.len()
                &&& name.take(prefix.len() as int) == prefix
                &&& forall|i: int| 0 <= i < numeral.len() ==> '0' <= #[trigger] numeral[i] <= '9'
                &&& number_of(numeral) == index
                &&& numeral[0] == '0' ==> index == 0 && numeral.len() == 1
            },
        forall|one: nat, other: nat|
            one < pool_threads(pool) && other < pool_threads(pool) && #[trigger] pool_thread_name(
                pool,
                one,
            ) == #[trigger] pool_thread_name(pool, other) ==> one == other,
{
    assert forall|index: nat| index < pool_threads(pool) implies {
        let name = #[trigger] pool_thread_name(pool, index);
        let numeral = name.skip(prefix.len() as int);
        &&& name.len() > prefix.len()
        &&& name.take(prefix.len() as int) == prefix
        &&& forall|i: int| 0 <= i < numeral.len() ==> '0' <= #[trigger] numeral[i] <= '9'
        &&& number_of(numeral) == index
        &&& numeral[0] == '0' ==> index == 0 && numeral.len() == 1
    } by {
        let name = pool_thread_name(pool, index);
        lemma_decimal(index);
        assert(name.take(prefix.len() as int) == prefix);
        assert(name.skip(prefix.len() as int) == decimal(index));
        if decimal(index)[0] == '0' {
            reveal_with_fuel(number_of, 2);
            assert(decimal(index).drop_last() == Seq::<char>::empty());
        }
    }
}

/// The name of a thread of one index is not that of a thread of another, and says which it is.
pub proof fn law_numerals_tell_numbers_apart(one: nat, other: nat)
    ensures
        number_of(decimal(one)) == one,
        decimal(one) == decimal(other) ==> one == other,
{
    lemma_decimal(one);
    lemma_decimal(other);
}

/// A pool has exactly as many threads as were asked for, up to the most that a pool can have, which
/// is never less than 255, and 65535 on a machine of 64 bits.
pub proof fn law_thread_count(num_threads: nat, prefix: Seq<char>, pool: rayon::ThreadPool)
    requires
        pool_meets(num_threads, prefix, pool),
    ensures
        pool_threads(pool) >= 1,
        1 <= num_threads <= 255 ==> pool_threads(pool) == num_threads,
        usize::BITS == 64 && 1 <= num_threads <= 65535 ==> pool_threads(pool) == num_threads,
        num_threads >= 1 ==> pool_threads(pool) <= num_threads,
{
}

/// What is collected from messages in the order of their arrival is the error of the first failure to
/// arrive. Without a failure it is, for each position, the value that arrived last, and where nothing
/// arrived for a position, the complaint that one is missing.
pub proof fn law_collected<R>(
    messages: Seq<(usize, Result<R>)>,
    num_fruits: nat,
    result: Result<Vec<R>>,
)
    requires
        forall|k: int| 0 <= k < messages.len() ==> (#[trigger] messages[k]).0 < num_fruits,
        collected(messages, num_fruits, result),
    ensures
        forall|k: int|
            0 <= k < messages.len() && (#[trigger] messages[k]).1 is Err && (forall|j: int|
                0 <= j < k ==> (#[trigger] messages[j]).1 is Ok) ==> result == Result::<
                Vec<R>,
            >::Err(messages[k].1->Err_0),
        (forall|k: int| 0 <= k < messages.len() ==> (#[trigger] messages[k]).1 is Ok) ==> {
            &&& result is Ok <==> forall|pos: int|
                0 <= pos < num_fruits ==> #[trigger] arrived(messages, pos)
            &&& result matches Ok(fruits) ==> fruits.len() == num_fruits
            &&& result matches Ok(fruits) ==> forall|k: int|
                0 <= k < messages.len() && (forall|j: int|
                    k < j < messages.len() ==> (#[trigger] messages[j]).0 != messages[k].0)
                    ==> Result::<R>::Ok(fruits[(#[trigger] messages[k]).0 as int]) == messages[k].1
            &&& result matches Err(error) ==> (error matches TantivyError::InternalError(text)
                && text@ == "One of the mapped execution failed."@)
        },
{
    assert forall|k: int|
        0 <= k < messages.len() && (#[trigger] messages[k]).1 is Err && (forall|j: int|
            0 <= j < k ==> (#[trigger] messages[j]).1 is Ok) implies result == Result::<
        Vec<R>,
    >::Err(messages[k].1->Err_0) by {
        assert(is_first_error(messages, k));
        let first = choose|first: int|
            #[trigger] is_first_error(messages, first) && result == Result::<Vec<R>>::Err(
                messages[first].1->Err_0,
            );
        assert(first == k);
    }
    if forall|k: int| 0 <= k < messages.len() ==> (#[trigger] messages[k]).1 is Ok {
        assert forall|pos: int|
            #![trigger slot(messages, pos)]
            #![trigger arrived(messages, pos)]
            slot(messages, pos) is Some <==> arrived(messages, pos) by {
            lemma_slot(messages, pos);
        }
        if let Ok(fruits) = result {
            assert forall|k: int|
                0 <= k < messages.len() && (forall|j: int|
                    k < j < messages.len() ==> (#[trigger] messages[j]).0
                        != messages[k].0) implies Result::<R>::Ok(
                fruits[(#[trigger] messages[k]).0 as int],
            ) == messages[k].1 by {
                lemma_slot_is_last(messages, k);
            }
        }
    }
}

/// What `spawn_blocking` delivers is what the task returned, whichever executor ran it, and in the
/// calling thread something is always delivered.
pub proof fn law_replies_come_from_tasks<T, W: FnOnce() -> T>(
    executor: Executor,
    task: W,
    reply: std::result::Result<T, ()>,
    awaited: bool,
)
    requires
        executor.replies(task, reply, awaited),
    ensures
        reply matches Ok(value) ==> task.ensures((), value),
        executor is SingleThread ==> reply is Ok,
{
}

/// Whoever awaits the future of a task gets what the task returned, on every executor whose jobs
/// neither panic nor go on for ever.
pub proof fn law_awaited_replies<T, W: FnOnce() -> T>(
    executor: Executor,
    task: W,
    reply: std::result::Result<T, ()>,
)
    requires
        executor.replies(task, reply, true),
        all_tasks_finish(executor),
    ensures
        reply matches Ok(value) && task.ensures((), value),
{
}

/// Dropping a future cancels its own task at most: of several tasks on one executor, each whose future
/// is awaited still replies with what that task returned, whichever of the other futures are dropped.
/// Only its own job can keep it from replying, by a panic or by going on for ever, and where no job of
/// the pool does that, each replies.
pub proof fn law_dropping_leaves_the_others<T, W: FnOnce() -> T>(
    executor: Executor,
    tasks: Seq<W>,
    replies: Seq<std::result::Result<T, ()>>,
    awaited: Seq<bool>,
)
    requires
        tasks.len() == replies.len() == awaited.len(),
        forall|i: int|
            0 <= i < tasks.len() ==> executor.replies(
                #[trigger] tasks[i],
                replies[i],
                awaited[i],
            ),
    ensures
        forall|i: int|
            0 <= i < tasks.len() && awaited[i] ==> answered_by_own_job(
                executor,
                #[trigger] tasks[i],
                replies[i],
            ),
        all_tasks_finish(executor) ==> forall|i: int|
            0 <= i < tasks.len() && awaited[i] ==> (#[trigger] replies[i] matches Ok(value)
                && tasks[i].ensures((), value)),
{
    assert forall|i: int| 0 <= i < tasks.len() && awaited[i] implies answered_by_own_job(
        executor,
        #[trigger] tasks[i],
        replies[i],
    ) by {
        lemma_answered_by_own_job(executor, tasks[i], replies[i]);
    }
    if all_tasks_finish(executor) {
        assert forall|i: int| 0 <= i < tasks.len() && awaited[i] implies (
        #[trigger] replies[i] matches Ok(value) && tasks[i].ensures((), value)) by {
            assert(executor.replies(tasks[i], replies[i], awaited[i]));
            law_awaited_replies(executor, tasks[i], replies[i]);
        }
    }
}

/// What an awaited future resolves to rests on the job of its task alone.
proof fn lemma_answered_by_own_job<T, W: FnOnce() -> T>(
    executor: Executor,
    task: W,
    reply: std::result::Result<T, ()>,
)
    requires
        executor.replies(task, reply, true),
    ensures
        answered_by_own_job(executor, task, reply),
{
}

/// Messages that hold all those of others have a failure where those have one.
proof fn lemma_same_failures<R>(one: Seq<(usize, Result<R>)>, other: Seq<(usize, Result<R>)>)
    requires
        forall|message: (usize, Result<R>)| #[trigger]
            one.contains(message) ==> other.contains(message),
        exists|k: int| is_first_error(one, k),
    ensures
        exists|k: int| is_first_error(other, k),
{
    let first = choose|k: int| is_first_error(one, k);
    assert(one.contains(one[first]));
    if forall|k: int| !is_first_error(other, k) {
        lemma_no_error(other);
    }
}

/// The outcomes that a map went by.
proof fn outcomes_of<A, R, F: Fn(A) -> Result<R>>(
    executor: Executor,
    f: F,
    args: Seq<A>,
    result: Result<Vec<R>>,
) -> (outcomes: Seq<Result<R>>)
    requires
        executor.maps(f, args, result),
    ensures
        ran(f, args, outcomes),
        executor is SingleThread ==> stops_at_first_error(outcomes, args.len(), result),
        !(executor is SingleThread) ==> reports_some_error(outcomes, args.len(), result),
{
    if executor is SingleThread {
        choose|outcomes: Seq<Result<R>>| #[trigger]
            ran(f, args, outcomes) && stops_at_first_error(outcomes, args.len(), result)
    } else {
        choose|outcomes: Seq<Result<R>>| #[trigger]
            ran(f, args, outcomes) && reports_some_error(outcomes, args.len(), result)
    }
}

/// Where the tasks have no choice, one executor succeeds with the fruits with which another does.
proof fn lemma_same_success<A, R, F: Fn(A) -> Result<R>>(
    one: Executor,
    other: Executor,
    f: F,
    args: Seq<A>,
    from_one: Result<Vec<R>>,
    from_other: Result<Vec<R>>,
)
    requires
        one.maps(f, args, from_one),
        other.maps(f, args, from_other),
        deterministic(f, args),
        from_one is Ok,
    ensures
        from_other is Ok,
        from_one->Ok_0@ == from_other->Ok_0@,
{
    law_fruits_in_order(one, f, args, from_one);
    if from_other is Err {
        law_errors_come_from_tasks(other, f, args, from_other);
        let i = choose|i: int|
            0 <= i < args.len() && f.ensures(
                (#[trigger] args[i],),
                Result::<R>::Err(from_other->Err_0),
            );
        assert(f.ensures((args[i],), Result::<R>::Ok(from_one->Ok_0[i])));
    }
    law_fruits_in_order(other, f, args, from_other);
    assert(from_one->Ok_0@ == from_other->Ok_0@);
}

} // verus!
