//! Maps a function over arguments, in the calling thread or in a thread pool.
use vstd::predicate::Predicate;
use vstd::prelude::*;
use vstd::std_specs::iter::IteratorSpec;

use crate::channel::Channel;
use crate::error::Result;
use crate::fruits::{
    arrived, collect_fruits, collected, is_first_error, lemma_no_error, lemma_slot, slot,
};
use crate::instrumentation::{Running, TaskInstrumentation};
use crate::source::{Drawn, Source};
use crate::ticket::{
    complete, ended_scoped, enqueued_scoped, ran_scoped_as, started_scoped, told_scoped, Desk, Run,
    Ticket,
};
use crate::worker::{in_scope, Caller, TaskScope, Worker};

verus! {

/// `outcomes[i]` is what `f` returned for `args[i]`, for as many of the arguments as there are
/// outcomes.
pub open spec fn ran<A, R, F: Fn(A) -> Result<R>>(
    f: F,
    args: Seq<A>,
    outcomes: Seq<Result<R>>,
) -> bool {
    &&& outcomes.len() <= args.len()
    &&& forall|i: int|
        0 <= i < outcomes.len() ==> f.ensures((args[i],), #[trigger] outcomes[i])
}

/// `fruits` are the values of `outcomes`, all of which are successes.
pub open spec fn harvested<R>(outcomes: Seq<Result<R>>, fruits: Seq<R>) -> bool {
    &&& fruits.len() == outcomes.len()
    &&& forall|i: int|
        0 <= i < outcomes.len() ==> #[trigger] outcomes[i] == Result::<R>::Ok(fruits[i])
}

/// What a map in the calling thread gives for `outcomes`: it goes through the arguments in order,
/// and stops at the first failure.
pub open spec fn stops_at_first_error<R>(
    outcomes: Seq<Result<R>>,
    num_args: nat,
    result: Result<Vec<R>>,
) -> bool {
    match result {
        Ok(fruits) => outcomes.len() == num_args && harvested(outcomes, fruits@),
        Err(error) => {
            &&& outcomes.len() > 0
            &&& outcomes.last() == Result::<R>::Err(error)
            &&& forall|i: int| 0 <= i < outcomes.len() - 1 ==> (#[trigger] outcomes[i]) is Ok
        },
    }
}

/// What a map in a thread pool gives for `outcomes`: every argument is worked on, and when some
/// of them fail, the result is one of the failures.
pub open spec fn reports_some_error<R>(
    outcomes: Seq<Result<R>>,
    num_args: nat,
    result: Result<Vec<R>>,
) -> bool {
    &&& outcomes.len() == num_args
    &&& match result {
        Ok(fruits) => harvested(outcomes, fruits@),
        Err(error) => outcomes.contains(Result::<R>::Err(error)),
    }
}

/// `f` can succeed for `arg`.
pub open spec fn can_succeed<A, R, F: Fn(A) -> Result<R>>(f: F, arg: A) -> bool {
    exists|fruit: R| f.ensures((arg,), Result::<R>::Ok(fruit))
}

/// A map in the calling thread can get to the argument at `i`: `f` can succeed for all those before.
pub open spec fn reached<A, R, F: Fn(A) -> Result<R>>(f: F, args: Seq<A>, i: int) -> bool {
    forall|j: int| 0 <= j < i ==> can_succeed(f, #[trigger] args[j])
}

/// `f` may be called by `caller`, for the arguments one after the other, as long as it succeeds.
/// Nothing is known of any other call, so there is none past the first failure, and none in another
/// thread.
pub open spec fn callable_in_order<A, R, F: Fn(A) -> Result<R>>(
    f: F,
    args: Seq<A>,
    caller: Caller<F>,
) -> bool {
    forall|i: int|
        0 <= i < args.len() && #[trigger] reached(f, args, i) && caller.present()
            && caller.callee() == f ==> f.requires((args[i],))
}

/// `f` may be called for all the arguments by the threads of `pool`. Nothing is known of any other
/// call.
pub open spec fn callable_in_pool<A, R, F: Fn(A) -> Result<R>>(
    f: F,
    args: Seq<A>,
    pool: rayon::ThreadPool,
) -> bool {
    forall|worker: Worker, i: int|
        #![trigger worker.present(), args[i]]
        0 <= i < args.len() && worker.serves(pool) && worker.present() ==> f.requires((args[i],))
}

/// `f` may be called for an argument once the tasks of all the arguments have been enqueued, by a
/// thread of `pool` that has told the task of the argument that it runs. Nothing is known of any
/// other call.
pub open spec fn callable_once_started_scoped<
    A,
    R,
    F: Fn(A) -> Result<R>,
    I: TaskInstrumentation + ?Sized,
>(f: F, args: Seq<A>, instrumentation: &I, pool: rayon::ThreadPool) -> bool {
    forall|tickets: Seq<Ticket>, i: int|
        #![trigger all_enqueued(instrumentation, tickets), args[i]]
        0 <= i < args.len() && args.len() == tickets.len() && all_enqueued(instrumentation, tickets)
            ==> callable_with(f, args[i], tickets[i], pool)
}

/// `f` may be called for `arg` by a thread of `pool` that has told `ticket` that its task runs.
pub open spec fn callable_with<A, R, F: Fn(A) -> Result<R>>(
    f: F,
    arg: A,
    ticket: Ticket,
    pool: rayon::ThreadPool,
) -> bool {
    forall|run: Run| #[trigger]
        run.of(ticket) && started_scoped(ticket.task().0) && run.present() && run.worker().serves(
            pool,
        ) && run.worker().present() ==> f.requires((arg,))
}

/// What a map in the calling thread gives.
pub open spec fn mapped_in_order<A, R, F: Fn(A) -> Result<R>>(
    f: F,
    args: Seq<A>,
    result: Result<Vec<R>>,
) -> bool {
    exists|outcomes: Seq<Result<R>>| #[trigger]
        ran(f, args, outcomes) && stops_at_first_error(outcomes, args.len(), result)
}

/// What a map in a thread pool gives.
pub open spec fn mapped_in_pool<A, R, F: Fn(A) -> Result<R>>(
    f: F,
    args: Seq<A>,
    result: Result<Vec<R>>,
) -> bool {
    exists|outcomes: Seq<Result<R>>| #[trigger]
        ran(f, args, outcomes) && reports_some_error(outcomes, args.len(), result)
}

/// `result` is what is collected from the messages of a channel that carried the outcomes of `f` for
/// all the arguments, in the order of their arrival.
pub open spec fn gathered<A, R, F: Fn(A) -> Result<R>>(
    f: F,
    args: Seq<A>,
    result: Result<Vec<R>>,
) -> bool {
    exists|
        channel: Channel<Result<R>, Assignment<'_, A, F>>,
        messages: Seq<(usize, Result<R>)>,
    |
        {
            &&& *channel.rule().f == f
            &&& channel.rule().args@ == args
            &&& args.len() <= usize::MAX
            &&& forall|i: usize| i < args.len() ==> #[trigger] channel.arrivals().contains(i)
            &&& #[trigger] channel.carried(messages)
            &&& collected(messages, args.len(), result)
        }
}

/// The instrumentation handed out each of `tickets` for the task at its position of a scoped batch,
/// and there are no others of that batch.
pub open spec fn all_enqueued<I: TaskInstrumentation + ?Sized>(
    instrumentation: &I,
    tickets: Seq<Ticket>,
) -> bool {
    &&& complete(tickets)
    &&& forall|i: int|
        0 <= i < tickets.len() ==> {
            &&& (#[trigger] tickets[i]).issued_for(i)
            &&& enqueued_scoped(instrumentation, tickets[i].task())
        }
}

/// The instrumentation followed each of the tasks of a scoped batch from the queue to its run by a
/// thread of `pool`, and to the end of that run, each by a ticket of its own.
pub open spec fn followed_scoped<I: TaskInstrumentation + ?Sized>(
    instrumentation: &I,
    tickets: Seq<Ticket>,
    pool: rayon::ThreadPool,
) -> bool {
    &&& all_enqueued(instrumentation, tickets)
    &&& forall|i: int|
        0 <= i < tickets.len() ==> told_scoped(#[trigger] tickets[i], pool) && ended_scoped(
            tickets[i],
        )
}

/// The arguments of `pairs`.
pub open spec fn args_of<A>(pairs: Seq<(A, Ticket)>) -> Seq<A> {
    pairs.map_values(|pair: (A, Ticket)| pair.0)
}

/// The tickets of `pairs`.
pub open spec fn tickets_of<A>(pairs: Seq<(A, Ticket)>) -> Seq<Ticket> {
    pairs.map_values(|pair: (A, Ticket)| pair.1)
}

/// The rule for the messages of a batch: the outcome is what `f` returned for the argument at the
/// position.
pub struct Assignment<'a, A, F> {
    pub f: &'a F,
    pub args: Ghost<Seq<A>>,
}

impl<'a, A, R, F: Fn(A) -> Result<R>> Predicate<(usize, Result<R>)> for Assignment<'a, A, F> {
    open spec fn predicate(&self, message: (usize, Result<R>)) -> bool {
        &&& message.0 < self.args@.len()
        &&& self.f.ensures((self.args@[message.0 as int],), message.1)
    }
}

/// Takes all the arguments.
pub(crate) fn collect_args<A, I: Iterator<Item = A>>(args: I) -> (all: Vec<A>)
    requires
        args.obeys_prophetic_iter_laws(),
        args.decrease() is Some,
    ensures
        all@ == args.remaining(),
{
    let mut rest = args;
    let mut all: Vec<A> = Vec::new();
    loop
        invariant
            rest.obeys_prophetic_iter_laws(),
            rest.decrease() is Some,
            args.remaining() == all@ + rest.remaining(),
        ensures
            args.remaining() == all@,
        decreases rest.decrease()->0,
    {
        match rest.next() {
            Some(arg) => {
                all.push(arg);
            },
            None => {
                break ;
            },
        }
    }
    all
}

/// Has the caller work on the arguments one after the other.
pub(crate) fn map_in_order<A, R, F: Fn(A) -> Result<R>, I: Iterator<Item = A>>(
    caller: Caller<F>,
    args: I,
) -> (result: Result<Vec<R>>)
    requires
        args.obeys_prophetic_iter_laws(),
        args.decrease() is Some,
        callable_in_order(caller.callee(), args.remaining(), caller),
    ensures
        mapped_in_order(caller.callee(), args.remaining(), result),
        exists|drawn: Drawn<I>, outcomes: Seq<Result<R>>|
            {
                &&& #[trigger] drawn.from(args)
                &&& #[trigger] ran(caller.callee(), args.remaining(), outcomes)
                &&& stops_at_first_error(outcomes, args.remaining().len(), result)
                &&& drawn.left().remaining() == args.remaining().skip(outcomes.len() as int)
            },
{
    let ghost f = caller.callee();
    let mut source = Source::new(args);
    let mut fruits: Vec<R> = Vec::new();
    let ghost mut outcomes: Seq<Result<R>> = Seq::empty();
    loop
        invariant
            source.origin() == args,
            source.rest().obeys_prophetic_iter_laws(),
            source.rest().decrease() is Some,
            f == caller.callee(),
            callable_in_order(f, args.remaining(), caller),
            outcomes.len() <= args.remaining().len(),
            source.rest().remaining() == args.remaining().skip(outcomes.len() as int),
            ran(f, args.remaining(), outcomes),
            harvested(outcomes, fruits@),
        ensures
            outcomes.len() == args.remaining().len(),
        decreases source.rest().decrease()->0,
    {
        match source.draw() {
            Some(arg) => {
                assert(reached(f, args.remaining(), outcomes.len() as int)) by {
                    assert forall|j: int| 0 <= j < outcomes.len() implies can_succeed(
                        f,
                        #[trigger] args.remaining()[j],
                    ) by {
                        assert(f.ensures((args.remaining()[j],), outcomes[j]));
                    }
                }
                let outcome = caller.call(arg);
                proof {
                    outcomes = outcomes.push(outcome);
                }
                match outcome {
                    Ok(fruit) => {
                        fruits.push(fruit);
                    },
                    Err(error) => {
                        assert(ran(f, args.remaining(), outcomes));
                        let drawn = source.close();
                        assert(drawn.from(args));
                        return Err(error);
                    },
                }
            },
            None => {
                break ;
            },
        }
    }
    let drawn = source.close();
    assert(drawn.from(args));
    Ok(fruits)
}

/// Takes all the arguments, and has the instrumentation issue a ticket for each, and no more.
pub(crate) fn enqueue_args<A, I: Iterator<Item = A>, T: TaskInstrumentation + ?Sized>(
    args: I,
    desk: Desk<'_, T>,
) -> (all: Vec<(A, Ticket)>)
    requires
        args.obeys_prophetic_iter_laws(),
        args.decrease() is Some,
        desk.issued() == Seq::<Ticket>::empty(),
    ensures
        complete(tickets_of(all@)),
        all.len() == args.remaining().len(),
        forall|i: int|
            0 <= i < all.len() ==> {
                &&& (#[trigger] all[i]).0 == args.remaining()[i]
                &&& all[i].1.issued_for(i)
                &&& enqueued_scoped(desk.instrumentation(), all[i].1.task())
            },
{
    let mut rest = args;
    let mut open = desk;
    let mut all: Vec<(A, Ticket)> = Vec::new();
    loop
        invariant
            rest.obeys_prophetic_iter_laws(),
            rest.decrease() is Some,
            open.instrumentation() == desk.instrumentation(),
            open.issued() == tickets_of(all@),
            all.len() <= args.remaining().len(),
            rest.remaining() == args.remaining().skip(all.len() as int),
            forall|i: int|
                0 <= i < all.len() ==> {
                    &&& (#[trigger] all[i]).0 == args.remaining()[i]
                    &&& all[i].1.issued_for(i)
                    &&& enqueued_scoped(desk.instrumentation(), all[i].1.task())
                },
        ensures
            all.len() == args.remaining().len(),
        decreases rest.decrease()->0,
    {
        match rest.next() {
            Some(arg) => {
                let ticket = Ticket::issue_scoped(&mut open);
                all.push((arg, ticket));
                assert(open.issued() == tickets_of(all@));
            },
            None => {
                break ;
            },
        }
    }
    let receipt = open.close();
    assert(receipt.lists(tickets_of(all@)));
    all
}

/// Spawns a task for each of the arguments. A task sends what `f` returns, with its position.
fn spawn_tasks<'scope, A: Send + 'scope, R: Send + 'scope, F: Sync + Fn(A) -> Result<R>>(
    scope: &TaskScope<'_, 'scope>,
    f: &'scope F,
    args: Vec<A>,
    channel: &'scope Channel<Result<R>, Assignment<'scope, A, F>>,
)
    requires
        channel.rule() == (Assignment { f, args: Ghost(args@) }),
        callable_in_pool(*f, args@, scope.pool()),
    ensures
        scope.completes() ==> forall|i: usize|
            i < args.len() ==> #[trigger] channel.arrivals().contains(i),
{
    let ghost all = args@;
    let ghost home = scope.pool();
    let num_tasks: usize = args.len();
    let mut idx: usize = 0;
    for arg in it: args
        invariant
            it.seq() == all,
            home == scope.pool(),
            idx == it.index(),
            all.len() == num_tasks,
            channel.rule() == (Assignment { f, args: Ghost(all) }),
            callable_in_pool(*f, all, home),
            scope.completes() ==> forall|i: usize|
                i < idx ==> #[trigger] channel.arrivals().contains(i),
    {
        let task = move |worker: Worker| -> (done: ())
            requires
                worker.serves(home),
            ensures
                channel.arrivals().contains(idx),
            {
                let fruit = worker.call(f, arg);
                channel.send((idx, fruit));
            };
        scope.spawn(task);
        idx = idx + 1;
    }
}

/// Does as [`spawn_tasks`], for tasks that the instrumentation follows. A task counts as running
/// until its outcome has been sent.
fn spawn_followed_tasks<
    'scope,
    A: Send + 'scope,
    R: Send + 'scope,
    F: Sync + Fn(A) -> Result<R>,
>(
    scope: &TaskScope<'_, 'scope>,
    f: &'scope F,
    args: Vec<(A, Ticket)>,
    channel: &'scope Channel<Result<R>, Assignment<'scope, A, F>>,
)
    requires
        channel.rule().f == f,
        channel.rule().args@.len() == args.len(),
        forall|i: int|
            0 <= i < args.len() ==> {
                &&& (#[trigger] args[i]).0 == channel.rule().args@[i]
                &&& callable_with(*f, args[i].0, args[i].1, scope.pool())
            },
    ensures
        scope.completes() ==> forall|i: usize|
            i < args.len() ==> #[trigger] channel.arrivals().contains(i),
        scope.completes() ==> forall|i: int|
            0 <= i < args.len() ==> told_scoped((#[trigger] args[i]).1, scope.pool())
                && ended_scoped(args[i].1),
{
    let ghost all = args@;
    let ghost home = scope.pool();
    let num_tasks: usize = args.len();
    let mut idx: usize = 0;
    for pair in it: args
        invariant
            it.seq() == all,
            home == scope.pool(),
            idx == it.index(),
            all.len() == num_tasks,
            channel.rule().f == f,
            channel.rule().args@.len() == all.len(),
            forall|i: int|
                0 <= i < all.len() ==> {
                    &&& (#[trigger] all[i]).0 == channel.rule().args@[i]
                    &&& callable_with(*f, all[i].0, all[i].1, home)
                },
            scope.completes() ==> forall|i: usize|
                i < idx ==> #[trigger] channel.arrivals().contains(i),
            scope.completes() ==> forall|i: int|
                0 <= i < idx ==> told_scoped((#[trigger] all[i]).1, home) && ended_scoped(
                    all[i].1,
                ),
    {
        let (arg, ticket) = pair;
        let task = move |worker: Worker| -> (running: Running)
            requires
                worker.serves(home),
            ensures
                channel.arrivals().contains(idx),
                told_scoped(ticket, home),
                ran_scoped_as(ticket.task().0, running),
            {
                let run = ticket.start_scoped(worker);
                let (fruit, running) = run.call(f, arg);
                channel.send((idx, fruit));
                running
            };
        scope.spawn(task);
        idx = idx + 1;
    }
}

/// When every argument was worked on and its outcome arrived, what is collected from the messages
/// is what a map in a thread pool gives.
proof fn lemma_collected_is_mapped<A, R, F: Fn(A) -> Result<R>>(
    f: &F,
    args: Seq<A>,
    messages: Seq<(usize, Result<R>)>,
    result: Result<Vec<R>>,
)
    requires
        collected(messages, args.len(), result),
        forall|k: int|
            0 <= k < messages.len() ==> (Assignment { f, args: Ghost(args) }).predicate(
                #[trigger] messages[k],
            ),
        forall|i: int| 0 <= i < args.len() ==> #[trigger] arrived(messages, i),
    ensures
        mapped_in_pool(*f, args, result),
{
    let arrival = |i: int| choose|k: int|
        0 <= k < messages.len() && (#[trigger] messages[k]).0 == i;
    if exists|k: int| is_first_error(messages, k) {
        let first = choose|k: int|
            is_first_error(messages, k) && result == Result::<Vec<R>>::Err(messages[k].1->Err_0);
        let failed = messages[first].0 as int;
        let outcomes = Seq::new(
            args.len(),
            |i: int|
                if i == failed {
                    messages[first].1
                } else {
                    messages[arrival(i)].1
                },
        );
        assert forall|i: int| 0 <= i < args.len() implies f.ensures(
            (args[i],),
            #[trigger] outcomes[i],
        ) by {
            assert(arrived(messages, i));
        }
        assert(outcomes[failed] == messages[first].1);
        assert(ran(*f, args, outcomes));
    } else {
        assert forall|i: int| 0 <= i < args.len() implies slot(messages, i) is Some by {
            lemma_slot(messages, i);
            assert(arrived(messages, i));
            let k = arrival(i);
            assert(messages[k].1 is Ok) by {
                lemma_no_error(messages);
            }
        }
        let fruits = result->Ok_0@;
        let outcomes = Seq::new(args.len(), |i: int| Result::<R>::Ok(fruits[i]));
        assert forall|i: int| 0 <= i < args.len() implies f.ensures(
            (args[i],),
            #[trigger] outcomes[i],
        ) by {
            lemma_slot(messages, i);
        }
        assert(ran(*f, args, outcomes));
    }
}

/// Runs a task for each of the arguments, and returns when all their outcomes have been sent.
fn run_tasks<'scope, A: Send + 'scope, R: Send + 'scope, F: Sync + Fn(A) -> Result<R>>(
    pool: &rayon::ThreadPool,
    f: &'scope F,
    args: Vec<A>,
    channel: &'scope Channel<Result<R>, Assignment<'scope, A, F>>,
)
    requires
        channel.rule() == (Assignment { f, args: Ghost(args@) }),
        callable_in_pool(*f, args@, *pool),
    ensures
        forall|i: usize| i < args.len() ==> #[trigger] channel.arrivals().contains(i),
{
    let ghost home = *pool;
    let spawn = move |scope: &TaskScope<'_, 'scope>|
        requires
            scope.pool() == home,
        ensures
            scope.completes() ==> forall|i: usize|
                i < args.len() ==> #[trigger] channel.arrivals().contains(i),
        { spawn_tasks(scope, f, args, channel) };
    in_scope(pool, spawn);
}

/// Does as [`run_tasks`], for tasks that the instrumentation follows.
fn run_followed_tasks<'scope, A: Send + 'scope, R: Send + 'scope, F: Sync + Fn(A) -> Result<R>>(
    pool: &rayon::ThreadPool,
    f: &'scope F,
    args: Vec<(A, Ticket)>,
    channel: &'scope Channel<Result<R>, Assignment<'scope, A, F>>,
)
    requires
        channel.rule().f == f,
        channel.rule().args@.len() == args.len(),
        forall|i: int|
            0 <= i < args.len() ==> {
                &&& (#[trigger] args[i]).0 == channel.rule().args@[i]
                &&& callable_with(*f, args[i].0, args[i].1, *pool)
            },
    ensures
        forall|i: usize| i < args.len() ==> #[trigger] channel.arrivals().contains(i),
        forall|i: int|
            0 <= i < args.len() ==> told_scoped((#[trigger] args[i]).1, *pool) && ended_scoped(
                args[i].1,
            ),
{
    let ghost home = *pool;
    let spawn = move |scope: &TaskScope<'_, 'scope>|
        requires
            scope.pool() == home,
        ensures
            scope.completes() ==> forall|i: usize|
                i < args.len() ==> #[trigger] channel.arrivals().contains(i),
            scope.completes() ==> forall|i: int|
                0 <= i < args.len() ==> told_scoped((#[trigger] args[i]).1, home) && ended_scoped(
                    args[i].1,
                ),
        { spawn_followed_tasks(scope, f, args, channel) };
    in_scope(pool, spawn);
}

/// Takes the outcomes of a batch out of the channel, and puts the fruits in order.
fn receive_fruits<A, R, F: Fn(A) -> Result<R>>(
    channel: Channel<Result<R>, Assignment<'_, A, F>>,
    num_fruits: usize,
) -> (result: Result<Vec<R>>)
    requires
        num_fruits == channel.rule().args@.len(),
        forall|i: usize| i < num_fruits ==> #[trigger] channel.arrivals().contains(i),
    ensures
        mapped_in_pool(*channel.rule().f, channel.rule().args@, result),
        gathered(*channel.rule().f, channel.rule().args@, result),
{
    let ghost rule = channel.rule();
    let ghost arrivals = channel.arrivals();
    let messages = channel.drain();
    let ghost carried = messages@;
    assert forall|i: int| 0 <= i < num_fruits implies #[trigger] arrived(carried, i) by {
        assert(arrivals.contains(i as usize));
        let k = choose|k: int| 0 <= k < arrivals.len() && arrivals[k] == i as usize;
        assert(carried[k].0 == i);
    }
    let result = collect_fruits(messages, num_fruits);
    proof {
        lemma_collected_is_mapped(rule.f, rule.args@, carried, result);
    }
    result
}

/// Works on the arguments in the threads of the pool.
pub(crate) fn map_in_pool<A: Send, R: Send, F: Sync + Fn(A) -> Result<R>>(
    pool: &rayon::ThreadPool,
    f: &F,
    args: Vec<A>,
) -> (result: Result<Vec<R>>)
    requires
        callable_in_pool(*f, args@, *pool),
    ensures
        mapped_in_pool(*f, args@, result),
        gathered(*f, args@, result),
{
    let num_fruits: usize = args.len();
    let assignment = Assignment { f, args: Ghost(args@) };
    let channel = Channel::open(&assignment);
    run_tasks(pool, f, args, &channel);
    receive_fruits(channel, num_fruits)
}

/// Does as [`map_in_pool`], for tasks that the instrumentation follows.
pub(crate) fn map_followed<A: Send, R: Send, F: Sync + Fn(A) -> Result<R>>(
    pool: &rayon::ThreadPool,
    f: &F,
    args: Vec<(A, Ticket)>,
) -> (result: Result<Vec<R>>)
    requires
        forall|i: int|
            0 <= i < args.len() ==> callable_with(
                *f,
                (#[trigger] args[i]).0,
                args[i].1,
                *pool,
            ),
    ensures
        mapped_in_pool(*f, args_of(args@), result),
        gathered(*f, args_of(args@), result),
        forall|i: int|
            0 <= i < args.len() ==> told_scoped((#[trigger] args[i]).1, *pool) && ended_scoped(
                args[i].1,
            ),
{
    let num_fruits: usize = args.len();
    let assignment = Assignment {
        f,
        args: Ghost(args_of(args@)),
    };
    let channel = Channel::open(&assignment);
    run_followed_tasks(pool, f, args, &channel);
    receive_fruits(channel, num_fruits)
}

} // verus!
