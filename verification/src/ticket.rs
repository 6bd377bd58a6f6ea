//! What the instrumentation is told of a task.
//!
//! A [`Ticket`] is what the instrumentation handed out for one task. Tickets are issued at a
//! [`Desk`], which keeps a list of them, and hands the list out as a [`Receipt`] when it closes. A
//! [`Run`] stands for the time in which a task runs: it is opened by a worker, and the task is
//! called while it is open.
//! Like that of a worker, its `present` is said to hold in this module only.
use vstd::predicate::Predicate;
use vstd::prelude::*;

use crate::instrumentation::{Enqueued, EnqueuedTask, Running, TaskInstrumentation};
use crate::reply::Replier;
use crate::worker::{dropped, Worker};

verus! {

/// The instrumentation handed `task` out for a task of the queue.
pub open spec fn enqueued<I: TaskInstrumentation + ?Sized>(
    instrumentation: &I,
    task: Enqueued,
) -> bool {
    call_ensures(I::enqueue, (instrumentation,), task)
}

/// The instrumentation handed `task` out for a task of a scoped batch.
pub open spec fn enqueued_scoped<I: TaskInstrumentation + ?Sized>(
    instrumentation: &I,
    task: Enqueued,
) -> bool {
    call_ensures(I::enqueue_scoped, (instrumentation,), task)
}

/// `task` was told that it runs.
pub open spec fn started<T: EnqueuedTask + ?Sized>(task: Box<T>) -> bool {
    exists|running: Running| call_ensures(T::run, (task,), running)
}

/// `task` was told that it runs, as a task of a scoped batch.
pub open spec fn started_scoped<T: EnqueuedTask + ?Sized>(task: Box<T>) -> bool {
    exists|running: Running| call_ensures(T::run_scoped, (task,), running)
}

/// `task` was told that it runs, and `running` is what it handed out for its run.
pub open spec fn ran_as<T: EnqueuedTask + ?Sized>(task: Box<T>, running: Running) -> bool {
    call_ensures(T::run, (task,), running)
}

/// `task` was told that it runs, as a task of a scoped batch, and `running` is what it handed out for
/// its run.
pub open spec fn ran_scoped_as<T: EnqueuedTask + ?Sized>(task: Box<T>, running: Running) -> bool {
    call_ensures(T::run_scoped, (task,), running)
}

/// What `ticket` handed out for its run, as a task of a scoped batch, was dropped at the end of the
/// job.
pub open spec fn ended_scoped(ticket: Ticket) -> bool {
    exists|running: Running| #[trigger]
        ran_scoped_as(ticket.task().0, running) && dropped(running)
}

/// `tickets` are all that were issued at one desk, from its opening to its closing.
pub open spec fn complete(tickets: Seq<Ticket>) -> bool {
    exists|receipt: Receipt| #[trigger] receipt.lists(tickets)
}

/// `ticket` was told by `worker` that it runs.
pub open spec fn told(ticket: Ticket, worker: Worker) -> bool {
    &&& started(ticket.task().0)
    &&& exists|run: Run| #[trigger] run.of(ticket) && run.worker() == worker
}

/// `ticket` was told by a thread of `pool` that it runs, as a task of a scoped batch.
pub open spec fn told_scoped(ticket: Ticket, pool: rayon::ThreadPool) -> bool {
    &&& started_scoped(ticket.task().0)
    &&& exists|run: Run| #[trigger] run.of(ticket) && run.worker().serves(pool)
}

fn run<T: EnqueuedTask + ?Sized>(task: Box<T>) -> (running: Running)
    ensures
        started(task),
        ran_as(task, running),
{
    task.run()
}

fn run_scoped<T: EnqueuedTask + ?Sized>(task: Box<T>) -> (running: Running)
    ensures
        started_scoped(task),
        ran_scoped_as(task, running),
{
    task.run_scoped()
}

/// Where tickets are issued for the tasks that an executor is called with.
pub struct Desk<'a, I: ?Sized> {
    instrumentation: &'a I,
    issued: Ghost<Seq<Ticket>>,
}

/// The list of all the tickets that were issued at a desk.
pub struct Receipt {
    tickets: Ghost<Seq<Ticket>>,
}

impl<'a, I: TaskInstrumentation + ?Sized> Desk<'a, I> {
    /// The instrumentation that hands out the tickets.
    pub closed spec fn instrumentation(&self) -> &'a I {
        self.instrumentation
    }

    /// The tickets that have been issued, in order.
    pub closed spec fn issued(&self) -> Seq<Ticket> {
        self.issued@
    }

    /// Opens a desk.
    pub(crate) fn open(instrumentation: &'a I) -> (desk: Self)
        ensures
            desk.instrumentation() == instrumentation,
            desk.issued() == Seq::<Ticket>::empty(),
    {
        Desk { instrumentation, issued: Ghost(Seq::empty()) }
    }

    /// Closes the desk.
    pub(crate) fn close(self) -> (receipt: Receipt)
        ensures
            receipt.lists(self.issued()),
    {
        Receipt { tickets: self.issued }
    }
}

impl Receipt {
    /// `tickets` are all that were issued, in order.
    pub closed spec fn lists(&self, tickets: Seq<Ticket>) -> bool {
        self.tickets@ == tickets
    }
}

/// What the instrumentation handed out for the task at a position of a batch.
pub struct Ticket {
    task: Enqueued,
    position: Ghost<int>,
}

impl Ticket {
    /// The task as the instrumentation knows it.
    pub closed spec fn task(&self) -> Enqueued {
        self.task
    }

    /// The ticket was issued for the task at `position`, and for no other. As many were issued at
    /// its desk before it.
    pub closed spec fn issued_for(&self, position: int) -> bool {
        self.position@ == position
    }

    /// Tells the instrumentation that a task joins the queue.
    pub(crate) fn issue<I: TaskInstrumentation + ?Sized>(desk: &mut Desk<'_, I>) -> (ticket: Ticket)
        ensures
            enqueued(old(desk).instrumentation(), ticket.task()),
            ticket.issued_for(old(desk).issued().len() as int),
            final(desk).instrumentation() == old(desk).instrumentation(),
            final(desk).issued() == old(desk).issued().push(ticket),
    {
        let task = desk.instrumentation.enqueue();
        let ticket = Ticket { task, position: Ghost(desk.issued@.len() as int) };
        desk.issued = Ghost(desk.issued@.push(ticket));
        ticket
    }

    /// Tells the instrumentation that a task joins the queue as the next of a scoped batch.
    pub(crate) fn issue_scoped<I: TaskInstrumentation + ?Sized>(
        desk: &mut Desk<'_, I>,
    ) -> (ticket: Ticket)
        ensures
            enqueued_scoped(old(desk).instrumentation(), ticket.task()),
            ticket.issued_for(old(desk).issued().len() as int),
            final(desk).instrumentation() == old(desk).instrumentation(),
            final(desk).issued() == old(desk).issued().push(ticket),
    {
        let task = desk.instrumentation.enqueue_scoped();
        let ticket = Ticket { task, position: Ghost(desk.issued@.len() as int) };
        desk.issued = Ghost(desk.issued@.push(ticket));
        ticket
    }

    /// Has the worker tell the ticket that its task runs. The worker has asked before whether the
    /// reply of the task is wanted, so the ticket of a task that is given up is told nothing.
    pub(crate) fn start<T, P: Predicate<T>>(self, worker: Worker, replier: &Replier<T, P>) -> (run: Run)
        requires
            replier.wanted_by(worker),
        ensures
            run.of(self),
            run.worker() == worker,
            started(self.task().0),
            ran_as(self.task().0, run.running()),
    {
        let ghost ticket = self;
        let running = run(self.task.0);
        Run { running, worker, ticket: Ghost(ticket) }
    }

    /// Has the worker tell the ticket that its task runs, as one of a scoped batch.
    pub(crate) fn start_scoped(self, worker: Worker) -> (run: Run)
        ensures
            run.of(self),
            run.worker() == worker,
            started_scoped(self.task().0),
            ran_scoped_as(self.task().0, run.running()),
    {
        let ghost ticket = self;
        let running = run_scoped(self.task.0);
        Run { running, worker, ticket: Ghost(ticket) }
    }
}

/// A ticket was issued for one position only.
pub proof fn lemma_one_position(ticket: Ticket, i: int, j: int)
    requires
        ticket.issued_for(i),
        ticket.issued_for(j),
    ensures
        i == j,
{
}

/// The time in which the task of a ticket runs.
pub struct Run {
    running: Running,
    worker: Worker,
    ticket: Ghost<Ticket>,
}

impl Run {
    /// It is the task of `ticket` that runs.
    pub closed spec fn of(&self, ticket: Ticket) -> bool {
        self.ticket@ == ticket
    }

    /// The worker that runs the task.
    pub closed spec fn worker(&self) -> Worker {
        self.worker
    }

    /// What keeps the task counted as running until it is dropped.
    pub closed spec fn running(&self) -> Running {
        self.running
    }

    /// The run is open.
    pub closed spec fn present(&self) -> bool {
        true
    }

    /// Has the worker call `f` while the run is open.
    pub(crate) fn call<A, O, F: Fn(A) -> O>(self, f: &F, arg: A) -> (done: (O, Running))
        requires
            self.present() && self.worker().present() ==> f.requires((arg,)),
        ensures
            f.ensures((arg,), done.0),
            done.1 == self.running(),
    {
        let outcome = self.worker.call(f, arg);
        (outcome, self.running)
    }

    /// Has the worker call `task` while the run is open.
    pub(crate) fn call_once<T, W: FnOnce() -> T>(self, task: W) -> (done: (T, Running))
        requires
            self.present() && self.worker().present() ==> task.requires(()),
        ensures
            task.ensures((), done.0),
            done.1 == self.running(),
    {
        let reply = self.worker.call_once(task);
        (reply, self.running)
    }
}

} // verus!
