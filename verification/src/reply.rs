//! The reply of a task that runs detached from its caller.
//!
//! The two ends of a reply are made under a rule. A reply is given only if it meets the rule, so
//! what the other end receives meets it too.
use std::future::Future;

use futures_util::FutureExt;
use vstd::future::FutureAdditionalSpecFns;
use vstd::predicate::Predicate;
use vstd::prelude::*;

use crate::worker::Worker;

verus! {

/// The sending end of a channel of `oneshot`.
#[verifier::external_type_specification]
#[verifier::external_body]
#[verifier::reject_recursive_types(T)]
pub struct ExOneshotSender<T>(oneshot::Sender<T>);

/// The receiving end of a channel of `oneshot`, a future of the message.
#[verifier::external_type_specification]
#[verifier::external_body]
#[verifier::reject_recursive_types(T)]
pub struct ExOneshotReceiver<T>(oneshot::Receiver<T>);

/// The error of `oneshot` when the sending end went away without a message.
#[verifier::external_type_specification]
#[verifier::external_body]
pub struct ExRecvError(oneshot::RecvError);

/// The future of std whose value is there from the start.
#[verifier::external_type_specification]
#[verifier::external_body]
#[verifier::reject_recursive_types(T)]
pub struct ExReady<T>(std::future::Ready<T>);

/// One of two futures, from `futures_util`.
#[verifier::external_type_specification]
#[verifier::external_body]
#[verifier::reject_recursive_types(A)]
#[verifier::reject_recursive_types(B)]
pub struct ExEither<A, B>(futures_util::future::Either<A, B>);

/// The end of a reply that gives it.
#[verifier::reject_recursive_types(T)]
pub struct Replier<T, P> {
    sender: oneshot::Sender<T>,
    rule: Ghost<P>,
    wanted: Ghost<Set<Worker>>,
    given_up: Ghost<Set<Worker>>,
    settled: Ghost<bool>,
    received: Ghost<Result<T, oneshot::RecvError>>,
    awaited: Ghost<bool>,
    delivers: Ghost<bool>,
    abandoned: Ghost<bool>,
}

impl<T, P: Predicate<T>> Replier<T, P> {
    /// The rule that the reply meets.
    pub closed spec fn rule(&self) -> P {
        self.rule@
    }

    /// Whether `worker` asks and is told that the receiver is still there to get a reply. This is
    /// foretold.
    pub closed spec fn wanted_by(&self, worker: Worker) -> bool {
        self.wanted@.contains(worker)
    }

    /// Whether `worker` asks and is told that the receiver has been dropped. This is foretold.
    pub closed spec fn given_up_before(&self, worker: Worker) -> bool {
        self.given_up@.contains(worker)
    }

    /// Whether the replier is used or dropped at some time. This is foretold.
    pub closed spec fn settled(&self) -> bool {
        self.settled@
    }

    /// What the receiver of this very replier resolves to. This is foretold.
    pub closed spec fn received(&self) -> Result<T, oneshot::RecvError> {
        self.received@
    }

    /// Whether the receiver of this very replier is awaited to the end. This is foretold.
    pub closed spec fn awaited(&self) -> bool {
        self.awaited@
    }

    /// Whether a reply is given while the receiver is there to get it. This is foretold: it is
    /// settled by the time the replier is gone.
    pub closed spec fn delivers(&self) -> bool {
        self.delivers@
    }

    /// Whether the receiver is dropped before it resolves. This too is foretold.
    pub closed spec fn abandoned(&self) -> bool {
        self.abandoned@
    }

    /// Has the worker ask `oneshot::Sender::is_closed` whether the receiver has been dropped. When
    /// that happens is up to whoever holds the receiver, so what is claimed is only what the answer
    /// means: the worker was told that a reply is wanted, or that the receiver is gone, and as the
    /// sender is there without a message, the receiver never resolved.
    #[verifier::external_body]
    pub(crate) fn is_closed(&self, worker: &Worker) -> (closed: bool)
        ensures
            closed ==> self.given_up_before(*worker),
            closed ==> self.abandoned(),
            !closed ==> self.wanted_by(*worker),
    {
        self.sender.is_closed()
    }

    /// Gives the reply with `oneshot::Sender::send`, which fails only when the receiver has been
    /// dropped. That is up to whoever holds the receiver, so what is claimed is only what the
    /// answer means: the reply was given, or the receiver was gone before it resolved.
    #[verifier::external_body]
    pub(crate) fn send(self, reply: T) -> (sent: bool)
        requires
            self.rule().predicate(reply),
        ensures
            sent ==> self.delivers(),
            !sent ==> self.abandoned(),
    {
        self.sender.send(reply).is_ok()
    }
}

/// Makes the two ends of a reply with `oneshot::channel`. Claims that the replier foretells what this
/// receiver resolves to and whether it is awaited; that a message that the receiver
/// resolves to meets the rule, since it was given by [`Replier::send`], the one way in; that once a
/// reply is given the receiver resolves to one; that a receiver that is dropped before it resolves
/// is not awaited to the end; and that one that is awaited to the end resolves no sooner than the
/// replier has been used or dropped.
#[verifier::external_body]
pub(crate) fn reply_channel<T, P: Predicate<T>>(rule: &P) -> (ends: (
    Replier<T, P>,
    oneshot::Receiver<T>,
))
    ensures
        ends.0.rule() == *rule,
        ends.1@ == ends.0.received(),
        ends.1.awaited() == ends.0.awaited(),
        ends.1@ matches Ok(reply) ==> rule.predicate(reply),
        ends.0.delivers() ==> ends.1@ is Ok,
        ends.0.abandoned() ==> !ends.1.awaited(),
        ends.1.awaited() ==> ends.0.settled(),
{
    let (sender, receiver) = oneshot::channel();
    let replier = Replier {
        sender,
        rule: Ghost(*rule),
        wanted: Ghost(arbitrary()),
        given_up: Ghost(arbitrary()),
        settled: Ghost(arbitrary()),
        received: Ghost(arbitrary()),
        awaited: Ghost(arbitrary()),
        delivers: Ghost(arbitrary()),
        abandoned: Ghost(arbitrary()),
    };
    (replier, receiver)
}

/// What the caller gets for what the receiver resolves to: the reply, or nothing but the fact that
/// there is none.
pub open spec fn outcome_of<T>(received: Result<T, oneshot::RecvError>) -> Result<T, ()> {
    match received {
        Ok(reply) => Ok(reply),
        Err(_) => Err(()),
    }
}

/// Turns what the receiver resolves to into what the caller gets.
pub fn outcome<T>(received: Result<T, oneshot::RecvError>) -> (delivered: Result<T, ()>)
    ensures
        delivered == outcome_of(received),
        received matches Ok(reply) ==> delivered == Result::<T, ()>::Ok(reply),
        received is Err ==> delivered == Result::<T, ()>::Err(()),
{
    match received {
        Ok(reply) => Ok(reply),
        Err(_) => Err(()),
    }
}

/// Makes a future of the outcome with `futures_util::FutureExt::map`. Claims that it resolves to
/// the outcome of what the receiver resolves to, and that to await it is to await the receiver.
#[verifier::external_body]
pub(crate) fn awaiting<T>(receiver: oneshot::Receiver<T>) -> (future: impl Future<
    Output = Result<T, ()>,
>)
    ensures
        future@ == outcome_of(receiver@),
        future.awaited() == receiver.awaited(),
{
    receiver.map(outcome)
}

/// Makes a future of a value with `std::future::ready`. Claims that it resolves to that value.
#[verifier::external_body]
pub(crate) fn ready<T>(value: T) -> (future: std::future::Ready<T>)
    ensures
        future@ == value,
{
    std::future::ready(value)
}

/// Takes the first of two kinds of future, as `futures_util::future::Either::Left`. Claims that it
/// resolves to what `future` resolves to, and that to await it is to await `future`.
#[verifier::external_body]
pub(crate) fn left<A: Future, B: Future<Output = A::Output>>(future: A) -> (either:
    futures_util::future::Either<A, B>)
    ensures
        either@ == future@,
        either.awaited() == future.awaited(),
{
    futures_util::future::Either::Left(future)
}

/// Takes the second of two kinds of future, as `futures_util::future::Either::Right`. Claims that
/// it resolves to what `future` resolves to, and that to await it is to await `future`.
#[verifier::external_body]
pub(crate) fn right<A: Future, B: Future<Output = A::Output>>(future: B) -> (either:
    futures_util::future::Either<A, B>)
    ensures
        either@ == future@,
        either.awaited() == future.awaited(),
{
    futures_util::future::Either::Right(future)
}

} // verus!
