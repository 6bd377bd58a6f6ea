//! The channel that carries the outcomes of the tasks of a batch.
//!
//! A channel is opened under a rule. A message goes in only if it meets the rule, so every message
//! that comes out meets it too.
use vstd::predicate::Predicate;
use vstd::prelude::*;

verus! {

/// The sending side of a channel of `crossbeam_channel`.
#[verifier::external_type_specification]
#[verifier::external_body]
#[verifier::reject_recursive_types(T)]
pub struct ExSender<T>(crossbeam_channel::Sender<T>);

/// The receiving side of a channel of `crossbeam_channel`.
#[verifier::external_type_specification]
#[verifier::external_body]
#[verifier::reject_recursive_types(T)]
pub struct ExReceiver<T>(crossbeam_channel::Receiver<T>);

/// A channel of messages, each with the position of the task that it comes from.
///
/// Both sides stay together until the channel is drained, so a message always finds a receiver.
#[verifier::reject_recursive_types(T)]
pub struct Channel<T, P> {
    sender: crossbeam_channel::Sender<(usize, T)>,
    receiver: crossbeam_channel::Receiver<(usize, T)>,
    rule: Ghost<P>,
    arrivals: Ghost<Seq<usize>>,
}

impl<T, P: Predicate<(usize, T)>> Channel<T, P> {
    /// The rule that the messages meet.
    pub closed spec fn rule(&self) -> P {
        self.rule@
    }

    /// The positions of all the messages that the channel carries in its life, in the order in
    /// which they come out. The channel foretells them: they are settled by the time it is drained.
    pub closed spec fn arrivals(&self) -> Seq<usize> {
        self.arrivals@
    }

    /// `messages` are what the channel carries: they have the positions of the arrivals, and meet
    /// the rule.
    pub open spec fn carried(&self, messages: Seq<(usize, T)>) -> bool {
        &&& messages.len() == self.arrivals().len()
        &&& forall|k: int|
            #![trigger messages[k]]
            0 <= k < messages.len() ==> {
                &&& messages[k].0 == self.arrivals()[k]
                &&& self.rule().predicate(messages[k])
            }
    }

    /// Opens a channel with `crossbeam_channel::unbounded`. Claims no more than that the channel
    /// is under the given rule, which is for [`Channel::send`] to uphold.
    #[verifier::external_body]
    pub(crate) fn open(rule: &P) -> (channel: Self)
        ensures
            channel.rule() == *rule,
    {
        let (sender, receiver) = crossbeam_channel::unbounded();
        Channel { sender, receiver, rule: Ghost(*rule), arrivals: Ghost(arbitrary()) }
    }

    /// Sends a message with `crossbeam_channel::Sender::send`, which never blocks on an unbounded
    /// channel and fails only once the receiver is gone. Claims that the message is sent, since the
    /// receiver is still here, and so is among those that come out.
    #[verifier::external_body]
    pub(crate) fn send(&self, message: (usize, T)) -> (sent: bool)
        requires
            self.rule().predicate(message),
        ensures
            sent,
            sent ==> self.arrivals().contains(message.0),
    {
        self.sender.send(message).is_ok()
    }

    /// Closes the channel to new messages and takes out those it holds, with the iterator of
    /// `crossbeam_channel::Receiver`, which ends when the channel is empty and has no sender.
    /// Claims that the messages that come out have the positions of the arrivals, and that each meets
    /// the rule, since [`Channel::send`] is the one way in.
    #[verifier::external_body]
    pub(crate) fn drain(self) -> (messages: Vec<(usize, T)>)
        ensures
            self.carried(messages@),
    {
        drop(self.sender);
        self.receiver.into_iter().collect()
    }
}

} // verus!
