//! Termination channels: tokio watch channels on which an executor learns
//! that it shall stop, with a model of what was handed to them.

use tokio::sync::watch::error::SendError;
use tokio::sync::watch::{Receiver, Sender};
use vstd::prelude::*;

verus! {

#[verifier::external_type_specification]
#[verifier::external_body]
#[verifier::reject_recursive_types(T)]
pub struct ExWatchSender<T>(Sender<T>);

#[verifier::external_type_specification]
#[verifier::external_body]
#[verifier::reject_recursive_types(T)]
pub struct ExWatchReceiver<T>(Receiver<T>);

#[verifier::external_type_specification]
#[verifier::external_body]
#[verifier::reject_recursive_types(T)]
pub struct ExWatchSendError<T>(SendError<T>);

/// The sending end of a termination channel. Besides the tokio sender it
/// records, as a model, the label of its channel, every value handed to
/// `send` on it, and the value the channel holds. Only the trusted items of
/// this module change that model; the sender cannot be cloned, so no other
/// handle changes the value of its channel.
pub struct TerminationSender {
    sender: Sender<bool>,
    channel: Ghost<nat>,
    sent: Ghost<Seq<bool>>,
    value: Ghost<bool>,
}

/// The receiving end of a termination channel, with the label of its channel.
pub struct TerminationReceiver {
    receiver: Receiver<bool>,
    channel: Ghost<nat>,
}

impl TerminationSender {
    /// The label of the channel this sender belongs to.
    pub closed spec fn channel(&self) -> nat {
        self.channel@
    }

    /// The values handed to `send` on this sender, in order.
    pub closed spec fn sent(&self) -> Seq<bool> {
        self.sent@
    }

    /// The value the channel holds.
    pub closed spec fn value(&self) -> bool {
        self.value@
    }
}

impl TerminationReceiver {
    /// The label of the channel this receiver belongs to.
    pub closed spec fn channel(&self) -> nat {
        self.channel@
    }

    /// The tokio receiver, for the task that watches for termination.
    pub fn into_receiver(self) -> Receiver<bool> {
        self.receiver
    }
}

/// Calls `tokio::sync::watch::channel(init)`, which creates a new watch
/// channel holding `init` and returns its sender and its receiver. Both ends
/// carry the same channel label, which the caller does not choose; nothing
/// has been sent on the sender yet.
#[verifier::external_body]
pub(crate) fn termination_channel(init: bool) -> (ends: (TerminationSender, TerminationReceiver))
    ensures
        ends.0.channel() == ends.1.channel(),
        ends.0.sent() == Seq::<bool>::empty(),
        ends.0.value() == init,
{
    let (sender, receiver) = tokio::sync::watch::channel(init);
    let channel: Ghost<nat> = Ghost(arbitrary());
    (
        TerminationSender {
            sender,
            channel,
            sent: Ghost(Seq::empty()),
            value: Ghost(init),
        },
        TerminationReceiver { receiver, channel },
    )
}

/// Calls `tokio::sync::watch::Sender::send(value)`. It fails, leaving the
/// channel as it was, when every receiver has been dropped; otherwise it
/// stores `value` in the channel. Which of the two happens depends on the
/// receivers; either way the call is recorded in `sent`.
#[verifier::external_body]
pub(crate) fn send(sender: &mut TerminationSender, value: bool) -> (result: Result<(), SendError<bool>>)
    ensures
        final(sender).channel() == old(sender).channel(),
        final(sender).sent() == old(sender).sent().push(value),
        result is Ok ==> final(sender).value() == value,
        result is Err ==> final(sender).value() == old(sender).value(),
{
    let result = sender.sender.send(value);
    sender.sent = Ghost(sender.sent@.push(value));
    sender.value = Ghost(if result is Ok { value } else { sender.value@ });
    result
}

} // verus!
