//! The broadcast channel: one publisher, any number of subscribers, each
//! with its own position in the stream.
//!
//! The ring buffer and the subscribers' cursors are tokio's
//! `sync::broadcast` channel. The channel is shared and changes under
//! every handle, so nothing here claims to know how many subscribers it has
//! from one call to the next: what the library decides on is the value that
//! each call hands back.

use tokio::sync::broadcast::error::{RecvError, SendError};
use tokio::sync::broadcast::{Receiver, Sender};
use vstd::prelude::*;

verus! {

/// tokio's sending half of a broadcast channel, carried as an opaque value.
#[verifier::external_type_specification]
#[verifier::external_body]
#[verifier::reject_recursive_types(T)]
pub struct ExSender<T>(Sender<T>);

/// tokio's receiving half of a broadcast channel, carried as an opaque
/// value: the subscription that `subscribe_broadcast` hands out.
#[verifier::external_type_specification]
#[verifier::external_body]
#[verifier::reject_recursive_types(T)]
pub struct ExReceiver<T>(Receiver<T>);

/// tokio's error of `Sender::send`, carried as an opaque value.
#[verifier::external_type_specification]
#[verifier::external_body]
#[verifier::reject_recursive_types(T)]
pub struct ExSendError<T>(SendError<T>);

/// tokio's error of `Receiver::recv`, carried as an opaque value.
#[verifier::external_type_specification]
#[verifier::external_body]
pub struct ExRecvError(RecvError);

/// Why a message could not be published.
#[derive(Clone, Copy, Debug, PartialEq, Eq, Structural)]
pub enum BroadcastError {
    /// The channel refused the message: its last subscriber left between
    /// the look at the subscriber count and the send.
    ChannelClosed,
}

/// What a subscriber got when it asked its subscription for the next
/// message.
#[derive(Debug)]
pub enum Reception<T> {
    /// The next message.
    Message(T),
    /// The subscriber fell behind by more than the channel holds: this many
    /// messages were overwritten before it read them. The subscription
    /// stands, at the oldest message that is still there.
    Lagged(u64),
    /// Every publisher is gone: no message will come any more.
    Closed,
}

/// What a subscriber does after a reception.
#[derive(Clone, Copy, Debug, PartialEq, Eq, Structural)]
pub enum SubscriberAction {
    /// Handle the message, then receive again.
    Handle,
    /// Messages were lost; note it and receive again.
    SkipAhead,
    /// Stop receiving.
    Finish,
}

/// `tokio::sync::broadcast::channel`, with the receiver that it creates
/// dropped at once: the new channel has no subscriber. tokio panics on a
/// capacity of 0 and on one above `usize::MAX / 2`; nothing is claimed of the
/// sender.
#[verifier::external_body]
fn open_channel<T: Clone>(capacity: usize) -> (sender: Sender<T>)
    requires
        0 < capacity <= usize::MAX / 2,
{
    let (sender, _) = tokio::sync::broadcast::channel(capacity);
    sender
}

/// `Sender::receiver_count`: the number of subscriptions alive at the moment
/// of the call. Other handles add and drop subscriptions at any time, so
/// nothing is claimed of the number.
#[verifier::external_body]
fn count_receivers<T>(sender: &Sender<T>) -> (receivers: usize) {
    sender.receiver_count()
}

/// `Sender::send`: stores the message for every subscription alive at that
/// moment and returns their number, which is then at least one; with no
/// subscription alive it fails.
#[verifier::external_body]
fn publish<T>(sender: &Sender<T>, message: T) -> (sent: Result<usize, SendError<T>>)
    ensures
        sent matches Ok(receivers) ==> receivers > 0,
{
    sender.send(message)
}

/// `Sender::subscribe`: a new subscription that starts behind the last
/// message sent so far. (tokio panics at more than `usize::MAX / 4`
/// subscriptions alive at once, more than fit in memory.)
#[verifier::external_body]
fn attach<T>(sender: &Sender<T>) -> (subscription: Receiver<T>) {
    sender.subscribe()
}

/// Tells the two values of tokio's `RecvError` apart.
#[verifier::external_body]
fn missed_messages(error: RecvError) -> (missed: Option<u64>) {
    match error {
        RecvError::Lagged(missed) => Some(missed),
        RecvError::Closed => None,
    }
}

/// Whether `send_broadcast` hands a message to the channel, given the
/// number of subscribers it saw: with nobody listening the message is
/// dropped and the channel is not asked at all.
pub fn should_publish(receivers: usize) -> (publish: bool)
    ensures
        publish == (receivers > 0),
{
    receivers > 0
}

/// Whether `outcome` may come of a send that saw `receivers` subscribers:
/// with none, only success may.
pub open spec fn may_come_of(receivers: usize, outcome: Result<(), BroadcastError>) -> bool {
    receivers == 0 ==> outcome == Ok::<(), BroadcastError>(())
}

/// What `send_broadcast` returns for each outcome of the channel's send.
pub fn publish_outcome<T>(sent: Result<usize, SendError<T>>) -> (outcome: Result<
    (),
    BroadcastError,
>)
    ensures
        sent is Ok ==> outcome == Ok::<(), BroadcastError>(()),
        sent is Err ==> outcome == Err::<(), BroadcastError>(BroadcastError::ChannelClosed),
{
    match sent {
        Ok(_) => Ok(()),
        Err(_) => Err(BroadcastError::ChannelClosed),
    }
}

/// The reception that stands for what a subscription handed back: the
/// message, or else the number of messages missed, or else, with no number,
/// the end of the channel.
pub open spec fn reception_for<T>(received: Result<T, Option<u64>>) -> Reception<T> {
    match received {
        Ok(message) => Reception::Message(message),
        Err(Some(missed)) => Reception::Lagged(missed),
        Err(None) => Reception::Closed,
    }
}

/// Turns what a subscription handed back into a [`Reception`]: a message,
/// a lag with the number of messages missed, or the end of the channel.
pub fn reception_from<T>(received: Result<T, Option<u64>>) -> (reception: Reception<T>)
    ensures
        reception == reception_for(received),
{
    match received {
        Ok(message) => Reception::Message(message),
        Err(Some(missed)) => Reception::Lagged(missed),
        Err(None) => Reception::Closed,
    }
}

/// Turns what a subscription's `recv` returned into a [`Reception`]. Which
/// of its two errors the channel reported is read off the error and handed
/// to [`reception_from`].
pub fn reception_of<T>(received: Result<T, RecvError>) -> (reception: Reception<T>)
    ensures
        received matches Ok(message) ==> reception == Reception::Message(message),
        received is Err ==> exists|missed: Option<u64>|
            reception == #[trigger] reception_for(Err::<T, Option<u64>>(missed)),
{
    match received {
        Ok(message) => reception_from(Ok(message)),
        Err(error) => {
            let missed = missed_messages(error);
            let reception = reception_from(Err(missed));
            assert(reception == reception_for(Err::<T, Option<u64>>(missed)));
            reception
        },
    }
}

/// What a subscriber does after a reception: a message is handled, a lag is
/// no reason to stop, and only a closed channel ends the subscription.
pub open spec fn action_after<T>(reception: Reception<T>) -> SubscriberAction {
    match reception {
        Reception::Message(_) => SubscriberAction::Handle,
        Reception::Lagged(_) => SubscriberAction::SkipAhead,
        Reception::Closed => SubscriberAction::Finish,
    }
}

impl<T> Reception<T> {
    /// What the subscriber does next.
    pub fn action(&self) -> (action: SubscriberAction)
        ensures
            action == action_after(*self),
    {
        match self {
            Reception::Message(_) => SubscriberAction::Handle,
            Reception::Lagged(_) => SubscriberAction::SkipAhead,
            Reception::Closed => SubscriberAction::Finish,
        }
    }
}

/// A fan-out channel for messages of type `BM`.
#[verifier::reject_recursive_types(BM)]
pub struct BroadCastChannel<BM> {
    broadcaster: Sender<BM>,
    capacity: usize,
}

impl<BM> BroadCastChannel<BM> {
    /// The capacity that the channel was made with.
    pub closed spec fn requested_capacity(&self) -> usize {
        self.capacity
    }

    /// The capacity that the channel was made with: the number of messages
    /// that was asked for. The channel itself holds the next power of two
    /// of it, and that is how far a subscriber may fall behind.
    pub fn capacity(&self) -> (capacity: usize)
        ensures
            capacity == self.requested_capacity(),
    {
        self.capacity
    }
}

impl<BM: Clone> BroadCastChannel<BM> {
    /// A channel without subscribers, made with room for `capacity`
    /// messages. The capacity bounds how far a subscriber may fall behind
    /// before it loses messages.
    pub fn new(capacity: usize) -> (channel: Self)
        requires
            0 < capacity <= usize::MAX / 2,
        ensures
            channel.requested_capacity() == capacity,
    {
        BroadCastChannel { broadcaster: open_channel(capacity), capacity }
    }

    /// The channel itself.
    pub fn init(&self) -> (channel: &Self)
        ensures
            channel == self,
    {
        self
    }

    /// Publishes `message`, given the number of subscribers that was
    /// seen. With no subscriber the message is dropped, the channel is not
    /// asked, and that is no error. With subscribers the message is handed
    /// to the channel as it came, and the outcome is what
    /// [`publish_outcome`] makes of the channel's answer.
    pub fn send_to(&self, receivers: usize, message: BM) -> (outcome: Result<(), BroadcastError>)
        ensures
            receivers == 0 ==> outcome == Ok::<(), BroadcastError>(()),
            may_come_of(receivers, outcome),
    {
        if should_publish(receivers) {
            publish_outcome(publish(&self.broadcaster, message))
        } else {
            Ok(())
        }
    }

    /// Publishes `message` to the subscribers there are: looks how many
    /// there are and sends as [`BroadCastChannel::send_to`] does for that
    /// number. With no subscriber the message is dropped and that is no
    /// error.
    pub fn send_broadcast(&self, message: BM) -> (outcome: Result<(), BroadcastError>)
        ensures
            exists|receivers: usize| #[trigger] may_come_of(receivers, outcome),
    {
        let receivers = count_receivers(&self.broadcaster);
        let outcome = self.send_to(receivers, message);
        assert(may_come_of(receivers, outcome));
        outcome
    }

    /// A new subscription. It sees the messages sent from now on, none of
    /// those sent before.
    pub fn subscribe_broadcast(&self) -> (subscription: Receiver<BM>) {
        attach(&self.broadcaster)
    }
}

} // verus!
