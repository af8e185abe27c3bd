//! The fan-out of chat events: one publish side that the connections share,
//! and one subscription for each connection.
//!
//! The channel is `tokio::sync::broadcast`. A subscription sees the events
//! that are published after it was made, in the order of publishing. It
//! holds a bounded number of events: a subscription that falls behind loses
//! the oldest ones and is told how many, and the publisher never waits.
//! Publishing to no subscriber at all is no fault.
//!
//! What the contracts here can say of a handle is which channel it is on
//! and how many events that channel holds: `Channel`. Which events a
//! subscription yields depends on what the other handles of its channel do
//! in the meantime, and no contract states it.

use vstd::prelude::*;
use tokio::sync::broadcast::{Receiver, Sender};
use crate::connection::Event;

verus! {

/// `tokio::sync::broadcast::Sender`, the publish side of a channel, taken as
/// it is: nothing inside it is looked at.
#[verifier::external_type_specification]
#[verifier::external_body]
#[verifier::reject_recursive_types(T)]
pub struct ExSender<T>(Sender<T>);

/// `tokio::sync::broadcast::Receiver`, one subscription of a channel, taken
/// as it is: nothing inside it is looked at.
#[verifier::external_type_specification]
#[verifier::external_body]
#[verifier::reject_recursive_types(T)]
pub struct ExReceiver<T>(Receiver<T>);

/// The capacity that the server's fan-out is made with.
pub const EVENT_QUEUE_BOUND: usize = 10;

/// A channel, as far as the contracts speak of one.
pub struct Channel {
    /// Which channel it is. Handles on one channel have the same number;
    /// nothing else is said of it.
    pub number: int,
    /// How many events the channel holds for a subscription that has not
    /// taken them yet. One that falls behind by more loses the oldest.
    pub bound: nat,
}

/// The channel that a publish side is on. A `Sender` is a handle on one
/// channel for as long as it lives, and the channel's bound never changes.
pub uninterp spec fn sender_channel(sender: Sender<String>) -> Channel;

/// The channel that a subscription is on. A `Receiver` is a handle on one
/// channel for as long as it lives, and the channel's bound never changes.
pub uninterp spec fn receiver_channel(receiver: Receiver<String>) -> Channel;

/// The least of `power`, `2 * power`, `4 * power`, ... that is not below
/// `capacity`.
pub open spec fn doubled_up_to(capacity: nat, power: nat) -> nat
    decreases
        if power < capacity {
            capacity - power
        } else {
            0
        },
{
    if power == 0 || power >= capacity {
        power
    } else {
        doubled_up_to(capacity, 2 * power)
    }
}

/// How many events a channel holds that was made with the capacity
/// `capacity`: the least power of two that is not below it.
pub open spec fn queue_bound(capacity: nat) -> nat {
    doubled_up_to(capacity, 1)
}

/// What became of a published event.
#[derive(Clone, Copy, Debug, PartialEq, Eq, Structural)]
pub enum Published {
    /// The event was handed to this many subscriptions, at least one.
    Delivered(usize),
    /// Nobody is subscribed: the event is dropped.
    NoSubscribers,
}

/// What a subscription yields.
#[derive(Debug)]
pub enum Delivery {
    /// The next event.
    Event(String),
    /// The subscription fell behind: this many events, at least one, are
    /// lost to it. The next event is the oldest that is still held.
    Gap(u64),
    /// No event is waiting.
    Idle,
    /// No event is waiting and every publish side is gone.
    Ended,
}

/// `Sender::new` of `tokio::sync::broadcast`: the publish side of a new
/// channel with no subscription yet. It panics for a capacity of 0 or above
/// `usize::MAX / 2`, which `requires` leaves out. Trusted: the channel holds
/// the capacity rounded up to the next power of two.
#[verifier::external_body]
fn open_channel(capacity: usize) -> (sender: Sender<String>)
    requires
        0 < capacity <= usize::MAX / 2,
    ensures
        sender_channel(sender).bound == queue_bound(capacity as nat),
{
    Sender::new(capacity)
}

/// `Sender::send` of `tokio::sync::broadcast`. It returns the number of
/// subscriptions, handed on as `Delivered`, and fails only where there is
/// none, handed on as `NoSubscribers`. Trusted: a count that is returned is
/// not 0.
#[verifier::external_body]
fn send(sender: &Sender<String>, event: String) -> (r: Published)
    ensures
        r matches Published::Delivered(n) ==> n >= 1,
{
    match sender.send(event) {
        Ok(n) => Published::Delivered(n),
        Err(_) => Published::NoSubscribers,
    }
}

/// `Sender::subscribe` of `tokio::sync::broadcast`: a subscription that
/// sees what is sent after this call. It panics where the channel already
/// has `usize::MAX / 4` subscriptions, more than a machine's memory holds.
/// Trusted: the subscription is on the sender's channel.
#[verifier::external_body]
fn subscribe(sender: &Sender<String>) -> (receiver: Receiver<String>)
    ensures
        receiver_channel(receiver) == sender_channel(*sender),
{
    sender.subscribe()
}

/// `Sender::clone` of `tokio::sync::broadcast`: one more handle on the same
/// publish side. Trusted: the clone is on the sender's channel.
#[verifier::external_body]
fn clone_sender(sender: &Sender<String>) -> (other: Sender<String>)
    ensures
        sender_channel(other) == sender_channel(*sender),
{
    sender.clone()
}

/// `Receiver::try_recv` of `tokio::sync::broadcast`, its four outcomes
/// handed on one for one. Trusted: a count of lost events is not 0, and the
/// subscription stays on its channel.
#[verifier::external_body]
fn try_receive(receiver: &mut Receiver<String>) -> (d: Delivery)
    ensures
        d matches Delivery::Gap(lost) ==> lost >= 1,
        receiver_channel(*final(receiver)) == receiver_channel(*old(receiver)),
{
    match receiver.try_recv() {
        Ok(event) => Delivery::Event(event),
        Err(tokio::sync::broadcast::error::TryRecvError::Empty) => Delivery::Idle,
        Err(tokio::sync::broadcast::error::TryRecvError::Closed) => Delivery::Ended,
        Err(tokio::sync::broadcast::error::TryRecvError::Lagged(lost)) => Delivery::Gap(lost),
    }
}

/// The publish side of the fan-out.
pub struct Broadcaster {
    pub sender: Sender<String>,
}

/// One connection's subscription.
pub struct Subscription {
    pub receiver: Receiver<String>,
}

impl Broadcaster {
    /// The channel that this publish side is on.
    pub open spec fn channel(&self) -> Channel {
        sender_channel(self.sender)
    }

    /// A fan-out on a new channel, which holds `queue_bound(capacity)`
    /// events; `None` for a capacity that no channel can have.
    pub fn new(capacity: usize) -> (b: Option<Broadcaster>)
        ensures
            b is Some <==> 0 < capacity <= usize::MAX / 2,
            b matches Some(made) ==> made.channel().bound == queue_bound(capacity as nat),
    {
        if capacity == 0 || capacity > usize::MAX / 2 {
            None
        } else {
            Some(Broadcaster { sender: open_channel(capacity) })
        }
    }

    /// One more handle on this publish side, for another connection: it is
    /// on the same channel.
    pub fn share(&self) -> (other: Broadcaster)
        ensures
            other.channel() == self.channel(),
    {
        Broadcaster { sender: clone_sender(&self.sender) }
    }

    /// A subscription that sees what is published from now on: it is on
    /// this publish side's channel, and so holds as many events as the
    /// channel was made for.
    pub fn subscribe(&self) -> (subscription: Subscription)
        ensures
            subscription.channel() == self.channel(),
    {
        Subscription { receiver: subscribe(&self.sender) }
    }

    /// Publishes `event` to every subscription there is now. The publisher
    /// does not wait for any of them, and that there is none is no fault.
    pub fn publish(&self, event: String) -> (r: Published)
        ensures
            r matches Published::Delivered(n) ==> n >= 1,
    {
        send(&self.sender, event)
    }
}

impl Subscription {
    /// The channel that this subscription is on.
    pub open spec fn channel(&self) -> Channel {
        receiver_channel(self.receiver)
    }

    /// What the subscription yields now, without waiting. Whatever it is,
    /// the subscription stays on its channel.
    pub fn poll(&mut self) -> (d: Delivery)
        ensures
            d matches Delivery::Gap(lost) ==> lost >= 1,
            final(self).channel() == old(self).channel(),
    {
        try_receive(&mut self.receiver)
    }
}

/// What `delivery` is to the connection that owns the subscription: an
/// event, a lost stretch, or nothing to react to.
pub open spec fn event_of(delivery: Delivery) -> Option<crate::connection::EventView> {
    match delivery {
        Delivery::Event(event) => Some(crate::connection::EventView::Broadcast(event@)),
        Delivery::Gap(lost) => Some(crate::connection::EventView::BroadcastGap(lost)),
        Delivery::Idle => None,
        Delivery::Ended => None,
    }
}

impl Delivery {
    /// The event that this delivery is to a connection, if it is one.
    pub fn into_event(self) -> (event: Option<Event>)
        ensures
            match event {
                Some(e) => event_of(self) == Some(e@),
                None => event_of(self) is None,
            },
    {
        match self {
            Delivery::Event(event) => Some(Event::Broadcast(event)),
            Delivery::Gap(lost) => Some(Event::BroadcastGap(lost)),
            Delivery::Idle => None,
            Delivery::Ended => None,
        }
    }
}

/// A channel holds at least as many events as it was made for, and fewer
/// than twice as many.
pub proof fn queue_bound_holds_capacity(capacity: nat)
    requires
        capacity >= 1,
    ensures
        capacity <= queue_bound(capacity) < 2 * capacity,
{
    lemma_doubled_up_to(capacity, 1);
}

/// Doubling stops at the first value that is not below the capacity.
proof fn lemma_doubled_up_to(capacity: nat, power: nat)
    requires
        1 <= power < 2 * capacity,
    ensures
        capacity <= doubled_up_to(capacity, power),
        power <= doubled_up_to(capacity, power) < 2 * capacity,
    decreases
        if power < capacity {
            capacity - power
        } else {
            0
        },
{
    if power < capacity {
        lemma_doubled_up_to(capacity, 2 * power);
    }
}

} // verus!
