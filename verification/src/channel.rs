//! A bounded multi-producer channel into a node.
//!
//! Senders on any thread push into a bounded queue; the node drains it when
//! it runs. The channel counts its senders and receivers: sending fails once
//! no receiver is left, and an empty channel whose senders are all gone is
//! reported closed. Waking the receiving node after a send is the caller's
//! part.
use crate::queue::{queue_force_push, queue_new, queue_pop, queue_push};
use crossbeam_queue::ArrayQueue;
use std::sync::atomic::AtomicUsize;
use vstd::prelude::*;

verus! {

/// A send into a channel without receivers; holds the item back.
#[derive(Debug)]
pub struct ChannelClosed<T>(T);

impl<T> ChannelClosed<T> {
    /// The item that was not sent.
    pub closed spec fn spec_item(&self) -> T {
        self.0
    }

    /// The error for an unsent `item`.
    pub fn new(item: T) -> (e: Self)
        ensures
            e.spec_item() == item,
    {
        ChannelClosed(item)
    }

    /// The item that was not sent.
    pub fn into_inner(self) -> (item: T)
        ensures
            item == self.spec_item(),
    {
        self.0
    }

    /// The error's message.
    pub fn message(&self) -> (s: &'static str)
        ensures
            s@ == "channel closed"@,
    {
        "channel closed"
    }
}

/// Why an item was not sent; holds the item back.
#[derive(Debug)]
pub enum TrySendError<T> {
    /// No receiver is left.
    ChannelClosed(T),
    /// The channel is full.
    ChannelFull(T),
}

impl<T> TrySendError<T> {
    /// The item that was not sent.
    pub fn into_inner(self) -> (item: T)
        ensures
            item == match self {
                TrySendError::ChannelClosed(x) => x,
                TrySendError::ChannelFull(x) => x,
            },
    {
        match self {
            TrySendError::ChannelClosed(x) => x,
            TrySendError::ChannelFull(x) => x,
        }
    }

    /// The error's message.
    pub fn message(&self) -> (s: &'static str)
        ensures
            *self is ChannelClosed ==> s@ == "channel closed"@,
            *self is ChannelFull ==> s@ == "channel full"@,
    {
        match self {
            TrySendError::ChannelClosed(_) => "channel closed",
            TrySendError::ChannelFull(_) => "channel full",
        }
    }
}

/// Why nothing was received.
#[derive(Debug, Clone, Copy, PartialEq, Eq, Structural)]
pub enum TryReceiveError {
    /// Nothing is queued, but a sender is left.
    Empty,
    /// Nothing is queued and no sender is left.
    ChannelClosed,
}

impl TryReceiveError {
    /// The error's message.
    pub fn message(&self) -> (s: &'static str)
        ensures
            *self is Empty ==> s@ == "channel empty"@,
            *self is ChannelClosed ==> s@ == "channel closed"@,
    {
        match self {
            TryReceiveError::Empty => "channel empty",
            TryReceiveError::ChannelClosed => "channel closed",
        }
    }
}

/// What a send answers once the queue took or refused the item: success,
/// or the item back as "full".
pub fn push_outcome<T>(pushed: Result<(), T>) -> (r: Result<(), TrySendError<T>>)
    ensures
        pushed is Ok ==> r is Ok,
        pushed matches Err(x) ==> r == Err::<(), TrySendError<T>>(TrySendError::ChannelFull(x)),
{
    match pushed {
        Ok(()) => Ok(()),
        Err(x) => Err(TrySendError::ChannelFull(x)),
    }
}

/// What a receive answers given what the queue handed out and how many
/// senders are left: the item; else "closed" when no sender is left, else
/// "empty".
pub fn receive_outcome<T>(popped: Option<T>, senders: usize) -> (r: Result<T, TryReceiveError>)
    ensures
        popped matches Some(x) ==> r == Ok::<T, TryReceiveError>(x),
        popped is None && senders == 0 ==> r == Err::<T, TryReceiveError>(
            TryReceiveError::ChannelClosed,
        ),
        popped is None && senders != 0 ==> r == Err::<T, TryReceiveError>(TryReceiveError::Empty),
{
    match popped {
        Some(x) => Ok(x),
        None => {
            if senders == 0 {
                Err(TryReceiveError::ChannelClosed)
            } else {
                Err(TryReceiveError::Empty)
            }
        },
    }
}

/// Whether a send is refused given how many receivers are left: exactly
/// when none is. The refusal is checked before the queue is tried, so a
/// channel without receivers answers "closed" even when it is full.
pub fn send_refused(receivers: usize) -> (b: bool)
    ensures
        b == (receivers == 0),
{
    receivers == 0
}

/// Whether a sender that left was the last one, given the count of senders
/// just before it left.
pub fn was_last(prev: usize) -> (b: bool)
    ensures
        b == (prev == 1),
{
    prev == 1
}

/// Reads a counter.
fn count_of(c: &AtomicUsize) -> usize {
    c.load(std::sync::atomic::Ordering::Acquire)
}

/// Adds one to a counter.
fn count_up(c: &AtomicUsize) {
    let _ = c.fetch_add(1, std::sync::atomic::Ordering::AcqRel);
}

/// Takes one from a counter and returns what it held before.
fn count_down(c: &AtomicUsize) -> usize {
    c.fetch_sub(1, std::sync::atomic::Ordering::Release)
}

/// A bounded queue with counts of its senders and receivers.
#[verifier::reject_recursive_types(T)]
pub struct Channel<T> {
    queue: ArrayQueue<T>,
    senders: AtomicUsize,
    receivers: AtomicUsize,
}

impl<T> Channel<T> {
    /// A channel holding up to `capacity` items, with one sender and one
    /// receiver.
    pub fn new(capacity: usize) -> (c: Self)
        requires
            0 < capacity,
            capacity < 0x8000_0000_0000_0000,
    {
        Channel {
            queue: queue_new(capacity),
            senders: AtomicUsize::new(1),
            receivers: AtomicUsize::new(1),
        }
    }

    /// Sends `item` unless no receiver is left ("closed", see
    /// [`send_refused`]) or else the channel is full ("full", see
    /// [`push_outcome`]); a failed send hands `item` back.
    pub fn try_send(&self, item: T) -> (r: Result<(), TrySendError<T>>)
        ensures
            r matches Err(TrySendError::ChannelClosed(x)) ==> x == item,
            r matches Err(TrySendError::ChannelFull(x)) ==> x == item,
    {
        if send_refused(count_of(&self.receivers)) {
            return Err(TrySendError::ChannelClosed(item));
        }
        push_outcome(queue_push(&self.queue, item))
    }

    /// Sends `item` unless no receiver is left (see [`send_refused`]),
    /// replacing the oldest queued item when the channel is full; a failed
    /// send hands `item` back.
    pub fn force_send(&self, item: T) -> (r: Result<(), ChannelClosed<T>>)
        ensures
            r matches Err(e) ==> e.spec_item() == item,
    {
        if send_refused(count_of(&self.receivers)) {
            return Err(ChannelClosed::new(item));
        }
        let _ = queue_force_push(&self.queue, item);
        Ok(())
    }

    /// The oldest queued item; else "closed" when no sender is left, else
    /// "empty" (see [`receive_outcome`]).
    pub fn try_receive(&self) -> (r: Result<T, TryReceiveError>) {
        let popped = queue_pop(&self.queue);
        match popped {
            Some(x) => receive_outcome(Some(x), 1),
            None => receive_outcome(None, count_of(&self.senders)),
        }
    }

    /// Counts one more sender.
    pub fn add_sender(&self) {
        count_up(&self.senders)
    }

    /// Counts one sender less; returns whether it was the last one (see
    /// [`was_last`]), after which the receiving node should be woken to see
    /// the channel closed.
    pub fn remove_sender(&self) -> (last: bool) {
        was_last(count_down(&self.senders))
    }

    /// Counts one receiver less.
    pub fn remove_receiver(&self) {
        let _ = count_down(&self.receivers);
    }
}

} // verus!
