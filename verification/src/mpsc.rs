//! Sequential core of the MPSC channel.
//!
//! All shared mutable state of a channel — the FIFO queue, the count of
//! live producer handles, and the handoff slot and consumer-waiting flag
//! that serve zero capacity — is held by [`ChannelState`]; the consumer's
//! private batching buffer by [`Receiver`]. Every operation of the channel
//! protocol is a total, non-blocking transition on these values: a bounded
//! send that must wait returns [`SendStep::Full`] instead of blocking, and
//! a receive that finds nothing to deliver returns
//! [`RecvStep::WouldBlock`] — registering the waiting consumer — or
//! [`RecvStep::Closed`] once no producer is left. A concurrent shell runs
//! each transition under one exclusive lock, maps `Full` to a wait on a
//! "capacity available" condition variable and `WouldBlock` to a wait on
//! an "item available" one, and re-checks by retrying the transition after
//! every wake. No fairness order is promised among producers blocked on a
//! full queue: each re-checks independently on wake.
//!
//! A capacity of zero delivers by direct handoff: a send takes effect
//! exactly while a receive is in progress, placing its item in the slot
//! for that one receive. The shell wakes blocked producers when the
//! consumer of a zero-capacity channel begins its wait.
//!
//! Each transition's contract states that it is one [`crate::model`] step,
//! so the trace lemmas there — FIFO delivery, no loss, no duplication,
//! closure, backpressure, the zero-capacity handoff — speak about exactly
//! what this code does.

use vstd::prelude::*;
use crate::model;
use crate::model::ModelState;

verus! {

/// The state a channel keeps under its lock: the FIFO queue of undelivered
/// items, the direct-handoff slot and consumer-waiting flag, the number of
/// live producer handles, and the fixed capacity (`None` selects unbounded
/// mode).
pub struct ChannelState<T> {
    queue: Vec<T>,
    slot: Option<T>,
    consumer_waiting: bool,
    senders: usize,
    capacity: Option<usize>,
}

/// The consumer's handle: its private, unshared buffer, drained in batch
/// from the queue so that later receives need not touch the lock.
pub struct Receiver<T> {
    buffer: Vec<T>,
}

/// Outcome of one bounded send attempt.
pub enum SendStep<T> {
    /// The item went through — to the queue tail or, on a zero-capacity
    /// channel, into the handoff slot of the waiting consumer; the sender
    /// signals "item available" next.
    Sent,
    /// The send cannot take effect yet — the queue is at capacity, or no
    /// receive is in progress on a zero-capacity channel; the item comes
    /// back unchanged and the sender waits for "capacity available", then
    /// retries.
    Full(T),
}

/// Outcome of one receive attempt.
pub enum RecvStep<T> {
    /// An item was delivered. `signal_capacity` reports that the whole
    /// remaining queue was just drained into the private buffer, so
    /// producers blocked on a full queue must be woken.
    Item { value: T, signal_capacity: bool },
    /// No producer is left and nothing is pending: end of stream. This is
    /// terminal and repeatable, never an error.
    Closed,
    /// Nothing is pending but producers remain: the waiting consumer is
    /// registered, and waits for "item available", then retries. On a
    /// zero-capacity channel the caller wakes blocked producers first:
    /// a receive is now in progress, so a send can complete.
    WouldBlock,
}

/// The [`model::Delivery`] a receive outcome stands for.
pub open spec fn delivery_of<T>(r: RecvStep<T>) -> model::Delivery<T> {
    match r {
        RecvStep::Item { value, .. } => model::Delivery::Item(value),
        RecvStep::Closed => model::Delivery::Closed,
        RecvStep::WouldBlock => model::Delivery::Blocked,
    }
}

/// The abstract state made up by the shared half and a consumer buffer.
pub open spec fn abs_with<T>(shared: &ChannelState<T>, buffer: Seq<T>) -> ModelState<T> {
    ModelState {
        queue: shared.items(),
        buffer,
        slot: shared.slot(),
        consumer_waiting: shared.waiting(),
        senders: shared.sender_count() as nat,
        capacity: shared.cap(),
    }
}

impl<T> ChannelState<T> {
    /// The queued items, oldest first.
    pub closed spec fn items(&self) -> Seq<T> {
        self.queue@
    }

    /// The direct-handoff slot of a zero-capacity channel.
    pub closed spec fn slot(&self) -> Option<T> {
        self.slot
    }

    /// Whether a receive is in progress that found nothing and now waits.
    pub closed spec fn waiting(&self) -> bool {
        self.consumer_waiting
    }

    /// How many producer handles are live.
    pub closed spec fn sender_count(&self) -> usize {
        self.senders
    }

    /// The capacity the channel was created with; `None` means unbounded.
    pub closed spec fn cap(&self) -> Option<usize> {
        self.capacity
    }

    /// The shared state a channel actually reaches: the queue within
    /// capacity, the handoff slot serving only zero capacity — whose
    /// queue is always empty — and the consumer waiting only with queue
    /// and slot empty.
    pub open spec fn wf(&self) -> bool {
        &&& (self.cap() is Some ==> self.items().len() <= self.cap().unwrap())
        &&& (self.slot() is Some ==> self.cap() == Some(0usize))
        &&& (self.cap() == Some(0usize) ==> self.items().len() == 0)
        &&& (self.waiting() ==> self.items().len() == 0 && self.slot() is None)
    }

    /// A bounded queue at capacity admits no further item.
    pub open spec fn is_full(&self) -> bool {
        model::queue_full(self.items(), self.cap())
    }

    /// Whether a send takes effect now: on a zero-capacity channel
    /// exactly when a receive is in progress; otherwise exactly when the
    /// queue is below capacity.
    pub open spec fn accepts_send(&self) -> bool {
        if self.cap() == Some(0usize) {
            self.waiting() && self.slot() is None
        } else {
            !self.is_full()
        }
    }

    /// Unbounded append, for a producer handle of an unbounded channel:
    /// the item goes to the tail of the queue; never blocks, never fails.
    /// The arrival ends the consumer's registered wait.
    pub fn send(&mut self, value: T)
        requires
            old(self).cap() is None,
        ensures
            final(self).items() == old(self).items().push(value),
            final(self).slot() == old(self).slot(),
            !final(self).waiting(),
            final(self).sender_count() == old(self).sender_count(),
            final(self).cap() == old(self).cap(),
            old(self).wf() ==> final(self).wf(),
            forall|b: Seq<T>| #[trigger] abs_with(final(self), b) == model::send_step(
                abs_with(old(self), b),
                value,
            ),
    {
        self.queue.push(value);
        self.consumer_waiting = false;
        proof {
            assert forall|b: Seq<T>| #[trigger] abs_with(self, b) == model::send_step(
                abs_with(old(self), b),
                value,
            ) by {
                assert(abs_with(self, b) =~= model::send_step(abs_with(old(self), b), value));
            }
        }
    }

    /// One bounded send attempt: append the item if the queue is below
    /// capacity — or, at capacity zero, hand it to a receive in progress
    /// — else hand it back so the caller can wait and retry. On an
    /// unbounded channel this always sends. A send that takes effect
    /// ends the consumer's registered wait.
    pub fn try_send(&mut self, value: T) -> (r: SendStep<T>)
        requires
            old(self).wf(),
        ensures
            r == (if old(self).accepts_send() {
                SendStep::<T>::Sent
            } else {
                SendStep::Full(value)
            }),
            !old(self).accepts_send() ==> *final(self) == *old(self),
            old(self).accepts_send() && old(self).cap() == Some(0usize) ==> final(self).slot()
                == Some(value) && final(self).items() == old(self).items(),
            old(self).accepts_send() && old(self).cap() != Some(0usize) ==> final(self).items()
                == old(self).items().push(value) && final(self).slot() == old(self).slot(),
            old(self).accepts_send() ==> !final(self).waiting(),
            final(self).sender_count() == old(self).sender_count(),
            final(self).cap() == old(self).cap(),
            final(self).wf(),
            forall|b: Seq<T>| #[trigger] abs_with(final(self), b) == model::send_step(
                abs_with(old(self), b),
                value,
            ),
    {
        let r = match self.capacity {
            Some(c) => {
                if c == 0 {
                    if self.consumer_waiting {
                        self.slot = Some(value);
                        self.consumer_waiting = false;
                        SendStep::Sent
                    } else {
                        SendStep::Full(value)
                    }
                } else if self.queue.len() == c {
                    SendStep::Full(value)
                } else {
                    self.queue.push(value);
                    self.consumer_waiting = false;
                    SendStep::Sent
                }
            },
            None => {
                self.queue.push(value);
                self.consumer_waiting = false;
                SendStep::Sent
            },
        };
        proof {
            assert forall|b: Seq<T>| #[trigger] abs_with(self, b) == model::send_step(
                abs_with(old(self), b),
                value,
            ) by {
                assert(abs_with(self, b) =~= model::send_step(abs_with(old(self), b), value));
            }
        }
        r
    }

    /// The capacity this channel was created with; `None` means unbounded.
    pub fn capacity(&self) -> (c: Option<usize>)
        ensures
            c == self.cap(),
    {
        self.capacity
    }

    /// How many producer handles are live.
    pub fn senders(&self) -> (n: usize)
        ensures
            n == self.sender_count(),
    {
        self.senders
    }

    /// A producer handle was cloned: one more live sender.
    pub fn add_sender(&mut self)
        requires
            old(self).sender_count() < usize::MAX,
        ensures
            final(self).sender_count() == old(self).sender_count() + 1,
            final(self).items() == old(self).items(),
            final(self).slot() == old(self).slot(),
            final(self).waiting() == old(self).waiting(),
            final(self).cap() == old(self).cap(),
    {
        self.senders = self.senders + 1;
    }

    /// A producer handle was dropped: one less live sender. Returns true
    /// when it was the last, so the caller signals "item available" and
    /// the consumer can observe end of stream.
    pub fn drop_sender(&mut self) -> (last: bool)
        requires
            old(self).sender_count() > 0,
        ensures
            final(self).sender_count() == old(self).sender_count() - 1,
            last == (final(self).sender_count() == 0),
            final(self).items() == old(self).items(),
            final(self).slot() == old(self).slot(),
            final(self).waiting() == old(self).waiting(),
            final(self).cap() == old(self).cap(),
    {
        self.senders = self.senders - 1;
        self.senders == 0
    }
}

impl<T> Receiver<T> {
    /// The batched items not yet handed out, oldest first.
    pub closed spec fn buffered(&self) -> Seq<T> {
        self.buffer@
    }

    /// The items owed to the consumer, in delivery order: the private
    /// buffer is served first, then the shared queue, then the handoff
    /// slot.
    pub open spec fn pending(&self, shared: &ChannelState<T>) -> Seq<T> {
        self.buffered() + shared.items() + model::slot_seq(shared.slot())
    }

    /// The abstract state this receiver and the shared state make up.
    pub open spec fn abs(&self, shared: &ChannelState<T>) -> ModelState<T> {
        abs_with(shared, self.buffered())
    }

    /// Serve the front of the private buffer, without the lock. `None`
    /// means the buffer is empty and the shared state must be consulted.
    pub fn pop_buffered(&mut self) -> (r: Option<T>)
        ensures
            old(self).buffered().len() > 0 ==> r == Some(old(self).buffered()[0])
                && final(self).buffered() == old(self).buffered().drop_first(),
            old(self).buffered().len() == 0 ==> r is None
                && final(self).buffered() == old(self).buffered(),
    {
        if self.buffer.len() > 0 {
            Some(self.buffer.remove(0))
        } else {
            None
        }
    }

    /// One receive attempt, taken with the lock held: serve the buffer if
    /// it holds anything; otherwise take the front of the queue and, if
    /// items remain behind it, drain them all into the buffer in one
    /// operation (one locked transfer pays for many later receives) —
    /// the queue length drops to zero, so blocked producers are woken;
    /// otherwise empty the handoff slot; otherwise report `Closed`, or
    /// `WouldBlock` after registering that a receive is now in progress.
    pub fn receive(&mut self, shared: &mut ChannelState<T>) -> (r: RecvStep<T>)
        ensures
            final(self).abs(final(shared)) == model::recv_step(old(self).abs(old(shared))),
            delivery_of(r) == model::recv_out(old(self).abs(old(shared))),
            old(self).buffered().len() > 0 ==> r == (RecvStep::Item {
                value: old(self).buffered()[0],
                signal_capacity: false,
            }),
            old(self).buffered().len() == 0 && old(shared).items().len() > 0 ==> r
                == (RecvStep::Item {
                value: old(shared).items()[0],
                signal_capacity: old(shared).items().len() > 1,
            }),
            old(self).buffered().len() == 0 && old(shared).items().len() == 0 && old(
                shared,
            ).slot() is Some ==> r == (RecvStep::Item {
                value: old(shared).slot().unwrap(),
                signal_capacity: false,
            }),
            old(self).pending(old(shared)).len() == 0 ==> r == (if old(
                shared,
            ).sender_count() == 0 {
                RecvStep::<T>::Closed
            } else {
                RecvStep::<T>::WouldBlock
            }),
            old(shared).wf() ==> final(shared).wf(),
    {
        if self.buffer.len() > 0 {
            let value = self.buffer.remove(0);
            proof {
                assert(self.abs(shared) =~= model::recv_step(old(self).abs(old(shared))));
            }
            return RecvStep::Item { value, signal_capacity: false };
        }
        if shared.queue.len() > 0 {
            let value = shared.queue.remove(0);
            if shared.queue.len() > 0 {
                core::mem::swap(&mut shared.queue, &mut self.buffer);
                proof {
                    assert(self.abs(shared) =~= model::recv_step(old(self).abs(old(shared))));
                }
                RecvStep::Item { value, signal_capacity: true }
            } else {
                proof {
                    assert(self.abs(shared) =~= model::recv_step(old(self).abs(old(shared))));
                }
                RecvStep::Item { value, signal_capacity: false }
            }
        } else {
            let mut taken: Option<T> = None;
            core::mem::swap(&mut shared.slot, &mut taken);
            match taken {
                Some(value) => {
                    proof {
                        assert(self.abs(shared) =~= model::recv_step(old(self).abs(old(shared))));
                    }
                    RecvStep::Item { value, signal_capacity: false }
                },
                None => {
                    if shared.senders == 0 {
                        proof {
                            assert(self.abs(shared) =~= model::recv_step(
                                old(self).abs(old(shared)),
                            ));
                        }
                        RecvStep::Closed
                    } else {
                        shared.consumer_waiting = true;
                        proof {
                            assert(self.abs(shared) =~= model::recv_step(
                                old(self).abs(old(shared)),
                            ));
                        }
                        RecvStep::WouldBlock
                    }
                },
            }
        }
    }
}

/// Create an unbounded channel: an empty queue, one live producer handle,
/// and the consumer handle with an empty private buffer.
pub fn channel<T>() -> (r: (ChannelState<T>, Receiver<T>))
    ensures
        r.0.items() == Seq::<T>::empty(),
        r.0.slot() is None,
        !r.0.waiting(),
        r.0.sender_count() == 1,
        r.0.cap() is None,
        r.1.buffered() == Seq::<T>::empty(),
        r.0.wf(),
{
    (
        ChannelState { queue: Vec::new(), slot: None, consumer_waiting: false, senders: 1, capacity: None },
        Receiver { buffer: Vec::new() },
    )
}

/// Create a bounded channel of the given capacity. Zero selects direct
/// handoff: a send takes effect only while a receive is in progress.
/// Otherwise as [`channel`].
pub fn sync_channel<T>(capacity: usize) -> (r: (ChannelState<T>, Receiver<T>))
    ensures
        r.0.items() == Seq::<T>::empty(),
        r.0.slot() is None,
        !r.0.waiting(),
        r.0.sender_count() == 1,
        r.0.cap() == Some(capacity),
        r.1.buffered() == Seq::<T>::empty(),
        r.0.wf(),
{
    (
        ChannelState {
            queue: Vec::new(),
            slot: None,
            consumer_waiting: false,
            senders: 1,
            capacity: Some(capacity),
        },
        Receiver { buffer: Vec::new() },
    )
}

} // verus!
