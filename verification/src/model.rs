//! Abstract protocol of the channel.
//!
//! A [`ModelState`] is the mathematical content of one channel: the shared
//! queue, the consumer's private buffer, the direct-handoff slot and
//! consumer-waiting flag that serve a zero-capacity channel, the number
//! of live producer handles and the optional capacity. [`step`] gives the
//! meaning of every operation as a total function — a send that cannot
//! take effect yet leaves the state unchanged (the producer waits), a
//! receive that finds nothing to deliver delivers nothing and registers
//! the waiting consumer. The lemmas at the bottom state the delivery
//! guarantees of the channel over arbitrary operation traces: what was
//! delivered plus what is still pending is exactly what was accepted, in
//! order; hence per-producer FIFO delivery, no loss and no duplication,
//! closure after the last producer is gone, backpressure on a full
//! bounded queue, and the zero-capacity direct handoff.

use vstd::prelude::*;
use vstd::seq_lib::lemma_multiset_commutative;

verus! {

/// The abstract state of a channel together with its consumer.
#[verifier::ext_equal]
pub struct ModelState<T> {
    /// Undelivered items in the shared queue, oldest first.
    pub queue: Seq<T>,
    /// Items batch-drained into the consumer's private buffer, oldest first.
    pub buffer: Seq<T>,
    /// The direct-handoff slot of a zero-capacity channel: an item put
    /// there by a producer for the one waiting consumer.
    pub slot: Option<T>,
    /// Whether a receive is in progress that found nothing and now
    /// waits; only then does a zero-capacity send take effect.
    pub consumer_waiting: bool,
    /// Live producer handles.
    pub senders: nat,
    /// `None` for unbounded mode, `Some(c)` for a fixed capacity `c`.
    pub capacity: Option<usize>,
}

/// One operation of the channel protocol.
pub enum Action<T> {
    /// A producer hands in an item (it takes effect unless the producer
    /// must wait).
    Produce(T),
    /// The consumer asks for an item.
    Consume,
    /// A producer handle is cloned.
    CloneSender,
    /// A producer handle is dropped.
    DropSender,
}

/// What one `Consume` hands to the caller.
pub enum Delivery<T> {
    /// An item was delivered.
    Item(T),
    /// No producer is left and nothing is pending: end of stream.
    Closed,
    /// Nothing is pending but producers remain: the consumer must wait.
    Blocked,
}

/// The handoff slot as a sequence: empty, or the one item it holds.
pub open spec fn slot_seq<T>(slot: Option<T>) -> Seq<T> {
    match slot {
        None => Seq::empty(),
        Some(v) => seq![v],
    }
}

/// Items not yet delivered, in delivery order: the private buffer is
/// served first, then the shared queue, then the handoff slot.
pub open spec fn pending<T>(m: ModelState<T>) -> Seq<T> {
    m.buffer + m.queue + slot_seq(m.slot)
}

/// A bounded queue at capacity admits no further item.
pub open spec fn queue_full<T>(queue: Seq<T>, capacity: Option<usize>) -> bool {
    capacity is Some && queue.len() == capacity.unwrap()
}

/// Whether a send takes effect now: on a zero-capacity channel exactly
/// when a receive is in progress (direct handoff, one item per waiting
/// receive); otherwise exactly when the queue is below capacity.
pub open spec fn send_accepted<T>(m: ModelState<T>) -> bool {
    if m.capacity == Some(0usize) {
        m.consumer_waiting && m.slot is None
    } else {
        !queue_full(m.queue, m.capacity)
    }
}

/// The state after a producer hands in `v`: unchanged while the producer
/// must wait; the handoff slot filled — and the waiting consumer claimed
/// — on a zero-capacity channel; the queue extended at the tail
/// otherwise. A send that takes effect ends the consumer's wait.
pub open spec fn send_step<T>(m: ModelState<T>, v: T) -> ModelState<T> {
    if !send_accepted(m) {
        m
    } else if m.capacity == Some(0usize) {
        ModelState { slot: Some(v), consumer_waiting: false, ..m }
    } else {
        ModelState { queue: m.queue.push(v), consumer_waiting: false, ..m }
    }
}

/// The state after the consumer asks for an item: the buffer is served
/// first; an empty buffer is refilled by draining the whole queue at
/// once; then the handoff slot is emptied; a receive that finds nothing
/// registers the waiting consumer — unless no producer is left, which
/// changes nothing.
pub open spec fn recv_step<T>(m: ModelState<T>) -> ModelState<T> {
    if m.buffer.len() > 0 {
        ModelState { buffer: m.buffer.drop_first(), ..m }
    } else if m.queue.len() > 0 {
        ModelState { queue: Seq::empty(), buffer: m.queue.drop_first(), ..m }
    } else if m.slot is Some {
        ModelState { slot: None, ..m }
    } else if m.senders > 0 {
        ModelState { consumer_waiting: true, ..m }
    } else {
        m
    }
}

/// What the consumer is handed in state `m`.
pub open spec fn recv_out<T>(m: ModelState<T>) -> Delivery<T> {
    if pending(m).len() > 0 {
        Delivery::Item(pending(m)[0])
    } else if m.senders == 0 {
        Delivery::Closed
    } else {
        Delivery::Blocked
    }
}

/// The meaning of one operation.
pub open spec fn step<T>(m: ModelState<T>, a: Action<T>) -> ModelState<T> {
    match a {
        Action::Produce(v) => send_step(m, v),
        Action::Consume => recv_step(m),
        Action::CloneSender => ModelState { senders: m.senders + 1, ..m },
        Action::DropSender => ModelState {
            senders: if m.senders > 0 { (m.senders - 1) as nat } else { 0 },
            ..m
        },
    }
}

/// The state after a whole trace of operations.
pub open spec fn run<T>(m: ModelState<T>, trace: Seq<Action<T>>) -> ModelState<T>
    decreases trace.len(),
{
    if trace.len() == 0 {
        m
    } else {
        run(step(m, trace[0]), trace.drop_first())
    }
}

/// The items the consumer is handed along a trace, in order.
pub open spec fn deliveries<T>(m: ModelState<T>, trace: Seq<Action<T>>) -> Seq<T>
    decreases trace.len(),
{
    if trace.len() == 0 {
        Seq::empty()
    } else {
        let here: Seq<T> = match trace[0] {
            Action::Consume => if pending(m).len() > 0 {
                seq![pending(m)[0]]
            } else {
                Seq::empty()
            },
            _ => Seq::empty(),
        };
        here + deliveries(step(m, trace[0]), trace.drop_first())
    }
}

/// The items whose `Produce` took effect along a trace, in the order
/// they were admitted.
pub open spec fn accepted<T>(m: ModelState<T>, trace: Seq<Action<T>>) -> Seq<T>
    decreases trace.len(),
{
    if trace.len() == 0 {
        Seq::empty()
    } else {
        let here: Seq<T> = match trace[0] {
            Action::Produce(v) => if send_accepted(m) {
                seq![v]
            } else {
                Seq::empty()
            },
            _ => Seq::empty(),
        };
        here + accepted(step(m, trace[0]), trace.drop_first())
    }
}

/// The states a channel actually passes through: the handoff slot serves
/// only zero capacity, a zero-capacity queue is always empty, and the
/// consumer waits only when nothing is pending.
pub open spec fn inv<T>(m: ModelState<T>) -> bool {
    &&& (m.slot is Some ==> m.capacity == Some(0usize))
    &&& (m.capacity == Some(0usize) ==> m.queue.len() == 0)
    &&& (m.consumer_waiting ==> pending(m).len() == 0)
}

/// Every operation preserves the state invariant.
pub proof fn lemma_inv_step<T>(m: ModelState<T>, a: Action<T>)
    requires
        inv(m),
    ensures
        inv(step(m, a)),
{
    match a {
        Action::Produce(v) => {
            if send_accepted(m) && m.capacity != Some(0usize) {
                assert(pending(step(m, a)).len() > 0);
            }
        },
        Action::Consume => {
            if m.consumer_waiting {
                assert(pending(m).len() == 0);
            }
        },
        _ => {},
    }
}

/// The channel's life-cycle: producers live; none left but items still
/// pending; nothing left at all.
pub enum ChannelPhase {
    Open,
    Draining,
    Closed,
}

/// Which phase a channel is in.
pub open spec fn phase<T>(m: ModelState<T>) -> ChannelPhase {
    if m.senders > 0 {
        ChannelPhase::Open
    } else if pending(m).len() > 0 {
        ChannelPhase::Draining
    } else {
        ChannelPhase::Closed
    }
}

/// What a receive reports is decided by the phase: an item while any is
/// pending, closure exactly in the `Closed` phase, a wait only while
/// producers remain and nothing is pending.
pub proof fn lemma_phase_decides_receive<T>(m: ModelState<T>)
    ensures
        (recv_out(m) is Closed) == (phase(m) is Closed),
        (recv_out(m) is Blocked) == (phase(m) is Open && pending(m).len() == 0),
        pending(m).len() > 0 ==> recv_out(m) is Item,
{
}

/// The `Closed` phase is terminal: nothing the consumer does, and no
/// handle bookkeeping, leaves it.
pub proof fn lemma_closed_is_terminal<T>(m: ModelState<T>, a: Action<T>)
    requires
        phase(m) is Closed,
        a is Consume || a is DropSender,
    ensures
        step(m, a) == m,
        phase(step(m, a)) is Closed,
        recv_out(m) == Delivery::<T>::Closed,
{
    assert(slot_seq(m.slot).len() == 0);
    assert(step(m, a) =~= m);
}

/// A trace in which only the consumer acts.
pub open spec fn all_consume<T>(trace: Seq<Action<T>>) -> bool {
    forall|i: int| 0 <= i < trace.len() ==> #[trigger] trace[i] is Consume
}

/// One receive serves the oldest pending item and nothing else: the items
/// owed to the consumer lose exactly their front.
pub proof fn lemma_recv_step_pending<T>(m: ModelState<T>)
    ensures
        pending(recv_step(m)) == (if pending(m).len() > 0 {
            pending(m).drop_first()
        } else {
            pending(m)
        }),
{
    if m.buffer.len() > 0 {
        assert(pending(recv_step(m)) =~= pending(m).drop_first());
    } else if m.queue.len() > 0 {
        assert(pending(recv_step(m)) =~= pending(m).drop_first());
    } else if m.slot is Some {
        assert(pending(recv_step(m)) =~= pending(m).drop_first());
    } else {
        assert(pending(m).len() == 0);
        assert(pending(recv_step(m)) =~= pending(m));
    }
}

/// Conservation along any trace: what was pending at the start plus what
/// the producers got accepted is exactly what was delivered plus what is
/// still pending — in that order. Nothing is lost, duplicated or
/// reordered by the queue, buffer and handoff mechanism.
pub proof fn lemma_history<T>(m: ModelState<T>, trace: Seq<Action<T>>)
    requires
        inv(m),
    ensures
        pending(m) + accepted(m, trace) == deliveries(m, trace) + pending(run(m, trace)),
    decreases trace.len(),
{
    if trace.len() == 0 {
        assert(pending(m) + accepted(m, trace) =~= pending(m));
        assert(deliveries(m, trace) + pending(run(m, trace)) =~= pending(m));
    } else {
        let a = trace[0];
        let m1 = step(m, a);
        let rest = trace.drop_first();
        lemma_inv_step(m, a);
        lemma_history(m1, rest);
        match a {
            Action::Produce(v) => {
                if !send_accepted(m) {
                    assert(m1 == m);
                    assert(accepted(m, trace) =~= accepted(m1, rest));
                    assert(deliveries(m, trace) =~= deliveries(m1, rest));
                } else {
                    assert(pending(m1) =~= pending(m).push(v));
                    assert(accepted(m, trace) =~= seq![v] + accepted(m1, rest));
                    assert(deliveries(m, trace) =~= deliveries(m1, rest));
                    assert(pending(m) + accepted(m, trace) =~= pending(m).push(v) + accepted(
                        m1,
                        rest,
                    ));
                }
            },
            Action::Consume => {
                lemma_recv_step_pending(m);
                if pending(m).len() > 0 {
                    assert(deliveries(m, trace) =~= seq![pending(m)[0]] + deliveries(m1, rest));
                    assert(accepted(m, trace) =~= accepted(m1, rest));
                    assert(pending(m) =~= seq![pending(m)[0]] + pending(m1));
                    assert(pending(m) + accepted(m, trace) =~= seq![pending(m)[0]] + (pending(m1)
                        + accepted(m1, rest)));
                    assert(deliveries(m, trace) + pending(run(m, trace)) =~= seq![pending(m)[0]]
                        + (deliveries(m1, rest) + pending(run(m1, rest))));
                } else {
                    assert(pending(m1) =~= pending(m));
                    assert(accepted(m, trace) =~= accepted(m1, rest));
                    assert(deliveries(m, trace) =~= deliveries(m1, rest));
                }
            },
            Action::CloneSender => {
                assert(pending(m1) =~= pending(m));
                assert(accepted(m, trace) =~= accepted(m1, rest));
                assert(deliveries(m, trace) =~= deliveries(m1, rest));
            },
            Action::DropSender => {
                assert(pending(m1) =~= pending(m));
                assert(accepted(m, trace) =~= accepted(m1, rest));
                assert(deliveries(m, trace) =~= deliveries(m1, rest));
            },
        }
    }
}

/// FIFO delivery: starting from a channel with nothing pending, whatever
/// the consumer has been handed so far is an initial segment — in order —
/// of the items the producers got accepted, however sends, receives,
/// clones and drops interleave.
pub proof fn lemma_fifo_delivery<T>(m: ModelState<T>, trace: Seq<Action<T>>)
    requires
        inv(m),
        pending(m).len() == 0,
    ensures
        deliveries(m, trace).is_prefix_of(accepted(m, trace)),
{
    lemma_history(m, trace);
    let del = deliveries(m, trace);
    let acc = accepted(m, trace);
    assert(pending(m) + acc =~= acc);
    assert(acc == del + pending(run(m, trace)));
    assert(del =~= (del + pending(run(m, trace))).subrange(0, del.len() as int));
}

/// Per-producer FIFO: mark each producer's items by any predicate `mine`
/// (say, a producer tag carried in the item). Along any interleaving, the
/// delivered items of that producer form an initial segment of that
/// producer's accepted items, in that producer's send order.
pub proof fn lemma_per_producer_fifo<T>(
    m: ModelState<T>,
    trace: Seq<Action<T>>,
    mine: spec_fn(T) -> bool,
)
    requires
        inv(m),
        pending(m).len() == 0,
    ensures
        deliveries(m, trace).filter(mine).is_prefix_of(accepted(m, trace).filter(mine)),
{
    lemma_history(m, trace);
    let del = deliveries(m, trace);
    let left = pending(run(m, trace));
    let acc = accepted(m, trace);
    assert(pending(m) + acc =~= acc);
    assert(acc == del + left);
    Seq::filter_distributes_over_add(del, left, mine);
    assert(del.filter(mine) =~= (del.filter(mine) + left.filter(mine)).subrange(
        0,
        del.filter(mine).len() as int,
    ));
}

/// No loss and no duplication: starting from a channel with nothing
/// pending, the multiset of delivered items plus the multiset of items
/// still pending equals the multiset of accepted items.
pub proof fn lemma_no_loss_no_duplication<T>(m: ModelState<T>, trace: Seq<Action<T>>)
    requires
        inv(m),
        pending(m).len() == 0,
    ensures
        deliveries(m, trace).to_multiset().add(pending(run(m, trace)).to_multiset()) == accepted(
            m,
            trace,
        ).to_multiset(),
{
    lemma_history(m, trace);
    let del = deliveries(m, trace);
    let left = pending(run(m, trace));
    let acc = accepted(m, trace);
    assert(pending(m) + acc =~= acc);
    assert(acc == del + left);
    lemma_multiset_commutative(del, left);
}

/// The payloads of the `Produce` operations of a trace, in order.
pub open spec fn produced<T>(trace: Seq<Action<T>>) -> Seq<T>
    decreases trace.len(),
{
    if trace.len() == 0 {
        Seq::empty()
    } else {
        (match trace[0] {
            Action::Produce(v) => seq![v],
            _ => Seq::empty(),
        }) + produced(trace.drop_first())
    }
}

/// An unbounded channel accepts every send: nothing is ever held back.
pub proof fn lemma_unbounded_accepts_all<T>(m: ModelState<T>, trace: Seq<Action<T>>)
    requires
        m.capacity is None,
    ensures
        accepted(m, trace) == produced(trace),
    decreases trace.len(),
{
    if trace.len() > 0 {
        let m1 = step(m, trace[0]);
        assert(m1.capacity is None);
        lemma_unbounded_accepts_all(m1, trace.drop_first());
        assert(accepted(m, trace) =~= produced(trace));
    }
}

/// Closure after the last producer is gone: with no producer left, a run
/// of receives hands out the already-pending items in order; each receive
/// past exhaustion — the first one included — reports `Closed`, never
/// blocking and never erring.
pub proof fn lemma_drain_then_close<T>(m: ModelState<T>, trace: Seq<Action<T>>)
    requires
        m.senders == 0,
        all_consume(trace),
    ensures
        deliveries(m, trace) == pending(m).take(vstd::math::min(
            trace.len() as int,
            pending(m).len() as int,
        )),
        pending(run(m, trace)) == pending(m).skip(vstd::math::min(
            trace.len() as int,
            pending(m).len() as int,
        )),
        run(m, trace).senders == 0,
        recv_out(run(m, trace)) == (if trace.len() < pending(m).len() {
            Delivery::Item(pending(m)[trace.len() as int])
        } else {
            Delivery::<T>::Closed
        }),
    decreases trace.len(),
{
    if trace.len() == 0 {
        assert(deliveries(m, trace) =~= pending(m).take(0));
        assert(pending(run(m, trace)) =~= pending(m).skip(0));
    } else {
        let m1 = step(m, trace[0]);
        let rest = trace.drop_first();
        assert(trace[0] is Consume);
        lemma_recv_step_pending(m);
        assert(m1.senders == m.senders);
        lemma_drain_then_close(m1, rest);
        let k = vstd::math::min(trace.len() as int, pending(m).len() as int);
        let k1 = vstd::math::min(rest.len() as int, pending(m1).len() as int);
        if pending(m).len() > 0 {
            assert(pending(m1) == pending(m).drop_first());
            assert(k1 == k - 1);
            assert(deliveries(m, trace) =~= seq![pending(m)[0]] + deliveries(m1, rest));
            assert(deliveries(m, trace) =~= pending(m).take(k));
            assert(pending(run(m, trace)) =~= pending(m).skip(k));
            if trace.len() < pending(m).len() {
                assert(pending(m1)[rest.len() as int] == pending(m)[trace.len() as int]);
            }
        } else {
            assert(pending(m1) =~= pending(m));
            assert(deliveries(m, trace) =~= deliveries(m1, rest));
            assert(deliveries(m, trace) =~= pending(m).take(k));
            assert(pending(run(m, trace)) =~= pending(m).skip(k));
        }
    }
}

/// Idempotent closure: once no producer is left and nothing is pending,
/// any number of further receives each report `Closed` and leave the
/// state exactly as it was.
pub proof fn lemma_closed_idempotent<T>(m: ModelState<T>, trace: Seq<Action<T>>)
    requires
        m.senders == 0,
        pending(m).len() == 0,
        all_consume(trace),
    ensures
        run(m, trace) == m,
        deliveries(m, trace) == Seq::<T>::empty(),
        recv_out(m) == Delivery::<T>::Closed,
    decreases trace.len(),
{
    if trace.len() > 0 {
        assert(trace[0] is Consume);
        assert(m.buffer.len() == 0 && m.queue.len() == 0 && m.slot is None);
        assert(step(m, trace[0]) == m);
        lemma_closed_idempotent(m, trace.drop_first());
        assert(deliveries(m, trace) =~= deliveries(m, trace.drop_first()));
    }
}

/// Backpressure: a send against a full bounded queue takes no effect —
/// the producer can only wait — and becomes possible again as soon as the
/// consumer has taken from the queue. With a capacity of at least one,
/// the trace "one receive, then the send" accepts exactly that item.
pub proof fn lemma_backpressure<T>(m: ModelState<T>, v: T)
    requires
        m.capacity is Some,
        m.capacity.unwrap() >= 1,
        m.queue.len() == m.capacity.unwrap(),
        m.buffer.len() == 0,
    ensures
        step(m, Action::Produce(v)) == m,
        accepted(m, seq![Action::Produce(v)]) == Seq::<T>::empty(),
        !queue_full(step(m, Action::Consume).queue, m.capacity),
        accepted(m, seq![Action::Consume, Action::Produce(v)]) == seq![v],
{
    reveal_with_fuel(accepted, 3);
    assert(queue_full(m.queue, m.capacity));
    assert(step(m, Action::Produce(v)) =~= m);
    let t1 = seq![Action::Produce(v)];
    assert(t1[0] == Action::Produce(v));
    assert(t1.drop_first().len() == 0);
    assert(accepted(m, t1) =~= Seq::<T>::empty());
    let t = seq![Action::Consume, Action::Produce(v)];
    let m1 = step(m, Action::Consume);
    assert(m1.queue.len() == 0);
    assert(!queue_full(m1.queue, m.capacity));
    assert(t[0] == Action::<T>::Consume);
    assert(t.drop_first() =~= t1);
    assert(accepted(m1, t1) =~= seq![v] + Seq::<T>::empty());
    assert(accepted(m1, t1) =~= seq![v]);
    assert(accepted(m, t) =~= Seq::<T>::empty() + accepted(m1, t1));
    assert(accepted(m, t) =~= seq![v]);
}

/// Zero-capacity direct handoff: a send takes effect exactly while a
/// receive is in progress. A receive that finds nothing registers the
/// waiting consumer; only then is one producer's item admitted, into the
/// handoff slot, and the receive in progress is handed exactly that
/// item.
pub proof fn lemma_zero_capacity_handoff<T>(m: ModelState<T>, v: T)
    requires
        inv(m),
        m.capacity == Some(0usize),
    ensures
        !m.consumer_waiting ==> !send_accepted(m) && step(m, Action::Produce(v)) == m,
        pending(m).len() == 0 && m.senders > 0 ==> step(m, Action::Consume).consumer_waiting,
        m.consumer_waiting ==> send_accepted(m) && pending(step(m, Action::Produce(v)))
            == seq![v] && recv_out(step(m, Action::Produce(v))) == Delivery::<T>::Item(v)
            && deliveries(m, seq![Action::Produce(v), Action::Consume]) == seq![v],
{
    reveal_with_fuel(deliveries, 3);
    if !m.consumer_waiting {
        assert(step(m, Action::Produce(v)) =~= m);
    } else {
        assert(pending(m).len() == 0);
        assert(m.slot is None);
        let m1 = step(m, Action::Produce(v));
        assert(pending(m1) =~= seq![v]);
        let t = seq![Action::Produce(v), Action::Consume];
        assert(t[0] == Action::Produce(v));
        assert(t.drop_first() =~= seq![Action::<T>::Consume]);
        assert(deliveries(m, t) =~= Seq::<T>::empty() + deliveries(m1, seq![Action::Consume]));
        assert(deliveries(m1, seq![Action::Consume]) =~= seq![v] + Seq::<T>::empty());
        assert(deliveries(m, t) =~= seq![v]);
    }
}

} // verus!
