use channels::mpsc::{channel, sync_channel, ChannelState, Receiver, RecvStep, SendStep};

/// Drive one receive and expect a delivered item.
fn expect_item(rx: &mut Receiver<i32>, shared: &mut ChannelState<i32>) -> i32 {
    match rx.receive(shared) {
        RecvStep::Item { value, .. } => value,
        RecvStep::Closed => panic!("channel closed early"),
        RecvStep::WouldBlock => panic!("channel unexpectedly empty"),
    }
}

#[test]
fn single_producer_fifo_order() {
    let (mut shared, mut rx) = channel::<i32>();
    shared.send(1);
    shared.send(2);
    shared.send(3);

    assert_eq!(expect_item(&mut rx, &mut shared), 1);
    assert_eq!(expect_item(&mut rx, &mut shared), 2);
    assert_eq!(expect_item(&mut rx, &mut shared), 3);
    assert!(matches!(rx.receive(&mut shared), RecvStep::WouldBlock));
}

#[test]
fn queued_items_survive_last_producer_drop_then_closed() {
    let (mut shared, mut rx) = channel::<i32>();
    shared.send(7);
    shared.send(8);

    let last = shared.drop_sender();
    assert!(last);

    assert_eq!(expect_item(&mut rx, &mut shared), 7);
    assert_eq!(expect_item(&mut rx, &mut shared), 8);
    assert!(matches!(rx.receive(&mut shared), RecvStep::Closed));
}

#[test]
fn backpressure_with_capacity_two() {
    let (mut shared, mut rx) = sync_channel::<i32>(2);

    assert!(matches!(shared.try_send(1), SendStep::Sent));
    assert!(matches!(shared.try_send(2), SendStep::Sent));

    // The third send finds the queue at capacity: it does not go through,
    // the item comes back, and the producer can only wait.
    let third = shared.try_send(3);
    let held_back = match third {
        SendStep::Full(v) => v,
        SendStep::Sent => panic!("send must not complete while the queue is full"),
    };
    assert_eq!(held_back, 3);

    // One receive drains the queue and reports that blocked producers
    // must be woken; only then does the retried send complete.
    match rx.receive(&mut shared) {
        RecvStep::Item { value, signal_capacity } => {
            assert_eq!(value, 1);
            assert!(signal_capacity);
        },
        _ => panic!("an item was queued"),
    }
    assert!(matches!(shared.try_send(held_back), SendStep::Sent));

    assert_eq!(expect_item(&mut rx, &mut shared), 2);
    assert_eq!(expect_item(&mut rx, &mut shared), 3);
}

#[test]
fn multi_producer_interleaving_no_loss_no_duplication() {
    let (mut shared, mut rx) = channel::<i32>();
    // Two more producer handles join in.
    shared.add_sender();
    shared.add_sender();

    // An arbitrary interleaving of three producers' sends, each producer
    // sending its own triple in order.
    shared.send(11);
    shared.send(21);
    shared.send(31);
    shared.send(22);
    shared.send(12);
    shared.send(32);
    shared.send(33);
    shared.send(13);
    shared.send(23);

    let mut got = Vec::new();
    for _ in 0..9 {
        got.push(expect_item(&mut rx, &mut shared));
    }

    // Exactly nine values, the multiset of everything sent.
    let mut sorted = got.clone();
    sorted.sort();
    assert_eq!(sorted, vec![11, 12, 13, 21, 22, 23, 31, 32, 33]);

    // Each producer's own values arrive in that producer's send order.
    for base in [10, 20, 30] {
        let own: Vec<i32> = got.iter().copied().filter(|v| v / 10 * 10 == base).collect();
        assert_eq!(own, vec![base + 1, base + 2, base + 3]);
    }

    assert!(matches!(rx.receive(&mut shared), RecvStep::WouldBlock));
}

#[test]
fn zero_capacity_direct_handoff() {
    let (mut shared, mut rx) = sync_channel::<i32>(0);

    // Without a receive in progress, the send does not complete: the
    // item comes back and the producer can only wait.
    assert!(matches!(shared.try_send(42), SendStep::Full(42)));

    // The consumer's receive finds nothing and registers its wait —
    // from now on a receive is in progress.
    assert!(matches!(rx.receive(&mut shared), RecvStep::WouldBlock));

    // The retried send now completes, directly to the waiting consumer —
    // and only one item per waiting receive is admitted.
    assert!(matches!(shared.try_send(42), SendStep::Sent));
    assert!(matches!(shared.try_send(43), SendStep::Full(43)));

    // The receive in progress is handed exactly the item that was sent.
    match rx.receive(&mut shared) {
        RecvStep::Item { value, .. } => assert_eq!(value, 42),
        _ => panic!("the handed-off item must be delivered"),
    }

    // The next receive waits again; a further handoff goes through.
    assert!(matches!(rx.receive(&mut shared), RecvStep::WouldBlock));
    assert!(matches!(shared.try_send(43), SendStep::Sent));
    match rx.receive(&mut shared) {
        RecvStep::Item { value, .. } => assert_eq!(value, 43),
        _ => panic!("the handed-off item must be delivered"),
    }
}

#[test]
fn closed_channel_stays_closed() {
    let (mut shared, mut rx) = channel::<i32>();
    let last = shared.drop_sender();
    assert!(last);

    for _ in 0..4 {
        assert!(matches!(rx.receive(&mut shared), RecvStep::Closed));
    }
}

#[test]
fn bounded_scenario_three_producers_capacity_three() {
    let (mut shared, mut rx) = sync_channel::<i32>(3);
    shared.add_sender();
    shared.add_sender();

    // Three producers, each owing its triple in order; capacity 3 forces
    // every producer to wait while the queue is full. Producers retry
    // round-robin whenever the consumer signals free capacity.
    let mut queues = [vec![11, 12, 13], vec![21, 22, 23], vec![31, 32, 33]];
    let mut next = [0usize, 0, 0];
    let mut got = Vec::new();

    while got.len() < 9 {
        // Each producer with something left attempts its next send.
        for p in 0..3 {
            if next[p] < queues[p].len() {
                match shared.try_send(queues[p][next[p]]) {
                    SendStep::Sent => next[p] += 1,
                    SendStep::Full(_) => {},
                }
            }
        }
        // The consumer takes whatever is deliverable.
        loop {
            match rx.receive(&mut shared) {
                RecvStep::Item { value, .. } => got.push(value),
                _ => break,
            }
        }
    }
    for p in 0..3 {
        assert_eq!(next[p], 3);
        queues[p].clear();
    }

    // All nine values arrive, as a multiset.
    let mut sorted = got.clone();
    sorted.sort();
    assert_eq!(sorted, vec![11, 12, 13, 21, 22, 23, 31, 32, 33]);

    // Each producer's triple keeps its order.
    for base in [10, 20, 30] {
        let own: Vec<i32> = got.iter().copied().filter(|v| v / 10 * 10 == base).collect();
        assert_eq!(own, vec![base + 1, base + 2, base + 3]);
    }

    // Producers done and dropped: the next receive reports closure.
    shared.drop_sender();
    shared.drop_sender();
    let last = shared.drop_sender();
    assert!(last);
    assert!(matches!(rx.receive(&mut shared), RecvStep::Closed));
}

#[test]
fn receive_batches_queue_into_private_buffer() {
    let (mut shared, mut rx) = channel::<i32>();
    shared.send(1);
    shared.send(2);
    shared.send(3);

    // The first receive takes the queue's front and drains the rest into
    // the consumer's private buffer in one operation.
    match rx.receive(&mut shared) {
        RecvStep::Item { value, signal_capacity } => {
            assert_eq!(value, 1);
            assert!(signal_capacity);
        },
        _ => panic!("an item was queued"),
    }

    // The following receives are served from the buffer alone.
    assert_eq!(rx.pop_buffered(), Some(2));
    assert_eq!(rx.pop_buffered(), Some(3));
    assert_eq!(rx.pop_buffered(), None);
}

#[test]
fn sender_accounting_reports_only_the_last_drop() {
    let (mut shared, _rx) = channel::<i32>();
    shared.add_sender();
    shared.add_sender();

    assert!(!shared.drop_sender());
    assert!(!shared.drop_sender());
    assert!(shared.drop_sender());
}
