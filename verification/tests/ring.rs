use spsc_ring::ring::Ring;

fn fill_span(r: &mut Ring, values: &[u64]) -> usize {
    // reserve, write, commit; returns how many were granted and committed
    match r.reserve(values.len()) {
        Some((_, granted)) => {
            for j in 0..granted {
                r.write_slot(j, values[j]);
            }
            r.commit(granted);
            granted
        }
        None => 0,
    }
}

#[test]
fn round_trip_capacity_8() {
    let mut r = Ring::new(8);
    let (off, granted) = r.reserve(3).expect("ring is empty, a span is owed");
    assert_eq!(off, 0);
    assert_eq!(granted, 3);
    r.write_slot(0, 1);
    r.write_slot(1, 2);
    r.write_slot(2, 3);
    r.commit(3);
    let batch = r.consume_batch();
    assert_eq!(batch.len(), 3);
    assert_eq!(batch, vec![1, 2, 3]);
}

#[test]
fn wraparound_reserve_is_truncated_then_restarts_at_zero() {
    let mut r = Ring::new(8);
    // Move the write cursor to physical offset 6: commit 6, consume them.
    let granted = fill_span(&mut r, &[0, 1, 2, 3, 4, 5]);
    assert_eq!(granted, 6);
    assert_eq!(r.consume_batch().len(), 6);
    // Only 2 contiguous slots remain before the wrap boundary.
    let (off, granted) = r.reserve(5).expect("6 slots are free");
    assert_eq!(off, 6);
    assert_eq!(granted, 2);
    r.write_slot(0, 60);
    r.write_slot(1, 61);
    r.commit(2);
    // The next reservation starts at physical offset 0.
    let (off, granted) = r.reserve(3).expect("4 slots are free");
    assert_eq!(off, 0);
    assert_eq!(granted, 3);
}

#[test]
fn full_ring_reserve_returns_nothing_until_a_slot_is_freed() {
    let mut r = Ring::new(8);
    let granted = fill_span(&mut r, &[1, 2, 3, 4, 5, 6, 7, 8]);
    assert_eq!(granted, 8);
    assert!(r.reserve(1).is_none());
    assert!(r.reserve(8).is_none());
    let batch = r.consume_batch();
    assert_eq!(batch, vec![1, 2, 3, 4, 5, 6, 7, 8]);
    let (off, granted) = r.reserve(1).expect("consume freed the whole ring");
    assert_eq!(off, 0);
    assert_eq!(granted, 1);
}

#[test]
fn close_then_drain_delivers_the_last_elements() {
    let mut r = Ring::new(8);
    assert_eq!(fill_span(&mut r, &[10, 11, 12, 13, 14]), 5);
    r.close();
    let mut seen: Vec<u64> = Vec::new();
    loop {
        let batch = r.consume_batch();
        if batch.is_empty() {
            if r.is_closed() && r.is_empty() {
                break;
            }
            panic!("empty batch on an open or non-empty ring");
        }
        seen.extend(batch);
    }
    assert_eq!(seen, vec![10, 11, 12, 13, 14]);
    assert!(r.is_closed() && r.is_empty());
}

#[test]
fn every_element_is_delivered_exactly_once_in_order_across_wraps() {
    // Interleave producing and consuming through several wraps of a small
    // ring; the concatenation of all batches must be exactly the committed
    // sequence.
    let mut r = Ring::new(4);
    let mut sent: Vec<u64> = Vec::new();
    let mut seen: Vec<u64> = Vec::new();
    let mut next: u64 = 0;
    while next < 100 {
        let want = 1 + (next as usize % 3);
        if let Some((_, granted)) = r.reserve(want) {
            for j in 0..granted {
                r.write_slot(j, next);
                sent.push(next);
                next += 1;
            }
            r.commit(granted);
        }
        if next % 2 == 0 {
            seen.extend(r.consume_batch());
        }
    }
    r.close();
    loop {
        let batch = r.consume_batch();
        if batch.is_empty() {
            break;
        }
        seen.extend(batch);
    }
    assert!(r.is_closed() && r.is_empty());
    assert_eq!(seen, sent);
}

#[test]
fn reserve_never_overgrants() {
    let mut r = Ring::new(8);
    // Request far more than the capacity: the grant is clipped to the ring.
    let (off, granted) = r.reserve(100).expect("ring is empty");
    assert_eq!((off, granted), (0, 8));
    // Commit 5 of the 8 granted slots; 3 slots stay free.
    for j in 0..5 {
        r.write_slot(j, j as u64);
    }
    r.commit(5);
    let (off, granted) = r.reserve(100).expect("3 slots are free");
    assert_eq!(off, 5);
    assert!(granted <= 100);
    assert!(granted <= 3); // never more than the free space
    assert!(off + granted <= 8); // never across the physical boundary
    assert_eq!(granted, 3);
}

#[test]
fn is_empty_iff_nothing_is_pending() {
    let mut r = Ring::new(8);
    assert!(r.is_empty());
    assert_eq!(fill_span(&mut r, &[7]), 1);
    assert!(!r.is_empty());
    let drained = r.drain();
    assert_eq!(drained, vec![7]);
    assert!(r.is_empty());
}

#[test]
fn drain_crosses_the_wrap_boundary() {
    let mut r = Ring::new(8);
    // Move both cursors to physical offset 6, then commit 4 elements: the
    // pending region wraps, so one consume_batch alone cannot drain it.
    assert_eq!(fill_span(&mut r, &[0, 1, 2, 3, 4, 5]), 6);
    assert_eq!(r.consume_batch().len(), 6);
    assert_eq!(fill_span(&mut r, &[90, 91]), 2);
    assert_eq!(fill_span(&mut r, &[92, 93]), 2);
    assert!(!r.is_empty());
    let drained = r.drain();
    assert_eq!(drained, vec![90, 91, 92, 93]);
    assert!(r.is_empty());
}

#[test]
fn a_wrapped_region_drains_in_exactly_two_batches() {
    let mut r = Ring::new(8);
    // Park both cursors at physical offset 6, then commit five elements:
    // two before the wrap boundary, three after it.
    assert_eq!(fill_span(&mut r, &[0, 1, 2, 3, 4, 5]), 6);
    assert_eq!(r.consume_batch().len(), 6);
    assert_eq!(fill_span(&mut r, &[20, 21]), 2);
    assert_eq!(fill_span(&mut r, &[22, 23, 24]), 3);
    let first = r.consume_batch();
    assert_eq!(first, vec![20, 21]);
    let second = r.consume_batch();
    assert_eq!(second, vec![22, 23, 24]);
    assert!(r.is_empty());
}

#[test]
fn consume_batch_on_an_empty_ring_returns_no_elements_at_once() {
    let mut r = Ring::new(16);
    assert_eq!(r.consume_batch().len(), 0);
    assert_eq!(r.consume_batch().len(), 0);
}

#[test]
fn close_is_observable_and_sticky() {
    let mut r = Ring::new(8);
    assert!(!r.is_closed());
    assert_eq!(fill_span(&mut r, &[1]), 1);
    r.close();
    assert!(r.is_closed());
    // Draining after close does not reopen the ring.
    assert_eq!(r.drain(), vec![1]);
    assert!(r.is_closed());
    assert!(r.is_empty());
}

#[test]
fn capacity_one_ring_alternates() {
    let mut r = Ring::new(1);
    for v in 0..5u64 {
        let (off, granted) = r.reserve(1).expect("the single slot is free");
        assert_eq!((off, granted), (0, 1));
        r.write_slot(0, v);
        r.commit(1);
        assert!(r.reserve(1).is_none());
        assert_eq!(r.consume_batch(), vec![v]);
    }
    assert!(r.is_empty());
}

#[test]
fn write_slot_overwrites_before_commit() {
    let mut r = Ring::new(8);
    let (_, granted) = r.reserve(1).expect("ring is empty");
    assert_eq!(granted, 1);
    r.write_slot(0, 7);
    r.write_slot(0, 9);
    r.commit(1);
    assert_eq!(r.consume_batch(), vec![9]);
}

#[test]
fn a_large_ring_takes_a_large_batch() {
    let mut r = Ring::new(65536);
    let values: Vec<u64> = (0..40000).collect();
    assert_eq!(fill_span(&mut r, &values), 40000);
    let batch = r.consume_batch();
    assert_eq!(batch.len(), 40000);
    assert_eq!(batch, values);
}

#[test]
fn reserve_again_before_commit_supersedes_the_grant() {
    let mut r = Ring::new(8);
    let (_, g1) = r.reserve(2).expect("ring is empty");
    assert_eq!(g1, 2);
    // The producer changes its mind and reserves a larger span instead.
    let (off, g2) = r.reserve(4).expect("no cursor moved");
    assert_eq!((off, g2), (0, 4));
    for j in 0..4 {
        r.write_slot(j, 100 + j as u64);
    }
    r.commit(4);
    assert_eq!(r.consume_batch(), vec![100, 101, 102, 103]);
}
