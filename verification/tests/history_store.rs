use daly_bms::store::{RingBuffer, SnapshotStore};

#[test]
fn ring_buffer_drops_oldest() {
    let mut b = RingBuffer::new(3);
    assert_eq!(b.latest(), None);
    for x in 1..=5u32 {
        b.push(x);
    }
    assert_eq!(b.len(), 3);
    assert_eq!(b.latest(), Some(&5));
    assert_eq!(b.recent(10), vec![5, 4, 3]);
    assert_eq!(b.recent(2), vec![5, 4]);
    assert_eq!(b.recent(0), Vec::<u32>::new());
}

#[test]
fn ring_buffer_of_capacity_zero_keeps_one() {
    let mut b = RingBuffer::new(0);
    b.push(1u8);
    b.push(2u8);
    assert_eq!(b.len(), 1);
    assert_eq!(b.latest(), Some(&2));
}

#[test]
fn store_read_after_write() {
    let mut s: SnapshotStore<u32> = SnapshotStore::new(&vec![1, 2], 2);
    assert_eq!(s.latest_for(1), None);
    assert!(s.history_for(1, 10).is_empty());
    s.on_snapshot(1, 10);
    s.on_snapshot(1, 11);
    s.on_snapshot(1, 12);
    s.on_snapshot(7, 70);
    assert_eq!(s.latest_for(1), Some(12));
    assert_eq!(s.latest_for(2), None);
    assert_eq!(s.latest_for(7), Some(70));
    assert_eq!(s.history_for(1, 10), vec![12, 11]);
    assert_eq!(s.history_for(9, 10), Vec::<u32>::new());
    assert_eq!(s.latest_all(), vec![12, 70]);
}

#[test]
fn store_buffer_status() {
    let mut s: SnapshotStore<u8> = SnapshotStore::new(&vec![2, 1], 3);
    s.on_snapshot(2, 5);
    s.on_snapshot(9, 1);
    s.on_snapshot(9, 2);
    assert_eq!(s.buffer_status(), vec![(1, 0), (2, 1), (9, 2)]);
    assert_eq!(s.count_for(9), Some(2));
    assert_eq!(s.count_for(3), None);
}
