use left_right_rw_lock::LeftRightRwLock;

#[test]
fn arrive_counts_in_the_slot_of_the_reader() {
    let mut lock = LeftRightRwLock::new(|| 0u8, 4);
    lock.indicator_arrive(6, 1);
    assert_eq!(lock.indicator_count(2, 1), 1);
    assert_eq!(lock.indicator_count(2, 0), 0);
    for slot in [0usize, 1, 3] {
        assert_eq!(lock.indicator_count(slot, 0), 0);
        assert_eq!(lock.indicator_count(slot, 1), 0);
    }
    lock.indicator_arrive(2, 1);
    lock.indicator_arrive(10, 0);
    assert_eq!(lock.indicator_count(2, 1), 2);
    assert_eq!(lock.indicator_count(2, 0), 1);
}

#[test]
fn depart_undoes_arrive() {
    let mut lock = LeftRightRwLock::new(|| 0u8, 3);
    lock.indicator_arrive(4, 0);
    lock.indicator_arrive(7, 0);
    lock.indicator_depart(1, 0);
    assert_eq!(lock.indicator_count(1, 0), 1);
    lock.indicator_depart(4, 0);
    assert_eq!(lock.indicator_count(1, 0), 0);
    assert!(lock.is_quiescent());
}

#[test]
fn is_set_tells_the_epochs_apart() {
    let mut lock = LeftRightRwLock::new(|| 0u8, 5);
    assert!(!lock.indicator_is_set(0));
    assert!(!lock.indicator_is_set(1));
    lock.indicator_arrive(4, 1);
    assert!(!lock.indicator_is_set(0));
    assert!(lock.indicator_is_set(1));
    assert!(!lock.is_quiescent());
    lock.indicator_arrive(0, 0);
    assert!(lock.indicator_is_set(0));
    lock.indicator_depart(4, 1);
    assert!(!lock.indicator_is_set(1));
    lock.indicator_depart(0, 0);
    assert!(lock.is_quiescent());
}

#[test]
fn colliding_readers_share_one_counter() {
    let mut lock = LeftRightRwLock::new(|| 0u8, 1);
    for id in 0..50 {
        lock.indicator_arrive(id, 0);
    }
    assert_eq!(lock.indicator_count(0, 0), 50);
    for id in 100..149 {
        lock.indicator_depart(id, 0);
    }
    assert!(lock.indicator_is_set(0));
    lock.indicator_depart(3, 0);
    assert!(!lock.indicator_is_set(0));
}
