use left_right_rw_lock::LeftRightRwLock;
use std::cell::Cell;

fn sum(values: &Vec<i32>) -> i32 {
    values.iter().fold(0, |acc, &item| acc + item)
}

#[test]
fn new_starts_at_rest_with_two_instances() {
    let calls = Cell::new(0);
    let lock = LeftRightRwLock::new(
        || {
            calls.set(calls.get() + 1);
            vec![7, 8]
        },
        10,
    );
    assert_eq!(calls.get(), 2);
    assert_eq!(lock.census_size(), 10);
    assert_eq!(lock.current_index(), 0);
    assert_eq!(lock.current_epoch(), 0);
    assert!(!lock.is_write_locked());
    assert!(lock.is_quiescent());
    assert!(!lock.indicator_is_set(0));
    assert!(!lock.indicator_is_set(1));
    for slot in 0..10 {
        assert_eq!(lock.indicator_count(slot, 0), 0);
        assert_eq!(lock.indicator_count(slot, 1), 0);
    }
    assert_eq!(lock.instance(0), &vec![7, 8]);
    assert_eq!(lock.instance(1), &vec![7, 8]);
}

#[test]
fn try_new_refuses_a_census_without_slots() {
    assert!(LeftRightRwLock::try_new(|| 0u8, 0).is_none());
    let made = LeftRightRwLock::try_new(|| 5u8, 1);
    assert!(made.is_some());
    let mut lock = made.unwrap();
    assert_eq!(lock.census_size(), 1);
    assert_eq!(lock.read(0, |v| *v), 5);
}

#[test]
fn read_returns_what_the_observer_makes_of_the_current_instance() {
    let mut lock = LeftRightRwLock::new(|| vec![1, 2, 3], 4);
    assert_eq!(lock.read(0, sum), 6);
    assert_eq!(lock.read(9, |v| v.len()), 3);
}

#[test]
fn read_leaves_the_lock_as_it_found_it() {
    let mut lock = LeftRightRwLock::new(|| String::from("abc"), 3);
    let _ = lock.read(5, |s| s.len());
    assert_eq!(lock.current_index(), 0);
    assert_eq!(lock.current_epoch(), 0);
    assert!(lock.is_quiescent());
    assert_eq!(lock.instance(0), "abc");
    assert_eq!(lock.instance(1), "abc");
}

#[test]
fn write_applies_the_mutation_to_both_instances() {
    let mut lock = LeftRightRwLock::new(Vec::<i32>::new, 10);
    lock.write(|v| v.push(4));
    assert_eq!(lock.instance(0), &vec![4]);
    assert_eq!(lock.instance(1), &vec![4]);
    lock.write(|v| v.push(5));
    assert_eq!(lock.instance(0), &vec![4, 5]);
    assert_eq!(lock.instance(1), &vec![4, 5]);
}

#[test]
fn write_flips_the_selector_and_the_epoch_and_gives_the_token_back() {
    let mut lock = LeftRightRwLock::new(|| 0u32, 2);
    lock.write(|v| *v += 1);
    assert_eq!(lock.current_index(), 1);
    assert_eq!(lock.current_epoch(), 1);
    assert!(!lock.is_write_locked());
    assert!(lock.is_quiescent());
    lock.write(|v| *v += 1);
    assert_eq!(lock.current_index(), 0);
    assert_eq!(lock.current_epoch(), 0);
    assert!(lock.is_quiescent());
}

#[test]
fn write_returns_the_result_of_the_second_application() {
    let calls = Cell::new(0);
    let mut lock = LeftRightRwLock::new(|| 10u32, 2);
    let result = lock.write(|v| {
        calls.set(calls.get() + 1);
        *v += 1;
        (calls.get(), *v)
    });
    assert_eq!(calls.get(), 2);
    assert_eq!(result, (2, 11));
}

#[test]
fn write_changes_the_hidden_instance_first() {
    let order = std::cell::RefCell::new(Vec::new());
    let mut lock = LeftRightRwLock::new(|| 0u32, 2);
    let mut stamp = 0u32;
    for _ in 0..2 {
        stamp += 100;
        let s = stamp;
        lock.write(|v| {
            order.borrow_mut().push(*v);
            *v = s;
        });
    }
    assert_eq!(order.into_inner(), vec![0, 0, 100, 100]);
    assert_eq!(lock.instance(0), &200);
    assert_eq!(lock.instance(1), &200);
}

#[test]
fn a_read_after_a_write_sees_the_write() {
    let mut lock = LeftRightRwLock::new(Vec::<i32>::new, 10);
    for round in 1..=20 {
        lock.write(|v| v.push(round));
        assert_eq!(lock.read(round as usize, |v| v.len()), round as usize);
        assert_eq!(lock.read(0, |v| v.last().copied()), Some(round));
    }
}

#[test]
fn five_thousand_appends_sum_to_five_thousand() {
    let mut data = LeftRightRwLock::new(|| Vec::<i32>::new(), 10);
    for i in 0..5000 {
        data.write(|vec| vec.push(1));
        assert!(data.read(i, |vec| vec.iter().fold(0, |acc, &item| acc + item)) > 0);
    }
    assert_eq!(data.read(1, |vec| vec.iter().fold(0, |acc, &item| acc + item)), 5000);
}

#[test]
fn a_census_of_one_slot_serves_every_reader() {
    let mut data = LeftRightRwLock::new(|| Vec::<i32>::new(), 1);
    for i in 0..200 {
        data.write(|vec| vec.push(1));
        assert_eq!(data.read(i * 7919, sum), (i + 1) as i32);
        assert_eq!(data.instance(0), data.instance(1));
        assert!(data.is_quiescent());
    }
}

#[test]
fn a_mutation_that_differs_between_its_two_runs_makes_the_instances_diverge() {
    let ticket = Cell::new(0);
    let mut lock = LeftRightRwLock::new(|| Vec::<i32>::new(), 4);
    for _ in 0..3 {
        lock.write(|v| {
            ticket.set(ticket.get() + 1);
            v.push(ticket.get());
        });
    }
    assert_eq!(ticket.get(), 6);
    assert_eq!(lock.instance(0).len(), 3);
    assert_eq!(lock.instance(1).len(), 3);
    assert_ne!(lock.instance(0), lock.instance(1));
    assert!(lock.is_quiescent());
    assert_eq!(lock.read(0, |v| v.len()), 3);
}
