use left_right_rw_lock::reader::ReadOp;
use left_right_rw_lock::writer::WriteOp;
use left_right_rw_lock::LeftRightRwLock;

type Pair = (u32, u32);

fn bump(p: &mut Pair) -> u32 {
    p.0 += 1;
    p.1 += 1;
    p.0
}

fn look(p: &Pair) -> Pair {
    *p
}

fn read_until(lock: &mut LeftRightRwLock<Pair>, op: &mut ReadOp, steps: usize) -> Option<Pair> {
    let mut seen = None;
    for _ in 0..steps {
        if let Some(p) = lock.read_step(op, &look) {
            seen = Some(p);
        }
    }
    seen
}

fn write_until_blocked(lock: &mut LeftRightRwLock<Pair>, op: &mut WriteOp) -> usize {
    let mut taken = 0;
    for _ in 0..1000 {
        let before = *op;
        lock.write_step(op, &bump);
        if *op == before || op.is_done() {
            break;
        }
        if let (WriteOp::PreClear { slot: 0, .. }, WriteOp::PreClear { .. }) = (*op, before) {
            break;
        }
        if let (WriteOp::Drain { slot: 0, .. }, WriteOp::Drain { .. }) = (*op, before) {
            break;
        }
        taken += 1;
    }
    taken
}

#[test]
fn a_stepped_read_takes_five_steps_and_leaves_the_census_empty() {
    let mut lock = LeftRightRwLock::new(|| (3, 3), 4);
    let mut op = ReadOp::new(6);
    assert_eq!(lock.read_step(&mut op, &look), None);
    assert_eq!(op, ReadOp::Announce { reader_id: 6, epoch: 0 });
    assert_eq!(lock.read_step(&mut op, &look), None);
    assert_eq!(lock.indicator_count(2, 0), 1);
    assert_eq!(lock.read_step(&mut op, &look), None);
    assert_eq!(op, ReadOp::Observe { reader_id: 6, epoch: 0, instance: 0 });
    assert_eq!(lock.read_step(&mut op, &look), Some((3, 3)));
    assert_eq!(lock.indicator_count(2, 0), 1);
    assert_eq!(lock.read_step(&mut op, &look), None);
    assert!(op.is_done());
    assert!(lock.is_quiescent());
}

#[test]
fn a_stepped_write_on_a_lock_at_rest_runs_through() {
    let mut lock = LeftRightRwLock::new(|| (0, 0), 3);
    let mut op = WriteOp::new();
    let mut results = Vec::new();
    let mut steps = 0;
    while !op.is_done() {
        if let Some(r) = lock.write_step(&mut op, &bump) {
            results.push(r);
        }
        steps += 1;
        assert!(steps <= 100);
    }
    assert_eq!(steps, 8 + 2 * 3);
    assert_eq!(results, vec![1, 1]);
    assert_eq!(lock.instance(0), &(1, 1));
    assert_eq!(lock.instance(1), &(1, 1));
    assert_eq!(lock.current_index(), 1);
    assert_eq!(lock.current_epoch(), 1);
    assert!(lock.is_quiescent());
}

#[test]
fn a_writer_waits_for_a_reader_of_the_old_instance() {
    let mut lock = LeftRightRwLock::new(|| (0, 0), 4);
    let mut reader = ReadOp::new(1);
    read_until(&mut lock, &mut reader, 3);
    assert_eq!(reader, ReadOp::Observe { reader_id: 1, epoch: 0, instance: 0 });

    let mut writer = WriteOp::new();
    write_until_blocked(&mut lock, &mut writer);
    assert_eq!(lock.current_index(), 1);
    assert_eq!(lock.current_epoch(), 1);
    assert_eq!(lock.instance(0), &(0, 0));
    assert_eq!(lock.instance(1), &(1, 1));
    for _ in 0..50 {
        lock.write_step(&mut writer, &bump);
        assert!(matches!(writer, WriteOp::Drain { current: 0, epoch: 0, .. }));
        assert_eq!(lock.instance(0), &(0, 0));
    }

    assert_eq!(lock.read_step(&mut reader, &look), Some((0, 0)));
    lock.read_step(&mut reader, &look);
    assert!(reader.is_done());

    while !writer.is_done() {
        lock.write_step(&mut writer, &bump);
    }
    assert_eq!(lock.instance(0), &(1, 1));
    assert_eq!(lock.instance(1), &(1, 1));
    assert!(lock.is_quiescent());
}

#[test]
fn a_reader_that_selects_after_the_publish_sees_the_new_instance() {
    let mut lock = LeftRightRwLock::new(|| (0, 0), 4);
    let mut reader = ReadOp::new(2);
    read_until(&mut lock, &mut reader, 2);
    assert_eq!(reader, ReadOp::Select { reader_id: 2, epoch: 0 });

    let mut writer = WriteOp::new();
    for _ in 0..4 {
        lock.write_step(&mut writer, &bump);
    }
    assert_eq!(writer, WriteOp::LoadEpoch { current: 0 });

    lock.read_step(&mut reader, &look);
    assert_eq!(reader, ReadOp::Observe { reader_id: 2, epoch: 0, instance: 1 });

    write_until_blocked(&mut lock, &mut writer);
    assert!(matches!(writer, WriteOp::Drain { current: 0, epoch: 0, .. }));
    assert_eq!(lock.read_step(&mut reader, &look), Some((1, 1)));
    lock.read_step(&mut reader, &look);
    while !writer.is_done() {
        lock.write_step(&mut writer, &bump);
    }
    assert_eq!(lock.instance(0), &(1, 1));
}

#[test]
fn a_reader_with_a_stale_epoch_holds_up_the_scan_before_the_flip() {
    let mut lock = LeftRightRwLock::new(|| (0, 0), 2);
    let mut stale = ReadOp::new(5);
    read_until(&mut lock, &mut stale, 1);
    assert_eq!(stale, ReadOp::Announce { reader_id: 5, epoch: 0 });

    lock.write(bump);
    assert_eq!(lock.current_epoch(), 1);
    assert_eq!(lock.current_index(), 1);

    read_until(&mut lock, &mut stale, 2);
    assert_eq!(stale, ReadOp::Observe { reader_id: 5, epoch: 0, instance: 1 });
    assert_eq!(lock.indicator_count(1, 0), 1);

    let mut writer = WriteOp::new();
    write_until_blocked(&mut lock, &mut writer);
    assert_eq!(lock.current_index(), 0);
    assert_eq!(lock.current_epoch(), 1);
    for _ in 0..20 {
        lock.write_step(&mut writer, &bump);
        assert!(matches!(writer, WriteOp::PreClear { current: 1, epoch: 1, .. }));
        assert_eq!(lock.instance(1), &(1, 1));
    }
    assert_eq!(lock.read_step(&mut stale, &look), Some((1, 1)));
    lock.read_step(&mut stale, &look);
    while !writer.is_done() {
        lock.write_step(&mut writer, &bump);
    }
    assert_eq!(lock.instance(0), &(2, 2));
    assert_eq!(lock.instance(1), &(2, 2));
    assert_eq!(lock.current_epoch(), 0);
}

#[test]
fn a_second_writer_waits_for_the_token() {
    let mut lock = LeftRightRwLock::new(|| (0, 0), 2);
    let mut first = WriteOp::new();
    let mut second = WriteOp::new();
    lock.write_step(&mut first, &bump);
    assert_eq!(first, WriteOp::LoadSelector);
    assert!(lock.is_write_locked());
    while !first.is_done() {
        lock.write_step(&mut second, &bump);
        assert_eq!(second, WriteOp::Acquire);
        lock.write_step(&mut first, &bump);
    }
    assert!(!lock.is_write_locked());
    lock.write_step(&mut second, &bump);
    assert_eq!(second, WriteOp::LoadSelector);
    while !second.is_done() {
        lock.write_step(&mut second, &bump);
    }
    assert_eq!(lock.instance(0), &(2, 2));
    assert_eq!(lock.instance(1), &(2, 2));
}

#[test]
fn a_read_needs_five_steps_whatever_the_writer_does() {
    for pause in 0..15 {
        let mut lock = LeftRightRwLock::new(|| (0, 0), 3);
        let mut writer = WriteOp::new();
        for _ in 0..pause {
            lock.write_step(&mut writer, &bump);
        }
        let mut reader = ReadOp::new(pause);
        let mut steps = 0;
        let mut seen = None;
        while !reader.is_done() {
            if let Some(p) = lock.read_step(&mut reader, &look) {
                seen = Some(p);
            }
            lock.write_step(&mut writer, &bump);
            steps += 1;
        }
        assert_eq!(steps, 5);
        let p = seen.unwrap();
        assert_eq!(p.0, p.1);
        while !writer.is_done() {
            lock.write_step(&mut writer, &bump);
        }
        assert_eq!(lock.instance(0), &(1, 1));
        assert_eq!(lock.instance(1), &(1, 1));
    }
}

#[test]
fn no_schedule_of_two_readers_and_a_writer_tears_a_read() {
    for seed in 0..300u32 {
        let mut lock = LeftRightRwLock::new(|| (0, 0), 2);
        let mut readers = [ReadOp::new(seed as usize), ReadOp::new(seed as usize + 1)];
        let mut began = [0u32, 0u32];
        let mut writer = WriteOp::new();
        let mut returned = 0u32;
        let mut state = seed.wrapping_mul(2654435761).wrapping_add(12345);
        for _ in 0..400 {
            state = state.wrapping_mul(1664525).wrapping_add(1013904223);
            let pick = (state >> 16) % 3;
            if pick < 2 {
                let i = pick as usize;
                if readers[i].is_done() {
                    readers[i] = ReadOp::new(state as usize);
                    began[i] = returned;
                }
                if let ReadOp::Observe { instance, .. } = readers[i] {
                    if let WriteOp::BackMutate { current } = writer {
                        assert_ne!(instance, 1 - current);
                    }
                    if let WriteOp::FrontMutate { current } = writer {
                        assert_ne!(instance, current);
                    }
                }
                if let Some(p) = lock.read_step(&mut readers[i], &look) {
                    assert_eq!(p.0, p.1);
                    assert!(p.0 >= began[i]);
                }
            } else {
                if writer.is_done() {
                    assert_eq!(lock.instance(0), lock.instance(1));
                    writer = WriteOp::new();
                }
                lock.write_step(&mut writer, &bump);
                if writer.is_done() {
                    returned += 1;
                }
            }
        }
    }
}

#[test]
fn five_thousand_interleaved_writers_each_append_once() {
    let mut lock = LeftRightRwLock::new(|| Vec::<i32>::new(), 10);
    let push = |v: &mut Vec<i32>| v.push(1);
    let total = |v: &Vec<i32>| v.iter().fold(0, |acc, &item| acc + item);
    let mut waiting = 5000 - 8;
    let mut writers = vec![WriteOp::new(); 8];
    let mut readers = vec![ReadOp::new(0), ReadOp::new(1), ReadOp::new(2), ReadOp::new(3)];
    let mut returned = 0;
    let mut floors = vec![0; 4];
    let mut state: u32 = 2463534242;
    let mut holders;
    while returned < 5000 {
        state ^= state << 13;
        state ^= state >> 17;
        state ^= state << 5;
        let pick = (state % 12) as usize;
        if pick < 8 {
            if writers[pick].is_done() {
                continue;
            }
            lock.write_step(&mut writers[pick], &push);
            if writers[pick].is_done() {
                returned += 1;
                if waiting > 0 {
                    waiting -= 1;
                    writers[pick] = WriteOp::new();
                }
            }
        } else {
            let i = pick - 8;
            if readers[i].is_done() {
                readers[i] = ReadOp::new(state as usize);
                floors[i] = returned;
            }
            if let Some(sum) = lock.read_step(&mut readers[i], &total) {
                assert!(sum >= floors[i]);
                assert!(sum <= returned + 1);
            }
        }
        holders = writers
            .iter()
            .filter(|w| !matches!(w, WriteOp::Acquire | WriteOp::Done))
            .count();
        assert!(holders <= 1);
    }
    for reader in readers.iter_mut() {
        while !reader.is_done() {
            lock.read_step(reader, &total);
        }
    }
    assert!(lock.is_quiescent());
    assert_eq!(lock.instance(0), lock.instance(1));
    assert_eq!(lock.read(1, |vec| vec.iter().fold(0, |acc, &item| acc + item)), 5000);
}
