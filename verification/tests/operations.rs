use left_right_rw_lock::reader::{ReadAction, ReadOp};
use left_right_rw_lock::writer::{other, WriteAction, WriteOp};

#[test]
fn other_swaps_zero_and_one() {
    assert_eq!(other(0), 1);
    assert_eq!(other(1), 0);
}

#[test]
fn a_new_read_first_captures_the_epoch() {
    let op = ReadOp::new(42);
    assert_eq!(op, ReadOp::Capture { reader_id: 42 });
    assert_eq!(op.action(), ReadAction::LoadEpoch);
    assert!(!op.is_done());
}

#[test]
fn a_read_goes_through_its_five_steps_in_order() {
    let mut op = ReadOp::new(7);
    op.advance(1);
    assert_eq!(op, ReadOp::Announce { reader_id: 7, epoch: 1 });
    assert_eq!(op.action(), ReadAction::Arrive { reader_id: 7, epoch: 1 });
    op.advance(99);
    assert_eq!(op, ReadOp::Select { reader_id: 7, epoch: 1 });
    assert_eq!(op.action(), ReadAction::LoadSelector);
    op.advance(0);
    assert_eq!(op, ReadOp::Observe { reader_id: 7, epoch: 1, instance: 0 });
    assert_eq!(op.action(), ReadAction::Observe { instance: 0 });
    op.advance(99);
    assert_eq!(op, ReadOp::Retire { reader_id: 7, epoch: 1 });
    assert_eq!(op.action(), ReadAction::Depart { reader_id: 7, epoch: 1 });
    op.advance(99);
    assert_eq!(op, ReadOp::Done);
    assert_eq!(op.action(), ReadAction::Finished);
    assert!(op.is_done());
    op.advance(5);
    assert_eq!(op, ReadOp::Done);
}

#[test]
fn a_read_retires_under_the_epoch_it_captured() {
    let mut op = ReadOp::new(3);
    op.advance(0);
    op.advance(0);
    op.advance(1);
    op.advance(0);
    assert_eq!(op.action(), ReadAction::Depart { reader_id: 3, epoch: 0 });
}

#[test]
fn a_write_waits_for_the_token() {
    let mut op = WriteOp::new();
    assert_eq!(op, WriteOp::Acquire);
    assert_eq!(op.action(), WriteAction::Acquire);
    op.advance(0, 4);
    assert_eq!(op, WriteOp::Acquire);
    op.advance(1, 4);
    assert_eq!(op, WriteOp::LoadSelector);
    assert_eq!(op.action(), WriteAction::LoadSelector);
}

#[test]
fn a_write_changes_the_hidden_instance_then_publishes_it() {
    let mut op = WriteOp::LoadSelector;
    op.advance(1, 4);
    assert_eq!(op, WriteOp::BackMutate { current: 1 });
    assert_eq!(op.action(), WriteAction::Mutate { instance: 0 });
    op.advance(0, 4);
    assert_eq!(op, WriteOp::Publish { current: 1 });
    assert_eq!(op.action(), WriteAction::StoreSelector { value: 0 });
    op.advance(0, 4);
    assert_eq!(op, WriteOp::LoadEpoch { current: 1 });
    assert_eq!(op.action(), WriteAction::LoadEpoch);
}

#[test]
fn a_write_scans_the_epoch_to_be_reused_before_it_flips() {
    let mut op = WriteOp::LoadEpoch { current: 0 };
    op.advance(0, 3);
    assert_eq!(op, WriteOp::PreClear { current: 0, epoch: 0, slot: 0 });
    assert_eq!(op.action(), WriteAction::Poll { slot: 0, epoch: 1 });
    op.advance(0, 3);
    assert_eq!(op, WriteOp::PreClear { current: 0, epoch: 0, slot: 1 });
    assert_eq!(op.action(), WriteAction::Poll { slot: 1, epoch: 1 });
    op.advance(0, 3);
    assert_eq!(op, WriteOp::PreClear { current: 0, epoch: 0, slot: 2 });
    op.advance(0, 3);
    assert_eq!(op, WriteOp::Flip { current: 0, epoch: 0 });
    assert_eq!(op.action(), WriteAction::StoreEpoch { value: 1 });
}

#[test]
fn a_poll_that_finds_a_reader_starts_the_scan_again() {
    let mut op = WriteOp::PreClear { current: 0, epoch: 1, slot: 2 };
    op.advance(3, 5);
    assert_eq!(op, WriteOp::PreClear { current: 0, epoch: 1, slot: 0 });
    let mut op = WriteOp::Drain { current: 1, epoch: 0, slot: 4 };
    op.advance(1, 5);
    assert_eq!(op, WriteOp::Drain { current: 1, epoch: 0, slot: 0 });
}

#[test]
fn a_write_drains_the_epoch_it_left_then_changes_the_old_instance() {
    let mut op = WriteOp::Flip { current: 1, epoch: 0 };
    op.advance(0, 2);
    assert_eq!(op, WriteOp::Drain { current: 1, epoch: 0, slot: 0 });
    assert_eq!(op.action(), WriteAction::Poll { slot: 0, epoch: 0 });
    assert!(op.is_polling());
    op.advance(0, 2);
    assert_eq!(op, WriteOp::Drain { current: 1, epoch: 0, slot: 1 });
    op.advance(0, 2);
    assert_eq!(op, WriteOp::FrontMutate { current: 1 });
    assert!(!op.is_polling());
    assert_eq!(op.action(), WriteAction::Mutate { instance: 1 });
    op.advance(0, 2);
    assert_eq!(op, WriteOp::Release);
    assert_eq!(op.action(), WriteAction::Release);
    op.advance(0, 2);
    assert_eq!(op, WriteOp::Done);
    assert_eq!(op.action(), WriteAction::Finished);
    assert!(op.is_done());
}

#[test]
fn a_census_of_one_slot_is_scanned_in_one_poll() {
    let mut op = WriteOp::PreClear { current: 0, epoch: 0, slot: 0 };
    op.advance(0, 1);
    assert_eq!(op, WriteOp::Flip { current: 0, epoch: 0 });
}
