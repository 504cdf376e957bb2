//! Counting the reads that the census holds.

use vstd::prelude::*;
use crate::reader::ReadOp;

verus! {

/// 1 if the census counts `r` at `slot` under `epoch`, else 0.
pub open spec fn weight(r: ReadOp, slots: nat, slot: int, epoch: int) -> nat {
    if r.is_counted_at(slots, slot, epoch) {
        1
    } else {
        0
    }
}

/// Number of reads among `readers` that the census counts at `slot` under
/// `epoch`.
pub open spec fn tally(readers: Seq<ReadOp>, slots: nat, slot: int, epoch: int) -> nat
    decreases readers.len(),
{
    if readers.len() == 0 {
        0
    } else {
        tally(readers.drop_last(), slots, slot, epoch) + weight(readers.last(), slots, slot, epoch)
    }
}

/// A new read adds its own weight to the tally.
pub proof fn lemma_tally_push(readers: Seq<ReadOp>, r: ReadOp, slots: nat, slot: int, epoch: int)
    ensures
        tally(readers.push(r), slots, slot, epoch) == tally(readers, slots, slot, epoch) + weight(
            r,
            slots,
            slot,
            epoch,
        ),
{
    assert(readers.push(r).drop_last() =~= readers);
}

/// Replacing one read changes the tally by the difference of the weights.
pub proof fn lemma_tally_update(
    readers: Seq<ReadOp>,
    i: int,
    r: ReadOp,
    slots: nat,
    slot: int,
    epoch: int,
)
    requires
        0 <= i < readers.len(),
    ensures
        tally(readers.update(i, r), slots, slot, epoch) + weight(readers[i], slots, slot, epoch)
            == tally(readers, slots, slot, epoch) + weight(r, slots, slot, epoch),
    decreases readers.len(),
{
    if i == readers.len() - 1 {
        assert(readers.update(i, r).drop_last() =~= readers.drop_last());
    } else {
        assert(readers.update(i, r).drop_last() =~= readers.drop_last().update(i, r));
        lemma_tally_update(readers.drop_last(), i, r, slots, slot, epoch);
    }
}

/// A read that is counted at a slot is part of that slot's tally.
pub proof fn lemma_tally_counts(readers: Seq<ReadOp>, i: int, slots: nat, slot: int, epoch: int)
    requires
        0 <= i < readers.len(),
        readers[i].is_counted_at(slots, slot, epoch),
    ensures
        tally(readers, slots, slot, epoch) >= 1,
    decreases readers.len(),
{
    if i < readers.len() - 1 {
        lemma_tally_counts(readers.drop_last(), i, slots, slot, epoch);
    }
}

/// The slot of a reader is one of the census slots.
pub proof fn lemma_slot_in_range(reader_id: usize, slots: nat)
    requires
        slots >= 1,
    ensures
        0 <= (reader_id as int) % (slots as int) < slots,
{
    vstd::arithmetic::div_mod::lemma_mod_bound(reader_id as int, slots as int);
}

} // verus!
