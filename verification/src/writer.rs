//! One write, as a state machine over the shared control words.
//!
//! A write takes the writer token, changes the instance that no reader
//! sees, publishes it, hands the census over from one epoch to the other
//! while it waits for the readers of the old instance to leave, changes
//! the old instance in the same way, and gives the token back.

use vstd::prelude::*;
use crate::control::Control;

verus! {

/// The other one of the two indices 0 and 1.
pub open spec fn spec_other(i: usize) -> usize {
    if i == 0 {
        1
    } else {
        0
    }
}

/// The other one of the two indices 0 and 1.
pub fn other(i: usize) -> (o: usize)
    ensures
        o == spec_other(i),
        o < 2,
        i < 2 ==> o == 1 - i,
{
    if i == 0 {
        1
    } else {
        0
    }
}

/// Where a write stands. Each phase but the last names the one step that
/// the write takes next. `current` is the instance that readers saw when
/// the write began, `epoch` the epoch flag that the write found.
#[derive(Clone, Copy, Debug, PartialEq, Eq, Structural)]
pub enum WriteOp {
    /// Next: take the writer token, or find it taken and try again.
    Acquire,
    /// Next: load the selector.
    LoadSelector,
    /// Next: change the instance that readers do not see.
    BackMutate { current: usize },
    /// Next: point the selector at the changed instance.
    Publish { current: usize },
    /// Next: load the epoch flag.
    LoadEpoch { current: usize },
    /// Next: poll the counter of `slot` under the epoch that is about to
    /// be reused.
    PreClear { current: usize, epoch: usize, slot: usize },
    /// Next: flip the epoch flag.
    Flip { current: usize, epoch: usize },
    /// Next: poll the counter of `slot` under the epoch that was left.
    Drain { current: usize, epoch: usize, slot: usize },
    /// Next: change the instance that readers saw before.
    FrontMutate { current: usize },
    /// Next: give the writer token back.
    Release,
    /// The write has returned.
    Done,
}

/// What a write asks of the shared words, or of the two instances, in its
/// next step.
#[derive(Clone, Copy, Debug, PartialEq, Eq, Structural)]
pub enum WriteAction {
    /// Take the writer token. Hand `advance` 1 if it was taken, 0 if
    /// another writer holds it.
    Acquire,
    /// Load the selector and hand it to `advance`.
    LoadSelector,
    /// Apply the mutation to instance `instance`.
    Mutate { instance: usize },
    /// Store `value` in the selector.
    StoreSelector { value: usize },
    /// Load the epoch flag and hand it to `advance`.
    LoadEpoch,
    /// Load the counter of `slot` under `epoch` and hand it to `advance`.
    Poll { slot: usize, epoch: usize },
    /// Store `value` in the epoch flag.
    StoreEpoch { value: usize },
    /// Give the writer token back.
    Release,
    /// Nothing is left to do.
    Finished,
}

impl WriteOp {
    /// The step that this write takes next.
    pub open spec fn spec_action(self) -> WriteAction {
        match self {
            WriteOp::Acquire => WriteAction::Acquire,
            WriteOp::LoadSelector => WriteAction::LoadSelector,
            WriteOp::BackMutate { current } => WriteAction::Mutate { instance: spec_other(current) },
            WriteOp::Publish { current } => WriteAction::StoreSelector {
                value: spec_other(current),
            },
            WriteOp::LoadEpoch { .. } => WriteAction::LoadEpoch,
            WriteOp::PreClear { epoch, slot, .. } => WriteAction::Poll {
                slot,
                epoch: spec_other(epoch),
            },
            WriteOp::Flip { epoch, .. } => WriteAction::StoreEpoch { value: spec_other(epoch) },
            WriteOp::Drain { epoch, slot, .. } => WriteAction::Poll { slot, epoch },
            WriteOp::FrontMutate { current } => WriteAction::Mutate { instance: current },
            WriteOp::Release => WriteAction::Release,
            WriteOp::Done => WriteAction::Finished,
        }
    }

    /// The phase after the pending step, where `observed` is the word that
    /// the step read (for `Acquire`: 1 if the token was taken, else 0) and
    /// `slots` the number of census slots. A poll that finds a reader
    /// starts the scan of the census again; one that finds none moves to
    /// the next slot, or past the scan after the last slot.
    pub open spec fn spec_advance(self, observed: int, slots: int) -> WriteOp {
        match self {
            WriteOp::Acquire => if observed != 0 {
                WriteOp::LoadSelector
            } else {
                WriteOp::Acquire
            },
            WriteOp::LoadSelector => WriteOp::BackMutate { current: observed as usize },
            WriteOp::BackMutate { current } => WriteOp::Publish { current },
            WriteOp::Publish { current } => WriteOp::LoadEpoch { current },
            WriteOp::LoadEpoch { current } => WriteOp::PreClear {
                current,
                epoch: observed as usize,
                slot: 0,
            },
            WriteOp::PreClear { current, epoch, slot } => if observed != 0 {
                WriteOp::PreClear { current, epoch, slot: 0 }
            } else if slot + 1 < slots {
                WriteOp::PreClear { current, epoch, slot: (slot + 1) as usize }
            } else {
                WriteOp::Flip { current, epoch }
            },
            WriteOp::Flip { current, epoch } => WriteOp::Drain { current, epoch, slot: 0 },
            WriteOp::Drain { current, epoch, slot } => if observed != 0 {
                WriteOp::Drain { current, epoch, slot: 0 }
            } else if slot + 1 < slots {
                WriteOp::Drain { current, epoch, slot: (slot + 1) as usize }
            } else {
                WriteOp::FrontMutate { current }
            },
            WriteOp::FrontMutate { .. } => WriteOp::Release,
            WriteOp::Release => WriteOp::Done,
            WriteOp::Done => WriteOp::Done,
        }
    }

    /// The write holds the writer token.
    pub open spec fn is_holding(self) -> bool {
        !(self is Acquire) && !(self is Done)
    }

    /// The write is about to change `instance` and needs it to itself.
    pub open spec fn is_mutating(self, instance: int) -> bool {
        match self {
            WriteOp::BackMutate { current } => spec_other(current) == instance,
            WriteOp::FrontMutate { current } => current == instance,
            _ => false,
        }
    }

    /// The instance that the pending step changes, if it changes one.
    pub open spec fn target(self) -> Option<usize> {
        match self {
            WriteOp::BackMutate { current } => Some(spec_other(current)),
            WriteOp::FrontMutate { current } => Some(current),
            _ => None,
        }
    }

    /// Number of slots that the scan in progress still has to poll, if
    /// every poll finds its counter at zero; 0 outside a scan.
    pub open spec fn scan_left(self, slots: nat) -> nat {
        match self {
            WriteOp::PreClear { slot, .. } => (slots - slot) as nat,
            WriteOp::Drain { slot, .. } => (slots - slot) as nat,
            _ => 0,
        }
    }

    /// The indices that the write holds are 0 or 1, and the slot that it
    /// polls is one of the `slots` census slots.
    pub open spec fn wf(self, slots: nat) -> bool {
        match self {
            WriteOp::BackMutate { current } => current < 2,
            WriteOp::Publish { current } => current < 2,
            WriteOp::LoadEpoch { current } => current < 2,
            WriteOp::PreClear { current, epoch, slot } => current < 2 && epoch < 2 && slot < slots,
            WriteOp::Flip { current, epoch } => current < 2 && epoch < 2,
            WriteOp::Drain { current, epoch, slot } => current < 2 && epoch < 2 && slot < slots,
            WriteOp::FrontMutate { current } => current < 2,
            _ => true,
        }
    }

    /// The word that the pending step reads from `c`; 0 where it reads
    /// none.
    pub open spec fn loads(self, c: Control) -> int {
        match self {
            WriteOp::Acquire => if c.locked {
                0
            } else {
                1
            },
            WriteOp::LoadSelector => c.selector as int,
            WriteOp::LoadEpoch { .. } => c.epoch as int,
            WriteOp::PreClear { epoch, slot, .. } => c.count(
                slot as int,
                spec_other(epoch) as int,
            ) as int,
            WriteOp::Drain { epoch, slot, .. } => c.count(slot as int, epoch as int) as int,
            _ => 0,
        }
    }

    /// The control words after the pending step.
    pub open spec fn effect(self, c: Control) -> Control {
        match self {
            WriteOp::Acquire => Control { locked: true, ..c },
            WriteOp::Publish { current } => Control { selector: spec_other(current) as nat, ..c },
            WriteOp::Flip { epoch, .. } => Control { epoch: spec_other(epoch) as nat, ..c },
            WriteOp::Release => Control { locked: false, ..c },
            _ => c,
        }
    }

    /// The phase after the pending step, taken on control words `c`.
    pub open spec fn next(self, c: Control) -> WriteOp {
        self.spec_advance(self.loads(c), c.slots() as int)
    }

    /// A write that has taken no step yet.
    pub fn new() -> (op: WriteOp)
        ensures
            op == WriteOp::Acquire,
    {
        WriteOp::Acquire
    }

    /// The step that this write takes next.
    pub fn action(&self) -> (a: WriteAction)
        ensures
            a == self.spec_action(),
    {
        match *self {
            WriteOp::Acquire => WriteAction::Acquire,
            WriteOp::LoadSelector => WriteAction::LoadSelector,
            WriteOp::BackMutate { current } => WriteAction::Mutate { instance: other(current) },
            WriteOp::Publish { current } => WriteAction::StoreSelector { value: other(current) },
            WriteOp::LoadEpoch { .. } => WriteAction::LoadEpoch,
            WriteOp::PreClear { epoch, slot, .. } => WriteAction::Poll {
                slot,
                epoch: other(epoch),
            },
            WriteOp::Flip { epoch, .. } => WriteAction::StoreEpoch { value: other(epoch) },
            WriteOp::Drain { epoch, slot, .. } => WriteAction::Poll { slot, epoch },
            WriteOp::FrontMutate { current } => WriteAction::Mutate { instance: current },
            WriteOp::Release => WriteAction::Release,
            WriteOp::Done => WriteAction::Finished,
        }
    }

    /// Moves to the phase after the pending step. `observed` is the word
    /// that the step read: the selector, the epoch flag or the polled
    /// counter; for `Acquire`, 1 if the token was taken and 0 if not; it is
    /// ignored where the step reads nothing. `slots` is the number of
    /// census slots.
    pub fn advance(&mut self, observed: usize, slots: usize)
        ensures
            *final(self) == old(self).spec_advance(observed as int, slots as int),
    {
        let next = match *self {
            WriteOp::Acquire => if observed != 0 {
                WriteOp::LoadSelector
            } else {
                WriteOp::Acquire
            },
            WriteOp::LoadSelector => WriteOp::BackMutate { current: observed },
            WriteOp::BackMutate { current } => WriteOp::Publish { current },
            WriteOp::Publish { current } => WriteOp::LoadEpoch { current },
            WriteOp::LoadEpoch { current } => WriteOp::PreClear { current, epoch: observed, slot: 0 },
            WriteOp::PreClear { current, epoch, slot } => if observed != 0 {
                WriteOp::PreClear { current, epoch, slot: 0 }
            } else if slots > 0 && slot < slots - 1 {
                WriteOp::PreClear { current, epoch, slot: slot + 1 }
            } else {
                WriteOp::Flip { current, epoch }
            },
            WriteOp::Flip { current, epoch } => WriteOp::Drain { current, epoch, slot: 0 },
            WriteOp::Drain { current, epoch, slot } => if observed != 0 {
                WriteOp::Drain { current, epoch, slot: 0 }
            } else if slots > 0 && slot < slots - 1 {
                WriteOp::Drain { current, epoch, slot: slot + 1 }
            } else {
                WriteOp::FrontMutate { current }
            },
            WriteOp::FrontMutate { .. } => WriteOp::Release,
            WriteOp::Release => WriteOp::Done,
            WriteOp::Done => WriteOp::Done,
        };
        *self = next;
    }

    /// Whether the pending step polls a census counter.
    pub fn is_polling(&self) -> (b: bool)
        ensures
            b == (*self is PreClear || *self is Drain),
    {
        match *self {
            WriteOp::PreClear { .. } => true,
            WriteOp::Drain { .. } => true,
            _ => false,
        }
    }

    /// Whether the write has returned.
    pub fn is_done(&self) -> (b: bool)
        ensures
            b == (*self is Done),
    {
        match *self {
            WriteOp::Done => true,
            _ => false,
        }
    }
}

/// A step of a write keeps the control words well formed and the census
/// untouched, and keeps the write's own indices in range.
pub proof fn lemma_write_step_wf(op: WriteOp, c: Control)
    requires
        c.wf(),
        op.wf(c.slots()),
    ensures
        op.effect(c).wf(),
        op.effect(c).census == c.census,
        op.next(c).wf(c.slots()),
{
}

} // verus!
