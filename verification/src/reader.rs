//! One read, as a sequence of five steps on the shared control words.
//!
//! A read never waits: whatever the control words hold, each step moves it
//! one phase further.

use vstd::prelude::*;
use crate::control::Control;

verus! {

/// Where a read stands. Each phase but the last names the one step that
/// the read takes next.
#[derive(Clone, Copy, Debug, PartialEq, Eq, Structural)]
pub enum ReadOp {
    /// Next: capture the epoch flag.
    Capture { reader_id: usize },
    /// Next: count itself in the census under the captured epoch.
    Announce { reader_id: usize, epoch: usize },
    /// Next: load the selector.
    Select { reader_id: usize, epoch: usize },
    /// Next: observe the selected instance.
    Observe { reader_id: usize, epoch: usize, instance: usize },
    /// Next: leave the census, under the epoch captured at the start.
    Retire { reader_id: usize, epoch: usize },
    /// The read has returned.
    Done,
}

/// What a read asks of the shared words in its next step.
#[derive(Clone, Copy, Debug, PartialEq, Eq, Structural)]
pub enum ReadAction {
    /// Load the epoch flag and hand it to `advance`.
    LoadEpoch,
    /// Add one to the counter of the reader's slot under `epoch`.
    Arrive { reader_id: usize, epoch: usize },
    /// Load the selector and hand it to `advance`.
    LoadSelector,
    /// Run the observer on instance `instance`.
    Observe { instance: usize },
    /// Take one from the counter of the reader's slot under `epoch`.
    Depart { reader_id: usize, epoch: usize },
    /// Nothing is left to do.
    Finished,
}

impl ReadOp {
    /// The step that this read takes next.
    pub open spec fn spec_action(self) -> ReadAction {
        match self {
            ReadOp::Capture { .. } => ReadAction::LoadEpoch,
            ReadOp::Announce { reader_id, epoch } => ReadAction::Arrive { reader_id, epoch },
            ReadOp::Select { .. } => ReadAction::LoadSelector,
            ReadOp::Observe { instance, .. } => ReadAction::Observe { instance },
            ReadOp::Retire { reader_id, epoch } => ReadAction::Depart { reader_id, epoch },
            ReadOp::Done => ReadAction::Finished,
        }
    }

    /// The phase after the pending step, where `loaded` is the word that
    /// the step loaded, if it loaded one.
    pub open spec fn spec_advance(self, loaded: usize) -> ReadOp {
        match self {
            ReadOp::Capture { reader_id } => ReadOp::Announce { reader_id, epoch: loaded },
            ReadOp::Announce { reader_id, epoch } => ReadOp::Select { reader_id, epoch },
            ReadOp::Select { reader_id, epoch } => ReadOp::Observe {
                reader_id,
                epoch,
                instance: loaded,
            },
            ReadOp::Observe { reader_id, epoch, .. } => ReadOp::Retire { reader_id, epoch },
            ReadOp::Retire { .. } => ReadOp::Done,
            ReadOp::Done => ReadOp::Done,
        }
    }

    /// Number of steps that this read still has to take.
    pub open spec fn steps_left(self) -> nat {
        match self {
            ReadOp::Capture { .. } => 5,
            ReadOp::Announce { .. } => 4,
            ReadOp::Select { .. } => 3,
            ReadOp::Observe { .. } => 2,
            ReadOp::Retire { .. } => 1,
            ReadOp::Done => 0,
        }
    }

    /// The read is counted in the census: it has announced itself and has
    /// not retired yet.
    pub open spec fn is_counted(self) -> bool {
        self is Select || self is Observe || self is Retire
    }

    /// The read is counted in the census at `slot` under `epoch`, where the
    /// census has `slots` slots.
    pub open spec fn is_counted_at(self, slots: nat, slot: int, epoch: int) -> bool {
        match self {
            ReadOp::Select { reader_id, epoch: e } => reader_id as int % slots as int == slot && e
                == epoch,
            ReadOp::Observe { reader_id, epoch: e, .. } => reader_id as int % slots as int == slot
                && e == epoch,
            ReadOp::Retire { reader_id, epoch: e } => reader_id as int % slots as int == slot && e
                == epoch,
            _ => false,
        }
    }

    /// The read is observing `instance`.
    pub open spec fn is_observing(self, instance: int) -> bool {
        match self {
            ReadOp::Observe { instance: i, .. } => i == instance,
            _ => false,
        }
    }

    /// The epoch and the instance index that the read holds are 0 or 1.
    pub open spec fn wf(self) -> bool {
        match self {
            ReadOp::Capture { .. } => true,
            ReadOp::Announce { epoch, .. } => epoch < 2,
            ReadOp::Select { epoch, .. } => epoch < 2,
            ReadOp::Observe { epoch, instance, .. } => epoch < 2 && instance < 2,
            ReadOp::Retire { epoch, .. } => epoch < 2,
            ReadOp::Done => true,
        }
    }

    /// The instance that the pending step observes, if it observes one.
    pub open spec fn target(self) -> Option<usize> {
        match self {
            ReadOp::Observe { instance, .. } => Some(instance),
            _ => None,
        }
    }

    /// The pending step can be taken on control words `c`: its indices are
    /// in range, the counter that it raises is below the largest machine
    /// word, and the counter that it lowers is above zero.
    pub open spec fn ready(self, c: Control) -> bool {
        match self {
            ReadOp::Announce { reader_id, epoch } => epoch < 2 && c.count(
                reader_id as int % c.slots() as int,
                epoch as int,
            ) < usize::MAX,
            ReadOp::Observe { instance, .. } => instance < 2,
            ReadOp::Retire { reader_id, epoch } => epoch < 2 && c.count(
                reader_id as int % c.slots() as int,
                epoch as int,
            ) > 0,
            _ => true,
        }
    }

    /// The word that the pending step loads from `c`; 0 where it loads
    /// none.
    pub open spec fn loads(self, c: Control) -> usize {
        match self {
            ReadOp::Capture { .. } => c.epoch as usize,
            ReadOp::Select { .. } => c.selector as usize,
            _ => 0,
        }
    }

    /// The control words after the pending step.
    pub open spec fn effect(self, c: Control) -> Control {
        match self {
            ReadOp::Announce { reader_id, epoch } => c.arrive(
                reader_id as int % c.slots() as int,
                epoch as int,
            ),
            ReadOp::Retire { reader_id, epoch } => c.depart(
                reader_id as int % c.slots() as int,
                epoch as int,
            ),
            _ => c,
        }
    }

    /// The phase after the pending step, taken on control words `c`.
    pub open spec fn next(self, c: Control) -> ReadOp {
        self.spec_advance(self.loads(c))
    }

    /// A read by `reader_id` that has taken no step yet.
    pub fn new(reader_id: usize) -> (op: ReadOp)
        ensures
            op == (ReadOp::Capture { reader_id }),
    {
        ReadOp::Capture { reader_id }
    }

    /// The step that this read takes next.
    pub fn action(&self) -> (a: ReadAction)
        ensures
            a == self.spec_action(),
    {
        match *self {
            ReadOp::Capture { .. } => ReadAction::LoadEpoch,
            ReadOp::Announce { reader_id, epoch } => ReadAction::Arrive { reader_id, epoch },
            ReadOp::Select { .. } => ReadAction::LoadSelector,
            ReadOp::Observe { instance, .. } => ReadAction::Observe { instance },
            ReadOp::Retire { reader_id, epoch } => ReadAction::Depart { reader_id, epoch },
            ReadOp::Done => ReadAction::Finished,
        }
    }

    /// Moves to the phase after the pending step. `loaded` is the word
    /// that the step loaded: the epoch flag or the selector; it is ignored
    /// where the step loads nothing. Whatever `loaded` is, the read has one
    /// step fewer to take.
    pub fn advance(&mut self, loaded: usize)
        ensures
            *final(self) == old(self).spec_advance(loaded),
            !(*old(self) is Done) ==> final(self).steps_left() + 1 == old(self).steps_left(),
    {
        let next = match *self {
            ReadOp::Capture { reader_id } => ReadOp::Announce { reader_id, epoch: loaded },
            ReadOp::Announce { reader_id, epoch } => ReadOp::Select { reader_id, epoch },
            ReadOp::Select { reader_id, epoch } => ReadOp::Observe {
                reader_id,
                epoch,
                instance: loaded,
            },
            ReadOp::Observe { reader_id, epoch, .. } => ReadOp::Retire { reader_id, epoch },
            ReadOp::Retire { .. } => ReadOp::Done,
            ReadOp::Done => ReadOp::Done,
        };
        *self = next;
    }

    /// Whether the read has returned.
    pub fn is_done(&self) -> (b: bool)
        ensures
            b == (*self is Done),
            b == (self.steps_left() == 0),
    {
        match *self {
            ReadOp::Done => true,
            _ => false,
        }
    }
}

/// A read is wait-free: on any control words at all, a step of a read that
/// has not returned leaves it with exactly one step fewer to take, so it
/// returns after five steps of its own, whatever writers and other readers
/// do in between.
pub proof fn lemma_read_is_wait_free(op: ReadOp, c: Control)
    requires
        !(op is Done),
    ensures
        op.next(c).steps_left() + 1 == op.steps_left(),
        op.steps_left() <= 5,
{
}

/// A step of a read keeps the control words well formed, moves neither the
/// selector, the epoch flag nor the writer token, and keeps the read's own
/// indices in range.
pub proof fn lemma_read_step_wf(op: ReadOp, c: Control)
    requires
        c.wf(),
        op.wf(),
    ensures
        op.effect(c).wf(),
        op.effect(c).slots() == c.slots(),
        op.effect(c).selector == c.selector,
        op.effect(c).epoch == c.epoch,
        op.effect(c).locked == c.locked,
        op.next(c).wf(),
{
    match op {
        ReadOp::Announce { reader_id, epoch } => {
            crate::control::lemma_with_count(
                c,
                reader_id as int % c.slots() as int,
                epoch as int,
                c.count(reader_id as int % c.slots() as int, epoch as int) + 1,
            );
        },
        ReadOp::Retire { reader_id, epoch } => {
            crate::control::lemma_with_count(
                c,
                reader_id as int % c.slots() as int,
                epoch as int,
                (c.count(reader_id as int % c.slots() as int, epoch as int) - 1) as nat,
            );
        },
        _ => {},
    }
}

} // verus!
