//! The shared control words of the primitive, as a mathematical value.

use vstd::prelude::*;

verus! {

/// The words that readers and writers share: the selector, the epoch flag,
/// the census counters and the writer token.
pub struct Control {
    /// Index of the instance that new readers observe.
    pub selector: nat,
    /// Index of the census column that new readers announce under.
    pub epoch: nat,
    /// One row per slot, two counters per row, one for each epoch.
    pub census: Seq<Seq<nat>>,
    /// Whether some writer holds the writer token.
    pub locked: bool,
}

impl Control {
    /// Number of census slots.
    pub open spec fn slots(self) -> nat {
        self.census.len()
    }

    /// The selector and the epoch flag are 0 or 1, and the census has at
    /// least one slot, each with two counters.
    pub open spec fn wf(self) -> bool {
        &&& self.selector < 2
        &&& self.epoch < 2
        &&& self.census.len() >= 1
        &&& forall|s: int| 0 <= s < self.census.len() ==> (#[trigger] self.census[s]).len() == 2
    }

    /// The counter of `slot` under `epoch`.
    pub open spec fn count(self, slot: int, epoch: int) -> nat {
        self.census[slot][epoch]
    }

    /// The census with the counter of `slot` under `epoch` replaced.
    pub open spec fn with_count(self, slot: int, epoch: int, value: nat) -> Control {
        Control { census: self.census.update(slot, self.census[slot].update(epoch, value)), ..self }
    }

    /// A reader announces itself: one counter goes up by one.
    pub open spec fn arrive(self, slot: int, epoch: int) -> Control {
        self.with_count(slot, epoch, self.count(slot, epoch) + 1)
    }

    /// A reader retires: one counter goes down by one.
    pub open spec fn depart(self, slot: int, epoch: int) -> Control {
        self.with_count(slot, epoch, (self.count(slot, epoch) - 1) as nat)
    }

    /// Some slot still counts a reader under `epoch`.
    pub open spec fn is_set(self, epoch: int) -> bool {
        exists|s: int| 0 <= s < self.census.len() && #[trigger] self.count(s, epoch) > 0
    }

    /// No slot counts a reader under `epoch`.
    pub open spec fn is_drained(self, epoch: int) -> bool {
        forall|s: int| 0 <= s < self.census.len() ==> #[trigger] self.count(s, epoch) == 0
    }

    /// No reader is counted and no writer holds the token.
    pub open spec fn is_quiescent(self) -> bool {
        &&& !self.locked
        &&& self.is_drained(0)
        &&& self.is_drained(1)
    }

    /// The control words right after construction with `slots` census slots.
    pub open spec fn initial(slots: nat) -> Control {
        Control {
            selector: 0,
            epoch: 0,
            census: Seq::new(slots, |s: int| seq![0nat, 0nat]),
            locked: false,
        }
    }
}

/// Replacing one counter leaves every other counter as it was, and keeps
/// the shape of the census.
pub proof fn lemma_with_count(c: Control, slot: int, epoch: int, value: nat)
    requires
        c.wf(),
        0 <= slot < c.slots(),
        0 <= epoch < 2,
    ensures
        c.with_count(slot, epoch, value).wf(),
        c.with_count(slot, epoch, value).slots() == c.slots(),
        c.with_count(slot, epoch, value).selector == c.selector,
        c.with_count(slot, epoch, value).epoch == c.epoch,
        c.with_count(slot, epoch, value).locked == c.locked,
        forall|s: int, e: int|
            0 <= s < c.slots() && 0 <= e < 2 ==> #[trigger] c.with_count(slot, epoch, value).count(
                s,
                e,
            ) == if s == slot && e == epoch {
                value
            } else {
                c.count(s, e)
            },
{
    let d = c.with_count(slot, epoch, value);
    assert forall|s: int| 0 <= s < d.census.len() implies (#[trigger] d.census[s]).len() == 2 by {
        assert(c.census[s].len() == 2);
    }
}

/// Two well-formed controls with the same words and the same counters are
/// the same control.
pub proof fn lemma_control_ext(a: Control, b: Control)
    requires
        a.wf(),
        b.wf(),
        a.selector == b.selector,
        a.epoch == b.epoch,
        a.locked == b.locked,
        a.slots() == b.slots(),
        forall|s: int, e: int|
            0 <= s < a.slots() && 0 <= e < 2 ==> #[trigger] a.count(s, e) == b.count(s, e),
    ensures
        a == b,
{
    assert forall|s: int| 0 <= s < a.census.len() implies a.census[s] == b.census[s] by {
        assert(a.census[s].len() == 2);
        assert(b.census[s].len() == 2);
        assert forall|e: int| 0 <= e < 2 implies a.census[s][e] == b.census[s][e] by {
            assert(a.count(s, e) == b.count(s, e));
        }
        assert(a.census[s] =~= b.census[s]);
    }
    assert(a.census =~= b.census);
}

/// A reader that arrives and then departs leaves the control words as
/// they were.
pub proof fn lemma_arrive_depart(c: Control, slot: int, epoch: int)
    requires
        c.wf(),
        0 <= slot < c.slots(),
        0 <= epoch < 2,
    ensures
        c.arrive(slot, epoch).depart(slot, epoch) == c,
{
    let a = c.arrive(slot, epoch);
    lemma_with_count(c, slot, epoch, c.count(slot, epoch) + 1);
    lemma_with_count(a, slot, epoch, (a.count(slot, epoch) - 1) as nat);
    lemma_control_ext(a.depart(slot, epoch), c);
}

} // verus!
