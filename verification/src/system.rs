//! Any number of reads and writes in flight on one set of control words,
//! taking their steps in any order.
//!
//! The state below holds the control words, the two instances, every read
//! and write that was ever begun, and the history of values that the
//! writes produced. A write is given by the function that it applies to
//! an instance. Every step keeps the invariant; what follows from it is
//! stated in `guarantees`.

use vstd::prelude::*;
use crate::control::{Control, lemma_with_count};
use crate::reader::{ReadOp, lemma_read_step_wf};
use crate::tally::{lemma_slot_in_range, lemma_tally_counts, lemma_tally_push, lemma_tally_update, tally};
use crate::writer::{WriteOp, lemma_write_step_wf, spec_other};

verus! {

/// One step of the system.
#[verifier::reject_recursive_types(T)]
pub enum Step<T> {
    /// A read by `reader_id` is invoked.
    BeginRead { reader_id: usize },
    /// A write that applies `mutation` is invoked.
    BeginWrite { mutation: spec_fn(T) -> T },
    /// The read with index `reader` takes its next step.
    Read { reader: int },
    /// The write with index `writer` takes its next step.
    Write { writer: int },
}

/// The control words and the two instances, with every read and write
/// that was begun on them.
#[verifier::reject_recursive_types(T)]
pub struct System<T> {
    /// The shared words.
    pub control: Control,
    /// The two instances of the protected value.
    pub values: Seq<T>,
    /// The reads, in the order in which they were invoked.
    pub readers: Seq<ReadOp>,
    /// For each read, how many writes had returned when it was invoked.
    pub began: Seq<nat>,
    /// The writes, in the order in which they were invoked.
    pub writers: Seq<WriteOp>,
    /// For each write, the function that it applies to an instance.
    pub mutations: Seq<spec_fn(T) -> T>,
    /// The write that holds the writer token, if one does.
    pub holder: Option<int>,
    /// The writes that took the token, in the order in which they took
    /// it.
    pub order: Seq<int>,
    /// The value that the instances started with, followed by the value
    /// that each write produced when it first applied its mutation.
    pub history: Seq<T>,
    /// For each of the two instances, how many mutations were applied to
    /// it.
    pub applied: Seq<nat>,
    /// How many writes have returned.
    pub completed: nat,
}

/// What the phase of the token holder allows a read to be doing. A read
/// may always observe the selected instance. It may still observe the
/// other one only while the holder has published and has not yet seen the
/// census drained, and then only from a slot that the holder's scan still
/// has to pass.
pub open spec fn reader_allowed(holder: Option<WriteOp>, selector: nat, slots: nat, r: ReadOp) -> bool {
    match r {
        ReadOp::Observe { reader_id, epoch, instance } => instance == selector || match holder {
            Some(WriteOp::LoadEpoch { .. }) => true,
            Some(WriteOp::PreClear { epoch: e, slot, .. }) => epoch == e || reader_id as int
                % slots as int >= slot,
            Some(WriteOp::Flip { epoch: e, .. }) => epoch == e,
            Some(WriteOp::Drain { epoch: e, slot, .. }) => epoch == e && reader_id as int
                % slots as int >= slot,
            _ => false,
        },
        _ => true,
    }
}

/// What the phase of the token holder says of the selector, the epoch flag
/// and the number of mutations applied to each instance.
pub open spec fn holder_allowed(holder: Option<WriteOp>, c: Control, applied: Seq<nat>, completed: nat) -> bool {
    match holder {
        None => applied[0] == completed && applied[1] == completed,
        Some(WriteOp::LoadSelector) => applied[0] == completed && applied[1] == completed,
        Some(WriteOp::BackMutate { current }) => current == c.selector && applied[0] == completed
            && applied[1] == completed,
        Some(WriteOp::Publish { current }) => current == c.selector && applied[current as int]
            == completed && applied[spec_other(current) as int] == completed + 1,
        Some(WriteOp::LoadEpoch { current }) => spec_other(current) == c.selector
            && applied[current as int] == completed && applied[spec_other(current) as int]
            == completed + 1,
        Some(WriteOp::PreClear { current, epoch, .. }) => spec_other(current) == c.selector
            && epoch == c.epoch && applied[current as int] == completed
            && applied[spec_other(current) as int] == completed + 1,
        Some(WriteOp::Flip { current, epoch }) => spec_other(current) == c.selector && epoch
            == c.epoch && applied[current as int] == completed
            && applied[spec_other(current) as int] == completed + 1,
        Some(WriteOp::Drain { current, epoch, .. }) => spec_other(current) == c.selector
            && spec_other(epoch) == c.epoch && applied[current as int] == completed
            && applied[spec_other(current) as int] == completed + 1,
        Some(WriteOp::FrontMutate { current }) => spec_other(current) == c.selector
            && applied[current as int] == completed && applied[spec_other(current) as int]
            == completed + 1,
        Some(WriteOp::Release) => applied[0] == completed + 1 && applied[1] == completed + 1,
        Some(WriteOp::Acquire) => false,
        Some(WriteOp::Done) => false,
    }
}

impl<T> System<T> {
    /// The system right after construction from the value `start`: both
    /// instances hold it, and no read or write has begun.
    pub open spec fn initial(slots: nat, start: T) -> System<T> {
        System {
            control: Control::initial(slots),
            values: seq![start, start],
            readers: Seq::empty(),
            began: Seq::empty(),
            writers: Seq::empty(),
            mutations: Seq::empty(),
            holder: None,
            order: Seq::empty(),
            history: seq![start],
            applied: seq![0nat, 0nat],
            completed: 0,
        }
    }

    /// The phase of the write that holds the token, if one does.
    pub open spec fn holder_op(self) -> Option<WriteOp> {
        match self.holder {
            Some(j) => Some(self.writers[j]),
            None => None,
        }
    }

    /// Whether `step` names a read or a write of this system.
    pub open spec fn admits(self, step: Step<T>) -> bool {
        match step {
            Step::BeginRead { .. } => true,
            Step::BeginWrite { .. } => true,
            Step::Read { reader } => 0 <= reader < self.readers.len(),
            Step::Write { writer } => 0 <= writer < self.writers.len(),
        }
    }

    /// The system after the read with index `i` took its next step.
    pub open spec fn read_step(self, i: int) -> System<T> {
        System {
            control: self.readers[i].effect(self.control),
            readers: self.readers.update(i, self.readers[i].next(self.control)),
            ..self
        }
    }

    /// The system after the write with index `j` applied its mutation to
    /// instance `x`. The first of its two applications adds the value that
    /// it produced to the history.
    pub open spec fn mutate(self, j: int, x: int) -> System<T> {
        let value = (self.mutations[j])(self.values[x]);
        System {
            values: self.values.update(x, value),
            applied: self.applied.update(x, self.applied[x] + 1),
            history: if self.writers[j] is BackMutate {
                self.history.push(value)
            } else {
                self.history
            },
            ..self
        }
    }

    /// The system after the write with index `j` took its next step.
    /// Taking the token makes it the holder, a mutation step changes an
    /// instance, and giving the token back counts as one more write
    /// returned.
    pub open spec fn write_step(self, j: int) -> System<T> {
        let op = self.writers[j];
        let changed = match op.target() {
            Some(x) => self.mutate(j, x as int),
            None => self,
        };
        let taken = op is Acquire && !self.control.locked;
        System {
            control: op.effect(self.control),
            writers: self.writers.update(j, op.next(self.control)),
            holder: if taken {
                Some(j)
            } else if op is Release {
                None
            } else {
                self.holder
            },
            order: if taken {
                self.order.push(j)
            } else {
                self.order
            },
            completed: if op is Release {
                self.completed + 1
            } else {
                self.completed
            },
            ..changed
        }
    }

    /// The system after `step`.
    pub open spec fn step(self, step: Step<T>) -> System<T> {
        match step {
            Step::BeginRead { reader_id } => System {
                readers: self.readers.push(ReadOp::Capture { reader_id }),
                began: self.began.push(self.completed),
                ..self
            },
            Step::BeginWrite { mutation } => System {
                writers: self.writers.push(WriteOp::Acquire),
                mutations: self.mutations.push(mutation),
                ..self
            },
            Step::Read { reader } => self.read_step(reader),
            Step::Write { writer } => self.write_step(writer),
        }
    }

    /// What the history is made of: each instance holds the entry that
    /// its number of mutations names, and each entry but the first is the
    /// entry before it, changed by the write that was then the next to
    /// take the token.
    pub open spec fn history_inv(self) -> bool {
        &&& self.values.len() == 2
        &&& self.applied.len() == 2
        &&& self.mutations.len() == self.writers.len()
        &&& self.history.len() == if self.applied[0] >= self.applied[1] {
            self.applied[0] + 1
        } else {
            self.applied[1] + 1
        }
        &&& self.values[0] == self.history[self.applied[0] as int]
        &&& self.values[1] == self.history[self.applied[1] as int]
        &&& self.order.len() == if self.holder is Some {
            self.completed + 1
        } else {
            self.completed
        }
        &&& self.holder is Some ==> self.order[self.completed as int] == self.holder->0
        &&& forall|k: int|
            0 <= k < self.order.len() ==> 0 <= #[trigger] self.order[k] < self.writers.len()
        &&& forall|k: int|
            0 <= k < self.history.len() - 1 ==> k < self.order.len() && #[trigger] self.history[k
                + 1] == (self.mutations[self.order[k]])(self.history[k])
    }

    /// What holds of the system whatever steps were taken, in whatever
    /// order.
    pub open spec fn inv(self) -> bool {
        &&& self.control.wf()
        &&& self.began.len() == self.readers.len()
        &&& forall|i: int| 0 <= i < self.readers.len() ==> (#[trigger] self.readers[i]).wf()
        &&& forall|i: int| 0 <= i < self.began.len() ==> #[trigger] self.began[i] <= self.completed
        &&& forall|j: int|
            0 <= j < self.writers.len() ==> (#[trigger] self.writers[j]).wf(self.control.slots())
        &&& forall|j: int|
            0 <= j < self.writers.len() ==> ((#[trigger] self.writers[j]).is_holding()
                <==> self.holder == Some(j))
        &&& self.control.locked <==> self.holder is Some
        &&& self.holder is Some ==> 0 <= self.holder->0 < self.writers.len()
        &&& forall|s: int, e: int|
            0 <= s < self.control.slots() && 0 <= e < 2 ==> #[trigger] self.control.count(s, e)
                == tally(self.readers, self.control.slots(), s, e)
        &&& holder_allowed(self.holder_op(), self.control, self.applied, self.completed)
        &&& forall|i: int|
            0 <= i < self.readers.len() ==> reader_allowed(
                self.holder_op(),
                self.control.selector,
                self.control.slots(),
                #[trigger] self.readers[i],
            )
        &&& self.history_inv()
    }
}

/// The system is in its invariant right after construction.
pub proof fn lemma_initial_inv<T>(slots: nat, start: T)
    requires
        slots >= 1,
    ensures
        System::initial(slots, start).inv(),
{
    let sys = System::initial(slots, start);
    assert(sys.control.wf());
    assert forall|s: int, e: int| 0 <= s < sys.control.slots() && 0 <= e < 2 implies
        #[trigger] sys.control.count(s, e) == tally(sys.readers, sys.control.slots(), s, e) by {
        assert(sys.control.census[s] == seq![0nat, 0nat]);
    }
}

/// Invoking a read keeps the invariant.
pub proof fn lemma_begin_read_inv<T>(sys: System<T>, reader_id: usize)
    requires
        sys.inv(),
    ensures
        sys.step(Step::BeginRead { reader_id }).inv(),
{
    let op = ReadOp::Capture { reader_id };
    let next = sys.step(Step::BeginRead { reader_id });
    assert forall|s: int, e: int| 0 <= s < next.control.slots() && 0 <= e < 2 implies
        #[trigger] next.control.count(s, e) == tally(next.readers, next.control.slots(), s, e) by {
        lemma_tally_push(sys.readers, op, sys.control.slots(), s, e);
        assert(sys.control.count(s, e) == tally(sys.readers, sys.control.slots(), s, e));
    }
    assert forall|i: int| 0 <= i < next.readers.len() implies (#[trigger] next.readers[i]).wf() by {
        if i < sys.readers.len() {
            assert(sys.readers[i].wf());
        }
    }
    assert forall|i: int| 0 <= i < next.began.len() implies #[trigger] next.began[i]
        <= next.completed by {
        if i < sys.began.len() {
            assert(sys.began[i] <= sys.completed);
        }
    }
    assert forall|i: int| 0 <= i < next.readers.len() implies reader_allowed(
        next.holder_op(),
        next.control.selector,
        next.control.slots(),
        #[trigger] next.readers[i],
    ) by {
        if i < sys.readers.len() {
            assert(reader_allowed(
                sys.holder_op(),
                sys.control.selector,
                sys.control.slots(),
                sys.readers[i],
            ));
        }
    }
}

/// Invoking a write keeps the invariant.
pub proof fn lemma_begin_write_inv<T>(sys: System<T>, mutation: spec_fn(T) -> T)
    requires
        sys.inv(),
    ensures
        sys.step(Step::BeginWrite { mutation }).inv(),
{
    let next = sys.step(Step::BeginWrite { mutation });
    assert forall|j: int| 0 <= j < next.writers.len() implies (#[trigger] next.writers[j]).wf(
        next.control.slots(),
    ) && (next.writers[j].is_holding() <==> next.holder == Some(j)) by {
        if j < sys.writers.len() {
            assert(sys.writers[j].wf(sys.control.slots()));
            assert(sys.writers[j].is_holding() <==> sys.holder == Some(j));
        }
    }
    assert(next.holder_op() == sys.holder_op());
    assert forall|i: int| 0 <= i < next.readers.len() implies reader_allowed(
        next.holder_op(),
        next.control.selector,
        next.control.slots(),
        #[trigger] next.readers[i],
    ) by {
        assert(reader_allowed(
            sys.holder_op(),
            sys.control.selector,
            sys.control.slots(),
            sys.readers[i],
        ));
    }
    assert forall|k: int| 0 <= k < next.history.len() - 1 implies k < next.order.len()
        && #[trigger] next.history[k + 1] == (next.mutations[next.order[k]])(next.history[k]) by {
        assert(sys.history[k + 1] == (sys.mutations[sys.order[k]])(sys.history[k]));
        assert(0 <= sys.order[k] < sys.writers.len());
    }
}

/// A step of a read keeps the invariant.
pub proof fn lemma_read_step_inv<T>(sys: System<T>, i: int)
    requires
        sys.inv(),
        0 <= i < sys.readers.len(),
    ensures
        sys.read_step(i).inv(),
{
    let op = sys.readers[i];
    let c = sys.control;
    let slots = c.slots();
    let next = sys.read_step(i);
    assert(op.wf());
    lemma_read_step_wf(op, c);
    let rid: usize = match op {
        ReadOp::Announce { reader_id, .. } => reader_id,
        ReadOp::Retire { reader_id, .. } => reader_id,
        _ => 0,
    };
    let ep: int = match op {
        ReadOp::Announce { epoch, .. } => epoch as int,
        ReadOp::Retire { epoch, .. } => epoch as int,
        _ => 0,
    };
    let slot = rid as int % slots as int;
    lemma_slot_in_range(rid, slots);
    if op is Retire {
        lemma_tally_counts(sys.readers, i, slots, slot, ep);
        assert(c.count(slot, ep) == tally(sys.readers, slots, slot, ep));
        lemma_with_count(c, slot, ep, (c.count(slot, ep) - 1) as nat);
    }
    if op is Announce {
        lemma_with_count(c, slot, ep, c.count(slot, ep) + 1);
    }
    assert forall|s: int, e: int| 0 <= s < next.control.slots() && 0 <= e < 2 implies
        #[trigger] next.control.count(s, e) == tally(next.readers, next.control.slots(), s, e) by {
        lemma_tally_update(sys.readers, i, op.next(c), slots, s, e);
        assert(c.count(s, e) == tally(sys.readers, slots, s, e));
    }
    assert forall|k: int| 0 <= k < next.readers.len() implies (#[trigger] next.readers[k]).wf() by {
        if k != i {
            assert(sys.readers[k].wf());
        }
    }
    assert forall|j: int| 0 <= j < next.writers.len() implies (#[trigger] next.writers[j]).wf(
        next.control.slots(),
    ) by {
        assert(sys.writers[j].wf(slots));
    }
    assert(next.holder_op() == sys.holder_op());
    assert forall|k: int| 0 <= k < next.readers.len() implies reader_allowed(
        next.holder_op(),
        next.control.selector,
        next.control.slots(),
        #[trigger] next.readers[k],
    ) by {
        if k != i {
            assert(reader_allowed(sys.holder_op(), c.selector, slots, sys.readers[k]));
        }
    }
}

/// A poll that finds a counter at zero finds no read counted there.
pub proof fn lemma_zero_count_no_reader<T>(sys: System<T>, slot: int, epoch: int, i: int)
    requires
        sys.inv(),
        0 <= slot < sys.control.slots(),
        0 <= epoch < 2,
        sys.control.count(slot, epoch) == 0,
        0 <= i < sys.readers.len(),
    ensures
        !sys.readers[i].is_counted_at(sys.control.slots(), slot, epoch),
{
    if sys.readers[i].is_counted_at(sys.control.slots(), slot, epoch) {
        lemma_tally_counts(sys.readers, i, sys.control.slots(), slot, epoch);
    }
}

/// A step of a write keeps the history as the invariant describes it.
proof fn lemma_write_step_history<T>(sys: System<T>, j: int)
    requires
        sys.inv(),
        0 <= j < sys.writers.len(),
    ensures
        sys.write_step(j).history_inv(),
{
    let op = sys.writers[j];
    let next = sys.write_step(j);
    assert(op.wf(sys.control.slots()));
    assert(op.is_holding() <==> sys.holder == Some(j));
    assert(holder_allowed(sys.holder_op(), sys.control, sys.applied, sys.completed));
    assert forall|k: int| 0 <= k < next.order.len() implies 0 <= #[trigger] next.order[k]
        < next.writers.len() by {
        if k < sys.order.len() {
            assert(0 <= sys.order[k] < sys.writers.len());
        }
    }
    assert forall|k: int| 0 <= k < next.history.len() - 1 implies k < next.order.len()
        && #[trigger] next.history[k + 1] == (next.mutations[next.order[k]])(next.history[k]) by {
        if k < sys.history.len() - 1 {
            assert(sys.history[k + 1] == (sys.mutations[sys.order[k]])(sys.history[k]));
        }
    }
    if op is FrontMutate {
        let k = sys.completed as int;
        assert(sys.history[k + 1] == (sys.mutations[sys.order[k]])(sys.history[k]));
    }
}

/// A step of a write keeps the invariant.
pub proof fn lemma_write_step_inv<T>(sys: System<T>, j: int)
    requires
        sys.inv(),
        0 <= j < sys.writers.len(),
    ensures
        sys.write_step(j).inv(),
{
    let op = sys.writers[j];
    let c = sys.control;
    let slots = c.slots();
    let next = sys.write_step(j);
    assert(op.wf(slots));
    assert(op.is_holding() <==> sys.holder == Some(j));
    lemma_write_step_wf(op, c);
    assert(next.control.census == c.census);
    assert forall|k: int| 0 <= k < next.writers.len() implies (#[trigger] next.writers[k]).wf(
        next.control.slots(),
    ) && (next.writers[k].is_holding() <==> next.holder == Some(k)) by {
        assert(sys.writers[k].wf(slots));
        assert(sys.writers[k].is_holding() <==> sys.holder == Some(k));
    }
    assert forall|s: int, e: int| 0 <= s < next.control.slots() && 0 <= e < 2 implies
        #[trigger] next.control.count(s, e) == tally(next.readers, next.control.slots(), s, e) by {
        assert(c.count(s, e) == tally(sys.readers, slots, s, e));
    }
    assert forall|i: int| 0 <= i < next.began.len() implies #[trigger] next.began[i]
        <= next.completed by {
        assert(sys.began[i] <= sys.completed);
    }
    assert(holder_allowed(sys.holder_op(), c, sys.applied, sys.completed));
    assert forall|i: int| 0 <= i < next.readers.len() implies reader_allowed(
        next.holder_op(),
        next.control.selector,
        next.control.slots(),
        #[trigger] next.readers[i],
    ) by {
        let r = sys.readers[i];
        assert(r.wf());
        assert(reader_allowed(sys.holder_op(), c.selector, slots, r));
        match r {
            ReadOp::Observe { reader_id, epoch: er, instance } => {
                lemma_slot_in_range(reader_id, slots);
                match op {
                    WriteOp::PreClear { epoch, slot, .. } => {
                        if c.count(slot as int, spec_other(epoch) as int) == 0 {
                            lemma_zero_count_no_reader(
                                sys,
                                slot as int,
                                spec_other(epoch) as int,
                                i,
                            );
                        }
                    },
                    WriteOp::Drain { epoch, slot, .. } => {
                        if c.count(slot as int, epoch as int) == 0 {
                            lemma_zero_count_no_reader(sys, slot as int, epoch as int, i);
                        }
                    },
                    _ => {},
                }
            },
            _ => {},
        }
    }
    assert(holder_allowed(next.holder_op(), next.control, next.applied, next.completed));
    lemma_write_step_history(sys, j);
}

/// Any step that the system admits keeps the invariant.
pub proof fn lemma_step_inv<T>(sys: System<T>, step: Step<T>)
    requires
        sys.inv(),
        sys.admits(step),
    ensures
        sys.step(step).inv(),
{
    match step {
        Step::BeginRead { reader_id } => lemma_begin_read_inv(sys, reader_id),
        Step::BeginWrite { mutation } => lemma_begin_write_inv(sys, mutation),
        Step::Read { reader } => lemma_read_step_inv(sys, reader),
        Step::Write { writer } => lemma_write_step_inv(sys, writer),
    }
}

/// The system that `steps` lead to from construction with `slots` census
/// slots and the value `start`. A step that names no read or write of the
/// system is skipped.
pub open spec fn run<T>(slots: nat, start: T, steps: Seq<Step<T>>) -> System<T>
    decreases steps.len(),
{
    if steps.len() == 0 {
        System::initial(slots, start)
    } else {
        let before = run(slots, start, steps.drop_last());
        if before.admits(steps.last()) {
            before.step(steps.last())
        } else {
            before
        }
    }
}

/// Every interleaving of reads and writes leads to a system in its
/// invariant.
pub proof fn lemma_run_inv<T>(slots: nat, start: T, steps: Seq<Step<T>>)
    requires
        slots >= 1,
    ensures
        run(slots, start, steps).inv(),
    decreases steps.len(),
{
    if steps.len() == 0 {
        lemma_initial_inv(slots, start);
    } else {
        lemma_run_inv(slots, start, steps.drop_last());
        let before = run(slots, start, steps.drop_last());
        if before.admits(steps.last()) {
            lemma_step_inv(before, steps.last());
        }
    }
}

} // verus!
