//! What the primitive guarantees, whatever the order in which reads and
//! writes take their steps: reads never wait, writers are serialized, no
//! read sees an instance while it is changed, a read sees every write that
//! returned before it began, and the two instances agree whenever no write
//! is in progress.

use vstd::prelude::*;
use crate::reader::ReadOp;
use crate::system::{Step, System, lemma_run_inv, reader_allowed, run};
use crate::tally::{lemma_slot_in_range, lemma_tally_counts, tally};
use crate::LockView;

verus! {

/// Reads are wait-free: in any system at all, however many reads and
/// writes are in flight and wherever they stand, a step of a read that has
/// not returned leaves it with one step fewer to take, and no step of
/// another read or of a write changes how many steps it has left. A read
/// returns after five steps of its own.
pub proof fn lemma_read_is_never_delayed<T>(sys: System<T>, i: int, step: Step<T>)
    requires
        0 <= i < sys.readers.len(),
        sys.admits(step),
    ensures
        sys.readers[i].steps_left() <= 5,
        step == (Step::<T>::Read { reader: i }) && !(sys.readers[i] is Done) ==> sys.step(
            step,
        ).readers[i].steps_left() + 1 == sys.readers[i].steps_left(),
        step != (Step::<T>::Read { reader: i }) ==> sys.step(step).readers[i] == sys.readers[i],
{
    match step {
        Step::Write { writer } => {
            assert(sys.write_step(writer).readers == sys.readers);
        },
        _ => {},
    }
}

/// Writers are serialized: after any interleaving, no two writes hold the
/// writer token, so no two are between taking it and giving it back.
pub proof fn lemma_single_writer<T>(slots: nat, start: T, steps: Seq<Step<T>>, j: int, k: int)
    requires
        slots >= 1,
        0 <= j < run(slots, start, steps).writers.len(),
        0 <= k < run(slots, start, steps).writers.len(),
        j != k,
    ensures
        !(run(slots, start, steps).writers[j].is_holding() && run(
            slots,
            start,
            steps,
        ).writers[k].is_holding()),
{
    lemma_run_inv(slots, start, steps);
    let sys = run(slots, start, steps);
    assert(sys.writers[j].is_holding() <==> sys.holder == Some(j));
    assert(sys.writers[k].is_holding() <==> sys.holder == Some(k));
}

/// After any interleaving, the history starts with the value that the
/// instances were built from.
pub proof fn lemma_history_starts<T>(slots: nat, start: T, steps: Seq<Step<T>>)
    requires
        slots >= 1,
    ensures
        run(slots, start, steps).history.len() >= 1,
        run(slots, start, steps).history[0] == start,
    decreases steps.len(),
{
    if steps.len() > 0 {
        lemma_history_starts(slots, start, steps.drop_last());
        lemma_run_inv(slots, start, steps.drop_last());
    }
}

/// Writes take effect one after the other: after any interleaving, the
/// history starts with the value that the instances were built from, and
/// each later entry is the entry before it, changed by the one write that
/// was then the next to take the token.
pub proof fn lemma_history_is_serial<T>(slots: nat, start: T, steps: Seq<Step<T>>, k: int)
    requires
        slots >= 1,
        0 <= k < run(slots, start, steps).history.len() - 1,
    ensures
        run(slots, start, steps).history[0] == start,
        k < run(slots, start, steps).order.len(),
        0 <= run(slots, start, steps).order[k] < run(slots, start, steps).writers.len(),
        run(slots, start, steps).history[k + 1] == (run(slots, start, steps).mutations[run(
            slots,
            start,
            steps,
        ).order[k]])(run(slots, start, steps).history[k]),
{
    lemma_run_inv(slots, start, steps);
    let sys = run(slots, start, steps);
    assert(sys.history[k + 1] == (sys.mutations[sys.order[k]])(sys.history[k]));
    assert(0 <= sys.order[k] < sys.writers.len());
    lemma_history_starts(slots, start, steps);
}

/// No torn reads: after any interleaving, no read observes an instance
/// that a write is about to change, and whatever step comes next leaves
/// an instance that is being observed as it is. A read therefore sees an
/// instance either before a mutation or after it, never in between.
pub proof fn lemma_no_torn_read<T>(
    slots: nat,
    start: T,
    steps: Seq<Step<T>>,
    i: int,
    instance: int,
    then: Step<T>,
)
    requires
        slots >= 1,
        0 <= i < run(slots, start, steps).readers.len(),
        run(slots, start, steps).readers[i].is_observing(instance),
        run(slots, start, steps).admits(then),
    ensures
        forall|j: int|
            0 <= j < run(slots, start, steps).writers.len() ==> !(#[trigger] run(
                slots,
                start,
                steps,
            ).writers[j]).is_mutating(instance),
        run(slots, start, steps).step(then).values[instance] == run(
            slots,
            start,
            steps,
        ).values[instance],
{
    lemma_run_inv(slots, start, steps);
    let sys = run(slots, start, steps);
    assert(sys.readers[i].wf());
    assert(reader_allowed(
        sys.holder_op(),
        sys.control.selector,
        sys.control.slots(),
        sys.readers[i],
    ));
    assert forall|j: int| 0 <= j < sys.writers.len() implies !(#[trigger] sys.writers[j]).is_mutating(
        instance,
    ) by {
        assert(sys.writers[j].is_holding() <==> sys.holder == Some(j));
        assert(sys.writers[j].wf(sys.control.slots()));
    }
    match then {
        Step::Write { writer } => {
            assert(!sys.writers[writer].is_mutating(instance));
            assert(sys.writers[writer].wf(sys.control.slots()));
        },
        _ => {},
    }
}

/// Read after write: after any interleaving, the instance that a read
/// observes holds an entry of the history that at least as many writes
/// led to as had returned when the read was invoked. The read sees every
/// write that returned before it began.
pub proof fn lemma_read_sees_returned_writes<T>(
    slots: nat,
    start: T,
    steps: Seq<Step<T>>,
    i: int,
    instance: int,
)
    requires
        slots >= 1,
        0 <= i < run(slots, start, steps).readers.len(),
        run(slots, start, steps).readers[i].is_observing(instance),
    ensures
        run(slots, start, steps).began[i] <= run(slots, start, steps).applied[instance] < run(
            slots,
            start,
            steps,
        ).history.len(),
        run(slots, start, steps).values[instance] == run(slots, start, steps).history[run(
            slots,
            start,
            steps,
        ).applied[instance] as int],
{
    lemma_run_inv(slots, start, steps);
    let sys = run(slots, start, steps);
    assert(sys.readers[i].wf());
    assert(sys.began[i] <= sys.completed);
    if sys.holder is Some {
        assert(sys.writers[sys.holder->0].wf(sys.control.slots()));
    }
}

/// Convergence: after any interleaving, while no write holds the token,
/// the two instances hold the same value, the last of the history, and one
/// mutation has been applied to each for every write that returned.
pub proof fn lemma_instances_converge<T>(slots: nat, start: T, steps: Seq<Step<T>>)
    requires
        slots >= 1,
        forall|j: int|
            0 <= j < run(slots, start, steps).writers.len() ==> !(#[trigger] run(
                slots,
                start,
                steps,
            ).writers[j]).is_holding(),
    ensures
        run(slots, start, steps).values[0] == run(slots, start, steps).values[1],
        run(slots, start, steps).values[0] == run(slots, start, steps).history.last(),
        run(slots, start, steps).history.len() == run(slots, start, steps).completed + 1,
        run(slots, start, steps).applied[0] == run(slots, start, steps).completed,
        run(slots, start, steps).applied[1] == run(slots, start, steps).completed,
{
    lemma_run_inv(slots, start, steps);
    let sys = run(slots, start, steps);
    if sys.holder is Some {
        assert(sys.writers[sys.holder->0].is_holding());
    }
}

/// In the invariant, every read and every write can take its next step on
/// the lock: their indices are in range, and a read that retires finds
/// its counter above zero. Only a counter at the largest machine word can
/// keep a read from announcing itself.
pub proof fn lemma_steps_are_ready<T>(sys: System<T>)
    requires
        sys.inv(),
    ensures
        forall|j: int|
            0 <= j < sys.writers.len() ==> (#[trigger] sys.writers[j]).wf(sys.control.slots()),
        forall|i: int|
            0 <= i < sys.readers.len() && !(sys.readers[i] is Announce) ==> (
            #[trigger] sys.readers[i]).ready(sys.control),
        forall|i: int|
            0 <= i < sys.readers.len() && sys.readers[i] is Announce ==> (
            #[trigger] sys.readers[i]).wf(),
{
    assert forall|i: int|
        0 <= i < sys.readers.len() && !(sys.readers[i] is Announce) implies (
    #[trigger] sys.readers[i]).ready(sys.control) by {
        let r = sys.readers[i];
        assert(r.wf());
        match r {
            ReadOp::Retire { reader_id, epoch } => {
                let slot = reader_id as int % sys.control.slots() as int;
                lemma_slot_in_range(reader_id, sys.control.slots());
                lemma_tally_counts(sys.readers, i, sys.control.slots(), slot, epoch as int);
                assert(sys.control.count(slot, epoch as int) == tally(
                    sys.readers,
                    sys.control.slots(),
                    slot,
                    epoch as int,
                ));
            },
            _ => {},
        }
    }
}

/// The system describes a lock that holds the same control words and the
/// same two instances.
pub open spec fn describes<T>(sys: System<T>, lock: LockView<T>) -> bool {
    sys.control == lock.control && sys.values == lock.instances
}

/// A lock that takes a step of a read as `read_step` does is described by
/// the system after the same step.
pub proof fn lemma_read_step_refines<T>(
    sys: System<T>,
    i: int,
    before: LockView<T>,
    after: LockView<T>,
)
    requires
        describes(sys, before),
        0 <= i < sys.readers.len(),
        after.control == sys.readers[i].effect(before.control),
        after.instances == before.instances,
    ensures
        describes(sys.read_step(i), after),
{
}

/// A lock that takes a step of a write as `write_step` does, with a
/// writer that computes the mutation of that write, is described by the
/// system after the same step.
pub proof fn lemma_write_step_refines<T>(
    sys: System<T>,
    j: int,
    before: LockView<T>,
    after: LockView<T>,
)
    requires
        describes(sys, before),
        0 <= j < sys.writers.len(),
        before.instances.len() == 2,
        after.instances.len() == 2,
        sys.writers[j].wf(sys.control.slots()),
        after.control == sys.writers[j].effect(before.control),
        sys.writers[j].target() is None ==> after.instances == before.instances,
        sys.writers[j].target() is Some ==> after.instances[1 - sys.writers[j].target()->0]
            == before.instances[1 - sys.writers[j].target()->0],
        sys.writers[j].target() is Some ==> after.instances[sys.writers[j].target()->0 as int] == (
        sys.mutations[j])(before.instances[sys.writers[j].target()->0 as int]),
    ensures
        describes(sys.write_step(j), after),
{
    assert(sys.write_step(j).values =~= after.instances);
}

} // verus!
