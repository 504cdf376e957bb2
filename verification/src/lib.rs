//! Left-Right: two copies of a value, a selector that names the copy readers
//! see, and a census of readers in flight that tells a writer when the other
//! copy is free to be changed.
//!
//! A read or a write is a short sequence of steps, each of which reads or
//! changes one shared word. The modules `reader` and `writer` hold the two
//! state machines that say which step comes next. `control` holds the shared
//! words as a mathematical value, and `system` any number of reads and
//! writes that take their steps in any order. `guarantees` states what
//! holds of every such order, among it that no read sees an instance while
//! it is changed.
//!
//! `LeftRightRwLock` keeps the shared words and the two instances as plain
//! values behind one owner. Its `read` and `write` run a whole operation;
//! `read_step` and `write_step` take one step of an operation, so that a
//! caller can hold several operations in flight and choose the order of their
//! steps. Every step does to the control words exactly what the state
//! machines say, so what holds of every schedule holds of a lock that is
//! driven by one.

pub mod control;
pub mod reader;
pub mod writer;
pub mod tally;
pub mod system;
pub mod guarantees;

use vstd::prelude::*;
use crate::control::{Control, lemma_arrive_depart, lemma_with_count};
use crate::reader::{ReadAction, ReadOp};
use crate::writer::{WriteAction, WriteOp, spec_other};

verus! {

/// A value kept in two instances, with the control words that say which
/// instance readers see and which readers are in flight.
pub struct LeftRightRwLock<T> {
    instances: [T; 2],
    instance_index: usize,
    indicators: Vec<[usize; 2]>,
    indicator_index: usize,
    write_locked: bool,
}

/// What a `LeftRightRwLock` holds: the control words and the two instances.
pub struct LockView<T> {
    /// The selector, the epoch flag, the census and the writer token.
    pub control: Control,
    /// The two instances of the protected value.
    pub instances: Seq<T>,
}

impl<T> View for LeftRightRwLock<T> {
    type V = LockView<T>;

    closed spec fn view(&self) -> LockView<T> {
        LockView {
            control: Control {
                selector: self.instance_index as nat,
                epoch: self.indicator_index as nat,
                census: Seq::new(
                    self.indicators@.len(),
                    |s: int| seq![self.indicators@[s]@[0] as nat, self.indicators@[s]@[1] as nat],
                ),
                locked: self.write_locked,
            },
            instances: self.instances@,
        }
    }
}

/// Applies `writer` to the value behind `target`.
fn apply<T, R, Fw>(target: &mut T, writer: &Fw) -> (result: R) where Fw: Fn(&mut T) -> R
    requires
        forall|a: &mut T| *a == *old(target) ==> #[trigger] writer.requires((a,)),
    ensures
        exists|a: &mut T|
            *a == *old(target) && *final(a) == *final(target) && #[trigger] writer.ensures(
                (a,),
                result,
            ),
{
    writer(target)
}

impl<T> LeftRightRwLock<T> {
    /// The selector and the epoch flag are 0 or 1 and the census has at
    /// least one slot.
    pub closed spec fn wf(&self) -> bool {
        &&& self.instance_index < 2
        &&& self.indicator_index < 2
        &&& 1 <= self.indicators@.len() <= usize::MAX
    }

    /// A well-formed lock has well-formed control words, counters that fit
    /// a machine word, and two instances.
    pub proof fn lemma_wf(&self)
        requires
            self.wf(),
        ensures
            self@.control.wf(),
            self@.instances.len() == 2,
            self@.control.slots() <= usize::MAX,
            forall|s: int, e: int|
                0 <= s < self@.control.slots() && 0 <= e < 2 ==> #[trigger] self@.control.count(
                    s,
                    e,
                ) <= usize::MAX,
    {
    }

    /// Builds the two instances by two calls of `constructor`, and a
    /// census of `indicators_count` slots with every counter at zero.
    pub fn new<Fc>(constructor: Fc, indicators_count: usize) -> (lock: LeftRightRwLock<T>) where
        Fc: Fn() -> T,

        requires
            indicators_count >= 1,
            constructor.requires(()),
        ensures
            lock.wf(),
            lock@.control == Control::initial(indicators_count as nat),
            lock@.instances.len() == 2,
            constructor.ensures((), lock@.instances[0]),
            constructor.ensures((), lock@.instances[1]),
    {
        let first = constructor();
        let second = constructor();
        let mut indicators: Vec<[usize; 2]> = Vec::with_capacity(indicators_count);
        let mut i: usize = 0;
        while i < indicators_count
            invariant
                i <= indicators_count,
                indicators@.len() == i,
                forall|s: int|
                    0 <= s < i ==> (#[trigger] indicators@[s])@[0] == 0 && indicators@[s]@[1] == 0,
            decreases indicators_count - i,
        {
            indicators.push([0, 0]);
            i = i + 1;
        }
        let lock = LeftRightRwLock {
            instances: [first, second],
            instance_index: 0,
            indicators,
            indicator_index: 0,
            write_locked: false,
        };
        proof {
            assert(lock@.control.census =~= Control::initial(indicators_count as nat).census) by {
                assert forall|s: int| 0 <= s < indicators_count implies
                    #[trigger] lock@.control.census[s] == seq![0nat, 0nat] by {
                    assert(lock.indicators@[s]@[0] == 0);
                }
            }
        }
        lock
    }

    /// As `new`, for a caller that has not checked `indicators_count`: a
    /// census without slots is refused.
    pub fn try_new<Fc>(constructor: Fc, indicators_count: usize) -> (made: Option<
        LeftRightRwLock<T>,
    >) where Fc: Fn() -> T
        requires
            constructor.requires(()),
        ensures
            made is None <==> indicators_count == 0,
            made is Some ==> made->0.wf() && made->0@.control == Control::initial(
                indicators_count as nat,
            ) && made->0@.instances.len() == 2 && constructor.ensures((), made->0@.instances[0])
                && constructor.ensures((), made->0@.instances[1]),
    {
        if indicators_count == 0 {
            None
        } else {
            Some(LeftRightRwLock::new(constructor, indicators_count))
        }
    }

    /// The index of the instance that new readers observe.
    pub fn current_index(&self) -> (index: usize)
        requires
            self.wf(),
        ensures
            index == self@.control.selector,
            index < 2,
    {
        self.instance_index
    }

    /// The epoch under which new readers announce themselves.
    pub fn current_epoch(&self) -> (epoch: usize)
        requires
            self.wf(),
        ensures
            epoch == self@.control.epoch,
            epoch < 2,
    {
        self.indicator_index
    }

    /// Whether a write holds the writer token.
    pub fn is_write_locked(&self) -> (locked: bool)
        ensures
            locked == self@.control.locked,
    {
        self.write_locked
    }

    /// The instance with index `index`, whether readers see it or not.
    pub fn instance(&self, index: usize) -> (value: &T)
        requires
            index < 2,
        ensures
            *value == self@.instances[index as int],
    {
        &self.instances[index]
    }

    /// Whether the lock is at rest: no reader is counted under either
    /// epoch and no write holds the token.
    pub fn is_quiescent(&self) -> (quiet: bool)
        requires
            self.wf(),
        ensures
            quiet == self@.control.is_quiescent(),
    {
        !self.write_locked && !self.indicator_is_set(0) && !self.indicator_is_set(1)
    }

    /// Counts a reader in: adds one to the counter of the reader's slot,
    /// `id` modulo the number of slots, under epoch `index`.
    pub fn indicator_arrive(&mut self, id: usize, index: usize)
        requires
            old(self).wf(),
            index < 2,
            old(self)@.control.count(id as int % old(self)@.control.slots() as int, index as int)
                < usize::MAX,
        ensures
            final(self).wf(),
            final(self)@.control == old(self)@.control.arrive(
                id as int % old(self)@.control.slots() as int,
                index as int,
            ),
            final(self)@.instances == old(self)@.instances,
    {
        let modulo_id: usize = id % self.indicators.len();
        let count: usize = self.indicators[modulo_id][index];
        self.indicators[modulo_id][index] = count + 1;
        proof {
            let before = old(self)@.control;
            let expected = before.arrive(modulo_id as int, index as int);
            assert(final(self)@.control.census =~~= expected.census);
        }
    }

    /// Counts a reader out: takes one from the counter of the reader's
    /// slot, `id` modulo the number of slots, under epoch `index`.
    pub fn indicator_depart(&mut self, id: usize, index: usize)
        requires
            old(self).wf(),
            index < 2,
            old(self)@.control.count(id as int % old(self)@.control.slots() as int, index as int)
                > 0,
        ensures
            final(self).wf(),
            final(self)@.control == old(self)@.control.depart(
                id as int % old(self)@.control.slots() as int,
                index as int,
            ),
            final(self)@.instances == old(self)@.instances,
    {
        let modulo_id: usize = id % self.indicators.len();
        let count: usize = self.indicators[modulo_id][index];
        self.indicators[modulo_id][index] = count - 1;
        proof {
            let before = old(self)@.control;
            let expected = before.depart(modulo_id as int, index as int);
            assert(final(self)@.control.census =~~= expected.census);
        }
    }

    /// The counter of `slot` under epoch `index`.
    pub fn indicator_count(&self, slot: usize, index: usize) -> (count: usize)
        requires
            self.wf(),
            slot < self@.control.slots(),
            index < 2,
        ensures
            count == self@.control.count(slot as int, index as int),
    {
        self.indicators[slot][index]
    }

    /// Whether some slot still counts a reader under epoch `index`.
    pub fn indicator_is_set(&self, index: usize) -> (set: bool)
        requires
            self.wf(),
            index < 2,
        ensures
            set == self@.control.is_set(index as int),
            set == !self@.control.is_drained(index as int),
    {
        let mut slot: usize = 0;
        while slot < self.indicators.len()
            invariant
                self.wf(),
                index < 2,
                slot <= self.indicators@.len(),
                forall|s: int| 0 <= s < slot ==> #[trigger] self@.control.count(s, index as int) == 0,
            decreases self.indicators@.len() - slot,
        {
            if self.indicators[slot][index] > 0 {
                assert(self@.control.count(slot as int, index as int) > 0);
                return true;
            }
            slot = slot + 1;
        }
        false
    }

    /// Number of census slots.
    pub fn census_size(&self) -> (slots: usize)
        requires
            self.wf(),
        ensures
            slots == self@.control.slots(),
            slots >= 1,
    {
        self.indicators.len()
    }

    /// Takes the next step of the read `op` on this lock, and moves `op`
    /// to its next phase. The step that observes returns what `reader`
    /// made of the instance that `op` had selected; every other step
    /// returns `None`.
    pub fn read_step<Fr, R>(&mut self, op: &mut ReadOp, reader: &Fr) -> (result: Option<R>) where
        Fr: Fn(&T) -> R,

        requires
            old(self).wf(),
            old(op).ready(old(self)@.control),
            old(op).target() is Some ==> reader.requires(
                (&old(self)@.instances[old(op).target()->0 as int],),
            ),
        ensures
            final(self).wf(),
            final(self)@.control == old(op).effect(old(self)@.control),
            final(self)@.instances == old(self)@.instances,
            *final(op) == old(op).next(old(self)@.control),
            result is Some <==> old(op).target() is Some,
            old(op).target() is Some ==> reader.ensures(
                (&old(self)@.instances[old(op).target()->0 as int],),
                result->0,
            ),
    {
        let mut result: Option<R> = None;
        let mut loaded: usize = 0;
        match op.action() {
            ReadAction::LoadEpoch => {
                loaded = self.indicator_index;
            },
            ReadAction::Arrive { reader_id, epoch } => {
                self.indicator_arrive(reader_id, epoch);
            },
            ReadAction::LoadSelector => {
                loaded = self.instance_index;
            },
            ReadAction::Observe { instance } => {
                result = Some(reader(&self.instances[instance]));
            },
            ReadAction::Depart { reader_id, epoch } => {
                self.indicator_depart(reader_id, epoch);
            },
            ReadAction::Finished => {},
        }
        op.advance(loaded);
        result
    }

    /// Takes the next step of the write `op` on this lock, and moves `op`
    /// to its next phase. A step that changes an instance applies `writer`
    /// to it and returns what `writer` returned; every other step returns
    /// `None` and leaves both instances as they are.
    pub fn write_step<Fw, R>(&mut self, op: &mut WriteOp, writer: &Fw) -> (result: Option<R>) where
        Fw: Fn(&mut T) -> R,

        requires
            old(self).wf(),
            old(op).wf(old(self)@.control.slots()),
            forall|a: &mut T|
                old(op).target() is Some && *a == old(self)@.instances[old(op).target()->0 as int]
                    ==> #[trigger] writer.requires((a,)),
        ensures
            final(self).wf(),
            final(self)@.control == old(op).effect(old(self)@.control),
            *final(op) == old(op).next(old(self)@.control),
            final(self)@.instances.len() == 2,
            result is Some <==> old(op).target() is Some,
            old(op).target() is None ==> final(self)@.instances == old(self)@.instances,
            old(op).target() is Some ==> final(self)@.instances[1 - old(op).target()->0]
                == old(self)@.instances[1 - old(op).target()->0],
            old(op).target() is Some ==> exists|a: &mut T|
                *a == old(self)@.instances[old(op).target()->0 as int] && *final(a)
                    == final(self)@.instances[old(op).target()->0 as int]
                    && #[trigger] writer.ensures((a,), result->0),
    {
        let slots: usize = self.indicators.len();
        let mut observed: usize = 0;
        match op.action() {
            WriteAction::Acquire => {
                if !self.write_locked {
                    observed = 1;
                }
                self.write_locked = true;
            },
            WriteAction::LoadSelector => {
                observed = self.instance_index;
            },
            WriteAction::Mutate { instance } => {
                let r = apply(&mut self.instances[instance], writer);
                op.advance(observed, slots);
                let result = Some(r);
                assert(result->0 == r);
                return result;
            },
            WriteAction::StoreSelector { value } => {
                self.instance_index = value;
            },
            WriteAction::LoadEpoch => {
                observed = self.indicator_index;
            },
            WriteAction::Poll { slot, epoch } => {
                observed = self.indicators[slot][epoch];
            },
            WriteAction::StoreEpoch { value } => {
                self.indicator_index = value;
            },
            WriteAction::Release => {
                self.write_locked = false;
            },
            WriteAction::Finished => {},
        }
        op.advance(observed, slots);
        None
    }

    /// Runs one read from start to end: captures the epoch flag, counts
    /// itself in the census, loads the selector, lets `reader` observe the
    /// selected instance, and leaves the census under the captured epoch.
    /// It waits for nothing, whatever reads and writes are in flight, and
    /// leaves the lock as it found it.
    pub fn read<Fr, R>(&mut self, reader_id: usize, reader: Fr) -> (result: R) where
        Fr: Fn(&T) -> R,

        requires
            old(self).wf(),
            old(self)@.control.count(
                reader_id as int % old(self)@.control.slots() as int,
                old(self)@.control.epoch as int,
            ) < usize::MAX,
            reader.requires((&old(self)@.instances[old(self)@.control.selector as int],)),
        ensures
            final(self).wf(),
            final(self)@ == old(self)@,
            reader.ensures((&old(self)@.instances[old(self)@.control.selector as int],), result),
    {
        proof {
            self.lemma_wf();
            crate::tally::lemma_slot_in_range(reader_id, self@.control.slots());
            lemma_with_count(
                self@.control,
                reader_id as int % self@.control.slots() as int,
                self@.control.epoch as int,
                self@.control.count(
                    reader_id as int % self@.control.slots() as int,
                    self@.control.epoch as int,
                ) + 1,
            );
            lemma_arrive_depart(
                self@.control,
                reader_id as int % self@.control.slots() as int,
                self@.control.epoch as int,
            );
        }
        let mut op = ReadOp::new(reader_id);
        let _ = self.read_step(&mut op, &reader);
        let _ = self.read_step(&mut op, &reader);
        let _ = self.read_step(&mut op, &reader);
        let observed = self.read_step(&mut op, &reader);
        let _ = self.read_step(&mut op, &reader);
        observed.unwrap()
    }

    /// Runs one write from start to end: takes the writer token, applies
    /// `writer` to the instance that readers do not see, points the
    /// selector at it, scans the census under the epoch to be reused, flips
    /// the epoch flag, scans the census under the epoch that was left,
    /// applies `writer` to the other instance, and gives the token back.
    /// Returns what the second application returned.
    ///
    /// The lock must be at rest. While this call runs, nothing else can
    /// take a reader out of the census or give the token back, so a write
    /// that found a reader counted, or the token taken, would wait for
    /// ever. With reads or writes in flight, take the steps of the write
    /// one by one with `write_step`.
    ///
    /// If the two instances agreed before and `writer` leaves equal values
    /// behind whenever it starts from equal values, they agree afterwards.
    pub fn write<Fw, R>(&mut self, writer: Fw) -> (result: R) where Fw: Fn(&mut T) -> R
        requires
            old(self).wf(),
            old(self)@.control.is_quiescent(),
            forall|a: &mut T|
                (*a == old(self)@.instances[0] || *a == old(self)@.instances[1])
                    ==> #[trigger] writer.requires((a,)),
        ensures
            final(self).wf(),
            final(self)@.control == (Control {
                selector: spec_other(old(self)@.control.selector as usize) as nat,
                epoch: spec_other(old(self)@.control.epoch as usize) as nat,
                ..old(self)@.control
            }),
            final(self)@.instances.len() == 2,
            exists|a: &mut T, first: R|
                *a == old(self)@.instances[1 - old(self)@.control.selector] && *final(a)
                    == final(self)@.instances[1 - old(self)@.control.selector]
                    && #[trigger] writer.ensures((a,), first),
            exists|a: &mut T|
                *a == old(self)@.instances[old(self)@.control.selector as int] && *final(a)
                    == final(self)@.instances[old(self)@.control.selector as int]
                    && #[trigger] writer.ensures((a,), result),
            (old(self)@.instances[0] == old(self)@.instances[1] && forall|
                a: &mut T,
                b: &mut T,
                ra: R,
                rb: R,
            |
                *a == *b && #[trigger] writer.ensures((a,), ra) && #[trigger] writer.ensures(
                    (b,),
                    rb,
                ) ==> *final(a) == *final(b)) ==> final(self)@.instances[0]
                == final(self)@.instances[1],
    {
        proof {
            self.lemma_wf();
        }
        let ghost start = self@;
        let ghost front = start.control.selector as usize;
        let ghost back = spec_other(front);
        let ghost epoch = start.control.epoch as usize;
        let ghost slots = start.control.slots();
        let mut op = WriteOp::new();
        let _ = self.write_step(&mut op, &writer);
        let _ = self.write_step(&mut op, &writer);
        let first = self.write_step(&mut op, &writer);
        let ghost first_result = first->0;
        let _ = self.write_step(&mut op, &writer);
        let _ = self.write_step(&mut op, &writer);
        let ghost published = self@;
        assert(op == (WriteOp::PreClear { current: front, epoch, slot: 0 }));
        while op.is_polling()
            invariant
                self.wf(),
                self@ == published,
                published.control.census == start.control.census,
                start.control.is_drained(0),
                start.control.is_drained(1),
                slots == start.control.slots(),
                epoch < 2,
                front < 2,
                op.wf(slots),
                op is PreClear || op == (WriteOp::Flip { current: front, epoch }),
                op is PreClear ==> op == (WriteOp::PreClear {
                    current: front,
                    epoch,
                    slot: (slots - op.scan_left(slots)) as usize,
                }),
            decreases op.scan_left(slots),
        {
            proof {
                let polled = (slots - op.scan_left(slots)) as int;
                assert(start.control.count(polled, spec_other(epoch) as int) == 0);
            }
            let _ = self.write_step(&mut op, &writer);
        }
        let _ = self.write_step(&mut op, &writer);
        let ghost flipped = self@;
        assert(op == (WriteOp::Drain { current: front, epoch, slot: 0 }));
        while op.is_polling()
            invariant
                self.wf(),
                self@ == flipped,
                flipped.control.census == start.control.census,
                start.control.is_drained(0),
                start.control.is_drained(1),
                slots == start.control.slots(),
                epoch < 2,
                front < 2,
                op.wf(slots),
                op is Drain || op == (WriteOp::FrontMutate { current: front }),
                op is Drain ==> op == (WriteOp::Drain {
                    current: front,
                    epoch,
                    slot: (slots - op.scan_left(slots)) as usize,
                }),
            decreases op.scan_left(slots),
        {
            proof {
                let polled = (slots - op.scan_left(slots)) as int;
                assert(start.control.count(polled, epoch as int) == 0);
            }
            let _ = self.write_step(&mut op, &writer);
        }
        let second = self.write_step(&mut op, &writer);
        let _ = self.write_step(&mut op, &writer);
        let result = second.unwrap();
        proof {
            assert(second->0 == result);
            assert(exists|a: &mut T, first: R|
                *a == start.instances[back as int] && *final(a) == self@.instances[back as int]
                    && #[trigger] writer.ensures((a,), first)) by {
                assert(exists|a: &mut T|
                    *a == start.instances[back as int] && *final(a) == self@.instances[back as int]
                        && #[trigger] writer.ensures((a,), first_result));
            }
        }
        result
    }
}

} // verus!
