//! The generator for threads: the state behind a lock, one step at a time or
//! a whole batch under one lock.

use crate::defs::RETRY_LIMIT;
use crate::defs::SNOWFLAKE_ID_EPOCH;
use crate::error::SnowflakeError;
use crate::snowflake::BitLayout;
use crate::snowflake::Snowflake;
use crate::step::after_batch_step;
use crate::step::after_step;
use crate::step::duration_of_millis;
use crate::step::lemma_issued_fields;
use crate::step::lemma_next_sequence;
use crate::step::lemma_step_moves_forward;
use crate::step::step;
use crate::step::step_may_yield;
use crate::step::step_may_yield_at;
use crate::step::BatchTurn;
use crate::step::Decision;
use crate::step::GeneratorState;
pub use crate::step::SnowflakeOperation;
use crate::step::Turn;
use chrono::Utc;
use std::marker::PhantomData;
use std::sync::Mutex;
use std::sync::MutexGuard;
use std::time::Duration;
use vstd::prelude::*;

verus! {

/// `Mutex` of the standard library, as a type of which nothing is known.
#[verifier::external_type_specification]
#[verifier::external_body]
#[verifier::reject_recursive_types(T)]
pub struct ExMutex<T: ?Sized>(Mutex<T>);

/// `MutexGuard` of the standard library, which stands for a lock that is
/// held, as a type of which nothing is known.
#[verifier::external_type_specification]
#[verifier::external_body]
#[verifier::reject_recursive_types(T)]
pub struct ExMutexGuard<'a, T: ?Sized + 'a>(MutexGuard<'a, T>);

/// The state behind a lock that is held: what the guard gives access to.
pub uninterp spec fn held(guard: MutexGuard<'_, GeneratorState>) -> GeneratorState;

/// `Mutex::new` of the standard library: a lock that holds the state.
#[verifier::external_body]
fn new_lock(state: GeneratorState) -> (lock: Mutex<GeneratorState>) {
    Mutex::new(state)
}

/// `Mutex::lock` of the standard library: waits for the lock and takes it.
/// There is no guard where the lock is poisoned, that is where a thread
/// panicked while it held the lock. Nothing is claimed of the state behind
/// the lock: another thread may have changed it since this one saw it. A
/// thread that holds the lock and takes it again does not come back from
/// the call: no function of this library takes the lock while it holds it.
#[verifier::external_body]
fn lock_state<'a>(lock: &'a Mutex<GeneratorState>) -> (guard: Option<
    MutexGuard<'a, GeneratorState>,
>) {
    match lock.lock() {
        Ok(guard) => Some(guard),
        Err(_) => None,
    }
}

/// The state behind a lock that is held, read through the guard, as `deref`
/// of the standard library's `MutexGuard` gives it.
#[verifier::external_body]
fn read_state(guard: &MutexGuard<'_, GeneratorState>) -> (state: GeneratorState)
    ensures
        state == held(*guard),
{
    **guard
}

/// Puts a state behind a lock that is held, through `deref_mut` of the
/// standard library's `MutexGuard`: the lock then holds that state.
#[verifier::external_body]
fn write_state(guard: &mut MutexGuard<'_, GeneratorState>, state: GeneratorState)
    ensures
        held(*final(guard)) == state,
{
    **guard = state;
}

/// The time in milliseconds since the Unix epoch, as `Utc::now` and
/// `DateTime::timestamp_millis` of chrono give it. Nothing is claimed of the
/// reading: two readings may be equal, and the second may be the smaller.
/// The call panics where the system clock is set before 1970.
#[verifier::external_body]
fn current_timestamp() -> (now: i64) {
    Utc::now().timestamp_millis()
}

/// A batch that stopped early: the identifiers that were issued before the
/// failure, in the order of issue, and the failure.
#[derive(Debug)]
pub struct BulkFailure<S> {
    pub issued: Vec<S>,
    pub error: SnowflakeError,
}

/// Whether a failure is one that ends a call for an identifier.
pub open spec fn ends_a_call(error: SnowflakeError) -> bool {
    ||| error is ClockMovedBackwards
    ||| error is TimestampOverflow
    ||| error is GeneratorPoisoned
    ||| error is RetriesExhausted
}

/// Whether the raw values of the identifiers increase strictly.
pub open spec fn strictly_increasing<S: Snowflake>(ids: Seq<S>) -> bool {
    forall|i: int, j: int| 0 <= i < j < ids.len() ==> ids[i].raw() < ids[j].raw()
}

/// Whether the identifier `later` is one that a generator can issue next
/// after `earlier`: in the same millisecond with the next sequence number,
/// or in a later millisecond with sequence zero.
pub open spec fn follows(layout: BitLayout, earlier: u64, later: u64) -> bool {
    ||| layout.timestamp_of(later) == layout.timestamp_of(earlier) && layout.sequence_of(later)
        == layout.sequence_of(earlier) + 1
    ||| layout.timestamp_of(later) > layout.timestamp_of(earlier) && layout.sequence_of(later)
        == 0
}

/// Whether each identifier but the first follows the one before it.
pub open spec fn each_follows<S: Snowflake>(ids: Seq<S>) -> bool {
    forall|i: int|
        0 <= i < ids.len() - 1 ==> follows(S::layout(), #[trigger] ids[i].raw(), ids[i + 1].raw())
}

/// Whether an identifier is valid and carries the machine id.
pub open spec fn is_from_machine<S: Snowflake>(id: S, machine_id: u64) -> bool {
    &&& S::layout().is_valid(id.raw())
    &&& S::layout().machine_id_of(id.raw()) == machine_id
}

/// Whether each of the identifiers is valid and carries the machine id.
pub open spec fn all_from_machine<S: Snowflake>(ids: Seq<S>, machine_id: u64) -> bool {
    forall|i: int| 0 <= i < ids.len() ==> is_from_machine(#[trigger] ids[i], machine_id)
}

/// Whether the identifiers are a run of one generator on the machine
/// `machine_id`: each is valid and carries the machine id, each but the
/// first follows the one before it, and so their raw values increase
/// strictly.
pub open spec fn is_run<S: Snowflake>(ids: Seq<S>, machine_id: u64) -> bool {
    &&& all_from_machine(ids, machine_id)
    &&& each_follows(ids)
    &&& strictly_increasing(ids)
}

/// Whether `outcome` is what a call for a batch of `count` identifiers hands
/// back: all of them, or the failure that ended the batch with those issued
/// before it. Either way the identifiers are a run of one generator.
pub open spec fn is_batch<S: Snowflake>(
    machine_id: u64,
    count: usize,
    outcome: Result<Vec<S>, BulkFailure<S>>,
) -> bool {
    match outcome {
        Ok(ids) => {
            &&& ids@.len() == count
            &&& is_run(ids@, machine_id)
        },
        Err(failure) => {
            &&& ends_a_call(failure.error)
            &&& failure.issued@.len() <= count
            &&& failure.error is GeneratorPoisoned || failure.issued@.len() < count
            &&& failure.error is GeneratorPoisoned ==> failure.issued@.len() == 0
            &&& is_run(failure.issued@, machine_id)
        },
    }
}

/// Whether `state` is the state in which a generator is left when it has
/// just issued `id`: the time and the sequence of the state are those of the
/// identifier.
pub open spec fn is_state_of<S: Snowflake>(
    state: GeneratorState,
    epoch: i64,
    machine_id: u64,
    id: S,
) -> bool {
    &&& state.well_formed(S::layout())
    &&& 0 <= state.last_timestamp - epoch <= S::layout().timestamp_mask()
    &&& id.raw() == S::layout().pack(
        (state.last_timestamp - epoch) as u64,
        machine_id,
        state.sequence,
    )
}

/// Whether a machine id fits the layout, and the failure where it does not.
pub fn check_machine_id<S: Snowflake>(machine_id: u64) -> (checked: Result<(), SnowflakeError>)
    ensures
        machine_id <= S::layout().machine_id_mask() ==> checked is Ok,
        machine_id > S::layout().machine_id_mask() ==> (checked matches Err(
            SnowflakeError::InvalidMachineId(refused, max),
        ) && refused == machine_id && max == S::layout().machine_id_mask()),
{
    if machine_id > S::max_machine_id() {
        return Err(SnowflakeError::InvalidMachineId(machine_id, S::max_machine_id()));
    }
    Ok(())
}

/// One step on the state behind a lock that is held: the lock then holds
/// the state after the step, and the outcome is what the step decides for
/// the state that the lock held.
pub fn step_held<S: Snowflake>(
    guard: &mut MutexGuard<'_, GeneratorState>,
    now: i64,
    machine_id: u64,
    epoch: i64,
) -> (outcome: Result<SnowflakeOperation<S>, SnowflakeError>)
    requires
        machine_id <= S::layout().machine_id_mask(),
    ensures
        held(*final(guard)) == held(*old(guard)).advanced(S::layout(), now),
        held(*old(guard)).decision(S::layout(), now, epoch).yields(machine_id, outcome),
{
    let mut state = read_state(guard);
    let outcome = step::<S>(&mut state, now, machine_id, epoch);
    write_state(guard, state);
    outcome
}

/// Whether `turn` and `after` are what one step of a batch makes of the
/// identifiers `before`, for what the step decides and with `left` waits
/// left: an identifier is put at the end, and nothing else changes the
/// identifiers.
pub open spec fn batch_step_gives<S: Snowflake>(
    decision: Decision,
    machine_id: u64,
    left: u64,
    before: Seq<S>,
    after: Seq<S>,
    turn: BatchTurn,
) -> bool {
    match decision {
        Decision::Issue { timestamp_offset, sequence } => {
            &&& turn == BatchTurn::Issued
            &&& after.len() == before.len() + 1
            &&& after.drop_last() == before
            &&& after.last().raw() == S::layout().pack(timestamp_offset, machine_id, sequence)
        },
        Decision::Wait { millis } => {
            &&& after == before
            &&& if left == 0 {
                turn == BatchTurn::Stop(SnowflakeError::RetriesExhausted)
            } else {
                turn == (BatchTurn::Wait {
                    wait: duration_of_millis(millis),
                    left: (left - 1) as u64,
                })
            }
        },
        Decision::ClockMovedBackwards => {
            &&& after == before
            &&& turn == BatchTurn::Stop(SnowflakeError::ClockMovedBackwards)
        },
        Decision::TimestampOverflow => {
            &&& after == before
            &&& turn == BatchTurn::Stop(SnowflakeError::TimestampOverflow)
        },
    }
}

/// One step of a batch at the reading `now`, on the state behind a lock
/// that is held and with `left` waits left for the identifier at hand. It
/// is the step that a call for one identifier makes: the lock then holds
/// the state after the step, and an identifier that the step issues is put
/// at the end of `ids`.
pub fn batch_step<S: Snowflake>(
    guard: &mut MutexGuard<'_, GeneratorState>,
    ids: &mut Vec<S>,
    now: i64,
    machine_id: u64,
    epoch: i64,
    left: u64,
) -> (turn: BatchTurn)
    requires
        machine_id <= S::layout().machine_id_mask(),
    ensures
        held(*final(guard)) == held(*old(guard)).advanced(S::layout(), now),
        batch_step_gives::<S>(
            held(*old(guard)).decision(S::layout(), now, epoch),
            machine_id,
            left,
            old(ids)@,
            final(ids)@,
            turn,
        ),
{
    let outcome = step_held::<S>(guard, now, machine_id, epoch);
    let ghost before = ids@;
    let ghost made = outcome;
    let turn = after_batch_step(ids, outcome, left);
    proof {
        if made matches Ok(SnowflakeOperation::Ready(id)) {
            assert(ids@.drop_last() =~= before);
        }
    }
    turn
}

/// The failure of a batch: the identifiers issued so far, all of them and in
/// their order, with the failure that ended the batch.
pub fn end_batch<S: Snowflake>(ids: Vec<S>, error: SnowflakeError) -> (failure: BulkFailure<S>)
    ensures
        failure.issued == ids,
        failure.error == error,
{
    BulkFailure { issued: ids, error }
}

/// An identifier that is issued after another, from the state in which the
/// other left the generator, follows it, and its raw value is the greater.
pub proof fn lemma_issued_next<S: Snowflake>(
    state: GeneratorState,
    now: i64,
    epoch: i64,
    machine_id: u64,
    last: S,
    next: S,
)
    requires
        machine_id <= S::layout().machine_id_mask(),
        is_state_of(state, epoch, machine_id, last),
        state.decision(S::layout(), now, epoch).yields::<S>(
            machine_id,
            Ok(SnowflakeOperation::Ready(next)),
        ),
    ensures
        follows(S::layout(), last.raw(), next.raw()),
        last.raw() < next.raw(),
        is_state_of(state.advanced(S::layout(), now), epoch, machine_id, next),
        is_from_machine(next, machine_id),
{
    let layout = S::layout();
    S::lemma_layout_fits();
    let after = state.advanced(layout, now);
    lemma_step_moves_forward(layout, state, now, epoch);
    lemma_next_sequence(layout, state.sequence);
    lemma_issued_fields::<S>(state, now, epoch, machine_id, next);
    layout.lemma_round_trip((state.last_timestamp - epoch) as u64, machine_id, state.sequence);
    layout.lemma_pack_is_ordered(
        machine_id,
        (state.last_timestamp - epoch) as u64,
        state.sequence,
        (after.last_timestamp - epoch) as u64,
        after.sequence,
    );
}

/// The first identifier of a run: the state in which it leaves the
/// generator is its own.
pub proof fn lemma_issued_first<S: Snowflake>(
    state: GeneratorState,
    now: i64,
    epoch: i64,
    machine_id: u64,
    next: S,
)
    requires
        machine_id <= S::layout().machine_id_mask(),
        state.decision(S::layout(), now, epoch).yields::<S>(
            machine_id,
            Ok(SnowflakeOperation::Ready(next)),
        ),
    ensures
        is_state_of(state.advanced(S::layout(), now), epoch, machine_id, next),
        is_from_machine(next, machine_id),
{
    S::lemma_layout_fits();
    lemma_step_moves_forward(S::layout(), state, now, epoch);
    lemma_issued_fields::<S>(state, now, epoch, machine_id, next);
}

/// A run that is made longer by an identifier that follows its last is a
/// run.
pub proof fn lemma_run_grows<S: Snowflake>(ids: Seq<S>, machine_id: u64, next: S)
    requires
        is_run(ids, machine_id),
        is_from_machine(next, machine_id),
        ids.len() > 0 ==> follows(S::layout(), ids.last().raw(), next.raw()) && ids.last().raw()
            < next.raw(),
    ensures
        is_run(ids.push(next), machine_id),
{
    let longer = ids.push(next);
    assert forall|i: int, j: int| 0 <= i < j < longer.len() implies longer[i].raw()
        < longer[j].raw() by {
        if j == ids.len() {
            if i < ids.len() - 1 {
                assert(ids[i].raw() < ids.last().raw());
            }
        } else {
            assert(longer[i] == ids[i] && longer[j] == ids[j]);
        }
    }
    assert forall|i: int| 0 <= i < longer.len() implies is_from_machine(
        #[trigger] longer[i],
        machine_id,
    ) by {
        if i < ids.len() {
            assert(longer[i] == ids[i]);
        }
    }
    assert forall|i: int| 0 <= i < longer.len() - 1 implies follows(
        S::layout(),
        #[trigger] longer[i].raw(),
        longer[i + 1].raw(),
    ) by {
        if i < ids.len() - 1 {
            assert(longer[i] == ids[i] && longer[i + 1] == ids[i + 1]);
        } else {
            assert(longer[i] == ids.last() && longer[i + 1] == next);
        }
    }
}

/// A batch of `count` identifiers on the state behind a lock that is held,
/// each step a [`batch_step`] at the present reading of the clock. Where a
/// step says to wait, `on_pending` is called with the suggested wait, and
/// the step is made again; the wait for one identifier gives up after
/// `retries` waits. A failure ends the batch and comes back as it is, with
/// all the identifiers issued before it.
///
/// `on_pending` runs while the lock is held: it must not take the lock.
///
/// A batch of none is empty and leaves the state as it is. A whole batch
/// leaves the lock with the state of its last identifier, and so does a
/// batch that ends because the clock went back or the waits ran out; where
/// such a batch has issued nothing, the state is as it was. No failure
/// under a held lock is `GeneratorPoisoned`.
pub fn batch_held<S: Snowflake>(
    guard: &mut MutexGuard<'_, GeneratorState>,
    count: usize,
    retries: u64,
    machine_id: u64,
    epoch: i64,
    mut on_pending: impl FnMut(Duration),
) -> (outcome: Result<Vec<S>, BulkFailure<S>>)
    requires
        machine_id <= S::layout().machine_id_mask(),
        forall|wait: Duration| call_requires(on_pending, (wait,)),
    ensures
        is_batch(machine_id, count, outcome),
        outcome matches Err(failure) ==> !(failure.error is GeneratorPoisoned),
        count == 0 ==> outcome is Ok && held(*final(guard)) == held(*old(guard)),
        outcome is Ok && count > 0 ==> is_state_of(
            held(*final(guard)),
            epoch,
            machine_id,
            outcome->Ok_0@.last(),
        ),
        outcome matches Err(failure) ==> (failure.error is TimestampOverflow || (
        if failure.issued@.len() == 0 {
            held(*final(guard)) == held(*old(guard))
        } else {
            is_state_of(held(*final(guard)), epoch, machine_id, failure.issued@.last())
        })),
{
    let mut ids: Vec<S> = Vec::with_capacity(count);
    let mut left: u64 = retries;
    while ids.len() < count
        invariant
            forall|wait: Duration| call_requires(on_pending, (wait,)),
            machine_id <= S::layout().machine_id_mask(),
            ids@.len() <= count,
            is_run(ids@, machine_id),
            ids@.len() > 0 ==> is_state_of(held(*guard), epoch, machine_id, ids@.last()),
            ids@.len() == 0 ==> held(*guard) == held(*old(guard)),
        decreases count - ids.len(), left,
    {
        let now = current_timestamp();
        let ghost before = held(*guard);
        let ghost issued = ids@;
        match batch_step::<S>(guard, &mut ids, now, machine_id, epoch, left) {
            BatchTurn::Issued => {
                proof {
                    let next = ids@.last();
                    assert(ids@ =~= issued.push(next));
                    if issued.len() > 0 {
                        lemma_issued_next::<S>(
                            before,
                            now,
                            epoch,
                            machine_id,
                            issued.last(),
                            next,
                        );
                    } else {
                        lemma_issued_first::<S>(before, now, epoch, machine_id, next);
                    }
                    lemma_run_grows(issued, machine_id, next);
                }
                left = retries;
            },
            BatchTurn::Wait { wait, left: rest } => {
                left = rest;
                on_pending(wait);
            },
            BatchTurn::Stop(error) => {
                return Err(end_batch(ids, error));
            },
        }
    }
    Ok(ids)
}

/// A generator of identifiers of type `S` for one machine, safe to share
/// among threads.
pub struct SnowflakeGenerator<S: Snowflake> {
    machine_id: u64,
    state: Mutex<GeneratorState>,
    epoch: i64,
    _marker: PhantomData<S>,
}

impl<S: Snowflake> SnowflakeGenerator<S> {
    #[verifier::type_invariant]
    spec fn machine_id_fits(self) -> bool {
        self.machine_id <= S::layout().machine_id_mask()
    }

    /// The machine id that every identifier of this generator carries.
    pub closed spec fn spec_machine_id(&self) -> u64 {
        self.machine_id
    }

    /// The epoch that the timestamp offsets are counted from.
    pub closed spec fn spec_epoch(&self) -> i64 {
        self.epoch
    }

    /// A generator for the machine `machine_id`, which counts time from
    /// `epoch`, in milliseconds since the Unix epoch. A machine id that does
    /// not fit the layout is refused.
    pub fn with_epoch(machine_id: u64, epoch: i64) -> (made: Result<Self, SnowflakeError>)
        ensures
            machine_id <= S::layout().machine_id_mask() ==> (made matches Ok(generator)
                && generator.spec_machine_id() == machine_id && generator.spec_epoch() == epoch),
            machine_id > S::layout().machine_id_mask() ==> (made matches Err(
                SnowflakeError::InvalidMachineId(refused, max),
            ) && refused == machine_id && max == S::layout().machine_id_mask()),
    {
        match check_machine_id::<S>(machine_id) {
            Err(error) => Err(error),
            Ok(_) => Ok(
                SnowflakeGenerator {
                    machine_id,
                    state: new_lock(GeneratorState::new()),
                    epoch,
                    _marker: PhantomData,
                },
            ),
        }
    }

    /// The epoch of this generator.
    pub fn epoch(&self) -> (epoch: i64)
        ensures
            epoch == self.spec_epoch(),
    {
        self.epoch
    }

    /// A generator for the machine `machine_id`, which counts time from the
    /// default epoch.
    pub fn new(machine_id: u64) -> (made: Result<Self, SnowflakeError>)
        ensures
            machine_id <= S::layout().machine_id_mask() ==> (made matches Ok(generator)
                && generator.spec_machine_id() == machine_id && generator.spec_epoch()
                == SNOWFLAKE_ID_EPOCH),
            machine_id > S::layout().machine_id_mask() ==> (made matches Err(
                SnowflakeError::InvalidMachineId(refused, max),
            ) && refused == machine_id && max == S::layout().machine_id_mask()),
    {
        Self::with_epoch(machine_id, SNOWFLAKE_ID_EPOCH)
    }

    /// One step at the reading `now` of the clock: takes the lock, makes the
    /// step on the state behind it with [`step_held`], and gives the lock
    /// back. It fails with `GeneratorPoisoned` where the lock is poisoned;
    /// else the outcome is that of a step at `now` from the state that was
    /// behind the lock.
    pub fn try_next_id_at(&self, now: i64) -> (outcome: Result<
        SnowflakeOperation<S>,
        SnowflakeError,
    >)
        ensures
            outcome matches Err(SnowflakeError::GeneratorPoisoned) || step_may_yield_at::<S>(
                now,
                self.spec_machine_id(),
                self.spec_epoch(),
                outcome,
            ),
            outcome matches Ok(SnowflakeOperation::Ready(id)) ==> is_from_machine(
                id,
                self.spec_machine_id(),
            ) && S::layout().timestamp_of(id.raw()) == now - self.spec_epoch(),
    {
        proof {
            use_type_invariant(self);
        }
        match lock_state(&self.state) {
            None => Err(SnowflakeError::GeneratorPoisoned),
            Some(mut guard) => {
                let ghost before = held(guard);
                let outcome = step_held::<S>(&mut guard, now, self.machine_id, self.epoch);
                proof {
                    assert(before.decision(S::layout(), now, self.epoch).yields(
                        self.machine_id,
                        outcome,
                    ));
                    if let Ok(SnowflakeOperation::Ready(id)) = outcome {
                        lemma_issued_fields::<S>(before, now, self.epoch, self.machine_id, id);
                    }
                }
                outcome
            },
        }
    }

    /// One step at the present reading of the clock.
    pub fn try_next_id(&self) -> (outcome: Result<SnowflakeOperation<S>, SnowflakeError>)
        ensures
            outcome matches Err(SnowflakeError::GeneratorPoisoned) || step_may_yield::<S>(
                self.spec_machine_id(),
                self.spec_epoch(),
                outcome,
            ),
            outcome matches Ok(SnowflakeOperation::Ready(id)) ==> is_from_machine(
                id,
                self.spec_machine_id(),
            ),
    {
        let now = current_timestamp();
        let outcome = self.try_next_id_at(now);
        proof {
            if !(outcome matches Err(SnowflakeError::GeneratorPoisoned)) {
                let state = choose|state: GeneratorState|
                    (#[trigger] state.decision(S::layout(), now, self.spec_epoch())).yields(
                        self.spec_machine_id(),
                        outcome,
                    );
                assert(state.decision(S::layout(), now, self.spec_epoch()).yields(
                    self.spec_machine_id(),
                    outcome,
                ));
            }
        }
        outcome
    }

    /// The next identifier. After each step, [`after_step`] says what the
    /// call does: an identifier ends it, and so does a failure of the step,
    /// which is handed on as it is and never tried again; where the step
    /// says to wait, `on_pending` is called with the suggested wait and the
    /// step is made again. The call gives up, with `RetriesExhausted`, after
    /// `RETRY_LIMIT` waits.
    pub fn next_id(&self, on_pending: impl FnMut(Duration)) -> (outcome: Result<S, SnowflakeError>)
        requires
            forall|wait: Duration| call_requires(on_pending, (wait,)),
        ensures
            match outcome {
                Ok(id) => {
                    &&& is_from_machine(id, self.spec_machine_id())
                    &&& step_may_yield::<S>(
                        self.spec_machine_id(),
                        self.spec_epoch(),
                        Ok(SnowflakeOperation::Ready(id)),
                    )
                },
                Err(error) => {
                    ||| error is GeneratorPoisoned
                    ||| error is RetriesExhausted
                    ||| step_may_yield::<S>(
                        self.spec_machine_id(),
                        self.spec_epoch(),
                        Err(error),
                    )
                },
            },
            outcome matches Err(error) ==> ends_a_call(error),
    {
        self.next_id_within(RETRY_LIMIT, on_pending)
    }

    /// As [`SnowflakeGenerator::next_id`], but the call gives up after
    /// `retries` waits.
    pub fn next_id_within(&self, retries: u64, mut on_pending: impl FnMut(Duration)) -> (outcome:
        Result<S, SnowflakeError>)
        requires
            forall|wait: Duration| call_requires(on_pending, (wait,)),
        ensures
            match outcome {
                Ok(id) => {
                    &&& is_from_machine(id, self.spec_machine_id())
                    &&& step_may_yield::<S>(
                        self.spec_machine_id(),
                        self.spec_epoch(),
                        Ok(SnowflakeOperation::Ready(id)),
                    )
                },
                Err(error) => {
                    ||| error is GeneratorPoisoned
                    ||| error is RetriesExhausted
                    ||| step_may_yield::<S>(
                        self.spec_machine_id(),
                        self.spec_epoch(),
                        Err(error),
                    )
                },
            },
            outcome matches Err(error) ==> ends_a_call(error),
    {
        let mut left: u64 = retries;
        loop
            invariant
                forall|wait: Duration| call_requires(on_pending, (wait,)),
            decreases left,
        {
            let outcome = self.try_next_id();
            match after_step(outcome, left) {
                Turn::Done(result) => {
                    return result;
                },
                Turn::Wait { wait, left: rest } => {
                    left = rest;
                    on_pending(wait);
                },
            }
        }
    }

    /// As many identifiers as `count`, made under one taking of the lock by
    /// [`batch_held`]; where the lock is poisoned, the batch fails with
    /// `GeneratorPoisoned` and no identifier. Each step is a [`batch_step`]
    /// at the present reading of the clock:
    /// an identifier is put at the end of the batch; where the step says to
    /// wait, `on_pending` is called with the suggested wait while the lock
    /// is held, and the step is made again; the wait for one identifier
    /// gives up after `RETRY_LIMIT` waits. A failure ends the batch: it is
    /// handed back as it is, with all the identifiers issued before it.
    ///
    /// The identifiers of a batch are a run: each but the first follows the
    /// one before it, their raw values increase strictly, and each is valid
    /// and carries the machine id of this generator.
    ///
    /// `on_pending` must not call into this generator: the lock is held
    /// while it runs, and a thread that takes a lock that it holds does not
    /// come back from the call.
    pub fn next_id_bulk(&self, count: usize, on_pending: impl FnMut(Duration)) -> (outcome: Result<
        Vec<S>,
        BulkFailure<S>,
    >)
        requires
            forall|wait: Duration| call_requires(on_pending, (wait,)),
        ensures
            is_batch(self.spec_machine_id(), count, outcome),
    {
        self.next_id_bulk_within(count, RETRY_LIMIT, on_pending)
    }

    /// As [`SnowflakeGenerator::next_id_bulk`], but the wait for one
    /// identifier gives up after `retries` waits.
    pub fn next_id_bulk_within(
        &self,
        count: usize,
        retries: u64,
        on_pending: impl FnMut(Duration),
    ) -> (outcome: Result<Vec<S>, BulkFailure<S>>)
        requires
            forall|wait: Duration| call_requires(on_pending, (wait,)),
        ensures
            is_batch(self.spec_machine_id(), count, outcome),
    {
        proof {
            use_type_invariant(self);
        }
        match lock_state(&self.state) {
            None => Err(end_batch(Vec::new(), SnowflakeError::GeneratorPoisoned)),
            Some(mut guard) => batch_held::<S>(
                &mut guard,
                count,
                retries,
                self.machine_id,
                self.epoch,
                on_pending,
            ),
        }
    }

    /// The machine id of this generator, which fits the layout.
    pub fn machine_id(&self) -> (machine_id: u64)
        ensures
            machine_id == self.spec_machine_id(),
            machine_id <= S::layout().machine_id_mask(),
    {
        proof {
            use_type_invariant(self);
        }
        self.machine_id
    }
}

} // verus!
