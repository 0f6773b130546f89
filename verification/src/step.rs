//! One step of the generator: what it decides for a reading of the clock,
//! and what it does to the state.

use crate::defs::CLOCK_BACKWARDS_TOLERANCE_MS;
use crate::defs::SEQUENCE_EXHAUSTED_WAIT_MS;
use crate::error::SnowflakeError;
use crate::snowflake::low_mask;
use crate::snowflake::BitLayout;
use crate::snowflake::Snowflake;
use std::time::Duration;
use vstd::arithmetic::div_mod::lemma_mod_multiples_basic;
use vstd::arithmetic::div_mod::lemma_mod_pos_bound;
use vstd::arithmetic::div_mod::lemma_mod_self_0;
use vstd::arithmetic::div_mod::lemma_small_mod;
use vstd::arithmetic::power2::lemma2_to64;
use vstd::arithmetic::power2::lemma_pow2_adds;
use vstd::arithmetic::power2::lemma_pow2_pos;
use vstd::arithmetic::power2::pow2;
use vstd::bits::lemma_u64_low_bits_mask_is_mod;
use vstd::bits::lemma_u64_pow2_no_overflow;
use vstd::bits::lemma_u64_shl_is_mul;
use vstd::bits::low_bits_mask;
use vstd::prelude::*;

verus! {

/// The `Duration` of a number of milliseconds.
pub uninterp spec fn duration_of_millis(millis: u64) -> Duration;

/// `Duration::from_millis` of the standard library makes the duration of the
/// given number of whole milliseconds; the same number gives the same
/// duration.
pub assume_specification[ Duration::from_millis ](millis: u64) -> (wait: Duration)
    ensures
        wait == duration_of_millis(millis),
;

/// What a caller gets from one step that did not fail.
pub enum SnowflakeOperation<S> {
    /// The next identifier.
    Ready(S),
    /// No identifier yet: wait about this long and ask again.
    Pending(Duration),
}

/// What the generator remembers between two steps.
#[derive(Debug, Clone, Copy, PartialEq, Eq, Structural)]
pub struct GeneratorState {
    /// The reading of the clock, in milliseconds, that the last identifier
    /// was made at.
    pub last_timestamp: i64,
    /// The sequence number of the last identifier.
    pub sequence: u64,
}

/// What one step decides.
pub enum Decision {
    /// An identifier is issued, with this timestamp offset and sequence.
    Issue { timestamp_offset: u64, sequence: u64 },
    /// The caller waits this many milliseconds and asks again.
    Wait { millis: u64 },
    /// The clock went back by more than the tolerance.
    ClockMovedBackwards,
    /// The time since the epoch does not fit the timestamp field.
    TimestampOverflow,
}

/// The sequence number after `sequence`, which starts again at zero after
/// the largest one.
pub open spec fn next_sequence(layout: BitLayout, sequence: u64) -> u64 {
    ((sequence + 1) % (layout.sequence_mask() + 1)) as u64
}

/// Whether `(time_a, sequence_a)` comes before `(time_b, sequence_b)`.
pub open spec fn precedes(time_a: i64, sequence_a: u64, time_b: i64, sequence_b: u64) -> bool {
    time_a < time_b || (time_a == time_b && sequence_a < sequence_b)
}

impl GeneratorState {
    /// The sequence number fits its field.
    pub open spec fn well_formed(self, layout: BitLayout) -> bool {
        self.sequence <= layout.sequence_mask()
    }

    /// The state after one step at the reading `now`. A step that makes the
    /// caller wait leaves the state as it is.
    pub open spec fn advanced(self, layout: BitLayout, now: i64) -> GeneratorState {
        if now < self.last_timestamp {
            self
        } else if now == self.last_timestamp {
            if next_sequence(layout, self.sequence) == 0 {
                self
            } else {
                GeneratorState {
                    last_timestamp: now,
                    sequence: next_sequence(layout, self.sequence),
                }
            }
        } else {
            GeneratorState { last_timestamp: now, sequence: 0 }
        }
    }

    /// What one step at the reading `now` decides.
    pub open spec fn decision(self, layout: BitLayout, now: i64, epoch: i64) -> Decision {
        if now < self.last_timestamp {
            if self.last_timestamp - now <= CLOCK_BACKWARDS_TOLERANCE_MS {
                Decision::Wait { millis: (self.last_timestamp - now) as u64 }
            } else {
                Decision::ClockMovedBackwards
            }
        } else if now == self.last_timestamp && next_sequence(layout, self.sequence) == 0 {
            Decision::Wait { millis: SEQUENCE_EXHAUSTED_WAIT_MS }
        } else if now - epoch < 0 || now - epoch > layout.timestamp_mask() {
            Decision::TimestampOverflow
        } else {
            Decision::Issue {
                timestamp_offset: (now - epoch) as u64,
                sequence: self.advanced(layout, now).sequence,
            }
        }
    }

    /// The state of a generator that has issued nothing yet.
    pub fn new() -> (state: GeneratorState)
        ensures
            state == (GeneratorState { last_timestamp: 0, sequence: 0 }),
    {
        GeneratorState { last_timestamp: 0, sequence: 0 }
    }
}

impl Decision {
    /// Whether `outcome` is what a generator of identifiers of type `S`, on
    /// the machine `machine_id`, hands out for this decision.
    pub open spec fn yields<S: Snowflake>(
        self,
        machine_id: u64,
        outcome: Result<SnowflakeOperation<S>, SnowflakeError>,
    ) -> bool {
        match self {
            Decision::Issue { timestamp_offset, sequence } => outcome matches Ok(
                SnowflakeOperation::Ready(id),
            ) && id.raw() == S::layout().pack(timestamp_offset, machine_id, sequence),
            Decision::Wait { millis } => outcome matches Ok(SnowflakeOperation::Pending(wait))
                && wait == duration_of_millis(millis),
            Decision::ClockMovedBackwards => outcome matches Err(
                SnowflakeError::ClockMovedBackwards,
            ),
            Decision::TimestampOverflow => outcome matches Err(SnowflakeError::TimestampOverflow),
        }
    }
}

/// The mask of `bits` bits is one less than the power of two, and masking
/// with it takes the remainder by that power.
proof fn lemma_masking_is_remainder(bits: u64, value: u64)
    requires
        bits <= 63,
    ensures
        low_mask(bits) + 1 == pow2(bits as nat),
        value & low_mask(bits) == (value as int) % (low_mask(bits) + 1),
        (pow2(64) as int) % (low_mask(bits) + 1) == 0,
{
    lemma_u64_pow2_no_overflow(bits as nat);
    lemma_pow2_pos(bits as nat);
    lemma_u64_shl_is_mul(1, bits);
    assert(low_mask(bits) == low_bits_mask(bits as nat));
    lemma_u64_low_bits_mask_is_mod(value, bits as nat);
    lemma_pow2_adds(bits as nat, (64 - bits) as nat);
    lemma_mod_multiples_basic(pow2((64 - bits) as nat) as int, pow2(bits as nat) as int);
    assert(pow2(bits as nat) * pow2((64 - bits) as nat) == pow2((64 - bits) as nat) * pow2(
        bits as nat,
    )) by (nonlinear_arith);
}

/// The sequence number after `sequence`: one more, wrapping, and masked.
fn following_sequence(sequence: u64, sequence_bits: u64, sequence_mask: u64) -> (next: u64)
    requires
        sequence_bits <= 63,
        sequence_mask == low_mask(sequence_bits),
    ensures
        next == ((sequence + 1) % (sequence_mask + 1)) as u64,
        next <= sequence_mask,
{
    let next = sequence.wrapping_add(1) & sequence_mask;
    proof {
        lemma_masking_is_remainder(sequence_bits, sequence.wrapping_add(1));
        lemma2_to64();
        if sequence == u64::MAX {
            assert(sequence.wrapping_add(1) == 0);
            assert(sequence + 1 == pow2(64));
            assert(0u64 & sequence_mask == 0) by (bit_vector);
        } else {
            assert(sequence.wrapping_add(1) == sequence + 1);
        }
    }
    next
}

/// Masking a value that fits the mask changes nothing.
proof fn lemma_masked_offset(bits: u64, offset: u64)
    by (bit_vector)
    requires
        bits <= 63,
        offset <= low_mask(bits),
    ensures
        offset & low_mask(bits) == offset,
{
}

/// One step of the generator at the reading `now` of the clock, for the
/// machine `machine_id` and the given epoch.
///
/// Where the clock is behind the last reading by no more than the tolerance,
/// or the sequence numbers of this millisecond are used up, the caller is
/// told to wait and the state stays as it is. Where the clock is further
/// behind, or the time since the epoch does not fit the timestamp field, the
/// step fails. Else it issues the identifier of the time since the epoch,
/// the machine id and the next sequence number.
pub fn step<S: Snowflake>(
    state: &mut GeneratorState,
    now: i64,
    machine_id: u64,
    epoch: i64,
) -> (outcome: Result<SnowflakeOperation<S>, SnowflakeError>)
    requires
        machine_id <= S::layout().machine_id_mask(),
    ensures
        *final(state) == old(state).advanced(S::layout(), now),
        old(state).decision(S::layout(), now, epoch).yields(machine_id, outcome),
{
    proof {
        S::lemma_layout_fits();
        S::layout().lemma_masks();
    }
    if now < state.last_timestamp {
        let drift: i128 = state.last_timestamp as i128 - now as i128;
        if drift <= CLOCK_BACKWARDS_TOLERANCE_MS as i128 {
            return Ok(SnowflakeOperation::Pending(Duration::from_millis(drift as u64)));
        } else {
            return Err(SnowflakeError::ClockMovedBackwards);
        }
    }
    if now == state.last_timestamp {
        let next = following_sequence(state.sequence, S::sequence_bits(), S::max_sequence());
        if next == 0 {
            return Ok(
                SnowflakeOperation::Pending(Duration::from_millis(SEQUENCE_EXHAUSTED_WAIT_MS)),
            );
        }
        state.sequence = next;
    } else {
        state.sequence = 0;
    }
    state.last_timestamp = now;

    let timestamp_offset: i128 = now as i128 - epoch as i128;
    if timestamp_offset < 0 || timestamp_offset > S::max_timestamp() as i128 {
        return Err(SnowflakeError::TimestampOverflow);
    }
    let offset: u64 = timestamp_offset as u64;
    let masked_timestamp = offset & S::timestamp_mask();
    proof {
        lemma_masked_offset(S::layout().timestamp_bits, offset);
    }
    Ok(
        SnowflakeOperation::Ready(
            S::from_component_parts(masked_timestamp, machine_id, state.sequence),
        ),
    )
}

/// The state after the first `count` readings of `clock`, one step for each.
pub open spec fn state_after(
    layout: BitLayout,
    start: GeneratorState,
    clock: Seq<i64>,
    count: nat,
) -> GeneratorState
    decreases count,
{
    if count == 0 {
        start
    } else {
        state_after(layout, start, clock, (count - 1) as nat).advanced(layout, clock[count - 1])
    }
}

/// What the step at the reading `clock[index]` decides, after one step for
/// each reading before it.
pub open spec fn decision_at(
    layout: BitLayout,
    start: GeneratorState,
    clock: Seq<i64>,
    epoch: i64,
    index: int,
) -> Decision {
    state_after(layout, start, clock, index as nat).decision(layout, clock[index], epoch)
}

/// The next sequence number fits the sequence field. After a number below
/// the largest it is one more, and after the largest it is zero.
pub proof fn lemma_next_sequence(layout: BitLayout, sequence: u64)
    requires
        layout.fits(),
    ensures
        next_sequence(layout, sequence) <= layout.sequence_mask(),
        sequence < layout.sequence_mask() ==> next_sequence(layout, sequence) == sequence + 1,
        sequence == layout.sequence_mask() ==> next_sequence(layout, sequence) == 0,
{
    let modulus = layout.sequence_mask() + 1;
    layout.lemma_masks();
    lemma_mod_pos_bound(sequence + 1, modulus);
    if sequence < layout.sequence_mask() {
        lemma_small_mod((sequence + 1) as nat, modulus as nat);
    }
    if sequence == layout.sequence_mask() {
        lemma_mod_self_0(modulus);
    }
}

/// A step leaves a state in which the sequence number fits its field as it
/// was, or moves it forward. A step that issues an identifier sets the state
/// to the time and the sequence of that identifier, and these fit the fields
/// of the layout.
pub proof fn lemma_step_moves_forward(
    layout: BitLayout,
    state: GeneratorState,
    now: i64,
    epoch: i64,
)
    requires
        layout.fits(),
    ensures
        ({
            let next = state.advanced(layout, now);
            &&& state.well_formed(layout) ==> next.well_formed(layout) && (next == state
                || precedes(
                state.last_timestamp,
                state.sequence,
                next.last_timestamp,
                next.sequence,
            ))
            &&& state.decision(layout, now, epoch) matches Decision::Issue {
                timestamp_offset,
                sequence,
            } ==> {
                &&& next == (GeneratorState { last_timestamp: now, sequence })
                &&& next.well_formed(layout)
                &&& timestamp_offset == now - epoch
                &&& timestamp_offset <= layout.timestamp_mask()
                &&& state.well_formed(layout) ==> next != state
            }
        }),
{
    lemma_next_sequence(layout, state.sequence);
    layout.lemma_masks();
}

/// Steps never move a state back: after more readings of the clock, a state
/// in which the sequence number fits its field is as it was or further on.
pub proof fn lemma_steps_move_forward(
    layout: BitLayout,
    start: GeneratorState,
    clock: Seq<i64>,
    epoch: i64,
    from: nat,
    to: nat,
)
    requires
        layout.fits(),
        from <= to <= clock.len(),
        state_after(layout, start, clock, from).well_formed(layout),
    ensures
        ({
            let earlier = state_after(layout, start, clock, from);
            let later = state_after(layout, start, clock, to);
            &&& later.well_formed(layout)
            &&& later == earlier || precedes(
                earlier.last_timestamp,
                earlier.sequence,
                later.last_timestamp,
                later.sequence,
            )
        }),
    decreases to,
{
    if from < to {
        lemma_steps_move_forward(layout, start, clock, epoch, from, (to - 1) as nat);
        lemma_step_moves_forward(
            layout,
            state_after(layout, start, clock, (to - 1) as nat),
            clock[to - 1],
            epoch,
        );
    }
}

/// When the sequence numbers of a millisecond are used up, a step in that
/// millisecond makes the caller wait and leaves the state as it is; the
/// first step in a later millisecond, where the time since the epoch fits
/// the timestamp field, issues an identifier with sequence zero and the
/// later timestamp.
pub proof fn lemma_sequence_rollover(
    layout: BitLayout,
    state: GeneratorState,
    later: i64,
    epoch: i64,
)
    requires
        layout.fits(),
        state.sequence == layout.sequence_mask(),
        state.last_timestamp < later,
        0 <= later - epoch <= layout.timestamp_mask(),
    ensures
        state.decision(layout, state.last_timestamp, epoch) == (Decision::Wait {
            millis: SEQUENCE_EXHAUSTED_WAIT_MS,
        }),
        state.advanced(layout, state.last_timestamp) == state,
        state.decision(layout, later, epoch) == (Decision::Issue {
            timestamp_offset: (later - epoch) as u64,
            sequence: 0,
        }),
        state.advanced(layout, later) == (GeneratorState { last_timestamp: later, sequence: 0 }),
{
    lemma_next_sequence(layout, state.sequence);
}

/// A clock that is behind the last reading by no more than the tolerance
/// makes the caller wait for as long as the clock is behind; one that is
/// further behind is a failure. Neither changes the state.
pub proof fn lemma_clock_regression(
    layout: BitLayout,
    state: GeneratorState,
    now: i64,
    epoch: i64,
)
    requires
        now < state.last_timestamp,
    ensures
        state.last_timestamp - now <= CLOCK_BACKWARDS_TOLERANCE_MS ==> state.decision(
            layout,
            now,
            epoch,
        ) == (Decision::Wait { millis: (state.last_timestamp - now) as u64 }),
        state.last_timestamp - now > CLOCK_BACKWARDS_TOLERANCE_MS ==> state.decision(
            layout,
            now,
            epoch,
        ) == Decision::ClockMovedBackwards,
        state.advanced(layout, now) == state,
{
}

/// Identifiers come out in increasing order: of two identifiers that one
/// generator issues, for whatever the clock reads and from whatever state it
/// starts, the one issued later has the greater raw value.
pub proof fn lemma_issued_in_order<S: Snowflake>(
    start: GeneratorState,
    clock: Seq<i64>,
    epoch: i64,
    machine_id: u64,
    earlier: int,
    later: int,
    first: S,
    second: S,
)
    requires
        machine_id <= S::layout().machine_id_mask(),
        0 <= earlier < later < clock.len(),
        decision_at(S::layout(), start, clock, epoch, earlier).yields::<S>(
            machine_id,
            Ok(SnowflakeOperation::Ready(first)),
        ),
        decision_at(S::layout(), start, clock, epoch, later).yields::<S>(
            machine_id,
            Ok(SnowflakeOperation::Ready(second)),
        ),
    ensures
        first.raw() < second.raw(),
{
    let layout = S::layout();
    S::lemma_layout_fits();
    let before_first = state_after(layout, start, clock, earlier as nat);
    let after_first = state_after(layout, start, clock, (earlier + 1) as nat);
    let before_second = state_after(layout, start, clock, later as nat);
    let after_second = state_after(layout, start, clock, (later + 1) as nat);
    lemma_step_moves_forward(layout, before_first, clock[earlier], epoch);
    lemma_steps_move_forward(layout, start, clock, epoch, (earlier + 1) as nat, later as nat);
    lemma_step_moves_forward(layout, before_second, clock[later], epoch);
    assert(precedes(
        after_first.last_timestamp,
        after_first.sequence,
        after_second.last_timestamp,
        after_second.sequence,
    ));
    layout.lemma_pack_is_ordered(
        machine_id,
        (after_first.last_timestamp - epoch) as u64,
        after_first.sequence,
        (after_second.last_timestamp - epoch) as u64,
        after_second.sequence,
    );
}

/// No identifier comes out twice: two identifiers that one generator issues
/// at different steps are different.
pub proof fn lemma_issued_are_distinct<S: Snowflake>(
    start: GeneratorState,
    clock: Seq<i64>,
    epoch: i64,
    machine_id: u64,
    one: int,
    other: int,
    first: S,
    second: S,
)
    requires
        machine_id <= S::layout().machine_id_mask(),
        0 <= one < clock.len(),
        0 <= other < clock.len(),
        one != other,
        decision_at(S::layout(), start, clock, epoch, one).yields::<S>(
            machine_id,
            Ok(SnowflakeOperation::Ready(first)),
        ),
        decision_at(S::layout(), start, clock, epoch, other).yields::<S>(
            machine_id,
            Ok(SnowflakeOperation::Ready(second)),
        ),
    ensures
        first.raw() != second.raw(),
        first != second,
{
    if one < other {
        lemma_issued_in_order(start, clock, epoch, machine_id, one, other, first, second);
    } else {
        lemma_issued_in_order(start, clock, epoch, machine_id, other, one, second, first);
    }
}

/// An identifier that a step issues carries the time since the epoch, the
/// machine id and the sequence number of the state after the step, and it is
/// valid.
pub proof fn lemma_issued_fields<S: Snowflake>(
    state: GeneratorState,
    now: i64,
    epoch: i64,
    machine_id: u64,
    id: S,
)
    requires
        machine_id <= S::layout().machine_id_mask(),
        state.decision(S::layout(), now, epoch).yields::<S>(
            machine_id,
            Ok(SnowflakeOperation::Ready(id)),
        ),
    ensures
        S::layout().timestamp_of(id.raw()) == now - epoch,
        S::layout().machine_id_of(id.raw()) == machine_id,
        S::layout().sequence_of(id.raw()) == state.advanced(S::layout(), now).sequence,
        S::layout().is_valid(id.raw()),
        id.raw() <= i64::MAX,
{
    let layout = S::layout();
    S::lemma_layout_fits();
    lemma_step_moves_forward(layout, state, now, epoch);
    let next = state.advanced(layout, now);
    layout.lemma_round_trip((now - epoch) as u64, machine_id, next.sequence);
    layout.lemma_pack_is_non_negative((now - epoch) as u64, machine_id, next.sequence);
}

/// Whether some step of a generator on the machine `machine_id`, from some
/// state and at some reading of the clock, hands out `outcome`.
pub open spec fn step_may_yield<S: Snowflake>(
    machine_id: u64,
    epoch: i64,
    outcome: Result<SnowflakeOperation<S>, SnowflakeError>,
) -> bool {
    exists|state: GeneratorState, now: i64|
        (#[trigger] state.decision(S::layout(), now, epoch)).yields(machine_id, outcome)
}

/// Whether a step at the reading `now`, from some state, hands out
/// `outcome`.
pub open spec fn step_may_yield_at<S: Snowflake>(
    now: i64,
    machine_id: u64,
    epoch: i64,
    outcome: Result<SnowflakeOperation<S>, SnowflakeError>,
) -> bool {
    exists|state: GeneratorState|
        (#[trigger] state.decision(S::layout(), now, epoch)).yields(machine_id, outcome)
}

/// What a call for one identifier does after a step.
pub enum Turn<S> {
    /// The call ends, with the identifier or with the failure.
    Done(Result<S, SnowflakeError>),
    /// The call waits and makes the step again, with this many waits left.
    Wait { wait: Duration, left: u64 },
}

/// What a call for one identifier does with the outcome of a step, when it
/// has `left` waits left: an identifier ends the call, and so does a
/// failure, which is handed on as it is; on a wait the call waits and goes
/// on with one wait fewer, or gives up where none is left.
pub fn after_step<S: Snowflake>(
    outcome: Result<SnowflakeOperation<S>, SnowflakeError>,
    left: u64,
) -> (turn: Turn<S>)
    ensures
        outcome matches Ok(SnowflakeOperation::Ready(id)) ==> turn == Turn::<S>::Done(Ok(id)),
        outcome matches Ok(SnowflakeOperation::Pending(wait)) ==> (if left == 0 {
            turn == Turn::<S>::Done(Err(SnowflakeError::RetriesExhausted))
        } else {
            turn == (Turn::<S>::Wait { wait, left: (left - 1) as u64 })
        }),
        outcome matches Err(error) ==> turn == Turn::<S>::Done(Err(error)),
{
    match outcome {
        Ok(SnowflakeOperation::Ready(id)) => Turn::Done(Ok(id)),
        Ok(SnowflakeOperation::Pending(wait)) => {
            if left == 0 {
                Turn::Done(Err(SnowflakeError::RetriesExhausted))
            } else {
                Turn::Wait { wait, left: left - 1 }
            }
        },
        Err(error) => Turn::Done(Err(error)),
    }
}

/// What a call for a batch does after a step.
pub enum BatchTurn {
    /// The step issued an identifier, which is now the last of the batch.
    Issued,
    /// The call waits and makes the step again, with this many waits left.
    Wait { wait: Duration, left: u64 },
    /// The batch ends with this failure.
    Stop(SnowflakeError),
}

/// What a call for a batch does with the outcome of a step, when it has
/// `left` waits left for the identifier at hand: an identifier is put at the
/// end of `ids`; a failure ends the batch and is handed on as it is; on a
/// wait the call waits and goes on with one wait fewer, or gives up where
/// none is left. Only an identifier changes `ids`.
pub fn after_batch_step<S: Snowflake>(
    ids: &mut Vec<S>,
    outcome: Result<SnowflakeOperation<S>, SnowflakeError>,
    left: u64,
) -> (turn: BatchTurn)
    ensures
        outcome matches Ok(SnowflakeOperation::Ready(id)) ==> final(ids)@ == old(ids)@.push(id)
            && turn == BatchTurn::Issued,
        outcome matches Ok(SnowflakeOperation::Pending(wait)) ==> final(ids)@ == old(ids)@ && (
        if left == 0 {
            turn == BatchTurn::Stop(SnowflakeError::RetriesExhausted)
        } else {
            turn == (BatchTurn::Wait { wait, left: (left - 1) as u64 })
        }),
        outcome matches Err(error) ==> final(ids)@ == old(ids)@ && turn == BatchTurn::Stop(error),
{
    match outcome {
        Ok(SnowflakeOperation::Ready(id)) => {
            ids.push(id);
            BatchTurn::Issued
        },
        Ok(SnowflakeOperation::Pending(wait)) => {
            if left == 0 {
                BatchTurn::Stop(SnowflakeError::RetriesExhausted)
            } else {
                BatchTurn::Wait { wait, left: left - 1 }
            }
        },
        Err(error) => BatchTurn::Stop(error),
    }
}

} // verus!
