use snowflake_id::after_batch_step;
use snowflake_id::after_step;
use snowflake_id::step;
use snowflake_id::BatchTurn;
use snowflake_id::GeneratorState;
use snowflake_id::Snowflake;
use snowflake_id::SnowflakeError;
use snowflake_id::SnowflakeId;
use snowflake_id::SnowflakeOperation;
use snowflake_id::Turn;
use snowflake_id::CLOCK_BACKWARDS_TOLERANCE_MS;
use snowflake_id::MAX_SEQUENCE;
use snowflake_id::MAX_TIMESTAMP_MS;
use snowflake_id::SEQUENCE_EXHAUSTED_WAIT_MS;
use std::time::Duration;

const EPOCH: i64 = 1_000_000;

fn ready(outcome: Result<SnowflakeOperation<SnowflakeId>, SnowflakeError>) -> SnowflakeId {
    match outcome {
        Ok(SnowflakeOperation::Ready(id)) => id,
        Ok(SnowflakeOperation::Pending(wait)) => panic!("pending for {:?}", wait),
        Err(error) => panic!("failed: {:?}", error),
    }
}

fn pending(outcome: Result<SnowflakeOperation<SnowflakeId>, SnowflakeError>) -> Duration {
    match outcome {
        Ok(SnowflakeOperation::Pending(wait)) => wait,
        Ok(SnowflakeOperation::Ready(id)) => panic!("ready with {:?}", id),
        Err(error) => panic!("failed: {:?}", error),
    }
}

#[test]
fn a_new_state_is_zero() {
    let state = GeneratorState::new();
    assert_eq!(state.last_timestamp, 0);
    assert_eq!(state.sequence, 0);
}

#[test]
fn a_new_millisecond_starts_at_sequence_zero() {
    let mut state = GeneratorState { last_timestamp: EPOCH + 4, sequence: 17 };
    let id = ready(step::<SnowflakeId>(&mut state, EPOCH + 5, 3, EPOCH));
    assert_eq!(id.id(), (5 << 22) | (3 << 12));
    assert_eq!(id.timestamp(), 5);
    assert_eq!(id.machine_id(), 3);
    assert_eq!(id.sequence(), 0);
    assert_eq!(state, GeneratorState { last_timestamp: EPOCH + 5, sequence: 0 });
}

#[test]
fn the_same_millisecond_takes_the_next_sequence() {
    let mut state = GeneratorState { last_timestamp: EPOCH + 5, sequence: 17 };
    let id = ready(step::<SnowflakeId>(&mut state, EPOCH + 5, 3, EPOCH));
    assert_eq!(id.id(), (5 << 22) | (3 << 12) | 18);
    assert_eq!(state, GeneratorState { last_timestamp: EPOCH + 5, sequence: 18 });
}

#[test]
fn sequence_rollover() {
    let mut state = GeneratorState::new();
    let frozen = EPOCH + 77;
    let mut last = None;
    for expected in 0..=MAX_SEQUENCE {
        let id = ready(step::<SnowflakeId>(&mut state, frozen, 1, EPOCH));
        assert_eq!(id.sequence(), expected);
        assert_eq!(id.timestamp(), 77);
        if let Some(before) = last {
            assert!(before < id);
        }
        last = Some(id);
    }
    let before = state;
    // One more in the same millisecond: the sequence numbers are used up.
    let wait = pending(step::<SnowflakeId>(&mut state, frozen, 1, EPOCH));
    assert_eq!(wait, Duration::from_millis(SEQUENCE_EXHAUSTED_WAIT_MS));
    assert_eq!(wait, Duration::from_millis(1));
    assert_eq!(wait.as_millis(), 1);
    assert_eq!(wait.subsec_nanos(), 1_000_000);
    assert_eq!(state, before);
    // And again, as long as the clock stands still.
    pending(step::<SnowflakeId>(&mut state, frozen, 1, EPOCH));
    assert_eq!(state, before);
    // The clock moves on: sequence zero, later timestamp.
    let id = ready(step::<SnowflakeId>(&mut state, frozen + 1, 1, EPOCH));
    assert_eq!(id.sequence(), 0);
    assert_eq!(id.timestamp(), 78);
    assert!(last.unwrap() < id);
}

#[test]
fn clock_regression_within_tolerance_waits() {
    let start = GeneratorState { last_timestamp: EPOCH + 500, sequence: 3 };
    let mut state = start;
    let wait = pending(step::<SnowflakeId>(
        &mut state,
        EPOCH + 500 - CLOCK_BACKWARDS_TOLERANCE_MS,
        1,
        EPOCH,
    ));
    assert_eq!(wait, Duration::from_millis(CLOCK_BACKWARDS_TOLERANCE_MS as u64));
    assert_eq!(state, start);
    let wait = pending(step::<SnowflakeId>(&mut state, EPOCH + 499, 1, EPOCH));
    assert_eq!(wait, Duration::from_millis(1));
    assert_eq!(state, start);
    let wait = pending(step::<SnowflakeId>(&mut state, EPOCH + 497, 1, EPOCH));
    assert_eq!(wait, Duration::from_millis(3));
    assert_eq!(wait.as_millis(), 3);
}

#[test]
fn clock_regression_beyond_tolerance_fails() {
    let start = GeneratorState { last_timestamp: EPOCH + 500, sequence: 3 };
    let mut state = start;
    let outcome = step::<SnowflakeId>(
        &mut state,
        EPOCH + 500 - CLOCK_BACKWARDS_TOLERANCE_MS - 1,
        1,
        EPOCH,
    );
    assert!(matches!(outcome, Err(SnowflakeError::ClockMovedBackwards)));
    assert_eq!(state, start);
    let outcome = step::<SnowflakeId>(&mut state, i64::MIN, 1, EPOCH);
    assert!(matches!(outcome, Err(SnowflakeError::ClockMovedBackwards)));
    let mut state = GeneratorState { last_timestamp: i64::MAX, sequence: 0 };
    let outcome = step::<SnowflakeId>(&mut state, i64::MIN, 1, EPOCH);
    assert!(matches!(outcome, Err(SnowflakeError::ClockMovedBackwards)));
}

#[test]
fn time_before_the_epoch_overflows() {
    let mut state = GeneratorState { last_timestamp: -50, sequence: 0 };
    let outcome = step::<SnowflakeId>(&mut state, EPOCH - 1, 1, EPOCH);
    assert!(matches!(outcome, Err(SnowflakeError::TimestampOverflow)));
    // The step has taken the reading all the same.
    assert_eq!(state, GeneratorState { last_timestamp: EPOCH - 1, sequence: 0 });
}

#[test]
fn time_beyond_the_field_overflows() {
    let mut state = GeneratorState::new();
    let id = ready(step::<SnowflakeId>(&mut state, EPOCH + MAX_TIMESTAMP_MS, 1, EPOCH));
    assert_eq!(id.timestamp(), MAX_TIMESTAMP_MS);
    let outcome = step::<SnowflakeId>(&mut state, EPOCH + MAX_TIMESTAMP_MS + 1, 1, EPOCH);
    assert!(matches!(outcome, Err(SnowflakeError::TimestampOverflow)));
    assert_eq!(
        state,
        GeneratorState { last_timestamp: EPOCH + MAX_TIMESTAMP_MS + 1, sequence: 0 }
    );
}

#[test]
fn a_difference_that_does_not_fit_overflows() {
    let mut state = GeneratorState::new();
    let outcome = step::<SnowflakeId>(&mut state, i64::MAX, 1, i64::MIN);
    assert!(matches!(outcome, Err(SnowflakeError::TimestampOverflow)));
    let mut state = GeneratorState { last_timestamp: i64::MIN, sequence: 0 };
    let outcome = step::<SnowflakeId>(&mut state, i64::MIN + 1, 1, i64::MAX);
    assert!(matches!(outcome, Err(SnowflakeError::TimestampOverflow)));
}

#[test]
fn the_offset_at_the_epoch_is_zero() {
    let mut state = GeneratorState { last_timestamp: EPOCH - 1, sequence: 0 };
    let id = ready(step::<SnowflakeId>(&mut state, EPOCH, 1023, EPOCH));
    assert_eq!(id.id(), 1023 << 12);
}

#[test]
fn a_sequence_beyond_the_field_is_masked() {
    let mut state = GeneratorState { last_timestamp: EPOCH + 1, sequence: 5000 };
    let id = ready(step::<SnowflakeId>(&mut state, EPOCH + 1, 1, EPOCH));
    assert_eq!(id.sequence(), 5001 - 4096);
    let mut state = GeneratorState { last_timestamp: EPOCH + 1, sequence: u64::MAX };
    let wait = pending(step::<SnowflakeId>(&mut state, EPOCH + 1, 1, EPOCH));
    assert_eq!(wait, Duration::from_millis(1));
    assert_eq!(state.sequence, u64::MAX);
}

#[test]
fn issued_ids_increase_whatever_the_clock_reads() {
    let clock = [
        EPOCH + 10,
        EPOCH + 10,
        EPOCH + 9,
        EPOCH + 10,
        EPOCH + 12,
        EPOCH + 11,
        EPOCH + 12,
        EPOCH + 12,
        EPOCH + 2,
        EPOCH + 2,
        EPOCH + 13,
        EPOCH - 500,
        EPOCH + 13,
        EPOCH + 40,
    ];
    let mut state = GeneratorState::new();
    let mut issued: Vec<SnowflakeId> = Vec::new();
    let mut waits = 0;
    let mut failures = 0;
    for now in clock {
        match step::<SnowflakeId>(&mut state, now, 9, EPOCH) {
            Ok(SnowflakeOperation::Ready(id)) => issued.push(id),
            Ok(SnowflakeOperation::Pending(_)) => waits += 1,
            Err(_) => failures += 1,
        }
    }
    assert_eq!(issued.len(), 9);
    assert_eq!(waits, 4);
    assert_eq!(failures, 1);
    for i in 1..issued.len() {
        assert!(issued[i - 1].id() < issued[i].id());
        assert!(<SnowflakeId as Snowflake>::id(&issued[i - 1]) < <SnowflakeId as Snowflake>::id(&issued[i]));
    }
    for i in 0..issued.len() {
        for j in 0..issued.len() {
            assert_eq!(i == j, issued[i] == issued[j]);
        }
        assert_eq!(issued[i].machine_id(), 9);
        assert!(<SnowflakeId as Snowflake>::is_valid(&issued[i]));
    }
}

#[test]
fn after_a_step_an_identifier_ends_the_call() {
    let id = SnowflakeId::new(4198401).unwrap();
    for left in [0u64, 1, u64::MAX] {
        match after_step(Ok(SnowflakeOperation::Ready(id)), left) {
            Turn::Done(Ok(made)) => assert_eq!(made, id),
            _ => panic!("an identifier did not end the call"),
        }
    }
}

#[test]
fn after_a_step_a_failure_is_handed_on_as_it_is() {
    for left in [0u64, 5, u64::MAX] {
        let turn = after_step::<SnowflakeId>(Err(SnowflakeError::ClockMovedBackwards), left);
        assert!(matches!(turn, Turn::Done(Err(SnowflakeError::ClockMovedBackwards))));
        let turn = after_step::<SnowflakeId>(Err(SnowflakeError::TimestampOverflow), left);
        assert!(matches!(turn, Turn::Done(Err(SnowflakeError::TimestampOverflow))));
        let turn = after_step::<SnowflakeId>(Err(SnowflakeError::GeneratorPoisoned), left);
        assert!(matches!(turn, Turn::Done(Err(SnowflakeError::GeneratorPoisoned))));
    }
}

#[test]
fn after_a_step_a_wait_takes_one_of_the_waits_left() {
    let wait = Duration::from_millis(7);
    match after_step::<SnowflakeId>(Ok(SnowflakeOperation::Pending(wait)), 3) {
        Turn::Wait { wait: handed, left } => {
            assert_eq!(handed, wait);
            assert_eq!(left, 2);
        }
        Turn::Done(_) => panic!("the call did not wait"),
    }
    match after_step::<SnowflakeId>(Ok(SnowflakeOperation::Pending(wait)), 1) {
        Turn::Wait { left, .. } => assert_eq!(left, 0),
        Turn::Done(_) => panic!("the call did not wait"),
    }
    let turn = after_step::<SnowflakeId>(Ok(SnowflakeOperation::Pending(wait)), 0);
    assert!(matches!(turn, Turn::Done(Err(SnowflakeError::RetriesExhausted))));
}

#[test]
fn in_a_batch_only_an_identifier_changes_the_identifiers() {
    let first = SnowflakeId::new(10).unwrap();
    let second = SnowflakeId::new(11).unwrap();
    let mut ids = vec![first];
    let turn = after_batch_step(&mut ids, Ok(SnowflakeOperation::Ready(second)), 0);
    assert!(matches!(turn, BatchTurn::Issued));
    assert_eq!(ids, vec![first, second]);

    let wait = Duration::from_millis(1);
    match after_batch_step(&mut ids, Ok(SnowflakeOperation::Pending(wait)), 9) {
        BatchTurn::Wait { wait: handed, left } => {
            assert_eq!(handed, wait);
            assert_eq!(left, 8);
        }
        _ => panic!("the batch did not wait"),
    }
    assert_eq!(ids, vec![first, second]);

    let turn = after_batch_step(&mut ids, Ok(SnowflakeOperation::Pending(wait)), 0);
    assert!(matches!(turn, BatchTurn::Stop(SnowflakeError::RetriesExhausted)));
    assert_eq!(ids, vec![first, second]);

    let turn = after_batch_step(&mut ids, Err(SnowflakeError::TimestampOverflow), 4);
    assert!(matches!(turn, BatchTurn::Stop(SnowflakeError::TimestampOverflow)));
    let turn = after_batch_step(&mut ids, Err(SnowflakeError::ClockMovedBackwards), 4);
    assert!(matches!(turn, BatchTurn::Stop(SnowflakeError::ClockMovedBackwards)));
    assert_eq!(ids, vec![first, second]);
}
