//! Constants of the default identifier layout and of the generator.

use vstd::prelude::*;

verus! {

/// Width of the timestamp-offset field of a [`crate::SnowflakeId`].
pub const TIMESTAMP_BITS: u64 = 41;

/// Width of the machine-id field of a [`crate::SnowflakeId`].
pub const MACHINE_ID_BITS: u64 = 10;

/// Width of the sequence field of a [`crate::SnowflakeId`].
pub const SEQUENCE_BITS: u64 = 12;

/// Largest machine id that fits the machine-id field.
pub const MAX_MACHINE_ID: u64 = 1023;

/// Largest sequence number that fits the sequence field.
pub const MAX_SEQUENCE: u64 = 4095;

/// Largest timestamp offset, in milliseconds, that fits the timestamp field.
pub const MAX_TIMESTAMP_MS: i64 = 2199023255551;

/// Default epoch, in milliseconds since the Unix epoch.
pub const SNOWFLAKE_ID_EPOCH: i64 = 1288834974657;

/// Largest backwards movement of the clock, in milliseconds, that is waited
/// out instead of being a failure.
pub const CLOCK_BACKWARDS_TOLERANCE_MS: i64 = 10;

/// Wait, in milliseconds, that is suggested when the sequence numbers of the
/// current millisecond are used up.
pub const SEQUENCE_EXHAUSTED_WAIT_MS: u64 = 1;

/// The number of times that one call waits for the clock before it gives up.
pub const RETRY_LIMIT: u64 = 0xffff_ffff_ffff_ffff;

} // verus!
