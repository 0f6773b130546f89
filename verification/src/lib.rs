//! Snowflake-style identifiers: 64-bit values made of a timestamp offset, a
//! machine id and a per-millisecond sequence, and the generator that issues
//! them in strictly increasing order.

use vstd::prelude::*;

pub mod decimal;
pub mod defs;
pub mod error;
pub mod generator;
pub mod id;
pub mod snowflake;
pub mod step;
pub mod transport;

pub use defs::CLOCK_BACKWARDS_TOLERANCE_MS;
pub use defs::MACHINE_ID_BITS;
pub use defs::MAX_MACHINE_ID;
pub use defs::MAX_SEQUENCE;
pub use defs::MAX_TIMESTAMP_MS;
pub use defs::RETRY_LIMIT;
pub use defs::SEQUENCE_BITS;
pub use defs::SEQUENCE_EXHAUSTED_WAIT_MS;
pub use defs::SNOWFLAKE_ID_EPOCH;
pub use defs::TIMESTAMP_BITS;
pub use error::SnowflakeError;
pub use generator::batch_held;
pub use generator::batch_step;
pub use generator::check_machine_id;
pub use generator::end_batch;
pub use generator::step_held;
pub use generator::BulkFailure;
pub use id::SnowflakeId;
pub use snowflake::BitLayout;
pub use snowflake::Snowflake;
pub use step::after_batch_step;
pub use step::after_step;
pub use step::step;
pub use step::BatchTurn;
pub use step::Decision;
pub use step::GeneratorState;
pub use step::SnowflakeOperation;
pub use step::Turn;
pub use transport::DecodeError;
pub use transport::Encoded;

verus! {

/// The generator of identifiers of the default layout.
pub type SnowflakeGenerator = generator::SnowflakeGenerator<SnowflakeId>;

} // verus!
