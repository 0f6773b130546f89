//! The failures of this library.

use crate::decimal::decimal_string;
use crate::decimal::decimal_text;
use vstd::prelude::*;
use vstd::string::*;

verus! {

#[derive(Debug, Clone)]
pub enum SnowflakeError {
    /// The machine id, and the largest one that the layout admits.
    InvalidMachineId(u64, u64),
    /// The clock went back by more than the tolerance.
    ClockMovedBackwards,
    /// The time since the epoch is negative or does not fit the timestamp
    /// field.
    TimestampOverflow,
    /// The lock of the generator's state was poisoned.
    GeneratorPoisoned,
    /// A value or a text is no identifier.
    InvalidId(String),
    /// The generator was still waiting for the clock after all the retries
    /// that one call makes.
    RetriesExhausted,
}

impl SnowflakeError {
    /// The message of a failure.
    pub open spec fn text(self) -> Seq<char> {
        match self {
            SnowflakeError::InvalidMachineId(id, max) => "Invalid machine ID: "@ + decimal_text(
                id as int,
            ) + ". Must be between 0 and "@ + decimal_text(max as int),
            SnowflakeError::ClockMovedBackwards => "Clock moved backwards. Refusing to generate id"@,
            SnowflakeError::TimestampOverflow => "Timestamp exceeds maximum."@,
            SnowflakeError::GeneratorPoisoned => "ID generator mutex was poisoned by a panicking thread"@,
            SnowflakeError::InvalidId(reason) => "Invalid snowflake ID: "@ + reason@,
            SnowflakeError::RetriesExhausted => "Clock did not advance. Giving up on the id"@,
        }
    }

    /// The message of the failure, for a reader.
    pub fn message(&self) -> (message: String)
        ensures
            message@ == self.text(),
    {
        match self {
            SnowflakeError::InvalidMachineId(id, max) => {
                let mut message = String::from_str("Invalid machine ID: ");
                let id_text = decimal_string(*id as i128);
                message.append(id_text.as_str());
                message.append(". Must be between 0 and ");
                let max_text = decimal_string(*max as i128);
                message.append(max_text.as_str());
                message
            },
            SnowflakeError::ClockMovedBackwards => String::from_str(
                "Clock moved backwards. Refusing to generate id",
            ),
            SnowflakeError::TimestampOverflow => String::from_str("Timestamp exceeds maximum."),
            SnowflakeError::GeneratorPoisoned => String::from_str(
                "ID generator mutex was poisoned by a panicking thread",
            ),
            SnowflakeError::InvalidId(reason) => {
                let mut message = String::from_str("Invalid snowflake ID: ");
                message.append(reason.as_str());
                message
            },
            SnowflakeError::RetriesExhausted => String::from_str(
                "Clock did not advance. Giving up on the id",
            ),
        }
    }
}

} // verus!
