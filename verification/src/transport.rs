//! How an identifier travels: as its decimal text where people read the
//! format, as the signed 64-bit integer where they do not. What comes in
//! is accepted as a text or as an integer, and never where it is negative.

use crate::decimal::decimal_i64;
use crate::decimal::decimal_text;
use crate::decimal::lemma_decimal_round_trip;
use crate::decimal::parse_decimal;
use crate::id::SnowflakeId;
use vstd::prelude::*;
use vstd::string::*;

verus! {

/// An identifier in the form in which it travels.
pub enum Encoded {
    /// The decimal digits, for formats that people read.
    Text(String),
    /// The signed integer, for compact formats.
    Integer(i64),
}

/// Why a value that came in is no identifier.
#[derive(Debug, Clone, Copy, PartialEq, Eq, Structural)]
pub enum DecodeError {
    /// An unsigned integer above the largest signed 64-bit integer.
    ExceedsMaximum,
    /// A negative integer, or the numeral of one.
    Negative,
    /// A text that is no numeral of a signed 64-bit integer.
    NotANumber,
}

impl DecodeError {
    pub open spec fn text(self) -> Seq<char> {
        match self {
            DecodeError::ExceedsMaximum => "snowflake id value exceeds i64::MAX"@,
            DecodeError::Negative => "snowflake id cannot be negative"@,
            DecodeError::NotANumber => "invalid snowflake id string"@,
        }
    }

    /// The message of the failure, for a reader.
    pub fn message(&self) -> (message: String)
        ensures
            message@ == self.text(),
    {
        match self {
            DecodeError::ExceedsMaximum => String::from_str("snowflake id value exceeds i64::MAX"),
            DecodeError::Negative => String::from_str("snowflake id cannot be negative"),
            DecodeError::NotANumber => String::from_str("invalid snowflake id string"),
        }
    }
}

/// The value of the identifier that a text stands for, or why it stands for
/// none.
pub open spec fn decode_text(text: Seq<char>) -> Result<i64, DecodeError> {
    match decimal_i64(text) {
        Some(value) => if value < 0 {
            Err(DecodeError::Negative)
        } else {
            Ok(value)
        },
        None => Err(DecodeError::NotANumber),
    }
}

/// Whether `made` is the identifier of the value, or the failure.
pub open spec fn decodes_to(
    decoded: Result<i64, DecodeError>,
    made: Result<SnowflakeId, DecodeError>,
) -> bool {
    match decoded {
        Ok(value) => made matches Ok(id) && id.value() == value,
        Err(error) => made == Err::<SnowflakeId, DecodeError>(error),
    }
}

/// The text of a value that is not negative stands for that value.
pub proof fn lemma_text_decodes(value: i64)
    requires
        value >= 0,
    ensures
        decode_text(decimal_text(value as int)) == Ok::<i64, DecodeError>(value),
{
    lemma_decimal_round_trip(value as int);
}

impl SnowflakeId {
    /// The identifier as it travels: its decimal text for a format that
    /// people read, the integer itself for any other.
    pub fn encode(&self, human_readable: bool) -> (encoded: Encoded)
        ensures
            human_readable ==> (encoded matches Encoded::Text(text) && text@ == decimal_text(
                self.value() as int,
            )),
            !human_readable ==> (encoded matches Encoded::Integer(value) && value == self.value()),
    {
        if human_readable {
            Encoded::Text(self.to_string())
        } else {
            Encoded::Integer(self.id())
        }
    }

    /// The identifier of an unsigned integer that came in.
    pub fn decode_u64(value: u64) -> (made: Result<SnowflakeId, DecodeError>)
        ensures
            decodes_to(
                if value > i64::MAX {
                    Err(DecodeError::ExceedsMaximum)
                } else {
                    Ok(value as i64)
                },
                made,
            ),
    {
        if value > i64::MAX as u64 {
            return Err(DecodeError::ExceedsMaximum);
        }
        Ok(SnowflakeId::new_unchecked(value as i64))
    }

    /// The identifier of a signed integer that came in.
    pub fn decode_i64(value: i64) -> (made: Result<SnowflakeId, DecodeError>)
        ensures
            decodes_to(
                if value < 0 {
                    Err(DecodeError::Negative)
                } else {
                    Ok(value)
                },
                made,
            ),
    {
        if value < 0 {
            Err(DecodeError::Negative)
        } else {
            Ok(SnowflakeId::new_unchecked(value))
        }
    }

    /// The identifier of a text that came in.
    pub fn decode_str(text: &str) -> (made: Result<SnowflakeId, DecodeError>)
        ensures
            decodes_to(decode_text(text@), made),
    {
        match parse_decimal(text) {
            Ok(value) => SnowflakeId::decode_i64(value),
            Err(_) => Err(DecodeError::NotANumber),
        }
    }
}

} // verus!
