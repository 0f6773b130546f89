//! The identifier of the default layout: 41 bits of timestamp offset, 10 bits
//! of machine id and 12 bits of sequence.

use crate::decimal::decimal_i64;
use crate::decimal::decimal_string;
use crate::decimal::decimal_text;
use crate::decimal::lemma_decimal_round_trip;
use crate::decimal::parse_decimal;
use crate::decimal::parse_failure_text;
use crate::defs::MACHINE_ID_BITS;
use crate::defs::MAX_MACHINE_ID;
use crate::defs::MAX_SEQUENCE;
use crate::defs::MAX_TIMESTAMP_MS;
use crate::defs::SEQUENCE_BITS;
use crate::defs::TIMESTAMP_BITS;
use crate::error::SnowflakeError;
use crate::snowflake::low_mask;
use crate::snowflake::BitLayout;
use crate::snowflake::Snowflake;
use vstd::prelude::*;
use vstd::string::*;

verus! {

/// An identifier of the default layout, held as a signed 64-bit integer.
#[derive(Debug, Clone, Copy, PartialEq, Eq, PartialOrd, Ord, Hash, Structural)]
pub struct SnowflakeId(i64);

/// The default layout.
pub open spec fn default_layout() -> BitLayout {
    BitLayout {
        timestamp_bits: TIMESTAMP_BITS,
        machine_id_bits: MACHINE_ID_BITS,
        sequence_bits: SEQUENCE_BITS,
    }
}

proof fn lemma_default_masks()
    by (bit_vector)
    ensures
        low_mask(41) == 2199023255551,
        low_mask(10) == 1023,
        low_mask(12) == 4095,
{
}

/// The capacity constants are the masks of the default layout.
pub proof fn lemma_default_layout()
    ensures
        default_layout().fits(),
        default_layout().timestamp_mask() == MAX_TIMESTAMP_MS,
        default_layout().machine_id_mask() == MAX_MACHINE_ID,
        default_layout().sequence_mask() == MAX_SEQUENCE,
{
    lemma_default_masks();
}

proof fn lemma_raw_of_non_negative(value: i64)
    by (bit_vector)
    requires
        value >= 0,
    ensures
        value as u64 == value,
{
}

proof fn lemma_value_of_raw(raw: u64)
    by (bit_vector)
    requires
        raw <= 0x7fff_ffff_ffff_ffff,
    ensures
        (raw as i64) as u64 == raw,
        raw as i64 >= 0,
        raw as i64 == raw,
{
}

proof fn lemma_raw_is_injective(a: i64, b: i64)
    by (bit_vector)
    requires
        a as u64 == b as u64,
    ensures
        a == b,
{
}

impl Snowflake for SnowflakeId {
    open spec fn layout() -> BitLayout {
        default_layout()
    }

    open spec fn raw(&self) -> u64 {
        self.value() as u64
    }

    proof fn lemma_layout_fits() {
    }

    fn from_component_parts(timestamp_offset: u64, machine_id: u64, sequence: u64) -> (id: Self) {
        proof {
            default_layout().lemma_pack_is_non_negative(timestamp_offset, machine_id, sequence);
            lemma_value_of_raw(default_layout().pack(timestamp_offset, machine_id, sequence));
        }
        let id = (timestamp_offset << Self::timestamp_shift()) | (machine_id
            << Self::sequence_bits()) | sequence;
        SnowflakeId(id as i64)
    }

    fn id(&self) -> (raw: u64) {
        #[verifier::truncate]
        (self.0 as u64)
    }

    fn timestamp_bits() -> (bits: u64) {
        TIMESTAMP_BITS
    }

    fn machine_id_bits() -> (bits: u64) {
        MACHINE_ID_BITS
    }

    fn sequence_bits() -> (bits: u64) {
        SEQUENCE_BITS
    }
}

impl SnowflakeId {
    /// The signed integer that the identifier holds.
    pub closed spec fn value(self) -> i64 {
        self.0
    }

    /// Two identifiers with one value are one identifier.
    pub proof fn lemma_value_decides(self, other: SnowflakeId)
        ensures
            self.value() == other.value() <==> self == other,
            self.raw() == other.raw() <==> self == other,
            self.value() >= 0 ==> self.raw() == self.value(),
    {
        if self.raw() == other.raw() {
            lemma_raw_is_injective(self.value(), other.value());
        }
        if self.value() >= 0 {
            lemma_raw_of_non_negative(self.value());
        }
    }

    /// The identifier of a value that is not negative.
    pub fn new(value: i64) -> (made: Result<Self, SnowflakeError>)
        ensures
            value >= 0 ==> (made matches Ok(id) && id.value() == value),
            value < 0 ==> (made matches Err(SnowflakeError::InvalidId(reason)) && reason@
                == "Snowflake ID cannot be negative"@),
    {
        if value < 0 {
            return Err(SnowflakeError::InvalidId(String::from_str("Snowflake ID cannot be negative")));
        }
        Ok(SnowflakeId(value))
    }

    /// The identifier of a value, whatever the value. A negative value makes
    /// an identifier that is not valid.
    pub fn new_unchecked(value: i64) -> (id: Self)
        ensures
            id.value() == value,
    {
        SnowflakeId(value)
    }

    pub fn id(&self) -> (value: i64)
        ensures
            value == self.value(),
    {
        self.0
    }

    /// The timestamp offset in milliseconds. This is the time since the
    /// epoch of the generator, not since the Unix epoch.
    pub fn timestamp(&self) -> (offset: i64)
        ensures
            offset == default_layout().timestamp_of(self.raw()),
            0 <= offset <= MAX_TIMESTAMP_MS,
    {
        proof {
            lemma_default_layout();
        }
        <Self as Snowflake>::timestamp(self) as i64
    }

    /// The time in milliseconds since the Unix epoch, for an identifier made
    /// with the given epoch.
    pub fn timestamp_with_epoch(&self, epoch: i64) -> (millis: i64)
        requires
            default_layout().timestamp_of(self.raw()) + epoch <= i64::MAX,
        ensures
            millis == default_layout().timestamp_of(self.raw()) + epoch,
    {
        <Self as Snowflake>::timestamp_with_epoch(self, epoch)
    }

    pub fn machine_id(&self) -> (machine_id: u64)
        ensures
            machine_id == default_layout().machine_id_of(self.raw()),
            machine_id <= MAX_MACHINE_ID,
    {
        proof {
            lemma_default_layout();
        }
        <Self as Snowflake>::machine_id(self)
    }

    pub fn sequence(&self) -> (sequence: u64)
        ensures
            sequence == default_layout().sequence_of(self.raw()),
            sequence <= MAX_SEQUENCE,
    {
        proof {
            lemma_default_layout();
        }
        <Self as Snowflake>::sequence(self)
    }

    /// What [`SnowflakeId::from_str`] makes of a text.
    pub open spec fn parsed(text: Seq<char>, made: Result<SnowflakeId, SnowflakeError>) -> bool {
        match decimal_i64(text) {
            Some(value) => if value >= 0 {
                made matches Ok(id) && id.value() == value
            } else {
                made matches Err(SnowflakeError::InvalidId(reason)) && reason@
                    == "Snowflake ID cannot be negative"@
            },
            None => made matches Err(SnowflakeError::InvalidId(reason)) && reason@
                == "Failed to parse: "@ + parse_failure_text(text),
        }
    }

    /// Reads an identifier from its decimal text. A text that is no numeral
    /// of a signed 64-bit integer is refused, and so is a negative one, each
    /// with a message of its own.
    pub fn from_str(text: &str) -> (made: Result<Self, SnowflakeError>)
        ensures
            Self::parsed(text@, made),
    {
        match parse_decimal(text) {
            Ok(value) => {
                if value < 0 {
                    return Err(
                        SnowflakeError::InvalidId(
                            String::from_str("Snowflake ID cannot be negative"),
                        ),
                    );
                }
                Ok(SnowflakeId(value))
            },
            Err(reason) => {
                let mut message = String::from_str("Failed to parse: ");
                message.append(reason.as_str());
                Err(SnowflakeError::InvalidId(message))
            },
        }
    }

    /// The decimal text of the identifier: its digits, without leading zeros
    /// and without a sign where the value is not negative.
    pub fn to_string(&self) -> (text: String)
        ensures
            text@ == decimal_text(self.value() as int),
    {
        decimal_string(self.0 as i128)
    }

    /// Reading the text of an identifier that is not negative gives the
    /// identifier back.
    pub proof fn lemma_text_round_trip(self, made: Result<SnowflakeId, SnowflakeError>)
        requires
            self.value() >= 0,
            Self::parsed(decimal_text(self.value() as int), made),
        ensures
            made == Ok::<SnowflakeId, SnowflakeError>(self),
    {
        lemma_decimal_round_trip(self.value() as int);
    }
}

impl std::str::FromStr for SnowflakeId {
    type Err = SnowflakeError;

    fn from_str(text: &str) -> (made: Result<Self, SnowflakeError>)
        ensures
            SnowflakeId::parsed(text@, made),
    {
        SnowflakeId::from_str(text)
    }
}

impl TryFrom<i64> for SnowflakeId {
    type Error = SnowflakeError;

    /// As [`SnowflakeId::new`].
    fn try_from(value: i64) -> (made: Result<Self, SnowflakeError>)
        ensures
            value >= 0 ==> (made matches Ok(id) && id.value() == value),
            value < 0 ==> (made matches Err(SnowflakeError::InvalidId(reason)) && reason@
                == "Snowflake ID cannot be negative"@),
    {
        SnowflakeId::new(value)
    }
}

/// The conversion is stated by the `ensures` of `try_from` itself: a failure
/// holds a message, and a message is stated by its text.
impl vstd::std_specs::convert::TryFromSpecImpl<i64> for SnowflakeId {
    open spec fn obeys_try_from_spec() -> bool {
        false
    }

    open spec fn try_from_spec(value: i64) -> Result<Self, SnowflakeError> {
        arbitrary()
    }
}

impl From<SnowflakeId> for i64 {
    fn from(id: SnowflakeId) -> (value: i64) {
        id.0
    }
}

impl vstd::std_specs::convert::FromSpecImpl<SnowflakeId> for i64 {
    open spec fn obeys_from_spec() -> bool {
        true
    }

    open spec fn from_spec(id: SnowflakeId) -> i64 {
        id.value()
    }
}

} // verus!
