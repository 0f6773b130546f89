//! The bit layout of an identifier: three fields packed into 63 bits, with
//! the mask-and-shift arithmetic that builds an identifier and takes it apart.

use std::fmt::Debug;
use std::hash::Hash;
use vstd::prelude::*;

verus! {

/// The mask of the lowest `bits` bits.
pub open spec fn low_mask(bits: u64) -> u64 {
    ((1u64 << bits) - 1) as u64
}

/// The three fields put side by side: timestamp offset on top, machine id in
/// the middle, sequence at the bottom.
pub open spec fn pack_fields(
    machine_id_bits: u64,
    sequence_bits: u64,
    timestamp_offset: u64,
    machine_id: u64,
    sequence: u64,
) -> u64 {
    (timestamp_offset << ((machine_id_bits + sequence_bits) as u64)) | (machine_id << sequence_bits)
        | sequence
}

/// The union of the three field masks, each shifted into its position.
pub open spec fn fields_mask(timestamp_bits: u64, machine_id_bits: u64, sequence_bits: u64) -> u64 {
    (low_mask(timestamp_bits) << ((machine_id_bits + sequence_bits) as u64)) | (low_mask(
        machine_id_bits,
    ) << sequence_bits) | low_mask(sequence_bits)
}

/// How a 64-bit identifier is divided into its three fields.
pub struct BitLayout {
    pub timestamp_bits: u64,
    pub machine_id_bits: u64,
    pub sequence_bits: u64,
}

impl BitLayout {
    /// The three fields leave the top bit free, so that an identifier is
    /// never negative as a signed 64-bit integer.
    pub open spec fn fits(self) -> bool {
        self.timestamp_bits + self.machine_id_bits + self.sequence_bits <= 63
    }

    pub open spec fn timestamp_shift(self) -> u64 {
        (self.machine_id_bits + self.sequence_bits) as u64
    }

    pub open spec fn timestamp_mask(self) -> u64 {
        low_mask(self.timestamp_bits)
    }

    pub open spec fn machine_id_mask(self) -> u64 {
        low_mask(self.machine_id_bits)
    }

    pub open spec fn sequence_mask(self) -> u64 {
        low_mask(self.sequence_bits)
    }

    pub open spec fn valid_mask(self) -> u64 {
        fields_mask(self.timestamp_bits, self.machine_id_bits, self.sequence_bits)
    }

    /// Each of the three values fits the field it is meant for.
    pub open spec fn admits(self, timestamp_offset: u64, machine_id: u64, sequence: u64) -> bool {
        &&& timestamp_offset <= self.timestamp_mask()
        &&& machine_id <= self.machine_id_mask()
        &&& sequence <= self.sequence_mask()
    }

    /// The raw value of the identifier made of the three fields.
    pub open spec fn pack(self, timestamp_offset: u64, machine_id: u64, sequence: u64) -> u64 {
        pack_fields(self.machine_id_bits, self.sequence_bits, timestamp_offset, machine_id, sequence)
    }

    pub open spec fn timestamp_of(self, raw: u64) -> u64 {
        (raw >> self.timestamp_shift()) & self.timestamp_mask()
    }

    pub open spec fn machine_id_of(self, raw: u64) -> u64 {
        (raw >> self.sequence_bits) & self.machine_id_mask()
    }

    pub open spec fn sequence_of(self, raw: u64) -> u64 {
        raw & self.sequence_mask()
    }

    /// No bit outside the three fields is set.
    pub open spec fn is_valid(self, raw: u64) -> bool {
        raw & !self.valid_mask() == 0
    }
}

proof fn lemma_mask_bounds(bits: u64)
    by (bit_vector)
    requires
        bits <= 63,
    ensures
        (1u64 << bits) >= 1,
        low_mask(bits) <= 0x7fff_ffff_ffff_ffff,
{
}

proof fn lemma_fields_mask_bound(timestamp_bits: u64, machine_id_bits: u64, sequence_bits: u64)
    by (bit_vector)
    requires
        timestamp_bits + machine_id_bits + sequence_bits <= 63,
    ensures
        fields_mask(timestamp_bits, machine_id_bits, sequence_bits) <= 0x7fff_ffff_ffff_ffff,
        fields_mask(timestamp_bits, machine_id_bits, sequence_bits) == low_mask(
            (timestamp_bits + machine_id_bits + sequence_bits) as u64,
        ),
{
}

proof fn lemma_unpack(
    timestamp_bits: u64,
    machine_id_bits: u64,
    sequence_bits: u64,
    timestamp_offset: u64,
    machine_id: u64,
    sequence: u64,
)
    by (bit_vector)
    requires
        timestamp_bits + machine_id_bits + sequence_bits <= 63,
        timestamp_offset <= low_mask(timestamp_bits),
        machine_id <= low_mask(machine_id_bits),
        sequence <= low_mask(sequence_bits),
    ensures
        (pack_fields(machine_id_bits, sequence_bits, timestamp_offset, machine_id, sequence) >> ((
        machine_id_bits + sequence_bits) as u64)) & low_mask(timestamp_bits) == timestamp_offset,
        (pack_fields(machine_id_bits, sequence_bits, timestamp_offset, machine_id, sequence)
            >> sequence_bits) & low_mask(machine_id_bits) == machine_id,
        pack_fields(machine_id_bits, sequence_bits, timestamp_offset, machine_id, sequence)
            & low_mask(sequence_bits) == sequence,
        pack_fields(machine_id_bits, sequence_bits, timestamp_offset, machine_id, sequence)
            & !fields_mask(timestamp_bits, machine_id_bits, sequence_bits) == 0,
        pack_fields(machine_id_bits, sequence_bits, timestamp_offset, machine_id, sequence)
            <= 0x7fff_ffff_ffff_ffff,
{
}

proof fn lemma_pack_order(
    timestamp_bits: u64,
    machine_id_bits: u64,
    sequence_bits: u64,
    machine_id: u64,
    timestamp_a: u64,
    sequence_a: u64,
    timestamp_b: u64,
    sequence_b: u64,
)
    by (bit_vector)
    requires
        timestamp_bits + machine_id_bits + sequence_bits <= 63,
        timestamp_a <= low_mask(timestamp_bits),
        timestamp_b <= low_mask(timestamp_bits),
        machine_id <= low_mask(machine_id_bits),
        sequence_a <= low_mask(sequence_bits),
        sequence_b <= low_mask(sequence_bits),
        timestamp_a < timestamp_b || (timestamp_a == timestamp_b && sequence_a < sequence_b),
    ensures
        pack_fields(machine_id_bits, sequence_bits, timestamp_a, machine_id, sequence_a)
            < pack_fields(machine_id_bits, sequence_bits, timestamp_b, machine_id, sequence_b),
{
}

/// Every field of an identifier is within its mask, whatever the raw value.
proof fn lemma_field_bounds(mask_bits: u64, shift: u64, raw: u64)
    by (bit_vector)
    requires
        mask_bits <= 63,
        shift <= 63,
    ensures
        (raw >> shift) & low_mask(mask_bits) <= low_mask(mask_bits),
        raw & low_mask(mask_bits) <= low_mask(mask_bits),
{
}

impl BitLayout {
    /// Taking an identifier apart gives back the three values it was packed
    /// from, and the identifier is valid.
    pub proof fn lemma_round_trip(self, timestamp_offset: u64, machine_id: u64, sequence: u64)
        requires
            self.fits(),
            self.admits(timestamp_offset, machine_id, sequence),
        ensures
            self.timestamp_of(self.pack(timestamp_offset, machine_id, sequence))
                == timestamp_offset,
            self.machine_id_of(self.pack(timestamp_offset, machine_id, sequence)) == machine_id,
            self.sequence_of(self.pack(timestamp_offset, machine_id, sequence)) == sequence,
            self.is_valid(self.pack(timestamp_offset, machine_id, sequence)),
    {
        lemma_unpack(
            self.timestamp_bits,
            self.machine_id_bits,
            self.sequence_bits,
            timestamp_offset,
            machine_id,
            sequence,
        );
    }

    /// A packed identifier has its top bit clear: it is a non-negative signed
    /// 64-bit integer.
    pub proof fn lemma_pack_is_non_negative(
        self,
        timestamp_offset: u64,
        machine_id: u64,
        sequence: u64,
    )
        requires
            self.fits(),
            self.admits(timestamp_offset, machine_id, sequence),
        ensures
            self.pack(timestamp_offset, machine_id, sequence) <= i64::MAX,
    {
        lemma_unpack(
            self.timestamp_bits,
            self.machine_id_bits,
            self.sequence_bits,
            timestamp_offset,
            machine_id,
            sequence,
        );
    }

    /// Identifiers of one machine are ordered as their (timestamp offset,
    /// sequence) pairs are ordered.
    pub proof fn lemma_pack_is_ordered(
        self,
        machine_id: u64,
        timestamp_a: u64,
        sequence_a: u64,
        timestamp_b: u64,
        sequence_b: u64,
    )
        requires
            self.fits(),
            self.admits(timestamp_a, machine_id, sequence_a),
            self.admits(timestamp_b, machine_id, sequence_b),
            timestamp_a < timestamp_b || (timestamp_a == timestamp_b && sequence_a < sequence_b),
        ensures
            self.pack(timestamp_a, machine_id, sequence_a) < self.pack(
                timestamp_b,
                machine_id,
                sequence_b,
            ),
    {
        lemma_pack_order(
            self.timestamp_bits,
            self.machine_id_bits,
            self.sequence_bits,
            machine_id,
            timestamp_a,
            sequence_a,
            timestamp_b,
            sequence_b,
        );
    }

    /// The masks leave the top bit free, and the valid mask is the mask of
    /// all the bits that the three fields take together.
    pub proof fn lemma_masks(self)
        requires
            self.fits(),
        ensures
            self.timestamp_mask() <= i64::MAX,
            self.machine_id_mask() <= i64::MAX,
            self.sequence_mask() <= i64::MAX,
            self.valid_mask() <= i64::MAX,
            self.valid_mask() == low_mask(
                (self.timestamp_bits + self.machine_id_bits + self.sequence_bits) as u64,
            ),
    {
        lemma_mask_bounds(self.timestamp_bits);
        lemma_mask_bounds(self.machine_id_bits);
        lemma_mask_bounds(self.sequence_bits);
        lemma_fields_mask_bound(self.timestamp_bits, self.machine_id_bits, self.sequence_bits);
    }

    /// What is read out of a field fits that field, for every raw value.
    pub proof fn lemma_fields_fit(self, raw: u64)
        requires
            self.fits(),
        ensures
            self.admits(self.timestamp_of(raw), self.machine_id_of(raw), self.sequence_of(raw)),
    {
        lemma_field_bounds(self.timestamp_bits, self.timestamp_shift(), raw);
        lemma_field_bounds(self.machine_id_bits, self.sequence_bits, raw);
        lemma_field_bounds(self.sequence_bits, 0, raw);
    }
}

/// An identifier type with a fixed bit layout.
///
/// An implementation gives the three field widths, the raw value of an
/// identifier, and the way to make an identifier of three field values. All
/// the rest follows from these by mask and shift.
pub trait Snowflake: Copy + Clone + PartialOrd + Ord + PartialEq + Eq + Hash + Debug {
    /// The layout of this identifier type.
    spec fn layout() -> BitLayout;

    /// The 64 bits of the identifier.
    spec fn raw(&self) -> u64;

    /// The layout leaves the top bit free.
    proof fn lemma_layout_fits()
        ensures
            Self::layout().fits(),
    ;

    /// Makes the identifier of three values, each of which fits its field.
    /// The values are not masked again.
    fn from_component_parts(timestamp_offset: u64, machine_id: u64, sequence: u64) -> (id: Self)
        requires
            Self::layout().admits(timestamp_offset, machine_id, sequence),
        ensures
            id.raw() == Self::layout().pack(timestamp_offset, machine_id, sequence),
    ;

    /// The timestamp offset: milliseconds since the epoch that the
    /// identifier was made with.
    fn timestamp(&self) -> (offset: u64)
        ensures
            offset == Self::layout().timestamp_of(self.raw()),
            offset <= Self::layout().timestamp_mask(),
    {
        proof {
            Self::lemma_layout_fits();
            Self::layout().lemma_fields_fit(self.raw());
        }
        (self.id() >> Self::timestamp_shift()) & Self::timestamp_mask()
    }

    /// The time, in milliseconds, at which the identifier was made, given
    /// the epoch that it was made with.
    fn timestamp_with_epoch(&self, epoch: i64) -> (millis: i64)
        requires
            Self::layout().timestamp_of(self.raw()) + epoch <= i64::MAX,
        ensures
            millis == Self::layout().timestamp_of(self.raw()) + epoch,
    {
        proof {
            Self::lemma_layout_fits();
            Self::layout().lemma_masks();
        }
        (self.timestamp() as i64) + epoch
    }

    fn machine_id(&self) -> (machine_id: u64)
        ensures
            machine_id == Self::layout().machine_id_of(self.raw()),
            machine_id <= Self::layout().machine_id_mask(),
    {
        proof {
            Self::lemma_layout_fits();
            Self::layout().lemma_fields_fit(self.raw());
        }
        (self.id() >> Self::sequence_bits()) & Self::machine_id_mask()
    }

    fn sequence(&self) -> (sequence: u64)
        ensures
            sequence == Self::layout().sequence_of(self.raw()),
            sequence <= Self::layout().sequence_mask(),
    {
        proof {
            Self::lemma_layout_fits();
            Self::layout().lemma_fields_fit(self.raw());
        }
        self.id() & Self::sequence_mask()
    }

    /// The raw value.
    fn id(&self) -> (raw: u64)
        ensures
            raw == self.raw(),
    ;

    /// Whether no bit outside the three fields is set.
    fn is_valid(&self) -> (valid: bool)
        ensures
            valid == Self::layout().is_valid(self.raw()),
    {
        (self.id() & !Self::valid_mask()) == 0
    }

    fn timestamp_mask() -> (mask: u64)
        ensures
            mask == Self::layout().timestamp_mask(),
    {
        proof {
            Self::lemma_layout_fits();
            lemma_mask_bounds(Self::layout().timestamp_bits);
        }
        (1u64 << Self::timestamp_bits()) - 1
    }

    fn machine_id_mask() -> (mask: u64)
        ensures
            mask == Self::layout().machine_id_mask(),
    {
        proof {
            Self::lemma_layout_fits();
            lemma_mask_bounds(Self::layout().machine_id_bits);
        }
        (1u64 << Self::machine_id_bits()) - 1
    }

    fn sequence_mask() -> (mask: u64)
        ensures
            mask == Self::layout().sequence_mask(),
    {
        proof {
            Self::lemma_layout_fits();
            lemma_mask_bounds(Self::layout().sequence_bits);
        }
        (1u64 << Self::sequence_bits()) - 1
    }

    fn valid_mask() -> (mask: u64)
        ensures
            mask == Self::layout().valid_mask(),
    {
        proof {
            Self::lemma_layout_fits();
        }
        (Self::timestamp_mask() << Self::timestamp_shift()) | (Self::machine_id_mask()
            << Self::sequence_bits()) | Self::sequence_mask()
    }

    fn timestamp_bits() -> (bits: u64)
        ensures
            bits == Self::layout().timestamp_bits,
    ;

    fn machine_id_bits() -> (bits: u64)
        ensures
            bits == Self::layout().machine_id_bits,
    ;

    fn sequence_bits() -> (bits: u64)
        ensures
            bits == Self::layout().sequence_bits,
    ;

    fn timestamp_shift() -> (shift: u64)
        ensures
            shift == Self::layout().timestamp_shift(),
    {
        proof {
            Self::lemma_layout_fits();
        }
        Self::machine_id_bits() + Self::sequence_bits()
    }

    /// The largest timestamp offset that an identifier can hold.
    fn max_timestamp() -> (max: i64)
        ensures
            max == Self::layout().timestamp_mask(),
    {
        proof {
            Self::lemma_layout_fits();
            Self::layout().lemma_masks();
        }
        Self::timestamp_mask() as i64
    }

    /// The largest machine id that an identifier can hold.
    fn max_machine_id() -> (max: u64)
        ensures
            max == Self::layout().machine_id_mask(),
    {
        Self::machine_id_mask()
    }

    /// The largest sequence number that an identifier can hold.
    fn max_sequence() -> (max: u64)
        ensures
            max == Self::layout().sequence_mask(),
    {
        Self::sequence_mask()
    }
}

} // verus!
