//! The record: one synthetic sample, made for one message.

use crate::entropy::{random_u32, random_u64};
use crate::fixed::{Fixed, UNIT};
use vstd::prelude::*;

verus! {

/// Bearings lie in `[0, 360)` degrees.
pub const BEARING_SPAN: u64 = 360;

/// Ranges lie in `[0, 1_000_000_000)`.
pub const RANGE_SPAN: u64 = 1_000_000_000;

/// Categories are `0..10`.
pub const CATEGORY_COUNT: u32 = 10;

/// General types are `0..5`.
pub const GENERAL_TYPE_COUNT: u32 = 5;

/// The low bits of a 64-bit word that a 53-bit draw leaves out.
pub const SPARE_BITS: u32 = 11;

/// A record as a mathematical value.
pub struct RecordData {
    /// The bearing in degrees, times 2^53.
    pub bearing: nat,
    /// The range, times 2^53.
    pub range: nat,
    pub station_id: nat,
    pub category: nat,
    pub general_type: nat,
}

/// The fraction `numerator / 2^53` of the unit interval that a 64-bit word
/// stands for: its 53 high bits.
pub open spec fn unit_draw(word: u64) -> nat {
    (word >> SPARE_BITS) as nat
}

impl RecordData {
    /// Every field is inside its range. The station id is left to the
    /// session that counts it.
    pub open spec fn valid(self) -> bool {
        &&& self.bearing < BEARING_SPAN * UNIT
        &&& self.range < RANGE_SPAN * UNIT
        &&& self.category < CATEGORY_COUNT
        &&& self.general_type < GENERAL_TYPE_COUNT
    }

    /// The record that four random words give under a station id.
    ///
    /// Bearing and range are the spans scaled by a 53-bit draw each; category
    /// and general type are the remainders of their words.
    pub open spec fn from_draws(
        station_id: u32,
        bearing_word: u64,
        range_word: u64,
        category_word: u32,
        general_type_word: u32,
    ) -> RecordData {
        RecordData {
            bearing: (BEARING_SPAN as nat) * unit_draw(bearing_word),
            range: (RANGE_SPAN as nat) * unit_draw(range_word),
            station_id: station_id as nat,
            category: (category_word % CATEGORY_COUNT) as nat,
            general_type: (general_type_word % GENERAL_TYPE_COUNT) as nat,
        }
    }

    /// Whether some four words give this record under the station id: it is
    /// one that the generator can make.
    pub open spec fn drawn(self, station_id: u32) -> bool {
        exists|bearing_word: u64, range_word: u64, category_word: u32, general_type_word: u32|
            self == #[trigger] RecordData::from_draws(
                station_id,
                bearing_word,
                range_word,
                category_word,
                general_type_word,
            )
    }

    /// Whatever is drawn, the record is valid: the bearing is below 360, the
    /// range below 1,000,000,000, the category below 10 and the general type
    /// below 5, and none is negative.
    pub proof fn lemma_drawn_is_valid(self, station_id: u32)
        requires
            self.drawn(station_id),
        ensures
            self.valid(),
            self.station_id == station_id,
            0 <= self.bearing < 360 * UNIT,
            0 <= self.range < 1_000_000_000 * UNIT,
            0 <= self.category < 10,
            0 <= self.general_type < 5,
    {
        let (bearing_word, range_word, category_word, general_type_word) = choose|
            bearing_word: u64,
            range_word: u64,
            category_word: u32,
            general_type_word: u32,
        |
            self == #[trigger] RecordData::from_draws(
                station_id,
                bearing_word,
                range_word,
                category_word,
                general_type_word,
            );
        lemma_unit_draw(bearing_word);
        lemma_unit_draw(range_word);
        let bearing_draw = unit_draw(bearing_word);
        let range_draw = unit_draw(range_word);
        assert(BEARING_SPAN * bearing_draw < BEARING_SPAN * UNIT) by (nonlinear_arith)
            requires
                bearing_draw < UNIT,
        ;
        assert(RANGE_SPAN * range_draw < RANGE_SPAN * UNIT) by (nonlinear_arith)
            requires
                range_draw < UNIT,
        ;
    }
}

/// A draw is below one: its numerator is below 2^53.
pub proof fn lemma_unit_draw(word: u64)
    ensures
        unit_draw(word) < UNIT,
{
    assert(word >> 11 < 0x20_0000_0000_0000u64) by (bit_vector);
}

/// One sample of the feed. Every record is valid: see [`RecordData::valid`].
#[derive(Clone, Copy, Debug, PartialEq, Eq, Structural)]
pub struct Record {
    bearing: Fixed,
    range: Fixed,
    station_id: u32,
    category: u32,
    general_type: u32,
}

impl View for Record {
    type V = RecordData;

    closed spec fn view(&self) -> RecordData {
        RecordData {
            bearing: self.bearing@,
            range: self.range@,
            station_id: self.station_id as nat,
            category: self.category as nat,
            general_type: self.general_type as nat,
        }
    }
}

/// The 53 high bits of a word, as the numerator of a draw from `[0, 1)`.
fn high_bits(word: u64) -> (numerator: u64)
    ensures
        numerator == unit_draw(word),
        numerator < UNIT,
{
    proof {
        lemma_unit_draw(word);
    }
    word >> SPARE_BITS
}

impl Record {
    #[verifier::type_invariant]
    spec fn well_formed(self) -> bool {
        self@.valid()
    }

    /// The record with these fields, if each is inside its range.
    pub fn new(
        bearing: Fixed,
        range: Fixed,
        station_id: u32,
        category: u32,
        general_type: u32,
    ) -> (record: Option<Record>)
        ensures
            record is Some <==> (RecordData {
                bearing: bearing@,
                range: range@,
                station_id: station_id as nat,
                category: category as nat,
                general_type: general_type as nat,
            }).valid(),
            record matches Some(r) ==> r@ == (RecordData {
                bearing: bearing@,
                range: range@,
                station_id: station_id as nat,
                category: category as nat,
                general_type: general_type as nat,
            }),
    {
        if bearing.raw() < (BEARING_SPAN as u128) * UNIT && range.raw() < (RANGE_SPAN as u128)
            * UNIT && category < CATEGORY_COUNT && general_type < GENERAL_TYPE_COUNT {
            Some(Record { bearing, range, station_id, category, general_type })
        } else {
            None
        }
    }

    /// The record that four random words give under a station id.
    pub fn from_draws(
        station_id: u32,
        bearing_word: u64,
        range_word: u64,
        category_word: u32,
        general_type_word: u32,
    ) -> (record: Record)
        ensures
            record@ == RecordData::from_draws(
                station_id,
                bearing_word,
                range_word,
                category_word,
                general_type_word,
            ),
            record@.valid(),
    {
        let bearing_draw: u64 = high_bits(bearing_word);
        let range_draw: u64 = high_bits(range_word);
        assert(BEARING_SPAN * bearing_draw < BEARING_SPAN * UNIT) by (nonlinear_arith)
            requires
                bearing_draw < UNIT,
        ;
        assert(RANGE_SPAN * range_draw < RANGE_SPAN * UNIT) by (nonlinear_arith)
            requires
                range_draw < UNIT,
        ;
        Record {
            bearing: Fixed::scaled(BEARING_SPAN, bearing_draw),
            range: Fixed::scaled(RANGE_SPAN, range_draw),
            station_id,
            category: category_word % CATEGORY_COUNT,
            general_type: general_type_word % GENERAL_TYPE_COUNT,
        }
    }

    /// A fresh record under a station id, every other field drawn anew and
    /// independently of the others.
    ///
    /// Which words are drawn is chance; the record is what
    /// [`Record::from_draws`] makes of them.
    pub fn generate(station_id: u32) -> (record: Record)
        ensures
            record@.drawn(station_id),
            record@.valid(),
            record@.station_id == station_id,
    {
        let bearing_word: u64 = random_u64();
        let range_word: u64 = random_u64();
        let category_word: u32 = random_u32();
        let general_type_word: u32 = random_u32();
        Record::from_draws(station_id, bearing_word, range_word, category_word, general_type_word)
    }

    /// The bearing in degrees.
    pub fn bearing(&self) -> (bearing: Fixed)
        ensures
            bearing@ == self@.bearing,
            self@.valid(),
    {
        proof {
            use_type_invariant(self);
        }
        self.bearing
    }

    /// The range.
    pub fn range(&self) -> (range: Fixed)
        ensures
            range@ == self@.range,
            self@.valid(),
    {
        proof {
            use_type_invariant(self);
        }
        self.range
    }

    /// The station id that the record was made under.
    pub fn station_id(&self) -> (station_id: u32)
        ensures
            station_id == self@.station_id,
    {
        self.station_id
    }

    /// The category.
    pub fn category(&self) -> (category: u32)
        ensures
            category == self@.category,
            self@.valid(),
    {
        proof {
            use_type_invariant(self);
        }
        self.category
    }

    /// The general type.
    pub fn general_type(&self) -> (general_type: u32)
        ensures
            general_type == self@.general_type,
            self@.valid(),
    {
        proof {
            use_type_invariant(self);
        }
        self.general_type
    }
}

} // verus!
