//! Fixed-point money: an exact decimal quantity with four fractional digits,
//! stored as a signed count of ten-thousandths. All arithmetic is exact at
//! that scale; no binary floating point is involved anywhere.

use vstd::prelude::*;

verus! {

/// Number of fractional decimal digits carried by every `Money` value.
pub const MONEY_SCALE: u32 = 4;

/// A monetary amount at scale 4: `units` counts ten-thousandths, so the
/// value `10.0004` is stored as `100004`.
#[derive(Clone, Copy, PartialEq, Eq, Structural, Debug, Hash)]
pub struct Money {
    pub units: i64,
}

impl View for Money {
    type V = int;

    open spec fn view(&self) -> int {
        self.units as int
    }
}

/// The mathematical amounts that a `Money` value can represent.
pub open spec fn in_money_range(v: int) -> bool {
    i64::MIN <= v <= i64::MAX
}

impl Money {
    /// Builds an amount from a raw count of ten-thousandths.
    pub fn from_units(units: i64) -> (m: Money)
        ensures
            m@ == units as int,
    {
        Money { units }
    }

    /// The zero amount.
    pub fn zero() -> (m: Money)
        ensures
            m@ == 0,
    {
        Money { units: 0 }
    }

    /// Exact addition; the caller guarantees the sum stays representable.
    pub fn add(self, other: Money) -> (r: Money)
        requires
            in_money_range(self@ + other@),
        ensures
            r@ == self@ + other@,
    {
        Money { units: self.units + other.units }
    }

    /// Exact subtraction; the caller guarantees the difference stays representable.
    pub fn sub(self, other: Money) -> (r: Money)
        requires
            in_money_range(self@ - other@),
        ensures
            r@ == self@ - other@,
    {
        Money { units: self.units - other.units }
    }

    /// Whether the exact sum stays representable.
    pub fn add_in_range(self, other: Money) -> (b: bool)
        ensures
            b == in_money_range(self@ + other@),
    {
        let wide: i128 = (self.units as i128) + (other.units as i128);
        (i64::MIN as i128) <= wide && wide <= (i64::MAX as i128)
    }

    /// Whether the exact difference stays representable.
    pub fn sub_in_range(self, other: Money) -> (b: bool)
        ensures
            b == in_money_range(self@ - other@),
    {
        let wide: i128 = (self.units as i128) - (other.units as i128);
        (i64::MIN as i128) <= wide && wide <= (i64::MAX as i128)
    }

    /// Exact comparison: `self >= other`.
    pub fn ge(self, other: Money) -> (b: bool)
        ensures
            b == (self@ >= other@),
    {
        self.units >= other.units
    }
}

} // verus!
