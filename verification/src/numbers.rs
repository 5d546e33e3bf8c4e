//! Floating-point values that are carried, never computed with.

use vstd::prelude::*;

verus! {

/// A single-precision value: its bits, and the bits of the same value in double precision.
#[derive(Clone, Copy, Debug, Default, PartialEq, Eq, Structural)]
pub struct Float32 {
    pub bits: u32,
    pub widened: u64,
}

/// A double-precision value: its bits, and the single-precision value that it rounds to.
#[derive(Clone, Copy, Debug, Default, PartialEq, Eq, Structural)]
pub struct Float64 {
    pub bits: u64,
    pub narrowed: Float32,
}

/// Positive zero.
pub open spec fn zero() -> Float32 {
    Float32 { bits: 0, widened: 0 }
}

impl Float32 {
    pub fn zero() -> (value: Float32)
        ensures
            value == zero(),
    {
        Float32 { bits: 0, widened: 0 }
    }

    pub open spec fn spec_widen(self) -> Float64 {
        Float64 { bits: self.widened, narrowed: self }
    }

    /// The same value in double precision.
    pub fn widen(self) -> (value: Float64)
        ensures
            value == self.spec_widen(),
    {
        Float64 { bits: self.widened, narrowed: self }
    }
}

/// A single-precision value comes back unchanged from double precision.
pub proof fn widening_loses_nothing(value: Float32)
    ensures
        value.spec_widen().narrowed == value,
{
}

/// What `n` leaves when only its low 32 bits are kept.
pub open spec fn low_32(n: nat) -> u32 {
    (n % 0x1_0000_0000) as u32
}

/// The number, or the largest one that 32 bits hold.
pub open spec fn at_most_32(n: u64) -> u32 {
    if n > u32::MAX {
        u32::MAX
    } else {
        n as u32
    }
}

pub fn at_most_u32(n: u64) -> (clamped: u32)
    ensures
        clamped == at_most_32(n),
{
    if n > 0xffff_ffff {
        0xffff_ffff
    } else {
        n as u32
    }
}

/// The signed number that 32 bits write.
pub open spec fn signed_32(n: u32) -> int {
    if n <= i32::MAX {
        n as int
    } else {
        n - 0x1_0000_0000
    }
}

pub fn low_u32(n: usize) -> (low: u32)
    ensures
        low == low_32(n as nat),
{
    let wide: u64 = n as u64;
    assert(wide as u32 == wide % 0x1_0000_0000) by (bit_vector);
    wide as u32
}

pub fn to_signed(n: u32) -> (signed: i32)
    ensures
        signed == signed_32(n),
{
    assert(n <= 0x7fff_ffff ==> n as i32 == n) by (bit_vector);
    assert(n > 0x7fff_ffff ==> n as i32 == n - 0x1_0000_0000) by (bit_vector);
    n as i32
}

/// Counts that fit into 32 bits are written as they are. Of larger ones, the clamped number is
/// the largest one, and the low bits are what is left over whole multiples of their range.
pub proof fn small_counts_are_written_as_they_are(n: u64, wide: nat)
    ensures
        n <= 4294967295 ==> at_most_32(n) == n,
        n > 4294967295 ==> at_most_32(n) == 4294967295,
        wide <= 4294967295 ==> low_32(wide) == wide,
        low_32(wide + 4294967296) == low_32(wide),
        wide <= 2147483647 ==> signed_32(wide as u32) == wide,
        2147483647 < wide <= 4294967295 ==> signed_32(wide as u32) == wide - 4294967296,
{
}

/// A value in double precision keeps both of its writings, and zero has no bit set.
pub proof fn values_keep_their_bits(value: Float32)
    ensures
        value.spec_widen().bits == value.widened,
        value.spec_widen().narrowed.bits == value.bits,
        zero().bits == 0 && zero().widened == 0,
{
}

} // verus!
