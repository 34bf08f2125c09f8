//! Bit patterns of binary floating-point numbers in the interval from one
//! (included) to two (excluded).
//!
//! Every number of that interval has the same sign and the same exponent, and
//! its fraction field simply counts equal steps upwards from one. A raw word
//! therefore yields a uniformly distributed number of the interval once its
//! low bits are dropped and the rest is put below the exponent of one. A
//! sampler for an arbitrary range scales and shifts that number.

use vstd::prelude::*;

verus! {

/// The exponent field of a single-precision bit pattern.
pub open spec fn single_exponent(bits: u32) -> int {
    (bits as int / 0x80_0000) % 0x100
}

/// The fraction field of a single-precision bit pattern.
pub open spec fn single_fraction(bits: u32) -> int {
    bits as int % 0x80_0000
}

/// The exponent field of a double-precision bit pattern.
pub open spec fn double_exponent(bits: u64) -> int {
    (bits as int / 0x10_0000_0000_0000) % 0x800
}

/// The fraction field of a double-precision bit pattern.
pub open spec fn double_fraction(bits: u64) -> int {
    bits as int % 0x10_0000_0000_0000
}

/// The bit pattern of the single-precision number `1 + k / 2^23`, where `k`
/// is `raw` without its lowest 9 bits.
///
/// The pattern has a clear sign bit and the exponent field of one, 127, and
/// its fraction field holds the 23 highest bits of `raw`.
pub fn single_from_raw(raw: u32) -> (bits: u32)
    ensures
        bits == 0x3f80_0000 + raw / 0x200,
        bits < 0x8000_0000,
        single_exponent(bits) == 127,
        single_fraction(bits) == raw / 0x200,
{
    let fraction = raw >> 9;
    let bits = fraction | 0x3f80_0000;
    assert(fraction == raw / 0x200 && fraction < 0x80_0000) by (bit_vector)
        requires
            fraction == raw >> 9,
    ;
    assert(bits == 0x3f80_0000 + fraction) by (bit_vector)
        requires
            fraction < 0x80_0000,
            bits == fraction | 0x3f80_0000,
    ;
    bits
}

/// The bit pattern of the double-precision number `1 + k / 2^52`, where `k`
/// is `raw` without its lowest 12 bits.
///
/// The pattern has a clear sign bit and the exponent field of one, 1023, and
/// its fraction field holds the 52 highest bits of `raw`.
pub fn double_from_raw(raw: u64) -> (bits: u64)
    ensures
        bits == 0x3ff0_0000_0000_0000 + raw / 0x1000,
        bits < 0x8000_0000_0000_0000,
        double_exponent(bits) == 1023,
        double_fraction(bits) == raw / 0x1000,
{
    let fraction = raw >> 12;
    let bits = fraction | 0x3ff0_0000_0000_0000;
    assert(fraction == raw / 0x1000 && fraction < 0x10_0000_0000_0000) by (bit_vector)
        requires
            fraction == raw >> 12,
    ;
    assert(bits == 0x3ff0_0000_0000_0000 + fraction) by (bit_vector)
        requires
            fraction < 0x10_0000_0000_0000,
            bits == fraction | 0x3ff0_0000_0000_0000,
    ;
    bits
}

} // verus!
