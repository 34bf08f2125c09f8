//! Widening multiplication: the full double-width product of two words,
//! handed back as its high and low halves.

use vstd::prelude::*;

verus! {

/// Number of values of a 32-bit word.
pub open spec fn pow32() -> int {
    0x1_0000_0000
}

/// Number of values of a 64-bit word.
pub open spec fn pow64() -> int {
    0x1_0000_0000_0000_0000
}

/// The product of two 32-bit words as `(high, low)` halves.
pub fn wmul32(a: u32, b: u32) -> (r: (u32, u32))
    ensures
        r.0 == (a * b) / pow32(),
        r.1 == (a * b) % pow32(),
{
    assert(a * b <= 0xffff_ffff * 0xffff_ffff) by (nonlinear_arith);
    let wide: u64 = (a as u64) * (b as u64);
    let hi: u32 = (wide >> 32) as u32;
    let lo: u32 = wide as u32;
    assert(wide >> 32 == wide / 0x1_0000_0000) by (bit_vector);
    assert(wide as u32 == wide % 0x1_0000_0000) by (bit_vector);
    (hi, lo)
}

/// The product of two 64-bit words as `(high, low)` halves.
pub fn wmul64(a: u64, b: u64) -> (r: (u64, u64))
    ensures
        r.0 == (a * b) / pow64(),
        r.1 == (a * b) % pow64(),
{
    assert(a * b <= 0xffff_ffff_ffff_ffff * 0xffff_ffff_ffff_ffff) by (nonlinear_arith);
    let wide: u128 = (a as u128) * (b as u128);
    let hi: u64 = (wide >> 64) as u64;
    let lo: u64 = wide as u64;
    assert(wide >> 64 == wide / 0x1_0000_0000_0000_0000) by (bit_vector);
    assert(wide as u64 == wide % 0x1_0000_0000_0000_0000) by (bit_vector);
    (hi, lo)
}

} // verus!
