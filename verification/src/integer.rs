//! The primitive integers as the samplers see them.
//!
//! Range arithmetic is carried out on the two's-complement bit pattern of a
//! value, held zero-extended in a `u64`, so that one algorithm serves signed
//! and unsigned types of every width up to 64 bits.

use vstd::arithmetic::div_mod::{
    lemma_fundamental_div_mod, lemma_mod_multiples_vanish, lemma_small_mod,
};
use vstd::prelude::*;

verus! {

/// The integer in `floor .. floor + modulus` that is congruent to `i` modulo
/// `modulus`.
pub open spec fn wrap_value(i: int, floor: int, modulus: int) -> int {
    floor + (i - floor) % modulus
}

/// The value of type `X` that is congruent to `i` modulo the size of `X`.
pub open spec fn wrap<X: Integer>(i: int) -> X {
    X::from_value(wrap_value(i, X::floor(), X::modulus()))
}

/// A fixed-width integer type that can be sampled uniformly.
///
/// An implementation says which integers the type holds and supplies the few
/// machine operations the integer sampler is built from: reading and writing
/// the unsigned bit pattern of a value, and addition and subtraction that
/// wrap around at the boundary of the type.
pub trait Integer: Copy + Sized {
    /// The integer that `self` denotes.
    spec fn value(self) -> int;

    /// The value of this type that denotes `i`, for `i` within the type's range.
    spec fn from_value(i: int) -> Self;

    /// The least integer the type can hold.
    spec fn floor() -> int;

    /// The number of integers the type can hold.
    spec fn modulus() -> int;

    /// The type holds `modulus()` consecutive integers starting at `floor()`,
    /// among them 0 and 1, and has at most 64 bits.
    proof fn lemma_bounds()
        ensures
            2 <= Self::modulus() <= 0x1_0000_0000_0000_0000,
            Self::floor() <= 0,
            1 < Self::floor() + Self::modulus(),
    ;

    /// Every value lies within the type's range.
    proof fn lemma_value_in_range(self)
        ensures
            Self::floor() <= self.value() < Self::floor() + Self::modulus(),
    ;

    /// `from_value` undoes `value`.
    proof fn lemma_from_value_of_value(self)
        ensures
            Self::from_value(self.value()) == self,
    ;

    /// `value` undoes `from_value` within the type's range.
    proof fn lemma_value_of_from_value(i: int)
        requires
            Self::floor() <= i < Self::floor() + Self::modulus(),
        ensures
            Self::from_value(i).value() == i,
    ;

    /// The largest bit pattern of the type: all of its bits set.
    fn unsigned_max() -> (m: u64)
        ensures
            m == Self::modulus() - 1,
    ;

    /// The bit pattern of `self`, zero-extended.
    fn to_unsigned(self) -> (bits: u64)
        ensures
            bits == self.value() % Self::modulus(),
    ;

    /// The value whose bit pattern is the low bits of `bits`.
    fn from_unsigned(bits: u64) -> (x: Self)
        ensures
            x == Self::from_value(wrap_value(bits as int, Self::floor(), Self::modulus())),
    ;

    /// `self + rhs`, wrapping around at the boundary of the type.
    fn wrapping_add(self, rhs: Self) -> (sum: Self)
        ensures
            sum == Self::from_value(
                wrap_value(self.value() + rhs.value(), Self::floor(), Self::modulus()),
            ),
    ;

    /// `self - rhs`, wrapping around at the boundary of the type.
    fn wrapping_sub(self, rhs: Self) -> (difference: Self)
        ensures
            difference == Self::from_value(
                wrap_value(self.value() - rhs.value(), Self::floor(), Self::modulus()),
            ),
    ;
}

impl Integer for u8 {
    open spec fn value(self) -> int {
        self as int
    }

    open spec fn from_value(i: int) -> Self {
        i as u8
    }

    open spec fn floor() -> int {
        0
    }

    open spec fn modulus() -> int {
        0x100
    }

    proof fn lemma_bounds() {
    }

    proof fn lemma_value_in_range(self) {
    }

    proof fn lemma_from_value_of_value(self) {
    }

    proof fn lemma_value_of_from_value(i: int) {
    }

    fn unsigned_max() -> (m: u64) {
        u8::MAX as u64
    }

    fn to_unsigned(self) -> (bits: u64) {
        self as u64
    }

    fn from_unsigned(bits: u64) -> (x: Self) {
        assert(bits as u8 == bits % 0x100) by (bit_vector);
        bits as u8
    }

    fn wrapping_add(self, rhs: Self) -> (sum: Self) {
        self.wrapping_add(rhs)
    }

    fn wrapping_sub(self, rhs: Self) -> (difference: Self) {
        self.wrapping_sub(rhs)
    }
}

impl Integer for u16 {
    open spec fn value(self) -> int {
        self as int
    }

    open spec fn from_value(i: int) -> Self {
        i as u16
    }

    open spec fn floor() -> int {
        0
    }

    open spec fn modulus() -> int {
        0x1_0000
    }

    proof fn lemma_bounds() {
    }

    proof fn lemma_value_in_range(self) {
    }

    proof fn lemma_from_value_of_value(self) {
    }

    proof fn lemma_value_of_from_value(i: int) {
    }

    fn unsigned_max() -> (m: u64) {
        u16::MAX as u64
    }

    fn to_unsigned(self) -> (bits: u64) {
        self as u64
    }

    fn from_unsigned(bits: u64) -> (x: Self) {
        assert(bits as u16 == bits % 0x1_0000) by (bit_vector);
        bits as u16
    }

    fn wrapping_add(self, rhs: Self) -> (sum: Self) {
        self.wrapping_add(rhs)
    }

    fn wrapping_sub(self, rhs: Self) -> (difference: Self) {
        self.wrapping_sub(rhs)
    }
}

impl Integer for u32 {
    open spec fn value(self) -> int {
        self as int
    }

    open spec fn from_value(i: int) -> Self {
        i as u32
    }

    open spec fn floor() -> int {
        0
    }

    open spec fn modulus() -> int {
        0x1_0000_0000
    }

    proof fn lemma_bounds() {
    }

    proof fn lemma_value_in_range(self) {
    }

    proof fn lemma_from_value_of_value(self) {
    }

    proof fn lemma_value_of_from_value(i: int) {
    }

    fn unsigned_max() -> (m: u64) {
        u32::MAX as u64
    }

    fn to_unsigned(self) -> (bits: u64) {
        self as u64
    }

    fn from_unsigned(bits: u64) -> (x: Self) {
        assert(bits as u32 == bits % 0x1_0000_0000) by (bit_vector);
        bits as u32
    }

    fn wrapping_add(self, rhs: Self) -> (sum: Self) {
        self.wrapping_add(rhs)
    }

    fn wrapping_sub(self, rhs: Self) -> (difference: Self) {
        self.wrapping_sub(rhs)
    }
}

impl Integer for u64 {
    open spec fn value(self) -> int {
        self as int
    }

    open spec fn from_value(i: int) -> Self {
        i as u64
    }

    open spec fn floor() -> int {
        0
    }

    open spec fn modulus() -> int {
        0x1_0000_0000_0000_0000
    }

    proof fn lemma_bounds() {
    }

    proof fn lemma_value_in_range(self) {
    }

    proof fn lemma_from_value_of_value(self) {
    }

    proof fn lemma_value_of_from_value(i: int) {
    }

    fn unsigned_max() -> (m: u64) {
        u64::MAX
    }

    fn to_unsigned(self) -> (bits: u64) {
        self
    }

    fn from_unsigned(bits: u64) -> (x: Self) {
        bits
    }

    fn wrapping_add(self, rhs: Self) -> (sum: Self) {
        self.wrapping_add(rhs)
    }

    fn wrapping_sub(self, rhs: Self) -> (difference: Self) {
        self.wrapping_sub(rhs)
    }
}

impl Integer for usize {
    open spec fn value(self) -> int {
        self as int
    }

    open spec fn from_value(i: int) -> Self {
        i as usize
    }

    open spec fn floor() -> int {
        0
    }

    open spec fn modulus() -> int {
        usize::MAX + 1
    }

    proof fn lemma_bounds() {
    }

    proof fn lemma_value_in_range(self) {
    }

    proof fn lemma_from_value_of_value(self) {
    }

    proof fn lemma_value_of_from_value(i: int) {
    }

    fn unsigned_max() -> (m: u64) {
        usize::MAX as u64
    }

    fn to_unsigned(self) -> (bits: u64) {
        proof {
            lemma_small_mod(self as nat, (usize::MAX + 1) as nat);
        }
        self as u64
    }

    fn from_unsigned(bits: u64) -> (x: Self) {
        // The width of the type depends on the machine, so the low bits are
        // cut out by arithmetic.
        if bits <= usize::MAX as u64 {
            proof {
                lemma_small_mod(bits as nat, (usize::MAX + 1) as nat);
            }
            bits as usize
        } else {
            (bits % (usize::MAX as u64 + 1)) as usize
        }
    }

    fn wrapping_add(self, rhs: Self) -> (sum: Self) {
        let sum = self.wrapping_add(rhs);
        proof {
            let carry: int = if self + rhs > usize::MAX { -1 } else { 0 };
            lemma_wrap_unique(self + rhs, sum as int, carry, 0, usize::MAX + 1);
        }
        sum
    }

    fn wrapping_sub(self, rhs: Self) -> (difference: Self) {
        let difference = self.wrapping_sub(rhs);
        proof {
            let borrow: int = if self - rhs < 0 { 1 } else { 0 };
            lemma_wrap_unique(self - rhs, difference as int, borrow, 0, usize::MAX + 1);
        }
        difference
    }
}

impl Integer for i8 {
    open spec fn value(self) -> int {
        self as int
    }

    open spec fn from_value(i: int) -> Self {
        i as i8
    }

    open spec fn floor() -> int {
        -0x80
    }

    open spec fn modulus() -> int {
        0x100
    }

    proof fn lemma_bounds() {
    }

    proof fn lemma_value_in_range(self) {
    }

    proof fn lemma_from_value_of_value(self) {
    }

    proof fn lemma_value_of_from_value(i: int) {
    }

    fn unsigned_max() -> (m: u64) {
        u8::MAX as u64
    }

    fn to_unsigned(self) -> (bits: u64) {
        assert(self as u8 == (self as int) % 0x100) by (bit_vector);
        self as u8 as u64
    }

    fn from_unsigned(bits: u64) -> (x: Self) {
        let low: u8 = bits as u8;
        assert(low == bits % 0x100) by (bit_vector)
            requires
                low == bits as u8,
        ;
        assert(low as i8 == (if low >= 0x80 {
            low - 0x100
        } else {
            low as int
        })) by (bit_vector);
        low as i8
    }

    fn wrapping_add(self, rhs: Self) -> (sum: Self) {
        self.wrapping_add(rhs)
    }

    fn wrapping_sub(self, rhs: Self) -> (difference: Self) {
        self.wrapping_sub(rhs)
    }
}

impl Integer for i16 {
    open spec fn value(self) -> int {
        self as int
    }

    open spec fn from_value(i: int) -> Self {
        i as i16
    }

    open spec fn floor() -> int {
        -0x8000
    }

    open spec fn modulus() -> int {
        0x1_0000
    }

    proof fn lemma_bounds() {
    }

    proof fn lemma_value_in_range(self) {
    }

    proof fn lemma_from_value_of_value(self) {
    }

    proof fn lemma_value_of_from_value(i: int) {
    }

    fn unsigned_max() -> (m: u64) {
        u16::MAX as u64
    }

    fn to_unsigned(self) -> (bits: u64) {
        assert(self as u16 == (self as int) % 0x1_0000) by (bit_vector);
        self as u16 as u64
    }

    fn from_unsigned(bits: u64) -> (x: Self) {
        let low: u16 = bits as u16;
        assert(low == bits % 0x1_0000) by (bit_vector)
            requires
                low == bits as u16,
        ;
        assert(low as i16 == (if low >= 0x8000 {
            low - 0x1_0000
        } else {
            low as int
        })) by (bit_vector);
        low as i16
    }

    fn wrapping_add(self, rhs: Self) -> (sum: Self) {
        self.wrapping_add(rhs)
    }

    fn wrapping_sub(self, rhs: Self) -> (difference: Self) {
        self.wrapping_sub(rhs)
    }
}

impl Integer for i32 {
    open spec fn value(self) -> int {
        self as int
    }

    open spec fn from_value(i: int) -> Self {
        i as i32
    }

    open spec fn floor() -> int {
        -0x8000_0000
    }

    open spec fn modulus() -> int {
        0x1_0000_0000
    }

    proof fn lemma_bounds() {
    }

    proof fn lemma_value_in_range(self) {
    }

    proof fn lemma_from_value_of_value(self) {
    }

    proof fn lemma_value_of_from_value(i: int) {
    }

    fn unsigned_max() -> (m: u64) {
        u32::MAX as u64
    }

    fn to_unsigned(self) -> (bits: u64) {
        assert(self as u32 == (self as int) % 0x1_0000_0000) by (bit_vector);
        self as u32 as u64
    }

    fn from_unsigned(bits: u64) -> (x: Self) {
        let low: u32 = bits as u32;
        assert(low == bits % 0x1_0000_0000) by (bit_vector)
            requires
                low == bits as u32,
        ;
        assert(low as i32 == (if low >= 0x8000_0000 {
            low - 0x1_0000_0000
        } else {
            low as int
        })) by (bit_vector);
        low as i32
    }

    fn wrapping_add(self, rhs: Self) -> (sum: Self) {
        self.wrapping_add(rhs)
    }

    fn wrapping_sub(self, rhs: Self) -> (difference: Self) {
        self.wrapping_sub(rhs)
    }
}

impl Integer for i64 {
    open spec fn value(self) -> int {
        self as int
    }

    open spec fn from_value(i: int) -> Self {
        i as i64
    }

    open spec fn floor() -> int {
        -0x8000_0000_0000_0000
    }

    open spec fn modulus() -> int {
        0x1_0000_0000_0000_0000
    }

    proof fn lemma_bounds() {
    }

    proof fn lemma_value_in_range(self) {
    }

    proof fn lemma_from_value_of_value(self) {
    }

    proof fn lemma_value_of_from_value(i: int) {
    }

    fn unsigned_max() -> (m: u64) {
        u64::MAX
    }

    fn to_unsigned(self) -> (bits: u64) {
        assert(self as u64 == (self as int) % 0x1_0000_0000_0000_0000) by (bit_vector);
        self as u64
    }

    fn from_unsigned(bits: u64) -> (x: Self) {
        assert(bits as i64 == (if bits >= 0x8000_0000_0000_0000 {
            bits - 0x1_0000_0000_0000_0000
        } else {
            bits as int
        })) by (bit_vector);
        bits as i64
    }

    fn wrapping_add(self, rhs: Self) -> (sum: Self) {
        self.wrapping_add(rhs)
    }

    fn wrapping_sub(self, rhs: Self) -> (difference: Self) {
        self.wrapping_sub(rhs)
    }
}

impl Integer for isize {
    open spec fn value(self) -> int {
        self as int
    }

    open spec fn from_value(i: int) -> Self {
        i as isize
    }

    open spec fn floor() -> int {
        isize::MIN as int
    }

    open spec fn modulus() -> int {
        usize::MAX + 1
    }

    proof fn lemma_bounds() {
    }

    proof fn lemma_value_in_range(self) {
    }

    proof fn lemma_from_value_of_value(self) {
    }

    proof fn lemma_value_of_from_value(i: int) {
    }

    fn unsigned_max() -> (m: u64) {
        usize::MAX as u64
    }

    fn to_unsigned(self) -> (bits: u64) {
        // The width of the type depends on the machine, so the pattern is
        // worked out by arithmetic.
        if self >= 0 {
            proof {
                lemma_small_mod(self as nat, (usize::MAX + 1) as nat);
            }
            self as u64
        } else {
            // A negative value has the pattern of its complement, inverted.
            let complement: usize = (-(self + 1)) as usize;
            proof {
                lemma_negative_pattern(self as int, usize::MAX + 1);
            }
            (usize::MAX - complement) as u64
        }
    }

    fn from_unsigned(bits: u64) -> (x: Self) {
        let low: usize = usize::from_unsigned(bits);
        let x: isize = if low <= isize::MAX as usize {
            low as isize
        } else {
            // A pattern with its top bit set denotes a negative value.
            -((usize::MAX - low) as isize) - 1
        };
        proof {
            let m: int = usize::MAX + 1;
            let q: int = bits as int / m;
            lemma_fundamental_div_mod(bits as int, m);
            if low <= isize::MAX {
                assert(x == bits + (-q) * m) by (nonlinear_arith)
                    requires
                        bits == m * q + low,
                        x == low,
                ;
                lemma_wrap_unique(bits as int, x as int, -q, isize::MIN as int, m);
            } else {
                assert(x == bits + (-q - 1) * m) by (nonlinear_arith)
                    requires
                        bits == m * q + low,
                        x == low - m,
                ;
                lemma_wrap_unique(bits as int, x as int, -q - 1, isize::MIN as int, m);
            }
        }
        x
    }

    fn wrapping_add(self, rhs: Self) -> (sum: Self) {
        let sum = self.wrapping_add(rhs);
        proof {
            let carry: int = if self + rhs > isize::MAX {
                -1
            } else if self + rhs < isize::MIN {
                1
            } else {
                0
            };
            lemma_wrap_unique(self + rhs, sum as int, carry, isize::MIN as int, usize::MAX + 1);
        }
        sum
    }

    fn wrapping_sub(self, rhs: Self) -> (difference: Self) {
        let difference = self.wrapping_sub(rhs);
        proof {
            let borrow: int = if self - rhs > isize::MAX {
                -1
            } else if self - rhs < isize::MIN {
                1
            } else {
                0
            };
            lemma_wrap_unique(
                self - rhs,
                difference as int,
                borrow,
                isize::MIN as int,
                usize::MAX + 1,
            );
        }
        difference
    }
}

/// The one integer in `lo .. lo + m` that is congruent to `i` modulo `m` is
/// `lo + (i - lo) % m`.
pub proof fn lemma_wrap_unique(i: int, r: int, k: int, lo: int, m: int)
    requires
        m > 0,
        lo <= r < lo + m,
        r == i + k * m,
    ensures
        lo + (i - lo) % m == r,
{
    assert(i - lo == m * (-k) + (r - lo)) by (nonlinear_arith)
        requires
            r == i + k * m,
    ;
    lemma_mod_multiples_vanish(-k, r - lo, m);
    lemma_small_mod((r - lo) as nat, m as nat);
}

/// A negative `x` no smaller than `-m` is congruent to `x + m` modulo `m`.
pub proof fn lemma_negative_pattern(x: int, m: int)
    requires
        -m <= x < 0,
    ensures
        x % m == x + m,
{
    lemma_wrap_unique(x, x + m, 1, 0, m);
}

} // verus!
