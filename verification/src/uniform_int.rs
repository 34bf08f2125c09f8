//! The back-end for the primitive integers: rejection sampling on the result
//! of a widening multiplication.
//!
//! A raw word `raw` of the working width is multiplied by the number of
//! values to choose from, `range`. The high half of the double-width product
//! is then a number below `range`, and the draw is kept if the low half does
//! not exceed `zone`; otherwise another word is drawn. Types of up to 32 bits
//! work on 32-bit words, wider types on 64-bit words.

use crate::integer::{wrap, Integer};
use crate::rng::Rng;
use crate::sampler::{SampleBorrow, SampleUniform, UniformSampler};
use crate::wmul::{pow32, pow64, wmul32, wmul64};
use vstd::arithmetic::div_mod::{
    lemma_add_mod_noop, lemma_fundamental_div_mod, lemma_mod_bound, lemma_mod_multiples_vanish,
    lemma_small_mod, lemma_sub_mod_noop,
};
use vstd::prelude::*;
use vstd::std_specs::bits::{
    axiom_u32_leading_zeros, axiom_u64_leading_zeros, u32_leading_zeros, u64_leading_zeros,
};

verus! {

/// The number of rejected draws after which a rejection loop stops drawing.
///
/// Rejection sampling ends with probability one, but after no fixed number of
/// draws, so there is no measure by which its loop provably ends. The loops
/// of this crate therefore count their rejected draws. Fewer than half of all
/// raw words are rejected, so with a sound source the limit is beyond the
/// reach of any run; a loop that does reach it yields the lower bound of its
/// range.
pub const REDRAW_LIMIT: u64 = 0xffff_ffff_ffff_ffff;

/// The number of raw words of the width that the sampler for `X` works on.
pub open spec fn working_modulus<X: Integer>() -> int {
    if X::modulus() <= pow32() {
        pow32()
    } else {
        pow64()
    }
}

/// The number of integers in `low ..= high` as a bit pattern of `X`: reduced
/// modulo the size of the type, so that 0 stands for the whole type.
pub open spec fn range_bits<X: Integer>(low: X, high: X) -> int {
    (high.value() - low.value() + 1) % X::modulus()
}

/// How many of `m` consecutive raw words are left over when as many as
/// possible are dealt out evenly among `range` values.
pub open spec fn rejects(range: int, m: int) -> int {
    if range > 0 {
        (m - range) % range
    } else {
        0
    }
}

/// The result of one step of rejection sampling: the value that the raw word
/// `raw` stands for, if the step keeps it.
pub open spec fn accept_spec<X: Integer>(low: X, range: int, zone: int, raw: int) -> Option<X> {
    let product = raw * range;
    if product % working_modulus::<X>() <= zone {
        Some(X::from_value(low.value() + product / working_modulus::<X>()))
    } else {
        None
    }
}

/// The acceptance zone that a one-off draw from `range` values uses.
///
/// Types of up to 16 bits get the largest zone that deals the 32-bit words
/// out evenly. Wider types get `range` shifted left as far as it goes, which
/// is quicker to compute and rejects somewhat more often.
pub open spec fn single_zone_spec<X: Integer>(range: u64) -> u64 {
    if X::modulus() <= 0x1_0000 {
        (pow32() - 1 - rejects(range as int, pow32())) as u64
    } else if X::modulus() <= pow32() {
        ((range as u32) << u32_leading_zeros(range as u32)) as u64
    } else {
        range << u64_leading_zeros(range)
    }
}

/// `wrap::<X>(i)` denotes the integer of the type that is congruent to `i`.
pub proof fn lemma_wrap<X: Integer>(i: int)
    ensures
        X::floor() <= wrap::<X>(i).value() < X::floor() + X::modulus(),
        wrap::<X>(i).value() % X::modulus() == i % X::modulus(),
        X::floor() <= i < X::floor() + X::modulus() ==> wrap::<X>(i) == X::from_value(i)
            && wrap::<X>(i).value() == i,
{
    let m = X::modulus();
    let lo = X::floor();
    X::lemma_bounds();
    lemma_mod_bound(i - lo, m);
    X::lemma_value_of_from_value(lo + (i - lo) % m);
    lemma_fundamental_div_mod(i - lo, m);
    let q = (i - lo) / m;
    assert(lo + (i - lo) % m == m * (-q) + i) by (nonlinear_arith)
        requires
            i - lo == m * q + (i - lo) % m,
    ;
    lemma_mod_multiples_vanish(-q, i, m);
    if lo <= i < lo + m {
        lemma_small_mod((i - lo) as nat, m as nat);
    }
}

/// Integers that are congruent modulo the size of the type wrap to the same
/// value.
pub proof fn lemma_wrap_congruent<X: Integer>(i: int, j: int)
    requires
        i % X::modulus() == j % X::modulus(),
    ensures
        wrap::<X>(i) == wrap::<X>(j),
{
    X::lemma_bounds();
    lemma_sub_mod_noop(i, X::floor(), X::modulus());
    lemma_sub_mod_noop(j, X::floor(), X::modulus());
}

/// Congruence is kept when the same number is added on both sides.
pub proof fn lemma_mod_add_congruent(a: int, b: int, c: int, m: int)
    requires
        m > 0,
        a % m == b % m,
    ensures
        (a + c) % m == (b + c) % m,
{
    lemma_add_mod_noop(a, c, m);
    lemma_add_mod_noop(b, c, m);
}

/// The high half of the product of a raw word with `range` is below `range`.
pub proof fn lemma_high_half_below_range(raw: int, range: int, n: int)
    requires
        0 <= raw < n,
        0 < range,
    ensures
        0 <= (raw * range) / n < range,
{
    assert(0 <= (raw * range) / n < range) by (nonlinear_arith)
        requires
            0 <= raw < n,
            0 < range,
    ;
}

/// The sampler for a range of integers of type `X`.
///
/// `low` is the least value of the range. `range` holds the number of values
/// of the range as a bit pattern of `X`, with 0 standing for the whole type,
/// and `zone` the bit pattern of the largest low half for which a draw is
/// kept.
#[derive(Clone, Copy, Debug)]
pub struct UniformInt<X> {
    low: X,
    range: X,
    zone: X,
}

impl<X: Integer> UniformInt<X> {
    /// The least value of the range.
    pub closed spec fn spec_low(&self) -> X {
        self.low
    }

    /// The number of values of the range, as a bit pattern of `X`.
    pub closed spec fn spec_range(&self) -> X {
        self.range
    }

    /// The acceptance zone, as a bit pattern of `X`.
    pub closed spec fn spec_zone(&self) -> X {
        self.zone
    }

    /// The number of values of the range.
    pub open spec fn span(&self) -> int {
        let range = self.range().value() % X::modulus();
        if range == 0 {
            X::modulus()
        } else {
            range
        }
    }

    /// The acceptance zone at the width that the sampler works on: all raw
    /// words but the largest few, as many as the range analysis rejects.
    pub open spec fn working_zone(&self) -> int {
        working_modulus::<X>() - 1 - rejects(self.span(), X::modulus())
    }

    /// The least value of the range.
    #[verifier::when_used_as_spec(spec_low)]
    pub fn low(&self) -> (low: X)
        ensures
            low == self.spec_low(),
    {
        self.low
    }

    /// The number of values of the range, as a bit pattern of `X`.
    #[verifier::when_used_as_spec(spec_range)]
    pub fn range(&self) -> (range: X)
        ensures
            range == self.spec_range(),
    {
        self.range
    }

    /// The acceptance zone, as a bit pattern of `X`.
    #[verifier::when_used_as_spec(spec_zone)]
    pub fn zone(&self) -> (zone: X)
        ensures
            zone == self.spec_zone(),
    {
        self.zone
    }
}

impl<X: Integer> SampleUniform for X {
    type Sampler = UniformInt<X>;
}

/// What `UniformInt::new_inclusive` builds from bounds that are in order.
pub proof fn lemma_new_inclusive<X: Integer>(low: X, high: X)
    requires
        low.value() <= high.value(),
    ensures
        ({
            let s = UniformInt::<X>::spec_new_inclusive(low, high);
            let range = range_bits(low, high);
            &&& s.low() == low
            &&& s.range() == wrap::<X>(range)
            &&& s.zone() == wrap::<X>(X::modulus() - 1 - rejects(range, X::modulus()))
            &&& s.span() == high.value() - low.value() + 1
            &&& s.wf()
            &&& forall|v: X| #[trigger] s.contains(v) <==> low.value() <= v.value() <= high.value()
        }),
{
    let s = UniformInt::<X>::spec_new_inclusive(low, high);
    let m = X::modulus();
    let range = range_bits(low, high);
    let count = high.value() - low.value() + 1;
    X::lemma_bounds();
    low.lemma_value_in_range();
    high.lemma_value_in_range();
    lemma_mod_bound(count, m);
    if count < m {
        lemma_small_mod(count as nat, m as nat);
    } else {
        lemma_mod_multiples_vanish(1, 0, m);
        lemma_small_mod(0, m as nat);
    }
    lemma_wrap::<X>(range);
    lemma_small_mod(range as nat, m as nat);
    if range > 0 {
        lemma_mod_bound(m - range, range);
    }
    let zone = m - 1 - rejects(range, m);
    lemma_wrap::<X>(zone);
    lemma_small_mod(zone as nat, m as nat);
    assert(s.span() == count);
    assert(s.wf());
    assert forall|v: X| #[trigger] s.contains(v) <==> low.value() <= v.value() <= high.value() by {
    }
}

/// What `UniformInt::new` builds from a range that is not empty.
pub proof fn lemma_new<X: Integer>(low: X, high: X)
    requires
        low.value() < high.value(),
    ensures
        ({
            let s = UniformInt::<X>::spec_new(low, high);
            &&& s == UniformInt::<X>::spec_new_inclusive(low, X::from_value(high.value() - 1))
            &&& s.low() == low
            &&& s.span() == high.value() - low.value()
            &&& s.wf()
            &&& forall|v: X| #[trigger] s.contains(v) <==> low.value() <= v.value() < high.value()
        }),
{
    low.lemma_value_in_range();
    high.lemma_value_in_range();
    lemma_wrap::<X>(high.value() - 1);
    lemma_new_inclusive(low, wrap::<X>(high.value() - 1));
}

/// The sampler for a closed range whose bounds are equal yields that one
/// value and no other.
pub proof fn lemma_single_value<X: Integer>(low: X, v: X)
    requires
        UniformInt::<X>::spec_new_inclusive(low, low).contains(v),
    ensures
        v == low,
{
    lemma_new_inclusive(low, low);
    low.lemma_from_value_of_value();
    v.lemma_from_value_of_value();
}

impl<X: Integer> UniformSampler for UniformInt<X> {
    type X = X;

    open spec fn lt(a: X, b: X) -> bool {
        a.value() < b.value()
    }

    open spec fn le(a: X, b: X) -> bool {
        a.value() <= b.value()
    }

    open spec fn spec_new(low: X, high: X) -> Self {
        Self::spec_new_inclusive(low, wrap::<X>(high.value() - 1))
    }

    closed spec fn spec_new_inclusive(low: X, high: X) -> Self {
        let range = range_bits(low, high);
        UniformInt {
            low,
            range: wrap::<X>(range),
            zone: wrap::<X>(X::modulus() - 1 - rejects(range, X::modulus())),
        }
    }

    /// The range lies within the type, and the zone is the one that belongs
    /// to the range.
    open spec fn wf(&self) -> bool {
        &&& self.low().value() + self.span() <= X::floor() + X::modulus()
        &&& self.zone().value() % X::modulus() == X::modulus() - 1 - rejects(
            self.range().value() % X::modulus(),
            X::modulus(),
        )
    }

    open spec fn contains(&self, v: X) -> bool {
        self.low().value() <= v.value() < self.low().value() + self.span()
    }

    /// Builds the sampler for `low .. high`: the one for `low ..= high - 1`.
    fn new<B1, B2>(low_b: B1, high_b: B2) -> (s: Self) where
        B1: SampleBorrow<X> + Sized,
        B2: SampleBorrow<X> + Sized,

        ensures
            s.low() == low_b.borrowed(),
            s.span() == high_b.borrowed().value() - low_b.borrowed().value(),
    {
        let low = *low_b.borrow();
        let high = *high_b.borrow();
        assert(UniformInt::<X>::lt(low, high));
        proof {
            X::lemma_bounds();
            low.lemma_value_in_range();
            lemma_wrap::<X>(1);
            lemma_wrap::<X>(high.value() - 1);
            lemma_new(low, high);
        }
        let last = high.wrapping_sub(X::from_unsigned(1));
        assert(UniformInt::<X>::le(low, last));
        let s = Self::new_inclusive(low, last);
        assert(s == UniformInt::<X>::spec_new(low, high));
        assert(s.wf());
        assert forall|v: X| #[trigger]
            s.contains(v) <==> UniformInt::<X>::le(low, v) && UniformInt::<X>::lt(v, high) by {}
        s
    }

    /// Builds the sampler for `low ..= high`.
    ///
    /// The number of values is counted with wrapping arithmetic, so that the
    /// count for a whole type comes out as 0. The zone leaves out as many of
    /// the largest bit patterns as are left over when the patterns are dealt
    /// out evenly among the values.
    fn new_inclusive<B1, B2>(low_b: B1, high_b: B2) -> (s: Self) where
        B1: SampleBorrow<X> + Sized,
        B2: SampleBorrow<X> + Sized,

        ensures
            s.low() == low_b.borrowed(),
            s.span() == high_b.borrowed().value() - low_b.borrowed().value() + 1,
    {
        let low = *low_b.borrow();
        let high = *high_b.borrow();
        let unsigned_max = X::unsigned_max();
        let one = X::from_unsigned(1);
        let distance = high.wrapping_sub(low);
        let range = distance.wrapping_add(one).to_unsigned();
        proof {
            let m = X::modulus();
            X::lemma_bounds();
            lemma_wrap::<X>(1);
            lemma_wrap::<X>(high.value() - low.value());
            lemma_wrap::<X>(distance.value() + 1);
            lemma_mod_add_congruent(distance.value(), high.value() - low.value(), 1, m);
            assert(range == range_bits(low, high));
            lemma_mod_bound(high.value() - low.value() + 1, m);
        }
        let ints_to_reject = if range > 0 {
            (unsigned_max - range + 1) % range
        } else {
            0
        };
        let zone = unsigned_max - ints_to_reject;
        let s = UniformInt { low, range: X::from_unsigned(range), zone: X::from_unsigned(zone) };
        proof {
            lemma_new_inclusive(low, high);
        }
        assert(s == UniformInt::<X>::spec_new_inclusive(low, high));
        assert(s.wf());
        assert forall|v: X| #[trigger]
            s.contains(v) <==> UniformInt::<X>::le(low, v) && UniformInt::<X>::le(v, high) by {}
        s
    }

    /// Draws one value of the range.
    ///
    /// A sampler for a whole type hands on the raw word it draws. Any other
    /// draws raw words until a step of rejection sampling keeps one, up to
    /// [`REDRAW_LIMIT`] rejected words. The steps are those of [`accept`] on
    /// `low`, `span` and `working_zone`.
    fn sample<R: Rng + ?Sized>(&self, rng: &mut R) -> (v: X) {
        assert(self.wf());
        let range = self.range.to_unsigned();
        proof {
            X::lemma_bounds();
            self.low.lemma_value_in_range();
            lemma_mod_bound(self.range.value(), X::modulus());
            lemma_mod_bound(self.zone.value(), X::modulus());
            if range > 0 {
                lemma_mod_bound(X::modulus() - range, range as int);
            }
        }
        let v = if range > 0 {
            // The zone at the working width is the stored zone, sign-extended.
            // Its top bit is set, so the bits above it are filled with ones:
            // as many words fall outside the wide zone as outside the stored
            // one.
            let zone = working_max::<X>() - (X::unsigned_max() - self.zone.to_unsigned());
            assert(range == self.span() && zone == self.working_zone());
            sample_loop(self.low, range, zone, rng)
        } else {
            // The range is the whole type: every bit pattern is a sample.
            let raw = draw::<X, R>(rng);
            proof {
                lemma_wrap::<X>(raw as int);
            }
            X::from_unsigned(raw)
        };
        assert(self.contains(v));
        v
    }

    /// Draws one value of `low .. high`.
    ///
    /// The steps are those of [`UniformSampler::sample`], with the zone that
    /// [`single_zone`] computes in place of the one a sampler holds.
    fn sample_single<R: Rng + ?Sized, B1, B2>(low_b: B1, high_b: B2, rng: &mut R) -> (v: X) where
        B1: SampleBorrow<X> + Sized,
        B2: SampleBorrow<X> + Sized,
    {
        let low = *low_b.borrow();
        let high = *high_b.borrow();
        proof {
            let m = X::modulus();
            X::lemma_bounds();
            low.lemma_value_in_range();
            high.lemma_value_in_range();
            lemma_wrap::<X>(high.value() - low.value());
            lemma_small_mod((high.value() - low.value()) as nat, m as nat);
        }
        let range = high.wrapping_sub(low).to_unsigned();
        let zone = single_zone::<X>(range);
        let v = sample_loop(low, range, zone, rng);
        assert(UniformInt::<X>::le(low, v) && UniformInt::<X>::lt(v, high));
        v
    }
}

/// The largest raw word of the width that the sampler for `X` works on.
fn working_max<X: Integer>() -> (max: u64)
    ensures
        max == working_modulus::<X>() - 1,
{
    if X::unsigned_max() <= 0xffff_ffff {
        0xffff_ffff
    } else {
        0xffff_ffff_ffff_ffff
    }
}

/// Draws a raw word of the width that the sampler for `X` works on.
fn draw<X: Integer, R: Rng + ?Sized>(rng: &mut R) -> (raw: u64)
    ensures
        raw < working_modulus::<X>(),
{
    if X::unsigned_max() <= 0xffff_ffff {
        rng.next_u32() as u64
    } else {
        rng.next_u64()
    }
}

/// Computes the acceptance zone for a one-off draw from `range` values.
pub fn single_zone<X: Integer>(range: u64) -> (zone: u64)
    requires
        0 < range < X::modulus(),
    ensures
        zone == single_zone_spec::<X>(range),
        zone < working_modulus::<X>(),
{
    broadcast use {axiom_u32_leading_zeros, axiom_u64_leading_zeros};

    if X::unsigned_max() <= 0xffff {
        // A modulus is cheap enough here, and the exact zone saves redraws.
        let unsigned_max: u64 = 0xffff_ffff;
        let ints_to_reject = (unsigned_max - range + 1) % range;
        unsigned_max - ints_to_reject
    } else if X::unsigned_max() <= 0xffff_ffff {
        let narrow = range as u32;
        (narrow << narrow.leading_zeros()) as u64
    } else {
        range << range.leading_zeros()
    }
}

/// Runs one step of rejection sampling on the raw word `raw`.
///
/// The product of `raw` and `range` is split into its high and low halves.
/// Where the low half does not exceed `zone`, the step yields `low` plus the
/// high half; otherwise it rejects the word.
pub fn accept<X: Integer>(low: X, range: u64, zone: u64, raw: u64) -> (r: Option<X>)
    requires
        0 < range < X::modulus(),
        low.value() + range <= X::floor() + X::modulus(),
        raw < working_modulus::<X>(),
    ensures
        r == accept_spec::<X>(low, range as int, zone as int, raw as int),
        r matches Some(v) ==> low.value() <= v.value() < low.value() + range,
{
    let (hi, lo) = if X::unsigned_max() <= 0xffff_ffff {
        let (hi, lo) = wmul32(raw as u32, range as u32);
        (hi as u64, lo as u64)
    } else {
        wmul64(raw, range)
    };
    if lo <= zone {
        proof {
            let m = X::modulus();
            let target = low.value() + hi;
            X::lemma_bounds();
            low.lemma_value_in_range();
            lemma_high_half_below_range(raw as int, range as int, working_modulus::<X>());
            lemma_wrap::<X>(hi as int);
            lemma_mod_add_congruent(wrap::<X>(hi as int).value(), hi as int, low.value(), m);
            lemma_wrap_congruent::<X>(low.value() + wrap::<X>(hi as int).value(), target);
            lemma_wrap::<X>(target);
        }
        Some(low.wrapping_add(X::from_unsigned(hi)))
    } else {
        None
    }
}

/// Draws raw words until a step of rejection sampling keeps one.
fn sample_loop<X: Integer, R: Rng + ?Sized>(low: X, range: u64, zone: u64, rng: &mut R) -> (v: X)
    requires
        0 < range < X::modulus(),
        low.value() + range <= X::floor() + X::modulus(),
    ensures
        low.value() <= v.value() < low.value() + range,
        // The value is what a step makes of a raw word of the working width,
        // or the lower bound, which the loop yields at the redraw limit.
        v == low || exists|raw: int|
            0 <= raw < working_modulus::<X>() && #[trigger] accept_spec::<X>(
                low,
                range as int,
                zone as int,
                raw,
            ) == Some(v),
{
    let mut redraws: u64 = 0;
    loop
        invariant
            0 < range < X::modulus(),
            low.value() + range <= X::floor() + X::modulus(),
        decreases REDRAW_LIMIT - redraws,
    {
        let raw = draw::<X, R>(rng);
        if let Some(v) = accept(low, range, zone, raw) {
            return v;
        }
        if redraws >= REDRAW_LIMIT {
            // Out of reach with a sound source; see `REDRAW_LIMIT`.
            return low;
        }
        redraws += 1;
    }
}

} // verus!
