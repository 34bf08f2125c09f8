//! How a step of rejection sampling deals the raw words out among the values
//! of a range.
//!
//! The raw words that a step turns into one value are consecutive, so their
//! number is the length of an interval. That number differs between two
//! values by one word at most, and not at all where the acceptance zone
//! holds a whole multiple of the number of values, as the zone of a sampler
//! for a 32-bit or 64-bit type does. Drawn from a uniform source, the values
//! of such a sampler are therefore equally likely.

use crate::integer::Integer;
use crate::sampler::UniformSampler;
use crate::uniform_int::{
    accept_spec, lemma_high_half_below_range, rejects, single_zone_spec, working_modulus,
    UniformInt,
};
use crate::wmul::pow32;
use vstd::arithmetic::div_mod::{
    lemma_fundamental_div_mod, lemma_fundamental_div_mod_converse, lemma_mod_bound,
};
use vstd::prelude::*;
use vstd::std_specs::bits::{
    axiom_u32_leading_zeros, axiom_u64_leading_zeros, u32_leading_zeros, u64_leading_zeros,
};

verus! {

/// The least raw word that a step turns into the `t`-th value of the range.
pub open spec fn first_word(t: int, range: int, n: int) -> int {
    (t * n - 1) / range + 1
}

/// The greatest raw word that a step turns into the `t`-th value of the
/// range.
pub open spec fn last_word(t: int, range: int, zone: int, n: int) -> int {
    (t * n + zone) / range
}

/// The number of raw words that a step turns into the `t`-th value of the
/// range.
pub open spec fn share(t: int, range: int, zone: int, n: int) -> int {
    last_word(t, range, zone, n) - first_word(t, range, n) + 1
}

/// The quotient `x / d` is the greatest integer whose product with `d` does
/// not exceed `x`.
pub proof fn lemma_quotient_is_greatest(x: int, d: int, k: int)
    requires
        d > 0,
    ensures
        k <= x / d <==> k * d <= x,
{
    let q = x / d;
    let r = x % d;
    lemma_fundamental_div_mod(x, d);
    lemma_mod_bound(x, d);
    if k <= q {
        assert(k * d <= q * d) by (nonlinear_arith)
            requires
                k <= q,
                d > 0,
        ;
        assert(d * q == q * d) by (nonlinear_arith);
    } else {
        assert(k * d >= (q + 1) * d) by (nonlinear_arith)
            requires
                k >= q + 1,
                d > 0,
        ;
        assert((q + 1) * d == d * q + d) by (nonlinear_arith);
    }
}

/// A step turns the raw word `raw` into the `t`-th value of the range exactly
/// if `raw` lies between the first and the last word of that value.
pub proof fn lemma_words_of_value(raw: int, t: int, range: int, zone: int, n: int)
    requires
        0 < range,
        0 <= zone < n,
        0 <= raw,
    ensures
        ((raw * range) / n == t && (raw * range) % n <= zone) <==> first_word(t, range, n) <= raw
            <= last_word(t, range, zone, n),
{
    let product = raw * range;
    lemma_fundamental_div_mod(product, n);
    lemma_mod_bound(product, n);
    // The step keeps `raw` for `t` exactly if the product lies in the window
    // of `zone + 1` numbers that starts at `t * n`.
    if t * n <= product <= t * n + zone {
        lemma_fundamental_div_mod_converse(product, n, t, product - t * n);
    }
    if product / n == t {
        assert(n * (product / n) == t * n) by (nonlinear_arith)
            requires
                product / n == t,
        ;
    }
    assert((product / n == t && product % n <= zone) <==> t * n <= product <= t * n + zone);
    // The window holds the products of the words from the first to the last.
    lemma_quotient_is_greatest(t * n + zone, range, raw);
    lemma_quotient_is_greatest(t * n - 1, range, raw);
}

/// The words of a value are raw words, and their number is the number of
/// values that fit the acceptance zone, or one more. Where the zone holds a
/// whole multiple of the number of values, every value has the same number
/// of words.
pub proof fn lemma_share(t: int, range: int, zone: int, n: int)
    requires
        0 < range,
        0 <= zone < n,
        0 <= t < range,
    ensures
        0 <= first_word(t, range, n),
        last_word(t, range, zone, n) < n,
        (zone + 1) / range <= share(t, range, zone, n) <= (zone + 1) / range + 1,
        (zone + 1) % range == 0 ==> share(t, range, zone, n) == (zone + 1) / range,
{
    let before = t * n - 1;
    let length = zone + 1;
    assert(0 <= t * n) by (nonlinear_arith)
        requires
            0 <= t,
            0 < n,
    ;
    // The first word is not negative.
    lemma_quotient_is_greatest(before, range, -1);
    // The last word is below `n`.
    assert(n * range > t * n + zone) by (nonlinear_arith)
        requires
            t + 1 <= range,
            0 <= zone < n,
    ;
    lemma_quotient_is_greatest(t * n + zone, range, n);
    // The quotients of `before` and of `before + length` differ by the
    // quotient of `length`, or by one more.
    lemma_fundamental_div_mod(before, range);
    lemma_mod_bound(before, range);
    lemma_fundamental_div_mod(length, range);
    lemma_mod_bound(length, range);
    let rest = before % range + length % range;
    let quotient = before / range + length / range;
    if rest < range {
        assert(before + length == quotient * range + rest) by (nonlinear_arith)
            requires
                before == range * (before / range) + before % range,
                length == range * (length / range) + length % range,
                rest == before % range + length % range,
                quotient == before / range + length / range,
        ;
        lemma_fundamental_div_mod_converse(before + length, range, quotient, rest);
    } else {
        assert(before + length == (quotient + 1) * range + (rest - range)) by (nonlinear_arith)
            requires
                before == range * (before / range) + before % range,
                length == range * (length / range) + length % range,
                rest == before % range + length % range,
                quotient == before / range + length / range,
        ;
        lemma_fundamental_div_mod_converse(before + length, range, quotient + 1, rest - range);
    }
}

/// Fewer than half of `m` consecutive raw words are left over when the rest
/// is dealt out evenly among `range` values.
pub proof fn lemma_rejects_below_half(range: int, m: int)
    requires
        0 < range <= m,
    ensures
        0 <= rejects(range, m) < range,
        2 * rejects(range, m) < m,
        (m - rejects(range, m)) % range == 0,
        (m - rejects(range, m)) / range == m / range,
{
    let rest = (m - range) % range;
    let quotient = (m - range) / range;
    lemma_fundamental_div_mod(m - range, range);
    lemma_mod_bound(m - range, range);
    assert(0 <= quotient) by {
        lemma_quotient_is_greatest(m - range, range, 0);
    }
    assert(range * quotient >= 0) by (nonlinear_arith)
        requires
            0 <= quotient,
            0 < range,
    ;
    assert(m - rest == (quotient + 1) * range + 0) by (nonlinear_arith)
        requires
            m - range == range * quotient + rest,
    ;
    lemma_fundamental_div_mod_converse(m - rest, range, quotient + 1, 0);
    assert(m == (quotient + 1) * range + rest) by (nonlinear_arith)
        requires
            m - range == range * quotient + rest,
    ;
    lemma_fundamental_div_mod_converse(m, range, quotient + 1, rest);
}

/// The zone that a sampler holds has its top bit set, so that the zone at the
/// working width can be had from it by sign extension: the bits put above it
/// are all ones.
pub proof fn lemma_zone_top_bit<X: Integer>(s: UniformInt<X>)
    requires
        s.wf(),
    ensures
        ({
            let bits = s.zone().value() % X::modulus();
            &&& X::modulus() <= 2 * bits + 1 < 2 * X::modulus()
            &&& s.working_zone() == working_modulus::<X>() - X::modulus() + bits
        }),
{
    X::lemma_bounds();
    lemma_mod_bound(s.range().value(), X::modulus());
    if s.span() < X::modulus() {
        lemma_rejects_below_half(s.span(), X::modulus());
    }
}

/// The sampler for a range of a 32-bit or 64-bit type keeps the same number
/// of raw words for every value of the range: the number of all raw words
/// divided by the number of values, rounded down. The words of a value are
/// consecutive.
pub proof fn lemma_even_shares<X: Integer>(s: UniformInt<X>, t: int, raw: int)
    requires
        s.wf(),
        X::modulus() == working_modulus::<X>(),
        s.span() < X::modulus(),
        0 <= t < s.span(),
        0 <= raw < working_modulus::<X>(),
    ensures
        ({
            let n = working_modulus::<X>();
            let first = first_word(t, s.span(), n);
            let last = last_word(t, s.span(), s.working_zone(), n);
            &&& accept_spec::<X>(s.low(), s.span(), s.working_zone(), raw) == Some(
                X::from_value(s.low().value() + t),
            ) <==> first <= raw <= last
            &&& 0 <= first
            &&& last < n
            &&& last - first + 1 == n / s.span()
        }),
{
    let n = working_modulus::<X>();
    let range = s.span();
    let zone = s.working_zone();
    lemma_mod_bound(s.range().value(), X::modulus());
    lemma_rejects_below_half(range, n);
    lemma_words_of_value(raw, t, range, zone, n);
    lemma_share(t, range, zone, n);
    lemma_high_half_below_range(raw, range, n);
    lemma_same_value::<X>(s.low(), t, (raw * range) / n, range);
}

/// Every integer sampler keeps for two values of its range numbers of raw
/// words that differ by one at most, and rejects fewer raw words than half
/// the size of the type. The words of a value are consecutive.
pub proof fn lemma_near_even_shares<X: Integer>(s: UniformInt<X>, t: int, raw: int)
    requires
        s.wf(),
        s.span() < X::modulus(),
        0 <= t < s.span(),
        0 <= raw < working_modulus::<X>(),
    ensures
        ({
            let n = working_modulus::<X>();
            let first = first_word(t, s.span(), n);
            let last = last_word(t, s.span(), s.working_zone(), n);
            let fit = (s.working_zone() + 1) / s.span();
            &&& accept_spec::<X>(s.low(), s.span(), s.working_zone(), raw) == Some(
                X::from_value(s.low().value() + t),
            ) <==> first <= raw <= last
            &&& 0 <= first
            &&& last < n
            &&& fit <= last - first + 1 <= fit + 1
            &&& 2 * (n - 1 - s.working_zone()) < X::modulus()
        }),
{
    let n = working_modulus::<X>();
    let range = s.span();
    let zone = s.working_zone();
    X::lemma_bounds();
    lemma_mod_bound(s.range().value(), X::modulus());
    lemma_rejects_below_half(range, X::modulus());
    lemma_words_of_value(raw, t, range, zone, n);
    lemma_share(t, range, zone, n);
    lemma_high_half_below_range(raw, range, n);
    lemma_same_value::<X>(s.low(), t, (raw * range) / n, range);
}

/// The zone of a one-off draw has fewer than half of all raw words rejected.
pub proof fn lemma_single_zone_rejects_below_half<X: Integer>(range: u64)
    requires
        0 < range < X::modulus(),
    ensures
        2 * (working_modulus::<X>() - 1 - single_zone_spec::<X>(range)) < working_modulus::<X>(),
{
    broadcast use {axiom_u32_leading_zeros, axiom_u64_leading_zeros};

    X::lemma_bounds();
    if X::modulus() <= 0x1_0000 {
        lemma_rejects_below_half(range as int, pow32());
    } else if X::modulus() <= pow32() {
        let narrow: u32 = range as u32;
        let shift: u32 = u32_leading_zeros(narrow);
        assert((narrow << shift) >= 0x8000_0000u32) by (bit_vector)
            requires
                shift < 32u32,
                (narrow >> ((31 - shift) as u32)) & 1u32 != 0u32,
        ;
    } else {
        let shift: u64 = u64_leading_zeros(range) as u64;
        assert((range << shift) >= 0x8000_0000_0000_0000u64) by (bit_vector)
            requires
                shift < 64u64,
                (range >> ((63 - shift) as u64)) & 1u64 != 0u64,
        ;
    }
}

/// Two offsets within a range that lies within the type lead from its lower
/// bound to the same value only if they are the same offset.
proof fn lemma_same_value<X: Integer>(low: X, t: int, u: int, range: int)
    requires
        low.value() + range <= X::floor() + X::modulus(),
        0 <= t < range,
    ensures
        0 <= u < range ==> (X::from_value(low.value() + t) == X::from_value(low.value() + u)
            <==> t == u),
{
    low.lemma_value_in_range();
    if 0 <= u < range {
        X::lemma_value_of_from_value(low.value() + t);
        X::lemma_value_of_from_value(low.value() + u);
    }
}

} // verus!
