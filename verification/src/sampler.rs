//! The two traits that tie a value type to its sampler, and the [`Uniform`]
//! front end that works for every type so tied.

use crate::rng::Rng;
use core::ops::Range;
use vstd::prelude::*;

verus! {

/// A type that can be sampled uniformly from a range.
///
/// The implementation names the back-end that does the work for the type;
/// [`Uniform`] then accepts bounds of the type.
pub trait SampleUniform: Sized {
    /// The back-end that samples values of this type.
    type Sampler: UniformSampler<X = Self>;
}

/// A bound handed over by value or by reference.
///
/// Constructors take their bounds through this trait, so that a caller may
/// write `new(low, high)` as well as `new(&low, &high)`.
pub trait SampleBorrow<Borrowed> {
    /// The bound that is handed over.
    spec fn borrowed(&self) -> Borrowed;

    /// A reference to the bound.
    fn borrow(&self) -> (r: &Borrowed)
        ensures
            *r == self.borrowed(),
    ;
}

impl<Borrowed> SampleBorrow<Borrowed> for Borrowed where Borrowed: SampleUniform {
    open spec fn borrowed(&self) -> Borrowed {
        *self
    }

    fn borrow(&self) -> (r: &Borrowed) {
        self
    }
}

impl<'a, Borrowed> SampleBorrow<Borrowed> for &'a Borrowed where Borrowed: SampleUniform {
    open spec fn borrowed(&self) -> Borrowed {
        **self
    }

    fn borrow(&self) -> (r: &Borrowed) {
        *self
    }
}

/// A back-end: a sampler for the values of one type.
///
/// A sampler is built from a pair of bounds and from then on yields values
/// between them. An implementation fixes the order in which bounds are
/// compared (`lt`, `le`), says which sampler each constructor builds and
/// which values a sampler may yield (`contains`).
pub trait UniformSampler: Sized {
    /// The type of the sampled values.
    type X;

    /// Whether `a` comes strictly before `b`.
    spec fn lt(a: Self::X, b: Self::X) -> bool;

    /// Whether `a` comes before `b` or equals it.
    spec fn le(a: Self::X, b: Self::X) -> bool;

    /// The sampler for the half-open range `low .. high`.
    spec fn spec_new(low: Self::X, high: Self::X) -> Self;

    /// The sampler for the closed range `low ..= high`.
    spec fn spec_new_inclusive(low: Self::X, high: Self::X) -> Self;

    /// Whether the sampler is one that a constructor can have built.
    spec fn wf(&self) -> bool;

    /// Whether `v` is among the values that the sampler yields.
    spec fn contains(&self, v: Self::X) -> bool;

    /// Builds the sampler for the half-open range `low .. high`.
    /// The range must not be empty.
    fn new<B1, B2>(low: B1, high: B2) -> (s: Self) where
        B1: SampleBorrow<Self::X> + Sized,
        B2: SampleBorrow<Self::X> + Sized,

        requires
            Self::lt(low.borrowed(), high.borrowed()),
        ensures
            s == Self::spec_new(low.borrowed(), high.borrowed()),
            s.wf(),
            forall|v: Self::X| #[trigger]
                s.contains(v) <==> Self::le(low.borrowed(), v) && Self::lt(v, high.borrowed()),
    ;

    /// Builds the sampler for the closed range `low ..= high`.
    /// The bounds must be in order; they may be equal.
    fn new_inclusive<B1, B2>(low: B1, high: B2) -> (s: Self) where
        B1: SampleBorrow<Self::X> + Sized,
        B2: SampleBorrow<Self::X> + Sized,

        requires
            Self::le(low.borrowed(), high.borrowed()),
        ensures
            s == Self::spec_new_inclusive(low.borrowed(), high.borrowed()),
            s.wf(),
            forall|v: Self::X| #[trigger]
                s.contains(v) <==> Self::le(low.borrowed(), v) && Self::le(v, high.borrowed()),
    ;

    /// Draws one value of the sampler's range.
    fn sample<R: Rng + ?Sized>(&self, rng: &mut R) -> (v: Self::X)
        requires
            self.wf(),
        ensures
            self.contains(v),
    ;

    /// Draws one value of the half-open range `low .. high` without keeping a
    /// sampler. The range must not be empty.
    ///
    /// A back-end overrides this where a single draw can be had for less
    /// than the construction of a sampler costs.
    fn sample_single<R: Rng + ?Sized, B1, B2>(low: B1, high: B2, rng: &mut R) -> (v: Self::X) where
        B1: SampleBorrow<Self::X> + Sized,
        B2: SampleBorrow<Self::X> + Sized,

        requires
            Self::lt(low.borrowed(), high.borrowed()),
        ensures
            Self::le(low.borrowed(), v),
            Self::lt(v, high.borrowed()),
    {
        let uniform: Self = Self::new(low, high);
        uniform.sample(rng)
    }
}

/// Samples values uniformly between two bounds.
///
/// `Uniform::new(low, high)` samples from the half-open range `low .. high`,
/// `Uniform::new_inclusive(low, high)` from the closed range `low ..= high`.
/// Construction analyses the range once, so that each later call of
/// [`Uniform::sample`] is cheap.
#[derive(Clone, Copy, Debug)]
pub struct Uniform<X: SampleUniform> {
    inner: X::Sampler,
}

impl<X: SampleUniform> View for Uniform<X> {
    type V = X::Sampler;

    /// The back-end that the sampler forwards to.
    closed spec fn view(&self) -> X::Sampler {
        self.inner
    }
}

impl<X: SampleUniform> Uniform<X> {
    /// The sampler for the half-open range `low .. high`.
    pub closed spec fn spec_new(low: X, high: X) -> Self {
        Uniform { inner: X::Sampler::spec_new(low, high) }
    }

    /// The sampler for the closed range `low ..= high`.
    pub closed spec fn spec_new_inclusive(low: X, high: X) -> Self {
        Uniform { inner: X::Sampler::spec_new_inclusive(low, high) }
    }

    /// `spec_new` wraps the back-end's sampler for the same bounds.
    pub proof fn lemma_spec_new_view(low: X, high: X)
        ensures
            Self::spec_new(low, high)@ == X::Sampler::spec_new(low, high),
    {
    }

    /// `spec_new_inclusive` wraps the back-end's sampler for the same bounds.
    pub proof fn lemma_spec_new_inclusive_view(low: X, high: X)
        ensures
            Self::spec_new_inclusive(low, high)@ == X::Sampler::spec_new_inclusive(low, high),
    {
    }

    /// Builds the sampler for the half-open range `low .. high`.
    /// The range must not be empty.
    pub fn new<B1, B2>(low: B1, high: B2) -> (u: Uniform<X>) where
        B1: SampleBorrow<X> + Sized,
        B2: SampleBorrow<X> + Sized,

        requires
            X::Sampler::lt(low.borrowed(), high.borrowed()),
        ensures
            u == Self::spec_new(low.borrowed(), high.borrowed()),
            u@ == X::Sampler::spec_new(low.borrowed(), high.borrowed()),
            u@.wf(),
            forall|v: X| #[trigger]
                u@.contains(v) <==> X::Sampler::le(low.borrowed(), v) && X::Sampler::lt(
                    v,
                    high.borrowed(),
                ),
    {
        Uniform { inner: X::Sampler::new(low, high) }
    }

    /// Builds the sampler for the closed range `low ..= high`.
    /// The bounds must be in order; they may be equal.
    pub fn new_inclusive<B1, B2>(low: B1, high: B2) -> (u: Uniform<X>) where
        B1: SampleBorrow<X> + Sized,
        B2: SampleBorrow<X> + Sized,

        requires
            X::Sampler::le(low.borrowed(), high.borrowed()),
        ensures
            u == Self::spec_new_inclusive(low.borrowed(), high.borrowed()),
            u@ == X::Sampler::spec_new_inclusive(low.borrowed(), high.borrowed()),
            u@.wf(),
            forall|v: X| #[trigger]
                u@.contains(v) <==> X::Sampler::le(low.borrowed(), v) && X::Sampler::le(
                    v,
                    high.borrowed(),
                ),
    {
        Uniform { inner: X::Sampler::new_inclusive(low, high) }
    }

    /// Builds the sampler for the range `r.start .. r.end`, which must not be
    /// empty: the sampler that `Uniform::new(r.start, r.end)` builds.
    pub fn from(r: Range<X>) -> (u: Uniform<X>)
        requires
            X::Sampler::lt(r.start, r.end),
        ensures
            u == Self::spec_new(r.start, r.end),
            u@ == X::Sampler::spec_new(r.start, r.end),
            u@.wf(),
            forall|v: X| #[trigger]
                u@.contains(v) <==> X::Sampler::le(r.start, v) && X::Sampler::lt(v, r.end),
    {
        Uniform::new(r.start, r.end)
    }

    /// Draws one value of the sampler's range.
    pub fn sample<R: Rng + ?Sized>(&self, rng: &mut R) -> (v: X)
        requires
            self@.wf(),
        ensures
            self@.contains(v),
    {
        self.inner.sample(rng)
    }

    /// Draws one value of the half-open range `low .. high` without keeping a
    /// sampler. The range must not be empty.
    pub fn sample_single<R: Rng + ?Sized, B1, B2>(low: B1, high: B2, rng: &mut R) -> (v: X) where
        B1: SampleBorrow<X> + Sized,
        B2: SampleBorrow<X> + Sized,

        requires
            X::Sampler::lt(low.borrowed(), high.borrowed()),
        ensures
            X::Sampler::le(low.borrowed(), v),
            X::Sampler::lt(v, high.borrowed()),
    {
        X::Sampler::sample_single(low, high, rng)
    }

    /// The back-end that the sampler forwards to.
    pub fn inner(&self) -> (sampler: &X::Sampler)
        ensures
            *sampler == self@,
    {
        &self.inner
    }
}

} // verus!
