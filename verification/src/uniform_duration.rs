//! The back-end for [`Duration`], built on the sampler for 64-bit integers.

use crate::duration::{lemma_equal_lengths, lemma_from_nanos, Duration, NANOS_PER_SEC};
use crate::rng::Rng;
use crate::sampler::{SampleBorrow, SampleUniform, Uniform, UniformSampler};
use crate::uniform_int::{lemma_new_inclusive, UniformInt, REDRAW_LIMIT};
use vstd::prelude::*;

verus! {

/// The sampler for a range of durations.
///
/// A sample is the lower bound of the range plus a span of at most the
/// length of the range. Where that length in nanoseconds fits a 64-bit word,
/// the span is drawn as one number of nanoseconds. Otherwise its seconds and
/// its nanoseconds are drawn apart, and the pair is drawn again if it
/// exceeds the length.
#[derive(Clone, Copy, Debug)]
pub struct UniformDuration {
    offset: Duration,
    mode: UniformDurationMode,
}

#[derive(Debug, Copy, Clone)]
enum UniformDurationMode {
    Small { nanos: Uniform<u64> },
    Large { size: Duration, secs: Uniform<u64> },
}

impl SampleUniform for Duration {
    type Sampler = UniformDuration;
}

impl UniformDuration {
    /// The lower bound of the range.
    pub closed spec fn spec_offset(&self) -> Duration {
        self.offset
    }

    /// The length of the range in nanoseconds: how far the largest sample is
    /// from the lower bound.
    pub closed spec fn size(&self) -> nat {
        match self.mode {
            UniformDurationMode::Small { nanos } => (nanos@.span() - 1) as nat,
            UniformDurationMode::Large { size, .. } => size@,
        }
    }

    /// Whether the span is drawn as one number of nanoseconds.
    pub closed spec fn small(&self) -> bool {
        self.mode is Small
    }

    /// The lower bound of the range.
    #[verifier::when_used_as_spec(spec_offset)]
    pub fn offset(&self) -> (offset: Duration)
        ensures
            offset == self.spec_offset(),
    {
        self.offset
    }

    /// Whether the span is drawn as one number of nanoseconds.
    pub fn is_small(&self) -> (small: bool)
        ensures
            small == self.small(),
    {
        match self.mode {
            UniformDurationMode::Small { .. } => true,
            UniformDurationMode::Large { .. } => false,
        }
    }

    /// The sample that stands `nanos` nanoseconds above the lower bound.
    pub fn sample_from_nanos(&self, nanos: u64) -> (v: Duration)
        requires
            self.wf(),
            nanos <= self.size(),
        ensures
            v@ == self.offset()@ + nanos,
            v == Duration::spec_from_nanos(self.offset()@ + nanos as nat),
            self.contains(v),
    {
        let d = Duration::from_nanos(nanos);
        proof {
            lemma_from_nanos(self.offset@ + nanos as nat);
        }
        self.offset.saturating_add(d)
    }

    /// The sample that stands `secs` seconds and `nanos` nanoseconds above the
    /// lower bound, unless that is beyond the range.
    pub fn sample_from_parts(&self, secs: u64, nanos: u32) -> (r: Option<Duration>)
        requires
            self.wf(),
            !self.small(),
            nanos < NANOS_PER_SEC,
        ensures
            r == (if secs * NANOS_PER_SEC + nanos <= self.size() {
                Some(
                    Duration::spec_from_nanos(
                        self.offset()@ + (secs * NANOS_PER_SEC + nanos) as nat,
                    ),
                )
            } else {
                None
            }),
            r matches Some(v) ==> v@ == self.offset()@ + secs * NANOS_PER_SEC + nanos
                && self.contains(v),
    {
        match self.mode {
            UniformDurationMode::Small { .. } => None,
            UniformDurationMode::Large { size, .. } => {
                let d = Duration::new(secs, nanos);
                if d.as_nanos() <= size.as_nanos() {
                    proof {
                        lemma_from_nanos(self.offset@ + d@);
                    }
                    Some(self.offset.saturating_add(d))
                } else {
                    None
                }
            },
        }
    }
}

/// What `UniformDuration::new_inclusive` builds from bounds that are in
/// order, each with its nanoseconds below one second.
pub proof fn lemma_duration_new_inclusive(low: Duration, high: Duration)
    requires
        low.normalized(),
        high.normalized(),
        low@ <= high@,
    ensures
        ({
            let s = UniformDuration::spec_new_inclusive(low, high);
            &&& s.offset() == low
            &&& s.size() == high@ - low@
            &&& s.small() <==> high@ - low@ <= u64::MAX
            &&& s.wf()
            &&& forall|v: Duration| #[trigger] s.contains(v) <==> low@ <= v@ <= high@
        }),
{
    let size = (high@ - low@) as nat;
    lemma_from_nanos(size);
    if size <= u64::MAX {
        Uniform::<u64>::lemma_spec_new_inclusive_view(0u64, size as u64);
        lemma_new_inclusive(0u64, size as u64);
    }
}

/// What `UniformDuration::new` builds from a range that is not empty, each
/// bound with its nanoseconds below one second.
pub proof fn lemma_duration_new(low: Duration, high: Duration)
    requires
        low.normalized(),
        high.normalized(),
        low@ < high@,
    ensures
        ({
            let s = UniformDuration::spec_new(low, high);
            &&& s.offset() == low
            &&& s.size() == high@ - low@ - 1
            &&& s.small() <==> high@ - low@ - 1 <= u64::MAX
            &&& s.wf()
            &&& forall|v: Duration| #[trigger] s.contains(v) <==> low@ <= v@ < high@
        }),
{
    lemma_from_nanos((high@ - 1) as nat);
    lemma_duration_new_inclusive(low, Duration::spec_from_nanos((high@ - 1) as nat));
}

/// A span of time is made of one pair of seconds and nanoseconds only, so
/// that a sampler which draws the two apart has one way to each sample.
pub proof fn lemma_one_pair_per_span(span: nat, secs: u64, nanos: u32)
    requires
        nanos < NANOS_PER_SEC,
    ensures
        secs * NANOS_PER_SEC + nanos == span <==> secs == span / 1_000_000_000 && nanos == span
            % 1_000_000_000,
{
}

/// The sampler for a closed range whose bounds are equal yields that one
/// duration and no other.
pub proof fn lemma_duration_single_value(low: Duration, v: Duration)
    requires
        low.normalized(),
        v.normalized(),
        UniformDuration::spec_new_inclusive(low, low).contains(v),
    ensures
        v == low,
{
    lemma_duration_new_inclusive(low, low);
    lemma_equal_lengths(low, v);
}

impl UniformSampler for UniformDuration {
    type X = Duration;

    open spec fn lt(a: Duration, b: Duration) -> bool {
        a@ < b@
    }

    open spec fn le(a: Duration, b: Duration) -> bool {
        a@ <= b@
    }

    open spec fn spec_new(low: Duration, high: Duration) -> Self {
        Self::spec_new_inclusive(low, Duration::spec_from_nanos((high@ - 1) as nat))
    }

    closed spec fn spec_new_inclusive(low: Duration, high: Duration) -> Self {
        let size = (high@ - low@) as nat;
        UniformDuration {
            offset: low,
            mode: if size <= u64::MAX {
                UniformDurationMode::Small {
                    nanos: Uniform::<u64>::spec_new_inclusive(0, size as u64),
                }
            } else {
                UniformDurationMode::Large {
                    size: Duration::spec_from_nanos(size),
                    secs: Uniform::<u64>::spec_new_inclusive(
                        0,
                        (size / NANOS_PER_SEC as nat) as u64,
                    ),
                }
            },
        }
    }

    /// The largest sample is a duration, and each integer sampler is the one
    /// that belongs to the length of the range.
    closed spec fn wf(&self) -> bool {
        &&& self.offset.normalized()
        &&& self.offset@ + self.size() <= Duration::max_nanos()
        &&& match self.mode {
            UniformDurationMode::Small { nanos } => {
                &&& self.size() <= u64::MAX
                &&& nanos == Uniform::<u64>::spec_new_inclusive(0, self.size() as u64)
            },
            UniformDurationMode::Large { size, secs } => {
                &&& size.normalized()
                &&& secs == Uniform::<u64>::spec_new_inclusive(0, size.as_secs())
            },
        }
    }

    open spec fn contains(&self, v: Duration) -> bool {
        self.offset()@ <= v@ <= self.offset()@ + self.size()
    }

    /// Builds the sampler for `low .. high`: the one for the closed range
    /// that ends a nanosecond before `high`.
    fn new<B1, B2>(low_b: B1, high_b: B2) -> (s: Self) where
        B1: SampleBorrow<Duration> + Sized,
        B2: SampleBorrow<Duration> + Sized,

        ensures
            s.offset() == low_b.borrowed(),
            s.size() == high_b.borrowed()@ - low_b.borrowed()@ - 1,
            s.small() <==> high_b.borrowed()@ - low_b.borrowed()@ - 1 <= u64::MAX,
    {
        let low = *low_b.borrow();
        let high = *high_b.borrow();
        assert(UniformDuration::lt(low, high));
        proof {
            use_type_invariant(low);
            use_type_invariant(high);
            lemma_from_nanos((high@ - 1) as nat);
            lemma_duration_new(low, high);
        }
        let last = high.saturating_sub(Duration::new(0, 1));
        let s = UniformDuration::new_inclusive(low, last);
        assert(s == UniformDuration::spec_new(low, high));
        assert(s.wf());
        assert forall|v: Duration| #[trigger]
            s.contains(v) <==> UniformDuration::le(low, v) && UniformDuration::lt(v, high) by {}
        s
    }

    /// Builds the sampler for `low ..= high`.
    ///
    /// The length of the range is counted in nanoseconds. Where the count
    /// fits a 64-bit word, one integer sampler draws the span as a whole;
    /// otherwise an integer sampler for the seconds of the span is kept
    /// beside the length.
    fn new_inclusive<B1, B2>(low_b: B1, high_b: B2) -> (s: Self) where
        B1: SampleBorrow<Duration> + Sized,
        B2: SampleBorrow<Duration> + Sized,

        ensures
            s.offset() == low_b.borrowed(),
            s.size() == high_b.borrowed()@ - low_b.borrowed()@,
            s.small() <==> high_b.borrowed()@ - low_b.borrowed()@ <= u64::MAX,
    {
        let low = *low_b.borrow();
        let high = *high_b.borrow();
        assert(UniformDuration::le(low, high));
        let size = high.saturating_sub(low);
        proof {
            use_type_invariant(low);
            use_type_invariant(high);
            lemma_from_nanos((high@ - low@) as nat);
            lemma_duration_new_inclusive(low, high);
        }
        let nanos = match size.as_secs().checked_mul(1_000_000_000) {
            Some(n) => n.checked_add(size.subsec_nanos() as u64),
            None => None,
        };
        let mode = match nanos {
            Some(nanos) => {
                proof {
                    lemma_new_inclusive(0u64, nanos);
                }
                assert(UniformInt::<u64>::le(0u64, nanos));
                UniformDurationMode::Small { nanos: Uniform::new_inclusive(0u64, nanos) }
            },
            None => {
                assert(UniformInt::<u64>::le(0u64, size.as_secs()));
                UniformDurationMode::Large {
                    size,
                    secs: Uniform::new_inclusive(0u64, size.as_secs()),
                }
            },
        };
        let s = UniformDuration { mode, offset: low };
        assert(s == UniformDuration::spec_new_inclusive(low, high));
        assert(s.wf());
        assert forall|v: Duration| #[trigger]
            s.contains(v) <==> UniformDuration::le(low, v) && UniformDuration::le(v, high) by {}
        s
    }

    /// Draws one duration of the range.
    ///
    /// A span drawn as one number of nanoseconds is added to the lower bound
    /// as it is. Seconds and nanoseconds drawn apart may exceed the length of
    /// the range in the last second; such a pair is drawn again, up to
    /// [`REDRAW_LIMIT`] times.
    fn sample<R: Rng + ?Sized>(&self, rng: &mut R) -> (v: Duration) {
        assert(self.wf());
        match self.mode {
            UniformDurationMode::Small { nanos } => {
                proof {
                    Uniform::<u64>::lemma_spec_new_inclusive_view(0u64, self.size() as u64);
                    lemma_new_inclusive(0u64, self.size() as u64);
                }
                let drawn = nanos.sample(rng);
                self.sample_from_nanos(drawn)
            },
            UniformDurationMode::Large { size, secs } => {
                proof {
                    Uniform::<u64>::lemma_spec_new_inclusive_view(0u64, size.as_secs());
                    lemma_new_inclusive(0u64, size.as_secs());
                }
                // Built afresh for each sample: the range is known beforehand,
                // so the analysis costs next to nothing.
                let nano_range = Uniform::new(0u32, 1_000_000_000u32);
                let mut redraws: u64 = 0;
                loop
                    invariant
                        self.wf(),
                        self.mode == (UniformDurationMode::Large { size, secs }),
                        secs@.wf(),
                        nano_range@.wf(),
                        forall|n: u32| #[trigger] nano_range@.contains(n) <==> n < NANOS_PER_SEC,
                    decreases REDRAW_LIMIT - redraws,
                {
                    let whole = secs.sample(rng);
                    let part = nano_range.sample(rng);
                    if let Some(v) = self.sample_from_parts(whole, part) {
                        return v;
                    }
                    if redraws >= REDRAW_LIMIT {
                        // Out of reach with a sound source; see `REDRAW_LIMIT`.
                        return self.offset;
                    }
                    redraws += 1;
                }
            },
        }
    }
}

} // verus!
