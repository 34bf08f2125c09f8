//! A span of time with nanosecond resolution.

use core::cmp::Ordering;
use vstd::prelude::*;
use vstd::std_specs::cmp::{PartialEqSpecImpl, PartialOrdSpecImpl};

verus! {

/// The number of nanoseconds in a second.
pub const NANOS_PER_SEC: u32 = 1_000_000_000;

/// A span of time: a number of whole seconds and a number of nanoseconds
/// below one second.
///
/// The view of a duration is its length in nanoseconds.
#[derive(Clone, Copy, Debug)]
pub struct Duration {
    secs: u64,
    nanos: u32,
}

impl View for Duration {
    type V = nat;

    open spec fn view(&self) -> nat {
        (self.as_secs() * 1_000_000_000 + self.subsec_nanos()) as nat
    }
}

impl Duration {
    /// The nanoseconds of a duration stay below one second.
    #[verifier::type_invariant]
    pub open spec fn normalized(self) -> bool {
        self.subsec_nanos() < NANOS_PER_SEC
    }

    /// The whole seconds of the duration.
    pub closed spec fn spec_as_secs(&self) -> u64 {
        self.secs
    }

    /// The part of the duration below one second, in nanoseconds.
    pub closed spec fn spec_subsec_nanos(&self) -> u32 {
        self.nanos
    }

    /// The duration of `n` nanoseconds.
    pub closed spec fn spec_from_nanos(n: nat) -> Duration {
        Duration { secs: (n / 1_000_000_000) as u64, nanos: (n % 1_000_000_000) as u32 }
    }

    /// The length in nanoseconds of the longest duration.
    pub open spec fn max_nanos() -> nat {
        (u64::MAX * 1_000_000_000 + 999_999_999) as nat
    }

    /// The duration of `secs` seconds and `nanos` nanoseconds. Whole seconds
    /// among the nanoseconds are carried over; the total must not exceed the
    /// longest duration.
    pub fn new(secs: u64, nanos: u32) -> (d: Duration)
        requires
            secs + nanos / NANOS_PER_SEC <= u64::MAX,
        ensures
            d@ == secs * NANOS_PER_SEC + nanos,
            d.subsec_nanos() < NANOS_PER_SEC,
            d == Self::spec_from_nanos((secs * NANOS_PER_SEC + nanos) as nat),
    {
        let carried = (nanos / NANOS_PER_SEC) as u64;
        let d = Duration { secs: secs + carried, nanos: nanos % NANOS_PER_SEC };
        proof {
            let total = (secs * NANOS_PER_SEC + nanos) as nat;
            assert(total == (secs + carried) * NANOS_PER_SEC + nanos % NANOS_PER_SEC) by (nonlinear_arith)
                requires
                    total == secs * NANOS_PER_SEC + nanos,
                    carried == nanos / NANOS_PER_SEC,
                    NANOS_PER_SEC == 1_000_000_000,
            ;
            lemma_split(total, (secs + carried) as nat, (nanos % NANOS_PER_SEC) as nat);
        }
        d
    }

    /// The duration of `nanos` nanoseconds.
    pub fn from_nanos(nanos: u64) -> (d: Duration)
        ensures
            d@ == nanos,
            d.subsec_nanos() < NANOS_PER_SEC,
            d == Self::spec_from_nanos(nanos as nat),
    {
        let d = Duration {
            secs: nanos / (NANOS_PER_SEC as u64),
            nanos: (nanos % (NANOS_PER_SEC as u64)) as u32,
        };
        proof {
            vstd::arithmetic::div_mod::lemma_fundamental_div_mod(
                nanos as int,
                NANOS_PER_SEC as int,
            );
        }
        d
    }

    /// The longest duration.
    pub fn max() -> (d: Duration)
        ensures
            d@ == Self::max_nanos(),
            d == Self::spec_from_nanos(Self::max_nanos()),
    {
        Duration { secs: u64::MAX, nanos: NANOS_PER_SEC - 1 }
    }

    /// The length of the duration in nanoseconds.
    pub fn as_nanos(&self) -> (nanos: u128)
        ensures
            nanos == self@,
    {
        proof {
            use_type_invariant(self);
        }
        (self.secs as u128) * 1_000_000_000 + (self.nanos as u128)
    }

    /// The sum of two durations, or the longest duration where the sum
    /// exceeds it.
    pub fn saturating_add(self, rhs: Duration) -> (sum: Duration)
        ensures
            sum@ == if self@ + rhs@ <= Self::max_nanos() {
                self@ + rhs@
            } else {
                Self::max_nanos()
            },
            sum == Self::spec_from_nanos(sum@),
    {
        proof {
            use_type_invariant(self);
            use_type_invariant(rhs);
        }
        let nanos = self.nanos + rhs.nanos;
        let carry: u64 = if nanos >= NANOS_PER_SEC {
            1
        } else {
            0
        };
        if self.secs > u64::MAX - rhs.secs || self.secs + rhs.secs > u64::MAX - carry {
            Duration::max()
        } else if nanos >= NANOS_PER_SEC {
            Duration { secs: self.secs + rhs.secs + 1, nanos: nanos - NANOS_PER_SEC }
        } else {
            Duration { secs: self.secs + rhs.secs, nanos }
        }
    }

    /// The difference of two durations, or the empty duration where `rhs` is
    /// the longer one.
    pub fn saturating_sub(self, rhs: Duration) -> (difference: Duration)
        ensures
            difference@ == if rhs@ <= self@ {
                self@ - rhs@
            } else {
                0
            },
            difference == Self::spec_from_nanos(difference@),
    {
        proof {
            use_type_invariant(self);
            use_type_invariant(rhs);
        }
        if self.secs < rhs.secs || (self.secs == rhs.secs && self.nanos < rhs.nanos) {
            Duration { secs: 0, nanos: 0 }
        } else if self.nanos >= rhs.nanos {
            Duration { secs: self.secs - rhs.secs, nanos: self.nanos - rhs.nanos }
        } else {
            Duration {
                secs: self.secs - rhs.secs - 1,
                nanos: self.nanos + NANOS_PER_SEC - rhs.nanos,
            }
        }
    }

    /// The whole seconds of the duration.
    #[verifier::when_used_as_spec(spec_as_secs)]
    pub fn as_secs(&self) -> (secs: u64)
        ensures
            secs == self.spec_as_secs(),
    {
        self.secs
    }

    /// The part of the duration below one second, in nanoseconds.
    #[verifier::when_used_as_spec(spec_subsec_nanos)]
    pub fn subsec_nanos(&self) -> (nanos: u32)
        ensures
            nanos == self.spec_subsec_nanos(),
            nanos < NANOS_PER_SEC,
    {
        proof {
            use_type_invariant(self);
        }
        self.nanos
    }
}

impl PartialEq for Duration {
    fn eq(&self, other: &Duration) -> (r: bool) {
        proof {
            use_type_invariant(self);
            use_type_invariant(other);
        }
        self.secs == other.secs && self.nanos == other.nanos
    }
}

impl PartialEqSpecImpl for Duration {
    open spec fn obeys_eq_spec() -> bool {
        true
    }

    /// Durations are equal where their lengths are.
    open spec fn eq_spec(&self, other: &Duration) -> bool {
        self@ == other@
    }
}

impl Eq for Duration {

}

impl PartialOrd for Duration {
    fn partial_cmp(&self, other: &Duration) -> (r: Option<Ordering>) {
        proof {
            use_type_invariant(self);
            use_type_invariant(other);
        }
        if self.secs < other.secs || (self.secs == other.secs && self.nanos < other.nanos) {
            Some(Ordering::Less)
        } else if self.secs == other.secs && self.nanos == other.nanos {
            Some(Ordering::Equal)
        } else {
            Some(Ordering::Greater)
        }
    }
}

impl PartialOrdSpecImpl for Duration {
    open spec fn obeys_partial_cmp_spec() -> bool {
        true
    }

    /// Durations are ordered by their lengths.
    open spec fn partial_cmp_spec(&self, other: &Duration) -> Option<Ordering> {
        if self@ < other@ {
            Some(Ordering::Less)
        } else if self@ == other@ {
            Some(Ordering::Equal)
        } else {
            Some(Ordering::Greater)
        }
    }
}

/// The duration of `n` nanoseconds holds `n` split into whole seconds and a
/// rest below one second.
pub proof fn lemma_from_nanos(n: nat)
    requires
        n <= Duration::max_nanos(),
    ensures
        Duration::spec_from_nanos(n)@ == n,
        Duration::spec_from_nanos(n).as_secs() == n / 1_000_000_000,
        Duration::spec_from_nanos(n).subsec_nanos() == n % 1_000_000_000,
{
}

/// Durations of one length, each with its nanoseconds below one second, are
/// the same duration.
pub proof fn lemma_equal_lengths(a: Duration, b: Duration)
    requires
        a.subsec_nanos() < NANOS_PER_SEC,
        b.subsec_nanos() < NANOS_PER_SEC,
        a@ == b@,
    ensures
        a == b,
{
}

/// A number of nanoseconds splits in one way only into whole seconds and a
/// rest below one second.
pub proof fn lemma_split(total: nat, secs: nat, nanos: nat)
    requires
        total == secs * 1_000_000_000 + nanos,
        nanos < 1_000_000_000,
    ensures
        total / 1_000_000_000 == secs,
        total % 1_000_000_000 == nanos,
{
}

} // verus!
