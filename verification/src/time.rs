use vstd::prelude::*;

verus! {

/// The longest representable span, in nanoseconds: `u64::MAX` whole seconds and
/// 999 999 999 nanoseconds.
pub const MAX_DURATION_NANOS: u128 = 18446744073709551615_999999999;

/// The latest representable point on the clock, in nanoseconds since its origin.
pub const MAX_INSTANT_NANOS: u128 = 9223372036854775807_999999999;

/// A span of time, counted in nanoseconds.
#[derive(Clone, Copy, Debug, PartialEq, Eq, Structural)]
pub struct Duration {
    nanos: u128,
}

impl Duration {
    /// The span's length in nanoseconds.
    pub closed spec fn spec_nanos(self) -> nat {
        self.nanos as nat
    }

    #[verifier::type_invariant]
    spec fn in_range(self) -> bool {
        self.nanos <= MAX_DURATION_NANOS
    }

    /// The span of `nanos` nanoseconds.
    pub fn from_nanos(nanos: u64) -> (d: Duration)
        ensures
            d.spec_nanos() == nanos,
    {
        Duration { nanos: nanos as u128 }
    }

    /// The span of `millis` milliseconds.
    pub fn from_millis(millis: u64) -> (d: Duration)
        ensures
            d.spec_nanos() == millis * 1_000_000,
    {
        Duration { nanos: millis as u128 * 1_000_000 }
    }

    /// The span of `secs` seconds.
    pub fn from_secs(secs: u64) -> (d: Duration)
        ensures
            d.spec_nanos() == secs * 1_000_000_000,
    {
        Duration { nanos: secs as u128 * 1_000_000_000 }
    }

    pub fn nanos(&self) -> (n: u128)
        ensures
            n == self.spec_nanos(),
            n <= MAX_DURATION_NANOS,
    {
        proof {
            use_type_invariant(self);
        }
        self.nanos
    }

    pub fn is_zero(&self) -> (b: bool)
        ensures
            b == (self.spec_nanos() == 0),
    {
        self.nanos == 0
    }

    /// The shorter of two spans.
    pub fn min(self, other: Duration) -> (d: Duration)
        ensures
            d.spec_nanos() == if self.spec_nanos() <= other.spec_nanos() {
                self.spec_nanos()
            } else {
                other.spec_nanos()
            },
    {
        if self.nanos <= other.nanos {
            self
        } else {
            other
        }
    }

    /// `factor` times the span, or the longest span where that is longer.
    pub fn saturating_mul(self, factor: u32) -> (d: Duration)
        ensures
            d.spec_nanos() == if self.spec_nanos() * factor <= MAX_DURATION_NANOS {
                self.spec_nanos() * factor
            } else {
                MAX_DURATION_NANOS as int
            },
    {
        proof {
            use_type_invariant(&self);
        }
        assert(self.nanos * factor <= MAX_DURATION_NANOS * 0xffff_ffff) by (nonlinear_arith)
            requires
                self.nanos <= MAX_DURATION_NANOS,
                factor <= 0xffff_ffff,
        ;
        let product: u128 = self.nanos * factor as u128;
        if product <= MAX_DURATION_NANOS {
            Duration { nanos: product }
        } else {
            Duration { nanos: MAX_DURATION_NANOS }
        }
    }
}

/// A point on the monotonic clock, counted in nanoseconds since the clock's origin.
#[derive(Clone, Copy, Debug, PartialEq, Eq, Structural)]
pub struct Instant {
    nanos: u128,
}

impl Instant {
    /// Nanoseconds since the clock's origin.
    pub closed spec fn spec_nanos(self) -> nat {
        self.nanos as nat
    }

    #[verifier::type_invariant]
    spec fn in_range(self) -> bool {
        self.nanos <= MAX_INSTANT_NANOS
    }

    /// The point `nanos` nanoseconds after the clock's origin.
    pub fn from_nanos(nanos: u64) -> (t: Instant)
        ensures
            t.spec_nanos() == nanos,
    {
        Instant { nanos: nanos as u128 }
    }

    /// The point `span` after this one, where it can be represented.
    pub fn checked_add(self, span: Duration) -> (t: Option<Instant>)
        ensures
            t is Some <==> self.spec_nanos() + span.spec_nanos() <= MAX_INSTANT_NANOS,
            t matches Some(u) ==> u.spec_nanos() == self.spec_nanos() + span.spec_nanos(),
    {
        proof {
            use_type_invariant(&self);
        }
        let sum: u128 = self.nanos + span.nanos();
        if sum <= MAX_INSTANT_NANOS {
            Some(Instant { nanos: sum })
        } else {
            None
        }
    }

    /// Whether this point is at or after `other`.
    pub fn reached(self, other: Instant) -> (b: bool)
        ensures
            b == (self.spec_nanos() >= other.spec_nanos()),
    {
        self.nanos >= other.nanos
    }
}

// ---------------------------------------------------------------------------
// Laws
// ---------------------------------------------------------------------------
/// A second is a thousand milliseconds, and a millisecond a million nanoseconds.
pub proof fn units_agree(
    n: u64,
    nanos: Duration,
    millis: Duration,
    secs: Duration,
    read: u128,
    zero: bool,
)
    requires
        call_ensures(Duration::from_nanos, (n,), nanos),
        call_ensures(Duration::from_millis, (n,), millis),
        call_ensures(Duration::from_secs, (n,), secs),
        call_ensures(Duration::nanos, (&nanos,), read),
        call_ensures(Duration::is_zero, (&nanos,), zero),
    ensures
        read == n,
        millis.spec_nanos() == 1_000_000 * nanos.spec_nanos(),
        secs.spec_nanos() == 1_000 * millis.spec_nanos(),
        zero <==> n == 0,
{
}

/// The shorter of two spans is one of them and no longer than either, and a multiple of a span
/// is exact where it can be represented and the longest span otherwise.
pub proof fn spans_are_compared_and_multiplied(
    a: Duration,
    b: Duration,
    shorter: Duration,
    factor: u32,
    product: Duration,
)
    requires
        call_ensures(Duration::min, (a, b), shorter),
        call_ensures(Duration::saturating_mul, (a, factor), product),
    ensures
        shorter.spec_nanos() <= a.spec_nanos() && shorter.spec_nanos() <= b.spec_nanos(),
        shorter.spec_nanos() == a.spec_nanos() || shorter.spec_nanos() == b.spec_nanos(),
        a.spec_nanos() * factor <= MAX_DURATION_NANOS ==> product.spec_nanos() == a.spec_nanos()
            * factor,
        a.spec_nanos() * factor > MAX_DURATION_NANOS ==> product.spec_nanos()
            == MAX_DURATION_NANOS,
{
}

/// A point on the clock is reached by itself and by everything later, and a span later is later
/// by that span.
pub proof fn clock_runs_forward(
    t: Instant,
    span: Duration,
    later: Option<Instant>,
    a: Instant,
    reached: bool,
    n: u64,
    at: Instant,
)
    requires
        call_ensures(Instant::checked_add, (t, span), later),
        call_ensures(Instant::reached, (a, t), reached),
        call_ensures(Instant::from_nanos, (n,), at),
    ensures
        later is None <==> t.spec_nanos() + span.spec_nanos() > MAX_INSTANT_NANOS,
        later matches Some(u) ==> u.spec_nanos() - t.spec_nanos() == span.spec_nanos(),
        reached <==> a.spec_nanos() >= t.spec_nanos(),
        at.spec_nanos() == n,
{
}

} // verus!
