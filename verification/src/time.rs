//! Spans of time and the backoff schedule of retries.
use vstd::arithmetic::power2::*;
use vstd::prelude::*;

verus! {

/// Nanoseconds in a second.
pub const NANOS_PER_SEC: u32 = 1_000_000_000;

/// A span of time, in whole seconds and nanoseconds.
#[derive(Clone, Copy, Debug, PartialEq, Eq, Structural)]
pub struct Duration {
    secs: u64,
    nanos: u32,
}

impl View for Duration {
    type V = nat;

    /// The span in nanoseconds.
    closed spec fn view(&self) -> nat {
        (self.secs * 1_000_000_000 + self.nanos) as nat
    }
}

impl Duration {
    /// The nanoseconds stay below one second.
    #[verifier::type_invariant]
    spec fn normalized(self) -> bool {
        self.nanos < NANOS_PER_SEC
    }

    /// `secs` seconds and `nanos` nanoseconds.
    pub fn new(secs: u64, nanos: u32) -> (r: Duration)
        requires
            nanos < NANOS_PER_SEC,
        ensures
            r@ == secs * 1_000_000_000 + nanos,
    {
        Duration { secs, nanos }
    }

    /// `secs` seconds.
    pub fn from_secs(secs: u64) -> (r: Duration)
        ensures
            r@ == secs * 1_000_000_000,
    {
        Duration { secs, nanos: 0 }
    }

    /// `millis` milliseconds.
    pub fn from_millis(millis: u64) -> (r: Duration)
        ensures
            r@ == millis * 1_000_000,
    {
        Duration { secs: millis / 1000, nanos: (millis % 1000) as u32 * 1_000_000 }
    }

    /// Whole seconds in the span.
    pub fn as_secs(&self) -> (r: u64)
        ensures
            r == self@ / 1_000_000_000,
    {
        proof {
            use_type_invariant(self);
        }
        self.secs
    }

    /// The nanoseconds beyond the whole seconds.
    pub fn subsec_nanos(&self) -> (r: u32)
        ensures
            r == self@ % 1_000_000_000,
            r < NANOS_PER_SEC,
    {
        proof {
            use_type_invariant(self);
        }
        self.nanos
    }

    /// Whole milliseconds in the span.
    pub fn as_millis(&self) -> (r: u128)
        ensures
            r == self@ / 1_000_000,
    {
        proof {
            use_type_invariant(self);
        }
        self.secs as u128 * 1000 + (self.nanos / 1_000_000) as u128
    }
}

impl Duration {
    /// Whether this span is longer than `other`.
    pub fn exceeds(&self, other: &Duration) -> (r: bool)
        ensures
            r == (self@ > other@),
    {
        proof {
            use_type_invariant(self);
            use_type_invariant(other);
        }
        self.secs > other.secs || (self.secs == other.secs && self.nanos > other.nanos)
    }
}

/// What is left of `n` when only its low 64 bits are kept.
pub open spec fn low_u64(n: nat) -> nat {
    n % 0x1_0000_0000_0000_0000
}

/// The longest wait of a schedule that is capped at `max` nanoseconds, in milliseconds: whole
/// milliseconds, and at least one.
pub open spec fn backoff_cap_ms(max: nat) -> nat {
    low_u64(
        if max / 1_000_000 < 1 {
            1
        } else {
            max / 1_000_000
        },
    )
}

/// How often the wait before retry `attempt` has doubled.
pub open spec fn doublings(attempt: u32) -> nat {
    if attempt < 31 {
        attempt as nat
    } else {
        31
    }
}

/// The wait before retry `attempt` (counted from 0), in milliseconds: `initial * 2^attempt`,
/// clamped to the cap. `initial` and `max` are in nanoseconds.
pub open spec fn backoff_ms(attempt: u32, initial: nat, max: nat) -> nat {
    let base = low_u64(initial / 1_000_000) * pow2(doublings(attempt));
    if base < backoff_cap_ms(max) {
        base
    } else {
        backoff_cap_ms(max)
    }
}

/// Exponential backoff for the `attempt`-th retry (counted from 0): `initial * 2^attempt`,
/// clamped to `max`; see [`backoff_ms`].
pub fn backoff_for(attempt: u32, initial: Duration, max: Duration) -> (r: Duration)
    ensures
        r@ == backoff_ms(attempt, initial@, max@) * 1_000_000,
{
    let shift: u32 = if attempt < 31 {
        attempt
    } else {
        31
    };
    let initial_ms: u64 = (initial.as_millis() % 0x1_0000_0000_0000_0000) as u64;
    let max_ms: u128 = max.as_millis();
    let cap: u64 = ((if max_ms < 1 {
        1
    } else {
        max_ms
    }) % 0x1_0000_0000_0000_0000) as u64;
    let mut factor: u64 = 1;
    let mut i: u32 = 0;
    proof {
        lemma2_to64();
    }
    while i < shift
        invariant
            i <= shift <= 31,
            factor == pow2(i as nat),
        decreases shift - i,
    {
        proof {
            lemma_pow2_unfold((i + 1) as nat);
            lemma2_to64();
            if i < 30 {
                lemma_pow2_strictly_increases((i + 1) as nat, 31);
            }
        }
        factor = factor * 2;
        i += 1;
    }
    proof {
        lemma2_to64();
        if shift < 31 {
            lemma_pow2_strictly_increases(shift as nat, 31);
        }
        assert(initial_ms * factor <= 0xFFFF_FFFF_FFFF_FFFF * 0x8000_0000) by (nonlinear_arith)
            requires
                factor <= 0x8000_0000,
                initial_ms <= 0xFFFF_FFFF_FFFF_FFFF,
        ;
    }
    let base: u128 = initial_ms as u128 * factor as u128;
    if base < cap as u128 {
        Duration::from_millis(base as u64)
    } else {
        Duration::from_millis(cap)
    }
}

/// No wait is longer than the cap, and the first is the initial one where the cap allows it.
pub proof fn law_backoff_bounded(attempt: u32, initial: nat, max: nat)
    ensures
        backoff_ms(attempt, initial, max) <= backoff_cap_ms(max),
        max >= 1_000_000 ==> backoff_ms(attempt, initial, max) * 1_000_000 <= max,
        backoff_ms(0, initial, max) == if low_u64(initial / 1_000_000) < backoff_cap_ms(max) {
            low_u64(initial / 1_000_000)
        } else {
            backoff_cap_ms(max)
        },
{
    let ms = low_u64(initial / 1_000_000);
    let one = pow2(0);
    lemma2_to64();
    assert(ms * one == ms) by (nonlinear_arith)
        requires
            one == 1,
    ;
}

/// Waits never shrink from one retry to a later one.
pub proof fn law_backoff_grows(earlier: u32, later: u32, initial: nat, max: nat)
    requires
        earlier <= later,
    ensures
        backoff_ms(earlier, initial, max) <= backoff_ms(later, initial, max),
{
    let ms = low_u64(initial / 1_000_000);
    let a = pow2(doublings(earlier));
    let b = pow2(doublings(later));
    if doublings(earlier) < doublings(later) {
        lemma_pow2_strictly_increases(doublings(earlier), doublings(later));
    }
    assert(ms * a <= ms * b) by (nonlinear_arith)
        requires
            a <= b,
    ;
}

/// Below the cap each retry waits twice as long as the one before it.
pub proof fn law_backoff_doubles(attempt: u32, initial: nat, max: nat)
    requires
        attempt < 31,
        backoff_ms((attempt + 1) as u32, initial, max) < backoff_cap_ms(max),
    ensures
        backoff_ms((attempt + 1) as u32, initial, max) == 2 * backoff_ms(attempt, initial, max),
{
    let ms = low_u64(initial / 1_000_000);
    let p = pow2(attempt as nat);
    lemma_pow2_unfold((attempt + 1) as nat);
    assert(ms * (2 * p) == 2 * (ms * p)) by (nonlinear_arith);
}

} // verus!
