//! Points in time and spans of time, both counted in clock ticks.

use vstd::prelude::*;

verus! {

/// Ticks that the clock counts per microsecond.
pub const TICKS_PER_MICROSECOND: u64 = 1;

/// Ticks that the clock counts per millisecond.
pub const TICKS_PER_MILLISECOND: u64 = 1000;

/// Number of values of a 64-bit tick count: the period after which an
/// `Instant` wraps.
pub open spec fn instant_period() -> int {
    0x1_0000_0000_0000_0000
}

/// A span of time in clock ticks.
#[derive(Clone, Copy, Debug, PartialEq, Eq, Structural)]
pub struct Duration {
    /// The number of ticks in the span.
    pub ticks: u64,
}

impl View for Duration {
    type V = int;

    open spec fn view(&self) -> int {
        self.ticks as int
    }
}

impl Duration {
    /// A span of `ticks` clock ticks.
    pub fn from_ticks(ticks: u64) -> (d: Duration)
        ensures
            d@ == ticks,
    {
        Duration { ticks }
    }

    /// The span that lasts `micros` microseconds.
    pub fn from_micros(micros: u32) -> (d: Duration)
        ensures
            d@ == micros * TICKS_PER_MICROSECOND,
    {
        Duration { ticks: micros as u64 * TICKS_PER_MICROSECOND }
    }

    /// The span that lasts `millis` milliseconds.
    pub fn from_millis(millis: u32) -> (d: Duration)
        ensures
            d@ == millis * TICKS_PER_MILLISECOND,
    {
        Duration { ticks: millis as u64 * TICKS_PER_MILLISECOND }
    }

    /// The number of ticks in the span.
    pub fn ticks(&self) -> (t: u64)
        ensures
            t == self@,
    {
        self.ticks
    }
}

/// A point in time: the number of clock ticks since power-on, modulo
/// `instant_period()`.
#[derive(Clone, Copy, Debug, PartialEq, Eq, Structural)]
pub struct Instant {
    /// The tick count of the instant.
    pub ticks: u64,
}

impl View for Instant {
    type V = int;

    open spec fn view(&self) -> int {
        self.ticks as int
    }
}

impl Instant {
    /// The instant `ticks` ticks after power-on.
    pub fn from_ticks(ticks: u64) -> (t: Instant)
        ensures
            t@ == ticks,
    {
        Instant { ticks }
    }

    /// The tick count of the instant.
    pub fn ticks(&self) -> (t: u64)
        ensures
            t == self@,
    {
        self.ticks
    }

    /// Whether `self` is strictly earlier than `other` in the total order of
    /// tick counts.
    pub fn is_before(&self, other: &Instant) -> (b: bool)
        ensures
            b == (self@ < other@),
    {
        self.ticks < other.ticks
    }

    /// Whether `self` is `other` or earlier.
    pub fn is_at_or_before(&self, other: &Instant) -> (b: bool)
        ensures
            b == (self@ <= other@),
    {
        self.ticks <= other.ticks
    }

    /// The instant `delay` after `self`, wrapping at the period.
    pub fn wrapping_add(&self, delay: Duration) -> (t: Instant)
        ensures
            t@ == (self@ + delay@) % instant_period(),
            self@ + delay@ < instant_period() ==> t@ == self@ + delay@,
    {
        Instant { ticks: self.ticks.wrapping_add(delay.ticks) }
    }

    /// The instant `delay` after `self`, or `None` where the tick count
    /// would leave the 64-bit range.
    pub fn checked_add(&self, delay: Duration) -> (t: Option<Instant>)
        ensures
            t.is_some() == (self@ + delay@ < instant_period()),
            t.is_some() ==> t.unwrap()@ == self@ + delay@,
    {
        match self.ticks.checked_add(delay.ticks) {
            Some(ticks) => Some(Instant { ticks }),
            None => None,
        }
    }

    /// The wrap-aware span from `earlier` to `self`: their difference
    /// modulo the period.
    pub fn duration_since(&self, earlier: &Instant) -> (d: Duration)
        ensures
            d@ == (self@ - earlier@) % instant_period(),
            earlier@ <= self@ ==> d@ == self@ - earlier@,
    {
        Duration { ticks: self.ticks.wrapping_sub(earlier.ticks) }
    }
}

/// The wrap-aware difference of two readings is the time that truly passed
/// between them, whatever the number of wraps before the first reading, as
/// long as that time is less than the period.
pub proof fn law_wrapping_difference(start: int, elapsed: int)
    requires
        0 <= start,
        0 <= elapsed < instant_period(),
    ensures
        ((start + elapsed) % instant_period() - start % instant_period()) % instant_period()
            == elapsed,
{
    let p = instant_period();
    let s = start;
    let t = start + elapsed;
    let a = s % p;
    let b = t % p;
    let qs = s / p;
    let qt = t / p;
    assert(s == p * qs + a) by {
        vstd::arithmetic::div_mod::lemma_fundamental_div_mod(s, p);
    }
    assert(t == p * qt + b) by {
        vstd::arithmetic::div_mod::lemma_fundamental_div_mod(t, p);
    }
    let k = qs - qt;
    assert(p * k == p * qs - p * qt) by {
        vstd::arithmetic::mul::lemma_mul_is_distributive_sub(p, qs, qt);
    }
    assert(b - a == k * p + elapsed) by {
        vstd::arithmetic::mul::lemma_mul_is_commutative(p, k);
    }
    assert((b - a) % p == elapsed) by {
        vstd::arithmetic::div_mod::lemma_fundamental_div_mod_converse(
            b - a,
            p,
            k,
            elapsed,
        );
    }
}

} // verus!
