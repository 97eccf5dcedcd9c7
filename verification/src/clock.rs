//! The monotonic clock: a 64-bit tick count made from a free-running 32-bit
//! hardware counter and the number of times that counter has wrapped.
//!
//! The peripheral itself is read and written by the caller. The clock takes
//! what was read (a `CounterSample`) and says what to write (a
//! `CompareAction`).

use vstd::prelude::*;
use crate::time::{instant_period, Instant};

verus! {

/// Number of values of the hardware counter: the period after which it
/// wraps.
pub open spec fn counter_period() -> int {
    0x1_0000_0000
}

/// What one read of the counter peripheral gives.
#[derive(Clone, Copy, Debug, PartialEq, Eq, Structural)]
pub struct CounterSample {
    /// The value of the counter register.
    pub count: u32,
    /// Whether the counter has wrapped since the overflow handler last ran.
    pub overflow_pending: bool,
}

/// What the caller does to the compare interrupt of the counter.
#[derive(Clone, Copy, Debug, PartialEq, Eq, Structural)]
pub enum CompareAction {
    /// The target is reached already: raise the interrupt at once.
    FireNow,
    /// Write this value to the compare register. The counter equals it next
    /// at the target instant.
    Arm(u32),
    /// The target is a full counter period or more ahead: leave the compare
    /// interrupt off and ask again after the next overflow.
    AfterOverflow,
    /// Nothing is pending: switch the compare interrupt off.
    Disable,
}

/// The tick count that a clock with `wraps` counted wraps reads from
/// `sample`: the wraps, one more where an overflow is pending, in the high
/// word and the counter in the low word.
pub open spec fn reading(wraps: int, sample: CounterSample) -> int {
    ((wraps + if sample.overflow_pending {
        1int
    } else {
        0int
    }) % counter_period()) * counter_period() + sample.count
}

/// What `set_compare` answers at tick count `now` for the target `at`.
pub open spec fn compare_action(now: int, at: int) -> CompareAction {
    if at <= now {
        CompareAction::FireNow
    } else if at - now < counter_period() {
        CompareAction::Arm((at % counter_period()) as u32)
    } else {
        CompareAction::AfterOverflow
    }
}

/// The sample that three reads in a row give: the wrap event, the counter,
/// and the wrap event again. Where the event read the same before and
/// after the counter, it was so when the counter was read, and the three
/// make one sample. Where it came up in between, the count may be from
/// before the wrap or from after it, and there is no sample.
pub open spec fn settled(before: bool, count: u32, after: bool) -> Option<CounterSample> {
    if before == after {
        Some(CounterSample { count, overflow_pending: after })
    } else {
        None
    }
}

/// Makes one sample of a counter read between two reads of its wrap event,
/// or `None` where the event came up in between and the reads have to be
/// taken again.
pub fn settled_sample(before: bool, count: u32, after: bool) -> (s: Option<CounterSample>)
    ensures
        s == settled(before, count, after),
{
    if before == after {
        Some(CounterSample { count, overflow_pending: after })
    } else {
        None
    }
}

/// The clock's state: how often the counter has wrapped, and the instant
/// that the compare interrupt is armed for.
pub struct MonotonicClock {
    overflows: u32,
    target: Option<Instant>,
}

impl MonotonicClock {
    /// The number of counter wraps that the overflow handler has counted,
    /// modulo `counter_period()`.
    pub closed spec fn wraps(self) -> int {
        self.overflows as int
    }

    /// The instant that the compare interrupt is armed for, if any.
    pub closed spec fn armed(self) -> Option<Instant> {
        self.target
    }

    /// The clock at power-on: no wrap counted, nothing armed.
    pub fn new() -> (clock: MonotonicClock)
        ensures
            clock.wraps() == 0,
            clock.armed().is_none(),
    {
        MonotonicClock { overflows: 0, target: None }
    }

    /// The current instant, given what was just read from the counter.
    pub fn now(&self, sample: CounterSample) -> (t: Instant)
        ensures
            t@ == reading(self.wraps(), sample),
    {
        let high: u32 = if sample.overflow_pending {
            self.overflows.wrapping_add(1)
        } else {
            self.overflows
        };
        Instant::from_ticks(high as u64 * 0x1_0000_0000 + sample.count as u64)
    }

    /// Counts one wrap of the counter. The caller runs this once for each
    /// overflow event, and clears the event.
    pub fn on_overflow(&mut self)
        ensures
            final(self).wraps() == (old(self).wraps() + 1) % counter_period(),
            final(self).armed() == old(self).armed(),
    {
        self.overflows = self.overflows.wrapping_add(1);
    }

    /// Arms the compare interrupt for `at`, replacing any earlier target,
    /// and says what to do to the peripheral for it.
    pub fn set_compare(&mut self, at: Instant, sample: CounterSample) -> (action: CompareAction)
        ensures
            final(self).wraps() == old(self).wraps(),
            final(self).armed() == Some(at),
            action == compare_action(reading(old(self).wraps(), sample), at@),
    {
        self.target = Some(at);
        let now = self.now(sample);
        if at.is_at_or_before(&now) {
            CompareAction::FireNow
        } else if at.ticks() - now.ticks() < 0x1_0000_0000 {
            CompareAction::Arm((at.ticks() % 0x1_0000_0000) as u32)
        } else {
            CompareAction::AfterOverflow
        }
    }

    /// Forgets the target of the compare interrupt.
    pub fn clear_compare(&mut self) -> (action: CompareAction)
        ensures
            final(self).wraps() == old(self).wraps(),
            final(self).armed().is_none(),
            action == CompareAction::Disable,
    {
        self.target = None;
        CompareAction::Disable
    }

    /// Whether the armed target is reached at the instant of `sample`. The
    /// caller asks this right after it wrote the compare register, and
    /// raises the interrupt itself where the answer is yes: the counter may
    /// have passed the target while the register was written.
    pub fn compare_elapsed(&self, sample: CounterSample) -> (elapsed: bool)
        ensures
            elapsed == (self.armed().is_some() && self.armed().unwrap()@ <= reading(
                self.wraps(),
                sample,
            )),
    {
        match self.target {
            Some(at) => {
                let now = self.now(sample);
                at.is_at_or_before(&now)
            },
            None => false,
        }
    }

    /// The instant that the compare interrupt is armed for, if any.
    pub fn armed_for(&self) -> (target: Option<Instant>)
        ensures
            target == self.armed(),
    {
        self.target
    }
}

/// Whether a clock with `wraps` counted wraps and the sample `sample`
/// stand for `elapsed` ticks since power-on: the counter holds the low word
/// of `elapsed`, and every wrap was counted once or is pending.
pub open spec fn tracks(wraps: int, sample: CounterSample, elapsed: int) -> bool {
    &&& 0 <= elapsed < instant_period()
    &&& 0 <= wraps < counter_period()
    &&& elapsed % counter_period() == sample.count
    &&& elapsed / counter_period() == wraps + if sample.overflow_pending {
        1int
    } else {
        0int
    }
}

/// The sample that the peripheral shows `ticks` ticks after it showed
/// `sample`: the counter has advanced modulo its period, and an overflow is
/// pending where one was or the counter has wrapped.
pub open spec fn sample_after(sample: CounterSample, ticks: int) -> CounterSample {
    CounterSample {
        count: ((sample.count + ticks) % counter_period()) as u32,
        overflow_pending: sample.overflow_pending || sample.count + ticks >= counter_period(),
    }
}

/// A clock that tracks the elapsed time reads exactly that time.
pub proof fn law_now_reads_elapsed(wraps: int, sample: CounterSample, elapsed: int)
    requires
        tracks(wraps, sample, elapsed),
    ensures
        reading(wraps, sample) == elapsed,
{
    let p = counter_period();
    vstd::arithmetic::div_mod::lemma_fundamental_div_mod(elapsed, p);
    let high = elapsed / p;
    assert(high < p) by {
        if high >= p {
            vstd::arithmetic::mul::lemma_mul_inequality(p, high, p);
        }
    }
    vstd::arithmetic::div_mod::lemma_small_mod(high as nat, p as nat);
    vstd::arithmetic::mul::lemma_mul_is_commutative(p, high);
}

/// A settled sample is the sample of the instant at which the counter was
/// read: where the wrap event, which only the overflow handler clears, was
/// read before and after the counter and read the same, a clock that
/// tracks the elapsed time with what the event truly was at that instant
/// tracks it with the settled sample.
pub proof fn law_settled_sample_keeps_time(
    wraps: int,
    before: bool,
    count: u32,
    at_count: bool,
    after: bool,
    elapsed: int,
)
    requires
        before ==> at_count,
        at_count ==> after,
        tracks(wraps, CounterSample { count, overflow_pending: at_count }, elapsed),
        settled(before, count, after).is_some(),
    ensures
        tracks(wraps, settled(before, count, after).unwrap(), elapsed),
        reading(wraps, settled(before, count, after).unwrap()) == elapsed,
{
    law_now_reads_elapsed(wraps, settled(before, count, after).unwrap(), elapsed);
}

/// The overflow handler keeps the clock on the elapsed time: once it has
/// counted the pending wrap and the event is cleared, the clock tracks the
/// same elapsed time as before.
pub proof fn law_overflow_handler_keeps_time(wraps: int, sample: CounterSample, elapsed: int)
    requires
        tracks(wraps, sample, elapsed),
        sample.overflow_pending,
    ensures
        tracks(
            (wraps + 1) % counter_period(),
            CounterSample { count: sample.count, overflow_pending: false },
            elapsed,
        ),
{
    let p = counter_period();
    let high = elapsed / p;
    vstd::arithmetic::div_mod::lemma_fundamental_div_mod(elapsed, p);
    assert(high < p) by {
        if high >= p {
            vstd::arithmetic::mul::lemma_mul_inequality(p, high, p);
        }
    }
    vstd::arithmetic::div_mod::lemma_small_mod(high as nat, p as nat);
}

/// Time that passes keeps the clock on the elapsed time, across a wrap of
/// the counter too, as long as the counter does not wrap while an overflow
/// is still pending.
pub proof fn law_passing_time_keeps_time(
    wraps: int,
    sample: CounterSample,
    elapsed: int,
    ticks: int,
)
    requires
        tracks(wraps, sample, elapsed),
        0 <= ticks,
        elapsed + ticks < instant_period(),
        sample.count + ticks < counter_period() || (!sample.overflow_pending && sample.count
            + ticks < 2 * counter_period()),
    ensures
        tracks(wraps, sample_after(sample, ticks), elapsed + ticks),
{
    let p = counter_period();
    let high = elapsed / p;
    vstd::arithmetic::div_mod::lemma_fundamental_div_mod(elapsed, p);
    vstd::arithmetic::mul::lemma_mul_is_commutative(p, high);
    let low = sample.count + ticks;
    if low < p {
        vstd::arithmetic::div_mod::lemma_fundamental_div_mod_converse(
            elapsed + ticks,
            p,
            high,
            low,
        );
        vstd::arithmetic::div_mod::lemma_small_mod(low as nat, p as nat);
    } else {
        assert(elapsed + ticks == (high + 1) * p + (low - p)) by {
            vstd::arithmetic::mul::lemma_mul_is_distributive_add_other_way(p, high, 1);
        }
        vstd::arithmetic::div_mod::lemma_fundamental_div_mod_converse(
            elapsed + ticks,
            p,
            high + 1,
            low - p,
        );
        vstd::arithmetic::div_mod::lemma_fundamental_div_mod_converse(low, p, 1, low - p);
    }
}

/// Readings never go back: of two samples, each tracked by the clock at
/// its time, the one taken later does not read less, whether or not the
/// counter wrapped in between.
pub proof fn law_readings_never_decrease(
    first_wraps: int,
    first: CounterSample,
    first_elapsed: int,
    second_wraps: int,
    second: CounterSample,
    second_elapsed: int,
)
    requires
        tracks(first_wraps, first, first_elapsed),
        tracks(second_wraps, second, second_elapsed),
        first_elapsed <= second_elapsed,
    ensures
        reading(first_wraps, first) <= reading(second_wraps, second),
{
    law_now_reads_elapsed(first_wraps, first, first_elapsed);
    law_now_reads_elapsed(second_wraps, second, second_elapsed);
}

/// One sample of the counter: what was read, the wraps that the clock had
/// counted then, and the ticks that had truly passed since power-on.
pub struct Observation {
    pub wraps: int,
    pub sample: CounterSample,
    pub elapsed: int,
}

/// In every sequence of samples, each tracked by the clock at its time and
/// none taken before the one in front of it, no reading is less than an
/// earlier one, wherever in the sequence the counter wraps.
pub proof fn law_sample_sequence_never_decreases(observations: Seq<Observation>)
    requires
        forall|i: int|
            0 <= i < observations.len() ==> tracks(
                (#[trigger] observations[i]).wraps,
                observations[i].sample,
                observations[i].elapsed,
            ),
        forall|i: int, j: int|
            0 <= i < j < observations.len() ==> (#[trigger] observations[i]).elapsed <= (
            #[trigger] observations[j]).elapsed,
    ensures
        forall|i: int, j: int|
            0 <= i < j < observations.len() ==> reading(
                (#[trigger] observations[i]).wraps,
                observations[i].sample,
            ) <= reading((#[trigger] observations[j]).wraps, observations[j].sample),
{
    assert forall|i: int, j: int| 0 <= i < j < observations.len() implies reading(
        (#[trigger] observations[i]).wraps,
        observations[i].sample,
    ) <= reading((#[trigger] observations[j]).wraps, observations[j].sample) by {
        law_readings_never_decrease(
            observations[i].wraps,
            observations[i].sample,
            observations[i].elapsed,
            observations[j].wraps,
            observations[j].sample,
            observations[j].elapsed,
        );
    }
}

/// An armed compare register does not match before its target: between
/// the instant at which it was armed and the target, the counter never
/// holds the armed value, and at the target it does.
pub proof fn law_compare_matches_at_target(now: int, at: int, t: int)
    requires
        0 <= now < at,
        at - now < counter_period(),
        now < t <= at,
    ensures
        (t % counter_period() == at % counter_period()) == (t == at),
{
    let p = counter_period();
    if t != at && t % p == at % p {
        vstd::arithmetic::div_mod::lemma_fundamental_div_mod(t, p);
        vstd::arithmetic::div_mod::lemma_fundamental_div_mod(at, p);
        let d = at / p - t / p;
        assert(at - t == p * d) by {
            vstd::arithmetic::mul::lemma_mul_is_distributive_sub(p, at / p, t / p);
        }
        if d >= 1 {
            vstd::arithmetic::mul::lemma_mul_inequality(1, d, p);
            vstd::arithmetic::mul::lemma_mul_is_commutative(p, d);
        } else {
            vstd::arithmetic::mul::lemma_mul_inequality(d, 0, p);
            vstd::arithmetic::mul::lemma_mul_is_commutative(p, d);
        }
    }
}

} // verus!
