use monotonic_scheduler::clock::{
    settled_sample, CompareAction, CounterSample, MonotonicClock,
};
use monotonic_scheduler::time::{Duration, Instant};

fn sample(count: u32) -> CounterSample {
    CounterSample { count, overflow_pending: false }
}

#[test]
fn now_combines_wraps_and_counter() {
    let mut clock = MonotonicClock::new();
    assert_eq!(clock.now(sample(0)).ticks(), 0);
    assert_eq!(clock.now(sample(12345)).ticks(), 12345);
    clock.on_overflow();
    assert_eq!(clock.now(sample(7)).ticks(), 0x1_0000_0007);
    clock.on_overflow();
    assert_eq!(clock.now(sample(u32::MAX)).ticks(), 0x2_FFFF_FFFF);
}

#[test]
fn pending_overflow_counts_as_one_wrap() {
    let clock = MonotonicClock::new();
    let pending = CounterSample { count: 3, overflow_pending: true };
    assert_eq!(clock.now(pending).ticks(), 0x1_0000_0003);
}

#[test]
fn readings_never_decrease_across_a_wrap() {
    // A simulated counter that starts shortly before it wraps. The overflow
    // handler runs late, some samples after the wrap.
    let mut clock = MonotonicClock::new();
    let mut count: u32 = u32::MAX - 50;
    let mut pending = false;
    let mut elapsed: u64 = count as u64;
    let mut last = clock.now(CounterSample { count, overflow_pending: pending });
    assert_eq!(last.ticks(), elapsed);
    for step in 0..40u32 {
        let ticks = 1 + (step * 7) % 13;
        let (next, wrapped) = count.overflowing_add(ticks);
        count = next;
        pending = pending || wrapped;
        elapsed += ticks as u64;
        let reading = clock.now(CounterSample { count, overflow_pending: pending });
        assert!(last.is_at_or_before(&reading));
        assert_eq!(reading.ticks(), elapsed);
        last = reading;
        if pending && step % 5 == 4 {
            clock.on_overflow();
            pending = false;
            let after = clock.now(CounterSample { count, overflow_pending: pending });
            assert_eq!(after, reading);
        }
    }
    assert!(elapsed > u32::MAX as u64);
}

#[test]
fn high_word_wraps_with_the_instant() {
    let mut clock = MonotonicClock::new();
    let all_but_one = CounterSample { count: 0, overflow_pending: true };
    // 2^32 - 1 wraps counted one by one would take too long: count a few and
    // check the arithmetic at the top through the pending flag.
    for _ in 0..3 {
        clock.on_overflow();
    }
    assert_eq!(clock.now(all_but_one).ticks(), 0x4_0000_0000);
}

#[test]
fn set_compare_in_the_past_fires_now() {
    let mut clock = MonotonicClock::new();
    clock.on_overflow();
    let action = clock.set_compare(Instant::from_ticks(0x1_0000_0010), sample(0x10));
    assert_eq!(action, CompareAction::FireNow);
    let action = clock.set_compare(Instant::from_ticks(5), sample(0x10));
    assert_eq!(action, CompareAction::FireNow);
    assert_eq!(clock.armed_for(), Some(Instant::from_ticks(5)));
}

#[test]
fn set_compare_within_reach_arms_the_low_word() {
    let mut clock = MonotonicClock::new();
    let action = clock.set_compare(Instant::from_ticks(1_000_000), sample(0));
    assert_eq!(action, CompareAction::Arm(1_000_000));
    // The target lies behind the next wrap of the counter.
    let action = clock.set_compare(Instant::from_ticks(0x1_0000_0005), sample(0xFFFF_FFF0));
    assert_eq!(action, CompareAction::Arm(5));
    // One tick short of a full period ahead.
    let action = clock.set_compare(Instant::from_ticks(0x1_0000_0004), sample(5));
    assert_eq!(action, CompareAction::Arm(4));
    assert_eq!(clock.armed_for(), Some(Instant::from_ticks(0x1_0000_0004)));
}

#[test]
fn set_compare_out_of_reach_waits_for_overflow() {
    let mut clock = MonotonicClock::new();
    let action = clock.set_compare(Instant::from_ticks(0x1_0000_0005), sample(5));
    assert_eq!(action, CompareAction::AfterOverflow);
    let action = clock.set_compare(Instant::from_ticks(0x3_0000_0000), sample(5));
    assert_eq!(action, CompareAction::AfterOverflow);
    assert_eq!(clock.armed_for(), Some(Instant::from_ticks(0x3_0000_0000)));
}

#[test]
fn clear_compare_disables() {
    let mut clock = MonotonicClock::new();
    clock.set_compare(Instant::from_ticks(100), sample(0));
    assert_eq!(clock.clear_compare(), CompareAction::Disable);
    assert_eq!(clock.armed_for(), None);
    assert!(!clock.compare_elapsed(sample(200)));
}

#[test]
fn compare_elapsed_tells_a_missed_target() {
    let mut clock = MonotonicClock::new();
    assert!(!clock.compare_elapsed(sample(0)));
    assert_eq!(clock.set_compare(Instant::from_ticks(100), sample(99)), CompareAction::Arm(100));
    assert!(!clock.compare_elapsed(sample(99)));
    assert!(clock.compare_elapsed(sample(100)));
    assert!(clock.compare_elapsed(sample(101)));
    assert!(clock.compare_elapsed(CounterSample { count: 0, overflow_pending: true }));
}

#[test]
fn on_overflow_keeps_the_target() {
    let mut clock = MonotonicClock::new();
    clock.set_compare(Instant::from_ticks(0x1_0000_0005), sample(5));
    clock.on_overflow();
    assert_eq!(clock.armed_for(), Some(Instant::from_ticks(0x1_0000_0005)));
    assert_eq!(
        clock.set_compare(Instant::from_ticks(0x1_0000_0005), sample(0)),
        CompareAction::Arm(5)
    );
}

#[test]
fn durations_convert_at_one_tick_per_microsecond() {
    assert_eq!(Duration::from_ticks(17).ticks(), 17);
    assert_eq!(Duration::from_micros(0).ticks(), 0);
    assert_eq!(Duration::from_micros(1_000_000).ticks(), 1_000_000);
    assert_eq!(Duration::from_micros(1_500_000).ticks(), 1_500_000);
    assert_eq!(Duration::from_micros(u32::MAX).ticks(), 4_294_967_295);
    assert_eq!(Duration::from_millis(2000).ticks(), 2_000_000);
    assert_eq!(Duration::from_millis(u32::MAX).ticks(), 4_294_967_295_000);
}

#[test]
fn instants_are_ordered_by_ticks() {
    let a = Instant::from_ticks(5);
    let b = Instant::from_ticks(6);
    assert!(a.is_before(&b));
    assert!(!b.is_before(&a));
    assert!(!a.is_before(&a));
    assert!(a.is_at_or_before(&a));
    assert!(a.is_at_or_before(&b));
    assert!(!b.is_at_or_before(&a));
}

#[test]
fn instant_addition_wraps_at_the_period() {
    let t = Instant::from_ticks(100);
    assert_eq!(t.wrapping_add(Duration::from_ticks(23)).ticks(), 123);
    let late = Instant::from_ticks(u64::MAX - 1);
    assert_eq!(late.wrapping_add(Duration::from_ticks(1)).ticks(), u64::MAX);
    assert_eq!(late.wrapping_add(Duration::from_ticks(5)).ticks(), 3);
    assert_eq!(late.checked_add(Duration::from_ticks(1)), Some(Instant::from_ticks(u64::MAX)));
    assert_eq!(late.checked_add(Duration::from_ticks(2)), None);
    assert_eq!(t.checked_add(Duration::from_ticks(0)), Some(t));
}

#[test]
fn duration_since_is_wrap_aware() {
    let a = Instant::from_ticks(100);
    let b = Instant::from_ticks(250);
    assert_eq!(b.duration_since(&a).ticks(), 150);
    assert_eq!(a.duration_since(&a).ticks(), 0);
    let before_wrap = Instant::from_ticks(u64::MAX - 9);
    let after_wrap = Instant::from_ticks(20);
    assert_eq!(after_wrap.duration_since(&before_wrap).ticks(), 30);
    assert_eq!(a.duration_since(&b).ticks(), u64::MAX - 149);
}

#[test]
fn settled_sample_needs_the_same_event_on_both_sides() {
    assert_eq!(
        settled_sample(false, 17, false),
        Some(CounterSample { count: 17, overflow_pending: false })
    );
    assert_eq!(
        settled_sample(true, 3, true),
        Some(CounterSample { count: 3, overflow_pending: true })
    );
    assert_eq!(settled_sample(false, u32::MAX, true), None);
    assert_eq!(settled_sample(false, 0, true), None);
    assert_eq!(settled_sample(true, 9, false), None);
}

#[test]
fn settled_samples_read_the_elapsed_time_around_a_wrap() {
    // The counter wraps between the first read of the event and the read
    // of the counter: the reads are taken again, and the second set reads
    // the time after the wrap.
    let clock = MonotonicClock::new();
    assert_eq!(settled_sample(false, 2, true), None);
    let again = settled_sample(true, 5, true).unwrap();
    assert_eq!(clock.now(again).ticks(), 0x1_0000_0005);
    let earlier = settled_sample(false, u32::MAX - 1, false).unwrap();
    assert!(clock.now(earlier).is_before(&clock.now(again)));
}
