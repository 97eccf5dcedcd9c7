//! The dispatcher: what the interrupt handlers decide.
//!
//! The handlers themselves belong to the caller. On each event they read
//! the counter, ask the dispatcher, and carry out its answer: they run the
//! task bodies that it hands out at their priority, and do to the compare
//! interrupt what the returned `CompareAction` says.

use vstd::prelude::*;
use crate::arbiter::{admitted, within_ceiling, ResourceArbiter, SharedCell, Suspended};
use crate::clock::{compare_action, reading, CompareAction, CounterSample, MonotonicClock};
use crate::order::{
    held_at, in_dispatch_order, next_wake, respects_policy, runnable_at, TimerQueueEntry,
};
use crate::queue::{after_insert, insert_outcome, SchedulingError, TimerQueue};
use crate::task::{TaskHandle, TaskTable};
use crate::time::{instant_period, Duration, Instant};

verus! {

/// Whether the core executes a task.
#[derive(Clone, Copy, Debug, PartialEq, Eq, Structural)]
pub enum DispatchState {
    /// No task executes.
    Idle,
    /// A task body executes.
    Servicing,
}

/// The entries of priority `priority`.
pub open spec fn at_priority(table: TaskTable, priority: int) -> spec_fn(TimerQueueEntry) -> bool {
    |x: TimerQueueEntry| table.priority_of(x.task) == priority
}

/// The entries of priority `floor` or above.
pub open spec fn at_or_above(table: TaskTable, floor: int) -> spec_fn(TimerQueueEntry) -> bool {
    |x: TimerQueueEntry| table.priority_of(x.task) >= floor
}

/// The entries of `batch` of priority `floor` or above in the order in
/// which they run: the higher priority first, and the entries of one
/// priority in the order that they have in `batch`.
pub open spec fn run_order_down_to(
    table: TaskTable,
    batch: Seq<TimerQueueEntry>,
    floor: int,
) -> Seq<TimerQueueEntry>
    decreases 256 - floor,
{
    if floor > 255 {
        Seq::empty()
    } else {
        run_order_down_to(table, batch, floor + 1) + batch.filter(at_priority(table, floor))
    }
}

/// The entries of `batch` in the order in which they run.
pub open spec fn run_order(table: TaskTable, batch: Seq<TimerQueueEntry>) -> Seq<
    TimerQueueEntry,
> {
    run_order_down_to(table, batch, 0)
}

/// What is done to the compare interrupt at tick count `now` where the
/// next wake is `target`.
pub open spec fn rearm_action(target: Option<Instant>, now: int) -> CompareAction {
    match target {
        None => CompareAction::Disable,
        Some(at) => compare_action(now, at@),
    }
}

/// The instant that a clock with `wraps` counted wraps reads from
/// `sample`.
pub open spec fn instant_read(wraps: int, sample: CounterSample) -> Instant {
    Instant { ticks: reading(wraps, sample) as u64 }
}

/// The entry that `spawn_after` makes for `task` at instant `now` with
/// delay `delay`.
pub open spec fn delayed_entry(task: TaskHandle, now: Instant, delay: Duration) -> TimerQueueEntry {
    TimerQueueEntry {
        wake_at: Instant { ticks: ((now@ + delay@) % instant_period()) as u64 },
        task,
        payload: None,
    }
}

/// Puts the entries of `batch` in the order in which they run.
pub fn in_run_order(table: &TaskTable, batch: &Vec<TimerQueueEntry>) -> (order: Vec<
    TimerQueueEntry,
>)
    ensures
        order@ == run_order(*table, batch@),
{
    let n = batch.len();
    let mut order: Vec<TimerQueueEntry> = Vec::new();
    let mut floor: u16 = 256;
    while floor > 0
        invariant
            n == batch@.len(),
            floor <= 256,
            order@ == run_order_down_to(*table, batch@, floor as int),
        decreases floor,
    {
        floor -= 1;
        let ghost above = order@;
        let ghost pred = at_priority(*table, floor as int);
        let mut i: usize = 0;
        while i < n
            invariant
                n == batch@.len(),
                i <= n,
                floor <= 255,
                pred == at_priority(*table, floor as int),
                order@ == above + batch@.take(i as int).filter(pred),
            decreases n - i,
        {
            let entry = batch[i];
            proof {
                assert(batch@.take(i + 1) =~= batch@.take(i as int).push(entry));
                batch@.take(i as int).lemma_filter_push(entry, pred);
            }
            if table.priority(entry.task) as u16 == floor {
                order.push(entry);
                assert(order@ =~= above + batch@.take(i + 1).filter(pred));
            }
            i += 1;
        }
        assert(batch@.take(n as int) =~= batch@);
    }
    order
}

/// The scheduler's state: the clock, the pending entries and the level at
/// which the core executes.
pub struct Dispatcher {
    clock: MonotonicClock,
    queue: TimerQueue,
    arbiter: ResourceArbiter,
}

impl Dispatcher {
    /// The pending entries, in dispatch order.
    pub closed spec fn pending(self) -> Seq<TimerQueueEntry> {
        self.queue@
    }

    /// The task table.
    pub closed spec fn tasks(self) -> TaskTable {
        self.queue.tasks()
    }

    /// The largest number of pending entries.
    pub closed spec fn limit(self) -> nat {
        self.queue.limit()
    }

    /// The number of counter wraps that the clock has counted.
    pub closed spec fn wraps(self) -> int {
        self.clock.wraps()
    }

    /// The instant that the compare interrupt is armed for, if any.
    pub closed spec fn armed(self) -> Option<Instant> {
        self.clock.armed()
    }

    /// The level at which the core executes.
    pub closed spec fn level(self) -> Option<u8> {
        self.arbiter.level()
    }

    /// The priority of the task that executes, if any.
    pub closed spec fn base(self) -> Option<u8> {
        self.arbiter.base()
    }

    /// Whether everything but the armed target is the same in `self` and
    /// `other`.
    pub open spec fn same_but_armed(self, other: Dispatcher) -> bool {
        &&& self.pending() == other.pending()
        &&& self.tasks() == other.tasks()
        &&& self.limit() == other.limit()
        &&& self.wraps() == other.wraps()
        &&& self.level() == other.level()
        &&& self.base() == other.base()
    }

    /// Whether the compare interrupt of `self` is armed for the next wake
    /// of its pending entries, and `action` is what does so at the instant
    /// of `sample`.
    pub open spec fn rearmed_by(self, action: CompareAction, sample: CounterSample) -> bool {
        &&& self.armed() == next_wake(self.tasks(), self.pending(), self.level())
        &&& action == rearm_action(self.armed(), reading(self.wraps(), sample))
    }

    /// Whether `self` is what `before` becomes when the wake request
    /// `entry` is made at the instant of `sample` and answered with `r`:
    /// the request is answered as the queue answers it; where it is taken,
    /// the entry is pending and the compare interrupt is armed anew by the
    /// action in `r`; where it is refused, nothing has changed.
    pub open spec fn scheduled_from(
        self,
        before: Dispatcher,
        entry: TimerQueueEntry,
        sample: CounterSample,
        r: Result<CompareAction, SchedulingError>,
    ) -> bool {
        &&& self.tasks() == before.tasks()
        &&& self.limit() == before.limit()
        &&& self.wraps() == before.wraps()
        &&& self.level() == before.level()
        &&& self.base() == before.base()
        &&& self.pending() == after_insert(before.tasks(), before.pending(), before.limit(), entry)
        &&& match r {
            Ok(action) => insert_outcome(
                before.tasks(),
                before.pending(),
                before.limit(),
                entry,
            ).is_ok() && self.rearmed_by(action, sample),
            Err(e) => insert_outcome(before.tasks(), before.pending(), before.limit(), entry)
                == Err::<(), SchedulingError>(e) && self.armed() == before.armed(),
        }
    }

    /// A dispatcher at power-on: nothing pending, no wrap counted, nothing
    /// armed, no task executing.
    pub fn new(table: TaskTable, capacity: usize) -> (dispatcher: Dispatcher)
        ensures
            dispatcher.pending() == Seq::<TimerQueueEntry>::empty(),
            dispatcher.tasks() == table,
            dispatcher.limit() == capacity,
            dispatcher.wraps() == 0,
            dispatcher.armed().is_none(),
            dispatcher.level().is_none(),
            dispatcher.base().is_none(),
    {
        Dispatcher {
            clock: MonotonicClock::new(),
            queue: TimerQueue::new(table, capacity),
            arbiter: ResourceArbiter::new(),
        }
    }

    /// The current instant, given what was just read from the counter.
    pub fn now(&self, sample: CounterSample) -> (t: Instant)
        ensures
            t == instant_read(self.wraps(), sample),
    {
        self.clock.now(sample)
    }

    /// Whether a task executes.
    pub fn state(&self) -> (state: DispatchState)
        ensures
            state == if self.base().is_some() {
                DispatchState::Servicing
            } else {
                DispatchState::Idle
            },
    {
        match self.arbiter.current_task_priority() {
            Some(_) => DispatchState::Servicing,
            None => DispatchState::Idle,
        }
    }

    /// The level at which the core executes.
    pub fn current_level(&self) -> (level: Option<u8>)
        ensures
            level == self.level(),
    {
        self.arbiter.current_level()
    }

    /// The pending entries from the one dispatched first to the one
    /// dispatched last. They are in dispatch order, respect the spawn
    /// policy of every task and are no more than the capacity allows.
    pub fn pending_entries(&self) -> (entries: Vec<TimerQueueEntry>)
        ensures
            entries@ == self.pending(),
            in_dispatch_order(self.tasks(), self.pending()),
            respects_policy(self.tasks(), self.pending()),
            self.pending().len() <= self.limit(),
    {
        self.queue.entries()
    }

    /// Whether an instance of `task` is pending.
    pub fn is_pending(&self, task: TaskHandle) -> (pending: bool)
        ensures
            pending == crate::order::is_pending(self.pending(), task),
    {
        self.queue.is_pending(task)
    }

    /// The instant that the compare interrupt is armed for, if any.
    pub fn armed_for(&self) -> (target: Option<Instant>)
        ensures
            target == self.armed(),
    {
        self.clock.armed_for()
    }

    /// Whether the armed target is reached at the instant of `sample`. The
    /// caller asks this right after it wrote the compare register, and
    /// raises the interrupt itself where the answer is yes.
    pub fn compare_elapsed(&self, sample: CounterSample) -> (elapsed: bool)
        ensures
            elapsed == (self.armed().is_some() && self.armed().unwrap()@ <= reading(
                self.wraps(),
                sample,
            )),
    {
        self.clock.compare_elapsed(sample)
    }

    /// Arms the compare interrupt for the next wake among the pending
    /// entries whose task may start at the current level, or switches it
    /// off where there is none.
    pub fn rearm(&mut self, sample: CounterSample) -> (action: CompareAction)
        ensures
            final(self).same_but_armed(*old(self)),
            final(self).rearmed_by(action, sample),
    {
        match self.queue.peek_earliest_above(self.arbiter.current_level()) {
            Some(at) => self.clock.set_compare(at, sample),
            None => self.clock.clear_compare(),
        }
    }

    /// Takes the wake request `entry` and arms the compare interrupt anew.
    /// A request that the queue refuses changes nothing, and its error is
    /// returned.
    pub fn schedule(&mut self, entry: TimerQueueEntry, sample: CounterSample) -> (r: Result<
        CompareAction,
        SchedulingError,
    >)
        ensures
            final(self).scheduled_from(*old(self), entry, sample, r),
    {
        match self.queue.insert(entry) {
            Ok(()) => Ok(self.rearm(sample)),
            Err(e) => Err(e),
        }
    }

    /// Requests that `task` runs as soon as possible: its entry wakes at
    /// the current instant.
    pub fn spawn(&mut self, task: TaskHandle, sample: CounterSample) -> (r: Result<
        CompareAction,
        SchedulingError,
    >)
        ensures
            final(self).scheduled_from(
                *old(self),
                delayed_entry(task, instant_read(old(self).wraps(), sample), Duration { ticks: 0 }),
                sample,
                r,
            ),
    {
        self.spawn_after(task, Duration::from_ticks(0), sample)
    }

    /// Requests that `task` runs `delay` after the current instant or
    /// later, never earlier: its entry wakes at the current instant plus
    /// `delay`, modulo the period of an `Instant`.
    pub fn spawn_after(&mut self, task: TaskHandle, delay: Duration, sample: CounterSample) -> (r:
        Result<CompareAction, SchedulingError>)
        ensures
            final(self).scheduled_from(
                *old(self),
                delayed_entry(task, instant_read(old(self).wraps(), sample), delay),
                sample,
                r,
            ),
    {
        let now = self.clock.now(sample);
        let entry = TimerQueueEntry { wake_at: now.wrapping_add(delay), task, payload: None };
        self.schedule(entry, sample)
    }

    /// Counts one wrap of the counter and arms the compare interrupt anew:
    /// a target that was out of the counter's reach may be in reach now.
    /// `sample` is read after the overflow event was cleared.
    pub fn on_overflow(&mut self, sample: CounterSample) -> (action: CompareAction)
        ensures
            final(self).pending() == old(self).pending(),
            final(self).tasks() == old(self).tasks(),
            final(self).limit() == old(self).limit(),
            final(self).level() == old(self).level(),
            final(self).base() == old(self).base(),
            final(self).wraps() == (old(self).wraps() + 1) % crate::clock::counter_period(),
            final(self).rearmed_by(action, sample),
    {
        self.clock.on_overflow();
        self.rearm(sample)
    }

    /// Removes every entry that is due at the instant of `sample` and whose
    /// task may start at the current level, and returns them in the order
    /// in which their bodies run. The other entries stay pending.
    pub fn take_due(&mut self, sample: CounterSample) -> (batch: Vec<TimerQueueEntry>)
        ensures
            final(self).tasks() == old(self).tasks(),
            final(self).limit() == old(self).limit(),
            final(self).wraps() == old(self).wraps(),
            final(self).armed() == old(self).armed(),
            final(self).level() == old(self).level(),
            final(self).base() == old(self).base(),
            batch@ == run_order(
                old(self).tasks(),
                old(self).pending().filter(
                    runnable_at(
                        old(self).tasks(),
                        old(self).level(),
                        reading(old(self).wraps(), sample),
                    ),
                ),
            ),
            final(self).pending() == old(self).pending().filter(
                held_at(old(self).tasks(), old(self).level(), reading(old(self).wraps(), sample)),
            ),
    {
        let now = self.clock.now(sample);
        let table = self.queue.table();
        let due = self.queue.pop_due_above(now, self.arbiter.current_level());
        in_run_order(&table, &due)
    }

    /// Starts the body of `entry` where its task may start at the current
    /// level: the core then executes at the task's priority, and what it
    /// executed before is returned, to be handed to `finish`. Where the
    /// task may not start, nothing changes and `None` is returned.
    pub fn start(&mut self, entry: &TimerQueueEntry) -> (suspended: Option<Suspended>)
        ensures
            final(self).pending() == old(self).pending(),
            final(self).tasks() == old(self).tasks(),
            final(self).limit() == old(self).limit(),
            final(self).wraps() == old(self).wraps(),
            final(self).armed() == old(self).armed(),
            suspended.is_some() == admitted(
                old(self).level(),
                old(self).tasks().priority_of(entry.task),
            ),
            suspended.is_some() ==> suspended.unwrap() == (Suspended {
                base: old(self).base(),
                level: old(self).level(),
            }) && final(self).base() == Some(old(self).tasks().config_of(entry.task).priority)
                && final(self).level() == final(self).base(),
            suspended.is_none() ==> final(self).base() == old(self).base() && final(self).level()
                == old(self).level(),
    {
        let table = self.queue.table();
        self.arbiter.enter(table.priority(entry.task))
    }

    /// Ends the task body that executes: the core executes again what it
    /// left for it, and the compare interrupt is armed for the next wake
    /// among the entries that may start then.
    pub fn finish(&mut self, suspended: Suspended, sample: CounterSample) -> (action:
        CompareAction)
        ensures
            final(self).pending() == old(self).pending(),
            final(self).tasks() == old(self).tasks(),
            final(self).limit() == old(self).limit(),
            final(self).wraps() == old(self).wraps(),
            final(self).base() == suspended.base,
            final(self).level() == suspended.level,
            final(self).rearmed_by(action, sample),
    {
        self.arbiter.leave(suspended);
        self.rearm(sample)
    }

    /// Whether the code that executes may enter a critical section on
    /// `cell`.
    pub fn may_access<T>(&self, cell: &SharedCell<T>) -> (allowed: bool)
        ensures
            allowed == within_ceiling(self.base(), cell.ceiling_priority()),
    {
        self.arbiter.may_access(cell)
    }

    /// Runs `body` on the contents of `cell` in a critical section at the
    /// cell's ceiling.
    pub fn with_shared<T, F: FnOnce(&mut T)>(&mut self, cell: &mut SharedCell<T>, body: F)
        requires
            within_ceiling(old(self).base(), old(cell).ceiling_priority()),
            forall|contents: &mut T| *contents == old(cell)@ ==> call_requires(body, (contents,)),
        ensures
            final(self).same_but_armed(*old(self)),
            final(self).armed() == old(self).armed(),
            final(cell).ceiling_priority() == old(cell).ceiling_priority(),
            exists|contents: &mut T|
                *contents == old(cell)@ && *final(contents) == final(cell)@ && call_ensures(
                    body,
                    (contents,),
                    (),
                ),
    {
        self.arbiter.with_shared(cell, body);
    }
}

} // verus!
