//! The timer queue: the bounded collection of pending wake requests, kept
//! in the order in which they are dispatched.

use vstd::prelude::*;
use crate::order::{
    can_start, dispatched_before, due_entries, held_at, in_dispatch_order, is_pending,
    lemma_due_is_prefix, lemma_filter_keeps_order, lemma_insert_at_index,
    lemma_insert_keeps_policy, lemma_subrange_keeps_order, next_wake, respects_policy,
    runnable_at, waiting_entries, with_inserted, TimerQueueEntry,
};
use crate::task::{TaskHandle, TaskTable};
use crate::time::Instant;

verus! {

/// Why a wake request was not taken.
#[derive(Clone, Copy, Debug, PartialEq, Eq, Structural)]
pub enum SchedulingError {
    /// The task may be pending only once, and an instance is pending.
    AlreadyPending,
    /// The queue holds as many entries as its capacity allows.
    QueueFull,
}

/// The pending wake requests, in dispatch order. Its view is the sequence
/// of entries from the one dispatched first to the one dispatched last.
pub struct TimerQueue {
    entries: Vec<TimerQueueEntry>,
    capacity: usize,
    table: TaskTable,
}

impl View for TimerQueue {
    type V = Seq<TimerQueueEntry>;

    closed spec fn view(&self) -> Seq<TimerQueueEntry> {
        self.entries@
    }
}

impl TimerQueue {
    #[verifier::type_invariant]
    spec fn well_formed(self) -> bool {
        &&& self.entries@.len() <= self.capacity
        &&& in_dispatch_order(self.table, self.entries@)
        &&& respects_policy(self.table, self.entries@)
    }

    /// The largest number of entries that the queue holds.
    pub closed spec fn limit(self) -> nat {
        self.capacity as nat
    }

    /// The task table that orders the queue.
    pub closed spec fn tasks(self) -> TaskTable {
        self.table
    }

    /// An empty queue for at most `capacity` entries of the tasks of
    /// `table`.
    pub fn new(table: TaskTable, capacity: usize) -> (q: TimerQueue)
        ensures
            q@ == Seq::<TimerQueueEntry>::empty(),
            q.limit() == capacity,
            q.tasks() == table,
    {
        TimerQueue { entries: Vec::new(), capacity, table }
    }

    /// The number of pending entries.
    pub fn len(&self) -> (n: usize)
        ensures
            n == self@.len(),
            n <= self.limit(),
    {
        proof {
            use_type_invariant(self);
        }
        self.entries.len()
    }

    /// Whether nothing is pending.
    pub fn is_empty(&self) -> (empty: bool)
        ensures
            empty == (self@.len() == 0),
    {
        self.entries.len() == 0
    }

    /// The largest number of entries that the queue holds.
    pub fn capacity(&self) -> (capacity: usize)
        ensures
            capacity == self.limit(),
    {
        self.capacity
    }

    /// The task table that orders the queue.
    pub fn table(&self) -> (table: TaskTable)
        ensures
            table == self.tasks(),
    {
        self.table
    }

    /// The pending entries from the one dispatched first to the one
    /// dispatched last. They are in dispatch order and respect the spawn
    /// policy of every task.
    pub fn entries(&self) -> (entries: Vec<TimerQueueEntry>)
        ensures
            entries@ == self@,
            in_dispatch_order(self.tasks(), self@),
            respects_policy(self.tasks(), self@),
            self@.len() <= self.limit(),
    {
        proof {
            use_type_invariant(self);
        }
        let n = self.entries.len();
        let mut entries: Vec<TimerQueueEntry> = Vec::new();
        let mut i: usize = 0;
        while i < n
            invariant
                n == self.entries@.len(),
                i <= n,
                entries@ == self.entries@.take(i as int),
            decreases n - i,
        {
            entries.push(self.entries[i]);
            i += 1;
            assert(entries@ =~= self.entries@.take(i as int));
        }
        assert(self.entries@.take(n as int) =~= self.entries@);
        entries
    }

    /// Whether an instance of `task` is pending.
    pub fn is_pending(&self, task: TaskHandle) -> (pending: bool)
        ensures
            pending == is_pending(self@, task),
    {
        let n = self.entries.len();
        let mut i: usize = 0;
        while i < n
            invariant
                n == self.entries@.len(),
                i <= n,
                forall|j: int| 0 <= j < i ==> (#[trigger] self.entries@[j]).task != task,
            decreases n - i,
        {
            if self.entries[i].task == task {
                return true;
            }
            i += 1;
        }
        false
    }

    /// Takes a wake request.
    ///
    /// The request is refused with `AlreadyPending` where the task may be
    /// pending only once and is pending, and otherwise with `QueueFull`
    /// where the queue is at its capacity; a refusal leaves the queue as it
    /// was. A request that is taken stands behind every pending entry that
    /// it does not run before.
    pub fn insert(&mut self, entry: TimerQueueEntry) -> (r: Result<(), SchedulingError>)
        ensures
            final(self).tasks() == old(self).tasks(),
            final(self).limit() == old(self).limit(),
            r == insert_outcome(old(self).tasks(), old(self)@, old(self).limit(), entry),
            final(self)@ == after_insert(old(self).tasks(), old(self)@, old(self).limit(), entry),
    {
        proof {
            use_type_invariant(&*self);
        }
        if self.table.single_instance(entry.task) && self.is_pending(entry.task) {
            return Err(SchedulingError::AlreadyPending);
        }
        let n = self.entries.len();
        if n >= self.capacity {
            return Err(SchedulingError::QueueFull);
        }
        let mut k: usize = 0;
        while k < n && !dispatched_before(&self.table, &entry, &self.entries[k])
            invariant
                n == self.entries@.len(),
                k <= n,
                forall|i: int|
                    0 <= i < k ==> !crate::order::runs_before(
                        self.table,
                        entry,
                        #[trigger] self.entries@[i],
                    ),
            decreases n - k,
        {
            k += 1;
        }
        proof {
            lemma_insert_at_index(self.table, self.entries@, entry, k as int);
            lemma_insert_keeps_policy(self.table, self.entries@, entry, k as int);
        }
        let mut entries: Vec<TimerQueueEntry> = Vec::new();
        std::mem::swap(&mut entries, &mut self.entries);
        entries.insert(k, entry);
        self.entries = entries;
        Ok(())
    }

    /// The wake time of the entry that is dispatched first, which is the
    /// earliest wake time of all; `None` where nothing is pending.
    pub fn peek_earliest(&self) -> (earliest: Option<Instant>)
        ensures
            earliest == earliest_wake(self@),
            earliest.is_some() ==> forall|i: int|
                0 <= i < self@.len() ==> earliest.unwrap()@ <= (#[trigger] self@[i]).wake_at@,
    {
        proof {
            use_type_invariant(self);
        }
        if self.entries.len() == 0 {
            None
        } else {
            let first = self.entries[0].wake_at;
            assert forall|i: int| 0 <= i < self@.len() implies first@ <= (
            #[trigger] self@[i]).wake_at@ by {
                if i > 0 {
                    assert(!crate::order::runs_before(self.table, self@[i], self@[0]));
                }
            }
            Some(first)
        }
    }

    /// Removes every entry that is due at `now` and returns them in
    /// dispatch order; the entries that are not due stay, in their order.
    pub fn pop_due(&mut self, now: Instant) -> (due: Vec<TimerQueueEntry>)
        ensures
            final(self).tasks() == old(self).tasks(),
            final(self).limit() == old(self).limit(),
            due@ == due_entries(old(self)@, now@),
            final(self)@ == waiting_entries(old(self)@, now@),
    {
        proof {
            use_type_invariant(&*self);
        }
        let n = self.entries.len();
        let mut k: usize = 0;
        while k < n && self.entries[k].wake_at.is_at_or_before(&now)
            invariant
                n == self.entries@.len(),
                k <= n,
                forall|i: int| 0 <= i < k ==> (#[trigger] self.entries@[i]).wake_at@ <= now@,
            decreases n - k,
        {
            k += 1;
        }
        proof {
            lemma_due_is_prefix(self.table, self.entries@, now@, k as int);
            lemma_subrange_keeps_order(self.table, self.entries@, k as int, n as int);
        }
        let mut due: Vec<TimerQueueEntry> = Vec::new();
        std::mem::swap(&mut due, &mut self.entries);
        let rest = due.split_off(k);
        self.entries = rest;
        due
    }

    /// Removes every entry that is due at `now` and whose task may start
    /// while the core executes at `level`, and returns them in dispatch
    /// order; the other entries stay, in their order.
    pub fn pop_due_above(&mut self, now: Instant, level: Option<u8>) -> (due: Vec<TimerQueueEntry>)
        ensures
            final(self).tasks() == old(self).tasks(),
            final(self).limit() == old(self).limit(),
            due@ == old(self)@.filter(runnable_at(old(self).tasks(), level, now@)),
            final(self)@ == old(self)@.filter(held_at(old(self).tasks(), level, now@)),
    {
        proof {
            use_type_invariant(&*self);
        }
        let n = self.entries.len();
        let ghost q = self.entries@;
        let ghost runnable = runnable_at(self.table, level, now@);
        let ghost held = held_at(self.table, level, now@);
        let mut due: Vec<TimerQueueEntry> = Vec::new();
        let mut kept: Vec<TimerQueueEntry> = Vec::new();
        let mut i: usize = 0;
        while i < n
            invariant
                q == self.entries@,
                n == q.len(),
                i <= n,
                runnable == runnable_at(self.table, level, now@),
                held == held_at(self.table, level, now@),
                due@ == q.take(i as int).filter(runnable),
                kept@ == q.take(i as int).filter(held),
            decreases n - i,
        {
            let entry = self.entries[i];
            let starts = match level {
                None => true,
                Some(l) => self.table.priority(entry.task) > l,
            };
            proof {
                assert(q.take(i + 1) =~= q.take(i as int).push(entry));
                q.take(i as int).lemma_filter_push(entry, runnable);
                q.take(i as int).lemma_filter_push(entry, held);
            }
            if entry.wake_at.is_at_or_before(&now) && starts {
                due.push(entry);
            } else {
                kept.push(entry);
            }
            i += 1;
        }
        proof {
            assert(q.take(n as int) =~= q);
            lemma_filter_keeps_order(self.table, q, held);
        }
        self.entries = kept;
        due
    }

    /// The wake time of the first entry whose task may start while the
    /// core executes at `level`, which is the earliest wake time of all
    /// such entries; `None` where there is none.
    pub fn peek_earliest_above(&self, level: Option<u8>) -> (earliest: Option<Instant>)
        ensures
            earliest == next_wake(self.tasks(), self@, level),
    {
        let n = self.entries.len();
        let ghost pred = can_start(self.table, level);
        let mut i: usize = 0;
        while i < n
            invariant
                n == self.entries@.len(),
                i <= n,
                pred == can_start(self.table, level),
                forall|j: int| 0 <= j < i ==> !pred(#[trigger] self.entries@[j]),
            decreases n - i,
        {
            let entry = self.entries[i];
            let starts = match level {
                None => true,
                Some(l) => self.table.priority(entry.task) > l,
            };
            if starts {
                proof {
                    crate::order::lemma_filter_first(self.entries@, pred, i as int);
                }
                return Some(entry.wake_at);
            }
            i += 1;
        }
        proof {
            crate::order::lemma_filter_drops_all(self.entries@, pred);
        }
        None
    }

    /// Removes the entry that is dispatched first if it is due at `now`,
    /// and returns it; `None`, with the queue as it was, where no entry is
    /// due.
    pub fn pop_next_due(&mut self, now: Instant) -> (next: Option<TimerQueueEntry>)
        ensures
            final(self).tasks() == old(self).tasks(),
            final(self).limit() == old(self).limit(),
            next.is_some() == (due_entries(old(self)@, now@).len() > 0),
            next.is_some() ==> next.unwrap() == due_entries(old(self)@, now@)[0]
                && next.unwrap() == old(self)@[0] && final(self)@ == old(self)@.drop_first(),
            next.is_none() ==> final(self)@ == old(self)@,
    {
        proof {
            use_type_invariant(&*self);
        }
        let n = self.entries.len();
        if n == 0 || !self.entries[0].wake_at.is_at_or_before(&now) {
            proof {
                lemma_due_is_prefix(self.table, self.entries@, now@, 0);
            }
            None
        } else {
            proof {
                let q = self.entries@;
                lemma_subrange_keeps_order(self.table, q, 1, n as int);
                crate::order::lemma_filter_first(q, crate::order::due_at(now@), 0);
            }
            let mut entries: Vec<TimerQueueEntry> = Vec::new();
            std::mem::swap(&mut entries, &mut self.entries);
            let first = entries.remove(0);
            assert(entries@ =~= old(self)@.drop_first());
            self.entries = entries;
            Some(first)
        }
    }
}

/// What `insert` answers for `entry` on a queue with contents `q` and
/// capacity `limit`.
pub open spec fn insert_outcome(
    table: TaskTable,
    q: Seq<TimerQueueEntry>,
    limit: nat,
    entry: TimerQueueEntry,
) -> Result<(), SchedulingError> {
    if table.is_single_instance(entry.task) && is_pending(q, entry.task) {
        Err(SchedulingError::AlreadyPending)
    } else if q.len() >= limit {
        Err(SchedulingError::QueueFull)
    } else {
        Ok(())
    }
}

/// The contents after `insert` was called with `entry` on a queue with
/// contents `q` and capacity `limit`: `entry` is in its place where the
/// request was taken, and nothing has changed where it was refused.
pub open spec fn after_insert(
    table: TaskTable,
    q: Seq<TimerQueueEntry>,
    limit: nat,
    entry: TimerQueueEntry,
) -> Seq<TimerQueueEntry> {
    if insert_outcome(table, q, limit, entry).is_ok() {
        with_inserted(table, q, entry)
    } else {
        q
    }
}

/// The wake time of the first entry of `q`, if there is one.
pub open spec fn earliest_wake(q: Seq<TimerQueueEntry>) -> Option<Instant> {
    if q.len() == 0 {
        None
    } else {
        Some(q[0].wake_at)
    }
}

} // verus!
