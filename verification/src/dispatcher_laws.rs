//! What holds of the order in which task bodies run and of the delay of a
//! spawned task, proved over the model that the contracts of `Dispatcher`
//! are stated in.

use vstd::prelude::*;
use crate::dispatcher::{
    at_or_above, at_priority, delayed_entry, run_order, run_order_down_to,
};
use crate::order::{
    can_start, due_at, due_entries, held_at, in_dispatch_order, lemma_filter_agrees,
    lemma_filter_drops_all, lemma_filter_keeps_all, lemma_filter_keeps_order, next_wake, runnable_at, runs_before,
    waiting_entries, waits_at, with_inserted, TimerQueueEntry,
};
use crate::queue::earliest_wake;
use crate::queue_laws::{law_insert_places_entry, law_pop_due_selects_by_wake_time};
use crate::task::{TaskHandle, TaskTable};
use crate::time::{instant_period, Duration, Instant};

verus! {

/// Where every element satisfies exactly one of `p` and `q` or neither, and
/// `r` holds where one of them does, the elements that `r` keeps are those
/// that `p` keeps together with those that `q` keeps.
proof fn lemma_filter_partition<A>(
    s: Seq<A>,
    p: spec_fn(A) -> bool,
    q: spec_fn(A) -> bool,
    r: spec_fn(A) -> bool,
)
    requires
        forall|x: A| !(#[trigger] p(x) && #[trigger] q(x)),
        forall|x: A| #[trigger] r(x) == (p(x) || q(x)),
    ensures
        s.filter(r).to_multiset() == s.filter(p).to_multiset().add(s.filter(q).to_multiset()),
    decreases s.len(),
{
    broadcast use vstd::seq_lib::group_to_multiset_ensures;

    reveal(Seq::filter);
    if s.len() == 0 {
        assert(s.filter(r).to_multiset() =~= s.filter(p).to_multiset().add(
            s.filter(q).to_multiset(),
        ));
    } else {
        let d = s.drop_last();
        let l = s.last();
        lemma_filter_partition(d, p, q, r);
        assert(p(l) || q(l) || !r(l));
        assert(s.filter(r).to_multiset() =~= s.filter(p).to_multiset().add(
            s.filter(q).to_multiset(),
        ));
    }
}

/// The entries that the filter for one priority keeps have that priority.
proof fn lemma_one_priority(table: TaskTable, batch: Seq<TimerQueueEntry>, priority: int)
    ensures
        forall|i: int|
            0 <= i < batch.filter(at_priority(table, priority)).len() ==> table.priority_of(
                (#[trigger] batch.filter(at_priority(table, priority))[i]).task,
            ) == priority,
{
    let here = batch.filter(at_priority(table, priority));
    assert forall|i: int| 0 <= i < here.len() implies table.priority_of(
        (#[trigger] here[i]).task,
    ) == priority by {
        batch.lemma_filter_pred(at_priority(table, priority), i);
    }
}

/// In the run order down to `floor` every entry has priority `floor` or
/// above, and no entry runs before one of higher priority.
proof fn lemma_run_order_sorted(table: TaskTable, batch: Seq<TimerQueueEntry>, floor: int)
    requires
        0 <= floor <= 256,
    ensures
        forall|i: int|
            0 <= i < run_order_down_to(table, batch, floor).len() ==> table.priority_of(
                (#[trigger] run_order_down_to(table, batch, floor)[i]).task,
            ) >= floor,
        forall|i: int, j: int|
            0 <= i < j < run_order_down_to(table, batch, floor).len() ==> table.priority_of(
                (#[trigger] run_order_down_to(table, batch, floor)[i]).task,
            ) >= table.priority_of((#[trigger] run_order_down_to(table, batch, floor)[j]).task),
    decreases 256 - floor,
{
    if floor <= 255 {
        lemma_run_order_sorted(table, batch, floor + 1);
        let above = run_order_down_to(table, batch, floor + 1);
        let here = batch.filter(at_priority(table, floor));
        let all = run_order_down_to(table, batch, floor);
        assert(all == above + here);
        lemma_one_priority(table, batch, floor);
        assert forall|i: int| 0 <= i < all.len() implies table.priority_of(
            (#[trigger] all[i]).task,
        ) >= floor by {
            if i < above.len() {
                assert(all[i] == above[i]);
            } else {
                assert(all[i] == here[i - above.len()]);
            }
        }
        assert forall|i: int, j: int| 0 <= i < j < all.len() implies table.priority_of(
            (#[trigger] all[i]).task,
        ) >= table.priority_of((#[trigger] all[j]).task) by {
            if j < above.len() {
                assert(all[i] == above[i] && all[j] == above[j]);
            } else if i < above.len() {
                assert(all[i] == above[i] && all[j] == here[j - above.len()]);
            } else {
                assert(all[i] == here[i - above.len()] && all[j] == here[j - above.len()]);
            }
        }
    }
}

/// The run order down to `floor` holds exactly the entries of the batch
/// that have priority `floor` or above.
proof fn lemma_run_order_holds(table: TaskTable, batch: Seq<TimerQueueEntry>, floor: int)
    requires
        0 <= floor <= 256,
    ensures
        run_order_down_to(table, batch, floor).to_multiset() == batch.filter(
            at_or_above(table, floor),
        ).to_multiset(),
    decreases 256 - floor,
{
    if floor <= 255 {
        lemma_run_order_holds(table, batch, floor + 1);
        let above = run_order_down_to(table, batch, floor + 1);
        let here = batch.filter(at_priority(table, floor));
        vstd::seq_lib::lemma_multiset_commutative(above, here);
        lemma_filter_partition(
            batch,
            at_or_above(table, floor + 1),
            at_priority(table, floor),
            at_or_above(table, floor),
        );
    } else {
        lemma_filter_drops_all(batch, at_or_above(table, floor));
    }
}

/// The entries of priority `priority` in the run order down to `floor`
/// are those of the batch, in the order of the batch, where `priority` is
/// `floor` or above, and none where it is below.
proof fn lemma_run_order_stable(
    table: TaskTable,
    batch: Seq<TimerQueueEntry>,
    floor: int,
    priority: int,
)
    requires
        0 <= floor <= 256,
    ensures
        run_order_down_to(table, batch, floor).filter(at_priority(table, priority)) == if priority
            >= floor && priority <= 255 {
            batch.filter(at_priority(table, priority))
        } else {
            Seq::<TimerQueueEntry>::empty()
        },
    decreases 256 - floor,
{
    let pred = at_priority(table, priority);
    if floor <= 255 {
        lemma_run_order_stable(table, batch, floor + 1, priority);
        let above = run_order_down_to(table, batch, floor + 1);
        let here = batch.filter(at_priority(table, floor));
        Seq::filter_distributes_over_add(above, here, pred);
        lemma_one_priority(table, batch, floor);
        if priority == floor {
            lemma_filter_keeps_all(here, pred);
            assert(Seq::<TimerQueueEntry>::empty() + here =~= here);
        } else {
            lemma_filter_drops_all(here, pred);
            assert(above.filter(pred) + Seq::<TimerQueueEntry>::empty() =~= above.filter(pred));
        }
    } else {
        lemma_filter_drops_all(Seq::<TimerQueueEntry>::empty(), pred);
    }
}

/// Task bodies run highest priority first: of two entries of one batch the
/// one that runs first does not have the lower priority.
pub proof fn law_run_order_highest_first(
    table: TaskTable,
    batch: Seq<TimerQueueEntry>,
    i: int,
    j: int,
)
    requires
        0 <= i < j < run_order(table, batch).len(),
    ensures
        table.priority_of(run_order(table, batch)[i].task) >= table.priority_of(
            run_order(table, batch)[j].task,
        ),
{
    lemma_run_order_sorted(table, batch, 0);
}

/// The run order holds every entry of the batch exactly once.
pub proof fn law_run_order_keeps_every_entry(table: TaskTable, batch: Seq<TimerQueueEntry>)
    ensures
        run_order(table, batch).to_multiset() == batch.to_multiset(),
        run_order(table, batch).len() == batch.len(),
{
    broadcast use vstd::seq_lib::group_to_multiset_ensures;

    lemma_run_order_holds(table, batch, 0);
    lemma_filter_keeps_all(batch, at_or_above(table, 0));
    assert(run_order(table, batch).to_multiset().len() == run_order(table, batch).len());
    assert(batch.to_multiset().len() == batch.len());
}

/// Entries of one priority run in the order in which they were due: the
/// run order and the batch hold them in the same order.
pub proof fn law_run_order_first_in_first_out(
    table: TaskTable,
    batch: Seq<TimerQueueEntry>,
    priority: u8,
)
    ensures
        run_order(table, batch).filter(at_priority(table, priority as int)) == batch.filter(
            at_priority(table, priority as int),
        ),
{
    lemma_run_order_stable(table, batch, 0, priority as int);
}

/// Where no task executes, every due entry is taken and every other entry
/// stays.
pub proof fn law_idle_takes_all_due(table: TaskTable, q: Seq<TimerQueueEntry>, now: int)
    ensures
        q.filter(runnable_at(table, None, now)) == due_entries(q, now),
        q.filter(held_at(table, None, now)) == waiting_entries(q, now),
{
    lemma_filter_agrees(q, runnable_at(table, None, now), due_at(now));
    lemma_filter_agrees(q, held_at(table, None, now), waits_at(now));
}

/// Where no task executes, the compare interrupt is armed for the wake
/// time of the entry that is dispatched first.
pub proof fn law_idle_rearms_for_earliest(table: TaskTable, q: Seq<TimerQueueEntry>)
    ensures
        next_wake(table, q, None) == earliest_wake(q),
{
    lemma_filter_keeps_all(q, can_start(table, None));
}

/// The compare interrupt is armed for the soonest work and no sooner: the
/// armed instant is the wake time of a pending entry whose task may start,
/// and no such entry wakes earlier.
pub proof fn law_rearm_for_soonest(
    table: TaskTable,
    q: Seq<TimerQueueEntry>,
    level: Option<u8>,
    i: int,
)
    requires
        in_dispatch_order(table, q),
        0 <= i < q.len(),
        can_start(table, level)(q[i]),
    ensures
        next_wake(table, q, level).is_some(),
        next_wake(table, q, level).unwrap()@ <= q[i].wake_at@,
        exists|j: int|
            0 <= j < q.len() && can_start(table, level)(#[trigger] q[j]) && q[j].wake_at
                == next_wake(table, q, level).unwrap(),
{
    let pred = can_start(table, level);
    let f = q.filter(pred);
    lemma_filter_keeps_order(table, q, pred);
    q.lemma_filter_contains(pred, i);
    let m = choose|m: int| 0 <= m < f.len() && f[m] == q[i];
    if m > 0 {
        assert(!runs_before(table, f[m], f[0]));
    }
    let j = crate::order::lemma_filter_member(q, pred, 0);
    q.lemma_filter_pred(pred, 0);
    assert(pred(q[j]));
}

/// A delay is a minimum: a task that was spawned at `now` with delay
/// `delay` is not among the due entries at any instant before `now` plus
/// `delay`, and is among them from that instant on, as long as the sum is
/// within the range of an `Instant`.
pub proof fn law_spawn_after_is_minimum_delay(
    table: TaskTable,
    q: Seq<TimerQueueEntry>,
    task: TaskHandle,
    now: Instant,
    delay: Duration,
    t: int,
)
    requires
        in_dispatch_order(table, q),
        now@ + delay@ < instant_period(),
    ensures
        due_entries(with_inserted(table, q, delayed_entry(task, now, delay)), t).contains(
            delayed_entry(task, now, delay),
        ) == (now@ + delay@ <= t),
        waiting_entries(with_inserted(table, q, delayed_entry(task, now, delay)), t).contains(
            delayed_entry(task, now, delay),
        ) == (t < now@ + delay@),
{
    let e = delayed_entry(task, now, delay);
    let r = with_inserted(table, q, e);
    let k = law_insert_places_entry(table, q, e);
    assert(r[k] == e);
    assert(r.contains(e));
    law_pop_due_selects_by_wake_time(table, r, t);
    vstd::arithmetic::div_mod::lemma_small_mod((now@ + delay@) as nat, instant_period() as nat);
}

} // verus!
