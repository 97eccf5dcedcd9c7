//! What holds of the timer queue over several calls, proved over the model
//! that the contracts of `TimerQueue` are stated in.

use vstd::prelude::*;
use crate::order::{
    due_at, due_entries, in_dispatch_order, is_pending, lemma_due_is_prefix,
    lemma_filter_keeps_all, lemma_insert_at_index, runs_before, waiting_entries, waits_at,
    with_inserted, TimerQueueEntry,
};
use crate::queue::{after_insert, insert_outcome, SchedulingError};
use crate::task::TaskTable;

verus! {

/// The index in an ordered queue at which the entries that `e` runs before
/// begin, searched from `from` on.
proof fn lemma_insertion_boundary(
    table: TaskTable,
    q: Seq<TimerQueueEntry>,
    e: TimerQueueEntry,
    from: int,
) -> (k: int)
    requires
        0 <= from <= q.len(),
        forall|i: int| 0 <= i < from ==> !runs_before(table, e, #[trigger] q[i]),
    ensures
        0 <= k <= q.len(),
        forall|i: int| 0 <= i < k ==> !runs_before(table, e, #[trigger] q[i]),
        k < q.len() ==> runs_before(table, e, q[k]),
    decreases q.len() - from,
{
    if from == q.len() || runs_before(table, e, q[from]) {
        from
    } else {
        lemma_insertion_boundary(table, q, e, from + 1)
    }
}

/// The index in a queue at which the first entry stands that is not due at
/// `now`, searched from `from` on.
proof fn lemma_due_boundary(q: Seq<TimerQueueEntry>, now: int, from: int) -> (k: int)
    requires
        0 <= from <= q.len(),
        forall|i: int| 0 <= i < from ==> (#[trigger] q[i]).wake_at@ <= now,
    ensures
        0 <= k <= q.len(),
        forall|i: int| 0 <= i < k ==> (#[trigger] q[i]).wake_at@ <= now,
        k < q.len() ==> q[k].wake_at@ > now,
    decreases q.len() - from,
{
    if from == q.len() || q[from].wake_at@ > now {
        from
    } else {
        lemma_due_boundary(q, now, from + 1)
    }
}

/// Inserting into an ordered queue puts the entry at one index: every entry
/// in front of it is one that it does not run before, in particular every
/// entry of the same wake time and priority that was there first, and every
/// entry behind it is one that it runs before. The queue stays ordered and
/// gains exactly this entry.
pub proof fn law_insert_places_entry(
    table: TaskTable,
    q: Seq<TimerQueueEntry>,
    e: TimerQueueEntry,
) -> (k: int)
    requires
        in_dispatch_order(table, q),
    ensures
        0 <= k <= q.len(),
        with_inserted(table, q, e) == q.insert(k, e),
        forall|i: int| 0 <= i < k ==> !runs_before(table, e, #[trigger] q[i]),
        forall|i: int| k <= i < q.len() ==> runs_before(table, e, #[trigger] q[i]),
        in_dispatch_order(table, with_inserted(table, q, e)),
        with_inserted(table, q, e).to_multiset() == q.to_multiset().insert(e),
{
    let k = lemma_insertion_boundary(table, q, e, 0);
    lemma_insert_at_index(table, q, e, k);
    vstd::seq_lib::to_multiset_insert(q, k, e);
    k
}

/// Where the first `k` entries of `q` are due at `now` and the others are
/// not, the prefix of length `k` holds exactly the due entries of `q`.
proof fn lemma_prefix_holds_due(q: Seq<TimerQueueEntry>, now: int, k: int)
    requires
        0 <= k <= q.len(),
        forall|i: int| 0 <= i < k ==> (#[trigger] q[i]).wake_at@ <= now,
        forall|i: int| k <= i < q.len() ==> (#[trigger] q[i]).wake_at@ > now,
    ensures
        forall|e: TimerQueueEntry| #[trigger]
            q.take(k).contains(e) <==> q.contains(e) && e.wake_at@ <= now,
{
    let due = q.take(k);
    assert forall|e: TimerQueueEntry| #[trigger]
        due.contains(e) <==> q.contains(e) && e.wake_at@ <= now by {
        if due.contains(e) {
            let i = choose|i: int| 0 <= i < due.len() && due[i] == e;
            assert(q[i] == e);
        }
        if q.contains(e) && e.wake_at@ <= now {
            let i = choose|i: int| 0 <= i < q.len() && q[i] == e;
            assert(due[i] == e);
        }
    }
}

/// Where the first `k` entries of `q` are due at `now` and the others are
/// not, what follows the prefix of length `k` holds exactly the entries of
/// `q` that are not due.
proof fn lemma_suffix_holds_waiting(q: Seq<TimerQueueEntry>, now: int, k: int)
    requires
        0 <= k <= q.len(),
        forall|i: int| 0 <= i < k ==> (#[trigger] q[i]).wake_at@ <= now,
        forall|i: int| k <= i < q.len() ==> (#[trigger] q[i]).wake_at@ > now,
    ensures
        forall|e: TimerQueueEntry| #[trigger]
            q.skip(k).contains(e) <==> q.contains(e) && e.wake_at@ > now,
{
    let rest = q.skip(k);
    assert forall|e: TimerQueueEntry| #[trigger]
        rest.contains(e) <==> q.contains(e) && e.wake_at@ > now by {
        if rest.contains(e) {
            let i = choose|i: int| 0 <= i < rest.len() && rest[i] == e;
            assert(q[k + i] == e);
        }
        if q.contains(e) && e.wake_at@ > now {
            let i = choose|i: int| 0 <= i < q.len() && q[i] == e;
            let m = i - k;
            assert(rest[m] == e);
        }
    }
}

/// Draining an ordered queue at `now` returns exactly the entries that
/// wake at `now` or earlier and leaves exactly the others.
pub proof fn law_pop_due_selects_by_wake_time(
    table: TaskTable,
    q: Seq<TimerQueueEntry>,
    now: int,
)
    requires
        in_dispatch_order(table, q),
    ensures
        forall|e: TimerQueueEntry| #[trigger]
            due_entries(q, now).contains(e) <==> q.contains(e) && e.wake_at@ <= now,
        forall|e: TimerQueueEntry| #[trigger]
            waiting_entries(q, now).contains(e) <==> q.contains(e) && e.wake_at@ > now,
{
    let k = lemma_due_boundary(q, now, 0);
    lemma_due_is_prefix(table, q, now, k);
    lemma_prefix_holds_due(q, now, k);
    lemma_suffix_holds_waiting(q, now, k);
}

/// Draining an ordered queue loses and repeats nothing: the queue was the
/// due entries followed by the waiting ones, and both parts are in
/// dispatch order.
pub proof fn law_pop_due_splits_queue(table: TaskTable, q: Seq<TimerQueueEntry>, now: int)
    requires
        in_dispatch_order(table, q),
    ensures
        q == due_entries(q, now) + waiting_entries(q, now),
        in_dispatch_order(table, due_entries(q, now)),
        in_dispatch_order(table, waiting_entries(q, now)),
{
    let k = lemma_due_boundary(q, now, 0);
    assert(due_entries(q, now) == q.take(k) && waiting_entries(q, now) == q.skip(k)) by {
        lemma_due_is_prefix(table, q, now, k);
    }
    assert(in_dispatch_order(table, q.take(k)) && in_dispatch_order(table, q.skip(k))) by {
        crate::order::lemma_subrange_keeps_order(table, q, 0, k);
        crate::order::lemma_subrange_keeps_order(table, q, k, q.len() as int);
    }
    assert(q == q.take(k) + q.skip(k)) by {
        assert(q =~= q.take(k) + q.skip(k));
    }
}

/// The due entries come in ascending order of wake time: of two of them
/// the one returned first does not wake later, and wakes earlier where no
/// two pending entries share a wake time.
pub proof fn law_due_ascending(
    table: TaskTable,
    q: Seq<TimerQueueEntry>,
    now: int,
    i: int,
    j: int,
)
    requires
        in_dispatch_order(table, q),
        0 <= i < j < due_entries(q, now).len(),
    ensures
        due_entries(q, now)[i].wake_at@ <= due_entries(q, now)[j].wake_at@,
        distinct_wake_times(q) ==> due_entries(q, now)[i].wake_at@ < due_entries(
            q,
            now,
        )[j].wake_at@,
{
    let k = lemma_due_boundary(q, now, 0);
    lemma_due_is_prefix(table, q, now, k);
    let due = q.take(k);
    assert(due[i] == q[i] && due[j] == q[j]);
    assert(!runs_before(table, q[j], q[i]));
}

/// Of two due entries with the same wake time, the one with the higher
/// priority is returned first.
pub proof fn law_higher_priority_first(
    table: TaskTable,
    q: Seq<TimerQueueEntry>,
    now: int,
    i: int,
    j: int,
)
    requires
        in_dispatch_order(table, q),
        0 <= i < due_entries(q, now).len(),
        0 <= j < due_entries(q, now).len(),
        due_entries(q, now)[i].wake_at@ == due_entries(q, now)[j].wake_at@,
        table.priority_of(due_entries(q, now)[i].task) > table.priority_of(
            due_entries(q, now)[j].task,
        ),
    ensures
        i < j,
{
    if j < i {
        law_due_ascending(table, q, now, j, i);
        law_pop_due_splits_queue(table, q, now);
        assert(!runs_before(table, due_entries(q, now)[i], due_entries(q, now)[j]));
    }
}

/// Once a request for a single-instance task was taken, a second request
/// for that task is refused with `AlreadyPending` and leaves the queue as
/// the first request left it, however often it is repeated.
pub proof fn law_second_instance_refused(
    table: TaskTable,
    q: Seq<TimerQueueEntry>,
    limit: nat,
    first: TimerQueueEntry,
    second: TimerQueueEntry,
)
    requires
        in_dispatch_order(table, q),
        table.is_single_instance(first.task),
        second.task == first.task,
        insert_outcome(table, q, limit, first).is_ok(),
    ensures
        insert_outcome(table, after_insert(table, q, limit, first), limit, second) == Err::<
            (),
            SchedulingError,
        >(SchedulingError::AlreadyPending),
        after_insert(table, after_insert(table, q, limit, first), limit, second) == after_insert(
            table,
            q,
            limit,
            first,
        ),
{
    let k = law_insert_places_entry(table, q, first);
    let r = after_insert(table, q, limit, first);
    assert(r[k] == first);
    assert(is_pending(r, second.task));
}

/// The contents of a queue that was empty and then got the requests `es`,
/// one after the other.
pub open spec fn after_inserts(
    table: TaskTable,
    limit: nat,
    es: Seq<TimerQueueEntry>,
) -> Seq<TimerQueueEntry>
    decreases es.len(),
{
    if es.len() == 0 {
        Seq::empty()
    } else {
        after_insert(table, after_inserts(table, limit, es.drop_last()), limit, es.last())
    }
}

/// Whether each of the requests `es`, made one after the other on an empty
/// queue, is taken.
pub open spec fn all_taken(table: TaskTable, limit: nat, es: Seq<TimerQueueEntry>) -> bool
    decreases es.len(),
{
    es.len() == 0 || (all_taken(table, limit, es.drop_last()) && insert_outcome(
        table,
        after_inserts(table, limit, es.drop_last()),
        limit,
        es.last(),
    ).is_ok())
}

/// A queue that started empty is in dispatch order after any requests, and
/// holds exactly the requests that were taken: all of `es` where all were
/// taken.
pub proof fn law_inserts_keep_every_entry(table: TaskTable, limit: nat, es: Seq<TimerQueueEntry>)
    ensures
        in_dispatch_order(table, after_inserts(table, limit, es)),
        all_taken(table, limit, es) ==> after_inserts(table, limit, es).to_multiset()
            == es.to_multiset(),
    decreases es.len(),
{
    broadcast use vstd::seq_lib::group_to_multiset_ensures;

    if es.len() == 0 {
        assert(after_inserts(table, limit, es).to_multiset() =~= es.to_multiset());
    } else {
        let before = after_inserts(table, limit, es.drop_last());
        law_inserts_keep_every_entry(table, limit, es.drop_last());
        let _ = law_insert_places_entry(table, before, es.last());
        if all_taken(table, limit, es) {
            assert(es.drop_last().push(es.last()) =~= es);
        }
    }
}

/// Whether no two of the entries `es` wake at the same time.
pub open spec fn distinct_wake_times(es: Seq<TimerQueueEntry>) -> bool {
    forall|i: int, j: int|
        0 <= i < j < es.len() ==> (#[trigger] es[i]).wake_at@ != (#[trigger] es[j]).wake_at@
}

/// A queue that started empty holds only entries that were requested, and
/// no two with the same wake time where no two such were requested.
proof fn lemma_inserts_keep_wake_times_distinct(
    table: TaskTable,
    limit: nat,
    es: Seq<TimerQueueEntry>,
)
    ensures
        forall|i: int|
            0 <= i < after_inserts(table, limit, es).len() ==> es.contains(
                #[trigger] after_inserts(table, limit, es)[i],
            ),
        distinct_wake_times(es) ==> distinct_wake_times(after_inserts(table, limit, es)),
    decreases es.len(),
{
    let q = after_inserts(table, limit, es);
    if es.len() > 0 {
        let earlier = es.drop_last();
        let e = es.last();
        let before = after_inserts(table, limit, earlier);
        if distinct_wake_times(es) {
            assert forall|i: int, j: int| 0 <= i < j < earlier.len() implies (
            #[trigger] earlier[i]).wake_at@ != (#[trigger] earlier[j]).wake_at@ by {
                assert(earlier[i] == es[i] && earlier[j] == es[j]);
            }
        }
        lemma_inserts_keep_wake_times_distinct(table, limit, earlier);
        law_inserts_keep_every_entry(table, limit, earlier);
        let k = law_insert_places_entry(table, before, e);
        assert forall|i: int| 0 <= i < before.len() implies es.contains(
            #[trigger] before[i],
        ) && (distinct_wake_times(es) ==> before[i].wake_at@ != e.wake_at@) by {
            assert(earlier.contains(before[i]));
            let m = choose|m: int| 0 <= m < earlier.len() && earlier[m] == before[i];
            assert(es[m] == before[i]);
            assert(es[es.len() - 1] == e);
        }
        assert(es[es.len() - 1] == e);
        if insert_outcome(table, before, limit, e).is_ok() {
            assert(q == before.insert(k, e));
            assert forall|i: int| 0 <= i < q.len() implies es.contains(#[trigger] q[i]) by {
                if i < k {
                    assert(q[i] == before[i]);
                } else if i > k {
                    assert(q[i] == before[i - 1]);
                }
            }
            if distinct_wake_times(es) {
                assert forall|i: int, j: int| 0 <= i < j < q.len() implies (#[trigger] q[i]).wake_at@
                    != (#[trigger] q[j]).wake_at@ by {
                    let bi = if i < k { i } else { i - 1 };
                    let bj = if j < k { j } else { j - 1 };
                    if i == k {
                        assert(q[j] == before[bj]);
                    } else if j == k {
                        assert(q[i] == before[bi]);
                    } else {
                        assert(q[i] == before[bi] && q[j] == before[bj]);
                    }
                }
            }
        }
    }
}

/// After the requests `es`, all of them taken and no two for the same wake
/// time, were made on an empty queue, draining at `now` returns exactly the
/// requested entries that wake at `now` or earlier, in strictly ascending
/// order of wake time, and leaves exactly the others.
pub proof fn law_pop_due_after_distinct_inserts(
    table: TaskTable,
    limit: nat,
    es: Seq<TimerQueueEntry>,
    now: int,
)
    requires
        all_taken(table, limit, es),
        distinct_wake_times(es),
    ensures
        forall|e: TimerQueueEntry| #[trigger]
            due_entries(after_inserts(table, limit, es), now).contains(e) <==> es.contains(e)
                && e.wake_at@ <= now,
        forall|e: TimerQueueEntry| #[trigger]
            waiting_entries(after_inserts(table, limit, es), now).contains(e) <==> es.contains(e)
                && e.wake_at@ > now,
        forall|i: int, j: int|
            0 <= i < j < due_entries(after_inserts(table, limit, es), now).len() ==> (
            #[trigger] due_entries(after_inserts(table, limit, es), now)[i]).wake_at@ < (
            #[trigger] due_entries(after_inserts(table, limit, es), now)[j]).wake_at@,
{
    broadcast use vstd::seq_lib::group_to_multiset_ensures;

    let q = after_inserts(table, limit, es);
    law_inserts_keep_every_entry(table, limit, es);
    lemma_inserts_keep_wake_times_distinct(table, limit, es);
    assert forall|e: TimerQueueEntry| q.contains(e) == es.contains(e) by {
        assert(q.to_multiset().count(e) == es.to_multiset().count(e));
    }
    law_pop_due_selects_by_wake_time(table, q, now);
    let due = due_entries(q, now);
    assert forall|i: int, j: int| 0 <= i < j < due.len() implies (#[trigger] due[i]).wake_at@ < (
    #[trigger] due[j]).wake_at@ by {
        law_due_ascending(table, q, now, i, j);
    }
}

/// Scheduling the requests `es` on an empty queue, all of them taken, and
/// then draining at an instant that is not before any of their wake times
/// returns every request exactly once and leaves the queue empty.
pub proof fn law_drain_returns_every_entry(
    table: TaskTable,
    limit: nat,
    es: Seq<TimerQueueEntry>,
    now: int,
)
    requires
        all_taken(table, limit, es),
        forall|i: int| 0 <= i < es.len() ==> (#[trigger] es[i]).wake_at@ <= now,
    ensures
        due_entries(after_inserts(table, limit, es), now).to_multiset() == es.to_multiset(),
        due_entries(after_inserts(table, limit, es), now).len() == es.len(),
        waiting_entries(after_inserts(table, limit, es), now) == Seq::<TimerQueueEntry>::empty(),
{
    broadcast use vstd::seq_lib::group_to_multiset_ensures;

    let q = after_inserts(table, limit, es);
    law_inserts_keep_every_entry(table, limit, es);
    assert forall|i: int| 0 <= i < q.len() implies (#[trigger] q[i]).wake_at@ <= now by {
        assert(q.to_multiset().count(q[i]) > 0);
        assert(es.to_multiset().count(q[i]) > 0);
        assert(es.contains(q[i]));
    }
    lemma_filter_keeps_all(q, due_at(now));
    crate::order::lemma_filter_drops_all(q, waits_at(now));
    assert(q.to_multiset().len() == es.to_multiset().len());
}

} // verus!
