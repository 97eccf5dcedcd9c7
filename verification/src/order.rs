//! The order in which pending entries are dispatched, as a mathematical
//! model over sequences of entries.
//!
//! An entry runs before another one if it wakes earlier or, at the same wake
//! time, has the higher priority. Entries that neither rule separates keep
//! the order in which they were inserted.

use vstd::prelude::*;
use crate::arbiter::admitted;
use crate::task::{TaskHandle, TaskTable};
use crate::time::Instant;

verus! {

/// A request to run `task` at `wake_at` or later.
#[derive(Clone, Copy, Debug, PartialEq, Eq, Structural)]
pub struct TimerQueueEntry {
    /// The earliest instant at which the task may run.
    pub wake_at: Instant,
    /// The task to run.
    pub task: TaskHandle,
    /// A small argument handed to the task body, if it takes one.
    pub payload: Option<u32>,
}

/// Whether `a` is dispatched strictly before `b` by wake time and priority
/// alone.
pub open spec fn runs_before(table: TaskTable, a: TimerQueueEntry, b: TimerQueueEntry) -> bool {
    a.wake_at@ < b.wake_at@ || (a.wake_at@ == b.wake_at@ && table.priority_of(a.task)
        > table.priority_of(b.task))
}

/// Decides `runs_before` for two entries.
pub fn dispatched_before(table: &TaskTable, a: &TimerQueueEntry, b: &TimerQueueEntry) -> (before:
    bool)
    ensures
        before == runs_before(*table, *a, *b),
{
    if a.wake_at.is_before(&b.wake_at) {
        true
    } else if b.wake_at.is_before(&a.wake_at) {
        false
    } else {
        table.priority(a.task) > table.priority(b.task)
    }
}

/// Whether no entry of `q` stands behind one that it runs before.
pub open spec fn in_dispatch_order(table: TaskTable, q: Seq<TimerQueueEntry>) -> bool {
    forall|i: int, j: int|
        0 <= i < j < q.len() ==> !runs_before(table, #[trigger] q[j], #[trigger] q[i])
}

/// Whether `q` holds an entry for `task`.
pub open spec fn is_pending(q: Seq<TimerQueueEntry>, task: TaskHandle) -> bool {
    exists|i: int| 0 <= i < q.len() && (#[trigger] q[i]).task == task
}

/// Whether no single-instance task has two entries in `q`.
pub open spec fn respects_policy(table: TaskTable, q: Seq<TimerQueueEntry>) -> bool {
    forall|i: int, j: int|
        0 <= i < j < q.len() && (#[trigger] q[i]).task == (#[trigger] q[j]).task
            ==> !table.is_single_instance(q[i].task)
}

/// The entries that `e` does not run before: those that stay in front of it.
pub open spec fn stays_ahead_of(table: TaskTable, e: TimerQueueEntry) -> spec_fn(
    TimerQueueEntry,
) -> bool {
    |x: TimerQueueEntry| !runs_before(table, e, x)
}

/// The entries that `e` runs before: those that move behind it.
pub open spec fn moves_behind(table: TaskTable, e: TimerQueueEntry) -> spec_fn(
    TimerQueueEntry,
) -> bool {
    |x: TimerQueueEntry| runs_before(table, e, x)
}

/// The queue `q` after `e` was inserted: `e` stands behind every entry that
/// it does not run before, and in front of the others.
pub open spec fn with_inserted(
    table: TaskTable,
    q: Seq<TimerQueueEntry>,
    e: TimerQueueEntry,
) -> Seq<TimerQueueEntry> {
    q.filter(stays_ahead_of(table, e)).push(e) + q.filter(moves_behind(table, e))
}

/// The entries that are due at tick count `now`.
pub open spec fn due_at(now: int) -> spec_fn(TimerQueueEntry) -> bool {
    |x: TimerQueueEntry| x.wake_at@ <= now
}

/// The entries that still wait at tick count `now`.
pub open spec fn waits_at(now: int) -> spec_fn(TimerQueueEntry) -> bool {
    |x: TimerQueueEntry| x.wake_at@ > now
}

/// The entries of `q` that are due at `now`, in the order of `q`.
pub open spec fn due_entries(q: Seq<TimerQueueEntry>, now: int) -> Seq<TimerQueueEntry> {
    q.filter(due_at(now))
}

/// The entries of `q` that are not due at `now`, in the order of `q`.
pub open spec fn waiting_entries(q: Seq<TimerQueueEntry>, now: int) -> Seq<TimerQueueEntry> {
    q.filter(waits_at(now))
}

/// The entries whose task may start while the core executes at `level`.
pub open spec fn can_start(table: TaskTable, level: Option<u8>) -> spec_fn(
    TimerQueueEntry,
) -> bool {
    |x: TimerQueueEntry| admitted(level, table.priority_of(x.task))
}

/// The entries that are due at tick count `now` and whose task may start
/// while the core executes at `level`.
pub open spec fn runnable_at(table: TaskTable, level: Option<u8>, now: int) -> spec_fn(
    TimerQueueEntry,
) -> bool {
    |x: TimerQueueEntry| x.wake_at@ <= now && admitted(level, table.priority_of(x.task))
}

/// The entries that are not due at tick count `now` or whose task may not
/// start while the core executes at `level`.
pub open spec fn held_at(table: TaskTable, level: Option<u8>, now: int) -> spec_fn(
    TimerQueueEntry,
) -> bool {
    |x: TimerQueueEntry| !(x.wake_at@ <= now && admitted(level, table.priority_of(x.task)))
}

/// The wake time of the first entry of `q` whose task may start while the
/// core executes at `level`, if there is one.
pub open spec fn next_wake(
    table: TaskTable,
    q: Seq<TimerQueueEntry>,
    level: Option<u8>,
) -> Option<Instant> {
    if q.filter(can_start(table, level)).len() == 0 {
        None
    } else {
        Some(q.filter(can_start(table, level))[0].wake_at)
    }
}

/// A filter keeps a sequence whose elements all satisfy it.
pub proof fn lemma_filter_keeps_all<A>(s: Seq<A>, pred: spec_fn(A) -> bool)
    requires
        forall|i: int| 0 <= i < s.len() ==> pred(#[trigger] s[i]),
    ensures
        s.filter(pred) == s,
    decreases s.len(),
{
    reveal(Seq::filter);
    if s.len() > 0 {
        lemma_filter_keeps_all(s.drop_last(), pred);
        assert(s.drop_last().push(s.last()) =~= s);
    }
}

/// A filter empties a sequence none of whose elements satisfies it.
pub proof fn lemma_filter_drops_all<A>(s: Seq<A>, pred: spec_fn(A) -> bool)
    requires
        forall|i: int| 0 <= i < s.len() ==> !pred(#[trigger] s[i]),
    ensures
        s.filter(pred) == Seq::<A>::empty(),
    decreases s.len(),
{
    reveal(Seq::filter);
    if s.len() > 0 {
        lemma_filter_drops_all(s.drop_last(), pred);
    }
}

/// Two filters that agree on every element give the same sequence.
pub proof fn lemma_filter_agrees<A>(s: Seq<A>, p: spec_fn(A) -> bool, q: spec_fn(A) -> bool)
    requires
        forall|x: A| #[trigger] p(x) == q(x),
    ensures
        s.filter(p) == s.filter(q),
    decreases s.len(),
{
    reveal(Seq::filter);
    if s.len() > 0 {
        lemma_filter_agrees(s.drop_last(), p, q);
    }
}

/// Where the first `k` elements satisfy `pred` and the others do not, the
/// filter by `pred` is the prefix of length `k`.
pub proof fn lemma_filter_is_prefix<A>(s: Seq<A>, pred: spec_fn(A) -> bool, k: int)
    requires
        0 <= k <= s.len(),
        forall|i: int| 0 <= i < k ==> pred(#[trigger] s[i]),
        forall|i: int| k <= i < s.len() ==> !pred(#[trigger] s[i]),
    ensures
        s.filter(pred) == s.take(k),
{
    let front = s.take(k);
    let back = s.skip(k);
    assert(s =~= front + back);
    Seq::filter_distributes_over_add(front, back, pred);
    lemma_filter_keeps_all(front, pred);
    lemma_filter_drops_all(back, pred);
    assert(front + Seq::<A>::empty() =~= front);
}

/// Where the first `k` elements fail `pred` and the others satisfy it, the
/// filter by `pred` is what follows the prefix of length `k`.
pub proof fn lemma_filter_is_suffix<A>(s: Seq<A>, pred: spec_fn(A) -> bool, k: int)
    requires
        0 <= k <= s.len(),
        forall|i: int| 0 <= i < k ==> !pred(#[trigger] s[i]),
        forall|i: int| k <= i < s.len() ==> pred(#[trigger] s[i]),
    ensures
        s.filter(pred) == s.skip(k),
{
    let front = s.take(k);
    let back = s.skip(k);
    assert(s =~= front + back);
    Seq::filter_distributes_over_add(front, back, pred);
    lemma_filter_drops_all(front, pred);
    lemma_filter_keeps_all(back, pred);
    assert(Seq::<A>::empty() + back =~= back);
}

/// In an ordered queue the entries that `e` does not run before form a
/// prefix, so that inserting `e` is inserting it at one index.
pub proof fn lemma_insert_at_index(
    table: TaskTable,
    q: Seq<TimerQueueEntry>,
    e: TimerQueueEntry,
    k: int,
)
    requires
        in_dispatch_order(table, q),
        0 <= k <= q.len(),
        forall|i: int| 0 <= i < k ==> !runs_before(table, e, #[trigger] q[i]),
        k < q.len() ==> runs_before(table, e, q[k]),
    ensures
        forall|i: int| k <= i < q.len() ==> runs_before(table, e, #[trigger] q[i]),
        with_inserted(table, q, e) == q.insert(k, e),
        in_dispatch_order(table, q.insert(k, e)),
{
    assert forall|i: int| k <= i < q.len() implies runs_before(table, e, #[trigger] q[i]) by {
        if i > k {
            assert(!runs_before(table, q[i], q[k]));
        }
    }
    lemma_filter_is_prefix(q, stays_ahead_of(table, e), k);
    lemma_filter_is_suffix(q, moves_behind(table, e), k);
    assert(q.take(k).push(e) + q.skip(k) =~= q.insert(k, e));
    let r = q.insert(k, e);
    assert forall|i: int, j: int| 0 <= i < j < r.len() implies !runs_before(
        table,
        #[trigger] r[j],
        #[trigger] r[i],
    ) by {
        if j < k {
            assert(r[i] == q[i] && r[j] == q[j]);
        } else if j == k {
            assert(r[i] == q[i]);
        } else if i < k {
            assert(r[i] == q[i] && r[j] == q[j - 1]);
        } else if i == k {
            assert(r[j] == q[j - 1]);
        } else {
            assert(r[i] == q[i - 1] && r[j] == q[j - 1]);
        }
    }
}

/// In an ordered queue the due entries form a prefix and the waiting
/// entries are what follows it.
pub proof fn lemma_due_is_prefix(table: TaskTable, q: Seq<TimerQueueEntry>, now: int, k: int)
    requires
        in_dispatch_order(table, q),
        0 <= k <= q.len(),
        forall|i: int| 0 <= i < k ==> (#[trigger] q[i]).wake_at@ <= now,
        k < q.len() ==> q[k].wake_at@ > now,
    ensures
        forall|i: int| k <= i < q.len() ==> (#[trigger] q[i]).wake_at@ > now,
        due_entries(q, now) == q.take(k),
        waiting_entries(q, now) == q.skip(k),
{
    assert forall|i: int| k <= i < q.len() implies (#[trigger] q[i]).wake_at@ > now by {
        if i > k {
            assert(!runs_before(table, q[i], q[k]));
        }
    }
    lemma_filter_is_prefix(q, due_at(now), k);
    lemma_filter_is_suffix(q, waits_at(now), k);
}

/// Where `s[k]` satisfies `pred` and no element in front of it does, it is
/// the first element of the filter by `pred`.
pub proof fn lemma_filter_first<A>(s: Seq<A>, pred: spec_fn(A) -> bool, k: int)
    requires
        0 <= k < s.len(),
        forall|i: int| 0 <= i < k ==> !pred(#[trigger] s[i]),
        pred(s[k]),
    ensures
        s.filter(pred).len() > 0,
        s.filter(pred)[0] == s[k],
{
    let front = s.take(k);
    let hit = s.subrange(k, k + 1);
    let back = s.skip(k + 1);
    assert(s =~= front + hit + back);
    Seq::filter_distributes_over_add(front + hit, back, pred);
    Seq::filter_distributes_over_add(front, hit, pred);
    lemma_filter_drops_all(front, pred);
    lemma_filter_keeps_all(hit, pred);
    assert(Seq::<A>::empty() + hit =~= hit);
}

/// Every element of a filtered sequence stands in the sequence, and of two
/// of them the one that comes first in the filtered sequence comes first
/// in the sequence.
pub proof fn lemma_filter_embeds<A>(s: Seq<A>, pred: spec_fn(A) -> bool, i: int, j: int) -> (at: (
    int,
    int,
))
    requires
        0 <= i < j < s.filter(pred).len(),
    ensures
        0 <= at.0 < at.1 < s.len(),
        s[at.0] == s.filter(pred)[i],
        s[at.1] == s.filter(pred)[j],
    decreases s.len(),
{
    reveal(Seq::filter);
    let f = s.filter(pred);
    let rest = s.drop_last();
    let g = rest.filter(pred);
    rest.lemma_filter_len(pred);
    if pred(s.last()) && j == g.len() {
        let m = lemma_filter_member(rest, pred, i);
        (m, s.len() - 1)
    } else {
        let at = lemma_filter_embeds(rest, pred, i, j);
        at
    }
}

/// Every element of a filtered sequence stands in the sequence.
pub proof fn lemma_filter_member<A>(s: Seq<A>, pred: spec_fn(A) -> bool, i: int) -> (at: int)
    requires
        0 <= i < s.filter(pred).len(),
    ensures
        0 <= at < s.len(),
        s[at] == s.filter(pred)[i],
    decreases s.len(),
{
    reveal(Seq::filter);
    let rest = s.drop_last();
    let g = rest.filter(pred);
    if pred(s.last()) && i == g.len() {
        s.len() - 1
    } else {
        lemma_filter_member(rest, pred, i)
    }
}

/// What a filter leaves of an ordered queue that respects the spawn policy
/// is ordered, respects the policy and is not longer.
pub proof fn lemma_filter_keeps_order(
    table: TaskTable,
    q: Seq<TimerQueueEntry>,
    pred: spec_fn(TimerQueueEntry) -> bool,
)
    ensures
        in_dispatch_order(table, q) ==> in_dispatch_order(table, q.filter(pred)),
        respects_policy(table, q) ==> respects_policy(table, q.filter(pred)),
        q.filter(pred).len() <= q.len(),
{
    let f = q.filter(pred);
    q.lemma_filter_len(pred);
    if in_dispatch_order(table, q) {
        assert forall|i: int, j: int| 0 <= i < j < f.len() implies !runs_before(
            table,
            #[trigger] f[j],
            #[trigger] f[i],
        ) by {
            let at = lemma_filter_embeds(q, pred, i, j);
            assert(!runs_before(table, q[at.1], q[at.0]));
        }
    }
    if respects_policy(table, q) {
        assert forall|i: int, j: int|
            0 <= i < j < f.len() && (#[trigger] f[i]).task == (#[trigger] f[j]).task
            implies !table.is_single_instance(f[i].task) by {
            let at = lemma_filter_embeds(q, pred, i, j);
            assert(q[at.0].task == q[at.1].task);
        }
    }
}

/// A part of an ordered queue that respects the spawn policy is ordered
/// and respects the policy too.
pub proof fn lemma_subrange_keeps_order(
    table: TaskTable,
    q: Seq<TimerQueueEntry>,
    from: int,
    to: int,
)
    requires
        0 <= from <= to <= q.len(),
    ensures
        in_dispatch_order(table, q) ==> in_dispatch_order(table, q.subrange(from, to)),
        respects_policy(table, q) ==> respects_policy(table, q.subrange(from, to)),
{
    let s = q.subrange(from, to);
    if in_dispatch_order(table, q) {
        assert forall|i: int, j: int| 0 <= i < j < s.len() implies !runs_before(
            table,
            #[trigger] s[j],
            #[trigger] s[i],
        ) by {
            assert(s[i] == q[from + i] && s[j] == q[from + j]);
        }
    }
    if respects_policy(table, q) {
        assert forall|i: int, j: int|
            0 <= i < j < s.len() && (#[trigger] s[i]).task == (#[trigger] s[j]).task
            implies !table.is_single_instance(s[i].task) by {
            assert(s[i] == q[from + i] && s[j] == q[from + j]);
        }
    }
}

/// Inserting an entry keeps the spawn policy if its task is not pending
/// already or may be pending more than once.
pub proof fn lemma_insert_keeps_policy(
    table: TaskTable,
    q: Seq<TimerQueueEntry>,
    e: TimerQueueEntry,
    k: int,
)
    requires
        respects_policy(table, q),
        0 <= k <= q.len(),
        !(table.is_single_instance(e.task) && is_pending(q, e.task)),
    ensures
        respects_policy(table, q.insert(k, e)),
{
    let r = q.insert(k, e);
    assert forall|i: int, j: int|
        0 <= i < j < r.len() && (#[trigger] r[i]).task == (#[trigger] r[j]).task
        implies !table.is_single_instance(r[i].task) by {
        let qi = if i < k { i } else { i - 1 };
        let qj = if j < k { j } else { j - 1 };
        if i == k {
            assert(r[j] == q[qj]);
        } else if j == k {
            assert(r[i] == q[qi]);
        } else {
            assert(r[i] == q[qi] && r[j] == q[qj]);
        }
    }
}

} // verus!
