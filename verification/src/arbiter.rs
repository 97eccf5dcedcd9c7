//! The resource arbiter: priority-ceiling access to state that tasks of
//! different priorities share.
//!
//! The arbiter keeps the level at which the core executes. A task starts
//! only where its priority is above that level. A critical section on a
//! shared cell raises the level to the cell's ceiling, the highest priority
//! of the tasks that access the cell, so that none of them can start while
//! it lasts, and tasks above the ceiling still can.

use vstd::prelude::*;
use crate::task::{TaskHandle, TaskTable};

verus! {

/// Whether a task of priority `priority` may start while the core executes
/// at `level`: always where nothing executes, else where the priority is
/// higher.
pub open spec fn admitted(level: Option<u8>, priority: int) -> bool {
    level.is_none() || priority > level.unwrap()
}

/// The level during a critical section with ceiling `ceiling` that was
/// entered at `level`: the higher of the two.
pub open spec fn raised_to(level: Option<u8>, ceiling: u8) -> Option<u8> {
    if admitted(level, ceiling as int) {
        Some(ceiling)
    } else {
        level
    }
}

/// Whether `ceiling` is the highest priority among the tasks `accessors`,
/// or 0 where there are none.
pub open spec fn is_ceiling(ceiling: int, table: TaskTable, accessors: Seq<TaskHandle>) -> bool {
    &&& forall|i: int|
        0 <= i < accessors.len() ==> table.priority_of(#[trigger] accessors[i]) <= ceiling
    &&& if accessors.len() == 0 {
        ceiling == 0
    } else {
        exists|i: int|
            0 <= i < accessors.len() && table.priority_of(#[trigger] accessors[i]) == ceiling
    }
}

/// Whether code that runs for a task of priority `base`, or for none, may
/// enter a critical section with ceiling `ceiling`: its priority is not
/// above the ceiling.
pub open spec fn within_ceiling(base: Option<u8>, ceiling: u8) -> bool {
    base.is_none() || base.unwrap() <= ceiling
}

/// The highest priority among the tasks `accessors`, 0 where there are
/// none.
pub fn ceiling_for(table: &TaskTable, accessors: &Vec<TaskHandle>) -> (ceiling: u8)
    ensures
        is_ceiling(ceiling as int, *table, accessors@),
{
    let n = accessors.len();
    let mut ceiling: u8 = 0;
    let mut i: usize = 0;
    while i < n
        invariant
            n == accessors@.len(),
            i <= n,
            is_ceiling(ceiling as int, *table, accessors@.take(i as int)),
        decreases n - i,
    {
        let priority = table.priority(accessors[i]);
        let ghost seen = accessors@.take(i as int);
        let ghost next = accessors@.take(i + 1);
        proof {
            assert(forall|j: int| 0 <= j < i ==> next[j] == seen[j]);
            assert(next[i as int] == accessors@[i as int]);
            if seen.len() > 0 {
                let w = choose|w: int|
                    0 <= w < seen.len() && table.priority_of(#[trigger] seen[w]) == ceiling;
                assert(next[w] == seen[w]);
            }
        }
        if priority > ceiling {
            ceiling = priority;
        }
        i += 1;
        assert(is_ceiling(ceiling as int, *table, next)) by {
            assert forall|j: int| 0 <= j < next.len() implies table.priority_of(#[trigger] next[j])
                <= ceiling by {
                if j < i - 1 {
                    assert(next[j] == seen[j]);
                }
            }
        }
    }
    assert(accessors@.take(n as int) =~= accessors@);
    ceiling
}

/// State that several tasks share, with the ceiling of the tasks that
/// access it. The contents are reached through a critical section only.
pub struct SharedCell<T> {
    value: T,
    ceiling: u8,
}

impl<T> View for SharedCell<T> {
    type V = T;

    closed spec fn view(&self) -> T {
        self.value
    }
}

impl<T> SharedCell<T> {
    /// The ceiling of the cell.
    pub closed spec fn ceiling_priority(self) -> u8 {
        self.ceiling
    }

    /// A cell that holds `value` and is accessed by the tasks `accessors`.
    /// Its ceiling is the highest of their priorities.
    pub fn new(value: T, table: &TaskTable, accessors: &Vec<TaskHandle>) -> (cell: SharedCell<T>)
        ensures
            cell@ == value,
            is_ceiling(cell.ceiling_priority() as int, *table, accessors@),
    {
        SharedCell { value, ceiling: ceiling_for(table, accessors) }
    }

    /// The ceiling of the cell.
    pub fn ceiling(&self) -> (ceiling: u8)
        ensures
            ceiling == self.ceiling_priority(),
    {
        self.ceiling
    }

    /// Gives up the cell and returns its contents.
    pub fn into_inner(self) -> (value: T)
        ensures
            value == self@,
    {
        self.value
    }
}

/// The level and the task of a context that was left for a task of higher
/// priority, kept until that task is done.
#[derive(Clone, Copy, Debug, PartialEq, Eq, Structural)]
pub struct Suspended {
    /// The priority of the task that was executing, if any.
    pub base: Option<u8>,
    /// The level at which the core was executing.
    pub level: Option<u8>,
}

/// The level at which the core executes, and the priority of the task that
/// it executes.
pub struct ResourceArbiter {
    base: Option<u8>,
    level: Option<u8>,
}

impl ResourceArbiter {
    /// The priority of the task that executes; `None` where none does.
    pub closed spec fn base(self) -> Option<u8> {
        self.base
    }

    /// The level at which the core executes: tasks of this priority and
    /// below cannot start. `None` where every task can.
    pub closed spec fn level(self) -> Option<u8> {
        self.level
    }

    /// The arbiter before any task runs.
    pub fn new() -> (arbiter: ResourceArbiter)
        ensures
            arbiter.base().is_none(),
            arbiter.level().is_none(),
    {
        ResourceArbiter { base: None, level: None }
    }

    /// The level at which the core executes.
    pub fn current_level(&self) -> (level: Option<u8>)
        ensures
            level == self.level(),
    {
        self.level
    }

    /// The priority of the task that executes, if any.
    pub fn current_task_priority(&self) -> (base: Option<u8>)
        ensures
            base == self.base(),
    {
        self.base
    }

    /// Whether a task of priority `priority` may start now.
    pub fn admits(&self, priority: u8) -> (admits: bool)
        ensures
            admits == admitted(self.level(), priority as int),
    {
        match self.level {
            None => true,
            Some(level) => priority > level,
        }
    }

    /// Starts a task of priority `priority` where it may start: the core
    /// then executes at that priority, and what it executed before is
    /// returned, to be handed to `leave` when the task is done. Where the
    /// task may not start, nothing changes and `None` is returned.
    pub fn enter(&mut self, priority: u8) -> (suspended: Option<Suspended>)
        ensures
            suspended.is_some() == admitted(old(self).level(), priority as int),
            suspended.is_some() ==> suspended.unwrap() == (Suspended {
                base: old(self).base(),
                level: old(self).level(),
            }) && final(self).base() == Some(priority) && final(self).level() == Some(priority),
            suspended.is_none() ==> final(self).base() == old(self).base() && final(self).level()
                == old(self).level(),
    {
        if self.admits(priority) {
            let suspended = Suspended { base: self.base, level: self.level };
            self.base = Some(priority);
            self.level = Some(priority);
            Some(suspended)
        } else {
            None
        }
    }

    /// Ends the task that executes and goes back to the context that was
    /// left for it.
    pub fn leave(&mut self, suspended: Suspended)
        ensures
            final(self).base() == suspended.base,
            final(self).level() == suspended.level,
    {
        self.base = suspended.base;
        self.level = suspended.level;
    }

    /// Whether the code that executes may enter a critical section on
    /// `cell`.
    pub fn may_access<T>(&self, cell: &SharedCell<T>) -> (allowed: bool)
        ensures
            allowed == within_ceiling(self.base(), cell.ceiling_priority()),
    {
        match self.base {
            None => true,
            Some(base) => base <= cell.ceiling,
        }
    }

    /// Enters a critical section with ceiling `ceiling`: raises the level
    /// to the ceiling where it is lower, and returns the level before, to
    /// be handed to `unlock`.
    pub fn lock(&mut self, ceiling: u8) -> (previous: Option<u8>)
        requires
            within_ceiling(old(self).base(), ceiling),
        ensures
            previous == old(self).level(),
            final(self).level() == raised_to(old(self).level(), ceiling),
            final(self).base() == old(self).base(),
    {
        let previous = self.level;
        if self.admits(ceiling) {
            self.level = Some(ceiling);
        }
        previous
    }

    /// Leaves a critical section: the level is again what it was before.
    pub fn unlock(&mut self, previous: Option<u8>)
        ensures
            final(self).level() == previous,
            final(self).base() == old(self).base(),
    {
        self.level = previous;
    }

    /// Runs `body` on the contents of `cell` in a critical section: at the
    /// cell's ceiling while `body` runs, and at the level of before once it
    /// is done. The cell then holds what `body` made of its contents.
    pub fn with_shared<T, F: FnOnce(&mut T)>(&mut self, cell: &mut SharedCell<T>, body: F)
        requires
            within_ceiling(old(self).base(), old(cell).ceiling_priority()),
            forall|contents: &mut T| *contents == old(cell)@ ==> call_requires(body, (contents,)),
        ensures
            final(self).level() == old(self).level(),
            final(self).base() == old(self).base(),
            final(cell).ceiling_priority() == old(cell).ceiling_priority(),
            exists|contents: &mut T|
                *contents == old(cell)@ && *final(contents) == final(cell)@ && call_ensures(
                    body,
                    (contents,),
                    (),
                ),
    {
        let previous = self.lock(cell.ceiling);
        body(&mut cell.value);
        self.unlock(previous);
    }
}

/// While a critical section on a cell lasts, no task that accesses the
/// cell can start, whatever the level was at which the section began.
pub proof fn law_critical_section_excludes_accessors(
    table: TaskTable,
    accessors: Seq<TaskHandle>,
    ceiling: u8,
    level: Option<u8>,
    i: int,
)
    requires
        is_ceiling(ceiling as int, table, accessors),
        0 <= i < accessors.len(),
    ensures
        !admitted(raised_to(level, ceiling), table.priority_of(accessors[i])),
{
}

/// A critical section blocks no task above its ceiling: what could start
/// before the section began and has a priority above the ceiling can start
/// while the section lasts.
pub proof fn law_critical_section_admits_higher(level: Option<u8>, ceiling: u8, priority: u8)
    requires
        admitted(level, priority as int),
        priority > ceiling,
    ensures
        admitted(raised_to(level, ceiling), priority as int),
{
}

/// A task that executes is never interrupted by one of the same or a lower
/// priority, in a critical section or outside one.
pub proof fn law_no_preemption_from_below(base: u8, ceiling: u8, priority: u8)
    requires
        priority <= base,
    ensures
        !admitted(Some(base), priority as int),
        !admitted(raised_to(Some(base), ceiling), priority as int),
{
}

} // verus!
