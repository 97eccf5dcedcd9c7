use monotonic_scheduler::order::TimerQueueEntry;
use monotonic_scheduler::queue::{SchedulingError, TimerQueue};
use monotonic_scheduler::task::{SpawnPolicy, TaskConfig, TaskHandle, TaskTable};
use monotonic_scheduler::time::Instant;

fn table(blink: u8, pwm: u8, clear: u8, policy: SpawnPolicy) -> TaskTable {
    TaskTable::new(
        TaskConfig { priority: blink, policy },
        TaskConfig { priority: pwm, policy },
        TaskConfig { priority: clear, policy },
    )
}

fn entry(task: TaskHandle, wake: u64) -> TimerQueueEntry {
    TimerQueueEntry { wake_at: Instant::from_ticks(wake), task, payload: None }
}

fn tagged(task: TaskHandle, wake: u64, tag: u32) -> TimerQueueEntry {
    TimerQueueEntry { wake_at: Instant::from_ticks(wake), task, payload: Some(tag) }
}

#[test]
fn new_queue_is_empty() {
    let q = TimerQueue::new(TaskTable::firmware(), 4);
    assert!(q.is_empty());
    assert_eq!(q.len(), 0);
    assert_eq!(q.capacity(), 4);
    assert_eq!(q.table(), TaskTable::firmware());
    assert_eq!(q.peek_earliest(), None);
    assert_eq!(q.entries(), vec![]);
}

#[test]
fn pop_due_orders_by_wake_then_priority() {
    // A(wake 100, prio 1), B(wake 100, prio 2), C(wake 50, prio 1)
    let mut q = TimerQueue::new(table(1, 2, 1, SpawnPolicy::SingleInstance), 8);
    let a = entry(TaskHandle::Blink, 100);
    let b = entry(TaskHandle::PwmChange, 100);
    let c = entry(TaskHandle::ScreenClear, 50);
    assert_eq!(q.insert(a), Ok(()));
    assert_eq!(q.insert(b), Ok(()));
    assert_eq!(q.insert(c), Ok(()));
    assert_eq!(q.pop_due(Instant::from_ticks(100)), vec![c, b, a]);
    assert!(q.is_empty());
}

#[test]
fn pop_due_returns_exactly_the_due_subset() {
    let mut q = TimerQueue::new(table(1, 1, 1, SpawnPolicy::Multiple), 8);
    let wakes = [40u64, 10, 30, 20, 50];
    for (i, w) in wakes.iter().enumerate() {
        assert_eq!(q.insert(tagged(TaskHandle::Blink, *w, i as u32)), Ok(()));
    }
    let due = q.pop_due(Instant::from_ticks(30));
    assert_eq!(
        due,
        vec![
            tagged(TaskHandle::Blink, 10, 1),
            tagged(TaskHandle::Blink, 20, 3),
            tagged(TaskHandle::Blink, 30, 2),
        ]
    );
    assert_eq!(
        q.entries(),
        vec![tagged(TaskHandle::Blink, 40, 0), tagged(TaskHandle::Blink, 50, 4)]
    );
    assert_eq!(q.len(), 2);
}

#[test]
fn pop_due_before_first_wake_returns_nothing() {
    let mut q = TimerQueue::new(TaskTable::firmware(), 4);
    assert_eq!(q.insert(entry(TaskHandle::Blink, 10)), Ok(()));
    assert_eq!(q.pop_due(Instant::from_ticks(9)), vec![]);
    assert_eq!(q.entries(), vec![entry(TaskHandle::Blink, 10)]);
}

#[test]
fn higher_priority_first_at_equal_wake() {
    let mut q = TimerQueue::new(table(3, 7, 5, SpawnPolicy::SingleInstance), 8);
    assert_eq!(q.insert(entry(TaskHandle::Blink, 5)), Ok(()));
    assert_eq!(q.insert(entry(TaskHandle::PwmChange, 5)), Ok(()));
    assert_eq!(q.insert(entry(TaskHandle::ScreenClear, 5)), Ok(()));
    assert_eq!(
        q.pop_due(Instant::from_ticks(5)),
        vec![
            entry(TaskHandle::PwmChange, 5),
            entry(TaskHandle::ScreenClear, 5),
            entry(TaskHandle::Blink, 5),
        ]
    );
}

#[test]
fn equal_wake_and_priority_is_first_in_first_out() {
    let mut q = TimerQueue::new(table(1, 1, 1, SpawnPolicy::Multiple), 8);
    assert_eq!(q.insert(tagged(TaskHandle::Blink, 7, 1)), Ok(()));
    assert_eq!(q.insert(tagged(TaskHandle::ScreenClear, 7, 2)), Ok(()));
    assert_eq!(q.insert(tagged(TaskHandle::Blink, 7, 3)), Ok(()));
    assert_eq!(
        q.pop_due(Instant::from_ticks(7)),
        vec![
            tagged(TaskHandle::Blink, 7, 1),
            tagged(TaskHandle::ScreenClear, 7, 2),
            tagged(TaskHandle::Blink, 7, 3),
        ]
    );
}

#[test]
fn second_instance_is_refused_and_queue_unchanged() {
    let mut q = TimerQueue::new(TaskTable::firmware(), 4);
    assert_eq!(q.insert(entry(TaskHandle::Blink, 100)), Ok(()));
    assert_eq!(q.insert(entry(TaskHandle::ScreenClear, 200)), Ok(()));
    let before = q.entries();
    assert_eq!(q.insert(entry(TaskHandle::Blink, 50)), Err(SchedulingError::AlreadyPending));
    assert_eq!(q.entries(), before);
    assert_eq!(q.insert(entry(TaskHandle::Blink, 50)), Err(SchedulingError::AlreadyPending));
    assert_eq!(q.entries(), before);
    assert_eq!(q.len(), 2);
}

#[test]
fn single_instance_can_be_inserted_again_once_popped() {
    let mut q = TimerQueue::new(TaskTable::firmware(), 4);
    assert_eq!(q.insert(entry(TaskHandle::Blink, 100)), Ok(()));
    assert!(q.is_pending(TaskHandle::Blink));
    assert_eq!(q.pop_due(Instant::from_ticks(100)), vec![entry(TaskHandle::Blink, 100)]);
    assert!(!q.is_pending(TaskHandle::Blink));
    assert_eq!(q.insert(entry(TaskHandle::Blink, 200)), Ok(()));
}

#[test]
fn full_queue_refuses_and_stays_unchanged() {
    let mut q = TimerQueue::new(table(1, 1, 1, SpawnPolicy::Multiple), 2);
    assert_eq!(q.insert(entry(TaskHandle::Blink, 1)), Ok(()));
    assert_eq!(q.insert(entry(TaskHandle::Blink, 2)), Ok(()));
    let before = q.entries();
    assert_eq!(q.insert(entry(TaskHandle::PwmChange, 0)), Err(SchedulingError::QueueFull));
    assert_eq!(q.entries(), before);
}

#[test]
fn zero_capacity_queue_is_always_full() {
    let mut q = TimerQueue::new(TaskTable::firmware(), 0);
    assert_eq!(q.insert(entry(TaskHandle::Blink, 1)), Err(SchedulingError::QueueFull));
    assert!(q.is_empty());
}

#[test]
fn already_pending_is_reported_before_queue_full() {
    let mut q = TimerQueue::new(TaskTable::firmware(), 1);
    assert_eq!(q.insert(entry(TaskHandle::Blink, 1)), Ok(()));
    assert_eq!(q.insert(entry(TaskHandle::Blink, 2)), Err(SchedulingError::AlreadyPending));
    assert_eq!(q.insert(entry(TaskHandle::PwmChange, 2)), Err(SchedulingError::QueueFull));
}

#[test]
fn peek_earliest_is_the_smallest_wake_time() {
    let mut q = TimerQueue::new(table(1, 9, 1, SpawnPolicy::SingleInstance), 4);
    assert_eq!(q.insert(entry(TaskHandle::PwmChange, 300)), Ok(()));
    assert_eq!(q.peek_earliest(), Some(Instant::from_ticks(300)));
    assert_eq!(q.insert(entry(TaskHandle::Blink, 200)), Ok(()));
    assert_eq!(q.peek_earliest(), Some(Instant::from_ticks(200)));
    assert_eq!(q.insert(entry(TaskHandle::ScreenClear, 250)), Ok(()));
    assert_eq!(q.peek_earliest(), Some(Instant::from_ticks(200)));
    assert_eq!(q.len(), 3);
}

#[test]
fn pop_next_due_hands_out_one_entry_at_a_time() {
    let mut q = TimerQueue::new(table(1, 2, 1, SpawnPolicy::SingleInstance), 4);
    assert_eq!(q.insert(entry(TaskHandle::Blink, 100)), Ok(()));
    assert_eq!(q.insert(entry(TaskHandle::PwmChange, 100)), Ok(()));
    assert_eq!(q.insert(entry(TaskHandle::ScreenClear, 150)), Ok(()));
    let now = Instant::from_ticks(120);
    assert_eq!(q.pop_next_due(now), Some(entry(TaskHandle::PwmChange, 100)));
    assert_eq!(q.pop_next_due(now), Some(entry(TaskHandle::Blink, 100)));
    assert_eq!(q.pop_next_due(now), None);
    assert_eq!(q.entries(), vec![entry(TaskHandle::ScreenClear, 150)]);
}

#[test]
fn drain_at_latest_wake_returns_every_entry_once() {
    let mut q = TimerQueue::new(table(2, 0, 1, SpawnPolicy::Multiple), 16);
    let mut inserted = Vec::new();
    let tasks = [TaskHandle::Blink, TaskHandle::PwmChange, TaskHandle::ScreenClear];
    for i in 0..12u32 {
        let e = tagged(tasks[(i % 3) as usize], ((i * 7) % 5) as u64 * 10, i);
        assert_eq!(q.insert(e), Ok(()));
        inserted.push(e);
    }
    let due = q.pop_due(Instant::from_ticks(40));
    assert_eq!(due.len(), 12);
    for e in inserted.iter() {
        assert_eq!(due.iter().filter(|d| *d == e).count(), 1);
    }
    for pair in due.windows(2) {
        assert!(pair[0].wake_at.ticks() <= pair[1].wake_at.ticks());
    }
    assert!(q.is_empty());
}

#[test]
fn pop_due_above_leaves_masked_entries() {
    let mut q = TimerQueue::new(table(1, 2, 3, SpawnPolicy::SingleInstance), 4);
    assert_eq!(q.insert(entry(TaskHandle::Blink, 10)), Ok(()));
    assert_eq!(q.insert(entry(TaskHandle::PwmChange, 20)), Ok(()));
    assert_eq!(q.insert(entry(TaskHandle::ScreenClear, 30)), Ok(()));
    let due = q.pop_due_above(Instant::from_ticks(30), Some(1));
    assert_eq!(due, vec![entry(TaskHandle::PwmChange, 20), entry(TaskHandle::ScreenClear, 30)]);
    assert_eq!(q.entries(), vec![entry(TaskHandle::Blink, 10)]);
    assert_eq!(q.pop_due_above(Instant::from_ticks(30), None), vec![entry(TaskHandle::Blink, 10)]);
}

#[test]
fn peek_earliest_above_skips_masked_entries() {
    let mut q = TimerQueue::new(table(1, 2, 3, SpawnPolicy::SingleInstance), 4);
    assert_eq!(q.insert(entry(TaskHandle::Blink, 10)), Ok(()));
    assert_eq!(q.insert(entry(TaskHandle::PwmChange, 20)), Ok(()));
    assert_eq!(q.insert(entry(TaskHandle::ScreenClear, 30)), Ok(()));
    assert_eq!(q.peek_earliest_above(None), Some(Instant::from_ticks(10)));
    assert_eq!(q.peek_earliest_above(Some(0)), Some(Instant::from_ticks(10)));
    assert_eq!(q.peek_earliest_above(Some(1)), Some(Instant::from_ticks(20)));
    assert_eq!(q.peek_earliest_above(Some(2)), Some(Instant::from_ticks(30)));
    assert_eq!(q.peek_earliest_above(Some(3)), None);
}

#[test]
fn task_table_answers_per_task() {
    let t = TaskTable::new(
        TaskConfig { priority: 4, policy: SpawnPolicy::SingleInstance },
        TaskConfig { priority: 0, policy: SpawnPolicy::Multiple },
        TaskConfig { priority: 255, policy: SpawnPolicy::SingleInstance },
    );
    assert_eq!(t.priority(TaskHandle::Blink), 4);
    assert_eq!(t.priority(TaskHandle::PwmChange), 0);
    assert_eq!(t.priority(TaskHandle::ScreenClear), 255);
    assert!(t.single_instance(TaskHandle::Blink));
    assert!(!t.single_instance(TaskHandle::PwmChange));
    assert_eq!(
        t.config(TaskHandle::ScreenClear),
        TaskConfig { priority: 255, policy: SpawnPolicy::SingleInstance }
    );
    let f = TaskTable::firmware();
    for task in [TaskHandle::Blink, TaskHandle::PwmChange, TaskHandle::ScreenClear] {
        assert_eq!(f.priority(task), 1);
        assert!(f.single_instance(task));
    }
}
