//! The fixed set of task kinds and what is decided for each of them once,
//! before the scheduler starts: its priority and whether a second pending
//! instance is tolerated.

use vstd::prelude::*;

verus! {

/// One task kind of the firmware.
#[derive(Clone, Copy, Debug, PartialEq, Eq, Structural)]
pub enum TaskHandle {
    /// Toggles the indicator LED and re-arms itself.
    Blink,
    /// Writes the next duty cycle to the PWM channel.
    PwmChange,
    /// Clears the display and flushes it.
    ScreenClear,
}

/// Whether a task may be pending more than once.
#[derive(Clone, Copy, Debug, PartialEq, Eq, Structural)]
pub enum SpawnPolicy {
    /// At most one instance is pending at any time; a second spawn is an
    /// error that the caller gets back.
    SingleInstance,
    /// Any number of instances may be pending, up to the queue's capacity.
    Multiple,
}

/// What is fixed for one task kind: its priority (0 is the lowest) and its
/// spawn policy.
#[derive(Clone, Copy, Debug, PartialEq, Eq, Structural)]
pub struct TaskConfig {
    pub priority: u8,
    pub policy: SpawnPolicy,
}

/// The priority that every task of the firmware runs at unless the table
/// is built otherwise.
pub const DEFAULT_PRIORITY: u8 = 1;

/// The configuration of every task kind.
#[derive(Clone, Copy, Debug, PartialEq, Eq, Structural)]
pub struct TaskTable {
    pub blink: TaskConfig,
    pub pwm_change: TaskConfig,
    pub screen_clear: TaskConfig,
}

impl TaskTable {
    /// The configuration of `task`.
    pub open spec fn config_of(self, task: TaskHandle) -> TaskConfig {
        match task {
            TaskHandle::Blink => self.blink,
            TaskHandle::PwmChange => self.pwm_change,
            TaskHandle::ScreenClear => self.screen_clear,
        }
    }

    /// The priority of `task`.
    pub open spec fn priority_of(self, task: TaskHandle) -> int {
        self.config_of(task).priority as int
    }

    /// Whether at most one instance of `task` may be pending.
    pub open spec fn is_single_instance(self, task: TaskHandle) -> bool {
        self.config_of(task).policy == SpawnPolicy::SingleInstance
    }

    /// A table with the given configuration for each task kind.
    pub fn new(blink: TaskConfig, pwm_change: TaskConfig, screen_clear: TaskConfig) -> (table:
        TaskTable)
        ensures
            table.blink == blink,
            table.pwm_change == pwm_change,
            table.screen_clear == screen_clear,
    {
        TaskTable { blink, pwm_change, screen_clear }
    }

    /// The table of the firmware: every task at `DEFAULT_PRIORITY`, each
    /// pending at most once.
    pub fn firmware() -> (table: TaskTable)
        ensures
            forall|task: TaskHandle|
                table.priority_of(task) == DEFAULT_PRIORITY && table.is_single_instance(task),
    {
        let config = TaskConfig { priority: DEFAULT_PRIORITY, policy: SpawnPolicy::SingleInstance };
        TaskTable { blink: config, pwm_change: config, screen_clear: config }
    }

    /// The configuration of `task`.
    pub fn config(&self, task: TaskHandle) -> (config: TaskConfig)
        ensures
            config == self.config_of(task),
    {
        match task {
            TaskHandle::Blink => self.blink,
            TaskHandle::PwmChange => self.pwm_change,
            TaskHandle::ScreenClear => self.screen_clear,
        }
    }

    /// The priority of `task`.
    pub fn priority(&self, task: TaskHandle) -> (priority: u8)
        ensures
            priority == self.priority_of(task),
    {
        self.config(task).priority
    }

    /// Whether at most one instance of `task` may be pending.
    pub fn single_instance(&self, task: TaskHandle) -> (single: bool)
        ensures
            single == self.is_single_instance(task),
    {
        match self.config(task).policy {
            SpawnPolicy::SingleInstance => true,
            SpawnPolicy::Multiple => false,
        }
    }
}

} // verus!
