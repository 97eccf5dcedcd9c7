//! The tasks of the firmware: what each body computes, and what is spawned
//! at start-up.
//!
//! A body does not touch a peripheral. It changes the state that its task
//! owns, asks the dispatcher for its next run where it re-arms itself, and
//! hands back the `Effect` that the caller then carries out on the
//! hardware.

use vstd::prelude::*;
use crate::clock::{CompareAction, CounterSample};
use crate::dispatcher::{delayed_entry, instant_read, Dispatcher};
use crate::order::next_wake;
use crate::queue::{after_insert, insert_outcome, SchedulingError};
use crate::task::TaskHandle;
use crate::time::{Duration, TICKS_PER_MICROSECOND};

verus! {

/// Microseconds between two runs of the blink task.
pub const BLINK_PERIOD_MICROS: u32 = 1_000_000;

/// Microseconds after start-up at which the display is cleared.
pub const SCREEN_CLEAR_DELAY_MICROS: u32 = 1_500_000;

/// What each run of the PWM task adds to the duty cycle.
pub const PWM_STEP: u16 = 0xF;

/// The largest duty cycle to which `PWM_STEP` can be added: above it the
/// ramp is at its top.
pub const PWM_VALUE_MAX: u16 = 0xFFF0;

/// The level of an output pin.
#[derive(Clone, Copy, Debug, PartialEq, Eq, Structural)]
pub enum PinLevel {
    Low,
    High,
}

/// What the caller does on the hardware for a task body.
#[derive(Clone, Copy, Debug, PartialEq, Eq, Structural)]
pub enum Effect {
    /// Drive the LED pin to this level.
    DriveLed(PinLevel),
    /// Write this value to the duty register of the PWM channel.
    SetPwmDuty(u16),
    /// Clear the display buffer and flush it to the display.
    ClearDisplay,
}

/// A failure of a peripheral driver. The scheduler does not look into it.
#[derive(Clone, Copy, Debug, PartialEq, Eq, Structural)]
pub struct PeripheralError {
    /// The driver's own code for the failure.
    pub code: u32,
}

/// Why a task body failed.
#[derive(Clone, Copy, Debug, PartialEq, Eq, Structural)]
pub enum TaskError {
    /// The body could not be scheduled again.
    Scheduling(SchedulingError),
    /// A peripheral failed while the effect was carried out.
    Peripheral(PeripheralError),
}

/// What a task body hands back: the effect to carry out, and for a body
/// that re-arms itself the answer to its wake request.
#[derive(Clone, Copy, Debug, PartialEq, Eq)]
pub struct TaskOutcome {
    pub effect: Effect,
    pub rearm: Option<Result<CompareAction, SchedulingError>>,
}

/// The pin level that shows the LED state `on`.
pub open spec fn level_for(on: bool) -> PinLevel {
    if on {
        PinLevel::High
    } else {
        PinLevel::Low
    }
}

/// The time between two runs of the blink task.
pub open spec fn blink_period() -> Duration {
    Duration { ticks: (BLINK_PERIOD_MICROS * TICKS_PER_MICROSECOND) as u64 }
}

/// The body of the blink task without its re-arming: inverts the LED
/// state and returns the level to drive the pin to.
pub fn blink(led_on: &mut bool) -> (level: PinLevel)
    ensures
        *final(led_on) == !*old(led_on),
        level == level_for(*final(led_on)),
{
    let v = !*led_on;
    let level = match v {
        true => PinLevel::High,
        false => PinLevel::Low,
    };
    *led_on = v;
    level
}

/// The duty cycle that follows `val` on the ramp: one step more, or 0
/// where `val` is at the top of the ramp, so that the ramp starts again.
pub open spec fn ramped(val: u16) -> u16 {
    if val <= PWM_VALUE_MAX {
        (val + PWM_STEP) as u16
    } else {
        0
    }
}

/// The body of the PWM task: moves the stored duty cycle one step up the
/// ramp, or back to 0 from the top, and returns it for the duty register.
pub fn pwm_change(val: &mut u16) -> (duty: u16)
    ensures
        *final(val) == ramped(*old(val)),
        duty == *final(val),
{
    let next: u16 = if *val <= PWM_VALUE_MAX {
        *val + PWM_STEP
    } else {
        0
    };
    *val = next;
    next
}

/// The state that the tasks own: the LED state of the blink task and the
/// duty cycle that the PWM task has reached.
pub struct LocalState {
    led_on: bool,
    pwm_value: u16,
}

impl LocalState {
    /// Whether the blink task has the LED on.
    pub closed spec fn led_on(self) -> bool {
        self.led_on
    }

    /// The duty cycle that the PWM task has reached.
    pub closed spec fn pwm_value(self) -> u16 {
        self.pwm_value
    }

    /// The state at start-up: LED state off, duty cycle 0.
    pub fn new() -> (local: LocalState)
        ensures
            !local.led_on(),
            local.pwm_value() == 0,
    {
        LocalState { led_on: false, pwm_value: 0 }
    }

    /// The state with the given LED state and duty cycle.
    pub fn starting_at(led_on: bool, pwm_value: u16) -> (local: LocalState)
        ensures
            local.led_on() == led_on,
            local.pwm_value() == pwm_value,
    {
        LocalState { led_on, pwm_value }
    }

    /// Whether the blink task has the LED on.
    pub fn is_led_on(&self) -> (on: bool)
        ensures
            on == self.led_on(),
    {
        self.led_on
    }

    /// The duty cycle that the PWM task has reached.
    pub fn stored_pwm_value(&self) -> (value: u16)
        ensures
            value == self.pwm_value(),
    {
        self.pwm_value
    }
}

/// Runs the body of `task` at the instant of `sample`.
///
/// The blink task inverts its LED state, asks to run again one blink
/// period later and has the LED pin driven to the new state. The PWM task
/// moves its duty cycle one step up the ramp, or back to 0 from the top,
/// and has the duty register set to it. The screen-clear task has the
/// display cleared. No task changes the state of another.
pub fn run_task(
    dispatcher: &mut Dispatcher,
    local: &mut LocalState,
    task: TaskHandle,
    sample: CounterSample,
) -> (outcome: TaskOutcome)
    ensures
        match task {
            TaskHandle::Blink => {
                &&& final(local).led_on() == !old(local).led_on()
                &&& final(local).pwm_value() == old(local).pwm_value()
                &&& outcome.effect == Effect::DriveLed(level_for(final(local).led_on()))
                &&& outcome.rearm.is_some()
                &&& final(dispatcher).scheduled_from(
                    *old(dispatcher),
                    delayed_entry(
                        TaskHandle::Blink,
                        instant_read(old(dispatcher).wraps(), sample),
                        blink_period(),
                    ),
                    sample,
                    outcome.rearm.unwrap(),
                )
            },
            TaskHandle::PwmChange => {
                &&& final(local).led_on() == old(local).led_on()
                &&& final(local).pwm_value() == ramped(old(local).pwm_value())
                &&& outcome.effect == Effect::SetPwmDuty(final(local).pwm_value())
                &&& outcome.rearm.is_none()
                &&& *final(dispatcher) == *old(dispatcher)
            },
            TaskHandle::ScreenClear => {
                &&& final(local).led_on() == old(local).led_on()
                &&& final(local).pwm_value() == old(local).pwm_value()
                &&& outcome.effect == Effect::ClearDisplay
                &&& outcome.rearm.is_none()
                &&& *final(dispatcher) == *old(dispatcher)
            },
        },
{
    match task {
        TaskHandle::Blink => {
            let mut led_on = local.led_on;
            let level = blink(&mut led_on);
            local.led_on = led_on;
            let rearm = dispatcher.spawn_after(
                TaskHandle::Blink,
                Duration::from_micros(BLINK_PERIOD_MICROS),
                sample,
            );
            TaskOutcome { effect: Effect::DriveLed(level), rearm: Some(rearm) }
        },
        TaskHandle::PwmChange => {
            let mut val = local.pwm_value;
            let duty = pwm_change(&mut val);
            local.pwm_value = val;
            TaskOutcome { effect: Effect::SetPwmDuty(duty), rearm: None }
        },
        TaskHandle::ScreenClear => TaskOutcome { effect: Effect::ClearDisplay, rearm: None },
    }
}

/// The duty cycle ramps: below the top each run of the PWM task raises it
/// by exactly one step, without overflow, and from the top the next run
/// starts the ramp again at 0.
pub proof fn law_pwm_ramps(val: u16)
    ensures
        val <= PWM_VALUE_MAX ==> ramped(val) == val + PWM_STEP,
        val > PWM_VALUE_MAX ==> ramped(val) == 0,
        ramped(val) != val,
{
}

/// The result of a task body once its effect was carried out: the failure
/// of the peripheral, unchanged, where it failed; else the refusal of the
/// wake request where there was one; else the action for the compare
/// interrupt, if the body re-armed itself.
pub fn task_result(carried_out: Result<(), PeripheralError>, outcome: TaskOutcome) -> (r: Result<
    Option<CompareAction>,
    TaskError,
>)
    ensures
        r == match carried_out {
            Err(e) => Err::<Option<CompareAction>, TaskError>(TaskError::Peripheral(e)),
            Ok(()) => match outcome.rearm {
                Some(Err(e)) => Err(TaskError::Scheduling(e)),
                Some(Ok(action)) => Ok(Some(action)),
                None => Ok(None),
            },
        },
{
    match carried_out {
        Err(e) => Err(TaskError::Peripheral(e)),
        Ok(()) => match outcome.rearm {
            Some(Err(e)) => Err(TaskError::Scheduling(e)),
            Some(Ok(action)) => Ok(Some(action)),
            None => Ok(None),
        },
    }
}

/// Spawns what runs from start-up on: the blink task at once and, where
/// `clear_after` gives a delay, the screen-clear task after that delay. The
/// first request that is refused ends the start-up with its error.
pub fn init(dispatcher: &mut Dispatcher, sample: CounterSample, clear_after: Option<Duration>) -> (r:
    Result<CompareAction, SchedulingError>)
    ensures
        final(dispatcher).tasks() == old(dispatcher).tasks(),
        final(dispatcher).limit() == old(dispatcher).limit(),
        final(dispatcher).wraps() == old(dispatcher).wraps(),
        final(dispatcher).level() == old(dispatcher).level(),
        final(dispatcher).base() == old(dispatcher).base(),
        ({
            let table = old(dispatcher).tasks();
            let limit = old(dispatcher).limit();
            let now = instant_read(old(dispatcher).wraps(), sample);
            let blink = delayed_entry(TaskHandle::Blink, now, Duration { ticks: 0 });
            let first = insert_outcome(table, old(dispatcher).pending(), limit, blink);
            let blinking = after_insert(table, old(dispatcher).pending(), limit, blink);
            match (first, clear_after) {
                (Err(e), _) => {
                    &&& r == Err::<CompareAction, SchedulingError>(e)
                    &&& final(dispatcher).pending() == old(dispatcher).pending()
                    &&& final(dispatcher).armed() == old(dispatcher).armed()
                },
                (Ok(_), None) => {
                    &&& r.is_ok()
                    &&& final(dispatcher).pending() == blinking
                    &&& final(dispatcher).rearmed_by(r.unwrap(), sample)
                },
                (Ok(_), Some(delay)) => {
                    let clear = delayed_entry(TaskHandle::ScreenClear, now, delay);
                    &&& final(dispatcher).pending() == after_insert(table, blinking, limit, clear)
                    &&& match insert_outcome(table, blinking, limit, clear) {
                        Err(e) => {
                            &&& r == Err::<CompareAction, SchedulingError>(e)
                            &&& final(dispatcher).armed() == next_wake(
                                table,
                                blinking,
                                old(dispatcher).level(),
                            )
                        },
                        Ok(_) => {
                            &&& r.is_ok()
                            &&& final(dispatcher).rearmed_by(r.unwrap(), sample)
                        },
                    }
                },
            }
        }),
{
    match dispatcher.spawn(TaskHandle::Blink, sample) {
        Err(e) => Err(e),
        Ok(action) => match clear_after {
            None => Ok(action),
            Some(delay) => dispatcher.spawn_after(TaskHandle::ScreenClear, delay, sample),
        },
    }
}

} // verus!
