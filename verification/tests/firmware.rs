use monotonic_scheduler::clock::{CompareAction, CounterSample};
use monotonic_scheduler::dispatcher::Dispatcher;
use monotonic_scheduler::firmware::{
    blink, init, pwm_change, run_task, task_result, Effect, LocalState, PeripheralError,
    PinLevel, TaskError, TaskOutcome, BLINK_PERIOD_MICROS, PWM_STEP, PWM_VALUE_MAX,
    SCREEN_CLEAR_DELAY_MICROS,
};
use monotonic_scheduler::order::TimerQueueEntry;
use monotonic_scheduler::queue::SchedulingError;
use monotonic_scheduler::task::{TaskHandle, TaskTable};
use monotonic_scheduler::time::{Duration, Instant};

fn at(count: u32) -> CounterSample {
    CounterSample { count, overflow_pending: false }
}

fn entry(task: TaskHandle, wake: u64) -> TimerQueueEntry {
    TimerQueueEntry { wake_at: Instant::from_ticks(wake), task, payload: None }
}

#[test]
fn blink_inverts_the_state() {
    let mut on = false;
    assert_eq!(blink(&mut on), PinLevel::High);
    assert!(on);
    assert_eq!(blink(&mut on), PinLevel::Low);
    assert!(!on);
}

#[test]
fn pwm_change_steps_up_the_ramp() {
    assert_eq!(PWM_STEP, 15);
    let mut val: u16 = 0;
    assert_eq!(pwm_change(&mut val), 0xF);
    assert_eq!(val, 0xF);
    assert_eq!(pwm_change(&mut val), 0x1E);
    assert_eq!(val, 0x1E);
    let mut mid: u16 = 0x7FFF;
    assert_eq!(pwm_change(&mut mid), 0x800E);
    assert_eq!(mid, 0x800E);
    let mut last: u16 = PWM_VALUE_MAX;
    assert_eq!(pwm_change(&mut last), u16::MAX);
    assert_eq!(last, u16::MAX);
}

#[test]
fn pwm_change_starts_again_from_the_top() {
    let mut top: u16 = u16::MAX;
    assert_eq!(pwm_change(&mut top), 0);
    assert_eq!(top, 0);
    let mut above: u16 = PWM_VALUE_MAX + 1;
    assert_eq!(pwm_change(&mut above), 0);
    assert_eq!(above, 0);
    assert_eq!(pwm_change(&mut above), 0xF);
}

#[test]
fn pwm_ramp_runs_from_zero_to_the_top_and_over() {
    let mut val: u16 = 0;
    for step in 1..=4369u32 {
        assert_eq!(pwm_change(&mut val) as u32, step * 15);
    }
    assert_eq!(val, u16::MAX);
    assert_eq!(pwm_change(&mut val), 0);
}

#[test]
fn local_state_starts_off() {
    let local = LocalState::new();
    assert!(!local.is_led_on());
    assert_eq!(local.stored_pwm_value(), 0);
}

#[test]
fn init_spawns_blink_and_schedules_screen_clear() {
    let mut d = Dispatcher::new(TaskTable::firmware(), 4);
    let delay = Duration::from_micros(SCREEN_CLEAR_DELAY_MICROS);
    assert_eq!(init(&mut d, at(20), Some(delay)), Ok(CompareAction::FireNow));
    assert_eq!(
        d.pending_entries(),
        vec![entry(TaskHandle::Blink, 20), entry(TaskHandle::ScreenClear, 1_500_020)]
    );
    assert_eq!(d.armed_for(), Some(Instant::from_ticks(20)));
}

#[test]
fn init_without_screen_clear_spawns_blink_only() {
    let mut d = Dispatcher::new(TaskTable::firmware(), 4);
    assert_eq!(init(&mut d, at(0), None), Ok(CompareAction::FireNow));
    assert_eq!(d.pending_entries(), vec![entry(TaskHandle::Blink, 0)]);
}

#[test]
fn init_reports_the_first_refusal() {
    let mut none = Dispatcher::new(TaskTable::firmware(), 0);
    assert_eq!(init(&mut none, at(0), None), Err(SchedulingError::QueueFull));
    assert_eq!(none.pending_entries(), vec![]);
    assert_eq!(none.armed_for(), None);

    let mut one = Dispatcher::new(TaskTable::firmware(), 1);
    let delay = Duration::from_micros(SCREEN_CLEAR_DELAY_MICROS);
    assert_eq!(init(&mut one, at(0), Some(delay)), Err(SchedulingError::QueueFull));
    assert_eq!(one.pending_entries(), vec![entry(TaskHandle::Blink, 0)]);
    assert_eq!(one.armed_for(), Some(Instant::from_ticks(0)));

    let mut again = Dispatcher::new(TaskTable::firmware(), 4);
    assert!(init(&mut again, at(0), None).is_ok());
    assert_eq!(init(&mut again, at(5), None), Err(SchedulingError::AlreadyPending));
    assert_eq!(again.pending_entries(), vec![entry(TaskHandle::Blink, 0)]);
}

#[test]
fn blink_body_toggles_and_rearms_itself() {
    let mut d = Dispatcher::new(TaskTable::firmware(), 4);
    let mut local = LocalState::new();
    assert!(init(&mut d, at(0), None).is_ok());
    let mut now: u32 = 0;
    for round in 0..4u32 {
        let batch = d.take_due(at(now));
        assert_eq!(batch, vec![entry(TaskHandle::Blink, now as u64)]);
        let suspended = d.start(&batch[0]).unwrap();
        let outcome = run_task(&mut d, &mut local, batch[0].task, at(now));
        let on = round % 2 == 0;
        assert_eq!(local.is_led_on(), on);
        let level = if on { PinLevel::High } else { PinLevel::Low };
        assert_eq!(outcome.effect, Effect::DriveLed(level));
        assert_eq!(outcome.rearm, Some(Ok(CompareAction::Disable)));
        let next = now + BLINK_PERIOD_MICROS;
        assert_eq!(d.pending_entries(), vec![entry(TaskHandle::Blink, next as u64)]);
        assert_eq!(d.finish(suspended, at(now + 3)), CompareAction::Arm(next));
        assert_eq!(d.take_due(at(next - 1)), vec![]);
        now = next;
    }
    assert_eq!(local.stored_pwm_value(), 0);
}

#[test]
fn blink_body_reports_a_refused_rearm() {
    let mut d = Dispatcher::new(TaskTable::firmware(), 4);
    let mut local = LocalState::new();
    assert!(d.spawn_after(TaskHandle::Blink, Duration::from_ticks(50), at(0)).is_ok());
    let outcome = run_task(&mut d, &mut local, TaskHandle::Blink, at(10));
    assert!(local.is_led_on());
    assert_eq!(
        outcome,
        TaskOutcome {
            effect: Effect::DriveLed(PinLevel::High),
            rearm: Some(Err(SchedulingError::AlreadyPending)),
        }
    );
    assert_eq!(d.pending_entries(), vec![entry(TaskHandle::Blink, 50)]);
}

#[test]
fn pwm_body_ramps_the_duty() {
    let mut d = Dispatcher::new(TaskTable::firmware(), 4);
    let mut local = LocalState::new();
    for run in 1..=3u16 {
        let outcome = run_task(&mut d, &mut local, TaskHandle::PwmChange, at(5));
        assert_eq!(outcome, TaskOutcome { effect: Effect::SetPwmDuty(run * 0xF), rearm: None });
        assert_eq!(local.stored_pwm_value(), run * 0xF);
        assert!(!local.is_led_on());
    }
    assert_eq!(d.pending_entries(), vec![]);
    assert_eq!(d.armed_for(), None);
}

#[test]
fn pwm_body_starts_again_at_the_top_of_the_ramp() {
    let mut d = Dispatcher::new(TaskTable::firmware(), 4);
    let mut local = LocalState::starting_at(true, PWM_VALUE_MAX);
    let outcome = run_task(&mut d, &mut local, TaskHandle::PwmChange, at(5));
    assert_eq!(outcome.effect, Effect::SetPwmDuty(u16::MAX));
    assert_eq!(local.stored_pwm_value(), u16::MAX);
    let outcome = run_task(&mut d, &mut local, TaskHandle::PwmChange, at(6));
    assert_eq!(outcome.effect, Effect::SetPwmDuty(0));
    assert_eq!(local.stored_pwm_value(), 0);
    assert!(local.is_led_on());
}

#[test]
fn other_bodies_leave_the_duty_alone() {
    let mut d = Dispatcher::new(TaskTable::firmware(), 4);
    let mut local = LocalState::starting_at(false, 300);
    run_task(&mut d, &mut local, TaskHandle::Blink, at(5));
    run_task(&mut d, &mut local, TaskHandle::ScreenClear, at(6));
    assert_eq!(local.stored_pwm_value(), 300);
    assert!(local.is_led_on());
}

#[test]
fn screen_clear_body_clears_the_display() {
    let mut d = Dispatcher::new(TaskTable::firmware(), 4);
    let mut local = LocalState::new();
    let outcome = run_task(&mut d, &mut local, TaskHandle::ScreenClear, at(5));
    assert_eq!(outcome, TaskOutcome { effect: Effect::ClearDisplay, rearm: None });
    assert_eq!(d.pending_entries(), vec![]);
    assert_eq!(d.armed_for(), None);
}

#[test]
fn task_result_puts_the_peripheral_failure_first() {
    let failure = PeripheralError { code: 7 };
    let rearmed = TaskOutcome {
        effect: Effect::DriveLed(PinLevel::Low),
        rearm: Some(Ok(CompareAction::Arm(9))),
    };
    let refused = TaskOutcome {
        effect: Effect::DriveLed(PinLevel::Low),
        rearm: Some(Err(SchedulingError::QueueFull)),
    };
    let plain = TaskOutcome { effect: Effect::ClearDisplay, rearm: None };
    assert_eq!(task_result(Ok(()), rearmed), Ok(Some(CompareAction::Arm(9))));
    assert_eq!(task_result(Ok(()), plain), Ok(None));
    assert_eq!(
        task_result(Ok(()), refused),
        Err(TaskError::Scheduling(SchedulingError::QueueFull))
    );
    assert_eq!(task_result(Err(failure), rearmed), Err(TaskError::Peripheral(failure)));
    assert_eq!(task_result(Err(failure), refused), Err(TaskError::Peripheral(failure)));
    assert_eq!(task_result(Err(failure), plain), Err(TaskError::Peripheral(failure)));
}
