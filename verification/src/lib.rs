//! A monotonic, timer-driven task scheduler for a single-core microcontroller.
//!
//! The crate turns a free-running 32-bit hardware counter into a 64-bit
//! monotonic clock, keeps pending wake requests in a bounded queue ordered by
//! wake time, static priority and arrival, and decides for every interrupt
//! which task bodies run and when the hardware has to wake the core next.
//! Hardware is never touched here: every function takes the values that were
//! read from the peripheral and hands back the value to write to it.
//!
//! - `time`: instants and durations in clock ticks.
//! - `clock`: the monotonic clock over the hardware counter.
//! - `task`: the task kinds, their priorities and spawn policies.
//! - `order`: the dispatch order, as a model over sequences of entries.
//! - `queue`: the timer queue, with `queue_laws` for what holds of it.
//! - `arbiter`: priority-ceiling access to shared state.
//! - `dispatcher`: spawning, draining and re-arming, with `dispatcher_laws`.
//! - `firmware`: the task bodies of the firmware and its start-up.
//! - `layout`: where text goes on the display.

pub mod arbiter;
pub mod clock;
pub mod dispatcher;
pub mod dispatcher_laws;
pub mod firmware;
pub mod layout;
pub mod order;
pub mod queue;
pub mod queue_laws;
pub mod task;
pub mod time;
