//! # Fluent Schedule
//!
//! A human-readable, fluent task scheduling library.
//! Jobs are built without cron syntax:
//! `Job::new().every(5u32.minutes())`, `Job::new().on_weekday().at("17:00")`,
//! and a `Scheduler` decides, tick by tick, which jobs are due, where they
//! run next and how long to sleep. Dates and times are held as plain numbers
//! (see `calendar`); chrono reads the local clock, looks up the local time
//! zone and parses times of day (see `clock`).

pub mod calendar;
pub mod clock;
pub mod error;
pub mod job;
pub mod laws;
pub mod scheduler;
pub mod time_units;

pub use calendar::{LocalDateTime, NaiveDateTime, TimeOfDay, Weekday, WeekdaySet};
pub use error::SchedulerError;
pub use job::{Job, NextRun, Task};
pub use scheduler::Scheduler;
pub use time_units::{Duration, FluentDuration};
