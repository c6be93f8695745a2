//! The temporal core of a personal project, contact and event tracker:
//! reminders that are delivered at most once, and daily, weekly and monthly
//! summaries derived from an append-only log of operations.
//!
//! The core holds no clock and no storage of its own. Its caller reads the
//! clock and hands the reading in; the stores are values that the caller
//! fills and reads back. One wake-up of the periodic loop is one call of
//! [`tick::scheduler_tick`].
//!
//! - [`calendar`]: the reading of the clock, arithmetic on readings, and
//!   what `chrono` tells of a day.
//! - [`audit`] and [`journal`]: the log of operations and the entries that
//!   the tracker writes to it.
//! - [`reminders`]: the events, the window of a tick and the tick itself.
//! - [`summary`], [`generator`], [`summary_store`], [`scheduler`]: what a
//!   summary says, how one is generated and stored, and the automatic check.
//! - [`laws`]: what holds of the core as a whole.
//! - [`records`], [`details`], [`activities`], [`files`], [`folders`]: the
//!   tracker's records and the rules that go with them.
//! - [`text`], [`seqs`], [`json`]: texts, sequences and JSON objects.

pub mod activities;
pub mod audit;
pub mod calendar;
pub mod details;
pub mod errors;
pub mod files;
pub mod folders;
pub mod generator;
pub mod journal;
pub mod json;
pub mod laws;
pub mod records;
pub mod reminders;
pub mod scheduler;
pub mod seqs;
pub mod summary;
pub mod summary_store;
pub mod text;
pub mod tick;
