//! Rule resolution for a file sorter: configuration lines become mappings of
//! a rule to an action, candidate files are matched against the mappings, and
//! every file that exactly one mapping governs yields a task that copies or
//! moves it below a destination directory.
//!
//! The way of a run through the modules:
//!
//! - [`grammar`] reads a line as a directive, [`directive`] makes a
//!   [`mapping::Mapping`] of it, and refuses a line that more than one
//!   directive reads;
//! - [`rule`] and [`action`] are the two halves of a mapping: which files it
//!   governs, and what becomes of them;
//! - [`listing`] picks the candidate files, [`mapping`] gives each of them to
//!   its one mapping and refuses a file that more than one governs;
//! - [`execution`] runs a task and [`batch`] a list of tasks, step by step,
//!   leaving the file system to the caller;
//! - [`select`] counts which of several candidates apply, [`path`] and
//!   [`pattern`] hold what `std::path` and the `regex` crate compute, and
//!   [`error`] what can go wrong.

pub mod action;
pub mod batch;
pub mod context;
pub mod directive;
pub mod error;
pub mod execution;
pub mod grammar;
pub mod listing;
pub mod mapping;
pub mod path;
pub mod pattern;
pub mod rule;
pub mod select;
