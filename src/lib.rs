//! Supervised execution of one scheduled job: a lock marker per job
//! identifier, a report of the run, and shell hooks fed with that report.
//!
//! Everything here is logic; the process and file system work is done by the
//! caller, which feeds the outcomes back to [`ezcron::Execution`].

pub mod config;
pub mod env;
pub mod ezcron;
pub mod options;
pub mod pid;
pub mod posix;
pub mod report;
pub mod text;
