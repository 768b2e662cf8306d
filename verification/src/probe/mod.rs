//! The read-only probe: what the daemon's start would find, as a report.
pub mod agreement;
pub mod args;
pub mod env;
pub mod hidraw;
pub mod input;
pub mod names;
pub mod tail;
pub mod verdict;
