//! What the operations are for, said of characters, bytes and numbers.
pub mod buttons;
pub mod events;
pub mod exchanges;
pub mod numbers;
pub mod paths;
pub mod probes;
pub mod reports;
pub mod start;
pub mod texts;
pub mod verdicts;
