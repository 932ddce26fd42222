//! Telemetry of an Android package, collected through the debug bridge.
//!
//! The library decides which diagnostic commands to run against a device,
//! reads their free-form output, and assembles frame rate, CPU share, memory,
//! traffic, battery state and power draw into one snapshot. It runs nothing
//! itself: the caller executes each command and hands back what it printed.
//!
//! * [`text`] and [`numeral`] read characters, words, lines and numbers.
//! * [`cpu`], [`memory`], [`network`], [`frames`], [`power`], [`battery`],
//!   [`traffic`] and [`process`] each read one kind of report.
//! * [`history`] keeps the last sample of every counter and derives rates
//!   from two samples.
//! * [`collect`] steps through one collection; [`metrics`] holds what it
//!   is asked for and what it brings back.
//! * [`command`] chooses the debug bridge binary and builds its command lines.
//!
//! Quantities are held exactly, as the numeral that was read and the divisor
//! that converts its unit, or as a ratio of integers; see [`quantity`].

pub mod battery;
pub mod collect;
pub mod command;
pub mod cpu;
pub mod error;
pub mod frames;
pub mod history;
pub mod memory;
pub mod metrics;
pub mod network;
pub mod numeral;
pub mod power;
pub mod process;
pub mod quantity;
pub mod select;
pub mod text;
pub mod traffic;
