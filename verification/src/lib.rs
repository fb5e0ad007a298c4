//! A local, read-only GPU telemetry sampler.
//!
//! The crate normalizes the text output of several host diagnostic tools
//! (an adapter identity listing, a vendor CSV sensor query, and two
//! platform management queries) into typed records, chooses among the
//! sources by an ordered fallback chain, and keeps the latest snapshot
//! fresh on a configurable interval.
//!
//! Running external commands, clocks and rendering are left to the caller:
//! every function here is a pure, verified step from plain values (raw
//! command output, the current time in milliseconds) to plain values.
//! Sensor readings are carried in thousandths of their unit (milli-degrees
//! Celsius, milli-percent, and so on), so that parsing and the
//! tenths-of-Kelvin conversion are exact integer arithmetic.

pub mod config;
pub mod text;
pub mod info;
pub mod sensors;
pub mod acquire;
pub mod schedule;
