//! Per-thread CPU activity monitoring for one externally selected process.
//!
//! The crate holds the decisions of a background sampler: how a pair of
//! cumulative CPU-time readings becomes a utilization rate, which threads of
//! the watched process count as its busiest, and which single value is handed
//! to a polling consumer. Reading the kernel's files, keeping time and running
//! the worker thread are left to the caller, who passes in plain readings.

pub mod ascii;
pub mod monitor;
pub mod population;
pub mod procfs;
pub mod ranking;
pub mod readings;
mod selection;
pub mod theorems;
pub mod tracker;
