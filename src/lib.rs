//! Verified core of a host metrics daemon: parsing of kernel counter files,
//! counter deltas turned into percentages and rates, fixed-depth rolling
//! histories, a lock-guarded history store and the single-instance rule.

pub mod fixed;
pub mod text;
pub mod history;
pub mod cpu;
pub mod memory;
pub mod network;
pub mod platform;
pub mod sampler;
pub mod store;
pub mod lifecycle;
