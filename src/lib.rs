//! Verified core of a tickless monotonic clock built from a free-running
//! up-counting cycle counter and a down-counting alarm timer.
//!
//! The hardware access itself (reading the cycle counter, writing the alarm's
//! reload register) happens outside this crate; here live the decisions made
//! on the values read:
//!
//! - [`time_base`]: widening the native 32-bit cycle count to a 64-bit
//!   timestamp by counting wraparounds between successive observations;
//! - [`alarm`]: turning an absolute deadline into the reload value of the
//!   24-bit down-counter, clamped so that the alarm is never disabled.
pub mod alarm;
pub mod time_base;
