//! A process and system metrics model: a verified core for platform
//! backends that sample kernel counters.
//!
//! The crate holds the platform-independent logic of a metrics
//! collector: parsing the fragile per-process status records, the
//! incremental refresh of a process table (create, update, evict),
//! and the derived metrics (CPU usage from monotonic tick counters,
//! disk I/O deltas, memory totals). All kernel access is left to the
//! caller, which hands in plain values; every function here is
//! verified.

pub mod budget;
pub mod cpu;
pub mod freebsd;
pub mod linux;
pub mod memory;
pub mod process;
pub mod signal;
pub mod stat;
pub mod status;
pub mod system;
pub mod table;

use vstd::prelude::*;

verus! {

/// A process identifier, unique among currently-live processes.
pub type Pid = i32;

/// Saturating subtraction: a monotonic counter can appear to decrease
/// because of kernel reporting artifacts; deltas are clamped to zero.
pub fn delta_u64(current: u64, previous: u64) -> (r: u64)
    ensures
        current >= previous ==> r == current - previous,
        current < previous ==> r == 0,
{
    if current >= previous {
        current - previous
    } else {
        0
    }
}

} // verus!
