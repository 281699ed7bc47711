//! System-wide memory and swap totals, derived from named kernel
//! counters. A counter the platform does not expose arrives as
//! `None` and counts as zero — the refresh goes on with the default
//! rather than failing.

use vstd::prelude::*;

verus! {

/// The named virtual-memory counters one refresh samples. Each may be
/// absent (the kernel parameter does not exist on this machine, e.g.
/// inside a virtual machine); an absent counter reads as zero.
pub struct MemoryReadings {
    /// Physical memory, in bytes.
    pub physical_memory: Option<u64>,
    /// Pages in active use.
    pub active_pages: Option<u64>,
    /// Wired (unswappable) pages.
    pub wired_pages: Option<u64>,
    /// Inactive pages.
    pub inactive_pages: Option<u64>,
    /// Cached pages.
    pub cached_pages: Option<u64>,
    /// Free pages.
    pub free_pages: Option<u64>,
    /// File-system buffer space, in bytes (already scaled by the
    /// kernel).
    pub buffer_bytes: Option<u64>,
}

/// One swap device's usage, in pages.
#[derive(Clone, Copy, Debug, PartialEq, Eq, Structural)]
pub struct SwapDevice {
    /// Pages of this device in use.
    pub used_pages: u64,
    /// Pages this device holds in all.
    pub total_pages: u64,
}

/// An absent counter reads as its zero default.
pub open spec fn spec_or_zero(v: Option<u64>) -> u64 {
    match v {
        Some(x) => x,
        None => 0u64,
    }
}

/// Reads a sampled counter, defaulting an absent one to zero.
pub fn or_zero(v: Option<u64>) -> (r: u64)
    ensures
        r == spec_or_zero(v),
{
    match v {
        Some(x) => x,
        None => 0,
    }
}

/// A mathematical value clamped into the machine word.
pub open spec fn spec_clamp_u64(x: int) -> u64 {
    if x > u64::MAX {
        u64::MAX
    } else if x < 0 {
        0u64
    } else {
        x as u64
    }
}

fn clamp_u64(x: u128) -> (r: u64)
    ensures
        r == spec_clamp_u64(x as int),
{
    if x > u64::MAX as u128 {
        u64::MAX
    } else {
        x as u64
    }
}

/// The product of two counters, clamped into the machine word.
pub fn mul_clamp(a: u128, b: u128) -> (r: u64)
    ensures
        r == spec_clamp_u64(a as int * b as int),
{
    match a.checked_mul(b) {
        Some(v) => clamp_u64(v),
        None => u64::MAX,
    }
}

/// Used memory: the active and wired pages, scaled to page size.
pub open spec fn spec_used_memory(r: MemoryReadings, page_size_k: u64) -> u64 {
    spec_clamp_u64(
        (spec_or_zero(r.active_pages) + spec_or_zero(r.wired_pages)) * page_size_k,
    )
}

/// Free memory: the buffer space plus the inactive, cached and free
/// pages scaled to page size.
pub open spec fn spec_free_memory(r: MemoryReadings, page_size_k: u64) -> u64 {
    spec_clamp_u64(
        spec_or_zero(r.buffer_bytes) + (spec_or_zero(r.inactive_pages) + spec_or_zero(
            r.cached_pages,
        ) + spec_or_zero(r.free_pages)) * page_size_k,
    )
}

/// Total memory: the physical memory in the kernel's reporting unit.
pub open spec fn spec_total_memory(r: MemoryReadings) -> u64 {
    (spec_or_zero(r.physical_memory) / 1000) as u64
}

/// Computes the used-memory total from one set of readings.
pub fn used_memory(r: &MemoryReadings, page_size_k: u64) -> (m: u64)
    ensures
        m == spec_used_memory(*r, page_size_k),
{
    let pages: u128 = or_zero(r.active_pages) as u128 + or_zero(r.wired_pages) as u128;
    mul_clamp(pages, page_size_k as u128)
}

/// Computes the free-memory total from one set of readings.
pub fn free_memory(r: &MemoryReadings, page_size_k: u64) -> (m: u64)
    ensures
        m == spec_free_memory(*r, page_size_k),
{
    let pages: u128 = or_zero(r.inactive_pages) as u128 + or_zero(r.cached_pages) as u128
        + or_zero(r.free_pages) as u128;
    let buffers = or_zero(r.buffer_bytes) as u128;
    match pages.checked_mul(page_size_k as u128) {
        Some(scaled) => match buffers.checked_add(scaled) {
            Some(sum) => clamp_u64(sum),
            None => u64::MAX,
        },
        None => u64::MAX,
    }
}

/// Computes the total-memory figure from one set of readings.
pub fn total_memory(r: &MemoryReadings) -> (m: u64)
    ensures
        m == spec_total_memory(*r),
{
    or_zero(r.physical_memory) / 1000
}

/// The pages all swap devices hold in use, summed over the first `n`.
pub open spec fn spec_swap_used_pages(s: Seq<SwapDevice>, n: int) -> int
    decreases n,
{
    if n <= 0 {
        0
    } else {
        spec_swap_used_pages(s, n - 1) + s[n - 1].used_pages as int
    }
}

/// The pages all swap devices hold in all, summed over the first `n`.
pub open spec fn spec_swap_total_pages(s: Seq<SwapDevice>, n: int) -> int
    decreases n,
{
    if n <= 0 {
        0
    } else {
        spec_swap_total_pages(s, n - 1) + s[n - 1].total_pages as int
    }
}

/// The swap totals of a device list, scaled to page size: first the
/// used bytes, then the total bytes. The used figure is held at or
/// below the total even when a device reports more used pages than it
/// holds, so the free-swap difference can never wrap.
pub open spec fn spec_swap_info(s: Seq<SwapDevice>, page_size_k: u64) -> (u64, u64) {
    let used = spec_swap_used_pages(s, s.len() as int);
    let total = spec_swap_total_pages(s, s.len() as int);
    let used_c = if used <= total {
        used
    } else {
        total
    };
    (spec_clamp_u64(used_c * page_size_k), spec_clamp_u64(total * page_size_k))
}

/// Sums the usage of every swap device, scaled to page size: returns
/// (used, total) bytes.
#[verifier::loop_isolation(false)]
pub fn swap_info(devices: &Vec<SwapDevice>, page_size_k: u64) -> (r: (u64, u64))
    ensures
        r == spec_swap_info(devices@, page_size_k),
        r.0 <= r.1,
{
    let len_bound = devices.len();
    let mut used: u128 = 0;
    let mut total: u128 = 0;
    let mut i: usize = 0;
    while i < devices.len()
        invariant
            i <= devices@.len(),
            used == spec_swap_used_pages(devices@, i as int),
            total == spec_swap_total_pages(devices@, i as int),
            used <= i * (u64::MAX as int),
            total <= i * (u64::MAX as int),
        decreases devices@.len() - i,
    {
        used = used + devices[i].used_pages as u128;
        total = total + devices[i].total_pages as u128;
        i = i + 1;
    }
    if used > total {
        used = total;
    }
    let used_bytes = mul_clamp(used, page_size_k as u128);
    let total_bytes = mul_clamp(total, page_size_k as u128);
    proof {
        vstd::arithmetic::mul::lemma_mul_inequality(
            used as int,
            total as int,
            page_size_k as int,
        );
    }
    (used_bytes, total_bytes)
}

} // verus!
