//! Per-core CPU accounting: the usage of one core (or of the whole
//! machine) derived from two consecutive samples of its tick-count
//! array, one bucket per scheduler state.

use vstd::prelude::*;

use crate::process::{spec_sat_sub, CPU_USAGE_SCALE};

verus! {

/// How many state buckets a tick-count array holds per core: user,
/// nice, system, interrupt and idle time.
pub const CPU_STATE_BUCKETS: usize = 5;

/// The position of the idle bucket, which usage must not count.
pub const CPU_IDLE_BUCKET: usize = 4;

/// One logical processor and its derived usage.
pub struct Processor {
    /// The core's name.
    pub name: String,
    /// The vendor identifier the kernel reports.
    pub vendor_id: String,
    /// The configured frequency, zero when the kernel does not expose
    /// one (a machine without the sensor reports the default).
    pub frequency: u64,
    /// Usage over the last two samples, in hundredths of a percent.
    pub cpu_usage: u64,
}

impl Processor {
    /// A processor entry before any sample was taken: no usage yet.
    pub fn new(name: String, vendor_id: String, frequency: u64) -> (r: Processor)
        ensures
            r.name@ == name@,
            r.vendor_id@ == vendor_id@,
            r.frequency == frequency,
            r.cpu_usage == 0,
    {
        Processor { name, vendor_id, frequency, cpu_usage: 0 }
    }
}

/// The summed per-bucket deltas of the first `n` buckets at `off`,
/// each clamped at zero, leaving out the bucket at position `skip`
/// (pass a position outside the buckets to sum them all).
pub open spec fn spec_delta_sum(new: Seq<u64>, old: Seq<u64>, off: int, n: int, skip: int) -> int
    decreases n,
{
    if n <= 0 {
        0
    } else {
        spec_delta_sum(new, old, off, n - 1, skip) + if n - 1 == skip {
            0
        } else {
            spec_sat_sub(new[off + n - 1], old[off + n - 1]) as int
        }
    }
}

/// The usage one tick-count window shows: the non-idle delta over the
/// whole delta, in hundredths of a percent. A window with no elapsed
/// ticks shows zero usage, not an error.
pub open spec fn spec_ticks_usage(new: Seq<u64>, old: Seq<u64>, off: int) -> u64 {
    let total = spec_delta_sum(new, old, off, CPU_STATE_BUCKETS as int, CPU_STATE_BUCKETS as int);
    let busy = spec_delta_sum(new, old, off, CPU_STATE_BUCKETS as int, CPU_IDLE_BUCKET as int);
    if total == 0 {
        0u64
    } else {
        (busy * (CPU_USAGE_SCALE as int) / total) as u64
    }
}

/// Derives the usage of one core from its tick-count window starting
/// at `offset` in the two sample arrays.
#[verifier::loop_isolation(false)]
pub fn usage_from_ticks(new: &Vec<u64>, old: &Vec<u64>, offset: usize) -> (r: u64)
    requires
        offset + CPU_STATE_BUCKETS <= new@.len(),
        offset + CPU_STATE_BUCKETS <= old@.len(),
    ensures
        r == spec_ticks_usage(new@, old@, offset as int),
        r <= CPU_USAGE_SCALE,
{
    let len_bound = new.len();
    assert(offset + CPU_STATE_BUCKETS <= len_bound);
    let mut total: u128 = 0;
    let mut busy: u128 = 0;
    let mut i: usize = 0;
    while i < CPU_STATE_BUCKETS
        invariant
            i <= CPU_STATE_BUCKETS,
            total == spec_delta_sum(
                new@,
                old@,
                offset as int,
                i as int,
                CPU_STATE_BUCKETS as int,
            ),
            busy == spec_delta_sum(new@, old@, offset as int, i as int, CPU_IDLE_BUCKET as int),
            busy <= total,
            total <= i * (u64::MAX as int),
        decreases CPU_STATE_BUCKETS - i,
    {
        let d = crate::delta_u64(new[offset + i], old[offset + i]);
        total = total + d as u128;
        if i != CPU_IDLE_BUCKET {
            busy = busy + d as u128;
        }
        i = i + 1;
    }
    if total == 0 {
        0
    } else {
        let raw: u128 = busy * CPU_USAGE_SCALE as u128 / total;
        proof {
            vstd::arithmetic::mul::lemma_mul_inequality(
                busy as int,
                total as int,
                CPU_USAGE_SCALE as int,
            );
            vstd::arithmetic::div_mod::lemma_div_is_ordered(
                busy as int * CPU_USAGE_SCALE as int,
                total as int * CPU_USAGE_SCALE as int,
                total as int,
            );
            vstd::arithmetic::div_mod::lemma_div_multiples_vanish(
                CPU_USAGE_SCALE as int,
                total as int,
            );
            assert(total as int * CPU_USAGE_SCALE as int == CPU_USAGE_SCALE as int * total as int)
                by (nonlinear_arith);
            vstd::arithmetic::div_mod::lemma_div_pos_is_pos(
                busy as int * CPU_USAGE_SCALE as int,
                total as int,
            );
        }
        raw as u64
    }
}

} // verus!
