//! The kvm backend logic: turning one raw kernel process-table entry
//! (plain counters copied out of the kernel's own record) into a raw
//! process record. The kvm and sysctl calls that fetch the entry and
//! the one-shot identity happen outside.

use vstd::prelude::*;

use crate::memory::{mul_clamp, spec_clamp_u64};
use crate::process::{CounterSample, ProcessIdentity, ProcessRecord};
use crate::status::{spec_status_from_kproc_code, status_from_kproc_code};
use crate::Pid;

verus! {

/// The kernel's flag bit marking a system (kernel-worker) process.
pub const KPROC_FLAG_SYSTEM: i64 = 0x200;

/// One process-table entry as the kernel reports it, reduced to the
/// counters this backend reads.
pub struct KinfoProc {
    /// Process identifier.
    pub pid: Pid,
    /// Parent process identifier; zero names none.
    pub ppid: Pid,
    /// Kernel process flags.
    pub flag: i64,
    /// Numeric state code.
    pub stat: u32,
    /// Recent CPU usage in the kernel's fixed-point scale.
    pub pctcpu: u64,
    /// Virtual size, in bytes.
    pub size: u64,
    /// Resident set, in pages.
    pub rssize: u64,
    /// Accumulated run time, in microseconds.
    pub runtime_us: u64,
    /// Start time, in seconds.
    pub start_sec: u64,
    /// Real user id of the owner.
    pub ruid: u32,
    /// Real group id of the owner.
    pub rgid: u32,
    /// Cumulative blocks read.
    pub inblock: u64,
    /// Cumulative blocks written.
    pub oublock: u64,
}

/// Whether an entry is a kernel worker that the table filters out:
/// one carrying the system flag — except the first process, which is
/// always kept.
pub fn is_kernel_worker(kproc: &KinfoProc) -> (r: bool)
    ensures
        r == (kproc.pid != 1 && (kproc.flag & KPROC_FLAG_SYSTEM) != 0),
{
    kproc.pid != 1 && (kproc.flag & KPROC_FLAG_SYSTEM) != 0
}

/// The CPU usage an entry reports, rescaled from the kernel's
/// fixed-point factor to hundredths of a percent. A zero factor — a
/// kernel reporting none — reads as no usage rather than an error.
pub open spec fn spec_kproc_cpu(pctcpu: u64, fscale: u64) -> u64 {
    if fscale == 0 {
        0u64
    } else {
        spec_clamp_u64(pctcpu * 10000 / fscale as int)
    }
}

/// Turns one kernel process-table entry into a raw process record.
/// The virtual size comes down to the kernel's reporting unit, the
/// resident set is scaled to page size (clamped, never wrapped), the
/// accumulated run time is rounded to the nearest unit, and the disk
/// counters sample the cumulative block counts. The usage is the
/// kernel's own, so the tick fields stay empty. The given identity
/// carries the one-shot lookups; the owner ids come from the entry
/// itself.
pub fn record_from_kproc(
    kproc: &KinfoProc,
    page_size: u64,
    fscale: u64,
    identity: ProcessIdentity,
) -> (r: ProcessRecord)
    ensures
        r.pid == kproc.pid,
        r.parent == (if kproc.ppid != 0 {
            Some(kproc.ppid)
        } else {
            None::<Pid>
        }),
        r.status == spec_status_from_kproc_code(kproc.stat),
        r.memory == spec_clamp_u64(kproc.rssize * page_size),
        r.virtual_memory == kproc.size / 1000,
        r.run_time == (kproc.runtime_us + 5000) as int / 10000,
        r.start_time == kproc.start_sec,
        r.utime == 0,
        r.stime == 0,
        r.cpu_usage == Some(spec_kproc_cpu(kproc.pctcpu, fscale)),
        r.read_bytes == CounterSample::Value(kproc.inblock),
        r.written_bytes == CounterSample::Value(kproc.oublock),
        r.identity == (ProcessIdentity { uid: kproc.ruid, gid: kproc.rgid, ..identity }),
{
    let cpu = if fscale == 0 {
        0
    } else {
        let scaled: u128 = kproc.pctcpu as u128 * 10000;
        let raw: u128 = scaled / fscale as u128;
        if raw > u64::MAX as u128 {
            u64::MAX
        } else {
            raw as u64
        }
    };
    let run_time = ((kproc.runtime_us as u128 + 5000) / 10000) as u64;
    ProcessRecord {
        pid: kproc.pid,
        parent: if kproc.ppid != 0 {
            Some(kproc.ppid)
        } else {
            None
        },
        status: status_from_kproc_code(kproc.stat),
        memory: mul_clamp(kproc.rssize as u128, page_size as u128),
        virtual_memory: kproc.size / 1000,
        start_time: kproc.start_sec,
        run_time,
        utime: 0,
        stime: 0,
        cpu_usage: Some(cpu),
        read_bytes: CounterSample::Value(kproc.inblock),
        written_bytes: CounterSample::Value(kproc.oublock),
        identity: ProcessIdentity { uid: kproc.ruid, gid: kproc.rgid, ..identity },
    }
}

} // verus!
