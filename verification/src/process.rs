//! The normalized per-process entity, the raw sample a kernel reader
//! hands in, and the per-entity update arithmetic: CPU usage from
//! monotonic tick counters, disk I/O deltas, and the delta-tracking
//! field shifts.

use vstd::prelude::*;

use crate::status::ProcessStatus;
use crate::Pid;

verus! {

/// CPU usage is kept in hundredths of a percent, so `10_000` is one
/// fully busy core.
pub const CPU_USAGE_SCALE: u64 = 10_000;

/// Saturating subtraction over a pair of counter samples: a monotonic
/// counter can appear to decrease because of kernel reporting
/// artifacts, and a delta is never negative.
pub open spec fn spec_sat_sub(a: u64, b: u64) -> u64 {
    if a >= b {
        (a - b) as u64
    } else {
        0u64
    }
}

/// The identity of a process: the expensive one-shot attributes,
/// resolved when the entity is first observed and reused afterwards.
#[derive(Clone)]
pub struct ProcessIdentity {
    /// Short name of the executable.
    pub name: String,
    /// Command-line argument sequence.
    pub cmd: Vec<String>,
    /// Path of the executable.
    pub exe: String,
    /// Current working directory.
    pub cwd: String,
    /// Root directory.
    pub root: String,
    /// Environment variable sequence.
    pub environ: Vec<String>,
    /// Owner user id.
    pub uid: u32,
    /// Owner group id.
    pub gid: u32,
}

/// An identity whose every attribute is empty.
pub open spec fn identity_is_empty(a: ProcessIdentity) -> bool {
    &&& a.name@ == Seq::<char>::empty()
    &&& a.cmd.deep_view() == Seq::<Seq<char>>::empty()
    &&& a.exe@ == Seq::<char>::empty()
    &&& a.cwd@ == Seq::<char>::empty()
    &&& a.root@ == Seq::<char>::empty()
    &&& a.environ.deep_view() == Seq::<Seq<char>>::empty()
    &&& a.uid == 0
    &&& a.gid == 0
}

/// Two identities carry the same values.
pub open spec fn same_identity(a: ProcessIdentity, b: ProcessIdentity) -> bool {
    &&& a.name@ == b.name@
    &&& a.cmd.deep_view() == b.cmd.deep_view()
    &&& a.exe@ == b.exe@
    &&& a.cwd@ == b.cwd@
    &&& a.root@ == b.root@
    &&& a.environ.deep_view() == b.environ.deep_view()
    &&& a.uid == b.uid
    &&& a.gid == b.gid
}

/// Copies a vector of strings, value for value.
fn clone_string_vec(v: &Vec<String>) -> (r: Vec<String>)
    ensures
        r.deep_view() == v.deep_view(),
{
    let mut r: Vec<String> = Vec::new();
    let mut i: usize = 0;
    while i < v.len()
        invariant
            i <= v.len(),
            r.len() == i,
            forall|j: int| 0 <= j < i ==> r.deep_view()[j] == v.deep_view()[j],
        decreases v.len() - i,
    {
        r.push(v[i].clone());
        i = i + 1;
    }
    assert(r.deep_view() =~= v.deep_view());
    r
}

impl ProcessIdentity {
    /// An identity with every attribute empty: what an entity gets
    /// when each one-shot lookup failed or was not attempted.
    pub fn empty() -> (r: ProcessIdentity)
        ensures
            identity_is_empty(r),
    {
        let r = ProcessIdentity {
            name: String::new(),
            cmd: Vec::new(),
            exe: String::new(),
            cwd: String::new(),
            root: String::new(),
            environ: Vec::new(),
            uid: 0,
            gid: 0,
        };
        assert(r.cmd.deep_view() =~= Seq::<Seq<char>>::empty());
        assert(r.environ.deep_view() =~= Seq::<Seq<char>>::empty());
        r
    }

    /// Copies the identity, value for value: a task row inherits its
    /// owner's identity rather than re-resolving it.
    pub fn duplicate(&self) -> (r: ProcessIdentity)
        ensures
            same_identity(r, *self),
    {
        ProcessIdentity {
            name: self.name.clone(),
            cmd: clone_string_vec(&self.cmd),
            exe: self.exe.clone(),
            cwd: self.cwd.clone(),
            root: self.root.clone(),
            environ: clone_string_vec(&self.environ),
            uid: self.uid,
            gid: self.gid,
        }
    }
}

/// One cumulative counter as a kernel reader sampled it.
#[derive(Clone, Copy, Debug, PartialEq, Eq, Structural)]
pub enum CounterSample {
    /// The counter was not in the data at all: leave the held pair
    /// untouched.
    Missing,
    /// The counter was present but its value did not parse: advance
    /// the previous-sample field so the delta reads zero.
    Corrupt,
    /// A sampled cumulative value.
    Value(u64),
}

/// What a (current, previous) counter pair becomes when one sample is
/// applied: the first component is the new current value, the second
/// the new previous value.
pub open spec fn spec_counter_after(cur: u64, old: u64, sample: CounterSample) -> (u64, u64) {
    match sample {
        CounterSample::Missing => (cur, old),
        CounterSample::Corrupt => (cur, cur),
        CounterSample::Value(v) => (v, cur),
    }
}

/// Accumulated disk activity of one process: cumulative totals and
/// the delta since the previous refresh.
#[derive(Clone, Copy, Debug, PartialEq, Eq, Structural)]
pub struct DiskUsage {
    /// Bytes written since the previous refresh.
    pub written_bytes: u64,
    /// Cumulative bytes written.
    pub total_written_bytes: u64,
    /// Bytes read since the previous refresh.
    pub read_bytes: u64,
    /// Cumulative bytes read.
    pub total_read_bytes: u64,
}

/// One raw sample of a process, as a platform's kernel reader hands
/// it in: plain counters plus the one-shot identity, which is looked
/// at only when the sample creates a new entity.
#[derive(Clone)]
pub struct ProcessRecord {
    /// Process identifier.
    pub pid: Pid,
    /// Parent process identifier, absent for orphans and the root.
    pub parent: Option<Pid>,
    /// Normalized process state.
    pub status: ProcessStatus,
    /// Resident memory.
    pub memory: u64,
    /// Virtual memory.
    pub virtual_memory: u64,
    /// Absolute start time, derived once.
    pub start_time: u64,
    /// How long the process has been running.
    pub run_time: u64,
    /// Cumulative CPU time spent in user mode, in ticks.
    pub utime: u64,
    /// Cumulative CPU time spent in kernel mode, in ticks.
    pub stime: u64,
    /// A CPU usage the kernel itself reports, in hundredths of a
    /// percent; absent on platforms where usage is derived from the
    /// tick counters instead.
    pub cpu_usage: Option<u64>,
    /// Cumulative disk read bytes.
    pub read_bytes: CounterSample,
    /// Cumulative disk written bytes.
    pub written_bytes: CounterSample,
    /// One-shot identity attributes.
    pub identity: ProcessIdentity,
}

/// One process (or one task row nested under its owning process).
pub struct Process {
    /// Process identifier.
    pub pid: Pid,
    /// Parent process identifier.
    pub parent: Option<Pid>,
    /// One-shot identity attributes, set at creation.
    pub identity: ProcessIdentity,
    /// Absolute start time, set at creation.
    pub start_time: u64,
    /// How long the process has been running.
    pub run_time: u64,
    /// Normalized process state.
    pub status: ProcessStatus,
    /// Resident memory.
    pub memory: u64,
    /// Virtual memory.
    pub virtual_memory: u64,
    /// CPU usage in hundredths of a percent.
    pub cpu_usage: u64,
    /// Current sample of user-mode CPU ticks.
    pub utime: u64,
    /// Current sample of kernel-mode CPU ticks.
    pub stime: u64,
    /// Previous sample of user-mode CPU ticks.
    pub old_utime: u64,
    /// Previous sample of kernel-mode CPU ticks.
    pub old_stime: u64,
    /// Current sample of cumulative disk read bytes.
    pub read_bytes: u64,
    /// Previous sample of cumulative disk read bytes.
    pub old_read_bytes: u64,
    /// Current sample of cumulative disk written bytes.
    pub written_bytes: u64,
    /// Previous sample of cumulative disk written bytes.
    pub old_written_bytes: u64,
    /// Whether the entity was seen by the refresh pass under way; the
    /// pass clears it first, every merge sets it, and the cleanup
    /// step evicts every entity still carrying `false`.
    pub updated: bool,
    /// Task rows nested under this process, with the same lifecycle.
    pub tasks: Vec<Process>,
}

/// The CPU usage derived from two consecutive tick samples: the used
/// ticks over the elapsed ticks, scaled to hundredths of a percent
/// and capped. No elapsed time yields no usage rather than an error.
pub open spec fn spec_cpu_usage(
    utime: u64,
    old_utime: u64,
    stime: u64,
    old_stime: u64,
    total_time: u64,
    max_value: u64,
) -> u64 {
    if total_time == 0 {
        0u64
    } else {
        let used = spec_sat_sub(utime, old_utime) + spec_sat_sub(stime, old_stime);
        let raw = used * (CPU_USAGE_SCALE as int) / (total_time as int);
        if raw <= max_value {
            raw as u64
        } else {
            max_value
        }
    }
}

impl Process {
    /// A fresh entity: identity empty, every counter zero, and marked
    /// as seen, since it is created by the pass that first observed it.
    pub fn new(pid: Pid, parent: Option<Pid>, start_time: u64) -> (r: Process)
        ensures
            r.pid == pid,
            r.parent == parent,
            r.start_time == start_time,
            identity_is_empty(r.identity),
            r.run_time == 0,
            r.status == ProcessStatus::Unknown(0u32),
            r.memory == 0,
            r.virtual_memory == 0,
            r.cpu_usage == 0,
            r.utime == 0,
            r.stime == 0,
            r.old_utime == 0,
            r.old_stime == 0,
            r.read_bytes == 0,
            r.old_read_bytes == 0,
            r.written_bytes == 0,
            r.old_written_bytes == 0,
            r.updated == true,
            r.tasks@ == Seq::<Process>::empty(),
    {
        let r = Process {
            pid,
            parent,
            identity: ProcessIdentity::empty(),
            start_time,
            run_time: 0,
            status: ProcessStatus::Unknown(0),
            memory: 0,
            virtual_memory: 0,
            cpu_usage: 0,
            utime: 0,
            stime: 0,
            old_utime: 0,
            old_stime: 0,
            read_bytes: 0,
            old_read_bytes: 0,
            written_bytes: 0,
            old_written_bytes: 0,
            updated: true,
            tasks: Vec::new(),
        };
        assert(r.tasks@ =~= Seq::<Process>::empty());
        r
    }

    /// The delta-tracked disk activity: totals are the current
    /// cumulative samples, deltas the current minus the previous
    /// sample, clamped at zero.
    pub fn disk_usage(&self) -> (r: DiskUsage)
        ensures
            r.total_read_bytes == self.read_bytes,
            r.total_written_bytes == self.written_bytes,
            r.read_bytes == spec_sat_sub(self.read_bytes, self.old_read_bytes),
            r.written_bytes == spec_sat_sub(self.written_bytes, self.old_written_bytes),
    {
        DiskUsage {
            written_bytes: crate::delta_u64(self.written_bytes, self.old_written_bytes),
            total_written_bytes: self.written_bytes,
            read_bytes: crate::delta_u64(self.read_bytes, self.old_read_bytes),
            total_read_bytes: self.read_bytes,
        }
    }

    /// How long the process has been running.
    pub fn run_time(&self) -> (r: u64)
        ensures
            r == self.run_time,
    {
        self.run_time
    }
}

/// Shifts the accumulated-CPU-time pairs: the current samples become
/// the previous ones, the given samples become current, and the
/// entity is marked as seen.
pub fn set_time(p: &mut Process, utime: u64, stime: u64)
    ensures
        *final(p) == (Process {
            utime,
            stime,
            old_utime: old(p).utime,
            old_stime: old(p).stime,
            updated: true,
            ..*old(p)
        }),
{
    p.old_utime = p.utime;
    p.old_stime = p.stime;
    p.utime = utime;
    p.stime = stime;
    p.updated = true;
}

/// Whether the entity was seen by the refresh pass under way.
pub fn has_been_updated(p: &Process) -> (r: bool)
    ensures
        r == p.updated,
{
    p.updated
}

/// Recomputes the CPU usage from the two held tick samples. On the
/// entity's first observation there is no previous sample yet (both
/// previous components are zero), and the usage is left alone — a
/// fresh entity reports zero until its second observation. Otherwise
/// the usage is the used-tick delta over `total_time`, scaled to
/// hundredths of a percent and capped at `max_value`.
pub fn compute_cpu_usage(p: &mut Process, total_time: u64, max_value: u64)
    ensures
        old(p).old_utime == 0 && old(p).old_stime == 0 ==> *final(p) == *old(p),
        !(old(p).old_utime == 0 && old(p).old_stime == 0) ==> *final(p) == (Process {
            cpu_usage: spec_cpu_usage(
                old(p).utime,
                old(p).old_utime,
                old(p).stime,
                old(p).old_stime,
                total_time,
                max_value,
            ),
            ..*old(p)
        }),
        final(p).cpu_usage <= max_value || final(p).cpu_usage == old(p).cpu_usage,
{
    if p.old_utime == 0 && p.old_stime == 0 {
        // No previous sample to diff against: wait for a second cycle.
        return ;
    }
    if total_time == 0 {
        p.cpu_usage = 0;
        return ;
    }
    let du = crate::delta_u64(p.utime, p.old_utime);
    let ds = crate::delta_u64(p.stime, p.old_stime);
    let used: u128 = du as u128 + ds as u128;
    let raw: u128 = (used * CPU_USAGE_SCALE as u128) / (total_time as u128);
    if raw <= max_value as u128 {
        p.cpu_usage = raw as u64;
    } else {
        p.cpu_usage = max_value;
    }
}

/// Applies one pair of cumulative disk counter samples to the held
/// (current, previous) pairs.
pub fn apply_disk_sample(p: &mut Process, read: CounterSample, written: CounterSample)
    ensures
        *final(p) == (Process {
            read_bytes: spec_counter_after(old(p).read_bytes, old(p).old_read_bytes, read).0,
            old_read_bytes: spec_counter_after(old(p).read_bytes, old(p).old_read_bytes, read).1,
            written_bytes: spec_counter_after(
                old(p).written_bytes,
                old(p).old_written_bytes,
                written,
            ).0,
            old_written_bytes: spec_counter_after(
                old(p).written_bytes,
                old(p).old_written_bytes,
                written,
            ).1,
            ..*old(p)
        }),
{
    match read {
        CounterSample::Missing => {},
        CounterSample::Corrupt => {
            p.old_read_bytes = p.read_bytes;
        },
        CounterSample::Value(v) => {
            p.old_read_bytes = p.read_bytes;
            p.read_bytes = v;
        },
    }
    match written {
        CounterSample::Missing => {},
        CounterSample::Corrupt => {
            p.old_written_bytes = p.written_bytes;
        },
        CounterSample::Value(v) => {
            p.old_written_bytes = p.written_bytes;
            p.written_bytes = v;
        },
    }
}

} // verus!

verus! {

impl Process {
    /// Process identifier.
    pub fn pid(&self) -> (r: Pid)
        ensures
            r == self.pid,
    {
        self.pid
    }

    /// Parent process identifier, if one is known.
    pub fn parent(&self) -> (r: Option<Pid>)
        ensures
            r == self.parent,
    {
        self.parent
    }

    /// Short name of the executable.
    pub fn name(&self) -> (r: &String)
        ensures
            r@ == self.identity.name@,
    {
        &self.identity.name
    }

    /// Command-line argument sequence.
    pub fn cmd(&self) -> (r: &Vec<String>)
        ensures
            r == &self.identity.cmd,
    {
        &self.identity.cmd
    }

    /// Path of the executable.
    pub fn exe(&self) -> (r: &String)
        ensures
            r@ == self.identity.exe@,
    {
        &self.identity.exe
    }

    /// Environment variable sequence.
    pub fn environ(&self) -> (r: &Vec<String>)
        ensures
            r == &self.identity.environ,
    {
        &self.identity.environ
    }

    /// Current working directory.
    pub fn cwd(&self) -> (r: &String)
        ensures
            r@ == self.identity.cwd@,
    {
        &self.identity.cwd
    }

    /// Root directory.
    pub fn root(&self) -> (r: &String)
        ensures
            r@ == self.identity.root@,
    {
        &self.identity.root
    }

    /// Owner user id.
    pub fn uid(&self) -> (r: u32)
        ensures
            r == self.identity.uid,
    {
        self.identity.uid
    }

    /// Owner group id.
    pub fn gid(&self) -> (r: u32)
        ensures
            r == self.identity.gid,
    {
        self.identity.gid
    }

    /// Resident memory.
    pub fn memory(&self) -> (r: u64)
        ensures
            r == self.memory,
    {
        self.memory
    }

    /// Virtual memory.
    pub fn virtual_memory(&self) -> (r: u64)
        ensures
            r == self.virtual_memory,
    {
        self.virtual_memory
    }

    /// Normalized process state.
    pub fn status(&self) -> (r: ProcessStatus)
        ensures
            r == self.status,
    {
        self.status
    }

    /// Absolute start time, set once at creation.
    pub fn start_time(&self) -> (r: u64)
        ensures
            r == self.start_time,
    {
        self.start_time
    }

    /// CPU usage in hundredths of a percent.
    pub fn cpu_usage(&self) -> (r: u64)
        ensures
            r == self.cpu_usage,
    {
        self.cpu_usage
    }

    /// The task rows nested under this process.
    pub fn tasks(&self) -> (r: &Vec<Process>)
        ensures
            r == &self.tasks,
    {
        &self.tasks
    }
}

} // verus!
