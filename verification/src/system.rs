//! The system snapshot: the process table plus the global counters
//! (memory, swap, per-core CPU usage, boot time, cached identity
//! strings). All kernel access happens outside; the snapshot consumes
//! plain readings and keeps its internal invariant across every
//! refresh.

use vstd::prelude::*;

use crate::cpu::{spec_ticks_usage, usage_from_ticks, Processor, CPU_STATE_BUCKETS};
use crate::memory::{
    free_memory, spec_free_memory, spec_swap_info, spec_total_memory, spec_used_memory, swap_info,
    total_memory, used_memory, MemoryReadings, SwapDevice,
};
use crate::process::{spec_sat_sub, Process, ProcessRecord, CPU_USAGE_SCALE};
use crate::table::{
    cpu_usages_bounded, create_process, find_pid_index, lemma_find_process_at, merge_record,
    pids_unique, record_pids_unique, refresh_table, refresh_tasks, spec_created_ok,
    spec_find_process, spec_merged, spec_table_refreshed, table_has_pid,
};
use crate::Pid;

verus! {

/// The fixed-point scale factor a kernel falls back to when it does
/// not expose one.
pub const DEFAULT_FSCALE: u64 = 2048;

/// The cached identity strings of the running system; each may be
/// unavailable.
pub struct SystemIdentity {
    /// Operating system name.
    pub os_name: Option<String>,
    /// Kernel version string.
    pub kernel_version: Option<String>,
    /// Full release string.
    pub os_release_long: Option<String>,
    /// Release string cut before its first dash.
    pub os_release: Option<String>,
    /// Host name.
    pub host_name: Option<String>,
}

impl SystemIdentity {
    /// An identity with nothing resolved.
    pub fn unknown() -> (r: SystemIdentity)
        ensures
            r.os_name is None,
            r.kernel_version is None,
            r.os_release_long is None,
            r.os_release is None,
            r.host_name is None,
    {
        SystemIdentity {
            os_name: None,
            kernel_version: None,
            os_release_long: None,
            os_release: None,
            host_name: None,
        }
    }
}

/// The fixed-point scale factor: the sampled kernel parameter, or the
/// conventional default where the parameter is absent.
pub fn resolve_fscale(raw: Option<u64>) -> (r: u64)
    ensures
        raw matches Some(v) ==> r == v,
        raw is None ==> r == DEFAULT_FSCALE,
{
    match raw {
        Some(v) => v,
        None => DEFAULT_FSCALE,
    }
}

/// The number of cores: one unless symmetric multiprocessing is
/// active and the kernel reports a sensible count. An absent or
/// nonsensical parameter falls back to one core, never an error.
pub fn resolve_cpu_count(smp_active: Option<u32>, smp_cpus: Option<u32>) -> (r: u32)
    ensures
        r >= 1,
        (match smp_active {
            Some(a) => a != 0,
            None => false,
        }) ==> r == (match smp_cpus {
            Some(c) => if c >= 1 {
                c
            } else {
                1u32
            },
            None => 1u32,
        }),
        !(match smp_active {
            Some(a) => a != 0,
            None => false,
        }) ==> r == 1,
{
    let active = match smp_active {
        Some(a) => a != 0,
        None => false,
    };
    if active {
        match smp_cpus {
            Some(c) => if c >= 1 {
                c
            } else {
                1
            },
            None => 1,
        }
    } else {
        1
    }
}

/// The page size in the kernel's reporting unit.
pub fn page_size_to_k(page_size: u64) -> (r: u64)
    ensures
        r == page_size / 1000,
{
    page_size / 1000
}

/// A vector of zeroed counters.
#[verifier::loop_isolation(false)]
fn zero_vec(n: usize) -> (r: Vec<u64>)
    ensures
        r@.len() == n,
        forall|i: int| 0 <= i < n ==> r@[i] == 0,
{
    let mut r: Vec<u64> = Vec::new();
    let mut i: usize = 0;
    while i < n
        invariant
            i <= n,
            r@.len() == i,
            forall|j: int| 0 <= j < i ==> r@[j] == 0,
        decreases n - i,
    {
        r.push(0);
        i = i + 1;
    }
    r
}

/// The system snapshot.
pub struct System {
    /// The process table.
    pub process_list: Vec<Process>,
    /// Total memory; set once by the first memory refresh.
    pub mem_total: u64,
    /// Free memory.
    pub mem_free: u64,
    /// Used memory.
    pub mem_used: u64,
    /// Available memory, where the platform reports it.
    pub mem_available: u64,
    /// Total swap bytes.
    pub swap_total: u64,
    /// Used swap bytes; never above the total.
    pub swap_used: u64,
    /// The machine-wide processor entry.
    pub global_processor: Processor,
    /// One entry per core.
    pub processors: Vec<Processor>,
    /// Boot time, resolved at construction.
    pub boot_time: u64,
    /// Core count, at least one.
    pub nb_cpus: u32,
    /// Page size in the kernel's reporting unit.
    pub page_size_k: u64,
    /// The kernel fixed-point scale factor.
    pub fscale: u64,
    /// Previous sample of the machine-wide tick-count array.
    pub cp_time_prev: Vec<u64>,
    /// Previous sample of the per-core tick-count arrays, one window
    /// of buckets per core.
    pub cp_times_prev: Vec<u64>,
    /// Cached identity strings.
    pub identity: SystemIdentity,
}

impl System {
    /// The cap on any reported CPU usage: all cores fully busy.
    pub open spec fn spec_max_cpu(self) -> u64 {
        (self.nb_cpus * CPU_USAGE_SCALE) as u64
    }

    /// The internal invariant: unique pids at both table levels, CPU
    /// usages within the cap, swap used within swap total, and the
    /// double-buffered tick arrays shaped to the core count.
    pub open spec fn wf(self) -> bool {
        &&& self.nb_cpus >= 1
        &&& pids_unique(self.process_list@)
        &&& cpu_usages_bounded(self.process_list@, self.spec_max_cpu())
        &&& forall|i: int|
            0 <= i < self.process_list@.len() ==> pids_unique(#[trigger] self.process_list@[i].tasks@)
                && cpu_usages_bounded(self.process_list@[i].tasks@, self.spec_max_cpu())
        &&& self.swap_used <= self.swap_total
        &&& self.cp_time_prev@.len() == CPU_STATE_BUCKETS
        &&& self.cp_times_prev@.len() == self.processors@.len() * CPU_STATE_BUCKETS
    }

    /// A snapshot before any refresh: empty tables and zeroed
    /// counters, with the machine constants the caller resolved at
    /// construction.
    pub fn new(
        nb_cpus: u32,
        page_size_k: u64,
        fscale: u64,
        boot_time: u64,
        identity: SystemIdentity,
    ) -> (s: System)
        requires
            nb_cpus >= 1,
        ensures
            s.wf(),
            s.process_list@.len() == 0,
            s.processors@.len() == 0,
            s.nb_cpus == nb_cpus,
            s.page_size_k == page_size_k,
            s.fscale == fscale,
            s.boot_time == boot_time,
            s.mem_total == 0,
            s.mem_free == 0,
            s.mem_used == 0,
            s.mem_available == 0,
            s.swap_total == 0,
            s.swap_used == 0,
            s.identity == identity,
            s.global_processor.cpu_usage == 0,
            s.cp_time_prev@.len() == CPU_STATE_BUCKETS,
            forall|i: int| 0 <= i < s.cp_time_prev@.len() ==> s.cp_time_prev@[i] == 0,
            s.cp_times_prev@.len() == 0,
    {
        let cp_time_prev = zero_vec(CPU_STATE_BUCKETS);
        let s = System {
            process_list: Vec::new(),
            mem_total: 0,
            mem_free: 0,
            mem_used: 0,
            mem_available: 0,
            swap_total: 0,
            swap_used: 0,
            global_processor: Processor::new(String::new(), String::new(), 0),
            processors: Vec::new(),
            boot_time,
            nb_cpus,
            page_size_k,
            fscale,
            cp_time_prev,
            cp_times_prev: Vec::new(),
            identity,
        };
        s
    }

    /// Installs the per-core processor entries once, with zeroed
    /// previous tick samples. Entries already installed stay as they
    /// are: the list is built a single time.
    pub fn init_processors(&mut self, processors: Vec<Processor>)
        requires
            old(self).wf(),
        ensures
            final(self).wf(),
            old(self).processors@.len() == 0 && processors@.len() <= usize::MAX as int
                / CPU_STATE_BUCKETS as int ==> final(self).processors@ == processors@
                && (forall|j: int|
                    0 <= j < final(self).cp_times_prev@.len() ==> final(self).cp_times_prev@[j]
                        == 0),
            old(self).processors@.len() > 0 ==> *final(self) == *old(self),
            *final(self) == (System {
                processors: final(self).processors,
                cp_times_prev: final(self).cp_times_prev,
                ..*old(self)
            }),
    {
        if self.processors.len() > 0 {
            return ;
        }
        let n = processors.len();
        if n > usize::MAX / CPU_STATE_BUCKETS {
            // More cores than tick windows can address: keep none
            // rather than overflow; no real machine reaches this.
            return ;
        }
        self.cp_times_prev = zero_vec(n * CPU_STATE_BUCKETS);
        self.processors = processors;
    }

    /// Refreshes the memory and swap counters from one set of named
    /// kernel readings. The memory total is resolved once and kept;
    /// absent counters read as zero; the used swap is held within the
    /// total.
    pub fn refresh_memory(&mut self, readings: &MemoryReadings, swap: &Vec<SwapDevice>)
        requires
            old(self).wf(),
        ensures
            final(self).wf(),
            final(self).mem_total == (if old(self).mem_total == 0 {
                spec_total_memory(*readings)
            } else {
                old(self).mem_total
            }),
            final(self).mem_used == spec_used_memory(*readings, old(self).page_size_k),
            final(self).mem_free == spec_free_memory(*readings, old(self).page_size_k),
            final(self).swap_used == spec_swap_info(swap@, old(self).page_size_k).0,
            final(self).swap_total == spec_swap_info(swap@, old(self).page_size_k).1,
            *final(self) == (System {
                mem_total: final(self).mem_total,
                mem_used: final(self).mem_used,
                mem_free: final(self).mem_free,
                swap_used: final(self).swap_used,
                swap_total: final(self).swap_total,
                ..*old(self)
            }),
    {
        if self.mem_total == 0 {
            self.mem_total = total_memory(readings);
        }
        self.mem_used = used_memory(readings, self.page_size_k);
        self.mem_free = free_memory(readings, self.page_size_k);
        let (swap_used, swap_total) = swap_info(swap, self.page_size_k);
        self.swap_used = swap_used;
        self.swap_total = swap_total;
    }

    /// Refreshes the global and per-core CPU usage from fresh samples
    /// of the tick-count arrays. The previous samples are held in
    /// place and replaced by the fresh ones: two samples make one
    /// usage window. A window with no elapsed ticks reads as zero
    /// usage.
    #[verifier::loop_isolation(false)]
    pub fn refresh_cpu(&mut self, cp_time: Vec<u64>, cp_times: Vec<u64>)
        requires
            old(self).wf(),
            cp_time@.len() == CPU_STATE_BUCKETS,
            cp_times@.len() == old(self).processors@.len() * CPU_STATE_BUCKETS,
        ensures
            final(self).wf(),
            final(self).global_processor.cpu_usage == spec_ticks_usage(
                cp_time@,
                old(self).cp_time_prev@,
                0,
            ),
            final(self).global_processor.cpu_usage <= CPU_USAGE_SCALE,
            final(self).processors@.len() == old(self).processors@.len(),
            forall|i: int|
                #![trigger final(self).processors@[i]]
                0 <= i < final(self).processors@.len() ==> final(self).processors@[i] == (Processor {
                    cpu_usage: spec_ticks_usage(
                        cp_times@,
                        old(self).cp_times_prev@,
                        i * CPU_STATE_BUCKETS,
                    ),
                    ..old(self).processors@[i]
                }) && final(self).processors@[i].cpu_usage <= CPU_USAGE_SCALE,
            final(self).cp_time_prev@ == cp_time@,
            final(self).cp_times_prev@ == cp_times@,
            *final(self) == (System {
                global_processor: final(self).global_processor,
                processors: final(self).processors,
                cp_time_prev: final(self).cp_time_prev,
                cp_times_prev: final(self).cp_times_prev,
                ..*old(self)
            }),
    {
        let usage = usage_from_ticks(&cp_time, &self.cp_time_prev, 0);
        let global = &mut self.global_processor;
        global.cpu_usage = usage;
        let n = self.processors.len();
        let ticks_len = cp_times.len();
        assert(n * CPU_STATE_BUCKETS <= usize::MAX);
        let mut i: usize = 0;
        while i < n
            invariant
                i <= n,
                self.processors@.len() == n,
                self.global_processor == (Processor {
                    cpu_usage: spec_ticks_usage(cp_time@, old(self).cp_time_prev@, 0),
                    ..old(self).global_processor
                }),
                forall|j: int|
                    #![trigger self.processors@[j]]
                    0 <= j < i ==> self.processors@[j] == (Processor {
                        cpu_usage: spec_ticks_usage(
                            cp_times@,
                            old(self).cp_times_prev@,
                            j * CPU_STATE_BUCKETS,
                        ),
                        ..old(self).processors@[j]
                    }) && self.processors@[j].cpu_usage <= CPU_USAGE_SCALE,
                forall|j: int| i <= j < n ==> self.processors@[j] == old(self).processors@[j],
                self.cp_times_prev == old(self).cp_times_prev,
                *self == (System {
                    global_processor: self.global_processor,
                    processors: self.processors,
                    ..*old(self)
                }),
            decreases n - i,
        {
            proof {
                assert((i + 1) * CPU_STATE_BUCKETS <= n * CPU_STATE_BUCKETS) by (nonlinear_arith)
                    requires i + 1 <= n;
                assert(i * CPU_STATE_BUCKETS + CPU_STATE_BUCKETS == (i + 1) * CPU_STATE_BUCKETS)
                    by (nonlinear_arith);
            }
            let core_usage = usage_from_ticks(&cp_times, &self.cp_times_prev, i * CPU_STATE_BUCKETS);
            let entry = &mut self.processors[i];
            entry.cpu_usage = core_usage;
            i = i + 1;
        }
        self.cp_time_prev = cp_time;
        self.cp_times_prev = cp_times;
    }
}

} // verus!

verus! {

impl System {
    /// Whether the table entry found for this pid (if any) was seen
    /// by the pass under way.
    pub open spec fn spec_pid_updated(self, pid: Pid) -> bool {
        match spec_find_process(self.process_list@, pid) {
            Some(p) => p.updated,
            None => false,
        }
    }

    /// One full refresh pass over the process table (see the engine):
    /// afterwards the table holds exactly the pids of the records,
    /// every entity is marked as seen, CPU usages stay within
    /// cores times one hundred percent and a first-ever observed
    /// entity reports zero. Nothing but the process table changes.
    pub fn refresh_processes(&mut self, records: &Vec<ProcessRecord>, total_time: u64)
        requires
            old(self).wf(),
            record_pids_unique(records@),
        ensures
            final(self).wf(),
            spec_table_refreshed(
                old(self).process_list@,
                final(self).process_list@,
                records@,
                None,
                0u64,
                0u64,
                total_time,
                old(self).spec_max_cpu(),
            ),
            *final(self) == (System { process_list: final(self).process_list, ..*old(self) }),
    {
        let max_cpu = self.nb_cpus as u64 * CPU_USAGE_SCALE;
        refresh_table(&mut self.process_list, records, None, 0, 0, total_time, max_cpu);
        proof {
            let orig = old(self).process_list@;
            let fin = self.process_list@;
            // Task tables stay well formed: a merged entity keeps the
            // tasks of the old entity with its pid, a created one has
            // none.
            assert forall|i: int|
                0 <= i < fin.len() implies pids_unique(#[trigger] fin[i].tasks@)
                && cpu_usages_bounded(fin[i].tasks@, old(self).spec_max_cpu()) by {
                if table_has_pid(orig, fin[i].pid) {
                    let j = choose|j: int| 0 <= j < orig.len() && orig[j].pid == fin[i].pid;
                    lemma_find_process_at(orig, j);
                    assert(fin[i].tasks == orig[j].tasks);
                } else {
                    assert(fin[i].tasks@ == Seq::<Process>::empty());
                }
            }
        }
    }

    /// Refreshes a single pid from one fetched record (or from none,
    /// when the process vanished between listing and reading) and
    /// reports whether the pid is alive: present in the table and
    /// seen by the pass under way.
    ///
    /// An entity already seen this tick needs no new data: the call
    /// changes nothing and still reports it alive, so a second call
    /// with an unchanged kernel state leaves every field exactly as
    /// the first call did.
    pub fn refresh_process(
        &mut self,
        pid: Pid,
        record: Option<&ProcessRecord>,
        total_time: u64,
    ) -> (alive: bool)
        requires
            old(self).wf(),
            record matches Some(r) ==> r.pid == pid,
        ensures
            final(self).wf(),
            *final(self) == (System { process_list: final(self).process_list, ..*old(self) }),
            // Already seen this tick: nothing changes, still alive.
            old(self).spec_pid_updated(pid) ==> *final(self) == *old(self) && alive,
            // Nothing fetched: nothing changes, alive only if already seen.
            record is None ==> *final(self) == *old(self) && alive == old(self).spec_pid_updated(
                pid,
            ),
            // A fetched record for an unseen pid is merged or created.
            alive == (old(self).spec_pid_updated(pid) || record is Some),
            record matches Some(r) ==> !old(self).spec_pid_updated(pid) ==> (
            match spec_find_process(old(self).process_list@, pid) {
                Some(p) => exists|i: int|
                    0 <= i < old(self).process_list@.len() && old(self).process_list@[i] == p
                        && final(self).process_list@ == old(self).process_list@.update(
                        i,
                        spec_merged(p, *r, 0u64, 0u64, total_time, old(self).spec_max_cpu()),
                    ),
                None => final(self).process_list@.len() == old(self).process_list@.len() + 1
                    && final(self).process_list@.subrange(
                    0,
                    old(self).process_list@.len() as int,
                ) == old(self).process_list@ && spec_created_ok(
                    final(self).process_list@.last(),
                    *r,
                    None,
                    0u64,
                    0u64,
                ),
            }),
    {
        let max_cpu = self.nb_cpus as u64 * CPU_USAGE_SCALE;
        let found = find_pid_index(&self.process_list, pid);
        match found {
            Some(i) => {
                proof {
                    lemma_find_process_at(self.process_list@, i as int);
                    assert(spec_find_process(old(self).process_list@, pid) == Some(
                        old(self).process_list@[i as int],
                    ));
                }
                if self.process_list[i].updated {
                    // Already up to date this tick: not an error, and
                    // nothing to merge.
                    proof {
                        assert(old(self).spec_pid_updated(pid));
                    }
                    return true;
                }
                proof {
                    assert(!old(self).spec_pid_updated(pid));
                }
                match record {
                    Some(r) => {
                        let ghost orig = self.process_list@;
                        let entry = &mut self.process_list[i];
                        let ghost old_entry = *entry;
                        merge_record(entry, r, 0, 0, total_time, max_cpu);
                        proof {
                            crate::table::lemma_merged_cpu_bounded(
                                old_entry,
                                *r,
                                total_time,
                                max_cpu,
                            );
                            assert(self.process_list@ == orig.update(
                                i as int,
                                spec_merged(old_entry, *r, 0u64, 0u64, total_time, max_cpu),
                            ));
                            assert forall|j: int, k: int|
                                0 <= j < k < self.process_list@.len() implies self.process_list@[j].pid
                                != self.process_list@[k].pid by {
                                assert(self.process_list@[j].pid == orig[j].pid);
                                assert(self.process_list@[k].pid == orig[k].pid);
                            }
                            assert forall|j: int|
                                0 <= j < self.process_list@.len() implies pids_unique(
                                #[trigger] self.process_list@[j].tasks@,
                            ) && cpu_usages_bounded(
                                self.process_list@[j].tasks@,
                                self.spec_max_cpu(),
                            ) by {
                                if j != i {
                                    assert(self.process_list@[j] == orig[j]);
                                } else {
                                    assert(self.process_list@[j].tasks == orig[j].tasks);
                                }
                            }
                        }
                        true
                    },
                    None => false,
                }
            },
            None => {
                proof {
                    crate::table::lemma_find_process(self.process_list@, pid);
                    assert(!old(self).spec_pid_updated(pid));
                }
                match record {
                    Some(r) => {
                        let ghost orig = self.process_list@;
                        let created = create_process(r, None, 0, 0, total_time, max_cpu);
                        self.process_list.push(created);
                        proof {
                            assert(self.process_list@.subrange(0, orig.len() as int) =~= orig);
                            assert forall|j: int, k: int|
                                0 <= j < k < self.process_list@.len() implies self.process_list@[j].pid
                                != self.process_list@[k].pid by {
                                if k == orig.len() {
                                    assert(self.process_list@[j] == orig[j]);
                                    assert(!table_has_pid(orig, created.pid));
                                }
                            }
                            assert forall|j: int|
                                0 <= j < self.process_list@.len() implies pids_unique(
                                #[trigger] self.process_list@[j].tasks@,
                            ) && cpu_usages_bounded(
                                self.process_list@[j].tasks@,
                                self.spec_max_cpu(),
                            ) by {
                                if j < orig.len() {
                                    assert(self.process_list@[j] == orig[j]);
                                } else {
                                    assert(self.process_list@[j].tasks@ == Seq::<Process>::empty());
                                }
                            }
                        }
                        true
                    },
                    None => false,
                }
            },
        }
    }

    /// Refreshes the task rows nested under the process with this pid
    /// from the task records of one pass, inheriting the owner's
    /// identity for newly observed rows. Reports whether the owner
    /// was found; an absent owner changes nothing.
    pub fn refresh_process_tasks(
        &mut self,
        pid: Pid,
        records: &Vec<ProcessRecord>,
        total_time: u64,
    ) -> (found: bool)
        requires
            old(self).wf(),
            record_pids_unique(records@),
        ensures
            final(self).wf(),
            *final(self) == (System { process_list: final(self).process_list, ..*old(self) }),
            !found ==> *final(self) == *old(self) && !table_has_pid(old(self).process_list@, pid),
            found ==> exists|i: int|
                0 <= i < old(self).process_list@.len()
                    && #[trigger] old(self).process_list@[i].pid == pid
                    && final(self).process_list@ == old(self).process_list@.update(
                    i,
                    final(self).process_list@[i],
                ) && final(self).process_list@[i] == (Process {
                    tasks: final(self).process_list@[i].tasks,
                    ..old(self).process_list@[i]
                }) && spec_table_refreshed(
                    old(self).process_list@[i].tasks@,
                    final(self).process_list@[i].tasks@,
                    records@,
                    Some(old(self).process_list@[i].identity),
                    old(self).process_list@[i].memory,
                    old(self).process_list@[i].virtual_memory,
                    total_time,
                    old(self).spec_max_cpu(),
                ),
    {
        let max_cpu = self.nb_cpus as u64 * CPU_USAGE_SCALE;
        let found = find_pid_index(&self.process_list, pid);
        match found {
            Some(i) => {
                let ghost orig = self.process_list@;
                let owner = &mut self.process_list[i];
                refresh_tasks(owner, records, total_time, max_cpu);
                proof {
                    assert(orig[i as int].pid == pid);
                    assert(self.process_list@ == orig.update(
                        i as int,
                        self.process_list@[i as int],
                    ));
                    assert forall|j: int, k: int|
                        0 <= j < k < self.process_list@.len() implies self.process_list@[j].pid
                        != self.process_list@[k].pid by {
                        assert(self.process_list@[j].pid == orig[j].pid);
                        assert(self.process_list@[k].pid == orig[k].pid);
                    }
                    assert forall|j: int|
                        0 <= j < self.process_list@.len() implies pids_unique(
                        #[trigger] self.process_list@[j].tasks@,
                    ) && cpu_usages_bounded(
                        self.process_list@[j].tasks@,
                        self.spec_max_cpu(),
                    ) by {
                        if j != i {
                            assert(self.process_list@[j] == orig[j]);
                        }
                    }
                }
                true
            },
            None => false,
        }
    }
}

} // verus!

verus! {

impl System {
    /// The process table, keyed by pid.
    pub fn processes(&self) -> (r: &Vec<Process>)
        ensures
            r == &self.process_list,
    {
        &self.process_list
    }

    /// The entity with this pid, if the table holds one.
    pub fn process(&self, pid: Pid) -> (r: Option<&Process>)
        requires
            self.wf(),
        ensures
            match r {
                Some(p) => spec_find_process(self.process_list@, pid) == Some(*p),
                None => !table_has_pid(self.process_list@, pid),
            },
    {
        let found = find_pid_index(&self.process_list, pid);
        match found {
            Some(i) => {
                proof {
                    lemma_find_process_at(self.process_list@, i as int);
                }
                Some(&self.process_list[i])
            },
            None => None,
        }
    }

    /// The machine-wide processor entry.
    pub fn global_processor_info(&self) -> (r: &Processor)
        ensures
            r == &self.global_processor,
    {
        &self.global_processor
    }

    /// The per-core processor entries.
    pub fn processors(&self) -> (r: &Vec<Processor>)
        ensures
            r == &self.processors,
    {
        &self.processors
    }

    /// Total memory.
    pub fn total_memory(&self) -> (r: u64)
        ensures
            r == self.mem_total,
    {
        self.mem_total
    }

    /// Free memory.
    pub fn free_memory(&self) -> (r: u64)
        ensures
            r == self.mem_free,
    {
        self.mem_free
    }

    /// Available memory, where the platform reports it.
    pub fn available_memory(&self) -> (r: u64)
        ensures
            r == self.mem_available,
    {
        self.mem_available
    }

    /// Used memory.
    pub fn used_memory(&self) -> (r: u64)
        ensures
            r == self.mem_used,
    {
        self.mem_used
    }

    /// Total swap.
    pub fn total_swap(&self) -> (r: u64)
        ensures
            r == self.swap_total,
    {
        self.swap_total
    }

    /// Free swap: the swap not in use. The invariant holds the used
    /// figure within the total, so the difference never wraps.
    pub fn free_swap(&self) -> (r: u64)
        requires
            self.wf(),
        ensures
            r == self.swap_total - self.swap_used,
    {
        self.swap_total - self.swap_used
    }

    /// Used swap.
    pub fn used_swap(&self) -> (r: u64)
        ensures
            r == self.swap_used,
    {
        self.swap_used
    }

    /// Seconds since boot, given the current time; a clock standing
    /// before boot reads as zero.
    pub fn uptime(&self, now: u64) -> (r: u64)
        ensures
            r == spec_sat_sub(now, self.boot_time),
    {
        crate::delta_u64(now, self.boot_time)
    }

    /// The boot time resolved at construction.
    pub fn boot_time(&self) -> (r: u64)
        ensures
            r == self.boot_time,
    {
        self.boot_time
    }

    /// The core count resolved at construction.
    pub fn physical_core_count(&self) -> (r: Option<usize>)
        ensures
            r == Some(self.nb_cpus as usize),
    {
        Some(self.nb_cpus as usize)
    }

    /// Operating system name, when resolved.
    pub fn name(&self) -> (r: &Option<String>)
        ensures
            r == &self.identity.os_name,
    {
        &self.identity.os_name
    }

    /// Full release string, when resolved.
    pub fn long_os_version(&self) -> (r: &Option<String>)
        ensures
            r == &self.identity.os_release_long,
    {
        &self.identity.os_release_long
    }

    /// Host name, when resolved.
    pub fn host_name(&self) -> (r: &Option<String>)
        ensures
            r == &self.identity.host_name,
    {
        &self.identity.host_name
    }

    /// Kernel version string, when resolved.
    pub fn kernel_version(&self) -> (r: &Option<String>)
        ensures
            r == &self.identity.kernel_version,
    {
        &self.identity.kernel_version
    }

    /// Release string cut before its first dash, when resolved.
    pub fn os_version(&self) -> (r: &Option<String>)
        ensures
            r == &self.identity.os_release,
    {
        &self.identity.os_release
    }
}

impl Default for System {
    /// A snapshot of a single-core machine with nothing resolved and
    /// nothing refreshed.
    fn default() -> (s: System)
        ensures
            s.wf(),
            s.process_list@.len() == 0,
            s.nb_cpus == 1,
            s.fscale == DEFAULT_FSCALE,
    {
        System::new(1, 0, DEFAULT_FSCALE, 0, SystemIdentity::unknown())
    }
}

} // verus!

verus! {

/// The short form of a release string: everything before its first
/// dash (a release like `13.0-RELEASE` reads as `13.0`), the whole
/// string when it has no dash.
pub fn release_prefix(data: &Vec<u8>) -> (r: Vec<u8>)
    ensures
        r@ == data@.subrange(0, crate::stat::spec_find_byte(data@, 45)),
{
    let dash = crate::stat::find_byte_at(data, 45);
    crate::stat::copy_range(data, 0, dash)
}

} // verus!
