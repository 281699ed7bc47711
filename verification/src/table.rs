//! The refresh engine: one sampling pass over a process table.
//!
//! A pass first marks every held entity as not yet seen, then walks
//! the raw records the kernel reader produced — merging the dynamic
//! and delta fields of entities it already holds and staging a full
//! new entity for every unknown pid — then evicts every entity the
//! pass did not see, and finally inserts the staged entities. The
//! same engine refreshes the task rows nested under one process, with
//! the identity inherited from the owner and the owner's own readings
//! subtracted from cumulative task readings.

use vstd::prelude::*;

use crate::process::{
    apply_disk_sample, compute_cpu_usage, has_been_updated, same_identity, set_time,
    spec_counter_after, spec_cpu_usage, spec_sat_sub, Process, ProcessIdentity, ProcessRecord,
};
use crate::Pid;

verus! {

/// No two entities of a table share a pid.
pub open spec fn pids_unique(s: Seq<Process>) -> bool {
    forall|i: int, j: int| 0 <= i < j < s.len() ==> s[i].pid != s[j].pid
}

/// No two raw records of one pass share a pid.
pub open spec fn record_pids_unique(s: Seq<ProcessRecord>) -> bool {
    forall|i: int, j: int| 0 <= i < j < s.len() ==> s[i].pid != s[j].pid
}

/// Some entity of the table has this pid.
pub open spec fn table_has_pid(s: Seq<Process>, pid: Pid) -> bool {
    exists|i: int| 0 <= i < s.len() && s[i].pid == pid
}

/// Some record of the pass has this pid.
pub open spec fn records_have_pid(s: Seq<ProcessRecord>, pid: Pid) -> bool {
    exists|i: int| 0 <= i < s.len() && s[i].pid == pid
}

/// The first entity with this pid — the only one, when pids are unique.
pub open spec fn spec_find_process(s: Seq<Process>, pid: Pid) -> Option<Process>
    decreases s.len(),
{
    if s.len() == 0 {
        None
    } else if s[0].pid == pid {
        Some(s[0])
    } else {
        spec_find_process(s.drop_first(), pid)
    }
}

/// The first record with this pid — the only one, when pids are unique.
pub open spec fn spec_find_record(s: Seq<ProcessRecord>, pid: Pid) -> Option<ProcessRecord>
    decreases s.len(),
{
    if s.len() == 0 {
        None
    } else if s[0].pid == pid {
        Some(s[0])
    } else {
        spec_find_record(s.drop_first(), pid)
    }
}

pub proof fn lemma_find_process(s: Seq<Process>, pid: Pid)
    ensures
        spec_find_process(s, pid) is Some <==> table_has_pid(s, pid),
        spec_find_process(s, pid) matches Some(p) ==> p.pid == pid && exists|i: int|
            0 <= i < s.len() && s[i] == p,
    decreases s.len(),
{
    if s.len() > 0 && s[0].pid != pid {
        lemma_find_process(s.drop_first(), pid);
        if table_has_pid(s.drop_first(), pid) {
            let i = choose|i: int| 0 <= i < s.drop_first().len() && s.drop_first()[i].pid == pid;
            assert(s[i + 1].pid == pid);
        }
        if table_has_pid(s, pid) {
            let i = choose|i: int| 0 <= i < s.len() && s[i].pid == pid;
            assert(s.drop_first()[i - 1].pid == pid);
        }
        if spec_find_process(s, pid) is Some {
            let p = spec_find_process(s, pid)->Some_0;
            let i = choose|i: int|
                0 <= i < s.drop_first().len() && s.drop_first()[i] == p;
            assert(s[i + 1] == p);
        }
    }
}

/// With unique pids, the entity found for `s[i].pid` is `s[i]` itself.
pub proof fn lemma_find_process_at(s: Seq<Process>, i: int)
    requires
        pids_unique(s),
        0 <= i < s.len(),
    ensures
        spec_find_process(s, s[i].pid) == Some(s[i]),
    decreases s.len(),
{
    if i > 0 {
        assert(s[0].pid != s[i].pid);
        assert(pids_unique(s.drop_first())) by {
            assert(forall|m: int, n: int|
                0 <= m < n < s.drop_first().len() ==> s.drop_first()[m].pid == s[m + 1].pid
                    && s.drop_first()[n].pid == s[n + 1].pid);
        }
        lemma_find_process_at(s.drop_first(), i - 1);
        assert(s.drop_first()[i - 1] == s[i]);
    }
}

/// With unique pids, the record found for `s[i].pid` is `s[i]` itself.
pub proof fn lemma_find_record_at(s: Seq<ProcessRecord>, i: int)
    requires
        record_pids_unique(s),
        0 <= i < s.len(),
    ensures
        spec_find_record(s, s[i].pid) == Some(s[i]),
    decreases s.len(),
{
    if i > 0 {
        assert(s[0].pid != s[i].pid);
        assert(record_pids_unique(s.drop_first())) by {
            assert(forall|m: int, n: int|
                0 <= m < n < s.drop_first().len() ==> s.drop_first()[m].pid == s[m + 1].pid
                    && s.drop_first()[n].pid == s[n + 1].pid);
        }
        lemma_find_record_at(s.drop_first(), i - 1);
        assert(s.drop_first()[i - 1] == s[i]);
    }
}

/// The smaller of two values.
pub open spec fn spec_min_u64(a: u64, b: u64) -> u64 {
    if a <= b {
        a
    } else {
        b
    }
}

/// The CPU usage an entity gets when a record is merged into it: a
/// usage the kernel reported directly is capped; otherwise the usage
/// is derived from the tick samples, unless this is the entity's
/// first observation (no previous sample yet), which leaves it alone.
pub open spec fn spec_merged_cpu(
    p: Process,
    r: ProcessRecord,
    total_time: u64,
    max_cpu: u64,
) -> u64 {
    match r.cpu_usage {
        Some(c) => spec_min_u64(c, max_cpu),
        None => if p.utime == 0 && p.stime == 0 {
            p.cpu_usage
        } else {
            spec_cpu_usage(r.utime, p.utime, r.stime, p.stime, total_time, max_cpu)
        },
    }
}

/// What an entity becomes when one raw record is merged into it: the
/// dynamic fields are overwritten, the delta-tracking pairs shifted,
/// the owner's readings subtracted from cumulative task readings, and
/// the entity marked as seen. Identity, start time and the nested
/// task table are untouched.
pub open spec fn spec_merged(
    p: Process,
    r: ProcessRecord,
    parent_memory: u64,
    parent_virtual_memory: u64,
    total_time: u64,
    max_cpu: u64,
) -> Process {
    Process {
        parent: r.parent,
        status: r.status,
        run_time: r.run_time,
        memory: spec_sat_sub(r.memory, parent_memory),
        virtual_memory: spec_sat_sub(r.virtual_memory, parent_virtual_memory),
        utime: r.utime,
        stime: r.stime,
        old_utime: p.utime,
        old_stime: p.stime,
        read_bytes: spec_counter_after(p.read_bytes, p.old_read_bytes, r.read_bytes).0,
        old_read_bytes: spec_counter_after(p.read_bytes, p.old_read_bytes, r.read_bytes).1,
        written_bytes: spec_counter_after(p.written_bytes, p.old_written_bytes, r.written_bytes).0,
        old_written_bytes: spec_counter_after(
            p.written_bytes,
            p.old_written_bytes,
            r.written_bytes,
        ).1,
        updated: true,
        cpu_usage: spec_merged_cpu(p, r, total_time, max_cpu),
        ..p
    }
}

/// A freshly created entity carries the record's identity (or the
/// inherited one), the record's dynamic fields, empty previous
/// samples, and no CPU usage: usage stays zero until the second
/// observation.
pub open spec fn spec_created_ok(
    p: Process,
    r: ProcessRecord,
    inherit: Option<ProcessIdentity>,
    parent_memory: u64,
    parent_virtual_memory: u64,
) -> bool {
    &&& p.pid == r.pid
    &&& p.parent == r.parent
    &&& p.start_time == r.start_time
    &&& same_identity(
        p.identity,
        match inherit {
            Some(idt) => idt,
            None => r.identity,
        },
    )
    &&& p.status == r.status
    &&& p.run_time == r.run_time
    &&& p.memory == spec_sat_sub(r.memory, parent_memory)
    &&& p.virtual_memory == spec_sat_sub(r.virtual_memory, parent_virtual_memory)
    &&& p.utime == r.utime
    &&& p.stime == r.stime
    &&& p.old_utime == 0
    &&& p.old_stime == 0
    &&& p.cpu_usage == 0
    &&& p.read_bytes == spec_counter_after(0u64, 0u64, r.read_bytes).0
    &&& p.old_read_bytes == spec_counter_after(0u64, 0u64, r.read_bytes).1
    &&& p.written_bytes == spec_counter_after(0u64, 0u64, r.written_bytes).0
    &&& p.old_written_bytes == spec_counter_after(0u64, 0u64, r.written_bytes).1
    &&& p.updated == true
    &&& p.tasks@ == Seq::<Process>::empty()
}

/// The view of an optional inherited identity.
pub open spec fn spec_inherit(inherit: Option<&ProcessIdentity>) -> Option<ProcessIdentity> {
    match inherit {
        Some(idt) => Some(*idt),
        None => None,
    }
}

/// Finds the index of the entity with this pid, if the table holds one.
pub fn find_pid_index(list: &Vec<Process>, pid: Pid) -> (r: Option<usize>)
    ensures
        match r {
            Some(i) => i < list@.len() && list@[i as int].pid == pid,
            None => !table_has_pid(list@, pid),
        },
{
    let mut i: usize = 0;
    while i < list.len()
        invariant
            i <= list@.len(),
            forall|j: int| 0 <= j < i ==> list@[j].pid != pid,
        decreases list@.len() - i,
    {
        if list[i].pid == pid {
            return Some(i);
        }
        i = i + 1;
    }
    None
}

/// Merges one raw record into an entity the table already holds.
pub fn merge_record(
    p: &mut Process,
    r: &ProcessRecord,
    parent_memory: u64,
    parent_virtual_memory: u64,
    total_time: u64,
    max_cpu: u64,
)
    ensures
        *final(p) == spec_merged(
            *old(p),
            *r,
            parent_memory,
            parent_virtual_memory,
            total_time,
            max_cpu,
        ),
{
    p.parent = r.parent;
    p.status = r.status;
    p.run_time = r.run_time;
    p.memory = crate::delta_u64(r.memory, parent_memory);
    p.virtual_memory = crate::delta_u64(r.virtual_memory, parent_virtual_memory);
    set_time(p, r.utime, r.stime);
    apply_disk_sample(p, r.read_bytes, r.written_bytes);
    match r.cpu_usage {
        Some(c) => {
            p.cpu_usage = if c <= max_cpu {
                c
            } else {
                max_cpu
            };
        },
        None => {
            compute_cpu_usage(p, total_time, max_cpu);
        },
    }
}

/// Builds a full entity from a raw record first observed by this
/// pass. The one-shot identity comes from the record, or is inherited
/// by copy when a task row is created under an owner that already
/// resolved it. The reported CPU usage of a fresh entity is zero: it
/// has no previous tick sample to diff against.
pub fn create_process(
    r: &ProcessRecord,
    inherit: Option<&ProcessIdentity>,
    parent_memory: u64,
    parent_virtual_memory: u64,
    total_time: u64,
    max_cpu: u64,
) -> (p: Process)
    ensures
        spec_created_ok(p, *r, spec_inherit(inherit), parent_memory, parent_virtual_memory),
{
    let mut p = Process::new(r.pid, r.parent, r.start_time);
    p.identity = match inherit {
        Some(idt) => idt.duplicate(),
        None => r.identity.duplicate(),
    };
    merge_record(&mut p, r, parent_memory, parent_virtual_memory, total_time, max_cpu);
    p.cpu_usage = 0;
    p
}

} // verus!

verus! {

/// The predicate the cleanup step keeps entities by: seen this pass.
pub open spec fn updated_pred() -> spec_fn(Process) -> bool {
    |p: Process| p.updated
}

/// Filtering a pushed sequence filters the prefix and then decides the
/// pushed element.
proof fn lemma_filter_push<A>(s: Seq<A>, x: A, pred: spec_fn(A) -> bool)
    ensures
        (s.push(x)).filter(pred) == (if pred(x) {
            s.filter(pred).push(x)
        } else {
            s.filter(pred)
        }),
{
    reveal(Seq::filter);
    assert(s.push(x).drop_last() =~= s);
    assert(s.push(x).last() == x);
}

/// Every element of a filtered sequence stands somewhere in the original.
proof fn lemma_filter_elem<A>(s: Seq<A>, pred: spec_fn(A) -> bool, i: int)
    requires
        0 <= i < s.filter(pred).len(),
    ensures
        exists|j: int| 0 <= j < s.len() && s[j] == s.filter(pred)[i],
    decreases s.len(),
{
    reveal(Seq::filter);
    if s.len() > 0 {
        let f = s.drop_last().filter(pred);
        if i < f.len() {
            lemma_filter_elem(s.drop_last(), pred, i);
            let j = choose|j: int| 0 <= j < s.drop_last().len() && s.drop_last()[j] == f[i];
            assert(s[j] == s.filter(pred)[i]);
        } else {
            assert(s[s.len() - 1] == s.filter(pred)[i]);
        }
    }
}

/// Filtering keeps the pids of a table unique.
proof fn lemma_filter_pids_unique(s: Seq<Process>, pred: spec_fn(Process) -> bool)
    requires
        pids_unique(s),
    ensures
        pids_unique(s.filter(pred)),
    decreases s.len(),
{
    reveal(Seq::filter);
    if s.len() > 0 {
        assert(pids_unique(s.drop_last()));
        lemma_filter_pids_unique(s.drop_last(), pred);
        let f = s.drop_last().filter(pred);
        if pred(s.last()) {
            assert forall|i: int| 0 <= i < f.len() implies f[i].pid != s.last().pid by {
                lemma_filter_elem(s.drop_last(), pred, i);
                let j = choose|j: int| 0 <= j < s.drop_last().len() && s.drop_last()[j] == f[i];
                assert(s[j].pid != s[s.len() - 1].pid);
            }
        }
    }
}

/// Whether a pid stands in one more record: in the longer prefix, or
/// exactly at the new position.
proof fn lemma_records_prefix_extend(s: Seq<ProcessRecord>, k: int, pid: Pid)
    requires
        0 <= k < s.len(),
    ensures
        records_have_pid(s.subrange(0, k + 1), pid) <==> (records_have_pid(s.subrange(0, k), pid)
            || s[k].pid == pid),
{
    let pre = s.subrange(0, k);
    let ext = s.subrange(0, k + 1);
    assert(ext =~= pre.push(s[k]));
    if records_have_pid(ext, pid) {
        let i = choose|i: int| 0 <= i < ext.len() && ext[i].pid == pid;
        if i < k {
            assert(pre[i].pid == pid);
        }
    }
    if records_have_pid(pre, pid) {
        let i = choose|i: int| 0 <= i < pre.len() && pre[i].pid == pid;
        assert(ext[i].pid == pid);
    }
    if s[k].pid == pid {
        assert(ext[k].pid == pid);
    }
}

/// Marks every held entity as not yet seen by the pass under way.
#[verifier::loop_isolation(false)]
pub fn mark_all_stale(list: &mut Vec<Process>)
    ensures
        final(list)@.len() == old(list)@.len(),
        forall|i: int|
            0 <= i < old(list)@.len() ==> final(list)@[i] == (Process {
                updated: false,
                ..old(list)@[i]
            }),
{
    let mut i: usize = 0;
    while i < list.len()
        invariant
            i <= list@.len(),
            list@.len() == old(list)@.len(),
            forall|j: int|
                0 <= j < i ==> list@[j] == (Process { updated: false, ..old(list)@[j] }),
            forall|j: int| i <= j < list@.len() ==> list@[j] == old(list)@[j],
        decreases list@.len() - i,
    {
        let entry = &mut list[i];
        entry.updated = false;
        i = i + 1;
    }
}

/// Walks the records of one pass: merges those whose pid the table
/// already holds, and stages a fresh entity for each unknown pid. The
/// staged entities are returned and inserted only after eviction, so
/// insertion never interleaves with the walk.
#[verifier::loop_isolation(false)]
pub fn merge_pass(
    list: &mut Vec<Process>,
    records: &Vec<ProcessRecord>,
    inherit: Option<&ProcessIdentity>,
    parent_memory: u64,
    parent_virtual_memory: u64,
    total_time: u64,
    max_cpu: u64,
) -> (staged: Vec<Process>)
    requires
        pids_unique(old(list)@),
        record_pids_unique(records@),
    ensures
        final(list)@.len() == old(list)@.len(),
        forall|i: int|
            #![trigger final(list)@[i]]
            0 <= i < old(list)@.len() ==> final(list)@[i] == (
            if records_have_pid(records@, old(list)@[i].pid) {
                spec_merged(
                    old(list)@[i],
                    spec_find_record(records@, old(list)@[i].pid)->Some_0,
                    parent_memory,
                    parent_virtual_memory,
                    total_time,
                    max_cpu,
                )
            } else {
                old(list)@[i]
            }),
        forall|j: int|
            #![trigger staged@[j]]
            0 <= j < staged@.len() ==> records_have_pid(records@, staged@[j].pid)
                && !table_has_pid(old(list)@, staged@[j].pid) && spec_created_ok(
                staged@[j],
                spec_find_record(records@, staged@[j].pid)->Some_0,
                spec_inherit(inherit),
                parent_memory,
                parent_virtual_memory,
            ),
        forall|p: Pid|
            records_have_pid(records@, p) && !table_has_pid(old(list)@, p) ==> table_has_pid(
                staged@,
                p,
            ),
        pids_unique(staged@),
{
    let mut staged: Vec<Process> = Vec::new();
    let mut k: usize = 0;
    while k < records.len()
        invariant
            k <= records@.len(),
            list@.len() == old(list)@.len(),
            forall|i: int|
                #![trigger list@[i]]
                0 <= i < list@.len() ==> list@[i] == (
                if records_have_pid(records@.subrange(0, k as int), old(list)@[i].pid) {
                    spec_merged(
                        old(list)@[i],
                        spec_find_record(records@, old(list)@[i].pid)->Some_0,
                        parent_memory,
                        parent_virtual_memory,
                        total_time,
                        max_cpu,
                    )
                } else {
                    old(list)@[i]
                }),
            forall|j: int|
                #![trigger staged@[j]]
                0 <= j < staged@.len() ==> records_have_pid(
                    records@.subrange(0, k as int),
                    staged@[j].pid,
                ) && !table_has_pid(old(list)@, staged@[j].pid) && spec_created_ok(
                    staged@[j],
                    spec_find_record(records@, staged@[j].pid)->Some_0,
                    spec_inherit(inherit),
                    parent_memory,
                    parent_virtual_memory,
                ),
            forall|p: Pid|
                records_have_pid(records@.subrange(0, k as int), p) && !table_has_pid(
                    old(list)@,
                    p,
                ) ==> table_has_pid(staged@, p),
            pids_unique(staged@),
        decreases records@.len() - k,
    {
        let rec = &records[k];
        proof {
            lemma_find_record_at(records@, k as int);
            if records_have_pid(records@.subrange(0, k as int), rec.pid) {
                let i = choose|i: int|
                    0 <= i < k && records@.subrange(0, k as int)[i].pid == rec.pid;
                assert(records@[i].pid == records@[k as int].pid);
                assert(false);
            }
        }
        let found = find_pid_index(list, rec.pid);
        match found {
            Some(i) => {
                proof {
                    assert(list@[i as int].pid == old(list)@[i as int].pid);
                    assert(list@[i as int] == old(list)@[i as int]);
                }
                let ghost pre_loop = list@;
                let entry = &mut list[i];
                merge_record(
                    entry,
                    rec,
                    parent_memory,
                    parent_virtual_memory,
                    total_time,
                    max_cpu,
                );
                proof {
                    assert(table_has_pid(old(list)@, rec.pid)) by {
                        assert(old(list)@[i as int].pid == rec.pid);
                    }
                    assert forall|j: int| 0 <= j < list@.len() implies list@[j] == (
                    if records_have_pid(
                        records@.subrange(0, k as int + 1),
                        old(list)@[j].pid,
                    ) {
                        spec_merged(
                            old(list)@[j],
                            spec_find_record(records@, old(list)@[j].pid)->Some_0,
                            parent_memory,
                            parent_virtual_memory,
                            total_time,
                            max_cpu,
                        )
                    } else {
                        old(list)@[j]
                    }) by {
                        lemma_records_prefix_extend(records@, k as int, old(list)@[j].pid);
                        if j != i {
                            assert(list@[j] == pre_loop[j]);
                            assert(old(list)@[j].pid != old(list)@[i as int].pid);
                        }
                    }
                    assert forall|p: Pid|
                        records_have_pid(records@.subrange(0, k as int + 1), p)
                            && !table_has_pid(old(list)@, p) implies table_has_pid(
                        staged@,
                        p,
                    ) by {
                        lemma_records_prefix_extend(records@, k as int, p);
                    }
                    assert forall|j: int| 0 <= j < staged@.len() implies records_have_pid(
                        records@.subrange(0, k as int + 1),
                        #[trigger] staged@[j].pid,
                    ) by {
                        lemma_records_prefix_extend(records@, k as int, staged@[j].pid);
                    }
                }
            },
            None => {
                proof {
                    assert forall|j: int|
                        0 <= j < old(list)@.len() implies #[trigger] old(
                        list,
                    )@[j].pid != rec.pid by {
                        assert(list@[j].pid == old(list)@[j].pid);
                    }
                }
                let created = create_process(
                    rec,
                    inherit,
                    parent_memory,
                    parent_virtual_memory,
                    total_time,
                    max_cpu,
                );
                let ghost staged_pre = staged@;
                staged.push(created);
                proof {
                    assert forall|j: int| 0 <= j < staged@.len() implies records_have_pid(
                        records@.subrange(0, k as int + 1),
                        #[trigger] staged@[j].pid,
                    ) && !table_has_pid(old(list)@, staged@[j].pid) && spec_created_ok(
                        staged@[j],
                        spec_find_record(records@, staged@[j].pid)->Some_0,
                        spec_inherit(inherit),
                        parent_memory,
                        parent_virtual_memory,
                    ) by {
                        lemma_records_prefix_extend(records@, k as int, staged@[j].pid);
                        if j < staged_pre.len() {
                            assert(staged@[j] == staged_pre[j]);
                        } else {
                            assert(staged@[j] == created);
                            assert(records@.subrange(0, k as int + 1)[k as int].pid == rec.pid);
                        }
                    }
                    assert forall|p: Pid|
                        records_have_pid(records@.subrange(0, k as int + 1), p)
                            && !table_has_pid(old(list)@, p) implies table_has_pid(
                        staged@,
                        p,
                    ) by {
                        lemma_records_prefix_extend(records@, k as int, p);
                        if p == rec.pid {
                            assert(staged@[staged@.len() - 1].pid == p);
                        } else {
                            assert(records_have_pid(records@.subrange(0, k as int), p));
                            assert(table_has_pid(staged_pre, p));
                            let j = choose|j: int|
                                0 <= j < staged_pre.len() && staged_pre[j].pid == p;
                            assert(staged@[j].pid == p);
                        }
                    }
                    assert(pids_unique(staged@)) by {
                        assert forall|j: int|
                            0 <= j < staged_pre.len() implies #[trigger] staged_pre[j].pid
                            != created.pid by {
                            if staged_pre[j].pid == rec.pid {
                                assert(records_have_pid(
                                    records@.subrange(0, k as int),
                                    staged_pre[j].pid,
                                ));
                            }
                        }
                        assert forall|m: int, n: int|
                            0 <= m < n < staged@.len() implies staged@[m].pid
                            != staged@[n].pid by {
                            if n < staged_pre.len() {
                                assert(staged_pre[m].pid != staged_pre[n].pid);
                            } else {
                                assert(staged@[n] == created);
                                assert(staged@[m] == staged_pre[m]);
                            }
                        }
                    }
                }
            },
        }
        k = k + 1;
    }
    proof {
        assert(records@.subrange(0, records@.len() as int) =~= records@);
    }
    staged
}

/// Removes every entity the pass under way did not see. Runs strictly
/// after the walk over the records, never interleaved with it, so an
/// entity created mid-pass is never evicted by mistake.
#[verifier::loop_isolation(false)]
pub fn evict_stale(list: &mut Vec<Process>)
    ensures
        final(list)@ == old(list)@.filter(updated_pred()),
{
    let ghost orig = list@;
    let mut kept: Vec<Process> = Vec::new();
    while list.len() > 0
        invariant
            list@.len() <= orig.len(),
            list@ == orig.subrange(orig.len() as int - list@.len() as int, orig.len() as int),
            kept@ == orig.subrange(0, orig.len() as int - list@.len() as int).filter(
                updated_pred(),
            ),
        decreases list@.len(),
    {
        let ghost k = orig.len() as int - list@.len() as int;
        let p = list.remove(0);
        proof {
            assert(p == orig[k]);
            assert(orig.subrange(0, k + 1) =~= orig.subrange(0, k).push(orig[k]));
            lemma_filter_push(orig.subrange(0, k), orig[k], updated_pred());
            assert(list@ =~= orig.subrange(k + 1, orig.len() as int));
        }
        if has_been_updated(&p) {
            kept.push(p);
        }
    }
    proof {
        assert(orig.subrange(0, orig.len() as int) =~= orig);
    }
    *list = kept;
}

} // verus!

verus! {

/// Every entity of the table reports a CPU usage within the cap.
pub open spec fn cpu_usages_bounded(s: Seq<Process>, max_cpu: u64) -> bool {
    forall|i: int| 0 <= i < s.len() ==> s[i].cpu_usage <= max_cpu
}

/// The CPU usage derived from tick samples never exceeds the cap.
pub proof fn lemma_cpu_usage_bounded(
    utime: u64,
    old_utime: u64,
    stime: u64,
    old_stime: u64,
    total_time: u64,
    max_value: u64,
)
    ensures
        spec_cpu_usage(utime, old_utime, stime, old_stime, total_time, max_value) <= max_value,
{
    if total_time != 0 {
        let used = spec_sat_sub(utime, old_utime) + spec_sat_sub(stime, old_stime);
        let scaled = used * (crate::process::CPU_USAGE_SCALE as int);
        assert(scaled >= 0);
        vstd::arithmetic::div_mod::lemma_div_pos_is_pos(scaled, total_time as int);
    }
}

/// Merging keeps the CPU usage within the cap whenever the entity
/// already was within it.
pub proof fn lemma_merged_cpu_bounded(p: Process, r: ProcessRecord, total_time: u64, max_cpu: u64)
    requires
        p.cpu_usage <= max_cpu,
    ensures
        spec_merged_cpu(p, r, total_time, max_cpu) <= max_cpu,
{
    match r.cpu_usage {
        Some(_) => {},
        None => {
            lemma_cpu_usage_bounded(r.utime, p.utime, r.stime, p.stime, total_time, max_cpu);
        },
    }
}

/// What one full refresh pass guarantees of the table it rewrote:
/// unique pids; every entity marked as seen; the table holds exactly
/// the pids the records listed; every CPU usage within the cap; and
/// every entity either the merge of the old entity with its record
/// (identity and start time kept) or a freshly created entity
/// (reporting zero CPU usage).
pub open spec fn spec_table_refreshed(
    old_list: Seq<Process>,
    new_list: Seq<Process>,
    records: Seq<ProcessRecord>,
    inherit: Option<ProcessIdentity>,
    parent_memory: u64,
    parent_virtual_memory: u64,
    total_time: u64,
    max_cpu: u64,
) -> bool {
    &&& pids_unique(new_list)
    &&& forall|i: int| 0 <= i < new_list.len() ==> #[trigger] new_list[i].updated
    &&& forall|p: Pid|
        #![trigger table_has_pid(new_list, p)]
        #![trigger records_have_pid(records, p)]
        table_has_pid(new_list, p) <==> records_have_pid(records, p)
    &&& cpu_usages_bounded(new_list, max_cpu)
    &&& forall|i: int|
        #![trigger new_list[i]]
        0 <= i < new_list.len() ==> (if table_has_pid(old_list, new_list[i].pid) {
            new_list[i] == spec_merged(
                spec_find_process(old_list, new_list[i].pid)->Some_0,
                spec_find_record(records, new_list[i].pid)->Some_0,
                parent_memory,
                parent_virtual_memory,
                total_time,
                max_cpu,
            )
        } else {
            spec_created_ok(
                new_list[i],
                spec_find_record(records, new_list[i].pid)->Some_0,
                inherit,
                parent_memory,
                parent_virtual_memory,
            )
        })
}

/// One full refresh pass over a process table: mark everything as not
/// yet seen, walk the raw records (merge known pids, stage new ones),
/// evict what the pass did not see, and insert the staged entities.
pub fn refresh_table(
    list: &mut Vec<Process>,
    records: &Vec<ProcessRecord>,
    inherit: Option<&ProcessIdentity>,
    parent_memory: u64,
    parent_virtual_memory: u64,
    total_time: u64,
    max_cpu: u64,
)
    requires
        pids_unique(old(list)@),
        record_pids_unique(records@),
        cpu_usages_bounded(old(list)@, max_cpu),
    ensures
        spec_table_refreshed(
            old(list)@,
            final(list)@,
            records@,
            spec_inherit(inherit),
            parent_memory,
            parent_virtual_memory,
            total_time,
            max_cpu,
        ),
{
    let ghost orig = list@;
    mark_all_stale(list);
    let ghost marked = list@;
    proof {
        assert forall|i: int, j: int|
            0 <= i < j < marked.len() implies marked[i].pid != marked[j].pid by {
            assert(marked[i].pid == orig[i].pid);
            assert(marked[j].pid == orig[j].pid);
        }
        // Marking changes no pid, so both lists hold the same pids.
        assert forall|p: Pid| #[trigger] table_has_pid(marked, p) implies table_has_pid(
            orig,
            p,
        ) by {
            let i = choose|i: int| 0 <= i < marked.len() && marked[i].pid == p;
            assert(orig[i].pid == p);
        }
        assert forall|p: Pid| #[trigger] table_has_pid(orig, p) implies table_has_pid(
            marked,
            p,
        ) by {
            let i = choose|i: int| 0 <= i < orig.len() && orig[i].pid == p;
            assert(marked[i].pid == p);
        }
    }
    let mut staged = merge_pass(
        list,
        records,
        inherit,
        parent_memory,
        parent_virtual_memory,
        total_time,
        max_cpu,
    );
    let ghost merged_list = list@;
    let ghost staged_snapshot = staged@;
    proof {
        // The merged entity is the same whether the stale mark was set
        // before the merge or not: the mark only clears `updated`,
        // which merging overwrites.
        assert forall|i: int| 0 <= i < merged_list.len() implies merged_list[i] == (
        if records_have_pid(records@, orig[i].pid) {
            spec_merged(
                orig[i],
                spec_find_record(records@, orig[i].pid)->Some_0,
                parent_memory,
                parent_virtual_memory,
                total_time,
                max_cpu,
            )
        } else {
            marked[i]
        }) by {
            assert(marked[i] == (Process { updated: false, ..orig[i] }));
            assert(marked[i].pid == orig[i].pid);
            if records_have_pid(records@, orig[i].pid) {
                let r = spec_find_record(records@, orig[i].pid)->Some_0;
                assert(spec_merged(
                    marked[i],
                    r,
                    parent_memory,
                    parent_virtual_memory,
                    total_time,
                    max_cpu,
                ) == spec_merged(
                    orig[i],
                    r,
                    parent_memory,
                    parent_virtual_memory,
                    total_time,
                    max_cpu,
                ));
            }
        }
        assert forall|i: int, j: int|
            0 <= i < j < merged_list.len() implies merged_list[i].pid != merged_list[j].pid by {
            assert(merged_list[i].pid == orig[i].pid);
            assert(merged_list[j].pid == orig[j].pid);
        }
    }
    evict_stale(list);
    let ghost kept = list@;
    list.append(&mut staged);
    proof {
        let pred = updated_pred();
        lemma_filter_pids_unique(merged_list, pred);
        // Every kept entity is a merged survivor: it is seen, follows
        // its record, and keeps the identity of the old entity.
        assert forall|i: int|
            #![trigger kept[i]]
            0 <= i < kept.len() implies (table_has_pid(orig, kept[i].pid)
            && records_have_pid(records@, kept[i].pid) && kept[i].updated && kept[i].cpu_usage
            <= max_cpu && kept[i] == spec_merged(
            spec_find_process(orig, kept[i].pid)->Some_0,
            spec_find_record(records@, kept[i].pid)->Some_0,
            parent_memory,
            parent_virtual_memory,
            total_time,
            max_cpu,
        )) by {
            merged_list.lemma_filter_pred(pred, i);
            lemma_filter_elem(merged_list, pred, i);
            let j = choose|j: int| 0 <= j < merged_list.len() && merged_list[j] == kept[i];
            if !records_have_pid(records@, orig[j].pid) {
                assert(merged_list[j] == marked[j]);
                assert(!kept[i].updated);
            }
            let r = spec_find_record(records@, orig[j].pid)->Some_0;
            assert(merged_list[j] == spec_merged(
                orig[j],
                r,
                parent_memory,
                parent_virtual_memory,
                total_time,
                max_cpu,
            ));
            assert(kept[i].pid == orig[j].pid);
            lemma_find_process_at(orig, j);
            lemma_find_record_at(records@, choose|m: int|
                0 <= m < records@.len() && records@[m].pid == orig[j].pid);
            lemma_merged_cpu_bounded(orig[j], r, total_time, max_cpu);
            assert(table_has_pid(orig, kept[i].pid)) by {
                assert(orig[j].pid == kept[i].pid);
            }
        }
        let fin = final(list)@;
        assert(fin == kept + staged_snapshot);
        // Seen flag, CPU bound, and the per-entity characterization.
        assert forall|i: int| 0 <= i < fin.len() implies (#[trigger] fin[i].updated
            && fin[i].cpu_usage <= max_cpu) by {
            if i < kept.len() {
                assert(fin[i] == kept[i]);
            } else {
                assert(fin[i] == staged_snapshot[i - kept.len()]);
            }
        }
        assert forall|i: int|
            0 <= i < fin.len() implies (if table_has_pid(orig, #[trigger] fin[i].pid) {
            fin[i] == spec_merged(
                spec_find_process(orig, fin[i].pid)->Some_0,
                spec_find_record(records@, fin[i].pid)->Some_0,
                parent_memory,
                parent_virtual_memory,
                total_time,
                max_cpu,
            )
        } else {
            spec_created_ok(
                fin[i],
                spec_find_record(records@, fin[i].pid)->Some_0,
                spec_inherit(inherit),
                parent_memory,
                parent_virtual_memory,
            )
        }) by {
            if i < kept.len() {
                assert(fin[i] == kept[i]);
            } else {
                assert(fin[i] == staged_snapshot[i - kept.len()]);
            }
        }
        // The table holds exactly the pids of the records.
        assert forall|p: Pid| #[trigger]
            records_have_pid(records@, p) implies table_has_pid(fin, p) by {
            if table_has_pid(orig, p) {
                let j = choose|j: int| 0 <= j < orig.len() && orig[j].pid == p;
                assert(merged_list[j] == spec_merged(
                    orig[j],
                    spec_find_record(records@, orig[j].pid)->Some_0,
                    parent_memory,
                    parent_virtual_memory,
                    total_time,
                    max_cpu,
                ));
                assert(merged_list[j].updated);
                merged_list.lemma_filter_contains(pred, j);
                let i = choose|i: int| 0 <= i < kept.len() && kept[i] == merged_list[j];
                assert(fin[i].pid == p);
            } else {
                assert(table_has_pid(staged_snapshot, p));
                let j = choose|j: int|
                    0 <= j < staged_snapshot.len() && staged_snapshot[j].pid == p;
                assert(fin[kept.len() + j].pid == p);
            }
        }
        assert forall|p: Pid| #[trigger]
            table_has_pid(fin, p) implies records_have_pid(records@, p) by {
            let i = choose|i: int| 0 <= i < fin.len() && fin[i].pid == p;
            if i < kept.len() {
                assert(fin[i] == kept[i]);
            } else {
                assert(fin[i] == staged_snapshot[i - kept.len()]);
            }
        }
        // Unique pids: survivors keep old pids, staged pids are new.
        assert forall|m: int, n: int|
            0 <= m < n < fin.len() implies fin[m].pid != fin[n].pid by {
            if m < kept.len() && n < kept.len() {
                assert(kept[m].pid != kept[n].pid);
            } else if m >= kept.len() && n >= kept.len() {
                assert(staged_snapshot[m - kept.len()].pid != staged_snapshot[n - kept.len()].pid);
            } else {
                assert(fin[m] == kept[m]);
                assert(fin[n] == staged_snapshot[n - kept.len()]);
                assert(table_has_pid(orig, kept[m].pid));
                assert(!table_has_pid(orig, staged_snapshot[n - kept.len()].pid));
            }
        }
    }
}

} // verus!

verus! {

/// Refreshes the task rows nested under one process with the same
/// engine: the owner's identity is inherited by newly created rows
/// (thread rows share the executable, directories and environment of
/// their process), and the owner's own memory readings are subtracted
/// from cumulative task readings, clamped at zero.
pub fn refresh_tasks(
    owner: &mut Process,
    records: &Vec<ProcessRecord>,
    total_time: u64,
    max_cpu: u64,
)
    requires
        pids_unique(old(owner).tasks@),
        record_pids_unique(records@),
        cpu_usages_bounded(old(owner).tasks@, max_cpu),
    ensures
        *final(owner) == (Process { tasks: final(owner).tasks, ..*old(owner) }),
        spec_table_refreshed(
            old(owner).tasks@,
            final(owner).tasks@,
            records@,
            Some(old(owner).identity),
            old(owner).memory,
            old(owner).virtual_memory,
            total_time,
            max_cpu,
        ),
{
    let parent_memory = owner.memory;
    let parent_virtual_memory = owner.virtual_memory;
    let inherited = owner.identity.duplicate();
    refresh_table(
        &mut owner.tasks,
        records,
        Some(&inherited),
        parent_memory,
        parent_virtual_memory,
        total_time,
        max_cpu,
    );
    proof {
        let old_tasks = old(owner).tasks@;
        let new_tasks = final(owner).tasks@;
        // A row created with the copied identity carries the same
        // values as one created with the owner's identity itself.
        assert forall|i: int|
            #![trigger new_tasks[i]]
            0 <= i < new_tasks.len() implies (if table_has_pid(old_tasks, new_tasks[i].pid) {
            new_tasks[i] == spec_merged(
                spec_find_process(old_tasks, new_tasks[i].pid)->Some_0,
                spec_find_record(records@, new_tasks[i].pid)->Some_0,
                parent_memory,
                parent_virtual_memory,
                total_time,
                max_cpu,
            )
        } else {
            spec_created_ok(
                new_tasks[i],
                spec_find_record(records@, new_tasks[i].pid)->Some_0,
                Some(old(owner).identity),
                parent_memory,
                parent_virtual_memory,
            )
        }) by {
            if !table_has_pid(old_tasks, new_tasks[i].pid) {
                assert(spec_created_ok(
                    new_tasks[i],
                    spec_find_record(records@, new_tasks[i].pid)->Some_0,
                    Some(inherited),
                    parent_memory,
                    parent_virtual_memory,
                ));
                assert(same_identity(new_tasks[i].identity, inherited));
                assert(same_identity(inherited, old(owner).identity));
            }
        }
    }
}

} // verus!
