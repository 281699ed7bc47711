use sysinfo::process::{CounterSample, ProcessIdentity, ProcessRecord};
use sysinfo::status::ProcessStatus;
use sysinfo::system::{System, SystemIdentity};

fn identity(name: &str) -> ProcessIdentity {
    ProcessIdentity {
        name: name.to_owned(),
        cmd: vec![name.to_owned()],
        exe: format!("/bin/{}", name),
        cwd: "/".to_owned(),
        root: "/".to_owned(),
        environ: vec!["HOME=/root".to_owned()],
        uid: 0,
        gid: 0,
    }
}

fn tick_record(pid: i32, utime: u64, stime: u64, name: &str) -> ProcessRecord {
    ProcessRecord {
        pid,
        parent: if pid == 1 { None } else { Some(1) },
        status: ProcessStatus::Run,
        memory: 1024,
        virtual_memory: 2048,
        start_time: 100,
        run_time: 5,
        utime,
        stime,
        cpu_usage: None,
        read_bytes: CounterSample::Value(1000),
        written_bytes: CounterSample::Value(500),
        identity: identity(name),
    }
}

fn fresh_system() -> System {
    System::new(1, 4, 2048, 0, SystemIdentity::unknown())
}

#[test]
fn first_refresh_creates_pid_one_with_zero_usage() {
    let mut s = fresh_system();
    assert!(s.processes().is_empty());
    let records = vec![tick_record(1, 100, 50, "init")];
    s.refresh_processes(&records, 1000);
    assert_eq!(s.processes().len(), 1);
    let p = s.process(1).expect("pid 1 must be in the table");
    assert!(p.updated);
    assert_eq!(p.cpu_usage(), 0);
    assert_eq!(p.name(), "init");
    assert_eq!(p.memory(), 1024);
}

#[test]
fn second_refresh_computes_positive_bounded_usage() {
    let mut s = fresh_system();
    s.refresh_processes(&vec![tick_record(1, 100, 50, "init")], 1000);
    // One second later the counters advanced by 100 + 50 ticks out of
    // 1000 elapsed: fifteen percent, well under one core.
    s.refresh_processes(&vec![tick_record(1, 200, 100, "init")], 1000);
    let p = s.process(1).expect("pid 1 must still be in the table");
    assert_eq!(p.cpu_usage(), 1500);
    assert!(p.cpu_usage() <= 1 * 10_000);
}

#[test]
fn usage_is_capped_at_core_count() {
    let mut s = fresh_system();
    s.refresh_processes(&vec![tick_record(1, 10, 10, "init")], 10);
    // A wild counter jump against a tiny elapsed window would read as
    // far more than one core: the cap absorbs the jitter.
    s.refresh_processes(&vec![tick_record(1, 1_000_000, 0, "init")], 10);
    let p = s.process(1).unwrap();
    assert_eq!(p.cpu_usage(), 10_000);
}

#[test]
fn vanished_pid_is_evicted_without_error() {
    let mut s = fresh_system();
    s.refresh_processes(
        &vec![tick_record(1, 10, 0, "init"), tick_record(2, 20, 0, "worker")],
        100,
    );
    assert_eq!(s.processes().len(), 2);
    // The kernel no longer lists pid 2.
    s.refresh_processes(&vec![tick_record(1, 20, 0, "init")], 100);
    assert_eq!(s.processes().len(), 1);
    assert!(s.process(2).is_none());
    assert!(s.process(1).is_some());
}

#[test]
fn all_entries_are_marked_seen_after_a_pass() {
    let mut s = fresh_system();
    s.refresh_processes(
        &vec![tick_record(1, 1, 0, "a"), tick_record(7, 2, 0, "b"), tick_record(9, 3, 0, "c")],
        50,
    );
    for p in s.processes() {
        assert!(p.updated);
    }
}

#[test]
fn identity_is_resolved_once_and_kept() {
    let mut s = fresh_system();
    s.refresh_processes(&vec![tick_record(3, 1, 0, "first")], 50);
    // The next pass hands in a different identity; an already-known
    // pid keeps the one resolved at creation.
    s.refresh_processes(&vec![tick_record(3, 2, 0, "second")], 50);
    let p = s.process(3).unwrap();
    assert_eq!(p.name(), "first");
}

#[test]
fn single_pid_refresh_is_idempotent() {
    let mut s = fresh_system();
    let rec = tick_record(4, 100, 50, "svc");
    assert!(s.refresh_process(4, Some(&rec), 1000));
    let p = s.process(4).unwrap();
    let before = (
        p.status(),
        p.memory(),
        p.virtual_memory(),
        p.cpu_usage(),
        p.run_time(),
        p.utime,
        p.old_utime,
        p.disk_usage(),
    );
    // Nothing changed in the kernel: the second call reports the pid
    // alive and leaves every field exactly as the first call did.
    assert!(s.refresh_process(4, Some(&rec), 1000));
    let p = s.process(4).unwrap();
    let after = (
        p.status(),
        p.memory(),
        p.virtual_memory(),
        p.cpu_usage(),
        p.run_time(),
        p.utime,
        p.old_utime,
        p.disk_usage(),
    );
    assert_eq!(before, after);
    assert!(p.updated);
}

#[test]
fn single_pid_refresh_without_record_reports_dead() {
    let mut s = fresh_system();
    assert!(!s.refresh_process(99, None, 100));
    assert!(s.process(99).is_none());
}

#[test]
fn tasks_inherit_owner_identity() {
    let mut s = fresh_system();
    s.refresh_processes(&vec![tick_record(5, 10, 0, "owner")], 100);
    let task = ProcessRecord {
        parent: Some(5),
        identity: identity("ignored"),
        ..tick_record(50, 1, 0, "ignored")
    };
    assert!(s.refresh_process_tasks(5, &vec![task], 100));
    let p = s.process(5).unwrap();
    assert_eq!(p.tasks().len(), 1);
    let t = &p.tasks()[0];
    assert_eq!(t.pid(), 50);
    // The row inherits the owner's identity by copy instead of
    // re-resolving it.
    assert_eq!(t.name(), "owner");
    assert_eq!(t.exe(), "/bin/owner");
}

#[test]
fn task_memory_is_corrected_by_the_owner_reading() {
    let mut s = fresh_system();
    let mut owner = tick_record(6, 10, 0, "owner");
    owner.memory = 1000;
    owner.virtual_memory = 4000;
    s.refresh_processes(&vec![owner], 100);
    // A task row reporting cumulative values gets the owner's own
    // reading subtracted; one reporting less is clamped at zero.
    let mut big = tick_record(60, 1, 0, "t");
    big.memory = 1500;
    big.virtual_memory = 6000;
    let mut small = tick_record(61, 1, 0, "t");
    small.memory = 300;
    small.virtual_memory = 100;
    assert!(s.refresh_process_tasks(6, &vec![big, small], 100));
    let p = s.process(6).unwrap();
    let t0 = &p.tasks()[0];
    let t1 = &p.tasks()[1];
    assert_eq!(t0.memory(), 500);
    assert_eq!(t0.virtual_memory(), 2000);
    assert_eq!(t1.memory(), 0);
    assert_eq!(t1.virtual_memory(), 0);
}

#[test]
fn vanished_task_rows_are_evicted() {
    let mut s = fresh_system();
    s.refresh_processes(&vec![tick_record(8, 10, 0, "owner")], 100);
    s.refresh_process_tasks(8, &vec![tick_record(80, 1, 0, "t"), tick_record(81, 1, 0, "t")], 100);
    assert_eq!(s.process(8).unwrap().tasks().len(), 2);
    s.refresh_process_tasks(8, &vec![tick_record(81, 2, 0, "t")], 100);
    let p = s.process(8).unwrap();
    assert_eq!(p.tasks().len(), 1);
    assert_eq!(p.tasks()[0].pid(), 81);
}

#[test]
fn direct_kernel_usage_is_taken_and_capped_on_merge() {
    let mut s = fresh_system();
    let mut rec = tick_record(2, 0, 0, "kvm");
    rec.cpu_usage = Some(2500);
    s.refresh_processes(&vec![rec.clone()], 0);
    // First observation always reads zero.
    assert_eq!(s.process(2).unwrap().cpu_usage(), 0);
    s.refresh_processes(&vec![rec.clone()], 0);
    assert_eq!(s.process(2).unwrap().cpu_usage(), 2500);
    let mut wild = rec.clone();
    wild.cpu_usage = Some(90_000);
    s.refresh_processes(&vec![wild], 0);
    assert_eq!(s.process(2).unwrap().cpu_usage(), 10_000);
}
