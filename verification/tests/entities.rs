use sysinfo::budget::FileHandleBudget;
use sysinfo::freebsd::{is_kernel_worker, record_from_kproc, KinfoProc};
use sysinfo::process::{
    apply_disk_sample, compute_cpu_usage, has_been_updated, set_time, CounterSample, Process,
    ProcessIdentity,
};
use sysinfo::signal::{signal_code, Signal};
use sysinfo::status::{status_from_code, status_from_kproc_code, status_from_state_char, ProcessStatus};

fn kproc() -> KinfoProc {
    KinfoProc {
        pid: 2,
        ppid: 1,
        flag: 0,
        stat: 3,
        pctcpu: 1024,
        size: 5000,
        rssize: 10,
        runtime_us: 25_000,
        start_sec: 777,
        ruid: 1000,
        rgid: 1001,
        inblock: 7,
        oublock: 9,
    }
}

#[test]
fn numeric_state_codes_map_to_the_shared_enumeration() {
    assert_eq!(status_from_code(1), ProcessStatus::Idle);
    assert_eq!(status_from_code(2), ProcessStatus::Run);
    assert_eq!(status_from_code(3), ProcessStatus::Sleep);
    assert_eq!(status_from_code(4), ProcessStatus::Stop);
    assert_eq!(status_from_code(5), ProcessStatus::Zombie);
    assert_eq!(status_from_code(42), ProcessStatus::Unknown(42));
    assert_eq!(status_from_kproc_code(6), ProcessStatus::Dead);
    assert_eq!(status_from_kproc_code(7), ProcessStatus::LockBlocked);
    assert_eq!(status_from_state_char('R'), ProcessStatus::Run);
    assert_eq!(status_from_state_char('?'), ProcessStatus::Unknown(63));
}

#[test]
fn states_have_display_names() {
    assert_eq!(ProcessStatus::Idle.display_name(), "Idle");
    assert_eq!(ProcessStatus::Run.display_name(), "Runnable");
    assert_eq!(ProcessStatus::Sleep.display_name(), "Sleeping");
    assert_eq!(ProcessStatus::Zombie.display_name(), "Zombie");
    assert_eq!(ProcessStatus::LockBlocked.display_name(), "LockBlocked");
    assert_eq!(ProcessStatus::Unknown(9).display_name(), "Unknown");
}

#[test]
fn kernel_workers_are_filtered_but_pid_one_is_kept() {
    let mut k = kproc();
    assert!(!is_kernel_worker(&k));
    k.flag = 0x200;
    assert!(is_kernel_worker(&k));
    k.pid = 1;
    assert!(!is_kernel_worker(&k));
}

#[test]
fn kernel_table_entries_become_records() {
    let r = record_from_kproc(&kproc(), 4096, 2048, ProcessIdentity::empty());
    assert_eq!(r.pid, 2);
    assert_eq!(r.parent, Some(1));
    assert_eq!(r.status, ProcessStatus::Sleep);
    // 1024 of a 2048 fixed-point scale: half a core.
    assert_eq!(r.cpu_usage, Some(5000));
    assert_eq!(r.memory, 40960);
    assert_eq!(r.virtual_memory, 5);
    // Microseconds rounded to the nearest unit: 25000 becomes 3.
    assert_eq!(r.run_time, 3);
    assert_eq!(r.start_time, 777);
    assert_eq!(r.read_bytes, CounterSample::Value(7));
    assert_eq!(r.written_bytes, CounterSample::Value(9));
    assert_eq!(r.identity.uid, 1000);
    assert_eq!(r.identity.gid, 1001);
}

#[test]
fn zero_scale_factor_reads_as_no_usage() {
    let r = record_from_kproc(&kproc(), 4096, 0, ProcessIdentity::empty());
    assert_eq!(r.cpu_usage, Some(0));
}

#[test]
fn orphans_have_no_parent() {
    let mut k = kproc();
    k.ppid = 0;
    let r = record_from_kproc(&k, 4096, 2048, ProcessIdentity::empty());
    assert_eq!(r.parent, None);
}

#[test]
fn time_shift_tracks_the_previous_sample() {
    let mut p = Process::new(1, None, 0);
    set_time(&mut p, 100, 50);
    assert_eq!((p.utime, p.stime, p.old_utime, p.old_stime), (100, 50, 0, 0));
    assert!(has_been_updated(&p));
    set_time(&mut p, 150, 60);
    assert_eq!((p.utime, p.stime, p.old_utime, p.old_stime), (150, 60, 100, 50));
}

#[test]
fn usage_waits_for_a_second_sample() {
    let mut p = Process::new(1, None, 0);
    set_time(&mut p, 100, 50);
    compute_cpu_usage(&mut p, 1000, 10_000);
    // The previous sample is still empty: no usage yet.
    assert_eq!(p.cpu_usage, 0);
    set_time(&mut p, 200, 100);
    compute_cpu_usage(&mut p, 1000, 10_000);
    assert_eq!(p.cpu_usage, 1500);
}

#[test]
fn usage_is_zero_when_no_time_elapsed() {
    let mut p = Process::new(1, None, 0);
    set_time(&mut p, 100, 50);
    set_time(&mut p, 200, 100);
    compute_cpu_usage(&mut p, 0, 10_000);
    assert_eq!(p.cpu_usage, 0);
}

#[test]
fn disk_deltas_never_go_negative() {
    let mut p = Process::new(1, None, 0);
    apply_disk_sample(&mut p, CounterSample::Value(100), CounterSample::Value(40));
    let first = p.disk_usage();
    assert_eq!(first.read_bytes, 100);
    assert_eq!(first.total_read_bytes, 100);
    // The kernel reports a decreased cumulative counter: the delta is
    // clamped at zero, the total reports what the kernel said.
    apply_disk_sample(&mut p, CounterSample::Value(70), CounterSample::Value(90));
    let second = p.disk_usage();
    assert_eq!(second.read_bytes, 0);
    assert_eq!(second.total_read_bytes, 70);
    assert_eq!(second.written_bytes, 50);
    assert_eq!(second.total_written_bytes, 90);
}

#[test]
fn corrupt_and_missing_disk_samples_degrade() {
    let mut p = Process::new(1, None, 0);
    apply_disk_sample(&mut p, CounterSample::Value(100), CounterSample::Value(40));
    apply_disk_sample(&mut p, CounterSample::Corrupt, CounterSample::Missing);
    let u = p.disk_usage();
    // A corrupt sample shifts the window so the delta reads zero; a
    // missing one leaves the pair untouched.
    assert_eq!(u.read_bytes, 0);
    assert_eq!(u.total_read_bytes, 100);
    assert_eq!(u.written_bytes, 40);
    assert_eq!(u.total_written_bytes, 40);
}

#[test]
fn signals_carry_their_platform_numbers() {
    assert_eq!(signal_code(Signal::Hangup), 1);
    assert_eq!(signal_code(Signal::Interrupt), 2);
    assert_eq!(signal_code(Signal::Abort), 6);
    assert_eq!(signal_code(Signal::IOT), 6);
    assert_eq!(signal_code(Signal::Kill), 9);
    assert_eq!(signal_code(Signal::Term), 15);
    assert_eq!(signal_code(Signal::Child), 17);
    assert_eq!(signal_code(Signal::IO), 29);
    assert_eq!(signal_code(Signal::Poll), 29);
    assert_eq!(signal_code(Signal::Power), 30);
    assert_eq!(signal_code(Signal::Sys), 31);
}

#[test]
fn handle_budget_degrades_gracefully_when_exhausted() {
    let mut b = FileHandleBudget::new(2);
    assert!(b.acquire());
    assert!(b.acquire());
    // Exhaustion is not an error: the caller reopens the file each
    // cycle instead of keeping it.
    assert!(!b.acquire());
    assert_eq!(b.remaining(), 0);
    b.release();
    assert!(b.acquire());
}

#[test]
fn new_entities_start_clean_and_seen() {
    let p = Process::new(9, Some(1), 42);
    assert_eq!(p.pid(), 9);
    assert_eq!(p.parent(), Some(1));
    assert_eq!(p.start_time(), 42);
    assert_eq!(p.cpu_usage(), 0);
    assert_eq!(p.run_time(), 0);
    assert!(p.updated);
    assert!(p.tasks().is_empty());
    assert_eq!(p.name(), "");
    assert_eq!(p.uid(), 0);
}
