use sysinfo::cpu::{usage_from_ticks, Processor};
use sysinfo::memory::{
    free_memory, swap_info, total_memory, used_memory, MemoryReadings, SwapDevice,
};
use sysinfo::system::{release_prefix, resolve_cpu_count, resolve_fscale, System, SystemIdentity};

fn readings() -> MemoryReadings {
    MemoryReadings {
        physical_memory: Some(8000),
        active_pages: Some(10),
        wired_pages: Some(5),
        inactive_pages: Some(1),
        cached_pages: Some(2),
        free_pages: Some(3),
        buffer_bytes: Some(100),
    }
}

#[test]
fn memory_totals_follow_their_formulas() {
    let r = readings();
    assert_eq!(total_memory(&r), 8);
    assert_eq!(used_memory(&r, 4), 60);
    assert_eq!(free_memory(&r, 4), 124);
}

#[test]
fn absent_counters_read_as_zero() {
    // A kernel parameter missing on this machine is a typed absence:
    // the refresh uses the zero default and goes on.
    let r = MemoryReadings {
        physical_memory: None,
        active_pages: None,
        wired_pages: None,
        inactive_pages: None,
        cached_pages: None,
        free_pages: None,
        buffer_bytes: None,
    };
    assert_eq!(total_memory(&r), 0);
    assert_eq!(used_memory(&r, 4), 0);
    assert_eq!(free_memory(&r, 4), 0);
    let mut s = System::new(1, 4, 2048, 0, SystemIdentity::unknown());
    s.refresh_memory(&r, &Vec::new());
    assert_eq!(s.total_memory(), 0);
    assert_eq!(s.used_memory(), 0);
    assert_eq!(s.free_memory(), 0);
    assert_eq!(s.total_swap(), 0);
}

#[test]
fn absent_kernel_parameters_resolve_to_defaults() {
    assert_eq!(resolve_fscale(None), 2048);
    assert_eq!(resolve_fscale(Some(512)), 512);
    assert_eq!(resolve_cpu_count(None, Some(8)), 1);
    assert_eq!(resolve_cpu_count(Some(0), Some(8)), 1);
    assert_eq!(resolve_cpu_count(Some(1), Some(8)), 8);
    assert_eq!(resolve_cpu_count(Some(1), None), 1);
    assert_eq!(resolve_cpu_count(Some(1), Some(0)), 1);
}

#[test]
fn swap_totals_sum_devices_and_never_wrap() {
    let devices = vec![
        SwapDevice { used_pages: 10, total_pages: 20 },
        SwapDevice { used_pages: 5, total_pages: 10 },
    ];
    assert_eq!(swap_info(&devices, 4), (60, 120));
    // A device reporting more use than size is held at the total, so
    // free swap cannot wrap below zero.
    let lying = vec![SwapDevice { used_pages: 50, total_pages: 10 }];
    assert_eq!(swap_info(&lying, 4), (40, 40));
}

#[test]
fn memory_refresh_resolves_the_total_once() {
    let mut s = System::new(1, 4, 2048, 0, SystemIdentity::unknown());
    s.refresh_memory(&readings(), &Vec::new());
    assert_eq!(s.total_memory(), 8);
    assert_eq!(s.used_memory(), 60);
    assert_eq!(s.free_memory(), 124);
    let mut second = readings();
    second.physical_memory = Some(16000);
    s.refresh_memory(&second, &Vec::new());
    // The total was resolved by the first refresh and is kept.
    assert_eq!(s.total_memory(), 8);
}

#[test]
fn free_swap_is_total_minus_used() {
    let mut s = System::new(1, 4, 2048, 0, SystemIdentity::unknown());
    let devices = vec![SwapDevice { used_pages: 10, total_pages: 30 }];
    s.refresh_memory(&readings(), &devices);
    assert_eq!(s.used_swap(), 40);
    assert_eq!(s.total_swap(), 120);
    assert_eq!(s.free_swap(), 80);
}

#[test]
fn tick_window_usage_is_the_busy_share() {
    let old = vec![0, 0, 0, 0, 0];
    let new = vec![50, 0, 50, 0, 100];
    // 100 busy ticks out of 200 elapsed: half of one core.
    assert_eq!(usage_from_ticks(&new, &old, 0), 5000);
}

#[test]
fn empty_tick_window_reads_as_zero_usage() {
    let same = vec![10, 20, 30, 40, 50];
    assert_eq!(usage_from_ticks(&same, &same, 0), 0);
}

#[test]
fn decreasing_tick_counters_never_underflow() {
    let old = vec![100, 100, 100, 100, 100];
    let new = vec![50, 0, 0, 0, 200];
    // Every per-bucket delta is clamped at zero; only the idle bucket
    // advanced, so the busy share is zero.
    assert_eq!(usage_from_ticks(&new, &old, 0), 0);
}

#[test]
fn cpu_refresh_fills_global_and_per_core_usage() {
    let mut s = System::new(2, 4, 2048, 0, SystemIdentity::unknown());
    s.init_processors(vec![
        Processor::new("cpu 0".to_owned(), "acme".to_owned(), 1200),
        Processor::new("cpu 1".to_owned(), "acme".to_owned(), 1200),
    ]);
    s.refresh_cpu(vec![100, 0, 100, 0, 200], vec![100, 0, 0, 0, 100, 0, 0, 100, 0, 300]);
    assert_eq!(s.global_processor_info().cpu_usage, 5000);
    assert_eq!(s.processors()[0].cpu_usage, 5000);
    assert_eq!(s.processors()[1].cpu_usage, 2500);
    // The fresh samples became the previous ones: an unchanged second
    // sample shows an empty window.
    s.refresh_cpu(vec![100, 0, 100, 0, 200], vec![100, 0, 0, 0, 100, 0, 0, 100, 0, 300]);
    assert_eq!(s.global_processor_info().cpu_usage, 0);
    assert_eq!(s.processors()[0].cpu_usage, 0);
}

#[test]
fn uptime_is_anchored_at_boot() {
    let s = System::new(1, 4, 2048, 1000, SystemIdentity::unknown());
    assert_eq!(s.boot_time(), 1000);
    assert_eq!(s.uptime(1500), 500);
    assert_eq!(s.uptime(500), 0);
}

#[test]
fn release_strings_are_cut_before_the_dash() {
    assert_eq!(release_prefix(&b"13.0-RELEASE".to_vec()), b"13.0".to_vec());
    assert_eq!(release_prefix(&b"6.1.0".to_vec()), b"6.1.0".to_vec());
    assert_eq!(release_prefix(&b"".to_vec()), b"".to_vec());
}

#[test]
fn default_snapshot_is_a_single_core_blank() {
    let s = System::default();
    assert_eq!(s.processes().len(), 0);
    assert_eq!(s.total_memory(), 0);
    assert_eq!(s.physical_core_count(), Some(1));
    assert!(s.name().is_none());
}
