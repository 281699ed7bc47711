//! The shared enumeration of process states, and the mappings from
//! the platform-specific codes onto it.

use vstd::prelude::*;

verus! {

/// The state of a process, normalized across platforms.
#[derive(Clone, Copy, Debug, PartialEq, Eq, Structural)]
pub enum ProcessStatus {
    /// Waiting in uninterruptible disk sleep (or the platform's idle state).
    Idle,
    /// Runnable or running.
    Run,
    /// Interruptible sleep.
    Sleep,
    /// Stopped by a signal.
    Stop,
    /// Terminated but not reaped.
    Zombie,
    /// Stopped by a tracer.
    Tracing,
    /// Dead.
    Dead,
    /// Wakekill.
    Wakekill,
    /// Waking.
    Waking,
    /// Parked.
    Parked,
    /// Blocked on a kernel lock.
    LockBlocked,
    /// A state code this library does not know, kept as it came.
    Unknown(u32),
}

/// The numeric state codes some kernels report: 1 idle, 2 run,
/// 3 sleep, 4 stop, 5 zombie; everything else is kept as unknown.
pub open spec fn spec_status_from_code(status: u32) -> ProcessStatus {
    if status == 1 {
        ProcessStatus::Idle
    } else if status == 2 {
        ProcessStatus::Run
    } else if status == 3 {
        ProcessStatus::Sleep
    } else if status == 4 {
        ProcessStatus::Stop
    } else if status == 5 {
        ProcessStatus::Zombie
    } else {
        ProcessStatus::Unknown(status)
    }
}

/// Maps a numeric kernel state code to the shared enumeration.
pub fn status_from_code(status: u32) -> (r: ProcessStatus)
    ensures
        r == spec_status_from_code(status),
{
    match status {
        1 => ProcessStatus::Idle,
        2 => ProcessStatus::Run,
        3 => ProcessStatus::Sleep,
        4 => ProcessStatus::Stop,
        5 => ProcessStatus::Zombie,
        x => ProcessStatus::Unknown(x),
    }
}

/// The kernel process-table state codes of the kvm-based platform:
/// beyond the five shared codes, 6 is a dead (waiting) process and 7
/// one blocked on a kernel lock.
pub open spec fn spec_status_from_kproc_code(status: u32) -> ProcessStatus {
    if status == 6 {
        ProcessStatus::Dead
    } else if status == 7 {
        ProcessStatus::LockBlocked
    } else {
        spec_status_from_code(status)
    }
}

/// Maps a kvm-platform process-table state code to the shared enumeration.
pub fn status_from_kproc_code(status: u32) -> (r: ProcessStatus)
    ensures
        r == spec_status_from_kproc_code(status),
{
    match status {
        6 => ProcessStatus::Dead,
        7 => ProcessStatus::LockBlocked,
        x => status_from_code(x),
    }
}

/// The single-letter state codes of the procfs stat record.
pub open spec fn spec_status_from_state_char(status: char) -> ProcessStatus {
    if status == 'R' {
        ProcessStatus::Run
    } else if status == 'S' {
        ProcessStatus::Sleep
    } else if status == 'D' {
        ProcessStatus::Idle
    } else if status == 'Z' {
        ProcessStatus::Zombie
    } else if status == 'T' {
        ProcessStatus::Stop
    } else if status == 't' {
        ProcessStatus::Tracing
    } else if status == 'X' || status == 'x' {
        ProcessStatus::Dead
    } else if status == 'K' {
        ProcessStatus::Wakekill
    } else if status == 'W' {
        ProcessStatus::Waking
    } else if status == 'P' {
        ProcessStatus::Parked
    } else {
        ProcessStatus::Unknown(status as u32)
    }
}

/// Maps a procfs stat state letter to the shared enumeration.
pub fn status_from_state_char(status: char) -> (r: ProcessStatus)
    ensures
        r == spec_status_from_state_char(status),
{
    match status {
        'R' => ProcessStatus::Run,
        'S' => ProcessStatus::Sleep,
        'D' => ProcessStatus::Idle,
        'Z' => ProcessStatus::Zombie,
        'T' => ProcessStatus::Stop,
        't' => ProcessStatus::Tracing,
        'X' | 'x' => ProcessStatus::Dead,
        'K' => ProcessStatus::Wakekill,
        'W' => ProcessStatus::Waking,
        'P' => ProcessStatus::Parked,
        x => ProcessStatus::Unknown(x as u32),
    }
}

impl ProcessStatus {
    /// The human-readable name of the state.
    pub fn display_name(&self) -> (r: String)
        ensures
            self is Idle ==> r@ == "Idle"@,
            self is Run ==> r@ == "Runnable"@,
            self is Sleep ==> r@ == "Sleeping"@,
            self is Stop ==> r@ == "Stopped"@,
            self is Zombie ==> r@ == "Zombie"@,
            self is Tracing ==> r@ == "Tracing"@,
            self is Dead ==> r@ == "Dead"@,
            self is Wakekill ==> r@ == "Wakekill"@,
            self is Waking ==> r@ == "Waking"@,
            self is Parked ==> r@ == "Parked"@,
            self is LockBlocked ==> r@ == "LockBlocked"@,
            self is Unknown ==> r@ == "Unknown"@,
    {
        match *self {
            ProcessStatus::Idle => "Idle".to_owned(),
            ProcessStatus::Run => "Runnable".to_owned(),
            ProcessStatus::Sleep => "Sleeping".to_owned(),
            ProcessStatus::Stop => "Stopped".to_owned(),
            ProcessStatus::Zombie => "Zombie".to_owned(),
            ProcessStatus::Tracing => "Tracing".to_owned(),
            ProcessStatus::Dead => "Dead".to_owned(),
            ProcessStatus::Wakekill => "Wakekill".to_owned(),
            ProcessStatus::Waking => "Waking".to_owned(),
            ProcessStatus::Parked => "Parked".to_owned(),
            ProcessStatus::LockBlocked => "LockBlocked".to_owned(),
            ProcessStatus::Unknown(_) => "Unknown".to_owned(),
        }
    }
}

} // verus!
