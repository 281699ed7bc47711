//! The signals a caller can send to a process, and their numbers on
//! the platform this library's process runner targets.

use vstd::prelude::*;

verus! {

/// A signal to send to a process.
#[derive(Clone, Copy, Debug, PartialEq, Eq, Structural)]
pub enum Signal {
    /// Hangup.
    Hangup,
    /// Terminal interrupt.
    Interrupt,
    /// Terminal quit.
    Quit,
    /// Illegal instruction.
    Illegal,
    /// Trace or breakpoint trap.
    Trap,
    /// Abort.
    Abort,
    /// The historical alias of the abort signal.
    IOT,
    /// Bus error.
    Bus,
    /// Floating-point exception.
    FloatingPointException,
    /// Kill, not catchable.
    Kill,
    /// First user-defined signal.
    User1,
    /// Invalid memory reference.
    Segv,
    /// Second user-defined signal.
    User2,
    /// Broken pipe.
    Pipe,
    /// Timer alarm.
    Alarm,
    /// Termination request.
    Term,
    /// Child stopped or terminated.
    Child,
    /// Continue when stopped.
    Continue,
    /// Stop, not catchable.
    Stop,
    /// Terminal stop.
    TSTP,
    /// Background read from the terminal.
    TTIN,
    /// Background write to the terminal.
    TTOU,
    /// Urgent data on a socket.
    Urgent,
    /// CPU time limit exceeded.
    XCPU,
    /// File size limit exceeded.
    XFSZ,
    /// Virtual timer alarm.
    VirtualAlarm,
    /// Profiling timer alarm.
    Profiling,
    /// Window size change.
    Winch,
    /// Input or output possible.
    IO,
    /// Pollable event.
    Poll,
    /// Power failure.
    Power,
    /// Bad system call.
    Sys,
}

/// The number each signal carries on this platform.
pub open spec fn spec_signal_code(s: Signal) -> i32 {
    match s {
        Signal::Hangup => 1,
        Signal::Interrupt => 2,
        Signal::Quit => 3,
        Signal::Illegal => 4,
        Signal::Trap => 5,
        Signal::Abort => 6,
        Signal::IOT => 6,
        Signal::Bus => 7,
        Signal::FloatingPointException => 8,
        Signal::Kill => 9,
        Signal::User1 => 10,
        Signal::Segv => 11,
        Signal::User2 => 12,
        Signal::Pipe => 13,
        Signal::Alarm => 14,
        Signal::Term => 15,
        Signal::Child => 17,
        Signal::Continue => 18,
        Signal::Stop => 19,
        Signal::TSTP => 20,
        Signal::TTIN => 21,
        Signal::TTOU => 22,
        Signal::Urgent => 23,
        Signal::XCPU => 24,
        Signal::XFSZ => 25,
        Signal::VirtualAlarm => 26,
        Signal::Profiling => 27,
        Signal::Winch => 28,
        Signal::IO => 29,
        Signal::Poll => 29,
        Signal::Power => 30,
        Signal::Sys => 31,
    }
}

/// Maps a signal to its number on this platform. The caller that
/// performs the send hands this number to the kernel.
pub fn signal_code(s: Signal) -> (r: i32)
    ensures
        r == spec_signal_code(s),
{
    match s {
        Signal::Hangup => 1,
        Signal::Interrupt => 2,
        Signal::Quit => 3,
        Signal::Illegal => 4,
        Signal::Trap => 5,
        Signal::Abort => 6,
        Signal::IOT => 6,
        Signal::Bus => 7,
        Signal::FloatingPointException => 8,
        Signal::Kill => 9,
        Signal::User1 => 10,
        Signal::Segv => 11,
        Signal::User2 => 12,
        Signal::Pipe => 13,
        Signal::Alarm => 14,
        Signal::Term => 15,
        Signal::Child => 17,
        Signal::Continue => 18,
        Signal::Stop => 19,
        Signal::TSTP => 20,
        Signal::TTIN => 21,
        Signal::TTOU => 22,
        Signal::Urgent => 23,
        Signal::XCPU => 24,
        Signal::XFSZ => 25,
        Signal::VirtualAlarm => 26,
        Signal::Profiling => 27,
        Signal::Winch => 28,
        Signal::IO => 29,
        Signal::Poll => 29,
        Signal::Power => 30,
        Signal::Sys => 31,
    }
}

} // verus!
