//! What the layer asks of the host: its clocks and the scheduler.
use vstd::prelude::*;
use crate::errno::Errno;

verus! {

/// The clocks a guest can read.
#[derive(PartialEq, Eq, Structural, Clone, Copy, Debug)]
pub enum Clock {
    Realtime,
    Monotonic,
    ProcessCputime,
    ThreadCputime,
}

/// The clock that a WASI clock number names.
pub open spec fn clock_of_id(id: u32) -> Option<Clock> {
    if id == 0 {
        Some(Clock::Realtime)
    } else if id == 1 {
        Some(Clock::Monotonic)
    } else if id == 2 {
        Some(Clock::ProcessCputime)
    } else if id == 3 {
        Some(Clock::ThreadCputime)
    } else {
        None
    }
}

pub fn clock_from_id(id: u32) -> (r: Option<Clock>)
    ensures
        r == clock_of_id(id),
{
    if id == 0 {
        Some(Clock::Realtime)
    } else if id == 1 {
        Some(Clock::Monotonic)
    } else if id == 2 {
        Some(Clock::ProcessCputime)
    } else if id == 3 {
        Some(Clock::ThreadCputime)
    } else {
        None
    }
}

/// Relies on nix::time::clock_gettime: reads the host clock as seconds and
/// nanoseconds, or fails. The reading depends on the moment of the call, so
/// nothing is promised of it.
#[verifier::external_body]
fn read_host_clock(clock: Clock) -> (r: Option<(i64, i64)>) {
    let id = match clock {
        Clock::Realtime => nix::time::ClockId::CLOCK_REALTIME,
        Clock::Monotonic => nix::time::ClockId::CLOCK_MONOTONIC,
        Clock::ProcessCputime => nix::time::ClockId::CLOCK_PROCESS_CPUTIME_ID,
        Clock::ThreadCputime => nix::time::ClockId::CLOCK_THREAD_CPUTIME_ID,
    };
    match nix::time::clock_gettime(id) {
        Ok(ts) => Some((ts.tv_sec() as i64, ts.tv_nsec() as i64)),
        Err(_) => None,
    }
}

/// Relies on nix::sched::sched_yield: yields the processor; tells whether the
/// host call succeeded.
#[verifier::external_body]
fn host_sched_yield() -> (r: bool) {
    nix::sched::sched_yield().is_ok()
}

pub const NANOS_PER_SEC: u64 = 1_000_000_000;

/// A clock reading in nanoseconds, when it is not negative and fits in 64 bits.
pub open spec fn nanos_of(sec: i64, nsec: i64) -> Option<u64> {
    if 0 <= sec && 0 <= nsec < NANOS_PER_SEC && sec * NANOS_PER_SEC + nsec <= u64::MAX {
        Some((sec * NANOS_PER_SEC + nsec) as u64)
    } else {
        None
    }
}

pub fn timespec_to_nanos(sec: i64, nsec: i64) -> (r: Option<u64>)
    ensures
        r == nanos_of(sec, nsec),
{
    if sec < 0 || nsec < 0 || nsec >= NANOS_PER_SEC as i64 {
        return None;
    }
    let s = sec as u64;
    let n = nsec as u64;
    let lim = (u64::MAX - n) / NANOS_PER_SEC;
    if s > lim {
        assert(s * NANOS_PER_SEC + n > u64::MAX) by (nonlinear_arith)
            requires
                s > lim,
                lim as int == (u64::MAX - n) as int / 1_000_000_000int,
                NANOS_PER_SEC == 1_000_000_000,
                n < NANOS_PER_SEC,
        ;
        return None;
    }
    assert(s * NANOS_PER_SEC + n <= u64::MAX) by (nonlinear_arith)
        requires
            s <= lim,
            lim as int == (u64::MAX - n) as int / 1_000_000_000int,
            NANOS_PER_SEC == 1_000_000_000,
            n < NANOS_PER_SEC,
    ;
    Some(s * NANOS_PER_SEC + n)
}

/// Reads clock `id` in nanoseconds. An unknown clock is `Invalid`; a host
/// failure or a reading out of range is `Io`. The precision is a hint that
/// the host may ignore.
pub fn clock_time_get(id: u32, precision: u64) -> (r: Result<u64, Errno>)
    ensures
        clock_of_id(id) is None <==> r == Err::<u64, Errno>(Errno::Invalid),
        r matches Err(e) ==> e == Errno::Invalid || e == Errno::Io,
        r matches Ok(t) ==> exists|sec: i64, nsec: i64| nanos_of(sec, nsec) == Some(t),
{
    let clock = match clock_from_id(id) {
        None => {
            return Err(Errno::Invalid);
        },
        Some(c) => c,
    };
    match read_host_clock(clock) {
        None => Err(Errno::Io),
        Some((sec, nsec)) => match timespec_to_nanos(sec, nsec) {
            None => Err(Errno::Io),
            Some(t) => Ok(t),
        },
    }
}

/// The wall clock in nanoseconds, or zero when the host cannot tell.
pub fn now_nanos() -> (r: u64)
    ensures
        r == 0 || exists|sec: i64, nsec: i64| nanos_of(sec, nsec) == Some(r),
{
    match clock_time_get(0, 0) {
        Ok(t) => t,
        Err(_) => 0,
    }
}

/// Yields the processor to other threads.
pub fn sched_yield() -> (r: Errno)
    ensures
        r == Errno::Success || r == Errno::Io,
{
    if host_sched_yield() {
        Errno::Success
    } else {
        Errno::Io
    }
}

} // verus!
