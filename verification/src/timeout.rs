//! Conversion of a nanosecond timeout into the unit and range of the
//! operating system's wait call.

use vstd::prelude::*;

verus! {

pub const NANOS_PER_MILLI: u64 = 1_000_000;

/// Nanoseconds in whole milliseconds, rounded up.
pub open spec fn millis_of(ns: u64) -> int {
    (ns as int + 999_999) / 1_000_000
}

/// The smaller of two integers.
pub open spec fn least(a: int, b: int) -> int {
    if a <= b {
        a
    } else {
        b
    }
}

/// The epoll timeout for a wait of at most `timeout` nanoseconds: `-1`
/// (wait until something happens) for `None`, else the milliseconds rounded
/// up and clamped to the largest wait the call takes, which is that of a
/// 32-bit signed number of milliseconds.
pub open spec fn epoll_wait_millis(timeout: Option<u64>) -> int {
    match timeout {
        None => -1,
        Some(ns) => least(millis_of(ns), i32::MAX as int),
    }
}

/// The completion-port timeout for a wait of at most `timeout` nanoseconds:
/// none for `None`, else the milliseconds rounded up and clamped to 32 bits.
pub open spec fn port_wait_millis(timeout: Option<u64>) -> Option<int> {
    match timeout {
        None => None,
        Some(ns) => Some(least(millis_of(ns), u32::MAX as int)),
    }
}

/// Rounds a count of nanoseconds up to whole milliseconds.
pub fn ns_to_ms(ns: u64) -> (ms: u64)
    ensures
        ms as int == millis_of(ns),
{
    let q: u64 = ns / NANOS_PER_MILLI;
    let r: u64 = ns % NANOS_PER_MILLI;
    if r == 0 {
        q
    } else {
        q + 1
    }
}

/// The timeout argument of the epoll wait.
pub fn epoll_timeout_ms(timeout: Option<u64>) -> (ms: isize)
    ensures
        ms as int == epoll_wait_millis(timeout),
{
    match timeout {
        None => -1,
        Some(ns) => {
            let ms: u64 = ns_to_ms(ns);
            if ms > 0x7fff_ffff {
                0x7fff_ffff
            } else {
                ms as isize
            }
        },
    }
}

/// The timeout argument of the completion-port wait.
pub fn port_timeout_ms(timeout: Option<u64>) -> (ms: Option<u32>)
    ensures
        match ms {
            None => port_wait_millis(timeout).is_none(),
            Some(v) => port_wait_millis(timeout) == Some(v as int),
        },
{
    match timeout {
        None => None,
        Some(ns) => {
            let ms: u64 = ns_to_ms(ns);
            if ms > u32::MAX as u64 {
                Some(u32::MAX)
            } else {
                Some(ms as u32)
            }
        },
    }
}

/// The time left until a deadline, as the timeout of the next wait: none
/// without a deadline, `0` for one that has passed.
pub open spec fn time_left(deadline: Option<u64>, now: u64) -> Option<u64> {
    match deadline {
        None => None,
        Some(d) => Some(if d <= now { 0u64 } else { (d - now) as u64 }),
    }
}

/// The timeout of the next wait, given the deadline of the earliest timer.
pub fn time_until(deadline: Option<u64>, now: u64) -> (left: Option<u64>)
    ensures
        left == time_left(deadline, now),
{
    match deadline {
        None => None,
        Some(d) => if d <= now {
            Some(0)
        } else {
            Some(d - now)
        },
    }
}

} // verus!
