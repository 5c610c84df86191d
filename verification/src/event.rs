//! The control block of one outstanding I/O operation.

use vstd::prelude::*;
use crate::flags::EventFlags;
use crate::timer::TimerData;

verus! {

/// What a task finds when it is resumed with a failed operation.
#[derive(Clone, Copy, Debug)]
pub enum IoError {
    /// The timer fired before the operation completed.
    TimedOut,
    /// The operating system's error code.
    Os(i32),
}

/// A task handed back to the scheduler, with the error that it will observe
/// on its next resume, if any.
#[derive(Clone, Copy, Debug)]
pub struct Resume {
    pub co: u64,
    pub error: Option<IoError>,
}

/// One notification of the operating system's reactor: the kinds that became
/// ready and the token that was registered with them.
#[derive(Clone, Copy, Debug)]
pub struct SysEvent {
    pub events: u32,
    pub data: u64,
}

/// The record that joins an outstanding operation to the task that waits
/// for it.
#[derive(Clone, Copy, Debug)]
pub struct EventData {
    /// The identity that notifications refer back to; never `0`, which marks
    /// a wakeup.
    pub token: u64,
    pub fd: i32,
    pub interest: EventFlags,
    /// The handle of the timeout, present iff one is registered.
    pub timer: Option<u64>,
    /// The slot of the parked task.
    pub co: Option<u64>,
    /// Nonzero once readiness has arrived.
    pub io_flag: u32,
}

/// The record of an operation of which only the token and the descriptor
/// are known.
pub open spec fn bare(token: u64, fd: i32) -> EventData {
    EventData { token, fd, interest: EventFlags { bits: 0 }, timer: None, co: None, io_flag: 0 }
}

/// The record with its task slot emptied.
pub open spec fn slot_taken(e: EventData) -> EventData {
    EventData { co: None, ..e }
}

/// The record with its task slot and its timer emptied.
pub open spec fn swept(e: EventData) -> EventData {
    EventData { co: None, timer: None, ..e }
}

impl EventData {
    /// A fresh record: no timer, no parked task, no readiness seen.
    pub fn new(token: u64, fd: i32, interest: EventFlags) -> (e: EventData)
        ensures
            e == (EventData { token, fd, interest, timer: None, co: None, io_flag: 0 }),
    {
        EventData { token, fd, interest, timer: None, co: None, io_flag: 0 }
    }

    /// The payload of a timer that guards this operation.
    pub fn timer_data(&self) -> (d: TimerData)
        ensures
            d.event_data == self.token,
    {
        TimerData { event_data: self.token }
    }

    /// Parks `co` in the slot and hands back what the slot held.
    pub fn publish(&mut self, co: u64) -> (prev: Option<u64>)
        ensures
            prev == old(self).co,
            *final(self) == (EventData { co: Some(co), ..*old(self) }),
    {
        let prev = self.co;
        self.co = Some(co);
        prev
    }

    /// Empties the slot and hands back what it held: the first taker gets
    /// the task, every later one gets nothing.
    pub fn take_co(&mut self) -> (co: Option<u64>)
        ensures
            co == old(self).co,
            *final(self) == slot_taken(*old(self)),
    {
        let co = self.co;
        self.co = None;
        co
    }

    /// Reads the readiness flag and clears it.
    pub fn swap_io_flag(&mut self) -> (flag: u32)
        ensures
            flag == old(self).io_flag,
            *final(self) == (EventData { io_flag: 0, ..*old(self) }),
    {
        let flag = self.io_flag;
        self.io_flag = 0;
        flag
    }
}

/// What a resumed task makes of the error left for it: the error if there
/// is one, success if not.
pub fn co_io_result(para: Option<IoError>) -> (r: Result<(), IoError>)
    ensures
        r == (match para {
            Some(e) => Err::<(), IoError>(e),
            None => Ok::<(), IoError>(()),
        }),
{
    match para {
        Some(err) => Err(err),
        None => Ok(()),
    }
}

} // verus!
