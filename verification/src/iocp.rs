//! The completion-port backend: what the status of a dequeued completion
//! means for the task, and what an expired timer asks for.

use vstd::prelude::*;
use crate::event::{swept, EventData, IoError, Resume};
use crate::shard::{handed, has_token, slot_of_token, timers_swept, ShardState, SingleSelector};
use crate::timer::TimerData;

verus! {

/// The status of an operation that completed cleanly.
pub const NO_ERROR: u32 = 0;

/// The status of an operation that was cancelled.
pub const ERROR_OPERATION_ABORTED: u32 = 995;

/// The kernel's status of a cancelled operation.
pub const STATUS_CANCELLED: u32 = 0xC000_0120;

/// The most completions dequeued in one batch.
pub const EVENTS_BUF_LEN: usize = 1024;

/// One entry of the completion queue.
#[derive(Clone, Copy, Debug)]
pub struct CompletionNotice {
    pub bytes: u32,
    pub key: usize,
    /// The token of the operation, or `0` for none.
    pub overlapped: u64,
    /// The status that the operation ended with.
    pub status: u32,
}

/// The entry that is posted to wake the reactor: no bytes, key `0`, no
/// operation.
pub fn wakeup_status() -> (n: CompletionNotice)
    ensures
        n == (CompletionNotice { bytes: 0, key: 0, overlapped: 0, status: 0 }),
{
    CompletionNotice { bytes: 0, key: 0, overlapped: 0, status: 0 }
}

/// A status as the signed error code of the operating system.
pub open spec fn os_code(status: u32) -> int {
    if status <= i32::MAX {
        status as int
    } else {
        status - 0x1_0000_0000
    }
}

/// What the status of a completion leaves for the task: nothing for a clean
/// completion, `TimedOut` for a cancelled operation, the error code else.
pub open spec fn status_error(status: u32) -> Option<IoError> {
    if status == ERROR_OPERATION_ABORTED || status == STATUS_CANCELLED {
        Some(IoError::TimedOut)
    } else if status == NO_ERROR {
        None
    } else {
        Some(IoError::Os(os_code(status) as i32))
    }
}

/// What the status of a completion leaves for the task.
pub fn completion_error(status: u32) -> (r: Option<IoError>)
    ensures
        r == status_error(status),
{
    if status == ERROR_OPERATION_ABORTED || status == STATUS_CANCELLED {
        Some(IoError::TimedOut)
    } else if status == NO_ERROR {
        None
    } else if status <= 0x7fff_ffff {
        Some(IoError::Os(status as i32))
    } else {
        let below: u32 = u32::MAX - status;
        Some(IoError::Os(-(below as i32) - 1))
    }
}

/// What one completion does. The token `0` is a wakeup and does nothing.
/// A token that names a recorded operation with a parked task empties
/// its slot, sweeps its timer and hands the task out with what the status
/// leaves for it. Any other completion changes nothing.
pub open spec fn on_completion(s: ShardState, token: u64, status: u32) -> (
    ShardState,
    Option<Resume>,
) {
    if token == 0 || !has_token(s.events, token) {
        (s, None)
    } else {
        let i = slot_of_token(s.events, token);
        let e = s.events[i];
        match e.co {
            None => (s, None),
            Some(c) => (
                ShardState {
                    events: s.events.update(i, swept(e)),
                    timers: timers_swept(s.timers, e),
                    ..s
                },
                Some(Resume { co: c, error: status_error(status) }),
            ),
        }
    }
}

/// What one expired timer does on this backend: the operation loses its
/// timer and keeps its task, and its descriptor is named for cancelling, so
/// that the completion itself reports the timeout. A cleared payload, or
/// one whose operation is gone, does nothing.
pub open spec fn on_port_timeout(s: ShardState, data: TimerData) -> (ShardState, Option<i32>) {
    if data.event_data == 0 || !has_token(s.events, data.event_data) {
        (s, None)
    } else {
        let i = slot_of_token(s.events, data.event_data);
        let e = s.events[i];
        (
            ShardState { events: s.events.update(i, (EventData { timer: None, ..e })), ..s },
            Some(e.fd),
        )
    }
}

/// Applies one dequeued completion to the shard.
pub fn handle_completion(shard: &mut SingleSelector, token: u64, status: u32) -> (r: Option<
    Resume,
>)
    requires
        old(shard).wf(),
    ensures
        final(shard).wf(),
        final(shard).epfd == old(shard).epfd,
        final(shard).evfd == old(shard).evfd,
        (final(shard)@, r) == on_completion(old(shard)@, token, status),
{
    if token == 0 {
        return None;
    }
    match shard.handle_event(crate::event::SysEvent { events: 0, data: token }) {
        None => None,
        Some(resume) => Some(Resume { co: resume.co, error: completion_error(status) }),
    }
}

/// Applies one expired timer to the shard and returns the descriptor whose
/// outstanding operation is to be cancelled, if any.
pub fn timeout_handler(shard: &mut SingleSelector, data: TimerData) -> (r: Option<i32>)
    requires
        old(shard).wf(),
    ensures
        final(shard).wf(),
        final(shard).epfd == old(shard).epfd,
        final(shard).evfd == old(shard).evfd,
        (final(shard)@, r) == on_port_timeout(old(shard)@, data),
{
    if data.event_data == 0 {
        return None;
    }
    match shard.find_token(data.event_data) {
        None => None,
        Some(i) => {
            let e = shard.events[i];
            shard.put(i, EventData { timer: None, ..e });
            Some(e.fd)
        },
    }
}

/// A batch of completions applied in order, and the tasks handed out, in
/// order.
pub open spec fn on_completions(s: ShardState, batch: Seq<CompletionNotice>) -> (
    ShardState,
    Seq<Resume>,
)
    decreases batch.len(),
{
    if batch.len() == 0 {
        (s, Seq::empty())
    } else {
        let first = on_completion(s, batch[0].overlapped, batch[0].status);
        let rest = on_completions(first.0, batch.subrange(1, batch.len() as int));
        (rest.0, handed(first.1) + rest.1)
    }
}

/// Applies a batch of dequeued completions to the shard, in order, and
/// collects the tasks to hand to the scheduler.
pub fn handle_completions(shard: &mut SingleSelector, batch: &Vec<CompletionNotice>) -> (out: Vec<
    Resume,
>)
    requires
        old(shard).wf(),
    ensures
        final(shard).wf(),
        final(shard).epfd == old(shard).epfd,
        final(shard).evfd == old(shard).evfd,
        final(shard)@ == on_completions(old(shard)@, batch@).0,
        out@ == on_completions(old(shard)@, batch@).1,
{
    let ghost start = shard@;
    let mut out: Vec<Resume> = Vec::new();
    let mut i: usize = 0;
    proof {
        assert(batch@.subrange(0, batch@.len() as int) =~= batch@);
        assert(out@ + on_completions(start, batch@).1 =~= on_completions(start, batch@).1);
    }
    while i < batch.len()
        invariant
            i <= batch@.len(),
            shard.wf(),
            shard.epfd == old(shard).epfd,
            shard.evfd == old(shard).evfd,
            on_completions(start, batch@).0 == on_completions(
                shard@,
                batch@.subrange(i as int, batch@.len() as int),
            ).0,
            on_completions(start, batch@).1 == out@ + on_completions(
                shard@,
                batch@.subrange(i as int, batch@.len() as int),
            ).1,
        decreases batch@.len() - i,
    {
        let ghost t = batch@.subrange(i as int, batch@.len() as int);
        let ghost before = shard@;
        let ghost collected = out@;
        let r = handle_completion(shard, batch[i].overlapped, batch[i].status);
        match r {
            Some(x) => {
                out.push(x);
            },
            None => {},
        }
        proof {
            assert(t[0] == batch@[i as int]);
            assert(t.subrange(1, t.len() as int) =~= batch@.subrange(
                i + 1,
                batch@.len() as int,
            ));
            let rest = on_completions(shard@, t.subrange(1, t.len() as int));
            assert(on_completions(before, t).1 == handed(r) + rest.1);
            assert(out@ =~= collected + handed(r));
            assert(collected + (handed(r) + rest.1) =~= (collected + handed(r)) + rest.1);
        }
        i += 1;
    }
    proof {
        assert(out@ + Seq::<Resume>::empty() =~= out@);
    }
    out
}

} // verus!
