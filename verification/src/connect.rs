//! The connect request: how a task drives a nonblocking connect to its end.

use vstd::prelude::*;
use crate::event::{bare, EventData, IoError, Resume, SysEvent};
use crate::laws::law_published_task_is_found;
use crate::selector::Selector;
use crate::shard::{arm_wakes, on_arm, on_event, on_publish, on_wakeup, shard_of, WakeRequest};

verus! {

/// The error code of a connect that is under way.
pub const EINPROGRESS: i32 = 115;

/// The error code of a connect that was asked for again while under way.
pub const EALREADY: i32 = 114;

/// The timeout of one wait for the connect, in nanoseconds: ten seconds.
pub const CONNECT_TIMEOUT_NS: u64 = 10_000_000_000;

/// What one connect call returned: success, or a failure with the error
/// code of the operating system where it has one.
#[derive(Clone, Copy, Debug)]
pub enum ConnectOutcome {
    Connected,
    Failed(Option<i32>),
}

/// Why no socket could be made for any address.
#[derive(Clone, Copy, Debug)]
pub enum ResolveError {
    /// There was no address.
    NoAddress,
    /// No socket could be made; the failure for the last address, with its
    /// error code where it has one.
    Socket(Option<i32>),
}

/// What the request asks of its driver next.
#[derive(Clone, Copy, Debug)]
pub enum DoneAction {
    /// The request ends with this outcome of the connect call.
    Finish(ConnectOutcome),
    /// The request ends with the error that was left for the task.
    Fail(IoError),
    /// Call connect again and report the outcome.
    Probe,
    /// Readiness arrived meanwhile: look at the task's error, then probe,
    /// without yielding.
    Again,
    /// Yield the task until it is resumed.
    Park,
}

/// Whether the first `n` attempts all failed.
pub open spec fn all_failed(attempts: Seq<Option<Option<i32>>>, n: int) -> bool {
    forall|k: int| 0 <= k < n ==> (#[trigger] attempts[k]).is_some()
}

/// The address to connect to, given for each address in turn whether a
/// socket could be made for it (`None`) or why not: the first for which one
/// could be made. Where none could, the last failure; where there is no
/// address, that.
pub open spec fn chosen(attempts: Seq<Option<Option<i32>>>) -> Result<int, ResolveError> {
    if attempts.len() == 0 {
        Err(ResolveError::NoAddress)
    } else if all_failed(attempts, attempts.len() as int) {
        Err(ResolveError::Socket(attempts.last().unwrap()))
    } else {
        Ok(choose|i: int| 0 <= i < attempts.len() && attempts[i].is_none() && all_failed(attempts, i))
    }
}

/// Picks the address to connect to; see [`chosen`].
pub fn choose_address(attempts: &Vec<Option<Option<i32>>>) -> (r: Result<usize, ResolveError>)
    ensures
        match r {
            Ok(i) => chosen(attempts@) == Ok::<int, ResolveError>(i as int) && i < attempts@.len()
                && attempts@[i as int].is_none() && all_failed(attempts@, i as int),
            Err(e) => chosen(attempts@) == Err::<int, ResolveError>(e),
        },
{
    let mut i: usize = 0;
    while i < attempts.len() && attempts[i].is_some()
        invariant
            i <= attempts@.len(),
            all_failed(attempts@, i as int),
        decreases attempts@.len() - i,
    {
        i += 1;
    }
    if i < attempts.len() {
        proof {
            let j = choose|j: int|
                0 <= j < attempts@.len() && attempts@[j].is_none() && all_failed(attempts@, j);
            assert(attempts@[i as int].is_none());
            assert(j == i) by {
                if j < i {
                    assert(attempts@[j].is_some());
                }
                if i < j {
                    assert(attempts@[i as int].is_some());
                }
            }
        }
        Ok(i)
    } else if i == 0 {
        Err(ResolveError::NoAddress)
    } else {
        match attempts[i - 1] {
            Some(code) => Err(ResolveError::Socket(code)),
            None => Err(ResolveError::NoAddress),
        }
    }
}

/// Whether the outcome says that the connect is still under way.
pub open spec fn pending(out: ConnectOutcome) -> bool {
    out == ConnectOutcome::Failed(Some(EINPROGRESS)) || out == ConnectOutcome::Failed(
        Some(EALREADY),
    )
}

/// Whether the outcome says that the connect is still under way.
pub fn is_pending(out: ConnectOutcome) -> (r: bool)
    ensures
        r == pending(out),
{
    match out {
        ConnectOutcome::Failed(Some(code)) => code == EINPROGRESS || code == EALREADY,
        _ => false,
    }
}

/// A connect request.
pub struct TcpStreamConnect {
    /// The record of the operation; its readiness flag is set by whoever
    /// sees the socket become ready.
    pub io_data: EventData,
    /// The outcome, once the connect has ended.
    pub ret: Option<ConnectOutcome>,
}

impl TcpStreamConnect {
    /// The request after its first connect call: still to be waited for iff
    /// the call said that the connect is in progress.
    pub fn new(io_data: EventData, first: ConnectOutcome) -> (c: TcpStreamConnect)
        ensures
            c.io_data == io_data,
            c.ret == (if first == ConnectOutcome::Failed(Some(EINPROGRESS)) {
                None
            } else {
                Some(first)
            }),
    {
        let ret = match first {
            ConnectOutcome::Failed(Some(code)) => if code == EINPROGRESS {
                None
            } else {
                Some(first)
            },
            _ => Some(first),
        };
        TcpStreamConnect { io_data, ret }
    }

    /// The first step of waiting for the end: a request that has ended
    /// finishes with its outcome at once; any other goes on as after a
    /// resume, with the error left for the task, if any.
    pub fn done(&self, para: Option<IoError>) -> (a: DoneAction)
        ensures
            a == (match self.ret {
                Some(out) => DoneAction::Finish(out),
                None => match para {
                    Some(e) => DoneAction::Fail(e),
                    None => DoneAction::Probe,
                },
            }),
    {
        match self.ret {
            Some(out) => DoneAction::Finish(out),
            None => Self::on_resume(para),
        }
    }

    /// The step after a resume: fail with the error left for the task, or
    /// probe where there is none.
    pub fn on_resume(para: Option<IoError>) -> (a: DoneAction)
        ensures
            a == (match para {
                Some(e) => DoneAction::Fail(e),
                None => DoneAction::Probe,
            }),
    {
        match para {
            Some(e) => DoneAction::Fail(e),
            None => DoneAction::Probe,
        }
    }

    /// The step after a probe. An outcome that is not pending ends the
    /// request and leaves the readiness flag alone. A pending one clears
    /// the flag, and goes round again where it was set, or parks the task
    /// where it was not.
    pub fn on_probe(&mut self, out: ConnectOutcome) -> (a: DoneAction)
        ensures
            final(self).ret == old(self).ret,
            !pending(out) ==> a == DoneAction::Finish(out) && final(self).io_data == old(
                self,
            ).io_data,
            pending(out) ==> final(self).io_data == (EventData {
                io_flag: 0,
                ..old(self).io_data
            }) && a == (if old(self).io_data.io_flag != 0 {
                DoneAction::Again
            } else {
                DoneAction::Park
            }),
    {
        if !is_pending(out) {
            return DoneAction::Finish(out);
        }
        if self.io_data.swap_io_flag() != 0 {
            DoneAction::Again
        } else {
            DoneAction::Park
        }
    }

    /// Parks the task `co` against this request: arms the ten-second timer,
    /// publishes the task, then looks at the readiness flag once more. If
    /// readiness has arrived already, the task is taken back out and handed
    /// to the scheduler, once and without an error, since no notification
    /// will come. A request with the token `0` can be parked nowhere: its
    /// task is handed straight back. Returns the request that pokes the
    /// shard, if the timer is its earliest, and the task to schedule, if
    /// any.
    pub fn subscribe(&mut self, selector: &mut Selector, co: u64, now: u64) -> (r: (
        Option<WakeRequest>,
        Option<Resume>,
    ))
        requires
            old(selector).wf(),
            old(selector).shards()[shard_of(
                old(self).io_data.fd,
                old(selector).shards().len() as int,
            )]@.next_id < u64::MAX,
        ensures
            final(selector).wf(),
            final(selector).same_but(
                old(selector),
                shard_of(old(self).io_data.fd, old(selector).shards().len() as int),
            ),
            final(self).ret == old(self).ret,
            ({
                let io = old(self).io_data;
                let id = shard_of(io.fd, old(selector).shards().len() as int);
                let before = old(selector).shards()[id]@;
                let wakes = arm_wakes(before, now, CONNECT_TIMEOUT_NS);
                let armed = on_arm(before, io, now, CONNECT_TIMEOUT_NS);
                let parked = on_publish(
                    if wakes { on_wakeup(armed) } else { armed },
                    bare(io.token, io.fd),
                    co,
                );
                let last = on_event(parked, (SysEvent { events: 0, data: io.token }));
                &&& final(self).io_data == (EventData { timer: Some(before.next_id), ..io })
                &&& r.0.is_some() == wakes
                &&& final(selector).shards()[id]@ == (if io.token != 0 && io.io_flag != 0 {
                    last.0
                } else {
                    parked
                })
                &&& r.1 == (if io.token == 0 {
                    Some(Resume { co, error: None })
                } else if io.io_flag != 0 {
                    last.1
                } else {
                    None
                })
            }),
            old(self).io_data.io_flag != 0 ==> r.1 == Some(Resume { co, error: None }),
    {
        let wake = selector.add_io_timer(&mut self.io_data, Some(CONNECT_TIMEOUT_NS), now);
        proof {
            let id = shard_of(self.io_data.fd, selector.shards().len() as int);
            assert(selector.shards()[id].wf());
            if self.io_data.token != 0 {
                law_published_task_is_found(
                    selector.shards()[id]@,
                    bare(self.io_data.token, self.io_data.fd),
                    co,
                    0,
                );
            }
        }
        if !selector.publish(self.io_data.fd, self.io_data.token, co) {
            return (wake, Some(Resume { co, error: None }));
        }
        if self.io_data.io_flag == 0 {
            return (wake, None);
        }
        let resume = selector.schedule(self.io_data.fd, self.io_data.token);
        (wake, resume)
    }
}

} // verus!
