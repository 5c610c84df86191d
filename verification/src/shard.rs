//! One shard of the reactor: the registered operations, the timer list and
//! the pending wakeups behind one reactor handle.

use vstd::prelude::*;
use crate::event::{swept, EventData, IoError, Resume, SysEvent};
use crate::flags::{interest_to_epoll_kind, EpollEventKind, epoll_kind_bits};
use crate::timer::{
    defused, due, earlier_than_all, deadline_after, next_deadline, without, TimerData, TimerEntry,
    TimerList,
};

verus! {

/// Why a registration was refused.
#[derive(Clone, Copy, Debug)]
pub enum RegistrationError {
    /// The token `0` is kept for wakeups.
    NullToken,
    /// The descriptor is in the reactor's interest list already.
    FdInUse,
}

/// What a shard knows, as mathematical values.
pub struct ShardState {
    /// The records of the operations that the shard has seen.
    pub events: Seq<EventData>,
    /// The descriptors in the interest list of the shard's reactor.
    pub fds: Seq<i32>,
    pub timers: Seq<TimerEntry>,
    pub next_id: u64,
    pub wakeups: u64,
}

/// The number of a descriptor as an index: itself where it is not
/// negative, else wrapped round the largest index.
pub open spec fn fd_index(fd: i32) -> int {
    if fd >= 0 {
        fd as int
    } else {
        usize::MAX + 1 + fd
    }
}

/// The shard that serves `fd` among `n` shards.
pub open spec fn shard_of(fd: i32, n: int) -> int
    recommends
        n > 0,
{
    fd_index(fd) % n
}

/// Whether an operation with this token is recorded.
pub open spec fn has_token(s: Seq<EventData>, token: u64) -> bool {
    exists|i: int| 0 <= i < s.len() && (#[trigger] s[i]).token == token
}

/// The place of the record with this token, where there is one.
pub open spec fn slot_of_token(s: Seq<EventData>, token: u64) -> int {
    choose|i: int| 0 <= i < s.len() && (#[trigger] s[i]).token == token
}

/// Whether this descriptor is in the interest list.
pub open spec fn has_fd(s: Seq<i32>, fd: i32) -> bool {
    exists|i: int| 0 <= i < s.len() && #[trigger] s[i] == fd
}

/// The place of this descriptor in the interest list, where it is there.
pub open spec fn slot_of_fd(s: Seq<i32>, fd: i32) -> int {
    choose|i: int| 0 <= i < s.len() && #[trigger] s[i] == fd
}

/// No token is `0`, and no token is recorded twice.
pub open spec fn registry_ok(s: Seq<EventData>) -> bool {
    &&& forall|i: int| 0 <= i < s.len() ==> (#[trigger] s[i]).token != 0
    &&& forall|i: int, j: int|
        0 <= i < s.len() && 0 <= j < s.len() && i != j ==> s[i].token != s[j].token
}

/// No descriptor is in the interest list twice.
pub open spec fn fds_ok(s: Seq<i32>) -> bool {
    forall|i: int, j: int| 0 <= i < s.len() && 0 <= j < s.len() && i != j ==> s[i] != s[j]
}

/// The records with that of `io` among them: an operation that is seen for
/// the first time is recorded behind the others, without a timer, since
/// timers are handed out by the shard alone. The token `0` names no
/// operation.
pub open spec fn recorded(s: Seq<EventData>, io: EventData) -> Seq<EventData> {
    if io.token == 0 || has_token(s, io.token) {
        s
    } else {
        s.push((EventData { timer: None, ..io }))
    }
}

/// Whether every record and every descriptor of the interest list belongs
/// to shard `id` among `n`.
pub open spec fn serves(s: ShardState, n: int, id: int) -> bool {
    &&& forall|k: int| 0 <= k < s.events.len() ==> shard_of((#[trigger] s.events[k]).fd, n) == id
    &&& forall|k: int| 0 <= k < s.fds.len() ==> shard_of(#[trigger] s.fds[k], n) == id
}

/// The timers with that of `e` taken out, if it has one.
pub open spec fn timers_swept(timers: Seq<TimerEntry>, e: EventData) -> Seq<TimerEntry> {
    match e.timer {
        Some(h) => without(timers, h),
        None => timers,
    }
}

/// What one notification does. The token `0` drains the wakeups. A token
/// that names a recorded operation with a parked task empties its slot,
/// sweeps its timer and hands the task out without an error. Any other
/// notification changes nothing.
pub open spec fn on_event(s: ShardState, ev: SysEvent) -> (ShardState, Option<Resume>) {
    if ev.data == 0 {
        (ShardState { wakeups: 0, ..s }, None)
    } else if !has_token(s.events, ev.data) {
        (s, None)
    } else {
        let i = slot_of_token(s.events, ev.data);
        let e = s.events[i];
        match e.co {
            None => (s, None),
            Some(c) => (
                ShardState {
                    events: s.events.update(i, swept(e)),
                    timers: timers_swept(s.timers, e),
                    ..s
                },
                Some(Resume { co: c, error: None }),
            ),
        }
    }
}

/// What one expired timer does. A cleared payload, or one whose operation
/// is gone, does nothing. Otherwise the operation loses its timer, and if a
/// task is parked it leaves the slot and is handed out with `TimedOut`.
pub open spec fn on_expire(s: ShardState, t: TimerEntry) -> (ShardState, Option<Resume>) {
    if t.data.event_data == 0 || !has_token(s.events, t.data.event_data) {
        (s, None)
    } else {
        let i = slot_of_token(s.events, t.data.event_data);
        let e = s.events[i];
        (
            ShardState { events: s.events.update(i, swept(e)), ..s },
            match e.co {
                None => None,
                Some(c) => Some(Resume { co: c, error: Some(IoError::TimedOut) }),
            },
        )
    }
}

/// Nothing or one task, as a sequence.
pub open spec fn handed(r: Option<Resume>) -> Seq<Resume> {
    match r {
        None => Seq::empty(),
        Some(x) => seq![x],
    }
}

/// The notifications applied in order, and the tasks handed out, in order.
pub open spec fn on_events(s: ShardState, evs: Seq<SysEvent>) -> (ShardState, Seq<Resume>)
    decreases evs.len(),
{
    if evs.len() == 0 {
        (s, Seq::empty())
    } else {
        let first = on_event(s, evs[0]);
        let rest = on_events(first.0, evs.subrange(1, evs.len() as int));
        (rest.0, handed(first.1) + rest.1)
    }
}

/// The expired timers applied in order, and the tasks handed out, in order.
pub open spec fn on_timers(s: ShardState, ts: Seq<TimerEntry>) -> (ShardState, Seq<Resume>)
    decreases ts.len(),
{
    if ts.len() == 0 {
        (s, Seq::empty())
    } else {
        let first = on_expire(s, ts[0]);
        let rest = on_timers(first.0, ts.subrange(1, ts.len() as int));
        (rest.0, handed(first.1) + rest.1)
    }
}

/// The timers that are due at `now` leave the list and are applied in order
/// of expiration.
pub open spec fn on_tick(s: ShardState, now: u64) -> (ShardState, Seq<Resume>) {
    let k = due(s.timers, now);
    on_timers(
        ShardState { timers: s.timers.subrange(k, s.timers.len() as int), ..s },
        s.timers.subrange(0, k),
    )
}

/// One turn of the shard: every notification in order, then the timers due
/// at `now`; the result holds the state, the tasks handed out and the
/// deadline of the earliest timer that stays.
pub open spec fn on_select(s: ShardState, evs: Seq<SysEvent>, now: u64) -> (
    ShardState,
    Seq<Resume>,
    Option<u64>,
) {
    let a = on_events(s, evs);
    let b = on_tick(a.0, now);
    (b.0, a.1 + b.1, next_deadline(b.0.timers))
}

/// The state after a registration that was accepted: the descriptor joins
/// the interest list and the operation is recorded.
pub open spec fn on_register(s: ShardState, ev: EventData) -> ShardState {
    ShardState { events: recorded(s.events, ev), fds: s.fds.push(ev.fd), ..s }
}

/// Why `ev` cannot be registered, if it cannot.
pub open spec fn register_refusal(s: ShardState, ev: EventData) -> Option<RegistrationError> {
    if ev.token == 0 {
        Some(RegistrationError::NullToken)
    } else if has_fd(s.fds, ev.fd) {
        Some(RegistrationError::FdInUse)
    } else {
        None
    }
}

/// The state after `fd` has left the interest list. The records, the
/// parked tasks and the timers stay as they are.
pub open spec fn on_deregister(s: ShardState, fd: i32) -> ShardState {
    if has_fd(s.fds, fd) {
        ShardState { fds: s.fds.remove(slot_of_fd(s.fds, fd)), ..s }
    } else {
        s
    }
}

/// The records after the one of `token` was given this timer; the token
/// `0` names no record.
pub open spec fn with_timer(s: Seq<EventData>, token: u64, timer: Option<u64>) -> Seq<EventData> {
    if token == 0 {
        s
    } else {
        let i = slot_of_token(s, token);
        s.update(i, (EventData { timer, ..s[i] }))
    }
}

/// The state after a timeout of `dur` nanoseconds from `now` was asked for
/// the operation `io`: a new timer with the next handle, whose payload is
/// the operation's token, and the operation records the handle.
pub open spec fn on_arm(s: ShardState, io: EventData, now: u64, dur: u64) -> ShardState {
    let deadline = deadline_after(now, dur);
    ShardState {
        events: with_timer(recorded(s.events, io), io.token, Some(s.next_id)),
        timers: s.timers.insert(
            due(s.timers, deadline),
            (TimerEntry { id: s.next_id, deadline, data: TimerData { event_data: io.token } }),
        ),
        next_id: (s.next_id + 1) as u64,
        ..s
    }
}

/// The state after the task `co` was parked in the slot of the operation
/// `io`. The token `0` names no operation, and nothing changes.
pub open spec fn on_publish(s: ShardState, io: EventData, co: u64) -> ShardState {
    if io.token == 0 {
        s
    } else {
        let ev = recorded(s.events, io);
        let i = slot_of_token(ev, io.token);
        ShardState { events: ev.update(i, (EventData { co: Some(co), ..ev[i] })), ..s }
    }
}

/// The state after the operation `io` was told to run without a timeout:
/// it forgets its timer.
pub open spec fn on_disarm(s: ShardState, io: EventData) -> ShardState {
    ShardState { events: with_timer(recorded(s.events, io), io.token, None), ..s }
}

/// The state after the operation `token` was dropped: its record leaves,
/// with whatever task was parked in it, and the payload of each of its
/// timers is cleared, so that their expiration does nothing. Without a
/// record of the operation nothing changes.
pub open spec fn on_forget(s: ShardState, token: u64) -> ShardState {
    if !has_token(s.events, token) {
        s
    } else {
        ShardState {
            events: s.events.remove(slot_of_token(s.events, token)),
            timers: defused(s.timers, token),
            ..s
        }
    }
}

/// The count of pending wakeups after one more, held at the largest count.
pub open spec fn bumped(wakeups: u64) -> u64 {
    if wakeups == u64::MAX {
        u64::MAX
    } else {
        (wakeups + 1) as u64
    }
}

/// The state after one more wakeup.
pub open spec fn on_wakeup(s: ShardState) -> ShardState {
    ShardState { wakeups: bumped(s.wakeups), ..s }
}

/// The bytes that poke a wakeup descriptor: the number one in eight
/// little-endian bytes.
pub open spec fn wake_payload() -> Seq<u8> {
    seq![1u8, 0u8, 0u8, 0u8, 0u8, 0u8, 0u8, 0u8]
}

/// Whether arming must wake the shard: the new deadline lies before every
/// pending one.
pub open spec fn arm_wakes(s: ShardState, now: u64, dur: u64) -> bool {
    earlier_than_all(s.timers, deadline_after(now, dur))
}

/// The request that registers or unregisters a descriptor with the reactor.
#[derive(Clone, Copy, Debug)]
pub struct CtlRequest {
    pub epfd: i32,
    /// `true` to add the descriptor, `false` to delete it.
    pub add: bool,
    pub fd: i32,
    pub kind: EpollEventKind,
    pub data: u64,
}

/// The request that pokes a shard: the bytes to write to its wakeup
/// descriptor.
#[derive(Clone, Copy, Debug)]
pub struct WakeRequest {
    pub evfd: i32,
    pub payload: [u8; 8],
}

/// One shard.
pub struct SingleSelector {
    pub epfd: i32,
    pub evfd: i32,
    /// The records of the operations that the shard has seen.
    pub events: Vec<EventData>,
    /// The descriptors in the interest list of the reactor.
    pub fds: Vec<i32>,
    pub timer_list: TimerList,
    /// Wakeups that no notification has drained yet.
    pub wakeups: u64,
}

impl SingleSelector {
    pub open spec fn view(&self) -> ShardState {
        ShardState {
            events: self.events@,
            fds: self.fds@,
            timers: self.timer_list.entries@,
            next_id: self.timer_list.next_id,
            wakeups: self.wakeups,
        }
    }

    /// The timer list is in order and neither the records nor the interest
    /// list hold anything twice.
    pub open spec fn wf(&self) -> bool {
        &&& self.timer_list.wf()
        &&& registry_ok(self.events@)
        &&& fds_ok(self.fds@)
    }

    /// A shard behind the given reactor and wakeup descriptors, with
    /// nothing recorded or registered.
    pub fn new(epfd: i32, evfd: i32) -> (s: SingleSelector)
        ensures
            s.wf(),
            s.epfd == epfd,
            s.evfd == evfd,
            s@ == (ShardState {
                events: Seq::empty(),
                fds: Seq::empty(),
                timers: Seq::empty(),
                next_id: 0,
                wakeups: 0,
            }),
    {
        SingleSelector {
            epfd,
            evfd,
            events: Vec::new(),
            fds: Vec::new(),
            timer_list: TimerList::new(),
            wakeups: 0,
        }
    }

    /// The registration of the wakeup descriptor: readable, one-shot,
    /// edge-triggered, under the token `0`.
    pub fn wakeup_registration(&self) -> (req: CtlRequest)
        ensures
            req == (CtlRequest {
                epfd: self.epfd,
                add: true,
                fd: self.evfd,
                kind: EpollEventKind { bits: epoll_kind_bits(crate::flags::FLAG_READ) },
                data: 0,
            }),
    {
        CtlRequest {
            epfd: self.epfd,
            add: true,
            fd: self.evfd,
            kind: interest_to_epoll_kind(crate::flags::EventFlags::read()),
            data: 0,
        }
    }

    /// The place of the operation with this token.
    pub fn find_token(&self, token: u64) -> (r: Option<usize>)
        requires
            self.wf(),
        ensures
            r.is_some() == has_token(self.events@, token),
            r.is_some() ==> r.unwrap() == slot_of_token(self.events@, token) && r.unwrap()
                < self.events@.len() && self.events@[r.unwrap() as int].token == token,
    {
        let mut i: usize = 0;
        while i < self.events.len() && self.events[i].token != token
            invariant
                i <= self.events@.len(),
                forall|j: int| 0 <= j < i ==> (#[trigger] self.events@[j]).token != token,
            decreases self.events@.len() - i,
        {
            i += 1;
        }
        if i < self.events.len() {
            proof {
                assert(self.events@[i as int].token == token);
            }
            Some(i)
        } else {
            None
        }
    }

    /// The place of this descriptor in the interest list.
    pub fn find_fd(&self, fd: i32) -> (r: Option<usize>)
        ensures
            r.is_some() == has_fd(self.fds@, fd),
            r.is_some() ==> r.unwrap() < self.fds@.len() && self.fds@[r.unwrap() as int] == fd,
    {
        let mut i: usize = 0;
        while i < self.fds.len() && self.fds[i] != fd
            invariant
                i <= self.fds@.len(),
                forall|j: int| 0 <= j < i ==> #[trigger] self.fds@[j] != fd,
            decreases self.fds@.len() - i,
        {
            i += 1;
        }
        if i < self.fds.len() {
            proof {
                assert(self.fds@[i as int] == fd);
            }
            Some(i)
        } else {
            None
        }
    }

    /// Records the operation `io` if it is seen for the first time, and
    /// returns the place of its record.
    fn adopt(&mut self, io: EventData) -> (r: Option<usize>)
        requires
            old(self).wf(),
        ensures
            final(self).wf(),
            final(self).epfd == old(self).epfd,
            final(self).evfd == old(self).evfd,
            final(self).fds == old(self).fds,
            final(self).timer_list == old(self).timer_list,
            final(self).wakeups == old(self).wakeups,
            final(self).events@ == recorded(old(self).events@, io),
            r.is_some() == (io.token != 0),
            r.is_some() ==> r.unwrap() < final(self).events@.len() && r.unwrap() == slot_of_token(
                final(self).events@,
                io.token,
            ) && final(self).events@[r.unwrap() as int].token == io.token,
    {
        if io.token == 0 {
            return None;
        }
        match self.find_token(io.token) {
            Some(i) => Some(i),
            None => {
                let ghost before = self.events@;
                self.events.push(EventData { timer: None, ..io });
                let at: usize = self.events.len() - 1;
                proof {
                    let after = self.events@;
                    assert forall|a: int| 0 <= a < after.len() implies (#[trigger] after[a]).token
                        != 0 by {
                        if a < before.len() {
                            assert(after[a] == before[a]);
                        }
                    }
                    assert forall|a: int, b: int|
                        0 <= a < after.len() && 0 <= b < after.len() && a != b implies after[a].token
                        != after[b].token by {
                        if a < before.len() {
                            assert(after[a] == before[a]);
                        }
                        if b < before.len() {
                            assert(after[b] == before[b]);
                        }
                    }
                    assert(after[at as int].token == io.token);
                }
                Some(at)
            },
        }
    }

    /// Replaces the record at `i` by one with the same token and descriptor.
    pub(crate) fn put(&mut self, i: usize, e: EventData)
        requires
            old(self).wf(),
            i < old(self).events@.len(),
            e.token == old(self).events@[i as int].token,
            e.fd == old(self).events@[i as int].fd,
        ensures
            final(self).wf(),
            final(self).events@ == old(self).events@.update(i as int, e),
            final(self).timer_list == old(self).timer_list,
            final(self).fds == old(self).fds,
            final(self).wakeups == old(self).wakeups,
            final(self).epfd == old(self).epfd,
            final(self).evfd == old(self).evfd,
    {
        let ghost before = self.events@;
        self.events.set(i, e);
        proof {
            let after = self.events@;
            assert forall|a: int| 0 <= a < after.len() implies (#[trigger] after[a]).token
                != 0 by {
                assert(after[a].token == before[a].token);
            }
            assert forall|a: int, b: int|
                0 <= a < after.len() && 0 <= b < after.len() && a != b implies after[a].token
                != after[b].token by {
                assert(after[a].token == before[a].token && after[b].token == before[b].token);
            }
        }
    }

    /// Sweeps the timer of `e`, if it has one.
    fn sweep_timer(&mut self, e: EventData)
        requires
            old(self).wf(),
        ensures
            final(self).wf(),
            final(self).events == old(self).events,
            final(self).fds == old(self).fds,
            final(self).wakeups == old(self).wakeups,
            final(self).epfd == old(self).epfd,
            final(self).evfd == old(self).evfd,
            final(self).timer_list.next_id == old(self).timer_list.next_id,
            final(self).timer_list.entries@ == timers_swept(old(self).timer_list.entries@, e),
    {
        match e.timer {
            Some(h) => {
                self.timer_list.remove(h);
            },
            None => {},
        }
    }

    /// Registers an operation: its descriptor joins the interest list and
    /// the operation is recorded. It is refused iff its token is `0` or its
    /// descriptor is in the interest list already.
    pub fn register(&mut self, ev: EventData) -> (r: Result<(), RegistrationError>)
        requires
            old(self).wf(),
        ensures
            final(self).wf(),
            final(self).epfd == old(self).epfd,
            final(self).evfd == old(self).evfd,
            match r {
                Ok(_) => register_refusal(old(self)@, ev).is_none() && final(self)@ == on_register(
                    old(self)@,
                    ev,
                ),
                Err(e) => register_refusal(old(self)@, ev) == Some(e) && final(self)@ == old(
                    self,
                )@,
            },
    {
        if ev.token == 0 {
            return Err(RegistrationError::NullToken);
        }
        if self.find_fd(ev.fd).is_some() {
            return Err(RegistrationError::FdInUse);
        }
        self.adopt(ev);
        let ghost before = self.fds@;
        self.fds.push(ev.fd);
        proof {
            let after = self.fds@;
            assert forall|a: int, b: int|
                0 <= a < after.len() && 0 <= b < after.len() && a != b implies after[a]
                != after[b] by {
                if a < before.len() {
                    assert(after[a] == before[a]);
                }
                if b < before.len() {
                    assert(after[b] == before[b]);
                }
            }
        }
        Ok(())
    }

    /// Takes `fd` out of the interest list. Returns whether it was there.
    /// Records, parked tasks and timers are left alone.
    pub fn deregister(&mut self, fd: i32) -> (found: bool)
        requires
            old(self).wf(),
        ensures
            final(self).wf(),
            final(self).epfd == old(self).epfd,
            final(self).evfd == old(self).evfd,
            found == has_fd(old(self)@.fds, fd),
            final(self)@ == on_deregister(old(self)@, fd),
    {
        match self.find_fd(fd) {
            None => false,
            Some(i) => {
                let ghost before = self.fds@;
                self.fds.remove(i);
                proof {
                    let after = self.fds@;
                    assert(slot_of_fd(before, fd) == i);
                    assert forall|a: int, b: int|
                        0 <= a < after.len() && 0 <= b < after.len() && a != b implies after[a]
                        != after[b] by {
                        let ba = if a < i { a } else { a + 1 };
                        let bb = if b < i { b } else { b + 1 };
                        assert(after[a] == before[ba] && after[b] == before[bb]);
                    }
                }
                true
            },
        }
    }

    /// Registers a timeout for the operation `io`. Returns whether the
    /// shard must be woken because the new deadline is the earliest.
    pub fn arm_timer(&mut self, io: EventData, now: u64, dur: u64) -> (wake: bool)
        requires
            old(self).wf(),
            old(self).timer_list.next_id < u64::MAX,
        ensures
            final(self).wf(),
            final(self).epfd == old(self).epfd,
            final(self).evfd == old(self).evfd,
            final(self)@ == on_arm(old(self)@, io, now, dur),
            wake == arm_wakes(old(self)@, now, dur),
    {
        let slot = self.adopt(io);
        let (h, first) = self.timer_list.add_timer(now, dur, TimerData { event_data: io.token });
        match slot {
            None => {},
            Some(i) => {
                let e = self.events[i];
                self.put(i, EventData { timer: Some(h), ..e });
            },
        }
        first
    }

    /// Makes the operation `io` forget its timer.
    pub fn disarm(&mut self, io: EventData)
        requires
            old(self).wf(),
        ensures
            final(self).wf(),
            final(self).epfd == old(self).epfd,
            final(self).evfd == old(self).evfd,
            final(self)@ == on_disarm(old(self)@, io),
    {
        match self.adopt(io) {
            None => {},
            Some(i) => {
                let e = self.events[i];
                self.put(i, EventData { timer: None, ..e });
            },
        }
    }

    /// Parks the task `co` in the slot of the operation `io`. Returns
    /// `false`, and changes nothing, iff the token is `0`.
    pub fn publish(&mut self, io: EventData, co: u64) -> (parked: bool)
        requires
            old(self).wf(),
        ensures
            final(self).wf(),
            final(self).epfd == old(self).epfd,
            final(self).evfd == old(self).evfd,
            parked == (io.token != 0),
            final(self)@ == on_publish(old(self)@, io, co),
    {
        match self.adopt(io) {
            None => false,
            Some(i) => {
                let mut e = self.events[i];
                e.publish(co);
                self.put(i, e);
                true
            },
        }
    }

    /// Drops the operation `token`: its record leaves and its timers are
    /// defused. Returns the task that was parked with it, which is not
    /// resumed, or nothing where the operation had no record or no task.
    pub fn forget(&mut self, token: u64) -> (co: Option<u64>)
        requires
            old(self).wf(),
        ensures
            final(self).wf(),
            final(self).epfd == old(self).epfd,
            final(self).evfd == old(self).evfd,
            final(self)@ == on_forget(old(self)@, token),
            co == (if has_token(old(self)@.events, token) {
                old(self)@.events[slot_of_token(old(self)@.events, token)].co
            } else {
                None
            }),
    {
        match self.find_token(token) {
            None => None,
            Some(i) => {
                let ghost before = self.events@;
                let e = self.events.remove(i);
                proof {
                    let after = self.events@;
                    assert forall|a: int| 0 <= a < after.len() implies (#[trigger] after[a]).token
                        != 0 by {
                        let ba = if a < i { a } else { a + 1 };
                        assert(after[a] == before[ba]);
                    }
                    assert forall|a: int, b: int|
                        0 <= a < after.len() && 0 <= b < after.len() && a != b implies after[a].token
                        != after[b].token by {
                        let ba = if a < i { a } else { a + 1 };
                        let bb = if b < i { b } else { b + 1 };
                        assert(after[a] == before[ba] && after[b] == before[bb]);
                    }
                }
                self.timer_list.defuse(token);
                e.co
            },
        }
    }

    /// Notes one wakeup and returns the request that pokes the shard: the
    /// number one as eight little-endian bytes, for the wakeup descriptor.
    pub fn wakeup(&mut self) -> (req: WakeRequest)
        ensures
            old(self).wf() ==> final(self).wf(),
            final(self).epfd == old(self).epfd,
            final(self).evfd == old(self).evfd,
            final(self).events == old(self).events,
            final(self).fds == old(self).fds,
            final(self).timer_list == old(self).timer_list,
            final(self)@ == on_wakeup(old(self)@),
            req.evfd == old(self).evfd,
            req.payload@ == wake_payload(),
    {
        self.wakeups = self.wakeups.saturating_add(1);
        let payload: [u8; 8] = [1, 0, 0, 0, 0, 0, 0, 0];
        proof {
            assert(payload@ =~= wake_payload());
        }
        WakeRequest { evfd: self.evfd, payload }
    }

    /// Applies one notification of the reactor.
    pub fn handle_event(&mut self, ev: SysEvent) -> (r: Option<Resume>)
        requires
            old(self).wf(),
        ensures
            final(self).wf(),
            final(self).epfd == old(self).epfd,
            final(self).evfd == old(self).evfd,
            (final(self)@, r) == on_event(old(self)@, ev),
    {
        if ev.data == 0 {
            self.wakeups = 0;
            return None;
        }
        match self.find_token(ev.data) {
            None => None,
            Some(i) => {
                let e = self.events[i];
                match e.co {
                    None => None,
                    Some(c) => {
                        self.sweep_timer(e);
                        self.put(i, EventData { co: None, timer: None, ..e });
                        Some(Resume { co: c, error: None })
                    },
                }
            },
        }
    }

    /// Applies one expired timer.
    pub fn handle_timeout(&mut self, t: TimerEntry) -> (r: Option<Resume>)
        requires
            old(self).wf(),
        ensures
            final(self).wf(),
            final(self).epfd == old(self).epfd,
            final(self).evfd == old(self).evfd,
            final(self).timer_list == old(self).timer_list,
            (final(self)@, r) == on_expire(old(self)@, t),
    {
        if t.data.event_data == 0 {
            return None;
        }
        match self.find_token(t.data.event_data) {
            None => None,
            Some(i) => {
                let e = self.events[i];
                self.put(i, EventData { co: None, timer: None, ..e });
                match e.co {
                    None => None,
                    Some(c) => Some(Resume { co: c, error: Some(IoError::TimedOut) }),
                }
            },
        }
    }

    /// Applies the notifications in order and collects the tasks handed out.
    pub fn dispatch(&mut self, events: &Vec<SysEvent>) -> (out: Vec<Resume>)
        requires
            old(self).wf(),
        ensures
            final(self).wf(),
            final(self).epfd == old(self).epfd,
            final(self).evfd == old(self).evfd,
            final(self)@ == on_events(old(self)@, events@).0,
            out@ == on_events(old(self)@, events@).1,
    {
        let ghost start = self@;
        let mut out: Vec<Resume> = Vec::new();
        let mut i: usize = 0;
        proof {
            assert(events@.subrange(0, events@.len() as int) =~= events@);
            assert(out@ + on_events(start, events@).1 =~= on_events(start, events@).1);
        }
        while i < events.len()
            invariant
                i <= events@.len(),
                self.wf(),
                self.epfd == old(self).epfd,
                self.evfd == old(self).evfd,
                on_events(start, events@).0 == on_events(
                    self@,
                    events@.subrange(i as int, events@.len() as int),
                ).0,
                on_events(start, events@).1 == out@ + on_events(
                    self@,
                    events@.subrange(i as int, events@.len() as int),
                ).1,
            decreases events@.len() - i,
        {
            let ghost t = events@.subrange(i as int, events@.len() as int);
            let ghost before = self@;
            let ghost collected = out@;
            let r = self.handle_event(events[i]);
            match r {
                Some(x) => {
                    out.push(x);
                },
                None => {},
            }
            proof {
                assert(t[0] == events@[i as int]);
                assert(t.subrange(1, t.len() as int) =~= events@.subrange(
                    i + 1,
                    events@.len() as int,
                ));
                let rest = on_events(self@, t.subrange(1, t.len() as int));
                assert(on_events(before, t).1 == handed(r) + rest.1);
                assert(out@ =~= collected + handed(r));
                assert(collected + (handed(r) + rest.1) =~= (collected + handed(r)) + rest.1);
            }
            i += 1;
        }
        proof {
            assert(out@ + Seq::<Resume>::empty() =~= out@);
        }
        out
    }

    /// Takes the timers that are due at `now` out of the list, applies them
    /// in order of expiration and collects the tasks handed out. Returns
    /// them with the deadline of the earliest timer that stays.
    pub fn expire(&mut self, now: u64) -> (r: (Vec<Resume>, Option<u64>))
        requires
            old(self).wf(),
        ensures
            final(self).wf(),
            final(self).epfd == old(self).epfd,
            final(self).evfd == old(self).evfd,
            final(self)@ == on_tick(old(self)@, now).0,
            r.0@ == on_tick(old(self)@, now).1,
            r.1 == next_deadline(final(self)@.timers),
    {
        let (expired, next) = self.timer_list.schedule_timer(now);
        let ghost start = self@;
        let mut out: Vec<Resume> = Vec::new();
        let mut i: usize = 0;
        proof {
            assert(expired@.subrange(0, expired@.len() as int) =~= expired@);
            assert(out@ + on_timers(start, expired@).1 =~= on_timers(start, expired@).1);
        }
        while i < expired.len()
            invariant
                i <= expired@.len(),
                self.wf(),
                self.epfd == old(self).epfd,
                self.evfd == old(self).evfd,
                self@.timers == start.timers,
                on_timers(start, expired@).0 == on_timers(
                    self@,
                    expired@.subrange(i as int, expired@.len() as int),
                ).0,
                on_timers(start, expired@).1 == out@ + on_timers(
                    self@,
                    expired@.subrange(i as int, expired@.len() as int),
                ).1,
            decreases expired@.len() - i,
        {
            let ghost t = expired@.subrange(i as int, expired@.len() as int);
            let ghost before = self@;
            let ghost collected = out@;
            let r = self.handle_timeout(expired[i]);
            match r {
                Some(x) => {
                    out.push(x);
                },
                None => {},
            }
            proof {
                assert(t[0] == expired@[i as int]);
                assert(t.subrange(1, t.len() as int) =~= expired@.subrange(
                    i + 1,
                    expired@.len() as int,
                ));
                let rest = on_timers(self@, t.subrange(1, t.len() as int));
                assert(on_timers(before, t).1 == handed(r) + rest.1);
                assert(out@ =~= collected + handed(r));
                assert(collected + (handed(r) + rest.1) =~= (collected + handed(r)) + rest.1);
            }
            i += 1;
        }
        proof {
            assert(out@ + Seq::<Resume>::empty() =~= out@);
        }
        (out, next)
    }

    /// One turn of the shard on the notifications that the reactor
    /// returned: each of them in order, then the timers that are due at
    /// `now`. Returns the tasks to resume, in order, and the deadline of the
    /// earliest timer that stays.
    pub fn select(&mut self, events: &Vec<SysEvent>, now: u64) -> (r: (Vec<Resume>, Option<u64>))
        requires
            old(self).wf(),
        ensures
            final(self).wf(),
            final(self).epfd == old(self).epfd,
            final(self).evfd == old(self).evfd,
            final(self)@ == on_select(old(self)@, events@, now).0,
            r.0@ == on_select(old(self)@, events@, now).1,
            r.1 == on_select(old(self)@, events@, now).2,
    {
        let mut out = self.dispatch(events);
        let (mut timed_out, next) = self.expire(now);
        out.append(&mut timed_out);
        (out, next)
    }
}

} // verus!
