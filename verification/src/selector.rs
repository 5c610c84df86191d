//! The reactor: a fixed array of shards, each descriptor served by the
//! shard that its number selects.

use vstd::prelude::*;
use smallvec::SmallVec;
use crate::event::{bare, EventData, Resume, SysEvent};
use crate::flags::{interest_to_epoll_kind, epoll_kind_bits, EpollEventKind};
use crate::laws::law_shard_locality;
use crate::shard::{
    arm_wakes, has_token, on_arm, on_deregister, on_disarm, on_event, on_forget, on_publish,
    on_register, on_select, on_wakeup, register_refusal, serves, shard_of, slot_of_token,
    wake_payload, CtlRequest, RegistrationError, ShardState, SingleSelector, WakeRequest,
};

verus! {

/// The largest number of shards.
pub const MAX_SHARDS: usize = 128;

/// The array of shards, kept in a `SmallVec` with room for the maximum
/// number of them in place. The verifier does not look inside: what the
/// array holds is named by [`shards_in`], and the functions below say what
/// each `SmallVec` method that the reactor calls does to it.
#[verifier::external_body]
pub struct ShardArray {
    inner: SmallVec<[SingleSelector; 128]>,
}

/// The shards that the array holds, in order.
pub uninterp spec fn shards_in(v: ShardArray) -> Seq<SingleSelector>;

/// `SmallVec::new`: an array that holds nothing.
#[verifier::external_body]
fn shards_new() -> (v: ShardArray)
    ensures
        shards_in(v) == Seq::<SingleSelector>::empty(),
{
    ShardArray { inner: SmallVec::new() }
}

/// `SmallVec::push`: the item is appended behind those held.
#[verifier::external_body]
fn shards_push(v: &mut ShardArray, s: SingleSelector)
    ensures
        shards_in(*final(v)) == shards_in(*old(v)).push(s),
{
    v.inner.push(s)
}

/// `SmallVec::len`: the number of items held.
#[verifier::external_body]
fn shards_len(v: &ShardArray) -> (n: usize)
    ensures
        n == shards_in(*v).len(),
{
    v.inner.len()
}

/// `SmallVec`'s `Index`: the item at `i`, which must be held.
#[verifier::external_body]
fn shard_ref(v: &ShardArray, i: usize) -> (s: &SingleSelector)
    requires
        i < shards_in(*v).len(),
    ensures
        *s == shards_in(*v)[i as int],
{
    &v.inner[i]
}

/// `SmallVec`'s `IndexMut`: the item at `i`, which must be held, for
/// change in place; the other items stay as they are.
#[verifier::external_body]
fn shard_mut(v: &mut ShardArray, i: usize) -> (s: &mut SingleSelector)
    requires
        i < shards_in(*old(v)).len(),
    ensures
        *s == shards_in(*old(v))[i as int],
        shards_in(*final(v)) == shards_in(*old(v)).update(i as int, *final(s)),
{
    &mut v.inner[i]
}

/// Why no reactor was made.
#[derive(Clone, Copy, Debug)]
pub enum SelectorError {
    /// The number of shards is `0` or above the maximum.
    BadShardCount,
}

/// The reactor.
pub struct Selector {
    vec: ShardArray,
}

impl Selector {
    /// The shards, in order.
    pub closed spec fn shards(&self) -> Seq<SingleSelector> {
        shards_in(self.vec)
    }

    /// Between one and the maximum number of shards, each of them well
    /// formed, and each holding only records and descriptors that it
    /// serves.
    pub open spec fn wf(&self) -> bool {
        &&& 1 <= self.shards().len() <= MAX_SHARDS
        &&& forall|i: int| 0 <= i < self.shards().len() ==> (#[trigger] self.shards()[i]).wf()
        &&& forall|i: int|
            0 <= i < self.shards().len() ==> serves(
                (#[trigger] self.shards()[i])@,
                self.shards().len() as int,
                i,
            )
    }

    /// Whether `other` differs from `self` at most in the state of shard
    /// `id`.
    pub open spec fn same_but(&self, other: &Selector, id: int) -> bool {
        &&& self.shards().len() == other.shards().len()
        &&& forall|j: int|
            0 <= j < self.shards().len() && j != id ==> (#[trigger] self.shards()[j])
                == other.shards()[j]
        &&& 0 <= id < self.shards().len() ==> self.shards()[id].epfd == other.shards()[id].epfd
            && self.shards()[id].evfd == other.shards()[id].evfd
    }

    /// A reactor with one empty shard for each pair of a reactor descriptor
    /// and a wakeup descriptor. It is refused iff there is no pair or more
    /// than the maximum.
    pub fn new(handles: &Vec<(i32, i32)>) -> (r: Result<Selector, SelectorError>)
        ensures
            r.is_ok() == (1 <= handles@.len() <= MAX_SHARDS),
            match r {
                Ok(s) => {
                    &&& s.wf()
                    &&& s.shards().len() == handles@.len()
                    &&& forall|i: int|
                        0 <= i < handles@.len() ==> {
                            &&& (#[trigger] s.shards()[i]).epfd == handles@[i].0
                            &&& s.shards()[i].evfd == handles@[i].1
                            &&& s.shards()[i]@ == (ShardState {
                                events: Seq::empty(),
                                fds: Seq::empty(),
                                timers: Seq::empty(),
                                next_id: 0,
                                wakeups: 0,
                            })
                        }
                },
                Err(_) => true,
            },
    {
        if handles.len() == 0 || handles.len() > MAX_SHARDS {
            return Err(SelectorError::BadShardCount);
        }
        let mut s = Selector { vec: shards_new() };
        let mut i: usize = 0;
        while i < handles.len()
            invariant
                i <= handles@.len(),
                s.shards().len() == i,
                forall|k: int|
                    0 <= k < i ==> {
                        &&& (#[trigger] s.shards()[k]).wf()
                        &&& s.shards()[k].epfd == handles@[k].0
                        &&& s.shards()[k].evfd == handles@[k].1
                        &&& s.shards()[k]@ == (ShardState {
                            events: Seq::empty(),
                            fds: Seq::empty(),
                            timers: Seq::empty(),
                            next_id: 0,
                            wakeups: 0,
                        })
                    },
            decreases handles@.len() - i,
        {
            let h = handles[i];
            let ss = SingleSelector::new(h.0, h.1);
            shards_push(&mut s.vec, ss);
            i += 1;
        }
        Ok(s)
    }

    /// The number of shards.
    pub fn len(&self) -> (n: usize)
        ensures
            n == self.shards().len(),
    {
        shards_len(&self.vec)
    }

    /// The index of the shard that serves `fd`.
    pub fn shard_id(&self, fd: i32) -> (id: usize)
        requires
            self.wf(),
        ensures
            id == shard_of(fd, self.shards().len() as int),
            id < self.shards().len(),
    {
        let n: usize = shards_len(&self.vec);
        let h: usize = if fd >= 0 {
            fd as usize
        } else {
            usize::MAX - ((-(fd + 1)) as usize)
        };
        h % n
    }

    /// Shard `id`, to look at.
    pub fn shard(&self, id: usize) -> (s: &SingleSelector)
        requires
            id < self.shards().len(),
        ensures
            *s == self.shards()[id as int],
    {
        shard_ref(&self.vec, id)
    }

    /// One turn of shard `id` on the notifications that its reactor
    /// returned. See [`SingleSelector::select`].
    pub fn select(&mut self, id: usize, events: &Vec<SysEvent>, now: u64) -> (r: (
        Vec<Resume>,
        Option<u64>,
    ))
        requires
            old(self).wf(),
            id < old(self).shards().len(),
        ensures
            final(self).wf(),
            final(self).same_but(old(self), id as int),
            final(self).shards()[id as int]@ == on_select(
                old(self).shards()[id as int]@,
                events@,
                now,
            ).0,
            r.0@ == on_select(old(self).shards()[id as int]@, events@, now).1,
            r.1 == on_select(old(self).shards()[id as int]@, events@, now).2,
    {
        proof {
            self.locality(id as int, bare(0, 0), 0, events@, now, 0, 0);
        }
        let shard = shard_mut(&mut self.vec, id);
        shard.select(events, now)
    }

    /// Notes one wakeup of shard `id` and returns the request that pokes
    /// it.
    pub fn wakeup(&mut self, id: usize) -> (req: WakeRequest)
        requires
            old(self).wf(),
            id < old(self).shards().len(),
        ensures
            final(self).wf(),
            final(self).same_but(old(self), id as int),
            final(self).shards()[id as int]@ == on_wakeup(old(self).shards()[id as int]@),
            req.evfd == old(self).shards()[id as int].evfd,
            req.payload@ == wake_payload(),
    {
        proof {
            self.locality(id as int, bare(0, 0), 0, Seq::empty(), 0, 0, 0);
        }
        let shard = shard_mut(&mut self.vec, id);
        shard.wakeup()
    }

    /// Registers an operation with the shard that serves its descriptor
    /// and returns the request that adds the descriptor to that shard's
    /// reactor: one-shot and edge-triggered with the operation's interest,
    /// under the operation's token. It is refused iff the token is `0` or
    /// the descriptor is in that reactor's interest list already.
    pub fn add_io(&mut self, ev_data: &EventData) -> (r: Result<CtlRequest, RegistrationError>)
        requires
            old(self).wf(),
        ensures
            final(self).wf(),
            final(self).same_but(old(self), shard_of(ev_data.fd, old(self).shards().len() as int)),
            ({
                let id = shard_of(ev_data.fd, old(self).shards().len() as int);
                let before = old(self).shards()[id];
                let after = final(self).shards()[id];
                match r {
                    Ok(req) => {
                        &&& register_refusal(before@, *ev_data).is_none()
                        &&& after@ == on_register(before@, *ev_data)
                        &&& req == (CtlRequest {
                            epfd: before.epfd,
                            add: true,
                            fd: ev_data.fd,
                            kind: EpollEventKind { bits: epoll_kind_bits(ev_data.interest.bits) },
                            data: ev_data.token,
                        })
                    },
                    Err(e) => register_refusal(before@, *ev_data) == Some(e) && after@ == before@,
                }
            }),
    {
        let id: usize = self.shard_id(ev_data.fd);
        proof {
            self.locality(id as int, *ev_data, ev_data.fd, Seq::empty(), 0, 0, 0);
        }
        let shard = shard_mut(&mut self.vec, id);
        match shard.register(*ev_data) {
            Err(e) => Err(e),
            Ok(_) => Ok(
                CtlRequest {
                    epfd: shard.epfd,
                    add: true,
                    fd: ev_data.fd,
                    kind: interest_to_epoll_kind(ev_data.interest),
                    data: ev_data.token,
                },
            ),
        }
    }

    /// Takes `fd` out of the interest list of the shard that serves it and
    /// returns the request that deletes the descriptor from that shard's
    /// reactor. No record, no parked task, no timer and no wakeup is
    /// touched.
    pub fn del_fd(&mut self, fd: i32) -> (req: CtlRequest)
        requires
            old(self).wf(),
        ensures
            final(self).wf(),
            final(self).same_but(old(self), shard_of(fd, old(self).shards().len() as int)),
            ({
                let id = shard_of(fd, old(self).shards().len() as int);
                let before = old(self).shards()[id];
                let after = final(self).shards()[id];
                &&& after@ == on_deregister(before@, fd)
                &&& after@.events == before@.events
                &&& after@.timers == before@.timers
                &&& after@.wakeups == before@.wakeups
                &&& req == (CtlRequest {
                    epfd: before.epfd,
                    add: false,
                    fd,
                    kind: EpollEventKind { bits: 0 },
                    data: 0,
                })
            }),
    {
        let id: usize = self.shard_id(fd);
        proof {
            self.locality(id as int, bare(0, fd), fd, Seq::empty(), 0, 0, 0);
        }
        let shard = shard_mut(&mut self.vec, id);
        shard.deregister(fd);
        CtlRequest { epfd: shard.epfd, add: false, fd, kind: EpollEventKind::empty(), data: 0 }
    }

    /// Sets the timeout of the operation `io`, in nanoseconds from `now`,
    /// with the shard that serves its descriptor. Without a timeout the
    /// operation forgets its timer. With one, a timer is added, whatever
    /// else is known of the operation; if its deadline lies before every
    /// pending one, a wakeup of the shard is noted and the request that
    /// pokes it returned. The handle of the timer, or none, is written to
    /// `io.timer` and to the shard's record of the operation.
    pub fn add_io_timer(&mut self, io: &mut EventData, timeout: Option<u64>, now: u64) -> (r:
        Option<WakeRequest>)
        requires
            old(self).wf(),
            old(self).shards()[shard_of(old(io).fd, old(self).shards().len() as int)]@.next_id
                < u64::MAX,
        ensures
            final(self).wf(),
            final(self).same_but(old(self), shard_of(old(io).fd, old(self).shards().len() as int)),
            ({
                let id = shard_of(old(io).fd, old(self).shards().len() as int);
                let before = old(self).shards()[id];
                let after = final(self).shards()[id];
                match timeout {
                    None => {
                        &&& r.is_none()
                        &&& after@ == on_disarm(before@, *old(io))
                        &&& *final(io) == (EventData { timer: None, ..*old(io) })
                    },
                    Some(dur) => {
                        &&& *final(io) == (EventData {
                            timer: Some(before@.next_id),
                            ..*old(io)
                        })
                        &&& if arm_wakes(before@, now, dur) {
                            &&& after@ == on_wakeup(on_arm(before@, *old(io), now, dur))
                            &&& r.is_some()
                            &&& r.unwrap().evfd == before.evfd
                            &&& r.unwrap().payload@ == wake_payload()
                        } else {
                            r.is_none() && after@ == on_arm(before@, *old(io), now, dur)
                        }
                    },
                }
            }),
    {
        let id: usize = self.shard_id(io.fd);
        let record: EventData = *io;
        proof {
            let dur = match timeout {
                Some(d) => d,
                None => 0,
            };
            self.locality(id as int, record, record.fd, Seq::empty(), now, dur, 0);
        }
        let shard = shard_mut(&mut self.vec, id);
        match timeout {
            None => {
                shard.disarm(record);
                io.timer = None;
                None
            },
            Some(dur) => {
                let handle: u64 = shard.timer_list.next_id;
                io.timer = Some(handle);
                if shard.arm_timer(record, now, dur) {
                    Some(shard.wakeup())
                } else {
                    None
                }
            },
        }
    }

    /// Parks the task `co` in the slot of the operation `token` on `fd`,
    /// with the shard that serves the descriptor. An operation that the
    /// shard sees for the first time is recorded with what is known of it.
    /// Returns `false`, and changes nothing, iff the token is `0`.
    pub fn publish(&mut self, fd: i32, token: u64, co: u64) -> (parked: bool)
        requires
            old(self).wf(),
        ensures
            final(self).wf(),
            final(self).same_but(old(self), shard_of(fd, old(self).shards().len() as int)),
            parked == (token != 0),
            ({
                let id = shard_of(fd, old(self).shards().len() as int);
                final(self).shards()[id]@ == on_publish(
                    old(self).shards()[id]@,
                    bare(token, fd),
                    co,
                )
            }),
    {
        let id: usize = self.shard_id(fd);
        let io = EventData::new(token, fd, crate::flags::EventFlags::empty());
        proof {
            self.locality(id as int, io, fd, Seq::empty(), 0, 0, co);
        }
        let shard = shard_mut(&mut self.vec, id);
        shard.publish(io, co)
    }

    /// Hands out the task parked with the operation `token` on `fd`, if
    /// there is one, as a completion does: the slot is emptied and the
    /// timer swept. The token `0` names no operation.
    pub fn schedule(&mut self, fd: i32, token: u64) -> (r: Option<Resume>)
        requires
            old(self).wf(),
        ensures
            final(self).wf(),
            final(self).same_but(old(self), shard_of(fd, old(self).shards().len() as int)),
            ({
                let id = shard_of(fd, old(self).shards().len() as int);
                let before = old(self).shards()[id]@;
                let after = final(self).shards()[id]@;
                if token == 0 {
                    r.is_none() && after == before
                } else {
                    (after, r) == on_event(before, (SysEvent { events: 0, data: token }))
                }
            }),
    {
        if token == 0 {
            return None;
        }
        let id: usize = self.shard_id(fd);
        proof {
            self.locality(
                id as int,
                bare(0, fd),
                fd,
                seq![SysEvent { events: 0, data: token }],
                0,
                0,
                0,
            );
        }
        let shard = shard_mut(&mut self.vec, id);
        shard.handle_event(SysEvent { events: 0, data: token })
    }

    /// Drops the operation `token` on `fd` from the shard that serves the
    /// descriptor: its record leaves and its timers are defused. Returns
    /// the task that was parked with it, which is not resumed, if any.
    pub fn forget(&mut self, fd: i32, token: u64) -> (co: Option<u64>)
        requires
            old(self).wf(),
        ensures
            final(self).wf(),
            final(self).same_but(old(self), shard_of(fd, old(self).shards().len() as int)),
            ({
                let id = shard_of(fd, old(self).shards().len() as int);
                let before = old(self).shards()[id]@;
                &&& final(self).shards()[id]@ == on_forget(before, token)
                &&& co == (if has_token(before.events, token) {
                    before.events[slot_of_token(before.events, token)].co
                } else {
                    None
                })
            }),
    {
        let id: usize = self.shard_id(fd);
        proof {
            self.locality(id as int, bare(token, fd), fd, Seq::empty(), 0, 0, 0);
        }
        let shard = shard_mut(&mut self.vec, id);
        shard.forget(token)
    }

    /// Whatever shard `id` does next for an operation on a descriptor that
    /// it serves, it goes on holding only what it serves.
    proof fn locality(
        &self,
        id: int,
        io: EventData,
        fd: i32,
        evs: Seq<SysEvent>,
        now: u64,
        dur: u64,
        co: u64,
    )
        requires
            self.wf(),
            0 <= id < self.shards().len(),
        ensures
            ({
                let s = self.shards()[id]@;
                let n = self.shards().len() as int;
                &&& shard_of(io.fd, n) == id ==> {
                    &&& serves(on_register(s, io), n, id)
                    &&& serves(on_arm(s, io, now, dur), n, id)
                    &&& serves(on_wakeup(on_arm(s, io, now, dur)), n, id)
                    &&& serves(on_disarm(s, io), n, id)
                    &&& serves(on_publish(s, io, co), n, id)
                }
                &&& serves(on_deregister(s, fd), n, id)
                &&& serves(on_forget(s, io.token), n, id)
                &&& serves(on_wakeup(s), n, id)
                &&& serves(on_select(s, evs, now).0, n, id)
                &&& evs.len() > 0 ==> serves(on_event(s, evs[0]).0, n, id)
            }),
    {
        let s = self.shards()[id]@;
        assert(self.shards()[id].wf());
        law_shard_locality(s, self.shards().len() as int, id, io, fd, evs, now, dur, co);
    }
}

} // verus!
