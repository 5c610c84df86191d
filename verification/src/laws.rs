//! What holds of every shard, proved from the transition functions.

use vstd::prelude::*;
use crate::event::{swept, EventData, IoError, Resume, SysEvent};
use crate::shard::{
    arm_wakes, handed, has_fd, has_token, on_arm, on_deregister, on_disarm, on_event, on_forget,
    on_events, on_expire, on_publish, on_register, on_select, on_tick, on_timers, on_wakeup,
    recorded, register_refusal, registry_ok, serves, shard_of, slot_of_fd, slot_of_token,
    ShardState,
};
use crate::timer::{
    deadline_after, due, has_id, lemma_due_bounds, next_deadline, slot_of_id, sorted, without,
    TimerEntry,
};

verus! {

/// A record that is replaced by one with the same token stays where it is,
/// and the registry stays in order.
pub proof fn lemma_update_keeps_slots(s: Seq<EventData>, i: int, e: EventData, token: u64)
    requires
        registry_ok(s),
        0 <= i < s.len(),
        e.token == s[i].token,
    ensures
        registry_ok(s.update(i, e)),
        has_token(s.update(i, e), token) == has_token(s, token),
        has_token(s, token) ==> slot_of_token(s.update(i, e), token) == slot_of_token(s, token),
{
    let u = s.update(i, e);
    assert forall|a: int| 0 <= a < u.len() implies (#[trigger] u[a]).token == s[a].token by {}
    if has_token(s, token) {
        let k = slot_of_token(s, token);
        assert(u[k].token == token);
        let k2 = slot_of_token(u, token);
        assert(u[k2].token == s[k2].token);
    }
    if has_token(u, token) {
        let k = slot_of_token(u, token);
        assert(s[k].token == token);
    }
}

/// Single delivery, completion first: when the notification of an
/// operation with a parked task is applied, the task is handed out once,
/// without an error; a timer of that operation that expires afterwards, and
/// a second notification, hand out nothing.
pub proof fn law_single_delivery_completion_first(
    s: ShardState,
    token: u64,
    late: TimerEntry,
    events: u32,
    again: u32,
)
    requires
        registry_ok(s.events),
        has_token(s.events, token),
        s.events[slot_of_token(s.events, token)].co.is_some(),
        late.data.event_data == token,
    ensures
        on_event(s, (SysEvent { events, data: token })).1 == Some(
            Resume { co: s.events[slot_of_token(s.events, token)].co.unwrap(), error: None },
        ),
        on_expire(on_event(s, (SysEvent { events, data: token })).0, late).1.is_none(),
        on_event(
            on_event(s, (SysEvent { events, data: token })).0,
            (SysEvent { events: again, data: token }),
        ).1.is_none(),
{
    let i = slot_of_token(s.events, token);
    lemma_update_keeps_slots(s.events, i, swept(s.events[i]), token);
}

/// Single delivery, timeout first: when the timer of an operation with a
/// parked task expires, the task is handed out once, with `TimedOut`; a
/// notification of that operation that arrives afterwards, and a second
/// timer, hand out nothing.
pub proof fn law_single_delivery_timeout_first(
    s: ShardState,
    token: u64,
    timer: TimerEntry,
    late: TimerEntry,
    events: u32,
)
    requires
        registry_ok(s.events),
        has_token(s.events, token),
        s.events[slot_of_token(s.events, token)].co.is_some(),
        timer.data.event_data == token,
        late.data.event_data == token,
    ensures
        on_expire(s, timer).1 == Some(
            Resume {
                co: s.events[slot_of_token(s.events, token)].co.unwrap(),
                error: Some(IoError::TimedOut),
            },
        ),
        on_event(on_expire(s, timer).0, (SysEvent { events, data: token })).1.is_none(),
        on_expire(on_expire(s, timer).0, late).1.is_none(),
{
    let i = slot_of_token(s.events, token);
    lemma_update_keeps_slots(s.events, i, swept(s.events[i]), token);
}

/// A completion never carries an error: `TimedOut` comes from a timer only.
pub proof fn law_completion_is_clean(s: ShardState, ev: SysEvent)
    ensures
        on_event(s, ev).1.is_some() ==> on_event(s, ev).1.unwrap().error.is_none(),
{
}

/// Expired timers that do not carry the token of an operation leave that
/// operation as it is.
pub proof fn lemma_timers_keep(s: ShardState, ts: Seq<TimerEntry>, token: u64)
    requires
        registry_ok(s.events),
        token != 0,
        forall|k: int| 0 <= k < ts.len() ==> (#[trigger] ts[k]).data.event_data != token,
    ensures
        registry_ok(on_timers(s, ts).0.events),
        has_token(on_timers(s, ts).0.events, token) == has_token(s.events, token),
        has_token(s.events, token) ==> on_timers(s, ts).0.events[slot_of_token(
            on_timers(s, ts).0.events,
            token,
        )] == s.events[slot_of_token(s.events, token)],
    decreases ts.len(),
{
    if ts.len() > 0 {
        let t = ts[0];
        let first = on_expire(s, t);
        let rest = ts.subrange(1, ts.len() as int);
        if t.data.event_data != 0 && has_token(s.events, t.data.event_data) {
            let i = slot_of_token(s.events, t.data.event_data);
            lemma_update_keeps_slots(s.events, i, swept(s.events[i]), token);
            if has_token(s.events, token) {
                assert(slot_of_token(s.events, token) != i);
            }
        }
        assert forall|k: int| 0 <= k < rest.len() implies (#[trigger] rest[k]).data.event_data
            != token by {
            assert(rest[k] == ts[k + 1]);
        }
        lemma_timers_keep(first.0, rest, token);
    }
}

/// No pending timer carries this token.
pub open spec fn timer_free(timers: Seq<TimerEntry>, token: u64) -> bool {
    forall|k: int| 0 <= k < timers.len() ==> (#[trigger] timers[k]).data.event_data != token
}

/// Taking a timer out adds none.
pub proof fn lemma_without_keeps_timer_free(timers: Seq<TimerEntry>, id: u64, token: u64)
    requires
        timer_free(timers, token),
    ensures
        timer_free(without(timers, id), token),
{
    if has_id(timers, id) {
        let i = slot_of_id(timers, id);
        let after = timers.remove(i);
        assert forall|k: int| 0 <= k < after.len() implies (#[trigger] after[k]).data.event_data
            != token by {
            let b = if k < i { k } else { k + 1 };
            assert(after[k] == timers[b]);
        }
    }
}

/// Only arming an operation gives it a timer: while no pending timer
/// carries a token, none does after a notification, after a tick, after a
/// descriptor was unregistered, or after another operation was armed.
pub proof fn law_timers_come_from_arming(
    s: ShardState,
    token: u64,
    ev: SysEvent,
    now: u64,
    fd: i32,
    other: EventData,
    dur: u64,
)
    requires
        sorted(s.timers),
        timer_free(s.timers, token),
        other.token != token,
    ensures
        timer_free(on_event(s, ev).0.timers, token),
        timer_free(on_tick(s, now).0.timers, token),
        timer_free(on_deregister(s, fd).timers, token),
        timer_free(on_arm(s, other, now, dur).timers, token),
{
    if ev.data != 0 && has_token(s.events, ev.data) {
        let e = s.events[slot_of_token(s.events, ev.data)];
        if e.timer.is_some() {
            lemma_without_keeps_timer_free(s.timers, e.timer.unwrap(), token);
        }
    }
    let k = due(s.timers, now);
    lemma_due_bounds(s.timers, now);
    let kept = s.timers.subrange(k, s.timers.len() as int);
    assert forall|j: int| 0 <= j < kept.len() implies (#[trigger] kept[j]).data.event_data
        != token by {
        assert(kept[j] == s.timers[j + k]);
    }
    lemma_timers_keep_list((ShardState { timers: kept, ..s }), s.timers.subrange(0, k));
    {
        let d = deadline_after(now, dur);
        let at = due(s.timers, d);
        lemma_due_bounds(s.timers, d);
        let after = on_arm(s, other, now, dur).timers;
        assert forall|j: int| 0 <= j < after.len() implies (#[trigger] after[j]).data.event_data
            != token by {
            if j < at {
                assert(after[j] == s.timers[j]);
            } else if j > at {
                assert(after[j] == s.timers[j - 1]);
            }
        }
    }
}

/// Expired timers leave the timer list as it is.
pub proof fn lemma_timers_keep_list(s: ShardState, ts: Seq<TimerEntry>)
    ensures
        on_timers(s, ts).0.timers == s.timers,
    decreases ts.len(),
{
    if ts.len() > 0 {
        lemma_timers_keep_list(on_expire(s, ts[0]).0, ts.subrange(1, ts.len() as int));
    }
}

/// An operation without a timer does not time out: where no pending timer
/// carries its token, a tick at any instant leaves the operation as it is,
/// its task still parked.
pub proof fn law_no_timer_no_timeout(s: ShardState, token: u64, now: u64)
    requires
        registry_ok(s.events),
        sorted(s.timers),
        has_token(s.events, token),
        token != 0,
        timer_free(s.timers, token),
    ensures
        has_token(on_tick(s, now).0.events, token),
        on_tick(s, now).0.events[slot_of_token(on_tick(s, now).0.events, token)]
            == s.events[slot_of_token(s.events, token)],
{
    let k = due(s.timers, now);
    lemma_due_bounds(s.timers, now);
    let expired = s.timers.subrange(0, k);
    let kept = ShardState { timers: s.timers.subrange(k, s.timers.len() as int), ..s };
    assert forall|j: int| 0 <= j < expired.len() implies (#[trigger] expired[j]).data.event_data
        != token by {
        assert(expired[j] == s.timers[j]);
    }
    lemma_timers_keep(kept, expired, token);
}

/// Whether `b` has the interest list of `a` and, record for record, the
/// descriptors of `a`.
pub open spec fn keeps_fds(a: ShardState, b: ShardState) -> bool {
    &&& b.fds == a.fds
    &&& b.events.len() == a.events.len()
    &&& forall|k: int| 0 <= k < a.events.len() ==> (#[trigger] b.events[k]).fd == a.events[k].fd
}

/// Notifications move no record to another descriptor.
pub proof fn lemma_events_keep_fds(s: ShardState, evs: Seq<SysEvent>)
    ensures
        keeps_fds(s, on_events(s, evs).0),
    decreases evs.len(),
{
    if evs.len() > 0 {
        let first = on_event(s, evs[0]).0;
        assert(keeps_fds(s, first));
        lemma_events_keep_fds(first, evs.subrange(1, evs.len() as int));
        let last = on_events(s, evs).0;
        assert forall|k: int| 0 <= k < s.events.len() implies (#[trigger] last.events[k]).fd
            == s.events[k].fd by {
            assert(first.events[k].fd == s.events[k].fd);
        }
    }
}

/// Expired timers move no record to another descriptor.
pub proof fn lemma_timers_keep_fds(s: ShardState, ts: Seq<TimerEntry>)
    ensures
        keeps_fds(s, on_timers(s, ts).0),
    decreases ts.len(),
{
    if ts.len() > 0 {
        let first = on_expire(s, ts[0]).0;
        assert(keeps_fds(s, first));
        lemma_timers_keep_fds(first, ts.subrange(1, ts.len() as int));
        let last = on_timers(s, ts).0;
        assert forall|k: int| 0 <= k < s.events.len() implies (#[trigger] last.events[k]).fd
            == s.events[k].fd by {
            assert(first.events[k].fd == s.events[k].fd);
        }
    }
}

/// Shard locality: a shard that holds only records and descriptors that it
/// serves goes on doing so, whatever it is asked for an operation on a
/// descriptor that it serves, whatever is taken out of its interest list,
/// and whatever notifications and timers a turn applies. A notification
/// whose token no record of the shard carries changes nothing there and
/// hands out nothing.
pub proof fn law_shard_locality(
    s: ShardState,
    n: int,
    id: int,
    io: EventData,
    fd: i32,
    evs: Seq<SysEvent>,
    now: u64,
    dur: u64,
    co: u64,
)
    requires
        serves(s, n, id),
    ensures
        shard_of(io.fd, n) == id ==> {
            &&& serves(on_register(s, io), n, id)
            &&& serves(on_arm(s, io, now, dur), n, id)
            &&& serves(on_wakeup(on_arm(s, io, now, dur)), n, id)
            &&& serves(on_disarm(s, io), n, id)
            &&& serves(on_publish(s, io, co), n, id)
        },
        serves(on_deregister(s, fd), n, id),
        serves(on_forget(s, io.token), n, id),
        serves(on_wakeup(s), n, id),
        serves(on_select(s, evs, now).0, n, id),
        evs.len() > 0 ==> serves(on_event(s, evs[0]).0, n, id),
        evs.len() > 0 && evs[0].data != 0 && !has_token(s.events, evs[0].data) ==> on_event(
            s,
            evs[0],
        ) == (s, None::<Resume>),
{
    if shard_of(io.fd, n) == id {
        let ev = recorded(s.events, io);
        assert forall|k: int| 0 <= k < ev.len() implies shard_of((#[trigger] ev[k]).fd, n)
            == id by {
            if k < s.events.len() {
                assert(ev[k] == s.events[k]);
            }
        }
        if io.token != 0 {
            assert(has_token(ev, io.token)) by {
                if has_token(s.events, io.token) {
                } else {
                    assert(ev[ev.len() - 1].token == io.token);
                }
            }
            let i = slot_of_token(ev, io.token);
            assert(0 <= i < ev.len());
        }
        let r = on_register(s, io);
        assert forall|k: int| 0 <= k < r.fds.len() implies shard_of(#[trigger] r.fds[k], n)
            == id by {
            if k < s.fds.len() {
                assert(r.fds[k] == s.fds[k]);
            }
        }
    }
    if has_fd(s.fds, fd) {
        let i = slot_of_fd(s.fds, fd);
        let after = s.fds.remove(i);
        assert forall|k: int| 0 <= k < after.len() implies shard_of(#[trigger] after[k], n)
            == id by {
            let b = if k < i { k } else { k + 1 };
            assert(after[k] == s.fds[b]);
        }
    }
    if has_token(s.events, io.token) {
        let i = slot_of_token(s.events, io.token);
        let after = s.events.remove(i);
        assert forall|k: int| 0 <= k < after.len() implies shard_of((#[trigger] after[k]).fd, n)
            == id by {
            let b = if k < i { k } else { k + 1 };
            assert(after[k] == s.events[b]);
        }
    }
    lemma_events_keep_fds(s, evs);
    let a = on_events(s, evs).0;
    let k = due(a.timers, now);
    let mid = ShardState { timers: a.timers.subrange(k, a.timers.len() as int), ..a };
    lemma_timers_keep_fds(mid, a.timers.subrange(0, k));
    let last = on_select(s, evs, now).0;
    assert forall|j: int| 0 <= j < last.events.len() implies shard_of(
        (#[trigger] last.events[j]).fd,
        n,
    ) == id by {
        assert(mid.events[j].fd == s.events[j].fd);
        assert(a.events[j].fd == s.events[j].fd);
    }
    if evs.len() > 0 {
        let one = on_event(s, evs[0]).0;
        assert(keeps_fds(s, one));
        assert forall|j: int| 0 <= j < one.events.len() implies shard_of(
            (#[trigger] one.events[j]).fd,
            n,
        ) == id by {
            assert(one.events[j].fd == s.events[j].fd);
        }
    }
}

/// Taking a descriptor out of the interest list leaves every record, every
/// parked task, every timer and the wakeups as they are.
pub proof fn law_deregister_keeps_tasks_and_timers(s: ShardState, fd: i32)
    ensures
        on_deregister(s, fd).events == s.events,
        parked(on_deregister(s, fd).events) == parked(s.events),
        on_deregister(s, fd).timers == s.timers,
        on_deregister(s, fd).next_id == s.next_id,
        on_deregister(s, fd).wakeups == s.wakeups,
{
}

/// A dropped operation is left alone: once it is forgotten, no pending
/// timer carries its token, so none of them can time anything out, and
/// the interest list, the count of timers and the wakeups are as before.
pub proof fn law_forgotten_operation_is_left_alone(s: ShardState, token: u64)
    requires
        token != 0,
        has_token(s.events, token),
    ensures
        timer_free(on_forget(s, token).timers, token),
        on_forget(s, token).timers.len() == s.timers.len(),
        on_forget(s, token).fds == s.fds,
        on_forget(s, token).wakeups == s.wakeups,
{
}

/// A timer is added for every operation, known to the shard or not: the
/// list grows by one entry, which carries the operation's token and the
/// next handle, and an operation with a token records that handle.
pub proof fn law_arming_always_adds(s: ShardState, io: EventData, now: u64, dur: u64)
    requires
        sorted(s.timers),
    ensures
        on_arm(s, io, now, dur).timers.len() == s.timers.len() + 1,
        on_arm(s, io, now, dur).timers[due(s.timers, deadline_after(now, dur))] == (TimerEntry {
            id: s.next_id,
            deadline: deadline_after(now, dur),
            data: crate::timer::TimerData { event_data: io.token },
        }),
        io.token != 0 ==> has_token(on_arm(s, io, now, dur).events, io.token),
        io.token != 0 && registry_ok(s.events) ==> on_arm(s, io, now, dur).events[slot_of_token(
            on_arm(s, io, now, dur).events,
            io.token,
        )].timer == Some(s.next_id),
{
    lemma_due_bounds(s.timers, deadline_after(now, dur));
    if io.token != 0 {
        let ev = recorded(s.events, io);
        assert(has_token(ev, io.token)) by {
            if !has_token(s.events, io.token) {
                assert(ev[ev.len() - 1].token == io.token);
            }
        }
        let i = slot_of_token(ev, io.token);
        let after = on_arm(s, io, now, dur).events;
        assert(after[i].token == io.token);
        if registry_ok(s.events) {
            lemma_recorded_ok(s.events, io);
            lemma_update_keeps_slots(ev, i, after[i], io.token);
        }
    }
}

/// A published task is parked where a completion finds it: after the task
/// `co` was published for an operation with a token, the operation is
/// recorded with the task in its slot, and scheduling it, by a
/// notification or by the operation itself, hands out that task, once and
/// without an error.
pub proof fn law_published_task_is_found(s: ShardState, io: EventData, co: u64, events: u32)
    requires
        registry_ok(s.events),
        io.token != 0,
    ensures
        has_token(on_publish(s, io, co).events, io.token),
        on_publish(s, io, co).events[slot_of_token(on_publish(s, io, co).events, io.token)].co
            == Some(co),
        on_event(on_publish(s, io, co), (SysEvent { events, data: io.token })).1 == Some(
            Resume { co, error: None },
        ),
        on_event(
            on_event(on_publish(s, io, co), (SysEvent { events, data: io.token })).0,
            (SysEvent { events, data: io.token }),
        ).1.is_none(),
{
    lemma_recorded_ok(s.events, io);
    let ev = recorded(s.events, io);
    assert(has_token(ev, io.token)) by {
        if !has_token(s.events, io.token) {
            assert(ev[ev.len() - 1].token == io.token);
        }
    }
    let i = slot_of_token(ev, io.token);
    let e = EventData { co: Some(co), ..ev[i] };
    lemma_update_keeps_slots(ev, i, e, io.token);
    let p = on_publish(s, io, co);
    assert(p.events[i] == e);
    lemma_update_keeps_slots(p.events, i, swept(e), io.token);
}

/// Recording an operation keeps the records in order.
pub proof fn lemma_recorded_ok(s: Seq<EventData>, io: EventData)
    requires
        registry_ok(s),
    ensures
        registry_ok(recorded(s, io)),
{
    let ev = recorded(s, io);
    assert forall|a: int| 0 <= a < ev.len() implies (#[trigger] ev[a]).token != 0 by {
        if a < s.len() {
            assert(ev[a] == s[a]);
        }
    }
    assert forall|a: int, b: int| 0 <= a < ev.len() && 0 <= b < ev.len() && a != b implies ev[a].token
        != ev[b].token by {
        if a < s.len() {
            assert(ev[a] == s[a]);
        }
        if b < s.len() {
            assert(ev[b] == s[b]);
        }
    }
}

/// Registering an operation and then deleting its descriptor leaves the
/// reactor's interest list, the timers and the wakeups as they were; the
/// operation stays recorded.
pub proof fn law_register_then_deregister(s: ShardState, ev: EventData)
    requires
        register_refusal(s, ev).is_none(),
    ensures
        on_deregister(on_register(s, ev), ev.fd).fds == s.fds,
        on_deregister(on_register(s, ev), ev.fd).timers == s.timers,
        on_deregister(on_register(s, ev), ev.fd).next_id == s.next_id,
        on_deregister(on_register(s, ev), ev.fd).wakeups == s.wakeups,
        on_deregister(on_register(s, ev), ev.fd).events == recorded(s.events, ev),
{
    let r = on_register(s, ev);
    let n = s.fds.len() as int;
    assert(r.fds[n] == ev.fd);
    assert(has_fd(r.fds, ev.fd));
    let i = slot_of_fd(r.fds, ev.fd);
    if i < n {
        assert(s.fds[i] == ev.fd);
        assert(has_fd(s.fds, ev.fd));
    }
    assert(r.fds.remove(n) =~= s.fds);
}

/// Earliest-deadline wake: arming an operation asks for a wakeup
/// exactly when the new deadline lies before the one the shard was waiting
/// for; the new timer then heads the list. Otherwise the head, and with it
/// the horizon of the wait, stays as it was.
pub proof fn law_wake_iff_horizon_moves(s: ShardState, io: EventData, now: u64, dur: u64)
    requires
        sorted(s.timers),
    ensures
        arm_wakes(s, now, dur) <==> (s.timers.len() == 0 || deadline_after(now, dur)
            < s.timers[0].deadline),
        arm_wakes(s, now, dur) ==> next_deadline(on_arm(s, io, now, dur).timers) == Some(
            deadline_after(now, dur),
        ),
        !arm_wakes(s, now, dur) ==> next_deadline(on_arm(s, io, now, dur).timers)
            == next_deadline(s.timers),
{
    let d = deadline_after(now, dur);
    lemma_due_bounds(s.timers, d);
    if s.timers.len() > 0 && d < s.timers[0].deadline {
        assert forall|i: int| 0 <= i < s.timers.len() implies d < (
        #[trigger] s.timers[i]).deadline by {
            assert(s.timers[0].deadline <= s.timers[i].deadline);
        }
    }
    if arm_wakes(s, now, dur) {
        if due(s.timers, d) > 0 {
            assert(s.timers[0].deadline <= d);
        }
    } else {
        if due(s.timers, d) == 0 && s.timers.len() > 0 {
            assert(s.timers[0].deadline > d);
        }
    }
}

/// The state after `n` wakeups.
pub open spec fn after_wakeups(s: ShardState, n: nat) -> ShardState
    decreases n,
{
    if n == 0 {
        s
    } else {
        on_wakeup(after_wakeups(s, (n - 1) as nat))
    }
}

/// Wakeups coalesce: however many wakeups were noted, they change nothing
/// but their count, and one wakeup notification drains them all.
pub proof fn law_wakeups_coalesce(s: ShardState, n: nat, events: u32)
    ensures
        after_wakeups(s, n) == (ShardState { wakeups: after_wakeups(s, n).wakeups, ..s }),
        on_event(after_wakeups(s, n), (SysEvent { events, data: 0 })) == (
            (ShardState { wakeups: 0, ..s }),
            None::<Resume>,
        ),
    decreases n,
{
    if n > 0 {
        law_wakeups_coalesce(s, (n - 1) as nat, events);
    }
}

/// The number of operations with a parked task.
pub open spec fn parked(events: Seq<EventData>) -> nat
    decreases events.len(),
{
    if events.len() == 0 {
        0
    } else {
        parked(events.drop_last()) + (if events.last().co.is_some() {
            1nat
        } else {
            0nat
        })
    }
}

/// Replacing one record changes the number of parked tasks by what the two
/// records differ in.
pub proof fn lemma_parked_update(events: Seq<EventData>, i: int, e: EventData)
    requires
        0 <= i < events.len(),
    ensures
        parked(events.update(i, e)) + (if events[i].co.is_some() {
            1nat
        } else {
            0nat
        }) == parked(events) + (if e.co.is_some() {
            1nat
        } else {
            0nat
        }),
    decreases events.len(),
{
    let u = events.update(i, e);
    if i == events.len() - 1 {
        assert(u.drop_last() =~= events.drop_last());
    } else {
        assert(u.drop_last() =~= events.drop_last().update(i, e));
        assert(events.drop_last()[i] == events[i]);
        lemma_parked_update(events.drop_last(), i, e);
    }
}

/// One notification hands out a task iff it empties one slot.
pub proof fn lemma_event_conserves(s: ShardState, ev: SysEvent)
    ensures
        parked(on_event(s, ev).0.events) + handed(on_event(s, ev).1).len() == parked(s.events),
{
    if ev.data != 0 && has_token(s.events, ev.data) {
        let i = slot_of_token(s.events, ev.data);
        lemma_parked_update(s.events, i, swept(s.events[i]));
    }
}

/// One expired timer hands out a task iff it empties one slot.
pub proof fn lemma_expire_conserves(s: ShardState, t: TimerEntry)
    ensures
        parked(on_expire(s, t).0.events) + handed(on_expire(s, t).1).len() == parked(s.events),
{
    if t.data.event_data != 0 && has_token(s.events, t.data.event_data) {
        let i = slot_of_token(s.events, t.data.event_data);
        lemma_parked_update(s.events, i, swept(s.events[i]));
    }
}

/// Notifications hand out as many tasks as they empty slots.
pub proof fn lemma_events_conserve(s: ShardState, evs: Seq<SysEvent>)
    ensures
        parked(on_events(s, evs).0.events) + on_events(s, evs).1.len() == parked(s.events),
    decreases evs.len(),
{
    if evs.len() > 0 {
        lemma_event_conserves(s, evs[0]);
        lemma_events_conserve(on_event(s, evs[0]).0, evs.subrange(1, evs.len() as int));
    }
}

/// Expired timers hand out as many tasks as they empty slots.
pub proof fn lemma_timers_conserve(s: ShardState, ts: Seq<TimerEntry>)
    ensures
        parked(on_timers(s, ts).0.events) + on_timers(s, ts).1.len() == parked(s.events),
    decreases ts.len(),
{
    if ts.len() > 0 {
        lemma_expire_conserves(s, ts[0]);
        lemma_timers_conserve(on_expire(s, ts[0]).0, ts.subrange(1, ts.len() as int));
    }
}

/// Single delivery over a whole turn: whatever notifications arrive and
/// whatever timers expire, and in whatever order they collide, every task
/// that was parked before the turn is afterwards either still parked or was
/// handed out exactly once; no task is handed out that was not parked.
pub proof fn law_turn_conserves_tasks(s: ShardState, evs: Seq<SysEvent>, now: u64)
    ensures
        parked(on_select(s, evs, now).0.events) + on_select(s, evs, now).1.len() == parked(
            s.events,
        ),
{
    lemma_events_conserve(s, evs);
    let a = on_events(s, evs);
    let k = due(a.0.timers, now);
    lemma_timers_conserve(
        (ShardState { timers: a.0.timers.subrange(k, a.0.timers.len() as int), ..a.0 }),
        a.0.timers.subrange(0, k),
    );
}

} // verus!
