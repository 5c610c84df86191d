//! The timer list of one shard: pending timeouts in order of expiration.

use vstd::prelude::*;

verus! {

/// The payload of a timer: the token of the operation it guards, or `0` once
/// the operation has completed and swept the timer.
#[derive(Clone, Copy, Debug)]
pub struct TimerData {
    pub event_data: u64,
}

/// One pending timeout.
#[derive(Clone, Copy, Debug)]
pub struct TimerEntry {
    /// The handle under which the timer can be removed.
    pub id: u64,
    /// The instant, in nanoseconds, at which the timer expires.
    pub deadline: u64,
    pub data: TimerData,
}

/// Pending timeouts, earliest first; timers with equal deadlines stay in the
/// order in which they were added.
pub struct TimerList {
    pub entries: Vec<TimerEntry>,
    /// The handle that the next timer gets.
    pub next_id: u64,
}

/// Deadlines never decrease along the sequence.
pub open spec fn sorted(s: Seq<TimerEntry>) -> bool {
    forall|i: int, j: int| 0 <= i <= j < s.len() ==> s[i].deadline <= s[j].deadline
}

/// No two entries share a handle, and every handle was issued before `next`.
pub open spec fn handles_ok(s: Seq<TimerEntry>, next: u64) -> bool {
    &&& forall|i: int| 0 <= i < s.len() ==> (#[trigger] s[i]).id < next
    &&& forall|i: int, j: int| 0 <= i < s.len() && 0 <= j < s.len() && i != j ==> s[i].id != s[j].id
}

/// Whether a timer with handle `id` is pending.
pub open spec fn has_id(s: Seq<TimerEntry>, id: u64) -> bool {
    exists|i: int| 0 <= i < s.len() && (#[trigger] s[i]).id == id
}

/// The place of the timer with handle `id`, where one is pending.
pub open spec fn slot_of_id(s: Seq<TimerEntry>, id: u64) -> int {
    choose|i: int| 0 <= i < s.len() && (#[trigger] s[i]).id == id
}

/// The pending timers with the one of handle `id` taken out.
pub open spec fn without(s: Seq<TimerEntry>, id: u64) -> Seq<TimerEntry> {
    if has_id(s, id) {
        s.remove(slot_of_id(s, id))
    } else {
        s
    }
}

/// The timer with its payload cleared.
pub open spec fn cleared(e: TimerEntry) -> TimerEntry {
    TimerEntry { data: TimerData { event_data: 0 }, ..e }
}

/// The pending timers with the payload cleared of each that carries
/// `token`.
pub open spec fn defused(s: Seq<TimerEntry>, token: u64) -> Seq<TimerEntry> {
    Seq::new(
        s.len(),
        |k: int|
            if s[k].data.event_data == token {
                cleared(s[k])
            } else {
                s[k]
            },
    )
}

/// The length of the longest prefix whose deadlines are at most `now`.
pub open spec fn due(s: Seq<TimerEntry>, now: u64) -> int
    decreases s.len(),
{
    if s.len() == 0 || s[0].deadline > now {
        0
    } else {
        1 + due(s.subrange(1, s.len() as int), now)
    }
}

/// Whether `deadline` lies before every pending deadline.
pub open spec fn earlier_than_all(s: Seq<TimerEntry>, deadline: u64) -> bool {
    forall|i: int| 0 <= i < s.len() ==> deadline < (#[trigger] s[i]).deadline
}

/// The deadline at the head of the list.
pub open spec fn next_deadline(s: Seq<TimerEntry>) -> Option<u64> {
    if s.len() == 0 {
        None
    } else {
        Some(s[0].deadline)
    }
}

/// The instant `dur` nanoseconds after `now`, held at the largest instant.
pub open spec fn deadline_after(now: u64, dur: u64) -> u64 {
    if now + dur > u64::MAX {
        u64::MAX
    } else {
        (now + dur) as u64
    }
}

/// In a sorted list the timers due at `now` are exactly those before
/// `due(s, now)`.
pub proof fn lemma_due_bounds(s: Seq<TimerEntry>, now: u64)
    requires
        sorted(s),
    ensures
        0 <= due(s, now) <= s.len(),
        forall|i: int| 0 <= i < due(s, now) ==> (#[trigger] s[i]).deadline <= now,
        forall|i: int| due(s, now) <= i < s.len() ==> (#[trigger] s[i]).deadline > now,
    decreases s.len(),
{
    if s.len() == 0 || s[0].deadline > now {
    } else {
        let t = s.subrange(1, s.len() as int);
        assert forall|i: int, j: int| 0 <= i <= j < t.len() implies t[i].deadline
            <= t[j].deadline by {
            assert(t[i] == s[i + 1] && t[j] == s[j + 1]);
        }
        lemma_due_bounds(t, now);
        assert forall|i: int| 0 <= i < due(s, now) implies (#[trigger] s[i]).deadline <= now by {
            if i > 0 {
                assert(s[i] == t[i - 1]);
            }
        }
        assert forall|i: int| due(s, now) <= i < s.len() implies (#[trigger] s[i]).deadline
            > now by {
            assert(s[i] == t[i - 1]);
        }
    }
}

impl TimerList {
    /// The list is in order of expiration and its handles are distinct.
    pub open spec fn wf(&self) -> bool {
        &&& sorted(self.entries@)
        &&& handles_ok(self.entries@, self.next_id)
    }

    pub fn new() -> (list: TimerList)
        ensures
            list.wf(),
            list.entries@ == Seq::<TimerEntry>::empty(),
            list.next_id == 0,
    {
        TimerList { entries: Vec::new(), next_id: 0 }
    }

    /// The number of timers that are due at `now`.
    pub fn due_count(&self, now: u64) -> (k: usize)
        ensures
            k == due(self.entries@, now),
            k <= self.entries@.len(),
            forall|j: int| 0 <= j < k ==> (#[trigger] self.entries@[j]).deadline <= now,
            k < self.entries@.len() ==> self.entries@[k as int].deadline > now,
    {
        let mut i: usize = 0;
        proof {
            assert(self.entries@.subrange(0, self.entries@.len() as int) =~= self.entries@);
        }
        while i < self.entries.len() && self.entries[i].deadline <= now
            invariant
                i <= self.entries@.len(),
                forall|j: int| 0 <= j < i ==> (#[trigger] self.entries@[j]).deadline <= now,
                due(self.entries@, now) == i + due(
                    self.entries@.subrange(i as int, self.entries@.len() as int),
                    now,
                ),
            decreases self.entries@.len() - i,
        {
            proof {
                let t = self.entries@.subrange(i as int, self.entries@.len() as int);
                assert(t[0] == self.entries@[i as int]);
                assert(t.subrange(1, t.len() as int) =~= self.entries@.subrange(
                    i + 1,
                    self.entries@.len() as int,
                ));
            }
            i += 1;
        }
        proof {
            let t = self.entries@.subrange(i as int, self.entries@.len() as int);
            if i < self.entries@.len() {
                assert(t[0] == self.entries@[i as int]);
            }
        }
        i
    }

    /// Adds a timer that expires `dur` nanoseconds after `now`. It is placed
    /// behind the pending timers that expire no later. Returns its handle,
    /// and whether it now is the earliest of all.
    pub fn add_timer(&mut self, now: u64, dur: u64, data: TimerData) -> (r: (u64, bool))
        requires
            old(self).wf(),
            old(self).next_id < u64::MAX,
        ensures
            final(self).wf(),
            r.0 == old(self).next_id,
            final(self).next_id == old(self).next_id + 1,
            r.1 == earlier_than_all(old(self).entries@, deadline_after(now, dur)),
            final(self).entries@ == old(self).entries@.insert(
                due(old(self).entries@, deadline_after(now, dur)),
                (TimerEntry { id: r.0, deadline: deadline_after(now, dur), data }),
            ),
    {
        let deadline: u64 = now.saturating_add(dur);
        let id: u64 = self.next_id;
        let k: usize = self.due_count(deadline);
        let entry = TimerEntry { id, deadline, data };
        let ghost before = self.entries@;
        self.entries.insert(k, entry);
        self.next_id = id + 1;
        proof {
            let after = self.entries@;
            assert forall|i: int, j: int| 0 <= i <= j < after.len() implies after[i].deadline
                <= after[j].deadline by {
                if i < k && j > k {
                    assert(before[i].deadline <= deadline);
                    assert(after[j] == before[j - 1]);
                    assert(before[k as int].deadline <= before[j - 1].deadline);
                }
                if i == k && j > k {
                    assert(after[j] == before[j - 1]);
                    assert(before[k as int].deadline <= before[j - 1].deadline);
                }
                if i > k {
                    assert(after[i] == before[i - 1] && after[j] == before[j - 1]);
                }
            }
            assert(handles_ok(after, self.next_id)) by {
                assert forall|i: int| 0 <= i < after.len() implies (#[trigger] after[i]).id
                    < self.next_id by {
                    if i < k {
                        assert(after[i] == before[i]);
                    } else if i > k {
                        assert(after[i] == before[i - 1]);
                    }
                }
                assert forall|i: int, j: int|
                    0 <= i < after.len() && 0 <= j < after.len() && i != j implies after[i].id
                    != after[j].id by {
                    let bi = if i < k { i } else { i - 1 };
                    let bj = if j < k { j } else { j - 1 };
                    if i != k {
                        assert(after[i] == before[bi]);
                    }
                    if j != k {
                        assert(after[j] == before[bj]);
                    }
                }
            }
            if k == 0 {
                assert forall|i: int| 0 <= i < before.len() implies deadline < (
                #[trigger] before[i]).deadline by {
                    assert(before[0].deadline <= before[i].deadline);
                }
            } else {
                assert(before[0].deadline <= deadline);
            }
        }
        (id, k == 0)
    }

    /// Takes the timer with the given handle out of the list, clearing its
    /// payload first. Returns whether such a timer was pending.
    pub fn remove(&mut self, handle: u64) -> (removed: bool)
        requires
            old(self).wf(),
        ensures
            final(self).wf(),
            final(self).next_id == old(self).next_id,
            removed == has_id(old(self).entries@, handle),
            final(self).entries@ == without(old(self).entries@, handle),
    {
        let mut i: usize = 0;
        while i < self.entries.len() && self.entries[i].id != handle
            invariant
                i <= self.entries@.len(),
                *self == *old(self),
                forall|j: int| 0 <= j < i ==> (#[trigger] self.entries@[j]).id != handle,
            decreases self.entries@.len() - i,
        {
            i += 1;
        }
        if i < self.entries.len() {
            let ghost before = self.entries@;
            let mut entry = self.entries[i];
            entry.data = TimerData { event_data: 0 };
            self.entries.set(i, entry);
            self.entries.remove(i);
            proof {
                let after = self.entries@;
                assert(before[i as int].id == handle);
                assert(has_id(before, handle));
                assert(slot_of_id(before, handle) == i);
                assert(after =~= before.remove(i as int));
                assert forall|a: int, b: int| 0 <= a <= b < after.len() implies after[a].deadline
                    <= after[b].deadline by {
                    let ba = if a < i { a } else { a + 1 };
                    let bb = if b < i { b } else { b + 1 };
                    assert(after[a] == before[ba] && after[b] == before[bb]);
                }
                assert forall|a: int| 0 <= a < after.len() implies (#[trigger] after[a]).id
                    < self.next_id by {
                    let ba = if a < i { a } else { a + 1 };
                    assert(after[a] == before[ba]);
                }
                assert forall|a: int, b: int|
                    0 <= a < after.len() && 0 <= b < after.len() && a != b implies after[a].id
                    != after[b].id by {
                    let ba = if a < i { a } else { a + 1 };
                    let bb = if b < i { b } else { b + 1 };
                    assert(after[a] == before[ba] && after[b] == before[bb]);
                }
            }
            true
        } else {
            false
        }
    }

    /// Takes out every timer that is due at `now`. Returns them in order of
    /// expiration, and the deadline of the earliest timer that stays.
    pub fn schedule_timer(&mut self, now: u64) -> (r: (Vec<TimerEntry>, Option<u64>))
        requires
            old(self).wf(),
        ensures
            final(self).wf(),
            final(self).next_id == old(self).next_id,
            r.0@ == old(self).entries@.subrange(0, due(old(self).entries@, now)),
            final(self).entries@ == old(self).entries@.subrange(
                due(old(self).entries@, now),
                old(self).entries@.len() as int,
            ),
            r.1 == next_deadline(final(self).entries@),
    {
        let ghost before = self.entries@;
        let k: usize = self.due_count(now);
        let mut expired = self.entries.split_off(k);
        core::mem::swap(&mut self.entries, &mut expired);
        proof {
            let after = self.entries@;
            assert forall|a: int, b: int| 0 <= a <= b < after.len() implies after[a].deadline
                <= after[b].deadline by {
                assert(after[a] == before[a + k] && after[b] == before[b + k]);
            }
            assert forall|a: int| 0 <= a < after.len() implies (#[trigger] after[a]).id
                < self.next_id by {
                assert(after[a] == before[a + k]);
            }
            assert forall|a: int, b: int|
                0 <= a < after.len() && 0 <= b < after.len() && a != b implies after[a].id
                != after[b].id by {
                assert(after[a] == before[a + k] && after[b] == before[b + k]);
            }
        }
        let next: Option<u64> = if self.entries.len() == 0 {
            None
        } else {
            Some(self.entries[0].deadline)
        };
        (expired, next)
    }

    /// Clears the payload of every pending timer that carries `token`, so
    /// that its expiration does nothing. The timers stay in the list.
    pub fn defuse(&mut self, token: u64)
        requires
            old(self).wf(),
        ensures
            final(self).wf(),
            final(self).next_id == old(self).next_id,
            final(self).entries@ == defused(old(self).entries@, token),
    {
        let ghost before = self.entries@;
        let mut i: usize = 0;
        while i < self.entries.len()
            invariant
                i <= self.entries@.len(),
                self.next_id == old(self).next_id,
                self.entries@.len() == before.len(),
                forall|k: int|
                    0 <= k < i ==> (#[trigger] self.entries@[k]) == defused(before, token)[k],
                forall|k: int| i <= k < before.len() ==> (#[trigger] self.entries@[k]) == before[k],
            decreases self.entries@.len() - i,
        {
            let e = self.entries[i];
            if e.data.event_data == token {
                self.entries.set(i, TimerEntry { data: TimerData { event_data: 0 }, ..e });
            }
            i += 1;
        }
        proof {
            let after = self.entries@;
            assert(after =~= defused(before, token));
            assert forall|a: int| 0 <= a < after.len() implies (#[trigger] after[a]).deadline
                == before[a].deadline && after[a].id == before[a].id by {}
            assert forall|a: int, b: int| 0 <= a <= b < after.len() implies after[a].deadline
                <= after[b].deadline by {
                assert(after[a].deadline == before[a].deadline);
                assert(after[b].deadline == before[b].deadline);
            }
            assert forall|a: int, b: int|
                0 <= a < after.len() && 0 <= b < after.len() && a != b implies after[a].id
                != after[b].id by {
                assert(after[a].id == before[a].id);
                assert(after[b].id == before[b].id);
            }
        }
    }
}

} // verus!
