use co_reactor::event::{co_io_result, EventData, IoError, SysEvent};
use co_reactor::flags::EventFlags;
use co_reactor::iocp::{
    completion_error, handle_completion, handle_completions, timeout_handler, wakeup_status,
    CompletionNotice,
};
use co_reactor::selector::{Selector, SelectorError};
use co_reactor::shard::{RegistrationError, SingleSelector};
use co_reactor::timer::TimerData;

fn reactor(n: usize) -> Selector {
    let handles: Vec<(i32, i32)> = (0..n).map(|i| (100 + i as i32, 200 + i as i32)).collect();
    match Selector::new(&handles) {
        Ok(s) => s,
        Err(_) => panic!("no reactor"),
    }
}

fn notice(token: u64) -> SysEvent {
    SysEvent { events: 1, data: token }
}

#[test]
fn reactor_needs_between_one_and_128_shards() {
    assert!(matches!(Selector::new(&vec![]), Err(SelectorError::BadShardCount)));
    let many: Vec<(i32, i32)> = (0..129).map(|i| (i, i)).collect();
    assert!(matches!(Selector::new(&many), Err(SelectorError::BadShardCount)));
    assert_eq!(reactor(1).len(), 1);
    assert_eq!(reactor(128).len(), 128);
}

#[test]
fn shards_keep_their_handles_in_order() {
    let s = reactor(3);
    assert_eq!(s.len(), 3);
    for i in 0..3 {
        assert_eq!(s.shard(i).epfd, 100 + i as i32);
        assert_eq!(s.shard(i).evfd, 200 + i as i32);
        assert!(s.shard(i).events.is_empty());
        assert!(s.shard(i).timer_list.entries.is_empty());
        assert_eq!(s.shard(i).wakeups, 0);
    }
}

#[test]
fn descriptor_selects_its_shard() {
    let s = reactor(4);
    assert_eq!(s.shard_id(0), 0);
    assert_eq!(s.shard_id(5), 1);
    assert_eq!(s.shard_id(7), 3);
    assert_eq!(s.shard_id(i32::MAX), (i32::MAX as usize) % 4);
    assert_eq!(s.shard_id(-1), (-1i32) as usize % 4);
    assert_eq!(s.shard_id(i32::MIN), (i32::MIN) as usize % 4);
    let t = reactor(3);
    assert_eq!(t.shard_id(-1), (-1i32) as usize % 3);
    assert_eq!(t.shard_id(-7), (-7i32) as usize % 3);
}

#[test]
fn add_io_asks_the_owning_reactor() {
    let mut s = reactor(4);
    let mut ev = EventData::new(0xABC0, 6, EventFlags::read());
    let req = match s.add_io(&ev) {
        Ok(r) => r,
        Err(_) => panic!("refused"),
    };
    assert_eq!(req.epfd, 102);
    assert!(req.add);
    assert_eq!(req.fd, 6);
    assert_eq!(req.kind.bits, 0xC000_0001);
    assert_eq!(req.data, 0xABC0);
    for i in 0..4 {
        assert_eq!(s.shard(i).events.len(), if i == 2 { 1 } else { 0 });
        assert_eq!(s.shard(i).fds, if i == 2 { vec![6] } else { vec![] });
    }
    assert_eq!(s.shard(2).events[0].token, 0xABC0);
    assert_eq!(s.shard(2).events[0].fd, 6);
}

#[test]
fn add_io_refuses_what_is_registered() {
    let mut s = reactor(4);
    assert!(matches!(
        s.add_io(&EventData::new(0, 1, EventFlags::read())),
        Err(RegistrationError::NullToken)
    ));
    assert!(s.shard(1).fds.is_empty());
    assert!(s.add_io(&EventData::new(10, 1, EventFlags::read())).is_ok());
    assert!(matches!(
        s.add_io(&EventData::new(11, 1, EventFlags::write())),
        Err(RegistrationError::FdInUse)
    ));
    assert!(matches!(
        s.add_io(&EventData::new(10, 1, EventFlags::read())),
        Err(RegistrationError::FdInUse)
    ));
    assert_eq!(s.shard(1).fds, vec![1]);
    assert_eq!(s.shard(1).events.len(), 1);
    assert!(s.add_io(&EventData::new(10, 5, EventFlags::read())).is_ok());
    assert_eq!(s.shard(1).fds, vec![1, 5]);
    assert_eq!(s.shard(1).events.len(), 1);
    assert!(s.add_io(&EventData::new(10, 2, EventFlags::read())).is_ok());
    assert_eq!(s.shard(2).fds, vec![2]);
}

#[test]
fn shard_hashing_is_stable() {
    let mut s = reactor(5);
    for round in 0..20u64 {
        let mut ev = EventData::new(1000 + round, 13, EventFlags::write());
        let req = match s.add_io(&ev) {
            Ok(r) => r,
            Err(_) => panic!("refused"),
        };
        assert_eq!(req.epfd, 103);
        assert_eq!(s.shard(3).fds.len(), 1);
        let del = s.del_fd(13);
        assert_eq!(del.epfd, 103);
        assert!(!del.add);
        assert_eq!(del.fd, 13);
        assert_eq!(del.kind.bits, 0);
        assert_eq!(del.data, 0);
        for i in 0..5 {
            assert!(s.shard(i).fds.is_empty());
            assert!(s.shard(i).timer_list.entries.is_empty());
            assert_eq!(s.shard(i).wakeups, 0);
            if i != 3 {
                assert!(s.shard(i).events.is_empty());
            }
        }
    }
}

#[test]
fn add_then_delete_leaves_the_reactor_as_it_was() {
    let mut s = reactor(2);
    assert!(s.add_io(&EventData::new(1, 2, EventFlags::read())).is_ok());
    s.publish(2, 1, 50);
    s.add_io_timer(&mut EventData::new(1, 2, EventFlags::read()), Some(500), 0);
    assert!(s.add_io(&EventData::new(2, 4, EventFlags::read())).is_ok());
    assert_eq!(s.shard(0).fds, vec![2, 4]);
    s.del_fd(4);
    let shard = s.shard(0);
    assert_eq!(shard.fds, vec![2]);
    assert_eq!(shard.events[0].token, 1);
    assert_eq!(shard.events[0].co, Some(50));
    assert_eq!(shard.events[0].timer, Some(0));
    assert_eq!(shard.timer_list.entries.len(), 1);
    assert_eq!(shard.timer_list.next_id, 1);
    assert_eq!(shard.wakeups, 1);
}

#[test]
fn delete_of_unknown_descriptor_changes_nothing() {
    let mut s = reactor(2);
    assert!(s.add_io(&EventData::new(1, 2, EventFlags::read())).is_ok());
    let req = s.del_fd(8);
    assert_eq!(req.epfd, 100);
    assert_eq!(s.shard(0).events.len(), 1);
}

#[test]
fn delete_leaves_timer_and_task() {
    let mut s = reactor(1);
    let mut ev = EventData::new(1, 2, EventFlags::read());
    assert!(s.add_io(&ev).is_ok());
    s.add_io_timer(&mut ev, Some(500), 0);
    assert!(s.publish(2, 1, 33));
    s.del_fd(2);
    assert!(s.shard(0).fds.is_empty());
    assert_eq!(s.shard(0).timer_list.entries.len(), 1);
    assert_eq!(s.shard(0).events[0].co, Some(33));
    assert_eq!(s.shard(0).events[0].timer, Some(0));
    let (resumes, next) = s.select(0, &vec![], 1000);
    assert_eq!(resumes.len(), 1);
    assert_eq!(resumes[0].co, 33);
    assert!(matches!(resumes[0].error, Some(IoError::TimedOut)));
    assert_eq!(next, None);
}

#[test]
fn completion_hands_the_task_out_once() {
    let mut s = reactor(2);
    let mut ev = EventData::new(77, 3, EventFlags::read());
    assert!(s.add_io(&ev).is_ok());
    assert!(s.publish(3, 77, 9));
    let (resumes, next) = s.select(1, &vec![notice(77)], 0);
    assert_eq!(resumes.len(), 1);
    assert_eq!(resumes[0].co, 9);
    assert!(resumes[0].error.is_none());
    assert_eq!(next, None);
    let (again, _) = s.select(1, &vec![notice(77), notice(77)], 0);
    assert!(again.is_empty());
    assert_eq!(s.shard(1).events[0].co, None);
}

#[test]
fn notification_without_a_parked_task_is_dropped() {
    let mut s = reactor(1);
    assert!(s.add_io(&EventData::new(77, 3, EventFlags::read())).is_ok());
    let (resumes, _) = s.select(0, &vec![notice(77)], 0);
    assert!(resumes.is_empty());
    assert!(s.publish(3, 77, 9));
    let (resumes, _) = s.select(0, &vec![notice(77)], 0);
    assert_eq!(resumes.len(), 1);
}

#[test]
fn notification_of_another_shard_is_ignored() {
    let mut s = reactor(2);
    assert!(s.add_io(&EventData::new(77, 3, EventFlags::read())).is_ok());
    assert!(s.publish(3, 77, 9));
    let (resumes, _) = s.select(0, &vec![notice(77)], 0);
    assert!(resumes.is_empty());
    assert_eq!(s.shard(1).events[0].co, Some(9));
    assert!(!s.publish(3, 0, 1));
    assert_eq!(s.shard(1).events.len(), 1);
}

#[test]
fn events_are_handled_in_order() {
    let mut s = reactor(1);
    for k in 1..=4u64 {
        assert!(s.add_io(&EventData::new(k, k as i32, EventFlags::read())).is_ok());
        assert!(s.publish(k as i32, k, 10 * k));
    }
    let (resumes, _) = s.select(0, &vec![notice(3), notice(1), notice(0), notice(4)], 0);
    let cos: Vec<u64> = resumes.iter().map(|r| r.co).collect();
    assert_eq!(cos, vec![30, 10, 40]);
}

#[test]
fn timer_hands_the_task_out_with_timed_out() {
    let mut s = reactor(1);
    let mut ev = EventData::new(5, 9, EventFlags::read());
    assert!(s.add_io(&ev).is_ok());
    let wake = s.add_io_timer(&mut ev, Some(1000), 10);
    assert!(wake.is_some());
    assert!(s.publish(9, 5, 42));
    assert_eq!(s.shard(0).events[0].timer, Some(0));
    let (early, next) = s.select(0, &vec![], 1009);
    assert!(early.is_empty());
    assert_eq!(next, Some(1010));
    let (resumes, next) = s.select(0, &vec![], 1010);
    assert_eq!(resumes.len(), 1);
    assert_eq!(resumes[0].co, 42);
    assert!(matches!(resumes[0].error, Some(IoError::TimedOut)));
    assert_eq!(next, None);
    assert_eq!(s.shard(0).events[0].timer, None);
    let (late, _) = s.select(0, &vec![notice(5)], 2000);
    assert!(late.is_empty());
}

#[test]
fn completion_sweeps_the_timer() {
    let mut s = reactor(1);
    let mut ev = EventData::new(5, 9, EventFlags::read());
    assert!(s.add_io(&ev).is_ok());
    s.add_io_timer(&mut ev, Some(1000), 0);
    assert!(s.publish(9, 5, 42));
    let (resumes, next) = s.select(0, &vec![notice(5)], 10);
    assert_eq!(resumes.len(), 1);
    assert!(resumes[0].error.is_none());
    assert_eq!(next, None);
    assert!(s.shard(0).timer_list.entries.is_empty());
    let (late, _) = s.select(0, &vec![], 5000);
    assert!(late.is_empty());
}

#[test]
fn completion_and_timeout_in_one_turn_deliver_once() {
    let mut s = reactor(1);
    let mut ev = EventData::new(5, 9, EventFlags::read());
    assert!(s.add_io(&ev).is_ok());
    s.add_io_timer(&mut ev, Some(1000), 0);
    assert!(s.publish(9, 5, 42));
    let (resumes, _) = s.select(0, &vec![notice(5)], 1000);
    assert_eq!(resumes.len(), 1);
    assert!(resumes[0].error.is_none());
}

#[test]
fn timer_collides_with_completion() {
    let mut s = reactor(3);
    let mut ok = 0u32;
    let mut timed_out = 0u32;
    for round in 0..10_000u64 {
        let fd = (round % 50) as i32;
        let token = fd as u64 + 1;
        let mut ev = EventData::new(token, fd, EventFlags::read());
        assert!(s.add_io(&ev).is_ok());
        let now = round * 10;
        s.add_io_timer(&mut ev, Some(1_000_000), now);
        assert!(s.publish(fd, token, round));
        let id = s.shard_id(fd);
        let mut seen = Vec::new();
        if round % 2 == 0 {
            let (a, _) = s.select(id, &vec![notice(token)], now + 1_000_000);
            seen.extend(a);
        } else {
            let (a, _) = s.select(id, &vec![], now + 1_000_000);
            seen.extend(a);
            let (b, _) = s.select(id, &vec![notice(token)], now + 1_000_000);
            seen.extend(b);
        }
        assert_eq!(seen.len(), 1);
        assert_eq!(seen[0].co, round);
        match seen[0].error {
            None => ok += 1,
            Some(IoError::TimedOut) => timed_out += 1,
            Some(IoError::Os(_)) => panic!("no such error here"),
        }
        s.del_fd(fd);
    }
    assert_eq!(ok + timed_out, 10_000);
    assert_eq!(ok, 5_000);
    assert_eq!(timed_out, 5_000);
}

#[test]
fn operation_without_timer_does_not_time_out() {
    let mut s = reactor(1);
    let mut plain = EventData::new(1, 1, EventFlags::read());
    let mut timed = EventData::new(2, 2, EventFlags::read());
    assert!(s.add_io(&plain).is_ok());
    assert!(s.add_io(&timed).is_ok());
    assert!(s.publish(1, 1, 11));
    assert!(s.publish(2, 2, 22));
    s.add_io_timer(&mut timed, Some(5), 0);
    let (resumes, _) = s.select(0, &vec![], u64::MAX);
    assert_eq!(resumes.len(), 1);
    assert_eq!(resumes[0].co, 22);
    assert_eq!(s.shard(0).events[0].co, Some(11));
}

#[test]
fn only_an_earlier_deadline_wakes_the_shard() {
    let mut s = reactor(2);
    let mut a = EventData::new(1, 1, EventFlags::read());
    let mut b = EventData::new(2, 3, EventFlags::read());
    let mut c = EventData::new(3, 5, EventFlags::read());
    assert!(s.add_io(&a).is_ok());
    assert!(s.add_io(&b).is_ok());
    assert!(s.add_io(&c).is_ok());
    let first = s.add_io_timer(&mut a, Some(1000), 0);
    match first {
        Some(w) => {
            assert_eq!(w.evfd, 201);
            assert_eq!(w.payload, 1u64.to_le_bytes());
        }
        None => panic!("the first timer is the earliest"),
    }
    assert_eq!(s.shard(1).wakeups, 1);
    assert!(s.add_io_timer(&mut b, Some(2000), 0).is_none());
    assert!(s.add_io_timer(&mut c, Some(1000), 0).is_none());
    assert_eq!(s.shard(1).wakeups, 1);
    assert!(s.add_io_timer(&mut b, Some(999), 0).is_some());
    assert_eq!(s.shard(1).wakeups, 2);
    assert_eq!(s.shard(0).wakeups, 0);
}

#[test]
fn timer_for_unregistered_operation_is_added_and_wakes() {
    let mut s = reactor(2);
    let mut io = EventData::new(9, 9, EventFlags::read());
    let wake = s.add_io_timer(&mut io, Some(10), 0);
    match wake {
        Some(w) => assert_eq!(w.evfd, 201),
        None => panic!("the first timer is the earliest"),
    }
    assert_eq!(s.shard(1).timer_list.entries.len(), 1);
    assert_eq!(s.shard(1).timer_list.entries[0].deadline, 10);
    assert_eq!(s.shard(1).timer_list.entries[0].data.event_data, 9);
    assert_eq!(s.shard(1).events[0].timer, Some(0));
    assert!(s.shard(1).fds.is_empty());
    assert!(s.shard(0).timer_list.entries.is_empty());
    assert!(s.publish(9, 9, 4));
    let (resumes, _) = s.select(1, &vec![], 10);
    assert_eq!(resumes.len(), 1);
    assert_eq!(resumes[0].co, 4);
    assert!(matches!(resumes[0].error, Some(IoError::TimedOut)));
}

#[test]
fn timer_without_token_is_added_and_does_nothing() {
    let mut s = reactor(1);
    let mut io = EventData::new(0, 9, EventFlags::read());
    assert!(s.add_io_timer(&mut io, Some(10), 0).is_some());
    assert_eq!(s.shard(0).timer_list.entries.len(), 1);
    assert!(s.shard(0).events.is_empty());
    let (resumes, next) = s.select(0, &vec![], 10);
    assert!(resumes.is_empty());
    assert_eq!(next, None);
}

#[test]
fn no_timeout_forgets_the_timer() {
    let mut s = reactor(1);
    let mut ev = EventData::new(5, 9, EventFlags::read());
    assert!(s.add_io(&ev).is_ok());
    s.add_io_timer(&mut ev, Some(1000), 0);
    assert_eq!(ev.timer, Some(0));
    s.add_io_timer(&mut ev, Some(1000), 0);
    assert_eq!(ev.timer, Some(1));
    assert_eq!(s.shard(0).events[0].timer, Some(1));
    assert_eq!(s.shard(0).timer_list.entries.len(), 2);
    assert!(s.add_io_timer(&mut ev, None, 0).is_none());
    assert_eq!(ev.timer, None);
    assert_eq!(ev.token, 5);
    assert_eq!(ev.fd, 9);
    assert_eq!(s.shard(0).events[0].timer, None);
    assert_eq!(s.shard(0).timer_list.entries.len(), 2);
}

#[test]
fn wakeups_coalesce() {
    let mut s = reactor(2);
    for _ in 0..5 {
        let w = s.wakeup(1);
        assert_eq!(w.evfd, 201);
        assert_eq!(w.payload, [1, 0, 0, 0, 0, 0, 0, 0]);
    }
    assert_eq!(s.shard(1).wakeups, 5);
    assert_eq!(s.shard(0).wakeups, 0);
    let (resumes, next) = s.select(1, &vec![notice(0)], 0);
    assert!(resumes.is_empty());
    assert_eq!(next, None);
    assert_eq!(s.shard(1).wakeups, 0);
}

#[test]
fn wakeup_descriptor_is_registered_for_reading() {
    let shard = SingleSelector::new(4, 5);
    let req = shard.wakeup_registration();
    assert_eq!(req.epfd, 4);
    assert_eq!(req.fd, 5);
    assert!(req.add);
    assert_eq!(req.kind.bits, 0xC000_0001);
    assert_eq!(req.data, 0);
}

#[test]
fn schedule_takes_the_parked_task() {
    let mut s = reactor(1);
    let mut ev = EventData::new(5, 9, EventFlags::read());
    assert!(s.add_io(&ev).is_ok());
    assert!(s.schedule(9, 5).is_none());
    assert!(s.publish(9, 5, 1));
    assert!(s.schedule(9, 0).is_none());
    match s.schedule(9, 5) {
        Some(r) => assert_eq!(r.co, 1),
        None => panic!("a task was parked"),
    }
    assert!(s.schedule(9, 5).is_none());
}

#[test]
fn task_error_becomes_the_result() {
    assert!(co_io_result(None).is_ok());
    assert!(matches!(co_io_result(Some(IoError::TimedOut)), Err(IoError::TimedOut)));
    assert!(matches!(co_io_result(Some(IoError::Os(32))), Err(IoError::Os(32))));
}

#[test]
fn event_record_slot_is_taken_once() {
    let mut e = EventData::new(1, 2, EventFlags::read());
    assert_eq!(e.timer_data().event_data, 1);
    assert_eq!(e.publish(4), None);
    assert_eq!(e.publish(5), Some(4));
    assert_eq!(e.take_co(), Some(5));
    assert_eq!(e.take_co(), None);
    e.io_flag = 3;
    assert_eq!(e.swap_io_flag(), 3);
    assert_eq!(e.swap_io_flag(), 0);
}

#[test]
fn completion_status_becomes_the_task_error() {
    assert!(completion_error(0).is_none());
    assert!(matches!(completion_error(995), Some(IoError::TimedOut)));
    assert!(matches!(completion_error(0xC000_0120), Some(IoError::TimedOut)));
    assert!(matches!(completion_error(5), Some(IoError::Os(5))));
    assert!(matches!(completion_error(0x7fff_ffff), Some(IoError::Os(i32::MAX))));
    assert!(matches!(completion_error(0x8000_0000), Some(IoError::Os(i32::MIN))));
    assert!(matches!(completion_error(0xC000_0005), Some(IoError::Os(-1073741819))));
    assert!(matches!(completion_error(u32::MAX), Some(IoError::Os(-1))));
}

#[test]
fn cancelled_completion_delivers_the_timeout() {
    let mut shard = SingleSelector::new(1, 2);
    assert!(shard.register(EventData::new(8, 3, EventFlags::read())).is_ok());
    shard.arm_timer(EventData::new(8, 3, EventFlags::read()), 0, 100);
    shard.publish(EventData::new(8, 3, EventFlags::read()), 6);
    let (expired, _) = shard.timer_list.schedule_timer(100);
    assert_eq!(expired.len(), 1);
    assert_eq!(timeout_handler(&mut shard, expired[0].data), Some(3));
    assert_eq!(shard.events[0].timer, None);
    assert_eq!(shard.events[0].co, Some(6));
    assert!(handle_completion(&mut shard, 0, 0).is_none());
    match handle_completion(&mut shard, 8, 995) {
        Some(r) => {
            assert_eq!(r.co, 6);
            assert!(matches!(r.error, Some(IoError::TimedOut)));
        }
        None => panic!("the task was parked"),
    }
    assert!(handle_completion(&mut shard, 8, 0).is_none());
    assert_eq!(timeout_handler(&mut shard, TimerData { event_data: 0 }), None);
    assert_eq!(timeout_handler(&mut shard, TimerData { event_data: 99 }), None);
}

#[test]
fn clean_and_failed_completions() {
    let mut shard = SingleSelector::new(1, 2);
    assert!(shard.register(EventData::new(8, 3, EventFlags::read())).is_ok());
    shard.publish(EventData::new(8, 3, EventFlags::read()), 6);
    match handle_completion(&mut shard, 8, 0) {
        Some(r) => assert!(r.error.is_none()),
        None => panic!("the task was parked"),
    }
    shard.publish(EventData::new(8, 3, EventFlags::read()), 7);
    match handle_completion(&mut shard, 8, 64) {
        Some(r) => assert!(matches!(r.error, Some(IoError::Os(64)))),
        None => panic!("the task was parked"),
    }
}

#[test]
fn port_wakeup_is_the_empty_entry() {
    let n = wakeup_status();
    assert_eq!(n.status, 0);
    assert_eq!(n.bytes, 0);
    assert_eq!(n.key, 0);
    assert_eq!(n.overlapped, 0);
}

#[test]
fn registration_starts_without_a_timer() {
    let mut s = reactor(1);
    let mut ev = EventData::new(5, 9, EventFlags::read());
    ev.timer = Some(3);
    ev.co = Some(8);
    assert!(s.add_io(&ev).is_ok());
    assert_eq!(s.shard(0).events[0].timer, None);
    assert_eq!(s.shard(0).events[0].co, Some(8));
}

#[test]
fn batch_of_completions_is_applied_in_order() {
    let mut shard = SingleSelector::new(1, 2);
    for k in 1..=3u64 {
        shard.publish(EventData::new(k, k as i32, EventFlags::read()), 10 * k);
    }
    let entry = |overlapped: u64, status: u32| CompletionNotice { bytes: 0, key: 0, overlapped, status };
    let batch = vec![entry(2, 0), entry(0, 0), entry(3, 995), entry(2, 0), entry(7, 0), entry(1, 5)];
    let out = handle_completions(&mut shard, &batch);
    assert_eq!(out.len(), 3);
    assert_eq!(out[0].co, 20);
    assert!(out[0].error.is_none());
    assert_eq!(out[1].co, 30);
    assert!(matches!(out[1].error, Some(IoError::TimedOut)));
    assert_eq!(out[2].co, 10);
    assert!(matches!(out[2].error, Some(IoError::Os(5))));
    assert!(handle_completions(&mut shard, &batch).is_empty());
    assert!(handle_completions(&mut shard, &vec![]).is_empty());
}

#[test]
fn records_stay_with_the_shard_of_their_descriptor() {
    let mut s = reactor(3);
    for fd in 0..30 {
        let mut io = EventData::new(fd as u64 + 1, fd, EventFlags::read());
        if fd % 2 == 0 {
            assert!(s.add_io(&io).is_ok());
        }
        s.add_io_timer(&mut io, Some(fd as u64), 0);
        s.publish(fd, fd as u64 + 1, 1);
    }
    for id in 0..3 {
        s.select(id, &vec![notice(1), notice(5)], 7);
        for e in s.shard(id).events.iter() {
            assert_eq!(e.fd as usize % 3, id);
        }
        for fd in s.shard(id).fds.iter() {
            assert_eq!(*fd as usize % 3, id);
        }
    }
}

#[test]
fn forgotten_operation_is_dropped_without_resuming() {
    let mut s = reactor(1);
    let mut ev = EventData::new(5, 9, EventFlags::read());
    let mut other = EventData::new(6, 10, EventFlags::read());
    assert!(s.add_io(&ev).is_ok());
    s.add_io_timer(&mut ev, Some(100), 0);
    s.add_io_timer(&mut other, Some(50), 0);
    assert!(s.publish(9, 5, 42));
    assert!(s.publish(10, 6, 43));
    assert_eq!(s.forget(9, 5), Some(42));
    assert_eq!(s.forget(9, 5), None);
    assert_eq!(s.forget(9, 0), None);
    assert_eq!(s.shard(0).events.len(), 1);
    assert_eq!(s.shard(0).events[0].token, 6);
    assert_eq!(s.shard(0).fds, vec![9]);
    let timers = &s.shard(0).timer_list.entries;
    assert_eq!(timers.len(), 2);
    assert_eq!(timers[0].data.event_data, 6);
    assert_eq!(timers[1].data.event_data, 0);
    assert_eq!(timers[1].deadline, 100);
    let (resumes, next) = s.select(0, &vec![notice(5)], 1000);
    assert_eq!(resumes.len(), 1);
    assert_eq!(resumes[0].co, 43);
    assert_eq!(next, None);
}
