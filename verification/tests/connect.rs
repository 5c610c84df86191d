use co_reactor::connect::{
    choose_address, is_pending, ConnectOutcome, DoneAction, ResolveError, TcpStreamConnect,
    CONNECT_TIMEOUT_NS, EALREADY, EINPROGRESS,
};
use co_reactor::event::{EventData, IoError, SysEvent};
use co_reactor::flags::EventFlags;
use co_reactor::selector::Selector;

fn reactor() -> Selector {
    match Selector::new(&vec![(10, 11), (20, 21)]) {
        Ok(s) => s,
        Err(_) => panic!("no reactor"),
    }
}

#[test]
fn error_codes_are_those_of_the_system() {
    assert_eq!(EINPROGRESS, libc::EINPROGRESS);
    assert_eq!(EALREADY, libc::EALREADY);
    assert_eq!(CONNECT_TIMEOUT_NS, 10 * 1_000_000_000);
}

#[test]
fn first_usable_address_is_chosen() {
    assert!(matches!(choose_address(&vec![]), Err(ResolveError::NoAddress)));
    assert!(matches!(choose_address(&vec![None]), Ok(0)));
    assert!(matches!(choose_address(&vec![Some(Some(97)), None, None]), Ok(1)));
    assert!(matches!(
        choose_address(&vec![Some(Some(97)), Some(Some(24))]),
        Err(ResolveError::Socket(Some(24)))
    ));
    assert!(matches!(
        choose_address(&vec![Some(Some(97)), Some(None)]),
        Err(ResolveError::Socket(None))
    ));
}

#[test]
fn pending_outcomes() {
    assert!(is_pending(ConnectOutcome::Failed(Some(EINPROGRESS))));
    assert!(is_pending(ConnectOutcome::Failed(Some(EALREADY))));
    assert!(!is_pending(ConnectOutcome::Failed(Some(111))));
    assert!(!is_pending(ConnectOutcome::Failed(None)));
    assert!(!is_pending(ConnectOutcome::Connected));
}

#[test]
fn connect_succeeds_immediately() {
    let mut s = reactor();
    let mut io = EventData::new(1, 3, EventFlags::write());
    assert!(s.add_io(&io).is_ok());
    let mut c = TcpStreamConnect::new(io, ConnectOutcome::Connected);
    assert!(matches!(c.ret, Some(ConnectOutcome::Connected)));
    assert!(matches!(c.done(None), DoneAction::Finish(ConnectOutcome::Connected)));
    assert!(s.shard(1).timer_list.entries.is_empty());
    assert_eq!(s.shard(1).timer_list.next_id, 0);
    assert_eq!(s.shard(1).events[0].co, None);
}

#[test]
fn connect_fails_immediately() {
    let mut io = EventData::new(1, 3, EventFlags::write());
    let mut c = TcpStreamConnect::new(io, ConnectOutcome::Failed(Some(111)));
    assert!(matches!(c.done(None), DoneAction::Finish(ConnectOutcome::Failed(Some(111)))));
    let d = TcpStreamConnect::new(io, ConnectOutcome::Failed(Some(EALREADY)));
    assert!(matches!(d.ret, Some(ConnectOutcome::Failed(Some(114)))));
}

#[test]
fn connect_times_out() {
    let mut s = reactor();
    let mut io = EventData::new(1, 3, EventFlags::write());
    assert!(s.add_io(&io).is_ok());
    let mut c = TcpStreamConnect::new(io, ConnectOutcome::Failed(Some(EINPROGRESS)));
    assert!(c.ret.is_none());
    assert!(matches!(c.done(None), DoneAction::Probe));
    assert!(matches!(c.on_probe(ConnectOutcome::Failed(Some(EINPROGRESS))), DoneAction::Park));
    let now = 1_000;
    let (wake, resume) = c.subscribe(&mut s, 7, now);
    assert!(wake.is_some());
    assert!(resume.is_none());
    assert_eq!(c.io_data.timer, Some(0));
    assert_eq!(s.shard(1).timer_list.entries[0].deadline, now + 10_000_000_000);
    assert_eq!(s.shard(1).events[0].co, Some(7));
    let (early, next) = s.select(1, &vec![], now + 9_999_999_999);
    assert!(early.is_empty());
    assert_eq!(next, Some(now + 10_000_000_000));
    let (resumes, _) = s.select(1, &vec![], now + 10_000_000_000);
    assert_eq!(resumes.len(), 1);
    assert_eq!(resumes[0].co, 7);
    assert!(matches!(resumes[0].error, Some(IoError::TimedOut)));
    assert!(matches!(
        TcpStreamConnect::on_resume(resumes[0].error),
        DoneAction::Fail(IoError::TimedOut)
    ));
    let (more, _) = s.select(1, &vec![SysEvent { events: 4, data: 1 }], now + 20_000_000_000);
    assert!(more.is_empty());
    s.del_fd(3);
    assert!(s.shard(1).fds.is_empty());
    assert!(s.shard(1).timer_list.entries.is_empty());
    assert_eq!(s.shard(1).events[0].co, None);
}

#[test]
fn connect_completes_after_parking() {
    let mut s = reactor();
    let mut io = EventData::new(1, 3, EventFlags::write());
    assert!(s.add_io(&io).is_ok());
    let mut c = TcpStreamConnect::new(io, ConnectOutcome::Failed(Some(EINPROGRESS)));
    assert!(matches!(c.on_probe(ConnectOutcome::Failed(Some(EALREADY))), DoneAction::Park));
    c.subscribe(&mut s, 7, 0);
    let (resumes, _) = s.select(1, &vec![SysEvent { events: 4, data: 1 }], 5);
    assert_eq!(resumes.len(), 1);
    assert!(matches!(TcpStreamConnect::on_resume(resumes[0].error), DoneAction::Probe));
    assert!(matches!(
        c.on_probe(ConnectOutcome::Connected),
        DoneAction::Finish(ConnectOutcome::Connected)
    ));
}

#[test]
fn readiness_seen_before_parking_goes_round_again() {
    let mut io = EventData::new(1, 3, EventFlags::write());
    io.io_flag = 1;
    let mut c = TcpStreamConnect::new(io, ConnectOutcome::Failed(Some(EINPROGRESS)));
    assert!(matches!(c.on_probe(ConnectOutcome::Failed(Some(EINPROGRESS))), DoneAction::Again));
    assert_eq!(c.io_data.io_flag, 0);
    assert!(matches!(c.on_probe(ConnectOutcome::Failed(Some(EINPROGRESS))), DoneAction::Park));
    c.io_data.io_flag = 1;
    assert!(matches!(
        c.on_probe(ConnectOutcome::Failed(Some(13))),
        DoneAction::Finish(ConnectOutcome::Failed(Some(13)))
    ));
    assert_eq!(c.io_data.io_flag, 1);
}

#[test]
fn read_wakes_before_yield() {
    let mut s = reactor();
    let mut io = EventData::new(1, 3, EventFlags::read());
    assert!(s.add_io(&io).is_ok());
    io.io_flag = 1;
    let mut c = TcpStreamConnect::new(io, ConnectOutcome::Failed(Some(EINPROGRESS)));
    let (_, resume) = c.subscribe(&mut s, 7, 0);
    match resume {
        Some(r) => {
            assert_eq!(r.co, 7);
            assert!(r.error.is_none());
        }
        None => panic!("the task schedules itself"),
    }
    assert!(s.shard(1).timer_list.entries.is_empty());
    assert_eq!(s.shard(1).events[0].co, None);
    let (resumes, _) = s.select(1, &vec![SysEvent { events: 1, data: 1 }], u64::MAX);
    assert!(resumes.is_empty());
}

#[test]
fn unregistered_request_is_parked_and_resumed() {
    let mut s = reactor();
    let mut io = EventData::new(1, 3, EventFlags::write());
    let mut c = TcpStreamConnect::new(io, ConnectOutcome::Failed(Some(EINPROGRESS)));
    let (wake, resume) = c.subscribe(&mut s, 7, 0);
    assert!(wake.is_some());
    assert!(resume.is_none());
    assert_eq!(s.shard(1).events[0].co, Some(7));
    assert_eq!(s.shard(1).timer_list.entries.len(), 1);
    let (resumes, _) = s.select(1, &vec![SysEvent { events: 4, data: 1 }], 1);
    assert_eq!(resumes.len(), 1);
    assert_eq!(resumes[0].co, 7);
}

#[test]
fn unregistered_request_with_readiness_schedules_itself() {
    let mut s = reactor();
    let mut io = EventData::new(1, 3, EventFlags::write());
    io.io_flag = 1;
    let mut c = TcpStreamConnect::new(io, ConnectOutcome::Failed(Some(EINPROGRESS)));
    let (_, resume) = c.subscribe(&mut s, 7, 0);
    match resume {
        Some(r) => assert_eq!(r.co, 7),
        None => panic!("the task schedules itself"),
    }
    let (resumes, _) = s.select(1, &vec![SysEvent { events: 4, data: 1 }], u64::MAX);
    assert!(resumes.is_empty());
}

#[test]
fn request_without_token_gets_its_task_back() {
    let mut s = reactor();
    let mut io = EventData::new(0, 3, EventFlags::write());
    let mut c = TcpStreamConnect::new(io, ConnectOutcome::Failed(Some(EINPROGRESS)));
    let (_, resume) = c.subscribe(&mut s, 7, 0);
    match resume {
        Some(r) => {
            assert_eq!(r.co, 7);
            assert!(r.error.is_none());
        }
        None => panic!("the task is handed back"),
    }
    assert!(s.shard(1).events.is_empty());
}
