use deltachat_core::imap::{
    fake_idle_after_connect, fake_idle_after_fetch, idle_outcome, idle_precheck, IdleError,
    IdleWaitEnd, PollNext, Unsolicited,
};
use deltachat_core::message::MsgId;
use deltachat_core::scheduler::{
    fetch_idle, idle_result, FetchIdleStep, IdleMode, InboxAction, InboxLoop,
    InterruptInfo, Scheduler, Task,
};

#[test]
fn inbox_runs_twenty_jobs_then_fetches() {
    let mut l = InboxLoop::new();
    for i in 1..=20 {
        assert_eq!(l.step(true, true), InboxAction::PerformJob);
        assert_eq!(l.jobs_loaded, i);
    }
    assert_eq!(l.step(true, true), InboxAction::FetchFirst { fetch: true });
    assert_eq!(l.jobs_loaded, 0);
    assert_eq!(l.step(true, false), InboxAction::PerformJob);
    assert_eq!(l.step(false, false), InboxAction::Idle { watch: false });
    assert_eq!(l.jobs_loaded, 0);
}

#[test]
fn fetch_idle_decisions() {
    assert_eq!(
        fetch_idle(false, true, true),
        FetchIdleStep::Wait { mode: IdleMode::InterruptOnly }
    );
    assert_eq!(fetch_idle(true, false, true), FetchIdleStep::Wait { mode: IdleMode::FakeIdle });
    assert_eq!(fetch_idle(true, true, true), FetchIdleStep::FetchThen { then: IdleMode::Idle });
    assert_eq!(
        fetch_idle(true, true, false),
        FetchIdleStep::FetchThen { then: IdleMode::FakeIdle }
    );
    let info = InterruptInfo::new(true, Some(MsgId(4)));
    assert_eq!(idle_result(Ok(info)), (info, false));
    assert_eq!(idle_result(Err(())), (InterruptInfo::default(), true));
}

#[test]
fn idle_checks() {
    assert_eq!(idle_precheck(false, &vec![]), Err(IdleError::NoIdleCapability));
    assert_eq!(idle_precheck(true, &vec![Unsolicited::Other]), Ok(true));
    assert_eq!(
        idle_precheck(true, &vec![Unsolicited::Other, Unsolicited::Exists { count: 3 }]),
        Ok(false)
    );
    let info = InterruptInfo::new(true, None);
    assert_eq!(idle_outcome(IdleWaitEnd::Interrupted { info }, true), Ok(info));
    assert_eq!(idle_outcome(IdleWaitEnd::NewData, true), Ok(InterruptInfo::default()));
    assert_eq!(idle_outcome(IdleWaitEnd::Failed, true), Ok(InterruptInfo::default()));
    assert_eq!(idle_outcome(IdleWaitEnd::Timeout, false), Err(IdleError::DoneTimeout));
}

#[test]
fn fake_idle_decisions() {
    assert_eq!(fake_idle_after_connect(false, true), PollNext::Wait);
    assert_eq!(fake_idle_after_connect(true, true), PollNext::Done);
    assert_eq!(fake_idle_after_connect(true, false), PollNext::Fetch);
    assert_eq!(fake_idle_after_fetch(Ok(true)), (PollNext::Done, false));
    assert_eq!(fake_idle_after_fetch(Ok(false)), (PollNext::Wait, false));
    assert_eq!(fake_idle_after_fetch(Err(())), (PollNext::Wait, true));
}

#[test]
fn scheduler_lifecycle() {
    let mut s: Scheduler<&str, u32> = Scheduler::new();
    assert!(!s.is_running());
    assert!(s.interrupt(Task::Inbox).is_none());
    assert!(s.maybe_network().is_empty());
    s.start(("inbox", Some(1)), ("mvbox", Some(2)), ("sentbox", None), ("smtp", Some(4)));
    assert!(s.is_running());
    assert_eq!(s.interrupt(Task::Sentbox), Some(&"sentbox"));
    assert_eq!(s.maybe_network(), vec![&"inbox", &"mvbox", &"sentbox", &"smtp"]);
    let (token, to_stop) = s.pre_stop();
    assert_eq!(to_stop.len(), 4);
    let handles = s.stop(token);
    assert_eq!(handles, vec![1, 2, 4]);
    assert!(!s.is_running());
}
