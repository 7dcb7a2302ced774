//! Decisions of IMAP IDLE and of its polling substitute.

#[allow(unused_imports)]
use vstd::prelude::*;

use crate::scheduler::InterruptInfo;

verus! {

/// Longest wait in IDLE, in seconds: under the 29 minutes that servers allow.
pub const IDLE_TIMEOUT_SECS: u64 = 1380;

/// Longest wait for the server to end IDLE, in seconds.
pub const IDLE_DONE_TIMEOUT_SECS: u64 = 15;

/// Time between two polls of the polling substitute, in seconds.
pub const FAKE_IDLE_POLL_SECS: u64 = 60;

/// A response that the server sent unasked.
#[derive(Debug, PartialEq, Eq, Structural, Copy, Clone)]
pub enum Unsolicited {
    /// The folder has this many messages.
    Exists { count: u32 },
    Other,
}

/// Why IDLE failed.
#[derive(Debug, PartialEq, Eq, Structural, Copy, Clone)]
pub enum IdleError {
    /// The server does not offer IDLE.
    NoIdleCapability,
    /// The server did not end IDLE in time.
    DoneTimeout,
}

pub open spec fn has_exists(rs: Seq<Unsolicited>) -> bool {
    exists|i: int| 0 <= i < rs.len() && (#[trigger] rs[i]) is Exists
}

/// Decides whether to enter IDLE: refused without the capability; skipped,
/// giving `Ok(false)`, when a queued response already reports new mail, so
/// that the caller fetches first.
pub fn idle_precheck(can_idle: bool, queued: &Vec<Unsolicited>) -> (r: Result<bool, IdleError>)
    ensures
        !can_idle ==> r == Err::<bool, IdleError>(IdleError::NoIdleCapability),
        can_idle ==> r == Ok::<bool, IdleError>(!has_exists(queued@)),
{
    if !can_idle {
        return Err(IdleError::NoIdleCapability);
    }
    let mut i: usize = 0;
    while i < queued.len()
        invariant
            can_idle,
            0 <= i <= queued@.len(),
            forall|k: int| 0 <= k < i ==> !((#[trigger] queued@[k]) is Exists),
        decreases queued@.len() - i,
    {
        match queued[i] {
            Unsolicited::Exists { .. } => {
                assert(queued@[i as int] is Exists);
                return Ok(false);
            },
            Unsolicited::Other => {},
        }
        i = i + 1;
    }
    Ok(true)
}

/// How a wait in IDLE ended.
#[derive(Debug, PartialEq, Eq, Structural, Copy, Clone)]
pub enum IdleWaitEnd {
    NewData,
    Timeout,
    ManualInterrupt,
    /// An interrupt of the task arrived.
    Interrupted { info: InterruptInfo },
    /// The wait failed.
    Failed,
}

/// What IDLE returns: the interrupt's information when an interrupt ended
/// the wait, the default otherwise; an error when the server did not end
/// IDLE within `IDLE_DONE_TIMEOUT_SECS`.
pub fn idle_outcome(end: IdleWaitEnd, done_in_time: bool) -> (r: Result<InterruptInfo, IdleError>)
    ensures
        !done_in_time ==> r == Err::<InterruptInfo, IdleError>(IdleError::DoneTimeout),
        done_in_time ==> (r matches Ok(info) && match end {
            IdleWaitEnd::Interrupted { info: i } => info == i,
            _ => !info.probe_network && info.msg_id is None,
        }),
{
    if !done_in_time {
        return Err(IdleError::DoneTimeout);
    }
    match end {
        IdleWaitEnd::Interrupted { info } => Ok(info),
        _ => Ok(InterruptInfo::new(false, None)),
    }
}

/// What the polling substitute does after a poll tick.
#[derive(Debug, PartialEq, Eq, Structural, Copy, Clone)]
pub enum PollNext {
    /// Wait for the next tick.
    Wait,
    /// Fetch new messages from the folder.
    Fetch,
    /// Stop polling and return the default interrupt.
    Done,
}

/// After a tick's connection attempt: keep waiting when it failed; stop
/// where the server can IDLE, so that the caller uses real IDLE; fetch
/// otherwise.
pub fn fake_idle_after_connect(connected: bool, can_idle: bool) -> (r: PollNext)
    ensures
        !connected ==> r == PollNext::Wait,
        connected && can_idle ==> r == PollNext::Done,
        connected && !can_idle ==> r == PollNext::Fetch,
{
    if !connected {
        PollNext::Wait
    } else if can_idle {
        PollNext::Done
    } else {
        PollNext::Fetch
    }
}

/// After a tick's fetch, which gives whether anything was fetched or fails:
/// stop when something came, so that the caller's own fetch finds nothing
/// new; keep waiting otherwise, asking for a reconnect after a failure.
/// Returns the next step and whether to reconnect.
pub fn fake_idle_after_fetch(fetched: Result<bool, ()>) -> (r: (PollNext, bool))
    ensures
        fetched == Ok::<bool, ()>(true) ==> r == (PollNext::Done, false),
        fetched == Ok::<bool, ()>(false) ==> r == (PollNext::Wait, false),
        fetched is Err ==> r == (PollNext::Wait, true),
{
    match fetched {
        Ok(true) => (PollNext::Done, false),
        Ok(false) => (PollNext::Wait, false),
        Err(_) => (PollNext::Wait, true),
    }
}

} // verus!
