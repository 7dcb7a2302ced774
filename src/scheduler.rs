//! Decisions of the per-account scheduler: when the inbox task runs a job,
//! fetches or idles, and the start and stop handshake of the four tasks.

#[allow(unused_imports)]
use vstd::prelude::*;

use crate::message::MsgId;

verus! {

/// What an interrupt tells a task when it wakes it from idle.
#[derive(Debug, PartialEq, Eq, Structural, Copy, Clone)]
pub struct InterruptInfo {
    /// The caller believes that the network just came back.
    pub probe_network: bool,
    /// The message whose job caused the interrupt.
    pub msg_id: Option<MsgId>,
}

impl InterruptInfo {
    pub fn new(probe_network: bool, msg_id: Option<MsgId>) -> (r: InterruptInfo)
        ensures
            r.probe_network == probe_network,
            r.msg_id == msg_id,
    {
        InterruptInfo { probe_network, msg_id }
    }
}

impl Default for InterruptInfo {
    fn default() -> (r: InterruptInfo)
        ensures
            !r.probe_network,
            r.msg_id is None,
    {
        InterruptInfo { probe_network: false, msg_id: None }
    }
}

/// How many jobs the inbox task runs in a row before it fetches.
pub const MAX_CONSECUTIVE_JOBS: u32 = 20;

/// What the inbox task does next.
#[derive(Debug, PartialEq, Eq, Structural, Copy, Clone)]
pub enum InboxAction {
    /// Run the job just loaded, then load again with a fresh interrupt.
    PerformJob,
    /// Leave the job for the next round and fetch first; the fetch is
    /// skipped when the inbox is not watched.
    FetchFirst { fetch: bool },
    /// No job: close the folder, run housekeeping, then idle on the inbox
    /// when it is watched, or wait for an interrupt.
    Idle { watch: bool },
}

/// The inbox task's count of jobs run in a row.
#[derive(Debug, PartialEq, Eq, Structural, Copy, Clone)]
pub struct InboxLoop {
    pub jobs_loaded: u32,
}

impl InboxLoop {
    pub open spec fn wf(&self) -> bool {
        self.jobs_loaded <= MAX_CONSECUTIVE_JOBS
    }

    pub fn new() -> (r: InboxLoop)
        ensures
            r.wf(),
            r.jobs_loaded == 0,
    {
        InboxLoop { jobs_loaded: 0 }
    }

    /// Decides the next step after loading: `job_ready` tells whether a job
    /// was found, `inbox_watch` whether the inbox is watched. At most
    /// `MAX_CONSECUTIVE_JOBS` jobs run in a row; the next one waits for a
    /// fetch, so that incoming mail is not starved.
    pub fn step(&mut self, job_ready: bool, inbox_watch: bool) -> (r: InboxAction)
        requires
            old(self).wf(),
        ensures
            final(self).wf(),
            job_ready && old(self).jobs_loaded < MAX_CONSECUTIVE_JOBS ==> r == InboxAction::PerformJob
                && final(self).jobs_loaded == old(self).jobs_loaded + 1,
            job_ready && old(self).jobs_loaded == MAX_CONSECUTIVE_JOBS ==> r == (
            InboxAction::FetchFirst { fetch: inbox_watch }) && final(self).jobs_loaded == 0,
            !job_ready ==> r == (InboxAction::Idle { watch: inbox_watch })
                && final(self).jobs_loaded == 0,
    {
        if job_ready {
            if self.jobs_loaded < MAX_CONSECUTIVE_JOBS {
                self.jobs_loaded = self.jobs_loaded + 1;
                InboxAction::PerformJob
            } else {
                self.jobs_loaded = 0;
                InboxAction::FetchFirst { fetch: inbox_watch }
            }
        } else {
            self.jobs_loaded = 0;
            InboxAction::Idle { watch: inbox_watch }
        }
    }
}

/// How an IMAP task waits for news on a folder.
#[derive(Debug, PartialEq, Eq, Structural, Copy, Clone)]
pub enum IdleMode {
    /// No folder: wait for an interrupt only.
    InterruptOnly,
    /// Poll the folder.
    FakeIdle,
    /// Real IMAP IDLE on the folder.
    Idle,
}

/// Where `fetch_idle` stands after each outside step.
#[derive(Debug, PartialEq, Eq, Structural, Copy, Clone)]
pub enum FetchIdleStep {
    /// Wait as `IdleMode` says, without fetching.
    Wait { mode: IdleMode },
    /// Fetch the folder, then wait as `then` says.
    FetchThen { then: IdleMode },
}

/// Decides how a watched folder is served: `folder_set` tells whether the
/// folder is configured, `connected` whether the connection came up and
/// `can_idle` whether the server has IDLE. Without a folder the task waits
/// for an interrupt; without a connection it polls; otherwise it fetches and
/// then idles, for real where the server can.
pub fn fetch_idle(folder_set: bool, connected: bool, can_idle: bool) -> (r: FetchIdleStep)
    ensures
        !folder_set ==> r == (FetchIdleStep::Wait { mode: IdleMode::InterruptOnly }),
        folder_set && !connected ==> r == (FetchIdleStep::Wait { mode: IdleMode::FakeIdle }),
        folder_set && connected && can_idle ==> r == (FetchIdleStep::FetchThen {
            then: IdleMode::Idle,
        }),
        folder_set && connected && !can_idle ==> r == (FetchIdleStep::FetchThen {
            then: IdleMode::FakeIdle,
        }),
{
    if !folder_set {
        FetchIdleStep::Wait { mode: IdleMode::InterruptOnly }
    } else if !connected {
        FetchIdleStep::Wait { mode: IdleMode::FakeIdle }
    } else if can_idle {
        FetchIdleStep::FetchThen { then: IdleMode::Idle }
    } else {
        FetchIdleStep::FetchThen { then: IdleMode::FakeIdle }
    }
}

/// The result of a real IDLE as the task sees it: an interrupt passes its
/// information on; an error asks for a reconnect and gives the default.
pub fn idle_result(r: Result<InterruptInfo, ()>) -> (p: (InterruptInfo, bool))
    ensures
        r is Ok ==> p == (r->Ok_0, false),
        r is Err ==> !p.0.probe_network && p.0.msg_id is None && p.1,
{
    match r {
        Ok(info) => (info, false),
        Err(_) => (InterruptInfo::new(false, None), true),
    }
}

/// The four tasks of an account.
#[derive(Debug, PartialEq, Eq, Structural, Copy, Clone)]
pub enum Task {
    Inbox,
    Mvbox,
    Sentbox,
    Smtp,
}

/// Proof that `pre_stop` ran; `stop` takes it.
#[derive(Debug)]
pub struct StopToken {
    done: bool,
}

/// Job and connection scheduler of one account: the connection state `S`
/// of each task, through which it is interrupted and stopped, and the
/// handle `H` of each spawned task.
#[derive(Debug)]
pub enum Scheduler<S, H> {
    Stopped,
    Running {
        inbox: S,
        inbox_handle: Option<H>,
        mvbox: S,
        mvbox_handle: Option<H>,
        sentbox: S,
        sentbox_handle: Option<H>,
        smtp: S,
        smtp_handle: Option<H>,
    },
}

impl<S, H> Scheduler<S, H> {
    /// The task states of a running scheduler, in the order inbox, mvbox,
    /// sentbox, smtp.
    pub open spec fn states(&self) -> Seq<S> {
        match self {
            Scheduler::Stopped => seq![],
            Scheduler::Running { inbox, mvbox, sentbox, smtp, .. } => seq![
                *inbox,
                *mvbox,
                *sentbox,
                *smtp,
            ],
        }
    }

    /// The task handles that a running scheduler holds, in task order.
    pub open spec fn handles(&self) -> Seq<H> {
        match self {
            Scheduler::Stopped => seq![],
            Scheduler::Running { inbox_handle, mvbox_handle, sentbox_handle, smtp_handle, .. } =>
                opt_seq(*inbox_handle) + opt_seq(*mvbox_handle) + opt_seq(*sentbox_handle) + opt_seq(
                *smtp_handle,
            ),
        }
    }

    pub fn new() -> (r: Scheduler<S, H>)
        ensures
            r is Stopped,
    {
        Scheduler::Stopped
    }

    /// Records the four started tasks, once all four have acknowledged their
    /// start; the scheduler is then running.
    pub fn start(
        &mut self,
        inbox: (S, Option<H>),
        mvbox: (S, Option<H>),
        sentbox: (S, Option<H>),
        smtp: (S, Option<H>),
    )
        ensures
            *final(self) is Running,
            final(self).states() == seq![inbox.0, mvbox.0, sentbox.0, smtp.0],
            final(self).handles() == opt_seq(inbox.1) + opt_seq(mvbox.1) + opt_seq(sentbox.1)
                + opt_seq(smtp.1),
    {
        *self =
        Scheduler::Running {
            inbox: inbox.0,
            inbox_handle: inbox.1,
            mvbox: mvbox.0,
            mvbox_handle: mvbox.1,
            sentbox: sentbox.0,
            sentbox_handle: sentbox.1,
            smtp: smtp.0,
            smtp_handle: smtp.1,
        };
    }

    pub fn is_running(&self) -> (r: bool)
        ensures
            r == (self is Running),
    {
        match self {
            Scheduler::Stopped => false,
            Scheduler::Running { .. } => true,
        }
    }

    /// The connection of `task` to interrupt; none while stopped.
    pub fn interrupt(&self, task: Task) -> (r: Option<&S>)
        ensures
            self is Stopped ==> r is None,
            self is Running ==> r is Some && *r->0 == self.states()[task_index(task)],
    {
        match self {
            Scheduler::Stopped => None,
            Scheduler::Running { inbox, mvbox, sentbox, smtp, .. } => match task {
                Task::Inbox => Some(inbox),
                Task::Mvbox => Some(mvbox),
                Task::Sentbox => Some(sentbox),
                Task::Smtp => Some(smtp),
            },
        }
    }

    /// The connections that a network hint goes to: all four while running,
    /// none while stopped.
    pub fn maybe_network(&self) -> (r: Vec<&S>)
        ensures
            r@.len() == self.states().len(),
            forall|i: int| 0 <= i < r@.len() ==> *(#[trigger] r@[i]) == self.states()[i],
    {
        let mut r: Vec<&S> = Vec::new();
        match self {
            Scheduler::Stopped => {},
            Scheduler::Running { inbox, mvbox, sentbox, smtp, .. } => {
                r.push(inbox);
                r.push(mvbox);
                r.push(sentbox);
                r.push(smtp);
            },
        }
        r
    }

    /// First half of halting: the connections to send a stop to and wait
    /// for, in task order. Only a running scheduler can be stopped.
    pub fn pre_stop(&self) -> (r: (StopToken, Vec<&S>))
        requires
            self is Running,
        ensures
            r.1@.len() == 4,
            forall|i: int| 0 <= i < 4 ==> *(#[trigger] r.1@[i]) == self.states()[i],
    {
        let v = self.maybe_network();
        (StopToken { done: true }, v)
    }

    /// Second half of halting: the scheduler is stopped and hands back the
    /// handles of its tasks, in task order, for the caller to join.
    pub fn stop(&mut self, token: StopToken) -> (r: Vec<H>)
        requires
            *old(self) is Running,
        ensures
            *final(self) is Stopped,
            r@ == old(self).handles(),
    {
        let _ = token;
        let mut r: Vec<H> = Vec::new();
        match self {
            Scheduler::Stopped => {},
            Scheduler::Running { inbox_handle, mvbox_handle, sentbox_handle, smtp_handle, .. } => {
                push_some(&mut r, inbox_handle.take());
                push_some(&mut r, mvbox_handle.take());
                push_some(&mut r, sentbox_handle.take());
                push_some(&mut r, smtp_handle.take());
            },
        }
        proof {
            assert(r@ =~= old(self).handles());
        }
        *self = Scheduler::Stopped;
        r
    }
}

/// The position of a task in task order.
pub open spec fn task_index(t: Task) -> int {
    match t {
        Task::Inbox => 0,
        Task::Mvbox => 1,
        Task::Sentbox => 2,
        Task::Smtp => 3,
    }
}

/// The value held, as a sequence of at most one.
pub open spec fn opt_seq<T>(o: Option<T>) -> Seq<T> {
    match o {
        Some(x) => seq![x],
        None => seq![],
    }
}

fn push_some<T>(v: &mut Vec<T>, o: Option<T>)
    ensures
        final(v)@ == old(v)@ + opt_seq(o),
{
    match o {
        Some(x) => {
            v.push(x);
            proof {
                assert(final(v)@ =~= old(v)@ + opt_seq(Some(x)));
            }
        },
        None => {
            assert(old(v)@ + opt_seq::<T>(None) =~= old(v)@);
        },
    }
}

} // verus!
