//! The service as a whole: its limits, how it is started and how it stops.
use vstd::prelude::*;

use crate::cancellation;
use crate::cancellation::{CancellationManager, REASON_STOP};
use crate::error::{Error, ErrorView};
use crate::job_manager;
use crate::job_manager::{JobHandle, JobManager, ReleasedJob};
use crate::job_table;
use crate::logger;
use crate::logger::{LogRecord, Logger};
use crate::text;

verus! {

pub const SERVICE_NAME: &'static str = "VirimaRemoteAgent";

/// The pipe that clients connect to.
pub const PIPE_NAME: &'static str = "\\\\.\\pipe\\VirimaRemoteAgent";

pub const MAX_CONCURRENT_JOBS: usize = 50;

pub const MAX_CONNECTIONS: usize = 100;

/// How long to wait between two looks for idle jobs, in milliseconds.
pub const IDLE_CLEANUP_INTERVAL_MS: u64 = 30_000;

/// How long a job may be idle, in milliseconds.
pub const IDLE_CLEANUP_THRESHOLD_MS: u64 = 1_800_000;

/// How long nothing may be heard of any job before those that have ended leave the registry, in
/// milliseconds.
pub const QUIET_CLEANUP_THRESHOLD_MS: u64 = 120_000;

/// How long jobs may take to end when the service stops, in milliseconds.
pub const SHUTDOWN_GRACE_MS: u64 = 30_000;

/// How long to sleep between two looks at jobs that should end, in milliseconds.
pub const SHUTDOWN_POLL_MS: u64 = 100;

/// How long pending operations get when all jobs are gone, in milliseconds.
pub const SETTLE_MS: u64 = 2_000;

/// What the system asks of the service.
#[derive(Debug, Clone, Copy, PartialEq, Eq, Structural)]
pub enum Control {
    Stop,
    Shutdown,
    Interrogate,
    /// Anything else.
    Other,
}

/// What the system is answered.
#[derive(Debug, Clone, Copy, PartialEq, Eq, Structural)]
pub enum ControlAnswer {
    NoError,
    NotImplemented,
}

/// How the program was started.
#[derive(Debug, Clone, Copy, PartialEq, Eq, Structural)]
pub enum RunMode {
    Service,
    Console,
}

/// What the system is told of the service.
#[derive(Debug, Clone, Copy, PartialEq, Eq, Structural)]
pub struct StatusReport {
    /// Whether the service runs, or has stopped.
    pub running: bool,
    /// Whether the service can be asked to stop.
    pub accepts_stop: bool,
    pub exit_code: u32,
}

/// What to do while the service stops.
#[derive(Debug)]
pub enum ShutdownStep {
    /// Look again after so many milliseconds.
    Wait(u64),
    /// Stop the workers of these jobs, wait for their pumps and close their handles. Then all jobs
    /// are to leave the registry.
    CleanUp(Vec<ReleasedJob>),
}

/// A call that fails while the service starts.
#[derive(Debug, Clone, Copy, PartialEq, Eq, Structural)]
pub enum ServiceCall {
    RegisterHandler,
    SetStatus,
    StartRuntime,
    StartDispatcher,
}

/// What is said of a call that fails while the service starts.
pub open spec fn service_call_text(call: ServiceCall) -> Seq<char> {
    match call {
        ServiceCall::RegisterHandler => "Register handler: "@,
        ServiceCall::SetStatus => "Set status: "@,
        ServiceCall::StartRuntime => "Runtime: "@,
        ServiceCall::StartDispatcher => "Start dispatcher: "@,
    }
}

/// The error of a call that fails while the service starts.
pub fn service_error(call: ServiceCall, reason: &str) -> (e: Error)
    ensures
        e@ == ErrorView::Service(service_call_text(call) + reason@),
{
    let said = match call {
        ServiceCall::RegisterHandler => "Register handler: ",
        ServiceCall::SetStatus => "Set status: ",
        ServiceCall::StartRuntime => "Runtime: ",
        ServiceCall::StartDispatcher => "Start dispatcher: ",
    };
    Error::Service(text::joined(said, reason))
}

/// How the program was started, by its arguments.
pub fn run_mode(args: &Vec<String>) -> (m: RunMode)
    ensures
        m is Service <==> exists|i: int| 0 <= i < args@.len() && (#[trigger] args@[i])@
            == "--service"@,
{
    let flag = "--service".to_owned();
    let mut i: usize = 0;
    while i < args.len()
        invariant
            i <= args@.len(),
            flag@ == "--service"@,
            forall|j: int| 0 <= j < i ==> (#[trigger] args@[j])@ != "--service"@,
        decreases args@.len() - i,
    {
        if args[i] == flag {
            return RunMode::Service;
        }
        i += 1;
    }
    RunMode::Console
}

/// The service.
pub struct ServiceHost {
    shutdown: bool,
}

impl ServiceHost {
    /// Whether the service was asked to stop.
    pub closed spec fn stopping(self) -> bool {
        self.shutdown
    }

    pub fn new() -> (h: Self)
        ensures
            !h.stopping(),
    {
        ServiceHost { shutdown: false }
    }

    /// Asks the service to stop.
    pub fn stop(&mut self)
        ensures
            final(self).stopping(),
    {
        self.shutdown = true;
    }

    /// Whether the service was asked to stop.
    pub fn is_stopping(&self) -> (b: bool)
        ensures
            b == self.stopping(),
    {
        self.shutdown
    }

    /// Takes what the system asks of the service.
    pub fn handle_control(&mut self, control: Control) -> (a: ControlAnswer)
        ensures
            final(self).stopping() == (old(self).stopping() || control is Stop
                || control is Shutdown),
            a is NotImplemented <==> control is Other,
    {
        match control {
            Control::Stop | Control::Shutdown => {
                self.stop();
                ControlAnswer::NoError
            },
            Control::Interrogate => ControlAnswer::NoError,
            Control::Other => ControlAnswer::NotImplemented,
        }
    }

    /// What the system is told when the service has started.
    pub fn started() -> (r: StatusReport)
        ensures
            r == (StatusReport { running: true, accepts_stop: true, exit_code: 0 }),
    {
        StatusReport { running: true, accepts_stop: true, exit_code: 0 }
    }

    /// What the system is told when the service has stopped, well or not.
    pub fn stopped(ok: bool) -> (r: StatusReport)
        ensures
            r == (StatusReport {
                running: false,
                accepts_stop: false,
                exit_code: if ok {
                    0
                } else {
                    1
                },
            }),
    {
        let exit_code: u32 = if ok {
            0
        } else {
            1
        };
        StatusReport { running: false, accepts_stop: false, exit_code }
    }

    /// Starts to clean idle jobs up, at `now`. Each of them is then to leave the registry.
    pub fn clean_up(jobs: &mut JobManager, now: u64) -> (left: Vec<ReleasedJob>)
        requires
            old(jobs).wf(),
        ensures
            final(jobs).wf(),
            final(jobs).same_but_jobs(*old(jobs)),
            final(jobs).jobs() == job_manager::all_stopped(
                old(jobs).jobs(),
                job_manager::stale_ids(
                    *old(jobs),
                    now,
                    IDLE_CLEANUP_THRESHOLD_MS,
                    QUIET_CLEANUP_THRESHOLD_MS,
                ),
            ),
            job_manager::all_released(
                left@,
                old(jobs).jobs(),
                job_manager::stale_ids(
                    *old(jobs),
                    now,
                    IDLE_CLEANUP_THRESHOLD_MS,
                    QUIET_CLEANUP_THRESHOLD_MS,
                ),
            ),
    {
        jobs.cleanup_idle_jobs(now, IDLE_CLEANUP_THRESHOLD_MS, QUIET_CLEANUP_THRESHOLD_MS)
    }

    /// Cancels every job, since the service stops, and gives the entries for the log.
    pub fn begin_shutdown(jobs: &mut JobManager, logger: &Logger) -> (log: Vec<LogRecord>)
        requires
            old(jobs).wf(),
        ensures
            final(jobs).wf(),
            final(jobs).same_but_jobs(*old(jobs)),
            final(jobs).jobs() == every_job_canceled(old(jobs).jobs()),
            exists|ids: Seq<u32>|
                ids.no_duplicates() && ids.to_set() == old(jobs).jobs().dom() && logger::records(
                    log@,
                ) == #[trigger] cancellation::cancel_log(old(jobs).jobs(), ids, REASON_STOP@),
    {
        let ids = jobs.list_active_jobs();
        let log = CancellationManager::cancel_jobs(jobs, logger, &ids, REASON_STOP);
        proof {
            lemma_all_canceled(old(jobs).jobs(), ids@);
        }
        log
    }

    /// Lets jobs end for a while, and then starts to clean up those that are left. The service has
    /// been stopping for `elapsed` milliseconds.
    pub fn shutdown_step(jobs: &mut JobManager, elapsed: u64) -> (s: ShutdownStep)
        requires
            old(jobs).wf(),
        ensures
            final(jobs).wf(),
            final(jobs).same_but_jobs(*old(jobs)),
            s matches ShutdownStep::Wait(ms) ==> ms == 100 && elapsed < 30_000,
            s is CleanUp ==> elapsed >= 30_000 || old(jobs).jobs().dom().len() == 0,
            old(jobs).jobs() != job_table::no_jobs() && elapsed < SHUTDOWN_GRACE_MS ==> s
                == ShutdownStep::Wait(SHUTDOWN_POLL_MS) && final(jobs).jobs() == old(jobs).jobs(),
            old(jobs).jobs() == job_table::no_jobs() || elapsed >= SHUTDOWN_GRACE_MS ==> {
                &&& s matches ShutdownStep::CleanUp(left) && job_manager::all_released(
                    left@,
                    old(jobs).jobs(),
                    old(jobs).jobs().dom(),
                )
                &&& final(jobs).jobs() == job_manager::all_stopped(
                    old(jobs).jobs(),
                    old(jobs).jobs().dom(),
                )
            },
    {
        let active = jobs.has_active_jobs();
        proof {
            if active {
                let id = choose|id: u32| jobs.jobs().contains_key(id);
                assert(!job_table::no_jobs().contains_key(id));
            } else {
                assert(jobs.jobs() =~= job_table::no_jobs());
            }
        }
        if active && elapsed < SHUTDOWN_GRACE_MS {
            ShutdownStep::Wait(SHUTDOWN_POLL_MS)
        } else {
            ShutdownStep::CleanUp(jobs.begin_cleanup_all())
        }
    }

    /// Takes every job out of the registry, and gives what came up since the clean-up began.
    pub fn end_shutdown(jobs: &mut JobManager) -> (left: Vec<ReleasedJob>)
        requires
            old(jobs).wf(),
        ensures
            final(jobs).wf(),
            final(jobs).same_but_jobs(*old(jobs)),
            final(jobs).jobs() == job_table::no_jobs(),
            job_manager::all_released(left@, old(jobs).jobs(), old(jobs).jobs().dom()),
    {
        jobs.force_cleanup_all()
    }
}

impl Default for ServiceHost {
    fn default() -> (h: Self)
        ensures
            !h.stopping(),
    {
        ServiceHost::new()
    }
}

/// The registry when every job that has not ended has been canceled.
pub open spec fn every_job_canceled(jobs: Map<u32, JobHandle>) -> Map<u32, JobHandle> {
    jobs.map_values(
        |job: JobHandle|
            if job_manager::terminal(job.state) {
                job
            } else {
                job_manager::canceled_job(job)
            },
    )
}

proof fn lemma_one_canceled(jobs: Map<u32, JobHandle>, ids: Seq<u32>, id: u32)
    requires
        jobs.contains_key(id),
    ensures
        cancellation::all_canceled(jobs, ids).contains_key(id),
        cancellation::all_canceled(jobs, ids)[id] == (if ids.contains(id)
            && !job_manager::terminal(jobs[id].state) {
            job_manager::canceled_job(jobs[id])
        } else {
            jobs[id]
        }),
    decreases ids.len(),
{
    if ids.len() > 0 {
        let init = ids.drop_last();
        lemma_one_canceled(jobs, init, id);
        cancellation::law_canceled_jobs(jobs, init, id);
        assert(ids.contains(id) <==> init.contains(id) || id == ids.last()) by {
            if init.contains(id) {
                let i = choose|i: int| 0 <= i < init.len() && init[i] == id;
                assert(ids[i] == id);
            }
            if ids.contains(id) && id != ids.last() {
                let i = choose|i: int| 0 <= i < ids.len() && ids[i] == id;
                assert(init[i] == id);
            }
            assert(ids[ids.len() - 1] == ids.last());
        }
    }
}

proof fn lemma_all_canceled(jobs: Map<u32, JobHandle>, ids: Seq<u32>)
    requires
        ids.to_set() == jobs.dom(),
    ensures
        cancellation::all_canceled(jobs, ids) == every_job_canceled(jobs),
{
    let after = cancellation::all_canceled(jobs, ids);
    cancellation::law_canceled_jobs(jobs, ids, 0);
    assert forall|id: u32| jobs.contains_key(id) implies #[trigger] after[id]
        == every_job_canceled(jobs)[id] by {
        assert(ids.to_set().contains(id));
        lemma_one_canceled(jobs, ids, id);
    }
    assert(after =~= every_job_canceled(jobs));
}

/// A service that stops ends all its jobs and cleans all of them up, whether or not they had ended
/// before: their workers are told to stop, their handles are given out once, and nothing is left
/// for the end.
pub proof fn law_shutdown_ends_all_jobs(jobs: Map<u32, JobHandle>, job_id: u32)
    requires
        jobs.contains_key(job_id),
    ensures
        ({
            let canceled = every_job_canceled(jobs);
            let cleaned = job_manager::all_stopped(canceled, canceled.dom());
            let left = job_manager::released(canceled[job_id]);
            &&& canceled.dom() == jobs.dom()
            &&& job_manager::terminal(canceled[job_id].state)
            &&& left.stop && cleaned[job_id].cancelled
            &&& left.process_handle == jobs[job_id].process_handle
            &&& left.job_object == jobs[job_id].job_object
            &&& job_manager::released(cleaned[job_id]).process_handle is None
            &&& job_manager::released(cleaned[job_id]).job_object is None
        }),
{
    assert(every_job_canceled(jobs).dom() =~= jobs.dom());
}

/// A service that stops cancels each job that has been created, is starting, runs or exits: its
/// workers are told to stop and it is `Canceled`, and everything else of it is as it was. A job that
/// has ended stays as it is, and no job leaves or comes.
pub proof fn law_stop_cancels_every_live_job(jobs: Map<u32, JobHandle>, job_id: u32)
    ensures
        every_job_canceled(jobs).contains_key(job_id) <==> jobs.contains_key(job_id),
        jobs.contains_key(job_id) ==> {
            let was = jobs[job_id];
            let after = every_job_canceled(jobs)[job_id];
            &&& (was.state is Created || was.state is Starting || was.state is Running
                || was.state is Exiting) ==> {
                &&& after.cancelled
                &&& after.state is Canceled
                &&& after.job_id == was.job_id
                &&& after.process_handle == was.process_handle
                &&& after.job_object == was.job_object
                &&& after.stdout_pump == was.stdout_pump
                &&& after.stderr_pump == was.stderr_pump
                &&& after.start_time == was.start_time
                &&& after.last_activity == was.last_activity
                &&& after.timeout == was.timeout
            }
            &&& (was.state is Completed || was.state is Failed || was.state is Canceled
                || was.state is TimedOut) ==> after == was
        },
{
}

/// What is cleaned up between times: jobs that were not heard of for half an hour, and, when no job
/// at all was heard of for two minutes, those that have ended.
pub proof fn law_clean_up(m: JobManager, now: u64, job_id: u32)
    requires
        m.wf(),
        m.jobs().contains_key(job_id),
    ensures
        job_manager::stale_ids(
            m,
            now,
            IDLE_CLEANUP_THRESHOLD_MS,
            QUIET_CLEANUP_THRESHOLD_MS,
        ).contains(job_id) <==> {
            let job = m.jobs()[job_id];
            ||| now - job.last_activity >= 30 * 60 * 1000
            ||| now - m.active_at() >= 2 * 60 * 1000 && (job.state is Completed || job.state
                is Failed || job.state is Canceled || job.state is TimedOut)
        },
{
}

/// What is said of a call that fails while the service starts names the call.
pub proof fn law_service_call_texts(call: ServiceCall)
    ensures
        service_call_text(call) == (match call {
            ServiceCall::RegisterHandler => "Register handler"@,
            ServiceCall::SetStatus => "Set status"@,
            ServiceCall::StartRuntime => "Runtime"@,
            ServiceCall::StartDispatcher => "Start dispatcher"@,
        }) + ": "@,
{
    reveal_strlit("Register handler");
    reveal_strlit("Set status");
    reveal_strlit("Runtime");
    reveal_strlit("Start dispatcher");
    reveal_strlit("Register handler: ");
    reveal_strlit("Set status: ");
    reveal_strlit("Runtime: ");
    reveal_strlit("Start dispatcher: ");
    reveal_strlit(": ");
}

/// When the service has stopped there is no job left.
pub proof fn law_nothing_is_left(job_id: u32)
    ensures
        !job_table::no_jobs().contains_key(job_id),
{
}

/// What the log says when the service stops: of each job that was alive, that it was canceled for
/// this, at its place in the order in which they were canceled.
pub proof fn law_stop_is_logged(jobs: Map<u32, JobHandle>, ids: Seq<u32>, i: int)
    requires
        ids.no_duplicates(),
        forall|j: int|
            0 <= j < ids.len() ==> jobs.contains_key(#[trigger] ids[j]) && {
                let state = jobs[ids[j]].state;
                state is Created || state is Starting || state is Running || state is Exiting
            },
        0 <= i < ids.len(),
    ensures
        cancellation::cancel_log(jobs, ids, REASON_STOP@).len() == ids.len(),
        ({
            let record = cancellation::cancel_log(jobs, ids, REASON_STOP@)[i];
            &&& record.level is Warn
            &&& record.job_id == text::decimal(ids[i] as nat)
            &&& record.text == "COMMAND_CANCELED"@ + " {"@ + "job_id"@ + "="@ + text::decimal(
                ids[i] as nat,
            ) + ", "@ + "reason"@ + "="@ + "service_stop"@ + "}"@
        }),
{
    cancellation::law_live_jobs_are_logged(jobs, ids, REASON_STOP@);
    logger::law_audit_entries(ids[i], 0, 0, 0, REASON_STOP@);
}

} // verus!
