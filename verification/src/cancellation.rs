//! Timeouts, and the end of a job's processes.
use vstd::prelude::*;

use crate::error::{Error, ErrorView, Result};
use crate::job_manager;
use crate::job_manager::{JobHandle, JobManager, JobState};
use crate::logger;
use crate::logger::{LogRecord, Logger, RecordView};
use crate::text;

verus! {

/// How long the timeout monitor sleeps between two looks at its job, in milliseconds.
pub const CHECK_INTERVAL_MS: u64 = 1_000;

/// How long a process may take to exit once its job object is terminated, in milliseconds.
pub const EXIT_GRACE_MS: u64 = 5_000;

/// How long to sleep between two looks at a process that should exit, in milliseconds.
pub const POLL_INTERVAL_MS: u64 = 100;

/// How long one wait for a process may take, in milliseconds.
pub const WAIT_SLICE_MS: u32 = 1_000;

/// The exit code of a process that is terminated.
pub const TERMINATED_EXIT_CODE: u32 = 1;

/// The answer of a wait for an object that is signaled.
pub const WAIT_OBJECT_0: u32 = 0;

/// The answer of a wait that took too long.
pub const WAIT_TIMEOUT: u32 = 258;

/// Why a job that has run for too long is canceled.
pub const REASON_TIMEOUT: &'static str = "timeout";

/// Why the jobs of a client that has left are canceled.
pub const REASON_DISCONNECT: &'static str = "client_disconnect";

/// Why a job is canceled that its client no longer wants.
pub const REASON_REQUEST: &'static str = "client_request";

/// Why jobs are canceled when the service stops.
pub const REASON_STOP: &'static str = "service_stop";

/// What the timeout monitor of a job does next.
#[derive(Debug, Clone, Copy, PartialEq, Eq, Structural)]
pub enum MonitorStep {
    /// There is nothing to watch any more.
    Stop,
    /// The job has run for too long: time it out.
    Expire,
    /// Look again after so many milliseconds, or stop when the job is told to stop.
    Wait(u64),
}

/// How a job is being terminated.
#[derive(Debug)]
pub enum TerminateStep {
    /// Terminate the job object, with this exit code for its processes.
    TerminateJobObject(isize, u32),
    /// Wait for the process to exit, for so many milliseconds at most.
    WaitForExit(isize, u64),
    /// Terminate the process, with this exit code.
    TerminateProcess(isize, u32),
    /// The job is terminated, or cannot be.
    Done(Result<()>),
}

/// What came of a step of terminating a job.
pub enum TerminateEvent {
    /// Whether the job object could be terminated.
    JobObjectTerminated(bool),
    /// Whether the process has exited in time.
    ExitAwaited(bool),
    /// The process was terminated, or could not be for the given reason.
    ProcessTerminated(std::result::Result<(), String>),
}

/// What is known of a process that should exit.
pub enum PollEvent {
    /// So many milliseconds have gone by.
    Elapsed(u64),
    /// A look at the process gave this answer.
    Looked(u32),
}

/// What to do about a process that should exit.
#[derive(Debug)]
pub enum PollStep {
    /// Look at the process, without waiting.
    Look,
    /// Sleep for so many milliseconds.
    Sleep(u64),
    /// The process has exited, or has not in time.
    Done(Result<()>),
}

/// What came of waiting for a process.
pub enum WaitEvent {
    /// A wait gave this answer. With it comes the exit code, where there is one and it could be
    /// had.
    Waited(u32, Option<u32>),
    /// The task that waits has failed for the given reason.
    TaskFailed(String),
    /// The job was told to stop.
    Cancelled,
}

/// What to do about a process that is waited for.
#[derive(Debug)]
pub enum WaitStep {
    /// Wait once more.
    Again,
    /// The process has exited with this code, or is not waited for any more.
    Done(Result<i32>),
}

/// What the timeout monitor does about `job` when it has watched for `elapsed` milliseconds.
pub open spec fn monitored(job: Option<JobHandle>, elapsed: u64) -> MonitorStep {
    match job {
        None => MonitorStep::Stop,
        Some(j) => if j.timeout is None || job_manager::terminal(j.state) || j.cancelled {
            MonitorStep::Stop
        } else if elapsed >= j.timeout->0 {
            MonitorStep::Expire
        } else {
            MonitorStep::Wait(CHECK_INTERVAL_MS)
        },
    }
}

/// What is left to do when the job object does not help.
pub open spec fn directly(process: Option<isize>) -> TerminateStep {
    match process {
        Some(h) => TerminateStep::TerminateProcess(h, TERMINATED_EXIT_CODE),
        None => TerminateStep::Done(Ok(())),
    }
}

/// The first step of terminating `job`.
pub open spec fn first_step(job: JobHandle) -> TerminateStep {
    match job.job_object {
        Some(h) => TerminateStep::TerminateJobObject(h, TERMINATED_EXIT_CODE),
        None => directly(job.process_handle),
    }
}

/// `s` is the step after `event`, when the job's process is `process`.
pub open spec fn is_next(process: Option<isize>, event: TerminateEvent, s: TerminateStep) -> bool {
    match event {
        TerminateEvent::JobObjectTerminated(true) => s == (match process {
            Some(h) => TerminateStep::WaitForExit(h, EXIT_GRACE_MS),
            None => TerminateStep::Done(Ok(())),
        }),
        TerminateEvent::JobObjectTerminated(false) => s == directly(process),
        TerminateEvent::ExitAwaited(true) => s == TerminateStep::Done(Ok(())),
        TerminateEvent::ExitAwaited(false) => s == directly(process),
        TerminateEvent::ProcessTerminated(Ok(_)) => s == TerminateStep::Done(Ok(())),
        TerminateEvent::ProcessTerminated(Err(reason)) => s matches TerminateStep::Done(Err(e))
            && e@ == ErrorView::ProcessLaunchFailed("TerminateProcess failed: "@ + reason@),
    }
}

/// `event` tells what came of `step`.
pub open spec fn answers(step: TerminateStep, event: TerminateEvent) -> bool {
    match step {
        TerminateStep::TerminateJobObject(_, _) => event is JobObjectTerminated,
        TerminateStep::WaitForExit(_, _) => event is ExitAwaited,
        TerminateStep::TerminateProcess(_, _) => event is ProcessTerminated,
        TerminateStep::Done(_) => false,
    }
}

/// How far the terminating of a job is when it comes to `step`.
pub open spec fn stage(step: TerminateStep) -> int {
    match step {
        TerminateStep::TerminateJobObject(_, _) => 0,
        TerminateStep::WaitForExit(_, _) => 1,
        TerminateStep::TerminateProcess(_, _) => 2,
        TerminateStep::Done(_) => 3,
    }
}

/// Terminating a job comes to an end: every step leads to a later one. A job with a process counts
/// as terminated only when the process was seen to exit or was itself terminated.
pub proof fn law_termination_ends(
    process: Option<isize>,
    step: TerminateStep,
    event: TerminateEvent,
    next: TerminateStep,
)
    requires
        answers(step, event),
        is_next(process, event, next),
    ensures
        stage(next) > stage(step),
        next matches TerminateStep::Done(Ok(_)) ==> process is None || event
            == TerminateEvent::ExitAwaited(true) || event is ProcessTerminated,
{
}

/// A running job with a timeout is let run before the timeout and timed out after it, and then it
/// has ended. A job that has ended, or was told to stop, is left alone.
pub proof fn law_timeout(jobs: Map<u32, JobHandle>, job_id: u32, elapsed: u64)
    requires
        jobs.contains_key(job_id),
    ensures
        ({
            let job = jobs[job_id];
            let after = jobs_after_expiry(jobs, job_id);
            &&& monitored(Some(job), elapsed) is Expire <==> !job_manager::terminal(job.state)
                && !job.cancelled && (job.timeout matches Some(t) && t <= elapsed)
            &&& job.state is Running ==> after[job_id].state is TimedOut
            &&& job_manager::terminal(job.state) ==> after[job_id].state == job.state
            &&& monitored(Some(after[job_id]), elapsed) is Stop
            &&& after.remove(job_id) == jobs.remove(job_id)
        }),
{
    assert(jobs_after_expiry(jobs, job_id).remove(job_id) =~= jobs.remove(job_id));
}

/// The number that the bits of `code` stand for when the highest is a sign.
pub open spec fn as_signed(code: u32) -> int {
    if code < 0x8000_0000 {
        code as int
    } else {
        code - 0x1_0000_0000
    }
}

/// The registry after a job has been timed out: a job that may be timed out is, and its workers
/// are told to stop whether or not it may.
pub open spec fn jobs_after_expiry(jobs: Map<u32, JobHandle>, job_id: u32) -> Map<u32, JobHandle> {
    if jobs.contains_key(job_id) {
        let job = jobs[job_id];
        let state = if job_manager::may_follow(job.state, JobState::TimedOut) {
            JobState::TimedOut
        } else {
            job.state
        };
        jobs.insert(job_id, job_manager::told_to_stop(job_manager::in_state(job, state)))
    } else {
        jobs
    }
}

/// A job that was timed out.
#[derive(Debug)]
pub struct Expired {
    /// The first step of terminating the job.
    pub step: TerminateStep,
    /// The entry for the log, where the job has been ended by this.
    pub log: Option<LogRecord>,
}

/// A job is in the registry and has not ended.
pub open spec fn is_live(jobs: Map<u32, JobHandle>, job_id: u32) -> bool {
    jobs.contains_key(job_id) && !job_manager::terminal(jobs[job_id].state)
}

/// The registry after all of `ids` have been canceled.
pub open spec fn all_canceled(jobs: Map<u32, JobHandle>, ids: Seq<u32>) -> Map<u32, JobHandle>
    decreases ids.len(),
{
    if ids.len() == 0 {
        jobs
    } else {
        job_manager::jobs_after_cancel(all_canceled(jobs, ids.drop_last()), ids.last())
    }
}

/// The entries in the log when all of `ids` are canceled for `reason`: one for every job that has
/// not ended before.
pub open spec fn cancel_log(
    jobs: Map<u32, JobHandle>,
    ids: Seq<u32>,
    reason: Seq<char>,
) -> Seq<RecordView>
    decreases ids.len(),
{
    if ids.len() == 0 {
        Seq::empty()
    } else {
        let init = ids.drop_last();
        if is_live(all_canceled(jobs, init), ids.last()) {
            cancel_log(jobs, init, reason).push(logger::canceled_entry(ids.last(), reason))
        } else {
            cancel_log(jobs, init, reason)
        }
    }
}

pub struct CancellationManager;

impl CancellationManager {
    /// Cancels a job for `reason`. Where the job had not ended, there is an entry for the log.
    pub fn cancel_job(jobs: &mut JobManager, logger: &Logger, job_id: u32, reason: &str) -> (r: Result<
        Option<LogRecord>,
    >)
        requires
            old(jobs).wf(),
        ensures
            final(jobs).wf(),
            final(jobs).same_but_jobs(*old(jobs)),
            final(jobs).jobs() == job_manager::jobs_after_cancel(old(jobs).jobs(), job_id),
            r is Ok <==> old(jobs).jobs().contains_key(job_id),
            r matches Err(e) ==> e@ == ErrorView::JobNotFound(job_id),
            r matches Ok(log) ==> {
                &&& log is Some <==> is_live(old(jobs).jobs(), job_id)
                &&& log matches Some(record) ==> record@ == logger::canceled_entry(job_id, reason@)
            },
    {
        let live = match jobs.get_job(job_id) {
            Some(job) => !job.state.is_terminal(),
            None => false,
        };
        if let Err(e) = jobs.cancel_job(job_id, reason) {
            return Err(e);
        }
        if !live {
            return Ok(None);
        }
        match logger.audit_command_canceled(job_id, reason) {
            Ok(record) => Ok(Some(record)),
            Err(e) => Err(e),
        }
    }

    /// Cancels all jobs of `ids` for `reason`, and gives the entries for the log.
    pub fn cancel_jobs(jobs: &mut JobManager, logger: &Logger, ids: &Vec<u32>, reason: &str) -> (log:
        Vec<LogRecord>)
        requires
            old(jobs).wf(),
        ensures
            final(jobs).wf(),
            final(jobs).same_but_jobs(*old(jobs)),
            final(jobs).jobs() == all_canceled(old(jobs).jobs(), ids@),
            logger::records(log@) == cancel_log(old(jobs).jobs(), ids@, reason@),
    {
        let mut log: Vec<LogRecord> = Vec::new();
        let mut i: usize = 0;
        assert(ids@.take(0) =~= Seq::<u32>::empty());
        assert(logger::records(log@) =~= Seq::<RecordView>::empty());
        while i < ids.len()
            invariant
                i <= ids@.len(),
                jobs.wf(),
                jobs.same_but_jobs(*old(jobs)),
                jobs.jobs() == all_canceled(old(jobs).jobs(), ids@.take(i as int)),
                logger::records(log@) == cancel_log(
                    old(jobs).jobs(),
                    ids@.take(i as int),
                    reason@,
                ),
            decreases ids@.len() - i,
        {
            assert(ids@.take(i + 1).drop_last() =~= ids@.take(i as int));
            let ghost before = log@;
            if let Ok(Some(record)) = Self::cancel_job(jobs, logger, ids[i], reason) {
                log.push(record);
                assert(logger::records(log@) =~= logger::records(before).push(record@));
            }
            i += 1;
        }
        assert(ids@.take(i as int) =~= ids@);
        log
    }

    /// What the timeout monitor does about `job`, which is none where it has left the registry,
    /// when it has watched for `elapsed` milliseconds.
    pub fn monitor_timeout(job: Option<JobHandle>, elapsed: u64) -> (s: MonitorStep)
        ensures
            s == monitored(job, elapsed),
    {
        let job = match job {
            Some(job) => job,
            None => return MonitorStep::Stop,
        };
        let timeout: u64 = match job.timeout {
            Some(t) => t,
            None => return MonitorStep::Stop,
        };
        if job.state.is_terminal() {
            return MonitorStep::Stop;
        }
        if job.cancelled {
            return MonitorStep::Stop;
        }
        if elapsed >= timeout {
            MonitorStep::Expire
        } else {
            MonitorStep::Wait(CHECK_INTERVAL_MS)
        }
    }

    /// Times a job out, and gives the first step of terminating it. Where that has ended the job,
    /// there is an entry for the log.
    pub fn expire(jobs: &mut JobManager, logger: &Logger, job_id: u32) -> (r: Option<Expired>)
        requires
            old(jobs).wf(),
        ensures
            final(jobs).wf(),
            final(jobs).same_but_jobs(*old(jobs)),
            final(jobs).jobs() == jobs_after_expiry(old(jobs).jobs(), job_id),
            r is Some <==> old(jobs).jobs().contains_key(job_id),
            r matches Some(x) ==> {
                let job = old(jobs).jobs()[job_id];
                &&& x.step == first_step(job)
                &&& x.log is Some <==> job_manager::may_follow(job.state, JobState::TimedOut)
                &&& x.log matches Some(record) ==> record@ == logger::canceled_entry(
                    job_id,
                    REASON_TIMEOUT@,
                )
                &&& x.log is Some <==> job.state is Running
                &&& x.log matches Some(record) ==> record@ == logger::canceled_entry(
                    job_id,
                    "timeout"@,
                )
            },
    {
        let timed_out = jobs.transition_state(job_id, JobState::TimedOut).is_ok();
        let step = match Self::terminate_job(jobs, job_id) {
            Some(step) => step,
            None => {
                assert(jobs.jobs() =~= jobs_after_expiry(old(jobs).jobs(), job_id));
                return None;
            },
        };
        assert(jobs.jobs() =~= jobs_after_expiry(old(jobs).jobs(), job_id));
        let log = if timed_out {
            match logger.audit_command_canceled(job_id, REASON_TIMEOUT) {
                Ok(record) => Some(record),
                Err(_) => None,
            }
        } else {
            None
        };
        Some(Expired { step, log })
    }

    /// Tells the workers of a job to stop, and gives the first step of terminating it.
    pub fn terminate_job(jobs: &mut JobManager, job_id: u32) -> (s: Option<TerminateStep>)
        requires
            old(jobs).wf(),
        ensures
            final(jobs).wf(),
            final(jobs).same_but_jobs(*old(jobs)),
            !old(jobs).jobs().contains_key(job_id) ==> s is None && final(jobs).jobs() == old(
                jobs,
            ).jobs(),
            old(jobs).jobs().contains_key(job_id) ==> s == Some(
                first_step(old(jobs).jobs()[job_id]),
            ) && final(jobs).jobs() == old(jobs).jobs().insert(
                job_id,
                job_manager::told_to_stop(old(jobs).jobs()[job_id]),
            ),
    {
        let job = match jobs.signal_stop(job_id) {
            Some(job) => job,
            None => return None,
        };
        Some(
            match job.job_object {
                Some(h) => TerminateStep::TerminateJobObject(h, TERMINATED_EXIT_CODE),
                None => Self::terminate_directly(job.process_handle),
            },
        )
    }

    fn terminate_directly(process: Option<isize>) -> (s: TerminateStep)
        ensures
            s == directly(process),
    {
        match process {
            Some(h) => TerminateStep::TerminateProcess(h, TERMINATED_EXIT_CODE),
            None => TerminateStep::Done(Ok(())),
        }
    }

    /// The step after `event`, when the job's process is `process`. Where the job object cannot be
    /// terminated, or the process does not exit in time, the process is terminated itself.
    pub fn next_step(process: Option<isize>, event: TerminateEvent) -> (s: TerminateStep)
        ensures
            is_next(process, event, s),
    {
        match event {
            TerminateEvent::JobObjectTerminated(ok) => {
                if ok {
                    match process {
                        Some(h) => TerminateStep::WaitForExit(h, EXIT_GRACE_MS),
                        None => TerminateStep::Done(Ok(())),
                    }
                } else {
                    Self::terminate_directly(process)
                }
            },
            TerminateEvent::ExitAwaited(exited) => {
                if exited {
                    TerminateStep::Done(Ok(()))
                } else {
                    Self::terminate_directly(process)
                }
            },
            TerminateEvent::ProcessTerminated(r) => match r {
                Ok(_) => TerminateStep::Done(Ok(())),
                Err(reason) => TerminateStep::Done(
                    Err(
                        Error::ProcessLaunchFailed(
                            text::joined("TerminateProcess failed: ", reason.as_str()),
                        ),
                    ),
                ),
            },
        }
    }

    /// Looks at a process again and again until it has exited, for `timeout` milliseconds at most.
    pub fn wait_for_exit_timeout(timeout: u64, event: PollEvent) -> (s: PollStep)
        ensures
            match event {
                PollEvent::Elapsed(ms) => if ms < timeout {
                    s is Look
                } else {
                    s matches PollStep::Done(Err(e)) && e@ == ErrorView::ProcessLaunchFailed(
                        "Process did not exit within timeout"@,
                    )
                },
                PollEvent::Looked(answer) => if answer == WAIT_OBJECT_0 {
                    s == PollStep::Done(Ok(()))
                } else {
                    s == PollStep::Sleep(POLL_INTERVAL_MS)
                },
            },
    {
        match event {
            PollEvent::Elapsed(ms) => {
                if ms < timeout {
                    PollStep::Look
                } else {
                    PollStep::Done(
                        Err(
                            Error::ProcessLaunchFailed(
                                "Process did not exit within timeout".to_owned(),
                            ),
                        ),
                    )
                }
            },
            PollEvent::Looked(answer) => {
                if answer == WAIT_OBJECT_0 {
                    PollStep::Done(Ok(()))
                } else {
                    PollStep::Sleep(POLL_INTERVAL_MS)
                }
            },
        }
    }

    /// What to make of a wait for a process. An exit code that cannot be had is -1.
    pub fn wait_for_process_exit(event: WaitEvent) -> (s: WaitStep)
        ensures
            match event {
                WaitEvent::Waited(answer, code) => if answer == WAIT_OBJECT_0 {
                    s matches WaitStep::Done(Ok(c)) && c == (match code {
                        Some(x) => as_signed(x),
                        None => -1,
                    })
                } else if answer == WAIT_TIMEOUT {
                    s is Again
                } else {
                    s matches WaitStep::Done(Err(e)) && e@ == ErrorView::ProcessLaunchFailed(
                        "WaitForSingleObject failed with code: WAIT_EVENT("@ + text::decimal(
                            answer as nat,
                        ) + ")"@,
                    )
                },
                WaitEvent::TaskFailed(reason) => s matches WaitStep::Done(Err(e)) && e@
                    == ErrorView::ProcessLaunchFailed("Wait task failed: "@ + reason@),
                WaitEvent::Cancelled => s matches WaitStep::Done(Err(e)) && e@
                    == ErrorView::ProcessLaunchFailed("Wait cancelled"@),
            },
    {
        match event {
            WaitEvent::Waited(answer, code) => {
                if answer == WAIT_OBJECT_0 {
                    let exit_code: i32 = match code {
                        Some(c) => {
                            assert(c < 0x8000_0000 ==> c as i32 == c) by (bit_vector);
                            assert(c >= 0x8000_0000 ==> c as i32 == c - 0x1_0000_0000)
                                by (bit_vector);
                            c as i32
                        },
                        None => -1,
                    };
                    WaitStep::Done(Ok(exit_code))
                } else if answer == WAIT_TIMEOUT {
                    WaitStep::Again
                } else {
                    let mut m = "WaitForSingleObject failed with code: WAIT_EVENT(".to_owned();
                    m.append(text::decimal_text(answer as u64).as_str());
                    m.append(")");
                    WaitStep::Done(Err(Error::ProcessLaunchFailed(m)))
                }
            },
            WaitEvent::TaskFailed(reason) => WaitStep::Done(
                Err(Error::ProcessLaunchFailed(text::joined("Wait task failed: ", reason.as_str()))),
            ),
            WaitEvent::Cancelled => WaitStep::Done(
                Err(Error::ProcessLaunchFailed("Wait cancelled".to_owned())),
            ),
        }
    }
}

/// When the jobs of a client are canceled since it has left, or all jobs since the service stops,
/// every one of them has ended or left the registry, and no other job is touched.
pub proof fn law_canceled_jobs(
    jobs: Map<u32, JobHandle>,
    ids: Seq<u32>,
    job_id: u32,
)
    ensures
        all_canceled(jobs, ids).dom() == jobs.dom(),
        ids.contains(job_id) && jobs.contains_key(job_id) ==> job_manager::terminal(
            all_canceled(jobs, ids)[job_id].state,
        ),
        !ids.contains(job_id) ==> all_canceled(jobs, ids)[job_id] == jobs[job_id],
        jobs.contains_key(job_id) && job_manager::terminal(jobs[job_id].state) ==> all_canceled(
            jobs,
            ids,
        )[job_id] == jobs[job_id],
    decreases ids.len(),
{
    if ids.len() > 0 {
        let init = ids.drop_last();
        let before = all_canceled(jobs, init);
        law_canceled_jobs(jobs, init, job_id);
        job_manager::law_cancel(before, ids.last(), job_id);
        assert(all_canceled(jobs, ids).dom() == before.dom());
        if ids.contains(job_id) && job_id != ids.last() {
            let i = choose|i: int| 0 <= i < ids.len() && ids[i] == job_id;
            assert(init[i] == job_id);
        }
        if init.contains(job_id) {
            let i = choose|i: int| 0 <= i < init.len() && init[i] == job_id;
            assert(ids[i] == job_id);
        }
        assert(ids[ids.len() - 1] == ids.last());
    }
}

/// Each job of `ids` that has been created, is starting, runs or exits has its workers told to stop
/// and is `Canceled` when all of `ids` are canceled; everything else of it is as it was.
pub proof fn law_every_live_job_is_canceled(jobs: Map<u32, JobHandle>, ids: Seq<u32>, job_id: u32)
    requires
        ids.contains(job_id),
        jobs.contains_key(job_id),
        jobs[job_id].state is Created || jobs[job_id].state is Starting || jobs[job_id].state
            is Running || jobs[job_id].state is Exiting,
    ensures
        all_canceled(jobs, ids).contains_key(job_id),
        ({
            let was = jobs[job_id];
            let after = all_canceled(jobs, ids)[job_id];
            &&& after.cancelled
            &&& after.state is Canceled
            &&& after.job_id == was.job_id
            &&& after.process_handle == was.process_handle
            &&& after.job_object == was.job_object
            &&& after.stdout_pump == was.stdout_pump
            &&& after.stderr_pump == was.stderr_pump
            &&& after.start_time == was.start_time
            &&& after.last_activity == was.last_activity
            &&& after.timeout == was.timeout
        }),
    decreases ids.len(),
{
    let init = ids.drop_last();
    let before = all_canceled(jobs, init);
    law_canceled_jobs(jobs, init, job_id);
    assert(before.dom().contains(job_id));
    if init.contains(job_id) {
        law_every_live_job_is_canceled(jobs, init, job_id);
    } else {
        assert(before[job_id] == jobs[job_id]);
        let i = choose|i: int| 0 <= i < ids.len() && ids[i] == job_id;
        assert(i < ids.len() - 1 ==> init[i] == job_id);
        assert(ids.last() == job_id);
    }
    if ids.last() == job_id {
        job_manager::law_cancel_whatever_the_state(before, job_id, job_id);
    } else {
        job_manager::law_cancel(before, ids.last(), job_id);
        assert(all_canceled(jobs, ids).dom() == before.dom());
        assert(all_canceled(jobs, ids).dom().contains(job_id));
    }
}

/// The log of a cancellation has one entry for each job that was still alive, in the order of `ids`
/// and with the reason: another id adds an entry exactly where its job is in the registry, has not
/// been canceled before and has been created, is starting, runs or exits.
pub proof fn law_cancellations_are_logged(
    jobs: Map<u32, JobHandle>,
    ids: Seq<u32>,
    job_id: u32,
    reason: Seq<char>,
)
    ensures
        cancel_log(jobs, Seq::empty(), reason).len() == 0,
        cancel_log(jobs, ids.push(job_id), reason) == (if !ids.contains(job_id)
            && jobs.contains_key(job_id) && (jobs[job_id].state is Created || jobs[job_id].state
            is Starting || jobs[job_id].state is Running || jobs[job_id].state is Exiting) {
            cancel_log(jobs, ids, reason).push(logger::canceled_entry(job_id, reason))
        } else {
            cancel_log(jobs, ids, reason)
        }),
{
    assert(ids.push(job_id).drop_last() =~= ids);
    law_canceled_jobs(jobs, ids, job_id);
    assert(all_canceled(jobs, ids).dom().contains(job_id) == jobs.dom().contains(job_id));
    assert(all_canceled(jobs, ids).contains_key(job_id) == jobs.contains_key(job_id));
}

/// The monitor of a job looks once a second. It stops where the job is gone, has no time limit, has
/// been told to stop or has ended in whatever way; otherwise it times the job out as soon as it has
/// run for as long as it may, and waits until then.
pub proof fn law_monitor(job: JobHandle, elapsed: u64)
    ensures
        monitored(None, elapsed) is Stop,
        job.timeout is None ==> monitored(Some(job), elapsed) is Stop,
        job.cancelled ==> monitored(Some(job), elapsed) is Stop,
        job.state is Completed || job.state is Failed || job.state is Canceled || job.state
            is TimedOut ==> monitored(Some(job), elapsed) is Stop,
        !job.cancelled && (job.state is Created || job.state is Starting || job.state is Running
            || job.state is Exiting) ==> (job.timeout matches Some(t) ==> monitored(
            Some(job),
            elapsed,
        ) == (if elapsed < t {
            MonitorStep::Wait(1000)
        } else {
            MonitorStep::Expire
        })),
{
}

/// Timing a job out makes it `TimedOut` where it was running and leaves its state otherwise; its
/// workers are told to stop in any case. Nothing else of it changes, and no other job does.
pub proof fn law_expiry(jobs: Map<u32, JobHandle>, job_id: u32, other: u32)
    ensures
        jobs_after_expiry(jobs, job_id).contains_key(other) <==> jobs.contains_key(other),
        other != job_id && jobs.contains_key(other) ==> jobs_after_expiry(jobs, job_id)[other]
            == jobs[other],
        jobs.contains_key(job_id) ==> {
            let was = jobs[job_id];
            let after = jobs_after_expiry(jobs, job_id)[job_id];
            &&& after.cancelled
            &&& was.state is Running ==> after.state is TimedOut
            &&& !(was.state is Running) ==> after.state == was.state
            &&& after.job_id == was.job_id
            &&& after.process_handle == was.process_handle
            &&& after.job_object == was.job_object
            &&& after.stdout_pump == was.stdout_pump
            &&& after.stderr_pump == was.stderr_pump
            &&& after.start_time == was.start_time
            &&& after.last_activity == was.last_activity
            &&& after.timeout == was.timeout
        },
{
}

/// How a job is terminated. Its job object is terminated first, with exit code 1, and its process is
/// given five seconds to exit. Where there is no job object, it cannot be terminated, or the process
/// does not exit in time, the process itself is terminated, with exit code 1. Where there is no
/// process either there is nothing left to do.
pub proof fn law_termination(job: JobHandle, event: TerminateEvent, next: TerminateStep)
    requires
        is_next(job.process_handle, event, next),
    ensures
        job.job_object matches Some(h) ==> first_step(job) == TerminateStep::TerminateJobObject(h, 1),
        job.job_object is None ==> (job.process_handle matches Some(h) ==> first_step(job)
            == TerminateStep::TerminateProcess(h, 1)),
        job.job_object is None && job.process_handle is None ==> first_step(job)
            == TerminateStep::Done(Ok(())),
        job.process_handle matches Some(h) ==> {
            &&& event == TerminateEvent::JobObjectTerminated(true) ==> next
                == TerminateStep::WaitForExit(h, 5000)
            &&& event == TerminateEvent::JobObjectTerminated(false) || event
                == TerminateEvent::ExitAwaited(false) ==> next == TerminateStep::TerminateProcess(
                h,
                1,
            )
        },
        job.process_handle is None && (event is JobObjectTerminated || event is ExitAwaited) ==> next
            == TerminateStep::Done(Ok(())),
        event == TerminateEvent::ExitAwaited(true) ==> next == TerminateStep::Done(Ok(())),
        event matches TerminateEvent::ProcessTerminated(r) ==> match r {
            Ok(_) => next == TerminateStep::Done(Ok(())),
            Err(reason) => next matches TerminateStep::Done(Err(e)) && e@
                == ErrorView::ProcessLaunchFailed("TerminateProcess failed: "@ + reason@),
        },
{
}

/// An exit code is the signed number of 32 bits that leaves the same rest as the code.
pub proof fn law_signed_codes(code: u32)
    ensures
        i32::MIN <= as_signed(code) <= i32::MAX,
        as_signed(code) % 0x1_0000_0000 == code,
{
}

/// Where each of `ids` comes once and its job is alive, the log has an entry for each, at its place.
pub proof fn law_live_jobs_are_logged(
    jobs: Map<u32, JobHandle>,
    ids: Seq<u32>,
    reason: Seq<char>,
)
    requires
        ids.no_duplicates(),
        forall|j: int|
            0 <= j < ids.len() ==> jobs.contains_key(#[trigger] ids[j]) && {
                let state = jobs[ids[j]].state;
                state is Created || state is Starting || state is Running || state is Exiting
            },
    ensures
        cancel_log(jobs, ids, reason).len() == ids.len(),
        forall|i: int|
            0 <= i < ids.len() ==> #[trigger] cancel_log(jobs, ids, reason)[i]
                == logger::canceled_entry(ids[i], reason),
    decreases ids.len(),
{
    if ids.len() > 0 {
        let init = ids.drop_last();
        let last = ids.last();
        assert(init.push(last) =~= ids);
        assert forall|j: int| 0 <= j < init.len() implies jobs.contains_key(#[trigger] init[j]) && {
            let state = jobs[init[j]].state;
            state is Created || state is Starting || state is Running || state is Exiting
        } by {
            assert(init[j] == ids[j]);
        }
        assert(ids[ids.len() - 1] == last);
        assert(!init.contains(last));
        law_live_jobs_are_logged(jobs, init, reason);
        law_cancellations_are_logged(jobs, init, last, reason);
        assert forall|i: int| 0 <= i < ids.len() implies #[trigger] cancel_log(jobs, ids, reason)[i]
            == logger::canceled_entry(ids[i], reason) by {
            if i < init.len() {
                assert(cancel_log(jobs, ids, reason)[i] == cancel_log(jobs, init, reason)[i]);
                assert(init[i] == ids[i]);
            }
        }
    }
}

} // verus!
