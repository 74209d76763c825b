//! The life of one job, from the launch of its process until it leaves the registry.
//!
//! A run goes through `Launching`, `Announced`, `Monitored`, `Draining` and `Exiting`. Each of them
//! says what is to be done now, and takes what came of it. However a run ends, a `RunEnd` says what
//! is left to be done.
use vstd::prelude::*;

use crate::error::{Error, ErrorView, Result};
use crate::job_manager;
use crate::job_manager::{JobHandle, JobManager, JobState, ReleasedJob};
use crate::logger;
use crate::logger::{LogLevel, LogRecord, Logger};
use crate::message::{Outgoing, OutgoingView};
use crate::process_launcher;
use crate::process_launcher::LaunchedProcess;
use crate::protocol::{ErrorPayload, ExitPayload, StatusPayload};
use crate::text;

verus! {

/// How long each pump may take to finish once the process has exited, in milliseconds.
pub const PUMP_DRAIN_MS: u64 = 5_000;

/// The code of an error that a client is told of.
pub const ERROR_CODE: u32 = 1;

/// The process of the job is being launched.
#[derive(Debug, Clone, Copy)]
pub struct Launching {
    pub job_id: u32,
    pub start_time: u64,
}

/// The process runs, and the client is to be told.
#[derive(Debug)]
pub struct Announced {
    pub job_id: u32,
    pub start_time: u64,
    pub process: LaunchedProcess,
    /// The message for the client.
    pub status: Outgoing,
}

/// The client has been told. The pumps, the timeout monitor and the wait for the process are to be
/// started.
#[derive(Debug, Clone, Copy)]
pub struct Monitored {
    pub job_id: u32,
    pub start_time: u64,
    pub process: LaunchedProcess,
}

/// The process has exited, or is no longer waited for. Its standard input is to be closed and the
/// pumps are to be waited for.
#[derive(Debug, Clone, Copy)]
pub struct Draining {
    pub job_id: u32,
    pub start_time: u64,
    pub process: LaunchedProcess,
    pub exit_code: i32,
    /// Whether there is a pump to be waited for.
    pub stdout_pump: bool,
    /// Whether there is a pump to be waited for.
    pub stderr_pump: bool,
}

/// All output is sent. The agent's ends of the output pipes are to be closed and the client is to
/// be told that the process has exited.
#[derive(Debug)]
pub struct Exiting {
    pub job_id: u32,
    pub start_time: u64,
    pub exit_code: i32,
    /// Handles to close.
    pub close: Vec<isize>,
    /// A message for the client that its output could not be copied to the end, to be sent first.
    pub error: Option<Outgoing>,
    /// The message for the client.
    pub exit: Outgoing,
    /// Why the output could not be copied to the end.
    pub failure: Option<Error>,
}

/// What is left to do at the end of a run. When it is done, the job is to leave the registry with
/// `finish`.
#[derive(Debug)]
pub struct RunEnd {
    pub job_id: u32,
    /// A message for the client.
    pub send: Option<Outgoing>,
    /// An entry for the log.
    pub log: Option<LogRecord>,
    /// What the job leaves behind.
    pub released: Option<ReleasedJob>,
    /// Handles to close.
    pub close: Vec<isize>,
    /// Whether the process was run to its end.
    pub result: Result<()>,
}

/// What came of a launch that succeeded.
pub struct AfterLaunch {
    /// A handle to close.
    pub close: Option<isize>,
    /// The run goes on, or it has ended.
    pub next: std::result::Result<Announced, RunEnd>,
}

/// `jobs` after a change of state that is made where it may be.
pub open spec fn moved(jobs: Map<u32, JobHandle>, job_id: u32, state: JobState) -> Map<
    u32,
    JobHandle,
> {
    if jobs.contains_key(job_id) && job_manager::may_follow(jobs[job_id].state, state) {
        jobs.insert(job_id, job_manager::in_state(jobs[job_id], state))
    } else {
        jobs
    }
}

/// What a job leaves behind, where it is in the registry.
pub open spec fn left_by(jobs: Map<u32, JobHandle>, job_id: u32) -> Option<ReleasedJob> {
    if jobs.contains_key(job_id) {
        Some(job_manager::released(jobs[job_id]))
    } else {
        None
    }
}

/// `jobs` with the launched process given to its job.
pub open spec fn attached(jobs: Map<u32, JobHandle>, job_id: u32, p: LaunchedProcess) -> Map<
    u32,
    JobHandle,
> {
    jobs.insert(
        job_id,
        job_manager::with_process(jobs[job_id], p.process_handle, p.job_object),
    )
}

/// The ends of the pipes that the agent has of a process.
pub open spec fn own_ends(p: LaunchedProcess) -> Seq<isize> {
    seq![p.stdin_write, p.stdout_read, p.stderr_read]
}

/// The exit code that the client is told: that of the process where it is known, 1 where the job
/// was timed out, and -1 otherwise.
pub open spec fn told_exit_code(
    result: Result<i32>,
    jobs: Map<u32, JobHandle>,
    job_id: u32,
) -> int {
    match result {
        Ok(code) => code as int,
        Err(_) => if jobs.contains_key(job_id) && jobs[job_id].state is TimedOut {
            1
        } else {
            -1
        },
    }
}

/// `log` is the entry of a command that could not run.
pub open spec fn logs_failure(log: Option<LogRecord>, job_id: u32, message: Seq<char>) -> bool {
    log matches Some(record) && record@ == logger::entry(
        LogLevel::Error,
        "COMMAND_FAILED"@,
        logger::failed_fields(job_id, ERROR_CODE, message),
    )
}

/// `log` is the entry of a command that has run.
pub open spec fn logs_completion(
    log: Option<LogRecord>,
    job_id: u32,
    exit_code: i32,
    duration_ms: int,
) -> bool {
    log matches Some(record) && record@ == logger::entry(
        LogLevel::Info,
        "COMMAND_COMPLETED"@,
        seq![
            ("job_id"@, text::decimal(job_id as nat)),
            ("exit_code"@, text::signed_decimal(exit_code as int)),
            ("duration_ms"@, text::decimal(duration_ms as nat)),
        ],
    )
}

/// `m` tells the client of an error that a job has run into.
pub open spec fn tells_job_error(m: Option<Outgoing>, job_id: u32, e: ErrorView) -> bool {
    m matches Some(x) && x@ == (OutgoingView::Error {
        about: Some(job_id),
        error_code: ERROR_CODE,
        error_message: crate::error::error_text(e),
    })
}

/// `end` hands out what a job leaves behind that was in `jobs`, and the job is being cleaned up.
pub open spec fn cleans_up(
    end: RunEnd,
    job_id: u32,
    jobs: Map<u32, JobHandle>,
    jobs_after: Map<u32, JobHandle>,
) -> bool {
    &&& end.job_id == job_id
    &&& end.released == left_by(jobs, job_id)
    &&& jobs_after == job_manager::stopped(jobs, job_id)
}

/// The milliseconds from `start` to `now`, or 0 where the clock has gone back.
pub open spec fn duration(start: u64, now: u64) -> int {
    if start <= now {
        now - start
    } else {
        0
    }
}

/// Starts to clean a job up, where it is in the registry.
fn clean_up(jobs: &mut JobManager, job_id: u32) -> (r: Option<ReleasedJob>)
    requires
        old(jobs).wf(),
    ensures
        final(jobs).wf(),
        final(jobs).same_but_jobs(*old(jobs)),
        final(jobs).jobs() == job_manager::stopped(old(jobs).jobs(), job_id),
        r == left_by(old(jobs).jobs(), job_id),
{
    match jobs.begin_cleanup(job_id) {
        Ok(left) => Some(left),
        Err(_) => None,
    }
}

/// The message that tells the client of an error that a job has run into.
fn job_error(job_id: u32, e: &Error) -> (m: Outgoing)
    ensures
        tells_job_error(Some(m), job_id, e@),
{
    Outgoing::Error(
        ErrorPayload {
            job_id: Some(job_id),
            error_code: ERROR_CODE,
            error_message: e.message(),
        },
    )
}

impl RunEnd {
    /// Takes the job out of the registry, and gives what came up since its clean-up began.
    pub fn finish(&self, jobs: &mut JobManager) -> (left: Option<ReleasedJob>)
        requires
            old(jobs).wf(),
        ensures
            final(jobs).wf(),
            final(jobs).same_but_jobs(*old(jobs)),
            final(jobs).jobs() == old(jobs).jobs().remove(self.job_id),
            left == left_by(old(jobs).jobs(), self.job_id),
    {
        match jobs.cleanup_job(self.job_id) {
            Ok(left) => Some(left),
            Err(_) => None,
        }
    }
}

/// Starts the run of a job.
pub fn launch_and_monitor_process(job: &JobHandle) -> (run: Launching)
    ensures
        run.job_id == job.job_id,
        run.start_time == job.start_time,
{
    Launching { job_id: job.job_id, start_time: job.start_time }
}

impl Launching {
    /// The process could not be launched, or its pipes could not be created: the job has failed,
    /// the client is told, and the failure goes into the log.
    pub fn launch_failed(self, jobs: &mut JobManager, logger: &Logger, e: Error) -> (end: RunEnd)
        requires
            old(jobs).wf(),
        ensures
            final(jobs).wf(),
            final(jobs).same_but_jobs(*old(jobs)),
            cleans_up(
                end,
                self.job_id,
                moved(old(jobs).jobs(), self.job_id, JobState::Failed),
                final(jobs).jobs(),
            ),
            tells_job_error(end.send, self.job_id, e@),
            logs_failure(end.log, self.job_id, crate::error::error_text(e@)),
            end.close@ == Seq::<isize>::empty(),
            end.result == Err::<(), Error>(e),
    {
        let _ = jobs.transition_state(self.job_id, JobState::Failed);
        let message = e.message();
        let log = match logger.audit_command_failed(self.job_id, ERROR_CODE, message.as_str()) {
            Ok(record) => Some(record),
            Err(_) => None,
        };
        let released = clean_up(jobs, self.job_id);
        let send = Some(job_error(self.job_id, &e));
        RunEnd { job_id: self.job_id, send, log, released, close: Vec::new(), result: Err(e) }
    }

    /// The process was launched. The job is `Running` from now on, and the client is to be told.
    /// Where the job was canceled meanwhile, or has left the registry, the run has ended and
    /// everything is closed.
    pub fn launched(self, jobs: &mut JobManager, p: LaunchedProcess) -> (r: AfterLaunch)
        requires
            old(jobs).wf(),
        ensures
            final(jobs).wf(),
            final(jobs).same_but_jobs(*old(jobs)),
            r.close == (if process_launcher::is_open(p.thread_handle) {
                Some(p.thread_handle)
            } else {
                None
            }),
            r.next is Ok <==> old(jobs).jobs().contains_key(self.job_id) && job_manager::may_follow(
                old(jobs).jobs()[self.job_id].state,
                JobState::Running,
            ),
            r.next matches Ok(run) ==> {
                &&& run.job_id == self.job_id
                &&& run.start_time == self.start_time
                &&& run.process == p
                &&& run.status@ == (OutgoingView::Status {
                    job_id: self.job_id,
                    status: "Running"@,
                })
                &&& final(jobs).jobs() == moved(
                    attached(old(jobs).jobs(), self.job_id, p),
                    self.job_id,
                    JobState::Running,
                )
            },
            r.next matches Err(end) ==> {
                &&& end.send is None
                &&& end.log is None
                &&& end.job_id == self.job_id
                &&& end.result matches Err(e)
                &&& if old(jobs).jobs().contains_key(self.job_id) {
                    &&& e@ == job_manager::bad_transition(
                        self.job_id,
                        old(jobs).jobs()[self.job_id].state,
                        JobState::Running,
                    )
                    &&& cleans_up(
                        end,
                        self.job_id,
                        attached(old(jobs).jobs(), self.job_id, p),
                        final(jobs).jobs(),
                    )
                    &&& end.close@ == own_ends(p)
                } else {
                    &&& e@ == ErrorView::JobNotFound(self.job_id)
                    &&& end.released is None
                    &&& final(jobs).jobs() == old(jobs).jobs()
                    &&& end.close@ == seq![p.process_handle, p.job_object] + own_ends(p)
                }
            },
    {
        let close = p.thread_to_close();
        let mut handles: Vec<isize> = Vec::new();
        if let Err(e) = jobs.attach_process(self.job_id, p.process_handle, p.job_object) {
            handles.push(p.process_handle);
            handles.push(p.job_object);
            handles.push(p.stdin_write);
            handles.push(p.stdout_read);
            handles.push(p.stderr_read);
            assert(handles@ =~= seq![p.process_handle, p.job_object] + own_ends(p));
            return AfterLaunch {
                close,
                next: Err(
                    RunEnd {
                        job_id: self.job_id,
                        send: None,
                        log: None,
                        released: None,
                        close: handles,
                        result: Err(e),
                    },
                ),
            };
        }
        match jobs.transition_state(self.job_id, JobState::Running) {
            Ok(_) => {
                let status = Outgoing::Status(
                    StatusPayload { job_id: self.job_id, status: "Running".to_owned() },
                );
                AfterLaunch {
                    close,
                    next: Ok(
                        Announced {
                            job_id: self.job_id,
                            start_time: self.start_time,
                            process: p,
                            status,
                        },
                    ),
                }
            },
            Err(e) => {
                let released = clean_up(jobs, self.job_id);
                handles.push(p.stdin_write);
                handles.push(p.stdout_read);
                handles.push(p.stderr_read);
                assert(handles@ =~= own_ends(p));
                AfterLaunch {
                    close,
                    next: Err(
                        RunEnd {
                            job_id: self.job_id,
                            send: None,
                            log: None,
                            released,
                            close: handles,
                            result: Err(e),
                        },
                    ),
                }
            },
        }
    }
}

impl Announced {
    /// The client has been told that the process runs.
    pub fn status_sent(self, jobs: &mut JobManager) -> (run: Monitored)
        requires
            old(jobs).wf(),
        ensures
            final(jobs).wf(),
            final(jobs).same_but_jobs(*old(jobs)),
            final(jobs).jobs() == (if old(jobs).jobs().contains_key(self.job_id) {
                old(jobs).jobs().insert(
                    self.job_id,
                    job_manager::with_pumps(old(jobs).jobs()[self.job_id]),
                )
            } else {
                old(jobs).jobs()
            }),
            run.job_id == self.job_id,
            run.start_time == self.start_time,
            run.process == self.process,
    {
        let _ = jobs.attach_pumps(self.job_id);
        Monitored { job_id: self.job_id, start_time: self.start_time, process: self.process }
    }

    /// The client could not be told, for `reason`: the run has ended.
    pub fn status_failed(self, jobs: &mut JobManager, reason: &str) -> (end: RunEnd)
        requires
            old(jobs).wf(),
        ensures
            final(jobs).wf(),
            final(jobs).same_but_jobs(*old(jobs)),
            cleans_up(end, self.job_id, old(jobs).jobs(), final(jobs).jobs()),
            end.send is None,
            end.log is None,
            end.close@ == own_ends(self.process),
            end.result matches Err(e) && e@ == ErrorView::Protocol(
                "Failed to send STATUS: "@ + reason@,
            ),
    {
        let released = clean_up(jobs, self.job_id);
        let mut close: Vec<isize> = Vec::new();
        close.push(self.process.stdin_write);
        close.push(self.process.stdout_read);
        close.push(self.process.stderr_read);
        assert(close@ =~= own_ends(self.process));
        let e = Error::Protocol(text::joined("Failed to send STATUS: ", reason));
        RunEnd { job_id: self.job_id, send: None, log: None, released, close, result: Err(e) }
    }
}

impl Monitored {
    /// The process has exited, or is no longer waited for.
    pub fn exited(self, jobs: &mut JobManager, result: Result<i32>) -> (run: Draining)
        requires
            old(jobs).wf(),
        ensures
            final(jobs).wf(),
            final(jobs).same_but_jobs(*old(jobs)),
            final(jobs).jobs() == (if old(jobs).jobs().contains_key(self.job_id) {
                old(jobs).jobs().insert(
                    self.job_id,
                    job_manager::without_pumps(old(jobs).jobs()[self.job_id]),
                )
            } else {
                old(jobs).jobs()
            }),
            run.job_id == self.job_id,
            run.start_time == self.start_time,
            run.process == self.process,
            run.exit_code == told_exit_code(result, old(jobs).jobs(), self.job_id),
            result matches Ok(code) ==> run.exit_code == code,
            old(jobs).jobs().contains_key(self.job_id) ==> {
                &&& run.stdout_pump == old(jobs).jobs()[self.job_id].stdout_pump
                &&& run.stderr_pump == old(jobs).jobs()[self.job_id].stderr_pump
            },
            !old(jobs).jobs().contains_key(self.job_id) ==> !run.stdout_pump && !run.stderr_pump,
    {
        let exit_code: i32 = match result {
            Ok(code) => code,
            Err(_) => {
                let timed_out = match jobs.get_job(self.job_id) {
                    Some(job) => job.state == JobState::TimedOut,
                    None => false,
                };
                if timed_out {
                    1
                } else {
                    -1
                }
            },
        };
        let (stdout_pump, stderr_pump) = jobs.take_pumps(self.job_id);
        Draining {
            job_id: self.job_id,
            start_time: self.start_time,
            process: self.process,
            exit_code,
            stdout_pump,
            stderr_pump,
        }
    }
}

impl Draining {
    /// The handle of the process's standard input, which is to be closed before the pumps are
    /// waited for.
    pub fn stdin(&self) -> (h: isize)
        ensures
            h == self.process.stdin_write,
    {
        self.process.stdin_write
    }

    /// The pumps have finished, or have taken too long. Where one has failed, `failure` says why.
    /// That counts only for a job that has not ended in another way: when a job is canceled, its
    /// pumps may well fail.
    pub fn drained(self, jobs: &mut JobManager, failure: Option<Error>) -> (run: Exiting)
        requires
            old(jobs).wf(),
        ensures
            final(jobs).wf(),
            final(jobs).same_but_jobs(*old(jobs)),
            final(jobs).jobs() == moved(old(jobs).jobs(), self.job_id, JobState::Exiting),
            run.job_id == self.job_id,
            run.start_time == self.start_time,
            run.exit_code == self.exit_code,
            run.close@ == seq![self.process.stdout_read, self.process.stderr_read],
            run.exit@ == (OutgoingView::Exit { job_id: self.job_id, exit_code: self.exit_code }),
            run.failure == (if is_exiting(final(jobs).jobs(), self.job_id) {
                failure
            } else {
                None
            }),
            run.error is Some <==> run.failure is Some,
            run.failure matches Some(e) ==> tells_job_error(run.error, self.job_id, e@),
    {
        let _ = jobs.transition_state(self.job_id, JobState::Exiting);
        let exiting = match jobs.get_job(self.job_id) {
            Some(job) => job.state == JobState::Exiting,
            None => false,
        };
        let failure = if exiting {
            failure
        } else {
            None
        };
        let error = match &failure {
            Some(e) => Some(job_error(self.job_id, e)),
            None => None,
        };
        let mut close: Vec<isize> = Vec::new();
        close.push(self.process.stdout_read);
        close.push(self.process.stderr_read);
        assert(close@ =~= seq![self.process.stdout_read, self.process.stderr_read]);
        Exiting {
            job_id: self.job_id,
            start_time: self.start_time,
            exit_code: self.exit_code,
            close,
            error,
            exit: Outgoing::Exit(self.job_id, ExitPayload { exit_code: self.exit_code }),
            failure,
        }
    }
}

impl Exiting {
    /// The state that the job comes to.
    pub open spec fn outcome(self) -> JobState {
        if self.failure is Some {
            JobState::Failed
        } else {
            JobState::Completed
        }
    }

    /// The client has been told that the process has exited, if that could be done. At `now` the
    /// job is completed, or has failed where its output could not be copied to the end, and is
    /// cleaned up.
    pub fn exit_sent(self, jobs: &mut JobManager, logger: &Logger, now: u64) -> (end: RunEnd)
        requires
            old(jobs).wf(),
        ensures
            final(jobs).wf(),
            final(jobs).same_but_jobs(*old(jobs)),
            cleans_up(
                end,
                self.job_id,
                moved(old(jobs).jobs(), self.job_id, self.outcome()),
                final(jobs).jobs(),
            ),
            end.send is None,
            end.close@ == Seq::<isize>::empty(),
            match self.failure {
                None => {
                    &&& logs_completion(
                        end.log,
                        self.job_id,
                        self.exit_code,
                        duration(self.start_time, now),
                    )
                    &&& end.result == Ok::<(), Error>(())
                },
                Some(e) => {
                    &&& logs_failure(end.log, self.job_id, crate::error::error_text(e@))
                    &&& end.result == Err::<(), Error>(e)
                },
            },
    {
        let (log, result) = match self.failure {
            None => {
                let _ = jobs.transition_state(self.job_id, JobState::Completed);
                let duration_ms: u64 = if self.start_time <= now {
                    now - self.start_time
                } else {
                    0
                };
                (
                    logger.audit_command_completed(self.job_id, self.exit_code, duration_ms),
                    Ok(()),
                )
            },
            Some(e) => {
                let _ = jobs.transition_state(self.job_id, JobState::Failed);
                let message = e.message();
                (logger.audit_command_failed(self.job_id, ERROR_CODE, message.as_str()), Err(e))
            },
        };
        let log = match log {
            Ok(record) => Some(record),
            Err(_) => None,
        };
        let released = clean_up(jobs, self.job_id);
        RunEnd { job_id: self.job_id, send: None, log, released, close: Vec::new(), result }
    }
}

/// A job is in the registry and `Exiting`.
pub open spec fn is_exiting(jobs: Map<u32, JobHandle>, job_id: u32) -> bool {
    jobs.contains_key(job_id) && jobs[job_id].state is Exiting
}

/// The registry when the process of a job has been launched and the client has been told.
pub open spec fn jobs_when_monitored(
    jobs: Map<u32, JobHandle>,
    job_id: u32,
    p: LaunchedProcess,
) -> Map<u32, JobHandle> {
    let running = moved(attached(jobs, job_id, p), job_id, JobState::Running);
    running.insert(job_id, job_manager::with_pumps(running[job_id]))
}

/// The registry when the pumps of a job have finished.
pub open spec fn jobs_when_drained(jobs: Map<u32, JobHandle>, job_id: u32) -> Map<u32, JobHandle> {
    moved(
        jobs.insert(job_id, job_manager::without_pumps(jobs[job_id])),
        job_id,
        JobState::Exiting,
    )
}

/// A job that nothing disturbs is `Running` while its process runs, `Exiting` when its output is
/// sent, and ends `Completed`, or `Failed` where its output could not be copied. It leaves its
/// process and its job object behind, once, and no pump. Then it is no longer in the registry, and
/// no other job was touched.
pub proof fn law_undisturbed_run(
    jobs: Map<u32, JobHandle>,
    job_id: u32,
    p: LaunchedProcess,
    last: Exiting,
)
    requires
        jobs.contains_key(job_id),
        jobs[job_id].state is Starting,
    ensures
        ({
            let running = jobs_when_monitored(jobs, job_id, p);
            let exiting = jobs_when_drained(running, job_id);
            let ended = moved(exiting, job_id, last.outcome());
            let cleaned = job_manager::stopped(ended, job_id);
            &&& running[job_id].state is Running
            &&& running[job_id].stdout_pump && running[job_id].stderr_pump
            &&& is_exiting(exiting, job_id)
            &&& ended[job_id].state == last.outcome()
            &&& left_by(ended, job_id) == Some(
                ReleasedJob {
                    job_id: jobs[job_id].job_id,
                    state: last.outcome(),
                    stop: true,
                    stdout_pump: false,
                    stderr_pump: false,
                    process_handle: Some(p.process_handle),
                    job_object: Some(p.job_object),
                },
            )
            &&& left_by(cleaned, job_id)->0.process_handle is None
            &&& left_by(cleaned, job_id)->0.job_object is None
            &&& cleaned.remove(job_id) == jobs.remove(job_id)
        }),
{
    let running = jobs_when_monitored(jobs, job_id, p);
    let exiting = jobs_when_drained(running, job_id);
    let ended = moved(exiting, job_id, last.outcome());
    assert(job_manager::stopped(ended, job_id).remove(job_id) =~= jobs.remove(job_id));
}

/// A job whose process cannot be launched ends `Failed` and leaves the registry.
pub proof fn law_failed_launch(jobs: Map<u32, JobHandle>, job_id: u32)
    requires
        jobs.contains_key(job_id),
        jobs[job_id].state is Starting,
    ensures
        ({
            let failed = moved(jobs, job_id, JobState::Failed);
            &&& left_by(failed, job_id)->0.state is Failed
            &&& left_by(failed, job_id)->0.process_handle == jobs[job_id].process_handle
            &&& job_manager::stopped(failed, job_id).remove(job_id) == jobs.remove(job_id)
        }),
{
    let failed = moved(jobs, job_id, JobState::Failed);
    assert(job_manager::stopped(failed, job_id).remove(job_id) =~= jobs.remove(job_id));
}

/// A job that ends while its process runs stays in the state that it ended in until it leaves the
/// registry. Its client is told exit code 1 where it was timed out, and -1 where it was canceled,
/// unless the process exited first.
pub proof fn law_ended_run(jobs: Map<u32, JobHandle>, job_id: u32, e: Error)
    requires
        jobs.contains_key(job_id),
        job_manager::terminal(jobs[job_id].state),
    ensures
        jobs_when_drained(jobs, job_id)[job_id].state == jobs[job_id].state,
        !is_exiting(jobs_when_drained(jobs, job_id), job_id),
        moved(jobs_when_drained(jobs, job_id), job_id, JobState::Completed) == jobs_when_drained(
            jobs,
            job_id,
        ),
        jobs[job_id].state is TimedOut ==> told_exit_code(Err(e), jobs, job_id) == 1,
        jobs[job_id].state is Canceled ==> told_exit_code(Err(e), jobs, job_id) == -1,
{
}

/// Every end of a pipe that the agent got with a process is closed exactly once in a run that goes
/// to its end.
pub proof fn law_ends_are_closed_once(p: LaunchedProcess)
    ensures
        seq![p.stdin_write] + seq![p.stdout_read, p.stderr_read] == own_ends(p),
{
    assert(seq![p.stdin_write] + seq![p.stdout_read, p.stderr_read] =~= own_ends(p));
}

/// The exit code of a process is told as it is, whatever it is. Where it is not known, 1 is told of a
/// job that is in the registry and was timed out, and -1 of any other.
pub proof fn law_exit_code(
    code: i32,
    e: Error,
    jobs: Map<u32, JobHandle>,
    job_id: u32,
)
    ensures
        told_exit_code(Ok(code), jobs, job_id) == code,
        told_exit_code(Err(e), jobs, job_id) == 1 || told_exit_code(Err(e), jobs, job_id) == -1,
        told_exit_code(Err(e), jobs, job_id) == 1 <==> jobs.contains_key(job_id)
            && jobs[job_id].state is TimedOut,
{
}

/// The code with which a process exits is the one in the message to the client and in the entry of
/// the log, whatever it is: `draining`, `exiting` and `log` are what comes of a process that has
/// exited with `code` and whose output was copied.
pub proof fn law_exit_code_reaches_client_and_log(
    code: i32,
    jobs: Map<u32, JobHandle>,
    draining: Draining,
    exiting: Exiting,
    log: Option<LogRecord>,
    now: u64,
)
    requires
        draining.exit_code == told_exit_code(Ok(code), jobs, draining.job_id),
        exiting.job_id == draining.job_id,
        exiting.exit_code == draining.exit_code,
        exiting.exit@ == (OutgoingView::Exit {
            job_id: draining.job_id,
            exit_code: draining.exit_code,
        }),
        logs_completion(
            log,
            exiting.job_id,
            exiting.exit_code,
            duration(exiting.start_time, now),
        ),
    ensures
        exiting.exit@ matches OutgoingView::Exit { job_id, exit_code } && job_id == draining.job_id
            && exit_code == code,
        log matches Some(record) && record@.text == "COMMAND_COMPLETED"@ + " {"@ + "job_id"@ + "="@
            + text::decimal(draining.job_id as nat) + ", "@ + "exit_code"@ + "="@
            + text::signed_decimal(code as int) + ", "@ + "duration_ms"@ + "="@ + text::decimal(
            (if exiting.start_time <= now {
                now - exiting.start_time
            } else {
                0
            }) as nat,
        ) + "}"@,
        log matches Some(record) && record@.job_id == text::decimal(draining.job_id as nat)
            && record@.level is Info,
{
    let ms = duration(exiting.start_time, now) as u64;
    logger::law_audit_entries(draining.job_id, code, ms, 0, Seq::empty());
}

/// The entry of a command that could not run holds the whole of what went wrong, and so does the
/// message to the client, which is about the job and has the code 1.
pub proof fn law_failures_are_told_in_full(
    log: Option<LogRecord>,
    m: Option<Outgoing>,
    job_id: u32,
    e: ErrorView,
)
    requires
        logs_failure(log, job_id, crate::error::error_text(e)),
        tells_job_error(m, job_id, e),
    ensures
        log matches Some(record) && record@.level is Error && record@.job_id == text::decimal(
            job_id as nat,
        ) && record@.text == "COMMAND_FAILED"@ + " {"@ + "job_id"@ + "="@ + text::decimal(
            job_id as nat,
        ) + ", "@ + "error_code"@ + "="@ + text::decimal(1) + ", "@ + "error_message"@ + "="@
            + crate::error::error_text(e) + "}"@,
        m matches Some(x) && (x@ matches OutgoingView::Error { about, error_code, error_message }
            && about == Some(job_id) && error_code == 1 && error_message == crate::error::error_text(
            e,
        )),
{
    logger::law_audit_entries(job_id, 0, 0, 1, crate::error::error_text(e));
}

/// Time that has gone by is counted to the millisecond, and a clock that went back counts as none.
pub proof fn law_duration(start: u64, now: u64)
    ensures
        start <= now ==> start + duration(start, now) == now,
        start > now ==> duration(start, now) == 0,
{
}

/// A step of a run changes the state of its job where that is a change that there is, and nothing
/// else of it, and touches no other job.
pub proof fn law_moved(jobs: Map<u32, JobHandle>, job_id: u32, state: JobState, other: u32)
    ensures
        moved(jobs, job_id, state).contains_key(other) <==> jobs.contains_key(other),
        other != job_id && jobs.contains_key(other) ==> moved(jobs, job_id, state)[other]
            == jobs[other],
        jobs.contains_key(job_id) ==> {
            let was = jobs[job_id];
            let after = moved(jobs, job_id, state)[job_id];
            let goes = {
                ||| was.state is Created && state is Starting
                ||| was.state is Starting && state is Running
                ||| was.state is Running && state is Exiting
                ||| was.state is Exiting && state is Completed
                ||| (was.state is Starting || was.state is Running || was.state is Exiting) && state
                    is Failed
                ||| was.state is Running && state is TimedOut
                ||| (was.state is Created || was.state is Starting || was.state is Running
                    || was.state is Exiting) && state is Canceled
            };
            &&& goes ==> after.state == state
            &&& !goes ==> after.state == was.state
            &&& after.job_id == was.job_id
            &&& after.process_handle == was.process_handle
            &&& after.job_object == was.job_object
            &&& after.stdout_pump == was.stdout_pump
            &&& after.stderr_pump == was.stderr_pump
            &&& after.cancelled == was.cancelled
            &&& after.start_time == was.start_time
            &&& after.last_activity == was.last_activity
            &&& after.timeout == was.timeout
        },
{
}

/// A launched process goes to its job, with its job object, and nothing else changes.
pub proof fn law_attached(
    jobs: Map<u32, JobHandle>,
    job_id: u32,
    p: LaunchedProcess,
    other: u32,
)
    requires
        jobs.contains_key(job_id),
    ensures
        ({
            let was = jobs[job_id];
            let after = attached(jobs, job_id, p)[job_id];
            &&& after.process_handle == Some(p.process_handle)
            &&& after.job_object == Some(p.job_object)
            &&& after.job_id == was.job_id
            &&& after.state == was.state
            &&& after.stdout_pump == was.stdout_pump
            &&& after.stderr_pump == was.stderr_pump
            &&& after.cancelled == was.cancelled
            &&& after.start_time == was.start_time
            &&& after.last_activity == was.last_activity
            &&& after.timeout == was.timeout
        }),
        attached(jobs, job_id, p).contains_key(other) <==> jobs.contains_key(other),
        other != job_id && jobs.contains_key(other) ==> attached(jobs, job_id, p)[other]
            == jobs[other],
{
}

/// At the end of a run everything that the job still has is handed out, and its workers are told to
/// stop; the job itself stays until the run is finished, with nothing left to hand out. Where the
/// job has left the registry there is nothing to hand out and nothing changes.
pub proof fn law_end_of_a_run(
    end: RunEnd,
    job_id: u32,
    jobs: Map<u32, JobHandle>,
    jobs_after: Map<u32, JobHandle>,
    other: u32,
)
    requires
        cleans_up(end, job_id, jobs, jobs_after),
    ensures
        end.job_id == job_id,
        !jobs.contains_key(job_id) ==> end.released is None && jobs_after == jobs,
        jobs.contains_key(job_id) ==> {
            &&& end.released matches Some(left)
            &&& left.job_id == jobs[job_id].job_id
            &&& left.state == jobs[job_id].state
            &&& left.stop
            &&& left.process_handle == jobs[job_id].process_handle
            &&& left.job_object == jobs[job_id].job_object
            &&& left.stdout_pump == jobs[job_id].stdout_pump
            &&& left.stderr_pump == jobs[job_id].stderr_pump
            &&& jobs_after.contains_key(job_id)
            &&& jobs_after[job_id].cancelled
            &&& jobs_after[job_id].state == jobs[job_id].state
            &&& jobs_after[job_id].process_handle is None && jobs_after[job_id].job_object is None
            &&& !jobs_after[job_id].stdout_pump && !jobs_after[job_id].stderr_pump
        },
        jobs_after.contains_key(other) <==> jobs.contains_key(other),
        other != job_id && jobs.contains_key(other) ==> jobs_after[other] == jobs[other],
{
}

/// The failure of a pump counts where the job was still running, or had begun to exit, when its
/// output was waited for; the job then ends `Failed`. Otherwise it ends `Completed`.
pub proof fn law_failed_pumps(jobs: Map<u32, JobHandle>, job_id: u32, last: Exiting)
    ensures
        is_exiting(moved(jobs, job_id, JobState::Exiting), job_id) <==> jobs.contains_key(job_id)
            && (jobs[job_id].state is Running || jobs[job_id].state is Exiting),
        last.failure is Some ==> last.outcome() is Failed,
        last.failure is None ==> last.outcome() is Completed,
{
}

} // verus!
