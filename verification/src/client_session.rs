//! One client's connection: what its frames are answered, and what happens when it leaves.
use std::collections::HashMap;
use vstd::prelude::*;

use crate::cancellation;
use crate::cancellation::{CancellationManager, REASON_DISCONNECT, REASON_REQUEST};
use crate::error;
use crate::error::{Error, ErrorView, Result};
use crate::io_pump;
use crate::io_pump::{SendDecision, StreamPump, WindowView};
use crate::job_manager;
use crate::job_manager::{JobHandle, JobManager, JobState};
use crate::logger;
use crate::logger::{LogLevel, LogRecord, Logger};
use crate::message::{Outgoing, OutgoingView};
use crate::protocol::{
    ErrorPayload, Frame, FrameType, HelloAckPayload, RunAckPayload, RunPayload, StreamId,
    WindowUpdatePayload, DEFAULT_WINDOW_SIZE, MAX_PAYLOAD_SIZE, PROTOCOL_VERSION,
};
use crate::text;

verus! {

broadcast use vstd::std_specs::hash::group_hash_axioms;

/// The send windows of a job's two streams.
pub struct JobPumps {
    pub stdout: StreamPump,
    pub stderr: StreamPump,
}

/// What the send windows of a job's two streams stand at.
pub struct PumpsView {
    pub stdout: WindowView,
    pub stderr: WindowView,
}

impl View for JobPumps {
    type V = PumpsView;

    open spec fn view(&self) -> PumpsView {
        PumpsView { stdout: self.stdout@, stderr: self.stderr@ }
    }
}

/// The window that a stream starts with: all output is kept.
pub open spec fn fresh_window() -> WindowView {
    WindowView { window: DEFAULT_WINDOW_SIZE, in_flight: 0, drops: false }
}

/// A client's connection.
pub struct ClientSession {
    client_user: String,
    client_jobs: Vec<u32>,
    stream_pumps: HashMap<u32, JobPumps>,
}

/// What the payload of a frame says, or why it says nothing.
pub enum FramePayload {
    /// The payload is of no interest.
    Unread,
    Run(std::result::Result<RunPayload, String>),
    WindowUpdate(std::result::Result<WindowUpdatePayload, String>),
}

/// What the payload of a frame is to be read as.
#[derive(Debug, Clone, Copy, PartialEq, Eq, Structural)]
pub enum PayloadKind {
    Unread,
    Run,
    WindowUpdate,
}

/// What the payload of a frame of this type is to be read as.
pub open spec fn kind_of(t: FrameType) -> PayloadKind {
    match t {
        FrameType::Run => PayloadKind::Run,
        FrameType::WindowUpdate => PayloadKind::WindowUpdate,
        _ => PayloadKind::Unread,
    }
}

impl FramePayload {
    /// The payload was read as that of a frame of type `t`.
    pub open spec fn suits(self, t: FrameType) -> bool {
        match kind_of(t) {
            PayloadKind::Run => self is Run,
            PayloadKind::WindowUpdate => self is WindowUpdate,
            PayloadKind::Unread => true,
        }
    }
}

/// A job that a client has asked for.
pub struct StartedRun {
    /// The entry for the log.
    pub log: LogRecord,
    /// The message for the client. When it is sent, the run is to be started.
    pub ack: Outgoing,
    pub job: JobHandle,
    pub payload: RunPayload,
}

/// What is to be done about a frame.
pub enum Handled {
    /// Nothing.
    Nothing,
    /// Send a message.
    Reply(Outgoing),
    /// A job was canceled: log it, where there is an entry, and send the message.
    Canceled(Option<LogRecord>, Outgoing),
    /// Log and acknowledge a job, and run it.
    Run(StartedRun),
    /// Tell the pumps of this job to ask again.
    WindowChanged(u32),
    /// Frames of this type are not for the agent.
    Unhandled(FrameType),
}

/// What happened on a client's connection.
pub enum ClientEvent {
    /// A frame came, at the given time.
    Frame(Frame, FramePayload, u64),
    /// No more frames can be read.
    ReadFailed(Error),
    /// A message could not be sent.
    SendFailed(Error),
}

/// What is to be done on a client's connection.
pub enum ClientStep {
    /// Do this, then read the next frame.
    Continue(Handled),
    /// Log the entries, send the message, where there is one, and close the connection.
    Close(Option<Outgoing>, Vec<LogRecord>),
}

/// What the send window of a stream stands at, where the stream has one.
pub open spec fn window_of(pumps: PumpsView, stream: u8) -> Option<WindowView> {
    if stream == StreamId::Stdout.spec_code() {
        Some(pumps.stdout)
    } else if stream == StreamId::Stderr.spec_code() {
        Some(pumps.stderr)
    } else {
        None
    }
}

/// `pumps` with another window for a stream that has one.
pub open spec fn with_window(pumps: PumpsView, stream: u8, w: WindowView) -> PumpsView {
    if stream == StreamId::Stdout.spec_code() {
        PumpsView { stdout: w, ..pumps }
    } else if stream == StreamId::Stderr.spec_code() {
        PumpsView { stderr: w, ..pumps }
    } else {
        pumps
    }
}

/// A stream of a job has a send window.
pub open spec fn has_window(pumps: Map<u32, PumpsView>, job_id: u32, stream: u8) -> bool {
    pumps.contains_key(job_id) && window_of(pumps[job_id], stream) is Some
}

/// The windows after `bytes_consumed` bytes of a stream of a job are acknowledged.
pub open spec fn windows_after(
    pumps: Map<u32, PumpsView>,
    job_id: u32,
    stream: u8,
    bytes_consumed: u64,
) -> Map<u32, PumpsView> {
    if has_window(pumps, job_id, stream) {
        pumps.insert(
            job_id,
            with_window(
                pumps[job_id],
                stream,
                io_pump::acknowledged(window_of(pumps[job_id], stream)->0, bytes_consumed),
            ),
        )
    } else {
        pumps
    }
}

/// `r` is what a HELLO frame is answered.
pub open spec fn answers_hello(r: Result<Handled>) -> bool {
    r matches Ok(Handled::Reply(m)) && m@ == (OutgoingView::HelloAck {
        version: PROTOCOL_VERSION,
        capabilities: seq!["multiplexed"@, "flow_control"@],
    })
}

/// A job as it is when its run is about to start.
pub open spec fn starting_job(job_id: u32, timeout: Option<u64>, now: u64) -> JobHandle {
    job_manager::in_state(job_manager::created_job(job_id, timeout, now), JobState::Starting)
}

/// `run` is the start of `job`, for which `user` has asked with `payload`.
pub open spec fn starts(run: StartedRun, job: JobHandle, user: Seq<char>, payload: RunPayload) -> bool {
    &&& run.job == job
    &&& run.payload == payload
    &&& run.ack@ == (OutgoingView::RunAck { job_id: job.job_id })
    &&& run.log@ == logger::entry(
        LogLevel::Info,
        "COMMAND_STARTED"@,
        logger::started_fields(
            job.job_id,
            user,
            payload.command@,
            match payload.working_directory {
                Some(d) => Some(d@),
                None => None,
            },
        ),
    )
}

impl ClientSession {
    /// Who the client is.
    pub closed spec fn user(self) -> Seq<char> {
        self.client_user@
    }

    /// The jobs that the client has asked for, in order.
    pub closed spec fn jobs(self) -> Seq<u32> {
        self.client_jobs@
    }

    /// The send windows of the client's jobs.
    pub closed spec fn pumps(self) -> Map<u32, PumpsView> {
        self.stream_pumps@.map_values(|p: JobPumps| p@)
    }

    /// Everything but the send windows is as in `other`.
    pub open spec fn same_but_pumps(self, other: ClientSession) -> bool {
        &&& self.user() == other.user()
        &&& self.jobs() == other.jobs()
    }

    /// A connection of `client_user`, who has asked for nothing yet.
    pub fn new(client_user: String) -> (s: Self)
        ensures
            s.user() == client_user@,
            s.jobs() == Seq::<u32>::empty(),
            s.pumps() == Map::<u32, PumpsView>::empty(),
    {
        let s = ClientSession {
            client_user,
            client_jobs: Vec::new(),
            stream_pumps: HashMap::new(),
        };
        assert(s.pumps() =~= Map::<u32, PumpsView>::empty());
        s
    }

    /// What the payload of a frame is to be read as.
    pub fn payload_kind(frame: &Frame) -> (k: PayloadKind)
        ensures
            k == kind_of(frame.frame_type),
    {
        match frame.frame_type {
            FrameType::Run => PayloadKind::Run,
            FrameType::WindowUpdate => PayloadKind::WindowUpdate,
            _ => PayloadKind::Unread,
        }
    }

    /// Puts windows in place for a job.
    fn put_pumps(&mut self, job_id: u32, pumps: JobPumps)
        ensures
            final(self).same_but_pumps(*old(self)),
            final(self).pumps() == old(self).pumps().insert(job_id, pumps@),
    {
        let ghost view = pumps@;
        self.stream_pumps.insert(job_id, pumps);
        assert(self.pumps() =~= old(self).pumps().insert(job_id, view));
    }

    /// Takes the windows of a job.
    fn take_pumps(&mut self, job_id: u32) -> (r: Option<JobPumps>)
        ensures
            final(self).same_but_pumps(*old(self)),
            final(self).pumps() == old(self).pumps().remove(job_id),
            r is Some <==> old(self).pumps().contains_key(job_id),
            r matches Some(p) ==> p@ == old(self).pumps()[job_id],
    {
        let r = self.stream_pumps.remove(&job_id);
        assert(self.pumps() =~= old(self).pumps().remove(job_id));
        r
    }

    /// The client was told that its job was accepted: the job's streams get their windows, and its
    /// run is to be started.
    pub fn run_acknowledged(&mut self, job_id: u32)
        ensures
            final(self).same_but_pumps(*old(self)),
            final(self).pumps() == old(self).pumps().insert(
                job_id,
                PumpsView { stdout: fresh_window(), stderr: fresh_window() },
            ),
    {
        self.put_pumps(
            job_id,
            JobPumps {
                stdout: StreamPump::new(DEFAULT_WINDOW_SIZE, false),
                stderr: StreamPump::new(DEFAULT_WINDOW_SIZE, false),
            },
        );
    }

    /// The run of a job has ended: its windows are gone.
    pub fn run_ended(&mut self, job_id: u32)
        ensures
            final(self).same_but_pumps(*old(self)),
            final(self).pumps() == old(self).pumps().remove(job_id),
    {
        let _ = self.take_pumps(job_id);
    }

    /// What to do with a frame of a stream of a job. Where the stream has no window, nothing can be
    /// sent any more.
    pub fn try_send_frame(&mut self, job_id: u32, stream: StreamId, frame: &Frame) -> (d:
        SendDecision)
        ensures
            final(self).same_but_pumps(*old(self)),
            !has_window(old(self).pumps(), job_id, stream.spec_code()) ==> d is Discard && final(self).pumps()
                == old(self).pumps(),
            has_window(old(self).pumps(), job_id, stream.spec_code()) ==> {
                let pumps = old(self).pumps()[job_id];
                let w = window_of(pumps, stream.spec_code())->0;
                &&& d == io_pump::decision(w, frame@.payload.len())
                &&& final(self).pumps() == old(self).pumps().insert(
                    job_id,
                    with_window(
                        pumps,
                        stream.spec_code(),
                        io_pump::decided(w, frame@.payload.len()),
                    ),
                )
            },
    {
        let mut pumps = match self.take_pumps(job_id) {
            Some(p) => p,
            None => {
                assert(self.pumps() =~= old(self).pumps());
                return SendDecision::Discard;
            },
        };
        let d = match stream {
            StreamId::Stdout => pumps.stdout.try_send_frame(frame),
            StreamId::Stderr => pumps.stderr.try_send_frame(frame),
            _ => SendDecision::Discard,
        };
        self.put_pumps(job_id, pumps);
        proof {
            let w = window_of(old(self).pumps()[job_id], stream.spec_code());
            if w is None {
                assert(self.pumps() =~= old(self).pumps());
            } else {
                assert(self.pumps() =~= old(self).pumps().insert(
                    job_id,
                    with_window(
                        old(self).pumps()[job_id],
                        stream.spec_code(),
                        io_pump::decided(w->0, frame@.payload.len()),
                    ),
                ));
            }
        }
        d
    }
}

impl ClientSession {
    /// Acknowledges the client, with the version and the capabilities of the agent.
    fn handle_hello() -> (r: Result<Handled>)
        ensures
            answers_hello(r),
    {
        let mut capabilities: Vec<String> = Vec::new();
        capabilities.push("multiplexed".to_owned());
        capabilities.push("flow_control".to_owned());
        let ack = Outgoing::HelloAck(HelloAckPayload { version: PROTOCOL_VERSION, capabilities });
        assert(ack@->capabilities =~= seq!["multiplexed"@, "flow_control"@]);
        Ok(Handled::Reply(ack))
    }

    /// Registers the job that the client asks for.
    fn handle_run(
        &mut self,
        jobs: &mut JobManager,
        logger: &Logger,
        payload: std::result::Result<RunPayload, String>,
        now: u64,
    ) -> (r: Result<Handled>)
        requires
            old(jobs).wf(),
        ensures
            final(jobs).wf(),
            run_handled(*old(self), *final(self), *old(jobs), *final(jobs), payload, now, r),
    {
        let payload = match payload {
            Ok(p) => p,
            Err(reason) => return Err(
                Error::Protocol(text::joined("Invalid RUN payload: ", reason.as_str())),
            ),
        };
        let job = match jobs.create_job(payload.timeout_ms, now) {
            Ok(job) => job,
            Err(e) => return Err(e),
        };
        let job_id: u32 = job.job_id;
        self.client_jobs.push(job_id);
        let working_dir = match &payload.working_directory {
            Some(d) => Some(d.as_str()),
            None => None,
        };
        let log = match logger.audit_command_started(
            job_id,
            self.client_user.as_str(),
            payload.command.as_str(),
            working_dir,
        ) {
            Ok(record) => record,
            Err(e) => return Err(e),
        };
        if let Err(e) = jobs.transition_state(job_id, JobState::Starting) {
            return Err(e);
        }
        assert(jobs.jobs() =~= old(jobs).jobs().insert(
            job_id,
            starting_job(job_id, payload.timeout_ms, now),
        ));
        let job = JobHandle { state: JobState::Starting, ..job };
        let ack = Outgoing::RunAck(RunAckPayload { job_id });
        Ok(Handled::Run(StartedRun { log, ack, job, payload }))
    }

    /// Cancels the job that the client names.
    fn handle_cancel(jobs: &mut JobManager, logger: &Logger, job_id: u32) -> (r: Result<Handled>)
        requires
            old(jobs).wf(),
        ensures
            final(jobs).wf(),
            cancel_handled(*old(jobs), *final(jobs), job_id, r),
    {
        if job_id == 0 {
            return Err(Error::Protocol("CANCEL frame missing job_id".to_owned()));
        }
        match CancellationManager::cancel_job(jobs, logger, job_id, REASON_REQUEST) {
            Ok(log) => Ok(Handled::Canceled(log, Outgoing::CancelAck(job_id))),
            Err(e) => Err(e),
        }
    }

    /// Takes note of what the client has consumed.
    fn handle_window_update(
        &mut self,
        job_id: u32,
        payload: std::result::Result<WindowUpdatePayload, String>,
    ) -> (r: Result<Handled>)
        ensures
            window_update_handled(*old(self), *final(self), job_id, payload, r),
    {
        let payload = match payload {
            Ok(p) => p,
            Err(reason) => return Err(
                Error::Protocol(text::joined("Invalid WINDOW_UPDATE payload: ", reason.as_str())),
            ),
        };
        if job_id == 0 {
            return Err(Error::Protocol("WINDOW_UPDATE frame missing job_id".to_owned()));
        }
        let mut pumps = match self.take_pumps(job_id) {
            Some(p) => p,
            None => {
                assert(self.pumps() =~= old(self).pumps());
                return Ok(Handled::Nothing);
            },
        };
        let changed = if payload.stream_id == StreamId::Stdout.code() {
            pumps.stdout.update_window(payload.bytes_consumed);
            true
        } else if payload.stream_id == StreamId::Stderr.code() {
            pumps.stderr.update_window(payload.bytes_consumed);
            true
        } else {
            false
        };
        self.put_pumps(job_id, pumps);
        assert(self.pumps() =~= windows_after(
            old(self).pumps(),
            job_id,
            payload.stream_id,
            payload.bytes_consumed,
        ));
        if changed {
            Ok(Handled::WindowChanged(job_id))
        } else {
            Ok(Handled::Nothing)
        }
    }

    /// Decides about a frame. `payload` is what its payload was read as.
    pub fn handle_frame(
        &mut self,
        jobs: &mut JobManager,
        logger: &Logger,
        frame: &Frame,
        payload: FramePayload,
        now: u64,
    ) -> (r: Result<Handled>)
        requires
            old(jobs).wf(),
            payload.suits(frame.frame_type),
        ensures
            final(jobs).wf(),
            frame_handled(
                *old(self),
                *final(self),
                *old(jobs),
                *final(jobs),
                frame@.frame_type,
                frame@.job_id,
                payload,
                now,
                r,
            ),
    {
        match frame.frame_type {
            FrameType::Hello => Self::handle_hello(),
            FrameType::Run => match payload {
                FramePayload::Run(p) => self.handle_run(jobs, logger, p, now),
                _ => Ok(Handled::Nothing),
            },
            FrameType::Cancel => Self::handle_cancel(jobs, logger, frame.job_id),
            FrameType::WindowUpdate => match payload {
                FramePayload::WindowUpdate(p) => self.handle_window_update(frame.job_id, p),
                _ => Ok(Handled::Nothing),
            },
            FrameType::Ping => Ok(Handled::Reply(Outgoing::Pong)),
            _ => Ok(Handled::Unhandled(frame.frame_type)),
        }
    }

    /// Cancels all jobs that the client has asked for, and gives the entries for the log.
    pub fn disconnected(&self, jobs: &mut JobManager, logger: &Logger) -> (log: Vec<LogRecord>)
        requires
            old(jobs).wf(),
        ensures
            final(jobs).wf(),
            after_disconnect(self.jobs(), *old(jobs), *final(jobs), log@),
    {
        CancellationManager::cancel_jobs(jobs, logger, &self.client_jobs, REASON_DISCONNECT)
    }

    /// Takes what happened on the connection. A frame that cannot be handled ends the connection,
    /// and the client is told why. At the end of the connection all jobs of the client are
    /// canceled.
    pub fn handle_client(&mut self, jobs: &mut JobManager, logger: &Logger, event: ClientEvent) -> (s:
        ClientStep)
        requires
            old(jobs).wf(),
            event matches ClientEvent::Frame(f, p, _) ==> p.suits(f.frame_type),
        ensures
            final(jobs).wf(),
            match event {
                ClientEvent::Frame(f, p, now) => match s {
                    ClientStep::Continue(h) => frame_handled(
                        *old(self),
                        *final(self),
                        *old(jobs),
                        *final(jobs),
                        f@.frame_type,
                        f@.job_id,
                        p,
                        now,
                        Ok(h),
                    ),
                    ClientStep::Close(m, log) => exists|e: Error, mid: JobManager| #[trigger]
                        frame_handled(
                            *old(self),
                            *final(self),
                            *old(jobs),
                            mid,
                            f@.frame_type,
                            f@.job_id,
                            p,
                            now,
                            Err(e),
                        ) && tells_error(m, e@) && after_disconnect(
                            final(self).jobs(),
                            mid,
                            *final(jobs),
                            log@,
                        ),
                },
                ClientEvent::ReadFailed(e) => {
                    &&& s matches ClientStep::Close(None, log) && after_disconnect(
                        old(self).jobs(),
                        *old(jobs),
                        *final(jobs),
                        log@,
                    )
                    &&& *final(self) == *old(self)
                },
                ClientEvent::SendFailed(e) => {
                    &&& s matches ClientStep::Close(m, log) && tells_error(m, e@) && after_disconnect(
                        old(self).jobs(),
                        *old(jobs),
                        *final(jobs),
                        log@,
                    )
                    &&& *final(self) == *old(self)
                },
            },
    {
        match event {
            ClientEvent::Frame(f, p, now) => {
                match self.handle_frame(jobs, logger, &f, p, now) {
                    Ok(h) => ClientStep::Continue(h),
                    Err(e) => {
                        let ghost mid = *jobs;
                        let log = self.disconnected(jobs, logger);
                        let m = Self::error_message(&e);
                        assert(frame_handled(
                            *old(self),
                            *self,
                            *old(jobs),
                            mid,
                            f@.frame_type,
                            f@.job_id,
                            p,
                            now,
                            Err(e),
                        ));
                        ClientStep::Close(Some(m), log)
                    },
                }
            },
            ClientEvent::ReadFailed(_) => {
                let log = self.disconnected(jobs, logger);
                ClientStep::Close(None, log)
            },
            ClientEvent::SendFailed(e) => {
                let log = self.disconnected(jobs, logger);
                ClientStep::Close(Some(Self::error_message(&e)), log)
            },
        }
    }

    /// The message that tells a client of an error.
    fn error_message(e: &Error) -> (m: Outgoing)
        ensures
            tells_error(Some(m), e@),
    {
        Outgoing::Error(
            ErrorPayload { job_id: None, error_code: 1, error_message: e.message() },
        )
    }
}

/// `e` is what reading a frame gives when the client has left.
pub open spec fn means_disconnect(e: ErrorView) -> bool {
    e matches ErrorView::Protocol(m) && (text::holds(m, "EOF"@) || text::holds(m, "broken"@)
        || text::holds(m, "disconnect"@))
}

/// How loudly to log that no more frames can be read: a client that leaves is nothing unusual.
pub fn read_failure_level(e: &Error) -> (l: LogLevel)
    ensures
        l == (if means_disconnect(e@) {
            LogLevel::Debug
        } else {
            LogLevel::Error
        }),
{
    match e {
        Error::Protocol(m) => {
            if text::contains_text(m.as_str(), "EOF") || text::contains_text(m.as_str(), "broken")
                || text::contains_text(m.as_str(), "disconnect") {
                LogLevel::Debug
            } else {
                LogLevel::Error
            }
        },
        _ => LogLevel::Error,
    }
}

/// An acknowledgement for one stream of a job changes neither the other stream's window nor that of
/// any other job.
pub proof fn law_windows_are_separate(
    pumps: Map<u32, PumpsView>,
    job_id: u32,
    stream: u8,
    bytes_consumed: u64,
    other_job: u32,
    other_stream: u8,
)
    requires
        other_job != job_id || other_stream != stream,
        pumps.contains_key(other_job),
    ensures
        ({
            let after = windows_after(pumps, job_id, stream, bytes_consumed);
            &&& after.contains_key(other_job)
            &&& window_of(after[other_job], other_stream) == window_of(
                pumps[other_job],
                other_stream,
            )
        }),
{
}

/// The first frame of a stream goes out at once, however long it is.
pub proof fn law_first_frame_is_sent(len: nat)
    requires
        len <= MAX_PAYLOAD_SIZE,
    ensures
        io_pump::decision(fresh_window(), len) is Send,
{
}

/// `m` tells a client of `e`.
pub open spec fn tells_error(m: Option<Outgoing>, e: ErrorView) -> bool {
    m matches Some(x) && x@ == (OutgoingView::Error {
        about: None,
        error_code: 1,
        error_message: error::error_text(e),
    })
}

/// A client that has asked for `ids` has left: its jobs are canceled, which is logged.
pub open spec fn after_disconnect(
    ids: Seq<u32>,
    jobs: JobManager,
    jobs_after: JobManager,
    log: Seq<LogRecord>,
) -> bool {
    &&& jobs_after.same_but_jobs(jobs)
    &&& jobs_after.jobs() == cancellation::all_canceled(jobs.jobs(), ids)
    &&& logger::records(log) == cancellation::cancel_log(jobs.jobs(), ids, REASON_DISCONNECT@)
}

/// A RUN frame is answered with `r`: a payload that cannot be read and a registry that takes no
/// job are errors, and otherwise a job is registered for the client and is about to start.
pub open spec fn run_handled(
    session: ClientSession,
    session_after: ClientSession,
    jobs: JobManager,
    jobs_after: JobManager,
    payload: std::result::Result<RunPayload, String>,
    now: u64,
    r: Result<Handled>,
) -> bool {
    &&& session_after.user() == session.user()
    &&& session_after.pumps() == session.pumps()
    &&& jobs_after.max_jobs() == jobs.max_jobs()
    &&& match payload {
        Err(reason) => {
            &&& r matches Err(e) && e@ == ErrorView::Protocol("Invalid RUN payload: "@ + reason@)
            &&& session_after.jobs() == session.jobs()
            &&& jobs_after == jobs
        },
        Ok(p) => {
            let full = jobs.jobs().dom().len() >= jobs.max_jobs();
            let id = job_manager::id_from(jobs.next_id());
            if full || jobs.jobs().contains_key(id) {
                &&& r matches Err(e) && e@ == (if full {
                    job_manager::too_many_jobs(jobs.max_jobs())
                } else {
                    ErrorView::JobExists(id)
                })
                &&& session_after.jobs() == session.jobs()
                &&& jobs_after.jobs() == jobs.jobs()
                &&& jobs_after.active_at() == jobs.active_at()
                &&& jobs_after.next_id() == (if full {
                    jobs.next_id()
                } else {
                    id.wrapping_add(1)
                })
            } else {
                let job = starting_job(id, p.timeout_ms, now);
                &&& r matches Ok(Handled::Run(run)) && starts(run, job, session.user(), p)
                &&& session_after.jobs() == session.jobs().push(id)
                &&& jobs_after.jobs() == jobs.jobs().insert(id, job)
                &&& jobs_after.active_at() == now
                &&& jobs_after.next_id() == id.wrapping_add(1)
            }
        },
    }
}

/// A CANCEL frame for `job_id` is answered with `r`: the job has to be named and to be in the
/// registry.
pub open spec fn cancel_handled(
    jobs: JobManager,
    jobs_after: JobManager,
    job_id: u32,
    r: Result<Handled>,
) -> bool {
    &&& jobs_after.same_but_jobs(jobs)
    &&& if job_id == 0 {
        &&& r matches Err(e) && e@ == ErrorView::Protocol("CANCEL frame missing job_id"@)
        &&& jobs_after.jobs() == jobs.jobs()
    } else if !jobs.jobs().contains_key(job_id) {
        &&& r matches Err(e) && e@ == ErrorView::JobNotFound(job_id)
        &&& jobs_after.jobs() == jobs.jobs()
    } else {
        &&& r matches Ok(Handled::Canceled(log, m)) && m@ == (OutgoingView::CancelAck { job_id })
            && (log is Some <==> cancellation::is_live(jobs.jobs(), job_id)) && (log matches Some(
            record,
        ) ==> record@ == logger::canceled_entry(job_id, REASON_REQUEST@))
        &&& jobs_after.jobs() == job_manager::jobs_after_cancel(jobs.jobs(), job_id)
    }
}

/// A WINDOW_UPDATE frame for `job_id` is answered with `r`: its payload has to be readable and the
/// job has to be named. A stream that has no window is passed over.
pub open spec fn window_update_handled(
    session: ClientSession,
    session_after: ClientSession,
    job_id: u32,
    payload: std::result::Result<WindowUpdatePayload, String>,
    r: Result<Handled>,
) -> bool {
    &&& session_after.same_but_pumps(session)
    &&& match payload {
        Err(reason) => {
            &&& r matches Err(e) && e@ == ErrorView::Protocol(
                "Invalid WINDOW_UPDATE payload: "@ + reason@,
            )
            &&& session_after.pumps() == session.pumps()
        },
        Ok(p) => if job_id == 0 {
            &&& r matches Err(e) && e@ == ErrorView::Protocol("WINDOW_UPDATE frame missing job_id"@)
            &&& session_after.pumps() == session.pumps()
        } else {
            &&& r == Ok::<Handled, Error>(
                if has_window(session.pumps(), job_id, p.stream_id) {
                    Handled::WindowChanged(job_id)
                } else {
                    Handled::Nothing
                },
            )
            &&& session_after.pumps() == windows_after(
                session.pumps(),
                job_id,
                p.stream_id,
                p.bytes_consumed,
            )
        },
    }
}

/// A frame is answered with `r`.
pub open spec fn frame_handled(
    session: ClientSession,
    session_after: ClientSession,
    jobs: JobManager,
    jobs_after: JobManager,
    frame_type: FrameType,
    job_id: u32,
    payload: FramePayload,
    now: u64,
    r: Result<Handled>,
) -> bool {
    match frame_type {
        FrameType::Run => payload matches FramePayload::Run(p) && run_handled(
            session,
            session_after,
            jobs,
            jobs_after,
            p,
            now,
            r,
        ),
        FrameType::Cancel => session_after == session && cancel_handled(
            jobs,
            jobs_after,
            job_id,
            r,
        ),
        FrameType::WindowUpdate => jobs_after == jobs && (payload matches FramePayload::WindowUpdate(
            p,
        ) && window_update_handled(session, session_after, job_id, p, r)),
        _ => {
            &&& session_after == session
            &&& jobs_after == jobs
            &&& match frame_type {
                FrameType::Hello => answers_hello(r),
                FrameType::Ping => r matches Ok(Handled::Reply(m)) && m@ == OutgoingView::Pong,
                _ => r == Ok::<Handled, Error>(Handled::Unhandled(frame_type)),
            }
        },
    }
}

/// The streams with windows are those numbered 1 and 2, a process's output and its errors. Each
/// starts at 65536 bytes with nothing in flight and keeps all output.
pub proof fn law_windows(pumps: PumpsView, stream: u8, w: WindowView)
    ensures
        fresh_window().window == 65536,
        fresh_window().in_flight == 0,
        !fresh_window().drops,
        window_of(pumps, 1) == Some(pumps.stdout),
        window_of(pumps, 2) == Some(pumps.stderr),
        stream != 1 && stream != 2 ==> window_of(pumps, stream) is None && with_window(
            pumps,
            stream,
            w,
        ) == pumps,
        with_window(pumps, 1, w).stdout == w && with_window(pumps, 1, w).stderr == pumps.stderr,
        with_window(pumps, 2, w).stderr == w && with_window(pumps, 2, w).stdout == pumps.stdout,
{
}

/// An acknowledgement counts for the stream and the job that it names: its window grows by the bytes
/// and what is in flight shrinks by them. Where the job has no windows, or the stream is neither
/// numbered 1 nor 2, nothing changes.
pub proof fn law_acknowledged_windows(
    pumps: Map<u32, PumpsView>,
    job_id: u32,
    stream: u8,
    bytes_consumed: u64,
)
    ensures
        has_window(pumps, job_id, stream) <==> pumps.contains_key(job_id) && (stream == 1 || stream
            == 2),
        !(pumps.contains_key(job_id) && (stream == 1 || stream == 2)) ==> windows_after(
            pumps,
            job_id,
            stream,
            bytes_consumed,
        ) == pumps,
        pumps.contains_key(job_id) && (stream == 1 || stream == 2) ==> {
            let was = pumps[job_id];
            let after = windows_after(pumps, job_id, stream, bytes_consumed)[job_id];
            let (w, v) = if stream == 1 {
                (was.stdout, after.stdout)
            } else {
                (was.stderr, after.stderr)
            };
            &&& v.window == (w.window + bytes_consumed) % 0x1_0000_0000_0000_0000
            &&& bytes_consumed <= w.in_flight ==> v.in_flight == w.in_flight - bytes_consumed
            &&& bytes_consumed >= w.in_flight ==> v.in_flight == 0
            &&& v.drops == w.drops
            &&& stream == 1 ==> after.stderr == was.stderr
            &&& stream == 2 ==> after.stdout == was.stdout
        },
{
}

/// What a RUN frame comes to. A payload that cannot be read is refused with why; a registry that is
/// full, or has a job of the next id, refuses too; in all these cases no job comes or changes.
/// Otherwise the job has the next id, is `Starting` with nothing else but its time limit, and is the
/// client's; it is acknowledged and logged with who runs what and where; every other job stays as it
/// is.
pub proof fn law_run_frames(
    session: ClientSession,
    session_after: ClientSession,
    jobs: JobManager,
    jobs_after: JobManager,
    job_id: u32,
    payload: std::result::Result<RunPayload, String>,
    now: u64,
    r: Result<Handled>,
)
    requires
        frame_handled(
            session,
            session_after,
            jobs,
            jobs_after,
            FrameType::Run,
            job_id,
            FramePayload::Run(payload),
            now,
            r,
        ),
    ensures
        session_after.user() == session.user(),
        session_after.pumps() == session.pumps(),
        jobs_after.max_jobs() == jobs.max_jobs(),
        payload matches Err(reason) ==> {
            &&& r matches Err(e) && e@ == ErrorView::Protocol("Invalid RUN payload: "@ + reason@)
            &&& jobs_after == jobs && session_after.jobs() == session.jobs()
        },
        payload matches Ok(p) ==> {
            let id = if jobs.next_id() == 0 {
                1u32
            } else {
                jobs.next_id()
            };
            let full = jobs.jobs().dom().len() >= jobs.max_jobs();
            &&& full ==> {
                &&& r matches Err(e) && e@ == ErrorView::Service(
                    "Maximum concurrent jobs ("@ + text::decimal(jobs.max_jobs()) + ") reached"@,
                )
                &&& jobs_after.jobs() == jobs.jobs() && session_after.jobs() == session.jobs()
                &&& jobs_after.next_id() == jobs.next_id()
            }
            &&& !full && jobs.jobs().contains_key(id) ==> {
                &&& r matches Err(e) && e@ == ErrorView::JobExists(id)
                &&& jobs_after.jobs() == jobs.jobs() && session_after.jobs() == session.jobs()
                &&& jobs_after.next_id() == (id + 1) % 0x1_0000_0000
            }
            &&& !full && !jobs.jobs().contains_key(id) ==> {
                &&& r matches Ok(Handled::Run(run))
                &&& run.job == (JobHandle {
                    job_id: id,
                    state: JobState::Starting,
                    process_handle: None,
                    job_object: None,
                    stdout_pump: false,
                    stderr_pump: false,
                    cancelled: false,
                    start_time: now,
                    last_activity: now,
                    timeout: p.timeout_ms,
                })
                &&& run.payload == p
                &&& run.ack@ == (OutgoingView::RunAck { job_id: id })
                &&& run.log@.level is Info
                &&& run.log@.job_id == text::decimal(id as nat)
                &&& run.log@.text == "COMMAND_STARTED"@ + " {"@ + "job_id"@ + "="@ + text::decimal(
                    id as nat,
                ) + ", "@ + "client_user"@ + "="@ + session.user() + ", "@ + "command_line"@ + "="@
                    + p.command@ + (match p.working_directory {
                    Some(d) => ", "@ + "working_dir"@ + "="@ + d@ + "}"@,
                    None => "}"@,
                })
                &&& jobs_after.jobs() == jobs.jobs().insert(id, run.job)
                &&& session_after.jobs() == session.jobs().push(id)
                &&& jobs_after.next_id() == (id + 1) % 0x1_0000_0000
                &&& jobs_after.active_at() == now
            }
        },
{
    if let Ok(p) = payload {
        let id = job_manager::id_from(jobs.next_id());
        let directory = match p.working_directory {
            Some(d) => d@,
            None => Seq::<char>::empty(),
        };
        logger::law_started_entry(id, session.user(), p.command@, directory);
        if let Ok(Handled::Run(run)) = r {
            let begin = "COMMAND_STARTED"@ + " {"@ + "job_id"@ + "="@ + text::decimal(id as nat)
                + ", "@ + "client_user"@ + "="@ + session.user() + ", "@ + "command_line"@ + "="@
                + p.command@;
            match p.working_directory {
                Some(d) => {
                    assert(run.log@.text =~= begin + (", "@ + "working_dir"@ + "="@ + d@ + "}"@));
                },
                None => {},
            }
        }
    }
}

/// What a CANCEL frame comes to. It has to name a job, and the job has to be there; otherwise nothing
/// changes. A job that has been created, is starting, runs or exits is `Canceled` and its workers
/// are told to stop, which is logged; one that has ended stays as it is. Either way it is
/// acknowledged. No other job changes.
pub proof fn law_cancel_frames(
    session: ClientSession,
    session_after: ClientSession,
    jobs: JobManager,
    jobs_after: JobManager,
    job_id: u32,
    payload: FramePayload,
    now: u64,
    r: Result<Handled>,
    other: u32,
)
    requires
        frame_handled(
            session,
            session_after,
            jobs,
            jobs_after,
            FrameType::Cancel,
            job_id,
            payload,
            now,
            r,
        ),
    ensures
        session_after == session,
        jobs_after.next_id() == jobs.next_id(),
        jobs_after.max_jobs() == jobs.max_jobs(),
        jobs_after.active_at() == jobs.active_at(),
        job_id == 0 ==> (r matches Err(e) && e@ == ErrorView::Protocol(
            "CANCEL frame missing job_id"@,
        )) && jobs_after.jobs() == jobs.jobs(),
        job_id != 0 && !jobs.jobs().contains_key(job_id) ==> (r matches Err(e) && e@
            == ErrorView::JobNotFound(job_id)) && jobs_after.jobs() == jobs.jobs(),
        job_id != 0 && jobs.jobs().contains_key(job_id) ==> {
            let was = jobs.jobs()[job_id];
            let after = jobs_after.jobs()[job_id];
            let live = was.state is Created || was.state is Starting || was.state is Running
                || was.state is Exiting;
            &&& r matches Ok(Handled::Canceled(log, m))
            &&& m@ == (OutgoingView::CancelAck { job_id })
            &&& log is Some <==> live
            &&& log matches Some(record) ==> record@.level is Warn && record@.job_id
                == text::decimal(job_id as nat) && record@.text == "COMMAND_CANCELED"@ + " {"@
                + "job_id"@ + "="@ + text::decimal(job_id as nat) + ", "@ + "reason"@ + "="@
                + "client_request"@ + "}"@
            &&& live ==> after.cancelled && after.state is Canceled && after.process_handle
                == was.process_handle && after.job_object == was.job_object && after.timeout
                == was.timeout && after.stdout_pump == was.stdout_pump && after.stderr_pump
                == was.stderr_pump && after.job_id == was.job_id && after.start_time
                == was.start_time && after.last_activity == was.last_activity
            &&& !live ==> after == was
        },
        jobs_after.jobs().contains_key(other) <==> jobs.jobs().contains_key(other),
        other != job_id && jobs.jobs().contains_key(other) ==> jobs_after.jobs()[other]
            == jobs.jobs()[other],
{
    logger::law_audit_entries(job_id, 0, 0, 0, REASON_REQUEST@);
    if jobs.jobs().contains_key(job_id) {
        job_manager::law_cancel_whatever_the_state(jobs.jobs(), job_id, other);
    }
}

/// What a WINDOW_UPDATE frame comes to. Its payload has to be readable and it has to name a job;
/// otherwise nothing changes. Where the job has windows and the stream is numbered 1 or 2, whoever
/// waits is told; where not, nothing happens.
pub proof fn law_window_update_frames(
    session: ClientSession,
    session_after: ClientSession,
    jobs: JobManager,
    jobs_after: JobManager,
    job_id: u32,
    payload: std::result::Result<WindowUpdatePayload, String>,
    now: u64,
    r: Result<Handled>,
)
    requires
        frame_handled(
            session,
            session_after,
            jobs,
            jobs_after,
            FrameType::WindowUpdate,
            job_id,
            FramePayload::WindowUpdate(payload),
            now,
            r,
        ),
    ensures
        jobs_after == jobs,
        session_after.user() == session.user(),
        session_after.jobs() == session.jobs(),
        payload matches Err(reason) ==> (r matches Err(e) && e@ == ErrorView::Protocol(
            "Invalid WINDOW_UPDATE payload: "@ + reason@,
        )) && session_after.pumps() == session.pumps(),
        payload is Ok && job_id == 0 ==> (r matches Err(e) && e@ == ErrorView::Protocol(
            "WINDOW_UPDATE frame missing job_id"@,
        )) && session_after.pumps() == session.pumps(),
        payload matches Ok(p) ==> (job_id != 0 ==> {
            let there = session.pumps().contains_key(job_id) && (p.stream_id == 1 || p.stream_id
                == 2);
            &&& there ==> r == Ok::<Handled, Error>(Handled::WindowChanged(job_id))
            &&& !there ==> r == Ok::<Handled, Error>(Handled::Nothing) && session_after.pumps()
                == session.pumps()
            &&& session_after.pumps() == windows_after(
                session.pumps(),
                job_id,
                p.stream_id,
                p.bytes_consumed,
            )
        }),
{
}

/// What all other frames come to. A HELLO is answered with the version and what the agent can do, a
/// PING with a pong, and the rest is not for the agent. Nothing changes.
pub proof fn law_other_frames(
    session: ClientSession,
    session_after: ClientSession,
    jobs: JobManager,
    jobs_after: JobManager,
    frame_type: FrameType,
    job_id: u32,
    payload: FramePayload,
    now: u64,
    r: Result<Handled>,
)
    requires
        !(frame_type is Run || frame_type is Cancel || frame_type is WindowUpdate),
        frame_handled(
            session,
            session_after,
            jobs,
            jobs_after,
            frame_type,
            job_id,
            payload,
            now,
            r,
        ),
    ensures
        session_after == session,
        jobs_after == jobs,
        frame_type is Hello ==> (r matches Ok(Handled::Reply(m)) && m@ == (OutgoingView::HelloAck {
            version: 1,
            capabilities: seq!["multiplexed"@, "flow_control"@],
        })),
        frame_type is Ping ==> (r matches Ok(Handled::Reply(m)) && m@ is Pong),
        !(frame_type is Hello || frame_type is Ping) ==> r == Ok::<Handled, Error>(
            Handled::Unhandled(frame_type),
        ),
{
}

/// The payloads of RUN and WINDOW_UPDATE frames are read, and no others.
pub proof fn law_payloads_read(t: FrameType)
    ensures
        kind_of(t) is Run <==> t is Run,
        kind_of(t) is WindowUpdate <==> t is WindowUpdate,
{
}

/// When a client has left, each job that it has asked for and that has been created, is starting,
/// runs or exits is `Canceled` and its workers are told to stop; everything else of it is as it was,
/// and so is every job that has ended or is not the client's.
pub proof fn law_disconnect(
    ids: Seq<u32>,
    jobs: JobManager,
    jobs_after: JobManager,
    log: Seq<LogRecord>,
    job_id: u32,
)
    requires
        after_disconnect(ids, jobs, jobs_after, log),
    ensures
        jobs_after.next_id() == jobs.next_id(),
        jobs_after.max_jobs() == jobs.max_jobs(),
        jobs_after.active_at() == jobs.active_at(),
        jobs_after.jobs().contains_key(job_id) <==> jobs.jobs().contains_key(job_id),
        jobs.jobs().contains_key(job_id) ==> {
            let was = jobs.jobs()[job_id];
            let after = jobs_after.jobs()[job_id];
            let live = was.state is Created || was.state is Starting || was.state is Running
                || was.state is Exiting;
            &&& ids.contains(job_id) && live ==> {
                &&& after.cancelled
                &&& after.state is Canceled
                &&& after.job_id == was.job_id
                &&& after.process_handle == was.process_handle
                &&& after.job_object == was.job_object
                &&& after.stdout_pump == was.stdout_pump
                &&& after.stderr_pump == was.stderr_pump
                &&& after.start_time == was.start_time
                &&& after.last_activity == was.last_activity
                &&& after.timeout == was.timeout
            }
            &&& !ids.contains(job_id) || !live ==> after == was
        },
{
    cancellation::law_canceled_jobs(jobs.jobs(), ids, job_id);
    assert(jobs_after.jobs().dom().contains(job_id) == jobs.jobs().dom().contains(job_id));
    if jobs.jobs().contains_key(job_id) && ids.contains(job_id) {
        let was = jobs.jobs()[job_id];
        if was.state is Created || was.state is Starting || was.state is Running || was.state
            is Exiting {
            cancellation::law_every_live_job_is_canceled(jobs.jobs(), ids, job_id);
        }
    }
}

/// When a client has left, the log has one entry for each of its jobs that was canceled by it, in the
/// order in which it asked for them: where all of them were alive and none comes twice, the entry at
/// a place is that of the job at that place.
pub proof fn law_disconnect_is_logged(
    ids: Seq<u32>,
    jobs: JobManager,
    jobs_after: JobManager,
    log: Seq<LogRecord>,
    i: int,
)
    requires
        after_disconnect(ids, jobs, jobs_after, log),
        ids.no_duplicates(),
        forall|j: int|
            0 <= j < ids.len() ==> jobs.jobs().contains_key(#[trigger] ids[j]) && {
                let state = jobs.jobs()[ids[j]].state;
                state is Created || state is Starting || state is Running || state is Exiting
            },
        0 <= i < ids.len(),
    ensures
        log.len() == ids.len(),
        log[i]@.level is Warn,
        log[i]@.job_id == text::decimal(ids[i] as nat),
        log[i]@.text == "COMMAND_CANCELED"@ + " {"@ + "job_id"@ + "="@ + text::decimal(
            ids[i] as nat,
        ) + ", "@ + "reason"@ + "="@ + "client_disconnect"@ + "}"@,
{
    cancellation::law_live_jobs_are_logged(jobs.jobs(), ids, REASON_DISCONNECT@);
    logger::law_audit_entries(ids[i], 0, 0, 0, REASON_DISCONNECT@);
    let r = logger::records(log);
    assert(r.len() == log.len());
    assert(r[i] == log[i]@);
}

/// The message that a client is told of an error with is about no job, has the code 1 and holds the
/// whole of what went wrong.
pub proof fn law_errors_are_told_in_full(m: Option<Outgoing>, e: ErrorView)
    requires
        tells_error(m, e),
    ensures
        m matches Some(x) && (x@ matches OutgoingView::Error { about, error_code, error_message }
            && about is None && error_code == 1 && error_message == error::error_text(e)),
{
}

/// A client has left where reading says so: the error is one of the protocol, and somewhere in its
/// text stands `EOF`, `broken` or `disconnect`.
pub proof fn law_means_disconnect(before: Seq<char>, after: Seq<char>, e: ErrorView)
    ensures
        means_disconnect(ErrorView::Protocol(before + "EOF"@ + after)),
        means_disconnect(ErrorView::Protocol(before + "broken"@ + after)),
        means_disconnect(ErrorView::Protocol(before + "disconnect"@ + after)),
        !(e is Protocol) ==> !means_disconnect(e),
        e matches ErrorView::Protocol(m) ==> (means_disconnect(e) ==> exists|
            a: Seq<char>,
            word: Seq<char>,
            b: Seq<char>,
        |
            (word == "EOF"@ || word == "broken"@ || word == "disconnect"@) && m == #[trigger] (a
                + word + b)),
{
    text::law_holds(before + "EOF"@ + after, "EOF"@);
    text::law_holds(before + "broken"@ + after, "broken"@);
    text::law_holds(before + "disconnect"@ + after, "disconnect"@);
    if let ErrorView::Protocol(m) = e {
        text::law_holds(m, "EOF"@);
        text::law_holds(m, "broken"@);
        text::law_holds(m, "disconnect"@);
    }
}

} // verus!
