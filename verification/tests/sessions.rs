use bytes::Bytes;
use virima_remote_agent::client_session::{
    read_failure_level, ClientEvent, ClientSession, ClientStep, FramePayload, Handled, PayloadKind,
    StartedRun,
};
use virima_remote_agent::io_pump::SendDecision;
use virima_remote_agent::job_manager::{JobManager, JobState};
use virima_remote_agent::logger::{LogLevel, Logger};
use virima_remote_agent::message::Outgoing;
use virima_remote_agent::pipe_io::HRESULT_PIPE_CONNECTED;
use virima_remote_agent::pipe_server::{
    account_buffer_sizes, account_name, client_identity, identity_error, listen_error,
    ConnectEvent, ConnectStep, IdentityCall, ListenCall, ListenStep, PipeServer,
};
use virima_remote_agent::protocol::{
    ErrorPayload, ExitPayload, Frame, FrameType, HelloAckPayload, RunAckPayload, RunPayload,
    StatusPayload, StreamId, WindowUpdatePayload,
};
use virima_remote_agent::wide::to_wide_null;
use virima_remote_agent::Error;

fn logger() -> Logger {
    Logger::new("test".to_string(), None)
}

fn frame(t: FrameType) -> Frame {
    Frame::new(t, StreamId::Control)
}

fn run_payload(command: &str) -> RunPayload {
    RunPayload {
        command: command.to_string(),
        working_directory: None,
        environment: None,
        timeout_ms: Some(2000),
    }
}

fn handle(
    s: &mut ClientSession,
    jobs: &mut JobManager,
    f: &Frame,
    p: FramePayload,
) -> Result<Handled, Error> {
    s.handle_frame(jobs, &logger(), f, p, 10)
}

fn start(s: &mut ClientSession, jobs: &mut JobManager) -> StartedRun {
    let p = FramePayload::Run(Ok(run_payload("dir")));
    match handle(s, jobs, &frame(FrameType::Run), p) {
        Ok(Handled::Run(run)) => run,
        _ => panic!("a run was expected"),
    }
}

fn reply(r: Result<Handled, Error>) -> Outgoing {
    match r {
        Ok(Handled::Reply(m)) => m,
        _ => panic!("a reply was expected"),
    }
}

fn error_text(r: Result<Handled, Error>) -> String {
    match r {
        Ok(_) => panic!("an error was expected"),
        Err(e) => e.message(),
    }
}

fn session() -> ClientSession {
    ClientSession::new("CORP\\admin".to_string())
}

#[test]
fn hello() {
    let (mut s, mut jobs) = (session(), JobManager::new(1));
    match reply(handle(&mut s, &mut jobs, &frame(FrameType::Hello), FramePayload::Unread)) {
        Outgoing::HelloAck(p) => {
            assert_eq!(p.version, 1);
            assert_eq!(p.capabilities, vec!["multiplexed", "flow_control"]);
        }
        _ => panic!("an acknowledgement was expected"),
    }
}

#[test]
fn ping() {
    let (mut s, mut jobs) = (session(), JobManager::new(1));
    let m = reply(handle(&mut s, &mut jobs, &frame(FrameType::Ping), FramePayload::Unread));
    assert!(matches!(m, Outgoing::Pong));
}

#[test]
fn run_registers_a_job() {
    let (mut s, mut jobs) = (session(), JobManager::new(1));
    let mut p = run_payload("whoami");
    p.working_directory = Some("C:\\x".to_string());
    let r = handle(&mut s, &mut jobs, &frame(FrameType::Run), FramePayload::Run(Ok(p)));
    let run = match r {
        Ok(Handled::Run(run)) => run,
        _ => panic!("a run was expected"),
    };
    assert_eq!(run.job.job_id, 1);
    assert_eq!(run.job.state, JobState::Starting);
    assert_eq!(run.job.timeout, Some(2000));
    assert_eq!(run.job.start_time, 10);
    assert_eq!(run.payload.command, "whoami");
    assert!(matches!(run.ack, Outgoing::RunAck(RunAckPayload { job_id: 1 })));
    assert_eq!((run.log.level, run.log.job_id.as_str()), (LogLevel::Info, "1"));
    assert_eq!(
        run.log.text,
        "COMMAND_STARTED {job_id=1, client_user=CORP\\admin, command_line=whoami, working_dir=C:\\x}"
    );
    assert_eq!(jobs.get_job(1).unwrap().state, JobState::Starting);
}

#[test]
fn run_errors() {
    let (mut s, mut jobs) = (session(), JobManager::new(1));
    let bad = FramePayload::Run(Err("EOF while parsing".to_string()));
    assert_eq!(
        error_text(handle(&mut s, &mut jobs, &frame(FrameType::Run), bad)),
        "Protocol error: Invalid RUN payload: EOF while parsing"
    );
    start(&mut s, &mut jobs);
    let more = FramePayload::Run(Ok(run_payload("dir")));
    assert_eq!(
        error_text(handle(&mut s, &mut jobs, &frame(FrameType::Run), more)),
        "Service error: Maximum concurrent jobs (1) reached"
    );
}

#[test]
fn cancel_frames() {
    let (mut s, mut jobs) = (session(), JobManager::new(1));
    start(&mut s, &mut jobs);
    let f = frame(FrameType::Cancel);
    assert_eq!(
        error_text(handle(&mut s, &mut jobs, &f, FramePayload::Unread)),
        "Protocol error: CANCEL frame missing job_id"
    );
    let f = frame(FrameType::Cancel).with_job_id(5);
    assert_eq!(
        error_text(handle(&mut s, &mut jobs, &f, FramePayload::Unread)),
        "Job not found: 5"
    );
    let f = frame(FrameType::Cancel).with_job_id(1);
    match handle(&mut s, &mut jobs, &f, FramePayload::Unread) {
        Ok(Handled::Canceled(Some(log), Outgoing::CancelAck(1))) => {
            assert_eq!((log.level, log.job_id.as_str()), (LogLevel::Warn, "1"));
            assert_eq!(log.text, "COMMAND_CANCELED {job_id=1, reason=client_request}");
        }
        _ => panic!("the job should be canceled"),
    }
    assert_eq!(jobs.get_job(1).unwrap().state, JobState::Canceled);
    let again = handle(&mut s, &mut jobs, &f, FramePayload::Unread);
    assert!(matches!(again, Ok(Handled::Canceled(None, Outgoing::CancelAck(1)))));
}

fn output(len: usize) -> Frame {
    Frame::new(FrameType::Output, StreamId::Stdout).with_payload(Bytes::from(vec![7; len]))
}

fn consumed(stream_id: u8, bytes_consumed: u64) -> FramePayload {
    FramePayload::WindowUpdate(Ok(WindowUpdatePayload { stream_id, bytes_consumed }))
}

#[test]
fn windows_are_per_stream() {
    let (mut s, mut jobs) = (session(), JobManager::new(1));
    assert_eq!(s.try_send_frame(1, StreamId::Stdout, &output(1)), SendDecision::Discard);
    start(&mut s, &mut jobs);
    s.run_acknowledged(1);
    let big = output(32768);
    for _ in 0..2 {
        assert_eq!(s.try_send_frame(1, StreamId::Stdout, &big), SendDecision::Send);
    }
    assert_eq!(s.try_send_frame(1, StreamId::Stdout, &output(1)), SendDecision::Wait);
    assert_eq!(s.try_send_frame(1, StreamId::Stderr, &big), SendDecision::Send);
    assert_eq!(s.try_send_frame(1, StreamId::Control, &big), SendDecision::Discard);

    let f = frame(FrameType::WindowUpdate).with_job_id(1);
    let r = handle(&mut s, &mut jobs, &f, consumed(2, 100));
    assert!(matches!(r, Ok(Handled::WindowChanged(1))));
    assert_eq!(s.try_send_frame(1, StreamId::Stdout, &output(1)), SendDecision::Wait);
    let r = handle(&mut s, &mut jobs, &f, consumed(1, 65536));
    assert!(matches!(r, Ok(Handled::WindowChanged(1))));
    assert_eq!(s.try_send_frame(1, StreamId::Stdout, &big), SendDecision::Send);

    let r = handle(&mut s, &mut jobs, &f, consumed(0, 1));
    assert!(matches!(r, Ok(Handled::Nothing)));
    s.run_ended(1);
    let r = handle(&mut s, &mut jobs, &f, consumed(1, 1));
    assert!(matches!(r, Ok(Handled::Nothing)));
    assert_eq!(s.try_send_frame(1, StreamId::Stdout, &output(1)), SendDecision::Discard);
}

#[test]
fn window_update_errors() {
    let (mut s, mut jobs) = (session(), JobManager::new(1));
    let f = frame(FrameType::WindowUpdate).with_job_id(1);
    let bad = FramePayload::WindowUpdate(Err("bad".to_string()));
    assert_eq!(
        error_text(handle(&mut s, &mut jobs, &f, bad)),
        "Protocol error: Invalid WINDOW_UPDATE payload: bad"
    );
    assert_eq!(
        error_text(handle(&mut s, &mut jobs, &frame(FrameType::WindowUpdate), consumed(1, 1))),
        "Protocol error: WINDOW_UPDATE frame missing job_id"
    );
}

#[test]
fn other_frames_are_passed_over() {
    let (mut s, mut jobs) = (session(), JobManager::new(1));
    for t in [FrameType::Goodbye, FrameType::Output, FrameType::Pong, FrameType::Exit] {
        match handle(&mut s, &mut jobs, &frame(t), FramePayload::Unread) {
            Ok(Handled::Unhandled(u)) => assert_eq!(u, t),
            _ => panic!("the frame is not for the agent"),
        }
    }
}

#[test]
fn payload_kinds() {
    assert_eq!(ClientSession::payload_kind(&frame(FrameType::Run)), PayloadKind::Run);
    assert_eq!(
        ClientSession::payload_kind(&frame(FrameType::WindowUpdate)),
        PayloadKind::WindowUpdate
    );
    assert_eq!(ClientSession::payload_kind(&frame(FrameType::Hello)), PayloadKind::Unread);
}

#[test]
fn disconnect_cancels_the_clients_jobs() {
    let mut jobs = JobManager::new(4);
    let (mut a, mut b) = (session(), session());
    start(&mut a, &mut jobs);
    start(&mut b, &mut jobs);
    start(&mut a, &mut jobs);
    jobs.transition_state(3, JobState::Failed).unwrap();
    let e = Error::Protocol("Failed to read frame length (EOF or disconnect)".to_string());
    let step = a.handle_client(&mut jobs, &logger(), ClientEvent::ReadFailed(e));
    match step {
        ClientStep::Close(None, log) => {
            assert_eq!(log.len(), 1);
            assert_eq!(log[0].text, "COMMAND_CANCELED {job_id=1, reason=client_disconnect}");
        }
        _ => panic!("the connection should be closed"),
    }
    assert_eq!(jobs.get_job(1).unwrap().state, JobState::Canceled);
    assert_eq!(jobs.get_job(2).unwrap().state, JobState::Starting);
    assert_eq!(jobs.get_job(3).unwrap().state, JobState::Failed);
}

fn told_error(step: ClientStep) -> ErrorPayload {
    match step {
        ClientStep::Close(Some(Outgoing::Error(p)), log) => {
            assert!(log.iter().all(|r| r.level == LogLevel::Warn));
            p
        }
        _ => panic!("an error for the client was expected"),
    }
}

#[test]
fn bad_frames_end_the_connection() {
    let (mut s, mut jobs) = (session(), JobManager::new(1));
    start(&mut s, &mut jobs);
    let event = ClientEvent::Frame(frame(FrameType::Cancel), FramePayload::Unread, 10);
    let p = told_error(s.handle_client(&mut jobs, &logger(), event));
    assert_eq!(p.job_id, None);
    assert_eq!(p.error_code, 1);
    assert_eq!(p.error_message, "Protocol error: CANCEL frame missing job_id");
    assert_eq!(jobs.get_job(1).unwrap().state, JobState::Canceled);
}

#[test]
fn unsent_replies_end_the_connection() {
    let (mut s, mut jobs) = (session(), JobManager::new(1));
    let run = start(&mut s, &mut jobs);
    let e = run.ack.send_error("channel closed").unwrap();
    let p = told_error(s.handle_client(&mut jobs, &logger(), ClientEvent::SendFailed(e)));
    assert_eq!(p.error_message, "Protocol error: Failed to send RUN_ACK: channel closed");
    assert_eq!(jobs.get_job(1).unwrap().state, JobState::Canceled);
}

#[test]
fn good_frames_keep_the_connection() {
    let (mut s, mut jobs) = (session(), JobManager::new(1));
    let event = ClientEvent::Frame(frame(FrameType::Ping), FramePayload::Unread, 10);
    let step = s.handle_client(&mut jobs, &logger(), event);
    assert!(matches!(step, ClientStep::Continue(Handled::Reply(Outgoing::Pong))));
}

#[test]
fn read_failures_are_logged_by_their_cause() {
    let level = |m: &str| read_failure_level(&Error::Protocol(m.to_string()));
    assert_eq!(level("Failed to read frame length (EOF or disconnect)"), LogLevel::Debug);
    assert_eq!(level("pipe broken"), LogLevel::Debug);
    assert_eq!(level("client disconnected"), LogLevel::Debug);
    assert_eq!(level("Invalid frame length: 0"), LogLevel::Error);
    assert_eq!(level("EO"), LogLevel::Error);
    assert_eq!(read_failure_level(&Error::Io("EOF".to_string())), LogLevel::Error);
}

#[test]
fn messages_as_frames() {
    let json = || b"{}".to_vec();
    let check = |m: Outgoing, t: FrameType, job_id: u32, payload: &[u8]| {
        let f = m.frame(json());
        assert_eq!(f.frame_type, t);
        assert_eq!(f.stream_id, StreamId::Control);
        assert_eq!(f.job_id, job_id);
        assert_eq!(f.flags, 0);
        assert_eq!(f.sequence_number, 0);
        assert_eq!(f.payload.as_ref(), payload);
    };
    let ack = HelloAckPayload { version: 1, capabilities: vec![] };
    check(Outgoing::HelloAck(ack), FrameType::HelloAck, 0, b"{}");
    check(Outgoing::RunAck(RunAckPayload { job_id: 4 }), FrameType::RunAck, 4, b"{}");
    check(Outgoing::CancelAck(5), FrameType::CancelAck, 5, b"");
    check(Outgoing::Pong, FrameType::Pong, 0, b"");
    let status = StatusPayload { job_id: 6, status: "Running".to_string() };
    check(Outgoing::Status(status), FrameType::Status, 6, b"{}");
    check(Outgoing::Exit(7, ExitPayload { exit_code: 0 }), FrameType::Exit, 7, b"{}");
    let error = |job_id| ErrorPayload { job_id, error_code: 1, error_message: String::new() };
    check(Outgoing::Error(error(Some(8))), FrameType::Error, 8, b"{}");
    check(Outgoing::Error(error(None)), FrameType::Error, 0, b"{}");
}

#[test]
fn unsent_messages() {
    let text = |m: Outgoing| m.send_error("x").map(|e| e.message());
    let ack = HelloAckPayload { version: 1, capabilities: vec![] };
    assert_eq!(
        text(Outgoing::HelloAck(ack)).unwrap(),
        "Protocol error: Failed to send HELLO_ACK: x"
    );
    assert_eq!(
        text(Outgoing::CancelAck(1)).unwrap(),
        "Protocol error: Failed to send CANCEL_ACK: x"
    );
    assert_eq!(text(Outgoing::Pong).unwrap(), "Protocol error: Failed to send PONG: x");
    let status = StatusPayload { job_id: 6, status: "Running".to_string() };
    assert_eq!(
        text(Outgoing::Status(status)).unwrap(),
        "Protocol error: Failed to send STATUS: x"
    );
    assert_eq!(text(Outgoing::Exit(7, ExitPayload { exit_code: 0 })), None);
    let error = ErrorPayload { job_id: None, error_code: 1, error_message: String::new() };
    assert_eq!(text(Outgoing::Error(error)), None);
}

#[test]
fn server_slots() {
    let mut server = PipeServer::new("\\\\.\\pipe\\Test".to_string(), 2);
    match server.start_listening() {
        ListenStep::CreateInstance(p) => {
            assert_eq!(p.name, to_wide_null("\\\\.\\pipe\\Test"));
            assert_eq!(p.security, to_wide_null("D:(A;;GA;;;SY)(A;;GA;;;BA)"));
            assert_eq!((p.open_mode, p.pipe_mode), (3, 0));
            assert_eq!(p.max_instances, 2);
            assert_eq!((p.out_buffer_size, p.in_buffer_size), (65536, 65536));
            assert_eq!(p.default_timeout, 0);
            assert!(!p.inherit_handle);
        }
        ListenStep::WaitForSlot => panic!("there are free slots"),
    }
    assert!(matches!(server.start_listening(), ListenStep::CreateInstance(_)));
    assert!(matches!(server.start_listening(), ListenStep::WaitForSlot));
    server.client_left();
    assert!(matches!(server.start_listening(), ListenStep::CreateInstance(_)));
}

#[test]
fn connections() {
    assert_eq!(PipeServer::connected(ConnectEvent::Connected), ConnectStep::Serve);
    assert_eq!(
        PipeServer::connected(ConnectEvent::Failed(HRESULT_PIPE_CONNECTED)),
        ConnectStep::Serve
    );
    assert_eq!(HRESULT_PIPE_CONNECTED as u32, 0x8007_0217);
    assert_eq!(PipeServer::connected(ConnectEvent::Failed(5)), ConnectStep::Close);
    assert_eq!(PipeServer::connected(ConnectEvent::TaskFailed), ConnectStep::Close);
}

#[test]
fn accounts() {
    let wide = |s: &str| s.encode_utf16().chain([0, 0]).collect::<Vec<u16>>();
    assert_eq!(account_name(wide("bob"), wide("CORP")), "CORP\\bob");
    assert_eq!(account_name(wide("bob"), wide("")), "bob");
    assert_eq!(account_buffer_sizes(4, 9).unwrap(), (4, 9));
    assert_eq!(
        account_buffer_sizes(0, 9).unwrap_err().message(),
        "Authorization failed: Failed to get account name size"
    );
}

#[test]
fn identities() {
    let denied = || Error::AuthorizationFailed("no".to_string());
    let sid = || Ok("S-1-5-18".to_string());
    assert_eq!(client_identity(sid(), Ok("CORP\\bob".to_string())).unwrap(), "CORP\\bob");
    assert_eq!(client_identity(sid(), Err(denied())).unwrap(), "S-1-5-18");
    assert_eq!(
        client_identity(Err(denied()), Ok("CORP\\bob".to_string())).unwrap_err().message(),
        "Authorization failed: no"
    );
}

#[test]
fn server_errors() {
    let said = |c| listen_error(c, "x").message();
    assert_eq!(
        said(ListenCall::CreateSecurityDescriptor),
        "Service error: Failed to create security descriptor: x"
    );
    assert_eq!(said(ListenCall::CreateNamedPipe), "Service error: Failed to create named pipe: x");
    assert_eq!(said(ListenCall::CreatePipe), "Service error: Failed to create pipe: x");
    let said = |c| identity_error(c, "x").message();
    assert_eq!(
        said(IdentityCall::Impersonate),
        "Authorization failed: Failed to impersonate client: x"
    );
    assert_eq!(
        said(IdentityCall::OpenToken),
        "Authorization failed: Failed to open thread token: x"
    );
    assert_eq!(
        said(IdentityCall::GetTokenInformation),
        "Authorization failed: Failed to get token info: x"
    );
    assert_eq!(said(IdentityCall::ConvertSid), "Authorization failed: Failed to convert SID: x");
    assert_eq!(
        said(IdentityCall::LookupAccount),
        "Authorization failed: Failed to lookup account: x"
    );
}
