use virima_remote_agent::file_ipc::{
    command_plan, default_timeout, execute_command, finished_response, invalid_request,
    is_request_file, request_id, response_file_name, serialize_error, timeout_response,
    CommandOutcome, FileIpcServer, Request, RequestStep,
};
use virima_remote_agent::job_manager::{JobManager, JobState};
use virima_remote_agent::logger::{LogLevel, Logger};
use virima_remote_agent::service_host::{
    run_mode, service_error, Control, ControlAnswer, RunMode, ServiceCall, ServiceHost,
    ShutdownStep, StatusReport, PIPE_NAME,
};
use virima_remote_agent::string_map::StringMap;

fn request(timeout_ms: u64) -> Request {
    Request {
        id: "r1".to_string(),
        command: "echo hi".to_string(),
        working_dir: None,
        environment: None,
        timeout_ms,
    }
}

#[test]
fn request_files() {
    for name in ["a.json", "..json", "a.b.json", ".a.json", "\u{e4}.json"] {
        assert!(is_request_file(name), "{name}");
    }
    for name in ["", "json", ".json", "a.JSON", "a.json.tmp", "a.json ", "ajson", "a.xjson"] {
        assert!(!is_request_file(name), "{name}");
    }
}

#[test]
fn request_ids() {
    assert_eq!(request_id(Some("a.json")), "a");
    assert_eq!(request_id(Some("a.b.json")), "a.b");
    assert_eq!(request_id(Some(".json")), ".json");
    assert_eq!(request_id(Some("plain")), "plain");
    assert_eq!(request_id(None), "unknown");
}

#[test]
fn ten_commands_at_a_time() {
    let mut server = FileIpcServer::new();
    assert_eq!(server.process_request("readme.txt"), RequestStep::Ignore);
    for _ in 0..10 {
        assert_eq!(server.process_request("a.json"), RequestStep::Process);
    }
    assert_eq!(server.process_request("a.json"), RequestStep::Postpone);
    assert_eq!(server.process_request("readme.txt"), RequestStep::Ignore);
    server.finished();
    assert_eq!(server.process_request("a.json"), RequestStep::Process);
}

#[test]
fn five_minutes() {
    assert_eq!(default_timeout(), 300000);
}

#[test]
fn plan() {
    let mut r = request(5);
    let p = command_plan(&r);
    assert_eq!(p.program, "cmd.exe");
    assert_eq!(p.args, vec!["/C", "echo hi"]);
    assert_eq!(p.working_dir, None);
    assert!(p.environment.is_none());
    assert_eq!(p.timeout_ms, 5);
    let mut env = StringMap::new();
    env.insert("A".to_string(), "1".to_string());
    r.environment = Some(env);
    r.working_dir = Some("C:\\x".to_string());
    let p = command_plan(&r);
    assert_eq!(p.working_dir.as_deref(), Some("C:\\x"));
    assert_eq!(p.environment.unwrap().get(&"A".to_string()), Some("1"));
}

#[test]
fn finished_commands() {
    let outcome =
        CommandOutcome::Finished(Some(4), b"h\xc3\xa4".to_vec(), b"\xff!\xc3".to_vec());
    let r = execute_command(&request(5), outcome);
    assert_eq!(r.id, "r1");
    assert_eq!(r.exit_code, 4);
    assert_eq!(r.stdout, "h\u{e4}");
    assert_eq!(r.stderr, "\u{FFFD}!\u{FFFD}");
    assert_eq!(r.error, None);
    let r = execute_command(&request(5), CommandOutcome::Finished(None, vec![], vec![]));
    assert_eq!(r.exit_code, -1);
    assert_eq!(r.error, None);
    let r = finished_response(&request(5), Some(2), "o".to_string(), "e".to_string());
    assert_eq!((r.exit_code, r.stdout.as_str(), r.stderr.as_str()), (2, "o", "e"));
}

fn error_of(outcome: CommandOutcome, timeout_ms: u64) -> String {
    let r = execute_command(&request(timeout_ms), outcome);
    assert_eq!(r.id, "r1");
    assert_eq!(r.exit_code, -1);
    assert_eq!(r.stdout, "");
    assert_eq!(r.stderr, "");
    r.error.unwrap()
}

#[test]
fn commands_that_do_not_finish() {
    assert_eq!(
        error_of(CommandOutcome::NotSpawned("denied".to_string()), 5),
        "Failed to spawn process: denied"
    );
    assert_eq!(
        error_of(CommandOutcome::Failed("lost".to_string()), 5),
        "Process error: lost"
    );
    assert_eq!(error_of(CommandOutcome::TimedOut, 300000), "Command timed out after 300s");
    assert_eq!(error_of(CommandOutcome::TimedOut, 1500), "Command timed out after 1.5s");
    assert_eq!(error_of(CommandOutcome::TimedOut, 20), "Command timed out after 20ms");
    assert_eq!(
        timeout_response(&request(5), "a while").error.unwrap(),
        "Command timed out after a while"
    );
}

#[test]
fn responses_go_to_files() {
    let r = invalid_request(&"q7".to_string(), "expected value");
    assert_eq!(r.error.as_deref(), Some("Invalid JSON: expected value"));
    assert_eq!(r.exit_code, -1);
    assert_eq!(response_file_name(&r), "q7.json");
    assert_eq!(serialize_error("x").message(), "Protocol error: JSON serialize: x");
}

#[test]
fn response_file_of_a_request_file() {
    let r = invalid_request(&request_id(Some("a.b.json")), "x");
    assert_eq!(response_file_name(&r), "a.b.json");
}

#[test]
fn modes() {
    let args = |list: &[&str]| -> Vec<String> { list.iter().map(|a| a.to_string()).collect() };
    assert_eq!(run_mode(&args(&["agent.exe"])), RunMode::Console);
    assert_eq!(run_mode(&args(&[])), RunMode::Console);
    assert_eq!(run_mode(&args(&["agent.exe", "--console"])), RunMode::Console);
    assert_eq!(run_mode(&args(&["agent.exe", "x", "--service"])), RunMode::Service);
    assert_eq!(run_mode(&args(&["agent.exe", "--services"])), RunMode::Console);
}

#[test]
fn controls() {
    let mut host = ServiceHost::default();
    assert_eq!(host.handle_control(Control::Interrogate), ControlAnswer::NoError);
    assert_eq!(host.handle_control(Control::Other), ControlAnswer::NotImplemented);
    assert!(!host.is_stopping());
    assert_eq!(host.handle_control(Control::Shutdown), ControlAnswer::NoError);
    assert!(host.is_stopping());
    let mut host = ServiceHost::new();
    assert_eq!(host.handle_control(Control::Stop), ControlAnswer::NoError);
    assert!(host.is_stopping());
}

#[test]
fn reports() {
    let running = StatusReport { running: true, accepts_stop: true, exit_code: 0 };
    assert_eq!(ServiceHost::started(), running);
    let stopped = StatusReport { running: false, accepts_stop: false, exit_code: 0 };
    assert_eq!(ServiceHost::stopped(true), stopped);
    assert_eq!(ServiceHost::stopped(false), StatusReport { exit_code: 1, ..stopped });
}

#[test]
fn shutdown() {
    let mut jobs = JobManager::new(3);
    for _ in 0..3 {
        jobs.create_job(None, 0).unwrap();
    }
    jobs.transition_state(2, JobState::Starting).unwrap();
    jobs.transition_state(2, JobState::Failed).unwrap();
    let logger = Logger::new("x".to_string(), None);
    let mut log: Vec<String> =
        ServiceHost::begin_shutdown(&mut jobs, &logger).into_iter().map(|r| r.text).collect();
    log.sort();
    assert_eq!(
        log,
        vec![
            "COMMAND_CANCELED {job_id=1, reason=service_stop}",
            "COMMAND_CANCELED {job_id=3, reason=service_stop}"
        ]
    );
    assert_eq!(jobs.get_job(1).unwrap().state, JobState::Canceled);
    assert_eq!(jobs.get_job(2).unwrap().state, JobState::Failed);
    assert_eq!(jobs.get_job(3).unwrap().state, JobState::Canceled);
    assert!(matches!(ServiceHost::shutdown_step(&mut jobs, 29999), ShutdownStep::Wait(100)));
    assert_eq!(jobs.job_count(), 3);
    match ServiceHost::shutdown_step(&mut jobs, 30000) {
        ShutdownStep::CleanUp(left) => {
            assert_eq!(left.len(), 3);
            assert!(left.iter().all(|job| job.stop));
        }
        ShutdownStep::Wait(_) => panic!("the time is over"),
    }
    assert!(jobs.get_job(2).unwrap().cancelled);
    assert_eq!(ServiceHost::end_shutdown(&mut jobs).len(), 3);
    assert_eq!(jobs.job_count(), 0);
    match ServiceHost::shutdown_step(&mut jobs, 0) {
        ShutdownStep::CleanUp(left) => assert!(left.is_empty()),
        ShutdownStep::Wait(_) => panic!("no job is left"),
    }
}

#[test]
fn idle_thresholds() {
    let mut jobs = JobManager::new(2);
    jobs.create_job(None, 0).unwrap();
    jobs.create_job(None, 0).unwrap();
    jobs.cancel_job(2, "test").unwrap();
    assert!(ServiceHost::clean_up(&mut jobs, 119_999).is_empty());
    let left = ServiceHost::clean_up(&mut jobs, 120_000);
    assert_eq!(left.len(), 1);
    assert_eq!(left[0].job_id, 2);
    jobs.cleanup_job(2).unwrap();
    assert!(ServiceHost::clean_up(&mut jobs, 1_799_999).is_empty());
    assert_eq!(ServiceHost::clean_up(&mut jobs, 1_800_000).len(), 1);
}

#[test]
fn service_errors() {
    let said = |c| service_error(c, "x").message();
    assert_eq!(said(ServiceCall::RegisterHandler), "Service error: Register handler: x");
    assert_eq!(said(ServiceCall::SetStatus), "Service error: Set status: x");
    assert_eq!(said(ServiceCall::StartRuntime), "Service error: Runtime: x");
    assert_eq!(said(ServiceCall::StartDispatcher), "Service error: Start dispatcher: x");
    assert_eq!(PIPE_NAME, r"\\.\pipe\VirimaRemoteAgent");
}

#[test]
fn log_entries() {
    let l = Logger::new("VirimaRemoteAgent".to_string(), Some("service.log".to_string()));
    let r = l.log_event(LogLevel::Debug, "hello", None).unwrap();
    assert_eq!((r.level, r.job_id.as_str(), r.text.as_str()), (LogLevel::Debug, "-", "hello"));
    assert_eq!(r.line("t", "c"), "[t] [DEBUG] [-] [c] hello");
    let mut fields = StringMap::new();
    fields.insert("a".to_string(), "1".to_string());
    fields.insert("b".to_string(), "two".to_string());
    let r = l.log_event(LogLevel::Trace, "hello", Some(&fields)).unwrap();
    assert_eq!(r.text, "hello {a=1, b=two}");
    fields.insert("job_id".to_string(), "8".to_string());
    let r = l.log_event(LogLevel::Warn, "hello", Some(&fields)).unwrap();
    assert_eq!(
        r.line("2024-01-01T00:00:00Z", "pipe_server"),
        "[2024-01-01T00:00:00Z] [WARN] [8] [pipe_server] hello {a=1, b=two, job_id=8}"
    );
}

#[test]
fn audit_entries() {
    let l = Logger::new("x".to_string(), None);
    assert_eq!(
        l.audit_command_started(3, "bob", "dir", None).unwrap().text,
        "COMMAND_STARTED {job_id=3, client_user=bob, command_line=dir}"
    );
    let r = l.audit_command_started(7, "bob", "dir", Some("C:\\")).unwrap();
    assert_eq!((r.level, r.job_id.as_str()), (LogLevel::Info, "7"));
    assert_eq!(
        r.text,
        "COMMAND_STARTED {job_id=7, client_user=bob, command_line=dir, working_dir=C:\\}"
    );
    assert_eq!(
        l.audit_command_completed(3, -5, 1200).unwrap().text,
        "COMMAND_COMPLETED {job_id=3, exit_code=-5, duration_ms=1200}"
    );
    assert_eq!(
        l.audit_command_completed(3, i32::MIN, u64::MAX).unwrap().text,
        "COMMAND_COMPLETED {job_id=3, exit_code=-2147483648, duration_ms=18446744073709551615}"
    );
    assert_eq!(
        l.audit_command_failed(3, 9, "bad").unwrap().text,
        "COMMAND_FAILED {job_id=3, error_code=9, error_message=bad}"
    );
    let r = l.audit_command_canceled(3, "timeout").unwrap();
    assert_eq!(r.level, LogLevel::Warn);
    assert_eq!(r.text, "COMMAND_CANCELED {job_id=3, reason=timeout}");
    assert_eq!(
        l.audit_access_denied("eve", "format c:").unwrap().text,
        "ACCESS_DENIED {client_user=eve, attempted_command=format c:}"
    );
}
