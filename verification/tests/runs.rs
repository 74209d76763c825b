use virima_remote_agent::cancellation::{
    CancellationManager, MonitorStep, PollEvent, PollStep, TerminateEvent, TerminateStep,
    WaitEvent, WaitStep, WAIT_OBJECT_0, WAIT_TIMEOUT,
};
use virima_remote_agent::job_manager::{JobHandle, JobManager, JobState};
use virima_remote_agent::job_run::{launch_and_monitor_process, Launching, Monitored, RunEnd};
use virima_remote_agent::logger::{LogLevel, Logger};
use virima_remote_agent::message::Outgoing;
use virima_remote_agent::process_launcher::LaunchedProcess;
use virima_remote_agent::Error;

const PROCESS: LaunchedProcess = LaunchedProcess {
    process_handle: 100,
    thread_handle: 101,
    process_id: 7,
    job_object: 102,
    stdout_read: 103,
    stderr_read: 104,
    stdin_write: 105,
};

fn logger() -> Logger {
    Logger::new("test".to_string(), None)
}

fn starting() -> (JobManager, Launching) {
    let mut jobs = JobManager::new(4);
    let job = jobs.create_job(Some(5000), 1000).unwrap();
    jobs.transition_state(job.job_id, JobState::Starting).unwrap();
    let run = launch_and_monitor_process(&job);
    assert_eq!((run.job_id, run.start_time), (1, 1000));
    (jobs, run)
}

fn monitored() -> (JobManager, Monitored) {
    let (mut jobs, run) = starting();
    let after = run.launched(&mut jobs, PROCESS);
    assert_eq!(after.close, Some(101));
    let run = match after.next {
        Ok(run) => run,
        Err(_) => panic!("the run should go on"),
    };
    match &run.status {
        Outgoing::Status(p) => assert_eq!((p.job_id, p.status.as_str()), (1, "Running")),
        _ => panic!("a status was expected"),
    }
    let run = run.status_sent(&mut jobs);
    (jobs, run)
}

fn state(jobs: &JobManager) -> JobState {
    jobs.get_job(1).unwrap().state
}

fn error_text(end: &RunEnd) -> String {
    match &end.result {
        Ok(_) => panic!("an error was expected"),
        Err(e) => e.message(),
    }
}

#[test]
fn undisturbed_run() {
    let (mut jobs, run) = monitored();
    assert_eq!(state(&jobs), JobState::Running);
    let job = jobs.get_job(1).unwrap();
    assert_eq!((job.process_handle, job.job_object), (Some(100), Some(102)));
    assert!(job.stdout_pump && job.stderr_pump);

    let run = run.exited(&mut jobs, Ok(3));
    assert_eq!(run.stdin(), 105);
    assert!(run.stdout_pump && run.stderr_pump);
    assert_eq!(run.exit_code, 3);

    let run = run.drained(&mut jobs, None);
    assert_eq!(state(&jobs), JobState::Exiting);
    assert!(run.error.is_none());
    assert_eq!(run.close, vec![103, 104]);
    match &run.exit {
        Outgoing::Exit(id, p) => assert_eq!((*id, p.exit_code), (1, 3)),
        _ => panic!("an exit was expected"),
    }

    let end = run.exit_sent(&mut jobs, &logger(), 1250);
    assert!(end.result.is_ok());
    assert!(end.send.is_none());
    assert!(end.close.is_empty());
    let log = end.log.as_ref().unwrap();
    assert_eq!((log.level, log.job_id.as_str()), (LogLevel::Info, "1"));
    assert_eq!(log.text, "COMMAND_COMPLETED {job_id=1, exit_code=3, duration_ms=250}");
    let left = end.released.unwrap();
    assert_eq!(left.state, JobState::Completed);
    assert!(left.stop);
    assert_eq!((left.process_handle, left.job_object), (Some(100), Some(102)));
    assert!(!left.stdout_pump && !left.stderr_pump);
    assert!(jobs.get_job(1).unwrap().cancelled);
    let left = end.finish(&mut jobs).unwrap();
    assert_eq!((left.process_handle, left.job_object), (None, None));
    assert!(jobs.get_job(1).is_none());
    assert!(end.finish(&mut jobs).is_none());
}

#[test]
fn output_that_cannot_be_copied() {
    let (mut jobs, run) = monitored();
    let run = run.exited(&mut jobs, Ok(0));
    let run = run.drained(&mut jobs, Some(Error::Io("bad".to_string())));
    assert_eq!(state(&jobs), JobState::Exiting);
    match run.error.as_ref().unwrap() {
        Outgoing::Error(p) => {
            assert_eq!((p.job_id, p.error_code), (Some(1), 1));
            assert_eq!(p.error_message, "IO error: bad");
        }
        _ => panic!("an error was expected"),
    }
    assert!(matches!(run.exit, Outgoing::Exit(1, _)));
    let end = run.exit_sent(&mut jobs, &logger(), 1250);
    assert_eq!(error_text(&end), "IO error: bad");
    assert_eq!(end.released.unwrap().state, JobState::Failed);
    assert_eq!(
        end.log.as_ref().unwrap().text,
        "COMMAND_FAILED {job_id=1, error_code=1, error_message=IO error: bad}"
    );
}

#[test]
fn canceled_jobs_do_not_fail() {
    let (mut jobs, run) = monitored();
    jobs.cancel_job(1, "test").unwrap();
    let run = run.exited(&mut jobs, Ok(0));
    let run = run.drained(&mut jobs, Some(Error::Io("bad".to_string())));
    assert!(run.error.is_none() && run.failure.is_none());
    let end = run.exit_sent(&mut jobs, &logger(), 1250);
    assert_eq!(end.released.unwrap().state, JobState::Canceled);
}

#[test]
fn clock_that_went_back() {
    let (mut jobs, run) = monitored();
    let run = run.exited(&mut jobs, Ok(0)).drained(&mut jobs, None);
    let end = run.exit_sent(&mut jobs, &logger(), 999);
    assert_eq!(
        end.log.unwrap().text,
        "COMMAND_COMPLETED {job_id=1, exit_code=0, duration_ms=0}"
    );
}

#[test]
fn launch_that_fails() {
    let (mut jobs, run) = starting();
    let end = run.launch_failed(
        &mut jobs,
        &logger(),
        Error::ProcessLaunchFailed("CreateProcessW: not found".to_string()),
    );
    match end.send.as_ref().unwrap() {
        Outgoing::Error(p) => {
            assert_eq!(p.job_id, Some(1));
            assert_eq!(p.error_code, 1);
            assert_eq!(p.error_message, "Process launch failed: CreateProcessW: not found");
        }
        _ => panic!("an error was expected"),
    }
    assert_eq!(
        end.log.as_ref().unwrap().text,
        "COMMAND_FAILED {job_id=1, error_code=1, error_message=Process launch failed: CreateProcessW: not found}"
    );
    assert_eq!(error_text(&end), "Process launch failed: CreateProcessW: not found");
    let left = end.released.unwrap();
    assert_eq!(left.process_handle, None);
    assert_eq!(left.state, JobState::Failed);
    assert!(end.close.is_empty());
    end.finish(&mut jobs);
    assert!(jobs.get_job(1).is_none());
}

#[test]
fn pipes_that_fail() {
    let (mut jobs, run) = starting();
    let e = Error::Service("Failed to create pipe: x".to_string());
    let end = run.launch_failed(&mut jobs, &logger(), e);
    match end.send.as_ref().unwrap() {
        Outgoing::Error(p) => {
            assert_eq!((p.job_id, p.error_code), (Some(1), 1));
            assert_eq!(p.error_message, "Service error: Failed to create pipe: x");
        }
        _ => panic!("an error was expected"),
    }
    assert_eq!(
        end.log.as_ref().unwrap().text,
        "COMMAND_FAILED {job_id=1, error_code=1, error_message=Service error: Failed to create pipe: x}"
    );
    assert_eq!(end.released.unwrap().state, JobState::Failed);
    assert_eq!(error_text(&end), "Service error: Failed to create pipe: x");
    end.finish(&mut jobs);
    assert!(jobs.get_job(1).is_none());
}

#[test]
fn canceled_during_launch() {
    let (mut jobs, run) = starting();
    jobs.cancel_job(1, "test").unwrap();
    let end = match run.launched(&mut jobs, PROCESS).next {
        Ok(_) => panic!("the run should end"),
        Err(end) => end,
    };
    assert_eq!(end.close, vec![105, 103, 104]);
    let left = end.released.as_ref().unwrap();
    assert_eq!((left.process_handle, left.job_object), (Some(100), Some(102)));
    assert_eq!(
        error_text(&end),
        "Invalid state transition: Job 1: cannot transition from Canceled to Running"
    );
    end.finish(&mut jobs);
    assert!(jobs.get_job(1).is_none());
}

#[test]
fn gone_during_launch() {
    let (mut jobs, run) = starting();
    jobs.force_cleanup_all();
    let end = match run.launched(&mut jobs, PROCESS).next {
        Ok(_) => panic!("the run should end"),
        Err(end) => end,
    };
    assert_eq!(end.close, vec![100, 102, 105, 103, 104]);
    assert!(end.released.is_none());
    assert_eq!(error_text(&end), "Job not found: 1");
}

#[test]
fn status_that_cannot_be_sent() {
    let (mut jobs, run) = starting();
    let run = match run.launched(&mut jobs, PROCESS).next {
        Ok(run) => run,
        Err(_) => panic!("the run should go on"),
    };
    let end = run.status_failed(&mut jobs, "channel closed");
    assert_eq!(end.close, vec![105, 103, 104]);
    assert_eq!(error_text(&end), "Protocol error: Failed to send STATUS: channel closed");
    assert_eq!(end.released.unwrap().process_handle, Some(100));
}

#[test]
fn canceled_run() {
    let (mut jobs, run) = monitored();
    jobs.cancel_job(1, "test").unwrap();
    let run = run.exited(&mut jobs, Err(Error::ProcessLaunchFailed("Wait cancelled".to_string())));
    assert_eq!(run.exit_code, -1);
    let run = run.drained(&mut jobs, None);
    assert_eq!(state(&jobs), JobState::Canceled);
    let end = run.exit_sent(&mut jobs, &logger(), 1001);
    assert!(end.result.is_ok());
    assert_eq!(end.released.unwrap().state, JobState::Canceled);
    end.finish(&mut jobs);
    assert!(jobs.get_job(1).is_none());
}

#[test]
fn timed_out_run() {
    let (mut jobs, run) = monitored();
    CancellationManager::expire(&mut jobs, &logger(), 1);
    assert_eq!(state(&jobs), JobState::TimedOut);
    let run = run.exited(&mut jobs, Err(Error::ProcessLaunchFailed("Wait cancelled".to_string())));
    assert_eq!(run.exit_code, 1);
    run.drained(&mut jobs, None);
    assert_eq!(state(&jobs), JobState::TimedOut);
}

#[test]
fn gone_during_run() {
    let (mut jobs, run) = monitored();
    jobs.force_cleanup_all();
    let run = run.exited(&mut jobs, Err(Error::JobNotFound(1)));
    assert_eq!(run.exit_code, -1);
    assert!(!run.stdout_pump && !run.stderr_pump);
    let end = run.drained(&mut jobs, None).exit_sent(&mut jobs, &logger(), 1001);
    assert!(end.released.is_none());
}

fn running(timeout: Option<u64>) -> JobHandle {
    let mut jobs = JobManager::new(1);
    jobs.create_job(timeout, 0).unwrap();
    jobs.transition_state(1, JobState::Starting).unwrap();
    jobs.transition_state(1, JobState::Running).unwrap();
    jobs.get_job(1).unwrap()
}

#[test]
fn timeout_monitor() {
    let job = running(Some(3000));
    let step = CancellationManager::monitor_timeout;
    assert_eq!(step(Some(job), 0), MonitorStep::Wait(1000));
    assert_eq!(step(Some(job), 2999), MonitorStep::Wait(1000));
    assert_eq!(step(Some(job), 3000), MonitorStep::Expire);
    assert_eq!(step(None, 3000), MonitorStep::Stop);
    assert_eq!(step(Some(running(None)), 9999), MonitorStep::Stop);
    assert_eq!(step(Some(JobHandle { cancelled: true, ..job }), 3000), MonitorStep::Stop);
    assert_eq!(
        step(Some(JobHandle { state: JobState::Completed, ..job }), 3000),
        MonitorStep::Stop
    );
}

#[test]
fn expiry() {
    let (mut jobs, _) = monitored();
    let expired = CancellationManager::expire(&mut jobs, &logger(), 1).unwrap();
    match expired.step {
        TerminateStep::TerminateJobObject(h, code) => assert_eq!((h, code), (102, 1)),
        _ => panic!("the job object is to be terminated"),
    }
    assert_eq!(expired.log.unwrap().text, "COMMAND_CANCELED {job_id=1, reason=timeout}");
    let job = jobs.get_job(1).unwrap();
    assert!(job.cancelled);
    assert_eq!(job.state, JobState::TimedOut);
    assert!(CancellationManager::expire(&mut jobs, &logger(), 9).is_none());
}

#[test]
fn expiry_of_a_job_without_a_process() {
    let (mut jobs, _) = starting();
    let expired = CancellationManager::expire(&mut jobs, &logger(), 1).unwrap();
    assert!(matches!(expired.step, TerminateStep::Done(Ok(()))));
    assert!(expired.log.is_none());
    let job = jobs.get_job(1).unwrap();
    assert!(job.cancelled);
    assert_eq!(job.state, JobState::Starting);
}

#[test]
fn termination() {
    let next = CancellationManager::next_step;
    match next(Some(5), TerminateEvent::JobObjectTerminated(true)) {
        TerminateStep::WaitForExit(h, ms) => assert_eq!((h, ms), (5, 5000)),
        _ => panic!("the process should be waited for"),
    }
    assert!(matches!(
        next(None, TerminateEvent::JobObjectTerminated(true)),
        TerminateStep::Done(Ok(()))
    ));
    match next(Some(5), TerminateEvent::JobObjectTerminated(false)) {
        TerminateStep::TerminateProcess(h, code) => assert_eq!((h, code), (5, 1)),
        _ => panic!("the process should be terminated"),
    }
    assert!(matches!(
        next(None, TerminateEvent::JobObjectTerminated(false)),
        TerminateStep::Done(Ok(()))
    ));
    assert!(matches!(
        next(Some(5), TerminateEvent::ExitAwaited(true)),
        TerminateStep::Done(Ok(()))
    ));
    assert!(matches!(
        next(Some(5), TerminateEvent::ExitAwaited(false)),
        TerminateStep::TerminateProcess(5, 1)
    ));
    assert!(matches!(
        next(Some(5), TerminateEvent::ProcessTerminated(Ok(()))),
        TerminateStep::Done(Ok(()))
    ));
    match next(Some(5), TerminateEvent::ProcessTerminated(Err("denied".to_string()))) {
        TerminateStep::Done(Err(e)) => {
            assert_eq!(e.message(), "Process launch failed: TerminateProcess failed: denied")
        }
        _ => panic!("an error was expected"),
    }
}

#[test]
fn terminating_without_a_job_object() {
    let mut jobs = JobManager::new(1);
    jobs.create_job(None, 0).unwrap();
    assert!(matches!(
        CancellationManager::terminate_job(&mut jobs, 1),
        Some(TerminateStep::Done(Ok(())))
    ));
    assert!(jobs.get_job(1).unwrap().cancelled);
    assert!(CancellationManager::terminate_job(&mut jobs, 2).is_none());
}

#[test]
fn exit_polling() {
    let step = CancellationManager::wait_for_exit_timeout;
    assert!(matches!(step(5000, PollEvent::Elapsed(4999)), PollStep::Look));
    match step(5000, PollEvent::Elapsed(5000)) {
        PollStep::Done(Err(e)) => {
            assert_eq!(e.message(), "Process launch failed: Process did not exit within timeout")
        }
        _ => panic!("an error was expected"),
    }
    assert!(matches!(step(5000, PollEvent::Looked(WAIT_OBJECT_0)), PollStep::Done(Ok(()))));
    assert!(matches!(step(5000, PollEvent::Looked(WAIT_TIMEOUT)), PollStep::Sleep(100)));
}

fn wait_result(event: WaitEvent) -> Result<i32, String> {
    match CancellationManager::wait_for_process_exit(event) {
        WaitStep::Done(r) => r.map_err(|e| e.message()),
        WaitStep::Again => panic!("a result was expected"),
    }
}

#[test]
fn waiting_for_exit() {
    assert_eq!(wait_result(WaitEvent::Waited(0, Some(7))), Ok(7));
    assert_eq!(wait_result(WaitEvent::Waited(0, Some(0xC000_0005))), Ok(-1073741819));
    assert_eq!(wait_result(WaitEvent::Waited(0, Some(u32::MAX))), Ok(-1));
    assert_eq!(wait_result(WaitEvent::Waited(0, Some(0x7FFF_FFFF))), Ok(i32::MAX));
    assert_eq!(wait_result(WaitEvent::Waited(0, None)), Ok(-1));
    assert!(matches!(
        CancellationManager::wait_for_process_exit(WaitEvent::Waited(WAIT_TIMEOUT, None)),
        WaitStep::Again
    ));
    assert_eq!(
        wait_result(WaitEvent::Waited(u32::MAX, None)).unwrap_err(),
        "Process launch failed: WaitForSingleObject failed with code: WAIT_EVENT(4294967295)"
    );
    assert_eq!(
        wait_result(WaitEvent::TaskFailed("panic".to_string())).unwrap_err(),
        "Process launch failed: Wait task failed: panic"
    );
    assert_eq!(
        wait_result(WaitEvent::Cancelled).unwrap_err(),
        "Process launch failed: Wait cancelled"
    );
}
