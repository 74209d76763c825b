use virima_remote_agent::job_manager::{JobManager, JobState, ReleasedJob};
use virima_remote_agent::Error;

const STATES: [JobState; 8] = [
    JobState::Created,
    JobState::Starting,
    JobState::Running,
    JobState::Exiting,
    JobState::Completed,
    JobState::Failed,
    JobState::Canceled,
    JobState::TimedOut,
];

fn message_of<T>(r: Result<T, Error>) -> String {
    match r {
        Ok(_) => panic!("an error was expected"),
        Err(e) => e.message(),
    }
}

#[test]
fn transitions() {
    let allowed = [
        (JobState::Created, JobState::Starting),
        (JobState::Created, JobState::Canceled),
        (JobState::Starting, JobState::Running),
        (JobState::Starting, JobState::Failed),
        (JobState::Starting, JobState::Canceled),
        (JobState::Running, JobState::Exiting),
        (JobState::Running, JobState::Canceled),
        (JobState::Running, JobState::TimedOut),
        (JobState::Running, JobState::Failed),
        (JobState::Exiting, JobState::Completed),
        (JobState::Exiting, JobState::Failed),
        (JobState::Exiting, JobState::Canceled),
    ];
    for from in STATES {
        for to in STATES {
            assert_eq!(from.can_transition_to(&to), allowed.contains(&(from, to)));
        }
    }
}

#[test]
fn terminal_states_are_final() {
    for s in STATES {
        let leads_on = STATES.iter().any(|t| s.can_transition_to(t));
        assert_eq!(s.is_terminal(), !leads_on);
        assert_eq!(s.can_transition_to(&JobState::Canceled), !s.is_terminal());
    }
}

#[test]
fn created_job() {
    let mut m = JobManager::new(2);
    let job = m.create_job(Some(1500), 7).unwrap();
    assert_eq!(job.job_id, 1);
    assert_eq!(job.state, JobState::Created);
    assert_eq!(job.timeout, Some(1500));
    assert_eq!(job.start_time, 7);
    assert_eq!(job.last_activity, 7);
    assert_eq!(job.process_handle, None);
    assert_eq!(job.job_object, None);
    assert!(!job.cancelled && !job.stdout_pump && !job.stderr_pump);
    assert_eq!(m.get_job(1).unwrap().state, JobState::Created);
    assert!(m.get_job(2).is_none());
    assert_eq!(m.create_job(None, 8).unwrap().job_id, 2);
    assert_eq!(m.job_count(), 2);
}

#[test]
fn registry_limit() {
    let mut m = JobManager::new(1);
    m.create_job(None, 0).unwrap();
    assert_eq!(
        message_of(m.create_job(None, 0)),
        "Service error: Maximum concurrent jobs (1) reached"
    );
    m.cleanup_job(1).unwrap();
    assert_eq!(m.create_job(None, 0).unwrap().job_id, 2);
    let mut none = JobManager::new(0);
    assert_eq!(
        message_of(none.create_job(None, 0)),
        "Service error: Maximum concurrent jobs (0) reached"
    );
}

#[test]
fn transition_state() {
    let mut m = JobManager::new(1);
    let id = m.create_job(None, 0).unwrap().job_id;
    assert_eq!(m.transition_state(id, JobState::Starting).unwrap(), JobState::Created);
    assert_eq!(m.get_job(id).unwrap().state, JobState::Starting);
    assert_eq!(
        message_of(m.transition_state(id, JobState::Completed)),
        "Invalid state transition: Job 1: cannot transition from Starting to Completed"
    );
    assert_eq!(m.get_job(id).unwrap().state, JobState::Starting);
    assert_eq!(message_of(m.transition_state(9, JobState::Failed)), "Job not found: 9");
}

#[test]
fn cancel() {
    let mut m = JobManager::new(2);
    let a = m.create_job(None, 0).unwrap().job_id;
    let b = m.create_job(None, 0).unwrap().job_id;
    m.cancel_job(a, "test").unwrap();
    let job = m.get_job(a).unwrap();
    assert_eq!(job.state, JobState::Canceled);
    assert!(job.cancelled);
    assert_eq!(m.get_job(b).unwrap().state, JobState::Created);
    m.cancel_job(a, "again").unwrap();
    assert_eq!(m.get_job(a).unwrap().state, JobState::Canceled);
    assert_eq!(message_of(m.cancel_job(77, "test")), "Job not found: 77");
}

#[test]
fn cancel_leaves_ended_jobs_alone() {
    let mut m = JobManager::new(1);
    let id = m.create_job(None, 0).unwrap().job_id;
    m.transition_state(id, JobState::Starting).unwrap();
    m.transition_state(id, JobState::Failed).unwrap();
    m.cancel_job(id, "test").unwrap();
    let job = m.get_job(id).unwrap();
    assert_eq!(job.state, JobState::Failed);
    assert!(!job.cancelled);
}

#[test]
fn cleanup() {
    let mut m = JobManager::new(1);
    let id = m.create_job(None, 0).unwrap().job_id;
    m.attach_process(id, 40, 41).unwrap();
    m.attach_pumps(id).unwrap();
    let left = m.begin_cleanup(id).unwrap();
    assert_eq!(left.job_id, id);
    assert!(left.stop);
    assert_eq!(left.state, JobState::Created);
    assert_eq!(left.process_handle, Some(40));
    assert_eq!(left.job_object, Some(41));
    assert!(left.stdout_pump && left.stderr_pump);
    let job = m.get_job(id).unwrap();
    assert!(job.cancelled);
    assert_eq!((job.process_handle, job.job_object), (None, None));
    let left = m.cleanup_job(id).unwrap();
    assert!(left.stop);
    assert_eq!((left.process_handle, left.job_object), (None, None));
    assert!(!left.stdout_pump && !left.stderr_pump);
    assert!(!m.has_active_jobs());
    assert_eq!(message_of(m.cleanup_job(id)), "Job not found: 1");
    assert_eq!(message_of(m.begin_cleanup(id)), "Job not found: 1");
    assert_eq!(message_of(m.attach_process(id, 1, 2)), "Job not found: 1");
    assert_eq!(message_of(m.attach_pumps(id)), "Job not found: 1");
    assert_eq!(message_of(m.record_activity(id, 1)), "Job not found: 1");
    assert_eq!(m.take_pumps(id), (false, false));
    assert!(m.signal_stop(id).is_none());
}

#[test]
fn pumps_are_taken_once() {
    let mut m = JobManager::new(1);
    let id = m.create_job(None, 0).unwrap().job_id;
    m.attach_pumps(id).unwrap();
    assert_eq!(m.take_pumps(id), (true, true));
    assert_eq!(m.take_pumps(id), (false, false));
    let job = m.signal_stop(id).unwrap();
    assert!(job.cancelled);
    assert_eq!(job.state, JobState::Created);
}

#[test]
fn force_cleanup() {
    let mut m = JobManager::new(3);
    for handle in [10, 20, 30] {
        let id = m.create_job(None, 0).unwrap().job_id;
        m.attach_process(id, handle, handle + 1).unwrap();
    }
    let mut ids = m.list_active_jobs();
    ids.sort();
    assert_eq!(ids, vec![1, 2, 3]);
    assert!(m.has_active_jobs());
    let handles = |list: Vec<ReleasedJob>| -> Vec<isize> {
        assert_eq!(list.len(), 3);
        assert!(list.iter().all(|left| left.stop));
        let mut handles: Vec<isize> =
            list.iter().flat_map(|left| [left.process_handle, left.job_object]).flatten().collect();
        handles.sort();
        handles
    };
    assert_eq!(handles(m.begin_cleanup_all()), vec![10, 11, 20, 21, 30, 31]);
    assert_eq!(m.job_count(), 3);
    assert!(m.get_job(2).unwrap().cancelled);
    assert!(handles(m.force_cleanup_all()).is_empty());
    assert_eq!(m.job_count(), 0);
    assert!(!m.has_active_jobs());
}

#[test]
fn force_cleanup_gives_everything_out() {
    let mut m = JobManager::new(2);
    m.create_job(None, 0).unwrap();
    m.create_job(None, 0).unwrap();
    m.attach_process(2, 5, 6).unwrap();
    m.cancel_job(2, "test").unwrap();
    let mut left = m.force_cleanup_all();
    left.sort_by_key(|l| l.job_id);
    assert!(left[0].stop && left[1].stop);
    assert_eq!(left[1].state, JobState::Canceled);
    assert_eq!((left[1].process_handle, left[1].job_object), (Some(5), Some(6)));
    assert!(!m.has_active_jobs());
}

#[test]
fn idle_jobs_leave() {
    let mut m = JobManager::new(3);
    let old = m.create_job(None, 0).unwrap().job_id;
    let heard_of = m.create_job(None, 0).unwrap().job_id;
    m.record_activity(heard_of, 500).unwrap();
    let left = m.cleanup_idle_jobs(1000, 1000, 400);
    assert_eq!(left.len(), 1);
    assert_eq!(left[0].job_id, old);
    assert!(left[0].stop);
    assert!(m.get_job(old).unwrap().cancelled);
    m.cleanup_job(old).unwrap();
    assert!(!m.get_job(heard_of).unwrap().cancelled);
    assert!(m.cleanup_idle_jobs(1499, 1000, 400).is_empty());
    assert_eq!(m.cleanup_idle_jobs(1500, 1000, 400).len(), 1);
}

#[test]
fn ended_jobs_leave_when_it_is_quiet() {
    let mut m = JobManager::new(2);
    let ended = m.create_job(None, 100).unwrap().job_id;
    m.cancel_job(ended, "test").unwrap();
    let going = m.create_job(None, 100).unwrap().job_id;
    assert!(m.cleanup_idle_jobs(299, 10_000, 200).is_empty());
    let left = m.cleanup_idle_jobs(300, 10_000, 200);
    assert_eq!(left.len(), 1);
    assert_eq!(left[0].job_id, ended);
    m.cleanup_job(ended).unwrap();
    assert!(!m.get_job(going).unwrap().cancelled);
    assert!(m.cleanup_idle_jobs(50, 10, 10).is_empty());
}

#[test]
fn state_names() {
    let names: Vec<&str> = STATES.iter().map(|s| s.name()).collect();
    assert_eq!(
        names,
        vec![
            "Created",
            "Starting",
            "Running",
            "Exiting",
            "Completed",
            "Failed",
            "Canceled",
            "TimedOut"
        ]
    );
}

#[test]
fn error_texts() {
    let texts: Vec<String> = vec![
        Error::Windows("a".to_string()),
        Error::Io("a".to_string()),
        Error::Protocol("a".to_string()),
        Error::JobNotFound(12),
        Error::JobExists(4294967295),
        Error::InvalidStateTransition("a".to_string()),
        Error::AuthorizationFailed("a".to_string()),
        Error::ProcessLaunchFailed("a".to_string()),
        Error::Serialization("a".to_string()),
        Error::Service("a".to_string()),
    ]
    .iter()
    .map(|e| e.message())
    .collect();
    assert_eq!(
        texts,
        vec![
            "Windows error: a",
            "IO error: a",
            "Protocol error: a",
            "Job not found: 12",
            "Job already exists: 4294967295",
            "Invalid state transition: a",
            "Authorization failed: a",
            "Process launch failed: a",
            "Serialization error: a",
            "Service error: a",
        ]
    );
}
