//! Jobs, their states and their registry.
use vstd::prelude::*;

use crate::error::{Error, ErrorView, Result};
use crate::job_table;
use crate::job_table::JobTable;
use crate::text;

verus! {

#[derive(Debug, Clone, Copy, PartialEq, Eq, Structural)]
pub enum JobState {
    /// The job has an id and has not been started.
    Created,
    /// Its process is being launched.
    Starting,
    /// Its process runs.
    Running,
    /// Its process has exited and the last output is being sent.
    Exiting,
    Completed,
    Failed,
    Canceled,
    TimedOut,
}

/// Whether a job may change from `from` to `to`.
pub open spec fn may_follow(from: JobState, to: JobState) -> bool {
    match from {
        JobState::Created => to is Starting || to is Canceled,
        JobState::Starting => to is Running || to is Failed || to is Canceled,
        JobState::Running => to is Exiting || to is Canceled || to is TimedOut || to is Failed,
        JobState::Exiting => to is Completed || to is Failed || to is Canceled,
        _ => false,
    }
}

/// A job in this state has ended.
pub open spec fn terminal(s: JobState) -> bool {
    s is Completed || s is Failed || s is Canceled || s is TimedOut
}

/// The name of a state.
pub open spec fn state_name(s: JobState) -> Seq<char> {
    match s {
        JobState::Created => "Created"@,
        JobState::Starting => "Starting"@,
        JobState::Running => "Running"@,
        JobState::Exiting => "Exiting"@,
        JobState::Completed => "Completed"@,
        JobState::Failed => "Failed"@,
        JobState::Canceled => "Canceled"@,
        JobState::TimedOut => "TimedOut"@,
    }
}

impl JobState {
    /// Whether a job in this state may change to `new_state`.
    pub fn can_transition_to(&self, new_state: &JobState) -> (b: bool)
        ensures
            b == may_follow(*self, *new_state),
    {
        match (*self, *new_state) {
            (JobState::Created, JobState::Starting) => true,
            (JobState::Starting, JobState::Running) => true,
            (JobState::Starting, JobState::Failed) => true,
            (JobState::Running, JobState::Exiting) => true,
            (JobState::Running, JobState::Canceled) => true,
            (JobState::Running, JobState::TimedOut) => true,
            (JobState::Running, JobState::Failed) => true,
            (JobState::Exiting, JobState::Completed) => true,
            (JobState::Exiting, JobState::Failed) => true,
            // Any job that has not ended can be canceled.
            (JobState::Created, JobState::Canceled) => true,
            (JobState::Starting, JobState::Canceled) => true,
            (JobState::Exiting, JobState::Canceled) => true,
            _ => false,
        }
    }

    /// Whether a job in this state has ended.
    pub fn is_terminal(&self) -> (b: bool)
        ensures
            b == terminal(*self),
    {
        matches!(
            *self,
            JobState::Completed | JobState::Failed | JobState::Canceled | JobState::TimedOut
        )
    }

    /// The name of the state.
    pub fn name(&self) -> (s: &'static str)
        ensures
            s@ == state_name(*self),
    {
        match self {
            JobState::Created => "Created",
            JobState::Starting => "Starting",
            JobState::Running => "Running",
            JobState::Exiting => "Exiting",
            JobState::Completed => "Completed",
            JobState::Failed => "Failed",
            JobState::Canceled => "Canceled",
            JobState::TimedOut => "TimedOut",
        }
    }
}

/// A job. Handles are the system's raw handle values; times are milliseconds of one clock.
#[derive(Debug, Clone, Copy)]
pub struct JobHandle {
    pub job_id: u32,
    pub state: JobState,
    /// The job's process, once it is launched.
    pub process_handle: Option<isize>,
    /// The system's job object that holds the process and its children.
    pub job_object: Option<isize>,
    /// Whether a task copies the process's standard output.
    pub stdout_pump: bool,
    /// Whether a task copies the process's standard error.
    pub stderr_pump: bool,
    /// Whether the job's workers have been told to stop.
    pub cancelled: bool,
    pub start_time: u64,
    /// When the job was last heard of.
    pub last_activity: u64,
    /// How long the job may run, in milliseconds.
    pub timeout: Option<u64>,
}

/// What a job that is cleaned up leaves behind: workers to stop, pumps to wait for and handles to
/// close.
#[derive(Debug, Clone, Copy)]
pub struct ReleasedJob {
    pub job_id: u32,
    /// The state that the job is in.
    pub state: JobState,
    /// The job's workers are to be told to stop.
    pub stop: bool,
    pub stdout_pump: bool,
    pub stderr_pump: bool,
    pub process_handle: Option<isize>,
    pub job_object: Option<isize>,
}

/// The registry of jobs.
pub struct JobManager {
    jobs: JobTable,
    next_job_id: u32,
    max_concurrent_jobs: usize,
    last_activity: u64,
}

/// A job as it is when it is created.
pub open spec fn created_job(job_id: u32, timeout: Option<u64>, now: u64) -> JobHandle {
    JobHandle {
        job_id,
        state: JobState::Created,
        process_handle: None,
        job_object: None,
        stdout_pump: false,
        stderr_pump: false,
        cancelled: false,
        start_time: now,
        last_activity: now,
        timeout,
    }
}

/// The id that a counter at `next` gives out: 0 stands for no job and is passed over.
pub open spec fn id_from(next: u32) -> u32 {
    if next == 0 {
        1
    } else {
        next
    }
}

/// What is said when no more jobs are taken.
pub open spec fn too_many_jobs(max: nat) -> ErrorView {
    ErrorView::Service("Maximum concurrent jobs ("@ + text::decimal(max) + ") reached"@)
}

/// What is said of a change of state that may not be.
pub open spec fn bad_transition(job_id: u32, from: JobState, to: JobState) -> ErrorView {
    ErrorView::InvalidStateTransition(
        "Job "@ + text::decimal(job_id as nat) + ": cannot transition from "@ + state_name(from)
            + " to "@ + state_name(to),
    )
}

/// What `job` leaves behind. Its workers are always told to stop.
pub open spec fn released(job: JobHandle) -> ReleasedJob {
    ReleasedJob {
        job_id: job.job_id,
        state: job.state,
        stop: true,
        stdout_pump: job.stdout_pump,
        stderr_pump: job.stderr_pump,
        process_handle: job.process_handle,
        job_object: job.job_object,
    }
}

impl JobManager {
    /// Every job is registered under its own id, which is not 0, and there are no more jobs than
    /// the registry takes.
    pub open spec fn wf(self) -> bool {
        &&& registry_ok(self.jobs())
        &&& self.jobs().dom().len() <= self.max_jobs()
    }

    /// The jobs in the registry, by their ids.
    pub closed spec fn jobs(self) -> Map<u32, JobHandle> {
        job_table::jobs_in(self.jobs)
    }

    /// Where the counter of ids stands.
    pub closed spec fn next_id(self) -> u32 {
        self.next_job_id
    }

    /// How many jobs the registry takes.
    pub closed spec fn max_jobs(self) -> nat {
        self.max_concurrent_jobs as nat
    }

    /// When any job was last heard of.
    pub closed spec fn active_at(self) -> u64 {
        self.last_activity
    }

    /// Everything but the jobs is as in `other`.
    pub open spec fn same_but_jobs(self, other: JobManager) -> bool {
        &&& self.next_id() == other.next_id()
        &&& self.max_jobs() == other.max_jobs()
        &&& self.active_at() == other.active_at()
    }

    pub fn new(max_concurrent_jobs: usize) -> (m: Self)
        ensures
            m.wf(),
            m.jobs() == Map::<u32, JobHandle>::empty(),
            m.next_id() == 1,
            m.max_jobs() == max_concurrent_jobs,
            m.active_at() == 0,
    {
        JobManager {
            jobs: job_table::empty_table(),
            next_job_id: 1,
            max_concurrent_jobs,
            last_activity: 0,
        }
    }

    /// Registers a job with a fresh id, at the time `now`.
    pub fn create_job(&mut self, timeout: Option<u64>, now: u64) -> (r: Result<JobHandle>)
        requires
            old(self).wf(),
        ensures
            final(self).wf(),
            final(self).max_jobs() == old(self).max_jobs(),
            old(self).jobs().dom().len() >= old(self).max_jobs() ==> {
                &&& r matches Err(e) && e@ == too_many_jobs(old(self).max_jobs())
                &&& final(self).jobs() == old(self).jobs()
                &&& final(self).same_but_jobs(*old(self))
            },
            old(self).jobs().dom().len() < old(self).max_jobs() ==> {
                let id = id_from(old(self).next_id());
                &&& final(self).next_id() == id.wrapping_add(1)
                &&& if old(self).jobs().contains_key(id) {
                    &&& r matches Err(e) && e@ == ErrorView::JobExists(id)
                    &&& final(self).jobs() == old(self).jobs()
                    &&& final(self).active_at() == old(self).active_at()
                } else {
                    &&& r == Ok::<JobHandle, Error>(created_job(id, timeout, now))
                    &&& final(self).jobs() == old(self).jobs().insert(
                        id,
                        created_job(id, timeout, now),
                    )
                    &&& final(self).active_at() == now
                }
            },
    {
        if job_table::table_len(&self.jobs) >= self.max_concurrent_jobs {
            let mut m = "Maximum concurrent jobs (".to_owned();
            m.append(text::decimal_text(self.max_concurrent_jobs as u64).as_str());
            m.append(") reached");
            return Err(Error::Service(m));
        }
        let mut job_id: u32 = self.next_job_id;
        self.next_job_id = job_id.wrapping_add(1);
        if job_id == 0 {
            // The counter has wrapped around.
            job_id = self.next_job_id;
            self.next_job_id = job_id.wrapping_add(1);
        }
        if job_table::table_contains(&self.jobs, job_id) {
            return Err(Error::JobExists(job_id));
        }
        let job = JobHandle {
            job_id,
            state: JobState::Created,
            process_handle: None,
            job_object: None,
            stdout_pump: false,
            stderr_pump: false,
            cancelled: false,
            start_time: now,
            last_activity: now,
            timeout,
        };
        self.put(job);
        self.last_activity = now;
        Ok(job)
    }

    /// Sets the entry of `job`'s id to `job`.
    fn put(&mut self, job: JobHandle)
        requires
            old(self).wf(),
            job.job_id != 0,
            old(self).jobs().contains_key(job.job_id) || old(self).jobs().dom().len() < old(
                self,
            ).max_jobs(),
        ensures
            final(self).wf(),
            final(self).jobs() == old(self).jobs().insert(job.job_id, job),
            final(self).same_but_jobs(*old(self)),
    {
        job_table::table_insert(&mut self.jobs, job.job_id, job);
        assert(self.jobs().dom() =~= old(self).jobs().dom().insert(job.job_id));
    }

    /// The job of this id.
    pub fn get_job(&self, job_id: u32) -> (r: Option<JobHandle>)
        ensures
            r == (if self.jobs().contains_key(job_id) {
                Some(self.jobs()[job_id])
            } else {
                None
            }),
    {
        job_table::table_get(&self.jobs, job_id)
    }

    /// Changes the state of a job, and gives the state that it had.
    pub fn transition_state(&mut self, job_id: u32, new_state: JobState) -> (r: Result<JobState>)
        requires
            old(self).wf(),
        ensures
            final(self).wf(),
            final(self).same_but_jobs(*old(self)),
            r is Ok <==> old(self).jobs().contains_key(job_id) && may_follow(
                old(self).jobs()[job_id].state,
                new_state,
            ),
            r matches Ok(s) ==> s == old(self).jobs()[job_id].state && final(self).jobs() == old(
                self,
            ).jobs().insert(job_id, in_state(old(self).jobs()[job_id], new_state)),
            r matches Err(e) ==> final(self).jobs() == old(self).jobs() && e@ == (if old(
                self,
            ).jobs().contains_key(job_id) {
                bad_transition(job_id, old(self).jobs()[job_id].state, new_state)
            } else {
                ErrorView::JobNotFound(job_id)
            }),
    {
        let job = match self.get_job(job_id) {
            Some(job) => job,
            None => return Err(Error::JobNotFound(job_id)),
        };
        let old_state = job.state;
        if !old_state.can_transition_to(&new_state) {
            let mut m = "Job ".to_owned();
            m.append(text::decimal_text(job_id as u64).as_str());
            m.append(": cannot transition from ");
            m.append(old_state.name());
            m.append(" to ");
            m.append(new_state.name());
            return Err(Error::InvalidStateTransition(m));
        }
        self.put(JobHandle { state: new_state, ..job });
        Ok(old_state)
    }

    /// Cancels a job: its workers are told to stop, and it is `Canceled` from now on. A job that
    /// has ended stays as it is. The reason is for the caller's log.
    pub fn cancel_job(&mut self, job_id: u32, _reason: &str) -> (r: Result<()>)
        requires
            old(self).wf(),
        ensures
            final(self).wf(),
            final(self).same_but_jobs(*old(self)),
            r is Ok <==> old(self).jobs().contains_key(job_id),
            r matches Err(e) ==> e@ == ErrorView::JobNotFound(job_id),
            final(self).jobs() == jobs_after_cancel(old(self).jobs(), job_id),
            old(self).jobs().contains_key(job_id) && (old(self).jobs()[job_id].state is Created
                || old(self).jobs()[job_id].state is Starting || old(self).jobs()[job_id].state
                is Running || old(self).jobs()[job_id].state is Exiting)
                ==> final(self).jobs()[job_id].cancelled && final(self).jobs()[job_id].state
                is Canceled,
    {
        let job = match self.get_job(job_id) {
            Some(job) => job,
            None => return Err(Error::JobNotFound(job_id)),
        };
        if job.state.is_terminal() {
            return Ok(());
        }
        self.put(JobHandle { cancelled: true, ..job });
        let _ = self.transition_state(job_id, JobState::Canceled);
        assert(self.jobs() =~= old(self).jobs().insert(job_id, canceled_job(job)));
        Ok(())
    }

    /// Starts to clean a job up: its workers are told to stop, and its pumps and handles are given
    /// out, for the pumps to be waited for and the handles to be closed. When that is done, the job
    /// is to leave the registry with `cleanup_job`.
    pub fn begin_cleanup(&mut self, job_id: u32) -> (r: Result<ReleasedJob>)
        requires
            old(self).wf(),
        ensures
            final(self).wf(),
            final(self).same_but_jobs(*old(self)),
            r is Ok <==> old(self).jobs().contains_key(job_id),
            r matches Err(e) ==> e@ == ErrorView::JobNotFound(job_id),
            r matches Ok(left) ==> left == released(old(self).jobs()[job_id]),
            final(self).jobs() == stopped(old(self).jobs(), job_id),
    {
        let job = match self.get_job(job_id) {
            Some(job) => job,
            None => return Err(Error::JobNotFound(job_id)),
        };
        self.put(
            JobHandle {
                cancelled: true,
                stdout_pump: false,
                stderr_pump: false,
                process_handle: None,
                job_object: None,
                ..job
            },
        );
        Ok(Self::left_behind(job))
    }

    fn left_behind(job: JobHandle) -> (left: ReleasedJob)
        ensures
            left == released(job),
    {
        ReleasedJob {
            job_id: job.job_id,
            state: job.state,
            stop: true,
            stdout_pump: job.stdout_pump,
            stderr_pump: job.stderr_pump,
            process_handle: job.process_handle,
            job_object: job.job_object,
        }
    }

    /// Takes a job out of the registry, and gives what it still leaves behind: its workers are to
    /// be told to stop, the pumps waited for, and the handles closed.
    pub fn cleanup_job(&mut self, job_id: u32) -> (r: Result<ReleasedJob>)
        requires
            old(self).wf(),
        ensures
            final(self).wf(),
            final(self).same_but_jobs(*old(self)),
            r is Ok <==> old(self).jobs().contains_key(job_id),
            r matches Err(e) ==> e@ == ErrorView::JobNotFound(job_id),
            r matches Ok(left) ==> left == released(old(self).jobs()[job_id]) && left.stop,
            final(self).jobs() == old(self).jobs().remove(job_id),
    {
        let job = match self.get_job(job_id) {
            Some(job) => job,
            None => {
                assert(self.jobs().remove(job_id) =~= self.jobs());
                return Err(Error::JobNotFound(job_id));
            },
        };
        job_table::table_remove(&mut self.jobs, job_id);
        assert(self.jobs().dom() =~= old(self).jobs().dom().remove(job_id));
        Ok(Self::left_behind(job))
    }

    /// Starts to clean the jobs of `ids` up.
    fn begin_cleanup_jobs(&mut self, ids: &Vec<u32>) -> (left: Vec<ReleasedJob>)
        requires
            old(self).wf(),
            ids@.no_duplicates(),
            forall|i: int| 0 <= i < ids@.len() ==> old(self).jobs().contains_key(#[trigger] ids@[i]),
        ensures
            final(self).wf(),
            final(self).same_but_jobs(*old(self)),
            final(self).jobs() == all_stopped(old(self).jobs(), ids@.to_set()),
            all_released(left@, old(self).jobs(), ids@.to_set()),
    {
        let mut left: Vec<ReleasedJob> = Vec::new();
        let mut i: usize = 0;
        let ghost before = self.jobs();
        while i < ids.len()
            invariant
                i <= ids@.len(),
                self.wf(),
                self.same_but_jobs(*old(self)),
                registry_ok(before),
                ids@.no_duplicates(),
                forall|j: int| 0 <= j < ids@.len() ==> before.contains_key(#[trigger] ids@[j]),
                self.jobs().dom() == before.dom(),
                forall|id: u32|
                    #[trigger] self.jobs().contains_key(id) ==> self.jobs()[id] == (
                    if ids@.take(i as int).contains(id) {
                        stopping(before[id])
                    } else {
                        before[id]
                    }),
                left@.len() == i,
                forall|j: int| 0 <= j < i ==> #[trigger] left@[j] == released(before[ids@[j]]),
            decreases ids@.len() - i,
        {
            let id: u32 = ids[i];
            let ghost seen = ids@.take(i as int);
            let ghost earlier = self.jobs();
            assert(!seen.contains(id));
            assert(before.contains_key(ids@[i as int]));
            assert(earlier.contains_key(id));
            assert(ids@.take(i + 1) =~= seen.push(id));
            if let Ok(l) = self.begin_cleanup(id) {
                left.push(l);
            }
            assert(self.jobs().dom() =~= before.dom());
            assert forall|k: u32| #[trigger] self.jobs().contains_key(k) implies self.jobs()[k] == (
            if seen.push(id).contains(k) {
                stopping(before[k])
            } else {
                before[k]
            }) by {
                lemma_push_contains(seen, id, k);
                assert(earlier.contains_key(k));
            }
            i += 1;
        }
        proof {
            assert(ids@.take(i as int) =~= ids@);
            ids@.unique_seq_to_set();
            assert(self.jobs() =~= all_stopped(before, ids@.to_set()));
            assert forall|j: int, k: int| 0 <= j < k < left@.len() implies (#[trigger] left@[j]).job_id
                != (#[trigger] left@[k]).job_id by {
                assert(before.contains_key(ids@[j]));
                assert(before.contains_key(ids@[k]));
            }
            assert forall|j: int| 0 <= j < left@.len() implies ids@.to_set().contains(
                (#[trigger] left@[j]).job_id,
            ) && left@[j] == released(before[left@[j].job_id]) by {
                assert(before.contains_key(ids@[j]));
                assert(ids@.contains(ids@[j]));
            }
        }
        left
    }

    /// Starts to clean every job up.
    pub fn begin_cleanup_all(&mut self) -> (left: Vec<ReleasedJob>)
        requires
            old(self).wf(),
        ensures
            final(self).wf(),
            final(self).same_but_jobs(*old(self)),
            final(self).jobs() == all_stopped(old(self).jobs(), old(self).jobs().dom()),
            all_released(left@, old(self).jobs(), old(self).jobs().dom()),
    {
        let ids = self.list_active_jobs();
        assert forall|i: int| 0 <= i < ids@.len() implies self.jobs().contains_key(
            #[trigger] ids@[i],
        ) by {
            assert(ids@.to_set().contains(ids@[i]));
        }
        self.begin_cleanup_jobs(&ids)
    }

    /// Takes the jobs of `ids` out of the registry.
    fn cleanup_jobs(&mut self, ids: &Vec<u32>) -> (left: Vec<ReleasedJob>)
        requires
            old(self).wf(),
            ids@.no_duplicates(),
            forall|i: int| 0 <= i < ids@.len() ==> old(self).jobs().contains_key(#[trigger] ids@[i]),
        ensures
            final(self).wf(),
            final(self).same_but_jobs(*old(self)),
            final(self).jobs() == old(self).jobs().remove_keys(ids@.to_set()),
            all_released(left@, old(self).jobs(), ids@.to_set()),
    {
        let mut left: Vec<ReleasedJob> = Vec::new();
        let mut i: usize = 0;
        let ghost before = self.jobs();
        while i < ids.len()
            invariant
                i <= ids@.len(),
                self.wf(),
                self.same_but_jobs(*old(self)),
                registry_ok(before),
                ids@.no_duplicates(),
                forall|j: int| 0 <= j < ids@.len() ==> before.contains_key(#[trigger] ids@[j]),
                forall|id: u32|
                    #[trigger] self.jobs().contains_key(id) <==> before.contains_key(id)
                        && !ids@.take(i as int).contains(id),
                forall|id: u32| #[trigger] self.jobs().contains_key(id) ==> self.jobs()[id] == before[id],
                left@.len() == i,
                forall|j: int| 0 <= j < i ==> #[trigger] left@[j] == released(before[ids@[j]]),
            decreases ids@.len() - i,
        {
            let id: u32 = ids[i];
            assert(!ids@.take(i as int).contains(id));
            assert(before.contains_key(ids@[i as int]));
            assert(self.jobs().contains_key(id));
            let ghost earlier = self.jobs();
            let ghost seen = ids@.take(i as int);
            assert(ids@.take(i + 1) =~= seen.push(id));
            if let Ok(l) = self.cleanup_job(id) {
                left.push(l);
            }
            i += 1;
            assert forall|k: u32| #[trigger] self.jobs().contains_key(k) <==> before.contains_key(k)
                && !ids@.take(i as int).contains(k) by {
                if k == id {
                    assert(seen.push(id)[seen.len() as int] == id);
                } else {
                    assert(earlier.contains_key(k) == self.jobs().contains_key(k));
                    if seen.push(id).contains(k) {
                        let w = choose|w: int|
                            0 <= w < seen.push(id).len() && seen.push(id)[w] == k;
                        assert(seen[w] == k);
                    }
                    if seen.contains(k) {
                        let w = choose|w: int| 0 <= w < seen.len() && seen[w] == k;
                        assert(seen.push(id)[w] == k);
                    }
                }
            }
            assert forall|k: u32| #[trigger] self.jobs().contains_key(k) implies self.jobs()[k]
                == before[k] by {
                assert(earlier.contains_key(k));
            }
        }
        proof {
            assert(ids@.take(i as int) =~= ids@);
            assert(self.jobs() =~= before.remove_keys(ids@.to_set()));
            ids@.unique_seq_to_set();
            assert forall|j: int| 0 <= j < left@.len() implies ids@.to_set().contains(
                (#[trigger] left@[j]).job_id,
            ) && left@[j] == released(before[left@[j].job_id]) by {
                assert(before.contains_key(ids@[j]));
                assert(ids@.contains(ids@[j]));
            }
            assert forall|j: int, k: int| 0 <= j < k < left@.len() implies (#[trigger] left@[j]).job_id
                != (#[trigger] left@[k]).job_id by {
                assert(before.contains_key(ids@[j]));
                assert(before.contains_key(ids@[k]));
            }
        }
        left
    }

    /// Takes every job out of the registry.
    pub fn force_cleanup_all(&mut self) -> (left: Vec<ReleasedJob>)
        requires
            old(self).wf(),
        ensures
            final(self).wf(),
            final(self).same_but_jobs(*old(self)),
            final(self).jobs() == job_table::no_jobs(),
            all_released(left@, old(self).jobs(), old(self).jobs().dom()),
    {
        let ids = self.list_active_jobs();
        assert forall|i: int| 0 <= i < ids@.len() implies self.jobs().contains_key(
            #[trigger] ids@[i],
        ) by {
            assert(ids@.to_set().contains(ids@[i]));
        }
        let left = self.cleanup_jobs(&ids);
        assert(self.jobs() =~= job_table::no_jobs());
        left
    }

    /// Starts to clean the jobs up that have been idle for `idle_threshold` milliseconds, and, where
    /// nothing has been heard of any job for `quiet_threshold` milliseconds, those that have ended.
    /// Each of them is to leave the registry with `cleanup_job`.
    pub fn cleanup_idle_jobs(&mut self, now: u64, idle_threshold: u64, quiet_threshold: u64) -> (left:
        Vec<ReleasedJob>)
        requires
            old(self).wf(),
        ensures
            final(self).wf(),
            final(self).same_but_jobs(*old(self)),
            final(self).jobs() == all_stopped(
                old(self).jobs(),
                stale_ids(*old(self), now, idle_threshold, quiet_threshold),
            ),
            all_released(
                left@,
                old(self).jobs(),
                stale_ids(*old(self), now, idle_threshold, quiet_threshold),
            ),
    {
        let quiet = now >= self.last_activity && now - self.last_activity >= quiet_threshold;
        let ids = self.list_active_jobs();
        let mut stale: Vec<u32> = Vec::new();
        let mut i: usize = 0;
        let ghost gone = stale_ids(*self, now, idle_threshold, quiet_threshold);
        while i < ids.len()
            invariant
                i <= ids@.len(),
                *self == *old(self),
                self.wf(),
                quiet == quiet_since(self.active_at(), now, quiet_threshold),
                gone == stale_ids(*self, now, idle_threshold, quiet_threshold),
                ids@.no_duplicates(),
                ids@.to_set() == self.jobs().dom(),
                stale@.no_duplicates(),
                forall|id: u32|
                    #[trigger] stale@.contains(id) <==> ids@.take(i as int).contains(id)
                        && gone.contains(id),
            decreases ids@.len() - i,
        {
            let id: u32 = ids[i];
            let ghost seen = ids@.take(i as int);
            let ghost earlier = stale@;
            assert(ids@.take(i + 1) =~= seen.push(id));
            assert(ids@.to_set().contains(ids@[i as int]));
            assert(self.jobs().contains_key(id));
            assert(!seen.contains(id));
            assert(!earlier.contains(id));
            if let Some(job) = self.get_job(id) {
                let idle = now >= job.last_activity && now - job.last_activity >= idle_threshold;
                if idle || (job.state.is_terminal() && quiet) {
                    assert(gone.contains(id));
                    stale.push(id);
                    assert forall|j: int, k: int| 0 <= j < stale@.len() && 0 <= k < stale@.len() && j
                        != k implies stale@[j] != stale@[k] by {
                        if stale@[j] == stale@[k] {
                            assert(earlier.contains(id));
                        }
                    }
                } else {
                    assert(!gone.contains(id));
                }
            }
            i += 1;
            assert forall|k: u32| #[trigger] stale@.contains(k) <==> ids@.take(i as int).contains(k)
                && gone.contains(k) by {
                lemma_push_contains(seen, id, k);
                lemma_push_contains(earlier, id, k);
                assert(earlier.contains(k) <==> seen.contains(k) && gone.contains(k));
            }
        }
        proof {
            assert(ids@.take(i as int) =~= ids@);
            assert forall|k: u32| stale@.to_set().contains(k) <==> gone.contains(k) by {
                assert(stale@.contains(k) <==> ids@.contains(k) && gone.contains(k));
                if gone.contains(k) {
                    assert(ids@.to_set().contains(k));
                }
            }
            assert(stale@.to_set() =~= gone);
            assert forall|j: int| 0 <= j < stale@.len() implies self.jobs().contains_key(
                #[trigger] stale@[j],
            ) by {
                assert(stale@.contains(stale@[j]));
            }
        }
        self.begin_cleanup_jobs(&stale)
    }

    /// Takes note that something was heard of a job at `now`.
    pub fn record_activity(&mut self, job_id: u32, now: u64) -> (r: Result<()>)
        requires
            old(self).wf(),
        ensures
            final(self).wf(),
            final(self).next_id() == old(self).next_id(),
            final(self).max_jobs() == old(self).max_jobs(),
            r is Ok <==> old(self).jobs().contains_key(job_id),
            r matches Err(e) ==> e@ == ErrorView::JobNotFound(job_id) && final(self).jobs() == old(
                self,
            ).jobs() && final(self).active_at() == old(self).active_at(),
            r is Ok ==> final(self).active_at() == now && final(self).jobs() == old(
                self,
            ).jobs().insert(job_id, heard_of(old(self).jobs()[job_id], now)),
    {
        let job = match self.get_job(job_id) {
            Some(job) => job,
            None => return Err(Error::JobNotFound(job_id)),
        };
        self.put(JobHandle { last_activity: now, ..job });
        self.last_activity = now;
        Ok(())
    }

    /// Gives a job its process and its job object.
    pub fn attach_process(&mut self, job_id: u32, process: isize, job_object: isize) -> (r: Result<
        (),
    >)
        requires
            old(self).wf(),
        ensures
            final(self).wf(),
            final(self).same_but_jobs(*old(self)),
            r is Ok <==> old(self).jobs().contains_key(job_id),
            r matches Err(e) ==> e@ == ErrorView::JobNotFound(job_id) && final(self).jobs() == old(
                self,
            ).jobs(),
            r is Ok ==> final(self).jobs() == old(self).jobs().insert(
                job_id,
                with_process(old(self).jobs()[job_id], process, job_object),
            ),
    {
        let job = match self.get_job(job_id) {
            Some(job) => job,
            None => return Err(Error::JobNotFound(job_id)),
        };
        self.put(JobHandle { process_handle: Some(process), job_object: Some(job_object), ..job });
        Ok(())
    }

    /// Gives a job its two pumps.
    pub fn attach_pumps(&mut self, job_id: u32) -> (r: Result<()>)
        requires
            old(self).wf(),
        ensures
            final(self).wf(),
            final(self).same_but_jobs(*old(self)),
            r is Ok <==> old(self).jobs().contains_key(job_id),
            r matches Err(e) ==> e@ == ErrorView::JobNotFound(job_id) && final(self).jobs() == old(
                self,
            ).jobs(),
            r is Ok ==> final(self).jobs() == old(self).jobs().insert(
                job_id,
                with_pumps(old(self).jobs()[job_id]),
            ),
    {
        let job = match self.get_job(job_id) {
            Some(job) => job,
            None => return Err(Error::JobNotFound(job_id)),
        };
        self.put(JobHandle { stdout_pump: true, stderr_pump: true, ..job });
        Ok(())
    }

    /// Takes the two pumps from a job: whoever calls waits for them.
    pub fn take_pumps(&mut self, job_id: u32) -> (r: (bool, bool))
        requires
            old(self).wf(),
        ensures
            final(self).wf(),
            final(self).same_but_jobs(*old(self)),
            !old(self).jobs().contains_key(job_id) ==> r == (false, false) && final(self).jobs()
                == old(self).jobs(),
            old(self).jobs().contains_key(job_id) ==> r == (
                old(self).jobs()[job_id].stdout_pump,
                old(self).jobs()[job_id].stderr_pump,
            ) && final(self).jobs() == old(self).jobs().insert(
                job_id,
                without_pumps(old(self).jobs()[job_id]),
            ),
    {
        let job = match self.get_job(job_id) {
            Some(job) => job,
            None => return (false, false),
        };
        self.put(JobHandle { stdout_pump: false, stderr_pump: false, ..job });
        (job.stdout_pump, job.stderr_pump)
    }

    /// Tells the workers of a job to stop, and gives the job as it is then.
    pub fn signal_stop(&mut self, job_id: u32) -> (r: Option<JobHandle>)
        requires
            old(self).wf(),
        ensures
            final(self).wf(),
            final(self).same_but_jobs(*old(self)),
            r is Some <==> old(self).jobs().contains_key(job_id),
            r matches Some(job) ==> job == told_to_stop(old(self).jobs()[job_id]) && final(self).jobs()
                == old(self).jobs().insert(job_id, job),
            r is None ==> final(self).jobs() == old(self).jobs(),
    {
        let job = match self.get_job(job_id) {
            Some(job) => job,
            None => return None,
        };
        let job = JobHandle { cancelled: true, ..job };
        self.put(job);
        Some(job)
    }

    /// The ids of all jobs in the registry, each once, in no particular order.
    pub fn list_active_jobs(&self) -> (ids: Vec<u32>)
        ensures
            ids@.no_duplicates(),
            ids@.to_set() == self.jobs().dom(),
    {
        job_table::table_keys(&self.jobs)
    }

    /// Whether any job is in the registry.
    pub fn has_active_jobs(&self) -> (b: bool)
        requires
            self.wf(),
        ensures
            b == exists|id: u32| self.jobs().contains_key(id),
    {
        let empty = job_table::table_is_empty(&self.jobs);
        proof {
            if empty {
                assert(self.jobs().dom() =~= Set::<u32>::empty());
                assert forall|id: u32| !self.jobs().contains_key(id) by {
                    assert(!self.jobs().dom().contains(id));
                }
            } else {
                let id = self.jobs().dom().choose();
                assert(self.jobs().contains_key(id));
            }
        }
        !empty
    }

    /// The number of jobs in the registry.
    pub fn job_count(&self) -> (n: usize)
        ensures
            n == self.jobs().dom().len(),
    {
        job_table::table_len(&self.jobs)
    }
}

/// `job` in another state.
pub open spec fn in_state(job: JobHandle, state: JobState) -> JobHandle {
    JobHandle { state, ..job }
}

/// `job` with its workers told to stop and its pumps and handles given out.
pub open spec fn stopping(job: JobHandle) -> JobHandle {
    JobHandle {
        cancelled: true,
        stdout_pump: false,
        stderr_pump: false,
        process_handle: None,
        job_object: None,
        ..job
    }
}

/// The registry when a job, where it is there, is being cleaned up.
pub open spec fn stopped(jobs: Map<u32, JobHandle>, job_id: u32) -> Map<u32, JobHandle> {
    if jobs.contains_key(job_id) {
        jobs.insert(job_id, stopping(jobs[job_id]))
    } else {
        jobs
    }
}

/// The registry when the jobs of `ids` are being cleaned up.
pub open spec fn all_stopped(jobs: Map<u32, JobHandle>, ids: Set<u32>) -> Map<u32, JobHandle> {
    jobs.map_entries(
        |id: u32, job: JobHandle|
            if ids.contains(id) {
                stopping(job)
            } else {
                job
            },
    )
}

/// `job` with its process and its job object.
pub open spec fn with_process(job: JobHandle, process: isize, job_object: isize) -> JobHandle {
    JobHandle { process_handle: Some(process), job_object: Some(job_object), ..job }
}

/// `job` with both its pumps.
pub open spec fn with_pumps(job: JobHandle) -> JobHandle {
    JobHandle { stdout_pump: true, stderr_pump: true, ..job }
}

/// `job` with its pumps handed to whoever waits for them.
pub open spec fn without_pumps(job: JobHandle) -> JobHandle {
    JobHandle { stdout_pump: false, stderr_pump: false, ..job }
}

/// `job` with its workers told to stop.
pub open spec fn told_to_stop(job: JobHandle) -> JobHandle {
    JobHandle { cancelled: true, ..job }
}

/// `job` when it was heard of at `now`.
pub open spec fn heard_of(job: JobHandle, now: u64) -> JobHandle {
    JobHandle { last_activity: now, ..job }
}

/// At `now` nothing has been heard since `then` for `threshold` milliseconds or more.
pub open spec fn quiet_since(then: u64, now: u64, threshold: u64) -> bool {
    now - then >= threshold
}

/// `job` is to leave the registry at `now`: it has been idle for long, or it has ended and nothing
/// at all has been heard of any job for a while.
pub open spec fn is_stale(
    job: JobHandle,
    active_at: u64,
    now: u64,
    idle_threshold: u64,
    quiet_threshold: u64,
) -> bool {
    ||| quiet_since(job.last_activity, now, idle_threshold)
    ||| terminal(job.state) && quiet_since(active_at, now, quiet_threshold)
}

/// The ids of the jobs that are to leave the registry at `now`.
pub open spec fn stale_ids(m: JobManager, now: u64, idle_threshold: u64, quiet_threshold: u64) -> Set<
    u32,
> {
    m.jobs().dom().filter(
        |id: u32| is_stale(m.jobs()[id], m.active_at(), now, idle_threshold, quiet_threshold),
    )
}

proof fn lemma_push_contains(s: Seq<u32>, x: u32, k: u32)
    ensures
        s.push(x).contains(k) <==> s.contains(k) || k == x,
{
    if s.contains(k) {
        let w = choose|w: int| 0 <= w < s.len() && s[w] == k;
        assert(s.push(x)[w] == k);
    }
    assert(s.push(x)[s.len() as int] == x);
    if s.push(x).contains(k) && k != x {
        let w = choose|w: int| 0 <= w < s.push(x).len() && s.push(x)[w] == k;
        assert(s[w] == k);
    }
}

/// `list` is what the jobs of the ids `gone` leave behind, each once.
pub open spec fn all_released(
    list: Seq<ReleasedJob>,
    jobs: Map<u32, JobHandle>,
    gone: Set<u32>,
) -> bool {
    &&& list.len() == gone.len()
    &&& forall|i: int|
        0 <= i < list.len() ==> gone.contains((#[trigger] list[i]).job_id) && list[i].stop
            && list[i] == released(jobs[list[i].job_id])
    &&& forall|i: int, j: int|
        0 <= i < j < list.len() ==> (#[trigger] list[i]).job_id != (#[trigger] list[j]).job_id
}

/// `job` as it is when it has been canceled.
pub open spec fn canceled_job(job: JobHandle) -> JobHandle {
    JobHandle { state: JobState::Canceled, cancelled: true, ..job }
}

/// The registry after `job_id` has been canceled: a job that has not ended is canceled, and
/// nothing else changes.
pub open spec fn jobs_after_cancel(jobs: Map<u32, JobHandle>, job_id: u32) -> Map<u32, JobHandle> {
    if jobs.contains_key(job_id) && !terminal(jobs[job_id].state) {
        jobs.insert(job_id, canceled_job(jobs[job_id]))
    } else {
        jobs
    }
}

/// How far a job is on its way.
spec fn progress(s: JobState) -> int {
    match s {
        JobState::Created => 0,
        JobState::Starting => 1,
        JobState::Running => 2,
        JobState::Exiting => 3,
        _ => 4,
    }
}

/// A job that has ended stays as it is, and one that has not can be canceled.
pub proof fn law_terminal_states_are_final(s: JobState)
    ensures
        terminal(s) <==> forall|t: JobState| !may_follow(s, t),
        !terminal(s) ==> may_follow(s, JobState::Canceled),
{
    if !terminal(s) {
        assert(may_follow(s, JobState::Canceled));
    }
}

/// `path` is a run of states that a job may take.
pub open spec fn is_path(path: Seq<JobState>) -> bool {
    forall|i: int| 0 <= i < path.len() - 1 ==> may_follow(#[trigger] path[i], path[i + 1])
}

proof fn lemma_progress(path: Seq<JobState>, i: int, j: int)
    requires
        is_path(path),
        0 <= i < j < path.len(),
    ensures
        progress(path[i]) < progress(path[j]),
    decreases j - i,
{
    if i + 1 == j {
        assert(may_follow(path[i], path[i + 1]));
    } else {
        lemma_progress(path, i, j - 1);
        assert(may_follow(path[j - 1], path[j - 1 + 1]));
    }
}

/// No state comes twice in the life of a job, and only the last can be one in which it has ended.
pub proof fn law_no_state_comes_back(path: Seq<JobState>, i: int, j: int)
    requires
        is_path(path),
        0 <= i < j < path.len(),
    ensures
        path[i] != path[j],
        !terminal(path[i]),
{
    lemma_progress(path, i, j);
    assert(may_follow(path[i], path[i + 1]));
}

/// Cancelling ends a job that is in the registry, touches no other job, and doing it again changes
/// nothing.
pub proof fn law_cancel(jobs: Map<u32, JobHandle>, job_id: u32, other: u32)
    ensures
        jobs.contains_key(job_id) ==> terminal(jobs_after_cancel(jobs, job_id)[job_id].state),
        jobs_after_cancel(jobs, job_id).dom() == jobs.dom(),
        other != job_id ==> jobs_after_cancel(jobs, job_id)[other] == jobs[other],
        jobs_after_cancel(jobs_after_cancel(jobs, job_id), job_id) == jobs_after_cancel(
            jobs,
            job_id,
        ),
{
    assert(jobs_after_cancel(jobs, job_id).dom() =~= jobs.dom());
}

/// Cleaning a job up gives its pumps and handles out exactly once: they come with the first step,
/// and nothing is left for the last, after which the job is gone. Its state stays as it was, its
/// workers are told to stop, and no other job is touched.
pub proof fn law_cleanup_gives_out_once(jobs: Map<u32, JobHandle>, job_id: u32)
    requires
        jobs.contains_key(job_id),
    ensures
        ({
            let between = stopped(jobs, job_id);
            let first = released(jobs[job_id]);
            let last = released(between[job_id]);
            &&& first.stop && last.stop && between[job_id].cancelled
            &&& first.process_handle == jobs[job_id].process_handle
            &&& first.job_object == jobs[job_id].job_object
            &&& last.process_handle is None && last.job_object is None
            &&& !last.stdout_pump && !last.stderr_pump
            &&& first.state == jobs[job_id].state && last.state == jobs[job_id].state
            &&& between.remove(job_id) == jobs.remove(job_id)
        }),
{
    assert(stopped(jobs, job_id).remove(job_id) =~= jobs.remove(job_id));
}

/// The counter never gives out 0, and never the same id twice in a row.
pub proof fn law_ids(next: u32)
    ensures
        id_from(next) != 0,
        id_from(id_from(next).wrapping_add(1)) != id_from(next),
{
}

/// Looking for idle jobs does not touch a job that has not ended and was heard of lately, and starts
/// to clean every other up that is to leave.
pub proof fn law_cleanup(
    m: JobManager,
    now: u64,
    idle_threshold: u64,
    quiet_threshold: u64,
    job_id: u32,
)
    requires
        m.wf(),
        m.jobs().contains_key(job_id),
    ensures
        ({
            let job = m.jobs()[job_id];
            let after = all_stopped(
                m.jobs(),
                stale_ids(m, now, idle_threshold, quiet_threshold),
            );
            &&& !terminal(job.state) && now - job.last_activity < idle_threshold
                ==> after[job_id] == job
            &&& is_stale(job, m.active_at(), now, idle_threshold, quiet_threshold)
                ==> after[job_id] == stopping(job)
        }),
{
}

/// Every job is registered under its own id, which is not 0.
pub open spec fn registry_ok(jobs: Map<u32, JobHandle>) -> bool {
    &&& jobs.dom().finite()
    &&& forall|id: u32| #[trigger] jobs.contains_key(id) ==> id != 0 && jobs[id].job_id == id
}

/// The changes of state that there are, and no others: a job starts, runs, exits and completes, in
/// this order; it can fail from when it starts, time out while it runs, and be canceled until it has
/// ended.
pub proof fn law_changes_of_state(from: JobState, to: JobState)
    ensures
        may_follow(from, to) <==> {
            ||| from is Created && to is Starting
            ||| from is Starting && to is Running
            ||| from is Running && to is Exiting
            ||| from is Exiting && to is Completed
            ||| (from is Starting || from is Running || from is Exiting) && to is Failed
            ||| from is Running && to is TimedOut
            ||| (from is Created || from is Starting || from is Running || from is Exiting)
                && to is Canceled
        },
        terminal(from) <==> !(from is Created || from is Starting || from is Running
            || from is Exiting),
{
}

/// A change of state changes nothing of the job but its state.
pub proof fn law_change_of_state_keeps_the_rest(job: JobHandle, state: JobState)
    ensures
        in_state(job, state).state == state,
        in_state(job, state).job_id == job.job_id,
        in_state(job, state).process_handle == job.process_handle,
        in_state(job, state).job_object == job.job_object,
        in_state(job, state).stdout_pump == job.stdout_pump,
        in_state(job, state).stderr_pump == job.stderr_pump,
        in_state(job, state).cancelled == job.cancelled,
        in_state(job, state).start_time == job.start_time,
        in_state(job, state).last_activity == job.last_activity,
        in_state(job, state).timeout == job.timeout,
{
}

/// Cancelling a job that has been created, is starting, runs or exits tells its workers to stop,
/// makes it `Canceled` and leaves everything else of it as it was. One that has ended in whatever
/// way stays as it is, and so does every other job.
pub proof fn law_cancel_whatever_the_state(jobs: Map<u32, JobHandle>, job_id: u32, other: u32)
    requires
        jobs.contains_key(job_id),
    ensures
        ({
            let was = jobs[job_id];
            let after = jobs_after_cancel(jobs, job_id)[job_id];
            &&& (was.state is Created || was.state is Starting || was.state is Running
                || was.state is Exiting) ==> {
                &&& after.cancelled
                &&& after.state is Canceled
                &&& after.job_id == was.job_id
                &&& after.process_handle == was.process_handle
                &&& after.job_object == was.job_object
                &&& after.stdout_pump == was.stdout_pump
                &&& after.stderr_pump == was.stderr_pump
                &&& after.start_time == was.start_time
                &&& after.last_activity == was.last_activity
                &&& after.timeout == was.timeout
            }
            &&& (was.state is Completed || was.state is Failed || was.state is Canceled
                || was.state is TimedOut) ==> after == was
        }),
        jobs_after_cancel(jobs, job_id).contains_key(job_id),
        jobs_after_cancel(jobs, job_id).contains_key(other) <==> jobs.contains_key(other),
        other != job_id && jobs.contains_key(other) ==> jobs_after_cancel(jobs, job_id)[other]
            == jobs[other],
{
}

/// A job starts out with nothing but its id, its time limit and the time: no process, no pumps, not
/// told to stop. Its id is where the counter stands, or 1 where that is 0.
pub proof fn law_created(next: u32, timeout: Option<u64>, now: u64)
    ensures
        next > 0 ==> id_from(next) == next,
        next == 0 ==> id_from(next) == 1,
        ({
            let job = created_job(id_from(next), timeout, now);
            &&& job.job_id == id_from(next)
            &&& job.state is Created
            &&& job.process_handle is None && job.job_object is None
            &&& !job.stdout_pump && !job.stderr_pump
            &&& !job.cancelled
            &&& job.start_time == now && job.last_activity == now
            &&& job.timeout == timeout
        }),
{
}

/// What is done to a job on its way changes only what it is about: attaching its process, giving it
/// its pumps and taking them again, telling its workers to stop, and hearing of it.
pub proof fn law_changes_of_a_job(job: JobHandle, process: isize, job_object: isize, now: u64)
    ensures
        with_process(job, process, job_object) == (JobHandle {
            process_handle: Some(process),
            job_object: Some(job_object),
            job_id: job.job_id,
            state: job.state,
            stdout_pump: job.stdout_pump,
            stderr_pump: job.stderr_pump,
            cancelled: job.cancelled,
            start_time: job.start_time,
            last_activity: job.last_activity,
            timeout: job.timeout,
        }),
        with_pumps(job).stdout_pump && with_pumps(job).stderr_pump,
        !without_pumps(job).stdout_pump && !without_pumps(job).stderr_pump,
        without_pumps(with_pumps(job)) == without_pumps(job),
        !job.stdout_pump && !job.stderr_pump ==> without_pumps(with_pumps(job)) == job,
        job.stdout_pump && job.stderr_pump ==> with_pumps(job) == job && with_pumps(
            without_pumps(job),
        ) == job,
        told_to_stop(job).cancelled,
        job.cancelled ==> told_to_stop(job) == job,
        told_to_stop(job).job_id == job.job_id,
        told_to_stop(job).state == job.state,
        told_to_stop(job).process_handle == job.process_handle,
        told_to_stop(job).job_object == job.job_object,
        told_to_stop(job).stdout_pump == job.stdout_pump,
        told_to_stop(job).stderr_pump == job.stderr_pump,
        told_to_stop(job).start_time == job.start_time,
        told_to_stop(job).last_activity == job.last_activity,
        told_to_stop(job).timeout == job.timeout,
        heard_of(job, now).last_activity == now,
        heard_of(heard_of(job, now), job.last_activity) == job,
{
}

/// Cleaning a job up gives out its process, its job object and its pumps as they were, says which
/// job it was and in which state, and leaves a job without any of them whose workers are told to
/// stop. The job stays in its state.
pub proof fn law_cleanup_hands_everything_over(jobs: Map<u32, JobHandle>, job_id: u32, other: u32)
    requires
        jobs.contains_key(job_id),
    ensures
        ({
            let was = jobs[job_id];
            let left = released(was);
            let after = stopped(jobs, job_id)[job_id];
            &&& left.job_id == was.job_id
            &&& left.state == was.state
            &&& left.stop
            &&& left.stdout_pump == was.stdout_pump
            &&& left.stderr_pump == was.stderr_pump
            &&& left.process_handle == was.process_handle
            &&& left.job_object == was.job_object
            &&& after.cancelled
            &&& after.process_handle is None && after.job_object is None
            &&& !after.stdout_pump && !after.stderr_pump
            &&& after.job_id == was.job_id
            &&& after.state == was.state
            &&& after.start_time == was.start_time
            &&& after.last_activity == was.last_activity
            &&& after.timeout == was.timeout
        }),
        stopped(jobs, job_id).contains_key(other) <==> jobs.contains_key(other),
        other != job_id && jobs.contains_key(other) ==> stopped(jobs, job_id)[other]
            == jobs[other],
{
}

/// Cleaning several jobs up does to each of them what cleaning it up alone does, and nothing to the
/// others.
pub proof fn law_cleanup_of_many(jobs: Map<u32, JobHandle>, ids: Set<u32>, job_id: u32)
    ensures
        all_stopped(jobs, ids).contains_key(job_id) <==> jobs.contains_key(job_id),
        jobs.contains_key(job_id) ==> all_stopped(jobs, ids)[job_id] == (if ids.contains(job_id) {
            stopped(jobs, job_id)[job_id]
        } else {
            jobs[job_id]
        }),
{
}

/// What leaves the registry when idle jobs are looked for: a job that was last heard of
/// `idle_threshold` milliseconds ago or more, whatever its state; and, where nothing was heard of
/// any job for `quiet_threshold` milliseconds, each one that has completed, failed, timed out or
/// been canceled.
pub proof fn law_stale_jobs(
    m: JobManager,
    now: u64,
    idle_threshold: u64,
    quiet_threshold: u64,
    job_id: u32,
)
    requires
        m.wf(),
        m.jobs().contains_key(job_id),
    ensures
        stale_ids(m, now, idle_threshold, quiet_threshold).contains(job_id) <==> {
            let job = m.jobs()[job_id];
            ||| job.last_activity + idle_threshold <= now
            ||| m.active_at() + quiet_threshold <= now && (job.state is Completed
                || job.state is Failed || job.state is Canceled || job.state is TimedOut)
        },
{
}

/// What is refused is said in full: how many jobs there may be; and which job could not change from
/// which state to which.
pub proof fn law_refusals(max: nat, job_id: u32, from: JobState, to: JobState)
    ensures
        too_many_jobs(max) == ErrorView::Service(
            "Maximum concurrent jobs ("@ + text::decimal(max) + ") reached"@,
        ),
        bad_transition(job_id, from, to) matches ErrorView::InvalidStateTransition(m) && m == "Job "@
            + text::decimal(job_id as nat) + ": cannot transition from "@ + state_name(from)
            + " to "@ + state_name(to),
        from != to ==> state_name(from) != state_name(to),
        state_name(from) == (match from {
            JobState::Created => "Created"@,
            JobState::Starting => "Starting"@,
            JobState::Running => "Running"@,
            JobState::Exiting => "Exiting"@,
            JobState::Completed => "Completed"@,
            JobState::Failed => "Failed"@,
            JobState::Canceled => "Canceled"@,
            JobState::TimedOut => "TimedOut"@,
        }),
{
    reveal_strlit("Created");
    reveal_strlit("Starting");
    reveal_strlit("Running");
    reveal_strlit("Exiting");
    reveal_strlit("Completed");
    reveal_strlit("Failed");
    reveal_strlit("Canceled");
    reveal_strlit("TimedOut");
    if from != to {
        assert(state_name(from).len() != state_name(to).len() || state_name(from)[0] != state_name(
            to,
        )[0] || state_name(from)[1] != state_name(to)[1]);
    }
}

/// What several jobs leave behind when they are cleaned up has one item for each of them and for no
/// other, with all that the job had.
pub proof fn law_every_job_is_released(
    list: Seq<ReleasedJob>,
    jobs: Map<u32, JobHandle>,
    gone: Set<u32>,
    job_id: u32,
)
    requires
        all_released(list, jobs, gone),
        gone.finite(),
        forall|id: u32| gone.contains(id) ==> #[trigger] jobs.contains_key(id) && jobs[id].job_id == id,
    ensures
        gone.contains(job_id) ==> exists|i: int|
            0 <= i < list.len() && (#[trigger] list[i]).job_id == job_id && list[i].state
                == jobs[job_id].state && list[i].stop && list[i].process_handle
                == jobs[job_id].process_handle && list[i].job_object == jobs[job_id].job_object
                && list[i].stdout_pump == jobs[job_id].stdout_pump && list[i].stderr_pump
                == jobs[job_id].stderr_pump,
        forall|i: int| 0 <= i < list.len() ==> gone.contains((#[trigger] list[i]).job_id),
        forall|i: int, j: int|
            0 <= i < j < list.len() ==> (#[trigger] list[i]).job_id != (#[trigger] list[j]).job_id,
{
    let ids = Seq::new(list.len(), |i: int| list[i].job_id);
    assert forall|i: int, j: int| 0 <= i < ids.len() && 0 <= j < ids.len() && i != j implies ids[i]
        != ids[j] by {
        if i < j {
            assert(list[i].job_id != list[j].job_id);
        } else {
            assert(list[j].job_id != list[i].job_id);
        }
    }
    ids.unique_seq_to_set();
    assert forall|id: u32| ids.to_set().contains(id) implies gone.contains(id) by {
        let i = choose|i: int| 0 <= i < ids.len() && ids[i] == id;
        assert(gone.contains(list[i].job_id));
    }
    vstd::set_lib::lemma_subset_equality(ids.to_set(), gone);
    if gone.contains(job_id) {
        assert(ids.to_set().contains(job_id));
        let i = choose|i: int| 0 <= i < ids.len() && ids[i] == job_id;
        assert(list[i].job_id == job_id);
        assert(list[i] == released(jobs[list[i].job_id]));
    }
}

/// In the registry every job stands under its own id, none of them under 0, and there are never more
/// jobs than it takes.
pub proof fn law_registry(m: JobManager, job_id: u32)
    requires
        m.wf(),
    ensures
        m.jobs().contains_key(job_id) ==> job_id > 0 && m.jobs()[job_id].job_id == job_id,
        m.jobs().dom().finite(),
        m.jobs().dom().len() <= m.max_jobs(),
{
}

} // verus!
