//! Job lifecycle: build job records, their monotonic status transitions,
//! and the registry that tracks many concurrent jobs with their cancellable
//! task handles.

use vstd::prelude::*;

verus! {

#[verifier::external_type_specification]
#[verifier::external_body]
pub struct ExAbortHandle(tokio::task::AbortHandle);

/// Relies on tokio::task::AbortHandle::abort: requests cancellation of the
/// associated task. The task may still finish normally, so nothing is
/// promised of its state afterwards.
#[verifier::external_body]
fn abort_task(h: &tokio::task::AbortHandle) {
    h.abort()
}

/// Relies on uuid::Uuid::new_v4 (read out through Uuid::as_u128): a random
/// version-4 UUID. Randomness promises no distinctness, so the store still
/// checks ids before inserting.
#[verifier::external_body]
fn fresh_job_id() -> u128 {
    uuid::Uuid::new_v4().as_u128()
}

/// Relies on std::time::SystemTime::now, read out as whole seconds since
/// the Unix epoch through duration_since; a clock standing before the
/// epoch reads as 0. The value depends on the clock, so nothing more is
/// promised.
#[verifier::external_body]
fn unix_now() -> u64 {
    match std::time::SystemTime::now().duration_since(std::time::UNIX_EPOCH) {
        Ok(d) => d.as_secs(),
        Err(_) => 0,
    }
}

/// Lifecycle state of a build job.
#[derive(Debug, Clone, Copy, PartialEq, Eq, Structural)]
pub enum JobStatus {
    Queued,
    Running,
    Completed,
    Failed,
}

/// One build request's full lifecycle record.
#[derive(Debug)]
pub struct BuildJob {
    pub id: u128,
    pub status: JobStatus,
    pub created_at: u64,
    pub started_at: Option<u64>,
    pub completed_at: Option<u64>,
    pub archive_url: String,
    pub owner: String,
    pub repo: String,
    pub installation_id: String,
    pub customer_name: Option<String>,
    pub upload_url: String,
    pub output: Option<String>,
    pub error: Option<String>,
    pub artifact_path: Option<String>,
}

/// Mathematical value of a job record.
pub struct JobView {
    pub id: u128,
    pub status: JobStatus,
    pub created_at: u64,
    pub started_at: Option<u64>,
    pub completed_at: Option<u64>,
    pub archive_url: Seq<char>,
    pub owner: Seq<char>,
    pub repo: Seq<char>,
    pub installation_id: Seq<char>,
    pub customer_name: Option<Seq<char>>,
    pub upload_url: Seq<char>,
    pub output: Option<Seq<char>>,
    pub error: Option<Seq<char>>,
    pub artifact_path: Option<Seq<char>>,
}

/// Mathematical value of an optional string.
pub open spec fn opt_view(o: Option<String>) -> Option<Seq<char>> {
    match o {
        Some(s) => Some(s@),
        None => None,
    }
}

impl View for BuildJob {
    type V = JobView;

    open spec fn view(&self) -> JobView {
        JobView {
            id: self.id,
            status: self.status,
            created_at: self.created_at,
            started_at: self.started_at,
            completed_at: self.completed_at,
            archive_url: self.archive_url@,
            owner: self.owner@,
            repo: self.repo@,
            installation_id: self.installation_id@,
            customer_name: opt_view(self.customer_name),
            upload_url: self.upload_url@,
            output: opt_view(self.output),
            error: opt_view(self.error),
            artifact_path: opt_view(self.artifact_path),
        }
    }
}

/// A status is terminal once the job has completed or failed.
pub open spec fn is_terminal(s: JobStatus) -> bool {
    s is Completed || s is Failed
}

/// The allowed status transitions: `Queued` to `Running`, `Running` to a
/// terminal state, and `Queued` straight to `Failed` through cancellation.
pub open spec fn can_transition(a: JobStatus, b: JobStatus) -> bool {
    ||| (a is Queued && b is Running)
    ||| (a is Running && is_terminal(b))
    ||| (a is Queued && b is Failed)
}

/// Transitions are monotonic: nothing leaves a terminal state, and nothing
/// returns to `Queued`.
pub proof fn lemma_transitions_monotonic(a: JobStatus, b: JobStatus)
    ensures
        can_transition(a, b) ==> !is_terminal(a),
        can_transition(a, b) ==> !(b is Queued),
        can_transition(a, b) && a is Queued ==> (b is Running || b is Failed),
        can_transition(a, b) && a is Running ==> is_terminal(b),
{
}

/// The lifecycle in full: the steps the store's operations take are all
/// allowed, terminal states admit no step, and no step returns to
/// `Queued`. `start` takes the first step, `complete` and `fail` the
/// second, and `cancel` takes `Failed` from either non-terminal state.
pub proof fn lemma_lifecycle_steps()
    ensures
        can_transition(JobStatus::Queued, JobStatus::Running),
        can_transition(JobStatus::Running, JobStatus::Completed),
        can_transition(JobStatus::Running, JobStatus::Failed),
        can_transition(JobStatus::Queued, JobStatus::Failed),
        forall|b: JobStatus| !can_transition(JobStatus::Completed, b),
        forall|b: JobStatus| !can_transition(JobStatus::Failed, b),
        forall|a: JobStatus| !can_transition(a, JobStatus::Queued),
{
}

fn clone_opt_string(o: &Option<String>) -> (r: Option<String>)
    ensures
        opt_view(r) == opt_view(*o),
{
    match o {
        Some(s) => Some(s.clone()),
        None => None,
    }
}

impl BuildJob {
    /// A fresh job in `Queued` state, stamped with a new random id and the
    /// current time.
    pub fn new(
        archive_url: String,
        owner: String,
        repo: String,
        installation_id: String,
        upload_url: String,
        customer_name: Option<String>,
    ) -> (r: BuildJob)
        ensures
            r.status is Queued,
            r.started_at is None,
            r.completed_at is None,
            r.archive_url == archive_url,
            r.owner == owner,
            r.repo == repo,
            r.installation_id == installation_id,
            r.upload_url == upload_url,
            r.customer_name == customer_name,
            r.output is None,
            r.error is None,
            r.artifact_path is None,
    {
        BuildJob {
            id: fresh_job_id(),
            status: JobStatus::Queued,
            created_at: unix_now(),
            started_at: None,
            completed_at: None,
            archive_url,
            owner,
            repo,
            installation_id,
            customer_name,
            upload_url,
            output: None,
            error: None,
            artifact_path: None,
        }
    }

    /// A deep copy with the same mathematical value.
    pub fn snapshot(&self) -> (r: BuildJob)
        ensures
            r@ == self@,
    {
        BuildJob {
            id: self.id,
            status: self.status,
            created_at: self.created_at,
            started_at: self.started_at,
            completed_at: self.completed_at,
            archive_url: self.archive_url.clone(),
            owner: self.owner.clone(),
            repo: self.repo.clone(),
            installation_id: self.installation_id.clone(),
            customer_name: clone_opt_string(&self.customer_name),
            upload_url: self.upload_url.clone(),
            output: clone_opt_string(&self.output),
            error: clone_opt_string(&self.error),
            artifact_path: clone_opt_string(&self.artifact_path),
        }
    }

    /// Moves a queued job to `Running`, stamping its start time.
    pub fn start(&mut self, now: u64)
        requires
            old(self).status is Queued,
        ensures
            final(self)@ == (JobView {
                status: JobStatus::Running,
                started_at: Some(now),
                ..old(self)@
            }),
    {
        self.status = JobStatus::Running;
        self.started_at = Some(now);
    }

    /// Moves a running job to `Completed`, stamping its completion time and
    /// recording the build output and artifact location.
    pub fn complete(&mut self, output: String, artifact_path: Option<String>, now: u64)
        requires
            old(self).status is Running,
        ensures
            final(self)@ == (JobView {
                status: JobStatus::Completed,
                completed_at: Some(now),
                output: Some(output@),
                artifact_path: opt_view(artifact_path),
                ..old(self)@
            }),
    {
        self.status = JobStatus::Completed;
        self.completed_at = Some(now);
        self.output = Some(output);
        self.artifact_path = artifact_path;
    }

    /// Moves a running job to `Failed`, stamping its completion time and
    /// recording the error text.
    pub fn fail(&mut self, error: String, now: u64)
        requires
            old(self).status is Running,
        ensures
            final(self)@ == (JobView {
                status: JobStatus::Failed,
                completed_at: Some(now),
                error: Some(error@),
                ..old(self)@
            }),
    {
        self.status = JobStatus::Failed;
        self.completed_at = Some(now);
        self.error = Some(error);
    }
}

/// One registry slot: the canonical job record and, while the job's task
/// runs, the cancellable handle of that task.
pub struct JobEntry {
    pub job: BuildJob,
    pub handle: Option<tokio::task::AbortHandle>,
}

/// Mathematical value of a registry: the job records in insertion order.
pub open spec fn jobs_view(entries: Seq<JobEntry>) -> Seq<JobView> {
    entries.map_values(|e: JobEntry| e.job@)
}

/// Which slots currently hold a task handle.
pub open spec fn handles_view(entries: Seq<JobEntry>) -> Seq<bool> {
    entries.map_values(|e: JobEntry| e.handle is Some)
}

/// Mathematical value of a list of job snapshots.
pub open spec fn snapshots_view(v: Seq<BuildJob>) -> Seq<JobView> {
    v.map_values(|j: BuildJob| j@)
}

/// A job with this id is in the registry.
pub open spec fn contains_id(jobs: Seq<JobView>, id: u128) -> bool {
    exists|i: int| 0 <= i < jobs.len() && (#[trigger] jobs[i]).id == id
}

/// The slot of the job with this id.
pub open spec fn idx_of(jobs: Seq<JobView>, id: u128) -> int {
    choose|i: int| 0 <= i < jobs.len() && (#[trigger] jobs[i]).id == id
}

/// Every job id occurs at most once.
pub open spec fn ids_unique(jobs: Seq<JobView>) -> bool {
    forall|i: int, j: int|
        0 <= i < jobs.len() && 0 <= j < jobs.len() && i != j ==> (#[trigger] jobs[i]).id != (
        #[trigger] jobs[j]).id
}

/// A finished job is swept once its completion time precedes `now`
/// by more than `max_age` seconds; an unfinished job never is.
pub open spec fn swept(j: JobView, now: u64, max_age: u64) -> bool {
    match j.completed_at {
        Some(t) => t + max_age < now,
        None => false,
    }
}

proof fn lemma_filter_elem_of(s: Seq<JobView>, pred: spec_fn(JobView) -> bool, i: int)
    requires
        0 <= i < s.filter(pred).len(),
    ensures
        exists|j: int| 0 <= j < s.len() && #[trigger] s[j] == s.filter(pred)[i],
    decreases s.len(),
{
    reveal(Seq::filter);
    if s.len() > 0 {
        let rest = s.drop_last();
        let f = s.filter(pred);
        if pred(s.last()) {
            if i < rest.filter(pred).len() {
                lemma_filter_elem_of(rest, pred, i);
                let j = choose|j: int|
                    0 <= j < rest.len() && #[trigger] rest[j] == rest.filter(pred)[i];
                assert(s[j] == rest[j]);
            } else {
                assert(f[i] == s.last());
                assert(s[s.len() - 1] == s.last());
            }
        } else {
            lemma_filter_elem_of(rest, pred, i);
            let j = choose|j: int|
                0 <= j < rest.len() && #[trigger] rest[j] == rest.filter(pred)[i];
            assert(s[j] == rest[j]);
        }
    }
}

proof fn lemma_filter_ids_unique(s: Seq<JobView>, pred: spec_fn(JobView) -> bool)
    requires
        ids_unique(s),
    ensures
        ids_unique(s.filter(pred)),
    decreases s.len(),
{
    reveal(Seq::filter);
    if s.len() > 0 {
        let rest = s.drop_last();
        assert(ids_unique(rest));
        lemma_filter_ids_unique(rest, pred);
        if pred(s.last()) {
            let f = rest.filter(pred);
            assert forall|a: int, b: int|
                0 <= a < f.push(s.last()).len() && 0 <= b < f.push(s.last()).len() && a != b
                implies (#[trigger] f.push(s.last())[a]).id != (#[trigger] f.push(
                s.last(),
            )[b]).id by {
                if a < f.len() && b < f.len() {
                    assert(f.push(s.last())[a] == f[a]);
                    assert(f.push(s.last())[b] == f[b]);
                } else if a < f.len() {
                    lemma_filter_elem_of(rest, pred, a);
                    let j = choose|j: int| 0 <= j < rest.len() && #[trigger] rest[j] == f[a];
                    assert(s[j] == rest[j]);
                    assert(s[j].id != s[s.len() - 1].id);
                } else if b < f.len() {
                    lemma_filter_elem_of(rest, pred, b);
                    let j = choose|j: int| 0 <= j < rest.len() && #[trigger] rest[j] == f[b];
                    assert(s[j] == rest[j]);
                    assert(s[j].id != s[s.len() - 1].id);
                }
            }
        }
    }
}

/// The jobs that survive a sweep at `now` with window `max_age`.
pub open spec fn kept_jobs(jobs: Seq<JobView>, now: u64, max_age: u64) -> Seq<JobView> {
    jobs.filter(|j: JobView| !swept(j, now, max_age))
}

/// The sweep is exact: a job outside the age window (or unfinished) is
/// kept, and a job whose completion time precedes `now - max_age` appears
/// nowhere in the swept registry.
pub proof fn lemma_cleanup_exact(jobs: Seq<JobView>, now: u64, max_age: u64, i: int)
    requires
        0 <= i < jobs.len(),
    ensures
        !swept(jobs[i], now, max_age) ==> kept_jobs(jobs, now, max_age).contains(jobs[i]),
        swept(jobs[i], now, max_age) ==> forall|k: int|
            0 <= k < kept_jobs(jobs, now, max_age).len() ==> #[trigger] kept_jobs(
                jobs,
                now,
                max_age,
            )[k] != jobs[i],
{
    let p = |j: JobView| !swept(j, now, max_age);
    if p(jobs[i]) {
        jobs.lemma_filter_contains(p, i);
    } else {
        assert forall|k: int| 0 <= k < kept_jobs(jobs, now, max_age).len() implies #[trigger] kept_jobs(
            jobs,
            now,
            max_age,
        )[k] != jobs[i] by {
            jobs.lemma_filter_pred(p, k);
        }
    }
}

proof fn lemma_idx_of_unique(jobs: Seq<JobView>, id: u128, i: int)
    requires
        ids_unique(jobs),
        0 <= i < jobs.len(),
        jobs[i].id == id,
    ensures
        contains_id(jobs, id),
        idx_of(jobs, id) == i,
{
    assert(contains_id(jobs, id));
    let w = idx_of(jobs, id);
    assert(0 <= w < jobs.len() && jobs[w].id == id);
}

proof fn lemma_views_update(prev: Seq<JobEntry>, i: int, e: JobEntry)
    requires
        0 <= i < prev.len(),
    ensures
        jobs_view(prev.update(i, e)) == jobs_view(prev).update(i, e.job@),
        handles_view(prev.update(i, e)) == handles_view(prev).update(i, e.handle is Some),
{
    assert forall|k: int| 0 <= k < prev.len() implies #[trigger] jobs_view(prev.update(i, e))[k]
        == jobs_view(prev).update(i, e.job@)[k] by {
        assert(jobs_view(prev.update(i, e))[k] == prev.update(i, e)[k].job@);
        assert(jobs_view(prev)[k] == prev[k].job@);
    }
    assert(jobs_view(prev.update(i, e)) =~= jobs_view(prev).update(i, e.job@));
    assert forall|k: int| 0 <= k < prev.len() implies #[trigger] handles_view(prev.update(i, e))[k]
        == handles_view(prev).update(i, e.handle is Some)[k] by {
        assert(handles_view(prev.update(i, e))[k] == (prev.update(i, e)[k].handle is Some));
        assert(handles_view(prev)[k] == (prev[k].handle is Some));
    }
    assert(handles_view(prev.update(i, e)) =~= handles_view(prev).update(i, e.handle is Some));
}

proof fn lemma_ids_unique_update(jobs: Seq<JobView>, i: int, nv: JobView)
    requires
        ids_unique(jobs),
        0 <= i < jobs.len(),
        nv.id == jobs[i].id,
    ensures
        ids_unique(jobs.update(i, nv)),
{
    let u = jobs.update(i, nv);
    assert forall|a: int, b: int|
        0 <= a < u.len() && 0 <= b < u.len() && a != b implies (#[trigger] u[a]).id != (
    #[trigger] u[b]).id by {
        assert(jobs[a].id != jobs[b].id);
        if a != i {
            assert(u[a] == jobs[a]);
        }
        if b != i {
            assert(u[b] == jobs[b]);
        }
    }
}

/// Thread-unaware core of the job registry: callers guard it with a lock
/// and hold that lock only for the map operation itself. Callers receive
/// snapshots, never live handles into the store.
pub struct JobStore {
    pub entries: Vec<JobEntry>,
}

impl JobStore {
    /// The job records, in insertion order.
    pub open spec fn jobs(self) -> Seq<JobView> {
        jobs_view(self.entries@)
    }

    /// Which slots currently hold a task handle.
    pub open spec fn handles(self) -> Seq<bool> {
        handles_view(self.entries@)
    }

    /// Well-formedness: ids are unique.
    pub open spec fn wf(self) -> bool {
        ids_unique(self.jobs())
    }

    /// An empty registry.
    pub fn new() -> (r: JobStore)
        ensures
            r.wf(),
            r.jobs() == Seq::<JobView>::empty(),
    {
        let r = JobStore { entries: Vec::new() };
        proof {
            assert(r.jobs() =~= Seq::<JobView>::empty());
        }
        r
    }

    fn find_index(&self, id: u128) -> (r: Option<usize>)
        ensures
            match r {
                Some(i) => i < self.entries@.len() && self.jobs()[i as int].id == id,
                None => !contains_id(self.jobs(), id),
            },
    {
        let mut i: usize = 0;
        while i < self.entries.len()
            invariant
                i <= self.entries@.len(),
                forall|k: int| 0 <= k < i ==> (#[trigger] self.jobs()[k]).id != id,
            decreases self.entries@.len() - i,
        {
            proof {
                assert(self.jobs()[i as int] == self.entries@[i as int].job@);
            }
            if self.entries[i].job.id == id {
                return Some(i);
            }
            i += 1;
        }
        None
    }

    /// Inserts a new queued job and returns its id; an id already present
    /// is never overwritten, reported as `None`.
    pub fn submit(&mut self, job: BuildJob) -> (r: Option<u128>)
        requires
            old(self).wf(),
            job.status is Queued,
        ensures
            final(self).wf(),
            match r {
                Some(id) => {
                    &&& id == job.id
                    &&& !contains_id(old(self).jobs(), job.id)
                    &&& final(self).jobs() == old(self).jobs().push(job@)
                    &&& final(self).handles() == old(self).handles().push(false)
                },
                None => {
                    &&& contains_id(old(self).jobs(), job.id)
                    &&& final(self).entries == old(self).entries
                },
            },
    {
        match self.find_index(job.id) {
            Some(_) => None,
            None => {
                let id = job.id;
                let ghost prev = self.entries@;
                self.entries.push(JobEntry { job, handle: None });
                proof {
                    assert(self.jobs() =~= jobs_view(prev).push(self.entries@.last().job@));
                    assert(self.handles() =~= handles_view(prev).push(false));
                    assert forall|i: int, j: int|
                        0 <= i < self.jobs().len() && 0 <= j < self.jobs().len() && i != j implies (
                    #[trigger] self.jobs()[i]).id != (#[trigger] self.jobs()[j]).id by {
                        if i < prev.len() && j < prev.len() {
                            assert(self.jobs()[i] == jobs_view(prev)[i]);
                            assert(self.jobs()[j] == jobs_view(prev)[j]);
                        } else if i < prev.len() {
                            assert(jobs_view(prev)[i] == self.jobs()[i]);
                            assert(!contains_id(jobs_view(prev), id));
                        } else if j < prev.len() {
                            assert(jobs_view(prev)[j] == self.jobs()[j]);
                            assert(!contains_id(jobs_view(prev), id));
                        }
                    }
                }
                Some(id)
            },
        }
    }

    /// A snapshot of the job with this id.
    pub fn get(&self, id: u128) -> (r: Option<BuildJob>)
        requires
            self.wf(),
        ensures
            match r {
                Some(j) => contains_id(self.jobs(), id) && j@ == self.jobs()[idx_of(
                    self.jobs(),
                    id,
                )],
                None => !contains_id(self.jobs(), id),
            },
    {
        match self.find_index(id) {
            Some(i) => {
                let r = self.entries[i].job.snapshot();
                proof {
                    assert(self.jobs()[i as int] == self.entries@[i as int].job@);
                    let w = idx_of(self.jobs(), id);
                    assert(self.jobs()[w].id == id);
                    assert(w == i as int);
                }
                Some(r)
            },
            None => None,
        }
    }

    /// Transitions the job to `Running`, stamps its start time, and stores
    /// the cancellable handle of the task performing it. Returns whether
    /// the transition was applied; a missing id or a job not in `Queued`
    /// leaves the store unchanged.
    pub fn start(&mut self, id: u128, handle: tokio::task::AbortHandle, now: u64) -> (r: bool)
        requires
            old(self).wf(),
        ensures
            final(self).wf(),
            r == (contains_id(old(self).jobs(), id) && old(self).jobs()[idx_of(
                old(self).jobs(),
                id,
            )].status is Queued),
            r ==> final(self).jobs() == old(self).jobs().update(
                idx_of(old(self).jobs(), id),
                (JobView {
                    status: JobStatus::Running,
                    started_at: Some(now),
                    ..old(self).jobs()[idx_of(old(self).jobs(), id)]
                }),
            ),
            r ==> final(self).handles() == old(self).handles().update(
                idx_of(old(self).jobs(), id),
                true,
            ),
            !r ==> final(self).entries == old(self).entries,
    {
        match self.find_index(id) {
            Some(ix) => {
                proof {
                    lemma_idx_of_unique(self.jobs(), id, ix as int);
                }
                if matches!(self.entries[ix].job.status, JobStatus::Queued) {
                    proof {
                        assert(self.jobs()[ix as int] == self.entries@[ix as int].job@);
                    }
                    let ghost prev = self.entries@;
                    let mut e = self.entries.remove(ix);
                    e.job.start(now);
                    e.handle = Some(handle);
                    let ghost eg = e;
                    self.entries.insert(ix, e);
                    proof {
                        assert(self.entries@ =~= prev.update(ix as int, eg));
                        lemma_views_update(prev, ix as int, eg);
                        lemma_ids_unique_update(jobs_view(prev), ix as int, eg.job@);
                    }
                    true
                } else {
                    proof {
                        assert(self.jobs()[ix as int] == self.entries@[ix as int].job@);
                    }
                    false
                }
            },
            None => false,
        }
    }

    /// Transitions the job to `Completed`, stamping its completion time and
    /// recording output and artifact. Returns whether the transition was
    /// applied; a missing id or a job not in `Running` leaves the store
    /// unchanged.
    pub fn complete(
        &mut self,
        id: u128,
        output: String,
        artifact_path: Option<String>,
        now: u64,
    ) -> (r: bool)
        requires
            old(self).wf(),
        ensures
            final(self).wf(),
            r == (contains_id(old(self).jobs(), id) && old(self).jobs()[idx_of(
                old(self).jobs(),
                id,
            )].status is Running),
            r ==> final(self).jobs() == old(self).jobs().update(
                idx_of(old(self).jobs(), id),
                (JobView {
                    status: JobStatus::Completed,
                    completed_at: Some(now),
                    output: Some(output@),
                    artifact_path: opt_view(artifact_path),
                    ..old(self).jobs()[idx_of(old(self).jobs(), id)]
                }),
            ),
            r ==> final(self).handles() == old(self).handles(),
            !r ==> final(self).entries == old(self).entries,
    {
        match self.find_index(id) {
            Some(ix) => {
                proof {
                    lemma_idx_of_unique(self.jobs(), id, ix as int);
                }
                if matches!(self.entries[ix].job.status, JobStatus::Running) {
                    proof {
                        assert(self.jobs()[ix as int] == self.entries@[ix as int].job@);
                    }
                    let ghost prev = self.entries@;
                    let mut e = self.entries.remove(ix);
                    e.job.complete(output, artifact_path, now);
                    let ghost eg = e;
                    self.entries.insert(ix, e);
                    proof {
                        assert(self.entries@ =~= prev.update(ix as int, eg));
                        lemma_views_update(prev, ix as int, eg);
                        lemma_ids_unique_update(jobs_view(prev), ix as int, eg.job@);
                        assert(self.handles() =~= handles_view(prev));
                    }
                    true
                } else {
                    proof {
                        assert(self.jobs()[ix as int] == self.entries@[ix as int].job@);
                    }
                    false
                }
            },
            None => false,
        }
    }

    /// Transitions the job to `Failed`, stamping its completion time and
    /// recording the error text. Returns whether the transition was
    /// applied; a missing id or a job not in `Running` leaves the store
    /// unchanged.
    pub fn fail(&mut self, id: u128, error: String, now: u64) -> (r: bool)
        requires
            old(self).wf(),
        ensures
            final(self).wf(),
            r == (contains_id(old(self).jobs(), id) && old(self).jobs()[idx_of(
                old(self).jobs(),
                id,
            )].status is Running),
            r ==> final(self).jobs() == old(self).jobs().update(
                idx_of(old(self).jobs(), id),
                (JobView {
                    status: JobStatus::Failed,
                    completed_at: Some(now),
                    error: Some(error@),
                    ..old(self).jobs()[idx_of(old(self).jobs(), id)]
                }),
            ),
            r ==> final(self).handles() == old(self).handles(),
            !r ==> final(self).entries == old(self).entries,
    {
        match self.find_index(id) {
            Some(ix) => {
                proof {
                    lemma_idx_of_unique(self.jobs(), id, ix as int);
                }
                if matches!(self.entries[ix].job.status, JobStatus::Running) {
                    proof {
                        assert(self.jobs()[ix as int] == self.entries@[ix as int].job@);
                    }
                    let ghost prev = self.entries@;
                    let mut e = self.entries.remove(ix);
                    e.job.fail(error, now);
                    let ghost eg = e;
                    self.entries.insert(ix, e);
                    proof {
                        assert(self.entries@ =~= prev.update(ix as int, eg));
                        lemma_views_update(prev, ix as int, eg);
                        lemma_ids_unique_update(jobs_view(prev), ix as int, eg.job@);
                        assert(self.handles() =~= handles_view(prev));
                    }
                    true
                } else {
                    proof {
                        assert(self.jobs()[ix as int] == self.entries@[ix as int].job@);
                    }
                    false
                }
            },
            None => false,
        }
    }

    /// Cancels a job: aborts its stored task handle, removes the handle,
    /// and forces the status to `Failed` with error text `Job cancelled`.
    /// A job already in a terminal state is left untouched — cancellation
    /// is deliberately a no-op there, so a finished job's record is never
    /// overwritten. Returns whether the job was cancelled.
    pub fn cancel(&mut self, id: u128, now: u64) -> (r: bool)
        requires
            old(self).wf(),
        ensures
            final(self).wf(),
            r == (contains_id(old(self).jobs(), id) && !is_terminal(old(self).jobs()[idx_of(
                old(self).jobs(),
                id,
            )].status)),
            r ==> final(self).jobs() == old(self).jobs().update(
                idx_of(old(self).jobs(), id),
                (JobView {
                    status: JobStatus::Failed,
                    completed_at: Some(now),
                    error: Some("Job cancelled"@),
                    ..old(self).jobs()[idx_of(old(self).jobs(), id)]
                }),
            ),
            r ==> final(self).handles() == old(self).handles().update(
                idx_of(old(self).jobs(), id),
                false,
            ),
            !r ==> final(self).entries == old(self).entries,
    {
        match self.find_index(id) {
            Some(ix) => {
                proof {
                    lemma_idx_of_unique(self.jobs(), id, ix as int);
                }
                let terminal = matches!(self.entries[ix].job.status, JobStatus::Completed)
                    || matches!(self.entries[ix].job.status, JobStatus::Failed);
                if !terminal {
                    proof {
                        assert(self.jobs()[ix as int] == self.entries@[ix as int].job@);
                    }
                    let ghost prev = self.entries@;
                    let mut e = self.entries.remove(ix);
                    match &e.handle {
                        Some(h) => abort_task(h),
                        None => {},
                    }
                    e.handle = None;
                    e.job.status = JobStatus::Failed;
                    e.job.completed_at = Some(now);
                    e.job.error = Some("Job cancelled".to_owned());
                    let ghost eg = e;
                    self.entries.insert(ix, e);
                    proof {
                        reveal_strlit("Job cancelled");
                        assert(self.entries@ =~= prev.update(ix as int, eg));
                        lemma_views_update(prev, ix as int, eg);
                        lemma_ids_unique_update(jobs_view(prev), ix as int, eg.job@);
                    }
                    true
                } else {
                    proof {
                        assert(self.jobs()[ix as int] == self.entries@[ix as int].job@);
                    }
                    false
                }
            },
            None => false,
        }
    }

    /// Sweeps finished jobs: removes exactly the entries whose completion
    /// time precedes `now - max_age`, aborting and dropping their stored
    /// task handles. Jobs inside the window, and jobs that have not
    /// finished, are untouched and keep their order.
    #[verifier::loop_isolation(false)]
    pub fn cleanup_older_than(&mut self, now: u64, max_age: u64)
        requires
            old(self).wf(),
        ensures
            final(self).wf(),
            final(self).jobs() == kept_jobs(old(self).jobs(), now, max_age),
    {
        broadcast use vstd::prelude::Seq::lemma_filter_push;

        let ghost orig = self.entries@;
        let ghost jorig = jobs_view(orig);
        let ghost pred = |j: JobView| !swept(j, now, max_age);
        let total: usize = self.entries.len();
        let ghost n = total as int;
        let mut kept: Vec<JobEntry> = Vec::new();
        let mut i: usize = 0;
        proof {
            assert(jobs_view(orig.take(0)) =~= Seq::<JobView>::empty());
            assert(jobs_view(kept@) =~= Seq::<JobView>::empty());
            assert(Seq::<JobView>::empty().filter(pred) =~= Seq::<JobView>::empty()) by {
                reveal(Seq::filter);
            }
        }
        while self.entries.len() > 0
            invariant
                i + self.entries@.len() == n,
                self.entries@ == orig.skip(i as int),
                jobs_view(kept@) == jobs_view(orig.take(i as int)).filter(pred),
            decreases self.entries@.len(),
        {
            proof {
                assert(orig.skip(i as int)[0] == orig[i as int]);
                assert(orig.skip(i as int).remove(0) =~= orig.skip(i + 1));
            }
            let e = self.entries.remove(0);
            let sweep = match e.job.completed_at {
                Some(t) => (t as u128) + (max_age as u128) < (now as u128),
                None => false,
            };
            proof {
                assert(e.job@ == jobs_view(orig)[i as int]);
                assert(sweep == swept(e.job@, now, max_age));
                assert(jobs_view(orig.take(i + 1)) =~= jobs_view(orig.take(i as int)).push(
                    e.job@,
                ));
            }
            if sweep {
                match &e.handle {
                    Some(h) => abort_task(h),
                    None => {},
                }
            } else {
                let ghost kprev = kept@;
                kept.push(e);
                proof {
                    assert(jobs_view(kept@) =~= jobs_view(kprev).push(e.job@));
                }
            }
            i += 1;
        }
        proof {
            assert(orig.take(n as int) =~= orig);
        }
        self.entries = kept;
        proof {
            lemma_filter_ids_unique(jorig, pred);
        }
    }

    /// Whether a task handle is currently stored for this job.
    pub fn has_handle(&self, id: u128) -> (r: bool)
        requires
            self.wf(),
        ensures
            r == (contains_id(self.jobs(), id) && self.handles()[idx_of(self.jobs(), id)]),
    {
        match self.find_index(id) {
            Some(i) => {
                proof {
                    lemma_idx_of_unique(self.jobs(), id, i as int);
                    assert(self.handles()[i as int] == (self.entries@[i as int].handle is Some));
                }
                self.entries[i].handle.is_some()
            },
            None => false,
        }
    }

    /// Snapshots of every job, in insertion order.
    pub fn list(&self) -> (r: Vec<BuildJob>)
        ensures
            snapshots_view(r@) == self.jobs(),
    {
        let mut out: Vec<BuildJob> = Vec::new();
        let mut i: usize = 0;
        while i < self.entries.len()
            invariant
                i <= self.entries@.len(),
                out@.len() == i,
                forall|k: int|
                    0 <= k < i ==> #[trigger] snapshots_view(out@)[k] == self.jobs()[k],
            decreases self.entries@.len() - i,
        {
            let ghost prev = out@;
            out.push(self.entries[i].job.snapshot());
            proof {
                assert forall|k: int|
                    0 <= k < i + 1 implies #[trigger] snapshots_view(out@)[k]
                    == self.jobs()[k] by {
                    if k < i {
                        assert(out@[k] == prev[k]);
                        assert(snapshots_view(prev)[k] == prev[k]@);
                    }
                    assert(snapshots_view(out@)[k] == out@[k]@);
                    assert(self.jobs()[k] == self.entries@[k].job@);
                }
            }
            i += 1;
        }
        proof {
            assert(snapshots_view(out@) =~= self.jobs());
        }
        out
    }
}

} // verus!
