use nabla_runner::jobs::BuildJob;
use nabla_runner::jobs::JobStatus;
use nabla_runner::jobs::JobStore;

fn test_job() -> BuildJob {
    BuildJob::new(
        "https://example.com/archive.tar.gz".to_string(),
        "owner".to_string(),
        "repo".to_string(),
        "12345".to_string(),
        String::new(),
        Some("customer".to_string()),
    )
}

fn abort_handle(rt: &tokio::runtime::Runtime) -> tokio::task::AbortHandle {
    rt.spawn(std::future::pending::<()>()).abort_handle()
}

#[test]
fn test_new_job_is_queued() {
    let job = test_job();
    assert_eq!(job.status, JobStatus::Queued);
    assert!(job.started_at.is_none());
    assert!(job.completed_at.is_none());
    assert_eq!(job.archive_url, "https://example.com/archive.tar.gz");
    assert_eq!(job.owner, "owner");
    assert_eq!(job.repo, "repo");
    assert!(job.output.is_none());
    assert!(job.error.is_none());
    assert!(job.artifact_path.is_none());
}

#[test]
fn test_job_lifecycle_stamps() {
    let mut job = test_job();
    job.start(100);
    assert_eq!(job.status, JobStatus::Running);
    assert_eq!(job.started_at, Some(100));
    job.complete("built fine".to_string(), Some("firmware.elf".to_string()), 160);
    assert_eq!(job.status, JobStatus::Completed);
    assert_eq!(job.completed_at, Some(160));
    assert_eq!(job.output.as_deref(), Some("built fine"));
    assert_eq!(job.artifact_path.as_deref(), Some("firmware.elf"));
}

#[test]
fn test_job_failure_records_error() {
    let mut job = test_job();
    job.start(5);
    job.fail("compiler exploded".to_string(), 9);
    assert_eq!(job.status, JobStatus::Failed);
    assert_eq!(job.completed_at, Some(9));
    assert_eq!(job.error.as_deref(), Some("compiler exploded"));
}

#[test]
fn test_submit_and_get_snapshot() {
    let mut store = JobStore::new();
    let job = test_job();
    let id = job.id;
    assert_eq!(store.submit(job), Some(id));
    let snap = store.get(id).expect("the job is in the store");
    assert_eq!(snap.id, id);
    assert_eq!(snap.status, JobStatus::Queued);
    // The snapshot is a copy: mutating it does not touch the store.
    let mut snap = snap;
    snap.status = JobStatus::Failed;
    assert_eq!(store.get(id).unwrap().status, JobStatus::Queued);
}

#[test]
fn test_submit_never_overwrites() {
    let mut store = JobStore::new();
    let job = test_job();
    let id = job.id;
    let mut twin = test_job();
    twin.id = id;
    twin.owner = "someone-else".to_string();
    assert_eq!(store.submit(job), Some(id));
    // A second job under the same id is refused, the first kept.
    assert_eq!(store.submit(twin), None);
    assert_eq!(store.get(id).unwrap().owner, "owner");
    assert_eq!(store.list().len(), 1);
}

#[test]
fn test_store_lifecycle_transitions() {
    let rt = tokio::runtime::Runtime::new().unwrap();
    let mut store = JobStore::new();
    let job = test_job();
    let id = job.id;
    store.submit(job).unwrap();
    assert!(store.start(id, abort_handle(&rt), 50));
    assert_eq!(store.get(id).unwrap().status, JobStatus::Running);
    assert_eq!(store.get(id).unwrap().started_at, Some(50));
    // A second start is refused: the job is no longer queued.
    assert!(!store.start(id, abort_handle(&rt), 51));
    assert!(store.complete(id, "done".to_string(), Some("a.elf".to_string()), 60));
    let snap = store.get(id).unwrap();
    assert_eq!(snap.status, JobStatus::Completed);
    assert_eq!(snap.completed_at, Some(60));
    assert_eq!(snap.output.as_deref(), Some("done"));
    assert_eq!(snap.artifact_path.as_deref(), Some("a.elf"));
    // Terminal states are final: neither complete nor fail applies again.
    assert!(!store.complete(id, "again".to_string(), None, 61));
    assert!(!store.fail(id, "late".to_string(), 62));
}

#[test]
fn test_operations_on_unknown_id() {
    let rt = tokio::runtime::Runtime::new().unwrap();
    let mut store = JobStore::new();
    assert!(store.get(7).is_none());
    assert!(!store.start(7, abort_handle(&rt), 1));
    assert!(!store.complete(7, String::new(), None, 1));
    assert!(!store.fail(7, String::new(), 1));
    assert!(!store.cancel(7, 1));
}

#[test]
fn test_cancel_queued_job() {
    // Submit, then cancel before the task finishes: the snapshot reads
    // Failed with "Job cancelled", and the stored handle is gone.
    let rt = tokio::runtime::Runtime::new().unwrap();
    let mut store = JobStore::new();
    let job = test_job();
    let id = job.id;
    store.submit(job).unwrap();
    assert!(store.cancel(id, 30));
    let snap = store.get(id).unwrap();
    assert_eq!(snap.status, JobStatus::Failed);
    assert_eq!(snap.error.as_deref(), Some("Job cancelled"));
    assert_eq!(snap.completed_at, Some(30));
    assert!(!store.has_handle(id));
    drop(rt);
}

#[test]
fn test_cancel_running_job_aborts_its_task() {
    let rt = tokio::runtime::Runtime::new().unwrap();
    let mut store = JobStore::new();
    let job = test_job();
    let id = job.id;
    store.submit(job).unwrap();
    let handle = rt.spawn(std::future::pending::<()>());
    assert!(store.start(id, handle.abort_handle(), 10));
    assert!(store.has_handle(id));
    assert!(store.cancel(id, 20));
    assert!(!store.has_handle(id));
    let snap = store.get(id).unwrap();
    assert_eq!(snap.status, JobStatus::Failed);
    assert_eq!(snap.error.as_deref(), Some("Job cancelled"));
    // The spawned task really was aborted.
    let joined = rt.block_on(handle);
    assert!(joined.is_err());
    assert!(joined.unwrap_err().is_cancelled());
}

#[test]
fn test_cancel_is_a_no_op_on_terminal_jobs() {
    let rt = tokio::runtime::Runtime::new().unwrap();
    let mut store = JobStore::new();
    let job = test_job();
    let id = job.id;
    store.submit(job).unwrap();
    store.start(id, abort_handle(&rt), 1);
    store.complete(id, "done".to_string(), None, 2);
    // A finished job's record is never overwritten by cancellation.
    assert!(!store.cancel(id, 3));
    let snap = store.get(id).unwrap();
    assert_eq!(snap.status, JobStatus::Completed);
    assert!(snap.error.is_none());
}

#[test]
fn test_cleanup_removes_only_old_finished_jobs() {
    // One job completed 10 seconds ago is swept with max_age 0; one job
    // completed just now survives a one-hour window; a running job is
    // never swept.
    let rt = tokio::runtime::Runtime::new().unwrap();
    let now: u64 = 1_000_000;
    let mut store = JobStore::new();

    let old_job = test_job();
    let old_id = old_job.id;
    store.submit(old_job).unwrap();
    store.start(old_id, abort_handle(&rt), now - 20);
    store.complete(old_id, "done".to_string(), None, now - 10);

    let fresh_job = test_job();
    let fresh_id = fresh_job.id;
    store.submit(fresh_job).unwrap();
    store.start(fresh_id, abort_handle(&rt), now - 1);
    store.complete(fresh_id, "done".to_string(), None, now);

    let running_job = test_job();
    let running_id = running_job.id;
    store.submit(running_job).unwrap();
    store.start(running_id, abort_handle(&rt), now);

    store.cleanup_older_than(now, 0);
    assert!(store.get(old_id).is_none());
    assert!(store.get(fresh_id).is_some());
    assert!(store.get(running_id).is_some());

    store.cleanup_older_than(now, 3600);
    assert!(store.get(fresh_id).is_some());
    assert!(store.get(running_id).is_some());
    assert_eq!(store.list().len(), 2);
}

#[test]
fn test_list_keeps_insertion_order() {
    let mut store = JobStore::new();
    let a = test_job();
    let b = test_job();
    let (ida, idb) = (a.id, b.id);
    store.submit(a).unwrap();
    store.submit(b).unwrap();
    let all = store.list();
    assert_eq!(all.len(), 2);
    assert_eq!(all[0].id, ida);
    assert_eq!(all[1].id, idb);
}

#[test]
fn test_fresh_ids_are_distinct_in_practice() {
    // Random v4 ids: two fresh jobs land in the store side by side.
    let mut store = JobStore::new();
    let a = test_job();
    let b = test_job();
    assert!(store.submit(a).is_some());
    assert!(store.submit(b).is_some());
    assert_eq!(store.list().len(), 2);
}
