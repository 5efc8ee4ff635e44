use keeper::engine::FailureReason;
use keeper::manager::{Deleted, DownloadManager, Duplicate, Launch, RestartError, SNAPSHOT_INTERVAL_SECS};
use keeper::record::{DownloadRecord, DownloadStatus, Timestamp};
use keeper::task::Gate;

const U: &str = "https://example.com/files/big.iso";
const V: &str = "https://example.com/files/other.bin";
const W: &str = "http://mirror.example.org/w.tar";

fn at(secs: i64) -> Timestamp {
    Timestamp { secs, nanos: 0 }
}

fn stored(url: &str, status: DownloadStatus, was_paused: bool) -> DownloadRecord {
    let done = status != DownloadStatus::InProgress;
    DownloadRecord {
        url: url.to_string(),
        filename: url.split('/').last().unwrap().to_string(),
        file_path: if status == DownloadStatus::Completed { Some(format!("/d/{}", url.len())) } else { None },
        status,
        date_added: at(10),
        date_completed: if done { Some(at(20)) } else { None },
        downloaded_bytes: if status == DownloadStatus::Completed { 50 } else { 7 },
        total_bytes: 50,
        was_paused,
    }
}

fn well_formed(manager: &DownloadManager) {
    let records = manager.snapshot();
    for (i, a) in records.iter().enumerate() {
        assert!(a.is_well_formed());
        for b in &records[i + 1..] {
            assert_ne!(a.url, b.url);
        }
    }
    assert!(DownloadManager::restore(records).is_some());
}

#[test]
fn new_manager_is_empty() {
    let manager = DownloadManager::new();
    assert!(manager.is_empty());
    assert_eq!(manager.len(), 0);
    assert_eq!(manager.task_count(), 0);
    assert_eq!(manager.next_task_id(), 0);
    assert_eq!(manager.snapshot(), vec![]);
    assert_eq!(manager.lookup(U), None);
}

#[test]
fn enqueue_adds_record_and_task() {
    let mut manager = DownloadManager::new();
    let launch = manager.enqueue_at(U, at(1000)).unwrap();
    assert_eq!(launch, Launch { id: 0, url: U.to_string(), filename: "big.iso".to_string() });
    assert_eq!(manager.snapshot(), vec![DownloadRecord::fresh(U, "big.iso", at(1000))]);
    assert_eq!(manager.task_count(), 1);
    assert_eq!(manager.next_task_id(), 1);
    assert_eq!(manager.gate(0), Gate::Proceed);
    assert!(!manager.is_cancelled(0));
    let second = manager.enqueue_at(V, at(1001)).unwrap();
    assert_eq!(second.id, 1);
    assert_eq!(second.filename, "other.bin");
    assert_eq!(manager.len(), 2);
    assert_eq!(manager.snapshot()[1], DownloadRecord::fresh(V, "other.bin", at(1001)));
    well_formed(&manager);
}

#[test]
fn duplicate_enqueue() {
    let completed = stored(U, DownloadStatus::Completed, false);
    let mut manager = DownloadManager::restore(vec![completed.clone()]).unwrap();
    let before = manager.snapshot();
    let refused = manager.enqueue_at(U, at(5000)).unwrap_err();
    assert_eq!(
        refused,
        Duplicate { status: DownloadStatus::Completed, filename: "big.iso".to_string(), date_added: at(10) }
    );
    assert_eq!(manager.snapshot(), before);
    assert_eq!(manager.task_count(), 0);
    assert_eq!(manager.next_task_id(), 0);
}

#[test]
fn duplicate_is_refused_in_every_status() {
    for (status, paused) in [
        (DownloadStatus::InProgress, false),
        (DownloadStatus::InProgress, true),
        (DownloadStatus::Completed, false),
        (DownloadStatus::Failed, false),
        (DownloadStatus::Cancelled, false),
    ] {
        let mut manager =
            DownloadManager::restore(vec![stored(V, DownloadStatus::Failed, false), stored(U, status, paused)])
                .unwrap();
        let before = manager.snapshot();
        let refused = manager.enqueue_at(U, at(1)).unwrap_err();
        assert_eq!(refused.status, status);
        assert_eq!(refused.filename, "big.iso");
        assert_eq!(manager.snapshot(), before);
        assert_eq!(manager.enqueue_at(U, at(2)).unwrap_err(), refused);
        assert_eq!(manager.snapshot(), before);
    }
}

#[test]
fn enqueue_twice_is_enqueue_once() {
    let mut manager = DownloadManager::new();
    manager.enqueue_at(U, at(1)).unwrap();
    let once = manager.snapshot();
    let refused = manager.enqueue_at(U, at(2)).unwrap_err();
    assert_eq!(refused.status, DownloadStatus::InProgress);
    assert_eq!(refused.date_added, at(1));
    assert_eq!(manager.snapshot(), once);
    assert_eq!(manager.task_count(), 1);
}

#[test]
fn enqueue_reads_the_clock() {
    let mut manager = DownloadManager::new();
    let launch = manager.enqueue(U).unwrap();
    assert_eq!(launch.filename, "big.iso");
    let record = manager.lookup(U).unwrap();
    assert!(record.date_added.secs > 1_600_000_000);
    assert!(record.date_added.nanos < 2_000_000_000);
    assert_eq!(record, DownloadRecord::fresh(U, "big.iso", record.date_added));
    assert!(manager.enqueue(U).is_err());
    assert!(manager.cancel(U));
    let cancelled = manager.lookup(U).unwrap();
    assert_eq!(cancelled.status, DownloadStatus::Cancelled);
    assert!(cancelled.date_completed.unwrap().secs >= record.date_added.secs);
}

#[test]
fn restore_refuses_what_is_not_a_journal() {
    assert!(DownloadManager::restore(vec![]).is_some());
    let ok = vec![stored(U, DownloadStatus::Completed, false), stored(V, DownloadStatus::InProgress, true)];
    let manager = DownloadManager::restore(ok.clone()).unwrap();
    assert_eq!(manager.snapshot(), ok);
    assert_eq!(manager.task_count(), 0);
    let twice = vec![stored(U, DownloadStatus::Completed, false), stored(U, DownloadStatus::Failed, false)];
    assert!(DownloadManager::restore(twice).is_none());
    let mut broken = stored(U, DownloadStatus::Completed, false);
    broken.file_path = None;
    assert!(DownloadManager::restore(vec![stored(V, DownloadStatus::Failed, false), broken]).is_none());
    let mut undated = stored(U, DownloadStatus::Cancelled, false);
    undated.date_completed = None;
    assert!(DownloadManager::restore(vec![undated]).is_none());
}

#[test]
fn lookup_finds_by_url() {
    let manager = DownloadManager::restore(vec![
        stored(U, DownloadStatus::Completed, false),
        stored(V, DownloadStatus::Failed, false),
    ])
    .unwrap();
    assert_eq!(manager.lookup(V), Some(stored(V, DownloadStatus::Failed, false)));
    assert_eq!(manager.lookup(U), Some(stored(U, DownloadStatus::Completed, false)));
    assert_eq!(manager.lookup(W), None);
    assert_eq!(manager.lookup(""), None);
}

#[test]
fn pause_and_resume_are_noted_in_the_record() {
    let mut manager = DownloadManager::new();
    let id = manager.enqueue_at(U, at(1)).unwrap().id;
    manager.enqueue_at(V, at(2)).unwrap();
    assert!(manager.pause(U));
    assert_eq!(manager.gate(id), Gate::Wait);
    assert!(manager.lookup(U).unwrap().was_paused);
    assert!(!manager.lookup(V).unwrap().was_paused);
    assert_eq!(manager.gate(1), Gate::Proceed);
    assert!(manager.pause(U));
    assert_eq!(manager.gate(id), Gate::Wait);
    assert!(manager.resume(U));
    assert_eq!(manager.gate(id), Gate::Proceed);
    assert!(!manager.lookup(U).unwrap().was_paused);
    assert!(!manager.pause(W));
    assert!(!manager.resume(W));
    well_formed(&manager);
}

#[test]
fn pause_needs_a_live_engine() {
    let mut manager = DownloadManager::restore(vec![stored(U, DownloadStatus::InProgress, false)]).unwrap();
    let before = manager.snapshot();
    assert!(!manager.pause(U));
    assert!(!manager.resume(U));
    assert_eq!(manager.snapshot(), before);
}

#[test]
fn user_pause_then_cancel() {
    let mut manager = DownloadManager::new();
    let id = manager.enqueue_at(U, at(1)).unwrap().id;
    assert!(manager.on_total(id, 100 * 1024 * 1024));
    assert!(manager.pause(U));
    assert_eq!(manager.gate(id), Gate::Wait);
    assert!(manager.cancel_at(U, at(50)));
    assert_eq!(manager.gate(id), Gate::Abort);
    assert!(manager.is_cancelled(id));
    let record = manager.lookup(U).unwrap();
    assert_eq!(record.status, DownloadStatus::Cancelled);
    assert_eq!(record.date_completed, Some(at(50)));
    assert_eq!(record.total_bytes, 100 * 1024 * 1024);
    assert!(record.was_paused);
    assert!(!manager.on_error_at(id, FailureReason::Cancelled, at(51)));
    assert_eq!(manager.lookup(U).unwrap(), record);
    assert_eq!(manager.task_count(), 0);
    assert_eq!(manager.gate(id), Gate::Abort);
    well_formed(&manager);
}

#[test]
fn cancel_needs_a_live_engine() {
    let mut manager = DownloadManager::restore(vec![stored(U, DownloadStatus::InProgress, true)]).unwrap();
    assert!(!manager.cancel_at(U, at(5)));
    assert!(!manager.cancel_at(V, at(5)));
    assert_eq!(manager.snapshot(), vec![stored(U, DownloadStatus::InProgress, true)]);
    let mut live = DownloadManager::new();
    live.enqueue_at(U, at(1)).unwrap();
    assert!(live.cancel_at(U, at(2)));
    assert!(!live.cancel_at(U, at(3)));
    assert_eq!(live.lookup(U).unwrap().date_completed, Some(at(2)));
    assert!(!live.pause(U));
}

#[test]
fn size_is_stored_unless_zero() {
    let mut manager = DownloadManager::new();
    let id = manager.enqueue_at(U, at(1)).unwrap().id;
    assert!(!manager.on_total(id, 0));
    assert_eq!(manager.lookup(U).unwrap().total_bytes, 0);
    assert!(manager.on_total(id, 524288));
    assert_eq!(manager.lookup(U).unwrap().total_bytes, 524288);
    assert!(!manager.on_total(id + 1, 99));
    assert_eq!(manager.lookup(U).unwrap().total_bytes, 524288);
    manager.cancel_at(U, at(2));
    assert!(!manager.on_total(id, 77));
    assert_eq!(manager.lookup(U).unwrap().total_bytes, 524288);
}

#[test]
fn snapshot_of_a_running_download() {
    assert_eq!(SNAPSHOT_INTERVAL_SECS, 5);
    let mut manager = DownloadManager::new();
    let id = manager.enqueue_at(U, at(1)).unwrap().id;
    assert!(manager.on_progress(id, 4000, 5));
    assert_eq!(manager.lookup(U).unwrap().downloaded_bytes, 0);
    manager.on_total(id, 10_000);
    assert!(!manager.on_progress(id, 5000, 4));
    assert_eq!(manager.lookup(U).unwrap().downloaded_bytes, 0);
    assert!(manager.on_progress(id, 5000, 5));
    let record = manager.lookup(U).unwrap();
    assert_eq!(record.downloaded_bytes, 5000);
    assert!(!record.was_paused);
    manager.pause(U);
    assert!(manager.on_progress(id, 6000, 60));
    let record = manager.lookup(U).unwrap();
    assert_eq!(record.downloaded_bytes, 6000);
    assert!(record.was_paused);
    assert!(!manager.on_progress(id + 7, 1, 60));
    well_formed(&manager);
}

#[test]
fn completion_finishes_the_record() {
    let mut manager = DownloadManager::new();
    let id = manager.enqueue_at(U, at(1)).unwrap().id;
    manager.on_total(id, 524288);
    manager.on_progress(id, 1000, 9);
    assert!(manager.on_complete_at(id, "/home/u/Downloads/big.iso", at(77)));
    assert_eq!(
        manager.snapshot(),
        vec![DownloadRecord {
            url: U.to_string(),
            filename: "big.iso".to_string(),
            file_path: Some("/home/u/Downloads/big.iso".to_string()),
            status: DownloadStatus::Completed,
            date_added: at(1),
            date_completed: Some(at(77)),
            downloaded_bytes: 524288,
            total_bytes: 524288,
            was_paused: false,
        }]
    );
    assert_eq!(manager.task_count(), 0);
    assert!(!manager.on_complete_at(id, "/elsewhere", at(78)));
    assert_eq!(manager.lookup(U).unwrap().file_path, Some("/home/u/Downloads/big.iso".to_string()));
    well_formed(&manager);
}

#[test]
fn failure_ends_the_record() {
    for (reason, status) in [
        (FailureReason::Cancelled, DownloadStatus::Cancelled),
        (FailureReason::Probe, DownloadStatus::Failed),
        (FailureReason::Sink, DownloadStatus::Failed),
        (FailureReason::Request, DownloadStatus::Failed),
        (FailureReason::Status(404), DownloadStatus::Failed),
        (FailureReason::Stream, DownloadStatus::Failed),
        (FailureReason::Write, DownloadStatus::Failed),
        (FailureReason::Segments, DownloadStatus::Failed),
        (FailureReason::Finalize, DownloadStatus::Failed),
    ] {
        let mut manager = DownloadManager::new();
        manager.enqueue_at(V, at(1)).unwrap();
        let id = manager.enqueue_at(U, at(2)).unwrap().id;
        assert!(manager.on_error_at(id, reason, at(9)));
        let record = manager.lookup(U).unwrap();
        assert_eq!(record.status, status);
        assert_eq!(record.date_completed, Some(at(9)));
        assert_eq!(record.file_path, None);
        assert_eq!(manager.lookup(V).unwrap().status, DownloadStatus::InProgress);
        assert_eq!(manager.task_count(), 1);
        assert_eq!(manager.gate(id), Gate::Abort);
        assert!(!manager.on_error_at(id, reason, at(10)));
        well_formed(&manager);
    }
}

#[test]
fn cancelled_stays_cancelled_when_the_engine_finishes_anyway() {
    let mut manager = DownloadManager::new();
    let id = manager.enqueue_at(U, at(1)).unwrap().id;
    manager.cancel_at(U, at(2));
    let record = manager.lookup(U).unwrap();
    assert!(!manager.on_complete_at(id, "/d/big.iso", at(3)));
    assert_eq!(manager.lookup(U).unwrap(), record);
    assert_eq!(manager.task_count(), 0);
}

#[test]
fn delete_removes_the_record() {
    let mut manager = DownloadManager::restore(vec![
        stored(U, DownloadStatus::Completed, false),
        stored(V, DownloadStatus::Failed, false),
    ])
    .unwrap();
    assert_eq!(manager.delete(W), Deleted { removed: false, now_empty: false });
    assert_eq!(manager.len(), 2);
    assert_eq!(manager.delete(U), Deleted { removed: true, now_empty: false });
    assert_eq!(manager.snapshot(), vec![stored(V, DownloadStatus::Failed, false)]);
    assert_eq!(manager.delete(U), Deleted { removed: false, now_empty: false });
    assert_eq!(manager.delete(V), Deleted { removed: true, now_empty: true });
    assert!(manager.is_empty());
    assert_eq!(manager.delete(V), Deleted { removed: false, now_empty: false });
}

#[test]
fn delete_cancels_a_live_engine() {
    let mut manager = DownloadManager::new();
    let id = manager.enqueue_at(U, at(1)).unwrap().id;
    let other = manager.enqueue_at(V, at(1)).unwrap().id;
    assert_eq!(manager.delete(U), Deleted { removed: true, now_empty: false });
    assert_eq!(manager.gate(id), Gate::Abort);
    assert!(manager.is_cancelled(id));
    assert_eq!(manager.gate(other), Gate::Proceed);
    assert_eq!(manager.lookup(U), None);
    assert!(!manager.on_error_at(id, FailureReason::Cancelled, at(2)));
    assert_eq!(manager.snapshot(), vec![DownloadRecord::fresh(V, "other.bin", at(1))]);
    let again = manager.enqueue_at(U, at(3)).unwrap();
    assert_eq!(again.id, 2);
    well_formed(&manager);
}

#[test]
fn restart_from_cancelled_or_failed() {
    for status in [DownloadStatus::Cancelled, DownloadStatus::Failed] {
        let mut manager = DownloadManager::restore(vec![
            stored(U, status, false),
            stored(V, DownloadStatus::Completed, false),
        ])
        .unwrap();
        let launch = manager.restart_at(U, at(500)).unwrap();
        assert_eq!(launch, Launch { id: 0, url: U.to_string(), filename: "big.iso".to_string() });
        assert_eq!(
            manager.snapshot(),
            vec![stored(V, DownloadStatus::Completed, false), DownloadRecord::fresh(U, "big.iso", at(500))]
        );
        assert_eq!(manager.gate(0), Gate::Proceed);
        well_formed(&manager);
    }
}

#[test]
fn restart_is_refused_otherwise() {
    let mut manager = DownloadManager::restore(vec![
        stored(U, DownloadStatus::Completed, false),
        stored(V, DownloadStatus::InProgress, true),
    ])
    .unwrap();
    let before = manager.snapshot();
    assert_eq!(manager.restart_at(U, at(1)), Err(RestartError::WrongStatus(DownloadStatus::Completed)));
    assert_eq!(manager.restart_at(V, at(1)), Err(RestartError::WrongStatus(DownloadStatus::InProgress)));
    assert_eq!(manager.restart_at(W, at(1)), Err(RestartError::NotFound));
    assert_eq!(manager.snapshot(), before);
    assert_eq!(manager.task_count(), 0);
}

#[test]
fn restart_right_after_cancel_leaves_the_old_engine_out() {
    let mut manager = DownloadManager::new();
    let old = manager.enqueue_at(U, at(1)).unwrap().id;
    manager.cancel_at(U, at(2));
    let new = manager.restart_at(U, at(3)).unwrap().id;
    assert_ne!(old, new);
    assert_eq!(manager.gate(old), Gate::Abort);
    assert_eq!(manager.gate(new), Gate::Proceed);
    assert!(!manager.on_error_at(old, FailureReason::Cancelled, at(4)));
    assert_eq!(manager.snapshot(), vec![DownloadRecord::fresh(U, "big.iso", at(3))]);
    assert_eq!(manager.gate(new), Gate::Proceed);
    assert!(manager.pause(U));
    assert_eq!(manager.gate(new), Gate::Wait);
    well_formed(&manager);
}

#[test]
fn stored_download_is_picked_up() {
    let mut manager = DownloadManager::restore(vec![
        stored(U, DownloadStatus::InProgress, true),
        stored(V, DownloadStatus::Cancelled, false),
    ])
    .unwrap();
    assert_eq!(manager.resume_stored_at(V, at(1)), Err(RestartError::WrongStatus(DownloadStatus::Cancelled)));
    assert_eq!(manager.resume_stored_at(W, at(1)), Err(RestartError::NotFound));
    let launch = manager.resume_stored_at(U, at(9)).unwrap();
    assert_eq!(launch.id, 0);
    assert_eq!(
        manager.snapshot(),
        vec![stored(V, DownloadStatus::Cancelled, false), DownloadRecord::fresh(U, "big.iso", at(9))]
    );
    assert_eq!(manager.resume_stored_at(U, at(10)), Err(RestartError::Busy));
    assert_eq!(manager.len(), 2);
    well_formed(&manager);
}

#[test]
fn reconciliation_resumes_what_was_running() {
    let journal = vec![
        stored(U, DownloadStatus::InProgress, false),
        stored(V, DownloadStatus::Completed, false),
        stored(W, DownloadStatus::InProgress, false),
        stored("https://e/paused", DownloadStatus::InProgress, true),
        stored("https://e/failed", DownloadStatus::Failed, false),
        stored("https://e/cancelled", DownloadStatus::Cancelled, false),
    ];
    let mut manager = DownloadManager::restore(journal).unwrap();
    let launches = manager.reconcile_at(at(900));
    assert_eq!(
        launches,
        vec![
            Launch { id: 0, url: U.to_string(), filename: "big.iso".to_string() },
            Launch { id: 1, url: W.to_string(), filename: "w.tar".to_string() },
        ]
    );
    assert_eq!(
        manager.snapshot(),
        vec![
            stored(V, DownloadStatus::Completed, false),
            stored("https://e/paused", DownloadStatus::InProgress, true),
            stored("https://e/failed", DownloadStatus::Failed, false),
            stored("https://e/cancelled", DownloadStatus::Cancelled, false),
            DownloadRecord::fresh(U, "big.iso", at(900)),
            DownloadRecord::fresh(W, "w.tar", at(900)),
        ]
    );
    assert_eq!(manager.task_count(), 2);
    assert_eq!(manager.next_task_id(), 2);
    assert_eq!(manager.gate(0), Gate::Proceed);
    assert_eq!(manager.gate(1), Gate::Proceed);
    well_formed(&manager);
    assert_eq!(manager.reconcile_at(at(901)), vec![]);
    assert_eq!(manager.len(), 6);
}

#[test]
fn reconciliation_of_nothing() {
    let mut empty = DownloadManager::new();
    assert_eq!(empty.reconcile_at(at(1)), vec![]);
    assert!(empty.is_empty());
    let passive = vec![stored(U, DownloadStatus::Completed, false), stored(V, DownloadStatus::InProgress, true)];
    let mut manager = DownloadManager::restore(passive.clone()).unwrap();
    assert_eq!(manager.reconcile_at(at(1)), vec![]);
    assert_eq!(manager.snapshot(), passive);
    assert_eq!(manager.task_count(), 0);
}

#[test]
fn reconciliation_leaves_live_downloads_alone() {
    let mut manager = DownloadManager::restore(vec![stored(V, DownloadStatus::InProgress, false)]).unwrap();
    let id = manager.enqueue_at(U, at(1)).unwrap().id;
    let launches = manager.reconcile_at(at(2));
    assert_eq!(launches, vec![Launch { id: 1, url: V.to_string(), filename: "other.bin".to_string() }]);
    assert_eq!(
        manager.snapshot(),
        vec![DownloadRecord::fresh(U, "big.iso", at(1)), DownloadRecord::fresh(V, "other.bin", at(2))]
    );
    assert_eq!(manager.gate(id), Gate::Proceed);
    well_formed(&manager);
}

#[test]
fn commands_that_read_the_clock() {
    let mut manager = DownloadManager::restore(vec![
        stored(U, DownloadStatus::InProgress, false),
        stored(V, DownloadStatus::Failed, false),
        stored(W, DownloadStatus::InProgress, true),
    ])
    .unwrap();
    let launches = manager.reconcile();
    assert_eq!(launches.len(), 1);
    assert_eq!(launches[0].url, U);
    let restarted = manager.restart(V).unwrap();
    let resumed = manager.resume_stored(W).unwrap();
    assert_eq!(manager.len(), 3);
    for record in manager.snapshot() {
        assert_eq!(record.status, DownloadStatus::InProgress);
        assert!(record.date_added.secs > 1_600_000_000);
    }
    assert!(manager.on_complete(launches[0].id, "/d/big.iso"));
    assert!(manager.on_error(restarted.id, FailureReason::Status(503)));
    assert!(manager.on_error(resumed.id, FailureReason::Cancelled));
    let done = manager.lookup(U).unwrap();
    assert_eq!(done.status, DownloadStatus::Completed);
    assert!(done.date_completed.unwrap().secs >= done.date_added.secs);
    assert_eq!(manager.lookup(V).unwrap().status, DownloadStatus::Failed);
    assert_eq!(manager.lookup(W).unwrap().status, DownloadStatus::Cancelled);
    assert_eq!(manager.task_count(), 0);
    well_formed(&manager);
}
