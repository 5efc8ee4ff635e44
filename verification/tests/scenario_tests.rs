use keeper::engine::{DownloadEngine, EngineAction, EngineEvent, EngineState, FailureReason, Outcome};
use keeper::manager::{DownloadManager, Duplicate};
use keeper::progress::Progress;
use keeper::record::{DownloadRecord, DownloadStatus, Timestamp};
use keeper::request::{range_header, read_probe, resume_header};
use keeper::retry::{RetryDecision, RetryState, TransportFailure};
use keeper::task::Gate;
use keeper::transfer::{ParallelTransfer, SequentialTransfer};

const MIB: u64 = 1024 * 1024;
const PIECE: usize = 64 * 1024;

fn at(secs: i64) -> Timestamp {
    Timestamp { secs, nanos: 0 }
}

/// The resource that the stand-in server holds: byte `i` is a mix of the low
/// bits of `i`.
fn source(len: u64) -> Vec<u8> {
    (0..len).map(|i| (i ^ (i >> 8) ^ (i >> 16)) as u8).collect()
}

/// A stand-in for the remote side and the disk of one download.
struct World {
    body: Vec<u8>,
    accept_ranges: bool,
    partial: Option<Vec<u8>>,
    final_file: Option<Vec<u8>>,
    requests: Vec<Option<String>>,
    reports: Vec<Progress>,
}

impl World {
    fn new(len: u64, accept_ranges: bool) -> World {
        World {
            body: source(len),
            accept_ranges,
            partial: None,
            final_file: None,
            requests: Vec::new(),
            reports: Vec::new(),
        }
    }

    fn stream(&mut self, manager: &DownloadManager, id: u64, resume_from: u64, total_bytes: u64) -> EngineEvent {
        self.requests.push(resume_header(resume_from));
        let mut books = SequentialTransfer::start(resume_from, total_bytes);
        let mut file = self.partial.take().unwrap_or_default();
        let body = self.body[resume_from as usize..].to_vec();
        for piece in body.chunks(PIECE) {
            if manager.gate(id) == Gate::Abort {
                self.partial = Some(file);
                return EngineEvent::StreamFailed(FailureReason::Cancelled);
            }
            let offset = books.place(piece.len() as u64).unwrap();
            assert_eq!(offset as usize, file.len());
            file.extend_from_slice(piece);
            if let Some(report) = books.tick(250) {
                self.reports.push(report);
            }
        }
        self.partial = Some(file);
        EngineEvent::StreamEnded
    }

    fn segments(&mut self, manager: &DownloadManager, id: u64, total_bytes: u64) -> EngineEvent {
        let mut books = ParallelTransfer::start(total_bytes).unwrap();
        let ranges = books.ranges();
        let mut cursors: Vec<u64> = ranges.iter().map(|r| r.start).collect();
        for range in &ranges {
            self.requests.push(Some(range_header(*range)));
        }
        let mut all_ok = true;
        // The segments take turns, one piece each, as if they ran at once.
        loop {
            let mut moved = false;
            for (index, range) in ranges.iter().enumerate() {
                if cursors[index] > range.end {
                    continue;
                }
                if manager.gate(id) == Gate::Abort {
                    all_ok = false;
                    continue;
                }
                let len = (range.end - cursors[index] + 1).min(PIECE as u64);
                let offset = books.place(index, len).unwrap();
                assert_eq!(offset, cursors[index]);
                let from = offset as usize;
                let to = from + len as usize;
                self.partial.as_mut().unwrap()[from..to].copy_from_slice(&self.body[from..to]);
                cursors[index] += len;
                moved = true;
                if let Some(report) = books.tick(250) {
                    self.reports.push(report);
                }
            }
            if !moved {
                break;
            }
        }
        for index in 0..ranges.len() {
            if books.finish(index).is_err() {
                all_ok = false;
            }
        }
        EngineEvent::SegmentsDone { all_ok, cancelled: manager.is_cancelled(id) }
    }

    /// Runs one engine to its end.
    fn run(&mut self, manager: &mut DownloadManager, id: u64) -> (EngineState, Vec<EngineAction>) {
        let mut engine = DownloadEngine::new();
        let mut action = EngineAction::Probe;
        let mut trace = vec![action];
        loop {
            let event = match action {
                EngineAction::Probe => {
                    let length = self.body.len().to_string();
                    let ranges = if self.accept_ranges { Some("bytes") } else { None };
                    EngineEvent::Probed(read_probe(Some(&length), ranges))
                }
                EngineAction::InspectPartial { record_total } => {
                    manager.on_total(id, record_total);
                    EngineEvent::PartialChecked { size: self.partial.as_ref().map(|p| p.len() as u64) }
                }
                EngineAction::Allocate { total_bytes } => {
                    self.partial = Some(vec![0; total_bytes as usize]);
                    EngineEvent::SinkReady
                }
                EngineAction::RunSegments => {
                    let total = self.body.len() as u64;
                    self.segments(manager, id, total)
                }
                EngineAction::RunStream { resume_from, total_bytes } => {
                    self.stream(manager, id, resume_from, total_bytes)
                }
                EngineAction::Promote => {
                    self.final_file = self.partial.take();
                    EngineEvent::Promoted
                }
                EngineAction::Complete => {
                    manager.on_complete_at(id, "/downloads/file", at(99));
                    return (engine.current(), trace);
                }
                EngineAction::Fail { reason, discard_partial } => {
                    if discard_partial {
                        self.partial = None;
                    }
                    manager.on_error_at(id, reason, at(99));
                    return (engine.current(), trace);
                }
                EngineAction::Nothing => return (engine.current(), trace),
            };
            action = engine.step(event);
            trace.push(action);
        }
    }
}

#[test]
fn scenario_small_sequential() {
    let url = "https://example.com/small.bin";
    let mut world = World::new(512 * 1024, true);
    let mut manager = DownloadManager::new();
    let id = manager.enqueue_at(url, at(1)).unwrap().id;
    let (end, trace) = world.run(&mut manager, id);
    assert_eq!(end, EngineState::Finished(Outcome::Completed));
    assert!(trace.contains(&EngineAction::RunStream { resume_from: 0, total_bytes: 524288 }));
    assert!(!trace.contains(&EngineAction::RunSegments));
    assert_eq!(world.requests, vec![None]);
    assert_eq!(world.final_file.as_ref().unwrap().len(), 524288);
    assert_eq!(world.final_file, Some(source(524288)));
    let record = manager.lookup(url).unwrap();
    assert_eq!(record.status, DownloadStatus::Completed);
    assert_eq!(record.total_bytes, 524288);
    assert_eq!(record.downloaded_bytes, 524288);
}

#[test]
fn scenario_parallel_four_segments() {
    let url = "https://example.com/forty.bin";
    let mut world = World::new(40 * MIB, true);
    let mut manager = DownloadManager::new();
    let id = manager.enqueue_at(url, at(1)).unwrap().id;
    let (end, trace) = world.run(&mut manager, id);
    assert_eq!(end, EngineState::Finished(Outcome::Completed));
    assert!(trace.contains(&EngineAction::Allocate { total_bytes: 40 * MIB }));
    assert!(trace.contains(&EngineAction::RunSegments));
    assert_eq!(
        world.requests,
        vec![
            Some("bytes=0-10485759".to_string()),
            Some("bytes=10485760-20971519".to_string()),
            Some("bytes=20971520-31457279".to_string()),
            Some("bytes=31457280-41943039".to_string()),
        ]
    );
    assert!(world.final_file.as_ref() == Some(&world.body));
    assert!(world.reports.iter().all(|r| r.parallel && r.total_bytes == 40 * MIB));
    assert_eq!(world.reports.last().unwrap().downloaded, 40 * MIB);
    assert_eq!(manager.lookup(url).unwrap().status, DownloadStatus::Completed);
}

#[test]
fn scenario_resume_after_interrupt() {
    let url = "https://example.com/forty.bin";
    let mut world = World::new(40 * MIB, true);
    let mut manager = DownloadManager::new();
    let id = manager.enqueue_at(url, at(1)).unwrap().id;
    manager.on_total(id, 40 * MIB);
    // The process is killed when twelve of the forty mebibytes are in the
    // partial file; the journal on disk is what was last written.
    world.partial = Some(world.body[..12 * MIB as usize].to_vec());
    let journal = manager.snapshot();
    assert_eq!(journal[0].status, DownloadStatus::InProgress);
    assert!(!journal[0].was_paused);

    let mut manager = DownloadManager::restore(journal).unwrap();
    let launches = manager.reconcile_at(at(50));
    assert_eq!(launches.len(), 1);
    assert_eq!(launches[0].url, url);
    let (end, trace) = world.run(&mut manager, launches[0].id);
    assert_eq!(end, EngineState::Finished(Outcome::Completed));
    assert!(trace.contains(&EngineAction::RunStream { resume_from: 12 * MIB, total_bytes: 40 * MIB }));
    assert!(!trace.contains(&EngineAction::RunSegments));
    assert_eq!(world.requests, vec![Some("bytes=12582912-".to_string())]);
    assert_eq!(world.final_file.as_ref().unwrap().len() as u64, 40 * MIB);
    assert!(world.final_file.as_ref() == Some(&world.body));
    assert_eq!(manager.lookup(url).unwrap().status, DownloadStatus::Completed);
}

#[test]
fn scenario_user_pause_then_cancel() {
    let url = "https://example.com/hundred.bin";
    let mut manager = DownloadManager::new();
    let id = manager.enqueue_at(url, at(1)).unwrap().id;
    manager.on_total(id, 100 * MIB);
    let mut books = ParallelTransfer::start(100 * MIB).unwrap();
    assert_eq!(books.ranges().len(), 6);
    let mut reports = Vec::new();
    let mut index = 0;
    while books.total() < 20 * MIB {
        assert_eq!(manager.gate(id), Gate::Proceed);
        books.place(index % 6, PIECE as u64).unwrap();
        reports.extend(books.tick(200));
        index += 1;
    }
    assert!(manager.pause(url));
    let before = reports.len();
    for _ in 0..20 {
        // Two seconds of looks, a hundred milliseconds apart: data is held,
        // so nothing is placed and nothing is reported.
        assert_eq!(manager.gate(id), Gate::Wait);
    }
    assert_eq!(reports.len(), before);
    assert!(manager.cancel_at(url, at(7)));
    assert_eq!(manager.gate(id), Gate::Abort);

    let mut engine = DownloadEngine::new();
    engine.step(EngineEvent::Probed(read_probe(Some("104857600"), Some("bytes"))));
    engine.step(EngineEvent::PartialChecked { size: None });
    engine.step(EngineEvent::SinkReady);
    let action = engine.step(EngineEvent::SegmentsDone { all_ok: false, cancelled: manager.is_cancelled(id) });
    assert_eq!(action, EngineAction::Fail { reason: FailureReason::Cancelled, discard_partial: true });
    manager.on_error_at(id, FailureReason::Cancelled, at(8));
    let record = manager.lookup(url).unwrap();
    assert_eq!(record.status, DownloadStatus::Cancelled);
    assert_eq!(record.date_completed, Some(at(7)));
}

#[test]
fn scenario_cancel_in_the_middle_of_a_stream() {
    let url = "https://example.com/plain.bin";
    let mut world = World::new(3 * MIB, false);
    let mut manager = DownloadManager::new();
    let id = manager.enqueue_at(url, at(1)).unwrap().id;
    manager.cancel_at(url, at(2));
    let (end, trace) = world.run(&mut manager, id);
    assert_eq!(end, EngineState::Finished(Outcome::Failed(FailureReason::Cancelled)));
    assert_eq!(
        trace.last(),
        Some(&EngineAction::Fail { reason: FailureReason::Cancelled, discard_partial: true })
    );
    assert_eq!(world.partial, None);
    assert_eq!(world.final_file, None);
    assert_eq!(manager.lookup(url).unwrap().status, DownloadStatus::Cancelled);
}

#[test]
fn scenario_network_flap_on_head() {
    let refused = TransportFailure { timeout: false, connect: true, request: true };
    let mut outcomes = vec![Err(refused), Err(refused), Ok("524288")].into_iter();
    let mut state = RetryState::standard();
    let mut sleeps = Vec::new();
    let answer = loop {
        match outcomes.next().unwrap() {
            Ok(length) => break Some(length),
            Err(failure) => match state.on_failure(&failure) {
                RetryDecision::RetryAfter { delay_secs } => sleeps.push(delay_secs),
                RetryDecision::GiveUp => break None,
            },
        }
    };
    assert_eq!(sleeps, vec![2, 4]);
    let mut flapped = DownloadEngine::new();
    let mut direct = DownloadEngine::new();
    let after_flap = flapped.step(EngineEvent::Probed(read_probe(answer, Some("bytes"))));
    let after_direct = direct.step(EngineEvent::Probed(read_probe(Some("524288"), Some("bytes"))));
    assert_eq!(after_flap, after_direct);
    assert_eq!(flapped.current(), direct.current());
}

#[test]
fn scenario_duplicate_enqueue() {
    let url = "https://example.com/u.bin";
    let completed = DownloadRecord {
        url: url.to_string(),
        filename: "u.bin".to_string(),
        file_path: Some("/downloads/u.bin".to_string()),
        status: DownloadStatus::Completed,
        date_added: at(11),
        date_completed: Some(at(12)),
        downloaded_bytes: 9,
        total_bytes: 9,
        was_paused: false,
    };
    let mut manager = DownloadManager::restore(vec![completed.clone()]).unwrap();
    assert_eq!(
        manager.enqueue_at(url, at(100)),
        Err(Duplicate { status: DownloadStatus::Completed, filename: "u.bin".to_string(), date_added: at(11) })
    );
    assert_eq!(manager.snapshot(), vec![completed]);
}
