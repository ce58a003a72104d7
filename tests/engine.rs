use dlog::backlog::{backoff_secs, Backlog, BacklogAction, BacklogSignal};
use dlog::codec::{decode_backlog, encode_backlog};
use dlog::dispatch::{flush_result, startup, Ack, Lifecycle};
use dlog::ingest::{contains_text, HttpIngestor, Response};
use dlog::models::{Log, Priority, Timestamp};
use dlog::worker::{Route, SendOutcome, Signal, Worker, WorkerAction, FLUSH_CHUNK_SIZE};

/// A worker and a backlog wired together, with an in-memory endpoint and
/// backlog file.
struct Harness {
    worker: Worker,
    backlog: Backlog,
    file: String,
    delivered: Vec<Log>,
    reachable: bool,
    disk_writable: bool,
    clock: i128,
}

impl Harness {
    fn new() -> Harness {
        Harness::with_file(String::new())
    }

    fn with_file(file: String) -> Harness {
        let mut backlog = Backlog::new();
        backlog.load(decode_backlog(&file));
        Harness {
            worker: Worker::new(),
            backlog,
            file: String::new(),
            delivered: Vec::new(),
            reachable: true,
            disk_writable: true,
            clock: 1_600_000_000_000_000_000,
        }
    }

    fn respond(&self) -> Response {
        if self.reachable {
            Response::Answered { success: true, body: String::new() }
        } else {
            Response::Unreachable("connection refused".to_string())
        }
    }

    fn send(&mut self, batch: &[Log]) -> Result<(), Log> {
        let outcome = HttpIngestor::log_outcome(self.respond());
        if outcome.is_ok() {
            for e in batch {
                self.delivered.push(e.duplicate());
            }
        }
        outcome
    }

    fn log(&mut self, text: &str) {
        self.clock += 1;
        let e = Log::at(Timestamp { unix_nanos: self.clock }, Priority::Info, text.to_string());
        self.signal(Signal::Log(e));
    }

    fn signal(&mut self, s: Signal) {
        match self.worker.receive(s) {
            WorkerAction::Idle => {}
            WorkerAction::Flush => self.worker_flush(),
            WorkerAction::FlushAndSync => {
                self.worker_flush();
                assert_eq!(
                    self.backlog.receive(BacklogSignal::Flush),
                    BacklogAction::RetryAndAnswer
                );
                self.retry();
            }
            WorkerAction::FlushAndExit => {
                self.worker_flush();
                assert_eq!(
                    self.backlog.receive(BacklogSignal::Exit),
                    BacklogAction::PersistAndStop
                );
                self.persist();
            }
        }
    }

    fn worker_flush(&mut self) {
        match self.worker.flush(self.backlog.is_empty()) {
            Route::Nothing => {}
            Route::ToBacklog(b) => {
                self.backlog.receive(BacklogSignal::Entries(b));
            }
            Route::Send(b) => {
                let result = self.send(&b);
                match Worker::send_outcome(b, result) {
                    SendOutcome::Delivered(_) => {}
                    SendOutcome::Failed { to_backlog, report } => {
                        self.backlog.receive(BacklogSignal::Entries(to_backlog));
                        self.signal(Signal::Log(report));
                    }
                }
            }
        }
    }

    fn retry(&mut self) {
        if !self.backlog.should_retry() {
            return;
        }
        if HttpIngestor::check(&self.respond()) {
            let disk = decode_backlog(&self.file);
            self.file.clear();
            self.backlog.load(disk);
            while let Some(chunk) = self.backlog.next_chunk() {
                let result = self.send(&chunk);
                if self.backlog.sent(chunk, result).is_none() {
                    return;
                }
            }
            self.backlog.drained();
        } else {
            self.persist();
        }
    }

    fn persist(&mut self) {
        let copy = self.backlog.pending_entries();
        if self.disk_writable {
            self.file.push_str(&encode_backlog(&copy));
        }
        self.backlog.persisted(self.disk_writable);
    }

    fn user_texts(&self) -> Vec<String> {
        self.delivered
            .iter()
            .filter(|e| !e.text.starts_with("[dlog]"))
            .map(|e| e.text.clone())
            .collect()
    }
}

fn texts(prefix: &str, n: usize) -> Vec<String> {
    (0..n).map(|i| format!("{}{}", prefix, i)).collect()
}

#[test]
fn flush_delivers_everything_logged_before_it() {
    let mut h = Harness::new();
    let logged = texts("entry ", 2_500);
    for t in &logged {
        h.log(t);
    }
    // two full chunks already went out on their own
    assert_eq!(h.delivered.len(), 2 * FLUSH_CHUNK_SIZE);
    h.signal(Signal::Flush);
    assert_eq!(h.user_texts(), logged);
    assert_eq!(h.worker.pending(), 0);
    assert!(h.backlog.is_empty());
    assert!(h.file.is_empty());
}

#[test]
fn failed_batch_is_delivered_before_later_entries() {
    let mut h = Harness::new();
    h.log("b1-a");
    h.log("b1-b");
    h.reachable = false;
    h.worker_flush();
    assert_eq!(h.backlog.pending(), 2);
    assert!(!h.backlog.is_empty());
    // the failure report went through the worker's input
    assert_eq!(h.worker.pending(), 1);
    h.reachable = true;
    h.log("b2-a");
    h.log("b2-b");
    // the backlog still holds B1, so B2 is queued behind it
    h.worker_flush();
    assert!(h.delivered.is_empty());
    h.retry();
    assert_eq!(h.user_texts(), vec!["b1-a", "b1-b", "b2-a", "b2-b"]);
    let reports: Vec<&Log> = h.delivered.iter().filter(|e| e.text.starts_with("[dlog]")).collect();
    assert_eq!(reports.len(), 1);
    assert_eq!(reports[0].priority, Priority::Trace);
    assert_eq!(reports[0].text, "[dlog] API connection error: connection refused");
}

#[test]
fn outage_of_three_ticks_then_recovery_delivers_once_in_order() {
    let mut h = Harness::new();
    h.reachable = false;
    let logged = texts("during outage ", 5);
    for t in &logged {
        h.log(t);
    }
    h.worker_flush();
    let mut waits = Vec::new();
    for _ in 0..3 {
        h.retry();
        waits.push(h.backlog.retry_interval_secs());
        h.worker_flush();
    }
    // an unreachable endpoint does not lengthen the wait
    assert_eq!(waits, vec![10, 10, 10]);
    assert!(h.delivered.is_empty());
    assert!(!h.file.is_empty());
    h.reachable = true;
    h.retry();
    assert_eq!(h.user_texts(), logged);
    assert_eq!(h.backlog.retry_interval_secs(), 10);
    assert!(h.backlog.is_empty());
    // each logged entry was delivered once
    assert_eq!(h.user_texts().len(), logged.len());
    assert!(h.file.is_empty());
    // nothing more is sent later
    let before = h.delivered.len();
    h.retry();
    h.worker_flush();
    assert_eq!(h.delivered.len(), before);
}

#[test]
fn startup_reads_the_backlog_file_first() {
    let old = vec![
        Log::at(Timestamp { unix_nanos: 1 }, Priority::Error, "from last run".to_string()),
        Log::at(Timestamp { unix_nanos: 2 }, Priority::Info, "also old".to_string()),
    ];
    let mut h = Harness::with_file(format!("{}not an entry\n", encode_backlog(&old)));
    assert_eq!(h.backlog.pending(), 2);
    assert!(!h.backlog.is_empty());
    h.log("new");
    h.worker_flush();
    h.retry();
    assert_eq!(h.user_texts(), vec!["from last run", "also old", "new"]);
}

#[test]
fn new_backlog_waits_for_its_file() {
    let mut b = Backlog::new();
    assert!(!b.is_empty());
    assert!(b.should_retry());
    assert!(b.next_chunk().is_none());
    b.load(Vec::new());
    assert!(b.is_empty());
    assert!(!b.should_retry());
}

#[test]
fn failed_chunk_goes_back_to_the_front_with_its_report() {
    let mut b = Backlog::new();
    b.load(Vec::new());
    let batch: Vec<Log> = (0..1_500)
        .map(|i| Log::at(Timestamp { unix_nanos: i }, Priority::Info, format!("e{}", i)))
        .collect();
    b.receive(BacklogSignal::Entries(batch));
    let first = b.next_chunk().unwrap();
    assert_eq!(first.len(), 1_000);
    assert_eq!(first[0].text, "e0");
    assert_eq!(b.pending(), 500);
    let second = b.next_chunk().unwrap();
    assert_eq!(second.len(), 500);
    let report = Log::at(Timestamp { unix_nanos: 0 }, Priority::Trace, "[dlog] failed".to_string());
    b.chunk_failed(second, report);
    assert_eq!(b.pending(), 501);
    assert_eq!(b.retry_interval_secs(), 10);
    let again = b.next_chunk().unwrap();
    assert_eq!(again[0].text, "e1000");
    assert_eq!(again[499].text, "e1499");
    assert_eq!(again[500].text, "[dlog] failed");
    b.drained();
    assert_eq!(b.retry_interval_secs(), 10);
}

#[test]
fn backoff_doubles_and_caps() {
    let waits: Vec<u64> = (0..8).map(backoff_secs).collect();
    assert_eq!(waits, vec![10, 10, 20, 40, 80, 120, 120, 120]);
    assert_eq!(backoff_secs(u32::MAX), 120);
}

#[test]
fn backoff_counts_failures_and_resets_on_success() {
    let mut b = Backlog::new();
    b.load(Vec::new());
    let entry = || Log::at(Timestamp { unix_nanos: 0 }, Priority::Info, "x".to_string());
    b.receive(BacklogSignal::Entries(vec![entry()]));
    let mut waits = Vec::new();
    for _ in 0..4 {
        let chunk = b.next_chunk().unwrap();
        b.chunk_failed(chunk, entry());
        waits.push(b.retry_interval_secs());
    }
    assert_eq!(waits, vec![10, 20, 40, 80]);
    // a drain that leaves entries behind does not reset
    b.drained();
    assert_eq!(b.retry_interval_secs(), 80);
    while b.next_chunk().is_some() {}
    b.drained();
    assert_eq!(b.retry_interval_secs(), 10);
}

#[test]
fn retry_and_wait_notes() {
    let mut b = Backlog::new();
    b.load(Vec::new());
    let e = || Log::at(Timestamp { unix_nanos: 0 }, Priority::Info, "x".to_string());
    b.receive(BacklogSignal::Entries(vec![e(), e(), e()]));
    let note = b.retry_note();
    assert_eq!(note.priority, Priority::Trace);
    assert_eq!(note.text, "[dlog] Retrying ingest for 3 logs");
    let chunk = b.next_chunk().unwrap();
    b.chunk_failed(chunk, e());
    let chunk = b.next_chunk().unwrap();
    b.chunk_failed(chunk, e());
    assert_eq!(b.wait_note().text, "[dlog] Will retry in 20 seconds");
}

#[test]
fn clean_up_twice_persists_once() {
    let mut life = Lifecycle::new();
    assert!(life.clean_up());
    assert!(!life.clean_up());
    assert!(life.is_stopped());

    let mut h = Harness::new();
    h.reachable = false;
    h.log("pending");
    h.signal(Signal::Exit);
    assert!(h.worker.is_exiting());
    assert!(h.backlog.is_exiting());
    let once = h.file.clone();
    let persisted = decode_backlog(&once);
    assert_eq!(persisted.len(), 1);
    assert_eq!(persisted[0].text, "pending");
    // a second exit finds nothing left to write
    assert!(h.backlog.pending_entries().is_empty());
    h.persist();
    assert_eq!(h.file, once);
}

#[test]
fn invalid_credential_stops_startup() {
    let answer = Response::Answered {
        success: false,
        body: "{\"error\":\"Invalid API_KEY\"}".to_string(),
    };
    let valid = HttpIngestor::has_valid_api_key(&answer);
    assert!(!valid);
    let started = startup(valid);
    assert_eq!(
        started,
        Err("[dlog::logger] Please configure dlog with a valid API_KEY".to_string())
    );
    // nothing was queued
    let worker = Worker::new();
    assert_eq!(worker.pending(), 0);
}

#[test]
fn credential_checks() {
    let ok = Response::Answered { success: true, body: "{}".to_string() };
    assert!(HttpIngestor::has_valid_api_key(&ok));
    assert!(HttpIngestor::check(&ok));
    let down = Response::Unreachable("timeout".to_string());
    assert!(HttpIngestor::has_valid_api_key(&down));
    assert!(!HttpIngestor::check(&down));
    let refused = Response::Answered { success: false, body: "nope".to_string() };
    assert!(!HttpIngestor::check(&refused));
    assert_eq!(startup(true), Ok(()));
}

#[test]
fn log_outcome_reports_failures() {
    assert!(HttpIngestor::log_outcome(Response::Answered { success: true, body: String::new() }).is_ok());
    let e = HttpIngestor::log_outcome(Response::Answered {
        success: false,
        body: "quota exceeded".to_string(),
    })
    .unwrap_err();
    assert_eq!(e.priority, Priority::Trace);
    assert_eq!(e.text, "[dlog] Log ingestion failed: quota exceeded");
}

#[test]
fn flush_result_fails_unless_acknowledged() {
    assert_eq!(flush_result(Ack::Received), Ok(()));
    assert_eq!(
        flush_result(Ack::TimedOut),
        Err("[dlog::logger] Timed out waiting for the flush to complete".to_string())
    );
    assert_eq!(
        flush_result(Ack::Disconnected),
        Err("[dlog::logger] Failed to receive thread signal".to_string())
    );
}

#[test]
fn contains_text_finds_substrings() {
    assert!(contains_text("abc", ""));
    assert!(contains_text("xxInvalid API_KEYyy", "Invalid API_KEY"));
    assert!(!contains_text("Invalid API", "Invalid API_KEY"));
    assert!(contains_text("aab", "ab"));
    assert!(!contains_text("", "a"));
}

#[test]
fn worker_signals() {
    let mut w = Worker::new();
    let e = Log::at(Timestamp { unix_nanos: 0 }, Priority::Info, "x".to_string());
    assert_eq!(w.receive(Signal::Log(e)), WorkerAction::Idle);
    assert_eq!(w.pending(), 1);
    assert_eq!(w.receive(Signal::Flush), WorkerAction::FlushAndSync);
    assert!(!w.is_exiting());
    assert_eq!(w.receive(Signal::Exit), WorkerAction::FlushAndExit);
    assert!(w.is_exiting());
    match w.flush(false) {
        Route::ToBacklog(b) => assert_eq!(b.len(), 1),
        _ => panic!("expected the chunk to go behind the backlog"),
    }
    assert!(matches!(w.flush(true), Route::Nothing));
}

#[test]
fn worker_flushes_at_chunk_size() {
    let mut w = Worker::new();
    for i in 0..FLUSH_CHUNK_SIZE - 1 {
        let e = Log::at(Timestamp { unix_nanos: i as i128 }, Priority::Info, "x".to_string());
        assert!(!w.add(e));
    }
    let e = Log::at(Timestamp { unix_nanos: 0 }, Priority::Info, "last".to_string());
    assert_eq!(w.receive(Signal::Log(e)), WorkerAction::Flush);
    match w.flush(true) {
        Route::Send(b) => {
            assert_eq!(b.len(), FLUSH_CHUNK_SIZE);
            assert_eq!(b[FLUSH_CHUNK_SIZE - 1].text, "last");
        }
        _ => panic!("expected a direct send"),
    }
    assert_eq!(w.pending(), 0);
}

#[test]
fn failed_disk_write_keeps_the_queue() {
    let mut h = Harness::new();
    h.reachable = false;
    h.disk_writable = false;
    h.log("keep me");
    h.worker_flush();
    h.retry();
    assert!(h.file.is_empty());
    assert_eq!(h.backlog.pending(), 1);
    assert_eq!(h.backlog.retry_interval_secs(), 10);
    h.reachable = true;
    h.worker_flush();
    h.retry();
    assert_eq!(h.user_texts(), vec!["keep me"]);
}

#[test]
fn send_outcome_routes_failures() {
    let batch = vec![Log::at(Timestamp { unix_nanos: 0 }, Priority::Info, "x".to_string())];
    match Worker::send_outcome(batch, Ok(())) {
        SendOutcome::Delivered(b) => assert_eq!(b.len(), 1),
        _ => panic!("expected delivery"),
    }
    let batch = vec![Log::at(Timestamp { unix_nanos: 0 }, Priority::Info, "y".to_string())];
    let report = Log::at(Timestamp { unix_nanos: 0 }, Priority::Trace, "[dlog] down".to_string());
    match Worker::send_outcome(batch, Err(report)) {
        SendOutcome::Failed { to_backlog, report } => {
            assert_eq!(to_backlog[0].text, "y");
            assert_eq!(report.text, "[dlog] down");
        }
        _ => panic!("expected a failure"),
    }
}
