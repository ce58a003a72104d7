use dlog::memory::InMemoryEngine;
use dlog::models::{Log, Priority, Timestamp};

fn entry(n: i128, text: &str) -> Log {
    Log::at(Timestamp { unix_nanos: n }, Priority::Info, text.to_string())
}

fn report() -> Log {
    Log::at(Timestamp { unix_nanos: 0 }, Priority::Trace, "[dlog] failed".to_string())
}

fn texts(v: &Vec<Log>) -> Vec<String> {
    v.iter().map(|e| e.text.clone()).collect()
}

#[test]
fn engine_outage_then_recovery() {
    let mut e = InMemoryEngine::new();
    assert!(e.log(entry(1, "a"), Ok(())).is_none());
    assert!(e.log(entry(2, "b"), Ok(())).is_none());
    // the direct send fails: the batch goes to the backlog, the report comes back
    let r = e.tick(Err(report())).unwrap();
    assert!(e.inject(r, Ok(())).is_none());
    assert_eq!(e.pending(), (2, 1));
    let mut waits = Vec::new();
    for _ in 0..3 {
        e.probe(false, true);
        waits.push(e.retry_interval_secs());
        assert!(e.tick(Ok(())).is_none());
    }
    assert_eq!(waits, vec![10, 10, 10]);
    assert!(e.delivered().is_empty());
    assert_eq!(texts(e.file()), vec!["a", "b", "[dlog] failed"]);
    e.log(entry(3, "c"), Ok(()));
    e.tick(Ok(()));
    e.probe(true, true);
    assert!(e.file().is_empty());
    e.drain(Ok(()));
    assert_eq!(texts(e.delivered()), vec!["a", "b", "[dlog] failed", "c"]);
    assert_eq!(e.pending(), (0, 0));
}

#[test]
fn engine_failed_chunk_returns_to_front() {
    let mut e = InMemoryEngine::new();
    e.log(entry(1, "a"), Ok(()));
    assert!(e.tick(Err(report())).is_some());
    e.log(entry(2, "b"), Ok(()));
    assert!(e.tick(Err(report())).is_none());
    assert_eq!(e.pending(), (2, 0));
    e.probe(true, true);
    e.drain(Err(report()));
    assert_eq!(e.retry_interval_secs(), 10);
    assert_eq!(e.pending(), (3, 0));
    e.drain(Err(report()));
    assert_eq!(e.retry_interval_secs(), 20);
    e.drain(Ok(()));
    // each failed send added its report behind the chunk
    assert_eq!(texts(e.delivered()), vec!["a", "b", "[dlog] failed", "[dlog] failed"]);
}

#[test]
fn engine_flush_reachable_delivers_all() {
    let mut e = InMemoryEngine::new();
    for i in 0..2_345 {
        e.log(entry(i, &format!("m{}", i)), Ok(()));
    }
    assert_eq!(e.delivered().len(), 2_000);
    e.tick(Ok(()));
    e.probe(true, true);
    e.drain(Ok(()));
    let expected: Vec<String> = (0..2_345).map(|i| format!("m{}", i)).collect();
    assert_eq!(texts(e.delivered()), expected);
}

#[test]
fn engine_exit_twice_persists_once() {
    let mut e = InMemoryEngine::new();
    e.log(entry(1, "x"), Ok(()));
    e.tick(Err(report()));
    e.exit(true);
    assert_eq!(texts(e.file()), vec!["x"]);
    e.exit(true);
    assert_eq!(texts(e.file()), vec!["x"]);
}

#[test]
fn engine_failed_write_keeps_queue() {
    let mut e = InMemoryEngine::new();
    e.log(entry(1, "x"), Ok(()));
    e.tick(Err(report()));
    e.probe(false, false);
    assert!(e.file().is_empty());
    assert_eq!(e.pending(), (1, 0));
    e.exit(false);
    assert_eq!(e.pending(), (1, 0));
    e.probe(true, true);
    e.drain(Ok(()));
    assert_eq!(texts(e.delivered()), vec!["x"]);
}
