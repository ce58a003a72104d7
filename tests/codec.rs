use dlog::codec::{decode_backlog, decode_line, encode_backlog, encode_line};
use dlog::ingest::LogRequest;
use dlog::models::{Log, Priority, Timestamp};

fn entry(nanos: i128, priority: Priority, text: &str) -> Log {
    Log::at(Timestamp { unix_nanos: nanos }, priority, text.to_string())
}

fn same(a: &Log, b: &Log) -> bool {
    a.timestamp == b.timestamp && a.priority == b.priority && a.text == b.text
}

#[test]
fn encode_line_writes_sorted_json_object() {
    let line = encode_line(&entry(0, Priority::Info, "hello")).unwrap();
    assert_eq!(
        line,
        "{\"priority\":\"Info\",\"text\":\"hello\",\"timestamp\":\"1970-01-01T00:00:00Z\"}"
    );
}

#[test]
fn encode_line_writes_subseconds_and_escapes() {
    let line = encode_line(&entry(1_500_000_000, Priority::Trace, "a\nb \"q\"")).unwrap();
    assert_eq!(
        line,
        "{\"priority\":\"Trace\",\"text\":\"a\\nb \\\"q\\\"\",\"timestamp\":\"1970-01-01T00:00:01.5Z\"}"
    );
    assert!(!line.contains('\n'));
}

#[test]
fn encode_line_refuses_instants_past_year_9999() {
    let too_late: i128 = 253_402_300_800_000_000_000;
    assert!(encode_line(&entry(too_late, Priority::Info, "x")).is_none());
    assert!(encode_line(&entry(too_late - 1, Priority::Info, "x")).is_some());
    let too_early: i128 = -62_167_219_200_000_000_001;
    assert!(encode_line(&entry(too_early, Priority::Info, "x")).is_none());
    assert!(encode_line(&entry(too_early + 1, Priority::Info, "x")).is_some());
}

#[test]
fn decode_line_reads_each_field() {
    let e = decode_line(
        "{\"timestamp\":\"2021-03-04T05:06:07.25Z\",\"priority\":\"Warning\",\"text\":\"disk low\"}",
    )
    .unwrap();
    assert_eq!(e.timestamp.unix_nanos, 1_614_834_367_250_000_000);
    assert_eq!(e.priority, Priority::Warning);
    assert_eq!(e.text, "disk low");
}

#[test]
fn decode_line_honours_offsets() {
    let e = decode_line(
        "{\"timestamp\":\"1970-01-01T01:00:00+01:00\",\"priority\":\"Debug\",\"text\":\"t\"}",
    )
    .unwrap();
    assert_eq!(e.timestamp.unix_nanos, 0);
}

#[test]
fn decode_line_rejects_malformed_lines() {
    assert!(decode_line("").is_none());
    assert!(decode_line("not json").is_none());
    assert!(decode_line("{\"priority\":\"Info\",\"text\":\"x\"}").is_none());
    assert!(decode_line(
        "{\"timestamp\":\"1970-01-01T00:00:00Z\",\"priority\":\"Informational\",\"text\":\"x\"}"
    )
    .is_none());
    assert!(decode_line(
        "{\"timestamp\":\"yesterday\",\"priority\":\"Info\",\"text\":\"x\"}"
    )
    .is_none());
    assert!(decode_line(
        "{\"timestamp\":\"1970-01-01T00:00:00Z\",\"priority\":\"Info\",\"text\":7}"
    )
    .is_none());
}

#[test]
fn backlog_round_trip_keeps_entries_in_order() {
    let entries = vec![
        entry(1_600_000_000_000_000_000, Priority::Critical, "first"),
        entry(1_600_000_000_000_000_001, Priority::Error, "second, with \"quotes\""),
        entry(1_600_000_000_123_456_789, Priority::Info, "third\nspans lines"),
        entry(-5, Priority::Trace, ""),
    ];
    let text = encode_backlog(&entries);
    assert_eq!(text.lines().count(), 4);
    let back = decode_backlog(&text);
    assert_eq!(back.len(), entries.len());
    for (a, b) in entries.iter().zip(back.iter()) {
        assert!(same(a, b));
    }
}

#[test]
fn backlog_round_trip_of_nothing_is_empty() {
    let text = encode_backlog(&Vec::new());
    assert_eq!(text, "");
    assert!(decode_backlog(&text).is_empty());
}

#[test]
fn backlog_leaves_out_unwritable_entries() {
    let entries = vec![
        entry(10, Priority::Info, "kept"),
        entry(i128::MAX, Priority::Info, "dropped"),
        entry(20, Priority::Info, "kept too"),
    ];
    let back = decode_backlog(&encode_backlog(&entries));
    assert_eq!(back.len(), 2);
    assert!(same(&back[0], &entries[0]));
    assert!(same(&back[1], &entries[2]));
}

#[test]
fn decode_backlog_skips_malformed_lines() {
    let good1 = encode_line(&entry(1, Priority::Info, "one")).unwrap();
    let good2 = encode_line(&entry(2, Priority::Debug, "two")).unwrap();
    let text = format!("{}\ngarbage\n\n{{\"half\":\n{}", good1, good2);
    let back = decode_backlog(&text);
    assert_eq!(back.len(), 2);
    assert_eq!(back[0].text, "one");
    assert_eq!(back[1].text, "two");
    assert_eq!(back[1].priority, Priority::Debug);
}

#[test]
fn request_body_wraps_entries() {
    let entries = vec![entry(0, Priority::Info, "a"), entry(0, Priority::Error, "b")];
    let body = LogRequest::new(&entries).body().unwrap();
    assert_eq!(
        body,
        "{\"logs\":[{\"priority\":\"Info\",\"text\":\"a\",\"timestamp\":\"1970-01-01T00:00:00Z\"},{\"priority\":\"Error\",\"text\":\"b\",\"timestamp\":\"1970-01-01T00:00:00Z\"}]}"
    );
    let empty: Vec<Log> = Vec::new();
    assert_eq!(LogRequest::new(&empty).body().unwrap(), "{\"logs\":[]}");
    let bad = vec![entry(0, Priority::Info, "a"), entry(i128::MAX, Priority::Info, "b")];
    assert!(LogRequest::new(&bad).body().is_none());
}
