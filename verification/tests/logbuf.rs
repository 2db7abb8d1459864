use nook::logbuf::{LogBuffer, MAX_LOG_LINES};
use nook::types::{LogEntry, LogLevel, LogSource};

fn entry(n: i64, msg: &str) -> LogEntry {
    LogEntry {
        timestamp: n,
        message: msg.to_string(),
        source: LogSource::Container,
        level: LogLevel::Stdout,
    }
}

#[test]
fn test_tail_returns_last_entries_in_order() {
    let mut buf = LogBuffer::new();
    for i in 0..10 {
        buf.push(entry(i, &format!("line {}", i)));
    }
    let t = buf.tail(3);
    assert_eq!(t.len(), 3);
    assert_eq!(t[0].message, "line 7");
    assert_eq!(t[1].message, "line 8");
    assert_eq!(t[2].message, "line 9");
    let all = buf.tail(100);
    assert_eq!(all.len(), 10);
}

#[test]
fn test_capacity_never_exceeded() {
    let mut buf = LogBuffer::new();
    let total = MAX_LOG_LINES + 37;
    for i in 0..total {
        buf.push(entry(i as i64, &format!("m{}", i)));
    }
    assert_eq!(buf.len(), MAX_LOG_LINES);
    // The oldest entries were evicted first: tail(n) is the last n inserted.
    let t = buf.tail(2);
    assert_eq!(t[0].message, format!("m{}", total - 2));
    assert_eq!(t[1].message, format!("m{}", total - 1));
}

#[test]
fn test_push_batch_and_clear() {
    let mut buf = LogBuffer::new();
    buf.push_batch(vec![entry(1, "a"), entry(2, "b")]);
    assert_eq!(buf.len(), 2);
    assert!(!buf.is_empty());
    buf.clear();
    assert!(buf.is_empty());
}

#[test]
fn test_search_is_case_insensitive() {
    let mut buf = LogBuffer::new();
    buf.push(entry(1, "Error: disk full"));
    buf.push(entry(2, "all good"));
    buf.push(entry(3, "another ERROR here"));
    let hits = buf.search("error");
    assert_eq!(hits.len(), 2);
    assert_eq!(hits[0].message, "Error: disk full");
    assert_eq!(hits[1].message, "another ERROR here");
    assert!(buf.search("missing").is_empty());
}
