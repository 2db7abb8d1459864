use nook::heuristics::PortOverrides;
use nook::monitor::{classify_port, cpu_percent_hundredths, parse_process_table, LogBatcher,
    PortScanSession, MAX_LOG_BATCH};
use nook::types::{Confidence, DetectionMethod, LogEntry, LogLevel, LogSource};

#[test]
fn test_cpu_share_formula() {
    // (200 / 1000) * 2 cpus * 100 = 40% -> 4000 hundredths.
    assert_eq!(cpu_percent_hundredths(300, 100, 1100, 100, 2), 4000);
    // A stalled system counter yields 0.
    assert_eq!(cpu_percent_hundredths(300, 100, 100, 100, 2), 0);
    // A usage counter going backwards yields 0, never a negative.
    assert_eq!(cpu_percent_hundredths(100, 300, 1100, 100, 2), 0);
}

#[test]
fn test_parse_process_table_by_header() {
    let titles = vec![
        "USER".to_string(),
        "PID".to_string(),
        "%CPU".to_string(),
        "%MEM".to_string(),
        "VSZ".to_string(),
        "RSS".to_string(),
        "COMMAND".to_string(),
    ];
    let rows = vec![vec![
        "root".to_string(),
        "17".to_string(),
        "2.5".to_string(),
        "0.1".to_string(),
        "1000".to_string(),
        "2048".to_string(),
        "node server.js".to_string(),
    ]];
    let ps = parse_process_table(&titles, &rows);
    assert_eq!(ps.len(), 1);
    assert_eq!(ps[0].pid, 17);
    assert_eq!(ps[0].name, "node");
    assert_eq!(ps[0].cpu_percent_hundredths, 250);
    // RSS kilobytes become bytes.
    assert_eq!(ps[0].memory_bytes, 2048 * 1024);
}

#[test]
fn test_parse_process_table_unreadable_cells() {
    let titles = vec!["PID".to_string(), "%CPU".to_string(), "RSS".to_string(),
        "COMMAND".to_string()];
    let rows = vec![vec![
        "notanumber".to_string(),
        "x".to_string(),
        "y".to_string(),
        "".to_string(),
    ]];
    let ps = parse_process_table(&titles, &rows);
    assert_eq!(ps[0].pid, 0);
    assert_eq!(ps[0].cpu_percent_hundredths, 0);
    assert_eq!(ps[0].memory_bytes, 0);
    assert_eq!(ps[0].name, "");
}

#[test]
fn test_protocol_detection_precedence() {
    let empty = PortOverrides::new();
    // A well-known port resolves by the table.
    let d = classify_port(5432, "", &empty);
    assert_eq!(d.protocol, "postgres");
    assert_eq!(d.detection_method, DetectionMethod::WellKnown);
    assert_eq!(d.confidence, Confidence::High);
    // An unrecognized port falls back to the process name.
    let d = classify_port(7777, "redis-server", &empty);
    assert_eq!(d.protocol, "redis");
    assert_eq!(d.detection_method, DetectionMethod::ProcessName);
    assert_eq!(d.confidence, Confidence::High);
    // Nothing matches: unknown, low confidence.
    let d = classify_port(7777, "mystery", &empty);
    assert_eq!(d.protocol, "unknown");
    assert_eq!(d.detection_method, DetectionMethod::Unknown);
    assert_eq!(d.confidence, Confidence::Low);
    // A user override for port 80 beats the well-known table.
    let mut overrides = PortOverrides::new();
    overrides.set(80, "custom-http");
    let d = classify_port(80, "", &overrides);
    assert_eq!(d.protocol, "custom-http");
    assert_eq!(d.detection_method, DetectionMethod::WellKnown);
    assert_eq!(d.confidence, Confidence::High);
}

#[test]
fn test_scan_session_reports_each_port_once() {
    let empty = PortOverrides::new();
    let mut session = PortScanSession::new();
    let first = session.observe(3000, "node", &empty);
    assert!(first.is_some());
    assert_eq!(first.unwrap().protocol, "http");
    // The same port seen again in a later tick stays quiet.
    assert!(session.observe(3000, "node", &empty).is_none());
    // A different port still reports.
    assert!(session.observe(5432, "postgres", &empty).is_some());
    // A fresh session reports the port again.
    let mut session2 = PortScanSession::new();
    assert!(session2.observe(3000, "node", &empty).is_some());
}

#[test]
fn test_log_batcher_flushes_at_fifty() {
    let mut b = LogBatcher::new();
    for i in 0..(MAX_LOG_BATCH - 1) {
        let full = b.push_line(LogEntry {
            timestamp: i as i64,
            message: format!("l{}", i),
            source: LogSource::Container,
            level: LogLevel::Stdout,
        });
        assert!(!full);
    }
    let full = b.push_line(LogEntry {
        timestamp: 99,
        message: "last".to_string(),
        source: LogSource::Container,
        level: LogLevel::Stderr,
    });
    assert!(full);
    let batch = b.take();
    assert_eq!(batch.len(), MAX_LOG_BATCH);
    assert_eq!(batch[0].message, "l0");
    assert_eq!(batch[MAX_LOG_BATCH - 1].message, "last");
    assert!(b.is_empty());
}
