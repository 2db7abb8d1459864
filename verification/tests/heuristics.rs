use nook::heuristics::{protocol_for_port, protocol_for_process, PortOverrides};

#[test]
fn test_well_known_ports() {
    let empty = PortOverrides::new();
    assert_eq!(protocol_for_port(80, &empty), Some("http".to_string()));
    assert_eq!(protocol_for_port(443, &empty), Some("https".to_string()));
    assert_eq!(protocol_for_port(5432, &empty), Some("postgres".to_string()));
    assert_eq!(protocol_for_port(3306, &empty), Some("mysql".to_string()));
    assert_eq!(protocol_for_port(6379, &empty), Some("redis".to_string()));
    assert_eq!(protocol_for_port(27017, &empty), Some("mongodb".to_string()));
    assert_eq!(protocol_for_port(22, &empty), Some("ssh".to_string()));
    assert_eq!(protocol_for_port(3000, &empty), Some("http".to_string()));
    assert_eq!(protocol_for_port(5173, &empty), Some("http".to_string()));
    assert_eq!(protocol_for_port(8080, &empty), Some("http".to_string()));
}

#[test]
fn test_unknown_ports() {
    let empty = PortOverrides::new();
    assert_eq!(protocol_for_port(12345, &empty), None);
    assert_eq!(protocol_for_port(55555, &empty), None);
}

#[test]
fn test_user_overrides() {
    let mut overrides = PortOverrides::new();
    overrides.set(9999, "custom-proto");
    assert_eq!(
        protocol_for_port(9999, &overrides),
        Some("custom-proto".to_string())
    );
    // User override takes precedence
    let mut overrides = PortOverrides::new();
    overrides.set(80, "custom-http");
    assert_eq!(
        protocol_for_port(80, &overrides),
        Some("custom-http".to_string())
    );
}

#[test]
fn test_process_names() {
    assert_eq!(protocol_for_process("node"), Some("http".to_string()));
    assert_eq!(protocol_for_process("python3"), Some("http".to_string()));
    assert_eq!(
        protocol_for_process("redis-server"),
        Some("redis".to_string())
    );
    assert_eq!(protocol_for_process("postgres"), Some("postgres".to_string()));
    assert_eq!(protocol_for_process("mysqld"), Some("mysql".to_string()));
    assert_eq!(protocol_for_process("mongod"), Some("mongodb".to_string()));
}

#[test]
fn test_process_with_path() {
    assert_eq!(
        protocol_for_process("/usr/bin/node"),
        Some("http".to_string())
    );
    assert_eq!(
        protocol_for_process("/usr/lib/postgresql/14/bin/postgres"),
        Some("postgres".to_string())
    );
}

#[test]
fn test_unknown_process() {
    assert_eq!(protocol_for_process("my-custom-app"), None);
    assert_eq!(protocol_for_process("unknown-daemon"), None);
}

#[test]
fn test_override_replaces_earlier_value() {
    let mut overrides = PortOverrides::new();
    overrides.set(8080, "first");
    overrides.set(8080, "second");
    assert_eq!(protocol_for_port(8080, &overrides), Some("second".to_string()));
    // Other ports are untouched by the override.
    assert_eq!(protocol_for_port(80, &overrides), Some("http".to_string()));
}
