use nook::settings::{PortAction, Settings};

#[test]
fn test_default_settings() {
    let settings = Settings::default();
    assert!(settings.expose_protocols.contains(&"http".to_string()));
    assert_eq!(settings.stats_interval, 2000);
    assert!(!settings.onboarding_complete);
}

#[test]
fn test_new_fields_in_default() {
    let settings = Settings::default();
    assert_eq!(settings.log_level, "info");
    assert_eq!(settings.port_action, PortAction::Prompt);
}

#[test]
fn test_default_filters() {
    let settings = Settings::default();
    assert_eq!(settings.not_expose_filters.len(), 2);
    assert_eq!(settings.not_expose_filters[0].protocol.as_deref(), Some("dns"));
    assert_eq!(settings.not_expose_filters[1].port, Some(22));
    assert_eq!(settings.ports_scan_interval, 3000);
    assert_eq!(settings.process_scan_interval, 5000);
}
