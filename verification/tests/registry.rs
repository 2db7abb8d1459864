use nook::registry::{new_pod_record, pod_from_container, BindOutcome, Registry};
use nook::settings::Settings;
use nook::types::{Confidence, DetectedPort, DetectionMethod, Notification, PodStatus, PortStatus};

fn fresh_registry_with_pod(id: &str, path: &str) -> Registry {
    let mut reg = Registry::new(Settings::default());
    let (pod, _cfg) = new_pod_record(id.to_string(), path.to_string());
    reg.insert_pod(pod);
    reg
}

fn bring_up(reg: &mut Registry, id: &str) -> tokio_util::sync::CancellationToken {
    let (path, ev) = reg.start_begin(id).unwrap();
    assert_eq!(ev.status, PodStatus::Starting);
    assert!(!path.is_empty());
    let _build = reg.register_build(id);
    let (monitor, events) = reg.start_finish_ok(
        id,
        Some("c1".to_string()),
        Some("img:latest".to_string()),
        Some("cname".to_string()),
        "/bin/bash".to_string(),
        Some("vscode".to_string()),
        Some("/workspaces/proj".to_string()),
        42,
    );
    assert_eq!(events.len(), 1);
    match &events[0] {
        Notification::StatusChanged(e) => assert_eq!(e.status, PodStatus::Running),
        other => panic!("unexpected notification: {:?}", other),
    }
    monitor.expect("a monitoring handle for a pod with a container")
}

#[test]
fn test_start_stop_lifecycle_clears_everything() {
    let mut reg = fresh_registry_with_pod("pod-1", "/tmp/proj");
    let monitor = bring_up(&mut reg, "pod-1");
    assert!(!monitor.is_cancelled());

    let pod = reg.get_pod("pod-1").unwrap();
    assert_eq!(pod.status, PodStatus::Running);
    assert_eq!(pod.container_id.as_deref(), Some("c1"));
    assert_eq!(pod.started_at, Some(42));
    assert_eq!(pod.default_shell, "/bin/bash");
    assert_eq!(pod.image, "img:latest");

    // Some runtime residue to clear.
    reg.add_detected_port(
        "pod-1",
        DetectedPort {
            container_port: 5432,
            protocol: "postgres".to_string(),
            process_name: "postgres".to_string(),
            detection_method: DetectionMethod::WellKnown,
            confidence: Confidence::High,
        },
    )
    .unwrap();
    reg.record_stats("pod-1", 1250, 1024, 2048).unwrap();

    let (cid, ev) = reg.stop_begin("pod-1").unwrap();
    assert_eq!(cid.as_deref(), Some("c1"));
    assert_eq!(ev.status, PodStatus::Stopping);
    // Stopping cancels the monitoring group.
    assert!(monitor.is_cancelled());

    let events = reg.stop_finish("pod-1");
    assert_eq!(events.len(), 2);
    match &events[0] {
        Notification::StatusChanged(e) => assert_eq!(e.status, PodStatus::Stopped),
        other => panic!("unexpected notification: {:?}", other),
    }
    match &events[1] {
        Notification::ProcessList(u) => assert!(u.processes.is_empty()),
        other => panic!("unexpected notification: {:?}", other),
    }

    let pod = reg.get_pod("pod-1").unwrap();
    assert_eq!(pod.status, PodStatus::Stopped);
    assert!(pod.exposed_ports.is_empty());
    assert!(pod.detected_ports.is_empty());
    assert!(pod.processes.is_empty());
    assert_eq!(pod.cpu_percent_hundredths, 0);
    assert_eq!(pod.memory_used, 0);
    assert_eq!(pod.started_at, None);
}

#[test]
fn test_start_rejects_running_pod() {
    let mut reg = fresh_registry_with_pod("pod-2", "/tmp/p2");
    let _monitor = bring_up(&mut reg, "pod-2");
    let err = reg.start_begin("pod-2").unwrap_err();
    assert_eq!(err.message(), "Pod is already running or starting");
}

#[test]
fn test_unknown_pod_is_rejected() {
    let mut reg = Registry::new(Settings::default());
    let err = reg.start_begin("nope").unwrap_err();
    assert_eq!(err.message(), "Pod not found: nope");
    let err = reg.stop_begin("nope").unwrap_err();
    assert_eq!(err.message(), "Pod not found: nope");
}

#[test]
fn test_cancel_build_discards_late_results() {
    let mut reg = fresh_registry_with_pod("pod-3", "/tmp/p3");
    let (_path, _ev) = reg.start_begin("pod-3").unwrap();
    let build = reg.register_build("pod-3");
    assert!(!build.is_cancelled());

    let events = reg.cancel_build("pod-3");
    assert_eq!(events.len(), 1);
    assert!(build.is_cancelled());
    let pod = reg.get_pod("pod-3").unwrap();
    assert_eq!(pod.status, PodStatus::Stopped);
    assert_eq!(pod.error_message, None);

    // A late success is discarded: no handle, no state change, no events.
    let (monitor, events) = reg.start_finish_ok(
        "pod-3",
        Some("late".to_string()),
        None,
        None,
        "/bin/sh".to_string(),
        None,
        None,
        7,
    );
    assert!(monitor.is_none());
    assert!(events.is_empty());
    let pod = reg.get_pod("pod-3").unwrap();
    assert_eq!(pod.status, PodStatus::Stopped);
    assert_eq!(pod.container_id, None);
    assert_eq!(pod.error_message, None);

    // A late failure is discarded too.
    let events = reg.start_finish_err("pod-3", "boom".to_string());
    assert!(events.is_empty());
    let pod = reg.get_pod("pod-3").unwrap();
    assert_eq!(pod.status, PodStatus::Stopped);
    assert_eq!(pod.error_message, None);
}

#[test]
fn test_failed_build_sets_error() {
    let mut reg = fresh_registry_with_pod("pod-4", "/tmp/p4");
    let (_path, _ev) = reg.start_begin("pod-4").unwrap();
    let _build = reg.register_build("pod-4");
    let events = reg.start_finish_err("pod-4", "exit code 1".to_string());
    assert_eq!(events.len(), 1);
    let pod = reg.get_pod("pod-4").unwrap();
    assert_eq!(pod.status, PodStatus::Error);
    assert_eq!(pod.error_message.as_deref(), Some("exit code 1"));
}

#[test]
fn test_expose_busy_port_registers_no_handle() {
    let mut reg = fresh_registry_with_pod("pod-5", "/tmp/p5");
    let _monitor = bring_up(&mut reg, "pod-5");
    reg.add_detected_port(
        "pod-5",
        DetectedPort {
            container_port: 5432,
            protocol: "postgres".to_string(),
            process_name: "postgres".to_string(),
            detection_method: DetectionMethod::WellKnown,
            confidence: Confidence::High,
        },
    )
    .unwrap();

    let (ep, token) = reg
        .expose_port_commit("pod-5", 5432, 15432, BindOutcome::AddrInUse)
        .unwrap();
    assert_eq!(ep.status, PortStatus::HostPortBusy);
    assert_eq!(ep.protocol, "postgres");
    assert!(token.is_none());

    // The exposure superseded the detection.
    let pod = reg.get_pod("pod-5").unwrap();
    assert!(pod.detected_ports.is_empty());
    assert_eq!(pod.exposed_ports.len(), 1);

    // Unexposing a never-exposed port is a no-op.
    reg.unexpose_port("pod-5", 9999).unwrap();
    let pod = reg.get_pod("pod-5").unwrap();
    assert_eq!(pod.exposed_ports.len(), 1);
}

#[test]
fn test_expose_and_unexpose_active_port() {
    let mut reg = fresh_registry_with_pod("pod-6", "/tmp/p6");
    let _monitor = bring_up(&mut reg, "pod-6");
    let (ep, token) = reg
        .expose_port_commit("pod-6", 3000, 3000, BindOutcome::Free)
        .unwrap();
    assert_eq!(ep.status, PortStatus::Active);
    let token = token.expect("an active exposure carries a proxy handle");
    assert!(!token.is_cancelled());

    reg.unexpose_port("pod-6", 3000).unwrap();
    assert!(token.is_cancelled());
    let pod = reg.get_pod("pod-6").unwrap();
    assert!(pod.exposed_ports.is_empty());
}

#[test]
fn test_stop_cancels_proxies() {
    let mut reg = fresh_registry_with_pod("pod-7", "/tmp/p7");
    let _monitor = bring_up(&mut reg, "pod-7");
    let (_ep, token) = reg
        .expose_port_commit("pod-7", 8080, 18080, BindOutcome::Free)
        .unwrap();
    let token = token.unwrap();
    let (_cid, _ev) = reg.stop_begin("pod-7").unwrap();
    assert!(token.is_cancelled());
}

#[test]
fn test_remove_is_idempotent() {
    let mut reg = fresh_registry_with_pod("pod-8", "/tmp/area/my-app");
    let cid = reg.force_stop_begin("pod-8").unwrap();
    assert_eq!(cid, None);
    let name = reg.remove_finish("pod-8");
    assert_eq!(name.as_deref(), Some("my-app"));
    assert!(!reg.contains_pod("pod-8"));
    // A second removal finds nothing.
    assert_eq!(reg.remove_finish("pod-8"), None);
}

#[test]
fn test_ignore_port_drops_detection() {
    let mut reg = fresh_registry_with_pod("pod-9", "/tmp/p9");
    reg.add_detected_port(
        "pod-9",
        DetectedPort {
            container_port: 6379,
            protocol: "redis".to_string(),
            process_name: "redis-server".to_string(),
            detection_method: DetectionMethod::ProcessName,
            confidence: Confidence::High,
        },
    )
    .unwrap();
    reg.ignore_port("pod-9", 6379).unwrap();
    let pod = reg.get_pod("pod-9").unwrap();
    assert!(pod.detected_ports.is_empty());
}

#[test]
fn test_registry_logs_round_trip() {
    let mut reg = fresh_registry_with_pod("pod-a", "/tmp/pa");
    let ev = reg.append_build_line(
        "pod-a",
        "Step 1/3".to_string(),
        nook::types::LogLevel::Stdout,
        5,
    );
    assert_eq!(ev.pod_id, "pod-a");
    assert_eq!(ev.entries.len(), 1);
    assert_eq!(ev.entries[0].message, "Step 1/3");

    let logs = reg.pod_logs("pod-a", None, None);
    assert_eq!(logs.len(), 1);
    let hits = reg.pod_logs("pod-a", None, Some("step"));
    assert_eq!(hits.len(), 1);
    let none = reg.pod_logs("pod-a", None, Some("missing"));
    assert!(none.is_empty());

    reg.clear_pod_logs("pod-a");
    assert!(reg.pod_logs("pod-a", None, None).is_empty());
    assert!(reg.pod_logs("other", None, None).is_empty());
}

#[test]
fn test_apply_pod_config_overrides() {
    let mut reg = fresh_registry_with_pod("pod-b", "/tmp/pb");
    let (_pod, mut cfg) = new_pod_record("unused".to_string(), "/tmp/pb".to_string());
    cfg.alias = "My Pod".to_string();
    cfg.remote_user = "dev".to_string();
    cfg.working_dir = "/workspaces/pb".to_string();
    cfg.shell = "/bin/zsh".to_string();
    reg.apply_pod_config("pod-b", &cfg);
    let pod = reg.get_pod("pod-b").unwrap();
    assert_eq!(pod.alias.as_deref(), Some("My Pod"));
    assert_eq!(pod.remote_user.as_deref(), Some("dev"));
    assert_eq!(pod.remote_workspace_folder.as_deref(), Some("/workspaces/pb"));
    assert_eq!(pod.default_shell, "/bin/zsh");
}

#[test]
fn test_list_pods_and_new_record_naming() {
    let mut reg = Registry::new(Settings::default());
    let (pod, cfg) = new_pod_record("id-1".to_string(), "/home/u/projects/site/".to_string());
    assert_eq!(pod.name, "site");
    assert_eq!(cfg.name, "site");
    reg.insert_pod(pod);
    let (pod2, _) = new_pod_record("id-2".to_string(), "".to_string());
    assert_eq!(pod2.name, "unnamed");
    reg.insert_pod(pod2);
    assert_eq!(reg.list_pods().len(), 2);
}

#[test]
fn test_pod_from_container_mapping() {
    let pod = pod_from_container(
        "pid-1".to_string(),
        "0123456789abcdef".to_string(),
        Some("/eager_napier".to_string()),
        Some("node:20".to_string()),
        Some("running".to_string()),
        "/home/u/projects/site".to_string(),
        Some("vscode".to_string()),
        None,
    );
    assert_eq!(pod.container_name.as_deref(), Some("eager_napier"));
    assert_eq!(pod.name, "site");
    assert_eq!(pod.status, PodStatus::Running);
    assert_eq!(pod.image, "node:20");
    assert_eq!(pod.remote_user.as_deref(), Some("vscode"));

    // Without a name the short container id stands in; a non-running
    // state maps to stopped; an empty path falls back to that name.
    let pod = pod_from_container(
        "pid-2".to_string(),
        "0123456789abcdef".to_string(),
        None,
        None,
        Some("exited".to_string()),
        "".to_string(),
        None,
        None,
    );
    assert_eq!(pod.container_name.as_deref(), Some("0123456789ab"));
    assert_eq!(pod.name, "0123456789ab");
    assert_eq!(pod.status, PodStatus::Stopped);
}

#[test]
fn test_expose_bind_failure_is_an_error() {
    let mut reg = fresh_registry_with_pod("pod-c", "/tmp/pc");
    let err = reg
        .expose_port_commit("pod-c", 80, 80, BindOutcome::Failed("permission denied".to_string()))
        .unwrap_err();
    assert_eq!(err.message(), "IO error: permission denied");
    // Nothing changed.
    let pod = reg.get_pod("pod-c").unwrap();
    assert!(pod.exposed_ports.is_empty());
}
