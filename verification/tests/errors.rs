use nook::error::NookError;
use nook::podconfig::{absorb_start_metadata, find_by_project_path, merge_saved_config,
    PodStateConfig};
use nook::registry::new_pod_record;
use nook::strutil::last_lines;

#[test]
fn test_error_messages() {
    assert_eq!(
        NookError::DockerConnection("refused".to_string()).message(),
        "Docker connection failed: refused"
    );
    assert_eq!(
        NookError::ContainerNotFound("c9".to_string()).message(),
        "Container not found: c9"
    );
    assert_eq!(NookError::DevcontainerCliNotFound.message(), "devcontainer CLI not found");
    assert_eq!(NookError::HostPortBusy(8080).message(), "Host port 8080 is already in use");
    assert_eq!(NookError::TerminalNotFound.message(), "Terminal not found");
    assert_eq!(
        NookError::Timeout("build".to_string()).message(),
        "Operation timed out: build"
    );
    assert_eq!(
        NookError::Cancelled("Build cancelled".to_string()).message(),
        "Operation cancelled: Build cancelled"
    );
    assert_eq!(NookError::Other("free text".to_string()).message(), "free text");
}

#[test]
fn test_last_lines_of_diagnostics() {
    let stderr = "one\ntwo\nthree\nfour\n";
    assert_eq!(last_lines(stderr, 3), "two\nthree\nfour");
    assert_eq!(last_lines("only", 3), "only");
    assert_eq!(last_lines("", 3), "");
}

#[test]
fn test_find_config_by_project_path() {
    let a = PodStateConfig::new_default("a".to_string(), "/p/a".to_string());
    let b = PodStateConfig::new_default("b".to_string(), "/p/b".to_string());
    let found = find_by_project_path(vec![a, b], "/p/b").unwrap();
    assert_eq!(found.name, "b");
    let c = PodStateConfig::new_default("c".to_string(), "/p/c".to_string());
    assert!(find_by_project_path(vec![c], "/p/x").is_none());
}

#[test]
fn test_merge_saved_config_fills_gaps_only() {
    let (pod, _) = new_pod_record("i".to_string(), "/p/app".to_string());
    let mut cfg = PodStateConfig::new_default("app".to_string(), "/p/app".to_string());
    cfg.alias = "Nice".to_string();
    cfg.shell = "/bin/zsh".to_string();
    cfg.remote_user = "dev".to_string();
    let merged = merge_saved_config(pod, &cfg);
    assert_eq!(merged.alias.as_deref(), Some("Nice"));
    assert_eq!(merged.default_shell, "/bin/zsh");
    assert_eq!(merged.remote_user.as_deref(), Some("dev"));

    // A pod that already knows its remote user keeps it.
    let (mut pod2, _) = new_pod_record("j".to_string(), "/p/app".to_string());
    pod2.remote_user = Some("existing".to_string());
    let merged2 = merge_saved_config(pod2, &cfg);
    assert_eq!(merged2.remote_user.as_deref(), Some("existing"));
}

#[test]
fn test_absorb_start_metadata_never_overwrites() {
    let mut cfg = PodStateConfig::new_default("app".to_string(), "/p/app".to_string());
    cfg.remote_user = "explicit".to_string();
    let (cfg2, changed) = absorb_start_metadata(
        cfg,
        &Some("detected".to_string()),
        &Some("/workspaces/app".to_string()),
        "/bin/bash",
    );
    // The explicit user stays; the empty fields are learned.
    assert_eq!(cfg2.remote_user, "explicit");
    assert_eq!(cfg2.working_dir, "/workspaces/app");
    assert_eq!(cfg2.shell, "/bin/bash");
    assert!(changed);

    // A plain `sh` is not recorded as the learned shell.
    let cfg3 = PodStateConfig::new_default("app".to_string(), "/p/app".to_string());
    let (cfg4, changed4) = absorb_start_metadata(cfg3, &None, &None, "/bin/sh");
    assert_eq!(cfg4.shell, "");
    assert!(!changed4);
}
