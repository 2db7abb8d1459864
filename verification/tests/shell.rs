use nook::shell::{choose_shell, env_shell_from_output, is_real_shell, resolve_shell_preference,
    shell_candidates};

#[test]
fn test_is_real_shell_zsh() {
    assert!(is_real_shell("/bin/zsh"));
    assert!(is_real_shell("/usr/bin/zsh"));
}

#[test]
fn test_is_real_shell_bash() {
    assert!(is_real_shell("/bin/bash"));
}

#[test]
fn test_is_real_shell_fish() {
    assert!(is_real_shell("/usr/bin/fish"));
    assert!(is_real_shell("/bin/fish"));
}

#[test]
fn test_is_real_shell_rejects_sh() {
    assert!(!is_real_shell("/bin/sh"));
    assert!(!is_real_shell("/usr/bin/sh"));
}

#[test]
fn test_is_real_shell_rejects_nologin() {
    assert!(!is_real_shell("/usr/sbin/nologin"));
    assert!(!is_real_shell("/sbin/nologin"));
}

#[test]
fn test_is_real_shell_rejects_false() {
    assert!(!is_real_shell("/bin/false"));
    assert!(!is_real_shell("/usr/bin/false"));
}

#[test]
fn test_is_real_shell_rejects_empty() {
    assert!(!is_real_shell(""));
}

#[test]
fn test_env_shell_parsing() {
    assert_eq!(env_shell_from_output("/bin/zsh\n"), Some("/bin/zsh".to_string()));
    assert_eq!(env_shell_from_output("  \n"), None);
    assert_eq!(env_shell_from_output("$SHELL\n"), None);
}

#[test]
fn test_choose_shell_priority() {
    // A real, existing $SHELL wins.
    assert_eq!(
        choose_shell(Some("/bin/zsh".to_string()), true, Some("/bin/bash".to_string())),
        "/bin/zsh".to_string()
    );
    // A $SHELL that does not exist in the container loses to the probe.
    assert_eq!(
        choose_shell(Some("/bin/zsh".to_string()), false, Some("/bin/bash".to_string())),
        "/bin/bash".to_string()
    );
    // `sh` is not a real shell, so the probe wins.
    assert_eq!(
        choose_shell(Some("/bin/sh".to_string()), true, Some("/usr/bin/fish".to_string())),
        "/usr/bin/fish".to_string()
    );
    // Nothing found: the minimal fallback.
    assert_eq!(choose_shell(None, false, None), "/bin/sh".to_string());
}

#[test]
fn test_shell_candidates_order() {
    let c = shell_candidates();
    assert_eq!(
        c,
        vec![
            "/usr/bin/fish".to_string(),
            "/bin/fish".to_string(),
            "/usr/bin/zsh".to_string(),
            "/bin/zsh".to_string(),
            "/bin/bash".to_string(),
        ]
    );
}

#[test]
fn test_resolve_shell_preference() {
    assert_eq!(
        resolve_shell_preference("/bin/zsh", "/bin/bash"),
        Some("/bin/zsh".to_string())
    );
    assert_eq!(
        resolve_shell_preference("", "/bin/bash"),
        Some("/bin/bash".to_string())
    );
    assert_eq!(resolve_shell_preference("", "/bin/sh"), None);
}
