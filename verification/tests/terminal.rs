use nook::terminal::{build_exec_command, de_terminal_candidates, get_linux_template,
    linux_terminals, render_template, resolve_effective_user, resolve_workdir};

#[test]
fn test_template_lookup() {
    assert_eq!(get_linux_template("kitty"), "kitty {command}");
    assert_eq!(get_linux_template("gnome-terminal"), "gnome-terminal -- {command}");
    // A name that merely holds a known terminal's name uses its template.
    assert_eq!(get_linux_template("xterm-256color"), "xterm -e {command}");
    // An unknown terminal gets the conventional -e form.
    assert_eq!(get_linux_template("st"), "st -e {command}");
}

#[test]
fn test_terminal_table() {
    let t = linux_terminals();
    assert_eq!(t.len(), 8);
    assert_eq!(t[0].0, "alacritty");
    assert_eq!(t[7].0, "xterm");
}

#[test]
fn test_exec_command_shape() {
    assert_eq!(
        build_exec_command("abc123", "/bin/zsh", Some("vscode"), Some("/workspaces/app")),
        "docker exec -it -u vscode -w /workspaces/app abc123 /bin/zsh"
    );
    assert_eq!(
        build_exec_command("abc123", "/bin/sh", None, None),
        "docker exec -it abc123 /bin/sh"
    );
}

#[test]
fn test_render_template_substitutes_command() {
    assert_eq!(
        render_template("alacritty -e {command}", "docker exec -it c sh"),
        "alacritty -e docker exec -it c sh"
    );
    assert_eq!(render_template("no placeholder", "x"), "no placeholder");
}

#[test]
fn test_de_terminal_candidates() {
    assert_eq!(
        de_terminal_candidates("GNOME"),
        vec!["gnome-terminal".to_string(), "kgx".to_string()]
    );
    assert_eq!(de_terminal_candidates("KDE"), vec!["konsole".to_string()]);
    assert!(de_terminal_candidates("somethingelse").is_empty());
}

#[test]
fn test_resolve_effective_user_and_workdir() {
    assert_eq!(
        resolve_effective_user("cfg", &Some("pod".to_string()), &None),
        Some("cfg".to_string())
    );
    assert_eq!(
        resolve_effective_user("", &Some("pod".to_string()), &None),
        Some("pod".to_string())
    );
    assert_eq!(
        resolve_effective_user("", &None, &Some("inspect".to_string())),
        Some("inspect".to_string())
    );
    assert_eq!(
        resolve_workdir(&Some("/w/app".to_string()), "/cfg", "/p/app"),
        Some("/w/app".to_string())
    );
    assert_eq!(resolve_workdir(&None, "/cfg", "/p/app"), Some("/cfg".to_string()));
    assert_eq!(
        resolve_workdir(&None, "", "/home/u/projects/site"),
        Some("/workspaces/site".to_string())
    );
    assert_eq!(resolve_workdir(&None, "", ""), None);
}
