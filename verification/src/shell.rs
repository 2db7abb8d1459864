//! Decisions around a container's login shell: what counts as a real
//! shell, the probe order for common shells, and how probe results are
//! combined. Running commands inside the container is the caller's job;
//! it hands the outputs here.

use vstd::prelude::*;
use crate::strutil::{after_last_slash, basename, chars_of, chars_to_string, str_eq, trim,
    trim_spec};

verus! {

/// A path names a real shell unless its final segment is `sh`,
/// `nologin`, `false`, or empty.
pub open spec fn real_shell(s: Seq<char>) -> bool {
    let base = after_last_slash(s);
    !(base == "sh"@ || base == "nologin"@ || base == "false"@ || base.len() == 0)
}

pub fn is_real_shell(shell: &str) -> (r: bool)
    ensures
        r == real_shell(shell@),
{
    let base_vec = basename(&chars_of(shell));
    let base = chars_to_string(&base_vec);
    let b = base.as_str();
    proof {
        reveal_strlit("");
        if base_vec@.len() == 0 {
            assert(base_vec@ =~= ""@);
        }
    }
    !(str_eq(b, "sh") || str_eq(b, "nologin") || str_eq(b, "false") || str_eq(b, ""))
}

/// What `$SHELL` printed, once trimmed: `None` when the variable was
/// unset (empty output or the literal text `$SHELL`).
pub open spec fn env_shell_spec(output: Seq<char>) -> Option<Seq<char>> {
    let t = trim_spec(output);
    if t.len() == 0 || t == "$SHELL"@ {
        None
    } else {
        Some(t)
    }
}

pub fn env_shell_from_output(output: &str) -> (r: Option<String>)
    ensures
        match r {
            Some(s) => env_shell_spec(output@) == Some(s@),
            None => env_shell_spec(output@) is None,
        },
{
    let t = trim(&chars_of(output));
    let s = chars_to_string(&t);
    if t.len() == 0 || str_eq(s.as_str(), "$SHELL") {
        None
    } else {
        Some(s)
    }
}

/// The shells probed for, in preference order, when `$SHELL` gives
/// nothing usable.
pub fn shell_candidates() -> (r: Vec<String>)
    ensures
        r@.len() == 5,
        r@[0]@ == "/usr/bin/fish"@,
        r@[1]@ == "/bin/fish"@,
        r@[2]@ == "/usr/bin/zsh"@,
        r@[3]@ == "/bin/zsh"@,
        r@[4]@ == "/bin/bash"@,
{
    let mut v: Vec<String> = Vec::new();
    v.push("/usr/bin/fish".to_owned());
    v.push("/bin/fish".to_owned());
    v.push("/usr/bin/zsh".to_owned());
    v.push("/bin/zsh".to_owned());
    v.push("/bin/bash".to_owned());
    v
}

/// The last resort when no shell was found.
pub fn fallback_shell() -> (r: String)
    ensures
        r@ == "/bin/sh"@,
{
    "/bin/sh".to_owned()
}

/// Combines the probes' results: the user's `$SHELL` wins when it is a
/// real shell and exists in the container; then the first existing
/// candidate shell; then `/bin/sh`.
pub fn choose_shell(
    env_shell: Option<String>,
    env_shell_exists: bool,
    existing_candidate: Option<String>,
) -> (r: String)
    ensures
        r@ == (match env_shell {
            Some(s) => {
                if real_shell(s@) && env_shell_exists {
                    s@
                } else {
                    match existing_candidate {
                        Some(c) => c@,
                        None => "/bin/sh"@,
                    }
                }
            },
            None => match existing_candidate {
                Some(c) => c@,
                None => "/bin/sh"@,
            },
        }),
{
    if let Some(s) = env_shell {
        if is_real_shell(s.as_str()) && env_shell_exists {
            return s;
        }
    }
    match existing_candidate {
        Some(c) => c,
        None => fallback_shell(),
    }
}

/// The shell to open a terminal with, before any in-container probing:
/// a per-pod override wins when it is a real shell, then the pod's
/// recorded default shell; `None` means the container must be probed.
pub fn resolve_shell_preference(config_shell: &str, default_shell: &str) -> (r: Option<String>)
    ensures
        match r {
            Some(s) => (real_shell(config_shell@) && s@ == config_shell@) || (!real_shell(
                config_shell@,
            ) && real_shell(default_shell@) && s@ == default_shell@),
            None => !real_shell(config_shell@) && !real_shell(default_shell@),
        },
{
    if is_real_shell(config_shell) {
        Some(config_shell.to_owned())
    } else if is_real_shell(default_shell) {
        Some(default_shell.to_owned())
    } else {
        None
    }
}

} // verus!
