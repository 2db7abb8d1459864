//! Terminal-emulator launch decisions: the known terminals and their
//! command templates, the in-container exec command, and template
//! rendering. Probing which emulator exists and spawning it is the
//! caller's job.

use vstd::prelude::*;
use crate::strutil::{chars_of, chars_to_string, contains_seq, contains_seq_spec, find_seq,
    first_seq_index, has_seq_at, slice_chars, str_eq};

verus! {

/// The known terminals and their launch templates; `{command}` stands
/// for the in-container exec command.
pub open spec fn linux_table_spec() -> Seq<(Seq<char>, Seq<char>)> {
    seq![
        ("alacritty"@, "alacritty -e {command}"@),
        ("kitty"@, "kitty {command}"@),
        ("wezterm"@, "wezterm start -- {command}"@),
        ("foot"@, "foot {command}"@),
        ("gnome-terminal"@, "gnome-terminal -- {command}"@),
        ("konsole"@, "konsole -e {command}"@),
        ("xfce4-terminal"@, "xfce4-terminal -e \"{command}\""@),
        ("xterm"@, "xterm -e {command}"@),
    ]
}

/// The known terminal names and templates, in probe order.
pub fn linux_terminals() -> (r: Vec<(String, String)>)
    ensures
        r@.len() == linux_table_spec().len(),
        forall|i: int|
            0 <= i < r@.len() ==> ((#[trigger] r@[i]).0@, r@[i].1@) == linux_table_spec()[i],
{
    let mut v: Vec<(String, String)> = Vec::new();
    v.push(("alacritty".to_owned(), "alacritty -e {command}".to_owned()));
    v.push(("kitty".to_owned(), "kitty {command}".to_owned()));
    v.push(("wezterm".to_owned(), "wezterm start -- {command}".to_owned()));
    v.push(("foot".to_owned(), "foot {command}".to_owned()));
    v.push(("gnome-terminal".to_owned(), "gnome-terminal -- {command}".to_owned()));
    v.push(("konsole".to_owned(), "konsole -e {command}".to_owned()));
    v.push(("xfce4-terminal".to_owned(), "xfce4-terminal -e \"{command}\"".to_owned()));
    v.push(("xterm".to_owned(), "xterm -e {command}".to_owned()));
    v
}

/// Template of the first table row whose name equals the terminal or
/// occurs inside it.
pub open spec fn template_for(table: Seq<(Seq<char>, Seq<char>)>, term: Seq<char>) -> Option<
    Seq<char>,
>
    decreases table.len(),
{
    if table.len() == 0 {
        None
    } else if table[0].0 == term || contains_seq_spec(term, table[0].0) {
        Some(table[0].1)
    } else {
        template_for(table.drop_first(), term)
    }
}

/// The launch template for a terminal: its table row when one matches,
/// else the terminal itself with a conventional `-e` flag.
pub fn get_linux_template(terminal: &str) -> (r: String)
    ensures
        r@ == (match template_for(linux_table_spec(), terminal@) {
            Some(t) => t,
            None => terminal@ + " -e {command}"@,
        }),
{
    let table = linux_terminals();
    let term = chars_of(terminal);
    let n = table.len();
    let mut i: usize = 0;
    proof {
        assert(linux_table_spec().skip(0) =~= linux_table_spec());
    }
    while i < n
        invariant
            i <= n,
            n == linux_table_spec().len(),
            table@.len() == n,
            forall|x: int|
                0 <= x < n ==> ((#[trigger] table@[x]).0@, table@[x].1@) == linux_table_spec()[x],
            term@ == terminal@,
            template_for(linux_table_spec().skip(i as int), terminal@) == template_for(
                linux_table_spec(),
                terminal@,
            ),
        decreases n - i,
    {
        let ghost rest = linux_table_spec().skip(i as int);
        proof {
            assert(rest[0] == linux_table_spec()[i as int]);
            assert(rest.drop_first() =~= linux_table_spec().skip(i + 1));
        }
        let name = chars_of(table[i].0.as_str());
        if str_eq(table[i].0.as_str(), terminal) || contains_seq(&term, &name) {
            return table[i].1.clone();
        }
        i = i + 1;
    }
    proof {
        assert(linux_table_spec().skip(n as int) =~= Seq::<(Seq<char>, Seq<char>)>::empty());
    }
    terminal.to_owned().concat(" -e {command}")
}

/// The in-container exec command: `docker exec -it`, the optional user
/// and working-directory flags, the container and the shell, joined by
/// single spaces.
pub open spec fn exec_command_spec(
    container_id: Seq<char>,
    shell: Seq<char>,
    user: Option<Seq<char>>,
    working_dir: Option<Seq<char>>,
) -> Seq<char> {
    "docker exec -it"@ + (match user {
        Some(u) => " -u "@ + u,
        None => Seq::empty(),
    }) + (match working_dir {
        Some(w) => " -w "@ + w,
        None => Seq::empty(),
    }) + " "@ + container_id + " "@ + shell
}

pub fn build_exec_command(
    container_id: &str,
    shell: &str,
    user: Option<&str>,
    working_dir: Option<&str>,
) -> (r: String)
    ensures
        r@ == exec_command_spec(
            container_id@,
            shell@,
            match user {
                Some(u) => Some(u@),
                None => None,
            },
            match working_dir {
                Some(w) => Some(w@),
                None => None,
            },
        ),
{
    let mut out = "docker exec -it".to_owned();
    match user {
        Some(u) => {
            out = out.concat(" -u ").concat(u);
        },
        None => {},
    }
    match working_dir {
        Some(w) => {
            out = out.concat(" -w ").concat(w);
        },
        None => {},
    }
    out = out.concat(" ").concat(container_id).concat(" ").concat(shell);
    out
}

/// Desktop environments and their preferred terminals.
pub open spec fn de_table_spec() -> Seq<(Seq<char>, Seq<Seq<char>>)> {
    seq![
        ("gnome"@, seq!["gnome-terminal"@, "kgx"@]),
        ("unity"@, seq!["gnome-terminal"@]),
        ("cinnamon"@, seq!["gnome-terminal"@]),
        ("kde"@, seq!["konsole"@]),
        ("xfce"@, seq!["xfce4-terminal"@]),
        ("mate"@, seq!["mate-terminal"@]),
        ("lxde"@, seq!["lxterminal"@]),
        ("lxqt"@, seq!["qterminal"@]),
    ]
}

/// The terminals of every desktop environment named in the (lowered)
/// desktop string, in table order.
pub open spec fn de_candidates_spec(
    table: Seq<(Seq<char>, Seq<Seq<char>>)>,
    desktop: Seq<char>,
) -> Seq<Seq<char>>
    decreases table.len(),
{
    if table.len() == 0 {
        Seq::empty()
    } else {
        (if contains_seq_spec(desktop, table[0].0) {
            table[0].1
        } else {
            Seq::empty()
        }) + de_candidates_spec(table.drop_first(), desktop)
    }
}

/// The desktop environment's preferred terminals, judged from the
/// desktop string (compared ignoring ASCII case), to be probed in order.
pub fn de_terminal_candidates(desktop: &str) -> (r: Vec<String>)
    ensures
        r.deep_view() == de_candidates_spec(
            de_table_spec(),
            crate::strutil::lower_seq(desktop@),
        ),
{
    let low = crate::strutil::to_lower(&chars_of(desktop));
    let mut table: Vec<(String, Vec<String>)> = Vec::new();
    let mut gnome: Vec<String> = Vec::new();
    gnome.push("gnome-terminal".to_owned());
    gnome.push("kgx".to_owned());
    table.push(("gnome".to_owned(), gnome));
    let mut unity: Vec<String> = Vec::new();
    unity.push("gnome-terminal".to_owned());
    table.push(("unity".to_owned(), unity));
    let mut cinnamon: Vec<String> = Vec::new();
    cinnamon.push("gnome-terminal".to_owned());
    table.push(("cinnamon".to_owned(), cinnamon));
    let mut kde: Vec<String> = Vec::new();
    kde.push("konsole".to_owned());
    table.push(("kde".to_owned(), kde));
    let mut xfce: Vec<String> = Vec::new();
    xfce.push("xfce4-terminal".to_owned());
    table.push(("xfce".to_owned(), xfce));
    let mut mate: Vec<String> = Vec::new();
    mate.push("mate-terminal".to_owned());
    table.push(("mate".to_owned(), mate));
    let mut lxde: Vec<String> = Vec::new();
    lxde.push("lxterminal".to_owned());
    table.push(("lxde".to_owned(), lxde));
    let mut lxqt: Vec<String> = Vec::new();
    lxqt.push("qterminal".to_owned());
    table.push(("lxqt".to_owned(), lxqt));
    proof {
        assert forall|i: int| 0 <= i < de_table_spec().len() implies (#[trigger] table@[i]).0@
            == de_table_spec()[i].0 && table@[i].1.deep_view() =~= de_table_spec()[i].1 by {
            assert(table@[i].1.deep_view().len() == table@[i].1@.len());
        }
    }
    let mut out: Vec<String> = Vec::new();
    let mut i: usize = 0;
    let n = table.len();
    proof {
        assert(de_table_spec().skip(0) =~= de_table_spec());
        assert(out.deep_view() =~= Seq::<Seq<char>>::empty());
    }
    while i < n
        invariant
            i <= n,
            n == de_table_spec().len(),
            table@.len() == n,
            forall|x: int|
                0 <= x < n ==> (#[trigger] table@[x]).0@ == de_table_spec()[x].0
                    && table@[x].1.deep_view() == de_table_spec()[x].1,
            low@ == crate::strutil::lower_seq(desktop@),
            out.deep_view() + de_candidates_spec(de_table_spec().skip(i as int), low@)
                == de_candidates_spec(de_table_spec(), low@),
        decreases n - i,
    {
        let ghost rest = de_table_spec().skip(i as int);
        proof {
            assert(rest[0] == de_table_spec()[i as int]);
            assert(rest.drop_first() =~= de_table_spec().skip(i + 1));
        }
        let name = chars_of(table[i].0.as_str());
        if contains_seq(&low, &name) {
            let ghost before = out.deep_view();
            let terms = &table[i].1;
            let mut j: usize = 0;
            while j < terms.len()
                invariant
                    j <= terms@.len(),
                    terms.deep_view() == de_table_spec()[i as int].1,
                    0 <= i < de_table_spec().len(),
                    out.deep_view() =~= before + terms.deep_view().subrange(0, j as int),
                decreases terms@.len() - j,
            {
                let c = terms[j].clone();
                let ghost cval = c@;
                let ghost prev = out.deep_view();
                let ghost prev_vec = out@;
                out.push(c);
                proof {
                    assert(cval == terms.deep_view()[j as int]) by {
                        assert(terms@[j as int].deep_view() == terms.deep_view()[j as int]);
                    }
                    assert forall|k: int| 0 <= k < out.deep_view().len() implies out.deep_view()[k]
                        == prev.push(cval)[k] by {
                        if k < prev_vec.len() {
                            assert(out@[k] == prev_vec[k]);
                            assert(prev[k] == prev_vec[k].deep_view());
                        }
                    }
                    assert(out.deep_view() =~= prev.push(cval));
                    assert(out.deep_view() =~= before + terms.deep_view().subrange(0, j + 1));
                }
                j = j + 1;
            }
            proof {
                assert(out.deep_view() =~= before + de_table_spec()[i as int].1);
            }
        }
        proof {
            assert(out.deep_view() + de_candidates_spec(de_table_spec().skip(i + 1), low@)
                =~= de_candidates_spec(de_table_spec(), low@));
        }
        i = i + 1;
    }
    proof {
        assert(de_table_spec().skip(n as int) =~= Seq::<(Seq<char>, Seq<Seq<char>>)>::empty());
        assert(out.deep_view() =~= de_candidates_spec(de_table_spec(), low@));
    }
    out
}

/// The user to exec as: a per-pod configured user wins, then the pod's
/// recorded remote user, then what inspecting the container showed.
pub fn resolve_effective_user(
    config_user: &str,
    remote_user: &Option<String>,
    inspect_user: &Option<String>,
) -> (r: Option<String>)
    ensures
        config_user@.len() > 0 ==> (r matches Some(u) && u@ == config_user@),
        config_user@.len() == 0 && remote_user is Some ==> r == *remote_user,
        config_user@.len() == 0 && remote_user is None ==> r == *inspect_user,
{
    if !config_user.is_empty() {
        Some(config_user.to_owned())
    } else if remote_user.is_some() {
        crate::types::clone_opt_string(remote_user)
    } else {
        crate::types::clone_opt_string(inspect_user)
    }
}

/// The working directory to open: the pod's recorded workspace folder
/// wins, then a per-pod configured directory, then the conventional
/// `/workspaces/` home of the project's final path segment; none when
/// the path has no segment.
pub fn resolve_workdir(
    remote_workspace_folder: &Option<String>,
    config_workdir: &str,
    project_path: &str,
) -> (r: Option<String>)
    ensures
        remote_workspace_folder is Some ==> r == *remote_workspace_folder,
        remote_workspace_folder is None && config_workdir@.len() > 0 ==> (r matches Some(w) && w@
            == config_workdir@),
        remote_workspace_folder is None && config_workdir@.len() == 0 ==> ({
            let base = crate::strutil::after_last(
                crate::strutil::strip_trailing_slashes(project_path@),
                '/',
            );
            if base.len() == 0 {
                r is None
            } else {
                r matches Some(w) && w@ == "/workspaces/"@ + base
            }
        }),
{
    match remote_workspace_folder {
        Some(w) => Some(w.clone()),
        None => {
            if !config_workdir.is_empty() {
                Some(config_workdir.to_owned())
            } else {
                let base = crate::strutil::after_last_char(
                    &crate::strutil::trim_trailing_slashes(
                        &chars_of(project_path),
                    ),
                    '/',
                );
                if base.len() == 0 {
                    None
                } else {
                    let dir = "/workspaces/".to_owned().concat(
                        chars_to_string(&base).as_str(),
                    );
                    Some(dir)
                }
            }
        },
    }
}

/// `s` with every occurrence of `pat` replaced by `rep`, scanning left
/// to right.
pub open spec fn replace_all(s: Seq<char>, pat: Seq<char>, rep: Seq<char>) -> Seq<char>
    decreases s.len(),
{
    if pat.len() == 0 {
        s
    } else if exists|i: int| has_seq_at(s, pat, i) {
        let i = first_seq_index(s, pat);
        if 0 <= i && i + pat.len() <= s.len() {
            s.subrange(0, i) + rep + replace_all(
                s.subrange(i + pat.len(), s.len() as int),
                pat,
                rep,
            )
        } else {
            s
        }
    } else {
        s
    }
}

/// Renders a launch template: every `{command}` in it is replaced by
/// the exec command.
#[verifier::rlimit(60)]
pub fn render_template(template: &str, command: &str) -> (r: String)
    ensures
        r@ == replace_all(template@, "{command}"@, command@),
{
    let pat = chars_of("{command}");
    proof {
        reveal_strlit("{command}");
        assert(pat@.len() == 9);
    }
    let rep = chars_of(command);
    let s = chars_of(template);
    let mut out: Vec<char> = Vec::new();
    let mut cur: Vec<char> = s;
    proof {
        assert(out@ + replace_all(cur@, pat@, rep@) =~= replace_all(s@, pat@, rep@));
    }
    loop
        invariant_except_break
            out@ + replace_all(cur@, pat@, rep@) == replace_all(s@, pat@, rep@),
        invariant
            pat@ == "{command}"@,
            pat@.len() == 9,
            rep@ == command@,
        ensures
            out@ == replace_all(s@, pat@, rep@),
        decreases cur@.len(),
    {
        match find_seq(&cur, &pat) {
            Some(i) => {
                let ghost cv = cur@;
                let cl = cur.len();
                proof {
                    assert(has_seq_at(cv, pat@, i as int));
                    assert(i + pat@.len() <= cl);
                    assert(replace_all(cv, pat@, rep@) == cv.subrange(0, i as int) + rep@
                        + replace_all(
                        cv.subrange(i + pat@.len(), cv.len() as int),
                        pat@,
                        rep@,
                    ));
                }
                let before = slice_chars(&cur, 0, i);
                let after = slice_chars(&cur, i + pat.len(), cl);
                crate::strutil::append_chars(&mut out, &before);
                crate::strutil::append_chars(&mut out, &rep);
                proof {
                    assert(out@ + replace_all(after@, pat@, rep@) =~= replace_all(
                        s@,
                        pat@,
                        rep@,
                    ));
                }
                cur = after;
            },
            None => {
                proof {
                    assert(replace_all(cur@, pat@, rep@) == cur@);
                }
                crate::strutil::append_chars(&mut out, &cur);
                break;
            },
        }
    }
    chars_to_string(&out)
}

} // verus!
