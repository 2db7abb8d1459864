//! JSON-adjacent parsing: stripping comments from a configuration file,
//! and pulling named string fields out of the builder's output through
//! serde_json. The JSON grammar itself is serde_json's; this crate
//! names its results and reasons over those names.

use vstd::prelude::*;
use crate::strutil::{chars_of, chars_to_string, spec_lines, lines_of, trim, trim_spec};

verus! {

/// The string value of the named top-level field of a JSON document,
/// when the text parses as one and holds such a field.
pub uninterp spec fn json_str_field_of(s: Seq<char>, key: Seq<char>) -> Option<Seq<char>>;

/// Relies on `serde_json::from_str::<Value>`, `Value::get` and
/// `Value::as_str`: the string value of the named top-level field when
/// `s` parses as JSON and holds one; the result depends on the text and
/// the key alone.
#[verifier::external_body]
pub fn json_str_field(s: &str, key: &str) -> (r: Option<String>)
    ensures
        match r {
            Some(v) => json_str_field_of(s@, key@) == Some(v@),
            None => json_str_field_of(s@, key@) is None,
        },
{
    match serde_json::from_str::<serde_json::Value>(s) {
        Ok(val) => val.get(key).and_then(|v| v.as_str()).map(|x| x.to_string()),
        Err(_) => None,
    }
}

/// For a JSON array: the string value of the named field of each
/// element, in order; nothing when the text is not a JSON array.
pub uninterp spec fn json_array_str_fields_of(s: Seq<char>, key: Seq<char>) -> Option<
    Seq<Option<Seq<char>>>,
>;

/// Relies on `serde_json::from_str::<Vec<Value>>`, `Value::get` and
/// `Value::as_str`: the string value of the named field of each array
/// element; the result depends on the text and the key alone.
#[verifier::external_body]
pub fn json_array_str_fields(s: &str, key: &str) -> (r: Option<Vec<Option<String>>>)
    ensures
        match r {
            Some(v) => json_array_str_fields_of(s@, key@) == Some(v.deep_view()),
            None => json_array_str_fields_of(s@, key@) is None,
        },
{
    match serde_json::from_str::<Vec<serde_json::Value>>(s) {
        Ok(arr) => Some(
            arr.iter().map(
                |obj| obj.get(key).and_then(|v| v.as_str()).map(|x| x.to_string()),
            ).collect(),
        ),
        Err(_) => None,
    }
}

/// Comment stripping, outside any string: ordinary text is copied.
pub open spec fn strip_normal(s: Seq<char>) -> Seq<char>
    decreases s.len(), 3int,
{
    if s.len() == 0 {
        Seq::empty()
    } else if s[0] == '"' {
        seq!['"'] + strip_string(s.drop_first())
    } else if s[0] == '/' && s.len() >= 2 && s[1] == '/' {
        strip_line_comment(s.subrange(2, s.len() as int))
    } else if s[0] == '/' && s.len() >= 2 && s[1] == '*' {
        strip_block_comment(s.subrange(2, s.len() as int))
    } else {
        seq![s[0]] + strip_normal(s.drop_first())
    }
}

/// Inside a string literal: everything is copied, escapes two at a time.
pub open spec fn strip_string(s: Seq<char>) -> Seq<char>
    decreases s.len(), 2int,
{
    if s.len() == 0 {
        Seq::empty()
    } else if s[0] == '\\' {
        if s.len() >= 2 {
            seq![s[0], s[1]] + strip_string(s.subrange(2, s.len() as int))
        } else {
            seq!['\\']
        }
    } else if s[0] == '"' {
        seq!['"'] + strip_normal(s.drop_first())
    } else {
        seq![s[0]] + strip_string(s.drop_first())
    }
}

/// Inside a line comment: dropped up to and including nothing; the
/// newline that ends it is kept.
pub open spec fn strip_line_comment(s: Seq<char>) -> Seq<char>
    decreases s.len(), 1int,
{
    if s.len() == 0 {
        Seq::empty()
    } else if s[0] == '\n' {
        seq!['\n'] + strip_normal(s.drop_first())
    } else {
        strip_line_comment(s.drop_first())
    }
}

/// Inside a block comment: dropped, except that newlines are kept.
pub open spec fn strip_block_comment(s: Seq<char>) -> Seq<char>
    decreases s.len(), 1int,
{
    if s.len() == 0 {
        Seq::empty()
    } else if s[0] == '*' && s.len() >= 2 && s[1] == '/' {
        strip_normal(s.subrange(2, s.len() as int))
    } else if s[0] == '\n' {
        seq!['\n'] + strip_block_comment(s.drop_first())
    } else {
        strip_block_comment(s.drop_first())
    }
}

/// What `strip_json_comments` returns.
pub open spec fn strip_spec(s: Seq<char>) -> Seq<char> {
    strip_normal(s)
}

enum StripMode {
    Normal,
    InString,
    LineComment,
    BlockComment,
}

/// The rest of the stripping, from the current mode.
spec fn strip_rest(mode: StripMode, s: Seq<char>) -> Seq<char> {
    match mode {
        StripMode::Normal => strip_normal(s),
        StripMode::InString => strip_string(s),
        StripMode::LineComment => strip_line_comment(s),
        StripMode::BlockComment => strip_block_comment(s),
    }
}

/// Removes `//` line comments and `/* */` block comments outside string
/// literals; string contents and newlines are kept.
pub fn strip_json_comments(input: &str) -> (r: String)
    ensures
        r@ == strip_spec(input@),
{
    let v = chars_of(input);
    let n = v.len();
    let mut out: Vec<char> = Vec::new();
    let mut mode = StripMode::Normal;
    let mut i: usize = 0;
    proof {
        assert(v@.skip(0) =~= v@);
    }
    while i < n
        invariant
            i <= n,
            n == v@.len(),
            strip_normal(v@) == out@ + strip_rest(mode, v@.skip(i as int)),
        decreases n - i,
    {
        let ghost rest = v@.skip(i as int);
        proof {
            assert(rest[0] == v@[i as int]);
            assert(rest.drop_first() =~= v@.skip(i + 1));
            if i + 2 <= n {
                assert(rest.subrange(2, rest.len() as int) =~= v@.skip(i + 2));
            }
            if rest.len() >= 2 {
                assert(rest[1] == v@[i + 1]);
            }
        }
        let c = v[i];
        match mode {
            StripMode::Normal => {
                if c == '"' {
                    out.push('"');
                    mode = StripMode::InString;
                    i = i + 1;
                } else if c == '/' && i + 1 < n && v[i + 1] == '/' {
                    mode = StripMode::LineComment;
                    i = i + 2;
                } else if c == '/' && i + 1 < n && v[i + 1] == '*' {
                    mode = StripMode::BlockComment;
                    i = i + 2;
                } else {
                    out.push(c);
                    i = i + 1;
                }
            },
            StripMode::InString => {
                if c == '\\' {
                    if i + 1 < n {
                        out.push(c);
                        out.push(v[i + 1]);
                        i = i + 2;
                    } else {
                        out.push(c);
                        i = i + 1;
                        proof {
                            assert(v@.skip(i as int) =~= Seq::<char>::empty());
                        }
                    }
                } else if c == '"' {
                    out.push('"');
                    mode = StripMode::Normal;
                    i = i + 1;
                } else {
                    out.push(c);
                    i = i + 1;
                }
            },
            StripMode::LineComment => {
                if c == '\n' {
                    out.push('\n');
                    mode = StripMode::Normal;
                }
                i = i + 1;
            },
            StripMode::BlockComment => {
                if c == '*' && i + 1 < n && v[i + 1] == '/' {
                    mode = StripMode::Normal;
                    i = i + 2;
                } else {
                    if c == '\n' {
                        out.push('\n');
                    }
                    i = i + 1;
                }
            },
        }
    }
    proof {
        assert(v@.skip(n as int) =~= Seq::<char>::empty());
    }
    chars_to_string(&out)
}

/// What the builder reported about the container it brought up.
#[derive(Debug, PartialEq)]
pub struct DevcontainerUpResult {
    pub container_id: Option<String>,
    pub remote_user: Option<String>,
    pub remote_workspace_folder: Option<String>,
}

/// The texts tried for JSON, in order: the whole output, then each of
/// its lines, trimmed.
pub open spec fn candidates_of(s: Seq<char>) -> Seq<Seq<char>> {
    seq![s] + spec_lines(s).map_values(|l: Seq<char>| trim_spec(l))
}

/// Merges fields from candidate texts in order: each field keeps its
/// first value, and the scan stops once a container id was found.
pub open spec fn dc_merge(
    cands: Seq<Seq<char>>,
    cid: Option<Seq<char>>,
    user: Option<Seq<char>>,
    wsf: Option<Seq<char>>,
) -> (Option<Seq<char>>, Option<Seq<char>>, Option<Seq<char>>)
    decreases cands.len(),
{
    if cands.len() == 0 || cid is Some {
        (cid, user, wsf)
    } else {
        let c = cands[0];
        dc_merge(
            cands.drop_first(),
            json_str_field_of(c, "containerId"@),
            if user is Some {
                user
            } else {
                json_str_field_of(c, "remoteUser"@)
            },
            if wsf is Some {
                wsf
            } else {
                json_str_field_of(c, "remoteWorkspaceFolder"@)
            },
        )
    }
}

/// What `parse_devcontainer_output` returns, as plain values.
pub open spec fn parse_devcontainer_output_spec(s: Seq<char>) -> (
    Option<Seq<char>>,
    Option<Seq<char>>,
    Option<Seq<char>>,
) {
    dc_merge(candidates_of(s), None, None, None)
}

pub open spec fn opt_view(o: Option<String>) -> Option<Seq<char>> {
    match o {
        Some(s) => Some(s@),
        None => None,
    }
}

/// Extracts the container id, remote user and remote workspace folder
/// from the builder's output: the whole output is tried as JSON, then
/// each line; each field keeps its first value, and the scan stops once
/// a container id was found.
pub fn parse_devcontainer_output(output: &str) -> (r: DevcontainerUpResult)
    ensures
        parse_devcontainer_output_spec(output@) == (
            opt_view(r.container_id),
            opt_view(r.remote_user),
            opt_view(r.remote_workspace_folder),
        ),
{
    let ghost cands = candidates_of(output@);
    let lines = lines_of(&chars_of(output));
    let mut user: Option<String> = None;
    let mut wsf: Option<String> = None;

    // The whole output first.
    let cid = json_str_field(output, "containerId");
    user = json_str_field(output, "remoteUser");
    wsf = json_str_field(output, "remoteWorkspaceFolder");
    proof {
        assert(cands[0] == output@);
        assert(cands.drop_first() =~= spec_lines(output@).map_values(
            |l: Seq<char>| trim_spec(l),
        ));
        assert(parse_devcontainer_output_spec(output@) == dc_merge(
            cands.drop_first(),
            json_str_field_of(output@, "containerId"@),
            json_str_field_of(output@, "remoteUser"@),
            json_str_field_of(output@, "remoteWorkspaceFolder"@),
        ));
        assert(opt_view(cid) == json_str_field_of(output@, "containerId"@));
        assert(opt_view(user) == json_str_field_of(output@, "remoteUser"@));
        assert(opt_view(wsf) == json_str_field_of(output@, "remoteWorkspaceFolder"@));
    }
    if cid.is_some() {
        proof {
            assert(dc_merge(
                cands.drop_first(),
                opt_view(cid),
                opt_view(user),
                opt_view(wsf),
            ) == (opt_view(cid), opt_view(user), opt_view(wsf)));
        }
        return DevcontainerUpResult {
            container_id: cid,
            remote_user: user,
            remote_workspace_folder: wsf,
        };
    }
    let ghost lcands = cands.drop_first();
    proof {
        assert(lcands.skip(0) =~= lcands);
    }
    let n = lines.len();
    let mut i: usize = 0;
    while i < n
        invariant
            i <= n,
            n == lines@.len(),
            lcands == spec_lines(output@).map_values(|l: Seq<char>| trim_spec(l)),
            lcands.len() == n,
            forall|j: int| 0 <= j < n ==> lcands[j] == trim_spec(lines@[j]@),
            dc_merge(lcands.skip(i as int), None, opt_view(user), opt_view(wsf))
                == parse_devcontainer_output_spec(output@),
        decreases n - i,
    {
        let ghost rest = lcands.skip(i as int);
        proof {
            assert(rest[0] == lcands[i as int]);
            assert(rest.drop_first() =~= lcands.skip(i + 1));
        }
        let ghost user0 = opt_view(user);
        let ghost wsf0 = opt_view(wsf);
        let trimmed = chars_to_string(&trim(&lines[i]));
        proof {
            assert(trimmed@ == rest[0]);
            assert(dc_merge(rest, None, user0, wsf0) == dc_merge(
                rest.drop_first(),
                json_str_field_of(rest[0], "containerId"@),
                if user0 is Some {
                    user0
                } else {
                    json_str_field_of(rest[0], "remoteUser"@)
                },
                if wsf0 is Some {
                    wsf0
                } else {
                    json_str_field_of(rest[0], "remoteWorkspaceFolder"@)
                },
            ));
        }
        let cid2 = json_str_field(trimmed.as_str(), "containerId");
        if user.is_none() {
            user = json_str_field(trimmed.as_str(), "remoteUser");
        }
        if wsf.is_none() {
            wsf = json_str_field(trimmed.as_str(), "remoteWorkspaceFolder");
        }
        proof {
            assert(opt_view(cid2) == json_str_field_of(rest[0], "containerId"@));
            assert(opt_view(user) == (if user0 is Some {
                user0
            } else {
                json_str_field_of(rest[0], "remoteUser"@)
            }));
            assert(opt_view(wsf) == (if wsf0 is Some {
                wsf0
            } else {
                json_str_field_of(rest[0], "remoteWorkspaceFolder"@)
            }));
        }
        if cid2.is_some() {
            proof {
                assert(dc_merge(
                    lcands.skip(i + 1),
                    opt_view(cid2),
                    opt_view(user),
                    opt_view(wsf),
                ) == (opt_view(cid2), opt_view(user), opt_view(wsf)));
            }
            return DevcontainerUpResult {
                container_id: cid2,
                remote_user: user,
                remote_workspace_folder: wsf,
            };
        }
        i = i + 1;
    }
    proof {
        assert(lcands.skip(n as int) =~= Seq::<Seq<char>>::empty());
    }
    DevcontainerUpResult { container_id: None, remote_user: user, remote_workspace_folder: wsf }
}

/// Metadata recorded about a container by its build: the remote user
/// and the workspace folder, where known.
#[derive(Debug, PartialEq)]
pub struct DevcontainerMeta {
    pub remote_user: Option<String>,
    pub remote_workspace_folder: Option<String>,
}

/// The first non-empty value in a row of optional strings.
pub open spec fn first_nonempty(vals: Seq<Option<Seq<char>>>) -> Option<Seq<char>>
    decreases vals.len(),
{
    if vals.len() == 0 {
        None
    } else {
        match vals[0] {
            Some(v) => if v.len() >= 1 {
                Some(v)
            } else {
                first_nonempty(vals.drop_first())
            },
            None => first_nonempty(vals.drop_first()),
        }
    }
}

/// The first non-empty string value of `key` among the elements of the
/// JSON array `s`; nothing when `s` is not a JSON array.
pub open spec fn metadata_field(s: Seq<char>, key: Seq<char>) -> Option<Seq<char>> {
    match json_array_str_fields_of(s, key) {
        Some(vals) => first_nonempty(vals),
        None => None,
    }
}

/// The first non-empty value, as a string.
fn pick_first_nonempty(vals: &Vec<Option<String>>) -> (r: Option<String>)
    ensures
        first_nonempty(vals.deep_view()) == opt_view(r),
{
    let ghost dv = vals.deep_view();
    let n = vals.len();
    proof {
        assert(dv.len() == n);
        assert(dv.skip(0) =~= dv);
    }
    let mut i: usize = 0;
    while i < n
        invariant
            i <= n,
            n == vals@.len(),
            dv == vals.deep_view(),
            dv.len() == n,
            first_nonempty(dv.skip(i as int)) == first_nonempty(dv),
        decreases n - i,
    {
        let ghost rest = dv.skip(i as int);
        proof {
            assert(rest[0] == dv[i as int]);
            assert(rest.drop_first() =~= dv.skip(i + 1));
            assert(dv[i as int] == vals@[i as int].deep_view());
        }
        match &vals[i] {
            Some(v) => {
                if !v.as_str().is_empty() {
                    return Some(v.clone());
                }
            },
            None => {},
        }
        i = i + 1;
    }
    proof {
        assert(dv.skip(n as int) =~= Seq::<Option<Seq<char>>>::empty());
    }
    None
}

/// Extracts the remote user and workspace folder from a container
/// metadata label: a JSON array of objects, each field taking its first
/// non-empty occurrence.
pub fn parse_devcontainer_metadata_label(metadata_json: &str) -> (r: DevcontainerMeta)
    ensures
        metadata_field(metadata_json@, "remoteUser"@) == opt_view(r.remote_user),
        metadata_field(metadata_json@, "remoteWorkspaceFolder"@) == opt_view(
            r.remote_workspace_folder,
        ),
{
    let remote_user = match json_array_str_fields(metadata_json, "remoteUser") {
        Some(vals) => pick_first_nonempty(&vals),
        None => None,
    };
    let remote_workspace_folder = match json_array_str_fields(
        metadata_json,
        "remoteWorkspaceFolder",
    ) {
        Some(vals) => pick_first_nonempty(&vals),
        None => None,
    };
    DevcontainerMeta { remote_user, remote_workspace_folder }
}

/// Extracts the remote user and workspace folder from the text of a
/// container-definition file: comments are stripped, then the top-level
/// `remoteUser` and `workspaceFolder` fields are read.
pub fn devcontainer_meta_from_json(content: &str) -> (r: DevcontainerMeta)
    ensures
        json_str_field_of(strip_spec(content@), "remoteUser"@) == opt_view(r.remote_user),
        json_str_field_of(strip_spec(content@), "workspaceFolder"@) == opt_view(
            r.remote_workspace_folder,
        ),
{
    let cleaned = strip_json_comments(content);
    let remote_user = json_str_field(cleaned.as_str(), "remoteUser");
    let remote_workspace_folder = json_str_field(cleaned.as_str(), "workspaceFolder");
    DevcontainerMeta { remote_user, remote_workspace_folder }
}

} // verus!
