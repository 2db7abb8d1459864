//! Parsers for in-container listening-socket enumeration: the output of
//! a socket-statistics tool (`LISTEN` rows with an optional attached
//! process), and the kernel's raw TCP table in hex. Each port is
//! reported once, first sighting wins.

use vstd::prelude::*;
use crate::strutil::{after_last, after_last_char, all_digits, all_hex_digits, chars_eq, chars_of,
    dec_val, digit_prefix_len, digit_run, fields_of, find_char, find_seq, first_index_of,
    first_seq_index, has_seq_at, hex_val, lemma_digit_prefix_len_bounds, lemma_first_index_of,
    lines_of, parse_hex_u16, parse_u16, parse_u32, rfind_char, slice_chars, spec_lines, split_on,
    split_on_char, split_ws, starts_with, starts_with_spec, views_of};

verus! {

/// A listening socket seen inside the container.
#[derive(Debug, PartialEq)]
pub struct ListeningPort {
    pub port: u16,
    pub pid: Option<u32>,
    pub process_name: Option<String>,
}

impl Clone for ListeningPort {
    fn clone(&self) -> (r: Self)
        ensures
            r == *self,
    {
        ListeningPort {
            port: self.port,
            pid: self.pid,
            process_name: crate::types::clone_opt_string(&self.process_name),
        }
    }
}

/// The plain-value content of a `ListeningPort`.
pub open spec fn lp_view(p: ListeningPort) -> (u16, Option<u32>, Option<Seq<char>>) {
    (
        p.port,
        p.pid,
        match p.process_name {
            Some(s) => Some(s@),
            None => None,
        },
    )
}

pub open spec fn lp_views(s: Seq<ListeningPort>) -> Seq<(u16, Option<u32>, Option<Seq<char>>)> {
    s.map_values(|p: ListeningPort| lp_view(p))
}

/// Some entry already reports this port.
pub open spec fn has_port(ps: Seq<(u16, Option<u32>, Option<Seq<char>>)>, port: u16) -> bool {
    exists|i: int| 0 <= i < ps.len() && (#[trigger] ps[i]).0 == port
}

/// All lines but the first (the header).
pub open spec fn body_lines(ls: Seq<Seq<char>>) -> Seq<Seq<char>> {
    if ls.len() == 0 {
        ls
    } else {
        ls.drop_first()
    }
}

/// Port of one kernel TCP-table row: the row must have at least four
/// fields, its state field must be `0A` (LISTEN), and its local-address
/// field must carry a positive hex port after a colon.
pub open spec fn proc_tcp_line_port(line: Seq<char>) -> Option<u16> {
    let fs = split_ws(line);
    if fs.len() >= 4 && fs[3] == "0A"@ {
        let pieces = split_on(fs[1], ':');
        if pieces.len() >= 2 {
            let hex = pieces[1];
            if hex.len() >= 1 && all_hex_digits(hex) && hex_val(hex) <= u16::MAX && hex_val(hex)
                > 0 {
                Some(hex_val(hex) as u16)
            } else {
                None
            }
        } else {
            None
        }
    } else {
        None
    }
}

pub open spec fn parse_proc_lines(
    lines: Seq<Seq<char>>,
    acc: Seq<(u16, Option<u32>, Option<Seq<char>>)>,
) -> Seq<(u16, Option<u32>, Option<Seq<char>>)>
    decreases lines.len(),
{
    if lines.len() == 0 {
        acc
    } else {
        let acc2 = match proc_tcp_line_port(lines[0]) {
            Some(p) => if !has_port(acc, p) {
                acc.push((p, None::<u32>, None::<Seq<char>>))
            } else {
                acc
            },
            None => acc,
        };
        parse_proc_lines(lines.drop_first(), acc2)
    }
}

/// What `parse_proc_net_tcp` returns, as plain values.
pub open spec fn parse_proc_net_tcp_spec(s: Seq<char>) -> Seq<(u16, Option<u32>, Option<Seq<char>>)> {
    parse_proc_lines(body_lines(spec_lines(s)), Seq::empty())
}

/// Whether some collected entry already has this port.
fn out_has_port(out: &Vec<ListeningPort>, port: u16) -> (r: bool)
    ensures
        r == has_port(lp_views(out@), port),
{
    let mut i: usize = 0;
    while i < out.len()
        invariant
            i <= out@.len(),
            forall|j: int| 0 <= j < i ==> (#[trigger] lp_views(out@)[j]).0 != port,
        decreases out@.len() - i,
    {
        proof {
            assert(lp_views(out@)[i as int] == lp_view(out@[i as int]));
        }
        if out[i].port == port {
            assert(has_port(lp_views(out@), port));
            return true;
        }
        i = i + 1;
    }
    false
}

/// Parses the kernel's raw TCP table: rows in LISTEN state (`0A`)
/// yield their local port, each port once, with no process attached.
pub fn parse_proc_net_tcp(output: &str) -> (r: Vec<ListeningPort>)
    ensures
        lp_views(r@) == parse_proc_net_tcp_spec(output@),
{
    let cs = chars_of(output);
    let lines = lines_of(&cs);
    let ghost all = views_of(lines@);
    let mut out: Vec<ListeningPort> = Vec::new();
    if lines.len() == 0 {
        proof {
            assert(lp_views(out@) =~= parse_proc_lines(body_lines(all), Seq::empty()));
        }
        return out;
    }
    let n = lines.len();
    let mut i: usize = 1;
    proof {
        assert(all.skip(1) =~= body_lines(all));
        assert(lp_views(out@) =~= Seq::<(u16, Option<u32>, Option<Seq<char>>)>::empty());
    }
    while i < n
        invariant
            1 <= i <= n,
            n == lines@.len(),
            all == views_of(lines@),
            parse_proc_lines(all.skip(i as int), lp_views(out@)) == parse_proc_lines(
                body_lines(all),
                Seq::empty(),
            ),
        decreases n - i,
    {
        let ghost rest = all.skip(i as int);
        proof {
            assert(rest[0] == all[i as int]);
            assert(rest.drop_first() =~= all.skip(i + 1));
            assert(all[i as int] == lines@[i as int]@);
        }
        let line = &lines[i];
        let fields = fields_of(line);
        let mut added = false;
        if fields.len() >= 4 {
            proof {
                assert(views_of(fields@)[3] == fields@[3]@);
                assert(views_of(fields@)[1] == fields@[1]@);
            }
            if chars_eq(&fields[3], &chars_of("0A")) {
                let pieces = split_on_char(&fields[1], ':');
                if pieces.len() >= 2 {
                    proof {
                        assert(views_of(pieces@)[1] == pieces@[1]@);
                    }
                    match parse_hex_u16(&pieces[1]) {
                        Some(port) => {
                            if port > 0 && !out_has_port(&out, port) {
                                let ghost before = lp_views(out@);
                                out.push(
                                    ListeningPort { port, pid: None, process_name: None },
                                );
                                added = true;
                                proof {
                                    assert(lp_views(out@) =~= before.push(
                                        (port, None::<u32>, None::<Seq<char>>),
                                    ));
                                    assert(proc_tcp_line_port(all[i as int]) == Some(port));
                                }
                            }
                        },
                        None => {},
                    }
                }
            }
        }
        proof {
            if !added {
                if proc_tcp_line_port(all[i as int]) is Some {
                    let p = proc_tcp_line_port(all[i as int])->Some_0;
                    assert(has_port(lp_views(out@), p));
                }
            }
            assert(parse_proc_lines(all.skip(i + 1), lp_views(out@)) == parse_proc_lines(
                body_lines(all),
                Seq::empty(),
            ));
        }
        i = i + 1;
    }
    proof {
        assert(all.skip(n as int) =~= Seq::<Seq<char>>::empty());
    }
    out
}

/// Port of one socket-statistics row: the row must start with `LISTEN`,
/// have at least four fields, and its local-address field must end in a
/// positive decimal port after the last colon.
pub open spec fn ss_line_port(line: Seq<char>) -> Option<u16> {
    let fs = split_ws(line);
    if starts_with_spec(line, "LISTEN"@) && fs.len() >= 4 {
        let la = fs[3];
        if exists|j: int| 0 <= j < la.len() && la[j] == ':' {
            let p = after_last(la, ':');
            if p.len() >= 1 && all_digits(p) && dec_val(p) <= u16::MAX && dec_val(p) > 0 {
                Some(dec_val(p) as u16)
            } else {
                None
            }
        } else {
            None
        }
    } else {
        None
    }
}

/// Process name and pid digits attached to a socket-statistics row:
/// the text `users:(("` followed by a non-empty name, `",pid=` and at
/// least one digit.
pub open spec fn ss_line_proc(line: Seq<char>) -> Option<(Seq<char>, Seq<char>)> {
    let marker = "users:((\""@;
    if exists|i: int| has_seq_at(line, marker, i) {
        let rest = line.subrange(
            first_seq_index(line, marker) + marker.len(),
            line.len() as int,
        );
        if exists|j: int| 0 <= j < rest.len() && rest[j] == '"' {
            let q = first_index_of(rest, '"');
            if q >= 1 {
                let name = rest.subrange(0, q);
                let after = rest.subrange(q, rest.len() as int);
                if starts_with_spec(after, "\",pid="@) {
                    let d = after.subrange(6, after.len() as int);
                    let k = digit_prefix_len(d);
                    if k >= 1 {
                        Some((name, d.subrange(0, k)))
                    } else {
                        None
                    }
                } else {
                    None
                }
            } else {
                None
            }
        } else {
            None
        }
    } else {
        None
    }
}

/// One socket-statistics row as plain values, when it is a LISTEN row
/// with a readable port.
pub open spec fn ss_line_entry(line: Seq<char>) -> Option<(u16, Option<u32>, Option<Seq<char>>)> {
    match ss_line_port(line) {
        Some(port) => Some(
            match ss_line_proc(line) {
                Some((name, digits)) => (
                    port,
                    if dec_val(digits) <= u32::MAX {
                        Some(dec_val(digits) as u32)
                    } else {
                        None::<u32>
                    },
                    Some(name),
                ),
                None => (port, None::<u32>, None::<Seq<char>>),
            },
        ),
        None => None,
    }
}

pub open spec fn parse_ss_lines(
    lines: Seq<Seq<char>>,
    acc: Seq<(u16, Option<u32>, Option<Seq<char>>)>,
) -> Seq<(u16, Option<u32>, Option<Seq<char>>)>
    decreases lines.len(),
{
    if lines.len() == 0 {
        acc
    } else {
        let acc2 = match ss_line_entry(lines[0]) {
            Some(e) => if !has_port(acc, e.0) {
                acc.push(e)
            } else {
                acc
            },
            None => acc,
        };
        parse_ss_lines(lines.drop_first(), acc2)
    }
}

/// What `parse_ss_output` returns, as plain values.
pub open spec fn parse_ss_output_spec(s: Seq<char>) -> Seq<(u16, Option<u32>, Option<Seq<char>>)> {
    parse_ss_lines(body_lines(spec_lines(s)), Seq::empty())
}

/// Process name and pid digits of one row, as vectors.
fn ss_proc_of_line(line: &Vec<char>) -> (r: Option<(Vec<char>, Vec<char>)>)
    ensures
        match r {
            Some((name, digits)) => ss_line_proc(line@) == Some((name@, digits@)) && digits@.len()
                >= 1 && all_digits(digits@),
            None => ss_line_proc(line@) is None,
        },
{
    let marker = chars_of("users:((\"");
    let ghost m = "users:((\""@;
    match find_seq(line, &marker) {
        Some(i) => {
            let ll = line.len();
            proof {
                assert(has_seq_at(line@, m, i as int));
                assert(i + m.len() <= line@.len());
            }
            let rest = slice_chars(line, i + marker.len(), ll);
            proof {
                assert(rest@ =~= line@.subrange(
                    first_seq_index(line@, m) + m.len(),
                    line@.len() as int,
                ));
            }
            match find_char(&rest, '"') {
                Some(q) => {
                    proof {
                        lemma_first_index_of(rest@, '"', q as int);
                    }
                    if q >= 1 {
                        let name = slice_chars(&rest, 0, q);
                        let after = slice_chars(&rest, q, rest.len());
                        if starts_with(&after, &chars_of("\",pid=")) {
                            proof {
                                reveal_strlit("\",pid=");
                            }
                            let k = digit_run(&after, 6);
                            let digits = slice_chars(&after, 6, 6 + k);
                            proof {
                                assert(digits@ =~= after@.subrange(6, after@.len() as int)
                                    .subrange(0, k as int));
                                lemma_digit_prefix_len_bounds(
                                    after@.subrange(6, after@.len() as int),
                                );
                                assert(after@.subrange(6, after@.len() as int) =~= after@.skip(6));
                                assert forall|j: int| 0 <= j < digits@.len() implies
                                    crate::strutil::is_digit(#[trigger] digits@[j]) by {
                                    assert(digits@[j] == after@.skip(6)[j]);
                                }
                            }
                            if k >= 1 {
                                return Some((name, digits));
                            }
                        }
                    }
                    None
                },
                None => None,
            }
        },
        None => None,
    }
}

/// Parses socket-statistics output: `LISTEN` rows yield their local
/// port, each port once, with the attached process when one is shown.
#[verifier::rlimit(100)]
pub fn parse_ss_output(output: &str) -> (r: Vec<ListeningPort>)
    ensures
        lp_views(r@) == parse_ss_output_spec(output@),
{
    let cs = chars_of(output);
    let lines = lines_of(&cs);
    let ghost all = views_of(lines@);
    let mut out: Vec<ListeningPort> = Vec::new();
    if lines.len() == 0 {
        proof {
            assert(lp_views(out@) =~= parse_ss_lines(body_lines(all), Seq::empty()));
        }
        return out;
    }
    let n = lines.len();
    let mut i: usize = 1;
    proof {
        assert(all.skip(1) =~= body_lines(all));
        assert(lp_views(out@) =~= Seq::<(u16, Option<u32>, Option<Seq<char>>)>::empty());
    }
    while i < n
        invariant
            1 <= i <= n,
            n == lines@.len(),
            all == views_of(lines@),
            parse_ss_lines(all.skip(i as int), lp_views(out@)) == parse_ss_lines(
                body_lines(all),
                Seq::empty(),
            ),
        decreases n - i,
    {
        let ghost rest = all.skip(i as int);
        proof {
            assert(rest[0] == all[i as int]);
            assert(rest.drop_first() =~= all.skip(i + 1));
            assert(all[i as int] == lines@[i as int]@);
        }
        let line = &lines[i];
        let ghost lv = line@;
        let mut added = false;
        if starts_with(line, &chars_of("LISTEN")) {
            let fields = fields_of(line);
            if fields.len() >= 4 {
                proof {
                    assert(views_of(fields@)[3] == fields@[3]@);
                }
                let la = &fields[3];
                if let Some(_c) = rfind_char(la, ':') {
                    let digits = after_last_char(la, ':');
                    proof {
                        assert(exists|j: int| 0 <= j < la@.len() && la@[j] == ':');
                    }
                    match parse_u16(&digits) {
                        Some(port) => {
                            if port > 0 && !out_has_port(&out, port) {
                                let ghost before = lp_views(out@);
                                let entry = match ss_proc_of_line(line) {
                                    Some((name_v, digits_v)) => {
                                        let pid = parse_u32(&digits_v);
                                        let name = crate::strutil::chars_to_string(&name_v);
                                        ListeningPort {
                                            port,
                                            pid,
                                            process_name: Some(name),
                                        }
                                    },
                                    None => ListeningPort {
                                        port,
                                        pid: None,
                                        process_name: None,
                                    },
                                };
                                proof {
                                    assert(ss_line_entry(lv) == Some(lp_view(entry)));
                                }
                                out.push(entry);
                                added = true;
                                proof {
                                    assert(lp_views(out@) =~= before.push(
                                        ss_line_entry(lv)->Some_0,
                                    ));
                                }
                            }
                        },
                        None => {},
                    }
                }
            }
        }
        proof {
            if !added {
                if ss_line_entry(lv) is Some {
                    let e = ss_line_entry(lv)->Some_0;
                    assert(has_port(lp_views(out@), e.0));
                }
            }
            assert(parse_ss_lines(all.skip(i + 1), lp_views(out@)) == parse_ss_lines(
                body_lines(all),
                Seq::empty(),
            ));
        }
        i = i + 1;
    }
    proof {
        assert(all.skip(n as int) =~= Seq::<Seq<char>>::empty());
    }
    out
}

} // verus!
