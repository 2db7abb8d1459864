//! The per-pod monitors' computations: turning raw resource counters
//! into a CPU share, a process table into process records, scanned
//! sockets into detections (each port reported once per session), and
//! log lines into bounded batches. The caller runs the loops and the
//! streams; every decision is made here.

use vstd::prelude::*;
use crate::heuristics::{PortOverrides, port_protocol, process_protocol, protocol_for_port,
    protocol_for_process};
use crate::strutil::{all_digits, chars_of, chars_to_string, dec_val, is_digit, parse_u32,
    parse_u64, split_on, split_on_char, str_eq, views_of};
use crate::types::{Confidence, DetectedPort, DetectionMethod, LogEntry, Process};

verus! {

/// CPU share over a sampling window, in hundredths of a percent:
/// `(cpuDelta / systemDelta) * cpus * 100`, and 0 whenever the system
/// counter did not advance or the usage counter went backwards.
pub open spec fn cpu_share_spec(
    total: u64,
    prev_total: u64,
    sys: u64,
    prev_sys: u64,
    cpus: u64,
) -> nat {
    if sys > prev_sys && total >= prev_total {
        ((total - prev_total) * cpus * 10000) as nat / ((sys - prev_sys) as nat)
    } else {
        0
    }
}

/// The CPU share of one resource sample, in hundredths of a percent,
/// saturating at the integer's bound.
pub fn cpu_percent_hundredths(
    total: u64,
    prev_total: u64,
    sys: u64,
    prev_sys: u64,
    cpus: u64,
) -> (r: u64)
    requires
        cpus <= 65536,
    ensures
        r == (if cpu_share_spec(total, prev_total, sys, prev_sys, cpus) > u64::MAX {
            u64::MAX as nat
        } else {
            cpu_share_spec(total, prev_total, sys, prev_sys, cpus)
        }),
{
    if sys > prev_sys && total >= prev_total {
        let cpu_delta: u128 = (total - prev_total) as u128;
        let sys_delta: u128 = (sys - prev_sys) as u128;
        proof {
            assert(cpu_delta * (cpus as u128) * 10000 <= u128::MAX) by (nonlinear_arith)
                requires
                    cpu_delta <= u64::MAX,
                    cpus <= 65536,
            {}
            assert((total - prev_total) as u128 * (cpus as u128) * 10000 == ((total - prev_total)
                * cpus * 10000) as int) by (nonlinear_arith)
                requires
                    cpu_delta == (total - prev_total) as u128,
                    total >= prev_total,
            {}
        }
        let prod: u128 = cpu_delta * (cpus as u128) * 10000;
        let q: u128 = prod / sys_delta;
        if q > u64::MAX as u128 {
            u64::MAX
        } else {
            q as u64
        }
    } else {
        0
    }
}

/// Index of the first title equal to `t`, if any.
pub open spec fn title_index(ts: Seq<Seq<char>>, t: Seq<char>) -> Option<int>
    decreases ts.len(),
{
    if ts.len() == 0 {
        None
    } else if ts[0] == t {
        Some(0int)
    } else {
        match title_index(ts.drop_first(), t) {
            Some(i) => Some(i + 1),
            None => None,
        }
    }
}

/// Position of the first title equal to `t`.
fn find_title(titles: &Vec<String>, t: &str) -> (r: Option<usize>)
    ensures
        match r {
            Some(i) => title_index(titles.deep_view(), t@) == Some(i as int),
            None => title_index(titles.deep_view(), t@) is None,
        },
{
    let ghost ts = titles.deep_view();
    let n = titles.len();
    proof {
        assert(ts.len() == n);
        assert(ts.skip(0) =~= ts);
    }
    let mut i: usize = 0;
    while i < n
        invariant
            i <= n,
            n == titles@.len(),
            ts == titles.deep_view(),
            ts.len() == n,
            title_index(ts, t@) == (match title_index(ts.skip(i as int), t@) {
                Some(x) => Some(x + i),
                None => None::<int>,
            }),
        decreases n - i,
    {
        let ghost rest = ts.skip(i as int);
        proof {
            assert(rest[0] == ts[i as int]);
            assert(rest.drop_first() =~= ts.skip(i + 1));
            assert(ts[i as int] == titles@[i as int]@);
        }
        if str_eq(titles[i].as_str(), t) {
            return Some(i);
        }
        i = i + 1;
    }
    proof {
        assert(ts.skip(n as int) =~= Seq::<Seq<char>>::empty());
    }
    None
}

/// Fixed-point parse of a process table's CPU column: `digits[.digits]`
/// read as hundredths, extra fractional digits dropped; anything else
/// (or overflow) is 0.
pub open spec fn centi_val(s: Seq<char>) -> nat {
    let pieces = split_on(s, '.');
    if pieces.len() == 1 {
        if s.len() >= 1 && all_digits(s) && dec_val(s) * 100 <= u64::MAX {
            dec_val(s) * 100
        } else {
            0
        }
    } else if pieces.len() == 2 {
        let ip = pieces[0];
        let fp = pieces[1];
        if ip.len() >= 1 && all_digits(ip) && all_digits(fp) && dec_val(ip) * 100 + frac_hundredths(
            fp,
        ) <= u64::MAX {
            dec_val(ip) * 100 + frac_hundredths(fp)
        } else {
            0
        }
    } else {
        0
    }
}

/// The first two fractional digits, as hundredths.
pub open spec fn frac_hundredths(s: Seq<char>) -> nat {
    if s.len() == 0 {
        0
    } else if s.len() == 1 {
        crate::strutil::digit_val(s[0]) * 10
    } else {
        crate::strutil::digit_val(s[0]) * 10 + crate::strutil::digit_val(s[1])
    }
}

/// Parses a CPU percentage like `12.3` into hundredths of a percent.
pub fn parse_centi(v: &Vec<char>) -> (r: u64)
    ensures
        r == centi_val(v@),
{
    let pieces = split_on_char(v, '.');
    proof {
        assert(views_of(pieces@)[0] == pieces@[0]@);
        if pieces@.len() >= 2 {
            assert(views_of(pieces@)[1] == pieces@[1]@);
        }
    }
    if pieces.len() == 1 {
        match parse_u64(v) {
            Some(x) => {
                if x <= u64::MAX / 100 {
                    proof {
                        assert(x * 100 <= u64::MAX) by (nonlinear_arith)
                            requires
                                x <= u64::MAX / 100,
                        {}
                    }
                    x * 100
                } else {
                    proof {
                        assert(x * 100 > u64::MAX) by (nonlinear_arith)
                            requires
                                x > u64::MAX / 100,
                        {}
                    }
                    0
                }
            },
            None => 0,
        }
    } else if pieces.len() == 2 {
        let ip = &pieces[0];
        let fp = &pieces[1];
        let frac: u64 = frac_of(fp);
        if !digits_only(fp) {
            return 0;
        }
        match parse_u64(ip) {
            Some(x) => {
                if x <= (u64::MAX - frac) / 100 {
                    proof {
                        assert(x * 100 + frac <= u64::MAX) by (nonlinear_arith)
                            requires
                                x <= (u64::MAX - frac) / 100,
                                frac <= 99,
                        {}
                    }
                    x * 100 + frac
                } else {
                    proof {
                        assert(x * 100 + frac > u64::MAX) by (nonlinear_arith)
                            requires
                                x > (u64::MAX - frac) / 100,
                                frac <= 99,
                        {}
                    }
                    0
                }
            },
            None => 0,
        }
    } else {
        0
    }
}

/// Whether every character is a decimal digit.
fn digits_only(v: &Vec<char>) -> (r: bool)
    ensures
        r == all_digits(v@),
{
    let mut i: usize = 0;
    while i < v.len()
        invariant
            i <= v@.len(),
            forall|j: int| 0 <= j < i ==> is_digit(#[trigger] v@[j]),
        decreases v@.len() - i,
    {
        let u = v[i] as u32;
        if !(48 <= u && u <= 57) {
            assert(!is_digit(v@[i as int]));
            return false;
        }
        i = i + 1;
    }
    true
}

/// The first two fractional digits as hundredths.
fn frac_of(v: &Vec<char>) -> (r: u64)
    ensures
        all_digits(v@) ==> r == frac_hundredths(v@),
        r <= 99,
{
    if v.len() == 0 {
        0
    } else if v.len() == 1 {
        let u = v[0] as u32;
        if 48 <= u && u <= 57 {
            (((u - 48) * 10) as u64)
        } else {
            0
        }
    } else {
        let u0 = v[0] as u32;
        let u1 = v[1] as u32;
        if 48 <= u0 && u0 <= 57 && 48 <= u1 && u1 <= 57 {
            (((u0 - 48) * 10 + (u1 - 48)) as u64)
        } else {
            0
        }
    }
}

/// RSS kilobytes as bytes, saturating.
pub open spec fn kb_to_bytes(v: nat) -> nat {
    if v * 1024 <= u64::MAX {
        v * 1024
    } else {
        u64::MAX as nat
    }
}

/// One process record from one table row, given the column positions.
pub open spec fn process_row_spec(
    row: Seq<Seq<char>>,
    pid_idx: int,
    cmd_idx: int,
    cpu_idx: int,
    mem_idx: int,
) -> (u32, Seq<char>, nat, nat) {
    let pid: nat = if 0 <= pid_idx < row.len() && row[pid_idx].len() >= 1 && all_digits(
        row[pid_idx],
    ) && dec_val(row[pid_idx]) <= u32::MAX {
        dec_val(row[pid_idx])
    } else {
        0
    };
    let cmd: Seq<char> = if 0 <= cmd_idx < row.len() {
        row[cmd_idx]
    } else {
        Seq::empty()
    };
    let name: Seq<char> = {
        let fields = crate::strutil::split_ws(cmd);
        if fields.len() >= 1 {
            fields[0]
        } else {
            cmd
        }
    };
    let cpu: nat = if 0 <= cpu_idx < row.len() {
        centi_val(row[cpu_idx])
    } else {
        0
    };
    let mem: nat = if 0 <= mem_idx < row.len() && row[mem_idx].len() >= 1 && all_digits(
        row[mem_idx],
    ) && dec_val(row[mem_idx]) <= u64::MAX {
        kb_to_bytes(dec_val(row[mem_idx]))
    } else {
        0
    };
    (pid as u32, name, cpu, mem)
}

/// The plain-value content of a `Process`.
pub open spec fn process_view(p: Process) -> (u32, Seq<char>, nat, nat) {
    (p.pid, p.name@, p.cpu_percent_hundredths as nat, p.memory_bytes as nat)
}

/// The column used for each value: the named header when present, else
/// the conventional position.
pub open spec fn column_positions(titles: Seq<Seq<char>>) -> (int, int, int, int) {
    let pid_idx: int = match title_index(titles, "PID"@) {
        Some(i) => i,
        None => 1,
    };
    let cmd_idx: int = match title_index(titles, "COMMAND"@) {
        Some(i) => i,
        None => if titles.len() >= 1 {
            titles.len() - 1
        } else {
            0
        },
    };
    let cpu_idx: int = match title_index(titles, "%CPU"@) {
        Some(i) => i,
        None => 2,
    };
    let mem_idx: int = match title_index(titles, "RSS"@) {
        Some(i) => i,
        None => match title_index(titles, "VSZ"@) {
            Some(i) => i,
            None => 5,
        },
    };
    (pid_idx, cmd_idx, cpu_idx, mem_idx)
}

/// Parses an in-container process table: columns are found by header
/// name, falling back to conventional positions; RSS arrives in
/// kilobytes and leaves in bytes; an unreadable cell yields 0 or an
/// empty name, never an error.
pub fn parse_process_table(titles: &Vec<String>, rows: &Vec<Vec<String>>) -> (r: Vec<Process>)
    ensures
        r@.len() == rows@.len(),
        forall|i: int|
            0 <= i < r@.len() ==> process_view(#[trigger] r@[i]) == ({
                let (pid_idx, cmd_idx, cpu_idx, mem_idx) = column_positions(titles.deep_view());
                process_row_spec(rows@[i].deep_view(), pid_idx, cmd_idx, cpu_idx, mem_idx)
            }),
{
    let ghost ts = titles.deep_view();
    let pid_idx: usize = match find_title(titles, "PID") {
        Some(i) => i,
        None => 1,
    };
    let cmd_idx: usize = match find_title(titles, "COMMAND") {
        Some(i) => i,
        None => if titles.len() >= 1 {
            titles.len() - 1
        } else {
            0
        },
    };
    let cpu_idx: usize = match find_title(titles, "%CPU") {
        Some(i) => i,
        None => 2,
    };
    let mem_idx: usize = match find_title(titles, "RSS") {
        Some(i) => i,
        None => match find_title(titles, "VSZ") {
            Some(i) => i,
            None => 5,
        },
    };
    proof {
        assert(column_positions(ts) == (
            pid_idx as int,
            cmd_idx as int,
            cpu_idx as int,
            mem_idx as int,
        ));
    }
    let mut out: Vec<Process> = Vec::new();
    let mut i: usize = 0;
    let n = rows.len();
    while i < n
        invariant
            i <= n,
            n == rows@.len(),
            out@.len() == i,
            forall|j: int|
                0 <= j < i ==> process_view(#[trigger] out@[j]) == process_row_spec(
                    rows@[j].deep_view(),
                    pid_idx as int,
                    cmd_idx as int,
                    cpu_idx as int,
                    mem_idx as int,
                ),
            column_positions(ts) == (pid_idx as int, cmd_idx as int, cpu_idx as int, mem_idx as int),
        decreases n - i,
    {
        let row = &rows[i];
        let ghost rv = row.deep_view();
        proof {
            assert(rv.len() == row@.len());
            assert(forall|x: int| 0 <= x < rv.len() ==> rv[x] == (#[trigger] row@[x])@);
        }
        let pid: u32 = if pid_idx < row.len() {
            match parse_u32(&chars_of(row[pid_idx].as_str())) {
                Some(x) => x,
                None => 0,
            }
        } else {
            0
        };
        let name: String = if cmd_idx < row.len() {
            let cmd = chars_of(row[cmd_idx].as_str());
            let fields = crate::strutil::fields_of(&cmd);
            if fields.len() >= 1 {
                proof {
                    assert(views_of(fields@)[0] == fields@[0]@);
                }
                chars_to_string(&fields[0])
            } else {
                chars_to_string(&cmd)
            }
        } else {
            String::new()
        };
        let cpu: u64 = if cpu_idx < row.len() {
            parse_centi(&chars_of(row[cpu_idx].as_str()))
        } else {
            0
        };
        let mem: u64 = if mem_idx < row.len() {
            match parse_u64(&chars_of(row[mem_idx].as_str())) {
                Some(x) => {
                    if x <= u64::MAX / 1024 {
                        proof {
                            assert(x * 1024 <= u64::MAX) by (nonlinear_arith)
                                requires
                                    x <= u64::MAX / 1024,
                            {}
                        }
                        x * 1024
                    } else {
                        proof {
                            assert(x * 1024 > u64::MAX) by (nonlinear_arith)
                                requires
                                    x > u64::MAX / 1024,
                            {}
                        }
                        u64::MAX
                    }
                },
                None => 0,
            }
        } else {
            0
        };
        out.push(
            Process { pid, name, cpu_percent_hundredths: cpu, memory_bytes: mem },
        );
        i = i + 1;
    }
    out
}

/// What one sighting of a listening port resolves to: the user override
/// or well-known table first, then the process-name table, then
/// "unknown"; the method and confidence say which one answered.
pub fn classify_port(port: u16, process_name: &str, overrides: &PortOverrides) -> (r: DetectedPort)
    ensures
        r.container_port == port,
        r.process_name@ == process_name@,
        (port_protocol(overrides@, port) matches Some(p)) ==> (port_protocol(
            overrides@,
            port,
        ) matches Some(p) && r.protocol@ == p && r.detection_method == DetectionMethod::WellKnown
            && r.confidence == Confidence::High),
        (port_protocol(overrides@, port) is None && process_protocol(process_name@) matches Some(
            p,
        )) ==> (process_protocol(process_name@) matches Some(p) && r.protocol@ == p
            && r.detection_method == DetectionMethod::ProcessName && r.confidence
            == Confidence::High),
        port_protocol(overrides@, port) is None && process_protocol(process_name@) is None ==> (
        r.protocol@ == "unknown"@ && r.detection_method == DetectionMethod::Unknown && r.confidence
            == Confidence::Low),
{
    match protocol_for_port(port, overrides) {
        Some(p) => DetectedPort {
            container_port: port,
            protocol: p,
            process_name: process_name.to_owned(),
            detection_method: DetectionMethod::WellKnown,
            confidence: Confidence::High,
        },
        None => match protocol_for_process(process_name) {
            Some(p) => DetectedPort {
                container_port: port,
                protocol: p,
                process_name: process_name.to_owned(),
                detection_method: DetectionMethod::ProcessName,
                confidence: Confidence::High,
            },
            None => DetectedPort {
                container_port: port,
                protocol: "unknown".to_owned(),
                process_name: process_name.to_owned(),
                detection_method: DetectionMethod::Unknown,
                confidence: Confidence::Low,
            },
        },
    }
}

/// One monitoring session's port-scan memory: each container port
/// triggers one detection per session.
pub struct PortScanSession {
    known: Vec<u16>,
}

impl PortScanSession {
    pub closed spec fn seen(self) -> Seq<u16> {
        self.known@
    }

    pub open spec fn has_seen(self, port: u16) -> bool {
        self.seen().contains(port)
    }

    pub fn new() -> (r: Self)
        ensures
            r.seen() == Seq::<u16>::empty(),
    {
        PortScanSession { known: Vec::new() }
    }

    /// One sighting: a port already reported this session yields
    /// nothing; a new one is remembered and classified.
    pub fn observe(&mut self, port: u16, process_name: &str, overrides: &PortOverrides) -> (r:
        Option<DetectedPort>)
        ensures
            old(self).has_seen(port) ==> r is None && final(self).seen() == old(self).seen(),
            !old(self).has_seen(port) ==> final(self).seen() == old(self).seen().push(port) && (
            r matches Some(d) && d.container_port == port && d.process_name@ == process_name@),
            forall|p: u16|
                #[trigger] final(self).has_seen(p) == (old(self).has_seen(p) || p == port),
    {
        let mut i: usize = 0;
        let n = self.known.len();
        while i < n
            invariant
                i <= n,
                n == self.known@.len(),
                forall|j: int| 0 <= j < i ==> self.known@[j] != port,
            decreases n - i,
        {
            if self.known[i] == port {
                assert(self.seen()[i as int] == port);
                return None;
            }
            i = i + 1;
        }
        assert(!self.seen().contains(port));
        let ghost s = self.known@;
        self.known.push(port);
        proof {
            assert forall|p: u16| #[trigger] self.known@.contains(p) == (s.contains(p) || p
                == port) by {
                if self.known@.contains(p) {
                    let w = choose|x: int| 0 <= x < self.known@.len() && self.known@[x] == p;
                    if w < s.len() {
                        assert(s[w] == p);
                    }
                }
                if s.contains(p) {
                    let w = choose|x: int| 0 <= x < s.len() && s[x] == p;
                    assert(self.known@[w] == p);
                }
                if p == port {
                    assert(self.known@[s.len() as int] == p);
                }
            }
        }
        Some(classify_port(port, process_name, overrides))
    }
}

/// The dependency report, from the probes' answers: whether the
/// container runtime answered a ping, whether the builder CLI is
/// installed, and which terminal was found, if any.
pub fn dependency_report(
    docker_ok: bool,
    devcontainer_ok: bool,
    terminal: Option<String>,
) -> (r: Vec<crate::types::DependencyCheck>)
    ensures
        r@.len() == 3,
        r@[0].name@ == "Docker daemon"@,
        r@[0].satisfied == docker_ok,
        docker_ok ==> r@[0].details@ == "Running"@ && r@[0].fix_hint is None,
        !docker_ok ==> r@[0].details@ == "Not running or not accessible"@ && (
        r@[0].fix_hint matches Some(h) && h@ == "Start Docker Desktop or Docker daemon"@),
        r@[1].name@ == "devcontainer CLI"@,
        r@[1].satisfied == devcontainer_ok,
        devcontainer_ok ==> r@[1].details@ == "Installed"@ && r@[1].fix_hint is None,
        !devcontainer_ok ==> r@[1].details@ == "Not found"@ && (r@[1].fix_hint matches Some(h)
            && h@ == "Install: npm install -g @devcontainers/cli"@),
        r@[2].name@ == "Terminal"@,
        r@[2].satisfied == (terminal is Some),
        (match terminal {
            Some(t) => r@[2].details@ == t@ && r@[2].fix_hint is None,
            None => r@[2].details@ == "Not found"@ && (r@[2].fix_hint matches Some(h) && h@
                == "Install a terminal emulator (alacritty, kitty, etc.)"@),
        }),
{
    let mut checks: Vec<crate::types::DependencyCheck> = Vec::new();
    checks.push(
        crate::types::DependencyCheck {
            name: "Docker daemon".to_owned(),
            satisfied: docker_ok,
            details: if docker_ok {
                "Running".to_owned()
            } else {
                "Not running or not accessible".to_owned()
            },
            fix_hint: if docker_ok {
                None
            } else {
                Some("Start Docker Desktop or Docker daemon".to_owned())
            },
        },
    );
    checks.push(
        crate::types::DependencyCheck {
            name: "devcontainer CLI".to_owned(),
            satisfied: devcontainer_ok,
            details: if devcontainer_ok {
                "Installed".to_owned()
            } else {
                "Not found".to_owned()
            },
            fix_hint: if devcontainer_ok {
                None
            } else {
                Some("Install: npm install -g @devcontainers/cli".to_owned())
            },
        },
    );
    let terminal_ok = terminal.is_some();
    checks.push(
        crate::types::DependencyCheck {
            name: "Terminal".to_owned(),
            satisfied: terminal_ok,
            details: match terminal {
                Some(t) => t,
                None => "Not found".to_owned(),
            },
            fix_hint: if terminal_ok {
                None
            } else {
                Some("Install a terminal emulator (alacritty, kitty, etc.)".to_owned())
            },
        },
    );
    checks
}

/// Most lines a log batch holds before it must be flushed.
pub const MAX_LOG_BATCH: usize = 50;

/// The log stream's batching state: lines gather here until the batch
/// is full or the caller's flush interval fires.
pub struct LogBatcher {
    batch: Vec<LogEntry>,
}

impl View for LogBatcher {
    type V = Seq<LogEntry>;

    closed spec fn view(&self) -> Seq<LogEntry> {
        self.batch@
    }
}

impl LogBatcher {
    pub fn new() -> (r: Self)
        ensures
            r@ == Seq::<LogEntry>::empty(),
    {
        LogBatcher { batch: Vec::new() }
    }

    /// Adds one line; the answer says whether the batch is now full and
    /// must be flushed.
    pub fn push_line(&mut self, entry: LogEntry) -> (r: bool)
        ensures
            final(self)@ == old(self)@.push(entry),
            r == (final(self)@.len() >= MAX_LOG_BATCH),
    {
        self.batch.push(entry);
        self.batch.len() >= MAX_LOG_BATCH
    }

    /// Takes the gathered lines, leaving the batcher empty.
    pub fn take(&mut self) -> (r: Vec<LogEntry>)
        ensures
            r@ == old(self)@,
            final(self)@ == Seq::<LogEntry>::empty(),
    {
        let mut out: Vec<LogEntry> = Vec::new();
        core::mem::swap(&mut out, &mut self.batch);
        out
    }

    pub fn is_empty(&self) -> (r: bool)
        ensures
            r == (self@.len() == 0),
    {
        self.batch.len() == 0
    }
}

} // verus!
