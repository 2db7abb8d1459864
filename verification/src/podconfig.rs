//! Per-pod saved configuration, keyed by pod name. Reading and writing
//! the files is the caller's job; the data and the merge rules live
//! here.

use vstd::prelude::*;
use crate::shell::real_shell;
use crate::types::{Pod, clone_opt_string};

verus! {

/// A port exposed automatically whenever the pod runs.
#[derive(Debug, PartialEq)]
pub struct AutoExposePort {
    pub container_port: u16,
    pub host_port: u16,
    pub protocol: String,
}

impl Clone for AutoExposePort {
    fn clone(&self) -> (r: Self)
        ensures
            r == *self,
    {
        AutoExposePort {
            container_port: self.container_port,
            host_port: self.host_port,
            protocol: self.protocol.clone(),
        }
    }
}

/// A per-pod rule excluding ports from automatic exposure.
#[derive(Debug, PartialEq)]
pub struct PodNotExposeFilter {
    pub protocol: Option<String>,
    pub port: Option<u16>,
}

impl Clone for PodNotExposeFilter {
    fn clone(&self) -> (r: Self)
        ensures
            r == *self,
    {
        PodNotExposeFilter { protocol: clone_opt_string(&self.protocol), port: self.port }
    }
}

/// A pod's saved configuration.
#[derive(Debug, PartialEq)]
pub struct PodStateConfig {
    pub name: String,
    pub project_path: String,
    pub shell: String,
    pub auto_expose_ports: Vec<AutoExposePort>,
    pub port_mappings: Vec<(u16, u16)>,
    pub alias: String,
    pub not_expose_filters: Vec<PodNotExposeFilter>,
    pub manual_expose_ports: Vec<AutoExposePort>,
    pub terminal_override: String,
    pub working_dir: String,
    pub bind_address: String,
    pub remote_user: String,
}

impl PodStateConfig {
    /// `other` carries exactly the same data.
    pub open spec fn same_as(self, other: PodStateConfig) -> bool {
        &&& self.name == other.name
        &&& self.project_path == other.project_path
        &&& self.shell == other.shell
        &&& self.auto_expose_ports@ == other.auto_expose_ports@
        &&& self.port_mappings@ == other.port_mappings@
        &&& self.alias == other.alias
        &&& self.not_expose_filters@ == other.not_expose_filters@
        &&& self.manual_expose_ports@ == other.manual_expose_ports@
        &&& self.terminal_override == other.terminal_override
        &&& self.working_dir == other.working_dir
        &&& self.bind_address == other.bind_address
        &&& self.remote_user == other.remote_user
    }

    /// The configuration written when a pod is first registered: name
    /// and path set, everything else empty.
    pub fn new_default(name: String, project_path: String) -> (r: Self)
        ensures
            r.name == name,
            r.project_path == project_path,
            r.shell@ == Seq::<char>::empty(),
            r.auto_expose_ports@ == Seq::<AutoExposePort>::empty(),
            r.port_mappings@ == Seq::<(u16, u16)>::empty(),
            r.alias@ == Seq::<char>::empty(),
            r.not_expose_filters@ == Seq::<PodNotExposeFilter>::empty(),
            r.manual_expose_ports@ == Seq::<AutoExposePort>::empty(),
            r.terminal_override@ == Seq::<char>::empty(),
            r.working_dir@ == Seq::<char>::empty(),
            r.bind_address@ == Seq::<char>::empty(),
            r.remote_user@ == Seq::<char>::empty(),
    {
        PodStateConfig {
            name,
            project_path,
            shell: String::new(),
            auto_expose_ports: Vec::new(),
            port_mappings: Vec::new(),
            alias: String::new(),
            not_expose_filters: Vec::new(),
            manual_expose_ports: Vec::new(),
            terminal_override: String::new(),
            working_dir: String::new(),
            bind_address: String::new(),
            remote_user: String::new(),
        }
    }
}

fn clone_auto_ports(v: &Vec<AutoExposePort>) -> (r: Vec<AutoExposePort>)
    ensures
        r@ == v@,
{
    let mut out: Vec<AutoExposePort> = Vec::new();
    let mut i: usize = 0;
    while i < v.len()
        invariant
            i <= v@.len(),
            out@ =~= v@.subrange(0, i as int),
        decreases v@.len() - i,
    {
        out.push(v[i].clone());
        i = i + 1;
    }
    assert(out@ =~= v@);
    out
}

fn clone_pod_filters(v: &Vec<PodNotExposeFilter>) -> (r: Vec<PodNotExposeFilter>)
    ensures
        r@ == v@,
{
    let mut out: Vec<PodNotExposeFilter> = Vec::new();
    let mut i: usize = 0;
    while i < v.len()
        invariant
            i <= v@.len(),
            out@ =~= v@.subrange(0, i as int),
        decreases v@.len() - i,
    {
        out.push(v[i].clone());
        i = i + 1;
    }
    assert(out@ =~= v@);
    out
}

fn clone_mappings(v: &Vec<(u16, u16)>) -> (r: Vec<(u16, u16)>)
    ensures
        r@ == v@,
{
    let mut out: Vec<(u16, u16)> = Vec::new();
    let mut i: usize = 0;
    while i < v.len()
        invariant
            i <= v@.len(),
            out@ =~= v@.subrange(0, i as int),
        decreases v@.len() - i,
    {
        out.push(v[i]);
        i = i + 1;
    }
    assert(out@ =~= v@);
    out
}

impl Clone for PodStateConfig {
    fn clone(&self) -> (r: Self)
        ensures
            r.same_as(*self),
    {
        PodStateConfig {
            name: self.name.clone(),
            project_path: self.project_path.clone(),
            shell: self.shell.clone(),
            auto_expose_ports: clone_auto_ports(&self.auto_expose_ports),
            port_mappings: clone_mappings(&self.port_mappings),
            alias: self.alias.clone(),
            not_expose_filters: clone_pod_filters(&self.not_expose_filters),
            manual_expose_ports: clone_auto_ports(&self.manual_expose_ports),
            terminal_override: self.terminal_override.clone(),
            working_dir: self.working_dir.clone(),
            bind_address: self.bind_address.clone(),
            remote_user: self.remote_user.clone(),
        }
    }
}

/// The first configuration whose project path matches, if any.
pub fn find_by_project_path(configs: Vec<PodStateConfig>, path: &str) -> (r: Option<
    PodStateConfig,
>)
    ensures
        match r {
            Some(c) => exists|i: int|
                0 <= i < configs@.len() && (#[trigger] configs@[i]).project_path@ == path@
                    && c.same_as(configs@[i]) && (forall|j: int|
                    0 <= j < i ==> (#[trigger] configs@[j]).project_path@ != path@),
            None => forall|j: int|
                0 <= j < configs@.len() ==> (#[trigger] configs@[j]).project_path@ != path@,
        },
{
    let mut i: usize = 0;
    let n = configs.len();
    while i < n
        invariant
            i <= n,
            n == configs@.len(),
            forall|j: int| 0 <= j < i ==> (#[trigger] configs@[j]).project_path@ != path@,
        decreases n - i,
    {
        if crate::strutil::str_eq(configs[i].project_path.as_str(), path) {
            let c = configs[i].clone();
            return Some(c);
        }
        i = i + 1;
    }
    None
}

/// Applies a saved configuration to a freshly listed pod: the alias and
/// shell when the file names them, and the remote user and workspace
/// folder only where the pod does not already know them.
pub fn merge_saved_config(pod: Pod, cfg: &PodStateConfig) -> (r: Pod)
    ensures
        r.alias == (if cfg.alias@.len() > 0 {
            Some(cfg.alias)
        } else {
            pod.alias
        }),
        r.default_shell == (if cfg.shell@.len() > 0 {
            cfg.shell
        } else {
            pod.default_shell
        }),
        r.remote_user == (if pod.remote_user is None && cfg.remote_user@.len() > 0 {
            Some(cfg.remote_user)
        } else {
            pod.remote_user
        }),
        r.remote_workspace_folder == (if pod.remote_workspace_folder is None
            && cfg.working_dir@.len() > 0 {
            Some(cfg.working_dir)
        } else {
            pod.remote_workspace_folder
        }),
        r.id == pod.id,
        r.name == pod.name,
        r.project_path == pod.project_path,
        r.image == pod.image,
        r.status == pod.status,
        r.uptime_secs == pod.uptime_secs,
        r.cpu_percent_hundredths == pod.cpu_percent_hundredths,
        r.memory_used == pod.memory_used,
        r.memory_limit == pod.memory_limit,
        r.exposed_ports@ == pod.exposed_ports@,
        r.detected_ports@ == pod.detected_ports@,
        r.processes@ == pod.processes@,
        r.error_message == pod.error_message,
        r.container_id == pod.container_id,
        r.started_at == pod.started_at,
        r.container_name == pod.container_name,
{
    let mut pod = pod;
    if !cfg.alias.as_str().is_empty() {
        pod.alias = Some(cfg.alias.clone());
    }
    if !cfg.shell.as_str().is_empty() {
        pod.default_shell = cfg.shell.clone();
    }
    if pod.remote_user.is_none() && !cfg.remote_user.as_str().is_empty() {
        pod.remote_user = Some(cfg.remote_user.clone());
    }
    if pod.remote_workspace_folder.is_none() && !cfg.working_dir.as_str().is_empty() {
        pod.remote_workspace_folder = Some(cfg.working_dir.clone());
    }
    pod
}

/// Writes freshly learned metadata into a pod's saved configuration,
/// never overwriting an explicit value: the remote user and working
/// directory when previously empty, and the shell when previously empty
/// and the detected one is real. The flag says whether anything changed.
pub fn absorb_start_metadata(
    cfg: PodStateConfig,
    remote_user: &Option<String>,
    workdir: &Option<String>,
    shell: &str,
) -> (r: (PodStateConfig, bool))
    ensures
        r.0.remote_user == (match remote_user {
            Some(u) => if cfg.remote_user@.len() == 0 {
                *u
            } else {
                cfg.remote_user
            },
            None => cfg.remote_user,
        }),
        r.0.working_dir == (match workdir {
            Some(w) => if cfg.working_dir@.len() == 0 {
                *w
            } else {
                cfg.working_dir
            },
            None => cfg.working_dir,
        }),
        r.0.shell@ == (if cfg.shell@.len() == 0 && real_shell(shell@) {
            shell@
        } else {
            cfg.shell@
        }),
        r.1 == ((cfg.remote_user@.len() == 0 && remote_user is Some) || (cfg.working_dir@.len()
            == 0 && workdir is Some) || (cfg.shell@.len() == 0 && real_shell(shell@))),
        r.0.name == cfg.name,
        r.0.project_path == cfg.project_path,
        r.0.auto_expose_ports@ == cfg.auto_expose_ports@,
        r.0.port_mappings@ == cfg.port_mappings@,
        r.0.alias == cfg.alias,
        r.0.not_expose_filters@ == cfg.not_expose_filters@,
        r.0.manual_expose_ports@ == cfg.manual_expose_ports@,
        r.0.terminal_override == cfg.terminal_override,
        r.0.bind_address == cfg.bind_address,
{
    let mut cfg = cfg;
    let mut changed = false;
    if cfg.remote_user.as_str().is_empty() {
        if let Some(u) = remote_user {
            cfg.remote_user = u.clone();
            changed = true;
        }
    }
    if cfg.working_dir.as_str().is_empty() {
        if let Some(w) = workdir {
            cfg.working_dir = w.clone();
            changed = true;
        }
    }
    if cfg.shell.as_str().is_empty() && crate::shell::is_real_shell(shell) {
        cfg.shell = shell.to_owned();
        changed = true;
    }
    (cfg, changed)
}

} // verus!
