//! The data model: pods, their ports, processes, log entries, and the
//! notification payloads pushed to the display layer.
//!
//! CPU shares are held as integer hundredths of a percent
//! (`cpu_percent_hundredths`), so 1250 means 12.50 %.

use vstd::prelude::*;

verus! {

#[derive(Clone, Copy, Debug, PartialEq, Eq, Structural)]
pub enum PodStatus {
    Running,
    Stopped,
    Starting,
    Stopping,
    Error,
}

#[derive(Debug, PartialEq)]
pub enum PortStatus {
    Active,
    HostPortBusy,
    Error(String),
}

impl Clone for PortStatus {
    fn clone(&self) -> (r: Self)
        ensures
            r == *self,
    {
        match self {
            PortStatus::Active => PortStatus::Active,
            PortStatus::HostPortBusy => PortStatus::HostPortBusy,
            PortStatus::Error(s) => PortStatus::Error(s.clone()),
        }
    }
}

#[derive(Clone, Copy, Debug, PartialEq, Eq, Structural)]
pub enum DetectionMethod {
    WellKnown,
    ProcessName,
    Nmap,
    BannerGrab,
    Unknown,
}

#[derive(Clone, Copy, Debug, PartialEq, Eq, Structural)]
pub enum Confidence {
    High,
    Low,
}

#[derive(Debug, PartialEq)]
pub struct ExposedPort {
    pub container_port: u16,
    pub host_port: u16,
    pub protocol: String,
    pub status: PortStatus,
    pub auto_expose: bool,
}

impl Clone for ExposedPort {
    fn clone(&self) -> (r: Self)
        ensures
            r == *self,
    {
        ExposedPort {
            container_port: self.container_port,
            host_port: self.host_port,
            protocol: self.protocol.clone(),
            status: self.status.clone(),
            auto_expose: self.auto_expose,
        }
    }
}

#[derive(Debug, PartialEq)]
pub struct DetectedPort {
    pub container_port: u16,
    pub protocol: String,
    pub process_name: String,
    pub detection_method: DetectionMethod,
    pub confidence: Confidence,
}

impl Clone for DetectedPort {
    fn clone(&self) -> (r: Self)
        ensures
            r == *self,
    {
        DetectedPort {
            container_port: self.container_port,
            protocol: self.protocol.clone(),
            process_name: self.process_name.clone(),
            detection_method: self.detection_method,
            confidence: self.confidence,
        }
    }
}

#[derive(Debug, PartialEq)]
pub struct Process {
    pub pid: u32,
    pub name: String,
    pub cpu_percent_hundredths: u64,
    pub memory_bytes: u64,
}

impl Clone for Process {
    fn clone(&self) -> (r: Self)
        ensures
            r == *self,
    {
        Process {
            pid: self.pid,
            name: self.name.clone(),
            cpu_percent_hundredths: self.cpu_percent_hundredths,
            memory_bytes: self.memory_bytes,
        }
    }
}

#[derive(Clone, Copy, Debug, PartialEq, Eq, Structural)]
pub enum LogSource {
    Build,
    Container,
}

#[derive(Clone, Copy, Debug, PartialEq, Eq, Structural)]
pub enum LogLevel {
    Stdout,
    Stderr,
}

#[derive(Debug, PartialEq)]
pub struct LogEntry {
    pub timestamp: i64,
    pub message: String,
    pub source: LogSource,
    pub level: LogLevel,
}

impl Clone for LogEntry {
    fn clone(&self) -> (r: Self)
        ensures
            r == *self,
    {
        LogEntry {
            timestamp: self.timestamp,
            message: self.message.clone(),
            source: self.source,
            level: self.level,
        }
    }
}

/// Clone of an optional string, for the hand-written `Clone` impls.
pub fn clone_opt_string(o: &Option<String>) -> (r: Option<String>)
    ensures
        r == *o,
{
    match o {
        Some(s) => Some(s.clone()),
        None => None,
    }
}

/// Element-wise copy of a log-entry vector.
pub fn clone_log_entries(v: &Vec<LogEntry>) -> (r: Vec<LogEntry>)
    ensures
        r@ == v@,
{
    let mut out: Vec<LogEntry> = Vec::new();
    let mut i: usize = 0;
    while i < v.len()
        invariant
            i <= v@.len(),
            out@ =~= v@.subrange(0, i as int),
        decreases v@.len() - i,
    {
        out.push(v[i].clone());
        i = i + 1;
    }
    assert(out@ =~= v@);
    out
}

/// Element-wise copy of an exposed-port vector.
pub fn clone_exposed_ports(v: &Vec<ExposedPort>) -> (r: Vec<ExposedPort>)
    ensures
        r@ == v@,
{
    let mut out: Vec<ExposedPort> = Vec::new();
    let mut i: usize = 0;
    while i < v.len()
        invariant
            i <= v@.len(),
            out@ =~= v@.subrange(0, i as int),
        decreases v@.len() - i,
    {
        out.push(v[i].clone());
        i = i + 1;
    }
    assert(out@ =~= v@);
    out
}

/// Element-wise copy of a detected-port vector.
pub fn clone_detected_ports(v: &Vec<DetectedPort>) -> (r: Vec<DetectedPort>)
    ensures
        r@ == v@,
{
    let mut out: Vec<DetectedPort> = Vec::new();
    let mut i: usize = 0;
    while i < v.len()
        invariant
            i <= v@.len(),
            out@ =~= v@.subrange(0, i as int),
        decreases v@.len() - i,
    {
        out.push(v[i].clone());
        i = i + 1;
    }
    assert(out@ =~= v@);
    out
}

/// Element-wise copy of a process vector.
pub fn clone_processes(v: &Vec<Process>) -> (r: Vec<Process>)
    ensures
        r@ == v@,
{
    let mut out: Vec<Process> = Vec::new();
    let mut i: usize = 0;
    while i < v.len()
        invariant
            i <= v@.len(),
            out@ =~= v@.subrange(0, i as int),
        decreases v@.len() - i,
    {
        out.push(v[i].clone());
        i = i + 1;
    }
    assert(out@ =~= v@);
    out
}

#[derive(Debug, PartialEq)]
pub struct Pod {
    pub id: String,
    pub name: String,
    pub project_path: String,
    pub image: String,
    pub status: PodStatus,
    pub uptime_secs: Option<u64>,
    pub cpu_percent_hundredths: u64,
    pub memory_used: u64,
    pub memory_limit: u64,
    pub default_shell: String,
    pub exposed_ports: Vec<ExposedPort>,
    pub detected_ports: Vec<DetectedPort>,
    pub processes: Vec<Process>,
    pub error_message: Option<String>,
    pub container_id: Option<String>,
    pub started_at: Option<i64>,
    pub alias: Option<String>,
    pub remote_user: Option<String>,
    pub remote_workspace_folder: Option<String>,
    pub container_name: Option<String>,
}

impl Pod {
    /// `other` carries exactly the same data, comparing the vector
    /// fields by their contents.
    pub open spec fn same_as(self, other: Pod) -> bool {
        &&& self.id == other.id
        &&& self.name == other.name
        &&& self.project_path == other.project_path
        &&& self.image == other.image
        &&& self.status == other.status
        &&& self.uptime_secs == other.uptime_secs
        &&& self.cpu_percent_hundredths == other.cpu_percent_hundredths
        &&& self.memory_used == other.memory_used
        &&& self.memory_limit == other.memory_limit
        &&& self.default_shell == other.default_shell
        &&& self.exposed_ports@ == other.exposed_ports@
        &&& self.detected_ports@ == other.detected_ports@
        &&& self.processes@ == other.processes@
        &&& self.error_message == other.error_message
        &&& self.container_id == other.container_id
        &&& self.started_at == other.started_at
        &&& self.alias == other.alias
        &&& self.remote_user == other.remote_user
        &&& self.remote_workspace_folder == other.remote_workspace_folder
        &&& self.container_name == other.container_name
    }
}

impl Clone for Pod {
    fn clone(&self) -> (r: Self)
        ensures
            r.same_as(*self),
    {
        Pod {
            id: self.id.clone(),
            name: self.name.clone(),
            project_path: self.project_path.clone(),
            image: self.image.clone(),
            status: self.status,
            uptime_secs: self.uptime_secs,
            cpu_percent_hundredths: self.cpu_percent_hundredths,
            memory_used: self.memory_used,
            memory_limit: self.memory_limit,
            default_shell: self.default_shell.clone(),
            exposed_ports: clone_exposed_ports(&self.exposed_ports),
            detected_ports: clone_detected_ports(&self.detected_ports),
            processes: clone_processes(&self.processes),
            error_message: clone_opt_string(&self.error_message),
            container_id: clone_opt_string(&self.container_id),
            started_at: self.started_at,
            alias: clone_opt_string(&self.alias),
            remote_user: clone_opt_string(&self.remote_user),
            remote_workspace_folder: clone_opt_string(&self.remote_workspace_folder),
            container_name: clone_opt_string(&self.container_name),
        }
    }
}

impl Pod {
    /// A freshly registered pod: stopped, empty, with no container yet.
    pub fn new_registered(id: String, name: String, project_path: String) -> (r: Pod)
        ensures
            r.id == id,
            r.name == name,
            r.project_path == project_path,
            r.status == PodStatus::Stopped,
            r.image@ == Seq::<char>::empty(),
            r.uptime_secs is None,
            r.cpu_percent_hundredths == 0,
            r.memory_used == 0,
            r.memory_limit == 0,
            r.default_shell@ == Seq::<char>::empty(),
            r.exposed_ports@ == Seq::<ExposedPort>::empty(),
            r.detected_ports@ == Seq::<DetectedPort>::empty(),
            r.processes@ == Seq::<Process>::empty(),
            r.error_message is None,
            r.container_id is None,
            r.started_at is None,
            r.alias is None,
            r.remote_user is None,
            r.remote_workspace_folder is None,
            r.container_name is None,
    {
        Pod {
            id,
            name,
            project_path,
            image: String::new(),
            status: PodStatus::Stopped,
            uptime_secs: None,
            cpu_percent_hundredths: 0,
            memory_used: 0,
            memory_limit: 0,
            default_shell: String::new(),
            exposed_ports: Vec::new(),
            detected_ports: Vec::new(),
            processes: Vec::new(),
            error_message: None,
            container_id: None,
            started_at: None,
            alias: None,
            remote_user: None,
            remote_workspace_folder: None,
            container_name: None,
        }
    }

    /// Runtime residue is cleared: no ports, processes, or resource use.
    pub open spec fn runtime_fields_cleared(self) -> bool {
        &&& self.exposed_ports@ == Seq::<ExposedPort>::empty()
        &&& self.detected_ports@ == Seq::<DetectedPort>::empty()
        &&& self.processes@ == Seq::<Process>::empty()
        &&& self.cpu_percent_hundredths == 0
        &&& self.memory_used == 0
        &&& self.started_at is None
    }
}

#[derive(Debug, PartialEq)]
pub struct LogBatchEvent {
    pub pod_id: String,
    pub entries: Vec<LogEntry>,
}

#[derive(Debug, PartialEq)]
pub struct PodStatsUpdate {
    pub pod_id: String,
    pub cpu_percent_hundredths: u64,
    pub memory_used: u64,
    pub memory_limit: u64,
}

#[derive(Debug, PartialEq)]
pub struct PortDetectedEvent {
    pub pod_id: String,
    pub port: DetectedPort,
}

#[derive(Debug, PartialEq)]
pub struct ProcessListUpdate {
    pub pod_id: String,
    pub processes: Vec<Process>,
}

#[derive(Debug, PartialEq)]
pub struct PodStatusChanged {
    pub pod_id: String,
    pub status: PodStatus,
    pub error_message: Option<String>,
}

#[derive(Debug, PartialEq)]
pub struct DependencyCheck {
    pub name: String,
    pub satisfied: bool,
    pub details: String,
    pub fix_hint: Option<String>,
}

/// One notification pushed to the display layer. Lifecycle operations
/// return these; the caller forwards them to its sink in order.
#[derive(Debug, PartialEq)]
pub enum Notification {
    StatusChanged(PodStatusChanged),
    StatsUpdate(PodStatsUpdate),
    LogBatch(LogBatchEvent),
    ProcessList(ProcessListUpdate),
    PortDetected(PortDetectedEvent),
}

} // verus!
