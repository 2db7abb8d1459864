//! Application settings. Reading and writing them to disk is the
//! caller's job; the defaults and the data live here.

use vstd::prelude::*;
use crate::heuristics::PortOverrides;
use crate::types::clone_opt_string;

verus! {

/// What to do when a new listening port is detected.
#[derive(Clone, Copy, Debug, PartialEq, Eq, Structural)]
pub enum PortAction {
    Prompt,
    AutoExpose,
    Ignore,
}

impl Default for PortAction {
    fn default() -> (r: Self)
        ensures
            r == PortAction::Prompt,
    {
        PortAction::Prompt
    }
}

/// A rule excluding ports from automatic exposure, by protocol or by
/// port number.
#[derive(Debug, PartialEq)]
pub struct NotExposeFilter {
    pub protocol: Option<String>,
    pub port: Option<u16>,
}

impl Clone for NotExposeFilter {
    fn clone(&self) -> (r: Self)
        ensures
            r == *self,
    {
        NotExposeFilter { protocol: clone_opt_string(&self.protocol), port: self.port }
    }
}

/// Element-wise copy of a string vector.
pub fn clone_strings(v: &Vec<String>) -> (r: Vec<String>)
    ensures
        r@ == v@,
{
    let mut out: Vec<String> = Vec::new();
    let mut i: usize = 0;
    while i < v.len()
        invariant
            i <= v@.len(),
            out@ =~= v@.subrange(0, i as int),
        decreases v@.len() - i,
    {
        out.push(v[i].clone());
        i = i + 1;
    }
    assert(out@ =~= v@);
    out
}

fn clone_filters(v: &Vec<NotExposeFilter>) -> (r: Vec<NotExposeFilter>)
    ensures
        r@ == v@,
{
    let mut out: Vec<NotExposeFilter> = Vec::new();
    let mut i: usize = 0;
    while i < v.len()
        invariant
            i <= v@.len(),
            out@ =~= v@.subrange(0, i as int),
        decreases v@.len() - i,
    {
        out.push(v[i].clone());
        i = i + 1;
    }
    assert(out@ =~= v@);
    out
}

/// The protocols worth exposing automatically, by default.
pub fn default_expose_protocols() -> (r: Vec<String>)
    ensures
        r@.len() == 6,
        r@[0]@ == "http"@,
        r@[1]@ == "https"@,
        r@[2]@ == "postgres"@,
        r@[3]@ == "mysql"@,
        r@[4]@ == "redis"@,
        r@[5]@ == "mongodb"@,
{
    let mut v: Vec<String> = Vec::new();
    v.push("http".to_owned());
    v.push("https".to_owned());
    v.push("postgres".to_owned());
    v.push("mysql".to_owned());
    v.push("redis".to_owned());
    v.push("mongodb".to_owned());
    v
}

/// By default, the DNS protocol and port 22 are never auto-exposed.
pub fn default_not_expose_filters() -> (r: Vec<NotExposeFilter>)
    ensures
        r@.len() == 2,
        r@[0].protocol matches Some(p) && p@ == "dns"@,
        r@[0].port is None,
        r@[1].protocol is None,
        r@[1].port == Some(22u16),
{
    let mut v: Vec<NotExposeFilter> = Vec::new();
    v.push(NotExposeFilter { protocol: Some("dns".to_owned()), port: None });
    v.push(NotExposeFilter { protocol: None, port: Some(22) });
    v
}

pub fn default_stats_interval() -> (r: u64)
    ensures
        r == 2000,
{
    2000
}

pub fn default_ports_scan_interval() -> (r: u64)
    ensures
        r == 3000,
{
    3000
}

pub fn default_process_scan_interval() -> (r: u64)
    ensures
        r == 5000,
{
    5000
}

pub fn default_log_level() -> (r: String)
    ensures
        r@ == "info"@,
{
    "info".to_owned()
}

/// Application settings.
#[derive(Debug, PartialEq)]
pub struct Settings {
    pub expose_protocols: Vec<String>,
    pub not_expose_filters: Vec<NotExposeFilter>,
    pub port_protocols: PortOverrides,
    pub terminal: String,
    pub stats_interval: u64,
    pub ports_scan_interval: u64,
    pub process_scan_interval: u64,
    pub docker_socket_path: String,
    pub onboarding_complete: bool,
    pub log_level: String,
    pub port_action: PortAction,
}

impl Settings {
    /// `other` carries exactly the same data.
    pub open spec fn same_as(self, other: Settings) -> bool {
        &&& self.expose_protocols@ == other.expose_protocols@
        &&& self.not_expose_filters@ == other.not_expose_filters@
        &&& self.port_protocols@ == other.port_protocols@
        &&& self.terminal == other.terminal
        &&& self.stats_interval == other.stats_interval
        &&& self.ports_scan_interval == other.ports_scan_interval
        &&& self.process_scan_interval == other.process_scan_interval
        &&& self.docker_socket_path == other.docker_socket_path
        &&& self.onboarding_complete == other.onboarding_complete
        &&& self.log_level == other.log_level
        &&& self.port_action == other.port_action
    }

    pub open spec fn wf(self) -> bool {
        self.port_protocols.wf()
    }
}

impl Clone for Settings {
    fn clone(&self) -> (r: Self)
        ensures
            r.same_as(*self),
            self.wf() ==> r.wf(),
    {
        Settings {
            expose_protocols: clone_strings(&self.expose_protocols),
            not_expose_filters: clone_filters(&self.not_expose_filters),
            port_protocols: self.port_protocols.clone(),
            terminal: self.terminal.clone(),
            stats_interval: self.stats_interval,
            ports_scan_interval: self.ports_scan_interval,
            process_scan_interval: self.process_scan_interval,
            docker_socket_path: self.docker_socket_path.clone(),
            onboarding_complete: self.onboarding_complete,
            log_level: self.log_level.clone(),
            port_action: self.port_action,
        }
    }
}

impl Default for Settings {
    fn default() -> (r: Self)
        ensures
            r.expose_protocols@.len() == 6,
            r.expose_protocols@[0]@ == "http"@,
            r.not_expose_filters@.len() == 2,
            r.port_protocols@ == Seq::<(u16, String)>::empty(),
            r.terminal@ == Seq::<char>::empty(),
            r.stats_interval == 2000,
            r.ports_scan_interval == 3000,
            r.process_scan_interval == 5000,
            r.docker_socket_path@ == Seq::<char>::empty(),
            !r.onboarding_complete,
            r.log_level@ == "info"@,
            r.port_action == PortAction::Prompt,
            r.wf(),
    {
        Settings {
            expose_protocols: default_expose_protocols(),
            not_expose_filters: default_not_expose_filters(),
            port_protocols: PortOverrides::new(),
            terminal: String::new(),
            stats_interval: default_stats_interval(),
            ports_scan_interval: default_ports_scan_interval(),
            process_scan_interval: default_process_scan_interval(),
            docker_socket_path: String::new(),
            onboarding_complete: false,
            log_level: default_log_level(),
            port_action: PortAction::Prompt,
        }
    }
}

} // verus!
