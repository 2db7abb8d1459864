//! The crate's error type. I/O and runtime-API failures arrive here as
//! plain text, carried by the caller from the outside crates' errors.

use vstd::prelude::*;
use crate::strutil::{chars_to_string, dec_chars, dec_str_of};

verus! {

#[derive(Debug, PartialEq)]
pub enum NookError {
    DockerConnection(String),
    ContainerNotFound(String),
    DevcontainerCliNotFound,
    DevcontainerUpFailed(String),
    HostPortBusy(u16),
    ConfigError(String),
    TerminalNotFound,
    PodBusy(String),
    PodNotFound(String),
    AlreadyRunning,
    Timeout(String),
    Cancelled(String),
    Io(String),
    Docker(String),
    Serialization(String),
    Other(String),
}

pub type NookResult<T> = Result<T, NookError>;

/// The text of each error, as shown to a user.
pub open spec fn message_spec(e: NookError) -> Seq<char> {
    match e {
        NookError::DockerConnection(s) => "Docker connection failed: "@ + s@,
        NookError::ContainerNotFound(s) => "Container not found: "@ + s@,
        NookError::DevcontainerCliNotFound => "devcontainer CLI not found"@,
        NookError::DevcontainerUpFailed(s) => "devcontainer up failed: "@ + s@,
        NookError::HostPortBusy(p) => "Host port "@ + dec_str_of(p as nat)
            + " is already in use"@,
        NookError::ConfigError(s) => "Configuration error: "@ + s@,
        NookError::TerminalNotFound => "Terminal not found"@,
        NookError::PodBusy(_) => "Pod is busy with another operation"@,
        NookError::PodNotFound(s) => "Pod not found: "@ + s@,
        NookError::AlreadyRunning => "Pod is already running or starting"@,
        NookError::Timeout(s) => "Operation timed out: "@ + s@,
        NookError::Cancelled(s) => "Operation cancelled: "@ + s@,
        NookError::Io(s) => "IO error: "@ + s@,
        NookError::Docker(s) => "Docker API error: "@ + s@,
        NookError::Serialization(s) => "Serialization error: "@ + s@,
        NookError::Other(s) => s@,
    }
}

impl NookError {
    /// The error's text.
    pub fn message(&self) -> (r: String)
        ensures
            r@ == message_spec(*self),
    {
        match self {
            NookError::DockerConnection(s) => "Docker connection failed: ".to_owned().concat(
                s.as_str(),
            ),
            NookError::ContainerNotFound(s) => "Container not found: ".to_owned().concat(
                s.as_str(),
            ),
            NookError::DevcontainerCliNotFound => "devcontainer CLI not found".to_owned(),
            NookError::DevcontainerUpFailed(s) => "devcontainer up failed: ".to_owned().concat(
                s.as_str(),
            ),
            NookError::HostPortBusy(p) => {
                let digits = chars_to_string(&dec_chars(*p as u64));
                "Host port ".to_owned().concat(digits.as_str()).concat(" is already in use")
            },
            NookError::ConfigError(s) => "Configuration error: ".to_owned().concat(s.as_str()),
            NookError::TerminalNotFound => "Terminal not found".to_owned(),
            NookError::PodBusy(_) => "Pod is busy with another operation".to_owned(),
            NookError::PodNotFound(s) => "Pod not found: ".to_owned().concat(s.as_str()),
            NookError::AlreadyRunning => "Pod is already running or starting".to_owned(),
            NookError::Timeout(s) => "Operation timed out: ".to_owned().concat(s.as_str()),
            NookError::Cancelled(s) => "Operation cancelled: ".to_owned().concat(s.as_str()),
            NookError::Io(s) => "IO error: ".to_owned().concat(s.as_str()),
            NookError::Docker(s) => "Docker API error: ".to_owned().concat(s.as_str()),
            NookError::Serialization(s) => "Serialization error: ".to_owned().concat(s.as_str()),
            NookError::Other(s) => s.clone(),
        }
    }
}

impl Clone for NookError {
    fn clone(&self) -> (r: Self)
        ensures
            r == *self,
    {
        match self {
            NookError::DockerConnection(s) => NookError::DockerConnection(s.clone()),
            NookError::ContainerNotFound(s) => NookError::ContainerNotFound(s.clone()),
            NookError::DevcontainerCliNotFound => NookError::DevcontainerCliNotFound,
            NookError::DevcontainerUpFailed(s) => NookError::DevcontainerUpFailed(s.clone()),
            NookError::HostPortBusy(p) => NookError::HostPortBusy(*p),
            NookError::ConfigError(s) => NookError::ConfigError(s.clone()),
            NookError::TerminalNotFound => NookError::TerminalNotFound,
            NookError::PodBusy(s) => NookError::PodBusy(s.clone()),
            NookError::PodNotFound(s) => NookError::PodNotFound(s.clone()),
            NookError::AlreadyRunning => NookError::AlreadyRunning,
            NookError::Timeout(s) => NookError::Timeout(s.clone()),
            NookError::Cancelled(s) => NookError::Cancelled(s.clone()),
            NookError::Io(s) => NookError::Io(s.clone()),
            NookError::Docker(s) => NookError::Docker(s.clone()),
            NookError::Serialization(s) => NookError::Serialization(s.clone()),
            NookError::Other(s) => NookError::Other(s.clone()),
        }
    }
}

} // verus!
