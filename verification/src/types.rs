//! Data types of the container lifecycle engine.

use vstd::prelude::*;
use vstd::string::StringExecFns;

verus! {

/// A registry entry: the last-known lifecycle record for one container.
#[derive(Debug, Clone)]
pub struct ContainerState {
    pub id: String,
    pub node_id: String,
    pub bundle_path: String,
    pub status: String,
    pub pid: Option<i32>,
}

/// Ghost image of a `ContainerState`.
pub ghost struct ContainerStateView {
    pub id: Seq<char>,
    pub node_id: Seq<char>,
    pub bundle_path: Seq<char>,
    pub status: Seq<char>,
    pub pid: Option<i32>,
}

impl View for ContainerState {
    type V = ContainerStateView;

    open spec fn view(&self) -> ContainerStateView {
        ContainerStateView {
            id: self.id@,
            node_id: self.node_id@,
            bundle_path: self.bundle_path@,
            status: self.status@,
            pid: self.pid,
        }
    }
}

/// State reported by the external runtime's state query.
#[derive(Debug, Clone)]
pub struct YoukiState {
    pub oci_version: String,
    pub id: String,
    pub status: String,
    pub pid: Option<i32>,
    pub bundle: String,
    /// Annotations as key/value pairs; their order carries no meaning.
    pub annotations: Vec<(String, String)>,
    pub created: Option<String>,
}

/// Status record handed to callers of the lifecycle operations.
#[derive(Debug, Clone)]
pub struct ContainerStatus {
    pub id: String,
    pub state: String,
    pub exit_code: Option<i32>,
    pub error_message: Option<String>,
}

/// Options for creating a container.
#[derive(Debug, Clone)]
pub struct CreateContainerOptions {
    pub node_id: String,
}

/// Resource requests of a container, with CPU expressed in millicores.
#[derive(Debug, Clone, PartialEq, Eq)]
pub struct ResourceRequests {
    pub cpu_millicores: u64,
    pub memory_mb: u64,
    pub disk_mb: u64,
}

/// A container port published on the host.
#[derive(Debug, Clone)]
pub struct PortMapping {
    pub container_port: u16,
    pub host_port: Option<u16>,
    pub protocol: String,
}

/// Configuration of one container of a workload.
#[derive(Debug, Clone)]
pub struct ContainerConfig {
    pub name: String,
    pub image: String,
    pub command: Option<Vec<String>>,
    pub args: Option<Vec<String>>,
    pub env_vars: Vec<(String, String)>,
    pub ports: Vec<PortMapping>,
    pub resource_requests: ResourceRequests,
}

/// Configuration of the CLI-driven runtime.
#[derive(Debug, Clone)]
pub struct YoukiCliConfig {
    /// Path to the external runtime binary.
    pub youki_binary: String,
    /// Base directory for container bundles.
    pub bundle_root: String,
    /// Root directory for the external runtime's state.
    pub state_root: String,
    /// Hard ceiling for every external command, in seconds.
    pub command_timeout_secs: u64,
    /// Graceful-stop deadline before forceful termination, in seconds.
    pub stop_timeout_secs: u64,
}

impl Default for YoukiCliConfig {
    /// The stock configuration: the binary found on the path, the standard
    /// bundle and state roots, a 30 s command ceiling and a 10 s stop deadline.
    fn default() -> (c: Self)
        ensures
            c.youki_binary@ == "youki"@,
            c.bundle_root@ == "/var/lib/orchestrator/bundles"@,
            c.state_root@ == "/run/youki"@,
            c.command_timeout_secs == 30,
            c.stop_timeout_secs == 10,
    {
        YoukiCliConfig {
            youki_binary: "youki".to_owned(),
            bundle_root: "/var/lib/orchestrator/bundles".to_owned(),
            state_root: "/run/youki".to_owned(),
            command_timeout_secs: 30,
            stop_timeout_secs: 10,
        }
    }
}

/// Container resource statistics, recomputed fresh on every query.
#[derive(Debug, Clone)]
pub struct ContainerStats {
    pub container_id: String,
    pub cpu_usage_ns: u64,
    pub memory_usage_bytes: u64,
}

/// A single log entry of a container.
#[derive(Debug, Clone)]
pub struct LogEntry {
    /// Timestamp of the entry, in RFC3339 form.
    pub timestamp: String,
    /// Stream source: "stdout" or "stderr".
    pub stream: String,
    /// The log message.
    pub message: String,
}

/// Options for a log query.
#[derive(Debug, Clone)]
pub struct LogOptions {
    /// Return only the last N lines.
    pub tail: Option<usize>,
    /// Include timestamps in the rendered output.
    pub timestamps: bool,
    /// Only return entries at or after this RFC3339 timestamp.
    pub since: Option<String>,
    /// Only return entries at or before this RFC3339 timestamp.
    pub until: Option<String>,
    /// Stream new entries instead of returning a snapshot.
    pub follow: bool,
}

impl Default for LogOptions {
    fn default() -> (o: Self)
        ensures
            o.tail is None,
            !o.timestamps,
            o.since is None,
            o.until is None,
            !o.follow,
    {
        LogOptions { tail: None, timestamps: false, since: None, until: None, follow: false }
    }
}

/// Errors of the CLI-driven runtime.
///
/// Failures of outside origin (image resolution, the filesystem, JSON
/// decoding) carry the collaborator's message as text.
#[derive(Debug, Clone)]
pub enum YoukiCliError {
    BinaryNotFound(String),
    CommandFailed { command: String, message: String },
    ContainerNotFound(String),
    InvalidState(String),
    Image(String),
    Io(String),
    Json(String),
    Timeout(String),
    LogError(String),
}

/// Error surfaced to the orchestrator's control plane.
#[derive(Debug, Clone)]
pub enum OrchestrationError {
    RuntimeError(String),
}

impl YoukiCliError {
    /// Renders the error as text, mirroring its display form.
    pub fn message(&self) -> (r: String)
        ensures
            r@ == self.spec_message(),
    {
        match self {
            YoukiCliError::BinaryNotFound(s) => "Youki binary not found: ".to_owned().concat(
                s.as_str(),
            ),
            YoukiCliError::CommandFailed { command, message } => "Youki command failed: "
                .to_owned().concat(command.as_str()).concat(" - ").concat(message.as_str()),
            YoukiCliError::ContainerNotFound(s) => "Container not found: ".to_owned().concat(
                s.as_str(),
            ),
            YoukiCliError::InvalidState(s) => "Invalid state output: ".to_owned().concat(
                s.as_str(),
            ),
            YoukiCliError::Image(s) => "Image error: ".to_owned().concat(s.as_str()),
            YoukiCliError::Io(s) => "I/O error: ".to_owned().concat(s.as_str()),
            YoukiCliError::Json(s) => "JSON error: ".to_owned().concat(s.as_str()),
            YoukiCliError::Timeout(s) => "Timeout: ".to_owned().concat(s.as_str()),
            YoukiCliError::LogError(s) => "Log error: ".to_owned().concat(s.as_str()),
        }
    }

    /// The text form of the error.
    pub open spec fn spec_message(&self) -> Seq<char> {
        match self {
            YoukiCliError::BinaryNotFound(s) => "Youki binary not found: "@ + s@,
            YoukiCliError::CommandFailed { command, message } => "Youki command failed: "@
                + command@ + " - "@ + message@,
            YoukiCliError::ContainerNotFound(s) => "Container not found: "@ + s@,
            YoukiCliError::InvalidState(s) => "Invalid state output: "@ + s@,
            YoukiCliError::Image(s) => "Image error: "@ + s@,
            YoukiCliError::Io(s) => "I/O error: "@ + s@,
            YoukiCliError::Json(s) => "JSON error: "@ + s@,
            YoukiCliError::Timeout(s) => "Timeout: "@ + s@,
            YoukiCliError::LogError(s) => "Log error: "@ + s@,
        }
    }

    /// Every engine error surfaces to the control plane as a runtime error
    /// carrying its text.
    pub fn into_orchestration(self) -> (r: OrchestrationError)
        ensures
            r matches OrchestrationError::RuntimeError(m) && m@ == self.spec_message(),
    {
        OrchestrationError::RuntimeError(self.message())
    }
}

} // verus!
