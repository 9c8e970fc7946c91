//! The requests that the service takes and the answers it gives.
use vstd::prelude::*;

verus! {

/// Limits on one run. A limit of 0 stands for the configured one.
#[derive(Debug, Clone, Copy, PartialEq, Eq, Structural)]
pub struct ResourceLimits {
    pub cpu_millis: u32,
    pub memory_bytes: u64,
    pub pids: u32,
    pub tmpfs_bytes: u64,
}

/// Asks for a command to be run in a workspace.
#[derive(Debug, Clone, PartialEq, Eq)]
pub struct ExecRequest {
    pub workspace_id: String,
    pub tenant_id: String,
    pub command: String,
    /// Seconds; 0 stands for the configured time.
    pub timeout_seconds: u32,
    /// Environment variables, each name once.
    pub env: Vec<(String, String)>,
    /// Empty stands for the configured image.
    pub image: String,
    pub limits: Option<ResourceLimits>,
}

/// What came of a command.
#[derive(Debug, Clone, PartialEq, Eq)]
pub struct ExecResponse {
    pub exit_code: i32,
    pub stdout: Vec<u8>,
    pub stderr: Vec<u8>,
    pub duration_ms: u64,
    pub timed_out: bool,
}

/// One event of a command that is watched while it runs.
#[derive(Debug, Clone, PartialEq, Eq)]
pub enum ExecEvent {
    Started { container_id: String },
    Stdout { data: Vec<u8> },
    Stderr { data: Vec<u8> },
    Finished { exit_code: i32, duration_ms: u64, timed_out: bool },
}

/// An `ExecEvent`, over mathematical text and bytes.
pub enum ExecEventView {
    Started { container_id: Seq<char> },
    Stdout { data: Seq<u8> },
    Stderr { data: Seq<u8> },
    Finished { exit_code: i32, duration_ms: u64, timed_out: bool },
}

impl View for ExecEvent {
    type V = ExecEventView;

    open spec fn view(&self) -> ExecEventView {
        match *self {
            ExecEvent::Started { container_id } => ExecEventView::Started {
                container_id: container_id@,
            },
            ExecEvent::Stdout { data } => ExecEventView::Stdout { data: data@ },
            ExecEvent::Stderr { data } => ExecEventView::Stderr { data: data@ },
            ExecEvent::Finished { exit_code, duration_ms, timed_out } => ExecEventView::Finished {
                exit_code,
                duration_ms,
                timed_out,
            },
        }
    }
}

/// What came of a download into a workspace.
#[derive(Debug, Clone, PartialEq, Eq)]
pub struct FetchResponse {
    pub bytes_written: u64,
    pub content_type: String,
    pub http_status: i32,
}

/// What came of an upload to the object store.
#[derive(Debug, Clone, PartialEq, Eq)]
pub struct UploadResponse {
    pub object_key: String,
    pub size_bytes: u64,
    pub content_type: String,
    pub sha256_hex: String,
    pub basename: String,
}

/// How the contents of a workspace are packed for transfer.
#[derive(Debug, Clone, Copy, PartialEq, Eq, Structural)]
pub enum WorkspaceObjectEncoding {
    /// Not said.
    Unspecified,
    /// One file, as it is.
    Raw,
    /// A directory, as a gzipped tar archive.
    TarGz,
}

/// Says what is about to be sent into a workspace.
#[derive(Debug, Clone, PartialEq, Eq)]
pub struct ImportHeader {
    pub workspace_id: String,
    pub target_path: String,
    pub encoding: WorkspaceObjectEncoding,
    pub content_type: String,
}

/// One message of a transfer into a workspace.
#[derive(Debug, Clone, PartialEq, Eq)]
pub enum ImportMessage {
    Header(ImportHeader),
    Chunk(Vec<u8>),
    /// A message that holds nothing.
    Empty,
}

/// What came of a transfer into a workspace.
#[derive(Debug, Clone, PartialEq, Eq)]
pub struct ImportWorkspaceObjectResponse {
    pub bytes_written: u64,
    pub content_type: String,
}

/// Asks for something in a workspace to be sent.
#[derive(Debug, Clone, PartialEq, Eq)]
pub struct ExportWorkspaceObjectRequest {
    pub workspace_id: String,
    pub source_path: String,
    pub encoding: WorkspaceObjectEncoding,
}

/// Says what is about to be sent out of a workspace.
#[derive(Debug, Clone, PartialEq, Eq)]
pub struct ExportHeader {
    pub source_path: String,
    pub basename: String,
    pub encoding: WorkspaceObjectEncoding,
    pub content_type: String,
    pub size_bytes: u64,
    pub sha256_hex: String,
}

/// One message of a transfer out of a workspace.
#[derive(Debug, Clone, PartialEq, Eq)]
pub enum ExportMessage {
    Header(ExportHeader),
    Chunk(Vec<u8>),
}

/// One file or directory in a listing.
#[derive(Debug, Clone, PartialEq, Eq)]
pub struct FileInfo {
    /// Seen from the home directory of the workspace.
    pub path: String,
    pub size_bytes: u64,
    /// Permission bits.
    pub mode: u32,
    pub is_dir: bool,
    /// Seconds since the Unix epoch, 0 where that is not known.
    pub modified_unix: i64,
}

/// How the service fares.
#[derive(Debug, Clone, PartialEq, Eq)]
pub struct HealthResponse {
    pub version: String,
    pub docker_version: String,
    pub docker_reachable: bool,
    pub exec_permits_available: u32,
}

/// What a language model is told of a tool.
#[derive(Debug, Clone, PartialEq, Eq)]
pub struct ToolDescriptor {
    pub name: String,
    pub description: String,
    /// JSON Schema of the arguments.
    pub parameters_schema: String,
}

/// Asks for a tool to be called.
#[derive(Debug, Clone, PartialEq, Eq)]
pub struct CallToolRequest {
    pub workspace_id: String,
    pub tenant_id: String,
    pub tool_name: String,
    /// JSON object with the arguments of the tool.
    pub arguments_json: String,
    /// Seconds; 0 leaves the time to the arguments.
    pub timeout_seconds: u32,
}

/// What came of a tool call.
#[derive(Debug, Clone, PartialEq, Eq)]
pub struct CallToolResponse {
    pub result_json: String,
    pub is_error: bool,
    pub error_message: String,
}

} // verus!
