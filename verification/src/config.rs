//! Configuration of the service: what can be set, what holds where it is not,
//! and which settings are refused.
use std::time::Duration;
use vstd::prelude::*;

use crate::clock::{duration_nanos, NANOS_PER_SECOND};
use crate::error::{other, outcome, Error, ErrorView, Result};
use crate::paths::{is_absolute, starts_at_root};
use crate::text::{join2, join3};

verus! {

/// All settings of the service.
#[derive(Debug, Clone)]
pub struct Config {
    pub server: ServerConfig,
    pub docker: DockerConfig,
    pub sandbox: SandboxConfig,
    pub workspace: WorkspaceConfig,
    pub tos: TosConfig,
    pub concurrency: ConcurrencyConfig,
    pub fetch: FetchConfig,
}

/// Where the service listens.
#[derive(Debug, Clone)]
pub struct ServerConfig {
    /// Address and port, as text.
    pub listen: String,
}

/// How the container daemon is reached.
#[derive(Debug, Clone)]
pub struct DockerConfig {
    /// Unix socket of the daemon.
    pub socket: String,
    /// Timeout for control-plane calls (image pull, container create, etc.).
    pub control_timeout_seconds: u64,
}

/// The control-plane timeout where none is set, in seconds.
pub fn default_docker_timeout() -> (seconds: u64)
    ensures
        seconds == 60,
{
    60
}

/// What a sandbox container gets.
#[derive(Debug, Clone)]
pub struct SandboxConfig {
    /// Image used when the request does not name one.
    pub default_image: String,
    /// Per-exec timeout, in seconds.
    pub default_timeout_seconds: u32,
    /// CPU quota in milli-cores (1000 = 1 core).
    pub default_cpu_millis: u32,
    /// Memory cap in bytes.
    pub default_memory_bytes: u64,
    /// PID limit.
    pub default_pids: u32,
    /// Size of the tmpfs on /tmp in bytes.
    pub default_tmpfs_bytes: u64,
    /// CPU quota of an `execute_shell` call that is flagged as heavy. Meant to
    /// be at least `default_cpu_millis`.
    pub heavy_cpu_millis: u32,
    /// Memory cap of a heavy call in bytes.
    pub heavy_memory_bytes: u64,
    /// PID limit of a heavy call.
    pub heavy_pids: u32,
    /// Size of the tmpfs on /tmp of a heavy call in bytes.
    pub heavy_tmpfs_bytes: u64,
    /// UID of the user inside the container. The workspace directory is given
    /// to this uid on first access.
    pub agent_uid: u32,
    /// GID of the user inside the container.
    pub agent_gid: u32,
    /// Absolute path inside the container where the workspace is mounted.
    pub workspace_mount: String,
}

/// The per-exec timeout where none is set, in seconds.
pub fn default_exec_timeout() -> (seconds: u32)
    ensures
        seconds == 300,
{
    300
}

/// The CPU quota where none is set, in milli-cores.
pub fn default_cpu_millis() -> (millis: u32)
    ensures
        millis == 2000,
{
    2000
}

/// The memory cap where none is set: 2 GiB.
pub fn default_memory_bytes() -> (bytes: u64)
    ensures
        bytes == 2 * 1024 * 1024 * 1024,
{
    2 * 1024 * 1024 * 1024
}

/// The PID limit where none is set.
pub fn default_pids() -> (pids: u32)
    ensures
        pids == 256,
{
    256
}

/// The size of the tmpfs where none is set: 1 GiB.
pub fn default_tmpfs_bytes() -> (bytes: u64)
    ensures
        bytes == 1024 * 1024 * 1024,
{
    1024 * 1024 * 1024
}

/// The CPU quota of a heavy call where none is set, in milli-cores.
pub fn default_heavy_cpu_millis() -> (millis: u32)
    ensures
        millis == 4000,
{
    4000
}

/// The memory cap of a heavy call where none is set: 8 GiB.
pub fn default_heavy_memory_bytes() -> (bytes: u64)
    ensures
        bytes == 8 * 1024 * 1024 * 1024,
{
    8 * 1024 * 1024 * 1024
}

/// The PID limit of a heavy call where none is set.
pub fn default_heavy_pids() -> (pids: u32)
    ensures
        pids == 512,
{
    512
}

/// The size of the tmpfs of a heavy call where none is set: 2 GiB.
pub fn default_heavy_tmpfs_bytes() -> (bytes: u64)
    ensures
        bytes == 2 * 1024 * 1024 * 1024,
{
    2 * 1024 * 1024 * 1024
}

/// The UID inside the container where none is set.
pub fn default_agent_uid() -> (uid: u32)
    ensures
        uid == 1000,
{
    1000
}

/// The GID inside the container where none is set.
pub fn default_agent_gid() -> (gid: u32)
    ensures
        gid == 1000,
{
    1000
}

/// The mount point of the workspace where none is set.
pub fn default_workspace_mount() -> (path: String)
    ensures
        path@ == "/home/agent"@,
{
    "/home/agent".to_string()
}

/// Where workspaces live on the host.
#[derive(Debug, Clone)]
pub struct WorkspaceConfig {
    /// Root directory. Each workspace is a direct child of it.
    pub root: String,
}

/// The object store that artifacts go to.
#[derive(Debug, Clone)]
pub struct TosConfig {
    /// S3-compatible endpoint.
    pub endpoint: String,
    pub region: String,
    pub bucket: String,
    pub access_key: String,
    pub secret_key: String,
    /// Prefix of all object keys.
    pub key_prefix: String,
    /// Lifetime of a signed download URL, in seconds.
    pub signed_url_expires_seconds: u32,
    /// Longest lifetime of a signed URL; requests for more get this.
    pub signed_url_max_seconds: u32,
    /// Size of one part of a multipart upload.
    pub part_size_bytes: u64,
    /// Files above this size go up in parts, so that no more than a part of
    /// them is held in memory.
    pub multipart_threshold_bytes: u64,
    /// Longest time that one upload may take, in seconds.
    pub upload_timeout_seconds: u64,
}

/// The key prefix where none is set.
pub fn default_tos_prefix() -> (prefix: String)
    ensures
        prefix@ == "sandbox/"@,
{
    "sandbox/".to_string()
}

/// The lifetime of a signed URL where none is set, in seconds.
pub fn default_signed_url_expires() -> (seconds: u32)
    ensures
        seconds == 3600,
{
    3600
}

/// The longest lifetime of a signed URL where none is set, in seconds.
pub fn default_signed_url_max() -> (seconds: u32)
    ensures
        seconds == 86400,
{
    86400
}

/// The size of an upload part where none is set: 8 MiB.
pub fn default_part_size() -> (bytes: u64)
    ensures
        bytes == 8 * 1024 * 1024,
{
    8 * 1024 * 1024
}

/// The size above which files go up in parts where none is set: 64 MiB.
pub fn default_multipart_threshold() -> (bytes: u64)
    ensures
        bytes == 64 * 1024 * 1024,
{
    64 * 1024 * 1024
}

/// The longest time of an upload where none is set, in seconds.
pub fn default_upload_timeout() -> (seconds: u64)
    ensures
        seconds == 300,
{
    300
}

/// How many containers run at a time.
#[derive(Debug, Clone)]
pub struct ConcurrencyConfig {
    /// Cap on containers that run at the same time; requests beyond it queue.
    /// 0 = let the service choose (currently: 10).
    pub max_concurrent_execs: u32,
    /// Time that a queued request waits for its turn, in seconds. 0 = it waits
    /// as long as it takes.
    pub exec_queue_timeout_seconds: u32,
}

/// The cap on containers where none is set.
pub fn default_max_concurrent_execs() -> (cap: u32)
    ensures
        cap == 4,
{
    4
}

/// The time in the queue where none is set, in seconds.
pub fn default_exec_queue_timeout() -> (seconds: u32)
    ensures
        seconds == 30,
{
    30
}

impl Default for ConcurrencyConfig {
    fn default() -> (cfg: Self)
        ensures
            cfg.max_concurrent_execs == 4,
            cfg.exec_queue_timeout_seconds == 30,
    {
        ConcurrencyConfig {
            max_concurrent_execs: default_max_concurrent_execs(),
            exec_queue_timeout_seconds: default_exec_queue_timeout(),
        }
    }
}

impl ConcurrencyConfig {
    /// The cap on containers that run at the same time.
    pub fn effective_max(&self) -> (cap: usize)
        ensures
            cap == (if self.max_concurrent_execs == 0 {
                10
            } else {
                self.max_concurrent_execs as int
            }),
            cap > 0,
    {
        if self.max_concurrent_execs == 0 {
            10
        } else {
            self.max_concurrent_execs as usize
        }
    }

    /// The time that a queued request waits, where there is a limit.
    pub fn effective_queue_timeout(&self) -> (timeout: Option<Duration>)
        ensures
            match timeout {
                None => self.exec_queue_timeout_seconds == 0,
                Some(d) => self.exec_queue_timeout_seconds != 0 && duration_nanos(d)
                    == self.exec_queue_timeout_seconds * NANOS_PER_SECOND,
            },
    {
        if self.exec_queue_timeout_seconds == 0 {
            None
        } else {
            Some(Duration::from_secs(self.exec_queue_timeout_seconds as u64))
        }
    }
}

/// How URLs are fetched.
#[derive(Debug, Clone)]
pub struct FetchConfig {
    /// Longest time of a fetch, in seconds.
    pub timeout_seconds: u64,
    /// Largest body that is taken, in bytes.
    pub max_body_bytes: u64,
    /// When true, addresses of private networks may be fetched from.
    pub allow_private_network: bool,
}

impl Default for FetchConfig {
    fn default() -> (cfg: Self)
        ensures
            cfg.timeout_seconds == 60,
            cfg.max_body_bytes == 1024 * 1024 * 1024,
            !cfg.allow_private_network,
    {
        FetchConfig {
            timeout_seconds: default_fetch_timeout(),
            max_body_bytes: default_fetch_max_body(),
            allow_private_network: false,
        }
    }
}

/// The longest time of a fetch where none is set, in seconds.
pub fn default_fetch_timeout() -> (seconds: u64)
    ensures
        seconds == 60,
{
    60
}

/// The largest body where none is set: 1 GiB.
pub fn default_fetch_max_body() -> (bytes: u64)
    ensures
        bytes == 1024 * 1024 * 1024,
{
    1024 * 1024 * 1024
}

/// What is to be said of the settings: the first thing wrong with them, in
/// the order in which they are looked at.
pub open spec fn verdict(cfg: Config) -> std::result::Result<(), ErrorView> {
    if !is_absolute(cfg.workspace.root@) {
        Err(
            ErrorView::Other(
                "workspace.root must be an absolute path, got "@ + cfg.workspace.root@,
            ),
        )
    } else if cfg.sandbox.agent_uid == 0 {
        Err(
            ErrorView::Other(
                "sandbox.agent_uid must be non-zero — running as root inside the sandbox defeats isolation"@,
            ),
        )
    } else if cfg.sandbox.default_image@.len() == 0 {
        Err(ErrorView::Other("sandbox.default_image must not be empty"@))
    } else if cfg.tos.endpoint@.len() == 0 || cfg.tos.bucket@.len() == 0 {
        Err(ErrorView::Other("tos.endpoint and tos.bucket are required"@))
    } else {
        Ok(())
    }
}

/// What came of reading settings from the file at `path`: they have to be
/// well-formed, and such that the service can work with them.
pub open spec fn load_verdict(path: Seq<char>, parsed: std::result::Result<Config, String>) -> std::result::Result<
    Config,
    ErrorView,
> {
    match parsed {
        Err(error) => Err(ErrorView::Other("parse "@ + path + ": "@ + error@)),
        Ok(cfg) => match verdict(cfg) {
            Ok(_) => Ok(cfg),
            Err(e) => Err(e),
        },
    }
}

impl Config {
    /// Accepts settings that were read from the file at `path`, or says what is
    /// wrong with them. An error of the reader is in its own words.
    pub fn load(path: &str, parsed: std::result::Result<Config, String>) -> (r: Result<Config>)
        ensures
            outcome(r) == load_verdict(path@, parsed),
    {
        match parsed {
            Err(error) => {
                let front = join3("parse ", path, ": ");
                Err(other(join2(front.as_str(), error.as_str()).as_str()))
            },
            Ok(cfg) => match cfg.validate() {
                Ok(()) => Ok(cfg),
                Err(e) => Err(e),
            },
        }
    }

    /// Refuses settings that the service cannot work with.
    pub fn validate(&self) -> (r: Result<()>)
        ensures
            outcome(r) == verdict(*self),
    {
        if !starts_at_root(self.workspace.root.as_str()) {
            return Err(
                Error::Other(
                    join2(
                        "workspace.root must be an absolute path, got ",
                        self.workspace.root.as_str(),
                    ),
                ),
            );
        }
        if self.sandbox.agent_uid == 0 {
            return Err(
                other(
                    "sandbox.agent_uid must be non-zero — running as root inside the sandbox defeats isolation",
                ),
            );
        }
        if self.sandbox.default_image.as_str().is_empty() {
            return Err(other("sandbox.default_image must not be empty"));
        }
        if self.tos.endpoint.as_str().is_empty() || self.tos.bucket.as_str().is_empty() {
            return Err(other("tos.endpoint and tos.bucket are required"));
        }
        Ok(())
    }
}

/// Settings are accepted exactly where the root of the workspaces is an absolute
/// path, nobody is root inside a container, and there are an image, an endpoint
/// and a bucket.
pub proof fn law_settings_are_accepted_or_refused(cfg: &Config, r: Result<()>)
    requires
        call_ensures(Config::validate, (cfg,), r),
    ensures
        r is Ok <==> {
            &&& cfg.workspace.root@.len() > 0 && cfg.workspace.root@[0] == '/'
            &&& cfg.sandbox.agent_uid != 0
            &&& cfg.sandbox.default_image@.len() > 0
            &&& cfg.tos.endpoint@.len() > 0
            &&& cfg.tos.bucket@.len() > 0
        },
        r is Ok <==> verdict(*cfg) is Ok,
        !(cfg.workspace.root@.len() > 0 && cfg.workspace.root@[0] == '/') ==> (r matches Err(e) && (
        e matches Error::Other(m) && m@ == "workspace.root must be an absolute path, got "@
            + cfg.workspace.root@)),
        cfg.workspace.root@.len() > 0 && cfg.workspace.root@[0] == '/' && cfg.sandbox.agent_uid == 0
            ==> (r matches Err(e) && (e matches Error::Other(m) && m@
            == "sandbox.agent_uid must be non-zero — running as root inside the sandbox defeats isolation"@)),
        cfg.workspace.root@.len() > 0 && cfg.workspace.root@[0] == '/' && cfg.sandbox.agent_uid != 0
            && cfg.sandbox.default_image@.len() == 0 ==> (r matches Err(e) && (
        e matches Error::Other(m) && m@ == "sandbox.default_image must not be empty"@)),
        cfg.workspace.root@.len() > 0 && cfg.workspace.root@[0] == '/' && cfg.sandbox.agent_uid != 0
            && cfg.sandbox.default_image@.len() > 0 && (cfg.tos.endpoint@.len() == 0
            || cfg.tos.bucket@.len() == 0) ==> (r matches Err(e) && (e matches Error::Other(m) && m@
            == "tos.endpoint and tos.bucket are required"@)),
{
}

/// Settings are loaded as they were read where they are accepted; where they
/// could not be read, it is said from where and why.
pub proof fn law_settings_are_loaded_as_read(
    path: &str,
    parsed: std::result::Result<Config, String>,
    r: Result<Config>,
)
    requires
        call_ensures(Config::load, (path, parsed), r),
    ensures
        r matches Ok(cfg) ==> parsed == Ok::<Config, String>(cfg) && verdict(cfg) is Ok,
        parsed matches Ok(cfg) ==> (r is Ok <==> verdict(cfg) is Ok),
        (r matches Err(e) && parsed matches Ok(cfg)) ==> Err::<(), ErrorView>(r->Err_0@) == verdict(
            parsed->Ok_0,
        ),
        parsed matches Err(error) ==> (r matches Err(e) && (e matches Error::Other(m) && m@
            == "parse "@ + path@ + ": "@ + error@)),
{
}

/// As many containers run at a time as is set, ten where the service may choose;
/// and requests wait as long as is set, without end where nothing is.
pub proof fn law_concurrency_is_as_set(
    cfg: &ConcurrencyConfig,
    cap: usize,
    timeout: Option<Duration>,
)
    requires
        call_ensures(ConcurrencyConfig::effective_max, (cfg,), cap),
        call_ensures(ConcurrencyConfig::effective_queue_timeout, (cfg,), timeout),
    ensures
        cfg.max_concurrent_execs > 0 ==> cap as int == cfg.max_concurrent_execs as int,
        cfg.max_concurrent_execs == 0 ==> cap == 10,
        timeout is None <==> cfg.exec_queue_timeout_seconds == 0,
        timeout matches Some(d) ==> duration_nanos(d) == cfg.exec_queue_timeout_seconds
            * 1_000_000_000,
{
}

} // verus!
