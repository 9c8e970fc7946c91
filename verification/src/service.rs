//! The service: what each request asks for, and what it is answered.
pub mod archive;
pub mod files;
pub mod transfer;

use std::time::Duration;

use vstd::prelude::*;

use crate::clock::{duration_nanos, NANOS_PER_SECOND};
use crate::config::{verdict, ConcurrencyConfig, Config, FetchConfig, SandboxConfig};
use crate::error::{answer, status_of, Code, Error, ErrorView, Result, Status, StatusView};
use crate::fetch::FetchOutcome;
use crate::messages::{
    ExecEvent, ExecEventView, ExecRequest, ExecResponse, FetchResponse, HealthResponse,
    ResourceLimits, UploadResponse,
};
use crate::oss::{content_type_of, OssClient, UploadOutcome};
use crate::paths::{components, is_under};
use crate::runtime::{
    is_container_for, is_running, law_finished_comes_once_and_last,
    law_told_output_is_in_the_pieces, law_watching_tells_all_output, possible, run_after, stderr_of,
    stdout_of, tale, told_stderr, told_stdout, whole_tale, ContainerSpec, DockerRuntime,
    ExecOutcome, ExecParams, RunEventView, StreamEvent,
    StreamEventView,
};
use crate::service::archive::{name_or, PathFound};
use crate::service::files::{fresh_walk, Walk};
use crate::service::transfer::{
    archived, as_is, gzipped, pack_archived, pack_as_is, pack_gzipped, text_answer, Packing,
    PackingForm,
};
use crate::text::{decimal, decimal_text, join3, lemma_numeral_first_digit, texts};
use crate::workspace::{home_of, lemma_home_components, resolved, valid_id, WorkspaceManager};

verus! {

/// The most that a caller can ask for of the processors, in thousandths of one.
pub const MAX_CPU_MILLIS: u32 = 4000;

/// The most memory that a caller can ask for: 8 GiB.
pub const MAX_MEMORY_BYTES: u64 = 8_589_934_592;

/// The most processes that a caller can ask for.
pub const MAX_PIDS: u32 = 512;

/// The most room under `/tmp` that a caller can ask for: 2 GiB.
pub const MAX_TMPFS_BYTES: u64 = 2_147_483_648;

/// Answers requests. The parts that talk to the outside ask it what to do.
#[derive(Debug)]
pub struct SandboxService {
    pub runtime: DockerRuntime,
    pub workspaces: WorkspaceManager,
    pub oss: OssClient,
    pub fetch_cfg: FetchConfig,
    /// How long a run waits for its turn; as long as it takes where there is no
    /// limit.
    pub exec_queue_timeout: Option<Duration>,
    /// How many runs there are at a time.
    pub exec_permit_capacity: usize,
}

/// What came of waiting for a turn.
#[derive(Debug, Clone, Copy, PartialEq, Eq, Structural)]
pub enum PermitWait {
    Granted,
    /// The time in the queue was up.
    TimedOut,
    /// There are no turns any more.
    Closed,
}

/// Whether waiting for a turn can end like this: nobody's time is up where there
/// is no limit to the wait.
pub open spec fn wait_fits(queue_timeout: Option<Duration>, wait: PermitWait) -> bool {
    wait == PermitWait::TimedOut ==> queue_timeout is Some
}

/// What a run is told after it waited for one of `capacity` turns.
pub open spec fn permit_answer(capacity: usize, wait: PermitWait) -> std::result::Result<
    (),
    StatusView,
> {
    match wait {
        PermitWait::Granted => Ok(()),
        PermitWait::TimedOut => Err(
            StatusView {
                code: Code::ResourceExhausted,
                message: "exec queue full (cap="@ + decimal(capacity as nat)
                    + "); retry with backoff"@,
            },
        ),
        PermitWait::Closed => Err(
            StatusView { code: Code::Internal, message: "exec semaphore closed"@ },
        ),
    }
}

/// A number of turns in 32 bits; the largest number where it does not fit.
pub open spec fn turns_reported(available: int) -> int {
    if available <= u32::MAX {
        available
    } else {
        u32::MAX as int
    }
}

/// What happens to the turns of a service.
pub enum TurnEvent {
    /// A run waited for a turn.
    Waited(PermitWait),
    /// A run that had a turn gave it back.
    GivenBack,
}

/// How many turns are held after some events.
pub open spec fn turns_held(events: Seq<TurnEvent>) -> int
    decreases events.len(),
{
    if events.len() == 0 {
        0
    } else {
        let before = turns_held(events.drop_last());
        match events.last() {
            TurnEvent::Waited(PermitWait::Granted) => before + 1,
            TurnEvent::Waited(_) => before,
            TurnEvent::GivenBack => before - 1,
        }
    }
}

/// Whether some events can come, one behind the other: a turn is granted only
/// while one is free, only one that is held is given back, and nobody's time is
/// up where there is no limit to the wait.
pub open spec fn turns_fit(
    queue_timeout: Option<Duration>,
    capacity: usize,
    events: Seq<TurnEvent>,
) -> bool
    decreases events.len(),
{
    events.len() == 0 || {
        let front = events.drop_last();
        &&& turns_fit(queue_timeout, capacity, front)
        &&& match events.last() {
            TurnEvent::Waited(wait) => {
                &&& wait_fits(queue_timeout, wait)
                &&& wait == PermitWait::Granted ==> turns_held(front) < capacity
            },
            TurnEvent::GivenBack => turns_held(front) > 0,
        }
    }
}

/// The first of two numbers, or the second where the first is 0.
pub open spec fn or_default(asked: int, default: int) -> int {
    if asked == 0 {
        default
    } else {
        asked
    }
}

/// The limits that a request asks for: none of them where it names none.
pub open spec fn asked_limits(limits: Option<ResourceLimits>) -> ResourceLimits {
    match limits {
        Some(limits) => limits,
        None => ResourceLimits { cpu_millis: 0, memory_bytes: 0, pids: 0, tmpfs_bytes: 0 },
    }
}

/// What a caller gets who asks for `asked`: the configured value where it is 0,
/// and never more than the ceiling otherwise.
pub open spec fn granted(asked: int, default: int, ceiling: int) -> int {
    if asked == 0 {
        default
    } else if asked > ceiling {
        ceiling
    } else {
        asked
    }
}

/// Whether `params` is the run that `req` asks for, whatever its limits are.
pub open spec fn is_run_but_for_limits(
    params: ExecParams,
    req: ExecRequest,
    root: Seq<char>,
    sandbox: SandboxConfig,
) -> bool {
    &&& params.workspace_id@ == req.workspace_id@
    &&& params.tenant_id@ == req.tenant_id@
    &&& params.command@ == req.command@
    &&& duration_nanos(params.timeout) == or_default(
        req.timeout_seconds as int,
        sandbox.default_timeout_seconds as int,
    ) * NANOS_PER_SECOND
    &&& params.env == req.env
    &&& params.image@ == (if req.image@.len() == 0 {
        sandbox.default_image@
    } else {
        req.image@
    })
    &&& params.host_home_dir@ == home_of(root, req.workspace_id@)
}

/// Whether `params` is the run that `req` asks for: with the limits that the
/// caller names, as far as a caller can.
pub open spec fn is_run_for(
    params: ExecParams,
    req: ExecRequest,
    root: Seq<char>,
    sandbox: SandboxConfig,
) -> bool {
    let limits = asked_limits(req.limits);
    &&& is_run_but_for_limits(params, req, root, sandbox)
    &&& params.cpu_millis == granted(
        limits.cpu_millis as int,
        sandbox.default_cpu_millis as int,
        MAX_CPU_MILLIS as int,
    )
    &&& params.memory_bytes == granted(
        limits.memory_bytes as int,
        sandbox.default_memory_bytes as int,
        MAX_MEMORY_BYTES as int,
    )
    &&& params.pids == granted(
        limits.pids as int,
        sandbox.default_pids as int,
        MAX_PIDS as int,
    )
    &&& params.tmpfs_bytes == granted(
        limits.tmpfs_bytes as int,
        sandbox.default_tmpfs_bytes as int,
        MAX_TMPFS_BYTES as int,
    )
}

/// Whether `params` is the run that `req` asks for as a heavy one: with the
/// limits that are set for such runs, whatever the request says of limits.
pub open spec fn is_heavy_run_for(
    params: ExecParams,
    req: ExecRequest,
    root: Seq<char>,
    sandbox: SandboxConfig,
) -> bool {
    &&& is_run_but_for_limits(params, req, root, sandbox)
    &&& params.cpu_millis == or_default(
        sandbox.heavy_cpu_millis as int,
        sandbox.default_cpu_millis as int,
    )
    &&& params.memory_bytes == or_default(
        sandbox.heavy_memory_bytes as int,
        sandbox.default_memory_bytes as int,
    )
    &&& params.pids == or_default(sandbox.heavy_pids as int, sandbox.default_pids as int)
    &&& params.tmpfs_bytes == or_default(
        sandbox.heavy_tmpfs_bytes as int,
        sandbox.default_tmpfs_bytes as int,
    )
}

/// What a caller gets who asks for `asked`.
fn grant(asked: u64, default: u64, ceiling: u64) -> (n: u64)
    ensures
        n == granted(asked as int, default as int, ceiling as int),
{
    if asked == 0 {
        default
    } else if asked > ceiling {
        ceiling
    } else {
        asked
    }
}

/// What a caller gets who asks for `asked`, in 32 bits.
fn grant_small(asked: u32, default: u32, ceiling: u32) -> (n: u32)
    ensures
        n == granted(asked as int, default as int, ceiling as int),
{
    if asked == 0 {
        default
    } else if asked > ceiling {
        ceiling
    } else {
        asked
    }
}

/// Where a download goes, and how long it may take.
#[derive(Debug)]
pub struct FetchPlan {
    pub target: String,
    pub timeout: Duration,
}

/// How something is uploaded.
#[derive(Debug, Clone, PartialEq, Eq)]
pub struct UploadPlan {
    pub packing: Packing,
    /// What it is tagged with in the store.
    pub label: Option<String>,
}

/// What those who watch a run are sent of an event.
pub open spec fn sent(event: StreamEventView) -> ExecEventView {
    match event {
        StreamEventView::Stdout(data) => ExecEventView::Stdout { data },
        StreamEventView::Stderr(data) => ExecEventView::Stderr { data },
        StreamEventView::Finished { exit_code, timed_out, duration_ms } =>
            ExecEventView::Finished { exit_code, duration_ms, timed_out },
    }
}

impl SandboxService {
    /// A service made of its parts.
    pub fn new(
        runtime: DockerRuntime,
        workspaces: WorkspaceManager,
        oss: OssClient,
        fetch_cfg: FetchConfig,
        concurrency: &ConcurrencyConfig,
    ) -> (service: Self)
        ensures
            service.runtime == runtime,
            service.workspaces == workspaces,
            service.oss == oss,
            service.fetch_cfg == fetch_cfg,
            service.exec_permit_capacity == (if concurrency.max_concurrent_execs == 0 {
                10
            } else {
                concurrency.max_concurrent_execs as int
            }),
            match service.exec_queue_timeout {
                None => concurrency.exec_queue_timeout_seconds == 0,
                Some(d) => concurrency.exec_queue_timeout_seconds != 0 && duration_nanos(d)
                    == concurrency.exec_queue_timeout_seconds * NANOS_PER_SECOND,
            },
    {
        let capacity: usize = concurrency.effective_max();
        SandboxService {
            runtime: runtime,
            workspaces: workspaces,
            oss: oss,
            fetch_cfg: fetch_cfg,
            exec_queue_timeout: concurrency.effective_queue_timeout(),
            exec_permit_capacity: capacity,
        }
    }

    /// Whether a run may start after it waited for its turn. Time in the queue
    /// can be up only where there is a limit to it.
    pub fn check_permit(&self, wait: PermitWait) -> (r: std::result::Result<(), Status>)
        requires
            wait_fits(self.exec_queue_timeout, wait),
        ensures
            answer(r) == permit_answer(self.exec_permit_capacity, wait),
    {
        match wait {
            PermitWait::Granted => Ok(()),
            PermitWait::TimedOut => {
                let cap = decimal_text(self.exec_permit_capacity as u64);
                let message = join3("exec queue full (cap=", cap.as_str(), "); retry with backoff");
                Err(Status::new(Code::ResourceExhausted, message.as_str()))
            },
            PermitWait::Closed => Err(Status::new(Code::Internal, "exec semaphore closed")),
        }
    }

    /// How many runs could start right now, in 32 bits; the largest number
    /// where it does not fit.
    pub fn exec_permits_available(available: usize) -> (n: u32)
        ensures
            n == turns_reported(available as int),
    {
        if available <= u32::MAX as usize {
            available as u32
        } else {
            u32::MAX
        }
    }

    /// The run that a request asks for. What it leaves open is as configured,
    /// and limits above what a caller can ask for are cut down to that.
    pub fn build_exec_params(&self, req: ExecRequest) -> (r: Result<ExecParams>)
        ensures
            match r {
                Ok(params) => valid_id(req.workspace_id@) && is_run_for(
                    params,
                    req,
                    self.workspaces.cfg.root@,
                    self.runtime.sandbox_cfg,
                ),
                Err(e) => !valid_id(req.workspace_id@) && e@ == ErrorView::InvalidWorkspaceId,
            },
    {
        let sandbox: &SandboxConfig = self.runtime.sandbox_cfg();
        let asked: ResourceLimits = match &req.limits {
            Some(limits) => *limits,
            None => ResourceLimits { cpu_millis: 0, memory_bytes: 0, pids: 0, tmpfs_bytes: 0 },
        };
        let limits = ResourceLimits {
            cpu_millis: grant_small(asked.cpu_millis, sandbox.default_cpu_millis, MAX_CPU_MILLIS),
            memory_bytes: grant(
                asked.memory_bytes,
                sandbox.default_memory_bytes,
                MAX_MEMORY_BYTES,
            ),
            pids: grant_small(asked.pids, sandbox.default_pids, MAX_PIDS),
            tmpfs_bytes: grant(asked.tmpfs_bytes, sandbox.default_tmpfs_bytes, MAX_TMPFS_BYTES),
        };
        self.params_with(req, limits)
    }

    /// The run that a tool call asks for. A heavy one gets the limits that are
    /// set for such runs, which come from the operator and are granted as they
    /// are; any other is like that of a request.
    pub fn build_tool_params(&self, req: ExecRequest, heavy: bool) -> (r: Result<ExecParams>)
        ensures
            match r {
                Ok(params) => {
                    &&& valid_id(req.workspace_id@)
                    &&& heavy ==> is_heavy_run_for(
                        params,
                        req,
                        self.workspaces.cfg.root@,
                        self.runtime.sandbox_cfg,
                    )
                    &&& !heavy ==> is_run_for(
                        params,
                        req,
                        self.workspaces.cfg.root@,
                        self.runtime.sandbox_cfg,
                    )
                },
                Err(e) => !valid_id(req.workspace_id@) && e@ == ErrorView::InvalidWorkspaceId,
            },
    {
        if !heavy {
            return self.build_exec_params(req);
        }
        let sandbox: &SandboxConfig = self.runtime.sandbox_cfg();
        let limits = ResourceLimits {
            cpu_millis: grant_small(
                sandbox.heavy_cpu_millis,
                sandbox.default_cpu_millis,
                u32::MAX,
            ),
            memory_bytes: grant(
                sandbox.heavy_memory_bytes,
                sandbox.default_memory_bytes,
                u64::MAX,
            ),
            pids: grant_small(sandbox.heavy_pids, sandbox.default_pids, u32::MAX),
            tmpfs_bytes: grant(
                sandbox.heavy_tmpfs_bytes,
                sandbox.default_tmpfs_bytes,
                u64::MAX,
            ),
        };
        self.params_with(req, limits)
    }

    /// The run that a request asks for, with the given limits.
    fn params_with(&self, req: ExecRequest, limits: ResourceLimits) -> (r: Result<ExecParams>)
        ensures
            match r {
                Ok(params) => {
                    &&& valid_id(req.workspace_id@)
                    &&& is_run_but_for_limits(
                        params,
                        req,
                        self.workspaces.cfg.root@,
                        self.runtime.sandbox_cfg,
                    )
                    &&& params.cpu_millis == limits.cpu_millis
                    &&& params.memory_bytes == limits.memory_bytes
                    &&& params.pids == limits.pids
                    &&& params.tmpfs_bytes == limits.tmpfs_bytes
                },
                Err(e) => !valid_id(req.workspace_id@) && e@ == ErrorView::InvalidWorkspaceId,
            },
    {
        let sandbox: &SandboxConfig = self.runtime.sandbox_cfg();
        let host_home_dir = match self.workspaces.home_dir(req.workspace_id.as_str()) {
            Ok(home) => home,
            Err(e) => {
                return Err(e);
            },
        };
        let timeout_secs: u32 = if req.timeout_seconds == 0 {
            sandbox.default_timeout_seconds
        } else {
            req.timeout_seconds
        };
        let image: String = if req.image.as_str().is_empty() {
            sandbox.default_image.clone()
        } else {
            req.image
        };
        Ok(
            ExecParams {
                workspace_id: req.workspace_id,
                tenant_id: req.tenant_id,
                command: req.command,
                timeout: Duration::from_secs(timeout_secs as u64),
                env: req.env,
                image: image,
                host_home_dir: host_home_dir,
                cpu_millis: limits.cpu_millis,
                memory_bytes: limits.memory_bytes,
                pids: limits.pids,
                tmpfs_bytes: limits.tmpfs_bytes,
            },
        )
    }

    /// What a run is answered with.
    pub fn exec_response(outcome: ExecOutcome) -> (resp: ExecResponse)
        ensures
            resp.exit_code == outcome.exit_code,
            resp.stdout == outcome.stdout,
            resp.stderr == outcome.stderr,
            resp.duration_ms == outcome.duration_ms,
            resp.timed_out == outcome.timed_out,
    {
        ExecResponse {
            exit_code: outcome.exit_code,
            stdout: outcome.stdout,
            stderr: outcome.stderr,
            duration_ms: outcome.duration_ms,
            timed_out: outcome.timed_out,
        }
    }

    /// What those who watch a run are sent first.
    pub fn exec_started(container_id: String) -> (event: ExecEvent)
        ensures
            event@ == (ExecEventView::Started { container_id: container_id@ }),
    {
        ExecEvent::Started { container_id: container_id }
    }

    /// What those who watch a run are sent of an event.
    pub fn exec_event(event: StreamEvent) -> (e: ExecEvent)
        ensures
            e@ == sent(event@),
    {
        match event {
            StreamEvent::Stdout(data) => ExecEvent::Stdout { data: data },
            StreamEvent::Stderr(data) => ExecEvent::Stderr { data: data },
            StreamEvent::Finished { exit_code, timed_out, duration_ms } => ExecEvent::Finished {
                exit_code: exit_code,
                duration_ms: duration_ms,
                timed_out: timed_out,
            },
        }
    }

    /// Where a download into a workspace goes, and how long it may take.
    pub fn plan_fetch(
        &self,
        workspace_id: &str,
        target_path: &str,
        timeout_seconds: u32,
    ) -> (r: std::result::Result<FetchPlan, Status>)
        ensures
            match resolved(self.workspaces.cfg.root@, workspace_id@, target_path@) {
                Err(e) => r is Err && r->Err_0@ == status_of(e),
                Ok(target) => {
                    &&& r is Ok
                    &&& r->Ok_0.target@ == target
                    &&& duration_nanos(r->Ok_0.timeout) == or_default(
                        timeout_seconds as int,
                        self.fetch_cfg.timeout_seconds as int,
                    ) * NANOS_PER_SECOND
                },
            },
    {
        let target = match self.workspaces.resolve_path(workspace_id, target_path) {
            Ok(target) => target,
            Err(e) => {
                return Err(e.status());
            },
        };
        let timeout: Duration = if timeout_seconds == 0 {
            Duration::from_secs(self.fetch_cfg.timeout_seconds)
        } else {
            Duration::from_secs(timeout_seconds as u64)
        };
        Ok(FetchPlan { target: target, timeout: timeout })
    }

    /// What a download is answered with.
    pub fn fetch_response(outcome: FetchOutcome) -> (resp: FetchResponse)
        ensures
            resp.bytes_written == outcome.bytes_written,
            resp.content_type == outcome.content_type,
            resp.http_status == outcome.http_status,
    {
        FetchResponse {
            bytes_written: outcome.bytes_written,
            content_type: outcome.content_type,
            http_status: outcome.http_status as i32,
        }
    }

    /// How something is uploaded: a directory always as an archive, and a file
    /// as it is unless it is to be compressed; then it is gzipped.
    pub fn plan_upload(source: &str, is_dir: bool, compress: bool, label: &str) -> (plan:
        UploadPlan)
        ensures
            plan.packing@ == (if is_dir {
                archived(source@)
            } else if compress {
                gzipped(source@)
            } else {
                as_is(source@)
            }),
            match plan.label {
                Some(tag) => label@.len() > 0 && tag@ == label@,
                None => label@.len() == 0,
            },
    {
        let packing: Packing = if is_dir {
            pack_archived(source)
        } else if compress {
            pack_gzipped(source)
        } else {
            pack_as_is(source)
        };
        let tag: Option<String> = if label.is_empty() {
            None
        } else {
            Some(label.to_string())
        };
        UploadPlan { packing: packing, label: tag }
    }

    /// What an upload is answered with.
    pub fn upload_response(outcome: UploadOutcome, basename: String) -> (resp: UploadResponse)
        ensures
            resp.object_key == outcome.key,
            resp.size_bytes == outcome.size_bytes,
            resp.content_type == outcome.content_type,
            resp.sha256_hex == outcome.sha256_hex,
            resp.basename == basename,
    {
        UploadResponse {
            object_key: outcome.key,
            size_bytes: outcome.size_bytes,
            content_type: outcome.content_type,
            sha256_hex: outcome.sha256_hex,
            basename: basename,
        }
    }

    /// The directory that a listing starts at.
    pub fn plan_listing(&self, workspace_id: &str, path: &str) -> (r: std::result::Result<
        String,
        Status,
    >)
        ensures
            text_answer(r) == (match resolved(self.workspaces.cfg.root@, workspace_id@, path@) {
                Ok(base) => Ok::<Seq<char>, StatusView>(base),
                Err(e) => Err(status_of(e)),
            }),
    {
        match self.workspaces.resolve_path(workspace_id, path) {
            Ok(base) => Ok(base),
            Err(e) => Err(e.status()),
        }
    }

    /// The walk of a listing, by what was found where it starts: at the
    /// directory known as `base`. Where there is nothing there is no walk, and
    /// the listing is empty.
    pub fn start_listing(
        &self,
        workspace_id: &str,
        base: usize,
        recursive: bool,
        found: PathFound,
    ) -> (r: std::result::Result<Option<Walk>, Status>)
        ensures
            match found {
                PathFound::Missing => r == Ok::<Option<Walk>, Status>(None),
                PathFound::Failed(e) => r is Err && r->Err_0@ == status_of(ErrorView::Io(e@)),
                _ => match resolved(self.workspaces.cfg.root@, workspace_id@, Seq::empty()) {
                    Ok(root) => {
                        &&& r is Ok
                        &&& r->Ok_0 is Some
                        &&& r->Ok_0->0@ == fresh_walk(root, base, recursive)
                    },
                    Err(e) => r is Err && r->Err_0@ == status_of(e),
                },
            },
    {
        match found {
            PathFound::Missing => {
                return Ok(None);
            },
            PathFound::Failed(e) => {
                return Err(Error::Io(e).status());
            },
            _ => {},
        }
        proof {
            reveal_strlit("");
            assert(""@ =~= Seq::<char>::empty());
        }
        match self.workspaces.resolve_path(workspace_id, "") {
            Ok(root) => Ok(Some(Walk::new(root.as_str(), base, recursive))),
            Err(e) => Err(e.status()),
        }
    }

    /// How the service fares.
    pub fn health(
        version: String,
        docker_version: String,
        docker_reachable: bool,
        available_permits: usize,
    ) -> (resp: HealthResponse)
        ensures
            resp.version == version,
            resp.docker_version == docker_version,
            resp.docker_reachable == docker_reachable,
            resp.exec_permits_available == turns_reported(available_permits as int),
    {
        HealthResponse {
            version: version,
            docker_version: docker_version,
            docker_reachable: docker_reachable,
            exec_permits_available: Self::exec_permits_available(available_permits),
        }
    }
}

/// A run is told that the queue is full exactly where its time in the queue was
/// up, and so never where there is no limit to the wait; and it may start
/// exactly where it got a turn.
pub proof fn law_queue_is_full_only_with_a_limit(
    queue_timeout: Option<Duration>,
    capacity: usize,
    wait: PermitWait,
)
    requires
        wait_fits(queue_timeout, wait),
    ensures
        permit_answer(capacity, wait) is Ok <==> wait == PermitWait::Granted,
        ({
            let told_full = permit_answer(capacity, wait) matches Err(status) && status.code
                == Code::ResourceExhausted;
            &&& told_full <==> wait == PermitWait::TimedOut
            &&& queue_timeout is None ==> !told_full
        }),
{
}

/// However runs come and go, as long as turns are granted only while one is
/// free, no more are held than there are. A run holds a turn after it waited
/// exactly where it may start: one that is refused holds none. The turns that
/// are reported as free are those that nobody holds.
pub proof fn law_no_more_turns_than_there_are(
    queue_timeout: Option<Duration>,
    capacity: usize,
    events: Seq<TurnEvent>,
    wait: PermitWait,
)
    requires
        turns_fit(queue_timeout, capacity, events),
    ensures
        0 <= turns_held(events) <= capacity,
        turns_held(events.push(TurnEvent::Waited(wait))) == turns_held(events) + (if permit_answer(
            capacity,
            wait,
        ) is Ok {
            1int
        } else {
            0
        }),
        capacity <= u32::MAX ==> turns_reported(capacity - turns_held(events)) + turns_held(events)
            == capacity,
    decreases events.len(),
{
    assert(events.push(TurnEvent::Waited(wait)).drop_last() =~= events);
    if events.len() > 0 {
        law_no_more_turns_than_there_are(queue_timeout, capacity, events.drop_last(), wait);
    }
}

/// All that those who watch a run are sent.
pub open spec fn stream_sent(
    container_id: Seq<char>,
    events: Seq<RunEventView>,
    millis: u128,
) -> Seq<ExecEventView> {
    seq![ExecEventView::Started { container_id }] + whole_tale(events, millis).map_values(
        |e: StreamEventView| sent(e),
    )
}

/// Whoever watches a run is sent once that it started, then any number of
/// pieces of output, and then once that it is finished.
pub proof fn law_stream_is_started_output_finished(
    container_id: Seq<char>,
    events: Seq<RunEventView>,
    millis: u128,
)
    requires
        possible(events),
        !is_running(run_after(events)),
    ensures
        ({
            let all = stream_sent(container_id, events, millis);
            &&& all.len() >= 2
            &&& all.first() == (ExecEventView::Started { container_id })
            &&& all.last() is Finished
            &&& forall|i: int|
                1 <= i < all.len() - 1 ==> (#[trigger] all[i] is Stdout || all[i] is Stderr)
        }),
{
    law_finished_comes_once_and_last(events, millis);
    let told = whole_tale(events, millis);
    let all = stream_sent(container_id, events, millis);
    assert(all.len() == told.len() + 1);
    assert(all.last() == sent(told.last()));
    assert forall|i: int| 1 <= i < all.len() - 1 implies (#[trigger] all[i] is Stdout
        || all[i] is Stderr) by {
        assert(all[i] == sent(told[i - 1]));
    }
}

/// With settings that were accepted, no container runs as root, and none can
/// write to its root filesystem.
pub proof fn law_containers_are_confined(cfg: Config, spec: ContainerSpec, req: ExecParams)
    requires
        verdict(cfg) is Ok,
        is_container_for(spec, req, cfg.sandbox),
    ensures
        spec.readonly_rootfs,
        spec.auto_remove,
        spec.user@.len() > 0,
        spec.user@[0] != '0',
{
    lemma_numeral_first_digit(cfg.sandbox.agent_uid as nat, 10);
}

/// The tenant has no say in where files lie: runs in the same workspace have
/// the same home directory, and it is mounted at the same place.
pub proof fn law_tenant_does_not_choose_the_directory(
    root: Seq<char>,
    sandbox: SandboxConfig,
    a: ExecRequest,
    b: ExecRequest,
    run_a: ExecParams,
    run_b: ExecParams,
    spec_a: ContainerSpec,
    spec_b: ContainerSpec,
)
    requires
        a.workspace_id@ == b.workspace_id@,
        is_run_but_for_limits(run_a, a, root, sandbox),
        is_run_but_for_limits(run_b, b, root, sandbox),
        is_container_for(spec_a, run_a, sandbox),
        is_container_for(spec_b, run_b, sandbox),
    ensures
        run_a.host_home_dir@ == run_b.host_home_dir@,
        texts(spec_a.binds@) == texts(spec_b.binds@),
        spec_a.working_dir@ == spec_b.working_dir@,
{
}

/// Runs in two workspaces have two home directories, neither of them inside
/// the other.
pub proof fn law_runs_of_two_workspaces_are_apart(
    root: Seq<char>,
    sandbox: SandboxConfig,
    a: ExecRequest,
    b: ExecRequest,
    run_a: ExecParams,
    run_b: ExecParams,
)
    requires
        valid_id(a.workspace_id@),
        valid_id(b.workspace_id@),
        a.workspace_id@ != b.workspace_id@,
        is_run_but_for_limits(run_a, a, root, sandbox),
        is_run_but_for_limits(run_b, b, root, sandbox),
    ensures
        !is_under(run_a.host_home_dir@, run_b.host_home_dir@),
        !is_under(run_b.host_home_dir@, run_a.host_home_dir@),
{
    lemma_home_components(root, a.workspace_id@);
    lemma_home_components(root, b.workspace_id@);
    let n = components(root).len() as int;
    let ca = components(run_a.host_home_dir@);
    let cb = components(run_b.host_home_dir@);
    assert(ca[n] == a.workspace_id@);
    assert(cb[n] == b.workspace_id@);
    assert(ca.len() == cb.len());
    assert(cb.subrange(0, cb.len() as int)[n] == b.workspace_id@);
    assert(ca.subrange(0, ca.len() as int)[n] == a.workspace_id@);
}

/// A run that names no limits gets the configured ones, and one that does gets
/// what it names where that is not above the ceiling.
pub proof fn law_limits_are_as_configured(
    root: Seq<char>,
    sandbox: SandboxConfig,
    req: ExecRequest,
    run: ExecParams,
)
    requires
        is_run_for(run, req, root, sandbox),
    ensures
        req.limits is None ==> {
            &&& run.cpu_millis == sandbox.default_cpu_millis
            &&& run.memory_bytes == sandbox.default_memory_bytes
            &&& run.pids == sandbox.default_pids
            &&& run.tmpfs_bytes == sandbox.default_tmpfs_bytes
        },
        req.limits matches Some(asked) ==> {
            &&& 0 < asked.cpu_millis <= MAX_CPU_MILLIS ==> run.cpu_millis == asked.cpu_millis
            &&& 0 < asked.memory_bytes <= MAX_MEMORY_BYTES ==> run.memory_bytes
                == asked.memory_bytes
            &&& 0 < asked.pids <= MAX_PIDS ==> run.pids == asked.pids
            &&& 0 < asked.tmpfs_bytes <= MAX_TMPFS_BYTES ==> run.tmpfs_bytes == asked.tmpfs_bytes
        },
{
}

/// No caller gets more than the ceilings by asking for it: a limit of a run is
/// the configured one or at most the ceiling.
pub proof fn law_callers_stay_below_the_ceilings(
    root: Seq<char>,
    sandbox: SandboxConfig,
    req: ExecRequest,
    run: ExecParams,
)
    requires
        is_run_for(run, req, root, sandbox),
    ensures
        run.cpu_millis <= MAX_CPU_MILLIS || run.cpu_millis == sandbox.default_cpu_millis,
        run.memory_bytes <= MAX_MEMORY_BYTES || run.memory_bytes == sandbox.default_memory_bytes,
        run.pids <= MAX_PIDS || run.pids == sandbox.default_pids,
        run.tmpfs_bytes <= MAX_TMPFS_BYTES || run.tmpfs_bytes == sandbox.default_tmpfs_bytes,
{
}

/// A heavy run gets what is set for such runs, as much as that may be, and the
/// usual where nothing is set. The caller has no say in it.
pub proof fn law_heavy_limits_come_from_the_operator(
    root: Seq<char>,
    sandbox: SandboxConfig,
    a: ExecRequest,
    b: ExecRequest,
    run_a: ExecParams,
    run_b: ExecParams,
)
    requires
        is_heavy_run_for(run_a, a, root, sandbox),
        is_heavy_run_for(run_b, b, root, sandbox),
    ensures
        sandbox.heavy_cpu_millis > 0 ==> run_a.cpu_millis == sandbox.heavy_cpu_millis,
        sandbox.heavy_memory_bytes > 0 ==> run_a.memory_bytes == sandbox.heavy_memory_bytes,
        sandbox.heavy_pids > 0 ==> run_a.pids == sandbox.heavy_pids,
        sandbox.heavy_tmpfs_bytes > 0 ==> run_a.tmpfs_bytes == sandbox.heavy_tmpfs_bytes,
        run_a.cpu_millis == run_b.cpu_millis,
        run_a.memory_bytes == run_b.memory_bytes,
        run_a.pids == run_b.pids,
        run_a.tmpfs_bytes == run_b.tmpfs_bytes,
{
}

/// Those who watch a run are sent each piece of output as it is, byte for byte,
/// on the side that it came on, and at the end the code, the length of time and
/// whether the time was up.
pub proof fn law_events_are_sent_as_they_are(event: StreamEvent, e: ExecEvent)
    requires
        call_ensures(SandboxService::exec_event, (event,), e),
    ensures
        match event {
            StreamEvent::Stdout(data) => e matches ExecEvent::Stdout { data: out } && out@ == data@,
            StreamEvent::Stderr(data) => e matches ExecEvent::Stderr { data: out } && out@ == data@,
            StreamEvent::Finished { exit_code, timed_out, duration_ms } => e
                == (ExecEvent::Finished { exit_code, duration_ms, timed_out }),
        },
{
}

/// The standard output in some events that were sent.
pub open spec fn sent_stdout(events: Seq<ExecEventView>) -> Seq<u8>
    decreases events.len(),
{
    if events.len() == 0 {
        Seq::empty()
    } else {
        sent_stdout(events.drop_last()) + (match events.last() {
            ExecEventView::Stdout { data } => data,
            _ => Seq::empty(),
        })
    }
}

/// The standard error output in some events that were sent.
pub open spec fn sent_stderr(events: Seq<ExecEventView>) -> Seq<u8>
    decreases events.len(),
{
    if events.len() == 0 {
        Seq::empty()
    } else {
        sent_stderr(events.drop_last()) + (match events.last() {
            ExecEventView::Stderr { data } => data,
            _ => Seq::empty(),
        })
    }
}

/// The output in what is sent of a tale is what stands in the tale.
proof fn lemma_sent_output(start: Seq<ExecEventView>, tale: Seq<StreamEventView>)
    ensures
        sent_stdout(start + tale.map_values(|e: StreamEventView| sent(e))) == sent_stdout(start)
            + told_stdout(tale),
        sent_stderr(start + tale.map_values(|e: StreamEventView| sent(e))) == sent_stderr(start)
            + told_stderr(tale),
    decreases tale.len(),
{
    let all = start + tale.map_values(|e: StreamEventView| sent(e));
    if tale.len() == 0 {
        assert(all =~= start);
        assert(sent_stdout(start) + told_stdout(tale) =~= sent_stdout(start));
        assert(sent_stderr(start) + told_stderr(tale) =~= sent_stderr(start));
    } else {
        let front = tale.drop_last();
        lemma_sent_output(start, front);
        assert(all.drop_last() =~= start + front.map_values(|e: StreamEventView| sent(e)));
        assert(all.last() == sent(tale.last()));
        assert(sent_stdout(all) =~= sent_stdout(start) + told_stdout(tale));
        assert(sent_stderr(all) =~= sent_stderr(start) + told_stderr(tale));
    }
}

/// All the output of a run reaches those who watch it: the pieces that they are
/// sent, one behind the other, are the bytes that the run put out, on each side,
/// none lost and none added.
pub proof fn law_all_output_is_sent(
    container_id: Seq<char>,
    events: Seq<RunEventView>,
    millis: u128,
)
    ensures
        sent_stdout(stream_sent(container_id, events, millis)) == stdout_of(events),
        sent_stderr(stream_sent(container_id, events, millis)) == stderr_of(events),
{
    let start = seq![ExecEventView::Started { container_id }];
    let whole = whole_tale(events, millis);
    reveal_with_fuel(sent_stdout, 2);
    reveal_with_fuel(sent_stderr, 2);
    assert(start.drop_last() =~= Seq::empty());
    assert(sent_stdout(start) =~= Seq::empty());
    assert(sent_stderr(start) =~= Seq::empty());
    lemma_sent_output(start, whole);
    law_watching_tells_all_output(events);
    law_told_output_is_in_the_pieces(tale(events), whole.last());
    assert(sent_stdout(stream_sent(container_id, events, millis)) =~= stdout_of(events));
    assert(sent_stderr(stream_sent(container_id, events, millis)) =~= stderr_of(events));
}

/// The output in events that were sent is what stands in them, one behind the
/// other.
pub proof fn law_sent_output_is_in_the_events(events: Seq<ExecEventView>, event: ExecEventView)
    ensures
        sent_stdout(Seq::empty()) == Seq::<u8>::empty(),
        sent_stderr(Seq::empty()) == Seq::<u8>::empty(),
        sent_stdout(events.push(event)) == sent_stdout(events) + (match event {
            ExecEventView::Stdout { data } => data,
            _ => Seq::empty(),
        }),
        sent_stderr(events.push(event)) == sent_stderr(events) + (match event {
            ExecEventView::Stderr { data } => data,
            _ => Seq::empty(),
        }),
{
    assert(events.push(event).drop_last() =~= events);
    assert(events.push(event).last() == event);
}

/// A run is answered with what came of it, nothing changed.
pub proof fn law_answers_carry_what_came(
    run: ExecOutcome,
    ran: ExecResponse,
    download: FetchOutcome,
    downloaded: FetchResponse,
    upload: UploadOutcome,
    basename: String,
    uploaded: UploadResponse,
)
    requires
        call_ensures(SandboxService::exec_response, (run,), ran),
        call_ensures(SandboxService::fetch_response, (download,), downloaded),
        call_ensures(SandboxService::upload_response, (upload, basename), uploaded),
    ensures
        ran.stdout@ == run.stdout@,
        ran.stderr@ == run.stderr@,
        ran.exit_code as int == run.exit_code as int,
        ran.timed_out == run.timed_out,
        ran.duration_ms as int == run.duration_ms as int,
        downloaded.bytes_written as int == download.bytes_written as int,
        downloaded.content_type@ == download.content_type@,
        downloaded.http_status as int == download.http_status as int,
        uploaded.object_key@ == upload.key@,
        uploaded.size_bytes as int == upload.size_bytes as int,
        uploaded.content_type@ == upload.content_type@,
        uploaded.sha256_hex@ == upload.sha256_hex@,
        uploaded.basename@ == basename@,
{
}

/// A run is the command that was asked for, in the workspace that was named, with
/// all the environment; it may take as long as was asked for, and as configured
/// where nothing was.
pub proof fn law_run_is_as_asked_for(
    service: &SandboxService,
    req: ExecRequest,
    heavy: bool,
    r: Result<ExecParams>,
)
    requires
        call_ensures(SandboxService::build_tool_params, (service, req, heavy), r) || call_ensures(
            SandboxService::build_exec_params,
            (service, req),
            r,
        ),
    ensures
        r is Ok <==> valid_id(req.workspace_id@),
        r matches Err(e) ==> e == Error::InvalidWorkspaceId,
        r matches Ok(run) ==> {
            let sandbox = service.runtime.sandbox_cfg;
            &&& run.command@ == req.command@
            &&& run.workspace_id@ == req.workspace_id@
            &&& run.tenant_id@ == req.tenant_id@
            &&& run.env@ == req.env@
            &&& req.timeout_seconds > 0 ==> duration_nanos(run.timeout) == req.timeout_seconds
                * 1_000_000_000
            &&& req.timeout_seconds == 0 ==> duration_nanos(run.timeout)
                == sandbox.default_timeout_seconds * 1_000_000_000
            &&& req.image@.len() > 0 ==> run.image@ == req.image@
            &&& req.image@.len() == 0 ==> run.image@ == sandbox.default_image@
            &&& run.host_home_dir@ == home_of(service.workspaces.cfg.root@, req.workspace_id@)
        },
{
}

/// A caller gets the smaller one of what is asked for and the ceiling, and what
/// is configured where nothing is asked for.
pub proof fn law_limits_are_the_smaller_ones(
    service: &SandboxService,
    req: ExecRequest,
    asked: ResourceLimits,
    r: Result<ExecParams>,
)
    requires
        req.limits == Some(asked),
        call_ensures(SandboxService::build_exec_params, (service, req), r),
    ensures
        r matches Ok(run) ==> {
            let sandbox = service.runtime.sandbox_cfg;
            &&& asked.cpu_millis == 0 ==> run.cpu_millis == sandbox.default_cpu_millis
            &&& asked.cpu_millis > 0 ==> run.cpu_millis <= 4000 && run.cpu_millis
                <= asked.cpu_millis && (run.cpu_millis == 4000 || run.cpu_millis
                == asked.cpu_millis)
            &&& asked.memory_bytes == 0 ==> run.memory_bytes == sandbox.default_memory_bytes
            &&& asked.memory_bytes > 0 ==> run.memory_bytes <= 8 * 1024 * 1024 * 1024
                && run.memory_bytes <= asked.memory_bytes && (run.memory_bytes == 8 * 1024 * 1024
                * 1024 || run.memory_bytes == asked.memory_bytes)
            &&& asked.pids == 0 ==> run.pids == sandbox.default_pids
            &&& asked.pids > 0 ==> run.pids <= 512 && run.pids <= asked.pids && (run.pids == 512
                || run.pids == asked.pids)
            &&& asked.tmpfs_bytes == 0 ==> run.tmpfs_bytes == sandbox.default_tmpfs_bytes
            &&& asked.tmpfs_bytes > 0 ==> run.tmpfs_bytes <= 2 * 1024 * 1024 * 1024
                && run.tmpfs_bytes <= asked.tmpfs_bytes && (run.tmpfs_bytes == 2 * 1024 * 1024
                * 1024 || run.tmpfs_bytes == asked.tmpfs_bytes)
        },
{
}

/// A tool call that is not heavy gets the configured limits, and a heavy one
/// those that are set for such calls, where they are.
pub proof fn law_tool_calls_get_the_limits_that_are_set(
    service: &SandboxService,
    req: ExecRequest,
    heavy: bool,
    r: Result<ExecParams>,
)
    requires
        req.limits is None,
        call_ensures(SandboxService::build_tool_params, (service, req, heavy), r),
    ensures
        r matches Ok(run) ==> {
            let sandbox = service.runtime.sandbox_cfg;
            &&& heavy && sandbox.heavy_cpu_millis > 0 ==> run.cpu_millis == sandbox.heavy_cpu_millis
            &&& heavy && sandbox.heavy_memory_bytes > 0 ==> run.memory_bytes
                == sandbox.heavy_memory_bytes
            &&& heavy && sandbox.heavy_pids > 0 ==> run.pids == sandbox.heavy_pids
            &&& heavy && sandbox.heavy_tmpfs_bytes > 0 ==> run.tmpfs_bytes
                == sandbox.heavy_tmpfs_bytes
            &&& !heavy || sandbox.heavy_cpu_millis == 0 ==> run.cpu_millis
                == sandbox.default_cpu_millis
            &&& !heavy || sandbox.heavy_memory_bytes == 0 ==> run.memory_bytes
                == sandbox.default_memory_bytes
            &&& !heavy || sandbox.heavy_pids == 0 ==> run.pids == sandbox.default_pids
            &&& !heavy || sandbox.heavy_tmpfs_bytes == 0 ==> run.tmpfs_bytes
                == sandbox.default_tmpfs_bytes
        },
{
}

/// A service lets as many runs in at a time as is configured, ten where it may
/// choose, and lets others wait as long as is configured.
pub proof fn law_service_is_as_configured(
    runtime: DockerRuntime,
    workspaces: WorkspaceManager,
    oss: OssClient,
    fetch_cfg: FetchConfig,
    concurrency: &ConcurrencyConfig,
    service: SandboxService,
)
    requires
        call_ensures(
            SandboxService::new,
            (runtime, workspaces, oss, fetch_cfg, concurrency),
            service,
        ),
    ensures
        service.runtime == runtime,
        service.workspaces == workspaces,
        service.oss == oss,
        service.fetch_cfg == fetch_cfg,
        concurrency.max_concurrent_execs > 0 ==> service.exec_permit_capacity as int
            == concurrency.max_concurrent_execs as int,
        concurrency.max_concurrent_execs == 0 ==> service.exec_permit_capacity == 10,
        service.exec_queue_timeout is None <==> concurrency.exec_queue_timeout_seconds == 0,
        service.exec_queue_timeout matches Some(d) ==> duration_nanos(d)
            == concurrency.exec_queue_timeout_seconds * 1_000_000_000,
{
}

/// A run that got a turn may start; one whose time in the queue was up is told
/// that there is no room and how much there is; and any other failure is the
/// service's own.
pub proof fn law_turn_decides_on_the_run(
    service: &SandboxService,
    wait: PermitWait,
    r: std::result::Result<(), Status>,
)
    requires
        call_ensures(SandboxService::check_permit, (service, wait), r),
    ensures
        r is Ok <==> wait == PermitWait::Granted,
        r matches Err(status) ==> (status.code == Code::ResourceExhausted <==> wait
            == PermitWait::TimedOut),
        r matches Err(status) ==> (status.code == Code::Internal <==> wait == PermitWait::Closed),
        wait == PermitWait::TimedOut ==> r->Err_0.message@ == "exec queue full (cap="@ + decimal(
            service.exec_permit_capacity as nat,
        ) + "); retry with backoff"@,
        wait == PermitWait::Closed ==> r->Err_0.message@ == "exec semaphore closed"@,
{
}

/// A download goes to the place that was named in the workspace, and is refused
/// exactly where there is no such place; it may take as long as was asked for,
/// and as configured where nothing was.
pub proof fn law_download_is_planned_as_asked_for(
    service: &SandboxService,
    id: &str,
    path: &str,
    seconds: u32,
    r: std::result::Result<FetchPlan, Status>,
)
    requires
        call_ensures(SandboxService::plan_fetch, (service, id, path, seconds), r),
    ensures
        r is Ok <==> resolved(service.workspaces.cfg.root@, id@, path@) is Ok,
        r matches Ok(plan) ==> {
            &&& Ok::<Seq<char>, ErrorView>(plan.target@) == resolved(
                service.workspaces.cfg.root@,
                id@,
                path@,
            )
            &&& seconds > 0 ==> duration_nanos(plan.timeout) == seconds * 1_000_000_000
            &&& seconds == 0 ==> duration_nanos(plan.timeout) == service.fetch_cfg.timeout_seconds
                * 1_000_000_000
        },
        r matches Err(status) ==> status.code == Code::InvalidArgument,
        r matches Err(status) ==> status.message@ == (if valid_id(id@) {
            "path escapes workspace root: "@ + path@
        } else {
            "workspace_id is empty or invalid"@
        }),
{
}

/// A directory is always delivered as an archive, a file as it is, and gzipped
/// where that is asked for; the name tells which, and a label is kept as it is.
pub proof fn law_upload_is_packed_as_asked_for(
    source: &str,
    is_dir: bool,
    compress: bool,
    label: &str,
    plan: UploadPlan,
)
    requires
        call_ensures(SandboxService::plan_upload, (source, is_dir, compress, label), plan),
    ensures
        is_dir ==> plan.packing.form == PackingForm::Archive && plan.packing.basename@ == name_or(
            source@,
            "workspace"@,
        ) + ".tar.gz"@,
        !is_dir && compress ==> plan.packing.form == PackingForm::Gzip && plan.packing.basename@
            == name_or(source@, "artifact"@) + ".gz"@,
        is_dir || compress ==> plan.packing.content_type@ == "application/gzip"@,
        !is_dir && !compress ==> {
            &&& plan.packing.form == PackingForm::AsIs
            &&& plan.packing.basename@ == name_or(source@, "artifact"@)
            &&& plan.packing.content_type@ == content_type_of(source@)
        },
        plan.label is Some <==> label@.len() > 0,
        plan.label matches Some(tag) ==> tag@ == label@,
{
}

/// A listing starts at the place that was named in the workspace, and is refused
/// exactly where there is no such place.
pub proof fn law_listing_starts_at_the_place_named(
    service: &SandboxService,
    id: &str,
    path: &str,
    r: std::result::Result<String, Status>,
)
    requires
        call_ensures(SandboxService::plan_listing, (service, id, path), r),
    ensures
        r is Ok <==> resolved(service.workspaces.cfg.root@, id@, path@) is Ok,
        r matches Ok(base) ==> Ok::<Seq<char>, ErrorView>(base@) == resolved(
            service.workspaces.cfg.root@,
            id@,
            path@,
        ),
        r matches Err(status) ==> status.code == Code::InvalidArgument,
        r matches Err(status) ==> status.message@ == (if valid_id(id@) {
            "path escapes workspace root: "@ + path@
        } else {
            "workspace_id is empty or invalid"@
        }),
{
}

/// Where there is nothing to list, nothing is walked through; where it cannot be
/// told, the listing fails; else the walk starts at the directory given, with
/// nothing found yet, and goes into directories where that was asked for.
pub proof fn law_walk_starts_where_it_should(
    service: &SandboxService,
    id: &str,
    base: usize,
    recursive: bool,
    found: PathFound,
    r: std::result::Result<Option<Walk>, Status>,
)
    requires
        call_ensures(SandboxService::start_listing, (service, id, base, recursive, found), r),
    ensures
        found is Missing ==> r matches Ok(None),
        found matches PathFound::Failed(e) ==> r is Err && r->Err_0.code == Code::Internal,
        found matches PathFound::Failed(e) ==> r->Err_0.message@ == "io: "@ + e@,
        (found is Directory || found is File) && r is Err ==> r->Err_0.code
            == Code::InvalidArgument,
        (found is Directory || found is File) && r is Err && !valid_id(id@) ==> r->Err_0.message@
            == "workspace_id is empty or invalid"@,
        found is Directory || found is File ==> (r is Ok <==> resolved(
            service.workspaces.cfg.root@,
            id@,
            Seq::empty(),
        ) is Ok),
        (found is Directory || found is File) && r is Ok ==> {
            &&& r->Ok_0 is Some
            &&& r->Ok_0->0.stack@ == seq![base]
            &&& r->Ok_0->0.files@.len() == 0
            &&& r->Ok_0->0.recursive == recursive
            &&& Ok::<Seq<char>, ErrorView>(r->Ok_0->0.root@) == resolved(
                service.workspaces.cfg.root@,
                id@,
                Seq::empty(),
            )
        },
{
    if (found is Directory || found is File) && r is Ok {
        let walk = r->Ok_0->0;
        assert(walk@.files.len() == walk.files@.len());
        assert(walk@.stack == walk.stack@);
        assert(walk@.root == walk.root@);
    }
}

/// How the service fares is told as it is; turns are counted up to the largest
/// number that 32 bits hold.
pub proof fn law_health_is_told_as_it_is(
    version: String,
    docker_version: String,
    reachable: bool,
    available: usize,
    resp: HealthResponse,
)
    requires
        call_ensures(SandboxService::health, (version, docker_version, reachable, available), resp),
    ensures
        resp.version@ == version@,
        resp.docker_version@ == docker_version@,
        resp.docker_reachable == reachable,
        available <= 0xffff_ffff ==> resp.exec_permits_available as int == available as int,
        available > 0xffff_ffff ==> resp.exec_permits_available as int == 0xffff_ffff,
{
}

/// A caller is told which container its command runs in, and how many turns are
/// free, as far as that can be told.
pub proof fn law_start_and_turns_are_told(
    container_id: String,
    event: ExecEvent,
    available: usize,
    told: u32,
)
    requires
        call_ensures(SandboxService::exec_started, (container_id,), event),
        call_ensures(SandboxService::exec_permits_available, (available,), told),
    ensures
        event matches ExecEvent::Started { container_id: id } && id@ == container_id@,
        available <= 0xffff_ffff ==> told as int == available as int,
        available > 0xffff_ffff ==> told == 0xffff_ffff,
{
    assert(event@ is Started <==> event is Started);
}

} // verus!
