use std::time::{Duration, SystemTime, UNIX_EPOCH};

use scriptorium::config::{
    ConcurrencyConfig, Config, DockerConfig, FetchConfig, SandboxConfig, ServerConfig, TosConfig,
    WorkspaceConfig,
};
use scriptorium::digest::{sha256_hex, RunningDigest};
use scriptorium::error::{other, Code, Error, Status};
use scriptorium::fetch::FetchOutcome;
use scriptorium::messages::{
    ExecEvent, ExecRequest, ExportHeader, ExportMessage, ExportWorkspaceObjectRequest,
    ImportHeader, ImportMessage, ResourceLimits, WorkspaceObjectEncoding,
};
use scriptorium::oss::{OssClient, UploadOutcome};
use scriptorium::paths::{components_of, join_path};
use scriptorium::runtime::{DockerRuntime, ExecOutcome, StreamEvent};
use scriptorium::service::archive::{
    archive_file_name_at, base_name_or, build_workspace_transfer_temp_path, check_entry,
    install_plan, name_in_archive, parent_dir, removal_of, staging_path_at, temp_archive_name,
    EntryKind, ExtractAction, ExtractEvent, ExtractPhase, Install, PathFound, Removal, TopEntry,
    WORKSPACE_TRANSFER_CHUNK_SIZE,
};
use scriptorium::service::files::{DirEntry, Walk};
use scriptorium::service::transfer::{
    check_found, export_chunk, export_header, find_source, plan_export, Import, ImportAction,
    ImportEvent, ImportPhase, Packing, PackingForm, Placement,
};
use scriptorium::service::{
    PermitWait, SandboxService, MAX_CPU_MILLIS, MAX_MEMORY_BYTES, MAX_PIDS, MAX_TMPFS_BYTES,
};
use scriptorium::workspace::WorkspaceManager;

fn sandbox() -> SandboxConfig {
    SandboxConfig {
        default_image: "image:1".to_string(),
        default_timeout_seconds: 300,
        default_cpu_millis: 2000,
        default_memory_bytes: 2048,
        default_pids: 256,
        default_tmpfs_bytes: 1024,
        heavy_cpu_millis: 4000,
        heavy_memory_bytes: 8192,
        heavy_pids: 512,
        heavy_tmpfs_bytes: 4096,
        agent_uid: 1000,
        agent_gid: 1000,
        workspace_mount: "/home/agent".to_string(),
    }
}

fn store() -> TosConfig {
    TosConfig {
        endpoint: "https://store.example".to_string(),
        region: "here".to_string(),
        bucket: "artifacts".to_string(),
        access_key: "ak".to_string(),
        secret_key: "sk".to_string(),
        key_prefix: "sandbox/".to_string(),
        signed_url_expires_seconds: 3600,
        signed_url_max_seconds: 86400,
        part_size_bytes: 8 * 1024 * 1024,
        multipart_threshold_bytes: 64 * 1024 * 1024,
        upload_timeout_seconds: 300,
    }
}

fn docker() -> DockerConfig {
    DockerConfig { socket: "/var/run/docker.sock".to_string(), control_timeout_seconds: 60 }
}

fn manager() -> WorkspaceManager {
    WorkspaceManager::new(WorkspaceConfig { root: "/srv/ws".to_string() })
}

fn service(concurrency: &ConcurrencyConfig) -> SandboxService {
    SandboxService::new(
        DockerRuntime::new(docker(), sandbox()),
        manager(),
        OssClient::connect(&store()).unwrap(),
        FetchConfig::default(),
        concurrency,
    )
}

fn standard() -> SandboxService {
    service(&ConcurrencyConfig::default())
}

fn status(code: Code, message: &str) -> Status {
    Status::new(code, message)
}

fn invalid(message: &str) -> Status {
    status(Code::InvalidArgument, message)
}

fn config() -> Config {
    Config {
        server: ServerConfig { listen: "127.0.0.1:50051".to_string() },
        docker: docker(),
        sandbox: sandbox(),
        workspace: WorkspaceConfig { root: "/srv/ws".to_string() },
        tos: store(),
        concurrency: ConcurrencyConfig::default(),
        fetch: FetchConfig::default(),
    }
}

#[test]
fn settings_are_accepted_or_refused() {
    assert!(config().validate().is_ok());
    let refused = |change: fn(&mut Config)| {
        let mut cfg = config();
        change(&mut cfg);
        cfg.validate().unwrap_err()
    };
    assert_eq!(
        refused(|c| c.workspace.root = "srv".to_string()),
        other("workspace.root must be an absolute path, got srv")
    );
    assert_eq!(
        refused(|c| c.sandbox.agent_uid = 0),
        other(
            "sandbox.agent_uid must be non-zero — running as root inside the sandbox defeats isolation"
        )
    );
    assert_eq!(
        refused(|c| c.sandbox.default_image = String::new()),
        other("sandbox.default_image must not be empty")
    );
    assert_eq!(
        refused(|c| c.tos.endpoint = String::new()),
        other("tos.endpoint and tos.bucket are required")
    );
    assert_eq!(
        refused(|c| c.tos.bucket = String::new()),
        other("tos.endpoint and tos.bucket are required")
    );
}

#[test]
fn loading_reports_what_is_wrong() {
    assert!(Config::load("c.toml", Ok(config())).is_ok());
    assert_eq!(
        Config::load("c.toml", Err("no key".to_string())).err(),
        Some(other("parse c.toml: no key"))
    );
    let mut bad = config();
    bad.sandbox.default_image = String::new();
    assert_eq!(
        Config::load("c.toml", Ok(bad)).err(),
        Some(other("sandbox.default_image must not be empty"))
    );
}

#[test]
fn errors_are_answered_with_their_status() {
    let cases = [
        (Error::InvalidWorkspaceId, Code::InvalidArgument, "workspace_id is empty or invalid"),
        (
            Error::PathEscape("../x".to_string()),
            Code::InvalidArgument,
            "path escapes workspace root: ../x",
        ),
        (Error::WorkspaceNotFound("w".to_string()), Code::NotFound, "workspace not found: w"),
        (Error::Docker("d".to_string()), Code::Internal, "docker: d"),
        (Error::Io("i".to_string()), Code::Internal, "io: i"),
        (Error::ExecTimeout(5), Code::DeadlineExceeded, "exec timed out after 5s"),
        (Error::Other("o".to_string()), Code::Internal, "o"),
    ];
    for (error, code, message) in cases {
        assert_eq!(error.status(), status(code, message));
        assert_eq!(error.code(), code);
        assert_eq!(error.message(), message);
    }
}

#[test]
fn capacity_and_queue_are_as_configured() {
    let s = standard();
    assert_eq!(s.exec_permit_capacity, 4);
    assert_eq!(s.exec_queue_timeout, Some(Duration::from_secs(30)));
    let open = ConcurrencyConfig { max_concurrent_execs: 0, exec_queue_timeout_seconds: 0 };
    let s = service(&open);
    assert_eq!(s.exec_permit_capacity, 10);
    assert_eq!(s.exec_queue_timeout, None);
}

#[test]
fn waiting_for_a_turn_can_fail() {
    let s = standard();
    assert_eq!(s.check_permit(PermitWait::Granted), Ok(()));
    assert_eq!(
        s.check_permit(PermitWait::TimedOut),
        Err(status(Code::ResourceExhausted, "exec queue full (cap=4); retry with backoff"))
    );
    assert_eq!(
        s.check_permit(PermitWait::Closed),
        Err(status(Code::Internal, "exec semaphore closed"))
    );
    assert_eq!(SandboxService::exec_permits_available(3), 3);
    assert_eq!(SandboxService::exec_permits_available(usize::MAX), u32::MAX);
}

fn request(workspace_id: &str) -> ExecRequest {
    ExecRequest {
        workspace_id: workspace_id.to_string(),
        tenant_id: "acme".to_string(),
        command: "true".to_string(),
        timeout_seconds: 0,
        env: vec![("K".to_string(), "v".to_string())],
        image: String::new(),
        limits: None,
    }
}

#[test]
fn runs_get_the_configured_values() {
    let run = standard().build_exec_params(request("ws")).unwrap();
    assert_eq!(run.workspace_id, "ws");
    assert_eq!(run.tenant_id, "acme");
    assert_eq!(run.command, "true");
    assert_eq!(run.timeout, Duration::from_secs(300));
    assert_eq!(run.env, [("K".to_string(), "v".to_string())]);
    assert_eq!(run.image, "image:1");
    assert_eq!(run.host_home_dir, "/srv/ws/ws/home");
    assert_eq!(
        (run.cpu_millis, run.memory_bytes, run.pids, run.tmpfs_bytes),
        (2000, 2048, 256, 1024)
    );
}

#[test]
fn runs_get_the_values_they_ask_for() {
    let mut req = request("ws");
    req.timeout_seconds = 9;
    req.image = "mine".to_string();
    req.limits = Some(ResourceLimits { cpu_millis: 1, memory_bytes: 0, pids: 3, tmpfs_bytes: 0 });
    let run = standard().build_exec_params(req).unwrap();
    assert_eq!(run.timeout, Duration::from_secs(9));
    assert_eq!(run.image, "mine");
    assert_eq!(
        (run.cpu_millis, run.memory_bytes, run.pids, run.tmpfs_bytes),
        (1, 2048, 3, 1024)
    );
}

#[test]
fn callers_get_no_more_than_the_ceilings() {
    let capped = |limits: ResourceLimits| {
        let mut req = request("ws");
        req.limits = Some(limits);
        let run = standard().build_exec_params(req.clone()).unwrap();
        let of_tool = standard().build_tool_params(req, false).unwrap();
        let caps = (run.cpu_millis, run.memory_bytes, run.pids, run.tmpfs_bytes);
        let of_tool =
            (of_tool.cpu_millis, of_tool.memory_bytes, of_tool.pids, of_tool.tmpfs_bytes);
        assert_eq!(caps, of_tool);
        caps
    };
    let ceilings = (4000, 8 << 30, 512, 2 << 30);
    assert_eq!(ceilings, (MAX_CPU_MILLIS, MAX_MEMORY_BYTES, MAX_PIDS, MAX_TMPFS_BYTES));
    let most = ResourceLimits {
        cpu_millis: u32::MAX,
        memory_bytes: u64::MAX,
        pids: u32::MAX,
        tmpfs_bytes: u64::MAX,
    };
    assert_eq!(capped(most), ceilings);
    let above = ResourceLimits {
        cpu_millis: 4001,
        memory_bytes: (8 << 30) + 1,
        pids: 513,
        tmpfs_bytes: (2 << 30) + 1,
    };
    assert_eq!(capped(above), ceilings);
    let at = ResourceLimits {
        cpu_millis: 4000,
        memory_bytes: 8 << 30,
        pids: 512,
        tmpfs_bytes: 2 << 30,
    };
    assert_eq!(capped(at), ceilings);
    let below = ResourceLimits { cpu_millis: 3999, memory_bytes: 1, pids: 511, tmpfs_bytes: 1 };
    assert_eq!(capped(below), (3999, 1, 511, 1));
}

#[test]
fn heavy_runs_get_what_the_operator_set() {
    let mut s = standard();
    s.runtime.sandbox_cfg.heavy_cpu_millis = 16_000;
    s.runtime.sandbox_cfg.heavy_memory_bytes = 64 << 30;
    s.runtime.sandbox_cfg.heavy_pids = 0;
    let mut req = request("ws");
    req.limits = Some(ResourceLimits { cpu_millis: 1, memory_bytes: 1, pids: 1, tmpfs_bytes: 1 });
    let run = s.build_tool_params(req, true).unwrap();
    assert_eq!(
        (run.cpu_millis, run.memory_bytes, run.pids, run.tmpfs_bytes),
        (16_000, 64 << 30, 256, 4096)
    );
    assert_eq!(run.host_home_dir, "/srv/ws/ws/home");
    assert_eq!(run.timeout, Duration::from_secs(300));
    let run = s.build_tool_params(request("ws"), false).unwrap();
    assert_eq!(
        (run.cpu_millis, run.memory_bytes, run.pids, run.tmpfs_bytes),
        (2000, 2048, 256, 1024)
    );
    assert_eq!(s.build_tool_params(request(""), true).unwrap_err(), Error::InvalidWorkspaceId);
}

#[test]
fn without_a_limit_to_the_wait_the_queue_is_never_full() {
    let open = ConcurrencyConfig { max_concurrent_execs: 1, exec_queue_timeout_seconds: 0 };
    let s = service(&open);
    assert_eq!(s.exec_queue_timeout, None);
    assert_eq!(s.check_permit(PermitWait::Granted), Ok(()));
    assert_eq!(s.check_permit(PermitWait::Closed).unwrap_err().code, Code::Internal);
}

#[test]
fn runs_in_bad_workspaces_are_refused() {
    let e = standard().build_exec_params(request("../escape")).unwrap_err();
    assert_eq!(e, Error::InvalidWorkspaceId);
    assert_eq!(e.code(), Code::InvalidArgument);
}

#[test]
fn the_tenant_does_not_choose_the_directory() {
    let mut theirs = request("ws");
    theirs.tenant_id = "other".to_string();
    let s = standard();
    let a = s.build_exec_params(request("ws")).unwrap();
    let b = s.build_exec_params(theirs).unwrap();
    assert_eq!(a.host_home_dir, b.host_home_dir);
    let c = s.build_exec_params(request("ws2")).unwrap();
    assert_ne!(a.host_home_dir, c.host_home_dir);
}

#[test]
fn outcomes_become_answers() {
    let resp = SandboxService::exec_response(ExecOutcome {
        exit_code: 2,
        stdout: vec![1],
        stderr: vec![2],
        duration_ms: 3,
        timed_out: true,
    });
    assert_eq!((resp.exit_code, resp.duration_ms, resp.timed_out), (2, 3, true));
    assert_eq!((resp.stdout, resp.stderr), (vec![1], vec![2]));
    let resp = SandboxService::fetch_response(FetchOutcome {
        bytes_written: 5,
        content_type: "t".to_string(),
        http_status: 206,
    });
    assert_eq!((resp.bytes_written, resp.http_status), (5, 206));
    let resp = SandboxService::upload_response(
        UploadOutcome {
            key: "k".to_string(),
            size_bytes: 6,
            content_type: "t".to_string(),
            sha256_hex: "h".to_string(),
        },
        "b".to_string(),
    );
    assert_eq!((resp.object_key.as_str(), resp.basename.as_str(), resp.size_bytes), ("k", "b", 6));
    let health = SandboxService::health("1".to_string(), "2".to_string(), true, 4);
    assert_eq!(health.exec_permits_available, 4);
    assert!(health.docker_reachable);
}

#[test]
fn watched_runs_are_sent_event_by_event() {
    assert_eq!(
        SandboxService::exec_started("c".to_string()),
        ExecEvent::Started { container_id: "c".to_string() }
    );
    assert_eq!(
        SandboxService::exec_event(StreamEvent::Stdout(vec![1])),
        ExecEvent::Stdout { data: vec![1] }
    );
    assert_eq!(
        SandboxService::exec_event(StreamEvent::Stderr(vec![2])),
        ExecEvent::Stderr { data: vec![2] }
    );
    assert_eq!(
        SandboxService::exec_event(StreamEvent::Finished {
            exit_code: 1,
            timed_out: true,
            duration_ms: 9
        }),
        ExecEvent::Finished { exit_code: 1, duration_ms: 9, timed_out: true }
    );
}

#[test]
fn downloads_are_planned() {
    let plan = standard().plan_fetch("ws", "in/x.pdf", 0).unwrap();
    assert_eq!(plan.target, "/srv/ws/ws/home/in/x.pdf");
    assert_eq!(plan.timeout, Duration::from_secs(60));
    assert_eq!(standard().plan_fetch("ws", "x", 5).unwrap().timeout, Duration::from_secs(5));
    assert_eq!(
        standard().plan_fetch("ws", "../../x", 0).err(),
        Some(invalid("path escapes workspace root: ../../x"))
    );
    assert_eq!(
        standard().plan_fetch("", "x", 0).err(),
        Some(invalid("workspace_id is empty or invalid"))
    );
}

#[test]
fn uploads_are_planned() {
    let plan = SandboxService::plan_upload("/h/report.pdf", false, false, "");
    assert_eq!(
        plan.packing,
        Packing {
            form: PackingForm::AsIs,
            basename: "report.pdf".to_string(),
            content_type: "application/pdf".to_string()
        }
    );
    assert_eq!(plan.label, None);
    let packed = Packing {
        form: PackingForm::Archive,
        basename: "out.tar.gz".to_string(),
        content_type: "application/gzip".to_string(),
    };
    assert_eq!(SandboxService::plan_upload("/h/out", true, false, "").packing, packed);
    assert_eq!(SandboxService::plan_upload("/h/out", true, true, "").packing, packed);
    assert_eq!(
        SandboxService::plan_upload("/h/big.csv", false, true, "").packing,
        Packing {
            form: PackingForm::Gzip,
            basename: "big.csv.gz".to_string(),
            content_type: "application/gzip".to_string(),
        }
    );
    assert_eq!(SandboxService::plan_upload("/", false, true, "").packing.basename, "artifact.gz");
    assert_eq!(SandboxService::plan_upload("/", true, false, "").packing.basename, "workspace.tar.gz");
    assert_eq!(SandboxService::plan_upload("/", false, false, "").packing.basename, "artifact");
    assert_eq!(
        SandboxService::plan_upload("/h/out", true, false, "Q3").label,
        Some("Q3".to_string())
    );
}

#[test]
fn sources_have_to_be_named_and_found() {
    assert_eq!(find_source(&manager(), "", "x"), Err(invalid("workspace_id is required")));
    assert_eq!(
        find_source(&manager(), "a b", "x"),
        Err(invalid("workspace_id is empty or invalid"))
    );
    assert_eq!(find_source(&manager(), "ws", "x").unwrap(), "/srv/ws/ws/home/x");
    assert_eq!(check_found("x", PathFound::Directory), Ok(true));
    assert_eq!(check_found("x", PathFound::File), Ok(false));
    assert_eq!(
        check_found("x", PathFound::Missing),
        Err(status(Code::NotFound, "no such path: x"))
    );
    assert_eq!(
        check_found("x", PathFound::Failed("denied".to_string())),
        Err(status(Code::Internal, "io: denied"))
    );
}

#[test]
fn exports_go_as_asked_for() {
    let raw = plan_export("/h/a.txt", WorkspaceObjectEncoding::Raw, false).unwrap();
    assert_eq!((raw.form, raw.basename.as_str()), (PackingForm::AsIs, "a.txt"));
    let tar = plan_export("/h/dir", WorkspaceObjectEncoding::TarGz, true).unwrap();
    assert_eq!((tar.form, tar.basename.as_str()), (PackingForm::Archive, "dir.tar.gz"));
    assert_eq!(tar.content_type, "application/gzip");
    assert_eq!(
        plan_export("/h/dir", WorkspaceObjectEncoding::Raw, true),
        Err(invalid("export_workspace_object raw encoding expects a file"))
    );
    assert_eq!(
        plan_export("/h/a", WorkspaceObjectEncoding::TarGz, false),
        Err(invalid("export_workspace_object tar_gz encoding expects a directory"))
    );
    assert_eq!(
        plan_export("/h/a", WorkspaceObjectEncoding::Unspecified, false),
        Err(invalid("export_workspace_object encoding is required"))
    );
}

#[test]
fn exports_start_with_a_header() {
    let req = ExportWorkspaceObjectRequest {
        workspace_id: "ws".to_string(),
        source_path: "a.txt".to_string(),
        encoding: WorkspaceObjectEncoding::Raw,
    };
    let packing = plan_export("/h/a.txt", req.encoding, false).unwrap();
    let mut payload = RunningDigest::new();
    payload.absorb(b"a");
    payload.absorb(b"bc");
    assert_eq!(
        export_header(req, packing, payload),
        ExportMessage::Header(ExportHeader {
            source_path: "a.txt".to_string(),
            basename: "a.txt".to_string(),
            encoding: WorkspaceObjectEncoding::Raw,
            content_type: "text/plain; charset=utf-8".to_string(),
            size_bytes: 3,
            sha256_hex: sha256_hex(b"abc"),
        })
    );
    assert_eq!(export_chunk(vec![1, 2]), Some(ExportMessage::Chunk(vec![1, 2])));
    assert_eq!(export_chunk(vec![]), None);
    assert_eq!(WORKSPACE_TRANSFER_CHUNK_SIZE, 64 * 1024);
}

fn header(encoding: WorkspaceObjectEncoding, content_type: &str) -> ImportMessage {
    ImportMessage::Header(ImportHeader {
        workspace_id: "ws".to_string(),
        target_path: "in/x".to_string(),
        encoding,
        content_type: content_type.to_string(),
    })
}

#[test]
fn imports_start_with_a_header() {
    let start = |first| Import::start(&manager(), first);
    assert_eq!(start(None), Err(invalid("import_workspace_object requires a header")));
    assert_eq!(
        start(Some(ImportMessage::Chunk(vec![1]))),
        Err(invalid("import_workspace_object header must be the first message"))
    );
    assert_eq!(
        start(Some(ImportMessage::Empty)),
        Err(invalid("import_workspace_object first message is empty"))
    );
    let import = start(Some(header(WorkspaceObjectEncoding::Raw, ""))).unwrap();
    assert_eq!(import.workspace_id, "ws");
    assert_eq!(import.target, "/srv/ws/ws/home/in/x");
    assert_eq!(import.target_dir, "/srv/ws/ws/home/in");
    let bad = ImportMessage::Header(ImportHeader {
        workspace_id: "ws".to_string(),
        target_path: "/etc".to_string(),
        encoding: WorkspaceObjectEncoding::Raw,
        content_type: String::new(),
    });
    assert_eq!(start(Some(bad)), Err(invalid("path escapes workspace root: /etc")));
}

fn receiving(encoding: WorkspaceObjectEncoding, content_type: &str) -> Import {
    Import::start(&manager(), Some(header(encoding, content_type))).unwrap()
}

fn chunk(data: &[u8]) -> ImportEvent {
    ImportEvent::Message(ImportMessage::Chunk(data.to_vec()))
}

#[test]
fn imports_are_put_into_place_once_complete() {
    let mut import = receiving(WorkspaceObjectEncoding::Raw, "text/x");
    assert_eq!(import.step(chunk(&[1, 2])), ImportAction::Write(vec![1, 2]));
    assert_eq!(import.step(chunk(&[])), ImportAction::Write(vec![]));
    assert_eq!(import.step(chunk(&[3])), ImportAction::Write(vec![3]));
    assert_eq!(import.step(ImportEvent::Ended), ImportAction::Place(Placement::File));
    assert_eq!(import.phase, ImportPhase::Placing);
    match import.step(ImportEvent::Placed) {
        ImportAction::Answer(resp) => {
            assert_eq!((resp.bytes_written, resp.content_type.as_str()), (3, "text/x"));
        }
        other => panic!("{other:?}"),
    }
    assert_eq!(import.phase, ImportPhase::Over);
}

#[test]
fn imports_take_chunks_only() {
    let again = header(WorkspaceObjectEncoding::Raw, "");
    for (message, words) in [
        (again, "import_workspace_object header may only appear once"),
        (ImportMessage::Empty, "import_workspace_object received an empty message"),
    ] {
        let mut import = receiving(WorkspaceObjectEncoding::Raw, "");
        import.step(chunk(&[1]));
        assert_eq!(
            import.step(ImportEvent::Message(message)),
            ImportAction::Refuse(invalid(words))
        );
        assert_eq!(import.phase, ImportPhase::Over);
    }
}

#[test]
fn imports_report_their_type() {
    let report = |encoding, content_type: &str| {
        let mut import = receiving(encoding, content_type);
        let placed = import.step(ImportEvent::Ended);
        match import.step(ImportEvent::Placed) {
            ImportAction::Answer(resp) => (placed, resp.content_type),
            other => panic!("{other:?}"),
        }
    };
    assert_eq!(
        report(WorkspaceObjectEncoding::Raw, " \t"),
        (ImportAction::Place(Placement::File), "application/octet-stream".to_string())
    );
    assert_eq!(
        report(WorkspaceObjectEncoding::TarGz, "text/x"),
        (ImportAction::Place(Placement::Archive), "application/gzip".to_string())
    );
}

#[test]
fn imports_have_to_say_how_they_are_packed() {
    let mut import = receiving(WorkspaceObjectEncoding::Unspecified, "text/x");
    import.step(chunk(&[1]));
    assert_eq!(
        import.step(ImportEvent::Ended),
        ImportAction::DropAndRefuse(invalid("import_workspace_object encoding is required"))
    );
    assert_eq!(import.phase, ImportPhase::Over);
}

#[test]
fn counting_stops_at_the_largest_number() {
    let mut import = receiving(WorkspaceObjectEncoding::Raw, "");
    import.bytes_written = u64::MAX - 1;
    import.step(chunk(&[0; 5]));
    assert_eq!(import.bytes_written, u64::MAX);
}

#[test]
fn what_is_exported_can_be_imported() {
    let file: Vec<u8> = (0..=255u8).cycle().take(1000).collect();
    let mut import = receiving(WorkspaceObjectEncoding::Raw, "");
    let mut written = Vec::new();
    for read in file.chunks(64) {
        match export_chunk(read.to_vec()) {
            Some(ExportMessage::Chunk(data)) => match import.step(chunk(&data)) {
                ImportAction::Write(data) => written.extend(data),
                other => panic!("{other:?}"),
            },
            other => panic!("{other:?}"),
        }
    }
    assert_eq!(written, file);
    assert_eq!(import.bytes_written, 1000);
}

#[test]
fn what_is_imported_can_be_exported() {
    let file: Vec<u8> = (0..=255u8).cycle().take(1000).collect();
    let mut import = receiving(WorkspaceObjectEncoding::Raw, "");
    let mut written = Vec::new();
    for sent in file.chunks(77) {
        match import.step(chunk(sent)) {
            ImportAction::Write(data) => written.extend(data),
            other => panic!("{other:?}"),
        }
    }
    assert_eq!(import.step(ImportEvent::Ended), ImportAction::Place(Placement::File));
    let placed = match import.step(ImportEvent::Placed) {
        ImportAction::Answer(response) => response,
        other => panic!("{other:?}"),
    };

    let req = ExportWorkspaceObjectRequest {
        workspace_id: import.workspace_id.clone(),
        source_path: "in/x".to_string(),
        encoding: WorkspaceObjectEncoding::Raw,
    };
    let source = find_source(&manager(), &req.workspace_id, &req.source_path).unwrap();
    assert_eq!(source, import.target);
    let packing = plan_export(&source, req.encoding, false).unwrap();
    let mut payload = RunningDigest::new();
    let mut came_out = Vec::new();
    for read in written.chunks(64) {
        payload.absorb(read);
        match export_chunk(read.to_vec()) {
            Some(ExportMessage::Chunk(data)) => came_out.extend(data),
            other => panic!("{other:?}"),
        }
    }
    assert_eq!(came_out, file);
    match export_header(req, packing, payload) {
        ExportMessage::Header(header) => {
            assert_eq!(header.size_bytes, placed.bytes_written);
            assert_eq!(header.size_bytes, 1000);
            assert_eq!(header.sha256_hex, sha256_hex(&file));
            assert_eq!(header.basename, "x");
        }
        other => panic!("{other:?}"),
    }
}

#[test]
fn archive_entries_have_to_stay_inside() {
    for path in ["a", "a/b", "./a", "a/./b", "...", "a..b/c"] {
        assert_eq!(check_entry(path, EntryKind::Regular), Ok(()));
        assert_eq!(check_entry(path, EntryKind::Directory), Ok(()));
        assert_eq!(
            check_entry(path, EntryKind::Other),
            Err(other(&format!("unsupported archive entry type: {path}")))
        );
    }
    for path in ["/a", "..", "a/../b", "a/..", "../x"] {
        for kind in [EntryKind::Regular, EntryKind::Other] {
            assert_eq!(
                check_entry(path, kind),
                Err(other(&format!("archive entry escapes target directory: {path}")))
            );
        }
    }
}

fn top(handle: usize, is_dir: bool) -> TopEntry {
    TopEntry { handle, is_dir }
}

#[test]
fn a_single_directory_becomes_the_target() {
    assert_eq!(install_plan(&vec![top(7, true)]), Install::Rename(7));
}

#[test]
fn anything_else_is_moved_into_the_target() {
    assert_eq!(
        install_plan(&vec![top(4, true), top(2, false)]),
        Install::MoveInto(vec![4, 2])
    );
    assert_eq!(install_plan(&vec![top(0, false)]), Install::MoveInto(vec![0]));
    assert_eq!(install_plan(&vec![]), Install::MoveInto(vec![]));
}

#[test]
fn way_is_made_for_the_target() {
    assert_eq!(removal_of(PathFound::Directory), Ok(Removal::Tree));
    assert_eq!(removal_of(PathFound::File), Ok(Removal::File));
    assert_eq!(removal_of(PathFound::Missing), Ok(Removal::Nothing));
    assert_eq!(
        removal_of(PathFound::Failed("x".to_string())),
        Err(Error::Io("x".to_string()))
    );
}

fn entry(path: &str, kind: EntryKind) -> ExtractEvent {
    ExtractEvent::Entry { path: path.to_string(), kind }
}

#[test]
fn archives_replace_the_target() {
    let mut x = ExtractPhase::start();
    assert_eq!(x.step(entry("d", EntryKind::Directory)), ExtractAction::Unpack);
    assert_eq!(x.step(entry("d/f", EntryKind::Regular)), ExtractAction::Unpack);
    assert_eq!(x.step(ExtractEvent::Ended), ExtractAction::LookAtTarget);
    assert_eq!(
        x.step(ExtractEvent::Found(PathFound::Directory)),
        ExtractAction::ClearTarget(Removal::Tree)
    );
    assert_eq!(
        x.step(ExtractEvent::Cleared(vec![top(0, true)])),
        ExtractAction::Place(Install::Rename(0))
    );
    assert_eq!(x, ExtractPhase::Over);
}

#[test]
fn a_packed_directory_becomes_the_target() {
    for source in ["/h/out", "/h/my dir/", "/", "/h/.."] {
        let name = name_in_archive(source, true);
        let mut phase = ExtractPhase::start();
        for rel in ["", "a.txt", "sub", "sub/b.txt", "sub//c", "..d/.e"] {
            let path = join_path(&name, rel);
            let kind = if rel.contains('.') { EntryKind::Regular } else { EntryKind::Directory };
            assert_eq!(phase.step(entry(&path, kind)), ExtractAction::Unpack, "{path}");
            assert_eq!(components_of(&path)[0], name);
        }
        assert_eq!(phase.step(ExtractEvent::Ended), ExtractAction::LookAtTarget);
        assert_eq!(
            phase.step(ExtractEvent::Found(PathFound::Missing)),
            ExtractAction::ClearTarget(Removal::Nothing)
        );
        assert_eq!(
            phase.step(ExtractEvent::Cleared(vec![top(7, true)])),
            ExtractAction::Place(Install::Rename(7))
        );
    }
}

#[test]
fn archives_with_a_bad_entry_leave_the_target() {
    let mut x = ExtractPhase::start();
    x.step(entry("d", EntryKind::Directory));
    assert_eq!(
        x.step(entry("../f", EntryKind::Regular)),
        ExtractAction::Fail(other("archive entry escapes target directory: ../f"))
    );
    assert_eq!(x, ExtractPhase::Over);
    let mut x = ExtractPhase::start();
    x.step(ExtractEvent::Ended);
    assert_eq!(
        x.step(ExtractEvent::Found(PathFound::Failed("no".to_string()))),
        ExtractAction::Fail(Error::Io("no".to_string()))
    );
}

#[test]
fn transfers_are_kept_beside_their_target() {
    assert_eq!(
        staging_path_at("/h/in/x", "import", 0xab),
        "/h/in/.scriptorium-import-ab.tmp"
    );
    assert_eq!(staging_path_at("x", "expand", 1), ".scriptorium-expand-1.tmp");
    assert_eq!(staging_path_at("/", "import", 1), "./.scriptorium-import-1.tmp");
    let now = build_workspace_transfer_temp_path("/h/x", "import");
    assert!(now.starts_with("/h/.scriptorium-import-") && now.ends_with(".tmp"), "{now}");
    assert_eq!(parent_dir("/h/x"), "/h");
    assert_eq!(parent_dir("/"), ".");
}

#[test]
fn archives_are_named_after_their_contents() {
    assert_eq!(archive_file_name_at("d.tar.gz", 255), "scriptorium-ff-d.tar.gz");
    let now = temp_archive_name("d.tar.gz");
    assert!(now.starts_with("scriptorium-") && now.ends_with("-d.tar.gz"), "{now}");
    assert_eq!(name_in_archive("/h/d", true), "d");
    assert_eq!(name_in_archive("/", true), "workspace");
    assert_eq!(name_in_archive("/", false), "file");
    assert_eq!(base_name_or("a/b", "z"), "b");
    assert_eq!(base_name_or("a/..", "z"), "z");
}

fn found(path: &str, handle: usize, is_dir: bool, modified: Option<SystemTime>) -> DirEntry {
    let path = path.to_string();
    DirEntry { path, handle, is_dir, size_bytes: 5, mode: 0o100_644, modified }
}

#[test]
fn listings_walk_through_directories() {
    let mut walk = Walk::new("/h", 0, true);
    assert_eq!(walk.next_dir(), Some(0));
    walk.found(found("/h/a.txt", 1, false, Some(UNIX_EPOCH + Duration::from_millis(3999))));
    walk.found(found("/h/d", 2, true, None));
    walk.found(found("/h/e", 3, true, Some(UNIX_EPOCH - Duration::from_secs(3))));
    assert_eq!(walk.next_dir(), Some(3));
    assert_eq!(walk.next_dir(), Some(2));
    walk.found(found("/h/d/b.txt", 4, false, None));
    assert_eq!(walk.next_dir(), None);
    let files = walk.finish();
    let paths: Vec<&str> = files.iter().map(|f| f.path.as_str()).collect();
    assert_eq!(paths, ["a.txt", "d", "e", "d/b.txt"]);
    let times: Vec<i64> = files.iter().map(|f| f.modified_unix).collect();
    assert_eq!(times, [3, 0, 0, 0]);
    assert!(files.iter().all(|f| f.mode == 0o644 && f.size_bytes == 5));
    assert!(files[1].is_dir && !files[0].is_dir);
}

#[test]
fn flat_listings_stay_in_one_directory() {
    let mut walk = Walk::new("/h", 9, false);
    assert_eq!(walk.next_dir(), Some(9));
    walk.found(found("/h/sub/d", 1, true, None));
    assert_eq!(walk.next_dir(), None);
    assert_eq!(walk.finish()[0].path, "sub/d");
}

#[test]
fn listings_start_where_asked() {
    let s = standard();
    assert_eq!(s.plan_listing("ws", "d").unwrap(), "/srv/ws/ws/home/d");
    assert_eq!(
        s.plan_listing("ws", "../.."),
        Err(invalid("path escapes workspace root: ../.."))
    );
    assert_eq!(s.start_listing("ws", 0, true, PathFound::Missing), Ok(None));
    assert_eq!(
        s.start_listing("ws", 0, true, PathFound::Failed("e".to_string())),
        Err(status(Code::Internal, "io: e"))
    );
    assert_eq!(
        s.start_listing("ws", 5, true, PathFound::Directory),
        Ok(Some(Walk::new("/srv/ws/ws/home", 5, true)))
    );
}
