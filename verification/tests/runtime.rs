use std::time::Duration;

use scriptorium::config::{DockerConfig, SandboxConfig};
use scriptorium::runtime::{
    container_name, container_name_at, Collected, ContainerCleanupGuard, DaemonVersion,
    DockerRuntime, ExecParams, Exit, Output, Run, RunEvent, StreamEvent, WatchedRun,
};

fn sandbox() -> SandboxConfig {
    SandboxConfig {
        default_image: "image:1".to_string(),
        default_timeout_seconds: 300,
        default_cpu_millis: 2000,
        default_memory_bytes: 2048,
        default_pids: 256,
        default_tmpfs_bytes: 1024,
        heavy_cpu_millis: 4000,
        heavy_memory_bytes: 8192,
        heavy_pids: 512,
        heavy_tmpfs_bytes: 4096,
        agent_uid: 1000,
        agent_gid: 1001,
        workspace_mount: "/home/agent".to_string(),
    }
}

fn runtime() -> DockerRuntime {
    DockerRuntime::new(
        DockerConfig { socket: "/var/run/docker.sock".to_string(), control_timeout_seconds: 60 },
        sandbox(),
    )
}

fn params() -> ExecParams {
    ExecParams {
        workspace_id: "ws".to_string(),
        tenant_id: "acme".to_string(),
        command: "echo hi".to_string(),
        timeout: Duration::from_secs(5),
        env: vec![
            ("A".to_string(), "1".to_string()),
            ("B".to_string(), "x=y".to_string()),
        ],
        image: "image:2".to_string(),
        host_home_dir: "/srv/ws/home".to_string(),
        cpu_millis: 1500,
        memory_bytes: 1 << 30,
        pids: 64,
        tmpfs_bytes: 65536,
    }
}

#[test]
fn containers_are_confined() {
    let spec = runtime().container_spec(&params());
    assert_eq!(spec.image, "image:2");
    assert_eq!(spec.user, "1000:1001");
    assert_eq!(spec.working_dir, "/home/agent");
    assert_eq!(spec.cmd, ["bash", "-lc", "echo hi"]);
    assert_eq!(spec.env, ["A=1", "B=x=y"]);
    assert_eq!(spec.binds, ["/srv/ws/home:/home/agent"]);
    assert_eq!(spec.tmpfs, [("/tmp".to_string(), "rw,size=65536".to_string())]);
    assert_eq!(spec.memory, 1 << 30);
    assert_eq!(spec.nano_cpus, 1_500_000_000);
    assert_eq!(spec.pids_limit, 64);
    assert_eq!(spec.network_mode, "bridge");
    assert!(spec.readonly_rootfs);
    assert!(spec.auto_remove);
    assert!(spec.attach_stdout && spec.attach_stderr && !spec.tty);
}

#[test]
fn memory_that_does_not_fit_is_clamped() {
    let mut req = params();
    req.memory_bytes = u64::MAX;
    req.cpu_millis = u32::MAX;
    let spec = runtime().container_spec(&req);
    assert_eq!(spec.memory, i64::MAX);
    assert_eq!(spec.nano_cpus, i64::from(u32::MAX) * 1_000_000);
}

#[test]
fn copies_of_params_are_the_same() {
    let req = params();
    let copy = req.clone();
    assert_eq!(format!("{req:?}"), format!("{copy:?}"));
}

#[test]
fn container_names_tell_workspace_and_moment() {
    assert_eq!(container_name_at("ws", 0xabc), "scriptorium-ws-abc");
    assert_eq!(container_name_at("ws", 0), "scriptorium-ws-0");
    assert_ne!(container_name_at("a-b", 1), container_name_at("a", 0xb1));
    let now = container_name("ws");
    assert!(now.starts_with("scriptorium-ws-"), "{now}");
    assert!(now.len() > "scriptorium-ws-".len() + 10, "{now}");
}

#[test]
fn versions_are_put_in_words() {
    let known = |v: Option<&str>, a: Option<&str>| DaemonVersion::Known {
        version: v.map(str::to_string),
        api_version: a.map(str::to_string),
    };
    assert_eq!(DockerRuntime::version_string(known(Some("28.1"), Some("1.49"))), "28.1 (1.49)");
    assert_eq!(DockerRuntime::version_string(known(None, None)), " ()");
    assert_eq!(
        DockerRuntime::version_string(DaemonVersion::Unavailable("gone".to_string())),
        "unavailable: gone"
    );
    assert_eq!(runtime().sandbox_cfg().agent_uid, 1000);
}

fn out(data: &[u8]) -> RunEvent {
    RunEvent::Output(Output::Stdout(data.to_vec()))
}

fn err(data: &[u8]) -> RunEvent {
    RunEvent::Output(Output::Stderr(data.to_vec()))
}

fn watch(events: Vec<RunEvent>) -> Vec<StreamEvent> {
    let mut run = Run::start();
    let mut tale = Vec::new();
    for event in events {
        assert!(run.running());
        tale.extend(run.step(event));
    }
    assert!(!run.running());
    tale.push(run.finish(7));
    tale
}

#[test]
fn watching_tells_output_and_then_the_end() {
    let tale = watch(vec![
        out(b"a"),
        RunEvent::Output(Output::Unknown),
        err(b"b"),
        RunEvent::Exit(Exit::Code(42)),
        out(b"c"),
        RunEvent::Output(Output::Ended),
    ]);
    assert_eq!(
        tale,
        [
            StreamEvent::Stdout(b"a".to_vec()),
            StreamEvent::Stderr(b"b".to_vec()),
            StreamEvent::Stdout(b"c".to_vec()),
            StreamEvent::Finished { exit_code: 42, timed_out: false, duration_ms: 7 },
        ]
    );
}

#[test]
fn a_run_that_is_cut_off_reports_minus_one() {
    let tale = watch(vec![out(b"a"), RunEvent::Exit(Exit::Code(0)), RunEvent::Deadline]);
    assert_eq!(
        tale.last(),
        Some(&StreamEvent::Finished { exit_code: -1, timed_out: true, duration_ms: 7 })
    );
    let mut run = Run::start();
    assert!(!run.needs_kill());
    run.step(RunEvent::Deadline);
    assert!(run.needs_kill());
}

#[test]
fn a_run_whose_end_is_not_known_reports_minus_one() {
    for exit in [Exit::Unknown, Exit::Code(i64::MAX)] {
        let tale = watch(vec![RunEvent::Output(Output::Failed), RunEvent::Exit(exit)]);
        assert_eq!(
            tale,
            [StreamEvent::Finished { exit_code: -1, timed_out: false, duration_ms: 7 }]
        );
    }
}

#[test]
fn nothing_is_asked_for_twice() {
    let mut run = Run::start();
    assert!(run.wants_output() && run.wants_exit());
    run.step(RunEvent::Exit(Exit::Code(1)));
    assert!(run.wants_output() && !run.wants_exit());
    run.step(RunEvent::Output(Output::Ended));
    assert!(!run.wants_output() && !run.wants_exit() && !run.running());
    assert_eq!(run.reported_code(), 1);
}

#[test]
fn collected_output_is_what_was_told() {
    let events = vec![
        out(b"he"),
        err(b"oops"),
        out(b"llo"),
        RunEvent::Output(Output::Ended),
        RunEvent::Exit(Exit::Code(3)),
    ];
    let mut collected = Collected::start();
    for event in events.clone() {
        collected.step(event);
    }
    let outcome = collected.finish(u128::MAX);
    assert_eq!(outcome.stdout, b"hello");
    assert_eq!(outcome.stderr, b"oops");
    assert_eq!(outcome.exit_code, 3);
    assert!(!outcome.timed_out);
    assert_eq!(outcome.duration_ms, u64::MAX);
    let told: Vec<u8> = watch(events)
        .into_iter()
        .flat_map(|e| match e {
            StreamEvent::Stdout(data) => data,
            _ => vec![],
        })
        .collect();
    assert_eq!(told, outcome.stdout);
}

#[test]
fn output_before_the_deadline_is_kept() {
    let mut collected = Collected::start();
    collected.step(out(b"partial"));
    collected.step(RunEvent::Deadline);
    let outcome = collected.finish(1000);
    assert_eq!(outcome.stdout, b"partial");
    assert_eq!((outcome.exit_code, outcome.timed_out, outcome.duration_ms), (-1, true, 1000));
}

#[test]
fn abandoned_containers_are_due_for_removal() {
    let mut guard = ContainerCleanupGuard::new("c1".to_string());
    assert_eq!(guard.due(), Some("c1"));
    guard.disarm();
    assert_eq!(guard.due(), None);
}

#[test]
fn a_watched_run_is_due_for_removal_until_it_is_concluded() {
    let mut watched = WatchedRun::start("c2".to_string());
    assert_eq!(watched.step(out(b"x")), Some(StreamEvent::Stdout(b"x".to_vec())));
    assert_eq!(watched.guard.due(), Some("c2"));
    watched.step(RunEvent::Exit(Exit::Code(0)));
    watched.step(RunEvent::Output(Output::Ended));
    assert_eq!(watched.guard.due(), Some("c2"));
    assert!(!watched.conclude());
    assert_eq!(watched.guard.due(), None);
    assert_eq!(
        watched.finish(3),
        StreamEvent::Finished { exit_code: 0, timed_out: false, duration_ms: 3 }
    );
    let mut cut_off = WatchedRun::start("c3".to_string());
    cut_off.step(RunEvent::Deadline);
    assert!(cut_off.conclude());
}
