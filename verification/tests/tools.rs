use scriptorium::error::Code;
use scriptorium::messages::{CallToolRequest, ExecResponse, UploadResponse};
use scriptorium::tools::{
    bad_arguments, deliver_result, descriptors, route, shell_request, shell_result, tool_answer,
    ExecuteShellArgs, ToolRoute, COPY_EXECUTION_SANDBOX_TO_WORKSPACE_SANDBOX_SCHEMA,
    COPY_WORKSPACE_SANDBOX_TO_EXECUTION_SANDBOX_SCHEMA, DELIVER_SCHEMA, EXECUTE_SHELL_SCHEMA,
    TOOL_COPY_EXECUTION_SANDBOX_TO_WORKSPACE_SANDBOX,
    TOOL_COPY_WORKSPACE_SANDBOX_TO_EXECUTION_SANDBOX, TOOL_DELIVER, TOOL_EXECUTE_SHELL,
};

#[test]
fn all_schemas_are_valid_json() {
    for s in [
        EXECUTE_SHELL_SCHEMA,
        DELIVER_SCHEMA,
        COPY_WORKSPACE_SANDBOX_TO_EXECUTION_SANDBOX_SCHEMA,
        COPY_EXECUTION_SANDBOX_TO_WORKSPACE_SANDBOX_SCHEMA,
    ] {
        serde_json::from_str::<serde_json::Value>(s)
            .unwrap_or_else(|e| panic!("invalid schema: {e}\n{s}"));
    }
}

#[test]
fn descriptors_list_four_tools() {
    let d = descriptors();
    assert_eq!(d.len(), 4);
    let names: Vec<_> = d.iter().map(|t| t.name.as_str()).collect();
    assert!(names.contains(&TOOL_EXECUTE_SHELL));
    assert!(names.contains(&TOOL_DELIVER));
    assert!(names.contains(&TOOL_COPY_WORKSPACE_SANDBOX_TO_EXECUTION_SANDBOX));
    assert!(names.contains(&TOOL_COPY_EXECUTION_SANDBOX_TO_WORKSPACE_SANDBOX));
}

#[test]
fn descriptions_mention_critical_constraints() {
    let d = descriptors();
    let by_name = |n: &str| {
        d.iter()
            .find(|t| t.name == n)
            .expect("descriptor missing")
            .description
            .clone()
    };

    let shell = by_name(TOOL_EXECUTE_SHELL);
    assert!(
        shell.contains("read-only") || shell.contains("READ-ONLY"),
        "exec must flag read-only rootfs"
    );
    assert!(
        shell.contains("uv run --with"),
        "exec must point at uv for extra Python deps (pip is not installed)"
    );
    assert!(
        !shell.contains("pip install --user"),
        "exec must not advertise `pip install --user` — pip is not installed in the image"
    );
    assert!(
        shell.contains("UID 1000") || shell.contains("Non-root"),
        "exec must flag non-root"
    );
    assert!(
        shell.contains("workspace_path"),
        "exec must mention host-side spill handling"
    );

    let deliver = by_name(TOOL_DELIVER);
    assert!(
        deliver.contains("PERMANENT") || deliver.contains("does not expire"),
        "deliver must flag URL persistence"
    );
    assert!(
        deliver.contains("ONLY"),
        "deliver must tell LLM which field to paste"
    );

    let push = by_name(TOOL_COPY_WORKSPACE_SANDBOX_TO_EXECUTION_SANDBOX);
    assert!(
        push.contains("sandbox/..."),
        "workspace->execution bridge must constrain source_path"
    );

    let pull = by_name(TOOL_COPY_EXECUTION_SANDBOX_TO_WORKSPACE_SANDBOX);
    assert!(
        pull.contains("source_kind"),
        "execution->workspace bridge must explain source_kind"
    );
}

#[test]
fn offered_schemas_are_the_published_ones() {
    let schemas: Vec<String> = descriptors().into_iter().map(|d| d.parameters_schema).collect();
    assert_eq!(
        schemas,
        [
            EXECUTE_SHELL_SCHEMA,
            DELIVER_SCHEMA,
            COPY_WORKSPACE_SANDBOX_TO_EXECUTION_SANDBOX_SCHEMA,
            COPY_EXECUTION_SANDBOX_TO_WORKSPACE_SANDBOX_SCHEMA,
        ]
    );
}

fn call(tool: &str, args: &str) -> CallToolRequest {
    CallToolRequest {
        workspace_id: "ws".to_string(),
        tenant_id: "acme".to_string(),
        tool_name: tool.to_string(),
        arguments_json: args.to_string(),
        timeout_seconds: 0,
    }
}

#[test]
fn every_offered_tool_is_known() {
    for d in descriptors() {
        match route(&call(&d.name, "")) {
            ToolRoute::Answer(a) => assert!(!a.error_message.contains("unknown tool")),
            _ => {}
        }
    }
}

#[test]
fn commands_and_deliveries_are_routed() {
    assert_eq!(
        route(&call("execute_shell", "{\"command\":\"ls\"}")),
        ToolRoute::ExecuteShell { args_json: "{\"command\":\"ls\"}".to_string() }
    );
    for nothing in ["", "  ", "\n\t", "\u{3000}"] {
        assert_eq!(
            route(&call("deliver", nothing)),
            ToolRoute::Deliver { args_json: "{}".to_string() }
        );
    }
}

#[test]
fn unknown_tools_are_answered_with_an_error() {
    for tool in ["does_not_exist", "fetch", "", "Deliver"] {
        match route(&call(tool, "{}")) {
            ToolRoute::Answer(a) => {
                assert!(a.is_error);
                assert_eq!(a.result_json, "");
                assert_eq!(a.error_message, format!("unknown tool: {tool}"));
            }
            other => panic!("{other:?}"),
        }
    }
}

#[test]
fn exchange_tools_are_left_to_the_host_bridge() {
    for tool in [
        "copy_workspace_sandbox_to_execution_sandbox",
        "copy_execution_sandbox_to_workspace_sandbox",
    ] {
        match route(&call(tool, "{}")) {
            ToolRoute::Answer(a) => {
                assert!(a.is_error);
                assert_eq!(
                    a.error_message,
                    format!(
                        "tool {tool} is implemented by the host bridge, not inside scriptorium; \
                         route it through the host's sandbox tool layer"
                    )
                );
            }
            other => panic!("{other:?}"),
        }
    }
}

fn shell_args(timeout_seconds: u32) -> ExecuteShellArgs {
    ExecuteShellArgs {
        command: "echo ok".to_string(),
        timeout_seconds,
        env: vec![("K".to_string(), "v".to_string())],
    }
}

#[test]
fn shell_calls_become_runs() {
    let mut req = call("execute_shell", "");
    let run = shell_request(&req, shell_args(7));
    assert_eq!(run.workspace_id, "ws");
    assert_eq!(run.tenant_id, "acme");
    assert_eq!(run.command, "echo ok");
    assert_eq!(run.timeout_seconds, 7);
    assert_eq!(run.env, [("K".to_string(), "v".to_string())]);
    assert_eq!(run.image, "");
    assert_eq!(run.limits, None);
    req.timeout_seconds = 9;
    assert_eq!(shell_request(&req, shell_args(7)).timeout_seconds, 9);
}

#[test]
fn shell_results_are_text() {
    let resp = ExecResponse {
        exit_code: 3,
        stdout: "grün\n".as_bytes().to_vec(),
        stderr: vec![b'a', 0xff, b'b'],
        duration_ms: 12,
        timed_out: false,
    };
    let result = shell_result(&resp);
    assert_eq!(result.exit_code, 3);
    assert_eq!(result.stdout, "grün\n");
    assert_eq!(result.stderr, "a\u{fffd}b");
    assert_eq!(result.duration_ms, 12);
    assert!(!result.timed_out);
}

#[test]
fn deliveries_report_the_upload() {
    let result = deliver_result(UploadResponse {
        object_key: "k".to_string(),
        size_bytes: 4,
        content_type: "t".to_string(),
        sha256_hex: "h".to_string(),
        basename: "b".to_string(),
    });
    assert_eq!(
        (result.object_key.as_str(), result.basename.as_str(), result.size_bytes),
        ("k", "b", 4)
    );
    assert_eq!((result.content_type.as_str(), result.sha256_hex.as_str()), ("t", "h"));
}

#[test]
fn answers_carry_the_result() {
    let ok = tool_answer(Ok("{\"a\":1}".to_string())).unwrap();
    assert_eq!(ok.result_json, "{\"a\":1}");
    assert!(!ok.is_error);
    assert_eq!(ok.error_message, "");
    let err = tool_answer(Err("deep".to_string())).unwrap_err();
    assert_eq!((err.code, err.message.as_str()), (Code::Internal, "encode result: deep"));
    let err = bad_arguments("deliver", "missing field");
    assert_eq!(
        (err.code, err.message.as_str()),
        (Code::InvalidArgument, "deliver args: missing field")
    );
}
