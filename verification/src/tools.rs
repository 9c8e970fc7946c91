//! The tools that language models are offered, and how calls of them are
//! answered.
//!
//! A model knows of a tool what its description says and nothing else, so each
//! description spells out what the tool can do and what it cannot.
use vstd::prelude::*;
use vstd::utf8::{decode_utf8_encode_utf8, decode_utf8, encode_utf8, valid_utf8};

use crate::digest::{lossy_text, text_of_output};
use crate::error::{Code, Status, StatusView};
use crate::messages::{
    CallToolRequest, CallToolResponse, ExecRequest, ExecResponse, ToolDescriptor,
    UploadResponse,
};
use crate::text::{blank, is_blank, join2, join3, same_text};

verus! {

/// Runs a shell command.
pub const TOOL_EXECUTE_SHELL: &'static str = "execute_shell";

/// Hands a file or directory to the user.
pub const TOOL_DELIVER: &'static str = "deliver";

/// Copies into the execution sandbox; the host does that.
pub const TOOL_COPY_WORKSPACE_SANDBOX_TO_EXECUTION_SANDBOX: &'static str =
    "copy_workspace_sandbox_to_execution_sandbox";

/// Copies out of the execution sandbox; the host does that.
pub const TOOL_COPY_EXECUTION_SANDBOX_TO_WORKSPACE_SANDBOX: &'static str =
    "copy_execution_sandbox_to_workspace_sandbox";

/// What a model is told of `execute_shell`.
pub const EXECUTE_SHELL_DESCRIPTION: &'static str = "\
Run a shell command inside an isolated, ephemeral sandbox container. \
Stdout, stderr, and exit code are returned synchronously. Use this for \
scripting, data processing, web scraping, browser automation, media \
conversion, or any shell work.

Environment
───────────
- Debian 13, UTF-8 + zh_CN.UTF-8 locales, Asia/Shanghai tz, Noto CJK + \
color-emoji fonts.
- Non-root user `agent` (UID 1000). cwd is $HOME = /home/agent.
- Root filesystem is READ-ONLY; only $HOME (persistent across calls in \
this session) and /tmp (tmpfs, 2 GiB, per-call ephemeral) are writable.
- Outbound network is open; there is no inbound connectivity.
- Resource caps: 4 vCPU, 8 GiB RAM, 512 PIDs, 5-minute wall-clock \
default (override via `timeout_seconds`).

Pre-installed tools
───────────────────
- Python 3.13 — pandas, numpy, matplotlib, pillow, requests, httpx, \
beautifulsoup4, lxml, openpyxl, weasyprint, playwright, jinja2, pyyaml, \
tiktoken.
- `uv` / `uvx` (Astral) — the ONLY Python package manager on this image. \
`pip` is intentionally NOT installed; every Python install path below \
goes through `uv`. uv's cache at $HOME/.cache/uv persists for the whole \
session, so re-running the same `uv run --with <pkg>` is near-instant \
after the first install.
- Node 24 LTS — puppeteer-core, sharp. Globally installed under \
`/usr/lib/node_modules` and exposed via `NODE_PATH`, so ad-hoc \
`node script.js` with `require('sharp')` / `require('puppeteer-core')` \
works without a local `npm install`.
- Browsers: ONLY headless Chromium is preinstalled (via Playwright, \
cached at `/opt/ms-playwright`). Do NOT attempt `playwright install \
firefox`/`webkit` or `puppeteer`-style browser downloads — the cache \
path is root-owned and the installer will fail.
- Media — ffmpeg, imagemagick (`convert`), exiftool.
- CLI — bash, curl, wget, jq, git, unzip, zip, openssh-client, tree, \
ripgrep (`rg`), fd, openssl, gnupg.
- Data / media utilities — `yt-dlp` (resilient video/audio downloader \
covering YouTube, Bilibili, Douyin/TikTok, Xiaohongshu, and most \
streaming sites; prefer over hand-rolled scraping), `duckdb` (SQL CLI \
for ad-hoc querying of CSV / Parquet / JSON — `duckdb -c \"SELECT ... \
FROM read_csv_auto('file.csv')\"`).
- Bundled doc indexes under `/opt/docs/` (all llms.txt-format — a \
markdown bullet list of doc URLs; grep for the endpoint, then \
`curl -fsSL <matched url>` to fetch the full page). Prefer these over \
web-searching — they are faster, quieter, and already curated:
  - `/opt/docs/feishu-apifox-index.md` — Feishu / Lark: messaging, \
    docs, bitable, sheets, calendar, approvals, workspace events, …
  - `/opt/docs/dingtalk-apifox-index.md` — DingTalk: enterprise IM, \
    mini-program, workbench, contacts, OA suite.
  - `/opt/docs/douyin-apifox-index.md` — Douyin / TikTok (CN): auth, \
    video, commerce, live.
  - `/opt/docs/bilibili-apifox-index.md` — Bilibili creator + webhook \
    endpoints.
  - `/opt/docs/xiaohongshu-apifox-index.md` — Xiaohongshu (小红书): \
    brand / marketing integrations.
  - `/opt/docs/kuaishou-apifox-index.md` — Kuaishou short-video \
    ecosystem.
  Example: `rg -i 'bitable\\|多维表格' /opt/docs/feishu-apifox-index.md \
  | head` → pick the URL → `curl -fsSL <url>` → write the integration.
- `build-essential` (gcc, g++, make) is present so uv can compile \
C-extension wheels on the fly.
- Prefer `rg` over `grep -r` and `fd` over `find`: they are an order of \
magnitude faster and respect sensible ignore rules by default.

Installing extra Python packages (uv-only)
──────────────────────────────────────────
There is no `pip` on PATH. `python3 -m pip` will also fail. Use uv for \
everything Python-package-shaped:

- Ephemeral, one-shot scripts (the default — use this unless you have a \
reason not to): `uv run --with <pkg> --with <pkg2> python script.py`, \
or for inline code `uv run --with <pkg> python - <<'PY' ... PY`. uv \
creates / reuses a cached env under $HOME/.cache/uv; the second \
invocation with the same package set is effectively free.
- Persistent across calls this session: create a venv once with `uv \
venv $HOME/.venv --system-site-packages` (the flag lets the venv see \
the baseline packages like pandas / playwright), then `uv pip install \
--python $HOME/.venv/bin/python <pkg>`. Run scripts with \
`$HOME/.venv/bin/python script.py`, or `source \
$HOME/.venv/bin/activate` inside a single `execute_shell` command.
- Project-scoped with a lockfile: `cd $HOME/<proj> && uv init && uv \
add <pkg>` — pyproject.toml + uv.lock + .venv/ all live in $HOME and \
survive for the rest of the session.

If you see a README that tells you to `pip install foo`, mentally \
translate it to `uv pip install --python $HOME/.venv/bin/python foo` \
(after creating that venv) or `uv run --with foo python ...`.

Installing extra Node packages
──────────────────────────────
`npm install --prefix $HOME/.local <pkg>` for persistent installs. \
Globally-installed packages (puppeteer-core, sharp) already resolve via \
NODE_PATH — no re-install needed.

Composing commands
──────────────────
- INDEPENDENT shell tasks (no ordering / data dependency) should be \
issued as SEPARATE parallel tool calls in a single turn, not fused \
into one chained command.
- DEPENDENT commands must be chained with `&&` inside ONE call so a \
failure short-circuits — e.g. `mkdir -p $HOME/out && python3 \
render.py > $HOME/out/report.md`.
- Use `;` only when you explicitly want the next command to run even \
if the previous one failed.
- Do NOT use bare newlines to separate commands in the `command` \
argument; chain with `&&` / `;`, or pass a heredoc to `bash -c`.
- Quote paths containing spaces, CJK characters, or other special \
characters with double quotes, e.g. `cat \"$HOME/inputs/年度报告.pdf\"`.
- Each call starts a fresh shell at $HOME. `cd` only affects THAT \
call's cwd; it never persists to the next call — use absolute paths \
across calls.

State persistence
─────────────────
$HOME contents survive between `execute_shell` calls within the SAME \
chat session — uv's ephemeral-env cache ($HOME/.cache/uv), any venv you \
create under $HOME (e.g. $HOME/.venv or $HOME/<proj>/.venv), \
user-installed npm packages under $HOME/.local, Playwright cookies, \
intermediate files, and ad-hoc scripts all stick. BEFORE installing or \
downloading, check what is already there so you do not repeat work: \
`ls $HOME/inputs $HOME/outputs 2>/dev/null`, `which <cli>`, or `python3 \
-c 'import <pkg>'` first. When the session ends the workspace is \
eventually garbage-collected.

Polling, waiting, and long output
─────────────────────────────────
- Do NOT `sleep` between commands that can run immediately — just run \
them.
- When polling an external process, use a check command (e.g. `gh run \
view`, `curl -fsS <url>/status`, a short `until ... ; do sleep 2; done` \
with a bounded counter) rather than a long blind `sleep`.
- If a command is likely to produce a lot of output, redirect it to a \
file under `$HOME/outputs/...` first and then print only a small slice \
(`head`, `tail`, `jq`) so the tool response stays compact — this also \
avoids triggering large-output spill (see below).

What you CANNOT do
──────────────────
- `apt install` / `apt-get` / `dpkg` (root FS is read-only and you are \
not root).
- Write outside $HOME or /tmp.
- Escalate to root, open raw sockets, mount filesystems.

Bringing inputs in / handing outputs out
────────────────────────────────────────
- Inputs: download them inside the command itself (`curl`, `wget`, \
Python `requests`, Node `fetch`) or work on files already present in \
$HOME.
- Outputs the user should see: hand them to the `deliver` tool \
($HOME → object storage → PERMANENT URL). NEVER paste raw in-sandbox \
paths (like `$HOME/outputs/foo.pdf`) to the user — they cannot reach \
that path; only the delivered URL is user-visible.

Large output handling
─────────────────────
Some hosts may spill oversized stdout/stderr into a host-side workspace \
file under `sandbox/...` instead of inlining the entire streams. In \
that case the result contains `output_mode=\"workspace_spill\"`, \
`workspace_path`, `char_count`, `line_count`, `preview`, and `message` \
instead of full stdout/stderr. Use the host's normal workspace \
read/search tools on `workspace_path` to inspect the full spill. To \
avoid hitting spill at all, write large output to a file under \
`$HOME/outputs/...` yourself and only print a small summary.";

/// What a model is told of `deliver`.
pub const DELIVER_DESCRIPTION: &'static str = "\
Package a file or directory produced in the sandbox, upload it to \
durable object storage, and return a PERMANENT public URL you can paste \
to the end user in your chat response. The URL does not expire — each \
access transparently re-signs a short-lived presign under the hood, so \
the user can revisit it days or weeks later.

Behavior
────────
- File, compress=false (default): uploaded as-is with a MIME type \
inferred from the file extension.
- File, compress=true: gzipped first, then uploaded as \
application/gzip.
- Directory: always tar.gz'd into a single archive before upload \
(regardless of `compress`).

Size cap: 1 GiB post-compression.

Response fields
───────────────
- `url` — the PERMANENT public URL. This is the ONLY field you should \
paste into your reply to the user.
- `size_bytes`, `content_type`, `sha256_hex` — metadata for your own \
reasoning (e.g. deciding whether to mention the size to the user). \
Do NOT paste these fields to the user.

When to use
───────────
- For anything the user asked you to produce and wants to see / \
download: generated reports, charts, spreadsheets, rendered PDFs, \
edited images, zipped project outputs, etc.
- With `label=\"<short description>\"` so the attachment carries a \
human-readable tag in storage-side metadata.

When NOT to use
───────────────
- Throwaway intermediate files — they live in $HOME and are available \
to later `execute_shell` calls for free.
- Agent-internal state or scratch data.
- Anything containing secrets you wouldn't show the user.

Batching multiple related outputs
─────────────────────────────────
When the user should receive several related files as ONE deliverable \
(e.g. a report plus its assets), write them into a single directory \
like `$HOME/outputs/report-bundle/` and deliver the directory — the \
user gets one URL instead of a wall of links, and file layout is \
preserved inside the tar.gz.

Typical flow: `execute_shell` produces $HOME/outputs/summary.pdf → \
deliver(path=\"outputs/summary.pdf\", label=\"Q3 revenue summary\") → \
receives {url: \"https://...\", size_bytes: 245_760, ...} → reply to \
the user with just the URL.";

/// What a model is told of copying into the execution sandbox.
pub const COPY_WORKSPACE_SANDBOX_TO_EXECUTION_SANDBOX_DESCRIPTION: &'static str = "\
Copy a file or directory from the brand workspace `sandbox/` exchange \
folder into the execution sandbox workspace. Use this when a prior \
workspace tool created or edited inputs under `sandbox/...` and shell work \
now needs them inside $HOME.

Rules
─────
- `source_path` MUST point to `sandbox/...` inside the brand workspace. \
`extracts/...` is not valid here and stays read-only.
- Files are copied as-is to `target_path` inside the execution sandbox.
- Directories are packaged as tar.gz, transferred, then extracted so \
`target_path` becomes the copied directory root.
- Existing targets are replaced.

Typical flow: write or edit `sandbox/prompt.txt` with the host's \
workspace tools → copy_workspace_sandbox_to_execution_sandbox(\
source_path=\"sandbox/prompt.txt\", target_path=\"inputs/prompt.txt\") → \
execute_shell reads $HOME/inputs/prompt.txt.";

/// What a model is told of copying out of the execution sandbox.
pub const COPY_EXECUTION_SANDBOX_TO_WORKSPACE_SANDBOX_DESCRIPTION: &'static str = "\
Copy a file or directory from the execution sandbox back into the brand \
workspace `sandbox/` exchange folder. Use this when shell work produced \
an output that should be inspected, searched, or edited with the \
host's normal workspace tools.

Rules
─────
- `target_path` MUST point to `sandbox/...` inside the brand workspace.
- `source_kind` must be `file` or `directory` because the execution \
sandbox does not expose a separate stat tool.
- Files are copied straight to `target_path`; directories are \
extracted so `target_path` becomes the copied directory root.
- Existing targets at `target_path` are replaced.

Typical flow: execute_shell writes $HOME/outputs/report.md → \
copy_execution_sandbox_to_workspace_sandbox(\
source_path=\"outputs/report.md\", source_kind=\"file\", \
target_path=\"sandbox/report.md\") → inspect or rewrite \
`sandbox/report.md` with the host's workspace tools.";

/// The arguments of `execute_shell`, as a JSON Schema.
pub const EXECUTE_SHELL_SCHEMA: &'static str = r#"{
  "type": "object",
  "properties": {
    "command": {
      "type": "string",
      "description": "Shell command to run, executed via `bash -lc` in $HOME. Multi-line commands and pipelines are fine."
    },
    "timeout_seconds": {
      "type": "integer",
      "minimum": 1,
      "description": "Hard wall-clock timeout. Omit or 0 for the server default (300s)."
    },
    "env": {
      "type": "object",
      "additionalProperties": { "type": "string" },
      "description": "Extra environment variables for this call only. Layered on top of the container's base env."
    }
  },
  "required": ["command"]
}"#;

/// The arguments of `deliver`, as a JSON Schema.
pub const DELIVER_SCHEMA: &'static str = r#"{
  "type": "object",
  "properties": {
    "path": {
      "type": "string",
      "description": "Workspace-relative path (file or directory) to upload. Directories are tar.gz'd automatically."
    },
    "compress": {
      "type": "boolean",
      "description": "When true, single files are gzipped before upload. Ignored for directories (they are always tar.gz'd)."
    },
    "label": {
      "type": "string",
      "description": "Optional short human-readable tag stored as object metadata; useful for auditing / cataloging in the bucket."
    }
  },
  "required": ["path"]
}"#;

/// The arguments of copying into the execution sandbox, as a JSON Schema.
pub const COPY_WORKSPACE_SANDBOX_TO_EXECUTION_SANDBOX_SCHEMA: &'static str = r#"{
  "type": "object",
  "properties": {
    "source_path": {
      "type": "string",
      "description": "Workspace-relative source path under `sandbox/`. May point to a file or a directory."
    },
    "target_path": {
      "type": "string",
      "description": "Destination path inside the execution sandbox workspace. Files land exactly here; directories are extracted so this path becomes the copied directory root."
    }
  },
  "required": ["source_path", "target_path"]
}"#;

/// The arguments of copying out of the execution sandbox, as a JSON Schema.
pub const COPY_EXECUTION_SANDBOX_TO_WORKSPACE_SANDBOX_SCHEMA: &'static str = r#"{
  "type": "object",
  "properties": {
    "source_path": {
      "type": "string",
      "description": "Path inside the execution sandbox to copy from."
    },
    "source_kind": {
      "type": "string",
      "enum": ["file", "directory"],
      "description": "Whether source_path points to a file or a directory."
    },
    "target_path": {
      "type": "string",
      "description": "Workspace-relative destination path under `sandbox/`."
    }
  },
  "required": ["source_path", "source_kind", "target_path"]
}"#;

/// A `ToolDescriptor`, over mathematical text.
pub struct ToolDescriptorView {
    pub name: Seq<char>,
    pub description: Seq<char>,
    pub parameters_schema: Seq<char>,
}

impl View for ToolDescriptor {
    type V = ToolDescriptorView;

    open spec fn view(&self) -> ToolDescriptorView {
        ToolDescriptorView {
            name: self.name@,
            description: self.description@,
            parameters_schema: self.parameters_schema@,
        }
    }
}

/// The tools on offer.
pub open spec fn catalog() -> Seq<ToolDescriptorView> {
    seq![
        ToolDescriptorView {
            name: TOOL_EXECUTE_SHELL@,
            description: EXECUTE_SHELL_DESCRIPTION@,
            parameters_schema: EXECUTE_SHELL_SCHEMA@,
        },
        ToolDescriptorView {
            name: TOOL_DELIVER@,
            description: DELIVER_DESCRIPTION@,
            parameters_schema: DELIVER_SCHEMA@,
        },
        ToolDescriptorView {
            name: TOOL_COPY_WORKSPACE_SANDBOX_TO_EXECUTION_SANDBOX@,
            description: COPY_WORKSPACE_SANDBOX_TO_EXECUTION_SANDBOX_DESCRIPTION@,
            parameters_schema: COPY_WORKSPACE_SANDBOX_TO_EXECUTION_SANDBOX_SCHEMA@,
        },
        ToolDescriptorView {
            name: TOOL_COPY_EXECUTION_SANDBOX_TO_WORKSPACE_SANDBOX@,
            description: COPY_EXECUTION_SANDBOX_TO_WORKSPACE_SANDBOX_DESCRIPTION@,
            parameters_schema: COPY_EXECUTION_SANDBOX_TO_WORKSPACE_SANDBOX_SCHEMA@,
        },
    ]
}

/// A descriptor with the given texts.
fn descriptor(name: &str, description: &str, parameters_schema: &str) -> (d: ToolDescriptor)
    ensures
        d@ == (ToolDescriptorView {
            name: name@,
            description: description@,
            parameters_schema: parameters_schema@,
        }),
{
    ToolDescriptor {
        name: name.to_string(),
        description: description.to_string(),
        parameters_schema: parameters_schema.to_string(),
    }
}

/// The tools on offer.
pub fn descriptors() -> (list: Vec<ToolDescriptor>)
    ensures
        list@.map_values(|d: ToolDescriptor| d@) == catalog(),
        list@.len() == 4,
{
    let mut list: Vec<ToolDescriptor> = Vec::new();
    list.push(descriptor(TOOL_EXECUTE_SHELL, EXECUTE_SHELL_DESCRIPTION, EXECUTE_SHELL_SCHEMA));
    list.push(descriptor(TOOL_DELIVER, DELIVER_DESCRIPTION, DELIVER_SCHEMA));
    list.push(
        descriptor(
            TOOL_COPY_WORKSPACE_SANDBOX_TO_EXECUTION_SANDBOX,
            COPY_WORKSPACE_SANDBOX_TO_EXECUTION_SANDBOX_DESCRIPTION,
            COPY_WORKSPACE_SANDBOX_TO_EXECUTION_SANDBOX_SCHEMA,
        ),
    );
    list.push(
        descriptor(
            TOOL_COPY_EXECUTION_SANDBOX_TO_WORKSPACE_SANDBOX,
            COPY_EXECUTION_SANDBOX_TO_WORKSPACE_SANDBOX_DESCRIPTION,
            COPY_EXECUTION_SANDBOX_TO_WORKSPACE_SANDBOX_SCHEMA,
        ),
    );
    assert(list@.map_values(|d: ToolDescriptor| d@) =~= catalog());
    list
}

/// The arguments of `execute_shell`.
#[derive(Debug, Clone, PartialEq, Eq)]
pub struct ExecuteShellArgs {
    pub command: String,
    /// Seconds; 0 stands for the configured time.
    pub timeout_seconds: u32,
    /// Environment variables, each name once.
    pub env: Vec<(String, String)>,
}

/// The arguments of `deliver`.
#[derive(Debug, Clone, PartialEq, Eq)]
pub struct DeliverArgs {
    pub path: String,
    pub compress: bool,
    pub label: String,
}

/// What `execute_shell` gives back.
#[derive(Debug, Clone, PartialEq, Eq)]
pub struct ExecuteShellResult {
    pub exit_code: i32,
    pub stdout: String,
    pub stderr: String,
    pub duration_ms: u64,
    pub timed_out: bool,
}

/// What `deliver` gives back.
#[derive(Debug, Clone, PartialEq, Eq)]
pub struct DeliverResult {
    pub object_key: String,
    pub basename: String,
    pub size_bytes: u64,
    pub content_type: String,
    pub sha256_hex: String,
}

/// Where a tool call goes.
#[derive(Debug, Clone, PartialEq, Eq)]
pub enum ToolRoute {
    /// Run a command with these arguments.
    ExecuteShell { args_json: String },
    /// Hand something to the user with these arguments.
    Deliver { args_json: String },
    /// Nowhere: it is answered at once.
    Answer(CallToolResponse),
}

/// A `ToolRoute`, over mathematical text.
pub enum ToolRouteView {
    ExecuteShell { args_json: Seq<char> },
    Deliver { args_json: Seq<char> },
    Answer { result_json: Seq<char>, is_error: bool, error_message: Seq<char> },
}

impl View for ToolRoute {
    type V = ToolRouteView;

    open spec fn view(&self) -> ToolRouteView {
        match *self {
            ToolRoute::ExecuteShell { args_json } => ToolRouteView::ExecuteShell {
                args_json: args_json@,
            },
            ToolRoute::Deliver { args_json } => ToolRouteView::Deliver { args_json: args_json@ },
            ToolRoute::Answer(answer) => ToolRouteView::Answer {
                result_json: answer.result_json@,
                is_error: answer.is_error,
                error_message: answer.error_message@,
            },
        }
    }
}

/// The arguments of a call as JSON: an empty object where there are none.
pub open spec fn effective_args(arguments_json: Seq<char>) -> Seq<char> {
    if is_blank(arguments_json) {
        "{}"@
    } else {
        arguments_json
    }
}

/// The answer to a call that goes nowhere.
pub open spec fn refusal(error_message: Seq<char>) -> ToolRouteView {
    ToolRouteView::Answer { result_json: Seq::empty(), is_error: true, error_message }
}

/// Where a call of the named tool goes.
pub open spec fn route_of(tool_name: Seq<char>, arguments_json: Seq<char>) -> ToolRouteView {
    if tool_name == TOOL_EXECUTE_SHELL@ {
        ToolRouteView::ExecuteShell { args_json: effective_args(arguments_json) }
    } else if tool_name == TOOL_DELIVER@ {
        ToolRouteView::Deliver { args_json: effective_args(arguments_json) }
    } else if tool_name == TOOL_COPY_WORKSPACE_SANDBOX_TO_EXECUTION_SANDBOX@ || tool_name
        == TOOL_COPY_EXECUTION_SANDBOX_TO_WORKSPACE_SANDBOX@ {
        refusal(
            "tool "@ + tool_name
                + " is implemented by the host bridge, not inside scriptorium; route it through the host's sandbox tool layer"@,
        )
    } else {
        refusal("unknown tool: "@ + tool_name)
    }
}

/// A refusal with the given words.
fn refused(error_message: String) -> (route: ToolRoute)
    ensures
        route@ == refusal(error_message@),
{
    let answer = CallToolResponse {
        result_json: String::new(),
        is_error: true,
        error_message: error_message,
    };
    assert(answer.result_json@ =~= Seq::empty());
    ToolRoute::Answer(answer)
}

/// Where a tool call goes.
pub fn route(req: &CallToolRequest) -> (route: ToolRoute)
    ensures
        route@ == route_of(req.tool_name@, req.arguments_json@),
{
    let name: &str = req.tool_name.as_str();
    let args_json: String = if blank(req.arguments_json.as_str()) {
        "{}".to_string()
    } else {
        req.arguments_json.clone()
    };
    if same_text(name, TOOL_EXECUTE_SHELL) {
        ToolRoute::ExecuteShell { args_json: args_json }
    } else if same_text(name, TOOL_DELIVER) {
        ToolRoute::Deliver { args_json: args_json }
    } else if same_text(name, TOOL_COPY_WORKSPACE_SANDBOX_TO_EXECUTION_SANDBOX) || same_text(
        name,
        TOOL_COPY_EXECUTION_SANDBOX_TO_WORKSPACE_SANDBOX,
    ) {
        refused(
            join3(
                "tool ",
                name,
                " is implemented by the host bridge, not inside scriptorium; route it through the host's sandbox tool layer",
            ),
        )
    } else {
        refused(join2("unknown tool: ", name))
    }
}

/// The status of a call whose arguments could not be read, from the words of
/// the reader.
pub fn bad_arguments(tool: &str, error: &str) -> (status: Status)
    ensures
        status@ == (StatusView {
            code: Code::InvalidArgument,
            message: tool@ + " args: "@ + error@,
        }),
{
    Status::new(Code::InvalidArgument, join3(tool, " args: ", error).as_str())
}

/// The run that a call of `execute_shell` asks for. The time of the call goes
/// before that of the arguments. It names no limits of its own: those of a call
/// that is flagged as heavy are set by the operator.
pub fn shell_request(req: &CallToolRequest, args: ExecuteShellArgs) -> (exec: ExecRequest)
    ensures
        exec.workspace_id@ == req.workspace_id@,
        exec.tenant_id@ == req.tenant_id@,
        exec.command == args.command,
        exec.timeout_seconds == (if req.timeout_seconds > 0 {
            req.timeout_seconds
        } else {
            args.timeout_seconds
        }),
        exec.env == args.env,
        exec.image@.len() == 0,
        exec.limits is None,
{
    let timeout_seconds: u32 = if req.timeout_seconds > 0 {
        req.timeout_seconds
    } else {
        args.timeout_seconds
    };
    ExecRequest {
        workspace_id: req.workspace_id.clone(),
        tenant_id: req.tenant_id.clone(),
        command: args.command,
        timeout_seconds: timeout_seconds,
        env: args.env,
        image: String::new(),
        limits: None,
    }
}

/// What `execute_shell` gives back of a run. Output that is not UTF-8 comes as
/// the text that is nearest to it.
pub fn shell_result(resp: &ExecResponse) -> (result: ExecuteShellResult)
    ensures
        result.exit_code == resp.exit_code,
        result.stdout@ == lossy_text(resp.stdout@),
        result.stderr@ == lossy_text(resp.stderr@),
        valid_utf8(resp.stdout@) ==> result.stdout@ == decode_utf8(resp.stdout@),
        valid_utf8(resp.stderr@) ==> result.stderr@ == decode_utf8(resp.stderr@),
        result.duration_ms == resp.duration_ms,
        result.timed_out == resp.timed_out,
{
    ExecuteShellResult {
        exit_code: resp.exit_code,
        stdout: text_of_output(resp.stdout.as_slice()),
        stderr: text_of_output(resp.stderr.as_slice()),
        duration_ms: resp.duration_ms,
        timed_out: resp.timed_out,
    }
}

/// What `deliver` gives back of an upload.
pub fn deliver_result(resp: UploadResponse) -> (result: DeliverResult)
    ensures
        result.object_key == resp.object_key,
        result.basename == resp.basename,
        result.size_bytes == resp.size_bytes,
        result.content_type == resp.content_type,
        result.sha256_hex == resp.sha256_hex,
{
    DeliverResult {
        object_key: resp.object_key,
        basename: resp.basename,
        size_bytes: resp.size_bytes,
        content_type: resp.content_type,
        sha256_hex: resp.sha256_hex,
    }
}

/// The answer to a call whose result was written as JSON, or could not be; the
/// error is in the writer's words.
pub fn tool_answer(encoded: std::result::Result<String, String>) -> (r: std::result::Result<
    CallToolResponse,
    Status,
>)
    ensures
        match encoded {
            Ok(json) => {
                &&& r is Ok
                &&& r->Ok_0.result_json == json
                &&& !r->Ok_0.is_error
                &&& r->Ok_0.error_message@.len() == 0
            },
            Err(error) => {
                &&& r is Err
                &&& r->Err_0@ == (StatusView {
                    code: Code::Internal,
                    message: "encode result: "@ + error@,
                })
            },
        },
{
    match encoded {
        Ok(json) => Ok(
            CallToolResponse {
                result_json: json,
                is_error: false,
                error_message: String::new(),
            },
        ),
        Err(error) => Err(
            Status::new(Code::Internal, join2("encode result: ", error.as_str()).as_str()),
        ),
    }
}

/// The tools that are known to a call are those on offer, and no others.
pub proof fn law_offered_tools_are_known(tool_name: Seq<char>, arguments_json: Seq<char>)
    ensures
        route_of(tool_name, arguments_json) == refusal("unknown tool: "@ + tool_name) <==> !(exists|
            i: int,
        |
            0 <= i < catalog().len() && #[trigger] catalog()[i].name == tool_name),
{
    reveal_strlit("unknown tool: ");
    reveal_strlit("tool ");
    let c = catalog();
    assert(c.len() == 4);
    assert(c[0].name == TOOL_EXECUTE_SHELL@);
    assert(c[1].name == TOOL_DELIVER@);
    assert(c[2].name == TOOL_COPY_WORKSPACE_SANDBOX_TO_EXECUTION_SANDBOX@);
    assert(c[3].name == TOOL_COPY_EXECUTION_SANDBOX_TO_WORKSPACE_SANDBOX@);
    let bridge = "tool "@ + tool_name
        + " is implemented by the host bridge, not inside scriptorium; route it through the host's sandbox tool layer"@;
    let unknown = "unknown tool: "@ + tool_name;
    assert(bridge[0] == 't');
    assert(unknown[0] == 'u');
}

/// Only commands and deliveries are done here: any other call is answered with
/// an error that says why.
pub proof fn law_other_calls_are_answered_with_an_error(
    tool_name: Seq<char>,
    arguments_json: Seq<char>,
)
    requires
        tool_name != TOOL_EXECUTE_SHELL@,
        tool_name != TOOL_DELIVER@,
    ensures
        route_of(tool_name, arguments_json) is Answer,
        route_of(tool_name, arguments_json)->is_error,
        route_of(tool_name, arguments_json)->error_message.len() > 0,
{
    reveal_strlit("unknown tool: ");
    reveal_strlit("tool ");
}

/// A call goes where the name of its tool says, with its arguments as they are,
/// or with an empty object where they are nothing but white space.
pub proof fn law_calls_go_where_they_are_named(req: &CallToolRequest, route: ToolRoute)
    requires
        call_ensures(self::route, (req,), route),
    ensures
        route is ExecuteShell <==> req.tool_name@ == "execute_shell"@,
        route is Deliver <==> req.tool_name@ == "deliver"@,
        route matches ToolRoute::ExecuteShell { args_json } ==> {
            &&& !is_blank(req.arguments_json@) ==> args_json@ == req.arguments_json@
            &&& is_blank(req.arguments_json@) ==> args_json@ == seq!['{', '}']
        },
        route matches ToolRoute::Deliver { args_json } ==> {
            &&& !is_blank(req.arguments_json@) ==> args_json@ == req.arguments_json@
            &&& is_blank(req.arguments_json@) ==> args_json@ == seq!['{', '}']
        },
        route matches ToolRoute::Answer(answer) ==> {
            let bridged = req.tool_name@ == "copy_workspace_sandbox_to_execution_sandbox"@
                || req.tool_name@ == "copy_execution_sandbox_to_workspace_sandbox"@;
            &&& answer.is_error
            &&& answer.result_json@.len() == 0
            &&& bridged ==> answer.error_message@ == "tool "@ + req.tool_name@
                + " is implemented by the host bridge, not inside scriptorium; route it through the host's sandbox tool layer"@
            &&& !bridged ==> answer.error_message@ == "unknown tool: "@ + req.tool_name@
        },
{
    reveal_strlit("{}");
    assert("{}"@ =~= seq!['{', '}']);
    reveal_strlit("execute_shell");
    reveal_strlit("deliver");
    assert("execute_shell"@.len() == 13);
    assert("deliver"@.len() == 7);
    assert(route@ is ExecuteShell <==> route is ExecuteShell);
    assert(route@ is Deliver <==> route is Deliver);
    assert(route@ is Answer <==> route is Answer);
}

/// A command is run as it was asked for: in the workspace of the call, with its
/// environment, and with the time of the call where it names one. It brings no
/// image and no limits of its own.
pub proof fn law_shell_calls_are_run_as_asked_for(
    req: &CallToolRequest,
    args: ExecuteShellArgs,
    exec: ExecRequest,
)
    requires
        call_ensures(shell_request, (req, args), exec),
    ensures
        exec.workspace_id@ == req.workspace_id@,
        exec.tenant_id@ == req.tenant_id@,
        exec.command@ == args.command@,
        exec.env@ == args.env@,
        exec.image@.len() == 0,
        exec.limits is None,
        req.timeout_seconds != 0 ==> exec.timeout_seconds == req.timeout_seconds,
        req.timeout_seconds == 0 ==> exec.timeout_seconds == args.timeout_seconds,
{
}

/// What a tool gives back is what came of its work: nothing of it is changed, and
/// output that is UTF-8 is given in full.
pub proof fn law_results_carry_what_came(
    resp: &ExecResponse,
    shell: ExecuteShellResult,
    upload: UploadResponse,
    delivered: DeliverResult,
)
    requires
        call_ensures(shell_result, (resp,), shell),
        call_ensures(deliver_result, (upload,), delivered),
    ensures
        shell.exit_code == resp.exit_code,
        shell.duration_ms == resp.duration_ms,
        shell.timed_out == resp.timed_out,
        valid_utf8(resp.stdout@) ==> encode_utf8(shell.stdout@) == resp.stdout@,
        valid_utf8(resp.stderr@) ==> encode_utf8(shell.stderr@) == resp.stderr@,
        delivered.object_key@ == upload.object_key@,
        delivered.basename@ == upload.basename@,
        delivered.size_bytes == upload.size_bytes,
        delivered.content_type@ == upload.content_type@,
        delivered.sha256_hex@ == upload.sha256_hex@,
{
    if valid_utf8(resp.stdout@) {
        decode_utf8_encode_utf8(resp.stdout@);
    }
    if valid_utf8(resp.stderr@) {
        decode_utf8_encode_utf8(resp.stderr@);
    }
}

/// A result that was written is the answer, as it was written; one that was not is
/// the service's fault; and arguments that cannot be read are the caller's.
pub proof fn law_calls_are_answered_with_their_result(
    encoded: std::result::Result<String, String>,
    r: std::result::Result<CallToolResponse, Status>,
    tool: &str,
    error: &str,
    status: Status,
)
    requires
        call_ensures(tool_answer, (encoded,), r),
        call_ensures(bad_arguments, (tool, error), status),
    ensures
        r is Ok <==> encoded is Ok,
        r matches Ok(answer) ==> {
            &&& answer.result_json@ == encoded->Ok_0@
            &&& !answer.is_error
            &&& answer.error_message@.len() == 0
        },
        r matches Err(failure) ==> failure.code == Code::Internal && failure.message@
            == "encode result: "@ + encoded->Err_0@,
        status.code == Code::InvalidArgument,
        status.message@ == tool@ + " args: "@ + error@,
{
}

/// The tools on offer are the four that a call can name, each once and each with
/// a description and a schema.
pub proof fn law_tools_on_offer(list: Vec<ToolDescriptor>)
    requires
        call_ensures(descriptors, (), list),
    ensures
        list@.len() == 4,
        list@[0].name@ == "execute_shell"@,
        list@[1].name@ == "deliver"@,
        list@[2].name@ == "copy_workspace_sandbox_to_execution_sandbox"@,
        list@[3].name@ == "copy_execution_sandbox_to_workspace_sandbox"@,
        list@[0].description@ == EXECUTE_SHELL_DESCRIPTION@,
        list@[1].description@ == DELIVER_DESCRIPTION@,
        list@[2].description@ == COPY_WORKSPACE_SANDBOX_TO_EXECUTION_SANDBOX_DESCRIPTION@,
        list@[3].description@ == COPY_EXECUTION_SANDBOX_TO_WORKSPACE_SANDBOX_DESCRIPTION@,
        list@[0].parameters_schema@ == EXECUTE_SHELL_SCHEMA@,
        list@[1].parameters_schema@ == DELIVER_SCHEMA@,
        list@[2].parameters_schema@ == COPY_WORKSPACE_SANDBOX_TO_EXECUTION_SANDBOX_SCHEMA@,
        list@[3].parameters_schema@ == COPY_EXECUTION_SANDBOX_TO_WORKSPACE_SANDBOX_SCHEMA@,
{
    let views = list@.map_values(|d: ToolDescriptor| d@);
    assert(views == catalog());
    assert(views[0] == list@[0]@);
    assert(views[1] == list@[1]@);
    assert(views[2] == list@[2]@);
    assert(views[3] == list@[3]@);
}

} // verus!
