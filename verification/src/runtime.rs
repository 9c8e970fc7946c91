//! Runs of commands in containers: what a container is made of, and how the
//! events of a run become its outcome.
use std::time::{Duration, SystemTime};
use vstd::prelude::*;

use crate::clock::{nanos_since_epoch, nonce, nonce_of, unix_now};
use crate::config::{DockerConfig, SandboxConfig};
use crate::text::{
    decimal, decimal_text, hex_text, hexadecimal, join2, join3, lemma_numeral_chars,
    lemma_numeral_injective, lemma_split_at_first, lemma_split_at_last, pairs, texts,
};

verus! {

/// What to run, where, and within which limits.
#[derive(Debug)]
pub struct ExecParams {
    pub workspace_id: String,
    pub tenant_id: String,
    pub command: String,
    pub timeout: Duration,
    /// Environment variables, each name once.
    pub env: Vec<(String, String)>,
    pub image: String,
    pub host_home_dir: String,
    pub cpu_millis: u32,
    pub memory_bytes: u64,
    pub pids: u32,
    pub tmpfs_bytes: u64,
}

impl Clone for ExecParams {
    fn clone(&self) -> (copy: Self)
        ensures
            copy.workspace_id@ == self.workspace_id@,
            copy.tenant_id@ == self.tenant_id@,
            copy.command@ == self.command@,
            copy.timeout == self.timeout,
            pairs(copy.env@) == pairs(self.env@),
            copy.image@ == self.image@,
            copy.host_home_dir@ == self.host_home_dir@,
            copy.cpu_millis == self.cpu_millis,
            copy.memory_bytes == self.memory_bytes,
            copy.pids == self.pids,
            copy.tmpfs_bytes == self.tmpfs_bytes,
    {
        let mut env: Vec<(String, String)> = Vec::new();
        for i in 0..self.env.len()
            invariant
                pairs(env@) == pairs(self.env@).take(i as int),
        {
            let ghost before = env@;
            env.push((self.env[i].0.clone(), self.env[i].1.clone()));
            assert(pairs(env@) =~= pairs(before).push(pairs(self.env@)[i as int]));
            assert(pairs(self.env@).take(i + 1) =~= pairs(self.env@).take(i as int).push(
                pairs(self.env@)[i as int],
            ));
        }
        assert(pairs(self.env@).take(self.env@.len() as int) =~= pairs(self.env@));
        ExecParams {
            workspace_id: self.workspace_id.clone(),
            tenant_id: self.tenant_id.clone(),
            command: self.command.clone(),
            timeout: self.timeout,
            env: env,
            image: self.image.clone(),
            host_home_dir: self.host_home_dir.clone(),
            cpu_millis: self.cpu_millis,
            memory_bytes: self.memory_bytes,
            pids: self.pids,
            tmpfs_bytes: self.tmpfs_bytes,
        }
    }
}

/// What came of a command.
#[derive(Debug, Clone, PartialEq, Eq)]
pub struct ExecOutcome {
    pub exit_code: i32,
    pub stdout: Vec<u8>,
    pub stderr: Vec<u8>,
    pub duration_ms: u64,
    pub timed_out: bool,
}

/// Events of a run that is watched, in order: any number of `Stdout` and
/// `Stderr`, and at the end one `Finished`.
#[derive(Debug, Clone, PartialEq, Eq)]
pub enum StreamEvent {
    Stdout(Vec<u8>),
    Stderr(Vec<u8>),
    Finished { exit_code: i32, timed_out: bool, duration_ms: u64 },
}

/// A `StreamEvent`, over mathematical bytes.
pub enum StreamEventView {
    Stdout(Seq<u8>),
    Stderr(Seq<u8>),
    Finished { exit_code: i32, timed_out: bool, duration_ms: u64 },
}

impl View for StreamEvent {
    type V = StreamEventView;

    open spec fn view(&self) -> StreamEventView {
        match *self {
            StreamEvent::Stdout(data) => StreamEventView::Stdout(data@),
            StreamEvent::Stderr(data) => StreamEventView::Stderr(data@),
            StreamEvent::Finished { exit_code, timed_out, duration_ms } =>
                StreamEventView::Finished { exit_code, timed_out, duration_ms },
        }
    }
}

/// What the daemon says when asked for more output of a container.
#[derive(Debug, Clone, PartialEq, Eq)]
pub enum Output {
    Stdout(Vec<u8>),
    Stderr(Vec<u8>),
    /// Output of another kind.
    Unknown,
    /// The output broke off.
    Failed,
    /// There is no more.
    Ended,
}

/// What the daemon says when asked how a container ended.
#[derive(Debug, Clone, Copy, PartialEq, Eq, Structural)]
pub enum Exit {
    /// With this code. The daemon reports codes other than 0 as errors; they
    /// are codes here all the same.
    Code(i64),
    /// It does not know.
    Unknown,
}

/// What happens in a run.
#[derive(Debug, Clone, PartialEq, Eq)]
pub enum RunEvent {
    Output(Output),
    Exit(Exit),
    /// The time is up.
    Deadline,
}

/// An `Output`, over mathematical bytes.
pub enum OutputView {
    Stdout(Seq<u8>),
    Stderr(Seq<u8>),
    Unknown,
    Failed,
    Ended,
}

/// A `RunEvent`, over mathematical bytes.
pub enum RunEventView {
    Output(OutputView),
    Exit(Exit),
    Deadline,
}

impl View for Output {
    type V = OutputView;

    open spec fn view(&self) -> OutputView {
        match *self {
            Output::Stdout(data) => OutputView::Stdout(data@),
            Output::Stderr(data) => OutputView::Stderr(data@),
            Output::Unknown => OutputView::Unknown,
            Output::Failed => OutputView::Failed,
            Output::Ended => OutputView::Ended,
        }
    }
}

impl View for RunEvent {
    type V = RunEventView;

    open spec fn view(&self) -> RunEventView {
        match *self {
            RunEvent::Output(output) => RunEventView::Output(output@),
            RunEvent::Exit(exit) => RunEventView::Exit(exit),
            RunEvent::Deadline => RunEventView::Deadline,
        }
    }
}

/// An exit code in 32 bits; -1 where it does not fit.
pub open spec fn narrowed(code: i64) -> i32 {
    if i32::MIN <= code <= i32::MAX {
        code as i32
    } else {
        (-1) as i32
    }
}

/// Milliseconds in 64 bits; the largest number where they do not fit.
pub open spec fn clamped_millis(millis: u128) -> u64 {
    if millis <= u64::MAX {
        millis as u64
    } else {
        u64::MAX
    }
}

/// How far a run has come.
#[derive(Debug, Clone, Copy, PartialEq, Eq, Structural)]
pub struct Run {
    /// The exit code, once the daemon has said it.
    pub exit_code: Option<i32>,
    /// The daemon was heard on how the container ended.
    pub exit_seen: bool,
    /// There is no more output to come.
    pub output_done: bool,
    /// The time was up.
    pub timed_out: bool,
}

/// A run that has just started.
pub open spec fn fresh() -> Run {
    Run { exit_code: None, exit_seen: false, output_done: false, timed_out: false }
}

/// Whether there is anything left to wait for in a run.
pub open spec fn is_running(run: Run) -> bool {
    !run.timed_out && !(run.exit_seen && run.output_done)
}

/// Whether an event can come in a run: nobody asks again once told that there
/// is no more.
pub open spec fn can_happen(run: Run, event: RunEventView) -> bool {
    is_running(run) && match event {
        RunEventView::Output(_) => !run.output_done,
        RunEventView::Exit(_) => !run.exit_seen,
        RunEventView::Deadline => true,
    }
}

/// How far a run has come after one more event.
pub open spec fn after(run: Run, event: RunEventView) -> Run {
    match event {
        RunEventView::Output(OutputView::Failed) => Run { output_done: true, ..run },
        RunEventView::Output(OutputView::Ended) => Run { output_done: true, ..run },
        RunEventView::Output(_) => run,
        RunEventView::Exit(Exit::Code(code)) => Run {
            exit_seen: true,
            exit_code: Some(narrowed(code)),
            ..run
        },
        RunEventView::Exit(Exit::Unknown) => Run { exit_seen: true, ..run },
        RunEventView::Deadline => Run { timed_out: true, ..run },
    }
}

/// What those who watch a run are told of an event.
pub open spec fn told(event: RunEventView) -> Option<StreamEventView> {
    match event {
        RunEventView::Output(OutputView::Stdout(data)) => Some(StreamEventView::Stdout(data)),
        RunEventView::Output(OutputView::Stderr(data)) => Some(StreamEventView::Stderr(data)),
        _ => None,
    }
}

/// The exit code that a run is reported with: -1 where the time was up or the
/// daemon did not say.
pub open spec fn final_code(run: Run) -> i32 {
    match run.exit_code {
        Some(code) if !run.timed_out => code,
        _ => (-1) as i32,
    }
}

/// The last event that those who watch a run are told.
pub open spec fn last_event(run: Run, millis: u128) -> StreamEventView {
    StreamEventView::Finished {
        exit_code: final_code(run),
        timed_out: run.timed_out,
        duration_ms: clamped_millis(millis),
    }
}

/// The exit code in 32 bits; -1 where it does not fit.
fn narrow(code: i64) -> (narrow: i32)
    ensures
        narrow == narrowed(code),
{
    if code >= i32::MIN as i64 && code <= i32::MAX as i64 {
        code as i32
    } else {
        -1
    }
}

/// Milliseconds in 64 bits; the largest number where they do not fit.
fn clamp_millis(millis: u128) -> (clamped: u64)
    ensures
        clamped == clamped_millis(millis),
{
    if millis <= u64::MAX as u128 {
        millis as u64
    } else {
        u64::MAX
    }
}

impl Run {
    /// A run that has just started.
    pub fn start() -> (run: Self)
        ensures
            run == fresh(),
    {
        Run { exit_code: None, exit_seen: false, output_done: false, timed_out: false }
    }

    /// Whether there is anything left to wait for.
    pub fn running(&self) -> (running: bool)
        ensures
            running == is_running(*self),
    {
        !self.timed_out && !(self.exit_seen && self.output_done)
    }

    /// Whether the daemon is to be asked for more output.
    pub fn wants_output(&self) -> (wants: bool)
        ensures
            wants == (is_running(*self) && !self.output_done),
    {
        self.running() && !self.output_done
    }

    /// Whether the daemon is to be asked how the container ended.
    pub fn wants_exit(&self) -> (wants: bool)
        ensures
            wants == (is_running(*self) && !self.exit_seen),
    {
        self.running() && !self.exit_seen
    }

    /// Takes note of an event, and says what those who watch are to be told.
    pub fn step(&mut self, event: RunEvent) -> (tell: Option<StreamEvent>)
        requires
            can_happen(*old(self), event@),
        ensures
            *final(self) == after(*old(self), event@),
            match tell {
                Some(tell) => told(event@) == Some(tell@),
                None => told(event@) is None,
            },
    {
        match event {
            RunEvent::Output(output) => match output {
                Output::Stdout(data) => Some(StreamEvent::Stdout(data)),
                Output::Stderr(data) => Some(StreamEvent::Stderr(data)),
                Output::Unknown => None,
                Output::Failed => {
                    self.output_done = true;
                    None
                },
                Output::Ended => {
                    self.output_done = true;
                    None
                },
            },
            RunEvent::Exit(exit) => {
                self.exit_seen = true;
                match exit {
                    Exit::Code(code) => {
                        self.exit_code = Some(narrow(code));
                    },
                    Exit::Unknown => {},
                }
                None
            },
            RunEvent::Deadline => {
                self.timed_out = true;
                None
            },
        }
    }

    /// The exit code to report: -1 where the time was up or the daemon did not
    /// say.
    pub fn reported_code(&self) -> (code: i32)
        ensures
            code == final_code(*self),
    {
        if self.timed_out {
            -1
        } else {
            match self.exit_code {
                Some(code) => code,
                None => -1,
            }
        }
    }

    /// Whether the container has to be killed and removed. One that ends by
    /// itself is removed by the daemon.
    pub fn needs_kill(&self) -> (kill: bool)
        ensures
            kill == self.timed_out,
    {
        self.timed_out
    }

    /// The event that ends a run which took so long.
    pub fn finish(&self, millis: u128) -> (event: StreamEvent)
        requires
            !is_running(*self),
        ensures
            event@ == last_event(*self, millis),
    {
        StreamEvent::Finished {
            exit_code: self.reported_code(),
            timed_out: self.timed_out,
            duration_ms: clamp_millis(millis),
        }
    }
}

/// The command of a run, and what it put out so far.
#[derive(Debug, Clone, PartialEq, Eq)]
pub struct Collected {
    pub run: Run,
    pub stdout: Vec<u8>,
    pub stderr: Vec<u8>,
}

/// A `Collected`, over mathematical bytes.
#[verifier::ext_equal]
pub struct CollectedView {
    pub run: Run,
    pub stdout: Seq<u8>,
    pub stderr: Seq<u8>,
}

impl View for Collected {
    type V = CollectedView;

    open spec fn view(&self) -> CollectedView {
        CollectedView { run: self.run, stdout: self.stdout@, stderr: self.stderr@ }
    }
}

/// The bytes that an event adds to the standard output.
pub open spec fn stdout_part(event: RunEventView) -> Seq<u8> {
    match event {
        RunEventView::Output(OutputView::Stdout(data)) => data,
        _ => Seq::empty(),
    }
}

/// The bytes that an event adds to the standard error output.
pub open spec fn stderr_part(event: RunEventView) -> Seq<u8> {
    match event {
        RunEventView::Output(OutputView::Stderr(data)) => data,
        _ => Seq::empty(),
    }
}

impl Collected {
    /// A run that has just started and put out nothing.
    pub fn start() -> (collected: Self)
        ensures
            collected@ == (CollectedView {
                run: fresh(),
                stdout: Seq::empty(),
                stderr: Seq::empty(),
            }),
    {
        Collected { run: Run::start(), stdout: Vec::new(), stderr: Vec::new() }
    }

    /// Takes note of an event and keeps the output that it brings.
    pub fn step(&mut self, event: RunEvent)
        requires
            can_happen(old(self).run, event@),
        ensures
            final(self)@ == (CollectedView {
                run: after(old(self)@.run, event@),
                stdout: old(self)@.stdout + stdout_part(event@),
                stderr: old(self)@.stderr + stderr_part(event@),
            }),
    {
        let tell = self.run.step(event);
        match tell {
            Some(StreamEvent::Stdout(mut data)) => {
                self.stdout.append(&mut data);
            },
            Some(StreamEvent::Stderr(mut data)) => {
                self.stderr.append(&mut data);
            },
            _ => {},
        }
        assert(self@ =~= (CollectedView {
            run: after(old(self)@.run, event@),
            stdout: old(self)@.stdout + stdout_part(event@),
            stderr: old(self)@.stderr + stderr_part(event@),
        }));
    }

    /// What came of a run which took so long. Output that came before the time
    /// was up is part of it.
    pub fn finish(self, millis: u128) -> (outcome: ExecOutcome)
        requires
            !is_running(self.run),
        ensures
            outcome.exit_code == final_code(self.run),
            outcome.timed_out == self.run.timed_out,
            outcome.duration_ms == clamped_millis(millis),
            outcome.stdout == self.stdout,
            outcome.stderr == self.stderr,
    {
        ExecOutcome {
            exit_code: self.run.reported_code(),
            stdout: self.stdout,
            stderr: self.stderr,
            duration_ms: clamp_millis(millis),
            timed_out: self.run.timed_out,
        }
    }
}

/// How far a run has come after a series of events.
pub open spec fn run_after(events: Seq<RunEventView>) -> Run
    decreases events.len(),
{
    if events.len() == 0 {
        fresh()
    } else {
        after(run_after(events.drop_last()), events.last())
    }
}

/// Whether a series of events can come in a run, one behind the other.
pub open spec fn possible(events: Seq<RunEventView>) -> bool
    decreases events.len(),
{
    events.len() == 0 || (possible(events.drop_last()) && can_happen(
        run_after(events.drop_last()),
        events.last(),
    ))
}

/// What those who watch are told in a series of events.
pub open spec fn tale(events: Seq<RunEventView>) -> Seq<StreamEventView>
    decreases events.len(),
{
    if events.len() == 0 {
        Seq::empty()
    } else {
        match told(events.last()) {
            Some(tell) => tale(events.drop_last()).push(tell),
            None => tale(events.drop_last()),
        }
    }
}

/// What those who watch are told from start to end.
pub open spec fn whole_tale(events: Seq<RunEventView>, millis: u128) -> Seq<StreamEventView> {
    tale(events).push(last_event(run_after(events), millis))
}

/// The standard output of a series of events.
pub open spec fn stdout_of(events: Seq<RunEventView>) -> Seq<u8>
    decreases events.len(),
{
    if events.len() == 0 {
        Seq::empty()
    } else {
        stdout_of(events.drop_last()) + stdout_part(events.last())
    }
}

/// The standard error output of a series of events.
pub open spec fn stderr_of(events: Seq<RunEventView>) -> Seq<u8>
    decreases events.len(),
{
    if events.len() == 0 {
        Seq::empty()
    } else {
        stderr_of(events.drop_last()) + stderr_part(events.last())
    }
}

/// The standard output that those who watch were told.
pub open spec fn told_stdout(tale: Seq<StreamEventView>) -> Seq<u8>
    decreases tale.len(),
{
    if tale.len() == 0 {
        Seq::empty()
    } else {
        match tale.last() {
            StreamEventView::Stdout(data) => told_stdout(tale.drop_last()) + data,
            _ => told_stdout(tale.drop_last()),
        }
    }
}

/// The standard error output that those who watch were told.
pub open spec fn told_stderr(tale: Seq<StreamEventView>) -> Seq<u8>
    decreases tale.len(),
{
    if tale.len() == 0 {
        Seq::empty()
    } else {
        match tale.last() {
            StreamEventView::Stderr(data) => told_stderr(tale.drop_last()) + data,
            _ => told_stderr(tale.drop_last()),
        }
    }
}

/// Nothing but output is told before the end.
proof fn lemma_tale_is_output(events: Seq<RunEventView>)
    ensures
        forall|i: int|
            0 <= i < tale(events).len() ==> !(#[trigger] tale(events)[i] is Finished),
    decreases events.len(),
{
    if events.len() > 0 {
        lemma_tale_is_output(events.drop_last());
        let front = tale(events.drop_last());
        assert forall|i: int| 0 <= i < tale(events).len() implies !(#[trigger] tale(
            events,
        )[i] is Finished) by {
            if i < front.len() {
                assert(tale(events)[i] == front[i]);
            }
        }
    }
}

/// Whoever watches a run is told any number of pieces of output, and then once
/// that it is finished.
pub proof fn law_finished_comes_once_and_last(events: Seq<RunEventView>, millis: u128)
    requires
        possible(events),
        !is_running(run_after(events)),
    ensures
        ({
            let tale = whole_tale(events, millis);
            &&& tale.len() > 0
            &&& tale.last() is Finished
            &&& forall|i: int|
                0 <= i < tale.len() - 1 ==> (#[trigger] tale[i] is Stdout || tale[i] is Stderr)
        }),
{
    lemma_tale_is_output(events);
    let whole = whole_tale(events, millis);
    assert forall|i: int| 0 <= i < whole.len() - 1 implies (#[trigger] whole[i] is Stdout
        || whole[i] is Stderr) by {
        assert(whole[i] == tale(events)[i]);
    }
}

/// Watching a run and waiting for its end give the same output: nothing is
/// lost, nothing comes twice, and the order is kept.
pub proof fn law_watching_tells_all_output(events: Seq<RunEventView>)
    ensures
        told_stdout(tale(events)) == stdout_of(events),
        told_stderr(tale(events)) == stderr_of(events),
    decreases events.len(),
{
    if events.len() > 0 {
        law_watching_tells_all_output(events.drop_last());
        let front = tale(events.drop_last());
        match told(events.last()) {
            Some(tell) => {
                assert(front.push(tell).drop_last() =~= front);
            },
            None => {},
        }
        assert(stdout_of(events) =~= told_stdout(tale(events)));
        assert(stderr_of(events) =~= told_stderr(tale(events)));
    }
}

/// A run counts as timed out if its time was up, and only then. That ends it:
/// no event comes behind.
pub proof fn law_timed_out_is_deadline(events: Seq<RunEventView>)
    requires
        possible(events),
    ensures
        run_after(events).timed_out <==> events.contains(RunEventView::Deadline),
        run_after(events).timed_out <==> events.len() > 0 && events.last() is Deadline,
    decreases events.len(),
{
    if events.len() > 0 {
        let front = events.drop_last();
        law_timed_out_is_deadline(front);
        assert(!front.contains(RunEventView::Deadline));
        if events.last() is Deadline {
            assert(events[events.len() - 1] == RunEventView::Deadline);
        } else if events.contains(RunEventView::Deadline) {
            let i = choose|i: int| 0 <= i < events.len() && events[i] == RunEventView::Deadline;
            assert(front[i] == RunEventView::Deadline);
        }
    }
}

/// The exit code that an event brings.
pub open spec fn code_in(event: RunEventView) -> Option<i64> {
    match event {
        RunEventView::Exit(Exit::Code(code)) => Some(code),
        _ => None,
    }
}

/// What a run knows of the exit code is what it was told, and it is told once.
proof fn lemma_exit_code(events: Seq<RunEventView>)
    requires
        possible(events),
    ensures
        forall|i: int|
            0 <= i < events.len() && code_in(#[trigger] events[i]) is Some ==> run_after(
                events,
            ).exit_code == Some(narrowed(code_in(events[i])->0)),
        forall|i: int|
            0 <= i < events.len() && #[trigger] events[i] is Exit ==> run_after(events).exit_seen,
        run_after(events).exit_code is Some ==> exists|i: int|
            0 <= i < events.len() && code_in(#[trigger] events[i]) is Some,
    decreases events.len(),
{
    if events.len() > 0 {
        let front = events.drop_last();
        lemma_exit_code(front);
        let n = events.len() - 1;
        assert forall|i: int|
            0 <= i < events.len() && code_in(#[trigger] events[i]) is Some implies run_after(
            events,
        ).exit_code == Some(narrowed(code_in(events[i])->0)) by {
            if i < n {
                assert(front[i] == events[i]);
                assert(front[i] is Exit);
            }
        }
        assert forall|i: int|
            0 <= i < events.len() && #[trigger] events[i] is Exit implies run_after(
            events,
        ).exit_seen by {
            if i < n {
                assert(front[i] == events[i]);
            }
        }
        if run_after(events).exit_code is Some {
            if run_after(front).exit_code is Some {
                let i = choose|i: int|
                    0 <= i < front.len() && code_in(#[trigger] front[i]) is Some;
                assert(events[i] == front[i]);
            } else {
                assert(code_in(events[n]) is Some);
            }
        }
    }
}

/// A run that ends by itself is reported with the code that the daemon gave,
/// in 32 bits, and with -1 where it gave none. A run that was cut off is
/// reported with -1.
pub proof fn law_reported_code(events: Seq<RunEventView>)
    requires
        possible(events),
    ensures
        forall|i: int|
            0 <= i < events.len() && code_in(#[trigger] events[i]) is Some && !run_after(
                events,
            ).timed_out ==> final_code(run_after(events)) == narrowed(code_in(events[i])->0),
        (forall|i: int| 0 <= i < events.len() ==> code_in(#[trigger] events[i]) is None)
            ==> final_code(run_after(events)) == -1,
        run_after(events).timed_out ==> final_code(run_after(events)) == -1,
{
    lemma_exit_code(events);
}

/// What a container is made of. Its root filesystem is read-only, and only
/// the workspace and the scratch directory can be written to.
#[derive(Debug, Clone, PartialEq, Eq)]
pub struct ContainerSpec {
    pub image: String,
    /// User and group inside the container.
    pub user: String,
    pub working_dir: String,
    pub cmd: Vec<String>,
    /// Environment variables, as `name=value`.
    pub env: Vec<String>,
    /// Host directories and where they are mounted, as `host:container`.
    pub binds: Vec<String>,
    /// Scratch filesystems: where they are mounted, and with which options.
    pub tmpfs: Vec<(String, String)>,
    pub memory: i64,
    pub nano_cpus: i64,
    pub pids_limit: i64,
    pub network_mode: String,
    pub auto_remove: bool,
    pub readonly_rootfs: bool,
    pub attach_stdout: bool,
    pub attach_stderr: bool,
    pub tty: bool,
}

/// Billionths of a core in a thousandth of one.
pub const NANOS_PER_MILLI_CPU: i64 = 1_000_000;

/// A number of bytes in 63 bits; the largest number where they do not fit.
pub open spec fn clamped_bytes(bytes: u64) -> i64 {
    if bytes <= i64::MAX {
        bytes as i64
    } else {
        i64::MAX
    }
}

/// An environment variable as `name=value`.
pub open spec fn assigned(name: Seq<char>, value: Seq<char>) -> Seq<char> {
    name + "="@ + value
}

/// Environment variables as `name=value`.
pub open spec fn assignments(env: Seq<(Seq<char>, Seq<char>)>) -> Seq<Seq<char>> {
    env.map_values(|p: (Seq<char>, Seq<char>)| assigned(p.0, p.1))
}

/// Whether `spec` is the container for `req`.
pub open spec fn is_container_for(
    spec: ContainerSpec,
    req: ExecParams,
    sandbox: SandboxConfig,
) -> bool {
    &&& spec.image@ == req.image@
    &&& spec.user@ == decimal(sandbox.agent_uid as nat) + ":"@ + decimal(sandbox.agent_gid as nat)
    &&& spec.working_dir@ == sandbox.workspace_mount@
    &&& texts(spec.cmd@) == seq!["bash"@, "-lc"@, req.command@]
    &&& texts(spec.env@) == assignments(pairs(req.env@))
    &&& texts(spec.binds@) == seq![req.host_home_dir@ + ":"@ + sandbox.workspace_mount@]
    &&& pairs(spec.tmpfs@) == seq![("/tmp"@, "rw,size="@ + decimal(req.tmpfs_bytes as nat))]
    &&& spec.memory == clamped_bytes(req.memory_bytes)
    &&& spec.nano_cpus == req.cpu_millis * NANOS_PER_MILLI_CPU
    &&& spec.pids_limit == req.pids
    &&& spec.network_mode@ == "bridge"@
    &&& spec.auto_remove
    &&& spec.readonly_rootfs
    &&& spec.attach_stdout
    &&& spec.attach_stderr
    &&& !spec.tty
}

/// Whether no name stands twice in a list of environment variables, and none
/// holds the sign that ends it.
pub open spec fn proper_names(env: Seq<(Seq<char>, Seq<char>)>) -> bool {
    &&& forall|i: int, j: int|
        #![trigger env[i], env[j]]
        0 <= i < j < env.len() ==> env[i].0 != env[j].0
    &&& forall|i: int| 0 <= i < env.len() ==> !(#[trigger] env[i]).0.contains('=')
}

/// A container gets all environment variables of its run, each of them once
/// and as it is: what stands in front of the first sign is its name.
pub proof fn law_environment_is_passed_on(
    spec: ContainerSpec,
    req: ExecParams,
    sandbox: SandboxConfig,
)
    requires
        is_container_for(spec, req, sandbox),
        proper_names(pairs(req.env@)),
    ensures
        spec.env@.len() == req.env@.len(),
        forall|i: int|
            0 <= i < req.env@.len() ==> (#[trigger] spec.env@[i])@ == req.env@[i].0@ + "="@
                + req.env@[i].1@,
        forall|i: int, name: Seq<char>, value: Seq<char>|
            0 <= i < req.env@.len() && !name.contains('=') && #[trigger] spec.env@[i]@ == (
            #[trigger] assigned(name, value)) ==> name == req.env@[i].0@ && value
                == req.env@[i].1@,
        forall|i: int, j: int|
            #![trigger spec.env@[i], spec.env@[j]]
            0 <= i < j < spec.env@.len() ==> spec.env@[i]@ != spec.env@[j]@,
{
    let env = pairs(req.env@);
    let all = assignments(env);
    assert(texts(spec.env@).len() == spec.env@.len());
    assert forall|i: int| 0 <= i < req.env@.len() implies (#[trigger] spec.env@[i])@
        == req.env@[i].0@ + "="@ + req.env@[i].1@ by {
        assert(texts(spec.env@)[i] == all[i]);
    }
    assert forall|i: int, name: Seq<char>, value: Seq<char>|
        0 <= i < req.env@.len() && !name.contains('=') && #[trigger] spec.env@[i]@ == (
        #[trigger] assigned(name, value)) implies name == req.env@[i].0@ && value
        == req.env@[i].1@ by {
        reveal_strlit("=");
        assert(!env[i].0.contains('='));
        assert(texts(spec.env@)[i] == all[i]);
        assert(all[i] =~= env[i].0.push('=') + env[i].1);
        assert(assigned(name, value) =~= name.push('=') + value);
        lemma_split_at_first(env[i].0, env[i].1, name, value, '=');
    }
    assert forall|i: int, j: int|
        #![trigger spec.env@[i], spec.env@[j]]
        0 <= i < j < spec.env@.len() implies spec.env@[i]@ != spec.env@[j]@ by {
        assert(env[i].0 != env[j].0);
        assert(!env[j].0.contains('='));
        assert(spec.env@[j]@ == assigned(env[j].0, env[j].1));
    }
}

/// The name of a container of a workspace.
pub open spec fn name_of_container(workspace_id: Seq<char>, nonce: nat) -> Seq<char> {
    "scriptorium-"@ + workspace_id + "-"@ + hexadecimal(nonce)
}

/// The name of a container of a workspace, with a given nonce.
pub fn container_name_at(workspace_id: &str, nonce: u64) -> (name: String)
    ensures
        name@ == name_of_container(workspace_id@, nonce as nat),
{
    let front = join3("scriptorium-", workspace_id, "-");
    join2(front.as_str(), hex_text(nonce).as_str())
}

/// A name for a new container of a workspace. The time makes it a new one.
pub fn container_name(workspace_id: &str) -> (name: String)
    ensures
        exists|t: SystemTime|
            name@ == name_of_container(workspace_id@, nonce_of(#[trigger] nanos_since_epoch(t))),
{
    container_name_at(workspace_id, nonce(&unix_now()))
}

/// Containers of two workspaces, or of two moments, have two names.
pub proof fn law_container_names_differ(
    a: Seq<char>,
    x: nat,
    b: Seq<char>,
    y: nat,
)
    requires
        name_of_container(a, x) == name_of_container(b, y),
    ensures
        a == b,
        x == y,
{
    reveal_strlit("-");
    let p = "scriptorium-"@;
    assert(p + a + "-"@ + hexadecimal(x) =~= (p + a).push('-') + hexadecimal(x));
    assert(p + b + "-"@ + hexadecimal(y) =~= (p + b).push('-') + hexadecimal(y));
    lemma_numeral_chars(x, 16);
    lemma_numeral_chars(y, 16);
    lemma_split_at_last(p + a, hexadecimal(x), p + b, hexadecimal(y), '-');
    assert(a =~= (p + a).skip(p.len() as int));
    assert(b =~= (p + b).skip(p.len() as int));
    lemma_numeral_injective(x, y, 16);
}

/// Makes containers for runs.
#[derive(Debug, Clone)]
pub struct DockerRuntime {
    pub docker_cfg: DockerConfig,
    pub sandbox_cfg: SandboxConfig,
}

/// What the daemon says of itself.
#[derive(Debug, Clone, PartialEq, Eq)]
pub enum DaemonVersion {
    /// Its version and that of its interface, as far as it says them.
    Known { version: Option<String>, api_version: Option<String> },
    /// It did not answer; holds the error in words.
    Unavailable(String),
}

/// A text, or the empty one where there is none.
pub open spec fn text_or_empty(text: Option<String>) -> Seq<char> {
    match text {
        Some(text) => text@,
        None => Seq::empty(),
    }
}

/// The version of the daemon in words.
pub open spec fn version_text(version: DaemonVersion) -> Seq<char> {
    match version {
        DaemonVersion::Known { version, api_version } => text_or_empty(version) + " ("@
            + text_or_empty(api_version) + ")"@,
        DaemonVersion::Unavailable(error) => "unavailable: "@ + error@,
    }
}

/// A text, or the empty one where there is none.
fn unwrap_or_empty(text: Option<String>) -> (t: String)
    ensures
        t@ == text_or_empty(text),
{
    match text {
        Some(text) => text,
        None => String::new(),
    }
}

impl DockerRuntime {
    /// A runtime with the given settings.
    pub fn new(docker_cfg: DockerConfig, sandbox_cfg: SandboxConfig) -> (runtime: Self)
        ensures
            runtime.docker_cfg == docker_cfg,
            runtime.sandbox_cfg == sandbox_cfg,
    {
        DockerRuntime { docker_cfg: docker_cfg, sandbox_cfg: sandbox_cfg }
    }

    /// The settings of the containers.
    pub fn sandbox_cfg(&self) -> (cfg: &SandboxConfig)
        ensures
            *cfg == self.sandbox_cfg,
    {
        &self.sandbox_cfg
    }

    /// The version of the daemon in words.
    pub fn version_string(version: DaemonVersion) -> (text: String)
        ensures
            text@ == version_text(version),
    {
        match version {
            DaemonVersion::Known { version, api_version } => {
                let front = join2(unwrap_or_empty(version).as_str(), " (");
                join3(front.as_str(), unwrap_or_empty(api_version).as_str(), ")")
            },
            DaemonVersion::Unavailable(error) => join2("unavailable: ", error.as_str()),
        }
    }

    /// The container for a run.
    pub fn container_spec(&self, req: &ExecParams) -> (spec: ContainerSpec)
        ensures
            is_container_for(spec, *req, self.sandbox_cfg),
    {
        let mount: &str = self.sandbox_cfg.workspace_mount.as_str();
        let mut env: Vec<String> = Vec::new();
        for i in 0..req.env.len()
            invariant
                texts(env@) == assignments(pairs(req.env@)).take(i as int),
        {
            let ghost before = env@;
            env.push(join3(req.env[i].0.as_str(), "=", req.env[i].1.as_str()));
            let ghost all = assignments(pairs(req.env@));
            assert(texts(env@) =~= texts(before).push(all[i as int]));
            assert(all.take(i + 1) =~= all.take(i as int).push(all[i as int]));
        }
        let ghost all = assignments(pairs(req.env@));
        assert(all.take(all.len() as int) =~= all);

        let mut cmd: Vec<String> = Vec::new();
        cmd.push("bash".to_string());
        cmd.push("-lc".to_string());
        cmd.push(req.command.clone());
        assert(texts(cmd@) =~= seq!["bash"@, "-lc"@, req.command@]);

        let mut binds: Vec<String> = Vec::new();
        binds.push(join3(req.host_home_dir.as_str(), ":", mount));
        assert(texts(binds@) =~= seq![
            req.host_home_dir@ + ":"@ + self.sandbox_cfg.workspace_mount@,
        ]);

        let mut tmpfs: Vec<(String, String)> = Vec::new();
        let options = join2("rw,size=", decimal_text(req.tmpfs_bytes).as_str());
        tmpfs.push(("/tmp".to_string(), options));
        assert(pairs(tmpfs@) =~= seq![
            ("/tmp"@, "rw,size="@ + decimal(req.tmpfs_bytes as nat)),
        ]);

        let user = join3(
            decimal_text(self.sandbox_cfg.agent_uid as u64).as_str(),
            ":",
            decimal_text(self.sandbox_cfg.agent_gid as u64).as_str(),
        );
        let memory: i64 = if req.memory_bytes <= i64::MAX as u64 {
            req.memory_bytes as i64
        } else {
            i64::MAX
        };
        ContainerSpec {
            image: req.image.clone(),
            user: user,
            working_dir: self.sandbox_cfg.workspace_mount.clone(),
            cmd: cmd,
            env: env,
            binds: binds,
            tmpfs: tmpfs,
            memory: memory,
            nano_cpus: req.cpu_millis as i64 * NANOS_PER_MILLI_CPU,
            pids_limit: req.pids as i64,
            network_mode: "bridge".to_string(),
            auto_remove: true,
            readonly_rootfs: true,
            attach_stdout: true,
            attach_stderr: true,
            tty: false,
        }
    }
}

/// Remembers a container that is to be killed and removed should the watching
/// of its run break off.
#[derive(Debug, Clone, PartialEq, Eq)]
pub struct ContainerCleanupGuard {
    pub container_id: String,
    pub disarmed: bool,
}

impl ContainerCleanupGuard {
    /// Watches over a container.
    pub fn new(container_id: String) -> (guard: Self)
        ensures
            guard.container_id == container_id,
            !guard.disarmed,
    {
        ContainerCleanupGuard { container_id: container_id, disarmed: false }
    }

    /// Leaves the container alone from now on: it ended by itself, or was
    /// seen to.
    pub fn disarm(&mut self)
        ensures
            final(self).disarmed,
            final(self).container_id == old(self).container_id,
    {
        self.disarmed = true;
    }

    /// The container that is to be killed and removed, where there is one.
    pub fn due(&self) -> (container: Option<&str>)
        ensures
            match container {
                Some(id) => !self.disarmed && id@ == self.container_id@,
                None => self.disarmed,
            },
    {
        if self.disarmed {
            None
        } else {
            Some(self.container_id.as_str())
        }
    }
}

/// A run that is watched, and the container that it is in.
#[derive(Debug, Clone, PartialEq, Eq)]
pub struct WatchedRun {
    pub run: Run,
    pub guard: ContainerCleanupGuard,
}

impl WatchedRun {
    /// A run that has just started in a container. Should the watching break
    /// off from now on, the container is to be killed and removed.
    pub fn start(container_id: String) -> (watched: Self)
        ensures
            watched.run == fresh(),
            watched.guard.container_id == container_id,
            !watched.guard.disarmed,
    {
        WatchedRun { run: Run::start(), guard: ContainerCleanupGuard::new(container_id) }
    }

    /// Takes note of an event, and says what those who watch are to be told.
    pub fn step(&mut self, event: RunEvent) -> (tell: Option<StreamEvent>)
        requires
            can_happen(old(self).run, event@),
        ensures
            final(self).run == after(old(self).run, event@),
            final(self).guard == old(self).guard,
            match tell {
                Some(tell) => told(event@) == Some(tell@),
                None => told(event@) is None,
            },
    {
        self.run.step(event)
    }

    /// Ends the watching of a run that is over, and says whether its container
    /// has to be killed and removed now. Nothing is left to be done for it
    /// later.
    pub fn conclude(&mut self) -> (kill: bool)
        requires
            !is_running(old(self).run),
        ensures
            kill == old(self).run.timed_out,
            final(self).run == old(self).run,
            final(self).guard.container_id == old(self).guard.container_id,
            final(self).guard.disarmed,
    {
        self.guard.disarm();
        self.run.needs_kill()
    }

    /// The event that ends a run which took so long.
    pub fn finish(&self, millis: u128) -> (event: StreamEvent)
        requires
            !is_running(self.run),
        ensures
            event@ == last_event(self.run, millis),
    {
        self.run.finish(millis)
    }
}

/// One more event adds to the output of a run what it brings, whole and at the
/// end, and nothing else does.
pub proof fn law_output_is_what_came(events: Seq<RunEventView>, event: RunEventView)
    ensures
        stdout_of(Seq::empty()) == Seq::<u8>::empty(),
        stderr_of(Seq::empty()) == Seq::<u8>::empty(),
        stdout_of(events.push(event)) == stdout_of(events) + (match event {
            RunEventView::Output(OutputView::Stdout(data)) => data,
            _ => Seq::empty(),
        }),
        stderr_of(events.push(event)) == stderr_of(events) + (match event {
            RunEventView::Output(OutputView::Stderr(data)) => data,
            _ => Seq::empty(),
        }),
{
    assert(events.push(event).drop_last() =~= events);
    assert(events.push(event).last() == event);
}

/// Those who watch are told of output as it comes, one piece for each piece and
/// with the same bytes, and of nothing else before the end.
pub proof fn law_watching_tells_output_as_it_is(events: Seq<RunEventView>, event: RunEventView)
    ensures
        tale(Seq::empty()) == Seq::<StreamEventView>::empty(),
        match event {
            RunEventView::Output(OutputView::Stdout(data)) => tale(events.push(event)) == tale(
                events,
            ).push(StreamEventView::Stdout(data)),
            RunEventView::Output(OutputView::Stderr(data)) => tale(events.push(event)) == tale(
                events,
            ).push(StreamEventView::Stderr(data)),
            _ => tale(events.push(event)) == tale(events),
        },
{
    assert(events.push(event).drop_last() =~= events);
    assert(events.push(event).last() == event);
}

/// The output in what those who watch were told is what stands in its pieces,
/// one behind the other.
pub proof fn law_told_output_is_in_the_pieces(tale: Seq<StreamEventView>, event: StreamEventView)
    ensures
        told_stdout(Seq::empty()) == Seq::<u8>::empty(),
        told_stderr(Seq::empty()) == Seq::<u8>::empty(),
        told_stdout(tale.push(event)) == told_stdout(tale) + (match event {
            StreamEventView::Stdout(data) => data,
            _ => Seq::empty(),
        }),
        told_stderr(tale.push(event)) == told_stderr(tale) + (match event {
            StreamEventView::Stderr(data) => data,
            _ => Seq::empty(),
        }),
{
    assert(tale.push(event).drop_last() =~= tale);
    assert(tale.push(event).last() == event);
    assert(told_stdout(tale) + Seq::<u8>::empty() =~= told_stdout(tale));
    assert(told_stderr(tale) + Seq::<u8>::empty() =~= told_stderr(tale));
}

/// A run that ends by itself is reported with the very code that the daemon
/// gave, whichever it is; only a code that 32 bits cannot hold is reported as
/// -1.
pub proof fn law_code_is_reported_as_given(events: Seq<RunEventView>, i: int, code: i64)
    requires
        possible(events),
        0 <= i < events.len(),
        events[i] == RunEventView::Exit(Exit::Code(code)),
        !events.contains(RunEventView::Deadline),
    ensures
        -0x8000_0000 <= code < 0x8000_0000 ==> final_code(run_after(events)) as int == code as int,
        !(-0x8000_0000 <= code < 0x8000_0000) ==> final_code(run_after(events)) as int == -1,
{
    law_timed_out_is_deadline(events);
    law_reported_code(events);
    assert(code_in(events[i]) == Some(code));
}

/// Whether an event says that there is no more output to come.
pub open spec fn ends_output(event: RunEventView) -> bool {
    event == RunEventView::Output(OutputView::Ended) || event == RunEventView::Output(
        OutputView::Failed,
    )
}

/// A run is over once its time was up, or once the daemon has said both how the
/// container ended and that there is no more output; before that it goes on.
pub proof fn law_run_is_over_when_all_was_said(events: Seq<RunEventView>)
    requires
        possible(events),
    ensures
        !is_running(run_after(events)) <==> {
            ||| events.contains(RunEventView::Deadline)
            ||| {
                &&& exists|i: int| 0 <= i < events.len() && #[trigger] events[i] is Exit
                &&& exists|j: int|
                    0 <= j < events.len() && (#[trigger] events[j] == RunEventView::Output(
                        OutputView::Ended,
                    ) || events[j] == RunEventView::Output(OutputView::Failed))
            }
        },
{
    law_timed_out_is_deadline(events);
    lemma_heard(events);
}

/// What a run has heard is what it was told.
proof fn lemma_heard(events: Seq<RunEventView>)
    ensures
        run_after(events).exit_seen <==> exists|i: int|
            0 <= i < events.len() && #[trigger] events[i] is Exit,
        run_after(events).output_done <==> exists|j: int|
            0 <= j < events.len() && (#[trigger] events[j] == RunEventView::Output(
                OutputView::Ended,
            ) || events[j] == RunEventView::Output(OutputView::Failed)),
    decreases events.len(),
{
    if events.len() > 0 {
        let front = events.drop_last();
        let n = events.len() - 1;
        lemma_heard(front);
        assert(forall|i: int| 0 <= i < n ==> front[i] == #[trigger] events[i]);
        assert(forall|i: int| 0 <= i < n ==> events[i] == #[trigger] front[i]);
        assert(events[n] == events.last());
        if exists|i: int| 0 <= i < front.len() && #[trigger] front[i] is Exit {
            let i = choose|i: int| 0 <= i < front.len() && #[trigger] front[i] is Exit;
            assert(events[i] is Exit);
        }
        if exists|i: int| 0 <= i < events.len() && #[trigger] events[i] is Exit {
            let i = choose|i: int| 0 <= i < events.len() && #[trigger] events[i] is Exit;
            assert(i < n ==> front[i] is Exit);
        }
        if exists|j: int| 0 <= j < front.len() && ends_output(#[trigger] front[j]) {
            let j = choose|j: int| 0 <= j < front.len() && ends_output(#[trigger] front[j]);
            assert(ends_output(events[j]));
        }
        if exists|j: int| 0 <= j < events.len() && ends_output(#[trigger] events[j]) {
            let j = choose|j: int| 0 <= j < events.len() && ends_output(#[trigger] events[j]);
            assert(j < n ==> ends_output(front[j]));
        }
    }
}

/// A step tells those who watch the bytes that came, all of them, and keeps
/// silent about the rest.
pub proof fn law_step_tells_the_bytes_that_came(event: RunEvent, tell: Option<StreamEvent>)
    ensures
        forall|run: &mut Run| #[trigger]
            call_ensures(Run::step, (run, event), tell) ==> match event {
                RunEvent::Output(Output::Stdout(data)) => tell matches Some(StreamEvent::Stdout(out))
                    && out@ == data@,
                RunEvent::Output(Output::Stderr(data)) => tell matches Some(StreamEvent::Stderr(out))
                    && out@ == data@,
                _ => tell is None,
            },
        forall|watched: &mut WatchedRun| #[trigger]
            call_ensures(WatchedRun::step, (watched, event), tell) ==> match event {
                RunEvent::Output(Output::Stdout(data)) => tell matches Some(StreamEvent::Stdout(out))
                    && out@ == data@,
                RunEvent::Output(Output::Stderr(data)) => tell matches Some(StreamEvent::Stderr(out))
                    && out@ == data@,
                _ => tell is None,
            },
{
}

/// A step keeps what was known of a run and adds what the event says: the time
/// is up at the deadline only, and the code is the one given.
pub proof fn law_step_takes_note_of_the_event(event: RunEvent, tell: Option<StreamEvent>)
    ensures
        forall|run: &mut Run| #[trigger]
            call_ensures(Run::step, (run, event), tell) ==> {
                &&& final(run).timed_out <==> run.timed_out || event is Deadline
                &&& final(run).exit_seen <==> run.exit_seen || event is Exit
                &&& final(run).output_done <==> run.output_done || event == RunEvent::Output(
                    Output::Ended,
                ) || event == RunEvent::Output(Output::Failed)
                &&& match event {
                    RunEvent::Exit(Exit::Code(code)) => final(run).exit_code is Some
                        && final(run).exit_code->0 as int == (if -0x8000_0000 <= code < 0x8000_0000 {
                        code as int
                    } else {
                        -1int
                    }),
                    _ => final(run).exit_code == run.exit_code,
                }
            },
{
}

/// A run that is waited for keeps all the output that comes, in the order in
/// which it comes, and its run fares as any other.
pub proof fn law_collecting_keeps_all_output(event: RunEvent)
    ensures
        forall|collected: &mut Collected| #[trigger]
            call_ensures(Collected::step, (collected, event), ()) ==> {
                &&& final(collected).stdout@ == collected.stdout@ + (match event {
                    RunEvent::Output(Output::Stdout(data)) => data@,
                    _ => Seq::empty(),
                })
                &&& final(collected).stderr@ == collected.stderr@ + (match event {
                    RunEvent::Output(Output::Stderr(data)) => data@,
                    _ => Seq::empty(),
                })
                &&& final(collected).run.timed_out <==> collected.run.timed_out
                    || event is Deadline
                &&& final(collected).run.exit_seen <==> collected.run.exit_seen || event is Exit
                &&& match event {
                    RunEvent::Exit(Exit::Code(code)) => (-0x8000_0000 <= code < 0x8000_0000)
                        ==> final(collected).run.exit_code is Some
                        && final(collected).run.exit_code->0 as int == code as int,
                    _ => final(collected).run.exit_code == collected.run.exit_code,
                }
            },
{
    assert forall|collected: &mut Collected| #[trigger]
        call_ensures(Collected::step, (collected, event), ()) implies {
        &&& final(collected).stdout@ == collected.stdout@ + (match event {
            RunEvent::Output(Output::Stdout(data)) => data@,
            _ => Seq::empty(),
        })
        &&& final(collected).stderr@ == collected.stderr@ + (match event {
            RunEvent::Output(Output::Stderr(data)) => data@,
            _ => Seq::empty(),
        })
        &&& final(collected).run.timed_out <==> collected.run.timed_out || event is Deadline
        &&& final(collected).run.exit_seen <==> collected.run.exit_seen || event is Exit
        &&& match event {
            RunEvent::Exit(Exit::Code(code)) => (-0x8000_0000 <= code < 0x8000_0000)
                ==> final(collected).run.exit_code is Some
                && final(collected).run.exit_code->0 as int == code as int,
            _ => final(collected).run.exit_code == collected.run.exit_code,
        }
    } by {
        assert(final(collected)@.stdout == final(collected).stdout@);
        assert(final(collected)@.stderr == final(collected).stderr@);
    }
}

/// What is reported of a run at its end is what was seen of it: the output that
/// was kept, whether the time was up, the code unless it was, and how long it
/// took.
pub proof fn law_outcome_is_what_was_seen(
    collected: Collected,
    millis: u128,
    outcome: ExecOutcome,
)
    requires
        call_ensures(Collected::finish, (collected, millis), outcome),
    ensures
        outcome.stdout@ == collected.stdout@,
        outcome.stderr@ == collected.stderr@,
        outcome.timed_out == collected.run.timed_out,
        outcome.timed_out ==> outcome.exit_code as int == -1,
        !outcome.timed_out && collected.run.exit_code is Some ==> Some(outcome.exit_code)
            == collected.run.exit_code,
        collected.run.exit_code is None ==> outcome.exit_code as int == -1,
        millis < 0x1_0000_0000_0000_0000 ==> outcome.duration_ms as int == millis as int,
        millis >= 0x1_0000_0000_0000_0000 ==> outcome.duration_ms as int
            == 0xffff_ffff_ffff_ffff,
{
}

/// The event that ends the watching of a run tells what waiting for the run
/// reports of it: the same code, the same length of time, and whether the time
/// was up.
pub proof fn law_watching_and_waiting_end_alike(
    collected: Collected,
    watched: &WatchedRun,
    millis: u128,
    outcome: ExecOutcome,
    event: StreamEvent,
)
    requires
        collected.run == watched.run,
        call_ensures(Collected::finish, (collected, millis), outcome),
        call_ensures(WatchedRun::finish, (watched, millis), event),
    ensures
        event == (StreamEvent::Finished {
            exit_code: outcome.exit_code,
            timed_out: outcome.timed_out,
            duration_ms: outcome.duration_ms,
        }),
{
}

/// The container of a run is killed where the time was up and only there, and
/// nothing is left to be done for it afterwards.
pub proof fn law_only_late_runs_are_killed(kill: bool)
    ensures
        forall|watched: &mut WatchedRun| #[trigger]
            call_ensures(WatchedRun::conclude, (watched,), kill) ==> {
                &&& kill == watched.run.timed_out
                &&& final(watched).guard.disarmed
                &&& final(watched).run == watched.run
            },
        forall|run: &Run| #[trigger]
            call_ensures(Run::needs_kill, (run,), kill) ==> kill == run.timed_out,
{
}

/// The daemon is asked for output until it has said that there is no more, and
/// for the end until it has told it, but for neither once the time is up.
pub proof fn law_nothing_is_asked_twice(run: &Run, output: bool, exit: bool, running: bool)
    requires
        call_ensures(Run::wants_output, (run,), output),
        call_ensures(Run::wants_exit, (run,), exit),
        call_ensures(Run::running, (run,), running),
    ensures
        output <==> !run.timed_out && !run.output_done,
        exit <==> !run.timed_out && !run.exit_seen,
        running <==> output || exit,
{
}

/// A container gets what its run asks for, in the units of the daemon: as much
/// memory, a million billionths of a core for each thousandth, as many
/// processes, as large a scratch directory. Its root filesystem is read-only, it
/// is removed at its end, and both outputs are heard apart.
pub proof fn law_container_has_the_limits_of_its_run(
    runtime: &DockerRuntime,
    req: &ExecParams,
    spec: ContainerSpec,
)
    requires
        call_ensures(DockerRuntime::container_spec, (runtime, req), spec),
    ensures
        req.memory_bytes < 0x8000_0000_0000_0000 ==> spec.memory as int == req.memory_bytes as int,
        req.memory_bytes >= 0x8000_0000_0000_0000 ==> spec.memory as int == 0x7fff_ffff_ffff_ffff,
        spec.nano_cpus as int == req.cpu_millis as int * 1_000_000,
        spec.pids_limit as int == req.pids as int,
        spec.tmpfs@.len() == 1,
        spec.tmpfs@[0].0@ == "/tmp"@,
        spec.tmpfs@[0].1@ == "rw,size="@ + decimal(req.tmpfs_bytes as nat),
        spec.readonly_rootfs,
        spec.auto_remove,
        spec.attach_stdout,
        spec.attach_stderr,
        !spec.tty,
        spec.network_mode@ == "bridge"@,
{
    assert(pairs(spec.tmpfs@).len() == spec.tmpfs@.len());
    assert(pairs(spec.tmpfs@)[0] == (spec.tmpfs@[0].0@, spec.tmpfs@[0].1@));
}

/// A container runs the command of its run in a login shell, as the user that is
/// set and nobody else, in the directory where the workspace is mounted; and
/// the home directory of the workspace is all of the host that it sees.
pub proof fn law_container_runs_the_command(
    runtime: &DockerRuntime,
    req: &ExecParams,
    spec: ContainerSpec,
)
    requires
        call_ensures(DockerRuntime::container_spec, (runtime, req), spec),
    ensures
        spec.image@ == req.image@,
        spec.cmd@.len() == 3,
        spec.cmd@[0]@ == "bash"@,
        spec.cmd@[1]@ == "-lc"@,
        spec.cmd@[2]@ == req.command@,
        spec.user@ == decimal(runtime.sandbox_cfg.agent_uid as nat) + ":"@ + decimal(
            runtime.sandbox_cfg.agent_gid as nat,
        ),
        spec.working_dir@ == runtime.sandbox_cfg.workspace_mount@,
        spec.binds@.len() == 1,
        spec.binds@[0]@ == req.host_home_dir@ + ":"@ + runtime.sandbox_cfg.workspace_mount@,
        spec.env@.len() == req.env@.len(),
        forall|i: int|
            0 <= i < req.env@.len() ==> (#[trigger] spec.env@[i])@ == req.env@[i].0@ + "="@
                + req.env@[i].1@,
{
    let cmd = texts(spec.cmd@);
    assert(cmd.len() == spec.cmd@.len());
    assert(cmd[0] == spec.cmd@[0]@ && cmd[1] == spec.cmd@[1]@ && cmd[2] == spec.cmd@[2]@);
    assert(texts(spec.binds@).len() == spec.binds@.len());
    assert(texts(spec.binds@)[0] == spec.binds@[0]@);
    let all = assignments(pairs(req.env@));
    assert(texts(spec.env@).len() == spec.env@.len());
    assert forall|i: int| 0 <= i < req.env@.len() implies (#[trigger] spec.env@[i])@
        == req.env@[i].0@ + "="@ + req.env@[i].1@ by {
        assert(texts(spec.env@)[i] == all[i]);
    }
}

/// A container is named after its workspace: the name starts with it, and what
/// follows tells the moment.
pub proof fn law_container_is_named_after_its_workspace(id: &str, nonce: u64, name: String)
    requires
        call_ensures(container_name_at, (id, nonce), name),
    ensures
        name@ == "scriptorium-"@ + id@ + "-"@ + hexadecimal(nonce as nat),
{
}

/// The version of the daemon is told in its own words, with that of its
/// interface in brackets; where it did not answer, that is said, and why.
pub proof fn law_version_is_told_in_words(version: DaemonVersion, text: String)
    requires
        call_ensures(DockerRuntime::version_string, (version,), text),
    ensures
        match version {
            DaemonVersion::Known { version: Some(v), api_version: Some(api) } => text@ == v@ + " ("@
                + api@ + ")"@,
            DaemonVersion::Known { version: None, api_version: None } => text@ == " ("@ + ")"@,
            DaemonVersion::Known { version: Some(v), api_version: None } => text@ == v@ + " ("@
                + ")"@,
            DaemonVersion::Known { version: None, api_version: Some(api) } => text@ == " ("@ + api@
                + ")"@,
            DaemonVersion::Unavailable(error) => text@ == "unavailable: "@ + error@,
        },
{
    match version {
        DaemonVersion::Known { version: v, api_version: api } => {
            let none = Seq::<char>::empty();
            let front = match v {
                Some(v) => v@,
                None => none,
            };
            assert(none + " ("@ =~= " ("@);
            assert(front + " ("@ + none =~= front + " ("@);
        },
        _ => {},
    }
}

/// Output can come as long as the daemon is to be asked for it, the end as long
/// as it is not known, and the deadline as long as the run goes on.
pub proof fn law_what_can_happen(run: Run, output: OutputView, exit: Exit)
    ensures
        can_happen(run, RunEventView::Output(output)) <==> !run.timed_out && !run.output_done,
        can_happen(run, RunEventView::Exit(exit)) <==> !run.timed_out && !run.exit_seen,
        can_happen(run, RunEventView::Deadline) <==> !run.timed_out && !(run.output_done
            && run.exit_seen),
{
}

/// A run starts with nothing seen and nothing written, and its container is to be
/// removed should the watching break off.
pub proof fn law_runs_start_with_nothing_seen(
    run: Run,
    collected: Collected,
    container_id: String,
    watched: WatchedRun,
)
    requires
        call_ensures(Run::start, (), run),
        call_ensures(Collected::start, (), collected),
        call_ensures(WatchedRun::start, (container_id,), watched),
    ensures
        run.exit_code is None,
        !run.exit_seen,
        !run.output_done,
        !run.timed_out,
        collected.run == run,
        collected.stdout@.len() == 0,
        collected.stderr@.len() == 0,
        watched.run == run,
        watched.guard.container_id@ == container_id@,
        !watched.guard.disarmed,
{
    assert(collected@.run == collected.run);
    assert(collected@.stdout == collected.stdout@);
    assert(collected@.stderr == collected.stderr@);
}

/// The code of a run is the one the command ended with; of a run that was too late
/// or has no code it is -1.
pub proof fn law_code_is_the_one_of_the_command(run: &Run, code: i32)
    requires
        call_ensures(Run::reported_code, (run,), code),
    ensures
        run.exit_code is Some && !run.timed_out ==> Some(code) == run.exit_code,
        run.exit_code is None || run.timed_out ==> code == -1int,
{
}

/// A guard has a container removed until it is told not to, and that one only.
pub proof fn law_guard_removes_until_disarmed(
    container_id: String,
    fresh: ContainerCleanupGuard,
    guard: &ContainerCleanupGuard,
    due: Option<&str>,
)
    requires
        call_ensures(ContainerCleanupGuard::new, (container_id,), fresh),
        call_ensures(ContainerCleanupGuard::due, (guard,), due),
    ensures
        fresh.container_id@ == container_id@,
        !fresh.disarmed,
        due is Some <==> !guard.disarmed,
        due matches Some(id) ==> id@ == guard.container_id@,
        forall|g: &mut ContainerCleanupGuard| #[trigger]
            call_ensures(ContainerCleanupGuard::disarm, (g,), ()) ==> final(g).disarmed
                && final(g).container_id == g.container_id,
{
}

/// A runtime works with the settings it was given.
pub proof fn law_runtime_is_as_configured(
    docker_cfg: DockerConfig,
    sandbox_cfg: SandboxConfig,
    runtime: DockerRuntime,
    held: &DockerRuntime,
    told: &SandboxConfig,
)
    requires
        call_ensures(DockerRuntime::new, (docker_cfg, sandbox_cfg), runtime),
        call_ensures(DockerRuntime::sandbox_cfg, (held,), told),
    ensures
        runtime.docker_cfg == docker_cfg,
        runtime.sandbox_cfg == sandbox_cfg,
        *told == held.sandbox_cfg,
{
}

/// A copy of what a run asks for asks for the same.
pub proof fn law_copied_run_is_the_same(params: &ExecParams, copy: ExecParams)
    requires
        call_ensures(ExecParams::clone, (params,), copy),
    ensures
        copy.workspace_id@ == params.workspace_id@,
        copy.tenant_id@ == params.tenant_id@,
        copy.command@ == params.command@,
        copy.timeout == params.timeout,
        copy.image@ == params.image@,
        copy.host_home_dir@ == params.host_home_dir@,
        copy.cpu_millis == params.cpu_millis,
        copy.memory_bytes == params.memory_bytes,
        copy.pids == params.pids,
        copy.tmpfs_bytes == params.tmpfs_bytes,
        copy.env@.len() == params.env@.len(),
        forall|i: int|
            0 <= i < params.env@.len() ==> (#[trigger] copy.env@[i]).0@ == params.env@[i].0@
                && copy.env@[i].1@ == params.env@[i].1@,
{
    assert(pairs(copy.env@).len() == copy.env@.len());
    assert(pairs(params.env@).len() == params.env@.len());
    assert forall|i: int| 0 <= i < params.env@.len() implies (#[trigger] copy.env@[i]).0@
        == params.env@[i].0@ && copy.env@[i].1@ == params.env@[i].1@ by {
        assert(pairs(copy.env@)[i] == (copy.env@[i].0@, copy.env@[i].1@));
        assert(pairs(params.env@)[i] == (params.env@[i].0@, params.env@[i].1@));
    }
}

/// The name of a container starts with whose it is.
pub proof fn law_names_start_with_the_workspace(workspace_id: &str, name: String)
    requires
        call_ensures(container_name, (workspace_id,), name),
    ensures
        ("scriptorium-"@ + workspace_id@ + "-"@).is_prefix_of(name@),
{
    let t = choose|t: SystemTime|
        name@ == name_of_container(workspace_id@, nonce_of(#[trigger] nanos_since_epoch(t)));
    let front = "scriptorium-"@ + workspace_id@ + "-"@;
    assert(front =~= name@.subrange(0, front.len() as int));
}

/// A run ends with one event, which tells the code of the command, whether the run
/// was too late and how long it took; watching it changes nothing of that.
pub proof fn law_last_event_tells_how_it_ended(
    run: &Run,
    watched: &WatchedRun,
    millis: u128,
    event: StreamEvent,
    seen: StreamEvent,
)
    requires
        watched.run == *run,
        call_ensures(Run::finish, (run, millis), event),
        call_ensures(WatchedRun::finish, (watched, millis), seen),
    ensures
        event@ == seen@,
        event matches StreamEvent::Finished { exit_code, timed_out, duration_ms } && {
            &&& timed_out == run.timed_out
            &&& run.exit_code is Some && !run.timed_out ==> Some(exit_code) == run.exit_code
            &&& run.exit_code is None || run.timed_out ==> exit_code == -1int
            &&& millis <= 0xffff_ffff_ffff_ffff ==> duration_ms as int == millis as int
            &&& millis > 0xffff_ffff_ffff_ffff ==> duration_ms == 0xffff_ffff_ffff_ffff
        },
{
    assert(event@ is Finished <==> event is Finished);
}

/// At the end of the watching exactly a late run is killed, and nothing is left to
/// be removed later.
pub proof fn law_watching_leaves_nothing_behind(kill: bool)
    ensures
        forall|watched: &mut WatchedRun| #[trigger]
            call_ensures(WatchedRun::conclude, (watched,), kill) ==> {
                &&& kill == watched.run.timed_out
                &&& final(watched).run == watched.run
                &&& final(watched).guard.container_id == watched.guard.container_id
                &&& final(watched).guard.disarmed
            },
{
}

} // verus!
