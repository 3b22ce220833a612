//! Starting the worker: the decisions of a start, as a flow that the
//! caller drives by carrying out each requested action and reporting what it
//! observed, and the outcomes it reports.

use vstd::prelude::*;
use vstd::utf8::{encode_utf8, valid_utf8};

use crate::cache::ProcessCheckCache;
use crate::logtail::{diagnostic_tail, diagnostic_tail_of};
use crate::supervisor::{fresh_check, ProcessManager, Supervisor};
use crate::text::{decimal_text, push_decimal, trim_bytes, trimmed};

verus! {

/// The name given to what `String::from_utf8_lossy` makes of some bytes.
pub uninterp spec fn lossy_text(b: Seq<u8>) -> Seq<char>;

/// Relies on `String::from_utf8_lossy`: the bytes as text, each invalid
/// sequence replaced; the result depends on the bytes alone, and valid
/// UTF-8 comes back as the very same text.
#[verifier::external_body]
fn text_from_bytes(b: &[u8]) -> (r: String)
    ensures
        r@ == lossy_text(b@),
        valid_utf8(b@) ==> encode_utf8(r@) == b@,
{
    String::from_utf8_lossy(b).into_owned()
}

/// How a start ended.
pub enum StartOutcome {
    /// The worker was already running; nothing was spawned.
    AlreadyRunning,
    /// No worker command could be found.
    CommandNotFound,
    /// The worker's `--help` probe ran and failed, with this error output.
    SelfTestFailed { stderr: String },
    /// The worker's `--help` probe could not be run.
    CannotExecute { error: String },
    /// The log could not be opened or the worker could not be spawned.
    SpawnFailed { error: String },
    /// The worker exited during the settling delay; `output` is what it
    /// wrote to its log since the spawn, of which the message shows the tail.
    ExitedEarly { exit_code: Option<i32>, output: Vec<u8> },
    /// Whether the child had exited could not be asked.
    QueryFailed { error: String },
    /// The child lives but the worker was not seen in the process table.
    NotReady,
    /// The worker runs on `port` as process `pid`.
    Started { port: u16, pid: u32 },
    /// An event arrived that the start was not waiting for.
    Interrupted,
}

/// The status word of an outcome: `started`, `already_running` or `failed`.
pub open spec fn status_word(o: StartOutcome) -> Seq<char> {
    match o {
        StartOutcome::Started { .. } => "started"@,
        StartOutcome::AlreadyRunning => "already_running"@,
        _ => "failed"@,
    }
}

/// The human-readable message of an outcome.
pub open spec fn start_message(o: StartOutcome) -> Seq<char> {
    match o {
        StartOutcome::AlreadyRunning => "nanobot is already running"@,
        StartOutcome::CommandNotFound => "nanobot command not found; install nanobot-ai first"@,
        StartOutcome::SelfTestFailed { stderr } => "nanobot command failed: "@ + stderr@,
        StartOutcome::CannotExecute { error } => "cannot execute nanobot command: "@ + error@,
        StartOutcome::SpawnFailed { error } => "failed to start nanobot: "@ + error@,
        StartOutcome::ExitedEarly { output, .. } => "nanobot exited right after starting: "@
            + lossy_text(trimmed(diagnostic_tail_of(output@))),
        StartOutcome::QueryFailed { error } => "failed to check the process state: "@ + error@,
        StartOutcome::NotReady =>
            "nanobot process started but is not running properly; check the log file"@,
        StartOutcome::Started { port, .. } => "nanobot started on port "@ + decimal_text(
            port as nat,
        ),
        StartOutcome::Interrupted => "start interrupted"@,
    }
}

impl StartOutcome {
    /// The status word: `started`, `already_running` or `failed`.
    pub fn status(&self) -> (r: String)
        ensures
            r@ == status_word(*self),
    {
        match self {
            StartOutcome::Started { .. } => String::from_str("started"),
            StartOutcome::AlreadyRunning => String::from_str("already_running"),
            _ => String::from_str("failed"),
        }
    }

    /// The human-readable message.
    pub fn message(&self) -> (r: String)
        ensures
            r@ == start_message(*self),
    {
        match self {
            StartOutcome::AlreadyRunning => String::from_str("nanobot is already running"),
            StartOutcome::CommandNotFound => String::from_str(
                "nanobot command not found; install nanobot-ai first",
            ),
            StartOutcome::SelfTestFailed { stderr } => {
                let mut m = String::from_str("nanobot command failed: ");
                m.append(stderr.as_str());
                m
            },
            StartOutcome::CannotExecute { error } => {
                let mut m = String::from_str("cannot execute nanobot command: ");
                m.append(error.as_str());
                m
            },
            StartOutcome::SpawnFailed { error } => {
                let mut m = String::from_str("failed to start nanobot: ");
                m.append(error.as_str());
                m
            },
            StartOutcome::ExitedEarly { output, .. } => {
                let mut m = String::from_str("nanobot exited right after starting: ");
                let tail = diagnostic_tail(output.as_slice());
                let t = trim_bytes(tail.as_slice());
                let text = text_from_bytes(t.as_slice());
                m.append(text.as_str());
                m
            },
            StartOutcome::QueryFailed { error } => {
                let mut m = String::from_str("failed to check the process state: ");
                m.append(error.as_str());
                m
            },
            StartOutcome::NotReady => String::from_str(
                "nanobot process started but is not running properly; check the log file",
            ),
            StartOutcome::Started { port, .. } => {
                let mut m = String::from_str("nanobot started on port ");
                push_decimal(&mut m, *port as u64);
                m
            },
            StartOutcome::Interrupted => String::from_str("start interrupted"),
        }
    }
}

/// How long a freshly spawned worker is given before it is checked, in
/// milliseconds.
pub const SETTLE_DELAY_MS: u64 = 1500;

/// How much longer a living child that is not yet seen in the process table
/// is given, in milliseconds.
pub const RECHECK_DELAY_MS: u64 = 500;

/// Where a start stands.
#[derive(PartialEq, Eq, Structural, Debug, Clone, Copy)]
pub enum StartPhase {
    /// Waiting for the worker command to be located.
    Locate,
    /// Waiting for the result of the `--help` probe.
    SelfTest,
    /// Waiting for the spawn.
    Launch,
    /// Waiting out the settling delay.
    Settle,
    /// Waiting for the child's state.
    Confirm,
    /// Waiting out the second, shorter delay.
    Recheck,
    /// Finished.
    Done,
}

/// What the caller observed while carrying out the last action.
pub enum StartEvent {
    /// Where the worker command was found, if anywhere.
    Located(Option<String>),
    /// The `--help` probe succeeded.
    SelfTestPassed,
    /// The `--help` probe failed, with this error output.
    SelfTestFailed(String),
    /// The `--help` probe could not be run.
    SelfTestUnrunnable(String),
    /// The worker was spawned as this pid.
    Launched(u32),
    /// The log could not be opened or the spawn failed.
    LaunchFailed(String),
    /// The requested delay has passed.
    Waited,
    /// The child has exited, with its exit code and what it wrote to the
    /// log since the spawn.
    ChildExited { code: Option<i32>, output: Vec<u8> },
    /// The child still runs.
    ChildAlive,
    /// Whether the child exited could not be asked.
    ChildQueryFailed(String),
}

/// What the caller is asked to do next.
pub enum StartAction {
    /// Locate the worker command.
    Locate,
    /// Run the command with `--help`.
    SelfTest(String),
    /// Open the log for appending, note its length, and spawn the command as
    /// `gateway --port <port>` with both output streams sent to the log.
    Launch { command: String, port: u16 },
    /// Wait this many milliseconds.
    Wait(u64),
    /// Ask whether the child has exited; if so, read the log from the noted
    /// length on.
    QueryChild,
    /// The start is over.
    Finish(StartOutcome),
}

/// A start in progress.
pub struct StartFlow {
    pub phase: StartPhase,
    pub port: u16,
    /// The located worker command, once known.
    pub command: String,
    /// The spawned child's pid, once known.
    pub pid: u32,
}

/// The flow and action after `event` when the start stands at `f`; `alive`
/// is what the fresh liveness check found, where the step makes one.
pub open spec fn start_step(f: StartFlow, event: StartEvent, alive: bool) -> (StartFlow, StartAction) {
    let done = StartFlow { phase: StartPhase::Done, ..f };
    match (f.phase, event) {
        (StartPhase::Locate, StartEvent::Located(found)) => match found {
            Some(cmd) => (
                StartFlow { phase: StartPhase::SelfTest, command: cmd, ..f },
                StartAction::SelfTest(cmd),
            ),
            None => (done, StartAction::Finish(StartOutcome::CommandNotFound)),
        },
        (StartPhase::SelfTest, StartEvent::SelfTestPassed) => (
            StartFlow { phase: StartPhase::Launch, ..f },
            StartAction::Launch { command: f.command, port: f.port },
        ),
        (StartPhase::SelfTest, StartEvent::SelfTestFailed(e)) => (
            done,
            StartAction::Finish(StartOutcome::SelfTestFailed { stderr: e }),
        ),
        (StartPhase::SelfTest, StartEvent::SelfTestUnrunnable(e)) => (
            done,
            StartAction::Finish(StartOutcome::CannotExecute { error: e }),
        ),
        (StartPhase::Launch, StartEvent::Launched(p)) => (
            StartFlow { phase: StartPhase::Settle, pid: p, ..f },
            StartAction::Wait(SETTLE_DELAY_MS),
        ),
        (StartPhase::Launch, StartEvent::LaunchFailed(e)) => (
            done,
            StartAction::Finish(StartOutcome::SpawnFailed { error: e }),
        ),
        (StartPhase::Settle, StartEvent::Waited) => (
            StartFlow { phase: StartPhase::Confirm, ..f },
            StartAction::QueryChild,
        ),
        (StartPhase::Confirm, StartEvent::ChildExited { code, output }) => (
            done,
            StartAction::Finish(StartOutcome::ExitedEarly { exit_code: code, output }),
        ),
        (StartPhase::Confirm, StartEvent::ChildQueryFailed(e)) => (
            done,
            StartAction::Finish(StartOutcome::QueryFailed { error: e }),
        ),
        (StartPhase::Confirm, StartEvent::ChildAlive) => if alive {
            (done, StartAction::Finish(StartOutcome::Started { port: f.port, pid: f.pid }))
        } else {
            (StartFlow { phase: StartPhase::Recheck, ..f }, StartAction::Wait(RECHECK_DELAY_MS))
        },
        (StartPhase::Recheck, StartEvent::Waited) => if alive {
            (done, StartAction::Finish(StartOutcome::Started { port: f.port, pid: f.pid }))
        } else {
            (done, StartAction::Finish(StartOutcome::NotReady))
        },
        _ => (done, StartAction::Finish(StartOutcome::Interrupted)),
    }
}

/// Whether the step from `phase` on `event` makes a fresh liveness check.
pub open spec fn checks_liveness(phase: StartPhase, event: StartEvent) -> bool {
    match (phase, event) {
        (StartPhase::Confirm, StartEvent::ChildAlive) => true,
        (StartPhase::Recheck, StartEvent::Waited) => true,
        _ => false,
    }
}

/// What the cache slot says after a fresh check.
pub open spec fn seen_running(cache: Option<ProcessCheckCache>) -> bool {
    match cache {
        Some(c) => c.is_running == Some(true),
        None => false,
    }
}

/// The record that a successful start leaves: the worker runs on `port`
/// since `now`.
pub open spec fn started_record(port: u16, now: u64) -> ProcessManager {
    ProcessManager {
        is_running: true,
        port,
        start_time: Some(now as i64),
        process_start_timestamp: None,
    }
}

/// Records a successful start on `port` at `now`.
fn record_start(sup: &mut Supervisor, port: u16, now: u64)
    requires
        now <= i64::MAX,
    ensures
        final(sup).cache == old(sup).cache,
        final(sup).process == Some(started_record(port, now)),
{
    let mut m = ProcessManager::new(port);
    m.set_running(true);
    m.set_start_time(now as i64);
    sup.process = Some(m);
}

impl StartFlow {
    /// A start on `port`, given whether a fresh check found the worker
    /// already running: if so it is over at once and nothing is spawned;
    /// otherwise the command is to be located.
    pub fn new(port: u16, running: bool) -> (r: (StartFlow, StartAction))
        ensures
            r.0.port == port,
            r.0.pid == 0,
            r.0.command@ == Seq::<char>::empty(),
            running ==> r.0.phase == StartPhase::Done && r.1 == StartAction::Finish(
                StartOutcome::AlreadyRunning,
            ),
            !running ==> r.0.phase == StartPhase::Locate && r.1 == StartAction::Locate,
    {
        let phase = if running {
            StartPhase::Done
        } else {
            StartPhase::Locate
        };
        let flow = StartFlow { phase, port, command: String::new(), pid: 0 };
        if running {
            (flow, StartAction::Finish(StartOutcome::AlreadyRunning))
        } else {
            (flow, StartAction::Locate)
        }
    }

    /// Begins a start on `port` at monotonic `now`: drops the cached answer
    /// and asks afresh whether the worker runs, then proceeds as
    /// [`StartFlow::new`].
    pub fn begin(sup: &mut Supervisor, port: u16, now: u64) -> (r: (StartFlow, StartAction))
        ensures
            final(sup).process == old(sup).process,
            final(sup).cache.is_some(),
            final(sup).cache.unwrap().last_update == Some(now),
            r.0.port == port,
            seen_running(final(sup).cache) ==> r.0.phase == StartPhase::Done && r.1
                == StartAction::Finish(StartOutcome::AlreadyRunning),
            !seen_running(final(sup).cache) ==> r.0.phase == StartPhase::Locate && r.1
                == StartAction::Locate,
    {
        let running = fresh_check(sup, now);
        StartFlow::new(port, running)
    }

    /// Takes the event that the last action produced and gives the next
    /// action; `alive` is what a fresh liveness check found, used only where
    /// the step needs one. A start that ends well records in `sup` that the
    /// worker runs on the flow's port since `now`.
    pub fn step(&mut self, event: StartEvent, alive: bool, sup: &mut Supervisor, now: u64) -> (r:
        StartAction)
        requires
            now <= i64::MAX,
        ensures
            ({
                let (f, act) = start_step(*old(self), event, alive);
                *final(self) == f && r == act
            }),
            final(sup).cache == old(sup).cache,
            (match r {
                StartAction::Finish(StartOutcome::Started { .. }) => final(sup).process == Some(
                    started_record(old(self).port, now),
                ),
                _ => final(sup).process == old(sup).process,
            }),
    {
        let phase = self.phase;
        match (phase, event) {
            (StartPhase::Locate, StartEvent::Located(found)) => match found {
                Some(cmd) => {
                    self.phase = StartPhase::SelfTest;
                    self.command = cmd.clone();
                    StartAction::SelfTest(cmd)
                },
                None => {
                    self.phase = StartPhase::Done;
                    StartAction::Finish(StartOutcome::CommandNotFound)
                },
            },
            (StartPhase::SelfTest, StartEvent::SelfTestPassed) => {
                self.phase = StartPhase::Launch;
                StartAction::Launch { command: self.command.clone(), port: self.port }
            },
            (StartPhase::SelfTest, StartEvent::SelfTestFailed(e)) => {
                self.phase = StartPhase::Done;
                StartAction::Finish(StartOutcome::SelfTestFailed { stderr: e })
            },
            (StartPhase::SelfTest, StartEvent::SelfTestUnrunnable(e)) => {
                self.phase = StartPhase::Done;
                StartAction::Finish(StartOutcome::CannotExecute { error: e })
            },
            (StartPhase::Launch, StartEvent::Launched(p)) => {
                self.phase = StartPhase::Settle;
                self.pid = p;
                StartAction::Wait(SETTLE_DELAY_MS)
            },
            (StartPhase::Launch, StartEvent::LaunchFailed(e)) => {
                self.phase = StartPhase::Done;
                StartAction::Finish(StartOutcome::SpawnFailed { error: e })
            },
            (StartPhase::Settle, StartEvent::Waited) => {
                self.phase = StartPhase::Confirm;
                StartAction::QueryChild
            },
            (StartPhase::Confirm, StartEvent::ChildExited { code, output }) => {
                self.phase = StartPhase::Done;
                StartAction::Finish(StartOutcome::ExitedEarly { exit_code: code, output })
            },
            (StartPhase::Confirm, StartEvent::ChildQueryFailed(e)) => {
                self.phase = StartPhase::Done;
                StartAction::Finish(StartOutcome::QueryFailed { error: e })
            },
            (StartPhase::Confirm, StartEvent::ChildAlive) => {
                if alive {
                    record_start(sup, self.port, now);
                    self.phase = StartPhase::Done;
                    StartAction::Finish(StartOutcome::Started { port: self.port, pid: self.pid })
                } else {
                    self.phase = StartPhase::Recheck;
                    StartAction::Wait(RECHECK_DELAY_MS)
                }
            },
            (StartPhase::Recheck, StartEvent::Waited) => {
                self.phase = StartPhase::Done;
                if alive {
                    record_start(sup, self.port, now);
                    StartAction::Finish(StartOutcome::Started { port: self.port, pid: self.pid })
                } else {
                    StartAction::Finish(StartOutcome::NotReady)
                }
            },
            _ => {
                self.phase = StartPhase::Done;
                StartAction::Finish(StartOutcome::Interrupted)
            },
        }
    }

    /// Takes the event that the last action produced and gives the next
    /// action. Where the step needs to know whether the worker runs, the
    /// cached answer is dropped and the process table scanned afresh.
    pub fn advance(&mut self, event: StartEvent, sup: &mut Supervisor, now: u64) -> (r: StartAction)
        requires
            now <= i64::MAX,
        ensures
            ({
                let (f, act) = start_step(*old(self), event, seen_running(final(sup).cache));
                *final(self) == f && r == act
            }),
            checks_liveness(old(self).phase, event) ==> final(sup).cache.is_some()
                && final(sup).cache.unwrap().last_update == Some(now),
            !checks_liveness(old(self).phase, event) ==> *final(sup) == *old(sup),
            (match r {
                StartAction::Finish(StartOutcome::Started { .. }) => final(sup).process == Some(
                    started_record(old(self).port, now),
                ),
                _ => final(sup).process == old(sup).process,
            }),
    {
        let needs_check = match (self.phase, &event) {
            (StartPhase::Confirm, StartEvent::ChildAlive) => true,
            (StartPhase::Recheck, StartEvent::Waited) => true,
            _ => false,
        };
        let alive = if needs_check {
            fresh_check(sup, now)
        } else {
            false
        };
        self.step(event, alive, sup, now)
    }
}

/// The actions that a start standing at `f` asks for as `events` arrive in
/// turn, the `i`th step seeing the liveness answer `alive[i]`.
pub open spec fn actions_after(f: StartFlow, events: Seq<StartEvent>, alive: Seq<bool>) -> Seq<
    StartAction,
>
    decreases events.len(),
{
    if events.len() == 0 || alive.len() == 0 {
        Seq::empty()
    } else {
        let (g, a) = start_step(f, events[0], alive[0]);
        seq![a] + actions_after(g, events.drop_first(), alive.drop_first())
    }
}

/// A start that has ended (as one that found the worker already running
/// does at once) asks for no spawn, and no other action, however many
/// events reach it afterwards: each of them only finishes it again.
pub proof fn lemma_ended_start_only_finishes(f: StartFlow, events: Seq<StartEvent>, alive: Seq<bool>)
    requires
        f.phase == StartPhase::Done,
    ensures
        forall|i: int|
            0 <= i < actions_after(f, events, alive).len() ==> (#[trigger] actions_after(
                f,
                events,
                alive,
            )[i]) is Finish,
    decreases events.len(),
{
    if events.len() > 0 && alive.len() > 0 {
        let (g, a) = start_step(f, events[0], alive[0]);
        lemma_ended_start_only_finishes(g, events.drop_first(), alive.drop_first());
        let rest = actions_after(g, events.drop_first(), alive.drop_first());
        assert forall|i: int| 0 <= i < actions_after(f, events, alive).len() implies (
        #[trigger] actions_after(f, events, alive)[i]) is Finish by {
            if i > 0 {
                assert(actions_after(f, events, alive)[i] == rest[i - 1]);
            }
        }
    }
}

} // verus!
