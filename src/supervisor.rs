//! The worker's supervisor: the in-memory record of the managed process,
//! the decisions of a start, a stop and a status query, and the text they
//! report.
//!
//! Monotonic instants are milliseconds on a clock that the caller reads;
//! wall-clock times are seconds since the epoch.

use vstd::prelude::*;

use crate::cache::{
    check_nanobot_running, elapsed, empty_cache, invalidate_cache, invalidate_cache_if_expired,
    ProcessCheckCache, STATUS_MAX_AGE_MS,
};
use crate::fingerprint::{
    detect_nanobot_port, get_nanobot_start_time, kill_process, snapshot_processes, worker_pids,
    DEFAULT_PORT,
};
use crate::text::{decimal_text, push_decimal};

verus! {

/// What the supervisor knows of the worker it manages.
pub struct ProcessManager {
    pub is_running: bool,
    pub port: u16,
    /// When the worker started, on the monotonic clock (may lie before the
    /// clock's origin for a worker that an earlier session started).
    pub start_time: Option<i64>,
    /// When the worker started, in seconds since the epoch, as the process
    /// table reported it.
    pub process_start_timestamp: Option<i64>,
}

impl ProcessManager {
    /// A record for a worker on `port` that is not running.
    pub fn new(port: u16) -> (r: Self)
        ensures
            !r.is_running,
            r.port == port,
            r.start_time.is_none(),
            r.process_start_timestamp.is_none(),
    {
        ProcessManager { is_running: false, port, start_time: None, process_start_timestamp: None }
    }

    /// Whether the worker is running.
    pub fn is_running(&self) -> (r: bool)
        ensures
            r == self.is_running,
    {
        self.is_running
    }

    /// Records whether the worker is running.
    pub fn set_running(&mut self, running: bool)
        ensures
            *final(self) == (ProcessManager { is_running: running, ..*old(self) }),
    {
        self.is_running = running;
    }

    /// The port the worker listens on.
    pub fn get_port(&self) -> (r: u16)
        ensures
            r == self.port,
    {
        self.port
    }

    /// When the worker started, on the monotonic clock.
    pub fn get_start_time(&self) -> (r: Option<i64>)
        ensures
            r == self.start_time,
    {
        self.start_time
    }

    /// Records when the worker started, on the monotonic clock.
    pub fn set_start_time(&mut self, start_time: i64)
        ensures
            *final(self) == (ProcessManager { start_time: Some(start_time), ..*old(self) }),
    {
        self.start_time = Some(start_time);
    }

    /// Records when the worker started, in seconds since the epoch.
    pub fn set_process_start_timestamp(&mut self, timestamp: i64)
        ensures
            *final(self) == (ProcessManager {
                process_start_timestamp: Some(timestamp),
                ..*old(self)
            }),
    {
        self.process_start_timestamp = Some(timestamp);
    }
}

/// The monotonic instant at which a worker that started at wall-clock second
/// `started_at` began, given that it is now `wall_now` on the wall clock and
/// `mono_now` on the monotonic clock: `mono_now` less the elapsed seconds.
/// Where the wall clock reads earlier than the start, or the instant does not
/// fit, the worker is taken to start now.
pub open spec fn synthetic_start(mono_now: i64, started_at: i64, wall_now: i64) -> i64 {
    let exact = mono_now as int - (wall_now as int - started_at as int) * 1000;
    if started_at <= wall_now && i64::MIN <= exact {
        exact as i64
    } else {
        mono_now
    }
}

/// The instant at which the worker began, per [`synthetic_start`].
pub fn start_instant(mono_now: i64, started_at: i64, wall_now: i64) -> (r: i64)
    ensures
        r == synthetic_start(mono_now, started_at, wall_now),
{
    if started_at > wall_now {
        return mono_now;
    }
    let elapsed_ms: i128 = (wall_now as i128 - started_at as i128) * 1000;
    let exact: i128 = mono_now as i128 - elapsed_ms;
    if exact >= i64::MIN as i128 {
        exact as i64
    } else {
        mono_now
    }
}

/// The record rebuilt for a running worker that no record describes: its
/// port, and its start as the process table gave it, if it did.
pub fn reconstruct_manager(port: u16, started_at: Option<i64>, wall_now: i64, mono_now: i64) -> (r:
    ProcessManager)
    ensures
        r.is_running,
        r.port == port,
        r.process_start_timestamp == started_at,
        r.start_time == Some(
            match started_at {
                Some(t) => synthetic_start(mono_now, t, wall_now),
                None => mono_now,
            },
        ),
{
    let mut m = ProcessManager::new(port);
    m.set_running(true);
    match started_at {
        Some(t) => {
            m.set_process_start_timestamp(t);
            m.set_start_time(start_instant(mono_now, t, wall_now));
        },
        None => {
            m.set_start_time(mono_now);
        },
    }
    m
}

/// For a worker found running that started at wall-clock second `t0`, read
/// at wall-clock second `t1` with `t0 <= t1`, the rebuilt start lies exactly
/// `t1 - t0` seconds before the monotonic now, wherever that instant fits,
/// so the uptime shown right then is `t1 - t0` seconds.
pub proof fn lemma_uptime_reconstruction(mono_now: i64, t0: i64, t1: i64)
    requires
        t0 <= t1,
        i64::MIN <= mono_now as int - (t1 as int - t0 as int) * 1000,
    ensures
        mono_now as int - synthetic_start(mono_now, t0, t1) as int == (t1 as int - t0 as int) * 1000,
        uptime_secs(synthetic_start(mono_now, t0, t1), mono_now) == t1 as int - t0 as int,
{
    let d = t1 as int - t0 as int;
    assert((d * 1000) / 1000 == d) by (nonlinear_arith)
        requires d >= 0;
}

/// Whole seconds from the monotonic instant `start` to `now`, zero if `now`
/// is earlier.
pub open spec fn uptime_secs(start: i64, now: i64) -> nat {
    if now as int >= start as int {
        ((now as int - start as int) / 1000) as nat
    } else {
        0
    }
}

/// Whole seconds from `start` to `now`.
pub fn uptime_seconds(start: i64, now: i64) -> (r: u64)
    ensures
        r as nat == uptime_secs(start, now),
{
    if now >= start {
        let d: i128 = now as i128 - start as i128;
        (d / 1000) as u64
    } else {
        0
    }
}

/// An uptime as shown: `1h 2m 3s`, `2m 3s` or `3s`.
pub open spec fn uptime_text(secs: nat) -> Seq<char> {
    let h = secs / 3600;
    let m = (secs % 3600) / 60;
    let s = secs % 60;
    if h > 0 {
        decimal_text(h) + "h "@ + decimal_text(m) + "m "@ + decimal_text(s) + "s"@
    } else if m > 0 {
        decimal_text(m) + "m "@ + decimal_text(s) + "s"@
    } else {
        decimal_text(s) + "s"@
    }
}

/// Formats an uptime of `secs` seconds.
pub fn format_uptime(secs: u64) -> (r: String)
    ensures
        r@ == uptime_text(secs as nat),
{
    let h = secs / 3600;
    let m = (secs % 3600) / 60;
    let s = secs % 60;
    let mut out = String::new();
    if h > 0 {
        push_decimal(&mut out, h);
        out.append("h ");
        push_decimal(&mut out, m);
        out.append("m ");
    } else if m > 0 {
        push_decimal(&mut out, m);
        out.append("m ");
    }
    push_decimal(&mut out, s);
    out.append("s");
    assert(out@ =~= uptime_text(secs as nat));
    out
}

/// The process-wide state of the supervisor: the liveness cache and the
/// record of the managed worker.
pub struct Supervisor {
    pub cache: Option<ProcessCheckCache>,
    pub process: Option<ProcessManager>,
}

impl Supervisor {
    /// No cache yet and no record.
    pub fn new() -> (r: Self)
        ensures
            r.cache.is_none(),
            r.process.is_none(),
    {
        Supervisor { cache: None, process: None }
    }
}

/// What a status query reports.
pub struct StatusReport {
    pub running: bool,
    pub port: Option<u16>,
    pub uptime: Option<String>,
}

/// Whether a status query that finds the worker running must rebuild the
/// record: there is none, or it says the worker is not running (a stop was
/// recorded, and the worker has since been started again from elsewhere).
pub open spec fn needs_rebuild(before: Option<ProcessManager>) -> bool {
    match before {
        Some(m) => !m.is_running,
        None => true,
    }
}

/// The record after a status query that found the worker running or not;
/// a record that had to be rebuilt is `rebuilt`.
pub open spec fn reconciled(
    before: Option<ProcessManager>,
    running: bool,
    rebuilt: ProcessManager,
) -> Option<ProcessManager> {
    if running {
        if needs_rebuild(before) {
            Some(rebuilt)
        } else {
            before
        }
    } else {
        marked_stopped(before)
    }
}

/// The record with the worker marked as not running, if there is one.
pub open spec fn marked_stopped(before: Option<ProcessManager>) -> Option<ProcessManager> {
    match before {
        Some(m) => Some(ProcessManager { is_running: false, ..m }),
        None => None,
    }
}

/// The status report for a query that found the worker `running`, with the
/// record `after`, at monotonic `now`.
pub open spec fn report_of(running: bool, after: Option<ProcessManager>, now: i64) -> (
    bool,
    Option<u16>,
    Option<Seq<char>>,
) {
    let port = match after {
        Some(m) => Some(m.port),
        None => None,
    };
    let uptime = if running {
        match after {
            Some(m) => match m.start_time {
                Some(t) => Some(uptime_text(uptime_secs(t, now))),
                None => None,
            },
            None => None,
        }
    } else {
        None
    };
    (running, port, uptime)
}

/// Brings the record in line with a liveness answer and builds the report.
/// A running worker with no record, or with a record that says it is not
/// running, gets one rebuilt from `rebuilt_port` and `started_at` (what the
/// process table says of it).
pub fn reconcile_status(
    process: &mut Option<ProcessManager>,
    running: bool,
    rebuilt_port: u16,
    started_at: Option<i64>,
    wall_now: i64,
    mono_now: i64,
) -> (r: StatusReport)
    ensures
        *final(process) == reconciled(
            *old(process),
            running,
            ProcessManager {
                is_running: true,
                port: rebuilt_port,
                start_time: Some(
                    match started_at {
                        Some(t) => synthetic_start(mono_now, t, wall_now),
                        None => mono_now,
                    },
                ),
                process_start_timestamp: started_at,
            },
        ),
        ({
            let (run, port, up) = report_of(running, *final(process), mono_now);
            &&& r.running == run
            &&& r.port == port
            &&& match up {
                Some(t) => r.uptime.is_some() && r.uptime.unwrap()@ == t,
                None => r.uptime.is_none(),
            }
        }),
        running ==> final(process).is_some() && final(process).unwrap().is_running,
        !running ==> final(process).is_none() || !final(process).unwrap().is_running,
        ({
            let t0 = started_at.unwrap();
            (running && needs_rebuild(*old(process)) && started_at.is_some() && t0 <= wall_now
                && i64::MIN <= mono_now as int - (wall_now as int - t0 as int) * 1000) ==> {
                let m = final(process).unwrap();
                &&& m.process_start_timestamp == Some(t0)
                &&& mono_now as int - m.start_time.unwrap() as int == (wall_now as int - t0 as int)
                    * 1000
                &&& uptime_secs(m.start_time.unwrap(), mono_now) == wall_now as int - t0 as int
            }
        }),
{
    if running {
        let rebuild = match process {
            Some(m) => !m.is_running(),
            None => true,
        };
        if rebuild {
            *process = Some(reconstruct_manager(rebuilt_port, started_at, wall_now, mono_now));
            if let Some(t0) = started_at {
                if t0 <= wall_now {
                    proof {
                        if i64::MIN <= mono_now as int - (wall_now as int - t0 as int) * 1000 {
                            lemma_uptime_reconstruction(mono_now, t0, wall_now);
                        }
                    }
                }
            }
        }
    } else {
        if let Some(m) = process {
            m.set_running(false);
        }
    }
    let port = match process {
        Some(m) => Some(m.get_port()),
        None => None,
    };
    let uptime = if running {
        match process {
            Some(m) => match m.get_start_time() {
                Some(t) => Some(format_uptime(uptime_seconds(t, mono_now))),
                None => None,
            },
            None => None,
        }
    } else {
        None
    };
    StatusReport { running, port, uptime }
}

/// Whether a status query at `now` may answer from `cache` as it stands: it
/// holds an answer no older than [`STATUS_MAX_AGE_MS`] and still within the
/// cache's lifetime. Otherwise the query scans the process table.
pub open spec fn status_answers_from_cache(cache: Option<ProcessCheckCache>, now: u64) -> bool {
    let c = match cache {
        Some(c) => c,
        None => empty_cache(),
    };
    match c.last_update {
        Some(t) => elapsed(t, now) <= STATUS_MAX_AGE_MS && c.is_fresh(now),
        None => false,
    }
}

/// Answers a status query: drops a cached answer older than a second, asks
/// whether the worker runs (from the cache while its answer may be reused,
/// else by a scan), rebuilds a missing or stale record from the process
/// table, and reports running state, port and uptime. `mono_now` is the
/// monotonic clock in milliseconds; `wall_now` the wall clock in seconds.
pub fn get_status(sup: &mut Supervisor, mono_now: u64, wall_now: i64) -> (r: StatusReport)
    requires
        mono_now <= i64::MAX,
    ensures
        final(sup).cache.is_some(),
        final(sup).cache.unwrap().is_running == Some(r.running),
        status_answers_from_cache(old(sup).cache, mono_now) ==> Some(r.running)
            == old(sup).cache.unwrap().is_running && final(sup).cache == old(sup).cache,
        !status_answers_from_cache(old(sup).cache, mono_now) ==> final(sup).cache.unwrap().last_update
            == Some(mono_now),
        r.running ==> final(sup).process.is_some() && final(sup).process.unwrap().is_running,
        r.running && !needs_rebuild(old(sup).process) ==> final(sup).process == old(sup).process,
        !r.running ==> final(sup).process == marked_stopped(old(sup).process),
        ({
            let (run, port, up) = report_of(r.running, final(sup).process, mono_now as i64);
            &&& r.port == port
            &&& match up {
                Some(t) => r.uptime.is_some() && r.uptime.unwrap()@ == t,
                None => r.uptime.is_none(),
            }
        }),
{
    invalidate_cache_if_expired(&mut sup.cache, mono_now);
    let running = check_nanobot_running(&mut sup.cache, mono_now);
    let mut rebuilt_port: u16 = DEFAULT_PORT;
    let mut started_at: Option<i64> = None;
    let rebuild = match &sup.process {
        Some(m) => !m.is_running(),
        None => true,
    };
    if running && rebuild {
        rebuilt_port = match detect_nanobot_port() {
            Some(p) => p,
            None => DEFAULT_PORT,
        };
        started_at = get_nanobot_start_time();
    }
    reconcile_status(&mut sup.process, running, rebuilt_port, started_at, wall_now, mono_now as i64)
}

/// Drops the cached answer and asks afresh whether the worker runs.
pub(crate) fn fresh_check(sup: &mut Supervisor, now: u64) -> (r: bool)
    ensures
        final(sup).process == old(sup).process,
        final(sup).cache.is_some(),
        final(sup).cache.unwrap().is_running == Some(r),
        final(sup).cache.unwrap().last_update == Some(now),
{
    invalidate_cache(&mut sup.cache);
    check_nanobot_running(&mut sup.cache, now)
}

/// How a stop ended.
#[derive(PartialEq, Eq, Structural, Debug, Clone, Copy)]
pub enum StopOutcome {
    /// The worker was not running; nothing was signalled.
    NotRunning,
    /// At least one worker process was signalled.
    Stopped,
    /// The worker was reported running but no process matched.
    NotFound,
}

/// The outcome of a stop that found the worker `running` and `found`
/// matching processes.
pub open spec fn stop_result(running: bool, found: nat) -> StopOutcome {
    if !running {
        StopOutcome::NotRunning
    } else if found > 0 {
        StopOutcome::Stopped
    } else {
        StopOutcome::NotFound
    }
}

/// The outcome of a stop that found the worker `running` and `found`
/// matching processes.
pub fn stop_outcome(running: bool, found: usize) -> (r: StopOutcome)
    ensures
        r == stop_result(running, found as nat),
{
    if !running {
        StopOutcome::NotRunning
    } else if found > 0 {
        StopOutcome::Stopped
    } else {
        StopOutcome::NotFound
    }
}

/// The status word of a stop outcome.
pub open spec fn stop_word(o: StopOutcome) -> Seq<char> {
    match o {
        StopOutcome::NotRunning => "not_running"@,
        StopOutcome::Stopped => "stopped"@,
        StopOutcome::NotFound => "not_found"@,
    }
}

/// The human-readable message of a stop outcome.
pub open spec fn stop_message(o: StopOutcome) -> Seq<char> {
    match o {
        StopOutcome::NotRunning => "nanobot is not running"@,
        StopOutcome::Stopped => "nanobot stopped"@,
        StopOutcome::NotFound => "no running nanobot process found"@,
    }
}

impl StopOutcome {
    /// The status word: `not_running`, `stopped` or `not_found`.
    pub fn status(&self) -> (r: String)
        ensures
            r@ == stop_word(*self),
    {
        match self {
            StopOutcome::NotRunning => String::from_str("not_running"),
            StopOutcome::Stopped => String::from_str("stopped"),
            StopOutcome::NotFound => String::from_str("not_found"),
        }
    }

    /// The human-readable message.
    pub fn message(&self) -> (r: String)
        ensures
            r@ == stop_message(*self),
    {
        match self {
            StopOutcome::NotRunning => String::from_str("nanobot is not running"),
            StopOutcome::Stopped => String::from_str("nanobot stopped"),
            StopOutcome::NotFound => String::from_str("no running nanobot process found"),
        }
    }
}

/// However often it is called while the worker is not running, a stop
/// reports [`StopOutcome::NotRunning`], whatever else it found.
pub proof fn lemma_stop_when_stopped(found: nat)
    ensures
        stop_result(false, found) == StopOutcome::NotRunning,
{
}

/// Stops the worker: drops the cached answer and asks afresh whether it
/// runs; if it does, signals every process that carries the worker's
/// fingerprint, marks the record as stopped when any was found, and drops
/// the cached answer again.
pub fn stop_nanobot(sup: &mut Supervisor, now: u64) -> (r: StopOutcome)
    ensures
        final(sup).cache.is_some(),
        r == StopOutcome::NotRunning <==> final(sup).cache.unwrap().is_running == Some(false),
        r == StopOutcome::NotRunning ==> final(sup).process == old(sup).process
            && final(sup).cache.unwrap().last_update == Some(now),
        r != StopOutcome::NotRunning ==> final(sup).cache == Some(empty_cache()),
        r == StopOutcome::Stopped ==> final(sup).process == marked_stopped(old(sup).process),
        r == StopOutcome::NotFound ==> final(sup).process == old(sup).process,
{
    let running = fresh_check(sup, now);
    if !running {
        return stop_outcome(false, 0);
    }
    let table = snapshot_processes();
    let pids = worker_pids(&table);
    let mut i: usize = 0;
    while i < pids.len()
        invariant
            i <= pids@.len(),
        decreases pids.len() - i,
    {
        let _signalled = kill_process(pids[i]);
        i = i + 1;
    }
    if pids.len() > 0 {
        if let Some(m) = &mut sup.process {
            m.set_running(false);
        }
    }
    invalidate_cache(&mut sup.cache);
    stop_outcome(true, pids.len())
}

} // verus!
