//! Recognising the worker in the operating system's process table.
//!
//! A process belongs to the worker when its name mentions the interpreter or
//! the worker, and its command line mentions both the worker and its
//! `gateway` subcommand.

use vstd::prelude::*;

use crate::text::{
    contains, contains_bytes, digit_run_end, find_bytes, join_space, join_with_space, occurs_at,
    parse_unsigned, parsed_unsigned, views,
};

verus! {

/// The port the worker listens on when its command line names none.
pub const DEFAULT_PORT: u16 = 18790;

/// One row of a process-table snapshot, as plain values.
pub struct ProcessEntry {
    pub pid: u32,
    /// The process name, as bytes.
    pub name: Vec<u8>,
    /// The command-line arguments, each as bytes.
    pub args: Vec<Vec<u8>>,
    /// When the process started, in seconds since the epoch.
    pub start_time: u64,
}

/// `python`
pub open spec fn interpreter_word() -> Seq<u8> {
    seq![112u8, 121u8, 116u8, 104u8, 111u8, 110u8]
}

/// `nanobot`
pub open spec fn worker_word() -> Seq<u8> {
    seq![110u8, 97u8, 110u8, 111u8, 98u8, 111u8, 116u8]
}

/// `gateway`
pub open spec fn subcommand_word() -> Seq<u8> {
    seq![103u8, 97u8, 116u8, 101u8, 119u8, 97u8, 121u8]
}

/// `--port`
pub open spec fn port_flag() -> Seq<u8> {
    seq![45u8, 45u8, 112u8, 111u8, 114u8, 116u8]
}

fn interpreter_bytes() -> (r: Vec<u8>)
    ensures
        r@ == interpreter_word(),
{
    let r = vec![112u8, 121u8, 116u8, 104u8, 111u8, 110u8];
    assert(r@ =~= interpreter_word());
    r
}

fn worker_bytes() -> (r: Vec<u8>)
    ensures
        r@ == worker_word(),
{
    let r = vec![110u8, 97u8, 110u8, 111u8, 98u8, 111u8, 116u8];
    assert(r@ =~= worker_word());
    r
}

fn subcommand_bytes() -> (r: Vec<u8>)
    ensures
        r@ == subcommand_word(),
{
    let r = vec![103u8, 97u8, 116u8, 101u8, 119u8, 97u8, 121u8];
    assert(r@ =~= subcommand_word());
    r
}

fn port_flag_bytes() -> (r: Vec<u8>)
    ensures
        r@ == port_flag(),
{
    let r = vec![45u8, 45u8, 112u8, 111u8, 114u8, 116u8];
    assert(r@ =~= port_flag());
    r
}

/// The command line of `e`: its arguments joined by single spaces.
pub open spec fn command_line(e: ProcessEntry) -> Seq<u8> {
    join_space(views(e.args@))
}

/// Whether `name` and `cmdline` carry the worker's fingerprint.
#[verifier::opaque]
pub open spec fn fingerprint_matches(name: Seq<u8>, cmdline: Seq<u8>) -> bool {
    (contains(name, interpreter_word()) || contains(name, worker_word())) && contains(
        cmdline,
        worker_word(),
    ) && contains(cmdline, subcommand_word())
}

/// Whether the process `e` is the worker.
pub open spec fn is_worker(e: ProcessEntry) -> bool {
    fingerprint_matches(e.name@, command_line(e))
}

/// The index of the first worker process in `t`, if any.
pub open spec fn first_worker(t: Seq<ProcessEntry>) -> Option<int> {
    if exists|i: int| 0 <= i < t.len() && is_worker(#[trigger] t[i]) {
        Some(
            choose|i: int|
                0 <= i < t.len() && is_worker(#[trigger] t[i]) && forall|j: int|
                    0 <= j < i ==> !is_worker(#[trigger] t[j]),
        )
    } else {
        None
    }
}

/// The pids of the worker processes in `t`, in table order.
pub open spec fn worker_pid_seq(t: Seq<ProcessEntry>) -> Seq<u32>
    decreases t.len(),
{
    if t.len() == 0 {
        Seq::empty()
    } else if is_worker(t.last()) {
        worker_pid_seq(t.drop_last()).push(t.last().pid)
    } else {
        worker_pid_seq(t.drop_last())
    }
}

/// The port that a worker command line names: the digits that follow
/// `--port` and one separator byte, at its first occurrence.
pub open spec fn port_in_command(cmd: Seq<u8>) -> Option<u16> {
    if exists|i: int| occurs_at(cmd, port_flag(), i) {
        let i = choose|i: int|
            occurs_at(cmd, port_flag(), i) && forall|j: int|
                0 <= j < i ==> !occurs_at(cmd, port_flag(), j);
        let start = i + 7;
        if start <= cmd.len() {
            let digits = cmd.subrange(start, digit_run_end(cmd, start));
            match parsed_unsigned(digits, 65535) {
                Some(v) => Some(v as u16),
                None => None,
            }
        } else {
            None
        }
    } else {
        None
    }
}

/// The port a worker process listens on: the one its command line names,
/// else the default.
pub open spec fn worker_port(e: ProcessEntry) -> u16 {
    match port_in_command(command_line(e)) {
        Some(p) => p,
        None => DEFAULT_PORT,
    }
}

/// The command line of `e`.
pub fn command_line_of(e: &ProcessEntry) -> (r: Vec<u8>)
    ensures
        r@ == command_line(*e),
{
    join_with_space(&e.args)
}

/// Whether `name` and `cmdline` carry the worker's fingerprint.
pub fn matches_fingerprint(name: &[u8], cmdline: &[u8]) -> (r: bool)
    ensures
        r == fingerprint_matches(name@, cmdline@),
{
    reveal(fingerprint_matches);
    let python = interpreter_bytes();
    let worker = worker_bytes();
    let sub = subcommand_bytes();
    (contains_bytes(name, python.as_slice()) || contains_bytes(name, worker.as_slice()))
        && contains_bytes(cmdline, worker.as_slice()) && contains_bytes(cmdline, sub.as_slice())
}

/// Whether the process `e` is the worker.
pub fn is_worker_process(e: &ProcessEntry) -> (r: bool)
    ensures
        r == is_worker(*e),
{
    let cmd = command_line_of(e);
    matches_fingerprint(e.name.as_slice(), cmd.as_slice())
}

/// The index of the first worker process in `table`.
pub fn first_worker_index(table: &Vec<ProcessEntry>) -> (r: Option<usize>)
    ensures
        match r {
            Some(i) => first_worker(table@) == Some(i as int) && i < table@.len() && is_worker(
                table@[i as int],
            ) && forall|j: int| 0 <= j < i ==> !is_worker(#[trigger] table@[j]),
            None => first_worker(table@).is_none() && forall|j: int|
                0 <= j < table@.len() ==> !is_worker(#[trigger] table@[j]),
        },
{
    let mut i: usize = 0;
    while i < table.len()
        invariant
            i <= table@.len(),
            forall|j: int| 0 <= j < i ==> !is_worker(#[trigger] table@[j]),
        decreases table.len() - i,
    {
        if is_worker_process(&table[i]) {
            proof {
                let k = choose|k: int|
                    0 <= k < table@.len() && is_worker(#[trigger] table@[k]) && forall|j: int|
                        0 <= j < k ==> !is_worker(#[trigger] table@[j]);
                if k < i {
                } else if k > i {
                    assert(!is_worker(table@[i as int]));
                }
            }
            return Some(i);
        }
        i = i + 1;
    }
    None
}

/// Whether any process in `table` is the worker.
pub fn any_worker(table: &Vec<ProcessEntry>) -> (r: bool)
    ensures
        r == (exists|i: int| 0 <= i < table@.len() && is_worker(#[trigger] table@[i])),
{
    match first_worker_index(table) {
        Some(i) => {
            assert(is_worker(table@[i as int]));
            true
        },
        None => false,
    }
}

/// The pids of the worker processes in `table`, in table order.
pub fn worker_pids(table: &Vec<ProcessEntry>) -> (r: Vec<u32>)
    ensures
        r@ == worker_pid_seq(table@),
{
    let mut out: Vec<u32> = Vec::new();
    let mut i: usize = 0;
    while i < table.len()
        invariant
            i <= table@.len(),
            out@ == worker_pid_seq(table@.subrange(0, i as int)),
        decreases table.len() - i,
    {
        let ghost pre = table@.subrange(0, i as int);
        let ghost next = table@.subrange(0, i + 1);
        assert(next.drop_last() =~= pre);
        if is_worker_process(&table[i]) {
            out.push(table[i].pid);
        }
        i = i + 1;
    }
    assert(table@.subrange(0, table@.len() as int) =~= table@);
    out
}

/// The port named after `--port` in the command line `cmd`, if it names one.
pub fn port_from_command(cmd: &[u8]) -> (r: Option<u16>)
    ensures
        r == port_in_command(cmd@),
{
    let flag = port_flag_bytes();
    match find_bytes(cmd, flag.as_slice()) {
        None => {
            assert(!(exists|i: int| occurs_at(cmd@, port_flag(), i)));
            None
        },
        Some(i) => {
            proof {
                let k = choose|k: int|
                    occurs_at(cmd@, port_flag(), k) && forall|j: int|
                        0 <= j < k ==> !occurs_at(cmd@, port_flag(), j);
                if k < i {
                } else if k > i {
                    assert(!occurs_at(cmd@, port_flag(), i as int));
                }
                assert(k == i);
            }
            if i > cmd.len() || cmd.len() - i < 7 {
                return None;
            }
            let start = i + 7;
            let end = crate::text::digit_run(cmd, start);
            let digits = crate::text::slice_bytes(cmd, start, end);
            match parse_unsigned(digits.as_slice(), 65535) {
                Some(v) => Some(v as u16),
                None => None,
            }
        },
    }
}

/// The port of the worker process `e`.
pub fn port_of(e: &ProcessEntry) -> (r: u16)
    ensures
        r == worker_port(*e),
{
    let cmd = command_line_of(e);
    match port_from_command(cmd.as_slice()) {
        Some(p) => p,
        None => DEFAULT_PORT,
    }
}

/// The port of the first worker process in `table`, if there is one.
pub fn port_of_first_worker(table: &Vec<ProcessEntry>) -> (r: Option<u16>)
    ensures
        match first_worker(table@) {
            Some(i) => r == Some(worker_port(table@[i])),
            None => r.is_none(),
        },
{
    match first_worker_index(table) {
        Some(i) => Some(port_of(&table[i])),
        None => None,
    }
}

/// The start time, in seconds since the epoch, of the first worker process
/// in `table`, if there is one.
pub fn start_time_of_first_worker(table: &Vec<ProcessEntry>) -> (r: Option<u64>)
    ensures
        match first_worker(table@) {
            Some(i) => r == Some(table@[i].start_time),
            None => r.is_none(),
        },
{
    match first_worker_index(table) {
        Some(i) => Some(table[i].start_time),
        None => None,
    }
}

/// Relies on sysinfo's `System::new_all`, `System::processes` and the
/// `Process` accessors `name`, `cmd` and `start_time`: a snapshot of the
/// operating system's process table, each row copied out as plain values.
/// What it holds depends on the machine, so nothing is promised of it.
#[verifier::external_body]
pub(crate) fn snapshot_processes() -> (r: Vec<ProcessEntry>) {
    let sys = sysinfo::System::new_all();
    sys.processes().iter().map(|(pid, p)| ProcessEntry {
        pid: pid.as_u32(),
        name: p.name().as_bytes().to_vec(),
        args: p.cmd().iter().map(|a| a.as_bytes().to_vec()).collect(),
        start_time: p.start_time(),
    }).collect()
}

/// Relies on sysinfo's `Process::kill`: sends the kill signal to the process
/// with this pid if it still exists, and says whether the signal was sent.
#[verifier::external_body]
pub(crate) fn kill_process(pid: u32) -> (r: bool) {
    let mut sys = sysinfo::System::new();
    sys.refresh_processes();
    match sys.process(sysinfo::Pid::from_u32(pid)) {
        Some(p) => p.kill(),
        None => false,
    }
}

/// Scans the process table and says whether the worker is running.
pub fn check_nanobot_running_impl() -> (r: bool) {
    let table = snapshot_processes();
    any_worker(&table)
}

/// Scans the process table for the worker and gives the port it listens on.
pub fn detect_nanobot_port() -> (r: Option<u16>) {
    let table = snapshot_processes();
    port_of_first_worker(&table)
}

/// Scans the process table for the worker and gives its start time, in
/// seconds since the epoch (none when it does not fit an `i64`).
pub fn get_nanobot_start_time() -> (r: Option<i64>) {
    let table = snapshot_processes();
    match start_time_of_first_worker(&table) {
        Some(t) => if t <= i64::MAX as u64 {
            Some(t as i64)
        } else {
            None
        },
        None => None,
    }
}

} // verus!
