//! Counting the log's lines by severity.

use vstd::prelude::*;
use vstd::string::StringSliceAdditionalSpecFns;
use vstd::utf8::encode_utf8;

use crate::text::{contains, contains_bytes};

verus! {

/// The name given to what `str::to_uppercase` makes of some text.
pub uninterp spec fn upper_of(s: Seq<char>) -> Seq<char>;

/// Relies on `str::to_uppercase`: the text in upper case; the result depends
/// on the characters alone.
#[verifier::external_body]
fn uppercase(s: &str) -> (r: String)
    ensures
        r@ == upper_of(s@),
{
    s.to_uppercase()
}

/// The severity a log line is counted under.
#[derive(PartialEq, Eq, Structural, Debug, Clone, Copy)]
pub enum LogLevel {
    Debug,
    Info,
    Warn,
    Error,
    /// None of the above.
    Other,
}

/// The severity of a line whose upper-case bytes are `u`: the first of
/// `DEBUG`, `INFO`, `WARNING` or `WARN`, `ERROR` that it contains.
pub open spec fn level_of(u: Seq<u8>) -> LogLevel {
    if contains(u, "DEBUG".spec_bytes()) {
        LogLevel::Debug
    } else if contains(u, "INFO".spec_bytes()) {
        LogLevel::Info
    } else if contains(u, "WARNING".spec_bytes()) || contains(u, "WARN".spec_bytes()) {
        LogLevel::Warn
    } else if contains(u, "ERROR".spec_bytes()) {
        LogLevel::Error
    } else {
        LogLevel::Other
    }
}

/// The severity of a line already in upper case.
pub fn classify_upper(upper: &str) -> (r: LogLevel)
    ensures
        r == level_of(upper.spec_bytes()),
{
    let u = upper.as_bytes();
    if contains_bytes(u, "DEBUG".as_bytes()) {
        LogLevel::Debug
    } else if contains_bytes(u, "INFO".as_bytes()) {
        LogLevel::Info
    } else if contains_bytes(u, "WARNING".as_bytes()) || contains_bytes(u, "WARN".as_bytes()) {
        LogLevel::Warn
    } else if contains_bytes(u, "ERROR".as_bytes()) {
        LogLevel::Error
    } else {
        LogLevel::Other
    }
}

/// The severity of a log line, judged on its upper-case form.
pub fn classify_line(line: &str) -> (r: LogLevel)
    ensures
        r == level_of(encode_utf8(upper_of(line@))),
{
    let upper = uppercase(line);
    classify_upper(upper.as_str())
}

/// How many lines a log has, in all and by severity.
#[derive(PartialEq, Eq, Structural, Debug, Clone, Copy)]
pub struct LogStatistics {
    pub total: usize,
    pub debug: usize,
    pub info: usize,
    pub warn: usize,
    pub error: usize,
}

/// How many of `lines` have the severity `level`.
pub open spec fn count_level(lines: Seq<String>, level: LogLevel) -> nat
    decreases lines.len(),
{
    if lines.len() == 0 {
        0
    } else {
        count_level(lines.drop_last(), level) + if level_of(encode_utf8(upper_of(lines.last()@)))
            == level {
            1nat
        } else {
            0nat
        }
    }
}

proof fn lemma_count_bounded(lines: Seq<String>, level: LogLevel)
    ensures
        count_level(lines, level) <= lines.len(),
    decreases lines.len(),
{
    if lines.len() > 0 {
        lemma_count_bounded(lines.drop_last(), level);
    }
}

/// Counts `lines` in all and by severity.
pub fn get_log_statistics(lines: &Vec<String>) -> (r: LogStatistics)
    ensures
        r.total == lines@.len(),
        r.debug as nat == count_level(lines@, LogLevel::Debug),
        r.info as nat == count_level(lines@, LogLevel::Info),
        r.warn as nat == count_level(lines@, LogLevel::Warn),
        r.error as nat == count_level(lines@, LogLevel::Error),
{
    let mut s = LogStatistics { total: lines.len(), debug: 0, info: 0, warn: 0, error: 0 };
    let mut i: usize = 0;
    while i < lines.len()
        invariant
            i <= lines@.len(),
            s.total == lines@.len(),
            s.debug as nat == count_level(lines@.subrange(0, i as int), LogLevel::Debug),
            s.info as nat == count_level(lines@.subrange(0, i as int), LogLevel::Info),
            s.warn as nat == count_level(lines@.subrange(0, i as int), LogLevel::Warn),
            s.error as nat == count_level(lines@.subrange(0, i as int), LogLevel::Error),
        decreases lines.len() - i,
    {
        let ghost pre = lines@.subrange(0, i as int);
        let ghost next = lines@.subrange(0, i + 1);
        assert(next.drop_last() =~= pre);
        proof {
            lemma_count_bounded(pre, LogLevel::Debug);
            lemma_count_bounded(pre, LogLevel::Info);
            lemma_count_bounded(pre, LogLevel::Warn);
            lemma_count_bounded(pre, LogLevel::Error);
        }
        match classify_line(lines[i].as_str()) {
            LogLevel::Debug => s.debug = s.debug + 1,
            LogLevel::Info => s.info = s.info + 1,
            LogLevel::Warn => s.warn = s.warn + 1,
            LogLevel::Error => s.error = s.error + 1,
            LogLevel::Other => {},
        }
        i = i + 1;
    }
    assert(lines@.subrange(0, lines@.len() as int) =~= lines@);
    s
}

} // verus!
