//! The log cursor shared by the event and poll paths of the tailer, the
//! splitting of newly read bytes into lines, and the lifecycle of the
//! background streaming task.

use vstd::prelude::*;

verus! {

/// Where reading resumes when the file now holds `size` bytes and the
/// cursor stands at `pos`: a file shorter than the cursor was truncated or
/// rotated, so reading starts over at 0.
pub open spec fn resume_offset(pos: u64, size: u64) -> u64 {
    if size < pos {
        0
    } else {
        pos
    }
}

/// The byte range to deliver next, as `(start, end)`, if there is any.
pub open spec fn planned_range(pos: u64, size: u64) -> Option<(u64, u64)> {
    let start = resume_offset(pos, size);
    if size == start {
        None
    } else {
        Some((start, size))
    }
}

/// The byte offset delivered so far for one log file.
pub struct FileTracker {
    pub log_path: String,
    pub position: u64,
}

impl FileTracker {
    /// A cursor at offset 0 for no file yet.
    pub fn new() -> (r: Self)
        ensures
            r.log_path@ == Seq::<char>::empty(),
            r.position == 0,
    {
        FileTracker { log_path: String::new(), position: 0 }
    }

    /// Points the cursor at `path`, whose current length is `size`: only
    /// bytes written after this are delivered.
    pub fn begin(&mut self, path: String, size: u64)
        ensures
            final(self).log_path == path,
            final(self).position == size,
    {
        self.log_path = path;
        self.position = size;
    }

    /// The range to read now that the file holds `size` bytes, advancing the
    /// cursor past it. A file shorter than the cursor resets it to 0 first.
    /// Only the length is compared: a file truncated and grown back past the
    /// cursor between two reads looks like one that only grew.
    pub fn next_range(&mut self, size: u64) -> (r: Option<(u64, u64)>)
        ensures
            r == planned_range(old(self).position, size),
            final(self).position == size,
            final(self).log_path == old(self).log_path,
            size < old(self).position && size > 0 ==> r == Some((0u64, size)),
    {
        if size < self.position {
            self.position = 0;
        }
        if size == self.position {
            return None;
        }
        let start = self.position;
        self.position = size;
        Some((start, size))
    }
}

/// The ranges delivered when the cursor starts at `pos` and successive reads,
/// by either detection path, find the file at the lengths in `sizes`.
pub open spec fn delivered_ranges(pos: u64, sizes: Seq<u64>) -> Seq<(u64, u64)>
    decreases sizes.len(),
{
    if sizes.len() == 0 {
        Seq::empty()
    } else {
        let head = match planned_range(pos, sizes[0]) {
            Some(r) => seq![r],
            None => Seq::empty(),
        };
        head + delivered_ranges(sizes[0], sizes.drop_first())
    }
}

/// Where the cursor stands after those reads.
pub open spec fn final_offset(pos: u64, sizes: Seq<u64>) -> u64 {
    if sizes.len() == 0 {
        pos
    } else {
        sizes.last()
    }
}

/// The lengths never fall below the cursor: the file only grew.
pub open spec fn only_grows(pos: u64, sizes: Seq<u64>) -> bool {
    &&& forall|i: int| 0 <= i < sizes.len() ==> pos <= #[trigger] sizes[i]
    &&& forall|i: int, j: int| 0 <= i <= j < sizes.len() ==> sizes[i] <= sizes[j]
}

/// The ranges are non-empty, each begins where the one before ended, the
/// first begins at `from` and the last ends at `to`: together they cover
/// `[from, to)` once each.
pub open spec fn partitions(ranges: Seq<(u64, u64)>, from: u64, to: u64) -> bool {
    &&& ranges.len() == 0 ==> from == to
    &&& ranges.len() > 0 ==> ranges[0].0 == from && ranges.last().1 == to
    &&& forall|i: int| 0 <= i < ranges.len() ==> (#[trigger] ranges[i]).0 < ranges[i].1
    &&& forall|i: int| 0 < i < ranges.len() ==> (#[trigger] ranges[i]).0 == ranges[i - 1].1
}

/// Whatever the interleaving of event-path and poll-path reads, while the
/// file only grows the delivered ranges cover `[pos, final offset)` exactly
/// once: no byte is delivered twice and none is skipped.
pub proof fn lemma_ranges_partition(pos: u64, sizes: Seq<u64>)
    requires
        only_grows(pos, sizes),
    ensures
        partitions(delivered_ranges(pos, sizes), pos, final_offset(pos, sizes)),
    decreases sizes.len(),
{
    if sizes.len() > 0 {
        let rest = sizes.drop_first();
        assert(only_grows(sizes[0], rest)) by {
            assert forall|i: int| 0 <= i < rest.len() implies sizes[0] <= #[trigger] rest[i] by {
                assert(rest[i] == sizes[i + 1]);
            }
            assert forall|i: int, j: int| 0 <= i <= j < rest.len() implies rest[i] <= rest[j] by {
                assert(rest[i] == sizes[i + 1]);
                assert(rest[j] == sizes[j + 1]);
            }
        }
        lemma_ranges_partition(sizes[0], rest);
        let tail = delivered_ranges(sizes[0], rest);
        let all = delivered_ranges(pos, sizes);
        assert(pos <= sizes[0]);
        if rest.len() > 0 {
            assert(rest.last() == sizes.last());
        }
        if sizes[0] == pos {
            assert(all =~= tail);
        } else {
            assert(all =~= seq![(pos, sizes[0])] + tail);
            assert forall|i: int| 0 < i < all.len() implies (#[trigger] all[i]).0 == all[i - 1].1 by {
                if i > 1 {
                    assert(all[i] == tail[i - 1]);
                    assert(all[i - 1] == tail[i - 2]);
                }
            }
            assert forall|i: int| 0 <= i < all.len() implies (#[trigger] all[i]).0 < all[i].1 by {
                if i > 0 {
                    assert(all[i] == tail[i - 1]);
                }
            }
        }
    }
}

/// When the file is found shorter than the cursor, the next delivered range
/// starts at offset 0.
pub proof fn lemma_rotation_restarts(pos: u64, size: u64)
    requires
        size < pos,
        size > 0,
    ensures
        planned_range(pos, size) == Some((0u64, size)),
{
}

/// The first index at or after `from` that holds a newline, or the length.
pub open spec fn next_newline(s: Seq<u8>, from: int) -> int
    decreases s.len() - from,
{
    if from < 0 || from >= s.len() || s[from] == 10u8 {
        if from < 0 { 0 } else { from }
    } else {
        next_newline(s, from + 1)
    }
}

/// A line with one carriage return removed from its end, if it has one.
pub open spec fn strip_cr(line: Seq<u8>) -> Seq<u8> {
    if line.len() > 0 && line.last() == 13u8 {
        line.drop_last()
    } else {
        line
    }
}

/// The lines of `s` from byte `from` on, as `BufRead::lines` gives them: a
/// line ends at a newline, which is dropped together with a carriage return
/// before it; a last line without a newline is kept as it stands.
pub open spec fn lines_from(s: Seq<u8>, from: int) -> Seq<Seq<u8>>
    decreases s.len() - from,
    via lines_from_decreases
{
    if from < 0 || from >= s.len() {
        Seq::empty()
    } else {
        let e = next_newline(s, from);
        if e < s.len() {
            seq![strip_cr(s.subrange(from, e))] + lines_from(s, e + 1)
        } else {
            seq![s.subrange(from, s.len() as int)]
        }
    }
}

/// The lines of `s`.
pub open spec fn lines_of(s: Seq<u8>) -> Seq<Seq<u8>> {
    lines_from(s, 0)
}

#[via_fn]
proof fn lines_from_decreases(s: Seq<u8>, from: int) {
    if 0 <= from < s.len() {
        lemma_next_newline(s, from);
    }
}

proof fn lemma_next_newline(s: Seq<u8>, from: int)
    requires
        0 <= from <= s.len(),
    ensures
        from <= next_newline(s, from) <= s.len(),
        next_newline(s, from) < s.len() ==> s[next_newline(s, from)] == 10u8,
    decreases s.len() - from,
{
    if from < s.len() && s[from] != 10u8 {
        lemma_next_newline(s, from + 1);
    }
}

/// The first newline at or after `from` in `s`, or its length.
fn find_newline(s: &[u8], from: usize) -> (r: usize)
    requires
        from <= s@.len(),
    ensures
        r as int == next_newline(s@, from as int),
{
    let mut j: usize = from;
    while j < s.len() && s[j] != 10u8
        invariant
            from <= j <= s@.len(),
            next_newline(s@, j as int) == next_newline(s@, from as int),
        decreases s.len() - j,
    {
        j = j + 1;
    }
    j
}

/// Splits newly read bytes into lines, as `BufRead::lines` does.
pub fn split_lines(s: &[u8]) -> (r: Vec<Vec<u8>>)
    ensures
        crate::text::views(r@) == lines_of(s@),
{
    let mut out: Vec<Vec<u8>> = Vec::new();
    let mut from: usize = 0;
    while from < s.len()
        invariant
            from <= s@.len(),
            crate::text::views(out@) + lines_from(s@, from as int) == lines_of(s@),
        decreases s.len() - from,
    {
        let e = find_newline(s, from);
        proof {
            lemma_next_newline(s@, from as int);
        }
        let ghost before = out@;
        if e < s.len() {
            let end: usize = if e > from && s[e - 1] == 13u8 { e - 1 } else { e };
            let line = crate::text::slice_bytes(s, from, end);
            assert(line@ == strip_cr(s@.subrange(from as int, e as int))) by {
                let raw = s@.subrange(from as int, e as int);
                if e > from && s@[e - 1] == 13u8 {
                    assert(raw.last() == 13u8);
                    assert(raw.drop_last() =~= s@.subrange(from as int, end as int));
                } else {
                    assert(raw =~= s@.subrange(from as int, end as int));
                }
            }
            out.push(line);
            assert(crate::text::views(out@) =~= crate::text::views(before).push(line@));
            assert(crate::text::views(out@) + lines_from(s@, e + 1) =~= crate::text::views(before)
                + lines_from(s@, from as int));
            from = e + 1;
        } else {
            let line = crate::text::slice_bytes(s, from, s.len());
            out.push(line);
            assert(crate::text::views(out@) =~= crate::text::views(before).push(line@));
            assert(crate::text::views(out@) + lines_from(s@, s@.len() as int) =~= crate::text::views(before)
                + lines_from(s@, from as int));
            from = s.len();
        }
    }
    assert(crate::text::views(out@) + lines_from(s@, from as int) =~= crate::text::views(out@));
    out
}

/// How many trailing bytes of a failed start's log output a diagnostic keeps.
pub const DIAGNOSTIC_TAIL_BYTES: usize = 1000;

/// `...`
pub open spec fn ellipsis() -> Seq<u8> {
    seq![46u8, 46u8, 46u8]
}

/// A UTF-8 continuation byte: one that cannot begin a character.
pub open spec fn is_continuation(b: u8) -> bool {
    128u8 <= b && b < 192u8
}

/// The first index from `i` on that is not among up to `n` continuation
/// bytes at `i`: where the character that `i` cuts through ends.
pub open spec fn skip_continuations(s: Seq<u8>, i: int, n: nat) -> int
    decreases n,
{
    if n > 0 && 0 <= i < s.len() && is_continuation(s[i]) {
        skip_continuations(s, i + 1, (n - 1) as nat)
    } else {
        i
    }
}

/// What a diagnostic shows of the log output `s`: all of it when short,
/// else `...` and the part of its last [`DIAGNOSTIC_TAIL_BYTES`] bytes that
/// begins on a character boundary (up to three continuation bytes of a
/// character that the cut splits are dropped).
pub open spec fn diagnostic_tail_of(s: Seq<u8>) -> Seq<u8> {
    if s.len() > DIAGNOSTIC_TAIL_BYTES {
        let start = skip_continuations(s, s.len() - DIAGNOSTIC_TAIL_BYTES, 3);
        ellipsis() + s.subrange(start, s.len() as int)
    } else {
        s
    }
}

/// The part of the log output `s` that a diagnostic shows.
pub fn diagnostic_tail(s: &[u8]) -> (r: Vec<u8>)
    ensures
        r@ == diagnostic_tail_of(s@),
{
    if s.len() > DIAGNOSTIC_TAIL_BYTES {
        let cut = s.len() - DIAGNOSTIC_TAIL_BYTES;
        let mut start: usize = cut;
        let mut left: usize = 3;
        while left > 0 && start < s.len() && 128u8 <= s[start] && s[start] < 192u8
            invariant
                cut <= start <= s@.len(),
                left <= 3,
                skip_continuations(s@, start as int, left as nat) == skip_continuations(
                    s@,
                    cut as int,
                    3,
                ),
            decreases left,
        {
            start = start + 1;
            left = left - 1;
        }
        let mut out: Vec<u8> = vec![46u8, 46u8, 46u8];
        let tail = crate::text::slice_bytes(s, start, s.len());
        crate::text::push_all(&mut out, tail.as_slice());
        assert(out@ =~= diagnostic_tail_of(s@));
        out
    } else {
        crate::text::slice_bytes(s, 0, s.len())
    }
}

/// The lifecycle phase of the streaming task.
pub enum StreamPhase {
    Stopped,
    Starting,
    Running,
}

/// Lifecycle control of the background streaming task: whether streaming is
/// on, and whether a task has been attached that a stop must cancel.
pub struct WatcherHandle {
    pub running: bool,
    pub task_attached: bool,
}

/// What a request to start streaming found.
#[derive(PartialEq, Eq, Structural, Debug, Clone, Copy)]
pub enum StreamStart {
    /// Streaming was already on: nothing to do.
    AlreadyRunning,
    /// Streaming is now on: the caller sets the cursor and starts the task.
    Begin,
}

/// Why a request to stop streaming was refused.
#[derive(PartialEq, Eq, Structural, Debug, Clone, Copy)]
pub enum StreamError {
    /// No streaming task was running.
    NotRunning,
}

impl WatcherHandle {
    /// The phase that the handle is in.
    pub open spec fn phase(&self) -> StreamPhase {
        if !self.running {
            StreamPhase::Stopped
        } else if !self.task_attached {
            StreamPhase::Starting
        } else {
            StreamPhase::Running
        }
    }

    /// A stopped handle with no task.
    pub fn new() -> (r: Self)
        ensures
            !r.running,
            !r.task_attached,
    {
        WatcherHandle { running: false, task_attached: false }
    }

    /// Whether streaming is on.
    pub fn is_running(&self) -> (r: bool)
        ensures
            r == self.running,
    {
        self.running
    }

    /// Turns streaming on or off without touching the task.
    pub fn set_running(&mut self, running: bool)
        ensures
            final(self).running == running,
            final(self).task_attached == old(self).task_attached,
    {
        self.running = running;
    }

    /// Records that the streaming task has been started.
    pub fn set_task_handle(&mut self)
        ensures
            final(self).task_attached,
            final(self).running == old(self).running,
    {
        self.task_attached = true;
    }

    /// Detaches the task and turns streaming off; says whether a task was
    /// attached, which the caller then cancels.
    pub fn abort(&mut self) -> (r: bool)
        ensures
            r == old(self).task_attached,
            !final(self).running,
            !final(self).task_attached,
    {
        let had = self.task_attached;
        self.task_attached = false;
        self.running = false;
        had
    }
}

/// Starts streaming unless it is already on: a second start changes nothing.
pub fn start_log_stream(handle: &mut WatcherHandle) -> (r: StreamStart)
    ensures
        old(handle).running ==> r == StreamStart::AlreadyRunning && *final(handle) == *old(handle),
        !old(handle).running ==> r == StreamStart::Begin && final(handle).running
            && final(handle).task_attached == old(handle).task_attached,
{
    if handle.is_running() {
        StreamStart::AlreadyRunning
    } else {
        handle.set_running(true);
        StreamStart::Begin
    }
}

/// Stops streaming: `Ok` with whether a task must be cancelled, or an error
/// when streaming was not on.
pub fn stop_log_stream(handle: &mut WatcherHandle) -> (r: Result<bool, StreamError>)
    ensures
        old(handle).running ==> r == Ok::<bool, StreamError>(old(handle).task_attached)
            && !final(handle).running && !final(handle).task_attached,
        !old(handle).running ==> r == Err::<bool, StreamError>(StreamError::NotRunning)
            && *final(handle) == *old(handle),
{
    if handle.is_running() {
        Ok(handle.abort())
    } else {
        Err(StreamError::NotRunning)
    }
}

} // verus!
