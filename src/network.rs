//! Network throughput: the interface counters summed from the kernel's
//! table, and the speeds derived from two readings at least a second apart.

use vstd::prelude::*;
use vstd::string::StringSliceAdditionalSpecFns;

use crate::cache::elapsed;
use crate::logtail::lines_of;
use crate::text::{is_space, parse_unsigned, parsed_unsigned, skip_space, slice_bytes, starts_with, starts_with_bytes};

verus! {

/// The first whitespace byte of `s` at or after `i`, or the length.
pub open spec fn next_space(s: Seq<u8>, i: int) -> int
    decreases s.len() - i,
{
    if i < 0 || i >= s.len() || is_space(s[i]) {
        if i < 0 { 0 } else { i }
    } else {
        next_space(s, i + 1)
    }
}

proof fn lemma_next_space(s: Seq<u8>, i: int)
    requires
        0 <= i <= s.len(),
    ensures
        i <= next_space(s, i) <= s.len(),
    decreases s.len() - i,
{
    if i < s.len() && !is_space(s[i]) {
        lemma_next_space(s, i + 1);
    }
}

proof fn lemma_skip(s: Seq<u8>, i: int)
    requires
        0 <= i <= s.len(),
    ensures
        i <= skip_space(s, i) <= s.len(),
        skip_space(s, i) < s.len() ==> !is_space(s[skip_space(s, i)]),
    decreases s.len() - i,
{
    if i < s.len() && is_space(s[i]) {
        lemma_skip(s, i + 1);
    }
}

#[via_fn]
proof fn words_from_decreases(s: Seq<u8>, i: int) {
    if 0 <= i <= s.len() {
        lemma_skip(s, i);
        let a = skip_space(s, i);
        if a < s.len() {
            lemma_next_space(s, a);
            assert(next_space(s, a) == next_space(s, a + 1));
            lemma_next_space(s, a + 1);
        }
    }
}

/// The whitespace-separated words of `s` from byte `i` on.
pub open spec fn words_from(s: Seq<u8>, i: int) -> Seq<Seq<u8>>
    decreases s.len() - i,
    via words_from_decreases
{
    if i < 0 || i > s.len() {
        Seq::empty()
    } else {
        let a = skip_space(s, i);
        if a >= s.len() {
            Seq::empty()
        } else {
            let e = next_space(s, a);
            seq![s.subrange(a, e)] + words_from(s, e)
        }
    }
}

/// The whitespace-separated words of `s`.
pub open spec fn words(s: Seq<u8>) -> Seq<Seq<u8>> {
    words_from(s, 0)
}

/// Splits `s` into its whitespace-separated words.
pub fn split_words(s: &[u8]) -> (r: Vec<Vec<u8>>)
    ensures
        crate::text::views(r@) == words(s@),
{
    let mut out: Vec<Vec<u8>> = Vec::new();
    let mut i: usize = 0;
    loop
        invariant
            i <= s@.len(),
            crate::text::views(out@) + words_from(s@, i as int) == words(s@),
        decreases s@.len() - i,
    {
        let mut a: usize = i;
        while a < s.len() && (s[a] == 32u8 || s[a] == 9u8 || s[a] == 10u8 || s[a] == 12u8 || s[a] == 13u8)
            invariant
                i <= a <= s@.len(),
                skip_space(s@, a as int) == skip_space(s@, i as int),
            decreases s.len() - a,
        {
            a = a + 1;
        }
        if a >= s.len() {
            assert(crate::text::views(out@) + words_from(s@, i as int) =~= crate::text::views(out@));
            return out;
        }
        let mut e: usize = a + 1;
        while e < s.len() && !(s[e] == 32u8 || s[e] == 9u8 || s[e] == 10u8 || s[e] == 12u8 || s[e] == 13u8)
            invariant
                a < e <= s@.len(),
                next_space(s@, e as int) == next_space(s@, a as int),
            decreases s.len() - e,
        {
            e = e + 1;
        }
        let ghost before = out@;
        let w = slice_bytes(s, a, e);
        out.push(w);
        assert(crate::text::views(out@) =~= crate::text::views(before).push(w@));
        assert(crate::text::views(out@) + words_from(s@, e as int) =~= crate::text::views(before)
            + words_from(s@, i as int));
        i = e;
    }
}

/// The value of a counter word: its number, or 0 when it is not one.
pub open spec fn counter_value(w: Seq<u8>) -> nat {
    match parsed_unsigned(w, u64::MAX as nat) {
        Some(v) => v,
        None => 0,
    }
}

/// Whether a table line describes a counted interface: it has at least ten
/// words and is not the loopback interface.
pub open spec fn counted_line(line: Seq<u8>) -> bool {
    words(line).len() >= 10 && !starts_with(words(line)[0], "lo:".spec_bytes())
}

/// `a + b`, or the largest `u64` if that does not fit.
pub open spec fn sat_add(a: nat, b: nat) -> nat {
    if a + b > u64::MAX {
        u64::MAX as nat
    } else {
        a + b
    }
}

/// The received and transmitted byte totals over the table lines `lines`.
pub open spec fn line_totals(lines: Seq<Seq<u8>>) -> (nat, nat)
    decreases lines.len(),
{
    if lines.len() == 0 {
        (0, 0)
    } else {
        let (rx, tx) = line_totals(lines.drop_last());
        let line = lines.last();
        if counted_line(line) {
            (sat_add(rx, counter_value(words(line)[1])), sat_add(tx, counter_value(words(line)[9])))
        } else {
            (rx, tx)
        }
    }
}

/// The received and transmitted byte totals in the kernel's interface
/// table `content`: its first two lines are headers; each later line with
/// at least ten words adds its second and tenth words, unless it describes
/// the loopback interface. Totals stop at the largest `u64`.
pub open spec fn table_totals(content: Seq<u8>) -> (nat, nat) {
    let lines = lines_of(content);
    if lines.len() <= 2 {
        (0, 0)
    } else {
        line_totals(lines.subrange(2, lines.len() as int))
    }
}

/// Sums the interface counters in the kernel's interface table.
pub fn get_network_stats_impl(content: &[u8]) -> (r: (u64, u64))
    ensures
        r.0 as nat == table_totals(content@).0,
        r.1 as nat == table_totals(content@).1,
{
    let lines = crate::logtail::split_lines(content);
    let ghost all = crate::text::views(lines@);
    if lines.len() <= 2 {
        return (0, 0);
    }
    let mut rx: u64 = 0;
    let mut tx: u64 = 0;
    let mut i: usize = 2;
    while i < lines.len()
        invariant
            2 <= i <= lines@.len(),
            all == crate::text::views(lines@),
            all == lines_of(content@),
            (rx as nat, tx as nat) == line_totals(all.subrange(2, i as int)),
        decreases lines.len() - i,
    {
        assert(all.subrange(2, i + 1).drop_last() =~= all.subrange(2, i as int));
        assert(all.subrange(2, i + 1).last() == lines@[i as int]@);
        let parts = split_words(lines[i].as_slice());
        if parts.len() >= 10 && !starts_with_bytes(parts[0].as_slice(), "lo:".as_bytes()) {
            let a = match parse_unsigned(parts[1].as_slice(), u64::MAX) {
                Some(v) => v,
                None => 0,
            };
            let b = match parse_unsigned(parts[9].as_slice(), u64::MAX) {
                Some(v) => v,
                None => 0,
            };
            rx = rx.saturating_add(a);
            tx = tx.saturating_add(b);
        }
        i = i + 1;
    }
    assert(all.subrange(2, lines@.len() as int) =~= all.subrange(2, all.len() as int));
    (rx, tx)
}

/// The shortest time between two readings, in milliseconds.
pub const MIN_UPDATE_INTERVAL_MS: u64 = 1000;

/// Throughput since the previous reading and the current totals, in bytes.
#[derive(PartialEq, Eq, Structural, Debug, Clone, Copy)]
pub struct NetworkStats {
    pub upload_speed: u64,
    pub download_speed: u64,
    pub total_upload: u64,
    pub total_download: u64,
}

/// The last reading of the interface totals and when it was taken.
pub struct NetworkMonitor {
    pub last_received: u64,
    pub last_transmitted: u64,
    pub last_update: Option<u64>,
}

impl NetworkMonitor {
    /// A monitor whose first reading, `(received, transmitted)`, was taken
    /// at `now`.
    pub fn new(totals: (u64, u64), now: u64) -> (r: Self)
        ensures
            r.last_received == totals.0,
            r.last_transmitted == totals.1,
            r.last_update == Some(now),
    {
        NetworkMonitor { last_received: totals.0, last_transmitted: totals.1, last_update: Some(now) }
    }

    /// Whether a new reading is due at `now`.
    pub open spec fn due(&self, now: u64) -> bool {
        match self.last_update {
            Some(t) => elapsed(t, now) >= MIN_UPDATE_INTERVAL_MS,
            None => true,
        }
    }

    /// Whether a new reading is due at `now`.
    pub fn should_update(&self, now: u64) -> (r: bool)
        ensures
            r == self.due(now),
    {
        match self.last_update {
            Some(t) => {
                let age: u64 = if now >= t { now - t } else { 0 };
                age >= MIN_UPDATE_INTERVAL_MS
            },
            None => true,
        }
    }

    /// The statistics at `now`. When a reading is due, `totals` is that
    /// reading: the speeds are its growth over the last one (0 where a
    /// counter fell) and it becomes the last reading. Otherwise `totals` is
    /// not used, the speeds are 0 and the totals are the last reading's.
    pub fn get_stats(&mut self, now: u64, totals: (u64, u64)) -> (r: NetworkStats)
        ensures
            old(self).due(now) ==> r == (NetworkStats {
                upload_speed: if totals.1 >= old(self).last_transmitted {
                    (totals.1 - old(self).last_transmitted) as u64
                } else {
                    0
                },
                download_speed: if totals.0 >= old(self).last_received {
                    (totals.0 - old(self).last_received) as u64
                } else {
                    0
                },
                total_upload: totals.1,
                total_download: totals.0,
            }) && final(self).last_received == totals.0 && final(self).last_transmitted
                == totals.1 && final(self).last_update == Some(now),
            !old(self).due(now) ==> r == (NetworkStats {
                upload_speed: 0,
                download_speed: 0,
                total_upload: old(self).last_transmitted,
                total_download: old(self).last_received,
            }) && *final(self) == *old(self),
    {
        if !self.should_update(now) {
            return NetworkStats {
                upload_speed: 0,
                download_speed: 0,
                total_upload: self.last_transmitted,
                total_download: self.last_received,
            };
        }
        let download_speed = totals.0.saturating_sub(self.last_received);
        let upload_speed = totals.1.saturating_sub(self.last_transmitted);
        self.last_received = totals.0;
        self.last_transmitted = totals.1;
        self.last_update = Some(now);
        NetworkStats {
            upload_speed,
            download_speed,
            total_upload: totals.1,
            total_download: totals.0,
        }
    }
}

} // verus!
