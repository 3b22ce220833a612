//! The parsing behind command resolution: the interpreter's version line,
//! the `export PATH=` lines of shell startup files, the install location
//! that `pip show` reports, and the list of directories searched last.
//!
//! Paths are bytes here; the caller runs the probes and reads the files.

use vstd::prelude::*;
use vstd::string::StringSliceAdditionalSpecFns;

use crate::logtail::lines_of;
use crate::text::{
    parse_unsigned, parsed_unsigned, push_all, slice_bytes, split_bytes, split_by, starts_with,
    starts_with_bytes, trim_bytes, trimmed, views,
};

verus! {

/// `Python `
pub open spec fn version_prefix() -> Seq<u8> {
    "Python ".spec_bytes()
}

/// The version part of an interpreter's `--version` line: what follows
/// `Python `, or the whole line.
pub open spec fn version_body(s: Seq<u8>) -> Seq<u8> {
    if starts_with(s, version_prefix()) {
        s.subrange(version_prefix().len() as int, s.len() as int)
    } else {
        s
    }
}

/// The `(major, minor, patch)` that a version line names: its first two
/// dot-separated parts must be numbers; a missing or unreadable third part
/// counts as 0.
pub open spec fn python_version(s: Seq<u8>) -> Option<(u32, u32, u32)> {
    let parts = split_by(version_body(s), 46u8);
    if parts.len() >= 2 {
        match (parsed_unsigned(parts[0], u32::MAX as nat), parsed_unsigned(parts[1], u32::MAX as nat)) {
            (Some(major), Some(minor)) => {
                let patch: u32 = if parts.len() >= 3 {
                    match parsed_unsigned(parts[2], u32::MAX as nat) {
                        Some(p) => p as u32,
                        None => 0,
                    }
                } else {
                    0
                };
                Some((major as u32, minor as u32, patch))
            },
            _ => None,
        }
    } else {
        None
    }
}

/// Parses an interpreter version line such as `Python 3.11.0`.
pub fn parse_python_version(version_str: &str) -> (r: Option<(u32, u32, u32)>)
    ensures
        r == python_version(version_str.spec_bytes()),
{
    let s = version_str.as_bytes();
    let prefix = "Python ".as_bytes();
    let body: Vec<u8> = if starts_with_bytes(s, prefix) {
        slice_bytes(s, prefix.len(), s.len())
    } else {
        slice_bytes(s, 0, s.len())
    };
    assert(body@ == version_body(s@));
    let parts = split_bytes(body.as_slice(), 46u8);
    if parts.len() < 2 {
        return None;
    }
    assert(parts@[0]@ == split_by(body@, 46u8)[0]);
    assert(parts@[1]@ == split_by(body@, 46u8)[1]);
    let major = match parse_unsigned(parts[0].as_slice(), u32::MAX as u64) {
        Some(v) => v as u32,
        None => return None,
    };
    let minor = match parse_unsigned(parts[1].as_slice(), u32::MAX as u64) {
        Some(v) => v as u32,
        None => return None,
    };
    let patch: u32 = if parts.len() >= 3 {
        assert(parts@[2]@ == split_by(body@, 46u8)[2]);
        match parse_unsigned(parts[2].as_slice(), u32::MAX as u64) {
            Some(v) => v as u32,
            None => 0,
        }
    } else {
        0
    };
    Some((major, minor, patch))
}

/// Whether an interpreter of this version is recent enough (3.11 or later).
pub open spec fn version_sufficient(v: (u32, u32, u32)) -> bool {
    v.0 > 3 || (v.0 == 3 && v.1 >= 11)
}

/// Whether an interpreter of this version is recent enough (3.11 or later).
pub fn is_supported_python(v: (u32, u32, u32)) -> (r: bool)
    ensures
        r == version_sufficient(v),
{
    v.0 > 3 || (v.0 == 3 && v.1 >= 11)
}

/// A double or single quote.
pub open spec fn is_quote(b: u8) -> bool {
    b == 34u8 || b == 39u8
}

/// `s` with every quote removed.
pub open spec fn without_quotes(s: Seq<u8>) -> Seq<u8>
    decreases s.len(),
{
    if s.len() == 0 {
        Seq::empty()
    } else if is_quote(s.last()) {
        without_quotes(s.drop_last())
    } else {
        without_quotes(s.drop_last()).push(s.last())
    }
}

/// `s` with every quote removed.
pub fn remove_quotes(s: &[u8]) -> (r: Vec<u8>)
    ensures
        r@ == without_quotes(s@),
{
    let mut out: Vec<u8> = Vec::new();
    let mut i: usize = 0;
    while i < s.len()
        invariant
            i <= s@.len(),
            out@ == without_quotes(s@.subrange(0, i as int)),
        decreases s.len() - i,
    {
        assert(s@.subrange(0, i + 1).drop_last() =~= s@.subrange(0, i as int));
        if s[i] != 34u8 && s[i] != 39u8 {
            out.push(s[i]);
        }
        i = i + 1;
    }
    assert(s@.subrange(0, s@.len() as int) =~= s@);
    out
}

/// `export PATH=`
pub open spec fn export_prefix() -> Seq<u8> {
    "export PATH=".spec_bytes()
}

/// The directories that one line of a shell startup file adds: only a
/// plain `export PATH=...` line counts; its value up to any further `=`,
/// trimmed and without quotes, is split at `:`.
pub open spec fn exported_pieces(line: Seq<u8>) -> Seq<Seq<u8>> {
    let t = trimmed(line);
    let parts = split_by(t, 61u8);
    if starts_with(t, export_prefix()) && parts.len() >= 2 {
        split_by(without_quotes(trimmed(parts[1])), 58u8)
    } else {
        Seq::empty()
    }
}

/// `list` with `p` added at the end, unless `p` is empty or already there.
pub open spec fn add_unique(list: Seq<Seq<u8>>, p: Seq<u8>) -> Seq<Seq<u8>> {
    if p.len() == 0 || list.contains(p) {
        list
    } else {
        list.push(p)
    }
}

/// `list` with each of `ps` added in turn, per [`add_unique`].
pub open spec fn add_all(list: Seq<Seq<u8>>, ps: Seq<Seq<u8>>) -> Seq<Seq<u8>>
    decreases ps.len(),
{
    if ps.len() == 0 {
        list
    } else {
        add_unique(add_all(list, ps.drop_last()), ps.last())
    }
}

/// `list` with the directories that each of `lines` exports added in turn.
pub open spec fn add_exports(list: Seq<Seq<u8>>, lines: Seq<Seq<u8>>) -> Seq<Seq<u8>>
    decreases lines.len(),
{
    if lines.len() == 0 {
        list
    } else {
        add_all(add_exports(list, lines.drop_last()), exported_pieces(lines.last()))
    }
}

/// `list` with the directories that each file of `files` exports added in
/// turn, file by file and line by line.
pub open spec fn add_file_exports(list: Seq<Seq<u8>>, files: Seq<Seq<u8>>) -> Seq<Seq<u8>>
    decreases files.len(),
{
    if files.len() == 0 {
        list
    } else {
        add_exports(add_file_exports(list, files.drop_last()), lines_of(files.last()))
    }
}

/// Whether two byte strings are equal.
fn same_bytes(a: &[u8], b: &[u8]) -> (r: bool)
    ensures
        r == (a@ == b@),
{
    if a.len() != b.len() {
        return false;
    }
    let mut i: usize = 0;
    while i < a.len()
        invariant
            a@.len() == b@.len(),
            i <= a@.len(),
            forall|j: int| 0 <= j < i ==> a@[j] == b@[j],
        decreases a.len() - i,
    {
        if a[i] != b[i] {
            return false;
        }
        i = i + 1;
    }
    assert(a@ =~= b@);
    true
}

/// Adds `p` to `list` unless it is empty or already there.
fn push_unique(list: &mut Vec<Vec<u8>>, p: Vec<u8>)
    ensures
        views(final(list)@) == add_unique(views(old(list)@), p@),
{
    if p.len() == 0 {
        return;
    }
    let mut i: usize = 0;
    while i < list.len()
        invariant
            i <= list@.len(),
            forall|j: int| 0 <= j < i ==> list@[j]@ != p@,
        decreases list.len() - i,
    {
        if same_bytes(list[i].as_slice(), p.as_slice()) {
            assert(views(list@)[i as int] == p@);
            return;
        }
        i = i + 1;
    }
    assert(!views(list@).contains(p@)) by {
        if views(list@).contains(p@) {
            let k = choose|k: int| 0 <= k < views(list@).len() && views(list@)[k] == p@;
            assert(list@[k]@ == p@);
        }
    }
    let ghost before = list@;
    list.push(p);
    assert(views(list@) =~= views(before).push(p@));
}

/// Adds each of `ps` to `list` in turn, per [`add_unique`].
fn push_all_unique(list: &mut Vec<Vec<u8>>, ps: Vec<Vec<u8>>)
    ensures
        views(final(list)@) == add_all(views(old(list)@), views(ps@)),
{
    let mut i: usize = 0;
    while i < ps.len()
        invariant
            i <= ps@.len(),
            views(list@) == add_all(views(old(list)@), views(ps@).subrange(0, i as int)),
        decreases ps.len() - i,
    {
        let ghost pre = views(ps@).subrange(0, i as int);
        assert(views(ps@).subrange(0, i + 1).drop_last() =~= pre);
        push_unique(list, ps[i].clone());
        i = i + 1;
    }
    assert(views(ps@).subrange(0, ps@.len() as int) =~= views(ps@));
}

/// The directories that one line of a shell startup file adds.
pub fn line_exports(line: &[u8]) -> (r: Vec<Vec<u8>>)
    ensures
        views(r@) == exported_pieces(line@),
{
    let t = trim_bytes(line);
    let parts = split_bytes(t.as_slice(), 61u8);
    if starts_with_bytes(t.as_slice(), "export PATH=".as_bytes()) && parts.len() >= 2 {
        assert(parts@[1]@ == split_by(t@, 61u8)[1]);
        let value = trim_bytes(parts[1].as_slice());
        let unquoted = remove_quotes(value.as_slice());
        split_bytes(unquoted.as_slice(), 58u8)
    } else {
        let r: Vec<Vec<u8>> = Vec::new();
        assert(views(r@) =~= Seq::<Seq<u8>>::empty());
        r
    }
}

/// Adds to `list` the directories that the shell startup file `content`
/// exports, line by line, skipping empty and repeated ones.
pub fn add_exported_dirs(list: &mut Vec<Vec<u8>>, content: &[u8])
    ensures
        views(final(list)@) == add_exports(views(old(list)@), lines_of(content@)),
{
    let lines = crate::logtail::split_lines(content);
    let mut i: usize = 0;
    while i < lines.len()
        invariant
            i <= lines@.len(),
            views(lines@) == lines_of(content@),
            views(list@) == add_exports(views(old(list)@), views(lines@).subrange(0, i as int)),
        decreases lines.len() - i,
    {
        let ghost pre = views(lines@).subrange(0, i as int);
        assert(views(lines@).subrange(0, i + 1).drop_last() =~= pre);
        assert(views(lines@).subrange(0, i + 1).last() == lines@[i as int]@);
        let pieces = line_exports(lines[i].as_slice());
        push_all_unique(list, pieces);
        i = i + 1;
    }
    assert(views(lines@).subrange(0, lines@.len() as int) =~= views(lines@));
}

/// The directories under the home directory `h` that are searched first.
pub open spec fn home_dirs(h: Seq<u8>) -> Seq<Seq<u8>> {
    seq![
        h + "/miniconda3/bin".spec_bytes(),
        h + "/miniconda3/condabin".spec_bytes(),
        h + "/anaconda3/bin".spec_bytes(),
        h + "/anaconda3/condabin".spec_bytes(),
        h + "/.local/bin".spec_bytes(),
    ]
}

/// The system directories searched last.
pub open spec fn system_dirs(macos: bool) -> Seq<Seq<u8>> {
    if macos {
        seq![
            "/opt/homebrew/bin".spec_bytes(),
            "/usr/local/bin".spec_bytes(),
            "/home/linuxbrew/.linuxbrew/bin".spec_bytes(),
            "/usr/bin".spec_bytes(),
            "/bin".spec_bytes(),
            "/usr/sbin".spec_bytes(),
            "/sbin".spec_bytes(),
        ]
    } else {
        seq!["/usr/local/bin".spec_bytes(), "/usr/bin".spec_bytes(), "/bin".spec_bytes()]
    }
}

/// The directories searched when neither `which` nor the package manager
/// found a command: with a home directory `h`, the well-known directories
/// under it and then what the shell startup files `rc_files` export (in
/// order, skipping repeats); then the system directories.
pub open spec fn search_dirs(home: Option<Seq<u8>>, rc_files: Seq<Seq<u8>>, macos: bool) -> Seq<Seq<u8>> {
    match home {
        Some(h) => add_file_exports(home_dirs(h), rc_files) + system_dirs(macos),
        None => system_dirs(macos),
    }
}

fn joined(h: &[u8], tail: &str) -> (r: Vec<u8>)
    ensures
        r@ == h@ + tail.spec_bytes(),
{
    let mut v = slice_bytes(h, 0, h.len());
    assert(v@ =~= h@);
    push_all(&mut v, tail.as_bytes());
    v
}

fn bytes_of(s: &str) -> (r: Vec<u8>)
    ensures
        r@ == s.spec_bytes(),
{
    let b = s.as_bytes();
    slice_bytes(b, 0, b.len())
}

fn push_system_dirs(list: &mut Vec<Vec<u8>>, macos: bool)
    ensures
        views(final(list)@) == views(old(list)@) + system_dirs(macos),
{
    let ghost before = views(list@);
    if macos {
        list.push(bytes_of("/opt/homebrew/bin"));
        list.push(bytes_of("/usr/local/bin"));
        list.push(bytes_of("/home/linuxbrew/.linuxbrew/bin"));
        list.push(bytes_of("/usr/bin"));
        list.push(bytes_of("/bin"));
        list.push(bytes_of("/usr/sbin"));
        list.push(bytes_of("/sbin"));
    } else {
        list.push(bytes_of("/usr/local/bin"));
        list.push(bytes_of("/usr/bin"));
        list.push(bytes_of("/bin"));
    }
    assert(views(list@) =~= before + system_dirs(macos));
}

/// The directories to search for a command, per [`search_dirs`]: `home` is
/// the home directory if known, `rc_files` the contents of the shell startup
/// files that exist, in the order `.zshenv`, `.zshrc`, `.bash_profile`,
/// `.bashrc`, `.profile`.
pub fn get_user_path(home: Option<&[u8]>, rc_files: &Vec<Vec<u8>>, macos: bool) -> (r: Vec<Vec<u8>>)
    ensures
        views(r@) == search_dirs(
            match home {
                Some(h) => Some(h@),
                None => None,
            },
            views(rc_files@),
            macos,
        ),
{
    let mut list: Vec<Vec<u8>> = Vec::new();
    if let Some(h) = home {
        list.push(joined(h, "/miniconda3/bin"));
        list.push(joined(h, "/miniconda3/condabin"));
        list.push(joined(h, "/anaconda3/bin"));
        list.push(joined(h, "/anaconda3/condabin"));
        list.push(joined(h, "/.local/bin"));
        assert(views(list@) =~= home_dirs(h@));
        let mut i: usize = 0;
        while i < rc_files.len()
            invariant
                i <= rc_files@.len(),
                views(list@) == add_file_exports(home_dirs(h@), views(rc_files@).subrange(0, i as int)),
            decreases rc_files.len() - i,
        {
            assert(views(rc_files@).subrange(0, i + 1).drop_last() =~= views(rc_files@).subrange(0, i as int));
            assert(views(rc_files@).subrange(0, i + 1).last() == rc_files@[i as int]@);
            add_exported_dirs(&mut list, rc_files[i].as_slice());
            i = i + 1;
        }
        assert(views(rc_files@).subrange(0, rc_files@.len() as int) =~= views(rc_files@));
    } else {
        assert(views(list@) =~= Seq::<Seq<u8>>::empty());
    }
    push_system_dirs(&mut list, macos);
    list
}

/// `Location:`
pub open spec fn location_key() -> Seq<u8> {
    "Location:".spec_bytes()
}

/// `s` with every leading repetition of `p` removed.
pub open spec fn strip_repeated(s: Seq<u8>, p: Seq<u8>) -> Seq<u8>
    decreases s.len(),
{
    if p.len() > 0 && starts_with(s, p) {
        strip_repeated(s.subrange(p.len() as int, s.len() as int), p)
    } else {
        s
    }
}

/// The install locations that `pip show` output names, one for each line
/// that begins with `Location:`, trimmed.
pub open spec fn pip_locations(out: Seq<Seq<u8>>) -> Seq<Seq<u8>>
    decreases out.len(),
{
    if out.len() == 0 {
        Seq::empty()
    } else if starts_with(out.last(), location_key()) {
        pip_locations(out.drop_last()).push(trimmed(strip_repeated(out.last(), location_key())))
    } else {
        pip_locations(out.drop_last())
    }
}

fn strip_key(s: &[u8]) -> (r: Vec<u8>)
    ensures
        r@ == strip_repeated(s@, location_key()),
{
    let key = "Location:".as_bytes();
    let mut start: usize = 0;
    assert(s@.subrange(0, s@.len() as int) =~= s@);
    while start <= s.len() && starts_with_bytes(crate::text::slice_bytes(s, start, s.len()).as_slice(), key) && key.len() > 0
        invariant
            start <= s@.len(),
            strip_repeated(s@.subrange(start as int, s@.len() as int), key@) == strip_repeated(s@, key@),
            key@ == location_key(),
        decreases s.len() - start,
    {
        let ghost rest = s@.subrange(start as int, s@.len() as int);
        assert(rest.subrange(key@.len() as int, rest.len() as int) =~= s@.subrange(start + key@.len(), s@.len() as int));
        start = start + key.len();
    }
    slice_bytes(s, start, s.len())
}

/// The install locations that the `pip show` output `out` names.
pub fn pip_show_locations(out: &[u8]) -> (r: Vec<Vec<u8>>)
    ensures
        views(r@) == pip_locations(lines_of(out@)),
{
    let lines = crate::logtail::split_lines(out);
    let mut r: Vec<Vec<u8>> = Vec::new();
    let mut i: usize = 0;
    while i < lines.len()
        invariant
            i <= lines@.len(),
            views(lines@) == lines_of(out@),
            views(r@) == pip_locations(views(lines@).subrange(0, i as int)),
        decreases lines.len() - i,
    {
        let ghost pre = views(lines@).subrange(0, i as int);
        assert(views(lines@).subrange(0, i + 1).drop_last() =~= pre);
        assert(views(lines@).subrange(0, i + 1).last() == lines@[i as int]@);
        if starts_with_bytes(lines[i].as_slice(), "Location:".as_bytes()) {
            let stripped = strip_key(lines[i].as_slice());
            let ghost before = r@;
            r.push(trim_bytes(stripped.as_slice()));
            assert(views(r@) =~= views(before).push(r@.last()@));
        }
        i = i + 1;
    }
    assert(views(lines@).subrange(0, lines@.len() as int) =~= views(lines@));
    r
}

/// The path of `command` in the directory `dir`, as `Path::join` forms it
/// for a relative command: one `/` between them unless `dir` ends in one; an
/// absolute command stands alone.
pub open spec fn joined_path(dir: Seq<u8>, command: Seq<u8>) -> Seq<u8> {
    if command.len() > 0 && command[0] == 47u8 {
        command
    } else if dir.len() == 0 || dir.last() == 47u8 {
        dir + command
    } else {
        dir + seq![47u8] + command
    }
}

/// The path of `command` in the directory `dir`.
pub fn join_path(dir: &[u8], command: &[u8]) -> (r: Vec<u8>)
    ensures
        r@ == joined_path(dir@, command@),
{
    if command.len() > 0 && command[0] == 47u8 {
        return slice_bytes(command, 0, command.len());
    }
    let mut out = slice_bytes(dir, 0, dir.len());
    if dir.len() > 0 && dir[dir.len() - 1] != 47u8 {
        out.push(47u8);
    }
    push_all(&mut out, command);
    assert(out@ =~= joined_path(dir@, command@));
    out
}

/// `nanobot`: the one command that the package manager is asked about.
pub open spec fn packaged_command() -> Seq<u8> {
    "nanobot".spec_bytes()
}

/// Where a command search stands.
#[derive(PartialEq, Eq, Structural, Debug, Clone, Copy)]
pub enum SearchStage {
    /// Waiting for the platform's `which`.
    Which,
    /// Waiting for the package manager's install location.
    Package,
    /// Waiting for the shell startup files.
    StartupFiles,
    /// Waiting to hear whether the candidate in directory `next` exists.
    Probe,
    /// Finished.
    Done,
}

/// What the caller observed while carrying out the last action.
pub enum SearchEvent {
    /// What `which` or the package manager found, if anything.
    Located(Option<Vec<u8>>),
    /// The home directory, if known, and the contents of the shell startup
    /// files that exist, in search order.
    StartupFiles { home: Option<Vec<u8>>, contents: Vec<Vec<u8>>, macos: bool },
    /// Whether the probed path exists.
    Exists(bool),
}

/// What the caller is asked to do next.
pub enum SearchAction {
    /// Run the platform's `which` on the command.
    Which(Vec<u8>),
    /// Ask the package manager where the worker's package is installed.
    AskPackageManager,
    /// Read the shell startup files.
    ReadStartupFiles,
    /// Say whether this path exists.
    Probe(Vec<u8>),
    /// The search is over, with the path found, if any.
    Finish(Option<Vec<u8>>),
}

/// The event as the search reads it: a located path that is empty counts
/// as nothing found.
pub open spec fn reported(event: SearchEvent) -> SearchEvent {
    match event {
        SearchEvent::Located(Some(p)) => if p@.len() == 0 {
            SearchEvent::Located(None)
        } else {
            event
        },
        _ => event,
    }
}

/// A search for a command: `which` first, then (for the worker alone) the
/// package manager, then each listed directory in turn; the first success
/// wins.
pub struct CommandSearch {
    pub command: Vec<u8>,
    pub stage: SearchStage,
    pub dirs: Vec<Vec<u8>>,
    pub next: usize,
}

fn finish_after_which(search: &mut CommandSearch) -> (r: SearchAction)
    ensures
        final(search).command == old(search).command,
        final(search).dirs == old(search).dirs,
        final(search).next == old(search).next,
        old(search).command@ == packaged_command() ==> final(search).stage == SearchStage::Package
            && r is AskPackageManager,
        old(search).command@ != packaged_command() ==> final(search).stage
            == SearchStage::StartupFiles && r is ReadStartupFiles,
{
    if same_bytes(search.command.as_slice(), "nanobot".as_bytes()) {
        search.stage = SearchStage::Package;
        SearchAction::AskPackageManager
    } else {
        search.stage = SearchStage::StartupFiles;
        SearchAction::ReadStartupFiles
    }
}

impl CommandSearch {
    /// A search for `command`, which begins with `which`.
    pub fn new(command: Vec<u8>) -> (r: (CommandSearch, SearchAction))
        ensures
            r.0.command == command,
            r.0.stage == SearchStage::Which,
            match r.1 {
                SearchAction::Which(c) => c@ == command@,
                _ => false,
            },
    {
        let c = slice_bytes(command.as_slice(), 0, command.len());
        (CommandSearch { command, stage: SearchStage::Which, dirs: Vec::new(), next: 0 }, SearchAction::Which(c))
    }

    /// Takes the event that the last action produced and gives the next
    /// action. An event that the stage does not wait for ends the search
    /// with nothing found; a path that is found is never empty.
    pub fn step(&mut self, event: SearchEvent) -> (r: SearchAction)
        ensures
            final(self).command == old(self).command,
            match r {
                SearchAction::Finish(Some(p)) => p@.len() > 0,
                _ => true,
            },
            (match (old(self).stage, reported(event)) {
                (SearchStage::Which, SearchEvent::Located(Some(p))) => r == SearchAction::Finish(
                    Some(p),
                ) && final(self).stage == SearchStage::Done,
                (SearchStage::Which, SearchEvent::Located(None)) => if old(self).command@
                    == packaged_command() {
                    r is AskPackageManager && final(self).stage == SearchStage::Package
                } else {
                    r is ReadStartupFiles && final(self).stage == SearchStage::StartupFiles
                },
                (SearchStage::Package, SearchEvent::Located(Some(p))) => r == SearchAction::Finish(
                    Some(p),
                ) && final(self).stage == SearchStage::Done,
                (SearchStage::Package, SearchEvent::Located(None)) => r is ReadStartupFiles
                    && final(self).stage == SearchStage::StartupFiles,
                (SearchStage::StartupFiles, SearchEvent::StartupFiles { home, contents, macos }) => {
                    &&& views(final(self).dirs@) == search_dirs(
                        match home {
                            Some(h) => Some(h@),
                            None => None,
                        },
                        views(contents@),
                        macos,
                    )
                    &&& final(self).next == 0
                    &&& final(self).dirs@.len() == 0 ==> r == SearchAction::Finish(None)
                        && final(self).stage == SearchStage::Done
                    &&& final(self).dirs@.len() > 0 ==> final(self).stage == SearchStage::Probe
                        && match r {
                        SearchAction::Probe(p) => p@ == joined_path(
                            final(self).dirs@[0]@,
                            old(self).command@,
                        ),
                        _ => false,
                    }
                },
                (SearchStage::Probe, SearchEvent::Exists(true)) => old(self).next < old(
                    self,
                ).dirs@.len() ==> final(self).stage == SearchStage::Done && {
                    let p = joined_path(old(self).dirs@[old(self).next as int]@, old(self).command@);
                    match r {
                        SearchAction::Finish(Some(q)) => q@ == p,
                        SearchAction::Finish(None) => p.len() == 0,
                        _ => false,
                    }
                },
                (SearchStage::Probe, SearchEvent::Exists(false)) => {
                    &&& final(self).dirs == old(self).dirs
                    &&& old(self).next + 1 >= old(self).dirs@.len() ==> r == SearchAction::Finish(
                        None,
                    ) && final(self).stage == SearchStage::Done
                    &&& old(self).next + 1 < old(self).dirs@.len() ==> final(self).stage
                        == SearchStage::Probe && final(self).next == old(self).next + 1 && match r {
                        SearchAction::Probe(p) => p@ == joined_path(
                            old(self).dirs@[old(self).next + 1]@,
                            old(self).command@,
                        ),
                        _ => false,
                    }
                },
                _ => r == SearchAction::Finish(None) && final(self).stage == SearchStage::Done,
            }),
    {
        let stage = self.stage;
        let event = match event {
            SearchEvent::Located(Some(p)) => if p.len() == 0 {
                SearchEvent::Located(None)
            } else {
                SearchEvent::Located(Some(p))
            },
            other => other,
        };
        match (stage, event) {
            (SearchStage::Which, SearchEvent::Located(Some(p))) => {
                self.stage = SearchStage::Done;
                SearchAction::Finish(Some(p))
            },
            (SearchStage::Which, SearchEvent::Located(None)) => finish_after_which(self),
            (SearchStage::Package, SearchEvent::Located(Some(p))) => {
                self.stage = SearchStage::Done;
                SearchAction::Finish(Some(p))
            },
            (SearchStage::Package, SearchEvent::Located(None)) => {
                self.stage = SearchStage::StartupFiles;
                SearchAction::ReadStartupFiles
            },
            (SearchStage::StartupFiles, SearchEvent::StartupFiles { home, contents, macos }) => {
                let dirs = match &home {
                    Some(h) => get_user_path(Some(h.as_slice()), &contents, macos),
                    None => get_user_path(None, &contents, macos),
                };
                self.dirs = dirs;
                self.next = 0;
                if self.dirs.len() == 0 {
                    self.stage = SearchStage::Done;
                    SearchAction::Finish(None)
                } else {
                    self.stage = SearchStage::Probe;
                    SearchAction::Probe(join_path(self.dirs[0].as_slice(), self.command.as_slice()))
                }
            },
            (SearchStage::Probe, SearchEvent::Exists(true)) => {
                self.stage = SearchStage::Done;
                if self.next < self.dirs.len() {
                    let p = join_path(self.dirs[self.next].as_slice(), self.command.as_slice());
                    if p.len() == 0 {
                        SearchAction::Finish(None)
                    } else {
                        SearchAction::Finish(Some(p))
                    }
                } else {
                    SearchAction::Finish(None)
                }
            },
            (SearchStage::Probe, SearchEvent::Exists(false)) => {
                if self.next >= self.dirs.len() || self.dirs.len() - self.next <= 1 {
                    self.stage = SearchStage::Done;
                    SearchAction::Finish(None)
                } else {
                    self.next = self.next + 1;
                    SearchAction::Probe(
                        join_path(self.dirs[self.next].as_slice(), self.command.as_slice()),
                    )
                }
            },
            _ => {
                self.stage = SearchStage::Done;
                SearchAction::Finish(None)
            },
        }
    }
}

/// `s` without trailing `/` bytes, keeping a lone `/`.
pub open spec fn without_trailing_slashes(s: Seq<u8>) -> Seq<u8>
    decreases s.len(),
{
    if s.len() > 1 && s.last() == 47u8 {
        without_trailing_slashes(s.drop_last())
    } else {
        s
    }
}

/// The index of the last `/` in `s` before `end`, or -1.
pub open spec fn last_slash(s: Seq<u8>, end: int) -> int
    decreases end,
{
    if end <= 0 || end > s.len() {
        -1
    } else if s[end - 1] == 47u8 {
        end - 1
    } else {
        last_slash(s, end - 1)
    }
}

/// The directory that holds a package's executables, given the install
/// location `pip show` reports: beside a `site-packages` directory, the
/// sibling `bin` (`Scripts` on Windows); otherwise the location itself.
pub open spec fn package_bin_dir(location: Seq<u8>, windows: bool) -> Seq<u8> {
    let t = without_trailing_slashes(location);
    let k = last_slash(t, t.len() as int);
    let last = t.subrange(k + 1, t.len() as int);
    let bin = if windows { "Scripts".spec_bytes() } else { "bin".spec_bytes() };
    if last == "site-packages".spec_bytes() {
        let parent = if k == 0 { seq![47u8] } else if k < 0 { Seq::empty() } else { t.subrange(0, k) };
        joined_path(parent, bin)
    } else {
        location
    }
}

proof fn lemma_last_slash(s: Seq<u8>, end: int)
    requires
        0 <= end <= s.len(),
    ensures
        -1 <= last_slash(s, end) < end,
    decreases end,
{
    if end > 0 && s[end - 1] != 47u8 {
        lemma_last_slash(s, end - 1);
    }
}

/// The directory that holds a package's executables, per [`package_bin_dir`].
pub fn bin_dir_for(location: &[u8], windows: bool) -> (r: Vec<u8>)
    ensures
        r@ == package_bin_dir(location@, windows),
{
    let mut n: usize = location.len();
    assert(location@.subrange(0, location@.len() as int) =~= location@);
    while n > 1 && location[n - 1] == 47u8
        invariant
            n <= location@.len(),
            location@.len() > 1 ==> n >= 1,
            without_trailing_slashes(location@.subrange(0, n as int)) == without_trailing_slashes(location@),
        decreases n,
    {
        assert(location@.subrange(0, n as int).drop_last() =~= location@.subrange(0, n - 1));
        n = n - 1;
    }
    let t = slice_bytes(location, 0, n);
    assert(without_trailing_slashes(t@) == t@);
    assert(t@ == without_trailing_slashes(location@));
    let mut k: usize = n;
    while k > 0 && t[k - 1] != 47u8
        invariant
            k <= t@.len(),
            last_slash(t@, k as int) == last_slash(t@, t@.len() as int),
        decreases k,
    {
        k = k - 1;
    }
    proof {
        lemma_last_slash(t@, t@.len() as int);
    }
    let has_slash = k > 0;
    let start: usize = if has_slash { k } else { 0 };
    let last = slice_bytes(t.as_slice(), start, n);
    assert(last@ == t@.subrange(last_slash(t@, t@.len() as int) + 1, t@.len() as int));
    if same_bytes(last.as_slice(), "site-packages".as_bytes()) {
        let parent: Vec<u8> = if has_slash && k - 1 == 0 {
            let p = vec![47u8];
            assert(p@ =~= seq![47u8]);
            p
        } else if !has_slash {
            Vec::new()
        } else {
            slice_bytes(t.as_slice(), 0, k - 1)
        };
        let bin = if windows { "Scripts".as_bytes() } else { "bin".as_bytes() };
        join_path(parent.as_slice(), bin)
    } else {
        slice_bytes(location, 0, location.len())
    }
}

/// The path that `which` printed: its first output line, trimmed, unless
/// there is none or it is empty.
pub open spec fn which_path(out: Seq<u8>) -> Option<Seq<u8>> {
    let lines = lines_of(out);
    if lines.len() == 0 || trimmed(lines[0]).len() == 0 {
        None
    } else {
        Some(trimmed(lines[0]))
    }
}

/// The path that `which` printed on standard output `out`, if any.
pub fn which_output_path(out: &[u8]) -> (r: Option<Vec<u8>>)
    ensures
        match which_path(out@) {
            Some(p) => r.is_some() && r.unwrap()@ == p,
            None => r.is_none(),
        },
{
    let lines = crate::logtail::split_lines(out);
    if lines.len() == 0 {
        return None;
    }
    assert(lines@[0]@ == lines_of(out@)[0]);
    let t = trim_bytes(lines[0].as_slice());
    if t.len() == 0 {
        None
    } else {
        Some(t)
    }
}

/// The names the worker's executable may have in a package's `bin`
/// directory.
pub open spec fn executable_names(windows: bool) -> Seq<Seq<u8>> {
    if windows {
        seq!["nanobot.exe".spec_bytes(), "nanobot-ai.exe".spec_bytes()]
    } else {
        seq!["nanobot".spec_bytes(), "nanobot-ai".spec_bytes()]
    }
}

/// The paths to probe, in order, for the worker's executable beside each
/// install location in `locations`.
pub open spec fn package_candidates(locations: Seq<Seq<u8>>, windows: bool) -> Seq<Seq<u8>>
    decreases locations.len(),
{
    if locations.len() == 0 {
        Seq::empty()
    } else {
        let dir = package_bin_dir(locations.last(), windows);
        let names = executable_names(windows);
        package_candidates(locations.drop_last(), windows) + seq![
            joined_path(dir, names[0]),
            joined_path(dir, names[1]),
        ]
    }
}

/// The paths to probe, in order, for the worker's executable, given the
/// output `out` of `pip show` for its package.
pub fn pip_candidates(out: &[u8], windows: bool) -> (r: Vec<Vec<u8>>)
    ensures
        views(r@) == package_candidates(pip_locations(lines_of(out@)), windows),
{
    let locations = pip_show_locations(out);
    let (first, second) = if windows {
        ("nanobot.exe".as_bytes(), "nanobot-ai.exe".as_bytes())
    } else {
        ("nanobot".as_bytes(), "nanobot-ai".as_bytes())
    };
    let mut r: Vec<Vec<u8>> = Vec::new();
    let mut i: usize = 0;
    while i < locations.len()
        invariant
            i <= locations@.len(),
            views(locations@) == pip_locations(lines_of(out@)),
            first@ == executable_names(windows)[0],
            second@ == executable_names(windows)[1],
            views(r@) == package_candidates(views(locations@).subrange(0, i as int), windows),
        decreases locations.len() - i,
    {
        let ghost pre = views(locations@).subrange(0, i as int);
        assert(views(locations@).subrange(0, i + 1).drop_last() =~= pre);
        assert(views(locations@).subrange(0, i + 1).last() == locations@[i as int]@);
        let dir = bin_dir_for(locations[i].as_slice(), windows);
        let ghost before = r@;
        r.push(join_path(dir.as_slice(), first));
        r.push(join_path(dir.as_slice(), second));
        assert(views(r@) =~= views(before) + seq![views(r@)[before.len() as int], views(r@)[before.len() + 1 as int]]);
        i = i + 1;
    }
    assert(views(locations@).subrange(0, locations@.len() as int) =~= views(locations@));
    r
}

} // verus!
