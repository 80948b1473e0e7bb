//! Shell history formats (bash, zsh extended history, fish) and their
//! parsers, from the text of a history file to the entries shown, newest
//! first.
use vstd::prelude::*;

use crate::paths::{
    auto_history_path, auto_path_of, bash_history_path, bash_path_of, file_name_of, file_name_spec,
    fish_history_path, fish_path_of, zsh_history_path, zsh_path_of, HistoryPathProbe, PathEnv,
};
use crate::text::{
    all_digits, chars_of, copy_range, has_prefix, is_digit, lines_of, parse_i64, parse_i64_spec,
    same_chars, starts_with, string_from_chars, text_lines,
};

verus! {

/// The format of a history file; `Auto` picks one from the file.
#[derive(Debug, Clone, Copy, PartialEq, Eq, Structural)]
pub enum HistoryFormat {
    Auto,
    Bash,
    Zsh,
    Fish,
}

/// One command of the history, `id` 0 being the newest.
#[derive(Debug, Clone, PartialEq, Eq)]
pub struct Entry {
    pub id: u64,
    pub cmd: String,
    pub timestamp: Option<i64>,
    pub duration_secs: Option<i64>,
}

/// A command as read from a file: its text, start time and duration.
pub type Record = (Seq<char>, Option<i64>, Option<i64>);

impl Entry {
    /// The command, start time and duration of this entry.
    pub open spec fn record(self) -> Record {
        (self.cmd@, self.timestamp, self.duration_secs)
    }
}

/// A command parsed from a file, before it gets an id.
struct Parsed {
    cmd: Vec<char>,
    timestamp: Option<i64>,
    duration_secs: Option<i64>,
}

impl Parsed {
    spec fn record(self) -> Record {
        (self.cmd@, self.timestamp, self.duration_secs)
    }
}

spec fn records_of(v: Seq<Parsed>) -> Seq<Record> {
    v.map_values(|p: Parsed| p.record())
}

/// The history file a format reads by default.
pub open spec fn history_path(format: HistoryFormat, env: PathEnv, probe: HistoryPathProbe) -> Seq<
    char,
> {
    match format {
        HistoryFormat::Auto => auto_history_path(env, probe),
        HistoryFormat::Bash => bash_history_path(env),
        HistoryFormat::Zsh => zsh_history_path(env),
        HistoryFormat::Fish => fish_history_path(env, probe),
    }
}

impl HistoryFormat {
    /// The history file this format reads by default, given the
    /// environment and which candidate files exist (see `history_path`).
    pub fn default_history_path(self, env: &PathEnv, probe: &HistoryPathProbe) -> (out: String)
        ensures
            out@ == history_path(self, *env, *probe),
    {
        let p = match self {
            HistoryFormat::Auto => auto_path_of(env, probe),
            HistoryFormat::Bash => bash_path_of(env),
            HistoryFormat::Zsh => zsh_path_of(env),
            HistoryFormat::Fish => fish_path_of(env, probe),
        };
        string_from_chars(p.as_slice())
    }
}

/// The history file `format` reads by default (see `history_path`).
pub fn default_history_path(format: HistoryFormat, env: &PathEnv, probe: &HistoryPathProbe) -> (out:
    String)
    ensures
        out@ == history_path(format, *env, *probe),
{
    format.default_history_path(env, probe)
}

// ---------------------------------------------------------------------
// Line formats
// ---------------------------------------------------------------------
/// `c` first occurs in `s` at `i`.
pub open spec fn first_at(s: Seq<char>, c: char, i: int) -> bool {
    &&& 0 <= i < s.len()
    &&& s[i] == c
    &&& forall|j: int| 0 <= j < i ==> s[j] != c
}

/// `s` split around the first `c` (std's `str::split_once`).
pub open spec fn split_once(s: Seq<char>, c: char) -> Option<(Seq<char>, Seq<char>)> {
    if exists|i: int| first_at(s, c, i) {
        let i = choose|i: int| first_at(s, c, i);
        Some((s.take(i), s.skip(i + 1)))
    } else {
        None
    }
}

proof fn lemma_split_once_at(s: Seq<char>, c: char, i: int)
    requires
        first_at(s, c, i),
    ensures
        split_once(s, c) == Some((s.take(i), s.skip(i + 1))),
{
    let k = choose|k: int| first_at(s, c, k);
    assert(first_at(s, c, k));
    if k < i {
        assert(s[k] != c);
    }
    if k > i {
        assert(s[i] != c);
    }
}

/// A bash timestamp comment, `#` followed by digits only, and its value.
pub open spec fn bash_timestamp(line: Seq<char>) -> Option<i64> {
    if line.len() > 1 && line[0] == '#' && all_digits(line.skip(1)) {
        parse_i64_spec(line.skip(1))
    } else {
        None
    }
}

/// A zsh extended-history line `: <start>:<duration>;<command>`: its
/// start time, duration and command.
pub open spec fn zsh_metadata(line: Seq<char>) -> Option<(i64, i64, Seq<char>)> {
    if line.len() >= 2 && line[0] == ':' && line[1] == ' ' {
        match split_once(line.skip(2), ':') {
            Some((start, rest)) => match split_once(rest, ';') {
                Some((duration, cmd)) => match (parse_i64_spec(start), parse_i64_spec(duration)) {
                    (Some(a), Some(b)) => Some((a, b, cmd)),
                    _ => None,
                },
                None => None,
            },
            None => None,
        }
    } else {
        None
    }
}

/// The command of a fish `- cmd: ` line.
pub open spec fn fish_command(line: Seq<char>) -> Option<Seq<char>> {
    if has_prefix(line, "- cmd: "@) {
        Some(line.skip("- cmd: "@.len() as int))
    } else {
        None
    }
}

/// The time of a fish `  when: <seconds>` line.
pub open spec fn fish_when(line: Seq<char>) -> Option<i64> {
    if has_prefix(line, "  when: "@) {
        parse_i64_spec(line.skip("  when: "@.len() as int))
    } else {
        None
    }
}

// ---------------------------------------------------------------------
// Whole files
// ---------------------------------------------------------------------
/// Bash: a timestamp comment dates the next non-empty line; other
/// non-empty lines are commands. Gives the commands and the pending time.
pub open spec fn bash_state(lines: Seq<Seq<char>>) -> (Seq<Record>, Option<i64>)
    decreases lines.len(),
{
    if lines.len() == 0 {
        (Seq::empty(), None)
    } else {
        let (done, pending) = bash_state(lines.drop_last());
        let line = lines.last();
        if bash_timestamp(line) is Some {
            (done, bash_timestamp(line))
        } else if line.len() > 0 {
            (done.push((line, pending, None)), None)
        } else {
            (done, pending)
        }
    }
}

/// Zsh: every non-empty line is a command, with start time and duration
/// when it carries extended-history metadata.
pub open spec fn zsh_records(lines: Seq<Seq<char>>) -> Seq<Record>
    decreases lines.len(),
{
    if lines.len() == 0 {
        Seq::empty()
    } else {
        let done = zsh_records(lines.drop_last());
        let line = lines.last();
        if line.len() == 0 {
            done
        } else {
            match zsh_metadata(line) {
                Some((start, duration, cmd)) => done.push((cmd, Some(start), Some(duration))),
                None => done.push((line, None, None)),
            }
        }
    }
}

/// `done` with the pending fish command, if any, appended.
pub open spec fn fish_flush(done: Seq<Record>, cmd: Option<Seq<char>>, stamp: Option<i64>) -> Seq<
    Record,
> {
    match cmd {
        Some(c) => done.push((c, stamp, None)),
        None => done,
    }
}

/// Fish: a `- cmd: ` line starts a command, a `  when: ` line dates the
/// current one. Gives the finished commands, the current one and its time.
pub open spec fn fish_state(lines: Seq<Seq<char>>) -> (Seq<Record>, Option<Seq<char>>, Option<i64>)
    decreases lines.len(),
{
    if lines.len() == 0 {
        (Seq::empty(), None, None)
    } else {
        let (done, cmd, stamp) = fish_state(lines.drop_last());
        let line = lines.last();
        if fish_command(line) is Some {
            (fish_flush(done, cmd, stamp), fish_command(line), None)
        } else if fish_when(line) is Some {
            (done, cmd, fish_when(line))
        } else {
            (done, cmd, stamp)
        }
    }
}

/// The commands of a history file of a known format, oldest first.
pub open spec fn format_records(format: HistoryFormat, lines: Seq<Seq<char>>) -> Seq<Record> {
    match format {
        HistoryFormat::Zsh => zsh_records(lines),
        HistoryFormat::Fish => {
            let (done, cmd, stamp) = fish_state(lines);
            fish_flush(done, cmd, stamp)
        },
        _ => bash_state(lines).0,
    }
}

/// The format that the first non-empty line shows: fish for `- cmd: `,
/// zsh for extended-history metadata, bash otherwise.
pub open spec fn content_format(lines: Seq<Seq<char>>) -> HistoryFormat
    decreases lines.len(),
{
    if lines.len() == 0 {
        HistoryFormat::Bash
    } else if lines[0].len() == 0 {
        content_format(lines.drop_first())
    } else if fish_command(lines[0]) is Some {
        HistoryFormat::Fish
    } else if zsh_metadata(lines[0]) is Some {
        HistoryFormat::Zsh
    } else {
        HistoryFormat::Bash
    }
}

/// The format of a history file: by its file name when that is one of the
/// shells' usual names, else by its content.
pub open spec fn detected_format(path: Seq<char>, content: Seq<char>) -> HistoryFormat {
    let name = match file_name_spec(path) {
        Some(n) => n,
        None => Seq::empty(),
    };
    if name == ".zsh_history"@ {
        HistoryFormat::Zsh
    } else if name == "fish_history"@ {
        HistoryFormat::Fish
    } else if name == ".bash_history"@ {
        HistoryFormat::Bash
    } else {
        content_format(text_lines(content))
    }
}

/// The format used to read a file: the requested one, or the detected one
/// for `Auto`.
pub open spec fn resolved_format(
    format: HistoryFormat,
    path: Seq<char>,
    content: Seq<char>,
) -> HistoryFormat {
    match format {
        HistoryFormat::Auto => detected_format(path, content),
        f => f,
    }
}

/// The commands of a history file, oldest first.
pub open spec fn history_records(
    format: HistoryFormat,
    path: Seq<char>,
    content: Seq<char>,
) -> Seq<Record> {
    format_records(resolved_format(format, path, content), text_lines(content))
}

// ---------------------------------------------------------------------
// Executable parsers
// ---------------------------------------------------------------------
/// The first index at or after `from` where `v` holds `c`.
fn find_char_from(v: &Vec<char>, from: usize, c: char) -> (r: Option<usize>)
    requires
        from <= v.len(),
    ensures
        r matches Some(i) ==> from <= i < v.len() && v@[i as int] == c && forall|j: int|
            from <= j < i ==> v@[j] != c,
        r is None ==> forall|j: int| from <= j < v.len() ==> v@[j] != c,
{
    let mut i = from;
    while i < v.len()
        invariant
            from <= i <= v.len(),
            forall|j: int| from <= j < i ==> v@[j] != c,
        decreases v.len() - i,
    {
        if v[i] == c {
            return Some(i);
        }
        i = i + 1;
    }
    None
}

/// `v[from..]` split around its first `c`, as indices into `v`.
proof fn lemma_split_once_found(v: Seq<char>, from: int, c: char, i: int)
    requires
        0 <= from <= i < v.len(),
        v[i] == c,
        forall|j: int| from <= j < i ==> v[j] != c,
    ensures
        split_once(v.skip(from), c) == Some((v.subrange(from, i), v.skip(i + 1))),
{
    let s = v.skip(from);
    assert(first_at(s, c, i - from));
    lemma_split_once_at(s, c, i - from);
    assert(s.take(i - from) =~= v.subrange(from, i));
    assert(s.skip(i - from + 1) =~= v.skip(i + 1));
}

proof fn lemma_split_once_none(v: Seq<char>, from: int, c: char)
    requires
        0 <= from <= v.len(),
        forall|j: int| from <= j < v.len() ==> v[j] != c,
    ensures
        split_once(v.skip(from), c) is None,
{
    let s = v.skip(from);
    assert forall|i: int| !first_at(s, c, i) by {
        if 0 <= i < s.len() {
            assert(s[i] == v[from + i]);
        }
    }
}

fn bash_timestamp_of(line: &Vec<char>) -> (r: Option<i64>)
    ensures
        r == bash_timestamp(line@),
{
    if line.len() > 1 && line[0] == '#' {
        let rest = copy_range(line, 1, line.len());
        assert(rest@ =~= line@.skip(1));
        let mut i: usize = 0;
        while i < rest.len()
            invariant
                0 <= i <= rest.len(),
                rest@ == line@.skip(1),
                line@.len() > 1,
                line@[0] == '#',
                forall|j: int| 0 <= j < i ==> is_digit(#[trigger] rest@[j]),
            decreases rest.len() - i,
        {
            if !('0' <= rest[i] && rest[i] <= '9') {
                assert(!is_digit(rest@[i as int]));
                return None;
            }
            i = i + 1;
        }
        parse_i64(rest.as_slice())
    } else {
        None
    }
}

fn zsh_metadata_of(line: &Vec<char>) -> (r: Option<(i64, i64, Vec<char>)>)
    ensures
        r matches Some((a, b, c)) ==> zsh_metadata(line@) == Some((a, b, c@)),
        r is None ==> zsh_metadata(line@) is None,
{
    if !(line.len() >= 2 && line[0] == ':' && line[1] == ' ') {
        return None;
    }
    let ghost rest = line@.skip(2);
    match find_char_from(line, 2, ':') {
        None => {
            proof {
                lemma_split_once_none(line@, 2, ':');
            }
            None
        },
        Some(i) => {
            proof {
                lemma_split_once_found(line@, 2, ':', i as int);
            }
            let ghost rest2 = line@.skip(i + 1);
            match find_char_from(line, i + 1, ';') {
                None => {
                    proof {
                        lemma_split_once_none(line@, i + 1, ';');
                    }
                    None
                },
                Some(k) => {
                    proof {
                        lemma_split_once_found(line@, i + 1, ';', k as int);
                    }
                    let start = copy_range(line, 2, i);
                    let duration = copy_range(line, i + 1, k);
                    match (parse_i64(start.as_slice()), parse_i64(duration.as_slice())) {
                        (Some(a), Some(b)) => {
                            let cmd = copy_range(line, k + 1, line.len());
                            assert(cmd@ =~= line@.skip(k + 1));
                            Some((a, b, cmd))
                        },
                        _ => None,
                    }
                },
            }
        },
    }
}

fn fish_command_of(line: &Vec<char>) -> (r: Option<Vec<char>>)
    ensures
        r matches Some(c) ==> fish_command(line@) == Some(c@),
        r is None ==> fish_command(line@) is None,
{
    if starts_with(line.as_slice(), "- cmd: ") {
        proof {
            reveal_strlit("- cmd: ");
        }
        let c = copy_range(line, 7, line.len());
        assert(c@ =~= line@.skip(7));
        Some(c)
    } else {
        None
    }
}

fn fish_when_of(line: &Vec<char>) -> (r: Option<i64>)
    ensures
        r == fish_when(line@),
{
    if starts_with(line.as_slice(), "  when: ") {
        proof {
            reveal_strlit("  when: ");
        }
        let c = copy_range(line, 8, line.len());
        assert(c@ =~= line@.skip(8));
        parse_i64(c.as_slice())
    } else {
        None
    }
}

fn copy_line(v: &Vec<char>) -> (out: Vec<char>)
    ensures
        out@ == v@,
{
    let out = copy_range(v, 0, v.len());
    assert(out@ =~= v@);
    out
}

fn parse_bash(lines: &Vec<Vec<char>>) -> (out: Vec<Parsed>)
    ensures
        records_of(out@) == bash_state(lines@.map_values(|l: Vec<char>| l@)).0,
{
    let ghost ls = lines@.map_values(|l: Vec<char>| l@);
    let mut out: Vec<Parsed> = Vec::new();
    let mut pending: Option<i64> = None;
    let mut i: usize = 0;
    while i < lines.len()
        invariant
            0 <= i <= lines.len(),
            ls == lines@.map_values(|l: Vec<char>| l@),
            records_of(out@) == bash_state(ls.take(i as int)).0,
            pending == bash_state(ls.take(i as int)).1,
        decreases lines.len() - i,
    {
        assert(ls.take(i + 1).drop_last() =~= ls.take(i as int));
        assert(ls.take(i + 1).last() == lines@[i as int]@);
        let line = &lines[i];
        match bash_timestamp_of(line) {
            Some(t) => {
                pending = Some(t);
            },
            None => {
                if line.len() > 0 {
                    let p = Parsed { cmd: copy_line(line), timestamp: pending, duration_secs: None };
                    out.push(p);
                    pending = None;
                    assert(records_of(out@) =~= bash_state(ls.take(i + 1)).0);
                }
            },
        }
        i = i + 1;
    }
    assert(ls.take(lines.len() as int) =~= ls);
    out
}

fn parse_zsh(lines: &Vec<Vec<char>>) -> (out: Vec<Parsed>)
    ensures
        records_of(out@) == zsh_records(lines@.map_values(|l: Vec<char>| l@)),
{
    let ghost ls = lines@.map_values(|l: Vec<char>| l@);
    let mut out: Vec<Parsed> = Vec::new();
    let mut i: usize = 0;
    while i < lines.len()
        invariant
            0 <= i <= lines.len(),
            ls == lines@.map_values(|l: Vec<char>| l@),
            records_of(out@) == zsh_records(ls.take(i as int)),
        decreases lines.len() - i,
    {
        assert(ls.take(i + 1).drop_last() =~= ls.take(i as int));
        assert(ls.take(i + 1).last() == lines@[i as int]@);
        let line = &lines[i];
        if line.len() > 0 {
            let p = match zsh_metadata_of(line) {
                Some((start, duration, cmd)) => Parsed {
                    cmd,
                    timestamp: Some(start),
                    duration_secs: Some(duration),
                },
                None => Parsed { cmd: copy_line(line), timestamp: None, duration_secs: None },
            };
            out.push(p);
            assert(records_of(out@) =~= zsh_records(ls.take(i + 1)));
        }
        i = i + 1;
    }
    assert(ls.take(lines.len() as int) =~= ls);
    out
}

fn fish_flush_exec(out: &mut Vec<Parsed>, cmd: Option<Vec<char>>, stamp: Option<i64>)
    ensures
        records_of(final(out)@) == fish_flush(
            records_of(old(out)@),
            match cmd {
                Some(c) => Some(c@),
                None => None,
            },
            stamp,
        ),
{
    match cmd {
        Some(c) => {
            out.push(Parsed { cmd: c, timestamp: stamp, duration_secs: None });
            assert(records_of(out@) =~= records_of(old(out)@).push((c@, stamp, None)));
        },
        None => {},
    }
}

spec fn opt_view(o: Option<Vec<char>>) -> Option<Seq<char>> {
    match o {
        Some(c) => Some(c@),
        None => None,
    }
}

fn parse_fish(lines: &Vec<Vec<char>>) -> (out: Vec<Parsed>)
    ensures
        records_of(out@) == ({
            let (done, cmd, stamp) = fish_state(lines@.map_values(|l: Vec<char>| l@));
            fish_flush(done, cmd, stamp)
        }),
{
    let ghost ls = lines@.map_values(|l: Vec<char>| l@);
    let mut out: Vec<Parsed> = Vec::new();
    let mut cmd: Option<Vec<char>> = None;
    let mut stamp: Option<i64> = None;
    let mut i: usize = 0;
    while i < lines.len()
        invariant
            0 <= i <= lines.len(),
            ls == lines@.map_values(|l: Vec<char>| l@),
            records_of(out@) == fish_state(ls.take(i as int)).0,
            opt_view(cmd) == fish_state(ls.take(i as int)).1,
            stamp == fish_state(ls.take(i as int)).2,
        decreases lines.len() - i,
    {
        assert(ls.take(i + 1).drop_last() =~= ls.take(i as int));
        assert(ls.take(i + 1).last() == lines@[i as int]@);
        let line = &lines[i];
        match fish_command_of(line) {
            Some(c) => {
                let prev = cmd;
                cmd = None;
                fish_flush_exec(&mut out, prev, stamp);
                cmd = Some(c);
                stamp = None;
            },
            None => {
                match fish_when_of(line) {
                    Some(t) => {
                        stamp = Some(t);
                    },
                    None => {},
                }
            },
        }
        i = i + 1;
    }
    assert(ls.take(lines.len() as int) =~= ls);
    fish_flush_exec(&mut out, cmd, stamp);
    out
}

/// The format that the content of a history file shows (see
/// `content_format`).
fn content_format_of(lines: &Vec<Vec<char>>) -> (f: HistoryFormat)
    ensures
        f == content_format(lines@.map_values(|l: Vec<char>| l@)),
{
    let ghost ls = lines@.map_values(|l: Vec<char>| l@);
    let mut i: usize = 0;
    assert(ls.skip(0) =~= ls);
    while i < lines.len()
        invariant
            0 <= i <= lines.len(),
            ls == lines@.map_values(|l: Vec<char>| l@),
            content_format(ls) == content_format(ls.skip(i as int)),
        decreases lines.len() - i,
    {
        let line = &lines[i];
        assert(ls.skip(i as int)[0] == line@);
        if line.len() > 0 {
            if fish_command_of(line).is_some() {
                return HistoryFormat::Fish;
            }
            if zsh_metadata_of(line).is_some() {
                return HistoryFormat::Zsh;
            }
            return HistoryFormat::Bash;
        }
        assert(ls.skip(i as int).drop_first() =~= ls.skip(i + 1));
        i = i + 1;
    }
    HistoryFormat::Bash
}

/// The format of a history file, by its file name or else its content
/// (see `detected_format`).
pub fn detect_history_format(path: &str, content: &str) -> (f: HistoryFormat)
    ensures
        f == detected_format(path@, content@),
{
    let name = match file_name_of(path) {
        Some(n) => n,
        None => Vec::new(),
    };
    if same_chars(name.as_slice(), chars_of(".zsh_history").as_slice()) {
        return HistoryFormat::Zsh;
    }
    if same_chars(name.as_slice(), chars_of("fish_history").as_slice()) {
        return HistoryFormat::Fish;
    }
    if same_chars(name.as_slice(), chars_of(".bash_history").as_slice()) {
        return HistoryFormat::Bash;
    }
    let chars = chars_of(content);
    let lines = lines_of(&chars);
    assert(lines@.map_values(|l: Vec<char>| l@) =~= text_lines(content@));
    content_format_of(&lines)
}

/// The entries of a history file given its path and content, newest first:
/// entry `i` is the `i`-th command from the end of the file and has id `i`.
/// `Auto` resolves the format from the file (see `detected_format`).
pub fn parse_history(path: &str, content: &str, format: HistoryFormat) -> (out: Vec<Entry>)
    ensures
        out@.len() == history_records(format, path@, content@).len(),
        forall|i: int|
            0 <= i < out@.len() ==> (#[trigger] out@[i]).id == i && out@[i].record()
                == history_records(format, path@, content@)[out@.len() - 1 - i],
{
    let resolved = match format {
        HistoryFormat::Auto => detect_history_format(path, content),
        explicit => explicit,
    };
    let chars = chars_of(content);
    let lines = lines_of(&chars);
    assert(lines@.map_values(|l: Vec<char>| l@) =~= text_lines(content@));
    let parsed = match resolved {
        HistoryFormat::Zsh => parse_zsh(&lines),
        HistoryFormat::Fish => parse_fish(&lines),
        _ => parse_bash(&lines),
    };
    let ghost recs = records_of(parsed@);
    assert(recs == history_records(format, path@, content@));
    let n = parsed.len();
    let mut out: Vec<Entry> = Vec::new();
    let mut k: usize = 0;
    while k < n
        invariant
            n == parsed.len(),
            recs == records_of(parsed@),
            0 <= k <= n,
            out@.len() == k,
            forall|i: int|
                0 <= i < k ==> (#[trigger] out@[i]).id == i && out@[i].record() == recs[n - 1 - i],
        decreases n - k,
    {
        let p = &parsed[n - 1 - k];
        let e = Entry {
            id: k as u64,
            cmd: string_from_chars(p.cmd.as_slice()),
            timestamp: p.timestamp,
            duration_secs: p.duration_secs,
        };
        out.push(e);
        k = k + 1;
    }
    out
}

} // verus!
