//! Update checks: comparing release tags with the running version, and
//! deciding whether the cached answer is still fresh. Fetching releases and
//! reading or writing the cache are left to the caller.
use vstd::prelude::*;

use crate::text::{chars_of, is_digit, parse_u64, parse_u64_spec, push_str, string_from_chars};

verus! {

/// How long a cached answer is trusted: one day, in seconds.
pub const CHECK_INTERVAL_SECONDS: u64 = 86400;

/// The version of this release of hline.
pub const PACKAGE_VERSION: &'static str = "0.2.2";

/// The command that installs the latest release.
pub const INSTALL_COMMAND: &'static str =
    "curl -fsSL https://raw.githubusercontent.com/PedroElizalde01/hline/main/install.sh | bash";

/// A newer release than the running one.
#[derive(Debug, Clone, PartialEq, Eq)]
pub struct UpdateInfo {
    pub current_version: String,
    pub latest_tag: String,
}

/// The runs of ASCII digits of `s`, finished ones and the one being built.
pub open spec fn digit_runs_state(s: Seq<char>) -> (Seq<Seq<char>>, Seq<char>)
    decreases s.len(),
{
    if s.len() == 0 {
        (Seq::empty(), Seq::empty())
    } else {
        let (done, cur) = digit_runs_state(s.drop_last());
        if !is_digit(s.last()) {
            if cur.len() > 0 {
                (done.push(cur), Seq::empty())
            } else {
                (done, Seq::empty())
            }
        } else {
            (done, cur.push(s.last()))
        }
    }
}

/// The maximal runs of ASCII digits of `s`, in order.
pub open spec fn digit_runs(s: Seq<char>) -> Seq<Seq<char>> {
    let (done, cur) = digit_runs_state(s);
    if cur.len() > 0 {
        done.push(cur)
    } else {
        done
    }
}

/// The value of a run of digits, 0 when it does not fit in a `u64`.
pub open spec fn run_value(run: Seq<char>) -> u64 {
    match parse_u64_spec(run) {
        Some(v) => v,
        None => 0,
    }
}

/// The numeric parts of a version such as `v0.1.6`: its runs of digits
/// (a leading `v` and the dots separate nothing else), each as a number.
pub open spec fn version_parts_spec(version: Seq<char>) -> Seq<u64> {
    digit_runs(version).map_values(|r: Seq<char>| run_value(r))
}

fn run_value_of(run: &Vec<char>) -> (v: u64)
    ensures
        v == run_value(run@),
{
    match parse_u64(run.as_slice()) {
        Some(v) => v,
        None => 0,
    }
}

/// The numeric parts of a version (see `version_parts_spec`).
pub fn version_parts(version: &str) -> (out: Vec<u64>)
    ensures
        out@ == version_parts_spec(version@),
{
    let s = chars_of(version);
    let mut out: Vec<u64> = Vec::new();
    let mut cur: Vec<char> = Vec::new();
    let mut i: usize = 0;
    let ghost runs = digit_runs(version@);
    while i < s.len()
        invariant
            0 <= i <= s.len(),
            s@ == version@,
            out@ == digit_runs_state(s@.take(i as int)).0.map_values(|r: Seq<char>| run_value(r)),
            cur@ == digit_runs_state(s@.take(i as int)).1,
        decreases s.len() - i,
    {
        assert(s@.take(i + 1).drop_last() =~= s@.take(i as int));
        let c = s[i];
        if !('0' <= c && c <= '9') {
            if cur.len() > 0 {
                let v = run_value_of(&cur);
                out.push(v);
                cur = Vec::new();
                assert(out@ =~= digit_runs_state(s@.take(i + 1)).0.map_values(
                    |r: Seq<char>| run_value(r),
                ));
            }
        } else {
            cur.push(c);
        }
        i = i + 1;
    }
    assert(s@.take(s.len() as int) =~= s@);
    if cur.len() > 0 {
        let v = run_value_of(&cur);
        out.push(v);
    }
    assert(out@ =~= version_parts_spec(version@));
    out
}

/// Lexicographic comparison of number sequences: -1, 0 or 1.
pub open spec fn lex_u64(x: Seq<u64>, y: Seq<u64>) -> int
    decreases x.len(),
{
    if x.len() == 0 {
        if y.len() == 0 {
            0
        } else {
            -1
        }
    } else if y.len() == 0 {
        1
    } else if x[0] < y[0] {
        -1
    } else if x[0] > y[0] {
        1
    } else {
        lex_u64(x.drop_first(), y.drop_first())
    }
}

fn lex_parts(x: &Vec<u64>, y: &Vec<u64>) -> (r: i8)
    ensures
        r == lex_u64(x@, y@),
{
    let n = if x.len() < y.len() {
        x.len()
    } else {
        y.len()
    };
    let mut i: usize = 0;
    assert(x@.skip(0) =~= x@ && y@.skip(0) =~= y@);
    while i < n
        invariant
            n <= x.len(),
            n <= y.len(),
            n == x.len() || n == y.len(),
            0 <= i <= n,
            lex_u64(x@, y@) == lex_u64(x@.skip(i as int), y@.skip(i as int)),
        decreases n - i,
    {
        if x[i] < y[i] {
            return -1;
        }
        if x[i] > y[i] {
            return 1;
        }
        assert(x@.skip(i as int).drop_first() =~= x@.skip(i + 1));
        assert(y@.skip(i as int).drop_first() =~= y@.skip(i + 1));
        i = i + 1;
    }
    if x.len() < y.len() {
        -1
    } else if x.len() > y.len() {
        1
    } else {
        0
    }
}

/// Compares two versions by their numeric parts, lexicographically (so
/// `v0.1.5` equals `0.1.5`).
pub fn compare_versions(left: &str, right: &str) -> (r: std::cmp::Ordering)
    ensures
        r == (if lex_u64(version_parts_spec(left@), version_parts_spec(right@)) < 0 {
            std::cmp::Ordering::Less
        } else if lex_u64(version_parts_spec(left@), version_parts_spec(right@)) > 0 {
            std::cmp::Ordering::Greater
        } else {
            std::cmp::Ordering::Equal
        }),
{
    let l = version_parts(left);
    let r = version_parts(right);
    let c = lex_parts(&l, &r);
    if c < 0 {
        std::cmp::Ordering::Less
    } else if c > 0 {
        std::cmp::Ordering::Greater
    } else {
        std::cmp::Ordering::Equal
    }
}

/// A leading non-digit (such as the `v` of a tag) changes no digit run.
proof fn lemma_leading_separator(c: char, s: Seq<char>)
    requires
        !is_digit(c),
    ensures
        digit_runs_state(seq![c] + s) == digit_runs_state(s),
    decreases s.len(),
{
    let t = seq![c] + s;
    if s.len() == 0 {
        assert(t =~= seq![c]);
        assert(t.drop_last() =~= Seq::<char>::empty());
        assert(digit_runs_state(Seq::<char>::empty()) == (Seq::<Seq<char>>::empty(), Seq::<char>::empty()));
        assert(digit_runs_state(t) == (Seq::<Seq<char>>::empty(), Seq::<char>::empty()));
    } else {
        lemma_leading_separator(c, s.drop_last());
        assert(t.drop_last() =~= seq![c] + s.drop_last());
        assert(t.last() == s.last());
        assert(digit_runs_state(t.drop_last()) == digit_runs_state(s.drop_last()));
    }
}

/// A `v` before a version changes nothing: `v0.1.5` and `0.1.5` have the
/// same parts.
pub proof fn law_v_prefix_is_ignored(version: Seq<char>)
    ensures
        version_parts_spec(seq!['v'] + version) == version_parts_spec(version),
{
    lemma_leading_separator('v', version);
}

/// Comparing versions is antisymmetric: swapping the two flips the answer,
/// and only versions with the same parts compare equal.
pub proof fn law_version_compare_antisymmetric(x: Seq<u64>, y: Seq<u64>)
    ensures
        lex_u64(x, y) == -lex_u64(y, x),
        lex_u64(x, y) == 0 <==> x == y,
    decreases x.len(),
{
    if x.len() > 0 && y.len() > 0 && x[0] == y[0] {
        law_version_compare_antisymmetric(x.drop_first(), y.drop_first());
        if x.drop_first() == y.drop_first() {
            assert(x =~= seq![x[0]] + x.drop_first());
            assert(y =~= seq![y[0]] + y.drop_first());
        }
    }
    if x.len() == 0 && y.len() == 0 {
        assert(x =~= y);
    }
}

/// Whether a release tag is newer than the running version.
pub open spec fn is_newer(latest: Seq<char>, current: Seq<char>) -> bool {
    lex_u64(version_parts_spec(latest), version_parts_spec(current)) > 0
}

/// The update to announce: the latest release, when there is one and it is
/// newer than `current_version`.
pub fn update_available(latest_tag: Option<String>, current_version: String) -> (r: Option<
    UpdateInfo,
>)
    ensures
        match latest_tag {
            Some(t) => if is_newer(t@, current_version@) {
                r matches Some(u) && u.latest_tag@ == t@ && u.current_version@ == current_version@
            } else {
                r is None
            },
            None => r is None,
        },
{
    match latest_tag {
        Some(tag) => {
            let l = version_parts(tag.as_str());
            let c = version_parts(current_version.as_str());
            if lex_parts(&l, &c) > 0 {
                Some(UpdateInfo { current_version, latest_tag: tag })
            } else {
                None
            }
        },
        None => None,
    }
}

/// Whether a cache written at `checked_at` is still fresh at `now` (both in
/// seconds since the epoch): at most one day old, a cache from the future
/// counting as new.
pub fn cache_is_fresh(checked_at: u64, now: u64) -> (r: bool)
    ensures
        r == (now <= checked_at || now - checked_at <= CHECK_INTERVAL_SECONDS),
{
    let age = if now > checked_at {
        now - checked_at
    } else {
        0
    };
    age <= CHECK_INTERVAL_SECONDS
}


/// The running version as releases are tagged: `v` and the package
/// version.
pub fn current_version_text(package_version: &str) -> (s: String)
    ensures
        s@ == "v"@ + package_version@,
{
    let mut out = chars_of("v");
    push_str(&mut out, package_version);
    string_from_chars(out.as_slice())
}

/// The notice of a newer release.
pub fn available_message(info: &UpdateInfo) -> (s: String)
    ensures
        s@ == "hline "@ + info.latest_tag@ + " is available. You have "@ + info.current_version@
            + "."@,
{
    let mut out = chars_of("hline ");
    push_str(&mut out, info.latest_tag.as_str());
    push_str(&mut out, " is available. You have ");
    push_str(&mut out, info.current_version.as_str());
    push_str(&mut out, ".");
    string_from_chars(out.as_slice())
}

/// How to update.
pub fn update_command_message() -> (s: String)
    ensures
        s@ == "Update: "@ + INSTALL_COMMAND@,
{
    let mut out = chars_of("Update: ");
    push_str(&mut out, INSTALL_COMMAND);
    string_from_chars(out.as_slice())
}

/// The answer of an explicit check that found nothing newer.
pub fn up_to_date_message(current_version: &str) -> (s: String)
    ensures
        s@ == "hline "@ + current_version@ + " is up to date."@,
{
    let mut out = chars_of("hline ");
    push_str(&mut out, current_version);
    push_str(&mut out, " is up to date.");
    string_from_chars(out.as_slice())
}


/// Where an update check takes the latest release from.
#[derive(Debug, Clone, Copy, PartialEq, Eq, Structural)]
pub enum UpdateSource {
    /// The cached answer, still fresh.
    Cache,
    /// Asking GitHub; with `tolerate_failure`, a failed request is cached
    /// as no release instead of being an error.
    Fetch { tolerate_failure: bool },
}

/// Where an update check takes its answer from: a forced check always asks
/// and reports a failed request; otherwise a cache from at most a day ago
/// (`checked_at` of a cache that could be read) is used, and else GitHub is
/// asked, a failure there counting as no release.
pub fn update_source(force_fetch: bool, cached_checked_at: Option<u64>, now: u64) -> (r:
    UpdateSource)
    ensures
        r == (if force_fetch {
            UpdateSource::Fetch { tolerate_failure: false }
        } else if cached_checked_at matches Some(c) && (now <= c || now - c
            <= CHECK_INTERVAL_SECONDS) {
            UpdateSource::Cache
        } else {
            UpdateSource::Fetch { tolerate_failure: true }
        }),
{
    if force_fetch {
        return UpdateSource::Fetch { tolerate_failure: false };
    }
    match cached_checked_at {
        Some(c) => if cache_is_fresh(c, now) {
            UpdateSource::Cache
        } else {
            UpdateSource::Fetch { tolerate_failure: true }
        },
        None => UpdateSource::Fetch { tolerate_failure: true },
    }
}

} // verus!
