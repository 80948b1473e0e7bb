//! The search box: case-insensitive text matching, and the time filters
//! `after:`/`since:`, `before:`/`until:` and `on:` that it also accepts.
//! Dates are read with chrono and placed in the machine's local time zone.
use vstd::prelude::*;
use vstd::string::is_ascii;
use vstd::utf8::encode_utf8;

use chrono::{Datelike, TimeZone, Timelike};

use crate::clock::{utc_seconds, valid_wall_clock, within_a_day};
use crate::favorites::{BlockModel, FavoriteBlock};
use crate::history::Entry;
use crate::sort::lower_bytes;
use crate::text::{
    chars_of, copy_range, has_prefix, parse_i64, parse_i64_spec, push_all, starts_with,
    string_from_chars, to_lowercase, unicode_lowercase, words, words_of,
};

verus! {

// ---------------------------------------------------------------------
// Text matching
// ---------------------------------------------------------------------
/// `needle` occurs in `haystack` at some offset when both are folded to
/// ASCII lower case (byte-wise `eq_ignore_ascii_case` on a window).
pub open spec fn contains_ignoring_ascii_case(haystack: Seq<u8>, needle: Seq<u8>) -> bool {
    needle.len() == 0 || exists|i: int|
        0 <= i && i + needle.len() <= haystack.len() && lower_bytes(
            #[trigger] haystack.subrange(i, i + needle.len()),
        ) == lower_bytes(needle)
}

/// `needle` occurs in `haystack` at some offset.
pub open spec fn contains_chars(haystack: Seq<char>, needle: Seq<char>) -> bool {
    exists|i: int|
        0 <= i && i + needle.len() <= haystack.len() && #[trigger] haystack.subrange(
            i,
            i + needle.len(),
        ) == needle
}

/// The search's text match: an empty needle matches everything; an ASCII
/// needle matches ignoring ASCII case, on the UTF-8 bytes; any other needle
/// matches when its lower case occurs in the haystack's lower case.
pub open spec fn text_matches_spec(haystack: Seq<char>, needle: Seq<char>) -> bool {
    if needle.len() == 0 {
        true
    } else if vstd::utf8::is_ascii_chars(needle) {
        contains_ignoring_ascii_case(encode_utf8(haystack), encode_utf8(needle))
    } else {
        contains_chars(unicode_lowercase(haystack), unicode_lowercase(needle))
    }
}

/// Letter case does not matter to the search: two ASCII needles that differ
/// only in the case of their letters match the same commands.
pub proof fn law_ascii_case_is_ignored(haystack: Seq<char>, n1: Seq<char>, n2: Seq<char>)
    requires
        vstd::utf8::is_ascii_chars(n1),
        vstd::utf8::is_ascii_chars(n2),
        n1.len() == n2.len(),
        forall|i: int|
            0 <= i < n1.len() ==> crate::sort::ascii_lower(#[trigger] n1[i] as u8)
                == crate::sort::ascii_lower(n2[i] as u8),
    ensures
        text_matches_spec(haystack, n1) == text_matches_spec(haystack, n2),
{
    vstd::utf8::is_ascii_chars_encode_utf8(n1);
    vstd::utf8::is_ascii_chars_encode_utf8(n2);
    assert(lower_bytes(encode_utf8(n1)) =~= lower_bytes(encode_utf8(n2)));
}

/// The UTF-8 bytes of two texts one after the other are the bytes of each.
proof fn lemma_encode_utf8_append(a: Seq<char>, b: Seq<char>)
    ensures
        encode_utf8(a + b) == encode_utf8(a) + encode_utf8(b),
    decreases a.len(),
{
    if a.len() == 0 {
        assert(a + b =~= b);
        assert(encode_utf8(a) + encode_utf8(b) =~= encode_utf8(b));
    } else {
        lemma_encode_utf8_append(a.drop_first(), b);
        assert((a + b).drop_first() =~= a.drop_first() + b);
        assert((a + b)[0] == a[0]);
    }
}

/// The search finds an ASCII needle wherever it occurs in a command, at
/// any offset and whatever comes before or after it, and also when its
/// letters are written in the other case.
pub proof fn law_ascii_needle_found_anywhere(
    before: Seq<char>,
    needle: Seq<char>,
    after: Seq<char>,
    typed: Seq<char>,
)
    requires
        vstd::utf8::is_ascii_chars(needle),
        vstd::utf8::is_ascii_chars(typed),
        typed.len() == needle.len(),
        forall|i: int|
            0 <= i < needle.len() ==> crate::sort::ascii_lower(#[trigger] needle[i] as u8)
                == crate::sort::ascii_lower(typed[i] as u8),
    ensures
        text_matches_spec(before + needle + after, needle),
        text_matches_spec(before + needle + after, typed),
{
    let h = before + needle + after;
    lemma_encode_utf8_append(before + needle, after);
    lemma_encode_utf8_append(before, needle);
    let eb = encode_utf8(before);
    let en = encode_utf8(needle);
    let eh = encode_utf8(h);
    assert(eh =~= eb + en + encode_utf8(after));
    let i = eb.len() as int;
    assert(eh.subrange(i, i + en.len()) =~= en);
    if needle.len() > 0 {
        vstd::utf8::is_ascii_chars_encode_utf8(needle);
        assert(contains_ignoring_ascii_case(eh, en));
    }
    law_ascii_case_is_ignored(h, needle, typed);
}

/// The bytes of `n` occur in `h` from offset `i` on, each equal ignoring
/// ASCII case.
pub open spec fn occurs_ignoring_case_at(h: Seq<u8>, n: Seq<u8>, i: int) -> bool {
    &&& 0 <= i
    &&& i + n.len() <= h.len()
    &&& forall|j: int|
        0 <= j < n.len() ==> crate::sort::ascii_lower(#[trigger] h[i + j])
            == crate::sort::ascii_lower(n[j])
}

/// Conversely, a command matches a non-empty ASCII needle only where the
/// needle's bytes occur in it one after another, each equal ignoring
/// ASCII case.
pub proof fn law_ascii_match_is_an_occurrence(haystack: Seq<char>, needle: Seq<char>)
    requires
        vstd::utf8::is_ascii_chars(needle),
        needle.len() > 0,
        text_matches_spec(haystack, needle),
    ensures
        exists|i: int|
            #[trigger] occurs_ignoring_case_at(encode_utf8(haystack), encode_utf8(needle), i),
{
    let h = encode_utf8(haystack);
    let n = encode_utf8(needle);
    vstd::utf8::is_ascii_chars_encode_utf8(needle);
    assert(n.len() > 0);
    let i = choose|i: int|
        0 <= i && i + n.len() <= h.len() && lower_bytes(#[trigger] h.subrange(i, i + n.len()))
            == lower_bytes(n);
    assert forall|j: int| 0 <= j < n.len() implies crate::sort::ascii_lower(#[trigger] h[i + j])
        == crate::sort::ascii_lower(n[j]) by {
        assert(lower_bytes(h.subrange(i, i + n.len()))[j] == lower_bytes(n)[j]);
    }
    assert(occurs_ignoring_case_at(h, n, i));
}

fn lower(b: u8) -> (r: u8)
    ensures
        r == crate::sort::ascii_lower(b),
{
    if 65 <= b && b <= 90 {
        b + 32
    } else {
        b
    }
}

/// Whether `needle` occurs in `haystack` ignoring ASCII case.
pub fn contains_ascii_case_insensitive(haystack: &[u8], needle: &[u8]) -> (r: bool)
    ensures
        r == contains_ignoring_ascii_case(haystack@, needle@),
{
    let n = needle.len();
    if n == 0 {
        return true;
    }
    if n > haystack.len() {
        return false;
    }
    let mut i: usize = 0;
    while i <= haystack.len() - n
        invariant
            n == needle@.len(),
            n > 0,
            n <= haystack.len(),
            i <= haystack.len() - n + 1,
            forall|k: int|
                0 <= k < i ==> lower_bytes(#[trigger] haystack@.subrange(k, k + n)) != lower_bytes(
                    needle@,
                ),
        decreases haystack.len() - i,
    {
        let mut j: usize = 0;
        while j < n && lower(haystack[i + j]) == lower(needle[j])
            invariant
                n == needle@.len(),
                i + n <= haystack.len(),
                0 <= j <= n,
                forall|m: int|
                    0 <= m < j ==> crate::sort::ascii_lower(haystack@[i + m])
                        == crate::sort::ascii_lower(needle@[m]),
            decreases n - j,
        {
            j = j + 1;
        }
        if j == n {
            assert(lower_bytes(haystack@.subrange(i as int, i + n)) =~= lower_bytes(needle@));
            return true;
        }
        assert(lower_bytes(haystack@.subrange(i as int, i + n))[j as int] != lower_bytes(
            needle@,
        )[j as int]);
        i = i + 1;
    }
    false
}

fn contains_chars_exec(haystack: &Vec<char>, needle: &Vec<char>) -> (r: bool)
    ensures
        r == contains_chars(haystack@, needle@),
{
    let n = needle.len();
    if n > haystack.len() {
        return false;
    }
    let mut i: usize = 0;
    while i <= haystack.len() - n
        invariant
            n == needle@.len(),
            n <= haystack.len(),
            i <= haystack.len() - n + 1,
            forall|k: int| 0 <= k < i ==> #[trigger] haystack@.subrange(k, k + n) != needle@,
        decreases haystack.len() - i,
    {
        let mut j: usize = 0;
        while j < n && haystack[i + j] == needle[j]
            invariant
                n == needle@.len(),
                i + n <= haystack.len(),
                0 <= j <= n,
                forall|m: int| 0 <= m < j ==> haystack@[i + m] == needle@[m],
            decreases n - j,
        {
            j = j + 1;
        }
        if j == n {
            assert(haystack@.subrange(i as int, i + n) =~= needle@);
            return true;
        }
        assert(haystack@.subrange(i as int, i + n)[j as int] != needle@[j as int]);
        i = i + 1;
    }
    false
}

/// Whether `haystack` matches the search text `needle` (see
/// `text_matches_spec`).
pub fn text_matches(haystack: &str, needle: &str) -> (r: bool)
    ensures
        r == text_matches_spec(haystack@, needle@),
{
    if needle.is_empty() {
        return true;
    }
    if needle.is_ascii() {
        contains_ascii_case_insensitive(haystack.as_bytes(), needle.as_bytes())
    } else {
        let h = to_lowercase(haystack);
        let n = to_lowercase(needle);
        contains_chars_exec(&chars_of(h.as_str()), &chars_of(n.as_str()))
    }
}

/// The block matches the search text: an empty one matches every block;
/// otherwise some line of the block, or its custom title, matches it.
pub open spec fn favorite_matches_spec(block: BlockModel, needle: Seq<char>) -> bool {
    ||| needle.len() == 0
    ||| exists|i: int| 0 <= i < block.2.len() && text_matches_spec(block.2[i], needle)
    ||| (block.1 matches Some(t) && text_matches_spec(t, needle))
}

/// Whether a favorite block matches the search text (see
/// `favorite_matches_spec`).
pub fn favorite_matches_query(block: &FavoriteBlock, needle: &str) -> (r: bool)
    ensures
        r == favorite_matches_spec(block.model(), needle@),
{
    if needle.is_empty() {
        return true;
    }
    let mut i: usize = 0;
    while i < block.lines.len()
        invariant
            0 <= i <= block.lines.len(),
            needle@.len() > 0,
            forall|k: int| 0 <= k < i ==> !text_matches_spec(block.model().2[k], needle@),
        decreases block.lines.len() - i,
    {
        if text_matches(block.lines[i].as_str(), needle) {
            assert(block.model().2[i as int] == block.lines@[i as int]@);
            return true;
        }
        i = i + 1;
    }
    match &block.title {
        Some(t) => text_matches(t.as_str(), needle),
        None => false,
    }
}

// ---------------------------------------------------------------------
// Dates and times (chrono)
// ---------------------------------------------------------------------
/// What chrono's `NaiveDateTime::parse_from_str(text, format)` gives, as
/// (year, month, day, hour, minute, second); a function of its arguments.
pub uninterp spec fn chrono_naive_datetime(text: Seq<char>, format: Seq<char>) -> Option<
    (i32, u32, u32, u32, u32, u32),
>;

/// What chrono's `NaiveDate::parse_from_str(text, format)` gives, as
/// (year, month, day); a function of its arguments.
pub uninterp spec fn chrono_naive_date(text: Seq<char>, format: Seq<char>) -> Option<
    (i32, u32, u32),
>;

/// Reads a date and time in `format`.
///
/// Trusted: calls chrono's `NaiveDateTime::parse_from_str`, and claims only
/// that the parts of the result are `chrono_naive_datetime` of the
/// arguments (chrono's parser is a pure function of them).
#[verifier::external_body]
fn parse_naive_datetime(text: &str, format: &str) -> (r: Option<(i32, u32, u32, u32, u32, u32)>)
    ensures
        r == chrono_naive_datetime(text@, format@),
{
    match chrono::NaiveDateTime::parse_from_str(text, format) {
        Ok(dt) => Some((dt.year(), dt.month(), dt.day(), dt.hour(), dt.minute(), dt.second())),
        Err(_) => None,
    }
}

/// Reads a date in `format`.
///
/// Trusted: calls chrono's `NaiveDate::parse_from_str`, and claims only that
/// the parts of the result are `chrono_naive_date` of the arguments.
#[verifier::external_body]
fn parse_naive_date(text: &str, format: &str) -> (r: Option<(i32, u32, u32)>)
    ensures
        r == chrono_naive_date(text@, format@),
{
    match chrono::NaiveDate::parse_from_str(text, format) {
        Ok(d) => Some((d.year(), d.month(), d.day())),
        Err(_) => None,
    }
}

/// A Unix time that may stand for the wall-clock time `(y, mo, d, h, mi,
/// s)` in some time zone: the time exists, and the Unix time is less than
/// a day from the wall-clock time read as UTC.
pub open spec fn local_time_of(t: i64, y: i32, mo: u32, d: u32, h: u32, mi: u32, s: u32) -> bool {
    &&& valid_wall_clock(y as int, mo as int, d as int, h as int, mi as int, s as int)
    &&& within_a_day(t as int, utc_seconds(y as int, mo as int, d as int, h as int, mi as int, s as int))
}

/// The Unix time of a wall-clock time in the machine's time zone: the
/// earlier one when the time occurs twice, none when it does not occur.
///
/// Trusted: calls chrono's `Local.from_local_datetime`. Claimed: a time
/// that comes back belongs to an existing date and time (chrono's
/// `from_ymd_opt` and `and_hms_opt` refuse any other), and is the wall-clock
/// time read as UTC minus the zone's offset, which chrono's
/// `FixedOffset::east_opt` keeps under a day either way. Which offset, and
/// whether a time comes back at all, depend on the machine's time zone and
/// are not claimed.
#[verifier::external_body]
fn local_timestamp(year: i32, month: u32, day: u32, hour: u32, minute: u32, second: u32) -> (r:
    Option<i64>)
    ensures
        r matches Some(t) ==> local_time_of(t, year, month, day, hour, minute, second),
{
    let naive = chrono::NaiveDate::from_ymd_opt(year, month, day)?.and_hms_opt(
        hour,
        minute,
        second,
    )?;
    match chrono::Local.from_local_datetime(&naive) {
        chrono::LocalResult::Single(dt) => Some(dt.timestamp()),
        chrono::LocalResult::Ambiguous(first, _) => Some(first.timestamp()),
        chrono::LocalResult::None => None,
    }
}

/// The wall-clock time a filter value asks about: a Unix time written as
/// digits needs no time zone; otherwise the local date and time that
/// chrono reads (`YYYY-MM-DDTHH:MM:SS`, then `YYYY-MM-DDTHH:MM`, then a
/// bare `YYYY-MM-DD` at 00:00:00, or at 23:59:59 for the end of a day).
#[derive(Debug, Clone, Copy, PartialEq, Eq, Structural)]
pub enum TimeRequest {
    Unix(i64),
    Local(i32, u32, u32, u32, u32, u32),
    Invalid,
}

/// The request a filter value makes (see `TimeRequest`).
pub open spec fn time_request_spec(value: Seq<char>, end_of_day: bool) -> TimeRequest {
    match parse_i64_spec(value) {
        Some(t) => TimeRequest::Unix(t),
        None => match chrono_naive_datetime(value, "%Y-%m-%dT%H:%M:%S"@) {
            Some((y, mo, d, h, mi, sec)) => TimeRequest::Local(y, mo, d, h, mi, sec),
            None => match chrono_naive_datetime(value, "%Y-%m-%dT%H:%M"@) {
                Some((y, mo, d, h, mi, sec)) => TimeRequest::Local(y, mo, d, h, mi, sec),
                None => match chrono_naive_date(value, "%Y-%m-%d"@) {
                    Some((y, mo, d)) => if end_of_day {
                        TimeRequest::Local(y, mo, d, 23, 59, 59)
                    } else {
                        TimeRequest::Local(y, mo, d, 0, 0, 0)
                    },
                    None => TimeRequest::Invalid,
                },
            },
        },
    }
}

/// The request a filter value makes (see `time_request_spec`).
pub fn time_request(value: &str, end_of_day: bool) -> (r: TimeRequest)
    ensures
        r == time_request_spec(value@, end_of_day),
{
    let v = chars_of(value);
    match parse_i64(v.as_slice()) {
        Some(t) => {
            return TimeRequest::Unix(t);
        },
        None => {},
    }
    match parse_naive_datetime(value, "%Y-%m-%dT%H:%M:%S") {
        Some((y, mo, d, h, mi, sec)) => {
            return TimeRequest::Local(y, mo, d, h, mi, sec);
        },
        None => {},
    }
    match parse_naive_datetime(value, "%Y-%m-%dT%H:%M") {
        Some((y, mo, d, h, mi, sec)) => {
            return TimeRequest::Local(y, mo, d, h, mi, sec);
        },
        None => {},
    }
    match parse_naive_date(value, "%Y-%m-%d") {
        Some((y, mo, d)) => if end_of_day {
            TimeRequest::Local(y, mo, d, 23, 59, 59)
        } else {
            TimeRequest::Local(y, mo, d, 0, 0, 0)
        },
        None => TimeRequest::Invalid,
    }
}

/// What a filter value may resolve to, given its request: a Unix time is
/// that time, an invalid value nothing; a local date and time becomes
/// nothing or a Unix time less than a day from it read as UTC (what the
/// local time zone makes of it).
pub open spec fn time_value_ok(value: Seq<char>, end_of_day: bool, r: Option<i64>) -> bool {
    match time_request_spec(value, end_of_day) {
        TimeRequest::Unix(t) => r == Some(t),
        TimeRequest::Invalid => r is None,
        TimeRequest::Local(y, mo, d, h, mi, s) => r matches Some(t) ==> local_time_of(
            t,
            y,
            mo,
            d,
            h,
            mi,
            s,
        ),
    }
}

/// The time a filter value stands for: a Unix time, a local date and time,
/// or a local date at its first (or, with `end_of_day`, last) second. The
/// wall-clock time handed to the time zone is `time_request`'s.
pub fn parse_time_value(value: &str, end_of_day: bool) -> (r: Option<i64>)
    ensures
        time_value_ok(value@, end_of_day, r),
{
    match time_request(value, end_of_day) {
        TimeRequest::Unix(t) => Some(t),
        TimeRequest::Local(y, mo, d, h, mi, sec) => local_timestamp(y, mo, d, h, mi, sec),
        TimeRequest::Invalid => None,
    }
}

/// A local date and time as (year, month, day, hour, minute, second).
pub type WallClock = (i32, u32, u32, u32, u32, u32);

/// The first and last second of the day that an `on:` value names, when
/// chrono reads it as `YYYY-MM-DD`.
pub open spec fn day_request_spec(value: Seq<char>) -> Option<(WallClock, WallClock)> {
    match chrono_naive_date(value, "%Y-%m-%d"@) {
        Some((y, mo, d)) => Some(((y, mo, d, 0, 0, 0), (y, mo, d, 23, 59, 59))),
        None => None,
    }
}

/// The first and last second of the day an `on:` value names (see
/// `day_request_spec`).
pub fn day_request(value: &str) -> (r: Option<(WallClock, WallClock)>)
    ensures
        r == day_request_spec(value@),
{
    match parse_naive_date(value, "%Y-%m-%d") {
        Some((y, mo, d)) => Some(((y, mo, d, 0, 0, 0), (y, mo, d, 23, 59, 59))),
        None => None,
    }
}

/// A day's bounds from the two local-time answers: both must exist.
pub fn combine_day_bounds(start: Option<i64>, end: Option<i64>) -> (r: Option<(i64, i64)>)
    ensures
        r == (match (start, end) {
            (Some(s), Some(e)) => Some((s, e)),
            _ => None,
        }),
{
    match (start, end) {
        (Some(s), Some(e)) => Some((s, e)),
        _ => None,
    }
}

/// What a day of an `on:` filter may resolve to: nothing when chrono does
/// not read it as `YYYY-MM-DD`; otherwise nothing, or what the local time
/// zone makes of its first and last second, each less than a day from that
/// time read as UTC.
pub open spec fn day_value_ok(value: Seq<char>, r: Option<(i64, i64)>) -> bool {
    match day_request_spec(value) {
        None => r is None,
        Some((a, b)) => r matches Some((s, e)) ==> local_time_of(s, a.0, a.1, a.2, a.3, a.4, a.5)
            && local_time_of(e, b.0, b.1, b.2, b.3, b.4, b.5),
    }
}

/// The first and last second of a local day given as `YYYY-MM-DD`: the
/// two wall-clock times of `day_request`, each placed in the local time
/// zone, joined by `combine_day_bounds`.
pub fn parse_day_range(value: &str) -> (r: Option<(i64, i64)>)
    ensures
        day_value_ok(value@, r),
{
    match day_request(value) {
        Some((first, last)) => {
            let start = local_timestamp(first.0, first.1, first.2, first.3, first.4, first.5);
            let end = local_timestamp(last.0, last.1, last.2, last.3, last.4, last.5);
            combine_day_bounds(start, end)
        },
        None => None,
    }
}

// ---------------------------------------------------------------------
// Parsed queries
// ---------------------------------------------------------------------
/// A search query: its text, and the time window that entries must fall in.
#[derive(Debug, Clone, PartialEq, Eq)]
pub struct ParsedQuery {
    pub text: String,
    pub after: Option<i64>,
    pub before: Option<i64>,
}

/// What one word of a query turned out to be.
pub enum TokenTime {
    After(i64),
    Before(i64),
    Day(i64, i64),
    Text,
}

/// The value of an `after:` or `since:` word.
pub open spec fn after_value(t: Seq<char>) -> Option<Seq<char>> {
    if has_prefix(t, "after:"@) {
        Some(t.skip("after:"@.len() as int))
    } else if has_prefix(t, "since:"@) {
        Some(t.skip("since:"@.len() as int))
    } else {
        None
    }
}

/// The value of a `before:` or `until:` word.
pub open spec fn before_value(t: Seq<char>) -> Option<Seq<char>> {
    if has_prefix(t, "before:"@) {
        Some(t.skip("before:"@.len() as int))
    } else if has_prefix(t, "until:"@) {
        Some(t.skip("until:"@.len() as int))
    } else {
        None
    }
}

/// The value of an `on:` word.
pub open spec fn on_value(t: Seq<char>) -> Option<Seq<char>> {
    if has_prefix(t, "on:"@) {
        Some(t.skip("on:"@.len() as int))
    } else {
        None
    }
}

/// A word may turn out so: a filter word becomes its filter when its value
/// resolves, and the filters are tried in the order after/since,
/// before/until, on; a word that no filter takes is text.
pub open spec fn outcome_allowed(t: Seq<char>, o: TokenTime) -> bool {
    let after_failed = after_value(t) matches Some(v) ==> time_value_ok(v, false, None);
    let before_failed = before_value(t) matches Some(w) ==> time_value_ok(w, true, None);
    match o {
        TokenTime::After(ts) => after_value(t) matches Some(v) && time_value_ok(v, false, Some(ts)),
        TokenTime::Before(ts) => after_failed && (before_value(t) matches Some(w) && time_value_ok(
            w,
            true,
            Some(ts),
        )),
        TokenTime::Day(s, e) => after_failed && before_failed && (on_value(t) matches Some(u)
            && day_value_ok(u, Some((s, e)))),
        TokenTime::Text => after_failed && before_failed,
    }
}

/// The larger of an optional bound and `v`.
pub open spec fn raise(bound: Option<i64>, v: i64) -> Option<i64> {
    match bound {
        Some(b) => Some(if b > v {
            b
        } else {
            v
        }),
        None => Some(v),
    }
}

/// The smaller of an optional bound and `v`.
pub open spec fn lower_bound(bound: Option<i64>, v: i64) -> Option<i64> {
    match bound {
        Some(b) => Some(if b < v {
            b
        } else {
            v
        }),
        None => Some(v),
    }
}

/// Folding the words with their outcomes: the text words, the latest
/// start (`after`) and the earliest end (`before`).
pub open spec fn query_state(tokens: Seq<Seq<char>>, outs: Seq<TokenTime>) -> (
    Seq<Seq<char>>,
    Option<i64>,
    Option<i64>,
)
    decreases tokens.len(),
{
    if tokens.len() == 0 || outs.len() != tokens.len() {
        (Seq::empty(), None, None)
    } else {
        let (text, after, before) = query_state(tokens.drop_last(), outs.drop_last());
        match outs.last() {
            TokenTime::After(ts) => (text, raise(after, ts), before),
            TokenTime::Before(ts) => (text, after, lower_bound(before, ts)),
            TokenTime::Day(s, e) => (text, raise(after, s), lower_bound(before, e)),
            TokenTime::Text => (text.push(tokens.last()), after, before),
        }
    }
}

/// Words joined with single spaces.
pub open spec fn join_words(ws: Seq<Seq<char>>) -> Seq<char>
    decreases ws.len(),
{
    if ws.len() == 0 {
        Seq::empty()
    } else if ws.len() == 1 {
        ws[0]
    } else {
        join_words(ws.drop_last()) + seq![' '] + ws.last()
    }
}

/// The query that words with these outcomes make.
pub open spec fn query_model(tokens: Seq<Seq<char>>, outs: Seq<TokenTime>) -> (
    Seq<char>,
    Option<i64>,
    Option<i64>,
) {
    let (text, after, before) = query_state(tokens, outs);
    (join_words(text), after, before)
}

/// Each word turns out as `outs` says and the query made of them is `q`.
pub open spec fn parses_as(query: Seq<char>, outs: Seq<TokenTime>, q: (
    Seq<char>,
    Option<i64>,
    Option<i64>,
)) -> bool {
    let tokens = words(query);
    &&& outs.len() == tokens.len()
    &&& forall|i: int| 0 <= i < tokens.len() ==> outcome_allowed(#[trigger] tokens[i], outs[i])
    &&& query_model(tokens, outs) == q
}

/// `q` is what `query` may parse to: for some allowed outcome of each word.
pub open spec fn parses_to(query: Seq<char>, q: (Seq<char>, Option<i64>, Option<i64>)) -> bool {
    exists|outs: Seq<TokenTime>| parses_as(query, outs, q)
}

/// `since:` is another name for `after:`, and `until:` for `before:`: a
/// word with either prefix and the same value may turn out the same ways.
pub proof fn law_since_until_are_aliases(v: Seq<char>, o: TokenTime)
    ensures
        outcome_allowed("after:"@ + v, o) == outcome_allowed("since:"@ + v, o),
        outcome_allowed("before:"@ + v, o) == outcome_allowed("until:"@ + v, o),
{
    reveal_strlit("after:");
    reveal_strlit("since:");
    reveal_strlit("before:");
    reveal_strlit("until:");
    reveal_strlit("on:");
    let a = "after:"@ + v;
    let b = "since:"@ + v;
    let c = "before:"@ + v;
    let d = "until:"@ + v;
    assert(a.take(6) =~= "after:"@);
    assert(a.skip(6) =~= v);
    assert(b.take(6) =~= "since:"@);
    assert(b.skip(6) =~= v);
    assert(c.take(7) =~= "before:"@);
    assert(c.skip(7) =~= v);
    assert(d.take(6) =~= "until:"@);
    assert(d.skip(6) =~= v);
    assert(!has_prefix(b, "after:"@)) by {
        assert(b.take(6)[0] != "after:"@[0]);
    }
    assert(!has_prefix(a, "before:"@)) by {
        if a.len() >= 7 {
            assert(a.take(7)[0] != "before:"@[0]);
        }
    }
    assert(!has_prefix(b, "before:"@)) by {
        if b.len() >= 7 {
            assert(b.take(7)[0] != "before:"@[0]);
        }
    }
    assert(!has_prefix(a, "until:"@)) by {
        assert(a.take(6)[0] != "until:"@[0]);
    }
    assert(!has_prefix(b, "until:"@)) by {
        assert(b.take(6)[0] != "until:"@[0]);
    }
    assert(!has_prefix(a, "on:"@)) by {
        assert(a.take(3)[0] != "on:"@[0]);
    }
    assert(!has_prefix(b, "on:"@)) by {
        assert(b.take(3)[0] != "on:"@[0]);
    }
    assert(!has_prefix(c, "after:"@)) by {
        assert(c.take(6)[0] != "after:"@[0]);
    }
    assert(!has_prefix(c, "since:"@)) by {
        assert(c.take(6)[0] != "since:"@[0]);
    }
    assert(!has_prefix(d, "after:"@)) by {
        assert(d.take(6)[0] != "after:"@[0]);
    }
    assert(!has_prefix(d, "since:"@)) by {
        assert(d.take(6)[0] != "since:"@[0]);
    }
    assert(!has_prefix(d, "before:"@)) by {
        if d.len() >= 7 {
            assert(d.take(7)[0] != "before:"@[0]);
        }
    }
    assert(!has_prefix(c, "on:"@)) by {
        assert(c.take(3)[0] != "on:"@[0]);
    }
    assert(!has_prefix(d, "on:"@)) by {
        assert(d.take(3)[0] != "on:"@[0]);
    }
    assert(after_value(a) == Some(v));
    assert(after_value(b) == Some(v));
    assert(before_value(c) == Some(v));
    assert(before_value(d) == Some(v));
}

/// Folding words whose outcomes agree gives the same query wherever the
/// words that differ are not text.
proof fn lemma_query_state_same(t1: Seq<Seq<char>>, t2: Seq<Seq<char>>, outs: Seq<TokenTime>)
    requires
        t1.len() == t2.len(),
        forall|k: int| 0 <= k < t1.len() && outs[k] is Text ==> t1[k] == t2[k],
    ensures
        query_state(t1, outs) == query_state(t2, outs),
    decreases t1.len(),
{
    if t1.len() > 0 && outs.len() == t1.len() {
        lemma_query_state_same(t1.drop_last(), t2.drop_last(), outs.drop_last());
        if outs.last() is Text {
            assert(t1[t1.len() - 1] == t2[t2.len() - 1]);
        }
    }
}

/// For a Unix time, `since:` in place of `after:` (or `until:` in place of
/// `before:`) leaves what a query parses to unchanged.
pub proof fn law_since_until_parse_alike(q1: Seq<char>, q2: Seq<char>, i: int, v: Seq<char>)
    requires
        words(q1).len() == words(q2).len(),
        0 <= i < words(q1).len(),
        parse_i64_spec(v) is Some,
        forall|k: int| 0 <= k < words(q1).len() && k != i ==> words(q1)[k] == words(q2)[k],
        (words(q1)[i] == "after:"@ + v && words(q2)[i] == "since:"@ + v) || (words(q1)[i]
            == "before:"@ + v && words(q2)[i] == "until:"@ + v),
    ensures
        forall|q: (Seq<char>, Option<i64>, Option<i64>)| parses_to(q1, q) <==> parses_to(q2, q),
{
    let t1 = words(q1);
    let t2 = words(q2);
    assert forall|o: TokenTime| outcome_allowed(t1[i], o) == outcome_allowed(t2[i], o)
        && (o is Text ==> !outcome_allowed(t1[i], o)) by {
        law_since_until_are_aliases(v, o);
        reveal_strlit("after:");
        reveal_strlit("before:");
        if t1[i] == "after:"@ + v {
            assert(("after:"@ + v).take(6) =~= "after:"@);
            assert(("after:"@ + v).skip(6) =~= v);
        } else {
            assert(("before:"@ + v).take(7) =~= "before:"@);
            assert(("before:"@ + v).skip(7) =~= v);
            assert(!has_prefix(t1[i], "after:"@)) by {
                assert(t1[i].take(6)[0] != "after:"@[0]);
            }
            assert(!has_prefix(t1[i], "since:"@)) by {
                reveal_strlit("since:");
                assert(t1[i].take(6)[0] != "since:"@[0]);
            }
        }
    }
    assert forall|q: (Seq<char>, Option<i64>, Option<i64>)| parses_to(q1, q) implies parses_to(
        q2,
        q,
    ) by {
        let outs = choose|outs: Seq<TokenTime>| parses_as(q1, outs, q);
        assert forall|k: int| 0 <= k < t2.len() implies outcome_allowed(#[trigger] t2[k], outs[k]) by {
            if k != i {
                assert(outcome_allowed(t1[k], outs[k]));
            } else {
                assert(outcome_allowed(t1[i], outs[i]));
            }
        }
        assert(outcome_allowed(t1[i], outs[i]));
        lemma_query_state_same(t1, t2, outs);
        assert(parses_as(q2, outs, q));
    }
    assert forall|q: (Seq<char>, Option<i64>, Option<i64>)| parses_to(q2, q) implies parses_to(
        q1,
        q,
    ) by {
        let outs = choose|outs: Seq<TokenTime>| parses_as(q2, outs, q);
        assert forall|k: int| 0 <= k < t1.len() implies outcome_allowed(#[trigger] t1[k], outs[k]) by {
            if k != i {
                assert(outcome_allowed(t2[k], outs[k]));
            } else {
                assert(outcome_allowed(t2[i], outs[i]));
            }
        }
        assert(outcome_allowed(t2[i], outs[i]));
        lemma_query_state_same(t1, t2, outs);
        assert(parses_as(q1, outs, q));
    }
}

/// For any value, dates included, `since:` in place of `after:` (or
/// `until:` in place of `before:`) leaves unchanged every way a query can
/// parse in which that word takes a time: the same answers of the time
/// zone give the same query.
pub proof fn law_since_until_resolved_alike(
    q1: Seq<char>,
    q2: Seq<char>,
    i: int,
    v: Seq<char>,
    outs: Seq<TokenTime>,
    q: (Seq<char>, Option<i64>, Option<i64>),
)
    requires
        words(q1).len() == words(q2).len(),
        0 <= i < words(q1).len(),
        i < outs.len(),
        !(outs[i] is Text),
        forall|k: int| 0 <= k < words(q1).len() && k != i ==> words(q1)[k] == words(q2)[k],
        (words(q1)[i] == "after:"@ + v && words(q2)[i] == "since:"@ + v) || (words(q1)[i]
            == "before:"@ + v && words(q2)[i] == "until:"@ + v),
    ensures
        parses_as(q1, outs, q) <==> parses_as(q2, outs, q),
{
    let t1 = words(q1);
    let t2 = words(q2);
    law_since_until_are_aliases(v, outs[i]);
    assert(outcome_allowed(t1[i], outs[i]) == outcome_allowed(t2[i], outs[i]));
    if outs.len() == t1.len() {
        lemma_query_state_same(t1, t2, outs);
        assert((forall|k: int| 0 <= k < t1.len() ==> outcome_allowed(#[trigger] t1[k], outs[k]))
            <==> (forall|k: int| 0 <= k < t2.len() ==> outcome_allowed(#[trigger] t2[k], outs[k])))
            by {
            if forall|k: int| 0 <= k < t1.len() ==> outcome_allowed(#[trigger] t1[k], outs[k]) {
                assert forall|k: int| 0 <= k < t2.len() implies outcome_allowed(
                    #[trigger] t2[k],
                    outs[k],
                ) by {
                    assert(outcome_allowed(t1[k], outs[k]));
                }
            }
            if forall|k: int| 0 <= k < t2.len() ==> outcome_allowed(#[trigger] t2[k], outs[k]) {
                assert forall|k: int| 0 <= k < t1.len() implies outcome_allowed(
                    #[trigger] t1[k],
                    outs[k],
                ) by {
                    assert(outcome_allowed(t2[k], outs[k]));
                }
            }
        }
    }
}

/// The start that a word's outcome asks for: its time for `after:`, the
/// first second of its day for `on:`.
pub open spec fn word_start(o: TokenTime) -> Option<i64> {
    match o {
        TokenTime::After(t) => Some(t),
        TokenTime::Day(s, _) => Some(s),
        _ => None,
    }
}

/// The end that a word's outcome asks for: its time for `before:`, the
/// last second of its day for `on:`.
pub open spec fn word_end(o: TokenTime) -> Option<i64> {
    match o {
        TokenTime::Before(t) => Some(t),
        TokenTime::Day(_, e) => Some(e),
        _ => None,
    }
}

/// The window of folded words: each time word narrows it to at least its
/// own bounds, and each end of it is one word's bound (none when no word
/// gives that end).
proof fn lemma_window_of_words(tokens: Seq<Seq<char>>, outs: Seq<TokenTime>)
    requires
        outs.len() == tokens.len(),
    ensures
        forall|k: int|
            0 <= k < outs.len() ==> (#[trigger] word_start(outs[k]) matches Some(t) ==> (query_state(
                tokens,
                outs,
            ).1 matches Some(a) && a >= t)),
        forall|k: int|
            0 <= k < outs.len() ==> (#[trigger] word_end(outs[k]) matches Some(t) ==> (query_state(
                tokens,
                outs,
            ).2 matches Some(b) && b <= t)),
        query_state(tokens, outs).1 matches Some(a) ==> exists|k: int|
            0 <= k < outs.len() && #[trigger] word_start(outs[k]) == Some(a),
        query_state(tokens, outs).2 matches Some(b) ==> exists|k: int|
            0 <= k < outs.len() && #[trigger] word_end(outs[k]) == Some(b),
        query_state(tokens, outs).1 is None ==> forall|k: int|
            0 <= k < outs.len() ==> #[trigger] word_start(outs[k]) is None,
        query_state(tokens, outs).2 is None ==> forall|k: int|
            0 <= k < outs.len() ==> #[trigger] word_end(outs[k]) is None,
    decreases tokens.len(),
{
    if tokens.len() > 0 {
        let t0 = tokens.drop_last();
        let o0 = outs.drop_last();
        lemma_window_of_words(t0, o0);
        let prev = query_state(t0, o0);
        let st = query_state(tokens, outs);
        let last = outs.len() - 1;
        assert forall|k: int| 0 <= k < last implies outs[k] == #[trigger] o0[k] by {}
        if let Some(a) = st.1 {
            if prev.1 == st.1 {
                let k = choose|k: int| 0 <= k < o0.len() && #[trigger] word_start(o0[k]) == Some(a);
                assert(outs[k] == o0[k]);
            } else {
                assert(word_start(outs[last]) == Some(a));
            }
        }
        if let Some(b) = st.2 {
            if prev.2 == st.2 {
                let k = choose|k: int| 0 <= k < o0.len() && #[trigger] word_end(o0[k]) == Some(b);
                assert(outs[k] == o0[k]);
            } else {
                assert(word_end(outs[last]) == Some(b));
            }
        }
        assert forall|k: int| 0 <= k < outs.len() && st.1 is None implies #[trigger] word_start(
            outs[k],
        ) is None by {
            if k < last {
                assert(o0[k] == outs[k]);
            }
        }
        assert forall|k: int| 0 <= k < outs.len() && st.2 is None implies #[trigger] word_end(
            outs[k],
        ) is None by {
            if k < last {
                assert(o0[k] == outs[k]);
            }
        }
        assert forall|k: int| 0 <= k < outs.len() && #[trigger] word_start(outs[k]) is Some implies (
        st.1 matches Some(a) && a >= word_start(outs[k])->0) by {
            if k < last {
                assert(o0[k] == outs[k]);
                assert(word_start(o0[k]) is Some);
            }
        }
        assert forall|k: int| 0 <= k < outs.len() && #[trigger] word_end(outs[k]) is Some implies (
        st.2 matches Some(b) && b <= word_end(outs[k])->0) by {
            if k < last {
                assert(o0[k] == outs[k]);
                assert(word_end(o0[k]) is Some);
            }
        }
    }
}

/// What the time words of a query do to it: each `after:`/`since:` word
/// that takes a time sets the start to at least that time, each
/// `before:`/`until:` word the end to at most its time, and each `on:` word
/// both, to at least the first and at most the last second of its day; each
/// end of the window is the bound of one such word, and there is no end
/// where no word gives one. So an entry that falls in the query has a time,
/// and it lies within every day that an `on:` word names.
pub proof fn law_time_words_narrow_the_window(
    query: Seq<char>,
    outs: Seq<TokenTime>,
    q: (Seq<char>, Option<i64>, Option<i64>),
    k: int,
    entry: Entry,
)
    requires
        parses_as(query, outs, q),
        0 <= k < outs.len(),
    ensures
        outs[k] matches TokenTime::After(t) ==> (q.1 matches Some(a) && a >= t),
        outs[k] matches TokenTime::Before(t) ==> (q.2 matches Some(b) && b <= t),
        outs[k] matches TokenTime::Day(s, e) ==> ((q.1 matches Some(a) && a >= s) && (q.2 matches Some(
            b,
        ) && b <= e)),
        outs[k] matches TokenTime::Day(s, e) ==> (query_matches(q, entry) ==> (
        entry.timestamp matches Some(t) && s <= t <= e)),
        q.1 matches Some(a) ==> exists|j: int|
            0 <= j < outs.len() && #[trigger] word_start(outs[j]) == Some(a),
        q.2 matches Some(b) ==> exists|j: int|
            0 <= j < outs.len() && #[trigger] word_end(outs[j]) == Some(b),
        q.1 is None ==> forall|j: int| 0 <= j < outs.len() ==> #[trigger] word_start(outs[j]) is None,
        q.2 is None ==> forall|j: int| 0 <= j < outs.len() ==> #[trigger] word_end(outs[j]) is None,
{
    lemma_window_of_words(words(query), outs);
    assert(word_start(outs[k]) == word_start(outs[k]));
    assert(word_end(outs[k]) == word_end(outs[k]));
}

/// An entry falls in the query: inside the time window (an entry without a
/// time falls outside any window) and matching the text.
pub open spec fn query_matches(q: (Seq<char>, Option<i64>, Option<i64>), e: Entry) -> bool {
    &&& q.1 matches Some(a) ==> e.timestamp matches Some(t) && t >= a
    &&& q.2 matches Some(b) ==> e.timestamp matches Some(t) && t <= b
    &&& text_matches_spec(e.cmd@, q.0)
}

fn prefix_value(t: &Vec<char>, prefix: &str) -> (r: Option<Vec<char>>)
    ensures
        r matches Some(v) ==> has_prefix(t@, prefix@) && v@ == t@.skip(prefix@.len() as int),
        r is None ==> !has_prefix(t@, prefix@),
{
    if starts_with(t.as_slice(), prefix) {
        let n = chars_of(prefix).len();
        let v = copy_range(t, n, t.len());
        assert(v@ =~= t@.skip(prefix@.len() as int));
        Some(v)
    } else {
        None
    }
}

fn after_value_of(t: &Vec<char>) -> (r: Option<Vec<char>>)
    ensures
        r matches Some(v) ==> after_value(t@) == Some(v@),
        r is None ==> after_value(t@) is None,
{
    match prefix_value(t, "after:") {
        Some(v) => Some(v),
        None => prefix_value(t, "since:"),
    }
}

fn before_value_of(t: &Vec<char>) -> (r: Option<Vec<char>>)
    ensures
        r matches Some(v) ==> before_value(t@) == Some(v@),
        r is None ==> before_value(t@) is None,
{
    match prefix_value(t, "before:") {
        Some(v) => Some(v),
        None => prefix_value(t, "until:"),
    }
}

impl ParsedQuery {
    /// The query as values: text, after, before.
    pub open spec fn model(self) -> (Seq<char>, Option<i64>, Option<i64>) {
        (self.text@, self.after, self.before)
    }

    /// Splits a search query into its text and time filters (see
    /// `parses_to`). Which date words resolve depends on chrono and the
    /// local time zone; Unix times and words that are not filters do not.
    pub fn parse(query: &str) -> (q: ParsedQuery)
        ensures
            parses_to(query@, q.model()),
    {
        let qc = chars_of(query);
        let tokens = words_of(&qc);
        let ghost tv = words(query@);
        let mut text: Vec<char> = Vec::new();
        let mut n_text: usize = 0;
        let mut after: Option<i64> = None;
        let mut before: Option<i64> = None;
        let ghost mut outs: Seq<TokenTime> = Seq::empty();
        let mut i: usize = 0;
        while i < tokens.len()
            invariant
                0 <= i <= tokens.len(),
                tv == words(query@),
                tokens@.len() == tv.len(),
                forall|k: int| 0 <= k < tokens@.len() ==> #[trigger] tokens@[k]@ == tv[k],
                outs.len() == i,
                forall|k: int| 0 <= k < i ==> outcome_allowed(#[trigger] tv[k], outs[k]),
                text@ == join_words(query_state(tv.take(i as int), outs).0),
                n_text == query_state(tv.take(i as int), outs).0.len(),
                n_text <= i,
                after == query_state(tv.take(i as int), outs).1,
                before == query_state(tv.take(i as int), outs).2,
            decreases tokens.len() - i,
        {
            let t = &tokens[i];
            let ghost tk = tv[i as int];
            assert(tv.take(i + 1).drop_last() =~= tv.take(i as int));
            assert(tv.take(i + 1).last() == tk);
            let ghost prev_outs = outs;
            let mut handled = false;
            match after_value_of(t) {
                Some(v) => {
                    let vs = string_from_chars(v.as_slice());
                    match parse_time_value(vs.as_str(), false) {
                        Some(ts) => {
                            after = match after {
                                Some(cur) => Some(
                                    if cur > ts {
                                        cur
                                    } else {
                                        ts
                                    },
                                ),
                                None => Some(ts),
                            };
                            proof {
                                outs = prev_outs.push(TokenTime::After(ts));
                            }
                            handled = true;
                        },
                        None => {},
                    }
                },
                None => {},
            }
            if !handled {
                match before_value_of(t) {
                    Some(v) => {
                        let vs = string_from_chars(v.as_slice());
                        match parse_time_value(vs.as_str(), true) {
                            Some(ts) => {
                                before = match before {
                                    Some(cur) => Some(
                                        if cur < ts {
                                            cur
                                        } else {
                                            ts
                                        },
                                    ),
                                    None => Some(ts),
                                };
                                proof {
                                    outs = prev_outs.push(TokenTime::Before(ts));
                                }
                                handled = true;
                            },
                            None => {},
                        }
                    },
                    None => {},
                }
            }
            if !handled {
                match prefix_value(t, "on:") {
                    Some(v) => {
                        let vs = string_from_chars(v.as_slice());
                        match parse_day_range(vs.as_str()) {
                            Some((s, e)) => {
                                after = match after {
                                    Some(cur) => Some(
                                        if cur > s {
                                            cur
                                        } else {
                                            s
                                        },
                                    ),
                                    None => Some(s),
                                };
                                before = match before {
                                    Some(cur) => Some(
                                        if cur < e {
                                            cur
                                        } else {
                                            e
                                        },
                                    ),
                                    None => Some(e),
                                };
                                proof {
                                    outs = prev_outs.push(TokenTime::Day(s, e));
                                }
                                handled = true;
                            },
                            None => {},
                        }
                    },
                    None => {},
                }
            }
            if !handled {
                if n_text > 0 {
                    text.push(' ');
                }
                push_all(&mut text, t.as_slice());
                n_text = n_text + 1;
                proof {
                    outs = prev_outs.push(TokenTime::Text);
                    assert(outs.drop_last() =~= prev_outs);
                    let ws = query_state(tv.take(i + 1), outs).0;
                    assert(ws.drop_last() =~= query_state(tv.take(i as int), prev_outs).0);
                }
            }
            proof {
                assert(outs.drop_last() =~= prev_outs);
                assert forall|k: int| 0 <= k < i + 1 implies outcome_allowed(
                    #[trigger] tv[k],
                    outs[k],
                ) by {
                    if k < i {
                        assert(outs[k] == prev_outs[k]);
                    }
                }
            }
            i = i + 1;
        }
        assert(tv.take(tokens.len() as int) =~= tv);
        let q = ParsedQuery { text: string_from_chars(text.as_slice()), after, before };
        assert(query_model(tv, outs) == q.model());
        assert(parses_as(query@, outs, q.model()));
        q
    }

    /// Whether an entry falls in this query (see `query_matches`).
    pub fn matches(&self, entry: &Entry) -> (r: bool)
        ensures
            r == query_matches(self.model(), *entry),
    {
        match self.after {
            Some(a) => match entry.timestamp {
                None => {
                    return false;
                },
                Some(t) => {
                    if t < a {
                        return false;
                    }
                },
            },
            None => {},
        }
        match self.before {
            Some(b) => match entry.timestamp {
                None => {
                    return false;
                },
                Some(t) => {
                    if t > b {
                        return false;
                    }
                },
            },
            None => {},
        }
        text_matches(entry.cmd.as_str(), self.text.as_str())
    }
}

} // verus!
