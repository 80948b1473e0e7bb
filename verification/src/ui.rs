//! What the list view shows that is not drawing: the scroll offset that
//! keeps the cursor centered, and the text of the rows.
use vstd::prelude::*;

use chrono::TimeZone;

use crate::clock::{utc_seconds, valid_wall_clock, within_a_day};
use crate::text::{
    all_digits, chars_of, decimal_value, digit_value, i64_to_text, int_text, is_digit, push_all,
    push_str, string_from_chars,
};

verus! {

/// The first row shown: the cursor stays in the middle of the viewport,
/// except near the ends of the list; a list that fits is not scrolled.
pub open spec fn centered_scroll_spec(cursor: int, total: int, viewport_h: int) -> int {
    if total == 0 || viewport_h == 0 || total <= viewport_h {
        0
    } else {
        let mid = viewport_h / 2;
        let from_cursor = if cursor > mid {
            cursor - mid
        } else {
            0
        };
        if from_cursor < total - viewport_h {
            from_cursor
        } else {
            total - viewport_h
        }
    }
}

/// The first row shown (see `centered_scroll_spec`).
pub fn centered_scroll(cursor: usize, total: usize, viewport_h: usize) -> (r: usize)
    ensures
        r == centered_scroll_spec(cursor as int, total as int, viewport_h as int),
{
    if total == 0 || viewport_h == 0 || total <= viewport_h {
        return 0;
    }
    let mid = viewport_h / 2;
    let max_scroll = total - viewport_h;
    let from_cursor = if cursor > mid {
        cursor - mid
    } else {
        0
    };
    if from_cursor < max_scroll {
        from_cursor
    } else {
        max_scroll
    }
}

/// With a cursor on the list, the scrolled viewport shows the cursor, stays
/// within the list, and holds the cursor at its middle row whenever the
/// list extends far enough on both sides.
pub proof fn law_centered_scroll_shows_cursor(cursor: int, total: int, viewport_h: int)
    requires
        0 <= cursor < total,
        viewport_h > 0,
    ensures
        ({
            let s = centered_scroll_spec(cursor, total, viewport_h);
            &&& 0 <= s <= cursor < s + viewport_h
            &&& (total > viewport_h ==> s + viewport_h <= total)
            &&& (viewport_h / 2 <= cursor && cursor - viewport_h / 2 <= total - viewport_h
                ==> cursor - s == viewport_h / 2)
        }),
{
}

/// The rows drawn for a list of `total` rows in a viewport of
/// `viewport_h`: from the centered scroll offset to the end of the
/// viewport or of the list, and the cursor's place among them.
pub fn list_window(cursor: usize, total: usize, viewport_h: usize) -> (r: (usize, usize, usize))
    ensures
        r.0 == centered_scroll_spec(cursor as int, total as int, viewport_h as int),
        r.1 == (if r.0 + (if viewport_h > 1 {
            viewport_h as int
        } else {
            1
        }) < total {
            r.0 + (if viewport_h > 1 {
                viewport_h as int
            } else {
                1
            })
        } else {
            total as int
        }),
        r.2 == (if cursor > r.0 {
            cursor - r.0
        } else {
            0
        }),
{
    let scroll = centered_scroll(cursor, total, viewport_h);
    let shown: usize = if viewport_h > 1 {
        viewport_h
    } else {
        1
    };
    let end = if scroll + shown < total {
        scroll + shown
    } else {
        total
    };
    let highlight = if cursor > scroll {
        cursor - scroll
    } else {
        0
    };
    (scroll, end, highlight)
}

/// The year as chrono's `%Y` writes it: four digits, or a sign and at
/// least four digits for years before 0 or after 9999.
pub open spec fn year_text(y: Seq<char>) -> bool {
    ||| (y.len() == 4 && all_digits(y))
    ||| (y.len() >= 5 && (y[0] == '+' || y[0] == '-') && all_digits(y.skip(1)))
}

/// `-MM-DD HH:MM:SS`: the rest of a `%Y-%m-%d %H:%M:%S` text after the
/// year, each field two digits.
pub open spec fn clock_text(t: Seq<char>) -> bool {
    &&& t.len() == 15
    &&& t[0] == '-' && is_digit(t[1]) && is_digit(t[2])
    &&& t[3] == '-' && is_digit(t[4]) && is_digit(t[5])
    &&& t[6] == ' ' && is_digit(t[7]) && is_digit(t[8])
    &&& t[9] == ':' && is_digit(t[10]) && is_digit(t[11])
    &&& t[12] == ':' && is_digit(t[13]) && is_digit(t[14])
}

/// A text of the form `%Y-%m-%d %H:%M:%S` as chrono writes it: the year,
/// then month, day, hour, minute and second as two digits each.
pub open spec fn local_datetime_text(t: Seq<char>) -> bool {
    &&& t.len() >= 19
    &&& year_text(t.take(t.len() - 15))
    &&& clock_text(t.skip(t.len() - 15))
}

/// The value of a year as `%Y` writes it, with its sign.
pub open spec fn year_value(y: Seq<char>) -> int {
    if y.len() > 0 && y[0] == '-' {
        -decimal_value(y.skip(1))
    } else if y.len() > 0 && y[0] == '+' {
        decimal_value(y.skip(1))
    } else {
        decimal_value(y)
    }
}

/// The two-digit number at `t[i..i + 2]`.
pub open spec fn two_digit_value(t: Seq<char>, i: int) -> int {
    digit_value(t[i]) * 10 + digit_value(t[i + 1])
}

/// The year, month, day, hour, minute and second that a
/// `%Y-%m-%d %H:%M:%S` text shows.
pub open spec fn shown_wall_clock(t: Seq<char>) -> (int, int, int, int, int, int) {
    let k = t.len() - 15;
    (
        year_value(t.take(k)),
        two_digit_value(t, k + 1),
        two_digit_value(t, k + 4),
        two_digit_value(t, k + 7),
        two_digit_value(t, k + 10),
        two_digit_value(t, k + 13),
    )
}

/// `t` shows `timestamp` in some time zone: it has the form
/// `%Y-%m-%d %H:%M:%S`, the date and time it shows exist, and they are
/// less than a day from `timestamp` read as UTC.
pub open spec fn local_text_of(t: Seq<char>, timestamp: i64) -> bool {
    &&& local_datetime_text(t)
    &&& ({
        let (y, mo, d, h, mi, s) = shown_wall_clock(t);
        valid_wall_clock(y, mo, d, h, mi, s) && within_a_day(
            utc_seconds(y, mo, d, h, mi, s),
            timestamp as int,
        )
    })
}

/// What the time column may show for `timestamp`: the local date and time
/// (see `local_text_of`), or `ts:` and the seconds.
pub open spec fn stamp_text_ok(t: Seq<char>, timestamp: i64) -> bool {
    local_text_of(t, timestamp) || t == "ts:"@ + int_text(timestamp as int)
}

/// A Unix time as local `%Y-%m-%d %H:%M:%S`, or none where the local time
/// zone has no such instant.
///
/// Trusted: calls chrono's `Local.timestamp_opt` and `format`. Claimed: a
/// text that comes back has the shape chrono's `%Y-%m-%d %H:%M:%S` writes
/// (`local_datetime_text`: `%Y` zero-padded to four digits, with a sign
/// outside 0..=9999; the other fields zero-padded to two), and shows an
/// existing date and time (the nanoseconds are 0, so no leap second) that
/// is `timestamp` read as UTC plus the zone's offset, which chrono's
/// `FixedOffset::east_opt` keeps under a day either way (`local_text_of`).
/// Which offset, and whether a text comes back at all, depend on the
/// machine's time zone and are not claimed.
#[verifier::external_body]
fn local_time_text(timestamp: i64, format: &str) -> (r: Option<String>)
    requires
        format@ == "%Y-%m-%d %H:%M:%S"@,
    ensures
        r matches Some(t) ==> local_text_of(t@, timestamp),
{
    match chrono::Local.timestamp_opt(timestamp, 0) {
        chrono::LocalResult::Single(dt) => Some(dt.format(format).to_string()),
        chrono::LocalResult::Ambiguous(dt, _) => Some(dt.format(format).to_string()),
        chrono::LocalResult::None => None,
    }
}

/// The time column for a timestamp: the local date and time when the time
/// zone gave one (`local`), else `ts:<seconds>`.
pub open spec fn timestamp_text_spec(local: Option<Seq<char>>, timestamp: i64) -> Seq<char> {
    match local {
        Some(t) => t,
        None => "ts:"@ + int_text(timestamp as int),
    }
}

/// The time column for a timestamp, given what the local time zone made of
/// it (see `timestamp_text_spec`).
pub fn timestamp_text(local: Option<String>, timestamp: i64) -> (s: String)
    ensures
        s@ == timestamp_text_spec(
            match local {
                Some(t) => Some(t@),
                None => None,
            },
            timestamp,
        ),
{
    match local {
        Some(t) => t,
        None => {
            let mut out = chars_of("ts:");
            push_all(&mut out, i64_to_text(timestamp).as_slice());
            string_from_chars(out.as_slice())
        },
    }
}

/// A timestamp shown in local time, `%Y-%m-%d %H:%M:%S` (`ts:<seconds>`
/// when the local time zone has no such instant): a date and time less
/// than a day from the timestamp read as UTC. Which of the two comes back,
/// and the exact offset, depend on the machine's time zone;
/// `timestamp_text` states how the text is made from the time zone's
/// answer.
pub fn format_timestamp(timestamp: i64) -> (s: String)
    ensures
        stamp_text_ok(s@, timestamp),
{
    timestamp_text(local_time_text(timestamp, "%Y-%m-%d %H:%M:%S"), timestamp)
}

/// The text of a history row: the selection mark, then the command,
/// with the time in between when `stamp` is given.
pub open spec fn history_label_spec(checked: Seq<char>, cmd: Seq<char>, stamp: Option<Seq<char>>) -> Seq<
    char,
> {
    match stamp {
        None => checked + " "@ + cmd,
        Some(s) => checked + " "@ + s + " | "@ + cmd,
    }
}

/// The time column of an entry without a time.
pub open spec fn no_time_text() -> Seq<char> {
    "-------------------"@
}

/// The text of a history row (see `history_label_spec`).
pub fn history_label(checked: &str, cmd: &str, stamp: Option<&str>) -> (s: String)
    ensures
        s@ == history_label_spec(
            checked@,
            cmd@,
            match stamp {
                Some(t) => Some(t@),
                None => None,
            },
        ),
{
    let mut out = chars_of(checked);
    push_str(&mut out, " ");
    match stamp {
        Some(t) => {
            push_str(&mut out, t);
            push_str(&mut out, " | ");
        },
        None => {},
    }
    push_str(&mut out, cmd);
    string_from_chars(out.as_slice())
}

/// The text of a history row: with `show_timestamps`, the entry's local
/// time (or dashes when it has none) sits between the mark and the command.
pub fn format_history_label(
    checked: &str,
    cmd: &str,
    timestamp: Option<i64>,
    show_timestamps: bool,
) -> (s: String)
    ensures
        !show_timestamps ==> s@ == history_label_spec(checked@, cmd@, None),
        show_timestamps && timestamp is None ==> s@ == history_label_spec(
            checked@,
            cmd@,
            Some(no_time_text()),
        ),
        show_timestamps && timestamp is Some ==> exists|t: Seq<char>|
            #![trigger history_label_spec(checked@, cmd@, Some(t))]
            stamp_text_ok(t, timestamp->0) && s@ == history_label_spec(checked@, cmd@, Some(t)),
{
    if !show_timestamps {
        return history_label(checked, cmd, None);
    }
    match timestamp {
        Some(ts) => {
            let stamp = format_timestamp(ts);
            history_label(checked, cmd, Some(stamp.as_str()))
        },
        None => history_label(checked, cmd, Some("-------------------")),
    }
}

} // verus!
