//! The time window a video file covers.
//!
//! A video's file stem must read `YYYY-MM-DD HH-MM-SS`, the recording's
//! local start time; the window runs from that instant (converted to epoch
//! milliseconds with the caller's UTC offset) for the container-reported
//! length of the video. An unparsable stem yields `None`, which a caller
//! reports for that one video and goes on with the rest.

use vstd::prelude::*;
use vstd::string::StrSliceExecFns;

use crate::data::MAX_TIME_MS;
use crate::keys::digit_val;
use crate::keys::is_digit_char;
use crate::segments::TimeWindow;

verus! {

/// A civil (proleptic Gregorian) date and time of day, as a video file stem
/// spells it.
#[derive(Debug, Clone, Copy, PartialEq, Eq, Structural)]
pub struct CivilDateTime {
    pub year: u16,
    pub month: u8,
    pub day: u8,
    pub hour: u8,
    pub minute: u8,
    pub second: u8,
}

/// Gregorian leap year.
pub open spec fn is_leap_year(y: int) -> bool {
    y % 4 == 0 && (y % 100 != 0 || y % 400 == 0)
}

/// Days in a month of the proleptic Gregorian calendar.
pub open spec fn days_in_month(y: int, m: int) -> int {
    if m == 2 {
        if is_leap_year(y) {
            29
        } else {
            28
        }
    } else if m == 4 || m == 6 || m == 9 || m == 11 {
        30
    } else {
        31
    }
}

/// A representable calendar instant: a real date with up to four year
/// digits and an in-range time of day.
pub open spec fn valid_civil(c: CivilDateTime) -> bool {
    &&& c.year <= 9999
    &&& 1 <= c.month <= 12
    &&& 1 <= c.day as int <= days_in_month(c.year as int, c.month as int)
    &&& c.hour <= 23
    &&& c.minute <= 59
    &&& c.second <= 59
}

/// Days from the Unix epoch to the given civil date (negative before 1970).
/// The classic era/year-of-era formula, shifted by 400 years so every
/// intermediate quantity stays non-negative for years 0 through 9999.
pub open spec fn days_from_epoch(y: int, m: int, d: int) -> int {
    let yy = y + 400 - (if m <= 2 {
        1int
    } else {
        0int
    });
    let era = yy / 400;
    let yoe = yy - era * 400;
    let mp = if m > 2 {
        m - 3
    } else {
        m + 9
    };
    let doy = (153 * mp + 2) / 5 + d - 1;
    let doe = yoe * 365 + yoe / 4 - yoe / 100 + doy;
    era * 146097 + doe - 146097 - 719468
}

/// The civil instant, shifted from local time to UTC by `offset_seconds`,
/// as milliseconds since the Unix epoch.
pub open spec fn spec_civil_to_epoch_ms(c: CivilDateTime, offset_seconds: int) -> int {
    (days_from_epoch(c.year as int, c.month as int, c.day as int) * 86400 + c.hour as int * 3600
        + c.minute as int * 60 + c.second as int - offset_seconds) * 1000
}

/// Whether the stem spells `YYYY-MM-DD HH-MM-SS`, digit for digit.
pub open spec fn stem_shape_ok(s: Seq<char>) -> bool {
    &&& s.len() == 19
    &&& is_digit_char(s[0]) && is_digit_char(s[1]) && is_digit_char(s[2]) && is_digit_char(s[3])
    &&& s[4] == '-'
    &&& is_digit_char(s[5]) && is_digit_char(s[6])
    &&& s[7] == '-'
    &&& is_digit_char(s[8]) && is_digit_char(s[9])
    &&& s[10] == ' '
    &&& is_digit_char(s[11]) && is_digit_char(s[12])
    &&& s[13] == '-'
    &&& is_digit_char(s[14]) && is_digit_char(s[15])
    &&& s[16] == '-'
    &&& is_digit_char(s[17]) && is_digit_char(s[18])
}

/// The civil instant a well-shaped stem spells.
pub open spec fn stem_civil(s: Seq<char>) -> CivilDateTime {
    CivilDateTime {
        year: (digit_val(s[0]) * 1000 + digit_val(s[1]) * 100 + digit_val(s[2]) * 10 + digit_val(
            s[3],
        )) as u16,
        month: (digit_val(s[5]) * 10 + digit_val(s[6])) as u8,
        day: (digit_val(s[8]) * 10 + digit_val(s[9])) as u8,
        hour: (digit_val(s[11]) * 10 + digit_val(s[12])) as u8,
        minute: (digit_val(s[14]) * 10 + digit_val(s[15])) as u8,
        second: (digit_val(s[17]) * 10 + digit_val(s[18])) as u8,
    }
}

/// The civil instant a video file stem names: `Some` exactly when the stem
/// spells `YYYY-MM-DD HH-MM-SS` and names a real calendar instant.
pub open spec fn spec_parse_video_stem(s: Seq<char>) -> Option<CivilDateTime> {
    if stem_shape_ok(s) && valid_civil(stem_civil(s)) {
        Some(stem_civil(s))
    } else {
        None
    }
}

/// Reads the two decimal digits at `i` and `i + 1`.
fn read_two_digits(s: &str, i: usize) -> (r: Option<u32>)
    requires
        i < usize::MAX,
        i + 1 < s@.len(),
    ensures
        match r {
            Some(v) => is_digit_char(s@[i as int]) && is_digit_char(s@[i + 1]) && v as int
                == digit_val(s@[i as int]) * 10 + digit_val(s@[i + 1]) && v <= 99,
            None => !(is_digit_char(s@[i as int]) && is_digit_char(s@[i + 1])),
        },
{
    let c1 = s.get_char(i) as u32;
    if !(48 <= c1 && c1 <= 57) {
        return None;
    }
    let c2 = s.get_char(i + 1) as u32;
    if !(48 <= c2 && c2 <= 57) {
        return None;
    }
    Some((c1 - 48) * 10 + (c2 - 48))
}

/// Whether the character at `i` is `c`.
fn char_at_is(s: &str, i: usize, c: char) -> (r: bool)
    requires
        i < s@.len(),
    ensures
        r == (s@[i as int] == c),
{
    s.get_char(i) == c
}

/// Days in a month, executable twin of [`days_in_month`].
fn days_in_month_of(year: u32, month: u32) -> (r: u32)
    requires
        1 <= month <= 12,
    ensures
        r as int == days_in_month(year as int, month as int),
{
    if month == 2 {
        if year % 4 == 0 && (year % 100 != 0 || year % 400 == 0) {
            29
        } else {
            28
        }
    } else if month == 4 || month == 6 || month == 9 || month == 11 {
        30
    } else {
        31
    }
}

/// Parses a video file stem of the shape `YYYY-MM-DD HH-MM-SS`; `None` when
/// the shape is wrong or the named instant is no real calendar instant.
pub fn parse_video_timestamp(stem: &str) -> (r: Option<CivilDateTime>)
    ensures
        r == spec_parse_video_stem(stem@),
{
    let n = stem.unicode_len();
    if n != 19 {
        return None;
    }
    let y_hi = match read_two_digits(stem, 0) {
        Some(v) => v,
        None => {
            return None;
        },
    };
    let y_lo = match read_two_digits(stem, 2) {
        Some(v) => v,
        None => {
            return None;
        },
    };
    if !char_at_is(stem, 4, '-') {
        return None;
    }
    let month = match read_two_digits(stem, 5) {
        Some(v) => v,
        None => {
            return None;
        },
    };
    if !char_at_is(stem, 7, '-') {
        return None;
    }
    let day = match read_two_digits(stem, 8) {
        Some(v) => v,
        None => {
            return None;
        },
    };
    if !char_at_is(stem, 10, ' ') {
        return None;
    }
    let hour = match read_two_digits(stem, 11) {
        Some(v) => v,
        None => {
            return None;
        },
    };
    if !char_at_is(stem, 13, '-') {
        return None;
    }
    let minute = match read_two_digits(stem, 14) {
        Some(v) => v,
        None => {
            return None;
        },
    };
    if !char_at_is(stem, 16, '-') {
        return None;
    }
    let second = match read_two_digits(stem, 17) {
        Some(v) => v,
        None => {
            return None;
        },
    };
    let year: u32 = y_hi * 100 + y_lo;
    if !(1 <= month && month <= 12) {
        return None;
    }
    let dim = days_in_month_of(year, month);
    if !(1 <= day && day <= dim) {
        return None;
    }
    if !(hour <= 23 && minute <= 59 && second <= 59) {
        return None;
    }
    let c = CivilDateTime {
        year: year as u16,
        month: month as u8,
        day: day as u8,
        hour: hour as u8,
        minute: minute as u8,
        second: second as u8,
    };
    Some(c)
}

/// Converts a valid civil instant, local to the zone `offset_seconds` east
/// of UTC, into milliseconds since the Unix epoch.
pub fn civil_to_epoch_ms(c: &CivilDateTime, offset_seconds: i32) -> (r: i64)
    requires
        valid_civil(*c),
    ensures
        r as int == spec_civil_to_epoch_ms(*c, offset_seconds as int),
        -400_000_000_000_000 <= r <= 400_000_000_000_000,
{
    let y: u64 = c.year as u64;
    let m: u64 = c.month as u64;
    let d: u64 = c.day as u64;
    let yy: u64 = y + 400 - (if m <= 2 {
        1
    } else {
        0
    });
    let era: u64 = yy / 400;
    assert(era <= 25);
    let yoe: u64 = yy - era * 400;
    assert(yoe <= 399);
    let mp: u64 = if m > 2 {
        m - 3
    } else {
        m + 9
    };
    let doy: u64 = (153 * mp + 2) / 5 + d - 1;
    assert(doy <= 366);
    let doe: u64 = yoe * 365 + yoe / 4 - yoe / 100 + doy;
    assert(yoe / 100 <= yoe / 4) by {
        assert(yoe / 100 <= yoe / 4) by (nonlinear_arith)
            requires
                yoe >= 0,
        ;
    }
    assert(doe <= 146462);
    let days: i64 = (era * 146097 + doe) as i64 - 146097 - 719468;
    let secs: i64 = days * 86400 + (c.hour as i64) * 3600 + (c.minute as i64) * 60 + (
    c.second as i64) - (offset_seconds as i64);
    secs * 1000
}

/// The time window for one video: the stem names the local start time, the
/// window runs for the video's length. `None` exactly when the stem does not
/// parse.
pub fn video_time_window(stem: &str, offset_seconds: i32, video_length_ms: i64) -> (r: Option<
    TimeWindow,
>)
    requires
        0 <= video_length_ms <= MAX_TIME_MS / 2,
    ensures
        match r {
            Some(w) => {
                &&& spec_parse_video_stem(stem@) is Some
                &&& w.start as int == spec_civil_to_epoch_ms(
                    spec_parse_video_stem(stem@).unwrap(),
                    offset_seconds as int,
                )
                &&& w.end as int == w.start as int + video_length_ms as int
                &&& w.wf()
            },
            None => spec_parse_video_stem(stem@) is None,
        },
{
    let c = match parse_video_timestamp(stem) {
        Some(c) => c,
        None => {
            return None;
        },
    };
    let start = civil_to_epoch_ms(&c, offset_seconds);
    let end = start + video_length_ms;
    Some(TimeWindow { start, end })
}

} // verus!
