//! GitHub Actions through the `gh` command line tool: the argument lists it is
//! called with, what its output means, and the run timestamps it reports.

use vstd::prelude::*;
use vstd::string::StringSliceAdditionalSpecFns;

use crate::json::{Json, member_items, member_str, spec_as_u64, spec_item, spec_member};
use crate::text::{chars_of, decimal, lossy_utf8, push_all, push_decimal, push_string, string_of, trim_chars, trimmed, utf8_lossy};

verus! {

// ---------------------------------------------------------------------------
// Timestamps
// ---------------------------------------------------------------------------

/// Whether `b` is an ASCII decimal digit.
pub open spec fn is_digit_byte(b: u8) -> bool {
    48 <= b <= 57
}

/// Whether every byte of `d` is an ASCII decimal digit.
pub open spec fn all_digit_bytes(d: Seq<u8>) -> bool {
    forall|i: int| 0 <= i < d.len() ==> is_digit_byte(#[trigger] d[i])
}

/// The value of a run of ASCII decimal digits.
pub open spec fn digits_value(d: Seq<u8>) -> int
    decreases d.len(),
{
    if d.len() == 0 {
        0
    } else {
        digits_value(d.drop_last()) * 10 + (d.last() - 48)
    }
}

/// The value of a field made of decimal digits only: at least one digit,
/// no sign, no other byte.
pub open spec fn parse_digits(d: Seq<u8>) -> Option<int> {
    if d.len() > 0 && all_digit_bytes(d) {
        Some(digits_value(d))
    } else {
        None
    }
}

/// Whether `y` is a leap year of the proleptic Gregorian calendar.
pub open spec fn is_leap_year(y: int) -> bool {
    (y % 4 == 0 && y % 100 != 0) || y % 400 == 0
}

/// The number of leap years before `y`, counted from a fixed origin; only
/// differences of it matter.
pub open spec fn leap_years_before(y: int) -> int {
    (y - 1) / 4 - (y - 1) / 100 + (y - 1) / 400
}

/// Days from 1970-01-01 to the first day of year `y`.
pub open spec fn days_before_year(y: int) -> int {
    365 * (y - 1970) + leap_years_before(y) - leap_years_before(1970)
}

/// Days from the first day of year `y` to the first day of month `m` (1..=12).
pub open spec fn days_before_month(y: int, m: int) -> int {
    let base: int = if m == 1 {
        0
    } else if m == 2 {
        31
    } else if m == 3 {
        59
    } else if m == 4 {
        90
    } else if m == 5 {
        120
    } else if m == 6 {
        151
    } else if m == 7 {
        181
    } else if m == 8 {
        212
    } else if m == 9 {
        243
    } else if m == 10 {
        273
    } else if m == 11 {
        304
    } else {
        334
    };
    if m > 2 && is_leap_year(y) {
        base + 1
    } else {
        base
    }
}

/// The number of days in month `m` of year `y`.
pub open spec fn days_in_month(y: int, m: int) -> int {
    if m == 2 {
        if is_leap_year(y) {
            29
        } else {
            28
        }
    } else if m == 4 || m == 6 || m == 9 || m == 11 {
        30
    } else {
        31
    }
}

/// Days from 1970-01-01 to day `d` of month `m` of year `y`, in the proleptic
/// Gregorian calendar without leap seconds. A day past the end of its month
/// counts on into the next.
pub open spec fn days_from_civil(y: int, m: int, d: int) -> int {
    days_before_year(y) + days_before_month(y, m) + d - 1
}

/// Seconds since the Unix epoch of a civil date and time of day.
pub open spec fn civil_seconds(y: int, mo: int, d: int, h: int, mi: int, s: int) -> int {
    days_from_civil(y, mo, d) * 86400 + h * 3600 + mi * 60 + s
}

/// The number the digits in bytes `a..b` of `t` spell.
pub open spec fn field(t: Seq<u8>, a: int, b: int) -> Option<int> {
    parse_digits(t.subrange(a, b))
}

/// Whether `t` has the fixed-width separators of `YYYY-MM-DDTHH:MM:SS`
/// (a space may stand for the `T`).
pub open spec fn has_timestamp_shape(t: Seq<u8>) -> bool {
    &&& t.len() >= 19
    &&& t[4] == 45
    &&& t[7] == 45
    &&& (t[10] == 84 || t[10] == 32)
    &&& t[13] == 58
    &&& t[16] == 58
}

/// The seconds since the Unix epoch that the first 19 bytes of `t` denote,
/// read as `YYYY-MM-DDTHH:MM:SS`; whatever follows is ignored. `None` when
/// the shape is wrong, a field is not all decimal digits (no sign), or the month is outside
/// 1..=12, the day outside 1..=31, the hour above 23, the minute above 59 or
/// the second above 60.
pub open spec fn timestamp_seconds(t: Seq<u8>) -> Option<int> {
    if !has_timestamp_shape(t) {
        None
    } else {
        match (field(t, 0, 4), field(t, 5, 7), field(t, 8, 10), field(t, 11, 13), field(t, 14, 16), field(t, 17, 19)) {
            (Some(y), Some(mo), Some(d), Some(h), Some(mi), Some(s)) => {
                if 1 <= mo <= 12 && 1 <= d <= 31 && h <= 23 && mi <= 59 && s <= 60 {
                    Some(civil_seconds(y, mo, d, h, mi, s))
                } else {
                    None
                }
            },
            _ => None,
        }
    }
}

/// A timestamp reads only when every field is made of ASCII digits: a
/// sign, a space or any other byte in a field position makes it malformed.
pub proof fn lemma_fields_are_digits(t: Seq<u8>)
    ensures
        timestamp_seconds(t) is Some ==> forall|i: int|
            0 <= i < 19 && i != 4 && i != 7 && i != 10 && i != 13 && i != 16 ==> 48 <= #[trigger] t[i]
                <= 57,
{
    if timestamp_seconds(t) is Some {
        assert forall|i: int|
            0 <= i < 19 && i != 4 && i != 7 && i != 10 && i != 13 && i != 16 implies 48 <= #[trigger] t[i]
            <= 57 by {
            let (a, b): (int, int) = if i < 4 {
                (0, 4)
            } else if i < 7 {
                (5, 7)
            } else if i < 10 {
                (8, 10)
            } else if i < 13 {
                (11, 13)
            } else if i < 16 {
                (14, 16)
            } else {
                (17, 19)
            };
            let d = t.subrange(a, b);
            assert(field(t, a, b) is Some);
            assert(all_digit_bytes(d));
            assert(d[i - a] == t[i]);
            assert(is_digit_byte(d[i - a]));
        }
    }
}

proof fn lemma_digits_bound(d: Seq<u8>)
    requires
        all_digit_bytes(d),
    ensures
        0 <= digits_value(d),
        d.len() <= 4 ==> digits_value(d) <= 9999,
        d.len() <= 3 ==> digits_value(d) <= 999,
        d.len() <= 2 ==> digits_value(d) <= 99,
        d.len() <= 1 ==> digits_value(d) <= 9,
    decreases d.len(),
{
    if d.len() > 0 {
        assert(all_digit_bytes(d.drop_last())) by {
            assert forall|i: int| 0 <= i < d.drop_last().len() implies is_digit_byte(
                #[trigger] d.drop_last()[i],
            ) by {
                assert(d.drop_last()[i] == d[i]);
            }
        }
        lemma_digits_bound(d.drop_last());
        assert(is_digit_byte(d[d.len() - 1]));
    }
}

/// Reads the number the digits in bytes `a..b` of `t` spell; `None` when
/// any of those bytes is not a digit.
fn parse_field(t: &[u8], a: usize, b: usize) -> (res: Option<i64>)
    requires
        a < b <= t@.len(),
        b - a <= 4,
    ensures
        match res {
            Some(v) => field(t@, a as int, b as int) == Some(v as int),
            None => field(t@, a as int, b as int) is None,
        },
        res matches Some(v) ==> 0 <= v <= 9999,
{
    let ghost d = t@.subrange(a as int, b as int);
    let mut value: i64 = 0;
    let mut i = a;
    while i < b
        invariant
            a <= i <= b <= t@.len(),
            b - a <= 4,
            d == t@.subrange(a as int, b as int),
            all_digit_bytes(t@.subrange(a as int, i as int)),
            value == digits_value(t@.subrange(a as int, i as int)),
            0 <= value <= 9999,
        decreases b - i,
    {
        let c = t[i];
        if c < 48u8 || c > 57u8 {
            assert(d[i - a] == c);
            assert(!all_digit_bytes(d));
            return None;
        }
        let ghost prefix = t@.subrange(a as int, i + 1);
        assert(prefix.drop_last() == t@.subrange(a as int, i as int));
        assert(all_digit_bytes(prefix)) by {
            assert forall|j: int| 0 <= j < prefix.len() implies is_digit_byte(#[trigger] prefix[j]) by {
                if j < prefix.len() - 1 {
                    assert(prefix[j] == t@.subrange(a as int, i as int)[j]);
                }
            }
        }
        proof {
            lemma_digits_bound(prefix);
        }
        value = value * 10 + (c - 48u8) as i64;
        i += 1;
    }
    assert(t@.subrange(a as int, b as int) == d);
    Some(value)
}

/// Days from 1970-01-01, computed on shifted non-negative years so that
/// every division rounds down.
fn civil_days(year: i64, month: i64, day: i64) -> (res: i64)
    requires
        -999 <= year <= 9999,
        1 <= month <= 12,
        1 <= day <= 31,
    ensures
        res == days_from_civil(year as int, month as int, day as int),
{
    // 2000 is a multiple of 400, so the shift keeps every leap-year count.
    let shifted: i64 = year + 1999;
    let leaps: i64 = shifted / 4 - shifted / 100 + shifted / 400 - 485;
    proof {
        vstd::arithmetic::div_mod::lemma_hoist_over_denominator(year - 1, 500, 4);
        vstd::arithmetic::div_mod::lemma_hoist_over_denominator(year - 1, 20, 100);
        vstd::arithmetic::div_mod::lemma_hoist_over_denominator(year - 1, 5, 400);
    }
    assert(leap_years_before(year as int) == leaps);
    assert(leap_years_before(1970) == 477);
    let sy: i64 = year + 2000;
    let leap: bool = (sy % 4 == 0 && sy % 100 != 0) || sy % 400 == 0;
    proof {
        vstd::arithmetic::div_mod::lemma_mod_multiples_vanish(500, year as int, 4);
        vstd::arithmetic::div_mod::lemma_mod_multiples_vanish(20, year as int, 100);
        vstd::arithmetic::div_mod::lemma_mod_multiples_vanish(5, year as int, 400);
    }
    assert(leap == is_leap_year(year as int));
    let base: i64 = if month == 1 {
        0
    } else if month == 2 {
        31
    } else if month == 3 {
        59
    } else if month == 4 {
        90
    } else if month == 5 {
        120
    } else if month == 6 {
        151
    } else if month == 7 {
        181
    } else if month == 8 {
        212
    } else if month == 9 {
        243
    } else if month == 10 {
        273
    } else if month == 11 {
        304
    } else {
        334
    };
    let before_month: i64 = if month > 2 && leap {
        base + 1
    } else {
        base
    };
    365 * (year - 1970) + leaps - 477 + before_month + day - 1
}

/// Parses an RFC 3339 UTC timestamp (`YYYY-MM-DDTHH:MM:SS...`) into seconds
/// since the Unix epoch. Any fractional seconds and timezone suffix are
/// ignored; `gh` reports run timestamps in UTC. Returns `None` on a malformed
/// prefix.
pub fn parse_rfc3339_to_epoch(s: &str) -> (res: Option<i64>)
    ensures
        match res {
            Some(v) => timestamp_seconds(s.spec_bytes()) == Some(v as int),
            None => timestamp_seconds(s.spec_bytes()) is None,
        },
{
    let bytes = s.as_bytes();
    if bytes.len() < 19 {
        return None;
    }
    if bytes[4] != 45u8 || bytes[7] != 45u8 || (bytes[10] != 84u8 && bytes[10] != 32u8)
        || bytes[13] != 58u8 || bytes[16] != 58u8 {
        return None;
    }
    let year = match parse_field(bytes, 0, 4) {
        Some(v) => v,
        None => return None,
    };
    let month = match parse_field(bytes, 5, 7) {
        Some(v) => v,
        None => return None,
    };
    let day = match parse_field(bytes, 8, 10) {
        Some(v) => v,
        None => return None,
    };
    let hour = match parse_field(bytes, 11, 13) {
        Some(v) => v,
        None => return None,
    };
    let min = match parse_field(bytes, 14, 16) {
        Some(v) => v,
        None => return None,
    };
    let sec = match parse_field(bytes, 17, 19) {
        Some(v) => v,
        None => return None,
    };
    if month < 1 || month > 12 || day < 1 || day > 31 || hour > 23 || min > 59 || sec > 60 {
        return None;
    }
    let days = civil_days(year, month, day);
    Some(days * 86400 + hour * 3600 + min * 60 + sec)
}

// ---------------------------------------------------------------------------
// Laws of the calendar arithmetic
// ---------------------------------------------------------------------------

proof fn lemma_floor_step(y: int, d: int)
    requires
        d > 0,
    ensures
        y / d - (y - 1) / d == if y % d == 0 {
            1int
        } else {
            0int
        },
{
    let q = y / d;
    let r = y % d;
    vstd::arithmetic::div_mod::lemma_fundamental_div_mod(y, d);
    vstd::arithmetic::div_mod::lemma_mod_bound(y, d);
    assert(d * q == q * d) by (nonlinear_arith);
    if r > 0 {
        vstd::arithmetic::div_mod::lemma_fundamental_div_mod_converse_div(y - 1, d, q, r - 1);
    } else {
        assert((q - 1) * d == q * d - d) by (nonlinear_arith);
        vstd::arithmetic::div_mod::lemma_fundamental_div_mod_converse_div(y - 1, d, q - 1, d - 1);
    }
}

proof fn lemma_divisible_chain(y: int)
    ensures
        y % 400 == 0 ==> y % 100 == 0,
        y % 100 == 0 ==> y % 4 == 0,
{
    if y % 400 == 0 {
        vstd::arithmetic::div_mod::lemma_fundamental_div_mod(y, 400);
        let k = y / 400;
        assert(y == (4 * k) * 100 + 0) by (nonlinear_arith)
            requires
                y == 400 * k + 0,
        ;
        vstd::arithmetic::div_mod::lemma_fundamental_div_mod_converse_mod(y, 100, 4 * k, 0);
    }
    if y % 100 == 0 {
        vstd::arithmetic::div_mod::lemma_fundamental_div_mod(y, 100);
        let k = y / 100;
        assert(y == (25 * k) * 4 + 0) by (nonlinear_arith)
            requires
                y == 100 * k + 0,
        ;
        vstd::arithmetic::div_mod::lemma_fundamental_div_mod_converse_mod(y, 4, 25 * k, 0);
    }
}

/// The number of days in year `y`.
pub open spec fn days_in_year(y: int) -> int {
    if is_leap_year(y) {
        366
    } else {
        365
    }
}

/// A year runs from its first day to the first day of the next.
pub proof fn lemma_year_length(y: int)
    ensures
        days_before_year(y + 1) == days_before_year(y) + days_in_year(y),
{
    lemma_floor_step(y, 4);
    lemma_floor_step(y, 100);
    lemma_floor_step(y, 400);
    lemma_divisible_chain(y);
}

/// The day count is the proleptic Gregorian calendar's: 1970-01-01 is day
/// 0, each day of a month follows the one before, each month starts when
/// the one before it has run its length (February 29 days in a leap year,
/// 28 otherwise), and each year starts 31 days after December 1st.
pub proof fn lemma_day_count_is_gregorian(y: int, m: int, d: int)
    requires
        1 <= m <= 12,
    ensures
        days_from_civil(1970, 1, 1) == 0,
        days_from_civil(y, m, d + 1) == days_from_civil(y, m, d) + 1,
        m < 12 ==> days_from_civil(y, m + 1, 1) == days_from_civil(y, m, 1) + days_in_month(y, m),
        days_from_civil(y + 1, 1, 1) == days_from_civil(y, 12, 1) + days_in_month(y, 12),
{
    lemma_year_length(y);
}

proof fn lemma_years_ordered(a: int, b: int)
    requires
        a <= b,
    ensures
        days_before_year(a) <= days_before_year(b),
    decreases b - a,
{
    if a < b {
        lemma_years_ordered(a, b - 1);
        lemma_year_length(b - 1);
    }
}

/// Whether `d` is a day of month `m` of year `y`.
pub open spec fn is_calendar_date(y: int, m: int, d: int) -> bool {
    1 <= m <= 12 && 1 <= d <= days_in_month(y, m)
}

proof fn lemma_day_within_year(y: int, m: int, d: int)
    requires
        is_calendar_date(y, m, d),
    ensures
        0 <= days_before_month(y, m) + d - 1 < days_in_year(y),
{
}

proof fn lemma_months_ordered(y: int, m1: int, d1: int, m2: int, d2: int)
    requires
        is_calendar_date(y, m1, d1),
        is_calendar_date(y, m2, d2),
        m1 < m2,
    ensures
        days_before_month(y, m1) + d1 < days_before_month(y, m2) + d2,
{
}

/// Dates in calendar order get strictly increasing day numbers.
pub proof fn lemma_days_ordered(y1: int, m1: int, d1: int, y2: int, m2: int, d2: int)
    requires
        is_calendar_date(y1, m1, d1),
        is_calendar_date(y2, m2, d2),
        y1 < y2 || (y1 == y2 && m1 < m2) || (y1 == y2 && m1 == m2 && d1 < d2),
    ensures
        days_from_civil(y1, m1, d1) < days_from_civil(y2, m2, d2),
{
    if y1 < y2 {
        lemma_day_within_year(y1, m1, d1);
        lemma_day_within_year(y2, m2, d2);
        lemma_year_length(y1);
        lemma_years_ordered(y1 + 1, y2);
    } else if m1 < m2 {
        lemma_months_ordered(y1, m1, d1, m2, d2);
    }
}

/// Whether a date and time of day are real: a calendar date, and a time
/// from 00:00:00 to 23:59:59.
pub open spec fn is_civil_time(y: int, mo: int, d: int, h: int, mi: int, s: int) -> bool {
    is_calendar_date(y, mo, d) && 0 <= h <= 23 && 0 <= mi <= 59 && 0 <= s <= 59
}

/// Whether one date and time comes before another, field by field.
pub open spec fn civil_before(a: (int, int, int, int, int, int), b: (int, int, int, int, int, int)) -> bool {
    ||| a.0 < b.0
    ||| a.0 == b.0 && a.1 < b.1
    ||| a.0 == b.0 && a.1 == b.1 && a.2 < b.2
    ||| a.0 == b.0 && a.1 == b.1 && a.2 == b.2 && a.3 < b.3
    ||| a.0 == b.0 && a.1 == b.1 && a.2 == b.2 && a.3 == b.3 && a.4 < b.4
    ||| a.0 == b.0 && a.1 == b.1 && a.2 == b.2 && a.3 == b.3 && a.4 == b.4 && a.5 < b.5
}

/// Timestamps keep their order: of two real dates and times, the earlier
/// one has fewer seconds since the epoch. The staleness check of run waits
/// relies on this.
pub proof fn lemma_epoch_seconds_ordered(a: (int, int, int, int, int, int), b: (int, int, int, int, int, int))
    requires
        is_civil_time(a.0, a.1, a.2, a.3, a.4, a.5),
        is_civil_time(b.0, b.1, b.2, b.3, b.4, b.5),
        civil_before(a, b),
    ensures
        civil_seconds(a.0, a.1, a.2, a.3, a.4, a.5) < civil_seconds(b.0, b.1, b.2, b.3, b.4, b.5),
{
    let da = days_from_civil(a.0, a.1, a.2);
    let db = days_from_civil(b.0, b.1, b.2);
    if a.0 != b.0 || a.1 != b.1 || a.2 != b.2 {
        lemma_days_ordered(a.0, a.1, a.2, b.0, b.1, b.2);
        assert(da * 86400 + 86400 <= db * 86400) by (nonlinear_arith)
            requires
                da < db,
        ;
    }
}

/// The epoch is 1970-01-01T00:00:00, and each second of the day counts
/// once: a time of day adds its seconds to the start of its day.
pub proof fn lemma_epoch_origin(y: int, mo: int, d: int, h: int, mi: int, s: int)
    ensures
        civil_seconds(1970, 1, 1, 0, 0, 0) == 0,
        civil_seconds(y, mo, d, h, mi, s) == civil_seconds(y, mo, d, 0, 0, 0) + h * 3600 + mi * 60
            + s,
{
}

/// Only the first 19 bytes of a timestamp count: fractional seconds and a
/// timezone suffix are ignored.
pub proof fn lemma_suffix_ignored(t1: Seq<u8>, t2: Seq<u8>)
    requires
        t1.len() >= 19,
        t2.len() >= 19,
        t1.take(19) == t2.take(19),
    ensures
        timestamp_seconds(t1) == timestamp_seconds(t2),
{
    assert forall|a: int, b: int| 0 <= a <= b <= 19 implies #[trigger] t1.subrange(a, b) == t2.subrange(a, b) by {
        assert(t1.subrange(a, b) =~= t1.take(19).subrange(a, b));
        assert(t2.subrange(a, b) =~= t2.take(19).subrange(a, b));
    }
    assert(t1[4] == t1.take(19)[4] && t2[4] == t2.take(19)[4]);
    assert(t1[7] == t1.take(19)[7] && t2[7] == t2.take(19)[7]);
    assert(t1[10] == t1.take(19)[10] && t2[10] == t2.take(19)[10]);
    assert(t1[13] == t1.take(19)[13] && t2[13] == t2.take(19)[13]);
    assert(t1[16] == t1.take(19)[16] && t2[16] == t2.take(19)[16]);
    assert(t1.subrange(0, 4) == t2.subrange(0, 4));
    assert(t1.subrange(5, 7) == t2.subrange(5, 7));
    assert(t1.subrange(8, 10) == t2.subrange(8, 10));
    assert(t1.subrange(11, 13) == t2.subrange(11, 13));
    assert(t1.subrange(14, 16) == t2.subrange(14, 16));
    assert(t1.subrange(17, 19) == t2.subrange(17, 19));
}

// ---------------------------------------------------------------------------
// The gh client
// ---------------------------------------------------------------------------

/// Why a `gh` call gave no answer.
pub enum GhError {
    NotInstalled,
    Failed(String),
}

/// The message of a `gh` error.
pub open spec fn gh_error_message(e: GhError) -> Seq<char> {
    match e {
        GhError::NotInstalled => "gh is not installed or not on PATH"@,
        GhError::Failed(msg) => "gh: "@ + msg@,
    }
}

impl GhError {
    /// The message of this error, as it appears in notes.
    pub fn message(&self) -> (res: String)
        ensures
            res@ == gh_error_message(*self),
    {
        let mut out: Vec<char> = Vec::new();
        match self {
            GhError::NotInstalled => push_all(&mut out, "gh is not installed or not on PATH"),
            GhError::Failed(msg) => {
                push_all(&mut out, "gh: ");
                push_string(&mut out, msg);
            },
        }
        string_of(&out)
    }
}

/// The state of one workflow run.
pub struct RunView {
    pub status: String,
    pub conclusion: Option<String>,
    pub url: String,
    /// (job name, failed step name) pairs for jobs that concluded failure.
    pub failed_steps: Vec<(String, String)>,
}

/// Lightweight identity of the most recent run, used to decide whether it is
/// the run we should wait on or a stale prior one.
pub struct RunSummary {
    pub id: u64,
    pub status: String,
    /// RFC3339 creation timestamp as reported by `gh` (e.g. `2026-06-23T12:34:56Z`).
    pub created_at: String,
}

/// A text as the client's answer relations see it: its characters.
pub type Text = Seq<char>;

/// Access to GitHub Actions runs. Implemented by the `gh` command line tool
/// and by test doubles. What a call returns depends on the outside world;
/// each implementation describes its answers by the three relations below,
/// which say which results it may give to a request with given arguments.
/// The library assumes nothing of them beyond that the result of each call
/// is such an answer to that very request.
pub trait GhClient {
    /// Whether `r` is an answer this client may give to a request for the
    /// latest run of `repo`, narrowed to `branch` and `workflow`.
    spec fn latest_answer(
        &self,
        repo: Option<Text>,
        branch: Option<Text>,
        workflow: Option<Text>,
        r: Result<RunSummary, GhError>,
    ) -> bool;

    /// Whether `r` is an answer this client may give to a request for the
    /// state of run `id` in `repo`.
    spec fn view_answer(&self, id: u64, repo: Option<Text>, r: Result<RunView, GhError>) -> bool;

    /// Whether `r` is an answer this client may give to a request for the
    /// failed log of run `id` in `repo`.
    spec fn log_answer(&self, id: u64, repo: Option<Text>, r: Result<String, GhError>) -> bool;

    fn latest_run(&self, repo: Option<&str>, branch: Option<&str>, workflow: Option<&str>) -> (r: Result<
        RunSummary,
        GhError,
    >)
        ensures
            self.latest_answer(opt_text(repo), opt_text(branch), opt_text(workflow), r),
    ;

    fn view_run(&self, id: u64, repo: Option<&str>) -> (r: Result<RunView, GhError>)
        ensures
            self.view_answer(id, opt_text(repo), r),
    ;

    fn failed_log(&self, id: u64, repo: Option<&str>) -> (r: Result<String, GhError>)
        ensures
            self.log_answer(id, opt_text(repo), r),
    ;
}

// ---------------------------------------------------------------------------
// Arguments
// ---------------------------------------------------------------------------

/// A `Vec<String>` holding the characters of the given texts.
pub open spec fn texts(v: Seq<String>) -> Seq<Seq<char>> {
    Seq::new(v.len(), |i: int| v[i]@)
}

/// `args`, followed by `-R repo` when a repository is given.
pub open spec fn args_with_repo(args: Seq<Seq<char>>, repo: Option<Seq<char>>) -> Seq<Seq<char>> {
    match repo {
        Some(r) => args.push("-R"@).push(r),
        None => args,
    }
}

fn push_arg(args: &mut Vec<String>, a: &str)
    ensures
        texts(final(args)@) == texts(old(args)@).push(a@),
{
    let ghost before = args@;
    args.push(String::from_str(a));
    assert(texts(args@) =~= texts(before).push(a@));
}

/// Appends `-R repo` when a repository is given.
pub fn with_repo(args: Vec<String>, repo: Option<&str>) -> (res: Vec<String>)
    ensures
        texts(res@) == args_with_repo(
            texts(args@),
            match repo {
                Some(r) => Some(r@),
                None => None,
            },
        ),
{
    let mut args = args;
    if let Some(repo) = repo {
        push_arg(&mut args, "-R");
        push_arg(&mut args, repo);
    }
    args
}

/// The arguments of `gh` that list the latest run, optionally of one branch
/// and one workflow.
pub open spec fn latest_run_args_spec(
    repo: Option<Seq<char>>,
    branch: Option<Seq<char>>,
    workflow: Option<Seq<char>>,
) -> Seq<Seq<char>> {
    let base = seq!["run"@, "list"@, "--limit"@, "1"@, "--json"@, "databaseId,status,createdAt"@];
    let with_branch = match branch {
        Some(b) => base.push("--branch"@).push(b),
        None => base,
    };
    let with_workflow = match workflow {
        Some(w) => with_branch.push("--workflow"@).push(w),
        None => with_branch,
    };
    args_with_repo(with_workflow, repo)
}

/// Spec view of an optional text argument.
pub open spec fn opt_text(o: Option<&str>) -> Option<Seq<char>> {
    match o {
        Some(s) => Some(s@),
        None => None,
    }
}

/// The arguments of `gh` that list the latest run.
pub fn latest_run_args(repo: Option<&str>, branch: Option<&str>, workflow: Option<&str>) -> (res: Vec<String>)
    ensures
        texts(res@) == latest_run_args_spec(opt_text(repo), opt_text(branch), opt_text(workflow)),
{
    let mut args: Vec<String> = Vec::new();
    push_arg(&mut args, "run");
    push_arg(&mut args, "list");
    push_arg(&mut args, "--limit");
    push_arg(&mut args, "1");
    push_arg(&mut args, "--json");
    push_arg(&mut args, "databaseId,status,createdAt");
    if let Some(branch) = branch {
        push_arg(&mut args, "--branch");
        push_arg(&mut args, branch);
    }
    if let Some(workflow) = workflow {
        push_arg(&mut args, "--workflow");
        push_arg(&mut args, workflow);
    }
    assert(texts(args@) =~= ({
        let base = seq!["run"@, "list"@, "--limit"@, "1"@, "--json"@, "databaseId,status,createdAt"@];
        let with_branch = match opt_text(branch) {
            Some(b) => base.push("--branch"@).push(b),
            None => base,
        };
        match opt_text(workflow) {
            Some(w) => with_branch.push("--workflow"@).push(w),
            None => with_branch,
        }
    }));
    with_repo(args, repo)
}

/// The arguments of `gh` that show the state and jobs of run `id`.
pub open spec fn view_run_args_spec(id: u64, repo: Option<Seq<char>>) -> Seq<Seq<char>> {
    args_with_repo(
        seq!["run"@, "view"@, decimal(id as nat), "--json"@, "status,conclusion,url,jobs"@],
        repo,
    )
}

/// The arguments of `gh` that show the state and jobs of run `id`.
pub fn view_run_args(id: u64, repo: Option<&str>) -> (res: Vec<String>)
    ensures
        texts(res@) == view_run_args_spec(id, opt_text(repo)),
{
    let mut args: Vec<String> = Vec::new();
    push_arg(&mut args, "run");
    push_arg(&mut args, "view");
    let ghost before = args@;
    args.push(crate::text::decimal_string(id));
    assert(texts(args@) =~= texts(before).push(decimal(id as nat)));
    push_arg(&mut args, "--json");
    push_arg(&mut args, "status,conclusion,url,jobs");
    assert(texts(args@) =~= seq!["run"@, "view"@, decimal(id as nat), "--json"@, "status,conclusion,url,jobs"@]);
    with_repo(args, repo)
}

/// The arguments of `gh` that print the log of the failed steps of run `id`.
pub open spec fn failed_log_args_spec(id: u64, repo: Option<Seq<char>>) -> Seq<Seq<char>> {
    args_with_repo(seq!["run"@, "view"@, decimal(id as nat), "--log-failed"@], repo)
}

/// The arguments of `gh` that print the log of the failed steps of run `id`.
pub fn failed_log_args(id: u64, repo: Option<&str>) -> (res: Vec<String>)
    ensures
        texts(res@) == failed_log_args_spec(id, opt_text(repo)),
{
    let mut args: Vec<String> = Vec::new();
    push_arg(&mut args, "run");
    push_arg(&mut args, "view");
    let ghost before = args@;
    args.push(crate::text::decimal_string(id));
    assert(texts(args@) =~= texts(before).push(decimal(id as nat)));
    push_arg(&mut args, "--log-failed");
    assert(texts(args@) =~= seq!["run"@, "view"@, decimal(id as nat), "--log-failed"@]);
    with_repo(args, repo)
}

// ---------------------------------------------------------------------------
// What gh answered
// ---------------------------------------------------------------------------

/// How a run of the `gh` program went.
pub enum GhRun {
    /// The program was not found.
    NotFound,
    /// The program could not be started for another reason.
    SpawnFailed(String),
    /// The program ran and exited.
    Exited { success: bool, stdout: Vec<u8>, stderr: Vec<u8> },
}

/// The answer of a `gh` run: its standard output on success; otherwise
/// why it failed.
pub fn gh_output(run: GhRun) -> (res: Result<String, GhError>)
    ensures
        match run {
            GhRun::NotFound => res matches Err(GhError::NotInstalled),
            GhRun::SpawnFailed(msg) => res matches Err(GhError::Failed(m)) && m == msg,
            GhRun::Exited { success, stdout, stderr } => if success {
                res matches Ok(out) && out@ == utf8_lossy(stdout@)
            } else {
                res matches Err(GhError::Failed(m)) && m@ == trimmed(utf8_lossy(stderr@))
            },
        },
{
    match run {
        GhRun::NotFound => Err(GhError::NotInstalled),
        GhRun::SpawnFailed(msg) => Err(GhError::Failed(msg)),
        GhRun::Exited { success, stdout, stderr } => {
            if success {
                Ok(lossy_utf8(stdout.as_slice()))
            } else {
                let text = lossy_utf8(stderr.as_slice());
                let chars = chars_of(text.as_str());
                let trimmed_chars = trim_chars(&chars);
                Err(GhError::Failed(string_of(&trimmed_chars)))
            }
        },
    }
}

/// The latest run that `gh run list --json databaseId,status,createdAt`
/// reported: the first run of the list, which must carry a `u64`
/// `databaseId`; a missing status or timestamp reads as empty.
pub open spec fn latest_run_spec(runs: Json) -> Result<(u64, Seq<char>, Seq<char>), Seq<char>> {
    match spec_item(runs, 0) {
        None => Err("no runs found"@),
        Some(run) => match spec_as_u64(spec_member(run, "databaseId"@)) {
            None => Err("run has no databaseId"@),
            Some(id) => Ok(
                (
                    id,
                    match member_str(run, "status"@) {
                        Some(s) => s,
                        None => Seq::empty(),
                    },
                    match member_str(run, "createdAt"@) {
                        Some(s) => s,
                        None => Seq::empty(),
                    },
                ),
            ),
        },
    }
}

fn str_or_empty(s: Option<&String>) -> (res: String)
    ensures
        res@ == match s {
            Some(t) => t@,
            None => Seq::<char>::empty(),
        },
{
    match s {
        Some(t) => t.clone(),
        None => String::new(),
    }
}

/// Reads the latest run out of the parsed output of `gh run list`; `parsed`
/// is the output parsed as JSON, or why it did not parse.
pub fn parse_latest_run(parsed: Result<Json, String>) -> (res: Result<RunSummary, GhError>)
    ensures
        match parsed {
            Err(e) => res matches Err(GhError::Failed(m)) && m == e,
            Ok(runs) => match latest_run_spec(runs) {
                Ok((id, status, created_at)) => res matches Ok(s) && s.id == id && s.status@
                    == status && s.created_at@ == created_at,
                Err(msg) => res matches Err(GhError::Failed(m)) && m@ == msg,
            },
        },
{
    let runs = match parsed {
        Ok(v) => v,
        Err(e) => return Err(GhError::Failed(e)),
    };
    let run = match runs.item(0) {
        Some(r) => r,
        None => return Err(GhError::Failed(String::from_str("no runs found"))),
    };
    let id = match run.u64_member("databaseId") {
        Some(id) => id,
        None => return Err(GhError::Failed(String::from_str("run has no databaseId"))),
    };
    Ok(
        RunSummary {
            id,
            status: str_or_empty(run.str_member("status")),
            created_at: str_or_empty(run.str_member("createdAt")),
        },
    )
}

/// Whether member `conclusion` of `v` is the string "failure".
pub open spec fn concluded_failure(v: Json) -> bool {
    member_str(v, "conclusion"@) == Some("failure"@)
}

/// The first of `steps` that concluded failure.
pub open spec fn first_failed_step(steps: Seq<Json>) -> Option<Json>
    decreases steps.len(),
{
    if steps.len() == 0 {
        None
    } else if concluded_failure(steps[0]) {
        Some(steps[0])
    } else {
        first_failed_step(steps.drop_first())
    }
}

/// The name of the first failed step of a job, or "?".
pub open spec fn failed_step_name(job: Json) -> Seq<char> {
    let step = match member_items(job, "steps"@) {
        Some(steps) => first_failed_step(steps),
        None => None,
    };
    match step {
        Some(s) => match member_str(s, "name"@) {
            Some(n) => n,
            None => "?"@,
        },
        None => "?"@,
    }
}

/// (job name, failed step name) for every job that concluded failure, in
/// order; a missing name reads as "?".
pub open spec fn failed_steps_of(jobs: Seq<Json>) -> Seq<(Seq<char>, Seq<char>)>
    decreases jobs.len(),
{
    if jobs.len() == 0 {
        Seq::empty()
    } else {
        let rest = failed_steps_of(jobs.drop_last());
        let job = jobs.last();
        if concluded_failure(job) {
            rest.push(
                (
                    match member_str(job, "name"@) {
                        Some(n) => n,
                        None => "?"@,
                    },
                    failed_step_name(job),
                ),
            )
        } else {
            rest
        }
    }
}

/// The pairs of a list of failed steps, as text.
pub open spec fn step_pairs(v: Seq<(String, String)>) -> Seq<(Seq<char>, Seq<char>)> {
    Seq::new(v.len(), |i: int| (v[i].0@, v[i].1@))
}

fn is_failure(v: &Json) -> (res: bool)
    ensures
        res == concluded_failure(*v),
{
    match v.str_member("conclusion") {
        Some(c) => {
            proof {
                reveal_strlit("failure");
            }
            crate::text::str_is(c.as_str(), "failure")
        },
        None => false,
    }
}

fn step_name_of(job: &Json) -> (res: String)
    ensures
        res@ == failed_step_name(*job),
{
    let steps = match job.items_member("steps") {
        Some(steps) => steps,
        None => return String::from_str("?"),
    };
    let n = steps.len();
    let mut i: usize = 0;
    assert(steps@.subrange(0, n as int) == steps@);
    while i < n
        invariant
            n == steps@.len(),
            i <= n,
            member_items(*job, "steps"@) == Some(steps@),
            first_failed_step(steps@) == first_failed_step(steps@.subrange(i as int, n as int)),
        decreases n - i,
    {
        assert(steps@.subrange(i as int, n as int).drop_first() == steps@.subrange(i + 1, n as int));
        assert(steps@.subrange(i as int, n as int)[0] == steps@[i as int]);
        if is_failure(&steps[i]) {
            return match steps[i].str_member("name") {
                Some(name) => name.clone(),
                None => String::from_str("?"),
            };
        }
        i += 1;
    }
    String::from_str("?")
}

/// Reads the state of a run out of the parsed output of
/// `gh run view --json status,conclusion,url,jobs`. A missing status or url
/// reads as empty; a missing or empty conclusion as none.
pub fn parse_run_view(v: &Json) -> (res: RunView)
    ensures
        res.status@ == match member_str(*v, "status"@) {
            Some(s) => s,
            None => Seq::<char>::empty(),
        },
        res.url@ == match member_str(*v, "url"@) {
            Some(s) => s,
            None => Seq::<char>::empty(),
        },
        match member_str(*v, "conclusion"@) {
            Some(c) => if c.len() > 0 {
                res.conclusion matches Some(r) && r@ == c
            } else {
                res.conclusion is None
            },
            None => res.conclusion is None,
        },
        step_pairs(res.failed_steps@) == match member_items(*v, "jobs"@) {
            Some(jobs) => failed_steps_of(jobs),
            None => Seq::empty(),
        },
{
    let mut failed_steps: Vec<(String, String)> = Vec::new();
    if let Some(jobs) = v.items_member("jobs") {
        let n = jobs.len();
        for i in 0..n
            invariant
                n == jobs@.len(),
                step_pairs(failed_steps@) == failed_steps_of(jobs@.take(i as int)),
        {
            let job = &jobs[i];
            let ghost before = failed_steps@;
            assert(jobs@.take(i + 1).drop_last() == jobs@.take(i as int));
            assert(jobs@.take(i + 1).last() == jobs@[i as int]);
            if is_failure(job) {
                let job_name = match job.str_member("name") {
                    Some(name) => name.clone(),
                    None => String::from_str("?"),
                };
                let step_name = step_name_of(job);
                failed_steps.push((job_name, step_name));
                assert(step_pairs(failed_steps@) =~= step_pairs(before).push((job_name@, step_name@)));
            }
        }
        assert(jobs@.take(n as int) == jobs@);
    }
    let conclusion = match v.str_member("conclusion") {
        Some(c) => if c.as_str().unicode_len() > 0 {
            Some(c.clone())
        } else {
            None
        },
        None => None,
    };
    RunView {
        status: str_or_empty(v.str_member("status")),
        conclusion,
        url: str_or_empty(v.str_member("url")),
        failed_steps,
    }
}

/// The branch `git rev-parse --abbrev-ref HEAD` names: its trimmed output,
/// unless the command failed, the output is empty, or HEAD is detached.
pub open spec fn branch_from_git_spec(success: bool, stdout: Seq<u8>) -> Option<Seq<char>> {
    let name = trimmed(utf8_lossy(stdout));
    if success && name.len() > 0 && name != "HEAD"@ {
        Some(name)
    } else {
        None
    }
}

/// The current branch, from the outcome of `git rev-parse --abbrev-ref HEAD`.
pub fn branch_from_git(success: bool, stdout: &[u8]) -> (res: Option<String>)
    ensures
        match res {
            Some(b) => branch_from_git_spec(success, stdout@) == Some(b@),
            None => branch_from_git_spec(success, stdout@) is None,
        },
{
    if !success {
        return None;
    }
    let text = lossy_utf8(stdout);
    let chars = chars_of(text.as_str());
    let name = trim_chars(&chars);
    let head = chars_of("HEAD");
    if name.len() == 0 || crate::text::same_chars(&name, &head) {
        None
    } else {
        Some(string_of(&name))
    }
}

} // verus!
