//! Time formatting and parsing.
//!
//! Instants are nanoseconds since the Unix epoch, dates are proleptic Gregorian and UTC.

use vstd::prelude::*;

use crate::text;

verus! {

/// A span of time.
#[derive(Clone, Copy, PartialEq, Eq, Structural, Debug)]
pub struct Duration {
    pub nanos: u128,
}

impl Duration {
    /// A whole number of seconds.
    pub fn from_secs(secs: u64) -> (r: Duration)
        ensures
            r.nanos == secs * 1_000_000_000,
    {
        Duration { nanos: secs as u128 * 1_000_000_000 }
    }

    /// A whole number of milliseconds.
    pub fn from_millis(millis: u64) -> (r: Duration)
        ensures
            r.nanos == millis * 1_000_000,
    {
        Duration { nanos: millis as u128 * 1_000_000 }
    }
}

/// Whether `y` is a leap year.
pub open spec fn is_leap(y: int) -> bool {
    y % 4 == 0 && (y % 100 != 0 || y % 400 == 0)
}

/// The number of days in month `m` of year `y`.
pub open spec fn days_in_month(y: int, m: int) -> int {
    if m == 2 {
        if is_leap(y) { 29 } else { 28 }
    } else if m == 4 || m == 6 || m == 9 || m == 11 {
        30
    } else {
        31
    }
}

/// The days of year `y` before its month `m`.
pub open spec fn days_before_month(y: int, m: int) -> int
    decreases m,
{
    if m <= 1 {
        0
    } else {
        days_before_month(y, m - 1) + days_in_month(y, m - 1)
    }
}

/// The days from 1970-01-01 to the first day of year `y`.
pub open spec fn days_before_year(y: int) -> int {
    365 * (y - 1970) + ((y - 1) / 4 - (y - 1) / 100 + (y - 1) / 400) - 477
}

/// The days from 1970-01-01 to day `d` of month `m` of year `y`.
pub open spec fn day_number(y: int, m: int, d: int) -> int {
    days_before_year(y) + days_before_month(y, m) + d - 1
}

/// Whether `(y, m, d)` is a date of the calendar.
pub open spec fn is_date(y: int, m: int, d: int) -> bool {
    1 <= m <= 12 && 1 <= d <= days_in_month(y, m)
}

/// The first day of year `y + 1` is one year's days after the first day of year `y`.
pub proof fn law_years_have_365_or_366_days(y: int)
    ensures
        days_before_year(y + 1) == days_before_year(y) + if is_leap(y) { 366int } else { 365 },
        days_before_year(1970) == 0,
        days_before_month(y, 13) == if is_leap(y) { 366int } else { 365 },
{
    lemma_month_table(y, 12);
    lemma_every_fourth(y);
    lemma_every_hundredth(y);
    lemma_every_four_hundredth(y);
    lemma_nested_cycles(y);
}

proof fn lemma_every_fourth(y: int)
    ensures
        y / 4 - (y - 1) / 4 == if y % 4 == 0 { 1int } else { 0 },
{
}

proof fn lemma_every_hundredth(y: int)
    ensures
        y / 100 - (y - 1) / 100 == if y % 100 == 0 { 1int } else { 0 },
{
}

proof fn lemma_every_four_hundredth(y: int)
    ensures
        y / 400 - (y - 1) / 400 == if y % 400 == 0 { 1int } else { 0 },
{
}

proof fn lemma_nested_cycles(y: int)
    ensures
        y % 100 == 0 ==> y % 4 == 0,
        y % 400 == 0 ==> y % 100 == 0,
{
    if y % 100 == 0 {
        assert(y == 4 * (25 * (y / 100)));
    }
    if y % 400 == 0 {
        assert(y == 100 * (4 * (y / 400)));
    }
}

/// The days before month `m`, counted from March as month 0.
proof fn lemma_month_table(y: int, m: int)
    requires
        1 <= m <= 12,
    ensures
        m > 2 ==> days_before_month(y, m) == (153 * (m - 3) + 2) / 5 + 59 + if is_leap(y) { 1int } else { 0 },
        m <= 2 ==> days_before_month(y, m) == (153 * (m + 9) + 2) / 5 - 306,
    decreases m,
{
    if m > 1 {
        lemma_month_table(y, m - 1);
    }
}

proof fn lemma_march_year(y: int, m: int, d: int)
    requires
        1 <= m <= 12,
    ensures
        m > 2 ==> day_number(y, m, d) == 365 * y + y / 4 - y / 100 + y / 400 + (153 * (m - 3) + 2) / 5 + d - 1 - 719468,
        m <= 2 ==> day_number(y, m, d) == 365 * (y - 1) + (y - 1) / 4 - (y - 1) / 100 + (y - 1) / 400
            + (153 * (m + 9) + 2) / 5 + d - 1 - 719468,
{
    lemma_month_table(y, m);
}

/// Floor division by a positive number.
fn div_floor(a: i64, b: i64) -> (q: i64)
    requires
        b > 0,
    ensures
        q == a as int / b as int,
{
    if a >= 0 {
        a / b
    } else {
        let n: i64 = -(a + 1);
        let q: i64 = -(n / b) - 1;
        assert(q == a as int / b as int) by (nonlinear_arith)
            requires
                b > 0,
                a < 0,
                n == -(a + 1),
                q == -(n / b) - 1,
        {
            let k: int = n as int / b as int;
            let r: int = n as int % b as int;
            assert(n == b * k + r && 0 <= r < b);
            assert(a == b * (-k - 1) + (b - 1 - r));
            assert(a as int / b as int == -k - 1);
        }
        q
    }
}

/// Days since 1970-01-01 of a date. The day may lie past the end of its month.
pub fn days_from_civil(year: i64, month: u32, day: u32) -> (days: i64)
    requires
        1 <= month <= 12,
        i64::MIN <= day_number(year as int, month as int, day as int) <= i64::MAX,
    ensures
        days == day_number(year as int, month as int, day as int),
{
    let y: i128 = if month <= 2 { year as i128 - 1 } else { year as i128 };
    let era: i128 = if y >= 0 { y / 400 } else { -((-(y + 1)) / 400) - 1 };
    let yoe: i128 = y - era * 400;
    let mp: i128 = if month > 2 { month as i128 - 3 } else { month as i128 + 9 };
    let doy: i128 = (153 * mp + 2) / 5 + day as i128 - 1;
    let doe: i128 = yoe * 365 + yoe / 4 - yoe / 100 + doy;
    let days: i128 = era * 146_097 + doe - 719_468;
    proof {
        lemma_march_year(year as int, month as int, day as int);
        assert(0 <= yoe < 400);
        assert(y / 4 == era * 100 + yoe / 4);
        assert(y / 100 == era * 4 + yoe / 100);
        assert(y as int / 400 == era);
    }
    days as i64
}

/// The date of a day number: `(year, month, day)`.
pub open spec fn civil(days: int) -> (int, int, int) {
    let z = days + 719468;
    let era = z / 146097;
    let doe = z % 146097;
    let c = if doe / 36524 < 4 { doe / 36524 } else { 3 };
    let in_century = doe - c * 36524;
    let q = in_century / 1461;
    let in_cycle = in_century - q * 1461;
    let a = if in_cycle / 365 < 4 { in_cycle / 365 } else { 3 };
    let doy = in_cycle - a * 365;
    let y = era * 400 + c * 100 + q * 4 + a;
    let mp = (5 * doy + 2) / 153;
    let d = doy - (153 * mp + 2) / 5 + 1;
    if mp < 10 {
        (y, mp + 3, d)
    } else {
        (y + 1, mp - 9, d)
    }
}

/// Every day number is the number of exactly the date `civil` gives.
pub proof fn law_civil_is_the_date(days: int)
    ensures
        is_date(civil(days).0, civil(days).1, civil(days).2),
        day_number(civil(days).0, civil(days).1, civil(days).2) == days,
{
    let z = days + 719468;
    let era = z / 146097;
    let doe = z % 146097;
    let c = if doe / 36524 < 4 { doe / 36524 } else { 3 };
    let in_century = doe - c * 36524;
    assert(0 <= c <= 3 && 0 <= in_century <= 36524);
    assert(in_century == 36524 ==> c == 3);
    let q = in_century / 1461;
    let in_cycle = in_century - q * 1461;
    assert(0 <= q <= 24 && 0 <= in_cycle <= 1460);
    let a = if in_cycle / 365 < 4 { in_cycle / 365 } else { 3 };
    let doy = in_cycle - a * 365;
    assert(0 <= a <= 3 && 0 <= doy <= 365);
    assert(doy == 365 ==> a == 3);
    let y = era * 400 + c * 100 + q * 4 + a;
    let mp = (5 * doy + 2) / 153;
    let d = doy - (153 * mp + 2) / 5 + 1;
    assert(0 <= mp <= 11);
    assert(y / 4 == era * 100 + c * 25 + q);
    assert(y / 100 == era * 4 + c);
    assert(y / 400 == era);
    assert(z == era * 146097 + doe);
    assert(365 * y + y / 4 - y / 100 + y / 400 == era * 146097 + c * 36524 + q * 1461 + a * 365);
    let (yy, m, dd) = civil(days);
    lemma_march_year(yy, m, dd);
    // A 29 February needs the March-based year to have 366 days.
    assert(doy == 365 ==> is_leap(y + 1)) by {
        if doy == 365 {
            assert(in_cycle == 1460);
            assert(q == 24 ==> in_century == 36524);
            assert(q == 24 ==> c == 3);
            assert((y + 1) == era * 400 + c * 100 + (q + 1) * 4);
        }
    }
}

/// Two dates with one day number are the same date.
pub proof fn law_day_numbers_are_distinct(y1: int, m1: int, d1: int, y2: int, m2: int, d2: int)
    requires
        is_date(y1, m1, d1),
        is_date(y2, m2, d2),
        day_number(y1, m1, d1) == day_number(y2, m2, d2),
    ensures
        y1 == y2 && m1 == m2 && d1 == d2,
{
    lemma_within_year(y1, m1);
    lemma_within_year(y2, m2);
    if y1 < y2 {
        lemma_years_grow(y1, y2);
    } else if y2 < y1 {
        lemma_years_grow(y2, y1);
    } else if m1 < m2 {
        lemma_months_grow(y1, m1, m2);
    } else if m2 < m1 {
        lemma_months_grow(y1, m2, m1);
    }
}

proof fn lemma_months_grow(y: int, m1: int, m2: int)
    requires
        1 <= m1 < m2,
    ensures
        days_before_month(y, m1) + days_in_month(y, m1) <= days_before_month(y, m2),
    decreases m2,
{
    if m1 < m2 - 1 {
        lemma_months_grow(y, m1, m2 - 1);
    }
}

proof fn lemma_within_year(y: int, m: int)
    requires
        1 <= m <= 12,
    ensures
        0 <= days_before_month(y, m),
        days_before_month(y, m) + days_in_month(y, m) <= if is_leap(y) { 366int } else { 365 },
{
    law_years_have_365_or_366_days(y);
    lemma_months_grow(y, m, 13);
    if m > 1 {
        lemma_months_grow(y, 1, m);
    }
}

proof fn lemma_years_grow(y1: int, y2: int)
    requires
        y1 < y2,
    ensures
        days_before_year(y1) + (if is_leap(y1) { 366int } else { 365 }) <= days_before_year(y2),
    decreases y2 - y1,
{
    law_years_have_365_or_366_days(y1);
    if y1 + 1 < y2 {
        lemma_years_grow(y1 + 1, y2);
    }
}

/// The cycle of four hundred years that the day lies in, and its place there.
fn era_of(days: i64) -> (r: (i64, i64))
    ensures
        r.0 == (days + 719468) / 146097,
        r.1 == (days + 719468) % 146097,
        -100_000_000_000_000 <= r.0 <= 100_000_000_000_000,
        0 <= r.1 < 146097,
{
    let whole: i64 = div_floor(days, 146_097);
    let part: i64 = (days as i128 - whole as i128 * 146_097) as i64;
    let shifted: i64 = part + 135_080;
    let (era, doe): (i64, i64) = if shifted >= 146_097 {
        (whole + 5, shifted - 146_097)
    } else {
        (whole + 4, shifted)
    };
    let ghost z = days + 719468;
    assert(z == era * 146097 + doe && 0 <= doe < 146097);
    assert(z / 146097 == era && z % 146097 == doe as int);
    (era, doe)
}

/// The date of a count of days since 1970-01-01.
pub fn civil_from_days(days: i64) -> (r: (i64, u32, u32))
    ensures
        r.0 == civil(days as int).0,
        r.1 == civil(days as int).1,
        r.2 == civil(days as int).2,
        is_date(r.0 as int, r.1 as int, r.2 as int),
        day_number(r.0 as int, r.1 as int, r.2 as int) == days,
{
    let (era, doe): (i64, i64) = era_of(days);
    let c: i64 = if doe / 36_524 < 4 { doe / 36_524 } else { 3 };
    let in_century: i64 = doe - c * 36_524;
    let q: i64 = in_century / 1_461;
    let in_cycle: i64 = in_century - q * 1_461;
    let a: i64 = if in_cycle / 365 < 4 { in_cycle / 365 } else { 3 };
    let doy: i64 = in_cycle - a * 365;
    let year: i64 = era * 400 + c * 100 + q * 4 + a;
    let mp: i64 = (5 * doy + 2) / 153;
    let day: i64 = doy - (153 * mp + 2) / 5 + 1;
    proof {
        law_civil_is_the_date(days as int);
    }
    if mp < 10 {
        (year, (mp + 3) as u32, day as u32)
    } else {
        (year + 1, (mp - 9) as u32, day as u32)
    }
}

/// `YYYY-MM-DD` of a day number.
pub open spec fn date_text(days: int) -> Seq<char> {
    let (y, m, d) = civil(days);
    text::pad0(y as nat, 4) + seq!['-'] + text::pad0(m as nat, 2) + seq!['-'] + text::pad0(d as nat, 2)
}

/// `HH:MM:SS` of a second of the day.
pub open spec fn clock_text(tod: int) -> Seq<char> {
    text::pad0((tod / 3600) as nat, 2) + seq![':'] + text::pad0((tod % 3600 / 60) as nat, 2) + seq![':']
        + text::pad0((tod % 60) as nat, 2)
}

/// The whole seconds of an instant, rounded down.
pub open spec fn seconds(ns: int) -> int {
    ns / 1_000_000_000
}

/// `YYYY-MM-DD HH:MM:SS` of an instant.
pub open spec fn datetime_text(ns: int) -> Seq<char> {
    date_text(seconds(ns) / 86_400) + seq![' '] + clock_text(seconds(ns) % 86_400)
}

/// `YYYY-MM-DD HH:MM:SS.mmm` of an instant.
pub open spec fn timestamp_text(ns: int) -> Seq<char> {
    datetime_text(ns) + seq!['.'] + text::pad0((ns % 1_000_000_000 / 1_000_000) as nat, 3)
}

/// An instant of 64 bits lies between the years 1677 and 2262.
pub proof fn lemma_instant_year(ns: int)
    requires
        i64::MIN <= ns <= i64::MAX,
    ensures
        1677 <= civil(seconds(ns) / 86_400).0 <= 2262,
{
    let days = seconds(ns) / 86_400;
    law_civil_is_the_date(days);
    let (y, m, d) = civil(days);
    lemma_within_year(y, m);
    assert(-106_752 <= days <= 106_751);
    if y < 1677 {
        lemma_years_grow(y, 1677);
    }
    if y > 2262 {
        lemma_years_grow(2262, y);
    }
}

fn push_clock(out: &mut String, tod: i64)
    requires
        0 <= tod < 86_400,
    ensures
        final(out)@ == old(out)@ + clock_text(tod as int),
{
    let ghost before = out@;
    text::push_pad0(out, (tod / 3600) as u64, 2);
    out.push(':');
    text::push_pad0(out, (tod % 3600 / 60) as u64, 2);
    out.push(':');
    text::push_pad0(out, (tod % 60) as u64, 2);
    assert(out@ =~= before + clock_text(tod as int));
}

/// Just the `HH:MM:SS` (UTC) time of day: compact axis tick labels for the time-series viewer.
pub fn clock_hms_ns(ns: i64) -> (r: String)
    ensures
        r@ == clock_text(seconds(ns as int) % 86_400),
{
    let secs: i64 = div_floor(ns, 1_000_000_000);
    let tod: i64 = secs - div_floor(secs, 86_400) * 86_400;
    let mut out = String::new();
    push_clock(&mut out, tod);
    assert(out@ =~= clock_text(tod as int));
    out
}

/// Wall-clock `YYYY-MM-DD HH:MM:SS` (UTC), with no sub-second part: the header clock.
pub fn format_datetime_ns(ns: i64) -> (r: String)
    ensures
        r@ == datetime_text(ns as int),
{
    let secs: i64 = div_floor(ns, 1_000_000_000);
    let days: i64 = div_floor(secs, 86_400);
    let tod: i64 = secs - days * 86_400;
    let (year, month, day) = civil_from_days(days);
    proof {
        lemma_instant_year(ns as int);
    }
    let mut out = String::new();
    text::push_pad0(&mut out, year as u64, 4);
    out.push('-');
    text::push_pad0(&mut out, month as u64, 2);
    out.push('-');
    text::push_pad0(&mut out, day as u64, 2);
    assert(out@ =~= date_text(days as int));
    out.push(' ');
    push_clock(&mut out, tod);
    assert(out@ =~= datetime_text(ns as int));
    out
}

/// An instant as UTC `YYYY-MM-DD HH:MM:SS.mmm`.
pub fn format_timestamp_ns(ns: i64) -> (r: String)
    ensures
        r@ == timestamp_text(ns as int),
{
    let mut out = format_datetime_ns(ns);
    let secs: i64 = div_floor(ns, 1_000_000_000);
    let part: i64 = (ns as i128 - secs as i128 * 1_000_000_000) as i64;
    out.push('.');
    text::push_pad0(&mut out, (part / 1_000_000) as u64, 3);
    assert(out@ =~= timestamp_text(ns as int));
    out
}

/// A number of at most `max`.
pub open spec fn field(s: Seq<char>, max: int) -> Option<int> {
    match text::number(s) {
        Some(v) => if v <= max { Some(v as int) } else { None },
        None => None,
    }
}

/// Where the date ends: the first space or `T`, or the end.
pub open spec fn date_end(s: Seq<char>) -> int
    decreases s.len(),
{
    if s.len() == 0 || s[0] == ' ' || s[0] == 'T' {
        0
    } else {
        1 + date_end(s.drop_first())
    }
}

/// The day number that `YYYY-MM-DD` names.
pub open spec fn parsed_date(s: Seq<char>) -> Option<int> {
    let parts = text::split(s, '-');
    if parts.len() != 3 {
        None
    } else {
        match (field(text::trim(parts[0]), i64::MAX as int), field(parts[1], 12), field(parts[2], 31)) {
            (Some(y), Some(m), Some(d)) => if m >= 1 && d >= 1 {
                Some(day_number(y, m, d))
            } else {
                None
            },
            _ => None,
        }
    }
}

/// The second of the day that `HH[:MM[:SS]]` names; an empty text is midnight.
pub open spec fn parsed_clock(s: Seq<char>) -> Option<int> {
    let parts = text::split(s, ':');
    if s.len() == 0 {
        Some(0)
    } else if parts.len() > 3 {
        None
    } else {
        let minute = if parts.len() > 1 { field(parts[1], 59) } else { Some(0) };
        let second = if parts.len() > 2 { field(parts[2], 59) } else { Some(0) };
        match (field(parts[0], 23), minute, second) {
            (Some(h), Some(m), Some(s)) => Some(h * 3600 + m * 60 + s),
            _ => None,
        }
    }
}

/// The instant that `YYYY-MM-DD[ HH:MM[:SS]]` names, where it fits into 64 bits.
pub open spec fn parsed_datetime(s: Seq<char>) -> Option<int> {
    let t = text::trim(s);
    let k = date_end(t);
    let time = if k < t.len() { text::trim(t.subrange(k + 1, t.len() as int)) } else { Seq::empty() };
    match (parsed_date(t.subrange(0, k)), parsed_clock(time)) {
        (Some(days), Some(tod)) => {
            let ns = (days * 86_400 + tod) * 1_000_000_000;
            if i64::MIN <= ns <= i64::MAX { Some(ns) } else { None }
        },
        _ => None,
    }
}

proof fn lemma_date_end(s: Seq<char>)
    ensures
        0 <= date_end(s) <= s.len(),
    decreases s.len(),
{
    if s.len() > 0 {
        lemma_date_end(s.drop_first());
    }
}

fn read_field(cs: &Vec<char>, max: u64) -> (r: Option<u64>)
    requires
        max <= i64::MAX,
    ensures
        match r {
            Some(v) => field(cs@, max as int) == Some(v as int) && v <= max,
            None => field(cs@, max as int) is None,
        },
{
    text::read_number(cs, max)
}

/// The day number is bounded below by 365 days to the year.
proof fn lemma_day_number_grows(y: int, m: int, d: int)
    requires
        y >= 0,
        1 <= m <= 12,
        1 <= d <= 31,
    ensures
        365 * y - 719_528 <= day_number(y, m, d) <= 366 * y + 400 - 719_162,
{
    lemma_within_year(y, m);
}

fn read_date(cs: &Vec<char>) -> (r: Option<i64>)
    ensures
        match r {
            Some(days) => parsed_date(cs@) == Some(days as int),
            None => parsed_date(cs@) matches Some(days) ==> days > 106_752,
        },
{
    let parts = text::split_on(cs, '-');
    let ghost pieces = text::split(cs@, '-');
    assert(forall|i: int| 0 <= i < parts@.len() ==> pieces[i] == #[trigger] parts@[i]@);
    assert(pieces.len() == parts@.len());
    if parts.len() != 3 {
        return None;
    }
    let year_text = text::trimmed(&parts[0]);
    let year: u64 = match read_field(&year_text, 9_223_372_036_854_775_807) {
        Some(v) => v,
        None => { return None; },
    };
    let month: u64 = match read_field(&parts[1], 12) {
        Some(v) => v,
        None => { return None; },
    };
    let day: u64 = match read_field(&parts[2], 31) {
        Some(v) => v,
        None => { return None; },
    };
    if month < 1 || day < 1 {
        return None;
    }
    proof {
        lemma_day_number_grows(year as int, month as int, day as int);
    }
    if year > 1_000_000 {
        return None;
    }
    Some(days_from_civil(year as i64, month as u32, day as u32))
}

fn read_clock(cs: &Vec<char>) -> (r: Option<i64>)
    ensures
        match r {
            Some(tod) => parsed_clock(cs@) == Some(tod as int) && 0 <= tod < 86_400,
            None => parsed_clock(cs@) is None,
        },
{
    if cs.len() == 0 {
        return Some(0);
    }
    let parts = text::split_on(cs, ':');
    let ghost pieces = text::split(cs@, ':');
    assert(forall|i: int| 0 <= i < parts@.len() ==> pieces[i] == #[trigger] parts@[i]@);
    assert(pieces.len() == parts@.len());
    if parts.len() > 3 {
        return None;
    }
    let hour: u64 = match read_field(&parts[0], 23) {
        Some(v) => v,
        None => { return None; },
    };
    let mut minute: u64 = 0;
    if parts.len() > 1 {
        minute = match read_field(&parts[1], 59) {
            Some(v) => v,
            None => { return None; },
        };
    }
    let mut second: u64 = 0;
    if parts.len() > 2 {
        second = match read_field(&parts[2], 59) {
            Some(v) => v,
            None => { return None; },
        };
    }
    Some(hour as i64 * 3600 + minute as i64 * 60 + second as i64)
}

/// Parses a UTC `YYYY-MM-DD[ HH:MM[:SS]]` (space or `T` separator) into nanoseconds since the Unix
/// epoch. The time part is optional (a missing minute or second is 0), but every field is range
/// checked: a malformed or out-of-range field, or an instant past 64 bits, gives `None`.
pub fn parse_datetime(text: &str) -> (r: Option<i64>)
    ensures
        match r {
            Some(ns) => parsed_datetime(text@) == Some(ns as int),
            None => parsed_datetime(text@) is None,
        },
{
    let all = crate::text::chars_of(text);
    let t = crate::text::trimmed(&all);
    let n: usize = t.len();
    let mut k: usize = 0;
    assert(t@.subrange(0, n as int) =~= t@);
    while k < n && t[k] != ' ' && t[k] != 'T'
        invariant
            k <= n == t@.len(),
            date_end(t@) == k + date_end(t@.subrange(k as int, n as int)),
        decreases n - k,
    {
        assert(t@.subrange(k as int, n as int).drop_first() =~= t@.subrange(k + 1, n as int));
        k += 1;
    }
    assert(date_end(t@) == k);
    let date = crate::text::slice(&t, 0, k);
    let time = if k < n {
        let rest = crate::text::slice(&t, k + 1, n);
        crate::text::trimmed(&rest)
    } else {
        Vec::new()
    };
    let ghost time_seq = if k < n {
        crate::text::trim(t@.subrange(k + 1, n as int))
    } else {
        Seq::<char>::empty()
    };
    assert(time@ =~= time_seq);
    let days: i64 = match read_date(&date) {
        Some(v) => v,
        None => { return None; },
    };
    let tod: i64 = match read_clock(&time) {
        Some(v) => v,
        None => { return None; },
    };
    let ns: i128 = (days as i128 * 86_400 + tod as i128) * 1_000_000_000;
    if ns < -9_223_372_036_854_775_808 || ns > 9_223_372_036_854_775_807 {
        None
    } else {
        Some(ns as i64)
    }
}

pub proof fn lemma_trim_tight(s: Seq<char>)
    requires
        s.len() > 0 ==> !text::space(s[0]) && !text::space(s.last()),
    ensures
        text::trim(s) == s,
{
}

pub proof fn lemma_two_digits(n: nat)
    requires
        n < 100,
    ensures
        text::pad0(n, 2).len() == 2,
        '0' <= text::pad0(n, 2)[0] <= '9',
        '0' <= text::pad0(n, 2)[1] <= '9',
{
    reveal_with_fuel(text::dec, 3);
}

pub proof fn lemma_four_digits(n: nat)
    requires
        1000 <= n < 10000,
    ensures
        text::pad0(n, 4).len() == 4,
        forall|i: int| 0 <= i < 4 ==> '0' <= #[trigger] text::pad0(n, 4)[i] <= '9',
{
    assert(text::dec(n / 1000) =~= seq![text::digit((n / 1000) as int)]);
    assert(text::dec(n / 100) =~= text::dec(n / 1000).push(text::digit((n / 100 % 10) as int)));
    assert(text::dec(n / 10) =~= text::dec(n / 100).push(text::digit((n / 10 % 10) as int)));
    assert(text::dec(n) =~= text::dec(n / 10).push(text::digit((n % 10) as int)));
    assert(text::pad0(n, 4) =~= text::dec(n));
}

proof fn lemma_date_end_at(a: Seq<char>, b: Seq<char>)
    requires
        forall|i: int| 0 <= i < a.len() ==> a[i] != ' ' && a[i] != 'T',
        b.len() > 0 && b[0] == ' ',
    ensures
        date_end(a + b) == a.len(),
    decreases a.len(),
{
    if a.len() == 0 {
        assert(a + b =~= b);
    } else {
        assert((a + b).drop_first() =~= a.drop_first() + b);
        lemma_date_end_at(a.drop_first(), b);
    }
}

proof fn lemma_date_reads_back(days: int)
    requires
        1000 <= civil(days).0 < 10000,
    ensures
        parsed_date(date_text(days)) == Some(days),
        date_text(days).len() == 10,
        forall|i: int| 0 <= i < 10 ==> '-' <= #[trigger] date_text(days)[i] <= '9',
        '0' <= date_text(days)[0],
{
    let (y, m, d) = civil(days);
    law_civil_is_the_date(days);
    let ys = text::pad0(y as nat, 4);
    let ms = text::pad0(m as nat, 2);
    let ds = text::pad0(d as nat, 2);
    lemma_four_digits(y as nat);
    lemma_two_digits(m as nat);
    lemma_two_digits(d as nat);
    text::law_number_reads_back(y as nat, 4);
    text::law_number_reads_back(m as nat, 2);
    text::law_number_reads_back(d as nat, 2);
    let s = date_text(days);
    assert(s =~= ys + seq!['-'] + (ms + seq!['-'] + ds));
    text::lemma_split_first(ys, '-', ms + seq!['-'] + ds);
    text::lemma_split_first(ms, '-', ds);
    text::lemma_split_whole(ds, '-');
    assert(text::split(s, '-') =~= seq![ys, ms, ds]);
    lemma_trim_tight(ys);
}

proof fn lemma_clock_reads_back(tod: int)
    requires
        0 <= tod < 86_400,
    ensures
        parsed_clock(clock_text(tod)) == Some(tod),
        clock_text(tod).len() == 8,
        '0' <= clock_text(tod)[0] <= '9',
        '0' <= clock_text(tod)[7] <= '9',
{
    let h = tod / 3600;
    let m = tod % 3600 / 60;
    let s = tod % 60;
    let hs = text::pad0(h as nat, 2);
    let ms = text::pad0(m as nat, 2);
    let ss = text::pad0(s as nat, 2);
    lemma_two_digits(h as nat);
    lemma_two_digits(m as nat);
    lemma_two_digits(s as nat);
    text::law_number_reads_back(h as nat, 2);
    text::law_number_reads_back(m as nat, 2);
    text::law_number_reads_back(s as nat, 2);
    let t = clock_text(tod);
    assert(t =~= hs + seq![':'] + (ms + seq![':'] + ss));
    text::lemma_split_first(hs, ':', ms + seq![':'] + ss);
    text::lemma_split_first(ms, ':', ss);
    text::lemma_split_whole(ss, ':');
    assert(text::split(t, ':') =~= seq![hs, ms, ss]);
}

/// The text of an instant is a date of ten characters, a space, and a clock time of eight.
pub proof fn law_datetime_text_has_fixed_width(ns: i64)
    ensures
        datetime_text(ns as int).len() == 19,
        datetime_text(ns as int).take(10) == date_text(seconds(ns as int) / 86_400),
{
    let secs = seconds(ns as int);
    lemma_instant_year(ns as int);
    lemma_date_reads_back(secs / 86_400);
    lemma_clock_reads_back(secs % 86_400);
    assert(datetime_text(ns as int).take(10) =~= date_text(secs / 86_400));
}

/// An instant of whole seconds is what its own `YYYY-MM-DD HH:MM:SS` text parses to.
pub proof fn law_datetime_round_trip(ns: i64)
    requires
        ns as int % 1_000_000_000 == 0,
    ensures
        parsed_datetime(datetime_text(ns as int)) == Some(ns as int),
{
    let secs = seconds(ns as int);
    let days = secs / 86_400;
    let tod = secs % 86_400;
    lemma_instant_year(ns as int);
    lemma_date_reads_back(days);
    lemma_clock_reads_back(tod);
    let a = date_text(days);
    let c = clock_text(tod);
    let s = datetime_text(ns as int);
    assert(s =~= a + (seq![' '] + c));
    assert(s[0] == a[0] && s.last() == c[7]);
    lemma_trim_tight(s);
    lemma_date_end_at(a, seq![' '] + c);
    assert(s.subrange(0, 10) =~= a);
    assert(s.subrange(11, s.len() as int) =~= c);
    assert(c[0] != ' ');
    lemma_trim_tight(c);
    assert((days * 86_400 + tod) * 1_000_000_000 == ns);
}

/// Two to the power `k`.
pub open spec fn two_to(k: nat) -> nat
    decreases k,
{
    if k == 0 {
        1
    } else {
        2 * two_to((k - 1) as nat)
    }
}

/// `num / den` rounded to the nearest integer, a tie to the even one.
pub open spec fn half_even(num: nat, den: nat) -> nat {
    let q = num / den;
    let r = num % den;
    if 2 * r > den || (2 * r == den && q % 2 == 1) {
        q + 1
    } else {
        q
    }
}

/// The exponent that scales `num / den` to 53 significant bits, from 52 down.
pub open spec fn scale_of(num: nat, den: nat, k: nat) -> nat
    decreases k,
{
    if k == 0 || num * two_to(k) < two_to(53) * den {
        k
    } else {
        scale_of(num, den, (k - 1) as nat)
    }
}

/// The bits below the 53 most significant ones of `n`, from `k` up.
pub open spec fn excess_bits(n: nat, k: nat) -> nat
    decreases 64 - k,
{
    if k >= 64 || n < two_to(53 + k) {
        k
    } else {
        excess_bits(n, k + 1)
    }
}

/// `n` rounded to 53 significant bits.
pub open spec fn as_double(n: nat) -> nat {
    let unit = two_to(excess_bits(n, 0));
    half_even(n, unit) * unit
}

/// The thousandths to which `n / den` is printed when it is divided in double precision.
pub open spec fn printed_thousandths(n: nat, den: nat) -> nat {
    let k = scale_of(as_double(n), den, 52);
    half_even(half_even(as_double(n) * two_to(k), den) * 1000, two_to(k))
}

/// `n / den` with three decimals.
pub open spec fn decimal3(n: nat, den: nat) -> Seq<char> {
    let t = printed_thousandths(n, den);
    text::dec(t / 1000) + seq!['.'] + text::pad0(t % 1000, 3)
}

/// The text of a duration: the unit grows with the duration.
pub open spec fn duration_text(ns: nat, ascii: bool) -> Seq<char> {
    if ns < 1_000 {
        text::dec(ns) + "ns"@
    } else if ns < 1_000_000 {
        decimal3(ns, 1_000) + if ascii { "us"@ } else { "\u{b5}s"@ }
    } else if ns < 1_000_000_000 {
        decimal3(ns, 1_000_000) + "ms"@
    } else {
        decimal3(ns, 1_000_000_000) + "s"@
    }
}

fn round_half_even(num: u128, den: u128) -> (r: u128)
    requires
        0 < den < 0x1_0000_0000_0000_0000,
        num < 0x1000_0000_0000_0000_0000_0000_0000_0000,
    ensures
        r == half_even(num as nat, den as nat),
        r <= num / den + 1,
{
    let q: u128 = num / den;
    let r: u128 = num % den;
    assert(q <= num) by (nonlinear_arith)
        requires
            q == num / den,
            den > 0,
    ;
    if 2 * r > den || (2 * r == den && q % 2 == 1) {
        q + 1
    } else {
        q
    }
}

pub proof fn lemma_two_to_grows(a: nat, b: nat)
    requires
        a <= b,
    ensures
        1 <= two_to(a) <= two_to(b),
    decreases b,
{
    if a < b {
        lemma_two_to_grows(a, (b - 1) as nat);
    } else if a > 0 {
        lemma_two_to_grows((a - 1) as nat, (b - 1) as nat);
    }
}

pub proof fn lemma_two_to_values()
    ensures
        two_to(10) == 1024,
        two_to(11) == 2048,
        two_to(52) == 0x10_0000_0000_0000,
        two_to(53) == 0x20_0000_0000_0000,
        two_to(64) == 0x1_0000_0000_0000_0000,
{
    reveal_with_fuel(two_to, 14);
    assert(two_to(11) == 2048);
    assert(two_to(24) == 0x100_0000);
    assert(two_to(37) == 0x20_0000_0000);
    assert(two_to(50) == 0x4_0000_0000_0000);
    assert(two_to(52) == 0x10_0000_0000_0000);
    assert(two_to(53) == 0x20_0000_0000_0000);
    assert(two_to(64) == 0x1_0000_0000_0000_0000);
}

pub(crate) fn double_of(n: u64) -> (r: u128)
    ensures
        r == as_double(n as nat),
        n <= r <= n + 1024 || r <= n,
        n < 0x20_0000_0000_0000 ==> r == n,
        r <= 0x1_0000_0000_0000_0000,
        n >= 1_000 ==> r >= 1_000,
{
    let mut unit: u128 = 1;
    let mut top: u128 = 0x20_0000_0000_0000;
    let ghost mut k: nat = 0;
    proof {
        lemma_two_to_values();
    }
    while n as u128 >= top
        invariant
            k <= 11,
            unit == two_to(k),
            top == two_to(53 + k),
            top == 0x20_0000_0000_0000 * unit,
            excess_bits(n as nat, 0) == excess_bits(n as nat, k),
            two_to(11) == 2048,
            two_to(64) == 0x1_0000_0000_0000_0000,
            unit <= 2048,
            k > 0 ==> 2 * n >= top,
        decreases 64 - k,
    {
        proof {
            if k == 11 {
                assert(two_to(53 + k) == two_to(64));
            }
            lemma_two_to_grows(k + 1, 11);
            assert(two_to(53 + k + 1) == 2 * two_to(53 + k));
            k = k + 1;
        }
        unit = unit * 2;
        top = top * 2;
    }
    let q: u128 = round_half_even(n as u128, unit);
    proof {
        assert(q * unit <= n + unit) by (nonlinear_arith)
            requires
                q <= n as u128 / unit + 1,
                unit > 0,
        ;
        assert(n - unit <= q * unit) by (nonlinear_arith)
            requires
                q >= n as u128 / unit,
                unit > 0,
        ;
        if k == 0 {
            assert(n as nat / 1 == n && n as nat % 1 == 0);
        }
        assert(unit == two_to(excess_bits(n as nat, 0)));
        if k > 0 {
            lemma_top_rounds_within(n as nat, k);
        }
    }
    q * unit
}

proof fn lemma_top_rounds_within(n: nat, k: nat)
    requires
        n <= u64::MAX,
        1 <= k <= 11,
        n < two_to(53 + k),
        2 * n >= two_to(53 + k),
    ensures
        half_even(n, two_to(k)) * two_to(k) <= 0x1_0000_0000_0000_0000,
        half_even(n, two_to(k)) * two_to(k) <= n + 1024,
        half_even(n, two_to(k)) * two_to(k) >= 1_000,
{
    lemma_two_to_values();
    lemma_two_to_grows(53 + k, 64);
    lemma_two_to_grows(k, 11);
    lemma_two_to_grows(53, 53 + k);
    let u = two_to(k);
    let q = n / u;
    let r = n % u;
    assert(n == u * q + r && 0 <= r < u) by {
        vstd::arithmetic::div_mod::lemma_fundamental_div_mod(n as int, u as int);
    }
    let h = half_even(n, u);
    assert(h * u <= n + u - r) by (nonlinear_arith)
        requires
            h <= q + 1,
            n == u * q + r,
            u > 0,
    ;
    assert(h * u >= n - r) by (nonlinear_arith)
        requires
            h >= q,
            n == u * q + r,
            u > 0,
    ;
    if h == q + 1 {
        assert(2 * r >= u);
    } else {
        assert(h * u == n - r) by (nonlinear_arith)
            requires
                h == q,
                n == u * q + r,
        ;
    }
    lemma_two_to_split(53, k);
    if h * u > 0x1_0000_0000_0000_0000 {
        // The next multiple of the unit past n is at most the power of two above n.
        assert(h == q + 1);
        assert(q + 1 <= two_to(53)) by (nonlinear_arith)
            requires
                n < two_to(53) * u,
                n == u * q + r,
                r >= 0,
                u > 0,
        ;
        assert(h * u <= two_to(53) * u) by (nonlinear_arith)
            requires
                h <= two_to(53),
                u > 0,
        ;
    }
}

proof fn lemma_two_to_split(a: nat, b: nat)
    ensures
        two_to(a + b) == two_to(a) * two_to(b),
    decreases b,
{
    if b > 0 {
        lemma_two_to_split(a, (b - 1) as nat);
        assert(two_to(a + b) == 2 * two_to((a + b - 1) as nat));
        assert(2 * (two_to(a) * two_to((b - 1) as nat)) == two_to(a) * (2 * two_to((b - 1) as nat))) by (nonlinear_arith);
    } else {
        assert(two_to(a) * 1 == two_to(a));
    }
}

fn thousandths(n: u64, den: u128) -> (r: u128)
    requires
        1_000 <= den <= 1_000_000_000,
        n >= 1_000,
    ensures
        r == printed_thousandths(n as nat, den as nat),
        r < 0x2_0000_0000_0000_0000,
{
    let d: u128 = double_of(n);
    let mut pow: u128 = 0x10_0000_0000_0000;
    let mut k: u32 = 52;
    proof {
        lemma_two_to_values();
        assert(d * pow < 0x1000_0000_0000_0000_0000_0000_0000_0000) by (nonlinear_arith)
            requires
                d <= 0x1_0000_0000_0000_0000,
                pow == 0x10_0000_0000_0000,
        ;
    }
    while k > 0 && d * pow >= 0x20_0000_0000_0000 * den
        invariant
            k <= 52,
            1 <= pow <= 0x10_0000_0000_0000,
            pow == two_to(k as nat),
            two_to(53) == 0x20_0000_0000_0000,
            1_000 <= den <= 1_000_000_000,
            d <= 0x1_0000_0000_0000_0000,
            d * pow < 0x1000_0000_0000_0000_0000_0000_0000_0000,
            scale_of(d as nat, den as nat, 52) == scale_of(d as nat, den as nat, k as nat),
        decreases k,
    {
        proof {
            assert(two_to(k as nat) == 2 * two_to((k - 1) as nat));
            lemma_two_to_grows(0, (k - 1) as nat);
            assert(d * (pow / 2) <= d * pow) by (nonlinear_arith)
                requires
                    pow >= 1,
                    d >= 0,
            ;
        }
        pow = pow / 2;
        k = k - 1;
    }
    let q: u128 = round_half_even(d * pow, den);
    proof {
        // With no scaling left the double is below two to the 64th; else the quotient fits 53 bits.
        if k == 0 {
            assert(d * pow == d) by (nonlinear_arith)
                requires
                    pow == 1,
            ;
            assert(q <= 0x1_0000_0000_0000_0000int / 1_000int + 1) by (nonlinear_arith)
                requires
                    q <= d / den + 1,
                    d <= 0x1_0000_0000_0000_0000,
                    den >= 1_000,
            ;
        } else {
            assert(q <= 0x20_0000_0000_0000 + 1) by (nonlinear_arith)
                requires
                    q <= (d * pow) / den as int + 1,
                    d * pow < 0x20_0000_0000_0000 * den,
                    den >= 1_000,
            ;
        }
        assert(two_to(k as nat) == pow);
    }
    let t: u128 = round_half_even(q * 1000, pow);
    proof {
        assert(t <= q * 1000 + 1) by (nonlinear_arith)
            requires
                t <= (q * 1000) / pow as int + 1,
                pow >= 1,
        ;
    }
    t
}

fn push_decimal3(out: &mut String, n: u64, den: u128)
    requires
        1_000 <= den <= 1_000_000_000,
        n >= 1_000,
    ensures
        final(out)@ == old(out)@ + decimal3(n as nat, den as nat),
{
    let ghost before = out@;
    let t: u128 = thousandths(n, den);
    text::push_dec(out, (t / 1000) as u64);
    out.push('.');
    text::push_pad0(out, (t % 1000) as u64, 3);
    assert(out@ =~= before + decimal3(n as nat, den as nat));
}

/// A nanosecond duration, the unit scaled so that both a sub-microsecond span and a multi-second
/// one read naturally. `ascii` spells the microsecond unit `us`.
pub fn format_duration_ns(ns: u64, ascii: bool) -> (r: String)
    ensures
        r@ == duration_text(ns as nat, ascii),
{
    let mut out = String::new();
    if ns < 1_000 {
        text::push_dec(&mut out, ns);
        out.append("ns");
    } else if ns < 1_000_000 {
        push_decimal3(&mut out, ns, 1_000);
        out.append(if ascii { "us" } else { "\u{b5}s" });
    } else if ns < 1_000_000_000 {
        push_decimal3(&mut out, ns, 1_000_000);
        out.append("ms");
    } else {
        push_decimal3(&mut out, ns, 1_000_000_000);
        out.append("s");
    }
    assert(out@ =~= duration_text(ns as nat, ascii));
    out
}

/// The largest unit of days, hours, minutes and seconds that divides the duration.
pub open spec fn human_text(secs: nat) -> Seq<char> {
    if secs % 86_400 == 0 {
        text::dec(secs / 86_400) + "d"@
    } else if secs % 3_600 == 0 {
        text::dec(secs / 3_600) + "h"@
    } else if secs % 60 == 0 {
        text::dec(secs / 60) + "m"@
    } else {
        text::dec(secs) + "s"@
    }
}

/// Compact `Ns`/`Nm`/`Nh`/`Nd` rendering of a whole-second duration for the picker rows.
pub fn humanize_secs(secs: u64) -> (r: String)
    ensures
        r@ == human_text(secs as nat),
{
    let mut out = String::new();
    if secs % 86_400 == 0 {
        text::push_dec(&mut out, secs / 86_400);
        out.append("d");
    } else if secs % 3_600 == 0 {
        text::push_dec(&mut out, secs / 3_600);
        out.append("h");
    } else if secs % 60 == 0 {
        text::push_dec(&mut out, secs / 60);
        out.append("m");
    } else {
        text::push_dec(&mut out, secs);
        out.append("s");
    }
    assert(out@ =~= human_text(secs as nat));
    out
}

} // verus!
