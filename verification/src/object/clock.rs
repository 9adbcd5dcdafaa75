//! Time as the objects see it: instants for change tracking, wall-clock
//! time for logs and schedules, and the UTC calendar.
use vstd::prelude::*;
use std::time::{Duration, Instant, SystemTime};
use crate::types::{BacnetDate, BacnetTime, Weekday};

verus! {

#[verifier::external_type_specification]
#[verifier::external_body]
pub struct ExInstant(std::time::Instant);

#[verifier::external_type_specification]
#[verifier::external_body]
pub struct ExSystemTime(std::time::SystemTime);

/// `a > b` for instants.
pub uninterp spec fn instant_gt(a: Instant, b: Instant) -> bool;

/// `a >= b` for instants.
pub uninterp spec fn instant_ge(a: Instant, b: Instant) -> bool;

/// `a >= b` for durations.
pub uninterp spec fn duration_ge(a: Duration, b: Duration) -> bool;

/// The time from `b` to `a`, zero when `b` is later
/// (`Instant::duration_since`).
pub uninterp spec fn instant_elapsed(a: Instant, b: Instant) -> Duration;

/// The whole seconds of a duration (`Duration::as_secs`).
pub uninterp spec fn duration_secs(d: Duration) -> u64;

/// The time elapsed since the Unix epoch, `None` for a time before it
/// (`SystemTime::duration_since(UNIX_EPOCH)`).
pub uninterp spec fn since_epoch(t: SystemTime) -> Option<Duration>;

/// `Instant::now`: the current instant.
#[verifier::external_body]
pub(crate) fn instant_now() -> (r: Instant) {
    Instant::now()
}

/// `SystemTime::now`: the current wall-clock time.
#[verifier::external_body]
pub(crate) fn system_now() -> (r: SystemTime) {
    SystemTime::now()
}

/// `PartialOrd::gt` on instants.
#[verifier::external_body]
pub(crate) fn instant_after(a: &Instant, b: &Instant) -> (r: bool)
    ensures
        r == instant_gt(*a, *b),
{
    *a > *b
}

/// `PartialOrd::ge` on instants.
#[verifier::external_body]
pub(crate) fn instant_not_before(a: &Instant, b: &Instant) -> (r: bool)
    ensures
        r == instant_ge(*a, *b),
{
    *a >= *b
}

/// `Instant::duration_since`: the time from `b` to `a` (zero when `b` is
/// later).
#[verifier::external_body]
pub(crate) fn instant_duration_since(a: &Instant, b: &Instant) -> (r: Duration)
    ensures
        r == instant_elapsed(*a, *b),
{
    a.duration_since(*b)
}

/// `PartialOrd::ge` on durations.
#[verifier::external_body]
pub(crate) fn duration_at_least(a: &Duration, b: &Duration) -> (r: bool)
    ensures
        r == duration_ge(*a, *b),
{
    *a >= *b
}

/// `Duration::as_secs`.
#[verifier::external_body]
pub(crate) fn duration_as_secs(d: &Duration) -> (r: u64)
    ensures
        r == duration_secs(*d),
{
    d.as_secs()
}

/// `Duration::from_secs`: a duration of `s` whole seconds, whose `as_secs`
/// gives `s` back.
#[verifier::external_body]
pub(crate) fn duration_from_secs(s: u64) -> (r: Duration)
    ensures
        duration_secs(r) == s,
{
    Duration::from_secs(s)
}

/// `Duration::default`: the zero duration, which no duration is shorter
/// than.
#[verifier::external_body]
pub(crate) fn duration_zero() -> (r: Duration)
    ensures
        duration_secs(r) == 0,
        forall|d: Duration| #[trigger] duration_ge(d, r),
{
    Duration::default()
}

/// `SystemTime::duration_since(UNIX_EPOCH)`, with the error of a time
/// before the epoch turned into `None`.
#[verifier::external_body]
pub(crate) fn duration_since_epoch(t: &SystemTime) -> (r: Option<Duration>)
    ensures
        r == since_epoch(*t),
{
    match t.duration_since(std::time::UNIX_EPOCH) {
        Ok(d) => Some(d),
        Err(_) => None,
    }
}

/// The whole seconds from the Unix epoch to `t`, zero for a time before it.
pub open spec fn unix_secs(t: SystemTime) -> u64 {
    match since_epoch(t) {
        Some(d) => duration_secs(d),
        None => 0,
    }
}

/// Whole seconds since the Unix epoch, zero for a time before it.
pub fn secs_since_epoch(t: &SystemTime) -> (r: u64)
    ensures
        r == unix_secs(*t),
{
    let d = match duration_since_epoch(t) {
        Some(d) => d,
        None => duration_zero(),
    };
    duration_as_secs(&d)
}

// ---------------------------------------------------------------------------
// The Gregorian calendar
// ---------------------------------------------------------------------------

/// Whether `y` is a leap year of the Gregorian calendar.
pub open spec fn leap_year(y: int) -> bool {
    (y % 4 == 0 && y % 100 != 0) || y % 400 == 0
}

/// The number of days of year `y`.
pub open spec fn year_length(y: int) -> nat {
    if leap_year(y) {
        366
    } else {
        365
    }
}

/// The number of days from 1 January 1970 to 1 January of year `y`.
pub open spec fn days_before_year(y: nat) -> nat
    decreases y,
{
    if y <= 1970 {
        0
    } else {
        days_before_year((y - 1) as nat) + year_length(y - 1)
    }
}

/// The number of days of month `m` (1 to 12) of year `y`.
pub open spec fn month_length(y: int, m: int) -> nat {
    if m == 2 {
        if leap_year(y) {
            29
        } else {
            28
        }
    } else if m == 4 || m == 6 || m == 9 || m == 11 {
        30
    } else {
        31
    }
}

/// The number of days of year `y` before the first of month `m`.
pub open spec fn days_before_month(y: int, m: nat) -> nat
    decreases m,
{
    if m <= 1 {
        0
    } else {
        days_before_month(y, (m - 1) as nat) + month_length(y, m - 1)
    }
}

/// The day of the week of the `d`-th day after 1 January 1970, a Thursday.
pub open spec fn weekday_of_day(d: nat) -> Weekday {
    let k = (d + 3) % 7;
    if k == 0 {
        Weekday::Monday
    } else if k == 1 {
        Weekday::Tuesday
    } else if k == 2 {
        Weekday::Wednesday
    } else if k == 3 {
        Weekday::Thursday
    } else if k == 4 {
        Weekday::Friday
    } else if k == 5 {
        Weekday::Saturday
    } else {
        Weekday::Sunday
    }
}

/// Whether (`year`, `month`, `day`) is the `d`-th day after 1 January 1970.
pub open spec fn is_civil_date(d: nat, year: nat, month: nat, day: nat) -> bool {
    &&& year >= 1970
    &&& days_before_year(year) <= d < days_before_year(year + 1)
    &&& 1 <= month <= 12
    &&& days_before_month(year as int, month) <= d - days_before_year(year) < days_before_month(year as int, month + 1)
    &&& day == d - days_before_year(year) - days_before_month(year as int, month) + 1
}

/// The time of day of `secs` seconds after the epoch.
pub open spec fn time_of_secs(secs: u64) -> BacnetTime {
    BacnetTime {
        hour: ((secs / 3600) % 24) as u8,
        minute: ((secs / 60) % 60) as u8,
        second: (secs % 60) as u8,
        hundredths: 0,
    }
}

/// Whether `r` is the UTC date and time of `secs` seconds after the epoch.
/// The day count is taken modulo 2^32 and the year modulo 2^16, the widths
/// they are computed in.
pub open spec fn is_utc_of(secs: u64, r: (BacnetDate, BacnetTime)) -> bool {
    let d = (secs / 86400) as nat % 0x1_0000_0000;
    &&& r.1 == time_of_secs(secs)
    &&& r.0.weekday == weekday_of_day((secs / 86400) as nat)
    &&& exists|y: nat| #![trigger days_before_year(y)] is_civil_date(d, y, r.0.month as nat, r.0.day as nat)
            && r.0.year == (y % 65536) as u16
}

/// Whether `y` is a leap year of the Gregorian calendar.
pub fn is_leap(y: u32) -> (r: bool)
    ensures
        r == leap_year(y as int),
{
    (y % 4 == 0 && y % 100 != 0) || y % 400 == 0
}

proof fn lemma_days_before_year_grows(y: nat)
    requires
        y >= 1970,
    ensures
        days_before_year(y) >= 365 * (y - 1970),
    decreases y,
{
    if y > 1970 {
        lemma_days_before_year_grows((y - 1) as nat);
    }
}

proof fn lemma_month_table(y: int)
    ensures
        days_before_month(y, 13) == year_length(y),
        forall|m: nat| 1 <= m <= 12 ==> #[trigger] month_length(y, m as int) >= 28,
{
    reveal_with_fuel(days_before_month, 13);
}

/// The year, month and day of the `days`-th day after 1 January 1970.
pub fn civil_from_days(days: u32) -> (r: (u32, u8, u8))
    ensures
        is_civil_date(days as nat, r.0 as nat, r.1 as nat, r.2 as nat),
{
    let mut rem: u32 = days;
    let mut year: u32 = 1970;
    loop
        invariant
            year >= 1970,
            days_before_year(year as nat) + rem == days,
        ensures
            year >= 1970,
            days_before_year(year as nat) + rem == days,
            rem < year_length(year as int),
        decreases rem,
    {
        let diy: u32 = if is_leap(year) { 366 } else { 365 };
        if rem < diy {
            break;
        }
        proof { lemma_days_before_year_grows(year as nat + 1); }
        rem = rem - diy;
        year = year + 1;
        assert(days_before_year(year as nat) == days_before_year((year - 1) as nat) + year_length(year - 1));
    }
    assert(days_before_year(year as nat + 1) == days_before_year(year as nat) + year_length(year as int));
    let leap = is_leap(year);
    let month_lens: [u32; 12] = [31, if leap { 29 } else { 28 }, 31, 30, 31, 30, 31, 31, 30, 31, 30, 31];
    proof { lemma_month_table(year as int); }
    let mut month: u8 = 1;
    let mut i: usize = 0;
    let ghost diy_total = rem as nat;
    while i < 12
        invariant
            i <= 12,
            year >= 1970,
            days_before_year(year as nat) <= days < days_before_year(year as nat + 1),
            diy_total == days - days_before_year(year as nat),
            diy_total < year_length(year as int),
            days_before_month(year as int, 13) == year_length(year as int),
            rem as nat + days_before_month(year as int, i as nat + 1) == diy_total,
            forall|k: int| 0 <= k < 12 ==> #[trigger] month_lens[k] as nat == month_length(year as int, k + 1),
        decreases 12 - i,
    {
        let ml = month_lens[i];
        if rem < ml {
            month = (i + 1) as u8;
            assert(days_before_month(year as int, i as nat + 2) == days_before_month(year as int, i as nat + 1)
                + month_length(year as int, i + 1));
            let r = (year, month, (rem + 1) as u8);
            assert(is_civil_date(days as nat, r.0 as nat, r.1 as nat, r.2 as nat));
            return r;
        }
        assert(days_before_month(year as int, i as nat + 2) == days_before_month(year as int, i as nat + 1)
            + month_length(year as int, i + 1));
        rem = rem - ml;
        i = i + 1;
    }
    assert(false);
    (year, month, (rem + 1) as u8)
}

/// The UTC date and time `secs` seconds after the Unix epoch.
pub fn utc_from_secs(secs: u64) -> (r: (BacnetDate, BacnetTime))
    ensures
        is_utc_of(secs, r),
{
    let time = BacnetTime {
        hour: ((secs / 3600) % 24) as u8,
        minute: ((secs / 60) % 60) as u8,
        second: (secs % 60) as u8,
        hundredths: 0,
    };
    let k = (secs / 86400 + 3) % 7;
    let weekday = if k == 0 {
        Weekday::Monday
    } else if k == 1 {
        Weekday::Tuesday
    } else if k == 2 {
        Weekday::Wednesday
    } else if k == 3 {
        Weekday::Thursday
    } else if k == 4 {
        Weekday::Friday
    } else if k == 5 {
        Weekday::Saturday
    } else {
        Weekday::Sunday
    };
    let days: u32 = ((secs / 86400) % 0x1_0000_0000) as u32;
    let (year, month, day) = civil_from_days(days);
    let date = BacnetDate { year: (year % 65536) as u16, month, day, weekday };
    assert(is_civil_date(days as nat, year as nat, month as nat, day as nat));
    (date, time)
}

/// The current UTC date and time, from the system clock.
pub fn current_utc() -> (r: (BacnetDate, BacnetTime))
    ensures
        exists|secs: u64| is_utc_of(secs, r),
{
    let now = system_now();
    let secs = secs_since_epoch(&now);
    utc_from_secs(secs)
}

} // verus!
