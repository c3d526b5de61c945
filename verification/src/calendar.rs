//! Points in time, written out in UTC.

use vstd::prelude::*;
use vstd::string::*;
use crate::{clock, text};

verus! {

/// Whether a year of the Gregorian calendar is a leap year.
pub open spec fn leap(y: int) -> bool {
    (y % 4 == 0 && y % 100 != 0) || y % 400 == 0
}

/// The days of a year.
pub open spec fn year_days(y: int) -> int {
    if leap(y) {
        366
    } else {
        365
    }
}

/// The days from the start of 1970 to the start of a year.
pub open spec fn days_to_year(y: int) -> int
    decreases y,
{
    if y <= 1970 {
        0
    } else {
        days_to_year(y - 1) + year_days(y - 1)
    }
}

/// The days of a month.
pub open spec fn month_days(y: int, m: int) -> int {
    if m == 2 {
        if leap(y) {
            29
        } else {
            28
        }
    } else if m == 4 || m == 6 || m == 9 || m == 11 {
        30
    } else {
        31
    }
}

/// The days from the start of a year to the start of a month.
pub open spec fn days_to_month(y: int, m: int) -> int
    decreases m,
{
    if m <= 1 {
        0
    } else {
        days_to_month(y, m - 1) + month_days(y, m - 1)
    }
}

/// A date and a time of day.
pub struct Moment {
    pub year: int,
    pub month: int,
    pub day: int,
    pub hour: int,
    pub minute: int,
    pub second: int,
}

impl Moment {
    /// The calendar has this date and the day has this time.
    pub open spec fn valid(self) -> bool {
        &&& 1970 <= self.year
        &&& 1 <= self.month <= 12
        &&& 1 <= self.day <= month_days(self.year, self.month)
        &&& 0 <= self.hour < 24
        &&& 0 <= self.minute < 60
        &&& 0 <= self.second < 60
    }

    /// The days since the start of 1970.
    pub open spec fn days(self) -> int {
        days_to_year(self.year) + days_to_month(self.year, self.month) + self.day - 1
    }

    /// The seconds since the start of 1970, not counting leap seconds.
    pub open spec fn seconds(self) -> int {
        self.days() * 86_400 + self.hour * 3_600 + self.minute * 60 + self.second
    }
}

/// The moment that six numbers name.
pub open spec fn moment(t: (i32, u8, u8, u8, u8, u8)) -> Moment {
    Moment {
        year: t.0 as int,
        month: t.1 as int,
        day: t.2 as int,
        hour: t.3 as int,
        minute: t.4 as int,
        second: t.5 as int,
    }
}

/// The moment that six numbers name, the year being of any size.
pub open spec fn civil_moment(t: (u64, u8, u8, u8, u8, u8)) -> Moment {
    Moment {
        year: t.0 as int,
        month: t.1 as int,
        day: t.2 as int,
        hour: t.3 as int,
        minute: t.4 as int,
        second: t.5 as int,
    }
}

/// The first day, counted from 1970, whose year no longer fits in 32 bits.
pub const DAYS_LIMIT: u64 = 784_351_576_777;

proof fn lemma_days_to_year(y: int)
    requires
        y >= 1970,
    ensures
        days_to_year(y) == 365 * (y - 1970) + (y - 1969) / 4 - (y - 1901) / 100 + (y - 1601) / 400,
    decreases y,
{
    if y > 1970 {
        lemma_days_to_year(y - 1);
    }
}

proof fn lemma_years_grow(a: int, b: int)
    requires
        a <= b,
    ensures
        days_to_year(a) <= days_to_year(b),
    decreases b - a,
{
    if a < b {
        lemma_years_grow(a, b - 1);
    }
}

proof fn lemma_months_fill_the_year(y: int)
    ensures
        days_to_month(y, 13) == year_days(y),
{
    reveal_with_fuel(days_to_month, 13);
}

proof fn lemma_months_grow(y: int, a: int, b: int)
    requires
        a <= b,
    ensures
        days_to_month(y, a) <= days_to_month(y, b),
    decreases b - a,
{
    if a < b {
        lemma_months_grow(y, a, b - 1);
    }
}

/// Whether a year is a leap year.
pub fn is_leap(y: i32) -> (r: bool)
    ensures
        r == leap(y as int),
{
    let by_4: bool = y % 4 == 0;
    assert(by_4 == (y as int % 4 == 0));
    let by_100: bool = y % 100 == 0;
    assert(by_100 == (y as int % 100 == 0));
    let by_400: bool = y % 400 == 0;
    assert(by_400 == (y as int % 400 == 0));
    (by_4 && !by_100) || by_400
}

fn leap_year(y: u64) -> (r: bool)
    ensures
        r == leap(y as int),
{
    (y % 4 == 0 && y % 100 != 0) || y % 400 == 0
}

proof fn lemma_time_of_day(secs: int)
    requires
        secs >= 0,
    ensures
        secs == (secs / 86_400) * 86_400 + ((secs / 3_600) % 24) * 3_600 + ((secs / 60) % 60) * 60
            + secs % 60,
{
    assert(secs / 3_600 == (secs / 60) / 60);
    assert(secs / 86_400 == (secs / 3_600) / 24);
}

/// The date and the time of day, in UTC, of any number of seconds since the Unix
/// epoch.
fn civil(secs: u64) -> (r: (u64, u8, u8, u8, u8, u8))
    ensures
        civil_moment(r).valid(),
        civil_moment(r).seconds() == secs,
{
    let s: u8 = (secs % 60) as u8;
    let mi: u8 = ((secs / 60) % 60) as u8;
    let h: u8 = ((secs / 3600) % 24) as u8;
    let total: u64 = secs / 86_400;
    let mut days: u64 = total;
    let mut y: u64 = 1970;
    loop
        invariant
            y >= 1970,
            days + days_to_year(y as int) == total,
            y - 1970 + days <= total,
            total < 0x1_0000_0000_0000,
        ensures
            y >= 1970,
            days + days_to_year(y as int) == total,
            days < year_days(y as int),
        decreases days,
    {
        let dy: u64 = if leap_year(y) {
            366
        } else {
            365
        };
        if days < dy {
            break;
        }
        assert(days_to_year(y + 1) == days_to_year(y as int) + year_days(y as int));
        days = days - dy;
        y = y + 1;
    }
    let mut m: u8 = 1;
    let ghost in_year = days;
    proof {
        lemma_months_fill_the_year(y as int);
    }
    loop
        invariant
            1 <= m <= 12,
            y >= 1970,
            days + days_to_month(y as int, m as int) == in_year,
            in_year < days_to_month(y as int, 13),
        ensures
            1 <= m <= 12,
            days + days_to_month(y as int, m as int) == in_year,
            days < month_days(y as int, m as int),
        decreases 13 - m,
    {
        let md: u64 = days_of_month(y, m);
        if days < md {
            break;
        }
        proof {
            assert(days_to_month(y as int, m + 1) == days_to_month(y as int, m as int)
                + month_days(y as int, m as int));
            if m == 12 {
                assert(days_to_month(y as int, 13) == days_to_month(y as int, m + 1));
            }
        }
        days = days - md;
        m = m + 1;
    }
    let d: u8 = (days as u8) + 1;
    let r = (y, m, d, h, mi, s);
    proof {
        lemma_time_of_day(secs as int);
        assert(civil_moment(r).days() == total);
    }
    r
}

/// The date and the time of day, in UTC, of a number of seconds since the Unix
/// epoch.
pub fn unix_to_ymdhms(secs: u64) -> (r: (i32, u8, u8, u8, u8, u8))
    requires
        secs / 86_400 < DAYS_LIMIT,
    ensures
        moment(r).valid(),
        moment(r).seconds() == secs,
{
    let (y, m, d, h, mi, s) = civil(secs);
    proof {
        lemma_days_to_year(i32::MAX + 1);
        lemma_months_grow(y as int, 1, m as int);
        if y > i32::MAX {
            lemma_years_grow(i32::MAX + 1, y as int);
        }
    }
    (y as i32, m, d, h, mi, s)
}

fn days_of_month(y: u64, m: u8) -> (r: u64)
    ensures
        r == month_days(y as int, m as int),
{
    if m == 2 {
        if leap_year(y) {
            29
        } else {
            28
        }
    } else if m == 4 || m == 6 || m == 9 || m == 11 {
        30
    } else {
        31
    }
}

/// Different valid moments are different numbers of seconds: a number of seconds
/// names one moment only.
pub proof fn law_moment_is_unique(a: Moment, b: Moment)
    requires
        a.valid(),
        b.valid(),
        a.seconds() == b.seconds(),
    ensures
        a == b,
{
    let x = a.hour * 3_600 + a.minute * 60 + a.second;
    let y = b.hour * 3_600 + b.minute * 60 + b.second;
    assert(0 <= x < 86_400 && 0 <= y < 86_400);
    assert(a.days() == b.days());
    assert(a.hour == b.hour && a.minute == b.minute && a.second == b.second);
    lemma_within_year(a);
    lemma_within_year(b);
    if a.year < b.year {
        lemma_years_grow(a.year + 1, b.year);
    } else if b.year < a.year {
        lemma_years_grow(b.year + 1, a.year);
    }
    assert(a.year == b.year);
    if a.month < b.month {
        lemma_months_grow(a.year, a.month + 1, b.month);
    } else if b.month < a.month {
        lemma_months_grow(a.year, b.month + 1, a.month);
    }
}

proof fn lemma_within_year(a: Moment)
    requires
        a.valid(),
    ensures
        days_to_year(a.year) <= a.days() < days_to_year(a.year + 1),
        days_to_month(a.year, a.month) <= a.days() - days_to_year(a.year) < days_to_month(
            a.year,
            a.month + 1,
        ),
{
    lemma_months_grow(a.year, 1, a.month);
    lemma_months_grow(a.year, a.month + 1, 13);
    lemma_months_fill_the_year(a.year);
}

// ---- timestamps -------------------------------------------------------

/// A moment with its milliseconds, such as `1970-01-01T00:00:00.000Z`.
pub open spec fn stamp(t: Moment, millis: int) -> Seq<char> {
    text::padded_text(t.year as nat, 4) + "-"@ + text::padded_text(t.month as nat, 2) + "-"@
        + text::padded_text(t.day as nat, 2) + "T"@ + text::padded_text(t.hour as nat, 2) + ":"@
        + text::padded_text(t.minute as nat, 2) + ":"@ + text::padded_text(t.second as nat, 2)
        + "."@ + text::padded_text(millis as nat, 3) + "Z"@
}

/// `r` is the timestamp of a time since the Unix epoch.
pub open spec fn stamps(secs: u64, nanos: u32, r: Seq<char>) -> bool {
    exists|t: Moment| #[trigger]
        t.valid() && t.seconds() == secs && r == stamp(t, nanos as int / 1_000_000)
}

/// The timestamp of a time since the Unix epoch.
pub fn timestamp(secs: u64, nanos: u32) -> (r: String)
    ensures
        stamps(secs, nanos, r@),
{
    let (y, m, d, h, mi, s) = civil(secs);
    let mut out = text::padded(y, 4);
    out.append("-");
    out.append(text::padded(m as u64, 2).as_str());
    out.append("-");
    out.append(text::padded(d as u64, 2).as_str());
    out.append("T");
    out.append(text::padded(h as u64, 2).as_str());
    out.append(":");
    out.append(text::padded(mi as u64, 2).as_str());
    out.append(":");
    out.append(text::padded(s as u64, 2).as_str());
    out.append(".");
    out.append(text::padded((nanos / 1_000_000) as u64, 3).as_str());
    out.append("Z");
    proof {
        let t = civil_moment((y, m, d, h, mi, s));
        assert(t.valid());
        assert(out@ =~= stamp(t, nanos as int / 1_000_000));
    }
    out
}

/// `s` is the timestamp of some time since the Unix epoch.
pub open spec fn is_timestamp(s: Seq<char>) -> bool {
    exists|secs: u64, nanos: u32| #[trigger] stamps(secs, nanos, s) && nanos < 1_000_000_000
}

/// The timestamp of what the clock was read to show; that of the epoch where it
/// stands before the epoch.
pub fn timestamp_of(reading: Result<(u64, u32), String>) -> (r: String)
    ensures
        match reading {
            Ok((secs, nanos)) => stamps(secs, nanos, r@),
            Err(_) => stamps(0, 0, r@),
        },
{
    match reading {
        Ok((secs, nanos)) => timestamp(secs, nanos),
        Err(_) => timestamp(0, 0),
    }
}

/// `s` is the timestamp of a time that the clock was read to show, or that of the
/// epoch where the clock could not be read.
pub open spec fn stamps_the_clock(s: Seq<char>) -> bool {
    exists|reading: Result<(u64, u32), String>| #[trigger]
        clock::was_read(reading) && match reading {
            Ok((secs, nanos)) => stamps(secs, nanos, s),
            Err(_) => stamps(0, 0, s),
        }
}

/// The timestamp of now. Which time the clock shows is not known beforehand.
pub fn chrono_like_now() -> (r: String)
    ensures
        is_timestamp(r@),
        stamps_the_clock(r@),
{
    let reading = clock::unix_time();
    let ghost told = reading;
    let r = timestamp_of(reading);
    assert(clock::was_read(told));
    r
}

/// A timestamp is that of one moment only, to the second: where the clock can be
/// read, the timestamp of now tells a time that it showed, and no other.
pub proof fn law_timestamp_tells_the_time(s: Seq<char>)
    requires
        stamps_the_clock(s),
        forall|e: String| !#[trigger] clock::was_read(Err(e)),
    ensures
        exists|secs: u64, nanos: u32, t: Moment|
            #![trigger stamp(t, nanos as int / 1_000_000), clock::was_read(Ok((secs, nanos)))]
            {
                &&& clock::was_read(Ok((secs, nanos)))
                &&& t.valid()
                &&& t.seconds() == secs
                &&& s == stamp(t, nanos as int / 1_000_000)
            },
{
    let reading = choose|reading: Result<(u64, u32), String>| #[trigger]
        clock::was_read(reading) && match reading {
            Ok((secs, nanos)) => stamps(secs, nanos, s),
            Err(_) => stamps(0, 0, s),
        };
    match reading {
        Ok((secs, nanos)) => {
            let t = choose|t: Moment| #[trigger]
                t.valid() && t.seconds() == secs && s == stamp(t, nanos as int / 1_000_000);
            assert(s == stamp(t, nanos as int / 1_000_000));
            assert(clock::was_read(Ok((secs, nanos))));
        },
        Err(e) => {
            assert(clock::was_read(Err(e)));
        },
    }
}

/// Dates of the Gregorian calendar repeat after four hundred years, which have
/// 146,097 days: 97 of them are leap years.
pub proof fn law_calendar_repeats_after_four_centuries(y: int)
    requires
        y >= 1970,
    ensures
        days_to_year(y + 400) == days_to_year(y) + 146_097,
        leap(y + 400) == leap(y),
        leap(y) ==> year_days(y) == 366 && month_days(y, 2) == 29,
        !leap(y) ==> year_days(y) == 365 && month_days(y, 2) == 28,
        y % 4 != 0 ==> !leap(y),
{
    assert((y + 400) % 4 == y % 4);
    assert((y + 400) % 100 == y % 100);
    assert((y + 400) % 400 == y % 400);
    lemma_four_centuries(y);
}

proof fn lemma_four_centuries(y: int)
    requires
        y >= 1970,
    ensures
        days_to_year(y + 400) == days_to_year(y) + 146_097,
    decreases y,
{
    if y == 1970 {
        lemma_days_to_year(2370);
    } else {
        lemma_four_centuries(y - 1);
        let z = y - 1;
        assert((z + 400) % 4 == z % 4);
        assert((z + 400) % 100 == z % 100);
        assert((z + 400) % 400 == z % 400);
        assert(leap(z + 400) == leap(z));
        assert(days_to_year(y + 400) == days_to_year(z + 400) + year_days(z + 400));
    }
}

/// A year has twelve months, which fill it, and the day after the last of a month
/// is the first of the next.
pub proof fn law_months_fill_the_year(y: int, m: int)
    requires
        y >= 1970,
        1 <= m <= 12,
    ensures
        days_to_month(y, m) + month_days(y, m) == days_to_month(y, m + 1),
        days_to_month(y, 1) == 0,
        days_to_month(y, 13) == year_days(y),
        days_to_year(1970) == 0,
        days_to_year(y + 1) == days_to_year(y) + year_days(y),
        28 <= month_days(y, m) <= 31,
{
    lemma_months_fill_the_year(y);
}

/// The epoch is the start of 1970, and time goes on as calendar and clock say: a second
/// after the last of a minute the next minute begins, and so with hours, days, months and
/// years.
pub proof fn law_time_goes_on(y: int, m: int, d: int, h: int, mi: int, s: int)
    requires
        y >= 1970,
        1 <= m <= 12,
    ensures
        (Moment { year: 1970, month: 1, day: 1, hour: 0, minute: 0, second: 0 }).seconds() == 0,
        ({
            let at = |y: int, m: int, d: int, h: int, mi: int, s: int|
                (Moment { year: y, month: m, day: d, hour: h, minute: mi, second: s }).seconds();
            &&& at(y, m, d, h, mi, s + 1) == at(y, m, d, h, mi, s) + 1
            &&& at(y, m, d, h, mi + 1, 0) == at(y, m, d, h, mi, 59) + 1
            &&& at(y, m, d, h + 1, 0, 0) == at(y, m, d, h, 59, 59) + 1
            &&& at(y, m, d + 1, 0, 0, 0) == at(y, m, d, 23, 59, 59) + 1
            &&& m < 12 ==> at(y, m + 1, 1, 0, 0, 0) == at(y, m, month_days(y, m), 23, 59, 59) + 1
            &&& at(y + 1, 1, 1, 0, 0, 0) == at(y, 12, 31, 23, 59, 59) + 1
        }),
{
    law_months_fill_the_year(y, m);
    law_months_fill_the_year(y, 12);
    assert(days_to_month(1970, 1) == 0);
}

/// The months have their days: February has 29 in years that four divides, but for those
/// that a hundred and not four hundred divides, and 28 in all others.
pub proof fn law_months_have_their_days(y: int)
    ensures
        month_days(y, 1) == 31 && month_days(y, 3) == 31 && month_days(y, 5) == 31 && month_days(
            y,
            7,
        ) == 31 && month_days(y, 8) == 31 && month_days(y, 10) == 31 && month_days(y, 12) == 31,
        month_days(y, 4) == 30 && month_days(y, 6) == 30 && month_days(y, 9) == 30 && month_days(
            y,
            11,
        ) == 30,
        y % 4 != 0 ==> month_days(y, 2) == 28,
        y % 400 == 0 ==> month_days(y, 2) == 29,
        y % 100 == 0 && y % 400 != 0 ==> month_days(y, 2) == 28,
        y % 4 == 0 && y % 100 != 0 ==> month_days(y, 2) == 29,
{
}

/// The six numbers that a time is broken into are year, month, day, hour, minute and
/// second of the moment that many seconds after the epoch.
pub proof fn law_numbers_name_the_moment(secs: u64, r: (i32, u8, u8, u8, u8, u8))
    requires
        secs as int / 86_400 < DAYS_LIMIT,
        call_ensures(unix_to_ymdhms, (secs,), r),
    ensures
        ({
            let t = Moment {
                year: r.0 as int,
                month: r.1 as int,
                day: r.2 as int,
                hour: r.3 as int,
                minute: r.4 as int,
                second: r.5 as int,
            };
            &&& t.seconds() == secs
            &&& 1970 <= t.year && 1 <= t.month <= 12 && 1 <= t.day <= month_days(t.year, t.month)
            &&& 0 <= t.hour < 24 && 0 <= t.minute < 60 && 0 <= t.second < 60
        }),
{
}

/// The text reads as the moment with its milliseconds: four digits for the year, two for
/// month, day, hour, minute and second, three for the milliseconds, with the separators
/// between them.
pub open spec fn reads_as(s: Seq<char>, t: Moment, millis: int) -> bool {
    &&& s.len() == 24
    &&& text::number_spelled(s.subrange(0, 4)) == t.year
    &&& s[4] == '-' && text::number_spelled(s.subrange(5, 7)) == t.month
    &&& s[7] == '-' && text::number_spelled(s.subrange(8, 10)) == t.day
    &&& s[10] == 'T' && text::number_spelled(s.subrange(11, 13)) == t.hour
    &&& s[13] == ':' && text::number_spelled(s.subrange(14, 16)) == t.minute
    &&& s[16] == ':' && text::number_spelled(s.subrange(17, 19)) == t.second
    &&& s[19] == '.' && text::number_spelled(s.subrange(20, 23)) == millis
    &&& s[23] == 'Z'
}

/// A timestamp reads as the moment that it is of, as long as the year has four digits.
pub proof fn law_timestamp_reads_as_its_moment(secs: u64, nanos: u32, r: String)
    requires
        call_ensures(timestamp, (secs, nanos), r),
        nanos < 1_000_000_000,
    ensures
        exists|t: Moment| #[trigger]
            t.valid() && t.seconds() == secs && (t.year < 10_000 ==> reads_as(
                r@,
                t,
                nanos as int / 1_000_000,
            )),
{
    let millis = nanos as int / 1_000_000;
    let t = choose|t: Moment| #[trigger] t.valid() && t.seconds() == secs && r@ == stamp(t, millis);
    if t.year < 10_000 {
        lemma_stamp_reads_as(t, millis);
    }
    assert(t.valid() && t.seconds() == secs);
}

proof fn lemma_stamp_reads_as(t: Moment, millis: int)
    requires
        t.valid(),
        t.year < 10_000,
        0 <= millis < 1_000,
    ensures
        reads_as(stamp(t, millis), t, millis),
{
    lemma_padded(t.year as nat, 4);
    lemma_padded(t.month as nat, 2);
    lemma_padded(t.day as nat, 2);
    lemma_padded(t.hour as nat, 2);
    lemma_padded(t.minute as nat, 2);
    lemma_padded(t.second as nat, 2);
    lemma_padded(millis as nat, 3);
    reveal_strlit("-");
    reveal_strlit("T");
    reveal_strlit(":");
    reveal_strlit(".");
    reveal_strlit("Z");
    let s = stamp(t, millis);
    assert(s.subrange(0, 4) =~= text::padded_text(t.year as nat, 4));
    assert(s.subrange(5, 7) =~= text::padded_text(t.month as nat, 2));
    assert(s.subrange(8, 10) =~= text::padded_text(t.day as nat, 2));
    assert(s.subrange(11, 13) =~= text::padded_text(t.hour as nat, 2));
    assert(s.subrange(14, 16) =~= text::padded_text(t.minute as nat, 2));
    assert(s.subrange(17, 19) =~= text::padded_text(t.second as nat, 2));
    assert(s.subrange(20, 23) =~= text::padded_text(millis as nat, 3));
}

proof fn lemma_padded(n: nat, width: nat)
    requires
        width == 2 && n < 100 || width == 3 && n < 1_000 || width == 4 && n < 10_000,
    ensures
        text::padded_text(n, width).len() == width,
        text::number_spelled(text::padded_text(n, width)) == n,
{
    text::law_small_numbers_have_few_digits(n);
    text::law_padded_number_spells_the_number(n, width);
    text::law_padding_puts_zeros_in_front(n, width);
}

/// A clock that cannot be read is taken to show the epoch.
pub proof fn law_unread_clock_stamps_the_epoch(e: String, r: String)
    requires
        call_ensures(timestamp_of, (Err::<(u64, u32), String>(e),), r),
    ensures
        reads_as(
            r@,
            Moment { year: 1970, month: 1, day: 1, hour: 0, minute: 0, second: 0 },
            0,
        ),
{
    let epoch = Moment { year: 1970, month: 1, day: 1, hour: 0, minute: 0, second: 0 };
    law_time_goes_on(1970, 1, 1, 0, 0, 0);
    assert(epoch.valid() && epoch.seconds() == 0);
    let t = choose|t: Moment| #[trigger]
        t.valid() && t.seconds() == 0 && r@ == stamp(t, 0u32 as int / 1_000_000);
    law_moment_is_unique(t, epoch);
    lemma_stamp_reads_as(epoch, 0);
}

} // verus!
