use vstd::prelude::*;
use chrono::Datelike;
use chrono::NaiveDate;
use crate::error::ScheduleError;

verus! {

/// The earliest year that a date can have.
pub const MIN_YEAR: i32 = -262143;

/// The latest year that a date can have.
pub const MAX_YEAR: i32 = 262142;

/// A civil date of the proleptic Gregorian calendar, with no time of day.
#[derive(Clone, Copy, Debug, PartialEq, Eq, Structural)]
pub struct CalendarDate {
    pub year: i32,
    pub month: u32,
    pub day: u32,
}

/// The Gregorian leap-year rule.
pub open spec fn is_leap_year(year: int) -> bool {
    (year % 4 == 0 && year % 100 != 0) || year % 400 == 0
}

pub open spec fn days_in_month(year: int, month: int) -> int {
    if month == 2 {
        if is_leap_year(year) { 29 } else { 28 }
    } else if month == 4 || month == 6 || month == 9 || month == 11 {
        30
    } else {
        31
    }
}

/// A year, month and day that name an existing day within the year range.
pub open spec fn valid_ymd(year: int, month: int, day: int) -> bool {
    &&& MIN_YEAR <= year <= MAX_YEAR
    &&& 1 <= month <= 12
    &&& 1 <= day <= days_in_month(year, month)
}

impl CalendarDate {
    /// The date names an existing day.
    pub open spec fn wf(&self) -> bool {
        valid_ymd(self.year as int, self.month as int, self.day as int)
    }

    /// Builds a date, or `None` where the triple names no day.
    pub fn from_ymd_opt(year: i32, month: u32, day: u32) -> (r: Option<CalendarDate>)
        ensures
            valid_ymd(year as int, month as int, day as int) <==> r is Some,
            r matches Some(d) ==> d.wf() && d == (CalendarDate { year, month, day }),
    {
        if ymd_exists(year, month, day) {
            Some(CalendarDate { year, month, day })
        } else {
            None
        }
    }
}

/// The day after `d`, or `None` where `d` is the last day of the range.
pub open spec fn next_date(d: CalendarDate) -> Option<CalendarDate> {
    if (d.day as int) < days_in_month(d.year as int, d.month as int) {
        Some(CalendarDate { year: d.year, month: d.month, day: (d.day + 1) as u32 })
    } else if d.month < 12 {
        Some(CalendarDate { year: d.year, month: (d.month + 1) as u32, day: 1 })
    } else if d.year < MAX_YEAR {
        Some(CalendarDate { year: (d.year + 1) as i32, month: 1, day: 1 })
    } else {
        None
    }
}

/// Relies on chrono's NaiveDate::from_ymd_opt: `Some` exactly for an existing
/// day of the proleptic Gregorian calendar within its year range.
#[verifier::external_body]
fn ymd_exists(year: i32, month: u32, day: u32) -> (r: bool)
    ensures
        r == valid_ymd(year as int, month as int, day as int),
{
    NaiveDate::from_ymd_opt(year, month, day).is_some()
}

/// Relies on chrono's NaiveDate::succ_opt: the following calendar day, or
/// `None` after the last representable day.
#[verifier::external_body]
pub(crate) fn following_day(d: CalendarDate) -> (r: Option<CalendarDate>)
    requires
        d.wf(),
    ensures
        r == next_date(d),
{
    let n = NaiveDate::from_ymd_opt(d.year, d.month, d.day).unwrap();
    match n.succ_opt() {
        Some(t) => Some(CalendarDate { year: t.year(), month: t.month(), day: t.day() }),
        None => None,
    }
}

/// The value of a base-36 digit, either letter case.
pub open spec fn digit36(c: char) -> Option<nat> {
    if '0' <= c <= '9' {
        Some((c as nat - '0' as nat) as nat)
    } else if 'a' <= c <= 'z' {
        Some((c as nat - 'a' as nat + 10) as nat)
    } else if 'A' <= c <= 'Z' {
        Some((c as nat - 'A' as nat + 10) as nat)
    } else {
        None
    }
}

pub open spec fn is_base36(s: Seq<char>) -> bool {
    forall|i: int| 0 <= i < s.len() ==> (#[trigger] digit36(s[i])) is Some
}

/// The number that a string of base-36 digits writes, most significant first.
pub open spec fn base36_value(s: Seq<char>) -> nat
    decreases s.len(),
{
    if s.len() == 0 {
        0
    } else {
        base36_value(s.drop_last()) * 36 + digit36(s.last()).unwrap_or(0)
    }
}

/// What a date code stands for: its base-36 value written in decimal must
/// read `yymmdd`, a day of the years 2000 to 2099.
pub open spec fn decoded_date(code: Seq<char>) -> Result<CalendarDate, ScheduleError> {
    if !is_base36(code) {
        Err(ScheduleError::InvalidRadixDigit)
    } else {
        let v: int = base36_value(code) as int;
        if v < 100000 || v > 999999 {
            Err(ScheduleError::InvalidDateEncoding)
        } else {
            let year: int = 2000 + v / 10000;
            let month: int = (v / 100) % 100;
            let day: int = v % 100;
            if valid_ymd(year, month, day) {
                Ok(CalendarDate { year: year as i32, month: month as u32, day: day as u32 })
            } else {
                Err(ScheduleError::InvalidCalendarDate)
            }
        }
    }
}

/// Decoding depends on the code alone: equal codes give the same date or the
/// same error.
pub proof fn lemma_decode_date_deterministic(a: Seq<char>, b: Seq<char>)
    requires
        a == b,
    ensures
        decoded_date(a) == decoded_date(b),
{
}

fn digit_value(c: char) -> (r: Option<u64>)
    ensures
        r matches Some(v) ==> digit36(c) == Some(v as nat),
        r is None ==> digit36(c) is None,
{
    if '0' <= c && c <= '9' {
        Some((c as u64) - ('0' as u64))
    } else if 'a' <= c && c <= 'z' {
        Some((c as u64) - ('a' as u64) + 10)
    } else if 'A' <= c && c <= 'Z' {
        Some((c as u64) - ('A' as u64) + 10)
    } else {
        None
    }
}

/// Decodes a base-36 date code into the date it names.
pub fn decode_date(coded_date: String) -> (r: Result<CalendarDate, ScheduleError>)
    ensures
        r == decoded_date(coded_date@),
        r matches Ok(d) ==> d.wf(),
{
    let s = coded_date.as_str();
    let n = s.unicode_len();
    let mut value: u64 = 0;
    let mut too_large = false;
    let mut i: usize = 0;
    while i < n
        invariant
            n == s@.len(),
            s@ == coded_date@,
            0 <= i <= n,
            is_base36(s@.take(i as int)),
            !too_large ==> value as nat == base36_value(s@.take(i as int)) && value <= 999999,
            too_large ==> base36_value(s@.take(i as int)) > 999999,
        decreases n - i,
    {
        let c = s.get_char(i);
        let ghost prefix = s@.take(i as int);
        assert(s@.take(i + 1).drop_last() =~= prefix);
        match digit_value(c) {
            None => {
                assert(!is_base36(s@)) by {
                    assert(digit36(s@[i as int]) is None);
                }
                return Err(ScheduleError::InvalidRadixDigit);
            },
            Some(d) => {
                assert(is_base36(s@.take(i + 1))) by {
                    assert forall|j: int| 0 <= j < i + 1 implies (#[trigger] digit36(s@.take(i + 1)[j])) is Some by {
                        if j < i {
                            assert(s@.take(i + 1)[j] == prefix[j]);
                        }
                    }
                }
                if !too_large {
                    value = value * 36 + d;
                    if value > 999999 {
                        too_large = true;
                    }
                }
            },
        }
        i = i + 1;
    }
    assert(s@.take(n as int) =~= s@);
    if too_large || value < 100000 {
        return Err(ScheduleError::InvalidDateEncoding);
    }
    let year = (2000 + value / 10000) as i32;
    let month = ((value / 100) % 100) as u32;
    let day = (value % 100) as u32;
    match CalendarDate::from_ymd_opt(year, month, day) {
        Some(d) => Ok(d),
        None => Err(ScheduleError::InvalidCalendarDate),
    }
}

} // verus!
