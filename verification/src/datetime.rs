//! Calendar values of a capture time, held as plain numbers.
use vstd::prelude::*;

verus! {

/// The earliest year a calendar date can have.
pub const MIN_YEAR: i32 = -262143;

/// The latest year a calendar date can have.
pub const MAX_YEAR: i32 = 262142;

/// Whether `year` is a leap year of the proleptic Gregorian calendar.
pub open spec fn is_leap_year(year: int) -> bool {
    (year % 4 == 0 && year % 100 != 0) || year % 400 == 0
}

/// The number of days of `month` (1 to 12) in `year`.
pub open spec fn days_in_month(year: int, month: int) -> int {
    if month == 2 {
        if is_leap_year(year) { 29 } else { 28 }
    } else if month == 4 || month == 6 || month == 9 || month == 11 {
        30
    } else {
        31
    }
}

/// A calendar day.
#[derive(Debug, Clone, Copy, PartialEq, Eq, Structural)]
pub struct CaptureDate {
    pub year: i32,
    pub month: u32,
    pub day: u32,
}

impl CaptureDate {
    /// A day that exists in the supported range of years.
    pub open spec fn wf(self) -> bool {
        &&& MIN_YEAR <= self.year <= MAX_YEAR
        &&& 1 <= self.month <= 12
        &&& 1 <= self.day <= days_in_month(self.year as int, self.month as int)
    }

    /// Whether the day exists in the supported range of years.
    pub fn is_valid(&self) -> (r: bool)
        ensures
            r == self.wf(),
    {
        if self.year < MIN_YEAR || self.year > MAX_YEAR || self.month < 1 || self.month > 12 || self.day < 1 {
            return false;
        }
        self.day <= month_length(self.year, self.month)
    }

    /// The day of a year, month and day, if it exists in the supported range
    /// of years.
    pub fn from_ymd(year: i32, month: u32, day: u32) -> (r: Option<CaptureDate>)
        ensures
            match r {
                Some(d) => d == (CaptureDate { year, month, day }) && d.wf(),
                None => !(CaptureDate { year, month, day }).wf(),
            },
    {
        let d = CaptureDate { year, month, day };
        if d.is_valid() {
            Some(d)
        } else {
            None
        }
    }
}

/// The law of the calendar: January, March, May, July, August, October and
/// December have 31 days; April, June, September and November 30; February
/// 29 in a leap year and 28 otherwise; a year has 366 days when it is a leap
/// year and 365 otherwise.
pub proof fn law_month_lengths(year: int)
    ensures
        days_in_month(year, 1) == 31,
        days_in_month(year, 2) == if is_leap_year(year) { 29int } else { 28int },
        days_in_month(year, 3) == 31,
        days_in_month(year, 4) == 30,
        days_in_month(year, 5) == 31,
        days_in_month(year, 6) == 30,
        days_in_month(year, 7) == 31,
        days_in_month(year, 8) == 31,
        days_in_month(year, 9) == 30,
        days_in_month(year, 10) == 31,
        days_in_month(year, 11) == 30,
        days_in_month(year, 12) == 31,
        days_in_month(year, 1) + days_in_month(year, 2) + days_in_month(year, 3) + days_in_month(year, 4)
            + days_in_month(year, 5) + days_in_month(year, 6) + days_in_month(year, 7) + days_in_month(year, 8)
            + days_in_month(year, 9) + days_in_month(year, 10) + days_in_month(year, 11) + days_in_month(year, 12)
            == if is_leap_year(year) { 366int } else { 365int },
{
}

/// The law of leap years: a year is a leap year when four divides it, except
/// the years a hundred divides and four hundred does not.
pub proof fn law_leap_years(year: int)
    ensures
        is_leap_year(year) <==> (year % 4 == 0 && !(year % 100 == 0 && year % 400 != 0)),
{
}

/// The law of valid dates: a date is valid exactly when its year is in the
/// supported range and its day exists in its month of the Gregorian calendar.
pub proof fn law_valid_dates(year: i32, month: u32, day: u32)
    ensures
        (CaptureDate { year, month, day }).wf() <==> {
            &&& MIN_YEAR <= year <= MAX_YEAR
            &&& 1 <= month <= 12
            &&& 1 <= day
            &&& day <= seq![31int, if is_leap_year(year as int) { 29int } else { 28int }, 31int, 30int, 31int, 30int, 31int, 31int, 30int, 31int, 30int, 31int][month - 1]
        },
{
    law_month_lengths(year as int);
}

/// The number of days of a month of a year in the supported range.
fn month_length(year: i32, month: u32) -> (r: u32)
    requires
        MIN_YEAR <= year <= MAX_YEAR,
        1 <= month <= 12,
    ensures
        r == days_in_month(year as int, month as int),
{
    if month == 2 {
        let shifted = (year as i64 + 400000) as u64;
        assert(shifted == year + 400000);
        assert(shifted % 4 == year % 4);
        assert(shifted % 100 == year % 100);
        assert(shifted % 400 == year % 400);
        if (shifted % 4 == 0 && shifted % 100 != 0) || shifted % 400 == 0 {
            29
        } else {
            28
        }
    } else if month == 4 || month == 6 || month == 9 || month == 11 {
        30
    } else {
        31
    }
}

/// The character of a decimal digit.
pub open spec fn digit_char(d: nat) -> char {
    (48 + d) as char
}

/// The decimal digits of a number, without leading zeros.
pub open spec fn decimal_text(n: nat) -> Seq<char>
    decreases n,
{
    if n < 10 {
        seq![digit_char(n)]
    } else {
        decimal_text(n / 10).push(digit_char(n % 10))
    }
}

/// The text of an integer as `Display` writes it: a minus sign for a
/// negative number, then its decimal digits.
pub open spec fn integer_text(i: int) -> Seq<char> {
    if i < 0 {
        seq!['-'] + decimal_text((-i) as nat)
    } else {
        decimal_text(i as nat)
    }
}

/// The decimal digits of a number, left-padded with zeros to `width`.
pub open spec fn padded_text(n: nat, width: nat) -> Seq<char> {
    let d = decimal_text(n);
    if d.len() < width {
        Seq::new((width - d.len()) as nat, |i: int| '0') + d
    } else {
        d
    }
}

/// The text of a digit.
fn digit_text(d: u64) -> (r: &'static str)
    requires
        d < 10,
    ensures
        r@ == seq![digit_char(d as nat)],
{
    proof {
        reveal_strlit("0");
        reveal_strlit("1");
        reveal_strlit("2");
        reveal_strlit("3");
        reveal_strlit("4");
        reveal_strlit("5");
        reveal_strlit("6");
        reveal_strlit("7");
        reveal_strlit("8");
        reveal_strlit("9");
    }
    let r = if d == 0 {
        "0"
    } else if d == 1 {
        "1"
    } else if d == 2 {
        "2"
    } else if d == 3 {
        "3"
    } else if d == 4 {
        "4"
    } else if d == 5 {
        "5"
    } else if d == 6 {
        "6"
    } else if d == 7 {
        "7"
    } else if d == 8 {
        "8"
    } else {
        "9"
    };
    assert(r@ =~= seq![digit_char(d as nat)]);
    r
}

/// Appends the decimal digits of `n`.
fn push_decimal(text: &mut String, n: u64)
    ensures
        final(text)@ == old(text)@ + decimal_text(n as nat),
    decreases n,
{
    if n >= 10 {
        push_decimal(text, n / 10);
    }
    text.append(digit_text(n % 10));
    assert(decimal_text(n as nat) == if n < 10 {
        seq![digit_char(n as nat)]
    } else {
        decimal_text((n / 10) as nat).push(digit_char((n % 10) as nat))
    });
}

/// The text of an integer as `Display` writes it.
pub fn integer_to_text(i: i32) -> (r: String)
    ensures
        r@ == integer_text(i as int),
{
    let mut text = String::new();
    if i < 0 {
        proof {
            reveal_strlit("-");
        }
        text.append("-");
        push_decimal(&mut text, (-(i as i64)) as u64);
        assert(text@ =~= seq!['-'] + decimal_text((-i) as nat));
    } else {
        push_decimal(&mut text, i as u64);
        assert(text@ =~= decimal_text(i as nat));
    }
    text
}

/// A wall-clock capture time without time zone, as the camera wrote it.
#[derive(Debug, Clone, Copy, PartialEq, Eq, Structural)]
pub struct CaptureTime {
    pub year: i32,
    pub month: u32,
    pub day: u32,
    pub hour: u32,
    pub minute: u32,
    pub second: u32,
    pub nanosecond: u32,
}

impl CaptureTime {
    /// The calendar day of the capture time.
    pub open spec fn spec_date(self) -> CaptureDate {
        CaptureDate { year: self.year, month: self.month, day: self.day }
    }

    /// The calendar day of the capture time.
    pub fn date(&self) -> (d: CaptureDate)
        ensures
            d == self.spec_date(),
    {
        CaptureDate { year: self.year, month: self.month, day: self.day }
    }
}

} // verus!
