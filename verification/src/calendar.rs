//! Calendar dates of the statistics snapshots (proleptic Gregorian, the
//! range that chrono's `NaiveDate` covers), their order, the day before and
//! after, and their `YYYY-MM-DD` text.

use vstd::prelude::*;

use chrono::Datelike;

verus! {

/// Earliest year a date may have (the first year chrono's `NaiveDate` holds).
pub const MIN_YEAR: i32 = -262143;

/// Latest year a date may have (the last year chrono's `NaiveDate` holds).
pub const MAX_YEAR: i32 = 262142;

/// Leap years of the proleptic Gregorian calendar.
pub open spec fn is_leap_year(year: int) -> bool {
    year % 4 == 0 && (year % 100 != 0 || year % 400 == 0)
}

/// Number of days of a month (1 to 12) of a year.
pub open spec fn days_in_month(year: int, month: int) -> int {
    if month == 2 {
        if is_leap_year(year) {
            29
        } else {
            28
        }
    } else if month == 4 || month == 6 || month == 9 || month == 11 {
        30
    } else {
        31
    }
}

/// A (year, month, day) triple names an existing day in the supported range.
pub open spec fn is_valid_ymd(ymd: (int, int, int)) -> bool {
    &&& MIN_YEAR <= ymd.0 <= MAX_YEAR
    &&& 1 <= ymd.1 <= 12
    &&& 1 <= ymd.2 <= days_in_month(ymd.0, ymd.1)
}

/// Strict chronological order of two days: by year, then month, then day.
pub open spec fn ymd_before(a: (int, int, int), b: (int, int, int)) -> bool {
    ||| a.0 < b.0
    ||| a.0 == b.0 && a.1 < b.1
    ||| a.0 == b.0 && a.1 == b.1 && a.2 < b.2
}

/// Chronological order, allowing the same day.
pub open spec fn ymd_not_after(a: (int, int, int), b: (int, int, int)) -> bool {
    ymd_before(a, b) || a == b
}

/// The calendar day after a valid day.
pub open spec fn ymd_successor(ymd: (int, int, int)) -> (int, int, int) {
    if ymd.2 < days_in_month(ymd.0, ymd.1) {
        (ymd.0, ymd.1, ymd.2 + 1)
    } else if ymd.1 < 12 {
        (ymd.0, ymd.1 + 1, 1)
    } else {
        (ymd.0 + 1, 1, 1)
    }
}

/// The calendar day before a valid day.
pub open spec fn ymd_predecessor(ymd: (int, int, int)) -> (int, int, int) {
    if ymd.2 > 1 {
        (ymd.0, ymd.1, ymd.2 - 1)
    } else if ymd.1 > 1 {
        (ymd.0, ymd.1 - 1, days_in_month(ymd.0, ymd.1 - 1))
    } else {
        (ymd.0 - 1, 12, 31)
    }
}

/// The first and the last supported day.
pub open spec fn first_supported_day() -> (int, int, int) {
    (MIN_YEAR as int, 1, 1)
}

pub open spec fn last_supported_day() -> (int, int, int) {
    (MAX_YEAR as int, 12, 31)
}

/// The character of a decimal digit.
pub open spec fn digit_char(d: int) -> char {
    if d == 0 {
        '0'
    } else if d == 1 {
        '1'
    } else if d == 2 {
        '2'
    } else if d == 3 {
        '3'
    } else if d == 4 {
        '4'
    } else if d == 5 {
        '5'
    } else if d == 6 {
        '6'
    } else if d == 7 {
        '7'
    } else if d == 8 {
        '8'
    } else {
        '9'
    }
}

/// Decimal digits of a natural number, without leading zeros.
pub open spec fn decimal_text(n: nat) -> Seq<char>
    decreases n,
{
    if n < 10 {
        seq![digit_char(n as int)]
    } else {
        decimal_text(n / 10).push(digit_char((n % 10) as int))
    }
}

/// Decimal digits of a natural number, left-padded with zeros to `width`.
pub open spec fn zero_padded(n: nat, width: nat) -> Seq<char> {
    let digits = decimal_text(n);
    if digits.len() < width {
        Seq::new((width - digits.len()) as nat, |i: int| '0') + digits
    } else {
        digits
    }
}

/// The year as chrono's `%Y` writes it: four digits for years 0 to 9999,
/// otherwise a sign followed by at least four digits.
pub open spec fn year_text(year: int) -> Seq<char> {
    if 0 <= year < 10000 {
        zero_padded(year as nat, 4)
    } else if year < 0 {
        seq!['-'] + zero_padded((-year) as nat, 4)
    } else {
        seq!['+'] + zero_padded(year as nat, 4)
    }
}

/// A day written as `%Y-%m-%d`.
pub open spec fn iso_date_text(ymd: (int, int, int)) -> Seq<char> {
    year_text(ymd.0) + seq!['-'] + zero_padded(ymd.1 as nat, 2) + seq!['-'] + zero_padded(
        ymd.2 as nat,
        2,
    )
}

/// What chrono's `NaiveDate::parse_from_str(text, "%Y-%m-%d")` reads from a
/// text, as (year, month, day), or `None` where it reports an error.
pub uninterp spec fn chrono_parsed_date(text: Seq<char>) -> Option<(int, int, int)>;

/// chrono's error for a text that does not hold a date.
#[verifier::external_type_specification]
#[verifier::external_body]
pub struct ExChronoParseError(chrono::ParseError);

/// A calendar day in the range chrono's `NaiveDate` covers.
#[derive(Clone, Copy, Debug, PartialEq, Eq, Hash, Structural)]
pub struct SnapshotDate {
    year: i32,
    month: u32,
    day: u32,
}

impl View for SnapshotDate {
    type V = (int, int, int);

    closed spec fn view(&self) -> (int, int, int) {
        (self.year as int, self.month as int, self.day as int)
    }
}

/// Whether a year is a leap year, computed on a shifted year so that only
/// unsigned remainders are needed (the shift is a multiple of 400).
fn leap_year(year: i32) -> (leap: bool)
    requires
        MIN_YEAR <= year <= MAX_YEAR,
    ensures
        leap == is_leap_year(year as int),
{
    let shifted: u32 = (year + 400000) as u32;
    assert(shifted % 4 == (year as int) % 4);
    assert(shifted % 100 == (year as int) % 100);
    assert(shifted % 400 == (year as int) % 400);
    shifted % 4 == 0 && (shifted % 100 != 0 || shifted % 400 == 0)
}

fn month_length(year: i32, month: u32) -> (days: u32)
    requires
        MIN_YEAR <= year <= MAX_YEAR,
    ensures
        days as int == days_in_month(year as int, month as int),
{
    if month == 2 {
        if leap_year(year) {
            29
        } else {
            28
        }
    } else if month == 4 || month == 6 || month == 9 || month == 11 {
        30
    } else {
        31
    }
}

impl SnapshotDate {
    #[verifier::type_invariant]
    pub open spec fn is_valid(self) -> bool {
        is_valid_ymd(self@)
    }

    /// The date of a (year, month, day) triple, or `None` where no such day
    /// exists in the supported range.
    pub fn from_ymd(year: i32, month: u32, day: u32) -> (date: Option<SnapshotDate>)
        ensures
            date is Some <==> is_valid_ymd((year as int, month as int, day as int)),
            date matches Some(d) ==> d@ == (year as int, month as int, day as int),
    {
        if year < MIN_YEAR || year > MAX_YEAR || month < 1 || month > 12 || day < 1 {
            return None;
        }
        if day > month_length(year, month) {
            return None;
        }
        Some(SnapshotDate { year, month, day })
    }

    pub fn year(&self) -> (year: i32)
        ensures
            year as int == self@.0,
    {
        self.year
    }

    pub fn month(&self) -> (month: u32)
        ensures
            month as int == self@.1,
    {
        self.month
    }

    pub fn day(&self) -> (day: u32)
        ensures
            day as int == self@.2,
    {
        self.day
    }

    /// Whether this day comes strictly before `other`.
    pub fn is_before(&self, other: &SnapshotDate) -> (before: bool)
        ensures
            before == ymd_before(self@, other@),
    {
        self.year < other.year || (self.year == other.year && self.month < other.month) || (
        self.year == other.year && self.month == other.month && self.day < other.day)
    }

    /// Whether both values name the same day.
    pub fn is_same_day(&self, other: &SnapshotDate) -> (same: bool)
        ensures
            same == (self@ == other@),
    {
        self.year == other.year && self.month == other.month && self.day == other.day
    }

    /// The following day, or `None` after the last supported day.
    pub fn next_day(&self) -> (next: Option<SnapshotDate>)
        ensures
            next is None <==> self@ == last_supported_day(),
            next matches Some(n) ==> n@ == ymd_successor(self@),
    {
        proof {
            use_type_invariant(self);
        }
        let length = month_length(self.year, self.month);
        if self.day < length {
            Some(SnapshotDate { year: self.year, month: self.month, day: self.day + 1 })
        } else if self.month < 12 {
            Some(SnapshotDate { year: self.year, month: self.month + 1, day: 1 })
        } else if self.year < MAX_YEAR {
            Some(SnapshotDate { year: self.year + 1, month: 1, day: 1 })
        } else {
            None
        }
    }

    /// The preceding day, or `None` before the first supported day.
    pub fn previous_day(&self) -> (previous: Option<SnapshotDate>)
        ensures
            previous is None <==> self@ == first_supported_day(),
            previous matches Some(p) ==> p@ == ymd_predecessor(self@),
    {
        proof {
            use_type_invariant(self);
        }
        if self.day > 1 {
            Some(SnapshotDate { year: self.year, month: self.month, day: self.day - 1 })
        } else if self.month > 1 {
            let length = month_length(self.year, self.month - 1);
            Some(SnapshotDate { year: self.year, month: self.month - 1, day: length })
        } else if self.year > MIN_YEAR {
            Some(SnapshotDate { year: self.year - 1, month: 12, day: 31 })
        } else {
            None
        }
    }
}

/// The day after a valid day (other than the last one) is valid and later,
/// and the day before it is the day itself: moving forward one day is
/// undone by moving back one day.
pub proof fn lemma_successor_then_predecessor(day: (int, int, int))
    requires
        is_valid_ymd(day),
        day != last_supported_day(),
    ensures
        is_valid_ymd(ymd_successor(day)),
        ymd_before(day, ymd_successor(day)),
        ymd_predecessor(ymd_successor(day)) == day,
{
}

/// The day before a valid day (other than the first one) is valid and
/// earlier, and the day after it is the day itself.
pub proof fn lemma_predecessor_then_successor(day: (int, int, int))
    requires
        is_valid_ymd(day),
        day != first_supported_day(),
    ensures
        is_valid_ymd(ymd_predecessor(day)),
        ymd_before(ymd_predecessor(day), day),
        ymd_successor(ymd_predecessor(day)) == day,
{
}

/// No valid day lies strictly between a day and the day after it.
pub proof fn lemma_successor_is_next(day: (int, int, int), other: (int, int, int))
    requires
        is_valid_ymd(day),
        is_valid_ymd(other),
        ymd_before(day, other),
    ensures
        ymd_not_after(ymd_successor(day), other),
{
}

/// The number of days of a year, month by month.
pub open spec fn year_length(year: int) -> int {
    days_in_month(year, 1) + days_in_month(year, 2) + days_in_month(year, 3) + days_in_month(
        year,
        4,
    ) + days_in_month(year, 5) + days_in_month(year, 6) + days_in_month(year, 7) + days_in_month(
        year,
        8,
    ) + days_in_month(year, 9) + days_in_month(year, 10) + days_in_month(year, 11)
        + days_in_month(year, 12)
}

/// Dates follow the Gregorian calendar: January, March, May, July, August,
/// October and December end on the 31st; April, June, September and
/// November on the 30th; February on the 29th in leap years (years divisible
/// by 4 but not by 100, or by 400) and on the 28th otherwise; a year has 366
/// days in leap years and 365 otherwise.
pub proof fn lemma_gregorian_month_lengths(year: int)
    requires
        MIN_YEAR <= year <= MAX_YEAR,
    ensures
        forall|month: int|
            (month == 1 || month == 3 || month == 5 || month == 7 || month == 8 || month == 10
                || month == 12) ==> #[trigger] is_valid_ymd((year, month, 31)) && !is_valid_ymd(
                (year, month, 32),
            ),
        forall|month: int|
            (month == 4 || month == 6 || month == 9 || month == 11) ==> #[trigger] is_valid_ymd(
                (year, month, 30),
            ) && !is_valid_ymd((year, month, 31)),
        is_valid_ymd((year, 2, 28)),
        !is_valid_ymd((year, 2, 30)),
        is_valid_ymd((year, 2, 29)) <==> (year % 4 == 0 && (year % 100 != 0 || year % 400 == 0)),
        year_length(year) == if year % 4 == 0 && (year % 100 != 0 || year % 400 == 0) {
            366int
        } else {
            365int
        },
        !is_valid_ymd((year, 0, 1)),
        !is_valid_ymd((year, 13, 1)),
        forall|month: int| 1 <= month <= 12 ==> !#[trigger] is_valid_ymd((year, month, 0)),
{
}

/// The text chrono writes for a day with the format `%Y-%m-%d`
/// (`NaiveDate::format(..).to_string()`); the contract states that text in
/// full, as chrono's `%Y`, `%m` and `%d` write it.
#[verifier::external_body]
pub(crate) fn format_iso_date(date: SnapshotDate) -> (text: String)
    ensures
        text@ == iso_date_text(date@),
{
    chrono::NaiveDate::from_ymd_opt(date.year, date.month, date.day).unwrap().format(
        "%Y-%m-%d",
    ).to_string()
}

/// Reads a day from a text with chrono's
/// `NaiveDate::parse_from_str(text, "%Y-%m-%d")`; what it accepts is left to
/// chrono and only named here.
#[verifier::external_body]
pub(crate) fn parse_iso_date(text: &str) -> (parsed: Result<SnapshotDate, chrono::ParseError>)
    ensures
        parsed is Ok <==> chrono_parsed_date(text@) is Some,
        parsed matches Ok(d) ==> chrono_parsed_date(text@) == Some(d@),
{
    match chrono::NaiveDate::parse_from_str(text, "%Y-%m-%d") {
        Ok(d) => Ok(SnapshotDate { year: d.year(), month: d.month(), day: d.day() }),
        Err(e) => Err(e),
    }
}

} // verus!
