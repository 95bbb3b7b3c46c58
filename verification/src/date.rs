//! Calendar dates, and the German date line that heads a day's menu.
use chrono::Datelike;
use vstd::prelude::*;

verus! {

/// Whether `y` is a leap year of the proleptic Gregorian calendar.
pub open spec fn is_leap_year(y: int) -> bool {
    (y % 4 == 0 && y % 100 != 0) || y % 400 == 0
}

/// The number of days of month `m` of year `y`.
pub open spec fn days_in_month(y: int, m: int) -> int {
    if m == 2 {
        if is_leap_year(y) {
            29
        } else {
            28
        }
    } else if m == 4 || m == 6 || m == 9 || m == 11 {
        30
    } else {
        31
    }
}

/// Whether `y-m-d` is a day that chrono's `NaiveDate` can hold: a real day of a year
/// from -262143 to 262142.
pub open spec fn valid_ymd(y: i32, m: u32, d: u32) -> bool {
    &&& -262143 <= y <= 262142
    &&& 1 <= m <= 12
    &&& 1 <= d <= days_in_month(y as int, m as int)
}

/// The number of days from 1970-01-01 to `y-m-d` in the proleptic Gregorian calendar.
pub open spec fn days_from_epoch(y: int, m: int, d: int) -> int {
    let yy = if m <= 2 {
        y - 1
    } else {
        y
    };
    let era = yy / 400;
    let year_of_era = yy - era * 400;
    let shifted_month = if m > 2 {
        m - 3
    } else {
        m + 9
    };
    let day_of_year = (153 * shifted_month + 2) / 5 + d - 1;
    let day_of_era = year_of_era * 365 + year_of_era / 4 - year_of_era / 100 + day_of_year;
    era * 146097 + day_of_era - 719468
}

/// The day of the week of `y-m-d`, counted from Monday as 0 to Sunday as 6
/// (1970-01-01 was a Thursday).
pub open spec fn weekday_from_monday(y: int, m: int, d: int) -> int {
    (days_from_epoch(y, m, d) + 3) % 7
}

/// The decimal digit for `n` (below ten).
pub open spec fn digit_char(n: nat) -> char {
    if n == 0 {
        '0'
    } else if n == 1 {
        '1'
    } else if n == 2 {
        '2'
    } else if n == 3 {
        '3'
    } else if n == 4 {
        '4'
    } else if n == 5 {
        '5'
    } else if n == 6 {
        '6'
    } else if n == 7 {
        '7'
    } else if n == 8 {
        '8'
    } else {
        '9'
    }
}

/// The decimal digits of `n`, without leading zeros.
pub open spec fn decimal(n: nat) -> Seq<char>
    decreases n,
{
    if n < 10 {
        seq![digit_char(n)]
    } else {
        decimal(n / 10) + seq![digit_char(n % 10)]
    }
}

/// `s` with zeros put in front up to `width` characters.
pub open spec fn zero_padded(s: Seq<char>, width: nat) -> Seq<char> {
    if s.len() < width {
        Seq::new((width - s.len()) as nat, |i: int| '0') + s
    } else {
        s
    }
}

/// The year as chrono's `%Y` writes it: four digits at least, with a sign outside 0 to 9999.
pub open spec fn year_text(y: int) -> Seq<char> {
    if 0 <= y <= 9999 {
        zero_padded(decimal(y as nat), 4)
    } else if y < 0 {
        seq!['-'] + zero_padded(decimal((-y) as nat), 4)
    } else {
        seq!['+'] + zero_padded(decimal(y as nat), 4)
    }
}

/// The date as chrono's format `%d.%m.%Y` writes it, e.g. `05.03.2024`.
pub open spec fn day_month_year_text(y: int, m: nat, d: nat) -> Seq<char> {
    zero_padded(decimal(d), 2) + seq!['.'] + zero_padded(decimal(m), 2) + seq!['.'] + year_text(y)
}

/// Calls `chrono::NaiveDate::from_ymd_opt(y, m, d)` and tells whether it gives a date.
/// chrono gives one exactly for the real days of the years -262143 to 262142.
#[verifier::external_body]
fn chrono_date_exists(y: i32, m: u32, d: u32) -> (res: bool)
    ensures
        res == valid_ymd(y, m, d),
{
    chrono::NaiveDate::from_ymd_opt(y, m, d).is_some()
}

/// Calls `Datelike::weekday` and `Weekday::num_days_from_monday` on chrono's date `y-m-d`:
/// the day of the week, Monday being 0, of the proleptic Gregorian calendar.
#[verifier::external_body]
fn chrono_weekday_from_monday(y: i32, m: u32, d: u32) -> (res: u32)
    requires
        valid_ymd(y, m, d),
    ensures
        res == weekday_from_monday(y as int, m as int, d as int),
{
    chrono::NaiveDate::from_ymd_opt(y, m, d).unwrap().weekday().num_days_from_monday()
}

/// Calls `NaiveDate::format("%d.%m.%Y")` on chrono's date `y-m-d` and writes it out:
/// day and month in two digits, the year as `%Y` writes it.
#[verifier::external_body]
fn chrono_format_day_month_year(y: i32, m: u32, d: u32) -> (res: String)
    requires
        valid_ymd(y, m, d),
    ensures
        res@ == day_month_year_text(y as int, m as nat, d as nat),
{
    chrono::NaiveDate::from_ymd_opt(y, m, d).unwrap().format("%d.%m.%Y").to_string()
}

/// A day of the proleptic Gregorian calendar, in the years that chrono's `NaiveDate` holds.
#[derive(Clone, Copy, Debug, PartialEq, Eq)]
pub struct CalendarDate {
    year: i32,
    month: u32,
    day: u32,
}

impl View for CalendarDate {
    type V = (i32, u32, u32);

    /// Year, month and day.
    closed spec fn view(&self) -> (i32, u32, u32) {
        (self.year, self.month, self.day)
    }
}

impl CalendarDate {
    #[verifier::type_invariant]
    spec fn is_valid(self) -> bool {
        valid_ymd(self.year, self.month, self.day)
    }

    /// The date `year-month-day`, if that day exists (as chrono's `NaiveDate::from_ymd_opt` says).
    pub fn from_ymd_opt(year: i32, month: u32, day: u32) -> (res: Option<CalendarDate>)
        ensures
            res is Some <==> valid_ymd(year, month, day),
            res matches Some(date) ==> date@ == (year, month, day),
    {
        if chrono_date_exists(year, month, day) {
            Some(CalendarDate { year, month, day })
        } else {
            None
        }
    }

    /// The day of the week, Monday being 0 and Sunday 6.
    pub fn weekday_from_monday(&self) -> (res: u32)
        ensures
            res == weekday_from_monday(self@.0 as int, self@.1 as int, self@.2 as int),
            res < 7,
    {
        proof {
            use_type_invariant(self);
        }
        chrono_weekday_from_monday(self.year, self.month, self.day)
    }
}

/// The German name of the working day `i`, Monday being 0.
pub open spec fn german_working_day(i: int) -> Seq<char> {
    if i == 0 {
        "Montag"@
    } else if i == 1 {
        "Dienstag"@
    } else if i == 2 {
        "Mittwoch"@
    } else if i == 3 {
        "Donnerstag"@
    } else {
        "Freitag"@
    }
}

/// Whether `date` falls on a working day, Monday to Friday.
pub open spec fn is_working_day(date: (i32, u32, u32)) -> bool {
    weekday_from_monday(date.0 as int, date.1 as int, date.2 as int) < 5
}

/// The German date line of a working day, such as `Montag, 13.05.2024`.
pub open spec fn german_date_line(date: (i32, u32, u32)) -> Seq<char> {
    german_working_day(weekday_from_monday(date.0 as int, date.1 as int, date.2 as int)) + ", "@
        + day_month_year_text(date.0 as int, date.1 as nat, date.2 as nat)
}

/// Writes the German date line of a working day: the weekday's name, a comma and
/// the date as `dd.mm.yyyy`. Only the weekdays Monday to Friday have a name here.
pub fn german_date_fmt(date: CalendarDate) -> (res: String)
    requires
        is_working_day(date@),
    ensures
        res@ == german_date_line(date@),
{
    proof {
        use_type_invariant(&date);
    }
    let week_days = ["Montag", "Dienstag", "Mittwoch", "Donnerstag", "Freitag"];
    let index = date.weekday_from_monday();
    let mut line = String::from_str(week_days[index as usize]);
    line.append(", ");
    let day_text = chrono_format_day_month_year(date.year, date.month, date.day);
    line.append(day_text.as_str());
    line
}

} // verus!
