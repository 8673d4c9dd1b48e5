//! Days and how they are written. A day is the number of days since the
//! common era began: the first of January of the year 1 is day 1.

use crate::text::{digit, number_of, opt_text};
use vstd::prelude::*;

verus! {

// ---------------------------------------------------------------------
// The calendar
// ---------------------------------------------------------------------

/// A leap year of the Gregorian calendar.
pub open spec fn is_leap(y: int) -> bool {
    y % 4 == 0 && (y % 100 != 0 || y % 400 == 0)
}

/// The number of days in a month.
pub open spec fn month_len(y: int, m: int) -> int {
    if m == 2 {
        if is_leap(y) {
            29
        } else {
            28
        }
    } else if m == 4 || m == 6 || m == 9 || m == 11 {
        30
    } else {
        31
    }
}

/// The day before the first of January of a year.
pub open spec fn day_before_year(y: int) -> int {
    365 * (y - 1) + (y - 1) / 4 - (y - 1) / 100 + (y - 1) / 400
}

/// The number of days of a year before a month.
pub open spec fn days_before_month(y: int, m: int) -> int
    decreases m,
{
    if m <= 1 {
        0
    } else {
        days_before_month(y, m - 1) + month_len(y, m - 1)
    }
}

/// `day` is the day `d` of the month `m` of the year `y`.
pub open spec fn is_civil(day: int, y: int, m: int, d: int) -> bool {
    &&& 1 <= m <= 12
    &&& 1 <= d <= month_len(y, m)
    &&& day == day_before_year(y) + days_before_month(y, m) + d
}

/// The first and the last year that can be shown.
pub const FIRST_YEAR: i32 = -262143;

pub const LAST_YEAR: i32 = 262142;

/// A day that can be shown.
pub open spec fn is_day(day: int) -> bool {
    day_before_year(FIRST_YEAR as int) < day <= day_before_year(LAST_YEAR + 1)
}

/// A day as a year, a month and a day of the month.
#[derive(Clone, Copy, PartialEq, Eq, Structural, Debug)]
pub struct Civil {
    pub year: i32,
    pub month: u32,
    pub day: u32,
}

/// `chrono::NaiveDate::from_num_days_from_ce_opt`, with the year, the month
/// and the day that `chrono::Datelike` reads off the date: the date of a day
/// in the proleptic Gregorian calendar. Days outside the years from
/// `FIRST_YEAR` to `LAST_YEAR` have none.
#[verifier::external_body]
fn civil_from_day(day: i32) -> (r: Option<Civil>)
    ensures
        r is Some == is_day(day as int),
        r matches Some(c) ==> is_civil(day as int, c.year as int, c.month as int, c.day as int),
{
    let d = chrono::NaiveDate::from_num_days_from_ce_opt(day)?;
    Some(
        Civil {
            year: chrono::Datelike::year(&d),
            month: chrono::Datelike::month(&d),
            day: chrono::Datelike::day(&d),
        },
    )
}

/// A day as a year, a month and a day of the month, if it can be shown.
pub fn civil_of(day: i32) -> (r: Option<Civil>)
    ensures
        r is Some == is_day(day as int),
        r matches Some(c) ==> is_civil(day as int, c.year as int, c.month as int, c.day as int),
{
    civil_from_day(day)
}

/// The number of days shown of a month: all of them, as long as the month and
/// the one behind it, from which they are counted back, can be shown; else 30.
pub open spec fn shown_days(y: int, m: int) -> int {
    if y < FIRST_YEAR || y > LAST_YEAR || (y == LAST_YEAR && m == 12) {
        30
    } else {
        month_len(y, m)
    }
}

/// The number of days shown of a month.
pub fn days_in_month(year: i32, month: u32) -> (n: u32)
    requires
        1 <= month <= 12,
    ensures
        n == shown_days(year as int, month as int),
{
    if year < FIRST_YEAR || year > LAST_YEAR || (year == LAST_YEAR && month == 12) {
        return 30;
    }
    if month == 2 {
        let y: i64 = year as i64 + 400000000000;
        assert(y % 4 == (year as int) % 4);
        assert(y % 100 == (year as int) % 100);
        assert(y % 400 == (year as int) % 400);
        if y % 4 == 0 && (y % 100 != 0 || y % 400 == 0) {
            29
        } else {
            28
        }
    } else if month == 4 || month == 6 || month == 9 || month == 11 {
        30
    } else {
        31
    }
}

/// How many days after a Monday a day is.
pub open spec fn days_from_monday(day: int) -> int {
    (day - 1) % 7
}

/// How many days after a Monday a day is.
pub fn weekday_of(day: i32) -> (w: usize)
    ensures
        w == days_from_monday(day as int),
        w < 7,
{
    let shifted: i64 = day as i64 - 1 + 7000000000;
    assert(shifted % 7 == (day - 1) % 7);
    (shifted % 7) as usize
}

// ---------------------------------------------------------------------
// Text
// ---------------------------------------------------------------------

/// A number in `width` digits, with zeros in front.
pub open spec fn padded_number(n: int, width: nat) -> Seq<char>
    decreases width,
{
    if width == 0 {
        Seq::empty()
    } else {
        padded_number(n / 10, (width - 1) as nat).push(digit((n % 10) as nat))
    }
}

/// A date as files are named for it: `2024-05-03`.
pub open spec fn iso_text(y: int, m: int, d: int) -> Seq<char> {
    padded_number(y, 4).push('-') + padded_number(m, 2).push('-') + padded_number(d, 2)
}

/// The name of a weekday.
pub open spec fn weekday_name(w: int) -> &'static str {
    if w == 0 {
        "Monday"
    } else if w == 1 {
        "Tuesday"
    } else if w == 2 {
        "Wednesday"
    } else if w == 3 {
        "Thursday"
    } else if w == 4 {
        "Friday"
    } else if w == 5 {
        "Saturday"
    } else {
        "Sunday"
    }
}

/// The name of a month.
pub open spec fn month_name(m: int) -> &'static str {
    if m == 1 {
        "January"
    } else if m == 2 {
        "February"
    } else if m == 3 {
        "March"
    } else if m == 4 {
        "April"
    } else if m == 5 {
        "May"
    } else if m == 6 {
        "June"
    } else if m == 7 {
        "July"
    } else if m == 8 {
        "August"
    } else if m == 9 {
        "September"
    } else if m == 10 {
        "October"
    } else if m == 11 {
        "November"
    } else {
        "December"
    }
}

/// The patterns that dates are written in.
pub const ISO_PATTERN: &'static str = "%Y-%m-%d";

pub const LONG_PATTERN: &'static str = "%A, %Y-%m-%d";

pub const MONTH_PATTERN: &'static str = "%B %Y";

/// A pattern that dates are written in.
pub open spec fn is_pattern(p: Seq<char>) -> bool {
    p == ISO_PATTERN@ || p == LONG_PATTERN@ || p == MONTH_PATTERN@
}

/// A date of the years that have at most four digits, in a pattern.
pub open spec fn written(day: int, y: int, m: int, d: int, pattern: Seq<char>) -> Seq<char> {
    if pattern == ISO_PATTERN@ {
        iso_text(y, m, d)
    } else if pattern == LONG_PATTERN@ {
        weekday_name(days_from_monday(day))@ + ", "@ + iso_text(y, m, d)
    } else {
        month_name(m)@ + " "@ + padded_number(y, 4)
    }
}

/// What a day is written as in a pattern.
pub uninterp spec fn date_text(day: int, pattern: Seq<char>) -> Option<Seq<char>>;

/// `chrono::NaiveDate::format`: a day in one of the three patterns, for days
/// that can be shown. In years of at most four digits the text is spelled
/// out; further years get a sign, and are left to the name.
#[verifier::external_body]
fn format_day(day: i32, pattern: &str) -> (r: Option<String>)
    requires
        is_pattern(pattern@),
    ensures
        opt_text(r) == date_text(day as int, pattern@),
        r is Some == is_day(day as int),
        r matches Some(t) ==> forall|y: int, m: int, d: int| #[trigger]
            is_civil(day as int, y, m, d) && 0 <= y <= 9999 ==> t@ == written(
                day as int,
                y,
                m,
                d,
                pattern@,
            ),
{
    let d = chrono::NaiveDate::from_num_days_from_ce_opt(day)?;
    Some(d.format(pattern).to_string())
}

/// A day in a pattern, if it can be shown.
pub fn format_date(day: i32, pattern: &str) -> (r: Option<String>)
    requires
        is_pattern(pattern@),
    ensures
        opt_text(r) == date_text(day as int, pattern@),
        r is Some == is_day(day as int),
        r matches Some(t) ==> forall|y: int, m: int, d: int| #[trigger]
            is_civil(day as int, y, m, d) && 0 <= y <= 9999 ==> t@ == written(
                day as int,
                y,
                m,
                d,
                pattern@,
            ),
{
    format_day(day, pattern)
}

// ---------------------------------------------------------------------
// Moments
// ---------------------------------------------------------------------

/// The pattern that the time of a reminder is written in.
pub const MOMENT_PATTERN: &'static str = "%a %d %b %H:%M";

/// A time of day: `09:05`.
pub open spec fn clock_of(hour: int, minute: int) -> Seq<char> {
    padded_number(hour, 2).push(':') + padded_number(minute, 2)
}

fn push_two_digits(s: &mut String, n: u32)
    requires
        n < 100,
    ensures
        final(s)@ == old(s)@ + padded_number(n as int, 2),
{
    let tens: u8 = (n / 10) as u8;
    let ones: u8 = (n % 10) as u8;
    s.push(('0' as u8 + tens) as char);
    s.push(('0' as u8 + ones) as char);
    proof {
        reveal_with_fuel(padded_number, 3);
        assert((n as int / 10) % 10 == n as int / 10);
    }
    assert(s@ =~= old(s)@ + padded_number(n as int, 2));
}

/// A time of day as the clock shows it.
pub fn clock_text(hour: u32, minute: u32) -> (r: String)
    requires
        hour < 24,
        minute < 60,
    ensures
        r@ == clock_of(hour as int, minute as int),
{
    let mut r = String::new();
    push_two_digits(&mut r, hour);
    r.push(':');
    push_two_digits(&mut r, minute);
    assert(r@ =~= clock_of(hour as int, minute as int));
    r
}

/// A minute of a day on the wall clock: `Fri 03 May 09:05`. The weekday and
/// the month are cut to three letters.
pub open spec fn moment_text(day: int, m: int, d: int, hour: int, minute: int) -> Seq<char> {
    weekday_name(days_from_monday(day))@.take(3) + " "@ + padded_number(d, 2) + " "@ + month_name(
        m,
    )@.take(3) + " "@ + clock_of(hour, minute)
}

/// The year, the month and the day of the month of a day.
pub open spec fn date_of(day: int) -> (int, int, int) {
    choose|y: int, m: int, d: int| is_civil(day, y, m, d)
}

/// `chrono::NaiveDateTime::format` in the pattern of reminders, at the minute
/// that `chrono::NaiveDate::and_hms_opt` gives: the text is spelled out. Days
/// that cannot be shown have none.
#[verifier::external_body]
fn format_minute(day: i32, hour: u32, minute: u32, pattern: &str) -> (r: Option<String>)
    requires
        pattern@ == MOMENT_PATTERN@,
        hour < 24,
        minute < 60,
    ensures
        r is Some == is_day(day as int),
        r matches Some(t) ==> forall|y: int, m: int, d: int| #[trigger]
            is_civil(day as int, y, m, d) ==> t@ == moment_text(
                day as int,
                m,
                d,
                hour as int,
                minute as int,
            ),
{
    let d = chrono::NaiveDate::from_num_days_from_ce_opt(day)?;
    let t = d.and_hms_opt(hour, minute, 0)?;
    Some(t.format(pattern).to_string())
}

/// A minute of a day on the wall clock.
#[derive(Debug)]
pub struct Moment {
    day: i32,
    hour: u32,
    minute: u32,
}

impl Moment {
    #[verifier::type_invariant]
    spec fn inv(self) -> bool {
        is_day(self.day as int) && self.hour < 24 && self.minute < 60
    }

    /// The day.
    pub closed spec fn day(self) -> int {
        self.day as int
    }

    /// The hour of the day.
    pub closed spec fn hour(self) -> int {
        self.hour as int
    }

    /// The minute of the hour.
    pub closed spec fn minute(self) -> int {
        self.minute as int
    }

    /// How the moment is written.
    pub open spec fn shown(self) -> Seq<char> {
        let (y, m, d) = date_of(self.day());
        moment_text(self.day(), m, d, self.hour(), self.minute())
    }

    /// A minute of a day, where the day can be shown and has that minute.
    pub fn new(day: i32, hour: u32, minute: u32) -> (r: Option<Moment>)
        ensures
            r is Some == (is_day(day as int) && hour < 24 && minute < 60),
            r matches Some(t) ==> t.day() == day && t.hour() == hour && t.minute() == minute,
    {
        if hour < 24 && minute < 60 && civil_from_day(day).is_some() {
            Some(Moment { day, hour, minute })
        } else {
            None
        }
    }

    /// How the moment is written, with the date that its day has.
    pub fn text(&self) -> (r: String)
        ensures
            r@ == self.shown(),
            exists|y: int| #[trigger]
                is_civil(self.day(), y, date_of(self.day()).1, date_of(self.day()).2),
    {
        proof {
            use_type_invariant(self);
        }
        let date = civil_from_day(self.day);
        assert(date matches Some(c) && is_civil(
            self.day as int,
            c.year as int,
            c.month as int,
            c.day as int,
        ));
        match format_minute(self.day, self.hour, self.minute, MOMENT_PATTERN) {
            Some(t) => {
                let ghost (y, m, d) = date_of(self.day as int);
                assert(is_civil(self.day as int, y, m, d));
                t
            },
            None => "".to_owned(),
        }
    }
}

/// The day that a text names in the pattern of file names.
pub uninterp spec fn day_named(text: Seq<char>) -> Option<int>;

/// A day as a value.
pub open spec fn opt_day(d: Option<i32>) -> Option<int> {
    match d {
        Some(n) => Some(n as int),
        None => None,
    }
}

/// `chrono::NaiveDate::parse_from_str` in the pattern of file names, as a day
/// number: the day that a text names, if it names one. The text that a day of
/// a year of at most four digits is written as names that day.
#[verifier::external_body]
fn parse_day(text: &str, pattern: &str) -> (r: Option<i32>)
    requires
        pattern@ == ISO_PATTERN@,
    ensures
        opt_day(r) == day_named(text@),
        r matches Some(day) ==> is_day(day as int),
        forall|day: int, y: int, m: int, d: int| #[trigger]
            is_civil(day, y, m, d) && 0 <= y <= 9999 && text@ == iso_text(y, m, d) ==> opt_day(r)
                == Some(day),
{
    let d = chrono::NaiveDate::parse_from_str(text, pattern).ok()?;
    Some(chrono::Datelike::num_days_from_ce(&d))
}

/// The day that a file name names, if it names one.
pub fn parse_date(text: &str) -> (r: Option<i32>)
    ensures
        opt_day(r) == day_named(text@),
        r matches Some(day) ==> is_day(day as int),
        forall|day: int, y: int, m: int, d: int| #[trigger]
            is_civil(day, y, m, d) && 0 <= y <= 9999 && text@ == iso_text(y, m, d) ==> opt_day(r)
                == Some(day),
{
    parse_day(text, ISO_PATTERN)
}

// ---------------------------------------------------------------------
// Laws
// ---------------------------------------------------------------------

proof fn lemma_months(y: int)
    ensures
        days_before_month(y, 13) == 337 + month_len(y, 2),
{
    assert(days_before_month(y, 1) == 0);
    assert(days_before_month(y, 2) == 31);
    assert(days_before_month(y, 3) == 31 + month_len(y, 2));
    assert(days_before_month(y, 4) == 62 + month_len(y, 2));
    assert(days_before_month(y, 5) == 92 + month_len(y, 2));
    assert(days_before_month(y, 6) == 123 + month_len(y, 2));
    assert(days_before_month(y, 7) == 153 + month_len(y, 2));
    assert(days_before_month(y, 8) == 184 + month_len(y, 2));
    assert(days_before_month(y, 9) == 215 + month_len(y, 2));
    assert(days_before_month(y, 10) == 245 + month_len(y, 2));
    assert(days_before_month(y, 11) == 276 + month_len(y, 2));
    assert(days_before_month(y, 12) == 306 + month_len(y, 2));
}

/// How the multiples of 4, 100 and 400 add up from one year to the next.
proof fn lemma_multiples(y: int)
    ensures
        y / 4 == (y - 1) / 4 + (if y % 4 == 0 {
            1int
        } else {
            0
        }),
        y / 100 == (y - 1) / 100 + (if y % 100 == 0 {
            1int
        } else {
            0
        }),
        y / 400 == (y - 1) / 400 + (if y % 400 == 0 {
            1int
        } else {
            0
        }),
        y % 400 == 0 ==> y % 100 == 0,
        y % 100 == 0 ==> y % 4 == 0,
{
}

proof fn lemma_year(y: int)
    ensures
        day_before_year(y + 1) == day_before_year(y) + days_before_month(y, 13),
        days_before_month(y, 13) >= 365,
{
    lemma_months(y);
    lemma_multiples(y);
}

proof fn lemma_years_grow(y: int, z: int)
    requires
        y <= z,
    ensures
        day_before_year(y) <= day_before_year(z),
    decreases z - y,
{
    if y < z {
        lemma_years_grow(y, z - 1);
        lemma_year(z - 1);
    }
}

proof fn lemma_months_grow(y: int, m: int, n: int)
    requires
        1 <= m <= n,
    ensures
        days_before_month(y, m) <= days_before_month(y, n),
    decreases n - m,
{
    if m < n {
        lemma_months_grow(y, m, n - 1);
    }
}

/// A day has one date.
pub proof fn law_a_day_has_one_date(
    day: int,
    y: int,
    m: int,
    d: int,
    y2: int,
    m2: int,
    d2: int,
)
    requires
        is_civil(day, y, m, d),
        is_civil(day, y2, m2, d2),
    ensures
        y == y2 && m == m2 && d == d2,
{
    lemma_date_in_year(day, y, m, d);
    lemma_date_in_year(day, y2, m2, d2);
    if y < y2 {
        lemma_years_grow(y + 1, y2);
    } else if y2 < y {
        lemma_years_grow(y2 + 1, y);
    }
    if m < m2 {
        lemma_months_grow(y, m + 1, m2);
    } else if m2 < m {
        lemma_months_grow(y, m2 + 1, m);
    }
}

proof fn lemma_date_in_year(day: int, y: int, m: int, d: int)
    requires
        is_civil(day, y, m, d),
    ensures
        day_before_year(y) < day <= day_before_year(y + 1),
{
    lemma_year(y);
    lemma_months_grow(y, 1, m);
    lemma_months_grow(y, m + 1, 13);
}

/// A year has the days of its months, one more in a leap year.
pub proof fn law_a_year_is_its_months(y: int)
    ensures
        day_before_year(y + 1) - day_before_year(y) == days_before_month(y, 13),
        days_before_month(y, 13) == (if y % 400 == 0 || (y % 4 == 0 && y % 100 != 0) {
            366int
        } else {
            365
        }),
{
    lemma_year(y);
    lemma_months(y);
    lemma_multiples(y);
}

/// After a day comes the next of its month, or the first of the next month or
/// year.
pub proof fn law_days_follow_each_other(day: int, y: int, m: int, d: int)
    requires
        is_civil(day, y, m, d),
    ensures
        if d < month_len(y, m) {
            is_civil(day + 1, y, m, d + 1)
        } else if m < 12 {
            is_civil(day + 1, y, m + 1, 1)
        } else {
            is_civil(day + 1, y + 1, 1, 1)
        },
{
    if m < 12 {
        assert(days_before_month(y, m + 1) == days_before_month(y, m) + month_len(y, m));
    } else {
        lemma_year(y);
        assert(days_before_month(y, 13) == days_before_month(y, 12) + month_len(y, 12));
        assert(days_before_month(y + 1, 1) == 0);
    }
}

/// The days of the week follow each other, and come back after seven.
pub proof fn law_weekdays_follow_each_other(day: int)
    ensures
        days_from_monday(day + 1) == (if days_from_monday(day) == 6 {
            0
        } else {
            days_from_monday(day) + 1
        }),
        days_from_monday(day + 7) == days_from_monday(day),
        0 <= days_from_monday(day) <= 6,
{
}

/// A date is written in full: four digits, two and two, with a hyphen between
/// each two, from which it can be read back.
pub proof fn law_dates_are_written_in_full(y: int, m: int, d: int)
    requires
        0 <= y <= 9999,
        0 <= m <= 99,
        0 <= d <= 99,
    ensures
        iso_text(y, m, d).len() == 10,
        iso_text(y, m, d)[4] == '-' && iso_text(y, m, d)[7] == '-',
        number_of(iso_text(y, m, d).take(4)) == y,
        number_of(iso_text(y, m, d).subrange(5, 7)) == m,
        number_of(iso_text(y, m, d).skip(8)) == d,
{
    lemma_four_digits(y);
    lemma_two_digits(m);
    lemma_two_digits(d);
    let t = iso_text(y, m, d);
    assert(t.take(4) =~= padded_number(y, 4));
    assert(t.subrange(5, 7) =~= padded_number(m, 2));
    assert(t.skip(8) =~= padded_number(d, 2));
}

/// A time of day is written in full.
pub proof fn law_times_are_written_in_full(hour: int, minute: int)
    requires
        0 <= hour < 24,
        0 <= minute < 60,
    ensures
        clock_of(hour, minute).len() == 5,
        clock_of(hour, minute)[2] == ':',
        number_of(clock_of(hour, minute).take(2)) == hour,
        number_of(clock_of(hour, minute).skip(3)) == minute,
{
    lemma_two_digits(hour);
    lemma_two_digits(minute);
    let t = clock_of(hour, minute);
    assert(t.take(2) =~= padded_number(hour, 2));
    assert(t.skip(3) =~= padded_number(minute, 2));
}

proof fn lemma_two_digits(n: int)
    requires
        0 <= n <= 99,
    ensures
        padded_number(n, 2).len() == 2,
        number_of(padded_number(n, 2)) == n,
{
    reveal_with_fuel(padded_number, 3);
    reveal_with_fuel(number_of, 3);
    let s = padded_number(n, 2);
    assert(s =~= seq![digit((n / 10 % 10) as nat), digit((n % 10) as nat)]);
    lemma_digit((n % 10) as nat);
    lemma_digit((n / 10 % 10) as nat);
    assert(s.drop_last() =~= seq![digit((n / 10 % 10) as nat)]);
    assert(s.drop_last().drop_last() =~= Seq::<char>::empty());
}

proof fn lemma_four_digits(n: int)
    requires
        0 <= n <= 9999,
    ensures
        padded_number(n, 4).len() == 4,
        number_of(padded_number(n, 4)) == n,
{
    reveal_with_fuel(padded_number, 3);
    reveal_with_fuel(number_of, 3);
    let s = padded_number(n, 4);
    let h = padded_number(n / 100, 2);
    lemma_two_digits(n / 100);
    assert(n / 10 / 10 == n / 100);
    lemma_digit((n % 10) as nat);
    lemma_digit((n / 10 % 10) as nat);
    assert(s.drop_last() =~= h.push(digit((n / 10 % 10) as nat)));
    assert(s.drop_last().drop_last() =~= h);
}

proof fn lemma_digit(k: nat)
    requires
        k < 10,
    ensures
        digit(k) as u32 == '0' as u32 + k,
{
}

} // verus!
