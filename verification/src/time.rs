//! Calendar arithmetic and the simulation clock.

use vstd::prelude::*;

verus! {

/// Day of the week.
#[derive(Debug, Clone, Copy, PartialEq, Eq, Structural)]
pub enum Weekday {
    Sunday,
    Monday,
    Tuesday,
    Wednesday,
    Thursday,
    Friday,
    Saturday,
}

/// Position of a day in the week, counting from Sunday = 0.
pub open spec fn weekday_index(w: Weekday) -> int {
    match w {
        Weekday::Sunday => 0,
        Weekday::Monday => 1,
        Weekday::Tuesday => 2,
        Weekday::Wednesday => 3,
        Weekday::Thursday => 4,
        Weekday::Friday => 5,
        Weekday::Saturday => 6,
    }
}

/// The day whose position in the week is `i` (taken modulo 7).
pub open spec fn weekday_at(i: int) -> Weekday {
    let k = i % 7;
    if k == 0 {
        Weekday::Sunday
    } else if k == 1 {
        Weekday::Monday
    } else if k == 2 {
        Weekday::Tuesday
    } else if k == 3 {
        Weekday::Wednesday
    } else if k == 4 {
        Weekday::Thursday
    } else if k == 5 {
        Weekday::Friday
    } else {
        Weekday::Saturday
    }
}

/// The day that follows `w`.
pub open spec fn weekday_succ(w: Weekday) -> Weekday {
    weekday_at(weekday_index(w) + 1)
}

/// The day reached from `w` after `n` days.
pub open spec fn weekday_after(w: Weekday, n: nat) -> Weekday
    decreases n,
{
    if n == 0 {
        w
    } else {
        weekday_succ(weekday_after(w, (n - 1) as nat))
    }
}

impl Weekday {
    /// Advance to the next day.
    pub fn next(self) -> (r: Self)
        ensures
            r == weekday_succ(self),
            weekday_index(r) == (weekday_index(self) + 1) % 7,
    {
        match self {
            Weekday::Sunday => Weekday::Monday,
            Weekday::Monday => Weekday::Tuesday,
            Weekday::Tuesday => Weekday::Wednesday,
            Weekday::Wednesday => Weekday::Thursday,
            Weekday::Thursday => Weekday::Friday,
            Weekday::Friday => Weekday::Saturday,
            Weekday::Saturday => Weekday::Sunday,
        }
    }

    /// Convert from 1-based index (1=Sunday, 7=Saturday).
    pub fn from_index(i: u8) -> (r: Option<Self>)
        ensures
            r is Some <==> 1 <= i <= 7,
            r matches Some(w) ==> weekday_index(w) == i - 1,
    {
        match i {
            1 => Some(Weekday::Sunday),
            2 => Some(Weekday::Monday),
            3 => Some(Weekday::Tuesday),
            4 => Some(Weekday::Wednesday),
            5 => Some(Weekday::Thursday),
            6 => Some(Weekday::Friday),
            7 => Some(Weekday::Saturday),
            _ => None,
        }
    }

    /// Is this a weekday (Monday-Friday)?
    pub fn is_weekday(self) -> (r: bool)
        ensures
            r <==> 1 <= weekday_index(self) <= 5,
    {
        !matches!(self, Weekday::Sunday | Weekday::Saturday)
    }
}

/// Every day has a position between 0 and 6, and `weekday_at` inverts it.
pub proof fn lemma_weekday_index_roundtrip(w: Weekday)
    ensures
        0 <= weekday_index(w) < 7,
        weekday_at(weekday_index(w)) == w,
{
}

/// The position of the day after `w` is one more than that of `w`, modulo 7.
pub proof fn lemma_weekday_succ_index(w: Weekday)
    ensures
        weekday_index(weekday_succ(w)) == (weekday_index(w) + 1) % 7,
{
}

/// Advancing a day `n` times moves its position in the week forward by
/// `n`, modulo 7; in particular a whole week brings every day back to itself.
pub proof fn lemma_weekday_cycle(w: Weekday, n: nat)
    ensures
        weekday_index(weekday_after(w, n)) == (weekday_index(w) + n) % 7,
        weekday_after(w, 7) == w,
    decreases n,
{
    let i = weekday_index(w);
    if n > 0 {
        lemma_weekday_cycle(w, (n - 1) as nat);
        let p = weekday_after(w, (n - 1) as nat);
        lemma_weekday_succ_index(p);
        let q = weekday_index(p);
        assert(q == (i + n - 1) % 7);
        assert(0 <= i < 7);
        assert((((i + n - 1) % 7) + 1) % 7 == (i + n) % 7) by {
            vstd::arithmetic::div_mod::lemma_add_mod_noop(i + n - 1, 1, 7);
            vstd::arithmetic::div_mod::lemma_small_mod(1, 7);
        }
    } else {
        assert(0 <= i < 7);
        vstd::arithmetic::div_mod::lemma_small_mod(i as nat, 7);
    }
    if n == 0 {
        lemma_weekday_seven(w);
    }
}

proof fn lemma_weekday_seven(w: Weekday)
    ensures
        weekday_after(w, 7) == w,
{
    reveal_with_fuel(weekday_after, 8);
    let d1 = weekday_succ(w);
    let d2 = weekday_succ(d1);
    let d3 = weekday_succ(d2);
    let d4 = weekday_succ(d3);
    let d5 = weekday_succ(d4);
    let d6 = weekday_succ(d5);
    assert(weekday_succ(d6) == w);
}

/// Length of a month (1 = January); 0 for a number that names no month.
pub open spec fn month_length(month: int, leap_year: bool) -> int {
    if month == 2 {
        if leap_year {
            29
        } else {
            28
        }
    } else if month == 4 || month == 6 || month == 9 || month == 11 {
        30
    } else if 1 <= month <= 12 {
        31
    } else {
        0
    }
}

/// Number of days in the months that come before `month` in the year.
pub open spec fn days_before_month(month: int, leap_year: bool) -> int
    decreases month,
{
    if month <= 1 {
        0
    } else {
        days_before_month(month - 1, leap_year) + month_length(month - 1, leap_year)
    }
}

/// Gregorian leap-year rule.
pub open spec fn leap_year_rule(year: int) -> bool {
    (year % 4 == 0 && year % 100 != 0) || year % 400 == 0
}

/// The Gregorian month lengths, by the knuckle rule: up to July the odd
/// months have 31 days, from August the even ones do, and the other months
/// but February have 30; February has 29 days in a leap year and 28
/// otherwise; a number that names no month has none.
pub proof fn lemma_month_lengths(month: int, leap_year: bool)
    ensures
        1 <= month <= 12 && month != 2 ==> month_length(month, leap_year) == if (month <= 7) == (
        month % 2 == 1) {
            31int
        } else {
            30int
        },
        month == 2 ==> month_length(month, leap_year) == if leap_year {
            29int
        } else {
            28int
        },
        !(1 <= month <= 12) ==> month_length(month, leap_year) == 0,
{
}

/// Number of days in a given month.
pub fn days_in_month(month: u8, leap_year: bool) -> (r: u8)
    ensures
        r == month_length(month as int, leap_year),
        1 <= month <= 12 && month != 2 ==> r == if (month <= 7) == (month % 2 == 1) {
            31u8
        } else {
            30u8
        },
{
    match month {
        1 => 31,
        2 => {
            if leap_year {
                29
            } else {
                28
            }
        },
        3 => 31,
        4 => 30,
        5 => 31,
        6 => 30,
        7 => 31,
        8 => 31,
        9 => 30,
        10 => 31,
        11 => 30,
        12 => 31,
        _ => 0,
    }
}

/// The Gregorian leap years: years not divisible by 4 are common, years
/// divisible by 4 but not by 100 are leap, centuries are common unless
/// divisible by 400; the pattern repeats every 400 years.
pub proof fn lemma_leap_years(year: int)
    ensures
        year % 4 != 0 ==> !leap_year_rule(year),
        year % 4 == 0 && year % 100 != 0 ==> leap_year_rule(year),
        year % 100 == 0 && year % 400 != 0 ==> !leap_year_rule(year),
        year % 400 == 0 ==> leap_year_rule(year),
        leap_year_rule(year + 400) == leap_year_rule(year),
{
    assert((year + 400) % 4 == year % 4);
    assert((year + 400) % 100 == year % 100);
    assert((year + 400) % 400 == year % 400);
}

/// Check if a year is a leap year.
pub fn is_leap_year(year: i32) -> (r: bool)
    ensures
        r == leap_year_rule(year as int),
{
    let y: i64 = year as i64;
    let a: i64 = if y < 0 { -y } else { y };
    proof {
        assert((a % 4 == 0) <==> (year as int % 4 == 0));
        assert((a % 100 == 0) <==> (year as int % 100 == 0));
        assert((a % 400 == 0) <==> (year as int % 400 == 0));
    }
    (a % 4 == 0 && a % 100 != 0) || (a % 400 == 0)
}

/// The months before `month` hold at most 365 days, 366 in a leap year.
pub proof fn lemma_days_before_month_bound(month: int, leap_year: bool)
    ensures
        0 <= days_before_month(month, leap_year),
        days_before_month(month, leap_year) <= if leap_year { 366int } else { 365int },
        month >= 13 ==> days_before_month(month, leap_year) == if leap_year { 366int } else { 365int },
    decreases month,
{
    if month > 13 {
        lemma_days_before_month_bound(month - 1, leap_year);
    } else if month > 1 {
        lemma_days_before_month_bound(month - 1, leap_year);
        reveal_with_fuel(days_before_month, 13);
    }
}

/// Day of year from month and day.
pub fn day_of_year(month: u8, day: u8, leap_year: bool) -> (r: u16)
    ensures
        r == days_before_month(month as int, leap_year) + day,
{
    let mut doy: u16 = 0;
    let mut m: u8 = 1;
    while m < month
        invariant
            1 <= m,
            m <= month || (month == 0 && m == 1),
            doy == days_before_month(m as int, leap_year),
            doy <= 366,
        decreases month - m,
    {
        proof {
            lemma_days_before_month_bound(m as int + 1, leap_year);
        }
        doy += days_in_month(m, leap_year) as u16;
        m += 1;
    }
    proof {
        lemma_days_before_month_bound(month as int, leap_year);
        if month == 0 {
            assert(days_before_month(0, leap_year) == 0);
            assert(days_before_month(1, leap_year) == 0);
        } else {
            assert(m == month);
        }
    }
    doy + day as u16
}

#[verifier::external_type_specification]
#[verifier::external_body]
pub struct ExNaiveDateTime(chrono::NaiveDateTime);

/// Calls `chrono::NaiveDateTime::default`, which chrono documents as the
/// Unix epoch (1970-01-01 00:00:00). The date-time is opaque here, so no
/// clause states anything of the value that comes back.
#[verifier::external_body]
fn unix_epoch() -> (t: chrono::NaiveDateTime) {
    chrono::NaiveDateTime::default()
}

/// Timestep and simulation clock.
#[derive(Debug)]
pub struct SimulationClock {
    pub current_time: chrono::NaiveDateTime,
    pub hour_of_day: u8,
    pub timestep_in_hour: u8,
    pub timesteps_per_hour: u8,
    pub day_of_year: u16,
    pub day_of_week: Weekday,
    pub month: u8,
    pub day_of_month: u8,
    pub year: i32,
    pub is_leap_year: bool,
}

impl SimulationClock {
    /// The month, day of month and day of year name the same valid date.
    pub open spec fn calendar_consistent(self) -> bool {
        &&& 1 <= self.month <= 12
        &&& 1 <= self.day_of_month <= month_length(self.month as int, self.is_leap_year)
        &&& self.day_of_year == days_before_month(self.month as int, self.is_leap_year)
            + self.day_of_month
    }

    /// The clock one day later, as `advance_day` leaves it.
    pub open spec fn after_one_day(self) -> SimulationClock {
        let rolls_over = self.day_of_month + 1 > month_length(
            self.month as int,
            self.is_leap_year,
        );
        SimulationClock {
            day_of_year: (self.day_of_year + 1) as u16,
            day_of_week: weekday_succ(self.day_of_week),
            day_of_month: if rolls_over {
                1u8
            } else {
                (self.day_of_month + 1) as u8
            },
            month: if rolls_over {
                (self.month + 1) as u8
            } else {
                self.month
            },
            ..self
        }
    }

    /// The advance from `self` can be made without leaving the range of
    /// the clock's counters.
    pub open spec fn can_advance_day(self) -> bool {
        &&& self.day_of_year < u16::MAX
        &&& self.day_of_month < u8::MAX
        &&& self.day_of_month + 1 > month_length(self.month as int, self.is_leap_year)
            ==> self.month < u8::MAX
    }

    /// Create a new clock at midnight of January 1st, 2024 (a Monday in a
    /// leap year), with the given number of timesteps per hour. Its
    /// `current_time` is chrono's default date-time (the Unix epoch); the
    /// date-time is opaque here, so the contract does not state it.
    pub fn new(timesteps_per_hour: u8) -> (c: Self)
        ensures
            c.hour_of_day == 0,
            c.timestep_in_hour == 0,
            c.timesteps_per_hour == timesteps_per_hour,
            c.day_of_year == 1,
            c.day_of_week == Weekday::Monday,
            c.month == 1,
            c.day_of_month == 1,
            c.year == 2024,
            c.is_leap_year,
            c.calendar_consistent(),
    {
        SimulationClock {
            current_time: unix_epoch(),
            hour_of_day: 0,
            timestep_in_hour: 0,
            timesteps_per_hour,
            day_of_year: 1,
            day_of_week: Weekday::Monday,
            month: 1,
            day_of_month: 1,
            year: 2024,
            is_leap_year: true,
        }
    }

    /// Advance the clock by one day.
    pub fn advance_day(&mut self)
        requires
            old(self).can_advance_day(),
        ensures
            *final(self) == old(self).after_one_day(),
    {
        self.day_of_year += 1;
        self.day_of_week = self.day_of_week.next();

        let days_in_month = days_in_month(self.month, self.is_leap_year);
        self.day_of_month += 1;
        if self.day_of_month > days_in_month {
            self.day_of_month = 1;
            self.month += 1;
        }
    }
}

/// Moving a consistent calendar date forward by one day, anywhere but on
/// December 31st, gives a consistent date again, one week day later.
pub proof fn lemma_advance_day_keeps_calendar(c: SimulationClock)
    requires
        c.calendar_consistent(),
        !(c.month == 12 && c.day_of_month == 31),
    ensures
        c.can_advance_day(),
        c.after_one_day().calendar_consistent(),
        weekday_index(c.after_one_day().day_of_week) == (weekday_index(c.day_of_week) + 1) % 7,
{
    lemma_days_before_month_bound(c.month as int, c.is_leap_year);
    lemma_weekday_succ_index(c.day_of_week);
    let n = c.after_one_day();
    if c.day_of_month + 1 > month_length(c.month as int, c.is_leap_year) {
        assert(days_before_month(c.month as int + 1, c.is_leap_year) == days_before_month(
            c.month as int,
            c.is_leap_year,
        ) + month_length(c.month as int, c.is_leap_year));
    }
}

} // verus!
