//! The proleptic Gregorian calendar as the library reasons about it: the
//! validity of a (year, month, day) triple, the number of each day counted from
//! 1 January of year 1, the day of the week, and month arithmetic with the day
//! clamped to the end of a shorter month.
use vstd::prelude::*;

verus! {

/// The earliest year a [`Date`] can hold.
pub const MIN_YEAR: i32 = -262143;

/// The latest year a [`Date`] can hold.
pub const MAX_YEAR: i32 = 262142;

/// A plain calendar triple: year, month (1 to 12) and day of the month.
pub type Ymd = (int, int, int);

pub open spec fn is_leap_year(y: int) -> bool {
    y % 4 == 0 && (y % 100 != 0 || y % 400 == 0)
}

pub open spec fn days_in_month(y: int, m: int) -> int {
    if m == 2 {
        if is_leap_year(y) {
            29
        } else {
            28
        }
    } else if m == 4 || m == 6 || m == 9 || m == 11 {
        30
    } else {
        31
    }
}

pub open spec fn year_in_range(y: int) -> bool {
    MIN_YEAR <= y <= MAX_YEAR
}

/// The triple names a day that exists and that a [`Date`] can hold.
pub open spec fn valid_ymd(v: Ymd) -> bool {
    &&& year_in_range(v.0)
    &&& 1 <= v.1 <= 12
    &&& 1 <= v.2 <= days_in_month(v.0, v.1)
}

/// Number of days in the years before `y`, counted from year 1.
pub open spec fn days_before_year(y: int) -> int {
    let x: int = y - 1;
    365 * x + x / 4 - x / 100 + x / 400
}

/// Number of days in the months of year `y` before month `m`.
pub open spec fn days_before_month(y: int, m: int) -> int {
    let common: int = if m <= 1 {
        0
    } else if m == 2 {
        31
    } else if m == 3 {
        59
    } else if m == 4 {
        90
    } else if m == 5 {
        120
    } else if m == 6 {
        151
    } else if m == 7 {
        181
    } else if m == 8 {
        212
    } else if m == 9 {
        243
    } else if m == 10 {
        273
    } else if m == 11 {
        304
    } else {
        334
    };
    if m > 2 && is_leap_year(y) {
        common + 1
    } else {
        common
    }
}

/// The number of a day, where 1 January of year 1 is day 1.
pub open spec fn day_number(v: Ymd) -> int {
    days_before_year(v.0) + days_before_month(v.0, v.1) + v.2
}

pub open spec fn min_day() -> int {
    day_number((MIN_YEAR as int, 1, 1))
}

pub open spec fn max_day() -> int {
    day_number((MAX_YEAR as int, 12, 31))
}

/// A day number that a [`Date`] can hold.
pub open spec fn day_in_range(n: int) -> bool {
    min_day() <= n <= max_day()
}

/// The date whose day number is `n` (meaningful when `n` is in range).
pub open spec fn date_of_day(n: int) -> Ymd {
    choose|v: Ymd| valid_ymd(v) && day_number(v) == n
}

/// Days since the last Monday: 0 for a Monday, 6 for a Sunday.
/// Day 1 (1 January of year 1) is a Monday.
pub open spec fn weekday_number(v: Ymd) -> int {
    (day_number(v) - 1) % 7
}

/// `v` moved by `n` months, its day clamped to the length of the new month.
pub open spec fn add_months_ymd(v: Ymd, n: int) -> Ymd {
    let t: int = v.0 * 12 + (v.1 - 1) + n;
    let y: int = t / 12;
    let m: int = t % 12 + 1;
    (y, m, if v.2 <= days_in_month(y, m) { v.2 } else { days_in_month(y, m) })
}

/// Chronological order on triples: year, then month, then day.
pub open spec fn ymd_before(a: Ymd, b: Ymd) -> bool {
    ||| a.0 < b.0
    ||| a.0 == b.0 && a.1 < b.1
    ||| a.0 == b.0 && a.1 == b.1 && a.2 < b.2
}

proof fn lemma_days_before_month_bounds(y: int, m: int)
    requires
        1 <= m <= 12,
    ensures
        days_before_month(y, m) + days_in_month(y, m) <= days_before_year(y + 1)
            - days_before_year(y),
        m < 12 ==> days_before_month(y, m) + days_in_month(y, m) == days_before_month(y, m + 1),
        days_before_month(y, 1) == 0,
{
    lemma_year_length(y);
}

/// A year has 365 days, 366 in a leap year.
pub proof fn lemma_year_length(y: int)
    ensures
        days_before_year(y + 1) - days_before_year(y) == if is_leap_year(y) {
            366int
        } else {
            365int
        },
{
    lemma_floor_step(y, 4);
    lemma_floor_step(y, 100);
    lemma_floor_step(y, 400);
    lemma_divides_chain(y);
    let x: int = y - 1;
    assert(days_before_year(y + 1) - days_before_year(y) == 365 + (y / 4 - x / 4) - (y / 100 - x
        / 100) + (y / 400 - x / 400));
}

proof fn lemma_divides_chain(y: int)
    ensures
        y % 400 == 0 ==> y % 100 == 0,
        y % 100 == 0 ==> y % 4 == 0,
{
    vstd::arithmetic::div_mod::lemma_fundamental_div_mod(y, 400);
    vstd::arithmetic::div_mod::lemma_fundamental_div_mod(y, 100);
    vstd::arithmetic::div_mod::lemma_fundamental_div_mod(y, 4);
    if y % 400 == 0 {
        let q: int = y / 400;
        assert(y == 100 * (4 * q));
        vstd::arithmetic::div_mod::lemma_mod_multiples_basic(4 * q, 100);
    }
    if y % 100 == 0 {
        let q: int = y / 100;
        assert(y == 4 * (25 * q));
        vstd::arithmetic::div_mod::lemma_mod_multiples_basic(25 * q, 4);
    }
}

proof fn lemma_floor_step(y: int, k: int)
    requires
        k > 1,
    ensures
        y / k == (y - 1) / k + (if y % k == 0 { 1int } else { 0int }),
{
    vstd::arithmetic::div_mod::lemma_fundamental_div_mod(y, k);
    vstd::arithmetic::div_mod::lemma_fundamental_div_mod(y - 1, k);
    let q: int = y / k;
    let r: int = y % k;
    let q1: int = (y - 1) / k;
    let r1: int = (y - 1) % k;
    assert(0 <= r < k && 0 <= r1 < k);
    assert(k * q + r == k * q1 + r1 + 1);
    if r == 0 {
        assert(q - q1 == 1) by (nonlinear_arith)
            requires
                k * q == k * q1 + r1 + 1,
                0 <= r1 < k,
                k > 1,
        ;
    } else {
        assert(q - q1 == 0) by (nonlinear_arith)
            requires
                k * q + r == k * q1 + r1 + 1,
                0 <= r1 < k,
                0 < r < k,
        ;
    }
}

/// Years further apart hold more days between their starts.
proof fn lemma_days_before_year_monotone(a: int, b: int)
    requires
        a <= b,
    ensures
        days_before_year(a) + 365 * (b - a) <= days_before_year(b),
    decreases b - a,
{
    if a < b {
        lemma_days_before_year_monotone(a, b - 1);
        lemma_year_length(b - 1);
    }
}

/// Valid triples in chronological order have increasing day numbers.
pub proof fn lemma_day_number_strictly_increasing(a: Ymd, b: Ymd)
    requires
        valid_ymd(a),
        valid_ymd(b),
        ymd_before(a, b),
    ensures
        day_number(a) < day_number(b),
{
    if a.0 < b.0 {
        lemma_days_before_month_bounds(a.0, a.1);
        lemma_days_before_year_monotone(a.0 + 1, b.0);
        lemma_days_before_month_bounds(b.0, b.1);
    } else if a.1 < b.1 {
        lemma_days_before_month_mono(a.0, a.1, b.1);
    }
}

proof fn lemma_days_before_month_mono(y: int, m1: int, m2: int)
    requires
        1 <= m1 < m2 <= 12,
    ensures
        days_before_month(y, m1) + days_in_month(y, m1) <= days_before_month(y, m2),
    decreases m2 - m1,
{
    lemma_days_before_month_bounds(y, m1);
    if m1 + 1 < m2 {
        lemma_days_before_month_mono(y, m1 + 1, m2);
    }
}

/// Two valid triples with the same day number are the same day.
pub proof fn lemma_day_number_injective(a: Ymd, b: Ymd)
    requires
        valid_ymd(a),
        valid_ymd(b),
        day_number(a) == day_number(b),
    ensures
        a == b,
{
    if ymd_before(a, b) {
        lemma_day_number_strictly_increasing(a, b);
    } else if ymd_before(b, a) {
        lemma_day_number_strictly_increasing(b, a);
    }
}

/// A valid triple is the date of its own day number.
pub proof fn lemma_date_of_day_number(v: Ymd)
    requires
        valid_ymd(v),
    ensures
        date_of_day(day_number(v)) == v,
        day_in_range(day_number(v)),
{
    let w: Ymd = date_of_day(day_number(v));
    assert(valid_ymd(w) && day_number(w) == day_number(v));
    lemma_day_number_injective(w, v);
    let lo: Ymd = (MIN_YEAR as int, 1, 1);
    let hi: Ymd = (MAX_YEAR as int, 12, 31);
    if v != lo {
        lemma_day_number_strictly_increasing(lo, v);
    }
    if v != hi {
        lemma_day_number_strictly_increasing(v, hi);
    }
}

/// The day after `v`.
pub open spec fn next_day(v: Ymd) -> Ymd {
    if v.2 < days_in_month(v.0, v.1) {
        (v.0, v.1, v.2 + 1)
    } else if v.1 < 12 {
        (v.0, v.1 + 1, 1)
    } else {
        (v.0 + 1, 1, 1)
    }
}

proof fn lemma_next_day(v: Ymd)
    requires
        valid_ymd(v),
        v != (MAX_YEAR as int, 12int, 31int),
    ensures
        valid_ymd(next_day(v)),
        day_number(next_day(v)) == day_number(v) + 1,
{
    lemma_days_before_month_bounds(v.0, v.1);
    if v.2 >= days_in_month(v.0, v.1) && v.1 == 12 {
        lemma_year_length(v.0);
        lemma_days_before_month_bounds(v.0 + 1, 1);
    }
}

/// Every day number in range is the number of some valid triple.
proof fn lemma_day_number_reached(n: int)
    requires
        day_in_range(n),
    ensures
        exists|v: Ymd| valid_ymd(v) && day_number(v) == n,
    decreases n - min_day(),
{
    if n == min_day() {
        let v: Ymd = (MIN_YEAR as int, 1, 1);
        assert(valid_ymd(v) && day_number(v) == n);
    } else {
        lemma_day_number_reached(n - 1);
        let v: Ymd = choose|v: Ymd| valid_ymd(v) && day_number(v) == n - 1;
        let hi: Ymd = (MAX_YEAR as int, 12, 31);
        assert(v != hi);
        lemma_next_day(v);
        assert(valid_ymd(next_day(v)) && day_number(next_day(v)) == n);
    }
}

/// The date of a day number in range is valid and has that number.
pub proof fn lemma_date_of_day(n: int)
    requires
        day_in_range(n),
    ensures
        valid_ymd(date_of_day(n)),
        day_number(date_of_day(n)) == n,
{
    lemma_day_number_reached(n);
}

/// A computation on dates left the years a [`Date`] can hold, or one of its
/// counts overflowed, or it asked for a day that does not exist.
#[derive(Clone, Copy, Debug, PartialEq, Eq, Structural)]
pub struct OutOfBounds;

pub open spec fn date_res(r: Result<Date, OutOfBounds>) -> Result<Ymd, OutOfBounds> {
    match r {
        Ok(d) => Ok(d@),
        Err(e) => Err(e),
    }
}

pub open spec fn opt_date(r: Option<Date>) -> Option<Ymd> {
    match r {
        Some(d) => Some(d@),
        None => None,
    }
}

pub open spec fn opt_date_res(r: Result<Option<Date>, OutOfBounds>) -> Result<
    Option<Ymd>,
    OutOfBounds,
> {
    match r {
        Ok(d) => Ok(opt_date(d)),
        Err(e) => Err(e),
    }
}

/// A day of the week.
#[derive(Clone, Copy, Debug, PartialEq, Eq, Structural, Hash)]
pub enum Weekday {
    Mon,
    Tue,
    Wed,
    Thu,
    Fri,
    Sat,
    Sun,
}

impl Weekday {
    /// Days since Monday: 0 for Monday, 6 for Sunday.
    pub open spec fn monday_index(self) -> int {
        match self {
            Weekday::Mon => 0,
            Weekday::Tue => 1,
            Weekday::Wed => 2,
            Weekday::Thu => 3,
            Weekday::Fri => 4,
            Weekday::Sat => 5,
            Weekday::Sun => 6,
        }
    }

    /// Days since Sunday: 0 for Sunday, 6 for Saturday.
    pub open spec fn sunday_index(self) -> int {
        (self.monday_index() + 1) % 7
    }

    /// Day-of-week number starting from Monday = 0.
    pub fn num_days_from_monday(&self) -> (r: u32)
        ensures
            r == self.monday_index(),
    {
        match self {
            Weekday::Mon => 0,
            Weekday::Tue => 1,
            Weekday::Wed => 2,
            Weekday::Thu => 3,
            Weekday::Fri => 4,
            Weekday::Sat => 5,
            Weekday::Sun => 6,
        }
    }

    /// Day-of-week number starting from Sunday = 0.
    pub fn num_days_from_sunday(&self) -> (r: u32)
        ensures
            r == self.sunday_index(),
    {
        match self {
            Weekday::Mon => 1,
            Weekday::Tue => 2,
            Weekday::Wed => 3,
            Weekday::Thu => 4,
            Weekday::Fri => 5,
            Weekday::Sat => 6,
            Weekday::Sun => 0,
        }
    }

    /// The weekday `n` days after a Monday, for `n` from 0 to 6.
    pub open spec fn with_monday_index(n: int) -> Weekday {
        if n == 0 {
            Weekday::Mon
        } else if n == 1 {
            Weekday::Tue
        } else if n == 2 {
            Weekday::Wed
        } else if n == 3 {
            Weekday::Thu
        } else if n == 4 {
            Weekday::Fri
        } else if n == 5 {
            Weekday::Sat
        } else {
            Weekday::Sun
        }
    }

    /// The weekday that is `n` days after a Monday.
    pub fn from_monday_index(n: u32) -> (w: Weekday)
        requires
            n < 7,
        ensures
            w == Weekday::with_monday_index(n as int),
            w.monday_index() == n,
    {
        if n == 0 {
            Weekday::Mon
        } else if n == 1 {
            Weekday::Tue
        } else if n == 2 {
            Weekday::Wed
        } else if n == 3 {
            Weekday::Thu
        } else if n == 4 {
            Weekday::Fri
        } else if n == 5 {
            Weekday::Sat
        } else {
            Weekday::Sun
        }
    }
}

/// A month of the year.
#[derive(Clone, Copy, Debug, PartialEq, Eq, Structural, Hash)]
pub enum Month {
    January,
    February,
    March,
    April,
    May,
    June,
    July,
    August,
    September,
    October,
    November,
    December,
}

impl Month {
    /// 1 for January to 12 for December.
    pub open spec fn number(self) -> int {
        match self {
            Month::January => 1,
            Month::February => 2,
            Month::March => 3,
            Month::April => 4,
            Month::May => 5,
            Month::June => 6,
            Month::July => 7,
            Month::August => 8,
            Month::September => 9,
            Month::October => 10,
            Month::November => 11,
            Month::December => 12,
        }
    }

    /// Month-of-year number starting from January = 1.
    pub fn number_from_month(&self) -> (r: u32)
        ensures
            r == self.number(),
    {
        match self {
            Month::January => 1,
            Month::February => 2,
            Month::March => 3,
            Month::April => 4,
            Month::May => 5,
            Month::June => 6,
            Month::July => 7,
            Month::August => 8,
            Month::September => 9,
            Month::October => 10,
            Month::November => 11,
            Month::December => 12,
        }
    }
}

/// A calendar date without a time zone, in the range of years
/// [`MIN_YEAR`] to [`MAX_YEAR`].
#[derive(Clone, Copy, Debug, PartialEq, Eq, Structural)]
pub struct Date {
    pub(crate) year: i32,
    pub(crate) month: u32,
    pub(crate) day: u32,
}

impl View for Date {
    type V = Ymd;

    closed spec fn view(&self) -> Ymd {
        (self.year as int, self.month as int, self.day as int)
    }
}

/// The date with the given triple (meaningful when the triple is valid).
pub closed spec fn date_value(v: Ymd) -> Date {
    Date { year: v.0 as i32, month: v.1 as u32, day: v.2 as u32 }
}

/// A date is the value of its own triple.
pub proof fn lemma_date_value(d: Date)
    ensures
        date_value(d@) == d,
{
}

/// The date of a valid triple has that triple as its view.
pub proof fn lemma_date_value_view(v: Ymd)
    requires
        valid_ymd(v),
    ensures
        date_value(v)@ == v,
{
}

impl Date {
    /// Every date names a day that exists.
    #[verifier::type_invariant]
    pub open spec fn wf(self) -> bool {
        valid_ymd(self@)
    }

    /// The date with the given year, month and day, or `None` when that day
    /// does not exist or its year is out of range.
    pub fn from_ymd_opt(year: i32, month: u32, day: u32) -> (r: Option<Date>)
        ensures
            opt_date(r) == (if valid_ymd((year as int, month as int, day as int)) {
                Some((year as int, month as int, day as int))
            } else {
                None
            }),
    {
        crate::chrono_ops::ymd_opt(year, month, day)
    }

    pub fn year(&self) -> (r: i32)
        ensures
            r == self@.0,
    {
        self.year
    }

    pub fn month(&self) -> (r: u32)
        ensures
            r == self@.1,
    {
        self.month
    }

    pub fn day(&self) -> (r: u32)
        ensures
            r == self@.2,
    {
        self.day
    }

    /// Whether `self` comes strictly before `other`.
    pub fn is_before(&self, other: &Date) -> (r: bool)
        ensures
            r == ymd_before(self@, other@),
    {
        self.year < other.year || (self.year == other.year && (self.month < other.month || (
        self.month == other.month && self.day < other.day)))
    }
}

} // verus!
