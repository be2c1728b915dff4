//! A UTC date and time held as its calendar fields.

use vstd::prelude::*;

verus! {

/// Smallest year a UTC timestamp can carry.
pub const MIN_YEAR: i32 = -262143;

/// Largest year a UTC timestamp can carry.
pub const MAX_YEAR: i32 = 262142;

/// Gregorian leap year rule (proleptic, so it also applies before 1582).
pub open spec fn is_leap_year(year: int) -> bool {
    (year % 4 == 0 && year % 100 != 0) || year % 400 == 0
}

/// Number of days in month `month` (1..=12) of `year`.
pub open spec fn days_in_month(year: int, month: int) -> int {
    if month == 2 {
        if is_leap_year(year) {
            29
        } else {
            28
        }
    } else if month == 4 || month == 6 || month == 9 || month == 11 {
        30
    } else {
        31
    }
}

/// Fields that name an existing UTC instant. A nanosecond count of one
/// second or more marks a leap second and is only allowed in second 59.
pub open spec fn valid_date_time(
    year: int,
    month: int,
    day: int,
    hour: int,
    minute: int,
    second: int,
    nanosecond: int,
) -> bool {
    &&& MIN_YEAR <= year <= MAX_YEAR
    &&& 1 <= month <= 12
    &&& 1 <= day <= days_in_month(year, month)
    &&& 0 <= hour < 24
    &&& 0 <= minute < 60
    &&& 0 <= second < 60
    &&& 0 <= nanosecond < 2_000_000_000
    &&& (nanosecond >= 1_000_000_000 ==> second == 59)
}

/// A point in time in UTC, as year, month, day, hour, minute, second and nanosecond.
#[derive(Clone, Copy, Debug)]
pub struct UtcDateTime {
    year: i32,
    month: u32,
    day: u32,
    hour: u32,
    minute: u32,
    second: u32,
    nanosecond: u32,
}

impl UtcDateTime {
    #[verifier::type_invariant]
    spec fn well_formed(self) -> bool {
        valid_date_time(
            self.year as int,
            self.month as int,
            self.day as int,
            self.hour as int,
            self.minute as int,
            self.second as int,
            self.nanosecond as int,
        )
    }

    pub closed spec fn spec_year(self) -> int {
        self.year as int
    }

    pub closed spec fn spec_month(self) -> int {
        self.month as int
    }

    pub closed spec fn spec_day(self) -> int {
        self.day as int
    }

    pub closed spec fn spec_hour(self) -> int {
        self.hour as int
    }

    pub closed spec fn spec_minute(self) -> int {
        self.minute as int
    }

    pub closed spec fn spec_second(self) -> int {
        self.second as int
    }

    pub closed spec fn spec_nanosecond(self) -> int {
        self.nanosecond as int
    }

    /// Builds the instant with the given fields, or `None` when they name no instant.
    pub fn new(
        year: i32,
        month: u32,
        day: u32,
        hour: u32,
        minute: u32,
        second: u32,
        nanosecond: u32,
    ) -> (res: Option<UtcDateTime>)
        ensures
            res is Some <==> valid_date_time(
                year as int,
                month as int,
                day as int,
                hour as int,
                minute as int,
                second as int,
                nanosecond as int,
            ),
            res matches Some(t) ==> {
                &&& t.spec_year() == year
                &&& t.spec_month() == month
                &&& t.spec_day() == day
                &&& t.spec_hour() == hour
                &&& t.spec_minute() == minute
                &&& t.spec_second() == second
                &&& t.spec_nanosecond() == nanosecond
            },
    {
        if year < MIN_YEAR || year > MAX_YEAR || month < 1 || month > 12 || day < 1 {
            return None;
        }
        let leap: bool = (year % 4 == 0 && year % 100 != 0) || year % 400 == 0;
        let month_len: u32 = if month == 2 {
            if leap {
                29
            } else {
                28
            }
        } else if month == 4 || month == 6 || month == 9 || month == 11 {
            30
        } else {
            31
        };
        if day > month_len || hour >= 24 || minute >= 60 || second >= 60 {
            return None;
        }
        if nanosecond >= 2_000_000_000 || (nanosecond >= 1_000_000_000 && second != 59) {
            return None;
        }
        Some(UtcDateTime { year, month, day, hour, minute, second, nanosecond })
    }

    pub fn year(&self) -> (r: i32)
        ensures
            r == self.spec_year(),
            MIN_YEAR <= r <= MAX_YEAR,
    {
        proof {
            use_type_invariant(self);
        }
        self.year
    }

    /// The month, 1 (January) to 12 (December).
    pub fn month(&self) -> (r: u32)
        ensures
            r == self.spec_month(),
            1 <= r <= 12,
    {
        proof {
            use_type_invariant(self);
        }
        self.month
    }

    /// The day of the month, starting from 1.
    pub fn day(&self) -> (r: u32)
        ensures
            r == self.spec_day(),
            1 <= r <= days_in_month(self.spec_year(), self.spec_month()),
    {
        proof {
            use_type_invariant(self);
        }
        self.day
    }

    pub fn hour(&self) -> (r: u32)
        ensures
            r == self.spec_hour(),
            r < 24,
    {
        proof {
            use_type_invariant(self);
        }
        self.hour
    }

    pub fn minute(&self) -> (r: u32)
        ensures
            r == self.spec_minute(),
            r < 60,
    {
        proof {
            use_type_invariant(self);
        }
        self.minute
    }

    pub fn second(&self) -> (r: u32)
        ensures
            r == self.spec_second(),
            r < 60,
    {
        proof {
            use_type_invariant(self);
        }
        self.second
    }

    pub fn nanosecond(&self) -> (r: u32)
        ensures
            r == self.spec_nanosecond(),
            r < 2_000_000_000,
    {
        proof {
            use_type_invariant(self);
        }
        self.nanosecond
    }
}

} // verus!
