//! Calendar days as plain day numbers, with the business-day arithmetic the
//! rate engine needs: weekend tests and the preceding business day.

use vstd::prelude::*;

verus! {

/// Smallest day number the library accepts; keeps a margin so that walking a
/// few days back never leaves the calendar.
pub const MIN_DAY_NUMBER: i64 = 7;

/// Largest day number the library accepts (far beyond any real calendar use);
/// keeps day arithmetic free of overflow.
pub const MAX_DAY_NUMBER: i64 = 0x4000_0000;

/// A calendar day in the proleptic Gregorian calendar, counted as a day
/// number where day 1 is January 1 of year 1, which is a Monday.
#[derive(Clone, Copy, PartialEq, Eq, Structural, Debug, Hash)]
pub struct Date {
    pub days: i64,
}

/// Day of the week of a day number: 0 = Monday, ..., 5 = Saturday, 6 = Sunday.
pub open spec fn day_weekday_index(days: int) -> int {
    (days - 1) % 7
}

/// Whether a day number falls on a Saturday or a Sunday.
pub open spec fn day_is_weekend(days: int) -> bool {
    day_weekday_index(days) >= 5
}

impl Date {
    /// Day numbers the library accepts.
    pub open spec fn wf(self) -> bool {
        MIN_DAY_NUMBER <= self.days <= MAX_DAY_NUMBER
    }

    /// Day of the week: 0 = Monday, ..., 5 = Saturday, 6 = Sunday.
    pub open spec fn weekday_index(self) -> int {
        day_weekday_index(self.days as int)
    }

    pub open spec fn spec_is_weekend(self) -> bool {
        day_is_weekend(self.days as int)
    }

    /// The day number of the nearest business day strictly before `self`:
    /// one day back, or across the weekend when that lands on one.
    pub open spec fn spec_prev_business_day(self) -> int {
        if self.weekday_index() == 0 {
            self.days - 3
        } else if self.weekday_index() == 6 {
            self.days - 2
        } else {
            self.days - 1
        }
    }

    /// Builds a date from a day number, rejecting values outside the
    /// supported range.
    pub fn from_days(days: i64) -> (r: Option<Date>)
        ensures
            r is Some <==> MIN_DAY_NUMBER <= days <= MAX_DAY_NUMBER,
            r is Some ==> r->0 == (Date { days }) && r->0.wf(),
    {
        if MIN_DAY_NUMBER <= days && days <= MAX_DAY_NUMBER {
            Some(Date { days })
        } else {
            None
        }
    }

    /// True on Saturdays and Sundays.
    pub fn is_weekend(&self) -> (r: bool)
        requires
            self.wf(),
        ensures
            r == self.spec_is_weekend(),
    {
        let idx = (self.days - 1) % 7;
        idx >= 5
    }

    /// The nearest business day strictly before `self`: the previous day,
    /// skipping backward over Saturday and Sunday.
    pub fn previous_business_day(&self) -> (r: Date)
        requires
            self.wf(),
        ensures
            r.days == self.spec_prev_business_day(),
            !r.spec_is_weekend(),
            self.days - 3 <= r.days < self.days,
            forall|e: int| r.days < e < self.days ==> day_is_weekend(e),
    {
        let idx = (self.days - 1) % 7;
        let r = if idx == 0 {
            Date { days: self.days - 3 }
        } else if idx == 6 {
            Date { days: self.days - 2 }
        } else {
            Date { days: self.days - 1 }
        };
        proof {
            lemma_weekday_shift(self.days as int);
        }
        r
    }
}

/// Relates the weekday of a day number to the weekdays of the three days
/// before it, which settles every case of the business-day walk.
proof fn lemma_weekday_shift(days: int)
    requires
        days >= 4,
    ensures
        day_weekday_index(days - 1) == (day_weekday_index(days) + 6) % 7,
        day_weekday_index(days - 2) == (day_weekday_index(days) + 5) % 7,
        day_weekday_index(days - 3) == (day_weekday_index(days) + 4) % 7,
{
    let w = day_weekday_index(days);
    let q = (days - 1) / 7;
    vstd::arithmetic::div_mod::lemma_fundamental_div_mod(days - 1, 7);
    assert(days - 1 == 7 * q + w);
    lemma_small_mod_cases(w, days - 2, q);
    lemma_small_mod_cases2(w, days - 3, q);
    lemma_small_mod_cases3(w, days - 4, q);
}

/// days2 == 7q + w - 1 with 0 <= w < 7 forces (days2 % 7) == (w + 6) % 7.
proof fn lemma_small_mod_cases(w: int, days2: int, q: int)
    requires
        0 <= w < 7,
        days2 == 7 * q + w - 1,
    ensures
        days2 % 7 == (w + 6) % 7,
{
    if w == 0 {
        vstd::arithmetic::div_mod::lemma_fundamental_div_mod_converse(days2, 7, q - 1, 6);
    } else {
        vstd::arithmetic::div_mod::lemma_fundamental_div_mod_converse(days2, 7, q, w - 1);
    }
}

/// days2 == 7q + w - 2 with 0 <= w < 7 forces (days2 % 7) == (w + 5) % 7.
proof fn lemma_small_mod_cases2(w: int, days2: int, q: int)
    requires
        0 <= w < 7,
        days2 == 7 * q + w - 2,
    ensures
        days2 % 7 == (w + 5) % 7,
{
    if w <= 1 {
        vstd::arithmetic::div_mod::lemma_fundamental_div_mod_converse(days2, 7, q - 1, w + 5);
    } else {
        vstd::arithmetic::div_mod::lemma_fundamental_div_mod_converse(days2, 7, q, w - 2);
    }
}

/// days2 == 7q + w - 3 with 0 <= w < 7 forces (days2 % 7) == (w + 4) % 7.
proof fn lemma_small_mod_cases3(w: int, days2: int, q: int)
    requires
        0 <= w < 7,
        days2 == 7 * q + w - 3,
    ensures
        days2 % 7 == (w + 4) % 7,
{
    if w <= 2 {
        vstd::arithmetic::div_mod::lemma_fundamental_div_mod_converse(days2, 7, q - 1, w + 4);
    } else {
        vstd::arithmetic::div_mod::lemma_fundamental_div_mod_converse(days2, 7, q, w - 3);
    }
}

} // verus!
