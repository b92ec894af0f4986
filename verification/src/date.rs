//! Civil calendar dates as plain values: validity under the Gregorian rules
//! and the ISO `YYYY-MM-DD` text form used on the wire.

use vstd::prelude::*;

use crate::text::{digit_char, digit_char_of, push_char};

verus! {

/// A civil calendar date. Card fields encode years in the Minguo calendar;
/// they are converted on decoding, so this type always carries a civil year.
#[derive(Clone, Copy, Debug, PartialEq, Eq, Structural)]
pub struct Date {
    pub year: u16,
    pub month: u8,
    pub day: u8,
}

pub open spec fn is_leap_year(y: int) -> bool {
    (y % 4 == 0 && y % 100 != 0) || y % 400 == 0
}

pub open spec fn days_in_month(y: int, m: int) -> int {
    if m == 2 {
        if is_leap_year(y) {
            29
        } else {
            28
        }
    } else if m == 4 || m == 6 || m == 9 || m == 11 {
        30
    } else {
        31
    }
}

/// Whether year, month and day name a day of the civil calendar.
pub open spec fn date_valid(y: int, m: int, d: int) -> bool {
    &&& 1 <= m <= 12
    &&& 1 <= d <= days_in_month(y, m)
}

/// The last two decimal digits of a value, as characters.
pub open spec fn two_digit_chars(n: int) -> Seq<char> {
    seq![digit_char(n / 10 % 10), digit_char(n % 10)]
}

/// The last four decimal digits of a value, as characters.
pub open spec fn four_digit_chars(n: int) -> Seq<char> {
    seq![
        digit_char(n / 1000 % 10),
        digit_char(n / 100 % 10),
        digit_char(n / 10 % 10),
        digit_char(n % 10),
    ]
}

/// The ISO text form of a date: zero-padded year, month and day, separated
/// by hyphens.
pub open spec fn iso_date_chars(d: Date) -> Seq<char> {
    four_digit_chars(d.year as int) + seq!['-'] + two_digit_chars(d.month as int) + seq!['-']
        + two_digit_chars(d.day as int)
}

impl Date {
    pub open spec fn valid(self) -> bool {
        date_valid(self.year as int, self.month as int, self.day as int)
    }

    /// Builds a date, accepting exactly the triples that name a calendar day.
    pub fn new(year: u16, month: u8, day: u8) -> (r: Option<Date>)
        ensures
            r is Some <==> date_valid(year as int, month as int, day as int),
            r matches Some(d) ==> d == (Date { year, month, day }),
    {
        if month < 1 || month > 12 {
            return None;
        }
        let leap = (year % 4 == 0 && year % 100 != 0) || year % 400 == 0;
        let max_day: u8 = if month == 2 {
            if leap {
                29
            } else {
                28
            }
        } else if month == 4 || month == 6 || month == 9 || month == 11 {
            30
        } else {
            31
        };
        if day < 1 || day > max_day {
            return None;
        }
        Some(Date { year, month, day })
    }

    /// Writes the date as ISO `YYYY-MM-DD` text.
    pub fn to_iso_string(&self) -> (s: String)
        ensures
            s@ == iso_date_chars(*self),
    {
        let mut s = String::new();
        push_char(&mut s, digit_char_of((self.year / 1000 % 10) as u8));
        push_char(&mut s, digit_char_of((self.year / 100 % 10) as u8));
        push_char(&mut s, digit_char_of((self.year / 10 % 10) as u8));
        push_char(&mut s, digit_char_of((self.year % 10) as u8));
        push_char(&mut s, '-');
        push_char(&mut s, digit_char_of(self.month / 10 % 10));
        push_char(&mut s, digit_char_of(self.month % 10));
        push_char(&mut s, '-');
        push_char(&mut s, digit_char_of(self.day / 10 % 10));
        push_char(&mut s, digit_char_of(self.day % 10));
        proof {
            assert(s@ =~= iso_date_chars(*self));
        }
        s
    }
}

} // verus!
