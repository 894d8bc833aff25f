//! Lockdates: the moment from which an envelope can be opened, as a local
//! date and time with a fixed offset from UTC.

use vstd::prelude::*;
use vstd::utf8::*;
use chrono::{Datelike, Timelike, TimeZone};
use crate::text::{is_ascii_bytes, lemma_ascii_chars_encode};

verus! {

/// The text pattern of a lockdate, in chrono's notation.
pub const LOCKDATE_FORMAT: &'static str = "%Y-%m-%dT%H:%M:%S%z";

/// A local date and time and its offset from UTC in minutes. The functions
/// that read one ask that it be valid (`wf`); `new` and `parse` give only
/// valid ones.
#[derive(Debug, PartialEq, Eq, Structural, Clone, Copy)]
pub struct Lockdate {
    pub year: i32,
    pub month: u32,
    pub day: u32,
    pub hour: u32,
    pub minute: u32,
    pub second: u32,
    pub offset_minutes: i32,
}

/// A leap year of the Gregorian calendar.
pub open spec fn is_leap_year(y: int) -> bool {
    (y % 4 == 0 && y % 100 != 0) || y % 400 == 0
}

/// The number of days in month `m` of year `y`.
pub open spec fn days_in_month(y: int, m: int) -> int {
    if m == 2 {
        if is_leap_year(y) {
            29
        } else {
            28
        }
    } else if m == 4 || m == 6 || m == 9 || m == 11 {
        30
    } else {
        31
    }
}

/// The fields make a real moment, with a four-digit year and an offset of
/// less than a day.
pub open spec fn valid_fields(
    year: int,
    month: int,
    day: int,
    hour: int,
    minute: int,
    second: int,
    offset_minutes: int,
) -> bool {
    &&& 1 <= year <= 9999
    &&& 1 <= month <= 12
    &&& 1 <= day <= days_in_month(year, month)
    &&& 0 <= hour < 24
    &&& 0 <= minute < 60
    &&& 0 <= second < 60
    &&& -1440 < offset_minutes < 1440
}

/// A decimal digit.
pub open spec fn digit(v: int) -> char {
    ((48 + v) as u8) as char
}

/// `v` in two digits.
pub open spec fn two_digits(v: int) -> Seq<char> {
    seq![digit(v / 10), digit(v % 10)]
}

/// `v` in four digits.
pub open spec fn four_digits(v: int) -> Seq<char> {
    seq![digit(v / 1000), digit((v / 100) % 10), digit((v / 10) % 10), digit(v % 10)]
}

/// An offset in minutes as `+hhmm` or `-hhmm`.
pub open spec fn offset_text(m: int) -> Seq<char> {
    let a = if m < 0 {
        -m
    } else {
        m
    };
    seq![if m < 0 { '-' } else { '+' }] + two_digits(a / 60) + two_digits(a % 60)
}

impl Lockdate {
    pub open spec fn wf(self) -> bool {
        valid_fields(
            self.year as int,
            self.month as int,
            self.day as int,
            self.hour as int,
            self.minute as int,
            self.second as int,
            self.offset_minutes as int,
        )
    }

    /// The fields as chrono gives them: local date and time, and the offset
    /// in seconds.
    pub open spec fn fields(self) -> (i32, u32, u32, u32, u32, u32, i32) {
        (
            self.year,
            self.month,
            self.day,
            self.hour,
            self.minute,
            self.second,
            (self.offset_minutes * 60) as i32,
        )
    }
}

/// A lockdate written in the lockdate pattern, e.g. `2022-11-19T17:00:00+0100`.
pub open spec fn lockdate_text(d: Lockdate) -> Seq<char> {
    four_digits(d.year as int) + seq!['-'] + two_digits(d.month as int) + seq!['-'] + two_digits(
        d.day as int,
    ) + seq!['T'] + two_digits(d.hour as int) + seq![':'] + two_digits(d.minute as int) + seq![
        ':',
    ] + two_digits(d.second as int) + offset_text(d.offset_minutes as int)
}

/// What chrono's `DateTime::parse_from_str` reads from `text` in the lockdate
/// pattern: local year, month, day, hour, minute, second, and the offset in
/// seconds.
pub uninterp spec fn chrono_lockdate_fields(text: Seq<char>) -> Option<
    (i32, u32, u32, u32, u32, u32, i32),
>;

/// The lockdate that parsed fields describe, where they make a valid one.
pub open spec fn lockdate_of_fields(t: (i32, u32, u32, u32, u32, u32, i32)) -> Option<Lockdate> {
    if t.6 % 60 == 0 && valid_fields(
        t.0 as int,
        t.1 as int,
        t.2 as int,
        t.3 as int,
        t.4 as int,
        t.5 as int,
        (t.6 / 60) as int,
    ) {
        Some(
            Lockdate {
                year: t.0,
                month: t.1,
                day: t.2,
                hour: t.3,
                minute: t.4,
                second: t.5,
                offset_minutes: (t.6 / 60) as i32,
            },
        )
    } else {
        None
    }
}

/// What a lockdate text reads as.
pub open spec fn parsed_lockdate(text: Seq<char>) -> Option<Lockdate> {
    match chrono_lockdate_fields(text) {
        Some(t) => lockdate_of_fields(t),
        None => None,
    }
}

/// Relies on chrono's `DateTime::parse_from_str` with the lockdate pattern:
/// the outcome depends on the text alone, and the text of a valid lockdate
/// reads back as its local fields and offset.
#[verifier::external_body]
fn chrono_parse(text: &str) -> (r: Option<(i32, u32, u32, u32, u32, u32, i32)>)
    ensures
        r == chrono_lockdate_fields(text@),
        forall|d: Lockdate|
            d.wf() && #[trigger] lockdate_text(d) == text@ ==> r == Some(d.fields()),
{
    match chrono::DateTime::parse_from_str(text, LOCKDATE_FORMAT) {
        Ok(t) => Some(
            (
                t.year(),
                t.month(),
                t.day(),
                t.hour(),
                t.minute(),
                t.second(),
                t.offset().local_minus_utc(),
            ),
        ),
        Err(_) => None,
    }
}

/// Relies on chrono's `DateTime::format` with the lockdate pattern, on the
/// moment that the fields make: a four-digit year, two digits for each other
/// field, and the offset as a sign, two digits of hours and two of minutes.
#[verifier::external_body]
fn chrono_format(d: &Lockdate, offset_seconds: i32) -> (r: String)
    requires
        d.wf(),
        offset_seconds == d.offset_minutes * 60,
    ensures
        r@ == lockdate_text(*d),
{
    let zone = chrono::FixedOffset::east_opt(offset_seconds).unwrap();
    let t = zone.with_ymd_and_hms(d.year, d.month, d.day, d.hour, d.minute, d.second).unwrap();
    t.format(LOCKDATE_FORMAT).to_string()
}

/// The number of days in month `m` of year `y`.
fn month_length(y: i32, m: u32) -> (r: u32)
    requires
        1 <= y <= 9999,
        1 <= m <= 12,
    ensures
        r == days_in_month(y as int, m as int),
{
    if m == 2 {
        if (y % 4 == 0 && y % 100 != 0) || y % 400 == 0 {
            29
        } else {
            28
        }
    } else if m == 4 || m == 6 || m == 9 || m == 11 {
        30
    } else {
        31
    }
}

impl Lockdate {
    /// The lockdate with these fields, if they make a valid one.
    pub fn new(
        year: i32,
        month: u32,
        day: u32,
        hour: u32,
        minute: u32,
        second: u32,
        offset_minutes: i32,
    ) -> (r: Option<Lockdate>)
        ensures
            r is Some <==> valid_fields(
                year as int,
                month as int,
                day as int,
                hour as int,
                minute as int,
                second as int,
                offset_minutes as int,
            ),
            r matches Some(d) ==> d.wf() && d.year == year && d.month == month && d.day == day
                && d.hour == hour && d.minute == minute && d.second == second && d.offset_minutes
                == offset_minutes,
    {
        if year < 1 || year > 9999 || month < 1 || month > 12 || day < 1 || hour >= 24 || minute
            >= 60 || second >= 60 || offset_minutes <= -1440 || offset_minutes >= 1440 {
            return None;
        }
        if day > month_length(year, month) {
            return None;
        }
        Some(Lockdate { year, month, day, hour, minute, second, offset_minutes })
    }

    /// Reads a lockdate written in the lockdate pattern.
    pub fn parse(text: &str) -> (r: Option<Lockdate>)
        ensures
            r == parsed_lockdate(text@),
            r matches Some(d) ==> d.wf(),
            forall|d: Lockdate| d.wf() && #[trigger] lockdate_text(d) == text@ ==> r == Some(d),
    {
        match chrono_parse(text) {
            Some(t) => {
                if t.6 % 60 != 0 {
                    return None;
                }
                let r = Lockdate::new(t.0, t.1, t.2, t.3, t.4, t.5, t.6 / 60);
                proof {
                    assert forall|d: Lockdate| d.wf() && #[trigger] lockdate_text(d) == text@
                        implies r == Some(d) by {
                        assert(t == d.fields());
                        assert((d.offset_minutes * 60) as i32 / 60 == d.offset_minutes);
                    }
                }
                r
            },
            None => None,
        }
    }

    /// The lockdate written in the lockdate pattern.
    pub fn to_text(&self) -> (r: String)
        requires
            self.wf(),
        ensures
            r@ == lockdate_text(*self),
            is_ascii_chars(r@),
    {
        let r = chrono_format(self, self.offset_minutes * 60);
        proof {
            lemma_lockdate_text_ascii(*self);
        }
        r
    }
}

proof fn lemma_digit_ascii(v: int)
    requires
        0 <= v < 10,
    ensures
        '\0' <= digit(v) <= '\u{7f}',
{
}

/// The text of a valid lockdate is ASCII.
pub proof fn lemma_lockdate_text_ascii(d: Lockdate)
    requires
        d.wf(),
    ensures
        is_ascii_chars(lockdate_text(d)),
        is_ascii_bytes(encode_utf8(lockdate_text(d))),
{
    let t = lockdate_text(d);
    let y = d.year as int;
    lemma_digit_ascii(y / 1000);
    lemma_digit_ascii((y / 100) % 10);
    lemma_digit_ascii((y / 10) % 10);
    lemma_digit_ascii(y % 10);
    let vals = seq![d.month as int, d.day as int, d.hour as int, d.minute as int, d.second as int];
    assert forall|k: int| 0 <= k < 5 implies '\0' <= digit(#[trigger] vals[k] / 10) <= '\u{7f}'
        && '\0' <= digit(vals[k] % 10) <= '\u{7f}' by {
        lemma_digit_ascii(vals[k] / 10);
        lemma_digit_ascii(vals[k] % 10);
    }
    let m = d.offset_minutes as int;
    let a = if m < 0 {
        -m
    } else {
        m
    };
    lemma_digit_ascii((a / 60) / 10);
    lemma_digit_ascii((a / 60) % 10);
    lemma_digit_ascii((a % 60) / 10);
    lemma_digit_ascii((a % 60) % 10);
    assert(is_ascii_chars(t)) by {
        assert(vals[0] == d.month as int);
        assert(vals[1] == d.day as int);
        assert(vals[2] == d.hour as int);
        assert(vals[3] == d.minute as int);
        assert(vals[4] == d.second as int);
        assert(t.len() == 24);
        assert forall|i: int| 0 <= i < t.len() implies '\0' <= #[trigger] t[i] <= '\u{7f}' by {
        }
    }
    lemma_ascii_chars_encode(t);
}

} // verus!
