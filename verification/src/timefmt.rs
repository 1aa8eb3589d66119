//! Timestamps in the display timezone, as plain values, and their
//! formatting: `DD/MM/YYYY` dates and 12-hour clock times.

use vstd::prelude::*;

use chrono::Datelike;
use chrono::TimeZone;
use chrono::Timelike;

use crate::numfmt::{dec_nat, digit_to_char, four_digits, two_digits, u64_to_dec_chars};

verus! {

/// A timestamp already converted to the display timezone, held as plain
/// calendar and clock values.
#[derive(Clone, Copy, Debug, PartialEq, Eq, Structural)]
pub struct LocalStamp {
    pub year: i32,
    pub month: u8,
    pub day: u8,
    pub hour: u8,
    pub minute: u8,
}

impl LocalStamp {
    /// The field ranges of a valid calendar timestamp, as chrono documents
    /// them: months `1..=12`, days `1..=31`, hours `0..=23`, minutes
    /// `0..=59`, and years within chrono's documented span of roughly
    /// ±262000 (bounded here with a margin).
    pub open spec fn wf(self) -> bool {
        &&& 1 <= self.month <= 12
        &&& 1 <= self.day <= 31
        &&& self.hour <= 23
        &&& self.minute <= 59
        &&& -300000 <= self.year <= 300000
    }
}

/// The wire timestamp converted to the named display timezone: `None`
/// when the text is not a valid RFC 3339 timestamp or the name is not a
/// known timezone. The timezone database is compiled into the library,
/// so this is a function of the two texts alone.
pub uninterp spec fn stamp_of(rfc3339: Seq<char>, tz_name: Seq<char>) -> Option<LocalStamp>;

/// Relies on chrono_tz's `FromStr` for `Tz`, chrono's
/// `DateTime::parse_from_rfc3339` and `with_timezone`, and chrono's
/// documented field ranges (month `1..=12`, day `1..=31`, hour `0..=23`,
/// minute `0..=59`, years within about ±262000): the converted timestamp
/// is a function of the timestamp text and the timezone name alone.
#[verifier::external_body]
pub(crate) fn stamp_in_timezone(rfc3339: &str, tz_name: &str) -> (r: Option<LocalStamp>)
    ensures
        r == stamp_of(rfc3339@, tz_name@),
        r matches Some(st) ==> st.wf(),
{
    let tz: chrono_tz::Tz = tz_name.parse().ok()?;
    let dt = chrono::DateTime::parse_from_rfc3339(rfc3339).ok()?;
    let l = dt.with_timezone(&tz);
    Some(LocalStamp {
        year: l.year(),
        month: l.month() as u8,
        day: l.day() as u8,
        hour: l.hour() as u8,
        minute: l.minute() as u8,
    })
}

/// Relies on chrono_tz's `FromStr` for `Tz`, chrono's `Local::now` and
/// chrono_tz's `from_local_datetime`, with chrono's documented field
/// ranges as above. The result depends on the clock: nothing more than
/// validity is claimed of it. An ambiguous local time takes the earlier
/// interpretation; `None` for an unknown timezone name or a local time
/// that does not exist in the timezone.
#[verifier::external_body]
pub(crate) fn now_in_timezone(tz_name: &str) -> (r: Option<LocalStamp>)
    ensures
        r matches Some(st) ==> st.wf(),
{
    let tz: chrono_tz::Tz = tz_name.parse().ok()?;
    let picked = match tz.from_local_datetime(&chrono::Local::now().naive_utc()) {
        chrono::LocalResult::Single(dt) => Some(dt),
        chrono::LocalResult::Ambiguous(dt, _) => Some(dt),
        chrono::LocalResult::None => None,
    };
    picked.map(|l| LocalStamp {
        year: l.year(),
        month: l.month() as u8,
        day: l.day() as u8,
        hour: l.hour() as u8,
        minute: l.minute() as u8,
    })
}

/// The current time in the named display timezone, `None` when it cannot
/// be expressed there.
pub fn current_stamp(tz_name: &str) -> (r: Option<LocalStamp>)
    ensures
        r matches Some(st) ==> st.wf(),
{
    now_in_timezone(tz_name)
}

/// The timestamp a post is shown under, given the fallback for wire
/// timestamps that do not convert.
pub open spec fn shown_stamp(created_at: Seq<char>, tz_name: Seq<char>, fallback: LocalStamp) -> LocalStamp {
    match stamp_of(created_at, tz_name) {
        Some(st) => st,
        None => fallback,
    }
}

/// The timestamp of one post in the display timezone: the converted wire
/// timestamp, or the given fallback when it does not convert.
pub fn post_stamp(created_at: &str, tz_name: &str, fallback: LocalStamp) -> (r: LocalStamp)
    requires
        fallback.wf(),
    ensures
        r == shown_stamp(created_at@, tz_name@, fallback),
        r.wf(),
{
    match stamp_in_timezone(created_at, tz_name) {
        Some(st) => st,
        None => fallback,
    }
}

/// A non-negative year, four digits zero padded, more when it needs them.
pub open spec fn padded4(n: int) -> Seq<char> {
    if n < 10000 {
        four_digits(n)
    } else {
        dec_nat(n as nat)
    }
}

/// The year as text: its magnitude padded to four digits, with a minus
/// sign for years before year zero.
pub open spec fn year_digits(y: int) -> Seq<char> {
    if y < 0 {
        seq!['-'] + padded4(-y)
    } else {
        padded4(y)
    }
}

/// The formatted date, `DD/MM/YYYY`.
pub open spec fn date_str(st: LocalStamp) -> Seq<char> {
    two_digits(st.day as int) + seq!['/'] + two_digits(st.month as int) + seq!['/'] + year_digits(
        st.year as int,
    )
}

/// The hour on the 12-hour clock: `12` for midnight and noon.
pub open spec fn hour12_of(h: int) -> int {
    if h % 12 == 0 {
        12
    } else {
        h % 12
    }
}

/// The clock suffix: `AM` before noon, `PM` from noon on.
pub open spec fn am_pm(h: int) -> Seq<char> {
    if h < 12 {
        seq!['A', 'M']
    } else {
        seq!['P', 'M']
    }
}

/// The formatted time, `HH:MM AM` or `HH:MM PM` on the 12-hour clock.
pub open spec fn time_str(st: LocalStamp) -> Seq<char> {
    two_digits(hour12_of(st.hour as int)) + seq![':'] + two_digits(st.minute as int) + seq![' ']
        + am_pm(st.hour as int)
}

/// The magnitude of a year as text, four digits zero padded.
fn year_mag_chars(n: u32) -> (r: Vec<char>)
    ensures
        r@ == padded4(n as int),
{
    if n < 10000 {
        let mut v: Vec<char> = Vec::new();
        v.push(digit_to_char((n / 1000) as u8));
        v.push(digit_to_char(((n / 100) % 10) as u8));
        v.push(digit_to_char(((n / 10) % 10) as u8));
        v.push(digit_to_char((n % 10) as u8));
        proof {
            assert(v@ =~= four_digits(n as int));
        }
        v
    } else {
        u64_to_dec_chars(n as u64)
    }
}

/// The formatted date of the timestamp, `DD/MM/YYYY`.
pub fn format_date(st: &LocalStamp) -> (r: Vec<char>)
    requires
        st.wf(),
    ensures
        r@ == date_str(*st),
{
    let mut v: Vec<char> = Vec::new();
    v.push(digit_to_char(st.day / 10));
    v.push(digit_to_char(st.day % 10));
    v.push('/');
    v.push(digit_to_char(st.month / 10));
    v.push(digit_to_char(st.month % 10));
    v.push('/');
    if st.year < 0 {
        v.push('-');
        let mut w = year_mag_chars((-(st.year as i64)) as u32);
        v.append(&mut w);
    } else {
        let mut w = year_mag_chars(st.year as u32);
        v.append(&mut w);
    }
    proof {
        assert(v@ =~= date_str(*st));
    }
    v
}

/// The formatted time of the timestamp on the 12-hour clock.
pub fn format_time(st: &LocalStamp) -> (r: Vec<char>)
    requires
        st.wf(),
    ensures
        r@ == time_str(*st),
{
    let h12: u8 = if st.hour % 12 == 0 {
        12
    } else {
        st.hour % 12
    };
    let mut v: Vec<char> = Vec::new();
    v.push(digit_to_char(h12 / 10));
    v.push(digit_to_char(h12 % 10));
    v.push(':');
    v.push(digit_to_char(st.minute / 10));
    v.push(digit_to_char(st.minute % 10));
    v.push(' ');
    if st.hour < 12 {
        v.push('A');
    } else {
        v.push('P');
    }
    v.push('M');
    proof {
        assert(v@ =~= time_str(*st));
    }
    v
}

} // verus!
