//! The library's view of the clock and of random identifiers.
//!
//! Timestamps are nanoseconds since the Unix epoch; times of day are
//! seconds since local midnight; identifiers are the 128 bits of a UUID.

use vstd::prelude::*;

use chrono::Timelike;

verus! {

/// The instant of a whole-second count and a nanosecond part, in
/// nanoseconds since the epoch.
pub open spec fn instant_of(secs: i64, nanos: u32) -> int {
    secs * 1_000_000_000 + nanos
}

/// The clock's reading: seconds since the Unix epoch and the nanoseconds
/// within the second.
///
/// Trusted: reads `chrono::Local::now` once and wraps `DateTime::timestamp`
/// and `DateTime::timestamp_subsec_nanos`, which chrono documents as below
/// 2,000,000,000 (above 999,999,999 only within a leap second). Nothing
/// else is promised: it is the clock's reading.
#[verifier::external_body]
fn clock_reading() -> (r: (i64, u32))
    ensures
        r.1 < 2_000_000_000,
{
    let now = chrono::Local::now();
    (now.timestamp(), now.timestamp_subsec_nanos())
}

/// An instant in nanoseconds since the epoch, from seconds and nanoseconds.
pub fn nanos_of(secs: i64, nanos: u32) -> (t: i128)
    ensures
        t == instant_of(secs, nanos),
{
    (secs as i128) * 1_000_000_000 + (nanos as i128)
}

/// The current time, in nanoseconds since the Unix epoch.
pub(crate) fn now_nanos() -> (t: i128) {
    let (secs, nanos) = clock_reading();
    nanos_of(secs, nanos)
}

/// The current local time of day, in seconds since midnight.
///
/// Trusted: wraps `chrono::Local::now().time()` and
/// `Timelike::num_seconds_from_midnight`, which chrono documents as lying in
/// `0..86400`. Nothing else is promised: it is the clock's reading.
#[verifier::external_body]
pub(crate) fn local_seconds_of_day() -> (s: u32)
    ensures
        s < 86400,
{
    chrono::Local::now().time().num_seconds_from_midnight()
}

/// How a retention cutoff read together with the instant `now` relates to
/// it: `days` calendar days before now, local time. Zero days give now
/// itself; from two days on the cutoff lies before now; one day lies before
/// now up to a change of the local offset (under a day).
pub open spec fn cutoff_fits(now: i128, cutoff: Option<i128>, days: u32) -> bool {
    match cutoff {
        None => true,
        Some(c) => cutoff_fits_at(now as int, c as int, days),
    }
}

/// `cutoff_fits` over mathematical integers.
pub open spec fn cutoff_fits_at(now: int, c: int, days: u32) -> bool {
    &&& days == 0 ==> c == now
    &&& days >= 1 ==> c < now + 86_400_000_000_000
    &&& days >= 2 ==> c < now
}

/// How far a retention cutoff read together with `now` can lie from exactly
/// `days` days of 24 hours before it: the local clock time is kept and only
/// the local offsets at the two instants can differ, each strictly within a
/// day of UTC, so the cutoff lies strictly within two days of that instant.
pub open spec fn cutoff_near(now: i128, cutoff: Option<i128>, days: u32) -> bool {
    match cutoff {
        None => true,
        Some(c) => cutoff_near_at(now as int, c as int, days),
    }
}

/// `cutoff_near` over mathematical integers.
pub open spec fn cutoff_near_at(now: int, c: int, days: u32) -> bool {
    now - (days + 2) * 86_400_000_000_000 < c < now - (days - 2) * 86_400_000_000_000
}

/// The clock's reading and the instant `days` calendar days before it, each
/// as seconds since the Unix epoch and nanoseconds within the second; the
/// second is `None` where chrono cannot represent it.
///
/// Trusted: reads `chrono::Local::now` once and wraps `DateTime::timestamp`,
/// `DateTime::timestamp_subsec_nanos` and
/// `DateTime::checked_sub_days(Days::new(days))`. chrono's source subtracts
/// the days from the local date, keeping the time of day, and maps the
/// result back only where that local time is unique; local offsets are
/// `FixedOffset`s, which lie strictly within a day of UTC. So zero days give
/// the same instant, and `d` days give an instant more than `d - 2` days
/// earlier (`cutoff_fits_at`), and in general an instant strictly within two
/// days of `days` days of 24 hours earlier (`cutoff_near_at`); nanosecond
/// parts are below 2,000,000,000, as chrono documents. The clock's value
/// itself is not promised, nor is it promised that the cutoff exists: chrono
/// gives `None` where the local time `days` days earlier is ambiguous or
/// skipped by a change of offset.
#[verifier::external_body]
fn reading_and_cutoff(days: u32) -> (r: ((i64, u32), Option<(i64, u32)>))
    ensures
        r.0.1 < 2_000_000_000,
        r.1 matches Some(c) ==> c.1 < 2_000_000_000
            && cutoff_fits_at(instant_of(r.0.0, r.0.1), instant_of(c.0, c.1), days)
            && cutoff_near_at(instant_of(r.0.0, r.0.1), instant_of(c.0, c.1), days),
{
    let now = chrono::Local::now();
    let cutoff = now.checked_sub_days(chrono::Days::new(u64::from(days)));
    ((now.timestamp(), now.timestamp_subsec_nanos()), cutoff.map(|t| (t.timestamp(), t.timestamp_subsec_nanos())))
}

/// The current instant and the instant `days` calendar days before it, in
/// nanoseconds since the Unix epoch; the second is `None` where chrono
/// cannot represent it.
pub(crate) fn now_and_cutoff(days: u32) -> (r: (i128, Option<i128>))
    ensures
        cutoff_fits(r.0, r.1, days),
        cutoff_near(r.0, r.1, days),
{
    let (now, cutoff) = reading_and_cutoff(days);
    let t = nanos_of(now.0, now.1);
    match cutoff {
        Some(c) => (t, Some(nanos_of(c.0, c.1))),
        None => (t, None),
    }
}

/// A fresh random (version 4) UUID, as its 128 bits.
///
/// Trusted: wraps `uuid::Uuid::new_v4` and `Uuid::as_u128`. The value is
/// random, so nothing is promised of it.
#[verifier::external_body]
pub(crate) fn new_uuid() -> (id: u128) {
    uuid::Uuid::new_v4().as_u128()
}

/// What `uuid::Uuid::parse_str` gives for a text: the UUID's 128 bits, or the
/// text of its error.
pub uninterp spec fn uuid_parse(s: Seq<char>) -> Result<u128, Seq<char>>;

/// Parses a UUID in any of the forms that `uuid::Uuid::parse_str` accepts.
///
/// Trusted: wraps `Uuid::parse_str`, `Uuid::as_u128` and the error's
/// `to_string`; the result is a function of the text alone (named
/// `uuid_parse`).
#[verifier::external_body]
pub(crate) fn parse_uuid(s: &str) -> (r: Result<u128, String>)
    ensures
        uuid_parse(s@) == (match r {
            Ok(v) => Ok::<u128, Seq<char>>(v),
            Err(e) => Err::<u128, Seq<char>>(e@),
        }),
{
    match uuid::Uuid::parse_str(s) {
        Ok(u) => Ok(u.as_u128()),
        Err(e) => Err(e.to_string()),
    }
}

/// `16` to the power `k`.
pub open spec fn pow16(k: nat) -> int
    decreases k,
{
    if k == 0 { 1 } else { 16 * pow16((k - 1) as nat) }
}

/// The `k`-th of the 32 hexadecimal digits of a 128-bit value, most
/// significant first.
pub open spec fn nibble(id: u128, k: int) -> int {
    ((id as int) / pow16((31 - k) as nat)) % 16
}

/// The lowercase hexadecimal character of a digit value `0`–`15`.
pub open spec fn hex_char(d: int) -> char {
    if d < 10 { (('0' as int) + d) as char } else { (('a' as int) + d - 10) as char }
}

/// Which hexadecimal digit a position of the hyphenated form shows.
pub open spec fn digit_at(p: int) -> int {
    if p < 8 { p } else if p < 13 { p - 1 } else if p < 18 { p - 2 } else if p < 23 { p - 3 } else { p - 4 }
}

/// The hyphenated text of a UUID given by its 128 bits: its 32 lowercase
/// hexadecimal digits, most significant first, in groups of 8-4-4-4-12
/// joined by `-`.
pub open spec fn uuid_hex_text(id: u128) -> Seq<char> {
    Seq::new(36, |p: int| if p == 8 || p == 13 || p == 18 || p == 23 { '-' } else { hex_char(nibble(id, digit_at(p))) })
}

/// Formats a UUID as lowercase hyphenated hexadecimal.
///
/// Trusted: wraps `Uuid::from_u128` and `to_string`; uuid's `Display` is
/// its `LowerHex` form, the hyphenated 8-4-4-4-12 lowercase hexadecimal
/// digits of the value, most significant first (`uuid_hex_text`).
#[verifier::external_body]
pub(crate) fn format_uuid(id: u128) -> (s: String)
    ensures
        s@ == uuid_hex_text(id),
{
    uuid::Uuid::from_u128(id).to_string()
}

/// What `chrono::NaiveTime::parse_from_str(s, "%H:%M")` gives: the time in
/// seconds since midnight, or the text of its error.
pub uninterp spec fn hour_minute_parse(s: Seq<char>) -> Result<u32, Seq<char>>;

/// Parses an `HH:MM` time of day with chrono.
///
/// Trusted: wraps `NaiveTime::parse_from_str` with the format `%H:%M`,
/// `Timelike::num_seconds_from_midnight` and the error's `to_string`. The
/// result is a function of the text alone (named `hour_minute_parse`); a
/// parsed time lies in `0..86400`, as chrono documents for `NaiveTime`.
#[verifier::external_body]
pub(crate) fn parse_hour_minute(s: &str) -> (r: Result<u32, String>)
    ensures
        hour_minute_parse(s@) == (match r {
            Ok(v) => Ok::<u32, Seq<char>>(v),
            Err(e) => Err::<u32, Seq<char>>(e@),
        }),
        r is Ok ==> r->Ok_0 < 86400,
{
    match chrono::NaiveTime::parse_from_str(s, "%H:%M") {
        Ok(t) => Ok(t.num_seconds_from_midnight()),
        Err(e) => Err(e.to_string()),
    }
}

/// Whether a character is a decimal digit.
pub open spec fn is_digit(c: char) -> bool {
    '0' <= c && c <= '9'
}

/// The value of a decimal digit.
pub open spec fn digit_value(c: char) -> int {
    (c as int) - ('0' as int)
}

/// Whether a text is a time of day `HH:MM`: a zero-padded hour `00`–`23`,
/// a colon and a zero-padded minute `00`–`59`.
pub open spec fn is_hour_minute_text(t: Seq<char>) -> bool {
    &&& t.len() == 5
    &&& is_digit(t[0]) && is_digit(t[1]) && t[2] == ':' && is_digit(t[3]) && is_digit(t[4])
    &&& digit_value(t[0]) * 10 + digit_value(t[1]) < 24
    &&& digit_value(t[3]) * 10 + digit_value(t[4]) < 60
}

/// Instants, in nanoseconds since the epoch, that chrono can always
/// represent: within about 126,000 years of 1970.
pub open spec fn representable_nanos(ts: i128) -> bool {
    -4_000_000_000_000_000_000_000 <= ts <= 4_000_000_000_000_000_000_000
}

/// Whole seconds that chrono can always represent: within about 126,000
/// years of 1970.
pub open spec fn representable_secs(secs: i64) -> bool {
    -4_000_000_000_000 <= secs <= 4_000_000_000_000
}

/// Splits an instant in nanoseconds into whole seconds (rounded down) and
/// the nanoseconds within the second, or `None` where the seconds do not
/// fit an `i64`.
pub fn split_nanos(ts: i128) -> (r: Option<(i64, u32)>)
    ensures
        r matches Some(p) ==> p.1 < 1_000_000_000 && instant_of(p.0, p.1) == ts,
        representable_nanos(ts) ==> (r matches Some(p) && representable_secs(p.0)),
{
    let bound: i128 = 9_000_000_000_000_000_000_000_000_000;
    if ts < -bound || ts > bound {
        return None;
    }
    if ts >= 0 {
        let q = ts / 1_000_000_000;
        let r = ts % 1_000_000_000;
        Some((q as i64, r as u32))
    } else {
        let a = -(ts + 1);
        let q = a / 1_000_000_000;
        let r = a % 1_000_000_000;
        Some(((-q - 1) as i64, (999_999_999 - r) as u32))
    }
}

/// The local wall-clock time `HH:MM` of an instant given as seconds since
/// the epoch and nanoseconds within the second, or `None` where chrono
/// cannot represent the instant.
///
/// Trusted: wraps `DateTime::from_timestamp`, the conversion to the `Local`
/// time zone and `format("%H:%M")`. chrono documents that `from_timestamp`
/// fails only for nanoseconds of 2,000,000,000 or more or more than about
/// 262,000 years from the common era, so an instant within 126,000 years of
/// 1970 gives a time; and that `%H` is the hour `00`–`23` and `%M` the
/// minute `00`–`59`, each zero-padded to two digits. Which hour and minute
/// it is depends on the machine's time zone, so that is not promised.
#[verifier::external_body]
pub(crate) fn local_hour_minute(secs: i64, nanos: u32) -> (r: Option<String>)
    ensures
        r matches Some(t) ==> is_hour_minute_text(t@),
        representable_secs(secs) && nanos < 1_000_000_000 ==> r is Some,
{
    chrono::DateTime::from_timestamp(secs, nanos).map(|t| t.with_timezone(&chrono::Local).format("%H:%M").to_string())
}

/// What `chrono::NaiveDate::parse_from_str(s, "%Y-%m-%d")` gives, as the
/// date's day number counted from the common era (`num_days_from_ce`), or
/// `None` where the text is no such date.
pub uninterp spec fn ymd_day(s: Seq<char>) -> Option<i32>;

/// Parses a `YYYY-MM-DD` date with chrono, as a day number.
///
/// Trusted: wraps `NaiveDate::parse_from_str` with the format `%Y-%m-%d`
/// and `Datelike::num_days_from_ce`; the result is a function of the text
/// alone (named `ymd_day`).
#[verifier::external_body]
pub(crate) fn parse_ymd_day(s: &str) -> (r: Option<i32>)
    ensures
        r == ymd_day(s@),
{
    chrono::NaiveDate::parse_from_str(s, "%Y-%m-%d").ok().map(|d| chrono::Datelike::num_days_from_ce(&d))
}

/// The UTC calendar day of a whole-second count since the epoch, as a day
/// number counted from the common era (1970-01-01 is day 719,163).
pub open spec fn utc_day_of_secs(secs: int) -> int {
    secs / 86_400 + 719_163
}

/// The UTC calendar day of an instant in nanoseconds since the epoch, as a
/// day number counted from the common era.
pub open spec fn utc_day(ts: int) -> int {
    ts / 86_400_000_000_000 + 719_163
}

/// Splitting an instant into seconds and nanoseconds keeps its UTC day.
pub proof fn lemma_utc_day_of_split(secs: int, nanos: int)
    requires
        0 <= nanos < 1_000_000_000,
    ensures
        utc_day(secs * 1_000_000_000 + nanos) == utc_day_of_secs(secs),
{
    let q = secs / 86_400;
    let r = secs % 86_400;
    assert(secs == q * 86_400 + r);
    assert(secs * 1_000_000_000 + nanos == q * 86_400_000_000_000 + (r * 1_000_000_000 + nanos));
    vstd::arithmetic::div_mod::lemma_fundamental_div_mod_converse(
        secs * 1_000_000_000 + nanos,
        86_400_000_000_000,
        q,
        r * 1_000_000_000 + nanos,
    );
}

/// The local calendar day of an instant given as seconds since the epoch
/// and nanoseconds within the second, as a day number counted from the
/// common era, or `None` where chrono cannot represent the instant.
///
/// Trusted: wraps `DateTime::from_timestamp`, the conversion to the `Local`
/// time zone, `date_naive` and `Datelike::num_days_from_ce`. As for
/// `local_hour_minute`, an instant within 126,000 years of 1970 can be
/// represented. Which day it is depends on the machine's time zone, so only
/// this is promised: chrono's offsets (`FixedOffset`) lie strictly within a
/// day of UTC, so the local day is the UTC day or one of its neighbours.
#[verifier::external_body]
pub(crate) fn local_day(secs: i64, nanos: u32) -> (r: Option<i32>)
    ensures
        representable_secs(secs) && nanos < 1_000_000_000 ==> r is Some,
        r matches Some(v) ==> utc_day_of_secs(secs as int) - 1 <= v <= utc_day_of_secs(secs as int) + 1,
{
    chrono::DateTime::from_timestamp(secs, nanos)
        .map(|t| chrono::Datelike::num_days_from_ce(&t.with_timezone(&chrono::Local).date_naive()))
}

} // verus!
