//! Points in time, and their RFC 3339 text.

use vstd::prelude::*;
use crate::error::StorageError;

verus! {

/// A point in time with the UTC offset in which it is held: the number of
/// nanoseconds since the Unix epoch, and the offset from UTC in seconds. SAS texts
/// write the instant in UTC, to the second; key requests write it in its own offset.
#[derive(Debug, Clone, Copy, PartialEq, Eq, Structural)]
pub struct SasDateTime {
    pub unix_timestamp_nanos: i128,
    pub offset_seconds: i32,
}

impl SasDateTime {
    /// The point in time `seconds` after the Unix epoch, written in UTC.
    pub fn from_unix_timestamp(seconds: i64) -> (r: Self)
        ensures
            r.unix_timestamp_nanos == seconds * 1_000_000_000,
            r.offset_seconds == 0,
    {
        let nanos: i128 = (seconds as i128) * 1_000_000_000;
        SasDateTime { unix_timestamp_nanos: nanos, offset_seconds: 0 }
    }

    /// The point in time `unix_timestamp_nanos` nanoseconds after the Unix epoch,
    /// written with an offset of `offset_seconds` from UTC.
    pub fn new(unix_timestamp_nanos: i128, offset_seconds: i32) -> (r: Self)
        ensures
            r.unix_timestamp_nanos == unix_timestamp_nanos,
            r.offset_seconds == offset_seconds,
    {
        SasDateTime { unix_timestamp_nanos, offset_seconds }
    }
}

/// The first second of the year 0 (`0000-01-01T00:00:00Z`), in Unix seconds.
pub open spec fn first_writable_second() -> int {
    -62_167_219_200
}

/// The last second of the year 9999 (`9999-12-31T23:59:59Z`), in Unix seconds.
pub open spec fn last_writable_second() -> int {
    253_402_300_799
}

/// The date (year, month, day) of the proleptic Gregorian calendar that falls `days`
/// days after 1970-01-01 (before it, for negative `days`), counted in eras of 400
/// years that start on March 1st.
pub open spec fn civil_from_days(days: int) -> (int, int, int) {
    let z = days + 719_468;
    let era = z / 146_097;
    let doe = z - era * 146_097;
    let yoe = (doe - doe / 1460 + doe / 36_524 - doe / 146_096) / 365;
    let doy = doe - (365 * yoe + yoe / 4 - yoe / 100);
    let mp = (5 * doy + 2) / 153;
    let day = doy - (153 * mp + 2) / 5 + 1;
    let month = if mp < 10 { mp + 3 } else { mp - 9 };
    let year = yoe + era * 400 + if month <= 2 { 1int } else { 0int };
    (year, month, day)
}

/// The decimal digit `n` (for `n` from 0 to 9).
pub open spec fn digit(n: int) -> char {
    (n + 48) as char
}

/// `n` written with `width` decimal digits, padded with zeros on the left.
pub open spec fn padded_digits(n: int, width: nat) -> Seq<char>
    decreases width,
{
    if width == 0 {
        Seq::empty()
    } else {
        padded_digits(n / 10, (width - 1) as nat).push(digit(n % 10))
    }
}

/// `n` written with `width` digits, without the zeros at its end (one digit stays).
pub open spec fn trimmed_digits(n: int, width: nat) -> Seq<char>
    decreases width,
{
    if width > 1 && n % 10 == 0 {
        trimmed_digits(n / 10, (width - 1) as nat)
    } else {
        padded_digits(n, width)
    }
}

/// `YYYY-MM-DDTHH:MM:SS` for the second `s` seconds after 1970-01-01T00:00:00.
pub open spec fn date_time_text(s: int) -> Seq<char> {
    let (year, month, day) = civil_from_days(s / 86_400);
    let t = s % 86_400;
    padded_digits(year, 4) + seq!['-'] + padded_digits(month, 2) + seq!['-'] + padded_digits(
        day,
        2,
    ) + seq!['T'] + padded_digits(t / 3600, 2) + seq![':'] + padded_digits(t % 3600 / 60, 2)
        + seq![':'] + padded_digits(t % 60, 2)
}

/// The fraction of a second: nothing for none, else `.` and the nanoseconds as nine
/// digits without the zeros at their end.
pub open spec fn fraction_text(nanos: int) -> Seq<char> {
    if nanos == 0 {
        Seq::empty()
    } else {
        seq!['.'] + trimmed_digits(nanos, 9)
    }
}

/// The offset: `Z` for UTC, else its sign and `HH:MM`.
pub open spec fn offset_text(offset_seconds: int) -> Seq<char> {
    if offset_seconds == 0 {
        seq!['Z']
    } else {
        let a = if offset_seconds < 0 { -offset_seconds } else { offset_seconds };
        seq![if offset_seconds < 0 { '-' } else { '+' }] + padded_digits(a / 3600, 2) + seq![':']
            + padded_digits(a % 3600 / 60, 2)
    }
}

/// The RFC 3339 text of the instant `nanos` nanoseconds after the Unix epoch, held at
/// an offset of `offset_seconds` seconds from UTC: the date and time in that offset,
/// the fraction of the second, and the offset. There is none where the offset has
/// seconds or reaches a day, where the date in that offset falls outside the years 0
/// to 9999, or where the instant lies after the year 9999 in UTC.
pub open spec fn rfc3339_text(nanos: int, offset_seconds: int) -> Option<Seq<char>> {
    let utc = nanos / 1_000_000_000;
    let local = utc + offset_seconds;
    if offset_seconds % 60 == 0 && -86_400 < offset_seconds < 86_400 && first_writable_second()
        <= local <= last_writable_second() && utc <= last_writable_second() {
        Some(
            date_time_text(local) + fraction_text(nanos % 1_000_000_000) + offset_text(
                offset_seconds,
            ),
        )
    } else {
        None
    }
}

/// Writes the instant `unix_timestamp_nanos` nanoseconds after the Unix epoch in the
/// offset of `offset_seconds` seconds with the `time` crate:
/// `UtcOffset::from_whole_seconds`, `OffsetDateTime::from_unix_timestamp_nanos`,
/// `OffsetDateTime::checked_to_offset` and `OffsetDateTime::format` with the
/// well-known `Rfc3339` description; `None` where one of them fails.
///
/// The contract states the text as the `time` source writes it (`rfc3339_text`): the
/// four-digit year, two-digit fields, the nanoseconds without their trailing zeros
/// when there are any, and `Z` or `+HH:MM` / `-HH:MM`; and the failures: an offset
/// with seconds (format), of a day or more (format, or `from_whole_seconds` beyond
/// 25:59:59), a year outside 0 to 9999 in the offset (format or `checked_to_offset`),
/// and an instant after the year 9999 in UTC (`from_unix_timestamp_nanos`, whose range
/// is the years -9999 to 9999 without the crate's `large-dates` feature).
#[verifier::external_body]
fn format_rfc3339(unix_timestamp_nanos: i128, offset_seconds: i32) -> (r: Option<String>)
    ensures
        rfc3339_text(unix_timestamp_nanos as int, offset_seconds as int) == match r {
            Some(s) => Some(s@),
            None => None::<Seq<char>>,
        },
{
    let offset = time::UtcOffset::from_whole_seconds(offset_seconds).ok()?;
    let utc = time::OffsetDateTime::from_unix_timestamp_nanos(unix_timestamp_nanos).ok()?;
    let local = utc.checked_to_offset(offset)?;
    local.format(&time::format_description::well_known::Rfc3339).ok()
}

/// The RFC 3339 text of a point in time in its own offset, with its fraction of a
/// second, if it can be written.
pub open spec fn own_offset_text(dt: SasDateTime) -> Option<Seq<char>> {
    rfc3339_text(dt.unix_timestamp_nanos as int, dt.offset_seconds as int)
}

/// Writes a point in time as RFC 3339 text in the offset it is held in, with its
/// fraction of a second; `None` where it cannot be written.
pub fn format_rfc3339_in_offset(dt: &SasDateTime) -> (r: Option<String>)
    ensures
        own_offset_text(*dt) == match r {
            Some(s) => Some(s@),
            None => None::<Seq<char>>,
        },
{
    format_rfc3339(dt.unix_timestamp_nanos, dt.offset_seconds)
}

/// The whole second in which a point in time falls (rounding down), in Unix seconds.
pub open spec fn unix_second(dt: SasDateTime) -> int {
    dt.unix_timestamp_nanos as int / 1_000_000_000
}

/// The RFC 3339 text of a point in time as Azure Storage takes it: the instant in UTC,
/// to the whole second (`YYYY-MM-DDTHH:MM:SSZ`), if it can be written.
pub open spec fn formatted(dt: SasDateTime) -> Option<Seq<char>> {
    rfc3339_text(unix_second(dt) * 1_000_000_000, 0)
}

/// Whether a point in time can be written: it falls in the years 0 to 9999 (UTC).
pub open spec fn is_writable(dt: SasDateTime) -> bool {
    first_writable_second() <= unix_second(dt) <= last_writable_second()
}

/// Formats a date-time in ISO 8601 / RFC 3339 format for Azure Storage:
/// `YYYY-MM-DDTHH:MM:SSZ`, the instant in UTC truncated to the second, whatever the
/// offset it is held in.
pub fn format_iso8601(dt: &SasDateTime) -> (r: Result<String, StorageError>)
    ensures
        match formatted(*dt) {
            Some(t) => r matches Ok(s) && s@ == t,
            None => r == Err::<String, StorageError>(StorageError::DateTimeFormat),
        },
        r is Ok <==> is_writable(*dt),
{
    let seconds = match dt.unix_timestamp_nanos.checked_div_euclid(1_000_000_000) {
        Some(q) => q,
        None => {
            return Err(StorageError::DateTimeFormat);
        },
    };
    if seconds < -62_167_219_200 || seconds > 253_402_300_799 {
        return Err(StorageError::DateTimeFormat);
    }
    match format_rfc3339(seconds * 1_000_000_000, 0) {
        Some(s) => Ok(s),
        None => Err(StorageError::DateTimeFormat),
    }
}

} // verus!
