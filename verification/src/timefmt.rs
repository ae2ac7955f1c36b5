//! Calendar text for the second counts that the server reports.
use crate::text::{
    decimal_text,
    digit_char,
    lemma_decimal_text_read_back,
    reads_as_signed_decimal,
    signed_decimal_string,
};
use vstd::prelude::*;

verus! {

/// The first second (UTC) that the calendar library can represent:
/// -262143-01-01 00:00:00.
pub const MIN_CALENDAR_SECONDS: i64 = -8_334_601_228_800;

/// The last second (UTC) that the calendar library can represent:
/// +262142-12-31 23:59:59.
pub const MAX_CALENDAR_SECONDS: i64 = 8_210_266_876_799;

/// `secs` (seconds since 1970-01-01 00:00:00 UTC) falls in the calendar's range.
pub open spec fn in_calendar_range(secs: i64) -> bool {
    MIN_CALENDAR_SECONDS <= secs <= MAX_CALENDAR_SECONDS
}

/// The first second (UTC) of year 0: 0000-01-01 00:00:00.
pub const FOUR_DIGIT_YEARS_START: i64 = -62_167_219_200;

/// The last second (UTC) of year 9999: 9999-12-31 23:59:59.
pub const FOUR_DIGIT_YEARS_END: i64 = 253_402_300_799;

/// `n` (below 100) as two decimal digits.
pub open spec fn two_digits(n: int) -> Seq<char> {
    seq![digit_char(n / 10), digit_char(n % 10)]
}

/// The time of day `HH:MM:SS` (UTC) of the second `secs` after the epoch.
pub open spec fn time_of_day_text(secs: int) -> Seq<char> {
    let in_day = secs % 86400;
    two_digits(in_day / 3600) + seq![':'] + two_digits(in_day % 3600 / 60) + seq![':']
        + two_digits(in_day % 60)
}

/// For a second in the years 0 to 9999, `text` has the form
/// `YYYY-MM-DD HH:MM:SS`: nineteen characters, digits apart from the
/// separators, and the time of day that the second falls on.
pub open spec fn has_calendar_shape(secs: i64, text: Seq<char>) -> bool {
    FOUR_DIGIT_YEARS_START <= secs <= FOUR_DIGIT_YEARS_END ==> {
        &&& text.len() == 19
        &&& text[4] == '-'
        &&& text[7] == '-'
        &&& text[10] == ' '
        &&& forall|i: int| 0 <= i < 10 && i != 4 && i != 7 ==> '0' <= #[trigger] text[i] <= '9'
        &&& text.subrange(11, 19) == time_of_day_text(secs as int)
    }
}

/// The text `YYYY-MM-DD HH:MM:SS` that the calendar library writes for the
/// UTC time `secs` seconds after 1970-01-01 00:00:00.
pub uninterp spec fn utc_calendar_text(secs: i64) -> Seq<char>;

/// Calls `chrono::DateTime::from_timestamp(secs, 0)` and, when it gives a
/// time, writes it with `format("%Y-%m-%d %H:%M:%S")`. The library gives a
/// time exactly for the seconds from -262143-01-01 00:00:00 to
/// +262142-12-31 23:59:59. The text it then writes is named, not spelled
/// out; of it, only the shape for the years 0 to 9999 (four-digit year,
/// fixed separators, the time of day from the seconds within the day) is
/// stated.
#[verifier::external_body]
fn utc_calendar_string(secs: i64) -> (r: Option<String>)
    ensures
        r is Some <==> in_calendar_range(secs),
        r matches Some(text) ==> text@ == utc_calendar_text(secs),
        r matches Some(text) ==> has_calendar_shape(secs, text@),
{
    chrono::DateTime::from_timestamp(secs, 0).map(|dt| dt.format("%Y-%m-%d %H:%M:%S").to_string())
}

/// What `format_timestamp` writes for `ts`.
pub open spec fn timestamp_text(ts: i64) -> Seq<char> {
    if in_calendar_range(ts) {
        utc_calendar_text(ts)
    } else {
        decimal_text(ts as int)
    }
}

/// A timestamp the calendar cannot hold is written as the signed decimal
/// numeral of the timestamp itself; one it can hold is written as the
/// calendar's text for it.
pub proof fn lemma_timestamp_text_cases(ts: i64)
    ensures
        !in_calendar_range(ts) ==> reads_as_signed_decimal(timestamp_text(ts), ts as int),
        in_calendar_range(ts) ==> timestamp_text(ts) == utc_calendar_text(ts),
{
    lemma_decimal_text_read_back(ts as int);
}

/// Writes `ts` (seconds since the Unix epoch) as a UTC calendar time, or as
/// the plain number when the calendar cannot hold it.
pub fn format_timestamp(ts: i64) -> (text: String)
    ensures
        text@ == timestamp_text(ts),
        in_calendar_range(ts) ==> has_calendar_shape(ts, text@),
        !in_calendar_range(ts) ==> reads_as_signed_decimal(text@, ts as int),
{
    proof {
        lemma_timestamp_text_cases(ts);
    }
    match utc_calendar_string(ts) {
        Some(text) => text,
        None => signed_decimal_string(ts),
    }
}

} // verus!
