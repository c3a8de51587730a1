use vstd::prelude::*;

verus! {

/// The timestamp (seconds since the Unix epoch) that chrono reads out of
/// a `YYYY-MM-DD hh:mm:ss` text, or `None` where the text does not parse;
/// it depends on the characters alone.
pub uninterp spec fn parsed_timestamp_of(s: Seq<char>) -> Option<i64>;

/// The `YYYY-MM-DD hh:mm:ss` text that chrono renders a timestamp as;
/// it depends on the timestamp alone.
pub uninterp spec fn formatted_timestamp_of(t: i64) -> Seq<char>;

/// Relies on `chrono::NaiveDateTime::parse_from_str` with the fixed
/// `%Y-%m-%d %H:%M:%S` format, and on `and_utc`/`timestamp` to read the
/// parsed moment as seconds since the epoch.
#[verifier::external_body]
pub fn parse_datetime(s: &str) -> (r: Option<i64>)
    ensures
        r == parsed_timestamp_of(s@),
{
    chrono::NaiveDateTime::parse_from_str(s, "%Y-%m-%d %H:%M:%S")
        .ok()
        .map(|d| d.and_utc().timestamp())
}

/// Relies on `chrono::DateTime::from_timestamp`, which is `None` only for
/// seconds outside chrono's representable years, and on `format` with the
/// fixed `%Y-%m-%d %H:%M:%S` format to render the moment.
#[verifier::external_body]
pub fn format_datetime(t: i64) -> (r: Option<String>)
    ensures
        r matches Some(x) ==> x@ == formatted_timestamp_of(t),
{
    chrono::DateTime::from_timestamp(t, 0)
        .map(|d| d.naive_utc().format("%Y-%m-%d %H:%M:%S").to_string())
}

} // verus!
