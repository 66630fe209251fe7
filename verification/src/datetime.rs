//! Dates and times through the `chrono` crate: reading the stored
//! timestamps and writing the times of stored prices and chart labels.

use vstd::prelude::*;
use chrono::TimeZone;

verus! {

/// What `chrono::NaiveDateTime::parse_from_str(text, format)` gives, taken
/// as a UTC time and counted in seconds since the Unix epoch; `None` where
/// the text does not match the format.
pub uninterp spec fn parsed_utc_seconds(text: Seq<char>, format: Seq<char>) -> Option<i64>;

/// What `chrono::DateTime::<Utc>::from_timestamp(secs, 0)` writes with
/// `to_string`; `None` where the seconds are out of chrono's range.
pub uninterp spec fn utc_display(secs: i64) -> Option<Seq<char>>;

/// What `chrono::Utc.timestamp_opt(secs, 0).single()` writes with
/// `format(format)`; `None` where the seconds are out of chrono's range.
pub uninterp spec fn utc_formatted(secs: i64, format: Seq<char>) -> Option<Seq<char>>;

/// `chrono::NaiveDateTime::parse_from_str`, with the parsed time converted
/// to seconds since the epoch (`and_utc().timestamp()`). The contract names
/// the result and claims nothing else of it.
#[verifier::external_body]
fn parse_utc_seconds(text: &str, format: &str) -> (r: Option<i64>)
    ensures
        r == parsed_utc_seconds(text@, format@),
{
    match chrono::NaiveDateTime::parse_from_str(text, format) {
        Ok(t) => Some(t.and_utc().timestamp()),
        Err(_) => None,
    }
}

/// `chrono::DateTime::<Utc>::from_timestamp(secs, 0)`, written with its
/// `Display` implementation. The contract names the result and claims
/// nothing else of it.
#[verifier::external_body]
fn display_utc(secs: i64) -> (r: Option<String>)
    ensures
        match r {
            Some(t) => utc_display(secs) == Some(t@),
            None => utc_display(secs) == None::<Seq<char>>,
        },
{
    match chrono::DateTime::<chrono::Utc>::from_timestamp(secs, 0) {
        Some(t) => Some(t.to_string()),
        None => None,
    }
}

/// `chrono::Utc.timestamp_opt(secs, 0).single()`, written with
/// `format(format)`. Writing panics on an invalid format, so the format is
/// limited to the two date formats of the charts and the format of the
/// stored timestamps. The contract names the result and claims nothing else
/// of it.
#[verifier::external_body]
fn format_utc(secs: i64, format: &str) -> (r: Option<String>)
    requires
        format@ == "%Y-%m-%d"@ || format@ == "%y-%m-%d"@ || format@ == stored_timestamp_format(),
    ensures
        match r {
            Some(t) => utc_formatted(secs, format@) == Some(t@),
            None => utc_formatted(secs, format@) == None::<Seq<char>>,
        },
{
    match chrono::Utc.timestamp_opt(secs, 0).single() {
        Some(t) => Some(t.format(format).to_string()),
        None => None,
    }
}

/// The format of the timestamps that the database stores.
pub open spec fn stored_timestamp_format() -> Seq<char> {
    "%Y-%m-%d %H:%M:%S"@
}

/// The seconds since the epoch of a stored `YYYY-MM-DD HH:MM:SS` timestamp,
/// read as UTC; `None` when the text is not such a timestamp.
pub fn timestamp_seconds(timestamp: &str) -> (r: Option<i64>)
    ensures
        r == parsed_utc_seconds(timestamp@, stored_timestamp_format()),
{
    parse_utc_seconds(timestamp, "%Y-%m-%d %H:%M:%S")
}

/// The text with which a price fetched at `secs` seconds since the epoch
/// is stored.
pub fn utc_timestamp_text(secs: i64) -> (r: Option<String>)
    ensures
        match r {
            Some(t) => utc_display(secs) == Some(t@),
            None => utc_display(secs) == None::<Seq<char>>,
        },
{
    display_utc(secs)
}

/// The date label of the chart at `secs` seconds since the epoch, with a
/// four-digit year or, for the last label, a two-digit one.
pub fn utc_date_label(secs: i64, two_digit_year: bool) -> (r: Option<String>)
    ensures
        match r {
            Some(t) => utc_formatted(secs, if two_digit_year { "%y-%m-%d"@ } else { "%Y-%m-%d"@ }) == Some(t@),
            None => utc_formatted(secs, if two_digit_year { "%y-%m-%d"@ } else { "%Y-%m-%d"@ }) == None::<Seq<char>>,
        },
{
    if two_digit_year {
        format_utc(secs, "%y-%m-%d")
    } else {
        format_utc(secs, "%Y-%m-%d")
    }
}


/// The text with which a price stamped at `secs` seconds since the epoch is
/// stored, in the `YYYY-MM-DD HH:MM:SS` format that `timestamp_seconds`
/// reads back.
pub fn stored_timestamp_text(secs: i64) -> (r: Option<String>)
    ensures
        match r {
            Some(t) => utc_formatted(secs, stored_timestamp_format()) == Some(t@),
            None => utc_formatted(secs, stored_timestamp_format()) == None::<Seq<char>>,
        },
{
    format_utc(secs, "%Y-%m-%d %H:%M:%S")
}

/// The positions of the second counts that chrono can represent as a UTC
/// time, in their order.
pub open spec fn representable_indices(secs: Seq<i64>) -> Seq<int>
    decreases secs.len(),
{
    if secs.len() == 0 {
        Seq::<int>::empty()
    } else {
        let r = representable_indices(secs.drop_last());
        if utc_display(secs.last()) is Some {
            r.push(secs.len() - 1)
        } else {
            r
        }
    }
}

/// The rows of a price query to keep, by position: those whose second count
/// chrono can represent as a UTC time; the others are dropped.
pub fn representable_rows(secs: &Vec<i64>) -> (r: Vec<usize>)
    ensures
        r@.map_values(|i: usize| i as int) == representable_indices(secs@),
{
    let mut keep: Vec<usize> = Vec::new();
    let n = secs.len();
    let mut i: usize = 0;
    while i < n
        invariant
            n == secs@.len(),
            i <= n,
            keep@.map_values(|k: usize| k as int) == representable_indices(secs@.take(i as int)),
        decreases n - i,
    {
        assert(secs@.take(i as int + 1).drop_last() =~= secs@.take(i as int));
        assert(secs@.take(i as int + 1).last() == secs@[i as int]);
        let ghost before = keep@.map_values(|k: usize| k as int);
        if display_utc(secs[i]).is_some() {
            keep.push(i);
            assert(keep@.map_values(|k: usize| k as int) =~= before.push(i as int));
        }
        i = i + 1;
    }
    assert(secs@.take(n as int) =~= secs@);
    keep
}

} // verus!
