//! Names of the archive's daily partitions and the statements that make and
//! drop them.

use chrono::TimeZone;
use vstd::prelude::*;

verus! {

/// Seconds in one day.
pub const SECONDS_PER_DAY: i64 = 86_400;

/// Whether `pattern` is one of the two renderings of a day that partitions
/// use: `%Y_%m_%d` in names, `%Y-%m-%d` in bounds.
pub open spec fn is_day_pattern(pattern: Seq<char>) -> bool {
    pattern == "%Y_%m_%d"@ || pattern == "%Y-%m-%d"@
}

/// How `chrono` renders, by `pattern`, the instant `secs` seconds after the
/// Unix epoch in UTC; `None` where `chrono` has no such instant.
pub uninterp spec fn utc_day_text(secs: i64, pattern: Seq<char>) -> Option<Seq<char>>;

/// `Utc.timestamp_opt(secs, 0)`, rendered with `DateTime::format`. The
/// answer is a function of the two arguments. The pattern is held to the
/// two that are known to be well formed.
#[verifier::external_body]
fn format_utc_day(secs: i64, pattern: &str) -> (text: Option<String>)
    requires
        is_day_pattern(pattern@),
    ensures
        (match text {
            Some(rendered) => Some(rendered@),
            None => None,
        }) == utc_day_text(secs, pattern@),
{
    chrono::Utc.timestamp_opt(secs, 0).single().map(|at| at.format(pattern).to_string())
}

/// `[head, tail].concat()`: the characters of `head` followed by those of
/// `tail`.
#[verifier::external_body]
fn joined(head: &str, tail: &str) -> (text: String)
    ensures
        text@ == head@ + tail@,
{
    [head, tail].concat()
}

/// The name of the partition of the day that is written `day`.
pub open spec fn partition_name_of(day: Seq<char>) -> Seq<char> {
    "market_data_"@ + day
}

/// The statement that makes the partition `name` for the day that is
/// written `day`: it takes the rows from the day's first second to its last.
pub open spec fn create_statement_of(name: Seq<char>, day: Seq<char>) -> Seq<char> {
    "CREATE TABLE IF NOT EXISTS "@ + name + " PARTITION OF market_data FOR VALUES FROM ('"@ + day
        + " 00:00:00') TO ('"@ + day + " 23:59:59')"@
}

/// The statement that drops the partition `name`.
pub open spec fn drop_statement_of(name: Seq<char>) -> Seq<char> {
    "DROP TABLE IF EXISTS "@ + name
}

/// The instant `retention_days` days before `now_secs`, held to 64 bits.
pub open spec fn cutoff_of(now_secs: i64, retention_days: u32) -> i64 {
    if now_secs - retention_days * 86_400 < i64::MIN {
        i64::MIN
    } else {
        (now_secs - retention_days * 86_400) as i64
    }
}

/// The name of the partition of the day that is written `day`.
pub fn partition_name_for_day(day: &str) -> (name: String)
    ensures
        name@ == partition_name_of(day@),
{
    joined("market_data_", day)
}

/// The statement that makes the partition `name` for the day that is
/// written `day`.
pub fn create_statement_for(name: &str, day: &str) -> (statement: String)
    ensures
        statement@ == create_statement_of(name@, day@),
{
    let a = joined("CREATE TABLE IF NOT EXISTS ", name);
    let b = joined(a.as_str(), " PARTITION OF market_data FOR VALUES FROM ('");
    let c = joined(b.as_str(), day);
    let d = joined(c.as_str(), " 00:00:00') TO ('");
    let e = joined(d.as_str(), day);
    joined(e.as_str(), " 23:59:59')")
}

/// The statement that drops the partition `name`.
pub fn drop_statement_for(name: &str) -> (statement: String)
    ensures
        statement@ == drop_statement_of(name@),
{
    joined("DROP TABLE IF EXISTS ", name)
}

/// The instant `retention_days` days before `now_secs`.
pub fn retention_cutoff(now_secs: i64, retention_days: u32) -> (cutoff: i64)
    ensures
        cutoff == cutoff_of(now_secs, retention_days),
{
    let span: i64 = (retention_days as i64) * SECONDS_PER_DAY;
    if now_secs < i64::MIN + span {
        i64::MIN
    } else {
        now_secs - span
    }
}

/// The name of the partition that holds the instant `secs` seconds after
/// the epoch; `None` where the calendar has no such instant.
pub fn partition_name(secs: i64) -> (name: Option<String>)
    ensures
        (match name {
            Some(text) => Some(text@),
            None => None,
        }) == (match utc_day_text(secs, "%Y_%m_%d"@) {
            Some(day) => Some(partition_name_of(day)),
            None => None,
        }),
{
    match format_utc_day(secs, "%Y_%m_%d") {
        Some(day) => Some(partition_name_for_day(day.as_str())),
        None => None,
    }
}

/// The statement that makes the partition that holds the instant `secs`
/// seconds after the epoch; `None` where the calendar has no such instant.
pub fn create_partition_statement(secs: i64) -> (statement: Option<String>)
    ensures
        (match statement {
            Some(text) => Some(text@),
            None => None,
        }) == (match (utc_day_text(secs, "%Y_%m_%d"@), utc_day_text(secs, "%Y-%m-%d"@)) {
            (Some(in_name), Some(in_bounds)) => Some(
                create_statement_of(partition_name_of(in_name), in_bounds),
            ),
            _ => None,
        }),
{
    match format_utc_day(secs, "%Y_%m_%d") {
        Some(in_name) => match format_utc_day(secs, "%Y-%m-%d") {
            Some(in_bounds) => {
                let name = partition_name_for_day(in_name.as_str());
                Some(create_statement_for(name.as_str(), in_bounds.as_str()))
            },
            None => None,
        },
        None => None,
    }
}

/// The statement that drops the partition of the day `retention_days` days
/// before `now_secs`; `None` where the calendar has no such day.
pub fn cleanup_statement(now_secs: i64, retention_days: u32) -> (statement: Option<String>)
    ensures
        (match statement {
            Some(text) => Some(text@),
            None => None,
        }) == (match utc_day_text(cutoff_of(now_secs, retention_days), "%Y_%m_%d"@) {
            Some(day) => Some(drop_statement_of(partition_name_of(day))),
            None => None,
        }),
{
    match format_utc_day(retention_cutoff(now_secs, retention_days), "%Y_%m_%d") {
        Some(day) => {
            let name = partition_name_for_day(day.as_str());
            Some(drop_statement_for(name.as_str()))
        },
        None => None,
    }
}

} // verus!
