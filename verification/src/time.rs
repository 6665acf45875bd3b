use vstd::prelude::*;

verus! {

/// The earliest second that `chrono::DateTime<Utc>` represents (-262143-01-01T00:00:00Z).
pub const MIN_UTC_SECS: i64 = -8334601315200;

/// The latest second that `chrono::DateTime<Utc>` represents (+262142-12-31T23:59:59Z).
pub const MAX_UTC_SECS: i64 = 8210266876799;

/// A point in time in UTC: whole seconds since the Unix epoch and the nanoseconds past them.
/// Nanoseconds from 1_000_000_000 on stand for a leap second, as in `chrono`.
#[derive(Clone, Copy, Debug, PartialEq, Eq)]
pub struct UtcTime {
    pub secs: i64,
    pub nanos: u32,
}

impl UtcTime {
    /// Whether `chrono::DateTime::<Utc>::from_timestamp(secs, nanos)` gives a value: the second
    /// lies in chrono's range, and nanoseconds past 999_999_999 occur only in the last second of
    /// a minute.
    pub open spec fn valid(self) -> bool {
        &&& MIN_UTC_SECS <= self.secs <= MAX_UTC_SECS
        &&& self.nanos < 2_000_000_000
        &&& (self.nanos < 1_000_000_000 || (self.secs as int) % 60 == 59)
    }
}

/// An optional time that, when present, chrono represents.
pub open spec fn opt_valid(t: Option<UtcTime>) -> bool {
    match t {
        Some(x) => x.valid(),
        None => true,
    }
}

/// What `DateTime::<Utc>::to_rfc3339` writes for the time `(secs, nanos)`.
pub uninterp spec fn rfc3339_text(secs: i64, nanos: u32) -> Seq<char>;

/// What `DateTime::parse_from_rfc3339`, turned to UTC, gives for `text`: seconds and nanoseconds.
pub uninterp spec fn parsed_rfc3339(text: Seq<char>) -> Option<(i64, u32)>;

/// What `DateTime::<Utc>::format("%Y-%m-%d %H:%M:%S")` writes for the time `(secs, nanos)`: the
/// form of SQLite's CURRENT_TIMESTAMP.
pub uninterp spec fn sql_timestamp_text(secs: i64, nanos: u32) -> Seq<char>;

/// What `DateTime::<Utc>::format("%m-%d %H:%M")` writes for the time `(secs, nanos)`.
pub uninterp spec fn month_day_time_text(secs: i64, nanos: u32) -> Seq<char>;

/// The UTC time that an RFC 3339 text denotes, if it is one.
pub open spec fn parse_rfc3339_spec(text: Seq<char>) -> Option<UtcTime> {
    match parsed_rfc3339(text) {
        Some(p) => Some(UtcTime { secs: p.0, nanos: p.1 }),
        None => None,
    }
}

/// `DateTime::<Utc>::to_rfc3339` of the time `t`; the text is named `rfc3339_text`.
#[verifier::external_body]
pub(crate) fn to_rfc3339(t: UtcTime) -> (s: String)
    requires
        t.valid(),
    ensures
        s@ == rfc3339_text(t.secs, t.nanos),
{
    chrono::DateTime::from_timestamp(t.secs, t.nanos).unwrap().to_rfc3339()
}

/// `DateTime::<Utc>::format("%Y-%m-%d %H:%M:%S")` of the time `t`; named `sql_timestamp_text`.
#[verifier::external_body]
pub(crate) fn to_sql_timestamp(t: UtcTime) -> (s: String)
    requires
        t.valid(),
    ensures
        s@ == sql_timestamp_text(t.secs, t.nanos),
{
    chrono::DateTime::from_timestamp(t.secs, t.nanos).unwrap().format("%Y-%m-%d %H:%M:%S").to_string()
}

/// `DateTime::<Utc>::format("%m-%d %H:%M")` of the time `t`; named `month_day_time_text`.
#[verifier::external_body]
pub(crate) fn to_month_day_time(t: UtcTime) -> (s: String)
    requires
        t.valid(),
    ensures
        s@ == month_day_time_text(t.secs, t.nanos),
{
    chrono::DateTime::from_timestamp(t.secs, t.nanos).unwrap().format("%m-%d %H:%M").to_string()
}

/// `DateTime::parse_from_rfc3339(text)` converted to UTC, or `None` where chrono refuses the
/// text; named `parsed_rfc3339`. A time it gives is one that chrono represents.
#[verifier::external_body]
pub(crate) fn parse_rfc3339(text: &str) -> (r: Option<UtcTime>)
    ensures
        match r {
            Some(t) => parsed_rfc3339(text@) == Some((t.secs, t.nanos)) && t.valid(),
            None => parsed_rfc3339(text@) is None,
        },
{
    match chrono::DateTime::parse_from_rfc3339(text) {
        Ok(d) => {
            let u = d.with_timezone(&chrono::Utc);
            Some(UtcTime { secs: u.timestamp(), nanos: u.timestamp_subsec_nanos() })
        },
        Err(_) => None,
    }
}

} // verus!
