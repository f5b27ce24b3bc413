//! Points in time.
use vstd::prelude::*;

verus! {

/// Seconds since 1970 and nanoseconds behind them.
#[derive(Debug, Clone, Copy, PartialEq, Eq, Structural)]
pub struct Moment {
    pub secs: i64,
    pub nanos: u32,
}

/// Whether chrono has a date and time for seconds since 1970 and nanoseconds.
pub uninterp spec fn moment_exists(secs: i64, nanos: u32) -> bool;

/// The text of a moment by RFC 3339, in UTC with milliseconds; empty where
/// chrono has no such moment.
pub uninterp spec fn rfc3339_text(secs: i64, nanos: u32) -> Seq<char>;

/// The text of a moment by RFC 3339, with an offset and as many digits as the
/// fraction needs; empty where chrono has no such moment.
pub uninterp spec fn rfc3339_full_text(secs: i64, nanos: u32) -> Seq<char>;

/// The seconds and nanoseconds of a text that chrono reads as a date and time
/// with an offset, if it is one.
pub uninterp spec fn utc_moment(s: Seq<char>) -> Option<(i64, u32)>;

/// A text of digits, signs, colons, points and the letter `T`.
pub open spec fn is_time_text(s: Seq<char>) -> bool {
    forall|i: int|
        0 <= i < s.len() ==> '0' <= (#[trigger] s[i]) <= '9' || s[i] == '+' || s[i] == '-' || s[i]
            == ':' || s[i] == '.' || s[i] == 'T'
}

/// `chrono::DateTime::from_timestamp`: whether there is such a moment is a
/// function of the numbers, which [`moment_exists`] names. Stated of it
/// besides: every second of the years 1970 to 9999 exists, with any fraction.
#[verifier::external_body]
pub(crate) fn exists_moment(secs: i64, nanos: u32) -> (r: bool)
    ensures
        r == moment_exists(secs, nanos),
        0 <= secs <= 253_402_300_799 && nanos < 1_000_000_000 ==> r,
{
    chrono::DateTime::from_timestamp(secs, nanos).is_some()
}

/// `chrono::DateTime::to_rfc3339_opts` with milliseconds and `Z`: the text is a
/// function of the moment, which [`rfc3339_text`] names.
#[verifier::external_body]
pub(crate) fn format_rfc3339(m: Moment) -> (r: String)
    ensures
        r@ == rfc3339_text(m.secs, m.nanos),
{
    chrono::DateTime::from_timestamp(m.secs, m.nanos)
        .map_or(String::new(), |d| d.to_rfc3339_opts(chrono::SecondsFormat::Millis, true))
}

/// `chrono::DateTime::to_rfc3339`: the text is a function of the moment, which
/// [`rfc3339_full_text`] names. Stated of it besides: it holds no characters
/// but digits, signs, colons, points and the letter `T`.
#[verifier::external_body]
pub(crate) fn format_rfc3339_full(m: Moment) -> (r: String)
    ensures
        r@ == rfc3339_full_text(m.secs, m.nanos),
        is_time_text(r@),
{
    chrono::DateTime::from_timestamp(m.secs, m.nanos).map_or(String::new(), |d| d.to_rfc3339())
}

/// `str::parse` for `chrono::DateTime<chrono::Utc>`: the moment is a function of
/// the text, which [`utc_moment`] names.
#[verifier::external_body]
pub(crate) fn parse_utc(s: &str) -> (r: Option<Moment>)
    ensures
        match r {
            Some(m) => utc_moment(s@) == Some((m.secs, m.nanos)),
            None => utc_moment(s@) is None,
        },
{
    s.parse::<chrono::DateTime<chrono::Utc>>().ok()
        .map(|d| Moment { secs: d.timestamp(), nanos: d.timestamp_subsec_nanos() })
}

impl Moment {
    /// The moment of seconds since 1970 and nanoseconds, if it exists.
    pub fn at(secs: i64, nanos: u32) -> (r: Option<Moment>)
        ensures
            r == (if moment_exists(secs, nanos) {
                Some(Moment { secs, nanos })
            } else {
                None
            }),
    {
        if exists_moment(secs, nanos) {
            Some(Moment { secs, nanos })
        } else {
            None
        }
    }
}

} // verus!
