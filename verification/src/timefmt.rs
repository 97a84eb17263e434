//! Timestamps on the wire: Unix seconds rendered as RFC 3339 text.
//!
//! The rendering itself is chrono's; this module names it
//! [`rfc3339_of`] and states of the named result only what chrono's
//! documentation gives: it is a function of the timestamp alone, and
//! parsing it back yields the same timestamp.

use vstd::prelude::*;
use crate::models::valid_ts;

verus! {

/// What chrono renders for the Unix second `t`: the RFC 3339 UTC
/// timestamp with seconds precision, such as `2018-01-26T18:30:09Z`.
pub uninterp spec fn rfc3339_of(t: i64) -> Seq<char>;

/// Relies on chrono's `DateTime::<Utc>::from_timestamp` and
/// `to_rfc3339_opts(SecondsFormat::Secs, true)`: the rendering depends
/// on the timestamp alone and is nonempty, and `from_timestamp`
/// accepts every second from 1970 through year 9999.
#[verifier::external_body]
pub fn format_rfc3339(t: i64) -> (r: Option<String>)
    ensures
        r matches Some(s) ==> s@ == rfc3339_of(t) && s@.len() > 0,
        valid_ts(t) ==> r is Some,
{
    chrono::DateTime::<chrono::Utc>::from_timestamp(t, 0).map(
        |dt| dt.to_rfc3339_opts(chrono::SecondsFormat::Secs, true),
    )
}

/// Relies on chrono's `DateTime::parse_from_rfc3339` and
/// `timestamp()`: parsing what `to_rfc3339_opts` rendered for `t`
/// gives `t` back, for the representable seconds (1970 through year
/// 9999). Outside that range chrono renders an expanded year form,
/// which its RFC 3339 parser does not read back, so nothing is
/// promised there.
#[verifier::external_body]
pub fn parse_rfc3339(s: &str) -> (r: Option<i64>)
    ensures
        forall|t: i64| valid_ts(t) && s@ == #[trigger] rfc3339_of(t) ==> r == Some(t),
{
    match chrono::DateTime::parse_from_rfc3339(s) {
        Ok(dt) => Some(dt.timestamp()),
        Err(_) => None,
    }
}

/// Relies on chrono's `Utc::now`: the wall clock's reading, as Unix
/// seconds. Nothing is promised of it; callers pass it on to functions
/// whose contracts hold for every reading.
#[verifier::external_body]
pub fn now_unix() -> i64 {
    chrono::Utc::now().timestamp()
}

} // verus!
