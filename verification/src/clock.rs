//! Times, with `chrono`: the current time, and how a stored time is shown.

use vstd::prelude::*;
use crate::rows::{is_rfc3339, rfc3339_valid};

verus! {

/// `std::time::SystemTime::now` measured from `UNIX_EPOCH`
/// (`duration_since`): whole seconds and the nanoseconds past them; `None`
/// when the clock reads before the epoch. What the clock reads is not stated:
/// it depends on the machine. `Duration::subsec_nanos` is documented to stay
/// below one second.
#[verifier::external_body]
fn since_epoch() -> (r: Option<(u64, u32)>)
    ensures
        r matches Some((_, n)) ==> n < 1_000_000_000,
{
    match std::time::SystemTime::now().duration_since(std::time::UNIX_EPOCH) {
        Ok(d) => Some((d.as_secs(), d.subsec_nanos())),
        Err(_) => None,
    }
}

/// The RFC 3339 text of the UTC time `secs` seconds and `nanos` nanoseconds
/// after the epoch, as `chrono` writes it; none outside chrono's range.
pub uninterp spec fn timestamp_rfc3339(secs: int, nanos: int) -> Option<Seq<char>>;

/// `chrono::DateTime::from_timestamp` followed by `DateTime::to_rfc3339`.
/// The contract names the result by `timestamp_rfc3339`; the calendar
/// arithmetic is not restated.
#[verifier::external_body]
fn rfc3339_of_timestamp(secs: i64, nanos: u32) -> (r: Option<String>)
    ensures
        match r {
            Some(t) => timestamp_rfc3339(secs as int, nanos as int) == Some(t@),
            None => timestamp_rfc3339(secs as int, nanos as int) is None,
        },
{
    chrono::DateTime::from_timestamp(secs, nanos).map(|t| t.to_rfc3339())
}

/// The current UTC time in RFC 3339, as a creation time is stamped: `None`
/// when the clock reads before the epoch or the time cannot be written in a
/// form that reads back as RFC 3339. Which time it is is not stated: it
/// depends on the clock.
pub fn now_rfc3339() -> (r: Option<String>)
    ensures
        r matches Some(t) ==> rfc3339_valid(t@),
{
    match since_epoch() {
        Some((secs, nanos)) => {
            if secs > i64::MAX as u64 {
                return None;
            }
            match rfc3339_of_timestamp(secs as i64, nanos) {
                Some(t) => if is_rfc3339(t.as_str()) {
                    Some(t)
                } else {
                    None
                },
                None => None,
            }
        },
        None => None,
    }
}

/// The time `t` (in RFC 3339) shown in UTC as `%Y-%m-%d %H:%M`, as `chrono`
/// formats it; none when `t` is no RFC 3339 time.
pub uninterp spec fn minute_display(t: Seq<char>) -> Option<Seq<char>>;

/// `chrono::DateTime::parse_from_rfc3339`, then `with_timezone(&Utc)` and
/// `format("%Y-%m-%d %H:%M")`. The contract names the result by
/// `minute_display`; the calendar arithmetic of the time-zone shift is not
/// restated.
#[verifier::external_body]
fn format_minutes(t: &str) -> (r: Option<String>)
    ensures
        match r {
            Some(s) => minute_display(t@) == Some(s@),
            None => minute_display(t@) is None,
        },
{
    match chrono::DateTime::parse_from_rfc3339(t) {
        Ok(d) => Some(d.with_timezone(&chrono::Utc).format("%Y-%m-%d %H:%M").to_string()),
        Err(_) => None,
    }
}

/// How a stored creation time is shown: its UTC minute, or the text itself
/// when it is no RFC 3339 time.
pub open spec fn shown_time(t: Seq<char>) -> Seq<char> {
    match minute_display(t) {
        Some(d) => d,
        None => t,
    }
}

/// The creation time `created_at` as shown to the user.
pub fn created_display(created_at: &str) -> (r: String)
    ensures
        r@ == shown_time(created_at@),
{
    match format_minutes(created_at) {
        Some(d) => d,
        None => crate::text::string_of(created_at),
    }
}

} // verus!
