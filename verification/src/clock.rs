//! Points in time: reading the clock, reading timestamps, and how long ago
//! they were.
use vstd::prelude::*;

use crate::api::Moment;
use crate::draw::Color;
use crate::text::{decimal, decimal_string, joined};
use crate::theme::{FAIL, OVERLAY0, PENDING, SUBTEXT0};

verus! {

/// The time of a frame: the moment, and the wall clock as hours and minutes.
#[derive(Debug, Clone)]
pub struct Clock {
    pub now: Moment,
    pub hhmm: String,
}

/// Wraps `chrono::Utc::now`: the moment of the call. Of the time itself nothing
/// is known; no clock reading falls into a leap second.
#[verifier::external_body]
fn current_moment() -> (r: Moment)
    ensures
        r.nanos < 1000000000,
{
    let now = chrono::Utc::now();
    Moment { seconds: now.timestamp(), nanos: now.timestamp_subsec_nanos() }
}

/// A digit between zero and nine.
pub open spec fn is_figure(c: char) -> bool {
    '0' <= c <= '9'
}

/// A text of the form `12:34`.
pub open spec fn is_clock_face(s: Seq<char>) -> bool {
    &&& s.len() == 5
    &&& is_figure(s[0]) && is_figure(s[1])
    &&& s[2] == ':'
    &&& is_figure(s[3]) && is_figure(s[4])
}

/// Wraps `chrono::Local::now`, written as hours and minutes of two digits each
/// with a colon between them. Which they are depends on the time and the
/// machine's time zone.
#[verifier::external_body]
fn now_time() -> (r: String)
    ensures
        is_clock_face(r@),
{
    chrono::Local::now().format("%H:%M").to_string()
}

impl Clock {
    /// Reads the clock.
    pub fn read() -> (r: Clock)
        ensures
            is_clock_face(r.hhmm@),
            r.now.nanos < 1000000000,
    {
        Clock { now: current_moment(), hhmm: now_time() }
    }
}

/// The moment that an RFC 3339 timestamp names, `None` where it is none.
pub uninterp spec fn timestamp_moment(s: Seq<char>) -> Option<Moment>;

/// Wraps `chrono::DateTime::parse_from_rfc3339`: the moment depends on the text
/// alone.
#[verifier::external_body]
pub(crate) fn parse_timestamp(s: &str) -> (r: Option<Moment>)
    ensures
        r == timestamp_moment(s@),
{
    let parsed = chrono::DateTime::parse_from_rfc3339(s).ok()?;
    Some(Moment { seconds: parsed.timestamp(), nanos: parsed.timestamp_subsec_nanos() })
}

/// The whole seconds from `then` to `now`, `None` where one of them is outside
/// the calendar.
pub uninterp spec fn seconds_from(then: Moment, now: Moment) -> Option<i64>;

/// Whether a moment lies between the years 1970 and 9999 and outside a leap
/// second.
pub open spec fn ordinary(at: Moment) -> bool {
    0 <= at.seconds <= 253402300799 && at.nanos < 1000000000
}

/// The time from `then` to `now` in seconds, cut off at the point.
pub open spec fn whole_seconds(then: Moment, now: Moment) -> int {
    let nanos = (now.seconds - then.seconds) * 1000000000 + (now.nanos - then.nanos);
    if nanos >= 0 {
        nanos / 1000000000
    } else {
        -((-nanos) / 1000000000)
    }
}

/// Wraps `chrono::DateTime::signed_duration_since`, in whole seconds: they
/// depend on the two moments alone. Between ordinary moments they are the
/// difference, cut off towards zero. Of leap seconds and of other years nothing
/// more is stated.
#[verifier::external_body]
pub(crate) fn seconds_between(then: Moment, now: Moment) -> (r: Option<i64>)
    ensures
        r == seconds_from(then, now),
        ordinary(then) && ordinary(now) ==> r is Some && r->0 == whole_seconds(then, now),
{
    let from = chrono::DateTime::from_timestamp(then.seconds, then.nanos)?;
    let to = chrono::DateTime::from_timestamp(now.seconds, now.nanos)?;
    Some(to.signed_duration_since(from).num_seconds())
}

/// How many whole seconds ago a timestamp was, `None` where it is none.
pub open spec fn seconds_ago(timestamp: Seq<char>, now: Moment) -> Option<i64> {
    match timestamp_moment(timestamp) {
        Some(then) => seconds_from(then, now),
        None => None,
    }
}

/// How many whole seconds before `now` the timestamp was.
pub fn elapsed(timestamp: &str, now: Moment) -> (r: Option<i64>)
    ensures
        r == seconds_ago(timestamp@, now),
        timestamp_moment(timestamp@) matches Some(then) ==> ordinary(then) && ordinary(now) ==> r
            is Some && r->0 == whole_seconds(then, now),
{
    match parse_timestamp(timestamp) {
        Some(then) => seconds_between(then, now),
        None => None,
    }
}

/// A number of seconds in its largest whole unit; times to come count as none.
pub open spec fn age_of(secs: int) -> Seq<char> {
    let s: nat = if secs < 0 {
        0
    } else {
        secs as nat
    };
    if s < 60 {
        decimal(s) + "s"@
    } else if s < 3600 {
        decimal(s / 60) + "m"@
    } else if s < 86400 {
        decimal(s / 3600) + "h"@
    } else {
        decimal(s / 86400) + "d"@
    }
}

/// The age of a timestamp; a question mark where it is none.
pub open spec fn age_label(ago: Option<i64>) -> Seq<char> {
    match ago {
        Some(secs) => age_of(secs as int),
        None => "?"@,
    }
}

/// Writes how long ago something was.
pub fn format_age(ago: Option<i64>) -> (r: String)
    ensures
        r@ == age_label(ago),
{
    match ago {
        None => "?".to_owned(),
        Some(secs) => {
            let s: u64 = if secs < 0 {
                0
            } else {
                secs as u64
            };
            if s < 60 {
                joined(decimal_string(s).as_str(), "s")
            } else if s < 3600 {
                joined(decimal_string(s / 60).as_str(), "m")
            } else if s < 86400 {
                joined(decimal_string(s / 3600).as_str(), "h")
            } else {
                joined(decimal_string(s / 86400).as_str(), "d")
            }
        },
    }
}

/// The age of a timestamp at `now`.
pub fn age(updated_at: &str, now: Moment) -> (r: String)
    ensures
        r@ == age_label(seconds_ago(updated_at@, now)),
{
    format_age(elapsed(updated_at, now))
}

/// A short staleness label; less than a minute is not counted.
pub open spec fn stale_label(secs: int) -> Seq<char> {
    if secs < 60 {
        "<1m"@
    } else {
        age_of(secs)
    }
}

/// Format a duration in seconds as a short staleness label.
pub fn format_stale_age(secs: i64) -> (r: String)
    ensures
        r@ == stale_label(secs as int),
{
    if secs < 60 {
        "<1m".to_owned()
    } else {
        format_age(Some(secs))
    }
}

/// Escalate the data-age color from fresh (under five minutes) through stale
/// (under fifteen) to old.
#[verifier::allow_in_spec]
pub fn stale_age_color(ago: Option<i64>) -> Color
    returns
        (match ago {
            Some(secs) => if secs < 300 {
                SUBTEXT0
            } else if secs < 900 {
                PENDING
            } else {
                FAIL
            },
            None => OVERLAY0,
        }),
{
    match ago {
        Some(secs) => if secs < 300 {
            SUBTEXT0
        } else if secs < 900 {
            PENDING
        } else {
            FAIL
        },
        None => OVERLAY0,
    }
}

/// The longer ago the data was fetched, the louder its colour.
pub proof fn stale_color_escalates(a: i64, b: i64)
    requires
        a <= b,
    ensures
        stale_age_color(Some(b)) == SUBTEXT0 ==> stale_age_color(Some(a)) == SUBTEXT0,
        stale_age_color(Some(a)) == FAIL ==> stale_age_color(Some(b)) == FAIL,
{
}

} // verus!
