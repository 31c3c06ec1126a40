//! Relative timestamps ("5m ago", "2h ago", ...).

use vstd::prelude::*;
use std::time::{Duration, SystemTime};
use crate::text::{decimal, decimal_between};

verus! {

/// How an age of `delta` seconds is shown: a negative age (a timestamp in
/// the future) or one under a minute is "just now"; then whole minutes below
/// an hour, whole hours below a day, whole days below 30 days, months of 30
/// days below 12 such months, and whole years of 365 days beyond.
pub open spec fn age_label(delta: int) -> Seq<char> {
    if delta < 0 {
        "just now"@
    } else {
        let minutes = delta / 60;
        let hours = minutes / 60;
        let days = hours / 24;
        if minutes < 1 {
            "just now"@
        } else if minutes < 60 {
            decimal(minutes as nat) + "m ago"@
        } else if hours < 24 {
            decimal(hours as nat) + "h ago"@
        } else if days < 30 {
            decimal(days as nat) + "d ago"@
        } else if days / 30 < 12 {
            decimal((days / 30) as nat) + "mo ago"@
        } else {
            decimal((days / 365) as nat) + "y ago"@
        }
    }
}

/// `x` brought into the range of `i64`.
pub open spec fn clamp_i64(x: int) -> int {
    if x > i64::MAX {
        i64::MAX as int
    } else if x < i64::MIN {
        i64::MIN as int
    } else {
        x
    }
}

/// The text for `unix_secs` seen from clock reading `now`, the difference
/// taken at the nearest end of the range of `i64` where it leaves that range.
pub open spec fn age_seen_at(now: i64, unix_secs: i64) -> Seq<char> {
    age_label(clamp_i64(now - unix_secs))
}

#[verifier::external_type_specification]
#[verifier::external_body]
pub struct ExSystemTime(SystemTime);

/// Trusted: wraps `SystemTime::now`. The reading depends on the machine's
/// clock, so nothing is stated of it.
#[verifier::external_body]
fn system_time_now() -> SystemTime {
    SystemTime::now()
}

/// Trusted: wraps `SystemTime::duration_since` with `UNIX_EPOCH` as the
/// earlier time; `None` where the time lies before the epoch (the call's
/// error). Nothing is stated of the duration: it comes from the clock.
#[verifier::external_body]
fn duration_since_unix_epoch(t: &SystemTime) -> Option<Duration> {
    t.duration_since(std::time::UNIX_EPOCH).ok()
}

/// Trusted: wraps `Duration::as_secs`, the whole seconds of a duration.
/// The duration is opaque here, so nothing is stated of the count.
#[verifier::external_body]
fn duration_whole_secs(d: &Duration) -> u64 {
    d.as_secs()
}

/// The clock's Unix time in seconds, `0` where the clock reads a time before
/// the epoch; the count is reinterpreted as `i64` as a cast does.
fn current_unix_secs() -> i64 {
    let t = system_time_now();
    let secs: u64 = match duration_since_unix_epoch(&t) {
        Some(d) => duration_whole_secs(&d),
        None => 0,
    };
    secs as i64
}

/// The text for an age of `delta` seconds.
fn age_text(delta: i64) -> (r: String)
    ensures
        r@ == age_label(delta as int),
{
    if delta < 0 {
        return String::from_str("just now");
    }
    let minutes: i64 = delta / 60;
    let hours: i64 = minutes / 60;
    let days: i64 = hours / 24;
    proof {
        reveal_strlit("");
    }
    if minutes < 1 {
        String::from_str("just now")
    } else if minutes < 60 {
        decimal_between("", minutes as u64, "m ago")
    } else if hours < 24 {
        decimal_between("", hours as u64, "h ago")
    } else if days < 30 {
        decimal_between("", days as u64, "d ago")
    } else {
        let months: i64 = days / 30;
        if months < 12 {
            decimal_between("", months as u64, "mo ago")
        } else {
            decimal_between("", (days / 365) as u64, "y ago")
        }
    }
}

/// The relative timestamp of `unix_secs` as seen at time `now` (both Unix
/// seconds). Where the difference `now - unix_secs` leaves the range of
/// `i64`, it is taken at the nearest end of that range.
pub fn relative_time_at(now: i64, unix_secs: i64) -> (r: String)
    ensures
        r@ == age_seen_at(now, unix_secs),
{
    let delta: i64 = match now.checked_sub(unix_secs) {
        Some(d) => d,
        None => if unix_secs < 0 {
            i64::MAX
        } else {
            i64::MIN
        },
    };
    age_text(delta)
}

/// Compute a human-readable relative timestamp string (e.g. "2m ago", "3h ago")
/// against the machine's clock.
///
/// Where the difference between the clock and `unix_secs` leaves the range
/// of `i64`, it is taken at the nearest end of that range.
pub fn relative_time(unix_secs: i64) -> (r: String)
    ensures
        exists|now: i64| r@ == #[trigger] age_seen_at(now, unix_secs),
{
    let now = current_unix_secs();
    relative_time_at(now, unix_secs)
}

/// A timestamp in the future, or less than a minute old, reads "just now".
pub proof fn lemma_recent_reads_just_now(delta: int)
    requires
        delta < 60,
    ensures
        age_label(delta) == "just now"@,
{
}

/// The band an age of `delta` seconds is shown in: 0 for "just now", then
/// 1 minutes, 2 hours, 3 days, 4 months, 5 years.
pub open spec fn age_band(delta: int) -> int {
    if delta < 60 {
        0
    } else if delta / 60 < 60 {
        1
    } else if delta / 60 / 60 < 24 {
        2
    } else if delta / 60 / 60 / 24 < 30 {
        3
    } else if delta / 60 / 60 / 24 / 30 < 12 {
        4
    } else {
        5
    }
}

/// The number shown for an age of `delta` seconds in its band (0 for
/// "just now").
pub open spec fn age_count(delta: int) -> int {
    let b = age_band(delta);
    if b == 0 {
        0
    } else if b == 1 {
        delta / 60
    } else if b == 2 {
        delta / 60 / 60
    } else if b == 3 {
        delta / 60 / 60 / 24
    } else if b == 4 {
        delta / 60 / 60 / 24 / 30
    } else {
        delta / 60 / 60 / 24 / 365
    }
}

/// The unit text written after the number of a band.
pub open spec fn band_suffix(band: int) -> Seq<char> {
    if band == 1 {
        "m ago"@
    } else if band == 2 {
        "h ago"@
    } else if band == 3 {
        "d ago"@
    } else if band == 4 {
        "mo ago"@
    } else {
        "y ago"@
    }
}

/// The text of an age is "just now" in band 0, and otherwise its count in
/// decimal followed by its band's unit.
pub proof fn lemma_age_label_parts(delta: int)
    ensures
        age_band(delta) == 0 ==> age_label(delta) == "just now"@,
        age_band(delta) != 0 ==> age_label(delta) == decimal(age_count(delta) as nat)
            + band_suffix(age_band(delta)),
{
}

/// The text depends on the clock reading and the timestamp only through
/// their difference: two calls seeing the same difference read the same.
pub proof fn lemma_age_depends_on_difference(now1: i64, t1: i64, now2: i64, t2: i64)
    requires
        now1 - t1 == now2 - t2,
    ensures
        age_seen_at(now1, t1) == age_seen_at(now2, t2),
{
}

proof fn lemma_div_ordered(x: int, y: int, d: int)
    requires
        0 <= x <= y,
        0 < d,
    ensures
        x / d <= y / d,
{
    vstd::arithmetic::div_mod::lemma_div_is_ordered(x, y, d);
}

/// An older age never lands in an earlier band, and within one band (other
/// than "just now") never shows a smaller number.
pub proof fn lemma_age_monotone(d1: int, d2: int)
    requires
        d1 <= d2,
    ensures
        age_band(d1) <= age_band(d2),
        age_band(d1) == age_band(d2) ==> age_count(d1) <= age_count(d2),
{
    if d1 >= 0 {
        lemma_div_ordered(d1, d2, 60);
        lemma_div_ordered(d1 / 60, d2 / 60, 60);
        lemma_div_ordered(d1 / 60 / 60, d2 / 60 / 60, 24);
        lemma_div_ordered(d1 / 60 / 60 / 24, d2 / 60 / 60 / 24, 30);
        lemma_div_ordered(d1 / 60 / 60 / 24, d2 / 60 / 60 / 24, 365);
    }
}

/// Seen from one clock reading, an older timestamp never reads as more
/// recent: its band is no earlier, and within one band its number is no
/// smaller.
pub proof fn lemma_older_reads_no_younger(now: i64, t1: i64, t2: i64)
    requires
        t2 <= t1,
    ensures
        age_band(clamp_i64(now - t1)) <= age_band(clamp_i64(now - t2)),
        age_band(clamp_i64(now - t1)) == age_band(clamp_i64(now - t2)) ==> age_count(
            clamp_i64(now - t1),
        ) <= age_count(clamp_i64(now - t2)),
{
    lemma_age_monotone(clamp_i64(now - t1), clamp_i64(now - t2));
}

} // verus!
