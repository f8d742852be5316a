use vstd::prelude::*;
use vstd::arithmetic::div_mod::lemma_fundamental_div_mod_converse;
use chrono::{Offset, TimeZone};

verus! {

/// Seconds in a day.
pub const DAY: i64 = 86400;

/// Instants that the zone wrappers accept lie within this many seconds of
/// 1970-01-01T00:00:00Z; chrono represents all of them.
pub const ZONE_RANGE: i64 = 8_200_000_000_000;

/// Kyiv's offset from UTC, in seconds, at the instant `secs` seconds after
/// 1970-01-01T00:00:00Z.
pub uninterp spec fn kyiv_offset_at(secs: int) -> int;

/// Relies on `chrono_tz::Tz::offset_from_utc_datetime` for `Europe/Kiev`, read
/// out as seconds by `chrono::FixedOffset::local_minus_utc`, which always lies
/// strictly between -86400 and 86400.
#[verifier::external_body]
pub(crate) fn kyiv_offset(secs: i64) -> (r: i32)
    requires
        -ZONE_RANGE <= secs <= ZONE_RANGE,
    ensures
        r == kyiv_offset_at(secs as int),
        -DAY < r < DAY,
{
    let utc = chrono::DateTime::from_timestamp(secs, 0).unwrap().naive_utc();
    chrono_tz::Tz::Europe__Kiev.offset_from_utc_datetime(&utc).fix().local_minus_utc()
}

/// The instants at which Kyiv's clock reads a given local time.
pub enum LocalInstants {
    /// The clock skips that time.
    Gap,
    Single(i64),
    /// The clock reads that time twice: first at the earlier instant.
    Ambiguous(i64, i64),
}

/// The instants (in seconds since 1970-01-01T00:00:00Z) at which Kyiv's clock
/// reads `local`, itself counted in seconds from 1970-01-01T00:00:00 local.
pub uninterp spec fn kyiv_instants_at(local: int) -> LocalInstants;

/// Whether the instant `t` reads `local` on Kyiv's clock.
pub open spec fn reads(t: int, local: int) -> bool {
    t + kyiv_offset_at(t) == local
}

/// Relies on `chrono::TimeZone::from_local_datetime` for `Europe/Kiev`: every
/// instant it gives reads `local` on Kyiv's clock, the earliest first, and
/// lies within a day of `local` since a `chrono::FixedOffset` is under a day.
#[verifier::external_body]
pub(crate) fn kyiv_instants(local: i64) -> (r: LocalInstants)
    requires
        -ZONE_RANGE <= local <= ZONE_RANGE,
    ensures
        r == kyiv_instants_at(local as int),
        r matches LocalInstants::Single(t) ==> reads(t as int, local as int) && local - DAY < t
            < local + DAY,
        r matches LocalInstants::Ambiguous(a, b) ==> a <= b && reads(a as int, local as int)
            && reads(b as int, local as int) && local - DAY < a && b < local + DAY,
{
    let naive = chrono::DateTime::from_timestamp(local, 0).unwrap().naive_utc();
    match chrono_tz::Tz::Europe__Kiev.from_local_datetime(&naive) {
        chrono::LocalResult::None => LocalInstants::Gap,
        chrono::LocalResult::Single(t) => LocalInstants::Single(t.timestamp()),
        chrono::LocalResult::Ambiguous(a, b) => LocalInstants::Ambiguous(a.timestamp(), b.timestamp()),
    }
}

/// The first instant after the gap in Kyiv's clock that skips `local`.
pub uninterp spec fn kyiv_gap_end_at(local: int) -> Option<int>;

/// Relies on `chrono_tz::GapInfo::new` for `Europe/Kiev`, whose `end` is the
/// first instant after the gap that holds `local`.
#[verifier::external_body]
pub(crate) fn kyiv_gap_end(local: i64) -> (r: Option<i64>)
    requires
        -ZONE_RANGE <= local <= ZONE_RANGE,
    ensures
        r matches Some(t) ==> kyiv_gap_end_at(local as int) == Some(t as int),
        r is None ==> kyiv_gap_end_at(local as int) is None,
{
    let naive = chrono::DateTime::from_timestamp(local, 0).unwrap().naive_utc();
    chrono_tz::GapInfo::new(&naive, &chrono_tz::Tz::Europe__Kiev).and_then(|g| g.end).map(|t| t.timestamp())
}

/// The start of the day that holds the local second `local`.
pub open spec fn day_start_local(local: int) -> int {
    (local / 86400) * 86400
}

/// The day of the week of the local second `local`: 0 for Monday to 6 for
/// Sunday (1970-01-01 was a Thursday).
pub open spec fn weekday_local(local: int) -> int {
    (local / 86400 + 3) % 7
}

/// The start of the Monday that begins the week holding the local second `local`.
pub open spec fn week_start_local(local: int) -> int {
    (local / 86400 - weekday_local(local)) * 86400
}

/// A multiple of a week that keeps every local second of the library's range
/// positive when added to it.
const SHIFT_DAYS: i64 = 700_000_000;

/// The day of `local` and its day of the week, as `day_start_local` and
/// `weekday_local` count them.
pub fn day_and_weekday(local: i64) -> (r: (i64, i64))
    requires
        -ZONE_RANGE <= local <= ZONE_RANGE,
    ensures
        r.0 == local as int / 86400,
        r.1 == weekday_local(local as int),
        0 <= r.1 < 7,
{
    let shifted: i64 = local + SHIFT_DAYS * DAY;
    let dk: i64 = shifted / DAY;
    let rem: i64 = shifted % DAY;
    let day: i64 = dk - SHIFT_DAYS;
    proof {
        lemma_fundamental_div_mod_converse(local as int, 86400, day as int, rem as int);
    }
    let w: i64 = (dk + 3) % 7;
    proof {
        let q = (dk + 3) / 7;
        assert(day + 3 == (q - 100_000_000) * 7 + w);
        lemma_fundamental_div_mod_converse(day + 3, 7, q - 100_000_000, w as int);
    }
    (day, w)
}

/// The week of `local` holds it, starts on a Monday at 00:00, and spans seven
/// days on Kyiv's clock.
pub proof fn lemma_week_holds(local: int)
    ensures
        week_start_local(local) <= local < week_start_local(local) + 7 * 86400,
        weekday_local(week_start_local(local)) == 0,
        day_start_local(week_start_local(local)) == week_start_local(local),
{
    let d = local / 86400;
    let w = weekday_local(local);
    let r = local % 86400;
    lemma_fundamental_div_mod_converse(local, 86400, d, r);
    assert(0 <= w < 7);
    let s = (d - w) * 86400;
    lemma_fundamental_div_mod_converse(s, 86400, d - w, 0);
    let q = (d + 3) / 7;
    lemma_fundamental_div_mod_converse(d + 3, 7, q, w);
    lemma_fundamental_div_mod_converse(d - w + 3, 7, q, 0);
}

/// The day of `local` holds it and starts at 00:00 on Kyiv's clock.
pub proof fn lemma_day_holds(local: int)
    ensures
        day_start_local(local) <= local < day_start_local(local) + 86400,
        day_start_local(day_start_local(local)) == day_start_local(local),
{
    let d = local / 86400;
    lemma_fundamental_div_mod_converse(local, 86400, d, local % 86400);
    lemma_fundamental_div_mod_converse(d * 86400, 86400, d, 0);
}

} // verus!
