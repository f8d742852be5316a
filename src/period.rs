use vstd::prelude::*;
use crate::clock::{
    DAY, LocalInstants, kyiv_offset, kyiv_offset_at, kyiv_instants, kyiv_instants_at, kyiv_gap_end,
    kyiv_gap_end_at, day_start_local, week_start_local, day_and_weekday, reads, lemma_week_holds,
    lemma_day_holds,
};
use crate::errors::ParseError;
use crate::utils::{int_text, decimal_text, is_digit, digit_value, digits_value, ten_digits, lemma_ten_digit_text};

verus! {

/// Instants read from text or from the clock are kept within this many
/// seconds of 1970-01-01T00:00:00Z (about 259,000 years): all that chrono
/// represents after 1970, and nearly all before, less a margin for the
/// bounds of a week.
pub const READ_RANGE: i64 = 8_190_000_000_000;

/// Every `Moment` lies within this many seconds of 1970-01-01T00:00:00Z.
pub const MOMENT_RANGE: i64 = 8_195_000_000_000;

/// Day and week boundaries are taken for instants within this many seconds
/// of 1970-01-01T00:00:00Z: `READ_RANGE` and a week to spare.
pub const BOUNDS_RANGE: i64 = 8_190_001_000_000;

/// An instant, together with the offset that Kyiv's clock shows at it.
#[derive(Debug, Clone, Copy)]
pub struct Moment {
    /// Seconds since 1970-01-01T00:00:00Z.
    pub timestamp: i64,
    /// Nanoseconds past that second.
    pub nanos: u32,
    /// Kyiv's offset from UTC at that instant, in seconds.
    pub offset: i32,
}

impl Moment {
    pub open spec fn wf(&self) -> bool {
        &&& -MOMENT_RANGE <= self.timestamp <= MOMENT_RANGE
        &&& self.nanos < 1_000_000_000
        &&& self.offset == kyiv_offset_at(self.timestamp as int)
        &&& -DAY < self.offset < DAY
    }

    /// The second that Kyiv's clock shows, counted from 1970-01-01T00:00:00 local.
    pub open spec fn local(&self) -> int {
        self.timestamp + self.offset
    }

    /// The instant `timestamp` seconds and `nanos` nanoseconds after
    /// 1970-01-01T00:00:00Z, shown on Kyiv's clock.
    pub fn at(timestamp: i64, nanos: u32) -> (r: Moment)
        requires
            -MOMENT_RANGE <= timestamp <= MOMENT_RANGE,
            nanos < 1_000_000_000,
        ensures
            r.wf(),
            r.timestamp == timestamp,
            r.nanos == nanos,
    {
        Moment { timestamp, nanos, offset: kyiv_offset(timestamp) }
    }

    /// The second that Kyiv's clock shows at this moment.
    pub fn local_seconds(&self) -> (r: i64)
        requires
            self.wf(),
        ensures
            r == self.local(),
    {
        self.timestamp + self.offset as i64
    }

    /// A copy of the moment.
    pub fn duplicate(&self) -> (r: Moment)
        ensures
            r == *self,
    {
        Moment { timestamp: self.timestamp, nanos: self.nanos, offset: self.offset }
    }
}

/// A span of time whose ends are shown on Kyiv's clock.
#[derive(Debug, Clone)]
pub struct Period {
    pub start_time: Moment,
    pub end_time: Moment,
}

/// Whether a zone offset of a day or more starts at position `i` of `t`,
/// within its last six characters: a sign, two digits worth 24 or more, then
/// two more digits, after a colon or not.
pub open spec fn oversized_zone_at(t: Seq<char>, i: int) -> bool {
    &&& 0 <= i && t.len() - 6 <= i && i + 3 <= t.len()
    &&& t[i] == '+' || t[i] == '-'
    &&& is_digit(t[i + 1]) && is_digit(t[i + 2])
    &&& 10 * digit_value(t[i + 1]) + digit_value(t[i + 2]) >= 24
    &&& (i + 5 <= t.len() && is_digit(t[i + 3]) && is_digit(t[i + 4])) || (i + 6 <= t.len() && t[i
        + 3] == ':' && is_digit(t[i + 4]) && is_digit(t[i + 5]))
}

/// Whether `t` ends in a zone offset of a day or more, which dateparser hands
/// to `chrono::FixedOffset::east`; that call panics on such an offset.
pub open spec fn oversized_zone(t: Seq<char>) -> bool {
    exists|i: int| oversized_zone_at(t, i)
}

/// Relies on `dateparser::parse_with_timezone`, which reads a date or a time
/// in one of many forms, in Kyiv time where the text names no zone. Some forms
/// take the current date or time of day, so the result depends on more than
/// the text; ten digits it reads as a Unix timestamp in seconds, by
/// `chrono::Utc::timestamp`. Its zone parsers reach `FixedOffset::east`, which
/// panics on offsets of a day or more, only through the last six characters.
/// Any `chrono::DateTime` lies within about 8.34e12 seconds of 1970, and its
/// sub-second nanoseconds stay under 2e9.
#[verifier::external_body]
fn parse_instant(text: &str) -> (r: Option<(i64, u32)>)
    requires
        !oversized_zone(text@),
    ensures
        r matches Some((s, n)) ==> -8_400_000_000_000 <= s <= 8_400_000_000_000 && n < 2_000_000_000,
        ten_digits(text@) ==> r == Some((digits_value(text@) as i64, 0u32)),
{
    dateparser::parse_with_timezone(text, &chrono_tz::Tz::Europe__Kiev).ok().map(
        |t| (t.timestamp(), t.timestamp_subsec_nanos()),
    )
}

fn digit_at(c: char) -> (r: Option<i64>)
    ensures
        match r {
            Some(d) => is_digit(c) && d == digit_value(c),
            None => !is_digit(c),
        },
{
    if '0' <= c && c <= '9' {
        Some((c as u32 - '0' as u32) as i64)
    } else {
        None
    }
}

fn oversized_zone_check_at(text: &str, len: usize, i: usize) -> (r: bool)
    requires
        len == text@.len(),
        i < len,
        len - 6 <= i,
    ensures
        r == oversized_zone_at(text@, i as int),
{
    if len - i < 3 {
        return false;
    }
    let sign = text.get_char(i);
    if sign != '+' && sign != '-' {
        return false;
    }
    let hours = match (digit_at(text.get_char(i + 1)), digit_at(text.get_char(i + 2))) {
        (Some(h1), Some(h2)) => 10 * h1 + h2,
        _ => {
            return false;
        },
    };
    if hours < 24 {
        return false;
    }
    if len - i >= 5 {
        if digit_at(text.get_char(i + 3)).is_some() && digit_at(text.get_char(i + 4)).is_some() {
            return true;
        }
    }
    if len - i >= 6 {
        if text.get_char(i + 3) == ':' && digit_at(text.get_char(i + 4)).is_some() && digit_at(
            text.get_char(i + 5),
        ).is_some() {
            return true;
        }
    }
    false
}

/// Whether `text` ends in a zone offset of a day or more.
pub fn has_oversized_zone(text: &str) -> (r: bool)
    ensures
        r == oversized_zone(text@),
{
    let len = text.unicode_len();
    let mut i: usize = if len > 6 { len - 6 } else { 0 };
    while i < len
        invariant
            len == text@.len(),
            len - 6 <= i,
            forall|j: int| j < i ==> !oversized_zone_at(text@, j),
        decreases len - i,
    {
        if oversized_zone_check_at(text, len, i) {
            assert(oversized_zone_at(text@, i as int));
            return true;
        }
        i += 1;
    }
    assert forall|j: int| !oversized_zone_at(text@, j) by {
        if j >= i {
            assert(!(j + 3 <= text@.len()) || !oversized_zone_at(text@, j));
        }
    }
    false
}

/// Whether `reading` is what `text` may read as: nothing where it ends in a
/// zone offset of a day or more, its value where it is ten digits, and
/// otherwise whatever the parser gives, within chrono's range.
pub open spec fn reading_of_text(text: Seq<char>, reading: Option<(i64, u32)>) -> bool {
    &&& oversized_zone(text) ==> reading is None
    &&& reading matches Some((s, n)) ==> -8_400_000_000_000 <= s <= 8_400_000_000_000 && n
        < 2_000_000_000
    &&& ten_digits(text) ==> reading == Some((digits_value(text) as i64, 0u32))
}

/// What `text` reads as, as `parse_instant` reads it; `None` where it ends in
/// a zone offset of a day or more, which no clock shows.
pub fn read_text(text: &str) -> (r: Option<(i64, u32)>)
    ensures
        reading_of_text(text@, r),
{
    if has_oversized_zone(text) {
        None
    } else {
        parse_instant(text)
    }
}

/// Relies on `chrono::Utc::now`, the current instant as seconds and
/// nanoseconds; any `chrono::DateTime` lies within about 8.34e12 seconds of
/// 1970, and its sub-second nanoseconds stay under 2e9.
#[verifier::external_body]
fn clock_now() -> (r: (i64, u32))
    ensures
        -8_400_000_000_000 <= r.0 <= 8_400_000_000_000,
        r.1 < 2_000_000_000,
{
    let t = chrono::Utc::now();
    (t.timestamp(), t.timestamp_subsec_nanos())
}

/// Whether `n` is a Unix timestamp in seconds written with ten digits, as
/// the schedule service sends them; such a timestamp always reads.
pub open spec fn ten_digit_timestamp(n: int) -> bool {
    1_000_000_000 <= n < 10_000_000_000
}

/// Nanoseconds cut to the last one of their second (a leap second reads as
/// 1e9 and more).
pub open spec fn capped(n: u32) -> u32 {
    if n < 1_000_000_000 { n } else { 999_999_999 }
}

fn cap_nanos(n: u32) -> (r: u32)
    ensures
        r == capped(n),
{
    if n < 1_000_000_000 { n } else { 999_999_999 }
}

/// The seconds and nanoseconds of the moment that `reading` gives, as
/// `read_moment` takes it.
pub open spec fn read_outcome(reading: Option<(i64, u32)>) -> Option<(i64, u32)> {
    match reading {
        Some((s, n)) => if -READ_RANGE <= s <= READ_RANGE {
            Some((s, capped(n)))
        } else {
            None
        },
        None => None,
    }
}

/// Whether `e` reports that `text` could not be read: as
/// `InvalidTimestampProvided` where `timestamps` is set, else as
/// `InvalidStringProvided`.
pub open spec fn parse_error_holds(e: ParseError, text: Seq<char>, timestamps: bool) -> bool {
    if timestamps {
        e matches ParseError::InvalidTimestampProvided(s) && s@ == text
    } else {
        e matches ParseError::InvalidStringProvided(s) && s@ == text
    }
}

fn make_parse_error(text: String, timestamps: bool) -> (r: ParseError)
    ensures
        parse_error_holds(r, text@, timestamps),
{
    if timestamps {
        ParseError::InvalidTimestampProvided(text)
    } else {
        ParseError::InvalidStringProvided(text)
    }
}

/// The moment that a reading of seconds and nanoseconds gives: `None` where
/// there is no reading or its seconds lie beyond `READ_RANGE`.
pub fn read_moment(reading: Option<(i64, u32)>) -> (r: Option<Moment>)
    ensures
        match reading {
            Some((s, n)) => if -READ_RANGE <= s <= READ_RANGE {
                r matches Some(m) && m.wf() && m.timestamp == s && m.nanos == capped(n)
            } else {
                r is None
            },
            None => r is None,
        },
{
    match reading {
        Some((s, n)) => {
            if -READ_RANGE <= s && s <= READ_RANGE {
                Some(Moment::at(s, cap_nanos(n)))
            } else {
                None
            }
        },
        None => None,
    }
}

/// The current moment; a clock beyond `READ_RANGE` reads as its edge.
fn current_moment() -> (r: Moment)
    ensures
        r.wf(),
        -READ_RANGE <= r.timestamp <= READ_RANGE,
{
    let (s, n) = clock_now();
    let s = if s < -READ_RANGE {
        -READ_RANGE
    } else if s > READ_RANGE {
        READ_RANGE
    } else {
        s
    };
    Moment::at(s, cap_nanos(n))
}

/// The instant picked from the candidates for a local time, where there is
/// one within `MOMENT_RANGE`; else the local time less the offset at it.
pub open spec fn pick_instant(candidate: Option<int>, local: int) -> int {
    match candidate {
        Some(t) => if -MOMENT_RANGE <= t <= MOMENT_RANGE {
            t
        } else {
            local - kyiv_offset_at(local)
        },
        None => local - kyiv_offset_at(local),
    }
}

/// The instant that opens the local second `local` on Kyiv's clock: the
/// earlier one where the clock reads it twice, and the first instant after
/// the gap where the clock skips it.
pub open spec fn opening_instant(local: int) -> int {
    pick_instant(
        match kyiv_instants_at(local) {
            LocalInstants::Single(t) => Some(t as int),
            LocalInstants::Ambiguous(a, _) => Some(a as int),
            LocalInstants::Gap => kyiv_gap_end_at(local),
        },
        local,
    )
}

/// The instant that closes the local second `local` on Kyiv's clock: the
/// later one where the clock reads it twice, and the last second before the
/// end of the gap where the clock skips it.
pub open spec fn closing_instant(local: int) -> int {
    pick_instant(
        match kyiv_instants_at(local) {
            LocalInstants::Single(t) => Some(t as int),
            LocalInstants::Ambiguous(_, b) => Some(b as int),
            LocalInstants::Gap => match kyiv_gap_end_at(local) {
                Some(e) => Some(e - 1),
                None => None,
            },
        },
        local,
    )
}

fn pick_moment(candidate: Option<i64>, local: i64, nanos: u32) -> (r: Moment)
    requires
        -BOUNDS_RANGE - 16 * DAY <= local <= BOUNDS_RANGE + 16 * DAY,
        nanos < 1_000_000_000,
    ensures
        r.wf(),
        r.nanos == nanos,
        r.timestamp == pick_instant(
            match candidate {
                Some(t) => Some(t as int),
                None => None,
            },
            local as int,
        ),
{
    match candidate {
        Some(t) => {
            if -MOMENT_RANGE <= t && t <= MOMENT_RANGE {
                return Moment::at(t, nanos);
            }
        },
        None => {},
    }
    let off = kyiv_offset(local);
    Moment::at(local - off as i64, nanos)
}

/// The moment that opens the local second `local`, with no nanoseconds.
fn opening_moment(local: i64) -> (r: Moment)
    requires
        -BOUNDS_RANGE - 16 * DAY <= local <= BOUNDS_RANGE + 16 * DAY,
    ensures
        r.wf(),
        r.nanos == 0,
        r.timestamp == opening_instant(local as int),
        kyiv_instants_at(local as int) is Single ==> r.local() == local,
{
    let candidate = match kyiv_instants(local) {
        LocalInstants::Single(t) => Some(t),
        LocalInstants::Ambiguous(a, _) => Some(a),
        LocalInstants::Gap => kyiv_gap_end(local),
    };
    pick_moment(candidate, local, 0)
}

/// The moment that closes the local second `local`, at its last nanosecond.
fn closing_moment(local: i64) -> (r: Moment)
    requires
        -BOUNDS_RANGE - 16 * DAY <= local <= BOUNDS_RANGE + 16 * DAY,
    ensures
        r.wf(),
        r.nanos == 999_000_000,
        r.timestamp == closing_instant(local as int),
        kyiv_instants_at(local as int) is Single ==> r.local() == local,
{
    let candidate = match kyiv_instants(local) {
        LocalInstants::Single(t) => Some(t),
        LocalInstants::Ambiguous(_, b) => Some(b),
        LocalInstants::Gap => match kyiv_gap_end(local) {
            Some(e) => if e > i64::MIN { Some(e - 1) } else { None },
            None => None,
        },
    };
    pick_moment(candidate, local, 999_000_000)
}

/// Whether `p` runs from 00:00:00 to 23:59:59.999 of the day that
/// holds the local second `local`, each end taken as `opening_instant` and
/// `closing_instant` say.
pub open spec fn is_day_of(p: Period, local: int) -> bool {
    &&& p.start_time.wf() && p.end_time.wf()
    &&& p.start_time.timestamp == opening_instant(day_start_local(local))
    &&& p.start_time.nanos == 0
    &&& p.end_time.timestamp == closing_instant(day_start_local(local) + 86399)
    &&& p.end_time.nanos == 999_000_000
}

/// Whether `p` runs from Monday 00:00:00 to Sunday 23:59:59.999 of the
/// week that holds the local second `local`.
pub open spec fn is_week_of(p: Period, local: int) -> bool {
    &&& p.start_time.wf() && p.end_time.wf()
    &&& p.start_time.timestamp == opening_instant(week_start_local(local))
    &&& p.start_time.nanos == 0
    &&& p.end_time.timestamp == closing_instant(week_start_local(local) + 7 * 86400 - 1)
    &&& p.end_time.nanos == 999_000_000
}

/// Whether `p` is the whole of the day, on Kyiv's clock, that holds some
/// moment (the one read from the clock or from text).
pub open spec fn is_some_day(p: Period) -> bool {
    exists|m: Moment| m.wf() && is_day_of(p, m.local())
}

/// Whether `p` is the whole of the week, Monday to Sunday on Kyiv's clock,
/// that holds some moment (the one read from the clock or from text).
pub open spec fn is_some_week(p: Period) -> bool {
    exists|m: Moment| m.wf() && is_week_of(p, m.local())
}

/// Whether `p` runs from `m` to 23:59:59.999 of `m`'s day.
pub open spec fn is_rest_of_day(p: Period, m: Moment) -> bool {
    &&& p.start_time == m
    &&& p.end_time.wf()
    &&& p.end_time.timestamp == closing_instant(day_start_local(m.local()) + 86399)
    &&& p.end_time.nanos == 999_000_000
}

/// Whether `m` is a moment whose day and week boundaries can be taken.
pub open spec fn in_bounds_range(m: Moment) -> bool {
    m.wf() && -BOUNDS_RANGE <= m.timestamp <= BOUNDS_RANGE
}

/// A day period shows 00:00:00 and 23:59:59 of that day on Kyiv's clock
/// wherever the clock reads those times once, and the day holds `local`.
pub proof fn lemma_day_period(p: Period, local: int)
    requires
        is_day_of(p, local),
        kyiv_instants_at(day_start_local(local)) matches LocalInstants::Single(t) && reads(
            t as int,
            day_start_local(local),
        ) && -MOMENT_RANGE <= t <= MOMENT_RANGE,
        kyiv_instants_at(day_start_local(local) + 86399) matches LocalInstants::Single(t) && reads(
            t as int,
            day_start_local(local) + 86399,
        ) && -MOMENT_RANGE <= t <= MOMENT_RANGE,
    ensures
        p.start_time.local() == day_start_local(local),
        p.end_time.local() == day_start_local(local) + 86399,
        p.start_time.local() <= local <= p.end_time.local(),
{
    lemma_day_holds(local);
}

/// A week period holds the local second it was made for on Kyiv's clock,
/// starts on a Monday at 00:00:00 and ends seven days later less a
/// millisecond, wherever the clock reads both ends once.
pub proof fn lemma_week_period(p: Period, local: int)
    requires
        is_week_of(p, local),
        kyiv_instants_at(week_start_local(local)) matches LocalInstants::Single(t) && reads(
            t as int,
            week_start_local(local),
        ) && -MOMENT_RANGE <= t <= MOMENT_RANGE,
        kyiv_instants_at(week_start_local(local) + 7 * 86400 - 1) matches LocalInstants::Single(t)
            && reads(t as int, week_start_local(local) + 7 * 86400 - 1) && -MOMENT_RANGE <= t
            <= MOMENT_RANGE,
    ensures
        p.start_time.local() <= local <= p.end_time.local(),
        p.end_time.local() - p.start_time.local() == 7 * 86400 - 1,
        crate::clock::weekday_local(p.start_time.local()) == 0,
{
    lemma_week_holds(local);
}

/// The week made for a moment holds that moment as an instant, wherever
/// Kyiv's clock reads both ends of the week once and shows the same offset
/// at them as at the moment (no clock change within the week).
pub proof fn lemma_week_holds_moment(p: Period, m: Moment)
    requires
        m.wf(),
        is_week_of(p, m.local()),
        kyiv_instants_at(week_start_local(m.local())) matches LocalInstants::Single(t) && reads(
            t as int,
            week_start_local(m.local()),
        ) && -MOMENT_RANGE <= t <= MOMENT_RANGE,
        kyiv_instants_at(week_start_local(m.local()) + 7 * 86400 - 1) matches LocalInstants::Single(t)
            && reads(t as int, week_start_local(m.local()) + 7 * 86400 - 1) && -MOMENT_RANGE <= t
            <= MOMENT_RANGE,
        p.start_time.offset == m.offset,
        p.end_time.offset == m.offset,
    ensures
        p.start_time.timestamp <= m.timestamp <= p.end_time.timestamp,
        p.end_time.timestamp - p.start_time.timestamp == 7 * 86400 - 1,
{
    lemma_week_period(p, m.local());
}

impl Period {
    pub open spec fn wf(&self) -> bool {
        self.start_time.wf() && self.end_time.wf()
    }

    /// The day that holds `m` on Kyiv's clock.
    pub fn day_of(m: &Moment) -> (r: Period)
        requires
            in_bounds_range(*m),
        ensures
            is_day_of(r, m.local()),
    {
        let (day, _) = day_and_weekday(m.local_seconds());
        let start = day * DAY;
        Period { start_time: opening_moment(start), end_time: closing_moment(start + (DAY - 1)) }
    }

    /// The week, Monday to Sunday, that holds `m` on Kyiv's clock.
    pub fn week_of(m: &Moment) -> (r: Period)
        requires
            in_bounds_range(*m),
        ensures
            is_week_of(r, m.local()),
    {
        let (day, weekday) = day_and_weekday(m.local_seconds());
        let start = (day - weekday) * DAY;
        Period { start_time: opening_moment(start), end_time: closing_moment(start + (7 * DAY - 1)) }
    }

    /// From `m` to the end of its day on Kyiv's clock.
    pub fn rest_of_day(m: &Moment) -> (r: Period)
        requires
            in_bounds_range(*m),
        ensures
            is_rest_of_day(r, *m),
    {
        let (day, _) = day_and_weekday(m.local_seconds());
        let start = day * DAY;
        Period { start_time: m.duplicate(), end_time: closing_moment(start + (DAY - 1)) }
    }
}

/// How a moment is written out: chrono's `Display` of the instant in Kyiv time.
pub uninterp spec fn moment_text_of(timestamp: int, nanos: int) -> Seq<char>;

/// Relies on `chrono::DateTime::with_timezone` into `Europe/Kiev` and its
/// `Display`, which writes the local date, time and zone abbreviation.
#[verifier::external_body]
fn moment_text(timestamp: i64, nanos: u32) -> (r: String)
    requires
        -MOMENT_RANGE <= timestamp <= MOMENT_RANGE,
        nanos < 1_000_000_000,
    ensures
        r@ == moment_text_of(timestamp as int, nanos as int),
{
    let t = chrono::DateTime::from_timestamp(timestamp, nanos).unwrap();
    format!("{}", t.with_timezone(&chrono_tz::Tz::Europe__Kiev))
}

/// Whether `r` is the period that two readings give: from the start's
/// moment to the end's, or the error for the start text where the start
/// gives no moment, else for the end text where the end gives none.
pub open spec fn period_from_readings(
    start: Option<(i64, u32)>,
    end: Option<(i64, u32)>,
    start_text: Seq<char>,
    end_text: Seq<char>,
    timestamps: bool,
    r: Result<Period, ParseError>,
) -> bool {
    match (read_outcome(start), read_outcome(end)) {
        (Some((s0, n0)), Some((s1, n1))) => r matches Ok(p) && p.wf() && p.start_time.timestamp == s0
            && p.start_time.nanos == n0 && p.end_time.timestamp == s1 && p.end_time.nanos == n1,
        (None, _) => r matches Err(e) && parse_error_holds(e, start_text, timestamps),
        (Some(_), None) => r matches Err(e) && parse_error_holds(e, end_text, timestamps),
    }
}

/// Whether `r` is the period that two texts give, each read as `read_text`
/// may read it.
pub open spec fn period_from_texts(
    start_text: Seq<char>,
    end_text: Seq<char>,
    timestamps: bool,
    r: Result<Period, ParseError>,
) -> bool {
    exists|a: Option<(i64, u32)>, b: Option<(i64, u32)>|
        reading_of_text(start_text, a) && reading_of_text(end_text, b) && #[trigger] period_from_readings(
            a,
            b,
            start_text,
            end_text,
            timestamps,
            r,
        )
}

/// Whether `r` is the period that the Unix timestamps `start` and `end` give,
/// each written in base ten and read as `read_text` may read it.
pub open spec fn period_from_timestamps(start: i64, end: i64, r: Result<Period, ParseError>) -> bool {
    period_from_texts(decimal_text(start as int), decimal_text(end as int), true, r)
}

/// Whether `r` is what a text gives that is read as `reading`: the day (or,
/// where `week` is set, the week) on Kyiv's clock that holds the moment read,
/// or `InvalidStringProvided(text)` where it gives no moment.
pub open spec fn span_from_reading(
    reading: Option<(i64, u32)>,
    text: Seq<char>,
    week: bool,
    r: Result<Period, ParseError>,
) -> bool {
    match read_outcome(reading) {
        Some((s, _)) => r matches Ok(p) && if week {
            is_week_of(p, s + kyiv_offset_at(s as int))
        } else {
            is_day_of(p, s + kyiv_offset_at(s as int))
        },
        None => r matches Err(ParseError::InvalidStringProvided(t)) && t@ == text,
    }
}

/// Whether `r` is what `text` gives as a day (or, where `week` is set, a
/// week), read as `read_text` may read it.
pub open spec fn span_from_text(text: Seq<char>, week: bool, r: Result<Period, ParseError>) -> bool {
    exists|a: Option<(i64, u32)>| reading_of_text(text, a) && #[trigger] span_from_reading(a, text, week, r)
}

/// The day or the week that a reading gives, as `span_from_reading` says.
fn span_of_reading(reading: Option<(i64, u32)>, text: &str, week: bool) -> (r: Result<Period, ParseError>)
    ensures
        span_from_reading(reading, text@, week, r),
{
    match read_moment(reading) {
        Some(m) => Ok(if week { Period::week_of(&m) } else { Period::day_of(&m) }),
        None => Err(ParseError::InvalidStringProvided(String::from_str(text))),
    }
}

/// A text of ten digits reads as a moment within range.
proof fn lemma_ten_digit_reading(text: Seq<char>, a: Option<(i64, u32)>)
    requires
        ten_digits(text),
        reading_of_text(text, a),
    ensures
        read_outcome(a) == Some((digits_value(text) as i64, 0u32)),
        0 <= digits_value(text) < 10_000_000_000,
{
    crate::utils::lemma_ten_digits_bound(text);
}

impl Period {
    /// The period between two readings of seconds and nanoseconds, as
    /// `read_moment` takes each. Fails with `InvalidTimestampProvided` where
    /// `timestamps` is set and `InvalidStringProvided` where it is not,
    /// holding `start_text` where the start reading gives no moment, else
    /// `end_text` where the end reading gives none.
    pub fn from_readings(
        start: Option<(i64, u32)>,
        end: Option<(i64, u32)>,
        start_text: String,
        end_text: String,
        timestamps: bool,
    ) -> (r: Result<Period, ParseError>)
        ensures
            period_from_readings(start, end, start_text@, end_text@, timestamps, r),
    {
        let start_time = match read_moment(start) {
            Some(m) => m,
            None => {
                return Err(make_parse_error(start_text, timestamps));
            },
        };
        let end_time = match read_moment(end) {
            Some(m) => m,
            None => {
                return Err(make_parse_error(end_text, timestamps));
            },
        };
        Ok(Period { start_time, end_time })
    }

    /// The period between the instants that two texts name. Each text may be
    /// a Unix timestamp, an RFC 3339 or RFC 2822 date, or one of many looser
    /// forms; where it names no zone it is read in Kyiv time.
    ///
    /// Fails with `InvalidStringProvided` holding the text that could not be
    /// read (the start's where neither could).
    pub fn from_string(start_time_str: &str, end_time_str: &str) -> (r: Result<Period, ParseError>)
        ensures
            period_from_texts(start_time_str@, end_time_str@, false, r),
            ten_digits(start_time_str@) && ten_digits(end_time_str@) ==> (r matches Ok(p)
                && p.start_time.timestamp == digits_value(start_time_str@) && p.start_time.nanos == 0
                && p.end_time.timestamp == digits_value(end_time_str@) && p.end_time.nanos == 0),
            oversized_zone(start_time_str@) ==> (r matches Err(ParseError::InvalidStringProvided(s))
                && s@ == start_time_str@),
    {
        let a = read_text(start_time_str);
        let b = read_text(end_time_str);
        let r = Period::from_readings(a, b, String::from_str(start_time_str), String::from_str(end_time_str), false);
        proof {
            assert(period_from_readings(a, b, start_time_str@, end_time_str@, false, r));
            if ten_digits(start_time_str@) && ten_digits(end_time_str@) {
                lemma_ten_digit_reading(start_time_str@, a);
                lemma_ten_digit_reading(end_time_str@, b);
            }
        }
        r
    }

    /// The period between two Unix timestamps, each written in base ten and
    /// read as `from_string` reads text (ten digits count seconds, thirteen
    /// milliseconds, nineteen nanoseconds).
    ///
    /// Fails with `InvalidTimestampProvided` holding the timestamp, in base
    /// ten, that could not be read; timestamps of ten digits always read.
    pub fn from_timestamp(start_time_i64: i64, end_time_i64: i64) -> (r: Result<Period, ParseError>)
        ensures
            period_from_timestamps(start_time_i64, end_time_i64, r),
            ten_digit_timestamp(start_time_i64 as int) && ten_digit_timestamp(end_time_i64 as int) ==> (
            r matches Ok(p) && p.wf() && p.start_time.timestamp == start_time_i64 && p.start_time.nanos
                == 0 && p.end_time.timestamp == end_time_i64 && p.end_time.nanos == 0),
    {
        let start_text = int_text(start_time_i64);
        let end_text = int_text(end_time_i64);
        proof {
            if ten_digit_timestamp(start_time_i64 as int) {
                lemma_ten_digit_text(start_time_i64 as int);
            }
            if ten_digit_timestamp(end_time_i64 as int) {
                lemma_ten_digit_text(end_time_i64 as int);
            }
        }
        let a = read_text(start_text.as_str());
        let b = read_text(end_text.as_str());
        let ghost start_view = start_text@;
        let ghost end_view = end_text@;
        let r = Period::from_readings(a, b, start_text, end_text, true);
        assert(period_from_readings(a, b, start_view, end_view, true, r));
        r
    }

    /// From the current instant to the end of the current day in Kyiv.
    pub fn now() -> (r: Period)
        ensures
            exists|m: Moment| m.wf() && is_rest_of_day(r, m),
    {
        let m = current_moment();
        Period::rest_of_day(&m)
    }

    /// The current day in Kyiv, from 00:00:00 to 23:59:59.999.
    pub fn this_day() -> (r: Period)
        ensures
            is_some_day(r),
    {
        let m = current_moment();
        Period::day_of(&m)
    }

    /// The day in Kyiv that holds the instant a day (86400 seconds) from now.
    pub fn next_day() -> (r: Period)
        ensures
            is_some_day(r),
    {
        let m = current_moment();
        let later = Moment::at(m.timestamp + DAY, m.nanos);
        Period::day_of(&later)
    }

    /// The day in Kyiv that holds the instant `start_time_str` names; fails
    /// with `InvalidStringProvided(start_time_str)` where it cannot be read.
    pub fn day_from(start_time_str: &str) -> (r: Result<Period, ParseError>)
        ensures
            span_from_text(start_time_str@, false, r),
            ten_digits(start_time_str@) ==> (r matches Ok(p) && is_day_of(
                p,
                digits_value(start_time_str@) + kyiv_offset_at(digits_value(start_time_str@)),
            )),
            oversized_zone(start_time_str@) ==> (r matches Err(ParseError::InvalidStringProvided(s))
                && s@ == start_time_str@),
    {
        let a = read_text(start_time_str);
        let r = span_of_reading(a, start_time_str, false);
        proof {
            assert(span_from_reading(a, start_time_str@, false, r));
            if ten_digits(start_time_str@) {
                lemma_ten_digit_reading(start_time_str@, a);
            }
        }
        r
    }

    /// The current week in Kyiv, from Monday 00:00:00 to Sunday 23:59:59.999.
    pub fn this_week() -> (r: Period)
        ensures
            is_some_week(r),
    {
        let m = current_moment();
        Period::week_of(&m)
    }

    /// The week in Kyiv that holds the instant seven days from now.
    pub fn next_week() -> (r: Period)
        ensures
            is_some_week(r),
    {
        let m = current_moment();
        let later = Moment::at(m.timestamp + 7 * DAY, m.nanos);
        Period::week_of(&later)
    }

    /// The week in Kyiv that holds the instant `start_time_str` names; fails
    /// with `InvalidStringProvided(start_time_str)` where it cannot be read.
    pub fn week_from(start_time_str: &str) -> (r: Result<Period, ParseError>)
        ensures
            span_from_text(start_time_str@, true, r),
            ten_digits(start_time_str@) ==> (r matches Ok(p) && is_week_of(
                p,
                digits_value(start_time_str@) + kyiv_offset_at(digits_value(start_time_str@)),
            )),
            oversized_zone(start_time_str@) ==> (r matches Err(ParseError::InvalidStringProvided(s))
                && s@ == start_time_str@),
    {
        let a = read_text(start_time_str);
        let r = span_of_reading(a, start_time_str, true);
        proof {
            assert(span_from_reading(a, start_time_str@, true, r));
            if ten_digits(start_time_str@) {
                lemma_ten_digit_reading(start_time_str@, a);
            }
        }
        r
    }

    /// The period written out as `start_time: <start>, end_time: <end>`.
    pub fn to_string(&self) -> (r: String)
        requires
            self.wf(),
        ensures
            r@ == "start_time: "@ + moment_text_of(
                self.start_time.timestamp as int,
                self.start_time.nanos as int,
            ) + ", end_time: "@ + moment_text_of(self.end_time.timestamp as int, self.end_time.nanos as int),
    {
        let mut r = String::from_str("start_time: ");
        r.append(moment_text(self.start_time.timestamp, self.start_time.nanos).as_str());
        r.append(", end_time: ");
        r.append(moment_text(self.end_time.timestamp, self.end_time.nanos).as_str());
        r
    }

    /// A copy of the period.
    pub fn duplicate(&self) -> (r: Period)
        ensures
            r == *self,
    {
        Period { start_time: self.start_time.duplicate(), end_time: self.end_time.duplicate() }
    }
}

} // verus!
