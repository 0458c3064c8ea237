//! Instants named on the command line: `now`, weekdays, the ends of the day,
//! week, month and year, and relative shortcuts such as `3d` or `2w`; and the
//! recurrence shortcuts of the same shape.

use vstd::prelude::*;
use chrono::Datelike;
use crate::datetime::{DateTime, MAX_SECS, MIN_SECS, SECS_PER_DAY, span_ok};
use crate::recur::Recur;
use crate::text::{parse_digits, parse_digits_spec, str_eq};

verus! {

/// The current instant, from chrono's `Utc::now`. chrono builds it from the
/// system clock's seconds and sub-second nanoseconds since the epoch, so it lies
/// in the representable range with fewer than 10^9 nanoseconds; chrono panics
/// when the clock reads before 1970. The instant itself is left to the clock.
#[verifier::external_body]
pub(crate) fn utc_now() -> (r: DateTime)
    ensures
        r.valid(),
        r.secs >= 0,
{
    let n = chrono::Utc::now();
    DateTime { secs: n.timestamp(), nanos: n.timestamp_subsec_nanos() }
}

/// The day of the month (1 to 31) on which the instant `secs` falls.
pub uninterp spec fn calendar_day(secs: i64) -> u32;

/// chrono's `Datelike::day` of the instant.
#[verifier::external_body]
fn day_of_month(dt: &DateTime) -> (r: u32)
    requires
        dt.valid(),
    ensures
        r == calendar_day(dt.secs),
        1 <= r <= 31,
{
    chrono::DateTime::from_timestamp(dt.secs, dt.nanos).unwrap().day()
}

/// The instant moved to day `day` of its month, when that day exists.
pub uninterp spec fn calendar_with_day(dt: DateTime, day: u32) -> Option<DateTime>;

/// chrono's `Datelike::with_day` of the instant: the same time of day on day
/// `day` of the same month, or `None` when that date does not exist (chrono
/// documents `None` for a day the month lacks and for an invalid day number).
#[verifier::external_body]
fn with_day(dt: &DateTime, day: u32) -> (r: Option<DateTime>)
    requires
        dt.valid(),
    ensures
        r == calendar_with_day(*dt, day),
        r matches Some(d) ==> d.valid() && d.nanos == dt.nanos && calendar_day(d.secs) == day,
        day > 31 ==> r is None,
{
    chrono::DateTime::from_timestamp(dt.secs, dt.nanos).unwrap().with_day(day).map(
        |d| DateTime { secs: d.timestamp(), nanos: d.timestamp_subsec_nanos() },
    )
}

/// The instant moved to month `month` of its year, when that date exists.
pub uninterp spec fn calendar_with_month(dt: DateTime, month: u32) -> Option<DateTime>;

/// chrono's `Datelike::with_month` of the instant: the same day and time in
/// month `month` of the same year, or `None` when that date does not exist.
/// December has 31 days, so moving to month 12 always succeeds.
#[verifier::external_body]
fn with_month(dt: &DateTime, month: u32) -> (r: Option<DateTime>)
    requires
        dt.valid(),
    ensures
        r == calendar_with_month(*dt, month),
        r matches Some(d) ==> d.valid(),
        month == 12 ==> r is Some,
{
    chrono::DateTime::from_timestamp(dt.secs, dt.nanos).unwrap().with_month(month).map(
        |d| DateTime { secs: d.timestamp(), nanos: d.timestamp_subsec_nanos() },
    )
}

/// The regular expression of a shortcut: digits, then a unit letter.
pub open spec fn shortcut_pattern() -> Seq<char> {
    "(\\d+)([dwmy])"@
}

/// The capture groups 1 and 2 of the leftmost match of a pattern in a text:
/// no match, or the text of each group (`None` for a group that takes no
/// part in the match).
pub type Captures = Option<(Option<String>, Option<String>)>;

/// The contents of [`Captures`].
pub type CapturesView = Option<(Option<Seq<char>>, Option<Seq<char>>)>;

/// The texts of capture groups 1 and 2 of the leftmost match of `pattern` in
/// `text`; `Err` when the pattern does not compile.
pub uninterp spec fn regex_first_captures(pattern: Seq<char>, text: Seq<char>) -> Result<CapturesView, ()>;

/// Compiles `pattern` with regex's `Regex::new` and matches it against `text`
/// with `Regex::captures`, handing back the texts of capture groups 1 and 2 of
/// the leftmost match. What the match is, the regex crate decides; it is
/// named, not described.
#[verifier::external_body]
fn first_captures(pattern: &str, text: &str) -> (r: Result<Captures, ()>)
    ensures
        captures_view(r) == regex_first_captures(pattern@, text@),
{
    match regex::Regex::new(pattern) {
        Ok(re) => Ok(re.captures(text).map(|c| (
            c.get(1).map(|m| m.as_str().to_string()),
            c.get(2).map(|m| m.as_str().to_string()),
        ))),
        Err(_) => Err(()),
    }
}

/// The day number (days since 1970-01-01, rounded down) of the instant.
pub open spec fn day_number(secs: int) -> int {
    secs / (SECS_PER_DAY as int)
}

/// The position of a day in its ISO week, from 0 for Monday to 6 for Sunday
/// (1970-01-01 was a Thursday).
pub open spec fn weekday_index(day: int) -> int {
    (day + 3) % 7
}

/// The weekday `w` that `weekday_spec` names from the valid instant `now` is
/// still in the range.
pub open spec fn weekday_ok(now: DateTime, w: int) -> bool {
    &&& now.valid()
    &&& weekday_spec(now, w).secs <= MAX_SECS
}

/// The end of the week that `end_of_week_spec` names from the valid instant
/// `now` is still in the range.
pub open spec fn end_of_week_ok(now: DateTime) -> bool {
    &&& now.valid()
    &&& weekday_spec(now, 6).secs + SECS_PER_DAY - 1 <= MAX_SECS
}

/// Midnight starting day `w` (0 for Monday to 6 for Sunday) of the ISO week of
/// `now`, or of the week after when that midnight has passed.
pub open spec fn weekday_spec(now: DateTime, w: int) -> DateTime {
    let day = day_number(now.secs as int);
    let start = DateTime { secs: ((day - weekday_index(day) + w) * SECS_PER_DAY) as i64, nanos: 0 };
    if start.before(now) {
        start.plus(7 * SECS_PER_DAY)
    } else {
        start
    }
}

/// 23:59:59 on the day of the instant.
pub open spec fn end_of_day_spec(now: DateTime) -> DateTime {
    DateTime { secs: (day_number(now.secs as int) * SECS_PER_DAY + SECS_PER_DAY - 1) as i64, nanos: 0 }
}

/// 23:59:59 on the Sunday that `weekday_spec` names.
pub open spec fn end_of_week_spec(now: DateTime) -> DateTime {
    weekday_spec(now, 6).plus(SECS_PER_DAY - 1)
}

/// Moves forward one day at a time, at most `k` times, while the next day of
/// the month exists.
pub open spec fn last_day_from(d: DateTime, k: nat) -> DateTime
    decreases k,
{
    if k == 0 {
        d
    } else {
        match calendar_with_day(d, (calendar_day(d.secs) + 1) as u32) {
            Some(n) => last_day_from(n, (k - 1) as nat),
            None => d,
        }
    }
}

/// 23:59:59 on the last day of the month of the instant.
pub open spec fn end_of_month_spec(now: DateTime) -> DateTime {
    last_day_from(end_of_day_spec(now), 31)
}

/// `end_of_month_spec` moved into December of the same year.
pub open spec fn end_of_year_spec(now: DateTime) -> DateTime {
    calendar_with_month(end_of_month_spec(now), 12)->Some_0
}

/// Euclidean division and remainder.
fn div_mod(x: i64, m: i64) -> (r: (i64, i64))
    requires
        m > 0,
        x > i64::MIN,
    ensures
        r.0 == x / m,
        r.1 == x % m,
{
    if x >= 0 {
        let q = ((x as u64) / (m as u64)) as i64;
        let r = ((x as u64) % (m as u64)) as i64;
        proof {
            vstd::arithmetic::div_mod::lemma_fundamental_div_mod(x as int, m as int);
        }
        (q, r)
    } else {
        let y: i64 = -(x + 1);
        let q1 = ((y as u64) / (m as u64)) as i64;
        let r1 = ((y as u64) % (m as u64)) as i64;
        proof {
            vstd::arithmetic::div_mod::lemma_fundamental_div_mod(y as int, m as int);
            assert(q1 == y / m);
            assert(r1 == y % m);
            assert(y == m * q1 + r1);
            assert(m * q1 == q1 * m) by (nonlinear_arith);
            assert(y == q1 * m + r1);
            assert(x == (-q1 - 1) * m + (m - 1 - r1)) by (nonlinear_arith)
                requires
                    y == q1 * m + r1,
                    y == -(x + 1),
            ;
            vstd::arithmetic::div_mod::lemma_fundamental_div_mod_converse(
                x as int,
                m as int,
                -q1 - 1,
                m - 1 - r1,
            );
        }
        (-q1 - 1, m - 1 - r1)
    }
}

/// Midnight starting weekday `w` of the ISO week of `now`, or a week later
/// when that midnight has passed.
pub fn parse_weekday(w: i64, now: &DateTime) -> (r: DateTime)
    requires
        0 <= w <= 6,
        weekday_ok(*now, w as int),
    ensures
        r == weekday_spec(*now, w as int),
        r.valid(),
{
    let (day, _) = div_mod(now.secs, SECS_PER_DAY);
    let (_, wi) = div_mod(day + 3, 7);
    proof {
        assert(day * SECS_PER_DAY <= now.secs < day * SECS_PER_DAY + SECS_PER_DAY) by {
            vstd::arithmetic::div_mod::lemma_fundamental_div_mod(now.secs as int, SECS_PER_DAY as int);
        }
    }
    let start_secs = (day - wi + w) * SECS_PER_DAY;
    let start = DateTime { secs: start_secs, nanos: 0 };
    if start.is_before(now) {
        start.add_secs(7 * SECS_PER_DAY)
    } else {
        start
    }
}

/// 23:59:59 on the day of `now`.
pub fn end_of_day(now: &DateTime) -> (r: DateTime)
    requires
        now.valid(),
    ensures
        r == end_of_day_spec(*now),
        r.valid(),
{
    let (day, _) = div_mod(now.secs, SECS_PER_DAY);
    proof {
        vstd::arithmetic::div_mod::lemma_fundamental_div_mod(now.secs as int, SECS_PER_DAY as int);
    }
    DateTime { secs: day * SECS_PER_DAY + SECS_PER_DAY - 1, nanos: 0 }
}

/// 23:59:59 on the Sunday of the ISO week of `now` (of the next week once that
/// Sunday has begun).
pub fn end_of_week(now: &DateTime) -> (r: DateTime)
    requires
        end_of_week_ok(*now),
    ensures
        r == end_of_week_spec(*now),
        r.valid(),
{
    let sunday = parse_weekday(6, now);
    sunday.add_secs(SECS_PER_DAY - 1)
}

/// 23:59:59 on the last day of the month of `now`.
pub fn end_of_month(now: &DateTime) -> (r: DateTime)
    requires
        now.valid(),
    ensures
        r == end_of_month_spec(*now),
        r.valid(),
{
    let start = end_of_day(now);
    let mut cur = start;
    let mut steps: u32 = 0;
    let ghost d0 = day_of_month_spec_of(start);
    let first_day = day_of_month(&cur);
    loop
        invariant
            cur.valid(),
            start == end_of_day_spec(*now),
            d0 == first_day,
            1 <= first_day <= 31,
            calendar_day(cur.secs) == first_day + steps,
            first_day + steps <= 31,
            last_day_from(start, 31) == last_day_from(cur, (31 - steps) as nat),
        decreases 31 - steps,
    {
        let day = day_of_month(&cur);
        match with_day(&cur, day + 1) {
            Some(next) => {
                proof {
                    assert(last_day_from(cur, (31 - steps) as nat) == last_day_from(next, (31 - steps - 1) as nat));
                }
                cur = next;
                steps = steps + 1;
            },
            None => {
                proof {
                    assert(last_day_from(cur, (31 - steps) as nat) == cur);
                }
                return cur;
            },
        }
    }
}

/// The day of the month of an instant, as a spec value.
spec fn day_of_month_spec_of(dt: DateTime) -> u32 {
    calendar_day(dt.secs)
}

/// 23:59:59 on the last day of the month of `now`, moved into December.
pub fn end_of_year(now: &DateTime) -> (r: DateTime)
    requires
        now.valid(),
    ensures
        r == end_of_year_spec(*now),
        r.valid(),
{
    let eom = end_of_month(now);
    match with_month(&eom, 12) {
        Some(d) => d,
        None => {
            assert(false);
            eom
        },
    }
}

} // verus!

verus! {

/// The seconds a shortcut of `n` units of `unit` stands for: a day is 86400
/// seconds, a week 7 days, a month a twelfth of a 365-day year, a year 365 days.
pub open spec fn shortcut_secs(n: int, unit: Seq<char>) -> Option<int> {
    if unit == "d"@ {
        Some(n * 86400)
    } else if unit == "w"@ {
        Some(n * 604800)
    } else if unit == "m"@ {
        Some(n * 31536000 / 12)
    } else if unit == "y"@ {
        Some(n * 365 * 86400)
    } else {
        None
    }
}

/// The message for a token that names no instant.
pub open spec fn malformed_date_message(t: Seq<char>) -> Seq<char> {
    "`"@ + t + "` is a malformed DateTime value"@
}

/// The message for a token that names no recurrence.
pub open spec fn malformed_recur_message(t: Seq<char>) -> Seq<char> {
    t + " is not a valid recurence format"@
}

/// Moving `now` by a shortcut match does not panic: both groups take part,
/// the number fits an `i64`, the unit is known, and the period and the instant
/// it leads to stay in range. A missing match is fine; a pattern that does not
/// compile is not.
pub open spec fn shortcut_ok(caps: Result<CapturesView, ()>, now: DateTime) -> bool {
    match caps {
        Ok(Some((Some(num), Some(unit)))) => match parse_digits_spec(num) {
            Some(n) => match shortcut_secs(n as int, unit) {
                Some(s) => now.can_add(s),
                None => false,
            },
            None => false,
        },
        Ok(Some(_)) => false,
        Ok(None) => true,
        Err(_) => false,
    }
}

/// The instant a shortcut match names: `now` moved on by the number of units;
/// `None` when there is no match.
pub open spec fn date_from_captures_spec(caps: Result<CapturesView, ()>, now: DateTime) -> Option<DateTime> {
    match caps {
        Ok(Some((Some(num), Some(unit)))) => match parse_digits_spec(num) {
            Some(n) => match shortcut_secs(n as int, unit) {
                Some(s) => if now.can_add(s) {
                    Some(now.plus(s))
                } else {
                    None
                },
                None => None,
            },
            None => None,
        },
        _ => None,
    }
}

/// The contents of a capture result.
pub open spec fn captures_view(c: Result<Captures, ()>) -> Result<CapturesView, ()> {
    match c {
        Ok(Some((a, b))) => Ok(
            Some(
                (
                    match a {
                        Some(x) => Some(x@),
                        None => None,
                    },
                    match b {
                        Some(x) => Some(x@),
                        None => None,
                    },
                ),
            ),
        ),
        Ok(None) => Ok(None),
        Err(_) => Err(()),
    }
}

fn malformed_date(token: &str) -> (r: String)
    ensures
        r@ == malformed_date_message(token@),
{
    let mut e = String::from_str("`");
    e.append(token);
    e.append("` is a malformed DateTime value");
    e
}

fn malformed_recur(token: &str) -> (r: String)
    ensures
        r@ == malformed_recur_message(token@),
{
    let mut e = String::from_str(token);
    e.append(" is not a valid recurence format");
    e
}

/// The seconds a shortcut stands for, when its unit is known and the span fits.
fn shortcut_offset(n: i64, unit: &str) -> (r: Option<i64>)
    requires
        n >= 0,
    ensures
        match shortcut_secs(n as int, unit@) {
            Some(s) => if span_ok(s) {
                r == Some(s as i64)
            } else {
                r is None
            },
            None => r is None,
        },
{
    let limit: i64 = crate::datetime::MAX_SPAN_SECS;
    if str_eq(unit, "d") {
        if n <= limit / 86400 {
            Some(n * 86400)
        } else {
            None
        }
    } else if str_eq(unit, "w") {
        if n <= limit / 604800 {
            Some(n * 604800)
        } else {
            None
        }
    } else if str_eq(unit, "m") {
        assert(n * 31536000 / 12 == n * 2628000) by (nonlinear_arith);
        if n <= limit / 2628000 {
            Some(n * 2628000)
        } else {
            None
        }
    } else if str_eq(unit, "y") {
        assert(n * 365 * 86400 == n * 31536000) by (nonlinear_arith);
        if n <= limit / 31536000 {
            Some(n * 31536000)
        } else {
            None
        }
    } else {
        None
    }
}

/// The instant a shortcut match names, or the malformed-value message when
/// there is no match.
pub fn date_from_captures(caps: Result<Captures, ()>, token: &str, now: &DateTime) -> (r: Result<
    DateTime,
    String,
>)
    requires
        shortcut_ok(captures_view(caps), *now),
    ensures
        match date_from_captures_spec(captures_view(caps), *now) {
            Some(d) => r == Ok::<DateTime, String>(d),
            None => r matches Err(e) && e@ == malformed_date_message(token@),
        },
{
    match caps {
        Ok(Some((Some(num), Some(unit)))) => {
            let n = parse_digits(num.as_str()).unwrap();
            proof {
                crate::text::lemma_digits_value_nonneg(num@);
            }
            let s = shortcut_offset(n, unit.as_str()).unwrap();
            Ok(now.add_secs(s))
        },
        _ => Err(malformed_date(token)),
    }
}

/// The instant `token` names at `now`: `now`; a weekday (`mon` to `sun`);
/// `eod`, `eow`, `eom`, `eoy` for the end of the day, week, month or year; or a
/// relative shortcut such as `3d` found by the shortcut pattern.
pub open spec fn date_spec(t: Seq<char>, now: DateTime) -> Option<DateTime> {
    if t == "now"@ {
        Some(now)
    } else if t == "mon"@ {
        Some(weekday_spec(now, 0))
    } else if t == "tue"@ {
        Some(weekday_spec(now, 1))
    } else if t == "wed"@ {
        Some(weekday_spec(now, 2))
    } else if t == "thu"@ {
        Some(weekday_spec(now, 3))
    } else if t == "fri"@ {
        Some(weekday_spec(now, 4))
    } else if t == "sat"@ {
        Some(weekday_spec(now, 5))
    } else if t == "sun"@ {
        Some(weekday_spec(now, 6))
    } else if t == "eod"@ {
        Some(end_of_day_spec(now))
    } else if t == "eow"@ {
        Some(end_of_week_spec(now))
    } else if t == "eom"@ {
        Some(end_of_month_spec(now))
    } else if t == "eoy"@ {
        Some(end_of_year_spec(now))
    } else {
        date_from_captures_spec(regex_first_captures(shortcut_pattern(), t), now)
    }
}

/// Naming an instant with `t` at `now` does not panic: `t` is `now`; or a
/// weekday, or the end of the day, week, month or year, of a valid `now` that
/// stays in the range; or a token whose shortcut match can be moved to.
pub open spec fn date_token_ok(t: Seq<char>, now: DateTime) -> bool {
    if t == "now"@ {
        true
    } else if t == "mon"@ {
        weekday_ok(now, 0)
    } else if t == "tue"@ {
        weekday_ok(now, 1)
    } else if t == "wed"@ {
        weekday_ok(now, 2)
    } else if t == "thu"@ {
        weekday_ok(now, 3)
    } else if t == "fri"@ {
        weekday_ok(now, 4)
    } else if t == "sat"@ {
        weekday_ok(now, 5)
    } else if t == "sun"@ {
        weekday_ok(now, 6)
    } else if t == "eod"@ {
        now.valid()
    } else if t == "eow"@ {
        end_of_week_ok(now)
    } else if t == "eom"@ || t == "eoy"@ {
        now.valid()
    } else {
        shortcut_ok(regex_first_captures(shortcut_pattern(), t), now)
    }
}

/// Whether the instant is valid.
fn valid_fits(now: &DateTime) -> (r: bool)
    ensures
        r == now.valid(),
{
    MIN_SECS <= now.secs && now.secs <= MAX_SECS && now.nanos < crate::datetime::NANOS_PER_SEC
}

/// The seconds of the midnight that `weekday_spec` names, for a valid `now`.
fn weekday_secs(w: i64, now: &DateTime) -> (r: i64)
    requires
        0 <= w <= 6,
        now.valid(),
    ensures
        r == weekday_spec(*now, w as int).secs,
        now.secs <= r + 7 * SECS_PER_DAY,
        r <= now.secs + 7 * SECS_PER_DAY,
{
    let (day, _) = div_mod(now.secs, SECS_PER_DAY);
    let (_, wi) = div_mod(day + 3, 7);
    proof {
        assert(day * SECS_PER_DAY <= now.secs < day * SECS_PER_DAY + SECS_PER_DAY) by {
            vstd::arithmetic::div_mod::lemma_fundamental_div_mod(now.secs as int, SECS_PER_DAY as int);
        }
    }
    let start_secs = (day - wi + w) * SECS_PER_DAY;
    let start = DateTime { secs: start_secs, nanos: 0 };
    if start.is_before(now) {
        start_secs + 7 * SECS_PER_DAY
    } else {
        start_secs
    }
}

/// Whether weekday `w` from `now` is valid and stays in the range.
fn weekday_fits(w: i64, now: &DateTime) -> (r: bool)
    requires
        0 <= w <= 6,
    ensures
        r == weekday_ok(*now, w as int),
{
    valid_fits(now) && weekday_secs(w, now) <= MAX_SECS
}

/// Whether naming an instant with `token` at `now` is free of panics.
pub fn date_token_fits(token: &str, now: &DateTime) -> (r: bool)
    ensures
        r == date_token_ok(token@, *now),
{
    if str_eq(token, "now") {
        true
    } else if str_eq(token, "mon") {
        weekday_fits(0, now)
    } else if str_eq(token, "tue") {
        weekday_fits(1, now)
    } else if str_eq(token, "wed") {
        weekday_fits(2, now)
    } else if str_eq(token, "thu") {
        weekday_fits(3, now)
    } else if str_eq(token, "fri") {
        weekday_fits(4, now)
    } else if str_eq(token, "sat") {
        weekday_fits(5, now)
    } else if str_eq(token, "sun") {
        weekday_fits(6, now)
    } else if str_eq(token, "eod") {
        valid_fits(now)
    } else if str_eq(token, "eow") {
        valid_fits(now) && weekday_secs(6, now) <= MAX_SECS - SECS_PER_DAY + 1
    } else if str_eq(token, "eom") || str_eq(token, "eoy") {
        valid_fits(now)
    } else {
        let pattern = "(\\d+)([dwmy])";
        proof {
            assert(pattern@ == shortcut_pattern());
        }
        let caps = first_captures(pattern, token);
        shortcut_fits(&caps, now)
    }
}

fn shortcut_fits(caps: &Result<Captures, ()>, now: &DateTime) -> (r: bool)
    ensures
        r == shortcut_ok(captures_view(*caps), *now),
{
    match caps {
        Ok(Some((Some(num), Some(unit)))) => match parse_digits(num.as_str()) {
            Some(n) => {
                proof {
                    crate::text::lemma_digits_value_nonneg(num@);
                }
                match shortcut_offset(n, unit.as_str()) {
                    Some(s) => MIN_SECS - s <= now.secs && now.secs <= MAX_SECS - s,
                    None => {
                        assert(!span_ok(shortcut_secs(n as int, unit@)->0) || shortcut_secs(
                            n as int,
                            unit@,
                        ) is None);
                        false
                    },
                }
            },
            None => false,
        },
        Ok(Some(_)) => false,
        Ok(None) => true,
        Err(_) => false,
    }
}

/// The instant `token` names at `now`, or the malformed-value message.
pub fn parse_as_date_time(token: &str, now: &DateTime) -> (r: Result<DateTime, String>)
    requires
        date_token_ok(token@, *now),
    ensures
        match date_spec(token@, *now) {
            Some(d) => r == Ok::<DateTime, String>(d),
            None => r matches Err(e) && e@ == malformed_date_message(token@),
        },
{
    if str_eq(token, "now") {
        Ok(*now)
    } else if str_eq(token, "mon") {
        Ok(parse_weekday(0, now))
    } else if str_eq(token, "tue") {
        Ok(parse_weekday(1, now))
    } else if str_eq(token, "wed") {
        Ok(parse_weekday(2, now))
    } else if str_eq(token, "thu") {
        Ok(parse_weekday(3, now))
    } else if str_eq(token, "fri") {
        Ok(parse_weekday(4, now))
    } else if str_eq(token, "sat") {
        Ok(parse_weekday(5, now))
    } else if str_eq(token, "sun") {
        Ok(parse_weekday(6, now))
    } else if str_eq(token, "eod") {
        Ok(end_of_day(now))
    } else if str_eq(token, "eow") {
        Ok(end_of_week(now))
    } else if str_eq(token, "eom") {
        Ok(end_of_month(now))
    } else if str_eq(token, "eoy") {
        Ok(end_of_year(now))
    } else {
        let pattern = "(\\d+)([dwmy])";
        proof {
            assert(pattern@ == shortcut_pattern());
        }
        let caps = first_captures(pattern, token);
        date_from_captures(caps, token, now)
    }
}

/// The recurrence a shortcut match names: the number of days, weeks, months or
/// years; `None` when there is no match or a group takes no part in it.
pub open spec fn recur_from_captures_spec(caps: Result<CapturesView, ()>) -> Option<Recur> {
    match caps {
        Ok(Some((Some(num), Some(unit)))) => match parse_digits_spec(num) {
            Some(n) => if unit == "d"@ {
                Some(Recur::Day(n))
            } else if unit == "w"@ {
                Some(Recur::Week(n))
            } else if unit == "m"@ {
                Some(Recur::Month(n))
            } else if unit == "y"@ {
                Some(Recur::Year(n))
            } else {
                None
            },
            None => None,
        },
        _ => None,
    }
}

/// Reading a recurrence from a shortcut match does not panic: a number that
/// takes part fits an `i64`, and a unit that takes part with it is known. A
/// missing match is fine; a pattern that does not compile is not.
pub open spec fn recur_caps_ok(caps: Result<CapturesView, ()>) -> bool {
    match caps {
        Ok(Some((Some(num), unit))) => parse_digits_spec(num) is Some && match unit {
            Some(u) => u == "d"@ || u == "w"@ || u == "m"@ || u == "y"@,
            None => true,
        },
        Ok(Some((None, _))) => true,
        Ok(None) => true,
        Err(_) => false,
    }
}

/// The recurrence a shortcut match names, or the invalid-format message when
/// there is no match or a group takes no part in it.
pub fn recur_from_captures(caps: Result<Captures, ()>, token: &str) -> (r: Result<Recur, String>)
    requires
        recur_caps_ok(captures_view(caps)),
    ensures
        match recur_from_captures_spec(captures_view(caps)) {
            Some(x) => r == Ok::<Recur, String>(x),
            None => r matches Err(e) && e@ == malformed_recur_message(token@),
        },
{
    match caps {
        Ok(Some((Some(num), Some(unit)))) => {
            let n = parse_digits(num.as_str()).unwrap();
            if str_eq(unit.as_str(), "d") {
                Ok(Recur::Day(n))
            } else if str_eq(unit.as_str(), "w") {
                Ok(Recur::Week(n))
            } else if str_eq(unit.as_str(), "m") {
                Ok(Recur::Month(n))
            } else {
                Ok(Recur::Year(n))
            }
        },
        _ => Err(malformed_recur(token)),
    }
}

/// The recurrence `token` names, such as `2w`.
pub open spec fn recur_spec(t: Seq<char>) -> Option<Recur> {
    recur_from_captures_spec(regex_first_captures(shortcut_pattern(), t))
}

/// Reading a recurrence from `t` does not panic.
pub open spec fn recur_token_ok(t: Seq<char>) -> bool {
    recur_caps_ok(regex_first_captures(shortcut_pattern(), t))
}

fn recur_caps_fit(caps: &Result<Captures, ()>) -> (r: bool)
    ensures
        r == recur_caps_ok(captures_view(*caps)),
{
    match caps {
        Ok(Some((Some(num), unit))) => parse_digits(num.as_str()).is_some() && match unit {
            Some(u) => str_eq(u.as_str(), "d") || str_eq(u.as_str(), "w") || str_eq(u.as_str(), "m")
                || str_eq(u.as_str(), "y"),
            None => true,
        },
        Ok(Some((None, _))) => true,
        Ok(None) => true,
        Err(_) => false,
    }
}

/// Whether reading a recurrence from `token` is free of panics.
pub fn recur_token_fits(token: &str) -> (r: bool)
    ensures
        r == recur_token_ok(token@),
{
    let pattern = "(\\d+)([dwmy])";
    proof {
        assert(pattern@ == shortcut_pattern());
    }
    let caps = first_captures(pattern, token);
    recur_caps_fit(&caps)
}

/// The recurrence `token` names, or the invalid-format message.
pub fn parse_as_recur(token: &str) -> (r: Result<Recur, String>)
    requires
        recur_token_ok(token@),
    ensures
        match recur_spec(token@) {
            Some(x) => r == Ok::<Recur, String>(x),
            None => r matches Err(e) && e@ == malformed_recur_message(token@),
        },
{
    let pattern = "(\\d+)([dwmy])";
    proof {
        assert(pattern@ == shortcut_pattern());
    }
    let caps = first_captures(pattern, token);
    recur_from_captures(caps, token)
}

} // verus!
