//! Times of day, sun times, and how far through the day a moment lies.
use vstd::prelude::*;
use crate::text::push_char;

verus! {

/// Nanoseconds in a second.
pub const NANOS_PER_SEC: u32 = 1_000_000_000;

/// Seconds in a day.
pub const SECS_PER_DAY: u32 = 86_400;

/// A time of day as `chrono::NaiveTime` holds it: whole seconds since midnight and
/// nanoseconds; the nanoseconds reach past one second only during a leap second,
/// which follows second 59 of a minute.
#[derive(Clone, Copy, Debug, PartialEq, Eq, Structural)]
pub struct TimeOfDay {
    pub secs: u32,
    pub nanos: u32,
}

impl TimeOfDay {
    /// A time of day that `chrono::NaiveTime` can hold.
    pub open spec fn is_valid(self) -> bool {
        &&& self.secs < SECS_PER_DAY
        &&& self.nanos < 2 * NANOS_PER_SEC
        &&& self.nanos >= NANOS_PER_SEC ==> self.secs % 60 == 59
    }

    /// The time `secs` seconds after midnight, on the second.
    pub open spec fn at(secs: u32) -> TimeOfDay {
        TimeOfDay { secs, nanos: 0 }
    }
}

/// `a` is at or before `b`: times compare by seconds, then by nanoseconds.
pub open spec fn at_or_before(a: TimeOfDay, b: TimeOfDay) -> bool {
    a.secs < b.secs || (a.secs == b.secs && a.nanos <= b.nanos)
}

/// Nanoseconds since midnight.
pub open spec fn total_nanos(t: TimeOfDay) -> int {
    t.secs * NANOS_PER_SEC + t.nanos
}

/// `a / b` rounded toward zero, for `b > 0`.
pub open spec fn div_toward_zero(a: int, b: int) -> int {
    if a >= 0 {
        a / b
    } else {
        -((-a) / b)
    }
}

/// The signed nanoseconds from `earlier` to `later` as chrono counts them
/// (`NaiveTime::signed_duration_since`): a leap second of `earlier` is counted when
/// `later` lies in a later second, and one of `later` is left out when `later` lies
/// in an earlier second.
pub open spec fn chrono_nanos_since(later: TimeOfDay, earlier: TimeOfDay) -> int {
    let carry: int = if later.secs > earlier.secs && earlier.nanos >= NANOS_PER_SEC {
        1
    } else if later.secs < earlier.secs && later.nanos >= NANOS_PER_SEC {
        -1
    } else {
        0
    };
    (later.secs - earlier.secs + carry) * NANOS_PER_SEC + later.nanos - earlier.nanos
}

/// The whole seconds from `earlier` to `later` as chrono counts them:
/// `(later - earlier).num_seconds()` on `chrono::NaiveTime`. The difference is split
/// into seconds and nanoseconds in `0..1e9` (Euclidean division), and
/// `TimeDelta::num_seconds` adds one second back to a negative difference with
/// nanoseconds left over.
pub open spec fn chrono_seconds_since(later: TimeOfDay, earlier: TimeOfDay) -> int {
    let carry: int = if later.secs > earlier.secs && earlier.nanos >= NANOS_PER_SEC {
        1
    } else if later.secs < earlier.secs && later.nanos >= NANOS_PER_SEC {
        -1
    } else {
        0
    };
    let frac: int = later.nanos - earlier.nanos;
    let secs: int = later.secs - earlier.secs + carry + frac / (NANOS_PER_SEC as int);
    let nanos: int = frac % (NANOS_PER_SEC as int);
    if secs < 0 && nanos > 0 {
        secs + 1
    } else {
        secs
    }
}

/// `(later - earlier).num_seconds()` on `chrono::NaiveTime` (chrono's
/// `signed_duration_since` and `TimeDelta::num_seconds`), as `chrono_seconds_since`
/// states it.
#[verifier::external_body]
fn whole_seconds_between(later: TimeOfDay, earlier: TimeOfDay) -> (r: i64)
    requires
        later.is_valid(),
        earlier.is_valid(),
    ensures
        r == chrono_seconds_since(later, earlier),
{
    let l = chrono::NaiveTime::from_num_seconds_from_midnight_opt(later.secs, later.nanos).unwrap();
    let e = chrono::NaiveTime::from_num_seconds_from_midnight_opt(earlier.secs, earlier.nanos).unwrap();
    (l - e).num_seconds()
}

/// Splitting `a` seconds plus `frac` nanoseconds into Euclidean seconds and
/// nanoseconds, then adding a second back to a negative result with nanoseconds
/// left over, rounds the total toward zero.
proof fn lemma_split_rounds_toward_zero(a: int, frac: int)
    ensures
        ({
            let secs = a + frac / (NANOS_PER_SEC as int);
            let nanos = frac % (NANOS_PER_SEC as int);
            if secs < 0 && nanos > 0 {
                secs + 1
            } else {
                secs
            }
        }) == div_toward_zero(a * NANOS_PER_SEC + frac, NANOS_PER_SEC as int),
{
    let n: int = NANOS_PER_SEC as int;
    let d = a * n + frac;
    vstd::arithmetic::div_mod::lemma_fundamental_div_mod(frac, n);
    vstd::arithmetic::div_mod::lemma_fundamental_div_mod(d, n);
    vstd::arithmetic::div_mod::lemma_mod_bound(frac, n);
    vstd::arithmetic::div_mod::lemma_mod_bound(d, n);
    let qf = frac / n;
    let mf = frac % n;
    let q = d / n;
    let m = d % n;
    assert(n * (a + qf - q) == m - mf);
    assert(a + qf == q && m == mf);
    if d < 0 {
        vstd::arithmetic::div_mod::lemma_fundamental_div_mod(-d, n);
        vstd::arithmetic::div_mod::lemma_mod_bound(-d, n);
        let q2 = (-d) / n;
        let m2 = (-d) % n;
        if m == 0 {
            assert(n * (q2 + q) == -m2);
            assert(q2 == -q);
        } else {
            assert(n * (q2 + q + 1) == n - m - m2);
            assert(q2 == -q - 1);
        }
    }
}

/// chrono's whole seconds are its nanoseconds rounded toward zero to seconds.
proof fn lemma_chrono_rounds(later: TimeOfDay, earlier: TimeOfDay)
    ensures
        chrono_seconds_since(later, earlier) == div_toward_zero(
            chrono_nanos_since(later, earlier),
            NANOS_PER_SEC as int,
        ),
        later.nanos < NANOS_PER_SEC && earlier.nanos < NANOS_PER_SEC ==> chrono_nanos_since(
            later,
            earlier,
        ) == total_nanos(later) - total_nanos(earlier),
{
    let carry: int = if later.secs > earlier.secs && earlier.nanos >= NANOS_PER_SEC {
        1
    } else if later.secs < earlier.secs && later.nanos >= NANOS_PER_SEC {
        -1
    } else {
        0
    };
    lemma_split_rounds_toward_zero(later.secs - earlier.secs + carry, later.nanos - earlier.nanos);
}

/// `a <= b` on `chrono::NaiveTime`, whose order compares the seconds since midnight
/// and then the nanoseconds (the order derived on its two fields).
#[verifier::external_body]
fn time_at_or_before(a: TimeOfDay, b: TimeOfDay) -> (r: bool)
    requires
        a.is_valid(),
        b.is_valid(),
    ensures
        r == at_or_before(a, b),
{
    let x = chrono::NaiveTime::from_num_seconds_from_midnight_opt(a.secs, a.nanos).unwrap();
    let y = chrono::NaiveTime::from_num_seconds_from_midnight_opt(b.secs, b.nanos).unwrap();
    x <= y
}

/// How far through the day a moment lies, as the fraction `elapsed / length`.
#[derive(Clone, Copy, Debug, PartialEq, Eq, Structural)]
pub struct DayProgress {
    pub elapsed: i64,
    pub length: i64,
}

/// The progress `elapsed / length` exactly.
pub open spec fn progress(elapsed: i64, length: i64) -> DayProgress {
    DayProgress { elapsed, length }
}

/// The progress after `elapsed_secs` of a day lasting `day_secs` whole seconds:
/// the elapsed time kept within the day; a day shorter than a second counts as 0.
pub open spec fn progress_within(elapsed_secs: i64, day_secs: i64) -> DayProgress {
    if day_secs <= 0 {
        progress(0, 1)
    } else if elapsed_secs < 0 {
        progress(0, day_secs)
    } else if elapsed_secs > day_secs {
        progress(day_secs, day_secs)
    } else {
        progress(elapsed_secs, day_secs)
    }
}

/// The progress of `now` through the day from `sunrise` to `sunset`: 0 until
/// sunrise, 1 from sunset on, and in between the whole seconds since sunrise over
/// the whole seconds of daylight (as chrono counts them), kept within 0..=1.
pub open spec fn day_progress_spec(now: TimeOfDay, sunrise: TimeOfDay, sunset: TimeOfDay) -> DayProgress {
    if at_or_before(now, sunrise) {
        progress(0, 1)
    } else if at_or_before(sunset, now) {
        progress(1, 1)
    } else {
        progress_within(
            chrono_seconds_since(now, sunrise) as i64,
            chrono_seconds_since(sunset, sunrise) as i64,
        )
    }
}

/// A time of day that is not a leap second.
pub open spec fn is_plain(t: TimeOfDay) -> bool {
    t.nanos < NANOS_PER_SEC
}

/// The fraction of `a` is at most that of `b` (both with positive lengths).
pub open spec fn progress_at_most(a: DayProgress, b: DayProgress) -> bool {
    a.elapsed * b.length <= b.elapsed * a.length
}

/// The progress after `elapsed_secs` of a day of `day_secs` whole seconds.
pub fn progress_within_day(elapsed_secs: i64, day_secs: i64) -> (p: DayProgress)
    ensures
        p == progress_within(elapsed_secs, day_secs),
        0 <= p.elapsed <= p.length,
        p.length > 0,
{
    if day_secs <= 0 {
        return DayProgress { elapsed: 0, length: 1 };
    }
    let elapsed = if elapsed_secs < 0 {
        0
    } else if elapsed_secs > day_secs {
        day_secs
    } else {
        elapsed_secs
    };
    DayProgress { elapsed, length: day_secs }
}

/// How far `now` lies through the day from `sunrise` to `sunset`.
pub fn day_progress(now: TimeOfDay, sunrise: TimeOfDay, sunset: TimeOfDay) -> (p: DayProgress)
    requires
        now.is_valid(),
        sunrise.is_valid(),
        sunset.is_valid(),
    ensures
        p == day_progress_spec(now, sunrise, sunset),
        0 <= p.elapsed <= p.length,
        p.length > 0,
        at_or_before(now, sunrise) ==> p == progress(0, 1),
        !at_or_before(now, sunrise) && at_or_before(sunset, now) ==> p == progress(1, 1),
        ({
            let elapsed = div_toward_zero(total_nanos(now) - total_nanos(sunrise), NANOS_PER_SEC as int);
            let day = div_toward_zero(total_nanos(sunset) - total_nanos(sunrise), NANOS_PER_SEC as int);
            is_plain(now) && is_plain(sunrise) && is_plain(sunset) && !at_or_before(now, sunrise)
                && !at_or_before(sunset, now) ==> {
                &&& p == progress_within(elapsed as i64, day as i64)
                &&& day > 0 ==> p == progress(elapsed as i64, day as i64)
            }
        }),
{
    proof {
        lemma_between_exact(now, sunrise, sunset);
    }
    if time_at_or_before(now, sunrise) {
        return DayProgress { elapsed: 0, length: 1 };
    }
    if time_at_or_before(sunset, now) {
        return DayProgress { elapsed: 1, length: 1 };
    }
    let day_secs = whole_seconds_between(sunset, sunrise);
    let elapsed_secs = whole_seconds_between(now, sunrise);
    progress_within_day(elapsed_secs, day_secs)
}

/// Between sunrise and sunset, with no leap second involved, the whole seconds since
/// sunrise lie within the whole seconds of daylight.
proof fn lemma_between_exact(now: TimeOfDay, sunrise: TimeOfDay, sunset: TimeOfDay)
    requires
        now.is_valid(),
        sunrise.is_valid(),
        sunset.is_valid(),
    ensures
        ({
            let elapsed = div_toward_zero(total_nanos(now) - total_nanos(sunrise), NANOS_PER_SEC as int);
            let day = div_toward_zero(total_nanos(sunset) - total_nanos(sunrise), NANOS_PER_SEC as int);
            is_plain(now) && is_plain(sunrise) && is_plain(sunset) && !at_or_before(now, sunrise)
                && !at_or_before(sunset, now) ==> {
                &&& chrono_seconds_since(now, sunrise) == elapsed
                &&& chrono_seconds_since(sunset, sunrise) == day
                &&& 0 <= elapsed <= day
                &&& day < 86_400
            }
        }),
{
    lemma_chrono_rounds(now, sunrise);
    lemma_chrono_rounds(sunset, sunrise);
    if is_plain(now) && is_plain(sunrise) && is_plain(sunset) && !at_or_before(now, sunrise)
        && !at_or_before(sunset, now) {
        let n: int = NANOS_PER_SEC as int;
        let a = total_nanos(now) - total_nanos(sunrise);
        let b = total_nanos(sunset) - total_nanos(sunrise);
        assert(0 < a < b);
        vstd::arithmetic::div_mod::lemma_div_is_ordered(a, b, n);
        vstd::arithmetic::div_mod::lemma_div_is_ordered(0, a, n);
        vstd::arithmetic::div_mod::lemma_div_is_ordered(b, 86_400 * n, n);
        vstd::arithmetic::div_mod::lemma_div_multiples_vanish(86_400, n);
        assert(86_400 * n == n * 86_400);
        assert(0int / n == 0);
    }
}

/// chrono's whole seconds since `sunrise` do not decrease as a time that is not a
/// leap second moves on, once it lies after sunrise.
proof fn lemma_seconds_since_grow(n1: TimeOfDay, n2: TimeOfDay, sunrise: TimeOfDay)
    requires
        n1.is_valid(),
        n2.is_valid(),
        sunrise.is_valid(),
        is_plain(n1),
        is_plain(n2),
        at_or_before(n1, n2),
        !at_or_before(n1, sunrise),
    ensures
        0 <= chrono_seconds_since(n1, sunrise) <= chrono_seconds_since(n2, sunrise),
{
    let n: int = NANOS_PER_SEC as int;
    lemma_chrono_rounds(n1, sunrise);
    lemma_chrono_rounds(n2, sunrise);
    let d1 = chrono_nanos_since(n1, sunrise);
    let d2 = chrono_nanos_since(n2, sunrise);
    assert(0 < d1 <= d2);
    vstd::arithmetic::div_mod::lemma_div_is_ordered(d1, d2, n);
    vstd::arithmetic::div_mod::lemma_div_is_ordered(0, d1, n);
    assert(0int / n == 0);
}

/// chrono's whole seconds between two times of day stay within a little more than a
/// day either way.
proof fn lemma_seconds_since_bounded(later: TimeOfDay, earlier: TimeOfDay)
    requires
        later.is_valid(),
        earlier.is_valid(),
    ensures
        -86_402 <= chrono_seconds_since(later, earlier) <= 86_402,
{
    let n: int = NANOS_PER_SEC as int;
    lemma_chrono_rounds(later, earlier);
    let d = chrono_nanos_since(later, earlier);
    let b: int = 86_402 * n;
    assert(-b <= d <= b);
    vstd::arithmetic::div_mod::lemma_div_multiples_vanish(86_402, n);
    assert(86_402 * n == n * 86_402);
    if d >= 0 {
        vstd::arithmetic::div_mod::lemma_div_is_ordered(d, b, n);
        vstd::arithmetic::div_mod::lemma_div_is_ordered(0, d, n);
    } else {
        vstd::arithmetic::div_mod::lemma_div_is_ordered(-d, b, n);
        vstd::arithmetic::div_mod::lemma_div_is_ordered(0, -d, n);
    }
    assert(0int / n == 0);
}

/// Day progress never goes back as the time of day moves on: for fixed sunrise and
/// sunset, a later time (neither time being a leap second) has at least the progress
/// of an earlier one.
pub proof fn lemma_day_progress_non_decreasing(
    earlier: TimeOfDay,
    later: TimeOfDay,
    sunrise: TimeOfDay,
    sunset: TimeOfDay,
)
    requires
        earlier.is_valid(),
        later.is_valid(),
        sunrise.is_valid(),
        sunset.is_valid(),
        is_plain(earlier),
        is_plain(later),
        at_or_before(earlier, later),
    ensures
        progress_at_most(
            day_progress_spec(earlier, sunrise, sunset),
            day_progress_spec(later, sunrise, sunset),
        ),
{
    let p1 = day_progress_spec(earlier, sunrise, sunset);
    let p2 = day_progress_spec(later, sunrise, sunset);
    lemma_seconds_since_bounded(earlier, sunrise);
    lemma_seconds_since_bounded(later, sunrise);
    lemma_seconds_since_bounded(sunset, sunrise);
    assert(0 <= p1.elapsed <= p1.length && p1.length > 0);
    assert(0 <= p2.elapsed <= p2.length && p2.length > 0);
    if at_or_before(earlier, sunrise) {
        assert(p1.elapsed == 0);
        assert(0 <= p2.elapsed * p1.length);
    } else if at_or_before(sunset, later) {
        assert(p2 == progress(1, 1));
    } else {
        lemma_seconds_since_grow(earlier, later, sunrise);
        assert(!at_or_before(sunset, earlier));
        assert(!at_or_before(later, sunrise));
        let e1 = p1.elapsed;
        let e2 = p2.elapsed;
        let d = p1.length;
        assert(p2.length == d);
        assert(0 <= e1 <= e2);
        assert(e1 * d <= e2 * d) by (nonlinear_arith)
            requires
                0 <= e1 <= e2,
                d > 0,
        ;
    }
}

/// Sunrise, solar noon and sunset of a day.
#[derive(Clone, Copy, Debug, PartialEq, Eq, Structural)]
pub struct SunTimes {
    pub sunrise: TimeOfDay,
    pub transit: TimeOfDay,
    pub sunset: TimeOfDay,
}

impl SunTimes {
    /// All three times can be held by `chrono::NaiveTime`.
    pub open spec fn is_valid(self) -> bool {
        self.sunrise.is_valid() && self.transit.is_valid() && self.sunset.is_valid()
    }
}

/// What the sun does on a day, at the place asked about.
#[derive(Clone, Copy, Debug)]
pub enum SolarDay {
    /// The sun rises and sets.
    RegularDay { sunrise: TimeOfDay, transit: TimeOfDay, sunset: TimeOfDay },
    /// The sun stays up all day.
    AllDay { transit: TimeOfDay },
    /// The sun stays down all day.
    AllNight,
}

/// The sun times to schedule by: those of a regular day; midnight to 23:59:59 when
/// the sun never sets; none when it never rises.
pub fn sun_times_for_day(day: SolarDay) -> (r: Option<SunTimes>)
    ensures
        match day {
            SolarDay::RegularDay { sunrise, transit, sunset } => r == Some(
                SunTimes { sunrise, transit, sunset },
            ),
            SolarDay::AllDay { transit } => r == Some(
                SunTimes { sunrise: TimeOfDay::at(0), transit, sunset: TimeOfDay::at(86_399) },
            ),
            SolarDay::AllNight => r is None,
        },
{
    match day {
        SolarDay::RegularDay { sunrise, transit, sunset } => Some(
            SunTimes { sunrise, transit, sunset },
        ),
        SolarDay::AllDay { transit } => Some(
            SunTimes {
                sunrise: TimeOfDay { secs: 0, nanos: 0 },
                transit,
                sunset: TimeOfDay { secs: 86_399, nanos: 0 },
            },
        ),
        SolarDay::AllNight => None,
    }
}

/// Two decimal digits for a value below 100.
pub open spec fn two_digits(v: nat) -> Seq<char> {
    seq![crate::text::digit_char(v / 10), crate::text::digit_char(v % 10)]
}

/// A time as chrono formats it with `"%H:%M"`: zero-padded hour and minute.
pub open spec fn hh_mm(t: TimeOfDay) -> Seq<char> {
    two_digits((t.secs / 3600) as nat) + seq![':'] + two_digits(((t.secs / 60) % 60) as nat)
}

fn push_two_digits(s: &mut String, v: u32)
    requires
        v < 100,
    ensures
        final(s)@ == old(s)@ + two_digits(v as nat),
{
    push_char(s, ((48 + v / 10) as u8) as char);
    push_char(s, ((48 + v % 10) as u8) as char);
    assert(final(s)@ =~= old(s)@ + two_digits(v as nat));
}

/// The time as `HH:MM`.
pub fn format_hh_mm(t: TimeOfDay) -> (r: String)
    requires
        t.is_valid(),
    ensures
        r@ == hh_mm(t),
{
    let mut s = String::new();
    push_two_digits(&mut s, t.secs / 3600);
    push_char(&mut s, ':');
    push_two_digits(&mut s, (t.secs / 60) % 60);
    assert(s@ =~= hh_mm(t));
    s
}

} // verus!
