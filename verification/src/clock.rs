//! The rotation clock: wall-clock times, the boundaries at which files are
//! cut, and the names of the files.

use crate::camera::{Camera, CamerasMetadata};
use vstd::prelude::*;
use vstd::string::StringExecFns;

verus! {

/// Length of one segment, in minutes of the wall clock.
pub const ROTATION_PERIOD_MINUTES: u8 = 10;

/// Length of one segment, in seconds.
pub const ROTATION_PERIOD_SECONDS: i64 = 600;

/// Seconds for which the file before a cut stays open after the cut.
pub const TIME_STOP_LAG: i64 = 5;

/// Local second count of the first representable instant, midnight on
/// 1 January of the year -9999.
pub const MIN_LOCAL_SECONDS: i64 = -377_705_116_800;

/// Local second count of the last representable second, 23:59:59 on
/// 31 December 9999.
pub const MAX_LOCAL_SECONDS: i64 = 253_402_300_799;

/// Local second count of the last boundary, 23:50:00 on 31 December 9999.
pub const LAST_BOUNDARY_SECONDS: i64 = 253_402_300_200;

/// Largest offset from UTC in either direction, 25:59:59.
pub const MAX_OFFSET_SECONDS: i32 = 93_599;

/// A reading of the wall clock: an instant and the offset from UTC in which
/// it is shown.
///
/// `==` compares the three fields, so two readings of one instant in
/// different offsets are not equal; [`WallTime::at_or_after`] orders
/// readings by their instants alone.
#[derive(Clone, Copy, Debug, PartialEq, Eq, Structural)]
pub struct WallTime {
    /// Whole seconds since 1970-01-01 00:00:00 UTC.
    pub seconds: i64,
    /// Nanoseconds into that second.
    pub nanosecond: u32,
    /// Seconds that the local clock is ahead of UTC.
    pub offset: i32,
}

/// Whether `offset` is an offset from UTC that a reading can carry.
pub open spec fn valid_offset(offset: int) -> bool {
    -MAX_OFFSET_SECONDS <= offset <= MAX_OFFSET_SECONDS
}

/// Tells whether `offset` is an offset from UTC that a reading can carry.
pub fn is_valid_offset(offset: i32) -> (valid: bool)
    ensures
        valid == valid_offset(offset as int),
{
    -MAX_OFFSET_SECONDS <= offset && offset <= MAX_OFFSET_SECONDS
}

impl WallTime {
    /// Seconds that the local clock shows since its own 1970-01-01 00:00:00.
    pub open spec fn local_seconds(self) -> int {
        self.seconds + self.offset
    }

    /// Nanoseconds since 1970-01-01 00:00:00 UTC.
    pub open spec fn instant(self) -> int {
        self.seconds * 1_000_000_000 + self.nanosecond
    }

    /// Minute of the hour on the local clock, 0 to 59.
    pub open spec fn spec_minute(self) -> int {
        (self.local_seconds() / 60) % 60
    }

    /// Second of the minute on the local clock, 0 to 59.
    pub open spec fn spec_second(self) -> int {
        self.local_seconds() % 60
    }

    /// A reading is well formed when its nanoseconds stay below one second,
    /// its offset is one that exists, and its local date lies in the years
    /// -9999 to 9999.
    pub open spec fn wf(self) -> bool {
        &&& self.nanosecond < 1_000_000_000
        &&& valid_offset(self.offset as int)
        &&& MIN_LOCAL_SECONDS <= self.local_seconds() <= MAX_LOCAL_SECONDS
    }

    /// A well-formed reading that is not later than the last boundary, so
    /// that the boundary after it and its drain deadline are well formed too.
    pub open spec fn rotatable(self) -> bool {
        self.wf() && self.local_seconds() <= LAST_BOUNDARY_SECONDS
    }

    /// Whether the reading lies on a rotation boundary: a whole multiple of
    /// the period on the local clock, with no seconds and no fraction.
    pub open spec fn is_boundary(self) -> bool {
        self.local_seconds() % (ROTATION_PERIOD_SECONDS as int) == 0 && self.nanosecond == 0
    }

    /// Whether the instant of `self` is that of `other` or a later one.
    pub open spec fn at_or_after(self, other: WallTime) -> bool {
        self.instant() >= other.instant()
    }

    /// The reading `seconds` later, in the same offset.
    pub open spec fn plus_seconds(self, seconds: int) -> WallTime {
        WallTime { seconds: (self.seconds + seconds) as i64, ..self }
    }

    /// The reading of the same hour with the minute `minute`.
    pub open spec fn with_minute(self, minute: int) -> WallTime {
        self.plus_seconds(60 * (minute - self.spec_minute()))
    }

    /// The reading of the same minute with the second `second`.
    pub open spec fn with_second(self, second: int) -> WallTime {
        self.plus_seconds(second - self.spec_second())
    }

    /// Builds a reading from its parts, or `None` where they do not make a
    /// well-formed one.
    pub fn new(seconds: i64, nanosecond: u32, offset: i32) -> (reading: Option<WallTime>)
        ensures
            reading == (if (WallTime { seconds, nanosecond, offset }).wf() {
                Some(WallTime { seconds, nanosecond, offset })
            } else {
                None
            }),
    {
        if nanosecond < 1_000_000_000 && -MAX_OFFSET_SECONDS <= offset && offset
            <= MAX_OFFSET_SECONDS && MIN_LOCAL_SECONDS - (offset as i64) <= seconds && seconds
            <= MAX_LOCAL_SECONDS - (offset as i64) {
            Some(WallTime { seconds, nanosecond, offset })
        } else {
            None
        }
    }

    /// Tells whether the reading is well formed and not later than the last
    /// boundary.
    pub fn is_rotatable(&self) -> (rotatable: bool)
        ensures
            rotatable == self.rotatable(),
    {
        self.nanosecond < 1_000_000_000 && -MAX_OFFSET_SECONDS <= self.offset && self.offset
            <= MAX_OFFSET_SECONDS && MIN_LOCAL_SECONDS - (self.offset as i64) <= self.seconds
            && self.seconds <= LAST_BOUNDARY_SECONDS - (self.offset as i64)
    }

    /// Tells whether the instant of `self` is that of `other` or a later one.
    pub fn reached(&self, other: &WallTime) -> (reached: bool)
        ensures
            reached == self.at_or_after(*other),
    {
        let mine: i128 = (self.seconds as i128) * 1_000_000_000 + (self.nanosecond as i128);
        let theirs: i128 = (other.seconds as i128) * 1_000_000_000 + (other.nanosecond as i128);
        mine >= theirs
    }

    /// Minute of the hour on the local clock.
    pub fn minute(&self) -> (minute: u8)
        requires
            self.wf(),
        ensures
            minute == self.spec_minute(),
            minute < 60,
    {
        let local: i64 = self.seconds + self.offset as i64;
        proof {
            lemma_parts_of_local(local as int);
        }
        let in_hour: i64 = local.checked_rem_euclid(3600).unwrap();
        (in_hour / 60) as u8
    }

    /// Second of the minute on the local clock.
    pub fn second(&self) -> (second: u8)
        requires
            self.wf(),
        ensures
            second == self.spec_second(),
            second < 60,
    {
        let local: i64 = self.seconds + self.offset as i64;
        local.checked_rem_euclid(60).unwrap() as u8
    }

    /// The reading of the same hour with the minute `minute`, or `None`
    /// where `minute` is no minute of an hour.
    pub fn replace_minute(self, minute: u8) -> (replaced: Option<WallTime>)
        requires
            self.wf(),
        ensures
            replaced == (if minute < 60 {
                Some(self.with_minute(minute as int))
            } else {
                None
            }),
            replaced matches Some(reading) ==> reading.wf(),
    {
        if minute < 60 {
            let before = self.minute();
            proof {
                lemma_minute_replaced(self.local_seconds(), minute as int);
            }
            Some(
                WallTime {
                    seconds: self.seconds + 60 * (minute as i64 - before as i64),
                    nanosecond: self.nanosecond,
                    offset: self.offset,
                },
            )
        } else {
            None
        }
    }

    /// The reading of the same minute with the second `second`, or `None`
    /// where `second` is no second of a minute.
    pub fn replace_second(self, second: u8) -> (replaced: Option<WallTime>)
        requires
            self.wf(),
        ensures
            replaced == (if second < 60 {
                Some(self.with_second(second as int))
            } else {
                None
            }),
            replaced matches Some(reading) ==> reading.wf(),
    {
        if second < 60 {
            let before = self.second();
            proof {
                lemma_second_replaced(self.local_seconds(), second as int);
            }
            Some(
                WallTime {
                    seconds: self.seconds + (second as i64 - before as i64),
                    nanosecond: self.nanosecond,
                    offset: self.offset,
                },
            )
        } else {
            None
        }
    }

    /// The reading of the same second with the fraction `nanosecond`, or
    /// `None` where `nanosecond` is a second or more.
    pub fn replace_nanosecond(self, nanosecond: u32) -> (replaced: Option<WallTime>)
        ensures
            replaced == (if nanosecond < 1_000_000_000 {
                Some(WallTime { nanosecond, ..self })
            } else {
                None
            }),
    {
        if nanosecond < 1_000_000_000 {
            Some(WallTime { seconds: self.seconds, nanosecond, offset: self.offset })
        } else {
            None
        }
    }

    /// The reading `seconds` later, or `None` where that is no well-formed
    /// reading.
    pub fn checked_add_seconds(self, seconds: i64) -> (sum: Option<WallTime>)
        requires
            self.wf(),
        ensures
            sum == (if MIN_LOCAL_SECONDS <= self.local_seconds() + seconds <= MAX_LOCAL_SECONDS {
                Some(self.plus_seconds(seconds as int))
            } else {
                None
            }),
            sum matches Some(reading) ==> reading.wf(),
    {
        let local: i64 = self.seconds + self.offset as i64;
        if MIN_LOCAL_SECONDS - local <= seconds && seconds <= MAX_LOCAL_SECONDS - local {
            Some(
                WallTime {
                    seconds: self.seconds + seconds,
                    nanosecond: self.nanosecond,
                    offset: self.offset,
                },
            )
        } else {
            None
        }
    }

    /// The same local date and time, shown as a reading in `offset`: the
    /// instant moves by the difference of the two offsets.
    pub fn replace_offset(self, offset: i32) -> (replaced: WallTime)
        requires
            self.wf(),
            valid_offset(offset as int),
        ensures
            replaced.wf(),
            replaced.offset == offset,
            replaced.nanosecond == self.nanosecond,
            replaced.local_seconds() == self.local_seconds(),
    {
        let local: i64 = self.seconds + self.offset as i64;
        WallTime { seconds: local - offset as i64, nanosecond: self.nanosecond, offset }
    }
}

/// The hour, the minute in it and the second in it make up a second count.
proof fn lemma_parts_of_local(local: int)
    ensures
        0 <= local % 3600 < 3600,
        (local / 60) % 60 == (local % 3600) / 60,
        local % 60 == (local % 3600) % 60,
        local - local % 60 == (local - local % 3600) + 60 * ((local / 60) % 60),
{
    let hours = local / 3600;
    let in_hour = local % 3600;
    let minutes = in_hour / 60;
    let seconds = in_hour % 60;
    assert(local == 3600 * hours + in_hour);
    assert(in_hour == 60 * minutes + seconds);
    assert(0 <= minutes < 60);
    assert(local == 60 * (60 * hours + minutes) + seconds);
    assert(local / 60 == 60 * hours + minutes && local % 60 == seconds) by {
        vstd::arithmetic::div_mod::lemma_fundamental_div_mod_converse(
            local,
            60,
            60 * hours + minutes,
            seconds,
        );
    }
    assert((60 * hours + minutes) % 60 == minutes) by {
        vstd::arithmetic::div_mod::lemma_fundamental_div_mod_converse(
            60 * hours + minutes,
            60,
            hours,
            minutes,
        );
    }
}

/// A second count of the same hour as one that lies in the range of local
/// dates lies in it too: the range starts and ends with an hour.
proof fn lemma_same_hour_in_range(local: int, moved: int, hours: int)
    requires
        MIN_LOCAL_SECONDS <= local <= MAX_LOCAL_SECONDS,
        3600 * hours <= local < 3600 * hours + 3600,
        3600 * hours <= moved < 3600 * hours + 3600,
    ensures
        MIN_LOCAL_SECONDS <= moved <= MAX_LOCAL_SECONDS,
{
    assert(MIN_LOCAL_SECONDS == 3600 * (-104_918_088));
    assert(MAX_LOCAL_SECONDS + 1 == 3600 * 70_389_528);
    assert(hours >= -104_918_088);
    assert(hours < 70_389_528);
}

/// A second count whose minute is moved to `minute` keeps its hour and its
/// second, has that minute, and stays in the range of local dates.
proof fn lemma_minute_replaced(local: int, minute: int)
    requires
        0 <= minute < 60,
    ensures
        ({
            let moved = local + 60 * (minute - (local / 60) % 60);
            &&& moved - moved % 3600 == local - local % 3600
            &&& (moved / 60) % 60 == minute
            &&& moved % 60 == local % 60
            &&& MIN_LOCAL_SECONDS <= local <= MAX_LOCAL_SECONDS ==> MIN_LOCAL_SECONDS <= moved
                <= MAX_LOCAL_SECONDS
        }),
{
    lemma_parts_of_local(local);
    let moved = local + 60 * (minute - (local / 60) % 60);
    let hours = local / 3600;
    let seconds = local % 60;
    assert(local == 3600 * hours + local % 3600);
    assert(local % 3600 == 60 * ((local / 60) % 60) + seconds);
    assert(moved == 3600 * hours + (60 * minute + seconds));
    assert(0 <= 60 * minute + seconds < 3600);
    assert(moved / 3600 == hours && moved % 3600 == 60 * minute + seconds) by {
        vstd::arithmetic::div_mod::lemma_fundamental_div_mod_converse(
            moved,
            3600,
            hours,
            60 * minute + seconds,
        );
    }
    assert((60 * minute + seconds) / 60 == minute && (60 * minute + seconds) % 60 == seconds) by {
        vstd::arithmetic::div_mod::lemma_fundamental_div_mod_converse(
            60 * minute + seconds,
            60,
            minute,
            seconds,
        );
    }
    lemma_parts_of_local(moved);
    if MIN_LOCAL_SECONDS <= local <= MAX_LOCAL_SECONDS {
        lemma_same_hour_in_range(local, moved, hours);
    }
}

/// A second count whose second is moved to `second` keeps its minute, has
/// that second, and stays in the range of local dates.
proof fn lemma_second_replaced(local: int, second: int)
    requires
        0 <= second < 60,
    ensures
        ({
            let moved = local + (second - local % 60);
            &&& moved - moved % 60 == local - local % 60
            &&& moved % 60 == second
            &&& MIN_LOCAL_SECONDS <= local <= MAX_LOCAL_SECONDS ==> MIN_LOCAL_SECONDS <= moved
                <= MAX_LOCAL_SECONDS
        }),
{
    lemma_parts_of_local(local);
    let moved = local + (second - local % 60);
    let hours = local / 3600;
    let minutes = (local / 60) % 60;
    assert(local == 3600 * hours + local % 3600);
    assert(local % 3600 == 60 * minutes + local % 60);
    assert(0 <= minutes < 60);
    assert(moved == 60 * (60 * hours + minutes) + second);
    assert(moved / 60 == 60 * hours + minutes && moved % 60 == second) by {
        vstd::arithmetic::div_mod::lemma_fundamental_div_mod_converse(
            moved,
            60,
            60 * hours + minutes,
            second,
        );
    }
    assert(local - local % 60 == 60 * (60 * hours + minutes));
    if MIN_LOCAL_SECONDS <= local <= MAX_LOCAL_SECONDS {
        assert(3600 * hours <= moved < 3600 * hours + 3600);
        lemma_same_hour_in_range(local, moved, hours);
    }
}

/// The boundary that belongs to the local second count `local`: its minute
/// rounded up to a multiple of the period, carried into the next hour where
/// it reaches 60, with the seconds set to zero.
#[verifier::opaque]
pub open spec fn boundary_of_local(local: int) -> int {
    let hour = local - local % 3600;
    let minute = (((local / 60) % 60 + (ROTATION_PERIOD_MINUTES - 1)) / (
    ROTATION_PERIOD_MINUTES as int)) * ROTATION_PERIOD_MINUTES;
    if minute >= 60 {
        hour + 3600
    } else {
        hour + minute * 60
    }
}

/// The boundary that belongs to `now`: the minute of `now` rounded up to a
/// multiple of the period, carried into the next hour where it reaches 60,
/// with seconds and fraction set to zero.
pub open spec fn next_boundary(now: WallTime) -> WallTime {
    WallTime {
        seconds: (boundary_of_local(now.local_seconds()) - now.offset) as i64,
        nanosecond: 0,
        offset: now.offset,
    }
}

/// The boundary of a second count lies on the grid, not before the start of
/// the count's minute and less than a period after it.
proof fn lemma_boundary_of_local(local: int)
    ensures
        boundary_of_local(local) % (ROTATION_PERIOD_SECONDS as int) == 0,
        local - local % 60 <= boundary_of_local(local) < local - local % 60
            + ROTATION_PERIOD_SECONDS,
{
    reveal(boundary_of_local);
    lemma_parts_of_local(local);
    let hours = local / 3600;
    let minutes = (local / 60) % 60;
    let tens = (minutes + 9) / 10;
    assert(0 <= minutes < 60);
    assert(0 <= tens <= 6);
    assert(minutes <= 10 * tens < minutes + 10);
    assert(local - local % 3600 == 3600 * hours);
    assert(boundary_of_local(local) == 3600 * hours + 600 * tens);
    assert(boundary_of_local(local) == 600 * (6 * hours + tens));
    assert((600 * (6 * hours + tens)) % 600 == 0) by {
        vstd::arithmetic::div_mod::lemma_fundamental_div_mod_converse(
            600 * (6 * hours + tens),
            600,
            6 * hours + tens,
            0,
        );
    }
}

/// The instant by which the file that was left at `boundary` is closed.
pub open spec fn deadline_after(boundary: WallTime) -> WallTime {
    boundary.plus_seconds(TIME_STOP_LAG as int)
}

/// A minute of the hour is a multiple of the period exactly when the minute
/// starts on the grid.
proof fn lemma_minute_on_grid(local: int)
    ensures
        ((local / 60) % 60) % (ROTATION_PERIOD_MINUTES as int) == 0 <==> (local - local % 60) % (
        ROTATION_PERIOD_SECONDS as int) == 0,
{
    lemma_parts_of_local(local);
    let hours = local / 3600;
    let minutes = (local / 60) % 60;
    let tens = minutes / 10;
    let ones = minutes % 10;
    assert(local - local % 60 == 3600 * hours + 60 * minutes);
    assert(local - local % 60 == 600 * (6 * hours + tens) + 60 * ones);
    assert(0 <= 60 * ones < 600);
    assert((local - local % 60) % 600 == 60 * ones) by {
        vstd::arithmetic::div_mod::lemma_fundamental_div_mod_converse(
            local - local % 60,
            600,
            6 * hours + tens,
            60 * ones,
        );
    }
}

/// Two points of the grid less than a period apart are one point.
proof fn lemma_grid_is_sparse(x: int, y: int)
    requires
        x % (ROTATION_PERIOD_SECONDS as int) == 0,
        y % (ROTATION_PERIOD_SECONDS as int) == 0,
        x <= y < x + ROTATION_PERIOD_SECONDS,
    ensures
        x == y,
{
    assert(x == 600 * (x / 600));
    assert(y == 600 * (y / 600));
}

/// A point of the grid is the start of a minute.
proof fn lemma_grid_on_minutes(x: int)
    requires
        x % (ROTATION_PERIOD_SECONDS as int) == 0,
    ensures
        x % 60 == 0,
{
    assert(x == 600 * (x / 600));
    assert(x == 60 * (10 * (x / 600)));
    vstd::arithmetic::div_mod::lemma_fundamental_div_mod_converse(x, 60, 10 * (x / 600), 0);
}

/// Whether `t` lies inside a minute that starts on a boundary, after that
/// minute's start. The boundary that belongs to such a reading is the start
/// of its own minute, which is already over.
pub open spec fn inside_boundary_minute(t: WallTime) -> bool {
    t.spec_minute() % (ROTATION_PERIOD_MINUTES as int) == 0 && (t.spec_second() > 0 || t.nanosecond
        > 0)
}

/// The boundary that belongs to a reading lies on the grid of boundaries, in
/// the reading's own offset, and is the first boundary that is not before
/// the start of the reading's minute.
pub proof fn law_boundary_follows_minute(t: WallTime)
    requires
        t.wf(),
    ensures
        next_boundary(t).is_boundary(),
        next_boundary(t).offset == t.offset,
        t.local_seconds() - t.spec_second() <= next_boundary(t).local_seconds() < t.local_seconds()
            - t.spec_second() + ROTATION_PERIOD_SECONDS,
{
    lemma_boundary_of_local(t.local_seconds());
}

/// Of every reading that does not lie inside a boundary's minute after its
/// start: the boundary that belongs to it is a boundary, is not before the
/// reading, and no boundary `other` in the same offset that is not before
/// the reading comes earlier.
pub proof fn law_next_boundary_is_least(t: WallTime, other: WallTime)
    requires
        t.wf(),
        !inside_boundary_minute(t),
    ensures
        next_boundary(t).is_boundary(),
        next_boundary(t).at_or_after(t),
        other.is_boundary() && other.offset == t.offset && other.at_or_after(t)
            ==> other.at_or_after(next_boundary(t)),
{
    let local = t.local_seconds();
    let boundary = boundary_of_local(local);
    lemma_boundary_of_local(local);
    lemma_minute_on_grid(local);
    assert(next_boundary(t).local_seconds() == boundary);
    if (local - local % 60) % 600 == 0 {
        lemma_grid_is_sparse(local - local % 60, boundary);
    } else {
        lemma_grid_on_minutes(boundary);
        assert(boundary != local - local % 60);
        assert(boundary >= local - local % 60 + 60) by {
            assert(boundary == 60 * (boundary / 60));
            assert(local - local % 60 == 60 * (local / 60));
        }
    }
    assert(boundary >= local);
    if other.is_boundary() && other.offset == t.offset && other.at_or_after(t) {
        let candidate = other.local_seconds();
        assert(candidate >= local);
        if candidate < boundary {
            lemma_grid_on_minutes(candidate);
            assert(candidate >= local - local % 60);
            lemma_grid_is_sparse(candidate, boundary);
        }
    }
}

/// Of every reading `later` that comes after the boundary of `t`, by no more
/// than one period, and does not lie inside a boundary's minute after its
/// start: the boundary that belongs to `later` is the boundary of `t` plus
/// one period.
pub proof fn law_next_boundary_advances(t: WallTime, later: WallTime)
    requires
        t.wf(),
        later.wf(),
        later.offset == t.offset,
        !inside_boundary_minute(later),
        later.instant() > next_boundary(t).instant(),
        later.instant() <= next_boundary(t).plus_seconds(ROTATION_PERIOD_SECONDS as int).instant(),
    ensures
        next_boundary(later) == next_boundary(t).plus_seconds(ROTATION_PERIOD_SECONDS as int),
{
    let first = boundary_of_local(t.local_seconds());
    let local = later.local_seconds();
    let minute = local - local % 60;
    let second = boundary_of_local(local);
    lemma_boundary_of_local(t.local_seconds());
    lemma_boundary_of_local(local);
    lemma_minute_on_grid(local);
    lemma_grid_on_minutes(first);
    assert(next_boundary(t).local_seconds() == first);
    assert(first <= local <= first + 600);
    assert(first <= minute) by {
        assert(first == 60 * (first / 60));
        assert(minute == 60 * (local / 60));
    }
    if minute % 600 == 0 {
        assert(local == minute && later.nanosecond == 0);
        assert(first < local);
        lemma_grid_is_sparse(minute, second);
        if local < first + 600 {
            lemma_grid_is_sparse(first, local);
        }
    } else {
        assert(first < minute < first + 600);
        assert((first + 600) % 600 == 0) by {
            vstd::arithmetic::div_mod::lemma_fundamental_div_mod_converse(
                first + 600,
                600,
                first / 600 + 1,
                0,
            );
        }
        if second < first + 600 {
            lemma_grid_is_sparse(first, second);
        } else {
            lemma_grid_is_sparse(first + 600, second);
        }
    }
    assert(second == first + 600);
}

/// A boundary is its own boundary.
pub proof fn law_boundary_is_fixed(t: WallTime)
    requires
        t.wf(),
        t.is_boundary(),
    ensures
        next_boundary(t) == t,
{
    lemma_boundary_of_local(t.local_seconds());
}

/// Inside the minute that starts on a boundary, the boundary of every
/// reading is that boundary.
pub proof fn law_boundary_holds_for_its_minute(boundary: WallTime, t: WallTime)
    requires
        boundary.wf(),
        t.wf(),
        boundary.is_boundary(),
        t.offset == boundary.offset,
        boundary.local_seconds() <= t.local_seconds() < boundary.local_seconds() + 60,
    ensures
        next_boundary(t) == boundary,
{
    let local = t.local_seconds();
    let mark = boundary.local_seconds();
    lemma_boundary_of_local(local);
    lemma_grid_on_minutes(mark);
    assert(local - local % 60 == mark) by {
        vstd::arithmetic::div_mod::lemma_fundamental_div_mod_converse(
            local,
            60,
            mark / 60,
            local - mark,
        );
    }
    lemma_grid_is_sparse(mark, boundary_of_local(local));
}

/// The boundary of a reading that is not later than the last boundary is
/// not later than it either, and its drain deadline is well formed.
pub proof fn law_boundary_stays_in_range(t: WallTime)
    requires
        t.rotatable(),
    ensures
        next_boundary(t).rotatable(),
        deadline_after(next_boundary(t)).wf(),
{
    let local = t.local_seconds();
    let boundary = boundary_of_local(local);
    lemma_boundary_of_local(local);
    assert(LAST_BOUNDARY_SECONDS % 600 == 0);
    if boundary > LAST_BOUNDARY_SECONDS {
        assert(boundary < local + 600);
        lemma_grid_is_sparse(LAST_BOUNDARY_SECONDS as int, boundary);
    }
    assert(boundary >= local - 60);
}

/// Computes the boundary that belongs to `time_now`.
pub fn get_next_time(time_now: &WallTime) -> (time_next: WallTime)
    requires
        time_now.rotatable(),
    ensures
        time_next == next_boundary(*time_now),
        time_next.rotatable(),
{
    proof {
        reveal(boundary_of_local);
        law_boundary_stays_in_range(*time_now);
        lemma_parts_of_local(time_now.local_seconds());
    }
    let minute: u8 = (time_now.minute() + (ROTATION_PERIOD_MINUTES - 1)) / ROTATION_PERIOD_MINUTES
        * ROTATION_PERIOD_MINUTES;
    let in_minute = if minute >= 60 {
        let in_hour = time_now.replace_minute(0).unwrap();
        proof {
            lemma_minute_replaced(time_now.local_seconds(), 0);
        }
        in_hour.checked_add_seconds(3600).unwrap()
    } else {
        proof {
            lemma_minute_replaced(time_now.local_seconds(), minute as int);
        }
        time_now.replace_minute(minute).unwrap()
    };
    proof {
        lemma_second_replaced(in_minute.local_seconds(), 0);
    }
    in_minute.replace_second(0).unwrap().replace_nanosecond(0).unwrap()
}

/// Computes the drain deadline of the file that was left at `boundary`.
pub fn drain_deadline(boundary: &WallTime) -> (deadline: WallTime)
    requires
        boundary.wf(),
        boundary.local_seconds() + TIME_STOP_LAG <= MAX_LOCAL_SECONDS,
    ensures
        deadline == deadline_after(*boundary),
        deadline.wf(),
{
    boundary.checked_add_seconds(TIME_STOP_LAG).unwrap()
}

/// What the formatter of the `time` crate writes for the reading with these
/// three fields under the format description `description`, or `None` where
/// the description does not parse, the fields are no date that the crate can
/// hold, or the formatter refuses.
pub uninterp spec fn formatted_time(
    seconds: int,
    nanosecond: int,
    offset: int,
    description: Seq<char>,
) -> Option<Seq<char>>;

/// Calls `time::OffsetDateTime::now_utc` and reads what it gives with
/// `unix_timestamp`, `nanosecond` and `offset().whole_seconds()`. Trusted:
/// the reading is well formed, as every date and time of that crate is, and
/// its offset is UTC. Nothing is claimed of the instant.
#[verifier::external_body]
fn now_utc() -> (now: WallTime)
    ensures
        now.wf(),
        now.offset == 0,
{
    let now = time::OffsetDateTime::now_utc();
    WallTime {
        seconds: now.unix_timestamp(),
        nanosecond: now.nanosecond(),
        offset: now.offset().whole_seconds(),
    }
}

/// Calls `time::OffsetDateTime::format` on the reading, with `description`
/// parsed by `time::format_description::parse_borrowed` in its version 1.
/// The reading is handed over by `OffsetDateTime::from_unix_timestamp`,
/// `replace_nanosecond`, `UtcOffset::from_whole_seconds` and
/// `checked_to_offset`; `None` stands for the refusal of any of these
/// calls. Trusted: what comes back depends on the reading's three fields
/// and on the description alone, and is what [`formatted_time`] names.
/// Nothing is claimed of the text itself.
#[verifier::external_body]
fn format_time(time: &WallTime, description: &str) -> (stamp: Option<String>)
    ensures
        stamp matches Some(text) ==> formatted_time(
            time.seconds as int,
            time.nanosecond as int,
            time.offset as int,
            description@,
        ) == Some(text@),
        stamp is None ==> formatted_time(
            time.seconds as int,
            time.nanosecond as int,
            time.offset as int,
            description@,
        ) is None,
{
    let items = time::format_description::parse_borrowed::<1>(description).ok()?;
    let offset = time::UtcOffset::from_whole_seconds(time.offset).ok()?;
    let utc = time::OffsetDateTime::from_unix_timestamp(time.seconds).ok()?;
    let local = utc.replace_nanosecond(time.nanosecond).ok()?.checked_to_offset(offset)?;
    local.format(&items).ok()
}

/// Reads the clock: the date and time of UTC at this moment, taken as a
/// reading in `offset`.
pub fn get_time(offset: i32) -> (now: WallTime)
    requires
        valid_offset(offset as int),
    ensures
        now.wf(),
        now.offset == offset,
{
    now_utc().replace_offset(offset)
}

/// The path of the file for a formatted time: the folder, a slash, the
/// time, an underscore, the camera's name and the extension.
pub open spec fn file_name(folder: Seq<char>, stamp: Seq<char>, camera: Seq<char>) -> Seq<char> {
    folder + "/"@ + stamp + "_"@ + camera + ".mkv"@
}

/// The path of the file that starts at `time`, or `None` where the time
/// cannot be formatted.
pub open spec fn name_at(
    time: WallTime,
    camera: Seq<char>,
    folder: Seq<char>,
    description: Seq<char>,
) -> Option<Seq<char>> {
    match formatted_time(
        time.seconds as int,
        time.nanosecond as int,
        time.offset as int,
        description,
    ) {
        Some(stamp) => Some(file_name(folder, stamp, camera)),
        None => None,
    }
}

/// Puts a file's path together from the folder, the formatted time and the
/// camera's name.
pub fn compose_name(folder: &str, stamp: &str, camera: &str) -> (name: String)
    ensures
        name@ == file_name(folder@, stamp@, camera@),
{
    let mut name = String::from_str(folder);
    name.append("/");
    name.append(stamp);
    name.append("_");
    name.append(camera);
    name.append(".mkv");
    name
}

/// Names the file that starts at `time` for `camera`, or returns `None`
/// where the time cannot be formatted under the configured description.
pub fn get_name(time: &WallTime, camera: &Camera, cameras_meta: &CamerasMetadata) -> (name: Option<
    String,
>)
    ensures
        name matches Some(path) ==> name_at(
            *time,
            camera.name@,
            cameras_meta.folder@,
            cameras_meta.time_format@,
        ) == Some(path@),
        name is None ==> name_at(
            *time,
            camera.name@,
            cameras_meta.folder@,
            cameras_meta.time_format@,
        ) is None,
{
    match format_time(time, cameras_meta.time_format.as_str()) {
        Some(stamp) => Some(
            compose_name(cameras_meta.folder.as_str(), stamp.as_str(), camera.name.as_str()),
        ),
        None => None,
    }
}

} // verus!
