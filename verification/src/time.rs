//! The in-game clock: a discretized timestamp advanced in ticks, its
//! day/hour/second breakdown, and one-shot and recurring interval queries.

use vstd::prelude::*;

verus! {

/// How many in-game seconds pass for one real-time second at warp 1.
pub const SECONDS_PER_REALTIME_SECOND: u32 = 15;

pub const SECONDS_PER_HOUR: i32 = 3600;

pub const HOURS_PER_DAY: i32 = 24;

pub const SECONDS_PER_DAY: i32 = 3600 * 24;

/// Fixed number of simulation ticks per in-game second.
pub const TICKS_PER_SECOND: u64 = 50;

/// The amount of time the game was updated.
/// Used as a resource.
#[derive(Debug, Default, PartialEq, Eq, Copy, Clone, Structural)]
pub struct Tick(pub u64);

/// A useful format to define intervals or points in game time.
#[derive(Debug, PartialEq, Eq, Copy, Clone, Structural)]
pub struct DayTime {
    /// Days elapsed since the start of the game
    pub day: i32,

    /// Hours elapsed since the start of the day
    pub hour: i32,

    /// Seconds elapsed since the start of the hour
    pub second: i32,
}

/// The day/hour/second breakdown of a non-negative number of seconds.
pub open spec fn daytime_of(seconds: int) -> DayTime {
    DayTime {
        day: (seconds / (SECONDS_PER_DAY as int)) as i32,
        hour: ((seconds % (SECONDS_PER_DAY as int)) / (SECONDS_PER_HOUR as int)) as i32,
        second: (seconds % (SECONDS_PER_HOUR as int)) as i32,
    }
}

impl DayTime {
    /// Seconds elapsed since the start of the game, as a mathematical value.
    pub open spec fn spec_gamesec(self) -> int {
        self.day * (SECONDS_PER_DAY as int) + self.hour * (SECONDS_PER_HOUR as int) + self.second
    }

    /// A canonical day time: each field in range, and the whole value
    /// representable as seconds in an `i32`.
    pub open spec fn wf(self) -> bool {
        &&& 0 <= self.day
        &&& 0 <= self.hour < HOURS_PER_DAY
        &&& 0 <= self.second < SECONDS_PER_HOUR
        &&& self.spec_gamesec() <= i32::MAX
    }

    pub fn new(seconds: i32) -> (r: DayTime)
        requires
            0 <= seconds,
        ensures
            r == daytime_of(seconds as int),
            r.wf(),
            r.spec_gamesec() == seconds,
    {
        proof {
            lemma_daytime_roundtrip(seconds as int);
        }
        DayTime {
            day: seconds / SECONDS_PER_DAY,
            hour: (seconds % SECONDS_PER_DAY) / SECONDS_PER_HOUR,
            second: seconds % SECONDS_PER_HOUR,
        }
    }

    /// Returns the absolute difference (going either backward or forward in
    /// time) in seconds to the given daytime.
    pub fn dist(&self, to: &DayTime) -> (r: i32)
        requires
            self.wf(),
            to.wf(),
        ensures
            r == if self.spec_gamesec() >= to.spec_gamesec() {
                self.spec_gamesec() - to.spec_gamesec()
            } else {
                to.spec_gamesec() - self.spec_gamesec()
            },
    {
        let a: i32 = self.gamesec();
        let b: i32 = to.gamesec();
        if a >= b {
            a - b
        } else {
            b - a
        }
    }

    /// Returns the number of seconds elapsed since the start of the day.
    pub fn daysec(&self) -> (r: i32)
        requires
            self.wf(),
        ensures
            r == self.hour * (SECONDS_PER_HOUR as int) + self.second,
    {
        self.hour * SECONDS_PER_HOUR + self.second
    }

    pub fn gamesec(&self) -> (r: i32)
        requires
            self.wf(),
        ensures
            r == self.spec_gamesec(),
    {
        self.day * SECONDS_PER_DAY + self.hour * SECONDS_PER_HOUR + self.second
    }
}

/// The breakdown of a non-negative second count turns back into exactly that
/// count: `daytime_of` and `spec_gamesec` are inverses on `0 <= seconds`.
pub proof fn lemma_daytime_roundtrip(seconds: int)
    requires
        0 <= seconds <= i32::MAX,
    ensures
        daytime_of(seconds).wf(),
        daytime_of(seconds).spec_gamesec() == seconds,
{
    let d: int = SECONDS_PER_DAY as int;
    let h: int = SECONDS_PER_HOUR as int;
    assert(h * 24 == d);
    vstd::arithmetic::div_mod::lemma_fundamental_div_mod(seconds, d);
    vstd::arithmetic::div_mod::lemma_fundamental_div_mod(seconds % d, h);
    vstd::arithmetic::div_mod::lemma_mod_mod(seconds, h, 24);
    vstd::arithmetic::div_mod::lemma_div_pos_is_pos(seconds, d);
    vstd::arithmetic::div_mod::lemma_mod_bound(seconds, d);
    vstd::arithmetic::div_mod::lemma_div_pos_is_pos(seconds % d, h);
    vstd::arithmetic::div_mod::lemma_mod_bound(seconds, h);
    vstd::arithmetic::div_mod::lemma_div_is_ordered(seconds % d, d - 1, h);
    assert((d - 1) / h == 23);
    vstd::arithmetic::div_mod::lemma_div_is_ordered(seconds, i32::MAX as int, d);
}

/// An interval of in-game time.
#[derive(Debug, PartialEq, Eq, Copy, Clone, Structural)]
pub struct TimeInterval {
    pub start: DayTime,
    pub end: DayTime,
}

impl TimeInterval {
    pub fn new(start: DayTime, end: DayTime) -> (r: TimeInterval)
        ensures
            r.start == start,
            r.end == end,
    {
        TimeInterval { start, end }
    }

    /// Seconds from `t` to the interval: how far `t` lies before `start` or
    /// after `end`, and zero inside.
    pub fn dist(&self, t: DayTime) -> (r: i32)
        requires
            self.start.wf(),
            self.end.wf(),
            t.wf(),
        ensures
            r == if t.spec_gamesec() < self.start.spec_gamesec() {
                self.start.spec_gamesec() - t.spec_gamesec()
            } else if t.spec_gamesec() > self.end.spec_gamesec() {
                t.spec_gamesec() - self.end.spec_gamesec()
            } else {
                0
            },
    {
        let tg: i32 = t.gamesec();
        if tg < self.start.gamesec() {
            self.start.gamesec() - tg
        } else if tg > self.end.gamesec() {
            tg - self.end.gamesec()
        } else {
            0
        }
    }
}

/// A periodic interval of in-game time, recurring every day.
/// Used for schedules (for example 9am -> 6pm).
#[derive(Debug, PartialEq, Eq, Copy, Clone, Structural)]
pub struct RecTimeInterval {
    pub start_hour: i32,
    pub start_second: i32,

    pub end_hour: i32,
    pub end_second: i32,

    /// Does the interval go through midnight. Computed by `new` from start
    /// and end; `wf` ties it to them, so it cannot be left stale by any
    /// kernel operation.
    pub overlap: bool,
}

impl RecTimeInterval {
    /// The end of the daily interval lies before its start: it wraps past
    /// midnight.
    pub open spec fn spec_overlap(self) -> bool {
        self.end_hour < self.start_hour || (self.end_hour == self.start_hour
            && self.end_second < self.start_second)
    }

    pub open spec fn wf(self) -> bool {
        &&& 0 <= self.start_hour < HOURS_PER_DAY
        &&& 0 <= self.start_second < SECONDS_PER_HOUR
        &&& 0 <= self.end_hour < HOURS_PER_DAY
        &&& 0 <= self.end_second < SECONDS_PER_HOUR
        &&& self.overlap == self.spec_overlap()
    }

    /// The cached wrap flag, recomputed by `new`; it cannot go stale because
    /// the start and end fields are only set together with it.
    pub open spec fn spec_overlap_flag(self) -> bool {
        self.overlap
    }

    pub fn new(start: (i32, i32), end: (i32, i32)) -> (r: RecTimeInterval)
        requires
            0 <= start.0 < HOURS_PER_DAY,
            0 <= start.1 < SECONDS_PER_HOUR,
            0 <= end.0 < HOURS_PER_DAY,
            0 <= end.1 < SECONDS_PER_HOUR,
        ensures
            r.start_hour == start.0,
            r.start_second == start.1,
            r.end_hour == end.0,
            r.end_second == end.1,
            r.wf(),
    {
        let (start_hour, start_second): (i32, i32) = start;
        let (end_hour, end_second): (i32, i32) = end;
        RecTimeInterval {
            start_hour,
            start_second,
            end_hour,
            end_second,
            overlap: end_hour < start_hour || (end_hour == start_hour
                && end_second < start_second),
        }
    }

    /// The interval's start on day `day`, in game seconds.
    pub open spec fn spec_start_gamesec(self, day: int) -> int {
        day * (SECONDS_PER_DAY as int) + self.start_hour * (SECONDS_PER_HOUR as int)
            + self.start_second
    }

    /// The interval's end on day `day`, in game seconds.
    pub open spec fn spec_end_gamesec(self, day: int) -> int {
        day * (SECONDS_PER_DAY as int) + self.end_hour * (SECONDS_PER_HOUR as int)
            + self.end_second
    }

    /// What `dist_until` returns: zero inside the (possibly midnight-
    /// wrapping) interval for `t`'s day, else the seconds to the next start.
    pub open spec fn spec_dist_until(self, t: DayTime) -> int {
        let tg = t.spec_gamesec();
        let sg = self.spec_start_gamesec(t.day as int);
        let eg = self.spec_end_gamesec(t.day as int);
        if !self.spec_overlap() {
            if tg < sg {
                sg - tg
            } else if tg > eg {
                sg + (SECONDS_PER_DAY as int) - tg
            } else {
                0
            }
        } else {
            if tg >= eg && tg <= sg {
                sg - tg
            } else {
                0
            }
        }
    }

    /// Returns 0 if `t` falls inside the interval for `t`'s day, otherwise
    /// the non-negative seconds until the interval's next start.
    pub fn dist_until(&self, t: DayTime) -> (r: i32)
        requires
            self.wf(),
            t.wf(),
            (t.day + 1) * (SECONDS_PER_DAY as int) + self.start_hour * (SECONDS_PER_HOUR as int)
                + self.start_second <= i32::MAX,
        ensures
            r == self.spec_dist_until(t),
            r >= 0,
    {
        let mut start_dt: DayTime = DayTime {
            day: t.day,
            hour: self.start_hour,
            second: self.start_second,
        };

        let end_dt: DayTime = DayTime {
            day: t.day,
            hour: self.end_hour,
            second: self.end_second,
        };

        proof {
            assert((t.day + 1) * (SECONDS_PER_DAY as int) == t.day * (SECONDS_PER_DAY as int)
                + SECONDS_PER_DAY) by (nonlinear_arith);
            assert(start_dt.wf());
            assert(end_dt.wf());
            assert(t.day + 1 <= (t.day + 1) * (SECONDS_PER_DAY as int)) by (nonlinear_arith)
                requires 0 <= t.day && SECONDS_PER_DAY >= 1;
            assert(t.day + 1 <= i32::MAX);
        }
        let tg: i32 = t.gamesec();
        if !self.overlap {
            if tg < start_dt.gamesec() {
                start_dt.gamesec() - tg
            } else if tg > end_dt.gamesec() {
                start_dt.day = start_dt.day + 1;
                start_dt.gamesec() - tg
            } else {
                0
            }
        } else if tg >= end_dt.gamesec() && tg <= start_dt.gamesec() {
            start_dt.gamesec() - tg
        } else {
            0
        }
    }
}

/// Largest allowed timestamp, in ticks: whole seconds must stay
/// representable as a non-negative `i32` for the day/hour/second breakdown.
pub const MAX_TIMESTAMP_TICKS: u64 = 50 * 0x7fff_ffff;

/// Whole seconds beyond which the clock reports that it approaches its
/// safety bound. The simulation keeps counting past it.
pub const WARN_SECONDS: u32 = 1000000000;

/// An in-game instant used to measure time differences.
#[derive(Debug, PartialEq, Eq, Copy, Clone, Structural)]
pub struct GameInstant {
    /// Ticks elapsed since the start of the game
    pub timestamp: u64,
}

/// The resource to know everything about the current in-game time.
/// `GameTime` is subject to timewarp: a frame may advance it by any number
/// of ticks.
#[derive(Debug, PartialEq, Eq, Copy, Clone, Structural)]
pub struct GameTime {
    /// Monotonic time in ticks elapsed since the start of the game.
    pub timestamp: u64,

    /// Ticks the last frame advanced the clock by, useful for boundary
    /// queries and animations.
    pub delta: u64,

    /// Whole game seconds elapsed since the start of the game.
    pub seconds: u32,

    /// Information about the time of the current day.
    pub daytime: DayTime,
}

impl GameTime {
    /// The derived fields agree with the timestamp: `seconds` is the whole
    /// seconds of `timestamp` and `daytime` is always exactly its breakdown.
    pub open spec fn wf(self) -> bool {
        &&& self.delta <= self.timestamp
        &&& self.timestamp <= MAX_TIMESTAMP_TICKS
        &&& self.seconds == self.timestamp / TICKS_PER_SECOND
        &&& self.daytime == daytime_of(self.seconds as int)
    }

    pub fn new(delta: u64, timestamp: u64) -> (r: GameTime)
        requires
            delta <= timestamp,
            timestamp <= MAX_TIMESTAMP_TICKS,
        ensures
            r.timestamp == timestamp,
            r.delta == delta,
            r.wf(),
    {
        let seconds: u32 = (timestamp / TICKS_PER_SECOND) as u32;
        GameTime { timestamp, delta, seconds, daytime: DayTime::new(seconds as i32) }
    }

    /// Produces the clock after a frame: the timestamp grows by the warped
    /// real delta and never decreases.
    pub fn advance(&self, real_delta_ticks: u64, warp: u64) -> (r: GameTime)
        requires
            self.wf(),
            self.timestamp + real_delta_ticks * warp * (SECONDS_PER_REALTIME_SECOND as int)
                <= MAX_TIMESTAMP_TICKS,
        ensures
            r.wf(),
            r.delta == real_delta_ticks * warp * (SECONDS_PER_REALTIME_SECOND as int),
            r.timestamp == self.timestamp + r.delta,
            r.timestamp >= self.timestamp,
    {
        let delta: u64 = real_delta_ticks * warp * (SECONDS_PER_REALTIME_SECOND as u64);
        GameTime::new(delta, self.timestamp + delta)
    }

    /// The clock approaches its configured safety bound. A diagnostic
    /// condition only: counting continues.
    pub fn near_limit(&self) -> (r: bool)
        ensures
            r == (self.seconds > WARN_SECONDS),
    {
        self.seconds > WARN_SECONDS
    }

    pub fn instant(&self) -> (r: GameInstant)
        ensures
            r.timestamp == self.timestamp,
    {
        GameInstant { timestamp: self.timestamp }
    }

    /// What `tick` returns: the last frame crossed the latest whole multiple
    /// of `freq` seconds, which sits after the previous timestamp and at or
    /// before the current one.
    pub open spec fn spec_tick(self, freq: u32) -> bool {
        let near = (self.seconds as int / freq as int) * (freq as int) * (
        TICKS_PER_SECOND as int);
        self.timestamp > near && self.timestamp - self.delta <= near
    }

    /// Returns true every `freq` seconds: exactly on the frames whose
    /// advance crossed a multiple of `freq`.
    pub fn tick(&self, freq: u32) -> (r: bool)
        requires
            self.wf(),
            freq >= 1,
        ensures
            r == self.spec_tick(freq),
    {
        proof {
            vstd::arithmetic::div_mod::lemma_fundamental_div_mod(self.seconds as int, freq as int);
            vstd::arithmetic::div_mod::lemma_mod_bound(self.seconds as int, freq as int);
            vstd::arithmetic::div_mod::lemma_div_pos_is_pos(self.seconds as int, freq as int);
            vstd::arithmetic::mul::lemma_mul_is_commutative(
                self.seconds as int / freq as int,
                freq as int,
            );
        }
        let near_seconds: u32 = self.seconds / freq * freq;
        let time_near: u64 = near_seconds as u64 * TICKS_PER_SECOND;
        self.timestamp > time_near && self.timestamp - self.delta <= time_near
    }

    /// Ticks elapsed since the start of the current day.
    pub fn daysec(&self) -> (r: u64)
        ensures
            r == (self.timestamp as int) % ((SECONDS_PER_DAY as int) * (TICKS_PER_SECOND as int)),
    {
        self.timestamp % (SECONDS_PER_DAY as u64 * TICKS_PER_SECOND)
    }
}

impl GameInstant {
    /// Ticks elapsed since the instant was taken.
    pub fn elapsed(&self, time: &GameTime) -> (r: u64)
        requires
            self.timestamp <= time.timestamp,
        ensures
            r == time.timestamp - self.timestamp,
    {
        time.timestamp - self.timestamp
    }
}

/// Inside the recurring interval the distance until it is zero. For a
/// non-wrapping interval, inside means between the day's start and end; for
/// a midnight-wrapping one, it means anywhere outside the gap from the day's
/// end up to the day's start.
pub proof fn lemma_dist_until_inside_is_zero(itv: RecTimeInterval, t: DayTime)
    requires
        itv.wf(),
        t.wf(),
        !itv.spec_overlap() ==> itv.spec_start_gamesec(t.day as int) <= t.spec_gamesec()
            <= itv.spec_end_gamesec(t.day as int),
        itv.spec_overlap() ==> t.spec_gamesec() < itv.spec_end_gamesec(t.day as int)
            || t.spec_gamesec() > itv.spec_start_gamesec(t.day as int),
    ensures
        itv.spec_dist_until(t) == 0,
{
}

} // verus!
