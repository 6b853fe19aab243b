//! Clocks: a monotone one and a wall clock, read through a handle that can be shared.

use crate::duration::{nanos_of_parts, span_in_range, valid_parts, Duration};
use std::sync::Arc;
use vstd::prelude::*;
use vstd::rwlock::{RwLock, RwLockPredicate};

verus! {

/// A reading of a monotone clock. Its view is the time since the clock started, in nanoseconds.
#[derive(Clone, Copy, Debug, PartialEq, Eq, PartialOrd, Ord, Hash, Structural)]
pub struct Instant {
    since_start: Duration,
}

impl View for Instant {
    type V = int;

    closed spec fn view(&self) -> int {
        self.since_start@
    }
}

impl Instant {
    /// The moment at which the clock started.
    pub fn start() -> (t: Instant)
        ensures
            t@ == 0,
    {
        Instant { since_start: Duration::seconds(0) }
    }

    /// The time from the start of the clock to this instant.
    pub fn since_start(self) -> (d: Duration)
        ensures
            d@ == self@,
    {
        self.since_start
    }

    /// The instant `d` later, or `None` where it cannot be represented.
    pub fn checked_add(self, d: Duration) -> (r: Option<Instant>)
        ensures
            match r {
                Some(t) => t@ == self@ + d@ && span_in_range(self@ + d@),
                None => !span_in_range(self@ + d@),
            },
    {
        match self.since_start.checked_add(d) {
            Some(since_start) => Some(Instant { since_start }),
            None => None,
        }
    }

    /// Whether this instant is `other` or comes after it.
    pub fn at_or_after(self, other: Instant) -> (b: bool)
        ensures
            b == (self@ >= other@),
    {
        self.since_start.at_least(other.since_start)
    }
}

/// An instant to be shown as the time that has passed since.
pub struct DisplayInstant(pub Instant);

impl DisplayInstant {
    /// The nanoseconds from the instant to `now`, or zero where `now` is the earlier one.
    pub fn elapsed_at(&self, now: Instant) -> (nanos: u128)
        ensures
            nanos == (if now@ >= self.0@ {
                now@ - self.0@
            } else {
                0
            }),
    {
        let from: i128 = self.0.since_start.whole_nanoseconds();
        let to: i128 = now.since_start.whole_nanoseconds();
        if to >= from {
            (to - from) as u128
        } else {
            0
        }
    }
}

/// Nanoseconds from the Unix epoch to the first moment of the year -9999.
pub const UTC_MIN_NANOS: i128 = -377_705_116_800_000_000_000;

/// Nanoseconds from the Unix epoch to the last moment of the year 9999.
pub const UTC_MAX_NANOS: i128 = 253_402_300_799_999_999_999;

/// Whether a point in time `nanos` nanoseconds from the Unix epoch can be represented.
pub open spec fn utc_in_range(nanos: int) -> bool {
    UTC_MIN_NANOS <= nanos <= UTC_MAX_NANOS
}

/// Moves a point in UTC, given and returned as nanoseconds from the Unix epoch, by a span given as
/// its parts.
///
/// Calls `time::OffsetDateTime::checked_add`, on a date and time with the offset UTC. The result is
/// that much later, or `None` where it falls outside the years -9999 to 9999, which are the ones that
/// `time` covers without its feature for larger dates.
#[verifier::external_body]
fn time_utc_checked_add(nanos: i128, d: (i64, i32)) -> (r: Option<i128>)
    requires
        utc_in_range(nanos as int),
        valid_parts(d.0, d.1),
    ensures
        match r {
            Some(n) => n == nanos + nanos_of_parts(d.0, d.1) && utc_in_range(n as int),
            None => !utc_in_range(nanos + nanos_of_parts(d.0, d.1)),
        },
{
    time::OffsetDateTime::from_unix_timestamp_nanos(nanos).ok()?
        .checked_add(time::Duration::new(d.0, d.1))
        .map(|t| t.unix_timestamp_nanos())
}

/// A point in time by the wall clock. Its view is its distance from the Unix epoch in nanoseconds.
#[derive(Clone, Copy, Debug, PartialEq, Eq, PartialOrd, Ord, Hash, Structural)]
pub struct Utc {
    nanos: i128,
}

impl View for Utc {
    type V = int;

    closed spec fn view(&self) -> int {
        self.nanos as int
    }
}

impl Utc {
    #[verifier::type_invariant]
    spec fn in_range(self) -> bool {
        utc_in_range(self.nanos as int)
    }

    /// Midnight, January 1, 1970.
    pub fn unix_epoch() -> (t: Utc)
        ensures
            t@ == 0,
    {
        Utc { nanos: 0 }
    }

    /// The point `nanos` nanoseconds from the Unix epoch, or `None` outside the years -9999 to 9999.
    pub fn from_unix_timestamp_nanos(nanos: i128) -> (r: Option<Utc>)
        ensures
            match r {
                Some(t) => t@ == nanos && utc_in_range(nanos as int),
                None => !utc_in_range(nanos as int),
            },
    {
        if UTC_MIN_NANOS <= nanos && nanos <= UTC_MAX_NANOS {
            Some(Utc { nanos })
        } else {
            None
        }
    }

    /// The distance from the Unix epoch in nanoseconds.
    pub fn unix_timestamp_nanos(self) -> (nanos: i128)
        ensures
            nanos == self@,
            utc_in_range(self@),
    {
        proof {
            use_type_invariant(self);
        }
        self.nanos
    }

    /// The point `d` later, or `None` outside the years -9999 to 9999.
    pub fn checked_add(self, d: Duration) -> (r: Option<Utc>)
        ensures
            match r {
                Some(t) => t@ == self@ + d@ && utc_in_range(self@ + d@),
                None => !utc_in_range(self@ + d@),
            },
    {
        proof {
            use_type_invariant(self);
        }
        match time_utc_checked_add(self.nanos, d.parts()) {
            Some(nanos) => Some(Utc { nanos }),
            None => None,
        }
    }
}

/// What a clock shows: the time since it started, and the time of day.
#[derive(Clone, Copy, Debug)]
pub struct FakeClockInner {
    utc: Utc,
    instant: Instant,
}

impl FakeClockInner {
    /// The time by the wall clock.
    pub closed spec fn utc(self) -> Utc {
        self.utc
    }

    /// The time by the monotone clock.
    pub closed spec fn instant(self) -> Instant {
        self.instant
    }

    /// A clock that starts now and shows `utc`.
    pub fn new(utc: Utc) -> (c: FakeClockInner)
        ensures
            c.utc() == utc,
            c.instant()@ == 0,
    {
        FakeClockInner { utc, instant: Instant::start() }
    }

    /// The time by the monotone clock.
    pub fn now(&self) -> (t: Instant)
        ensures
            t == self.instant(),
    {
        self.instant
    }

    /// The time by the wall clock.
    pub fn now_utc(&self) -> (t: Utc)
        ensures
            t == self.utc(),
    {
        self.utc
    }

    /// The clock moved forward by `d`, or `None` where `d` is negative or a time that cannot be
    /// represented is reached.
    pub fn advanced(self, d: Duration) -> (r: Option<FakeClockInner>)
        ensures
            match r {
                Some(c) => {
                    &&& d@ >= 0
                    &&& span_in_range(self.instant()@ + d@)
                    &&& utc_in_range(self.utc()@ + d@)
                    &&& c.instant()@ == self.instant()@ + d@
                    &&& c.utc()@ == self.utc()@ + d@
                },
                None => d@ < 0 || !span_in_range(self.instant()@ + d@) || !utc_in_range(
                    self.utc()@ + d@,
                ),
            },
    {
        if !d.at_least(Duration::seconds(0)) {
            return None;
        }
        match (self.instant.checked_add(d), self.utc.checked_add(d)) {
            (Some(instant), Some(utc)) => Some(FakeClockInner { utc, instant }),
            _ => None,
        }
    }

    /// Moves the clock forward by `d`.
    pub fn advance(&mut self, d: Duration)
        requires
            d@ >= 0,
            span_in_range(old(self).instant()@ + d@),
            utc_in_range(old(self).utc()@ + d@),
        ensures
            final(self).instant()@ == old(self).instant()@ + d@,
            final(self).utc()@ == old(self).utc()@ + d@,
    {
        if let Some(moved) = self.advanced(d) {
            *self = moved;
        }
    }
}

/// The readings of a clock that showed `start` when it started.
pub ghost struct Readings {
    pub start: int,
}

impl RwLockPredicate<FakeClockInner> for Readings {
    /// Both clocks have moved forward by the same span since the start, to times that can be
    /// represented.
    open spec fn inv(self, c: FakeClockInner) -> bool {
        &&& utc_in_range(self.start)
        &&& c.instant()@ >= 0
        &&& span_in_range(c.instant()@)
        &&& utc_in_range(c.utc()@)
        &&& c.utc()@ == self.start + c.instant()@
    }
}

/// A clock that is moved by hand. Its clones show the same time.
pub struct FakeClock(Arc<RwLock<FakeClockInner, Readings>>);

impl Clone for FakeClock {
    fn clone(&self) -> (c: FakeClock)
        ensures
            c == *self,
    {
        FakeClock(self.0.clone())
    }
}

impl FakeClock {
    /// The time of day that the clock showed when it started, in nanoseconds from the Unix epoch.
    pub closed spec fn start_utc(&self) -> int {
        self.0.pred().start
    }

    /// Whether the clock can show a time `t` nanoseconds after it started.
    pub open spec fn can_show(&self, t: int) -> bool {
        &&& t >= 0
        &&& span_in_range(t)
        &&& utc_in_range(self.start_utc() + t)
    }

    /// A clock that starts now and shows `utc`.
    pub fn new(utc: Utc) -> (c: FakeClock)
        ensures
            c.start_utc() == utc@,
    {
        proof {
            use_type_invariant(utc);
        }
        let inner = FakeClockInner::new(utc);
        FakeClock(Arc::new(RwLock::new(inner, Ghost(Readings { start: utc@ }))))
    }

    fn read(&self) -> (c: FakeClockInner)
        ensures
            self.can_show(c.instant()@),
            c.utc()@ == self.start_utc() + c.instant()@,
    {
        let handle = self.0.acquire_read();
        let c = *handle.borrow();
        handle.release_read();
        c
    }

    /// The time by the monotone clock.
    pub fn now(&self) -> (t: Instant)
        ensures
            self.can_show(t@),
    {
        self.read().now()
    }

    /// The time by the wall clock.
    pub fn now_utc(&self) -> (t: Utc)
        ensures
            self.can_show(t@ - self.start_utc()),
    {
        self.read().now_utc()
    }

    /// A handle through which the clock can be read.
    pub fn clock(&self) -> (c: Clock)
        ensures
            c.fake() == *self,
    {
        Clock(ClockInner::Fake(self.clone()))
    }

    /// Moves the clock forward by `d` and returns `true`, unless a time that cannot be represented
    /// would be reached: then it leaves the clock as it is and returns `false`.
    ///
    /// The time that is moved on from is the one that the clock shows when the call comes, which other
    /// handles may have moved. A span that would take the clock out of range from its start never
    /// moves it.
    pub fn advance(&self, d: Duration) -> (moved: bool)
        requires
            d@ >= 0,
        ensures
            exists|t: int| #[trigger] self.can_show(t) && moved == self.can_show(t + d@),
            d@ == 0 ==> moved,
            moved ==> self.can_show(d@),
    {
        let (c, handle) = self.0.acquire_write();
        assert(self.can_show(c.instant()@));
        match c.advanced(d) {
            Some(c) => {
                handle.release_write(c);
                true
            },
            None => {
                handle.release_write(c);
                false
            },
        }
    }
}

/// The clock behind a handle.
enum ClockInner {
    Fake(FakeClock),
}

/// A handle through which a clock is read.
pub struct Clock(ClockInner);

impl Clone for Clock {
    fn clone(&self) -> (c: Clock)
        ensures
            c == *self,
    {
        match &self.0 {
            ClockInner::Fake(fake) => Clock(ClockInner::Fake(fake.clone())),
        }
    }
}

impl Clock {
    /// The clock that the handle reads.
    pub closed spec fn fake(&self) -> FakeClock {
        match self.0 {
            ClockInner::Fake(fake) => fake,
        }
    }

    /// The time of day that the clock showed when it started, in nanoseconds from the Unix epoch.
    pub open spec fn start_utc(&self) -> int {
        self.fake().start_utc()
    }

    /// Whether the clock can show a time `t` nanoseconds after it started.
    pub open spec fn can_show(&self, t: int) -> bool {
        self.fake().can_show(t)
    }

    /// Current time according to the monotone clock.
    pub fn now(&self) -> (t: Instant)
        ensures
            self.can_show(t@),
    {
        match &self.0 {
            ClockInner::Fake(fake) => fake.now(),
        }
    }

    /// Current time according to the wall clock.
    pub fn now_utc(&self) -> (t: Utc)
        ensures
            self.can_show(t@ - self.start_utc()),
    {
        match &self.0 {
            ClockInner::Fake(fake) => fake.now_utc(),
        }
    }
}

/// A clock can show every time from its start on for which both the time since the start and the time
/// of day can be represented, the latter within the years -9999 to 9999.
pub proof fn law_times_of_clock(clock: FakeClock, t: int)
    ensures
        clock.can_show(t) <==> {
            &&& 0 <= t < 9_223_372_036_854_775_808_000_000_000
            &&& -377_705_116_800_000_000_000 <= clock.start_utc() + t < 253_402_300_800_000_000_000
        },
{
}

} // verus!
