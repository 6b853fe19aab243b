//! Signed spans of time with nanosecond precision.

use vstd::prelude::*;

verus! {

/// Nanoseconds in one second.
pub const NANOS_PER_SECOND: i128 = 1_000_000_000;

/// Whether `seconds` and `nanoseconds` are the two halves of a span: less than a second of
/// nanoseconds, on the same side of zero as the seconds.
pub open spec fn valid_parts(seconds: i64, nanoseconds: i32) -> bool {
    &&& -1_000_000_000 < nanoseconds < 1_000_000_000
    &&& seconds > 0 ==> nanoseconds >= 0
    &&& seconds < 0 ==> nanoseconds <= 0
}

/// The span that `seconds` and `nanoseconds` add up to, in nanoseconds.
pub open spec fn nanos_of_parts(seconds: i64, nanoseconds: i32) -> int {
    seconds * 1_000_000_000 + nanoseconds
}

/// Whether a span of `nanos` nanoseconds can be represented.
pub open spec fn span_in_range(nanos: int) -> bool {
    i64::MIN * 1_000_000_000 - 999_999_999 <= nanos <= i64::MAX * 1_000_000_000 + 999_999_999
}

/// The factor that a span is multiplied by when it is multiplied by `n`: the two's complement
/// reading of `n`. It is `n` itself up to `i32::MAX`.
pub open spec fn span_factor(n: u32) -> int {
    if n <= i32::MAX {
        n as int
    } else {
        n - 0x1_0000_0000
    }
}

/// Adds two spans, given and returned as their parts.
///
/// Calls `time::Duration::checked_add`, which returns the sum of the two spans, or `None` where the
/// sum is out of range.
#[verifier::external_body]
fn time_checked_add(a: (i64, i32), b: (i64, i32)) -> (r: Option<(i64, i32)>)
    requires
        valid_parts(a.0, a.1),
        valid_parts(b.0, b.1),
    ensures
        match r {
            Some(p) => valid_parts(p.0, p.1) && nanos_of_parts(p.0, p.1) == nanos_of_parts(a.0, a.1)
                + nanos_of_parts(b.0, b.1),
            None => !span_in_range(nanos_of_parts(a.0, a.1) + nanos_of_parts(b.0, b.1)),
        },
{
    time::Duration::new(a.0, a.1)
        .checked_add(time::Duration::new(b.0, b.1))
        .map(|d| (d.whole_seconds(), d.subsec_nanoseconds()))
}

/// Multiplies a span, given and returned as its parts, by `n`.
///
/// Calls `time::Duration`'s multiplication by a `u32`. It reads the factor as an `i32` of the same
/// bits, so that a factor above `i32::MAX` counts as a negative one, and panics where the product
/// is out of range.
#[verifier::external_body]
fn time_mul(a: (i64, i32), n: u32) -> (r: (i64, i32))
    requires
        valid_parts(a.0, a.1),
        span_in_range(nanos_of_parts(a.0, a.1) * span_factor(n)),
    ensures
        valid_parts(r.0, r.1),
        nanos_of_parts(r.0, r.1) == nanos_of_parts(a.0, a.1) * span_factor(n),
{
    let d = time::Duration::new(a.0, a.1) * n;
    (d.whole_seconds(), d.subsec_nanoseconds())
}

/// Calls `time::Duration::seconds`: a span of that many seconds.
#[verifier::external_body]
fn time_seconds(seconds: i64) -> (r: (i64, i32))
    ensures
        valid_parts(r.0, r.1),
        nanos_of_parts(r.0, r.1) == seconds * 1_000_000_000,
{
    let d = time::Duration::seconds(seconds);
    (d.whole_seconds(), d.subsec_nanoseconds())
}

/// Calls `time::Duration::milliseconds`: a span of that many milliseconds.
#[verifier::external_body]
fn time_milliseconds(milliseconds: i64) -> (r: (i64, i32))
    ensures
        valid_parts(r.0, r.1),
        nanos_of_parts(r.0, r.1) == milliseconds * 1_000_000,
{
    let d = time::Duration::milliseconds(milliseconds);
    (d.whole_seconds(), d.subsec_nanoseconds())
}

/// A span of time, which may be negative. Its view is its length in nanoseconds.
#[derive(Clone, Copy, Debug, PartialEq, Eq, PartialOrd, Ord, Hash, Structural)]
pub struct Duration {
    seconds: i64,
    nanoseconds: i32,
}

impl View for Duration {
    type V = int;

    closed spec fn view(&self) -> int {
        nanos_of_parts(self.seconds, self.nanoseconds)
    }
}

impl Duration {
    #[verifier::type_invariant]
    spec fn parts_agree(self) -> bool {
        valid_parts(self.seconds, self.nanoseconds)
    }

    /// A span of the given number of seconds.
    pub fn seconds(seconds: i64) -> (d: Duration)
        ensures
            d@ == seconds * 1_000_000_000,
    {
        let (seconds, nanoseconds) = time_seconds(seconds);
        Duration { seconds, nanoseconds }
    }

    /// A span of the given number of milliseconds.
    pub fn milliseconds(milliseconds: i64) -> (d: Duration)
        ensures
            d@ == milliseconds * 1_000_000,
    {
        let (seconds, nanoseconds) = time_milliseconds(milliseconds);
        Duration { seconds, nanoseconds }
    }

    /// The span with the given parts, or `None` where they are not the parts of a span.
    pub fn from_parts(seconds: i64, nanoseconds: i32) -> (r: Option<Duration>)
        ensures
            match r {
                Some(d) => valid_parts(seconds, nanoseconds) && d@ == nanos_of_parts(
                    seconds,
                    nanoseconds,
                ),
                None => !valid_parts(seconds, nanoseconds),
            },
    {
        if -1_000_000_000 < nanoseconds && nanoseconds < 1_000_000_000 && (seconds <= 0
            || nanoseconds >= 0) && (seconds >= 0 || nanoseconds <= 0) {
            Some(Duration { seconds, nanoseconds })
        } else {
            None
        }
    }

    /// The length of the span in nanoseconds.
    pub fn whole_nanoseconds(self) -> (nanos: i128)
        ensures
            nanos == self@,
            span_in_range(self@),
    {
        proof {
            use_type_invariant(self);
        }
        self.seconds as i128 * NANOS_PER_SECOND + self.nanoseconds as i128
    }

    /// The whole seconds in the span and the nanoseconds beyond them.
    pub fn parts(self) -> (p: (i64, i32))
        ensures
            valid_parts(p.0, p.1),
            nanos_of_parts(p.0, p.1) == self@,
    {
        proof {
            use_type_invariant(self);
        }
        (self.seconds, self.nanoseconds)
    }

    /// The sum of two spans, or `None` where it cannot be represented.
    pub fn checked_add(self, other: Duration) -> (r: Option<Duration>)
        ensures
            match r {
                Some(d) => d@ == self@ + other@ && span_in_range(self@ + other@),
                None => !span_in_range(self@ + other@),
            },
    {
        match time_checked_add(self.parts(), other.parts()) {
            Some((seconds, nanoseconds)) => Some(Duration { seconds, nanoseconds }),
            None => None,
        }
    }

    /// The span times `n`.
    pub fn times(self, n: u32) -> (d: Duration)
        requires
            span_in_range(self@ * span_factor(n)),
        ensures
            d@ == self@ * span_factor(n),
    {
        let (seconds, nanoseconds) = time_mul(self.parts(), n);
        Duration { seconds, nanoseconds }
    }

    /// Whether the span is at least as long as `other`.
    pub fn at_least(self, other: Duration) -> (b: bool)
        ensures
            b == (self@ >= other@),
    {
        proof {
            use_type_invariant(self);
            use_type_invariant(other);
        }
        self.seconds > other.seconds || (self.seconds == other.seconds && self.nanoseconds
            >= other.nanoseconds)
    }

    /// The shorter of two spans.
    pub fn min(self, other: Duration) -> (d: Duration)
        ensures
            d@ == (if self@ <= other@ {
                self@
            } else {
                other@
            }),
    {
        if other.at_least(self) {
            self
        } else {
            other
        }
    }
}

/// The spans that can be represented are those that have parts.
pub proof fn law_span_range_is_that_of_parts(nanos: int)
    ensures
        span_in_range(nanos) <==> exists|seconds: i64, nanoseconds: i32|
            valid_parts(seconds, nanoseconds) && #[trigger] nanos_of_parts(seconds, nanoseconds)
                == nanos,
        span_in_range(nanos) <==> -9_223_372_036_854_775_809_000_000_000 < nanos
            < 9_223_372_036_854_775_808_000_000_000,
{
    if span_in_range(nanos) {
        if nanos >= 0 {
            let seconds = (nanos / 1_000_000_000) as i64;
            let nanoseconds = (nanos % 1_000_000_000) as i32;
            assert(valid_parts(seconds, nanoseconds) && nanos_of_parts(seconds, nanoseconds)
                == nanos);
        } else {
            let seconds = (-((-nanos) / 1_000_000_000)) as i64;
            let nanoseconds = (-((-nanos) % 1_000_000_000)) as i32;
            assert(valid_parts(seconds, nanoseconds) && nanos_of_parts(seconds, nanoseconds)
                == nanos);
        }
    }
}

} // verus!
