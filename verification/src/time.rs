use std::cmp::Ordering;
use std::ops::{Add, Mul, Sub};
use vstd::prelude::*;

verus! {

/// A point in time: microseconds since the epoch, negative before it.
#[derive(Debug, Clone, Copy, PartialEq, Eq, Structural)]
pub struct Instant {
    pub micros: i64,
}

/// A span of time, in microseconds.
#[derive(Debug, Clone, Copy, PartialEq, Eq, Structural)]
pub struct Duration {
    pub micros: u64,
}

/// The time that passed between the epoch and now by the system's clock, in microseconds: `Ok`
/// when the epoch lies in the past, `Err` when it lies in the future.
///
/// Calls `std::time::SystemTime::elapsed` on `std::time::UNIX_EPOCH`. Nothing is claimed of the
/// result: it depends on the clock.
#[verifier::external_body]
fn elapsed_since_epoch() -> (r: Result<u128, u128>) {
    match std::time::UNIX_EPOCH.elapsed() {
        Ok(duration) => Ok(duration.as_micros()),
        Err(error) => Err(error.duration().as_micros()),
    }
}

impl Instant {
    pub fn from_micros(micros: i64) -> (r: Instant)
        ensures
            r.micros == micros,
    {
        Instant { micros }
    }

    pub fn from_millis(millis: i64) -> (r: Instant)
        requires
            i64::MIN <= millis * 1000 <= i64::MAX,
        ensures
            r.micros == millis * 1000,
    {
        Instant { micros: millis * 1000 }
    }

    /// The instant that lies the given number of microseconds after the epoch (`Ok`) or before
    /// it (`Err`), as near as an `Instant` comes to it.
    pub fn from_clock(elapsed: Result<u128, u128>) -> (r: Instant)
        ensures
            r.micros == match elapsed {
                Ok(after) => if after <= i64::MAX {
                    after as int
                } else {
                    i64::MAX as int
                },
                Err(before) => if before <= i64::MAX {
                    -before
                } else {
                    -i64::MAX
                },
            },
    {
        match elapsed {
            Ok(after) => if after <= i64::MAX as u128 {
                Instant { micros: after as i64 }
            } else {
                Instant { micros: i64::MAX }
            },
            Err(before) => if before <= i64::MAX as u128 {
                Instant { micros: -(before as i64) }
            } else {
                Instant { micros: -i64::MAX }
            },
        }
    }

    /// The current time by the system's clock.
    pub fn now() -> (r: Instant)
        ensures
            -i64::MAX <= r.micros,
    {
        Instant::from_clock(elapsed_since_epoch())
    }
}

impl Duration {
    pub fn from_micros(micros: u64) -> (r: Duration)
        ensures
            r.micros == micros,
    {
        Duration { micros }
    }

    pub fn from_millis(millis: u64) -> (r: Duration)
        requires
            millis * 1000 <= u64::MAX,
        ensures
            r.micros == millis * 1000,
    {
        Duration { micros: millis * 1000 }
    }

    /// The whole milliseconds in this span.
    pub fn total_millis(&self) -> (r: u64)
        ensures
            r == self.micros / 1000,
    {
        self.micros / 1000
    }
}

impl Add<Duration> for Instant {
    type Output = Instant;

    fn add(self, rhs: Duration) -> Instant {
        let micros: i128 = self.micros as i128 + rhs.micros as i128;
        Instant { micros: micros as i64 }
    }
}

impl vstd::std_specs::ops::AddSpecImpl<Duration> for Instant {
    open spec fn obeys_add_spec() -> bool {
        true
    }

    open spec fn add_req(self, rhs: Duration) -> bool {
        self.micros + rhs.micros <= i64::MAX
    }

    open spec fn add_spec(self, rhs: Duration) -> Instant {
        Instant { micros: (self.micros + rhs.micros) as i64 }
    }
}

impl Sub<Instant> for Instant {
    type Output = Duration;

    fn sub(self, rhs: Instant) -> Duration {
        let distance: i128 = self.micros as i128 - rhs.micros as i128;
        if distance < 0 {
            Duration { micros: (-distance) as u64 }
        } else {
            Duration { micros: distance as u64 }
        }
    }
}

impl vstd::std_specs::ops::SubSpecImpl<Instant> for Instant {
    open spec fn obeys_sub_spec() -> bool {
        true
    }

    open spec fn sub_req(self, rhs: Instant) -> bool {
        i64::MIN <= self.micros - rhs.micros <= i64::MAX
    }

    open spec fn sub_spec(self, rhs: Instant) -> Duration {
        if self.micros < rhs.micros {
            Duration { micros: (rhs.micros - self.micros) as u64 }
        } else {
            Duration { micros: (self.micros - rhs.micros) as u64 }
        }
    }
}

impl Mul<u32> for Duration {
    type Output = Duration;

    fn mul(self, rhs: u32) -> Duration {
        Duration { micros: self.micros * rhs as u64 }
    }
}

impl vstd::std_specs::ops::MulSpecImpl<u32> for Duration {
    open spec fn obeys_mul_spec() -> bool {
        true
    }

    open spec fn mul_req(self, rhs: u32) -> bool {
        self.micros * rhs <= u64::MAX
    }

    open spec fn mul_spec(self, rhs: u32) -> Duration {
        Duration { micros: (self.micros * rhs) as u64 }
    }
}

impl PartialOrd for Instant {
    fn partial_cmp(&self, other: &Instant) -> (r: Option<Ordering>) {
        if self.micros < other.micros {
            Some(Ordering::Less)
        } else if self.micros == other.micros {
            Some(Ordering::Equal)
        } else {
            Some(Ordering::Greater)
        }
    }
}

impl vstd::std_specs::cmp::PartialOrdSpecImpl for Instant {
    open spec fn obeys_partial_cmp_spec() -> bool {
        true
    }

    open spec fn partial_cmp_spec(&self, other: &Instant) -> Option<Ordering> {
        if self.micros < other.micros {
            Some(Ordering::Less)
        } else if self.micros == other.micros {
            Some(Ordering::Equal)
        } else {
            Some(Ordering::Greater)
        }
    }
}

/// A span added to an instant can be taken off it again: the distance back is the span.
pub proof fn distance_is_what_was_added(at: Instant, span: Duration, later: Instant, r: Duration)
    requires
        call_ensures(Instant::add, (at, span), later),
        call_ensures(Instant::sub, (later, at), r),
        at.micros + span.micros <= i64::MAX,
    ensures
        later.micros == at.micros + span.micros,
        r == span,
{
}

/// The span between two instants is the same from either end.
pub proof fn distance_has_no_direction(a: Instant, b: Instant, r1: Duration, r2: Duration)
    requires
        call_ensures(Instant::sub, (a, b), r1),
        call_ensures(Instant::sub, (b, a), r2),
        -u64::MAX <= a.micros - b.micros <= u64::MAX,
    ensures
        r1 == r2,
        r1.micros == a.micros - b.micros || r1.micros == b.micros - a.micros,
{
}

/// A span times `n` is `n` times as long.
pub proof fn span_is_multiplied(span: Duration, n: u32, r: Duration)
    requires
        call_ensures(Duration::mul, (span, n), r),
        span.micros * n <= u64::MAX,
    ensures
        r.micros == span.micros * n,
{
    assert(span.micros * n >= 0) by (nonlinear_arith);
}

/// Instants are ordered as their microseconds are.
pub proof fn instants_are_ordered(a: Instant, b: Instant, r: Option<Ordering>)
    requires
        call_ensures(Instant::partial_cmp, (&a, &b), r),
    ensures
        a.micros < b.micros <==> r == Some(Ordering::Less),
        a.micros == b.micros <==> r == Some(Ordering::Equal),
        a.micros > b.micros <==> r == Some(Ordering::Greater),
{
}

/// A millisecond is a thousand microseconds, in a span as in an instant, and whole milliseconds
/// are rounded down.
pub proof fn millisecond_is_a_thousand_microseconds(
    millis: u64,
    span: Duration,
    at: Instant,
    signed_millis: i64,
    measured: &Duration,
    r: u64,
)
    requires
        call_ensures(Duration::from_millis, (millis,), span),
        call_ensures(Instant::from_millis, (signed_millis,), at),
        call_ensures(Duration::total_millis, (measured,), r),
    ensures
        span.micros == millis * 1000,
        at.micros == signed_millis * 1000,
        r * 1000 <= measured.micros < r * 1000 + 1000,
{
}

/// Microseconds are kept as they are.
pub proof fn microseconds_are_kept(a: i64, at: Instant, b: u64, span: Duration)
    requires
        call_ensures(Instant::from_micros, (a,), at),
        call_ensures(Duration::from_micros, (b,), span),
    ensures
        at.micros == a,
        span.micros == b,
{
}

/// A reading of the clock is exact within the range of an instant, after the epoch and before it,
/// and the end of that range beyond.
pub proof fn clock_is_read_exactly(elapsed: Result<u128, u128>, r: Instant)
    requires
        call_ensures(Instant::from_clock, (elapsed,), r),
    ensures
        match elapsed {
            Ok(after) => {
                &&& after <= i64::MAX ==> r.micros == after
                &&& after > i64::MAX ==> r.micros == i64::MAX
            },
            Err(before) => {
                &&& before <= i64::MAX ==> r.micros + before == 0
                &&& before > i64::MAX ==> r.micros + i64::MAX == 0
            },
        },
{
}

} // verus!
